use edge_tts::headers::{headers_contain, parse_headers};
use edge_tts::ident::random_request_id;

#[test]
fn parses_simple_header_block() {
    let hs = parse_headers("Path:turn.end\r\nX-RequestId:abc123");
    assert_eq!(hs.len(), 2);
    assert_eq!(hs[0], ("Path".to_owned(), "turn.end".to_owned()));
    assert_eq!(hs[1], ("X-RequestId".to_owned(), "abc123".to_owned()));
}

#[test]
fn skips_empty_lines_and_keeps_order() {
    let hs = parse_headers("A:1\r\n\r\nB:2\r\nA:3\r\n");
    assert_eq!(
        hs,
        vec![
            ("A".to_owned(), "1".to_owned()),
            ("B".to_owned(), "2".to_owned()),
            ("A".to_owned(), "3".to_owned()),
        ]
    );
}

#[test]
fn splits_each_line_at_the_first_colon_only() {
    let hs = parse_headers("Content-Type:application/json; charset=utf-8\r\nK:a:b:c");
    assert_eq!(hs[0].1, "application/json; charset=utf-8");
    assert_eq!(hs[1], ("K".to_owned(), "a:b:c".to_owned()));
}

#[test]
fn line_without_colon_gets_empty_value() {
    let hs = parse_headers("justaname");
    assert_eq!(hs, vec![("justaname".to_owned(), String::new())]);
}

#[test]
fn empty_block_parses_to_nothing() {
    assert!(parse_headers("").is_empty());
}

#[test]
fn contains_finds_exact_pairs_only() {
    let hs = parse_headers("Path:audio\r\nX-RequestId:deadbeef");
    assert!(headers_contain(&hs, "Path", "audio"));
    assert!(!headers_contain(&hs, "Path", "turn.end"));
    assert!(!headers_contain(&hs, "path", "audio"));
    assert!(headers_contain(&hs, "X-RequestId", "deadbeef"));
}

#[test]
fn request_id_is_32_lowercase_hex_chars() {
    let id = random_request_id();
    assert_eq!(id.len(), 32);
    assert!(id.chars().all(|c| c.is_ascii_digit() || ('a'..='f').contains(&c)));
}

#[test]
fn request_ids_are_fresh_per_session() {
    assert_ne!(random_request_id(), random_request_id());
}
