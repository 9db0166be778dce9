use edge_tts::token::{generate_sec_ms_gec_sync, token_for_time};

#[test]
fn token_has_exact_known_value() {
    // Unix time 0 shifts to tick count 116444736000000000; the token is the
    // uppercase SHA-256 hex of "116444736000000000secret".
    let t = token_for_time(0, "secret");
    assert_eq!(
        t,
        "2FFC3DA12CF84F6DC1ABD6915B4F1F57CCE920746ABABDAE0A5D8066EEDB38C3"
    );
}

#[test]
fn token_is_stable_within_a_window() {
    // 0 and 299 fall in the same 300-second bucket.
    assert_eq!(token_for_time(0, "secret"), token_for_time(299, "secret"));
    // 1_000_000_000 rounds down to 999_999_900; the window ends at
    // 1_000_000_200.
    assert_eq!(
        token_for_time(1_000_000_000, "k"),
        token_for_time(1_000_000_199, "k")
    );
}

#[test]
fn token_changes_at_a_window_boundary() {
    assert_ne!(token_for_time(299, "secret"), token_for_time(300, "secret"));
    assert_eq!(
        token_for_time(300, "secret"),
        "C204CC225E4EC623FAD89E285369A4FE7451AF4239A0E1D885D2126E90A6A7EB"
    );
}

#[test]
fn token_depends_on_the_secret() {
    assert_ne!(token_for_time(0, "secret"), token_for_time(0, "other"));
}

#[test]
fn generated_token_is_64_uppercase_hex_chars() {
    let t = generate_sec_ms_gec_sync("6A5AA1D4EAFF4E9FB37E23D68491D6F4");
    assert_eq!(t.len(), 64);
    assert!(t.chars().all(|c| c.is_ascii_digit() || ('A'..='F').contains(&c)));
}
