use edge_tts::markup::build_ssml;

#[test]
fn builds_expected_document_for_plain_inputs() {
    let doc = build_ssml("hello world", "en-US-AriaNeural", "medium", "fast", "loud");
    let expected = "<speak version=\"1.0\" xmlns=\"http://www.w3.org/2001/10/synthesis\" xmlns:mstts=\"https://www.w3.org/2001/mstts\" xml:lang=\"en-US\"><voice name=\"en-US-AriaNeural\"><prosody pitch=\"medium\" rate=\"fast\" volume=\"loud\">hello world</prosody></voice></speak>";
    assert_eq!(doc, expected);
}

#[test]
fn escapes_reserved_characters_in_text() {
    let doc = build_ssml("a < b && c > d", "voice", "default", "default", "default");
    assert!(doc.contains("a &lt; b &amp;&amp; c &gt; d"));
    // No raw '<' survives inside the element content.
    let marker = "volume=\"default\">";
    let content_start = doc.find(marker).unwrap() + marker.len();
    let content_end = doc.find("</prosody>").unwrap();
    let content = &doc[content_start..content_end];
    assert!(!content.contains('<'));
    assert!(!content.contains('>'));
}

#[test]
fn unescaping_the_content_gives_back_the_text() {
    let text = "1 < 2 & \"three\" > 'four'";
    let doc = build_ssml(text, "voice", "default", "default", "default");
    let content_start = doc.find("volume=\"default\">").unwrap() + "volume=\"default\">".len();
    let content_end = doc.find("</prosody>").unwrap();
    let content = &doc[content_start..content_end];
    let unescaped = content
        .replace("&lt;", "<")
        .replace("&gt;", ">")
        .replace("&amp;", "&");
    assert_eq!(unescaped, text);
}

#[test]
fn escapes_quotes_in_attribute_values() {
    let doc = build_ssml("text", "na\"me", "p'itch", "ra<te", "vo&lume");
    assert!(doc.contains("name=\"na&quot;me\""));
    assert!(doc.contains("pitch=\"p&apos;itch\""));
    assert!(doc.contains("rate=\"ra&lt;te\""));
    assert!(doc.contains("volume=\"vo&amp;lume\""));
}

#[test]
fn empty_and_non_ascii_text_always_succeed() {
    let doc = build_ssml("", "v", "p", "r", "vol");
    assert!(doc.contains("volume=\"vol\"></prosody>"));
    let doc2 = build_ssml("héllo wörld — 你好", "v", "p", "r", "vol");
    assert!(doc2.contains("héllo wörld — 你好"));
}

#[test]
fn identical_arguments_give_byte_identical_output() {
    let a = build_ssml("some < text", "voice\"x", "high", "x-slow", "x-loud");
    let b = build_ssml("some < text", "voice\"x", "high", "x-slow", "x-loud");
    assert_eq!(a.as_bytes(), b.as_bytes());
}
