use edge_tts::session::{
    speech_config_message, ssml_message, InboundMessage, Session, SessionError,
};

fn binary_frame(headers: &str, payload: &[u8]) -> Vec<u8> {
    let hb = headers.as_bytes();
    let mut out = Vec::new();
    out.push((hb.len() / 256) as u8);
    out.push((hb.len() % 256) as u8);
    out.extend_from_slice(hb);
    out.extend_from_slice(payload);
    out
}

fn audio_frame(id: &str, payload: &[u8]) -> Vec<u8> {
    binary_frame(&format!("Path:audio\r\nX-RequestId:{}\r\n", id), payload)
}

fn turn_end_text(id: &str) -> String {
    format!("X-RequestId:{}\r\nPath:turn.end\r\n\r\n", id)
}

#[test]
fn truncated_binary_frame_is_malformed() {
    // Declared header length 5, but only 4 bytes follow the length prefix.
    let mut s = Session::new("id".to_owned());
    let frame = vec![0x00, 0x05, b'P', b'a', b't', b'h'];
    let r = s.step(InboundMessage::Binary(frame));
    assert_eq!(
        r,
        Err(SessionError::MalformedBinaryFrame { response_len: 6, header_len: 5 })
    );
    assert!(!s.is_streaming());
    assert!(!s.is_completed());
}

#[test]
fn binary_frame_shorter_than_length_prefix_is_malformed() {
    let mut s = Session::new("id".to_owned());
    let r = s.step(InboundMessage::Binary(vec![0x00]));
    assert_eq!(
        r,
        Err(SessionError::MalformedBinaryFrame { response_len: 1, header_len: 0 })
    );
}

#[test]
fn matching_audio_frame_appends_exactly_its_payload() {
    let mut s = Session::new("feedc0de".to_owned());
    let r = s.step(InboundMessage::Binary(audio_frame("feedc0de", b"PAYLOAD")));
    assert_eq!(r, Ok(()));
    assert!(s.is_streaming());
    let r2 = s.step(InboundMessage::Text(turn_end_text("feedc0de")));
    assert_eq!(r2, Ok(()));
    assert!(s.is_completed());
    assert_eq!(s.into_audio(), b"PAYLOAD".to_vec());
}

#[test]
fn completes_only_on_matching_turn_end() {
    let mut s = Session::new("abc".to_owned());
    // A turn.end tagged with a different id is a fatal identity mismatch.
    let r = s.step(InboundMessage::Text(turn_end_text("zzz")));
    assert_eq!(r, Err(SessionError::IdentityMismatch));
    assert!(!s.is_completed());
}

#[test]
fn turn_end_without_id_header_is_identity_mismatch() {
    let mut s = Session::new("abc".to_owned());
    let r = s.step(InboundMessage::Text("Path:turn.end\r\n\r\n".to_owned()));
    assert_eq!(r, Err(SessionError::IdentityMismatch));
    assert!(!s.is_completed());
}

#[test]
fn text_frame_without_blank_line_is_malformed() {
    let mut s = Session::new("abc".to_owned());
    let r = s.step(InboundMessage::Text("Path:turn.end\r\nX-RequestId:abc".to_owned()));
    assert_eq!(r, Err(SessionError::MalformedTextFrame));
    assert!(!s.is_completed());
}

#[test]
fn two_audio_frames_then_turn_end_yield_concatenated_audio() {
    let mut s = Session::new("00ff".to_owned());
    assert_eq!(s.step(InboundMessage::Binary(audio_frame("00ff", b"AB"))), Ok(()));
    assert_eq!(s.step(InboundMessage::Binary(audio_frame("00ff", b"CD"))), Ok(()));
    assert_eq!(s.step(InboundMessage::Text(turn_end_text("00ff"))), Ok(()));
    assert!(s.is_completed());
    assert_eq!(s.into_audio(), b"ABCD".to_vec());
}

#[test]
fn foreign_audio_frame_discards_the_session() {
    let mut s = Session::new("00ff".to_owned());
    assert_eq!(s.step(InboundMessage::Binary(audio_frame("00ff", b"AB"))), Ok(()));
    let r = s.step(InboundMessage::Binary(audio_frame("1234", b"CD")));
    assert_eq!(r, Err(SessionError::IdentityMismatch));
    // The session is failed: the buffer built so far is never returned.
    assert!(!s.is_completed());
    assert!(!s.is_streaming());
}

#[test]
fn audio_frame_without_id_header_is_identity_mismatch() {
    let mut s = Session::new("00ff".to_owned());
    let frame = binary_frame("Path:audio\r\n", b"XY");
    assert_eq!(
        s.step(InboundMessage::Binary(frame)),
        Err(SessionError::IdentityMismatch)
    );
}

#[test]
fn other_paths_and_message_kinds_are_ignored() {
    let mut s = Session::new("00ff".to_owned());
    assert_eq!(
        s.step(InboundMessage::Text("Path:turn.start\r\nX-RequestId:zzz\r\n\r\n".to_owned())),
        Ok(())
    );
    let meta = binary_frame("Path:metadata\r\nX-RequestId:zzz\r\n", b"ignored");
    assert_eq!(s.step(InboundMessage::Binary(meta)), Ok(()));
    assert_eq!(s.step(InboundMessage::Other), Ok(()));
    assert!(s.is_streaming());
    assert_eq!(s.step(InboundMessage::Text(turn_end_text("00ff"))), Ok(()));
    assert_eq!(s.into_audio(), Vec::<u8>::new());
}

#[test]
fn audio_payload_may_be_empty() {
    let mut s = Session::new("id".to_owned());
    assert_eq!(s.step(InboundMessage::Binary(audio_frame("id", b""))), Ok(()));
    assert_eq!(s.step(InboundMessage::Text(turn_end_text("id"))), Ok(()));
    assert_eq!(s.into_audio(), Vec::<u8>::new());
}

#[test]
fn speech_config_message_has_exact_layout() {
    let m = speech_config_message("audio-24khz-48kbitrate-mono-mp3");
    let expected = "Content-Type:application/json; charset=utf-8\r\nPath:speech.config\r\n\r\n{\"context\":{\"synthesis\":{\"audio\":{\"metadataoptions\":{\"sentenceBoundaryEnabled\":false,\"wordBoundaryEnabled\":true},\"outputFormat\":\"audio-24khz-48kbitrate-mono-mp3\"}}}}";
    assert_eq!(m, expected);
}

#[test]
fn ssml_message_has_exact_layout() {
    let m = ssml_message("0123abcd", "<speak>hi</speak>");
    assert_eq!(
        m,
        "X-RequestId:0123abcd\r\nContent-Type:application/ssml+xml\r\nPath:ssml\r\n\r\n<speak>hi</speak>"
    );
}

#[test]
fn synthesis_url_has_exact_layout() {
    let url = edge_tts::endpoint::synthesis_url("TOKEN64", "aaaabbbb-cccc-dddd-eeee-ffff00001111");
    assert_eq!(
        url,
        "wss://speech.platform.bing.com/consumer/speech/synthesize/readaloud/edge/v1?TrustedClientToken=6A5AA1D4EAFF4E9FB37E23D68491D6F4&Sec-MS-GEC=TOKEN64&Sec-MS-GEC-Version=1-143.0.3650.139&ConnectionId=aaaabbbb-cccc-dddd-eeee-ffff00001111"
    );
}
