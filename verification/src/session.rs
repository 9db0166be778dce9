//! The protocol session: handshake framing and the inbound state machine.
//!
//! After the two handshake messages are sent, the server streams binary
//! audio-chunk frames interleaved with text control frames.  The session
//! classifies each received message, appends matching audio payloads to its
//! buffer, and completes only on a `turn.end` control frame carrying its own
//! request identity.  A frame that bears the identity-carrying control path
//! but no matching identity is a fatal protocol error, never silently
//! dropped.

use vstd::prelude::*;

use crate::headers::{
    crlf_crlf, find_at, has_header, headers_contain, headers_view, lemma_find_at_bounds,
    parse_headers, parse_headers_chars,
};
use crate::headers::find_str;
use vstd::slice::{slice_subrange, slice_to_vec};

verus! {

/// One message received from the transport, as the session sees it.
pub enum InboundMessage {
    /// A text frame: a header block, a blank line, then an optional body.
    Text(String),
    /// A binary frame: a two-byte header length, the header block, the payload.
    Binary(Vec<u8>),
    /// Any other transport-level message (ping, pong, close, ...).
    Other,
}

/// Why a session failed.
#[derive(Debug, Clone, PartialEq, Eq)]
pub enum SessionError {
    /// A text frame without the blank-line boundary after its headers.
    MalformedTextFrame,
    /// A binary frame shorter than its declared header block.
    MalformedBinaryFrame { response_len: usize, header_len: usize },
    /// An `audio` or `turn.end` frame without a matching request identity.
    IdentityMismatch,
}

/// The phase a session is in.
#[derive(Debug, Clone, Copy, PartialEq, Eq, Structural)]
pub enum SessionState {
    /// Handshake sent; receiving frames.
    Streaming,
    /// A matching `turn.end` frame arrived; the audio buffer is complete.
    Completed,
    /// A fatal frame arrived; the audio buffer is discarded.
    Failed,
}

/// What one inbound message means for the session.
pub enum FrameOutcome {
    /// No state change: an unrecognized path or an ignorable message kind.
    Ignore,
    /// A matching audio chunk: these bytes join the buffer.
    Append(Seq<u8>),
    /// A matching `turn.end`: the session is complete.
    Complete,
    /// A fatal protocol error.
    Fail(SessionError),
}

/// The `Path` header name.
pub open spec fn path_key() -> Seq<char> {
    seq!['P', 'a', 't', 'h']
}

/// The `turn.end` control path value.
pub open spec fn turn_end_value() -> Seq<char> {
    seq!['t', 'u', 'r', 'n', '.', 'e', 'n', 'd']
}

/// The `audio` control path value.
pub open spec fn audio_value() -> Seq<char> {
    seq!['a', 'u', 'd', 'i', 'o']
}

/// The `X-RequestId` header name.
pub open spec fn request_id_key() -> Seq<char> {
    seq!['X', '-', 'R', 'e', 'q', 'u', 'e', 's', 't', 'I', 'd']
}

/// Name for the lossy UTF-8 decoding of a byte string: it depends on the
/// bytes alone.
pub uninterp spec fn lossy_utf8(bytes: Seq<u8>) -> Seq<char>;

/// Relies on String::from_utf8_lossy: the decoding is a function of the
/// bytes alone, and valid UTF-8 passes through unchanged, so a pure-ASCII
/// byte string decodes to its own characters.
#[verifier::external_body]
fn utf8_lossy(bytes: &[u8]) -> (r: String)
    ensures
        r@ == lossy_utf8(bytes@),
        (forall|i: int| 0 <= i < bytes@.len() ==> bytes@[i] < 128) ==> r@ == Seq::new(
            bytes@.len(),
            |i: int| bytes@[i] as char,
        ),
{
    String::from_utf8_lossy(bytes).into_owned()
}

/// What a text frame means: malformed without a blank-line boundary;
/// complete on `Path: turn.end` with a matching identity; fatal on
/// `Path: turn.end` with a missing or different identity; ignored otherwise.
pub open spec fn text_outcome(s: Seq<char>, id: Seq<char>) -> FrameOutcome {
    match find_at(s, crlf_crlf(), 0) {
        None => FrameOutcome::Fail(SessionError::MalformedTextFrame),
        Some(j) => {
            let hs = parse_headers_chars(s.subrange(0, j));
            if has_header(hs, path_key(), turn_end_value()) {
                if has_header(hs, request_id_key(), id) {
                    FrameOutcome::Complete
                } else {
                    FrameOutcome::Fail(SessionError::IdentityMismatch)
                }
            } else {
                FrameOutcome::Ignore
            }
        },
    }
}

/// The header-block length declared by a binary frame's first two bytes,
/// big-endian.
pub open spec fn declared_header_len(b: Seq<u8>) -> int {
    b[0] * 256 + b[1]
}

/// What a binary frame means: malformed when shorter than its declared
/// header block; an audio chunk on `Path: audio` with a matching identity;
/// fatal on `Path: audio` with a missing or different identity; ignored
/// otherwise.
pub open spec fn binary_outcome(b: Seq<u8>, id: Seq<char>) -> FrameOutcome {
    if b.len() < 2 {
        FrameOutcome::Fail(
            SessionError::MalformedBinaryFrame { response_len: b.len() as usize, header_len: 0 },
        )
    } else if b.len() < declared_header_len(b) + 2 {
        FrameOutcome::Fail(
            (SessionError::MalformedBinaryFrame {
                response_len: b.len() as usize,
                header_len: declared_header_len(b) as usize,
            }),
        )
    } else {
        let hs = parse_headers_chars(lossy_utf8(b.subrange(2, 2 + declared_header_len(b))));
        if has_header(hs, path_key(), audio_value()) {
            if has_header(hs, request_id_key(), id) {
                FrameOutcome::Append(b.subrange(2 + declared_header_len(b), b.len() as int))
            } else {
                FrameOutcome::Fail(SessionError::IdentityMismatch)
            }
        } else {
            FrameOutcome::Ignore
        }
    }
}

/// What one inbound message means for a session with identity `id`.
pub open spec fn message_outcome(msg: InboundMessage, id: Seq<char>) -> FrameOutcome {
    match msg {
        InboundMessage::Text(s) => text_outcome(s@, id),
        InboundMessage::Binary(b) => binary_outcome(b@, id),
        InboundMessage::Other => FrameOutcome::Ignore,
    }
}

/// One synthesis session: the expected request identity, the audio
/// accumulated so far, and the phase.
pub struct Session {
    /// The identity every `audio` and `turn.end` frame must carry.
    pub request_id: String,
    /// The audio payload bytes, in arrival order.
    pub audio: Vec<u8>,
    /// The phase the session is in.
    pub state: SessionState,
}

impl Session {
    /// A fresh session expecting frames tagged with `request_id`.
    pub fn new(request_id: String) -> (s: Session)
        ensures
            s.request_id == request_id,
            s.audio@ == Seq::<u8>::empty(),
            s.state is Streaming,
    {
        Session { request_id, audio: Vec::new(), state: SessionState::Streaming }
    }

    /// True while the session still expects frames.
    pub fn is_streaming(&self) -> (r: bool)
        ensures
            r == (self.state is Streaming),
    {
        match self.state {
            SessionState::Streaming => true,
            _ => false,
        }
    }

    /// True once a matching `turn.end` frame arrived.
    pub fn is_completed(&self) -> (r: bool)
        ensures
            r == (self.state is Completed),
    {
        match self.state {
            SessionState::Completed => true,
            _ => false,
        }
    }

    /// The complete audio buffer of a completed session.
    pub fn into_audio(self) -> (r: Vec<u8>)
        requires
            self.state is Completed,
        ensures
            r@ == self.audio@,
    {
        self.audio
    }

    /// Feeds one received message to the session: the state and the buffer
    /// change exactly as [`message_outcome`] classifies the message.
    pub fn step(&mut self, msg: InboundMessage) -> (r: Result<(), SessionError>)
        requires
            old(self).state is Streaming,
        ensures
            final (self).request_id == old(self).request_id,
            ({
                let oc = message_outcome(msg, old(self).request_id@);
                match oc {
                    FrameOutcome::Ignore => r is Ok && final (self).state is Streaming
                        && final (self).audio@ == old(self).audio@,
                    FrameOutcome::Append(p) => r is Ok && final (self).state is Streaming
                        && final (self).audio@ == old(self).audio@ + p,
                    FrameOutcome::Complete => r is Ok && final (self).state is Completed
                        && final (self).audio@ == old(self).audio@,
                    FrameOutcome::Fail(e) => r == Result::<(), SessionError>::Err(e)
                        && final (self).state is Failed && final (self).audio@ == old(self).audio@,
                }
            }),
    {
        proof {
            reveal_strlit("\r\n\r\n");
            reveal_strlit("Path");
            reveal_strlit("turn.end");
            reveal_strlit("audio");
            reveal_strlit("X-RequestId");
            assert("\r\n\r\n"@ =~= crlf_crlf());
            assert("Path"@ =~= path_key());
            assert("turn.end"@ =~= turn_end_value());
            assert("audio"@ =~= audio_value());
            assert("X-RequestId"@ =~= request_id_key());
        }
        match msg {
            InboundMessage::Text(s) => {
                match find_str(s.as_str(), "\r\n\r\n") {
                    None => {
                        self.state = SessionState::Failed;
                        Err(SessionError::MalformedTextFrame)
                    },
                    Some(j) => {
                        proof {
                            lemma_find_at_bounds(s@, crlf_crlf(), 0, j as int);
                        }
                        let header_block: &str = s.as_str().substring_char(0, j);
                        let hs = parse_headers(header_block);
                        if headers_contain(&hs, "Path", "turn.end") {
                            if headers_contain(&hs, "X-RequestId", self.request_id.as_str()) {
                                self.state = SessionState::Completed;
                                Ok(())
                            } else {
                                self.state = SessionState::Failed;
                                Err(SessionError::IdentityMismatch)
                            }
                        } else {
                            Ok(())
                        }
                    },
                }
            },
            InboundMessage::Binary(b) => {
                let total = b.len();
                if total < 2 {
                    self.state = SessionState::Failed;
                    return Err(
                        SessionError::MalformedBinaryFrame { response_len: total, header_len: 0 },
                    );
                }
                let header_len: usize = (b[0] as usize) * 256 + (b[1] as usize);
                if total < header_len + 2 {
                    self.state = SessionState::Failed;
                    return Err(
                        SessionError::MalformedBinaryFrame {
                            response_len: total,
                            header_len: header_len,
                        },
                    );
                }
                let header_bytes: &[u8] = slice_subrange(b.as_slice(), 2, 2 + header_len);
                let header_text = utf8_lossy(header_bytes);
                let hs = parse_headers(header_text.as_str());
                if headers_contain(&hs, "Path", "audio") {
                    if headers_contain(&hs, "X-RequestId", self.request_id.as_str()) {
                        let payload: &[u8] = slice_subrange(b.as_slice(), 2 + header_len, total);
                        let mut chunk = slice_to_vec(payload);
                        self.audio.append(&mut chunk);
                        Ok(())
                    } else {
                        self.state = SessionState::Failed;
                        Err(SessionError::IdentityMismatch)
                    }
                } else {
                    Ok(())
                }
            },
            InboundMessage::Other => Ok(()),
        }
    }
}

/// The speech-configuration handshake message for one output format.
pub open spec fn speech_config_chars(output_format: Seq<char>) -> Seq<char> {
    "Content-Type:application/json; charset=utf-8\r\nPath:speech.config\r\n\r\n{\"context\":{\"synthesis\":{\"audio\":{\"metadataoptions\":{\"sentenceBoundaryEnabled\":false,\"wordBoundaryEnabled\":true},\"outputFormat\":\""@
        + output_format + "\"}}}}"@
}

/// Builds the first handshake message: the speech configuration naming the
/// requested output audio format.
pub fn speech_config_message(output_format: &str) -> (r: String)
    ensures
        r@ == speech_config_chars(output_format@),
{
    let mut s = String::from_str(
        "Content-Type:application/json; charset=utf-8\r\nPath:speech.config\r\n\r\n{\"context\":{\"synthesis\":{\"audio\":{\"metadataoptions\":{\"sentenceBoundaryEnabled\":false,\"wordBoundaryEnabled\":true},\"outputFormat\":\"",
    );
    s.append(output_format);
    s.append("\"}}}}");
    s
}

/// The synthesis handshake message carrying the request identity and the
/// markup document.
pub open spec fn ssml_message_chars(request_id: Seq<char>, ssml: Seq<char>) -> Seq<char> {
    "X-RequestId:"@ + request_id + "\r\nContent-Type:application/ssml+xml\r\nPath:ssml\r\n\r\n"@
        + ssml
}

/// Builds the second handshake message: the markup document tagged with the
/// session's request identity.
pub fn ssml_message(request_id: &str, ssml: &str) -> (r: String)
    ensures
        r@ == ssml_message_chars(request_id@, ssml@),
{
    let mut s = String::from_str("X-RequestId:");
    s.append(request_id);
    s.append("\r\nContent-Type:application/ssml+xml\r\nPath:ssml\r\n\r\n");
    s.append(ssml);
    s
}

/// A session completes only on a text frame; and a text frame completes it
/// exactly when the frame has a blank-line boundary, its headers carry
/// `Path: turn.end`, and they carry `X-RequestId` equal to the session's
/// identity.
pub proof fn lemma_complete_only_on_matching_turn_end(msg: InboundMessage, id: Seq<char>)
    ensures
        message_outcome(msg, id) is Complete ==> msg is Text,
        (msg matches InboundMessage::Text(s) ==> (message_outcome(msg, id) is Complete <==> (
        find_at(s@, crlf_crlf(), 0) matches Some(j) && has_header(
            parse_headers_chars(s@.subrange(0, j)),
            path_key(),
            turn_end_value(),
        ) && has_header(parse_headers_chars(s@.subrange(0, j)), request_id_key(), id)))),
{
}

/// A message appends audio only when it is a binary frame, long enough for
/// its declared header block, whose headers carry `Path: audio` and an
/// `X-RequestId` equal to the session's identity; and then it appends
/// exactly its payload bytes.
pub proof fn lemma_append_only_on_matching_audio(msg: InboundMessage, id: Seq<char>)
    ensures
        message_outcome(msg, id) is Append ==> msg is Binary,
        (msg matches InboundMessage::Binary(b) ==> (message_outcome(msg, id) is Append <==> (
        b@.len() >= 2 && b@.len() >= declared_header_len(b@) + 2 && has_header(
            parse_headers_chars(lossy_utf8(b@.subrange(2, 2 + declared_header_len(b@)))),
            path_key(),
            audio_value(),
        ) && has_header(
            parse_headers_chars(lossy_utf8(b@.subrange(2, 2 + declared_header_len(b@)))),
            request_id_key(),
            id,
        )))),
        (msg matches InboundMessage::Binary(b) ==> (message_outcome(msg, id) is Append
            ==> message_outcome(msg, id) == FrameOutcome::Append(
            b@.subrange(2 + declared_header_len(b@), b@.len() as int),
        ))),
{
}

/// The audio buffer is append-only: a step never removes or reorders bytes;
/// whatever was accumulated before a message stays a prefix of what stands
/// after it.
pub proof fn lemma_audio_buffer_append_only(
    before: Seq<u8>,
    after: Seq<u8>,
    msg: InboundMessage,
    id: Seq<char>,
)
    requires
        after == (match message_outcome(msg, id) {
            FrameOutcome::Append(p) => before + p,
            _ => before,
        }),
    ensures
        before.len() <= after.len(),
        after.subrange(0, before.len() as int) == before,
{
    match message_outcome(msg, id) {
        FrameOutcome::Append(p) => {
            assert(after.subrange(0, before.len() as int) =~= before);
        },
        _ => {
            assert(after.subrange(0, before.len() as int) =~= before);
        },
    }
}

/// A `turn.end` frame whose identity is missing or different never
/// completes the session: it fails it with an identity mismatch.
pub proof fn lemma_turn_end_identity_mismatch_is_fatal(s: Seq<char>, id: Seq<char>, j: int)
    requires
        find_at(s, crlf_crlf(), 0) == Some(j),
        has_header(parse_headers_chars(s.subrange(0, j)), path_key(), turn_end_value()),
        !has_header(parse_headers_chars(s.subrange(0, j)), request_id_key(), id),
    ensures
        text_outcome(s, id) == FrameOutcome::Fail(SessionError::IdentityMismatch),
{
}

} // verus!
