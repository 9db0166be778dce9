//! Verified core of a streaming text-to-speech protocol client.
//!
//! The crate builds the speech-markup payload, computes the time-bucketed
//! authentication token, frames the two handshake messages, and parses the
//! inbound stream of text control frames and binary audio frames into one
//! ordered audio buffer, with request-identity validation and
//! session-termination detection.  The network transport itself stays outside:
//! callers feed received messages to the session state machine one by one.

pub mod endpoint;
pub mod headers;
pub mod markup;
pub mod token;
pub mod ident;
pub mod session;
