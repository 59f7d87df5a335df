//! A cross-domain message-dispatch-and-acknowledgement protocol.
//!
//! A caller submits an opaque command to be executed against a target on a
//! (possibly remote) domain, reached through named channels.  Execution
//! reports a success/error outcome back to the originator through a chain of
//! acknowledgements, with local sub-calls correlated to their completion via
//! a continuation identifier.  The packet and acknowledgement envelopes are
//! JSON documents with base64 payloads; their encoders and decoders are
//! verified to invert one another.
//!
//! The decoders accept exactly the canonical text the encoders emit: fixed
//! field order, no extra whitespace, strings escaped as the escaper does.
//! A foreign sender must produce that canonical form; anything else is
//! answered as a malformed envelope.

pub mod ack;
pub mod b64;
pub mod controller;
pub mod dispatcher;
pub mod echo;
pub mod example;
pub mod extension;
pub mod jstr;
pub mod registry;
pub mod response;
pub mod strutil;
