//! Length-prefixed framing for a multiplexed request/response byte stream.
//!
//! A frame on the wire is an 8-byte big-endian identifier, an 8-byte big-endian payload
//! length, and then that many payload bytes. [`Codec`] appends frames to an outbound buffer
//! and parses them incrementally from an inbound [`tokio_core::io::EasyBuf`], refusing on
//! both paths any payload longer than the limit it was made with. The identifier is carried
//! and never interpreted, and a payload is a sequence of bytes: what it serializes is the
//! caller's business, so a payload that its reader cannot make sense of harms no other frame.
//!
//! [`codec`] holds the codec and the model of one decoding call, [`laws`] what is proved of
//! encoding and decoding together, [`wire`] the header's integers, [`buffer`] what is assumed
//! of the inbound buffer, [`error`] the errors, and [`proto`] the binding that makes the codec
//! of each connection.

pub mod buffer;
pub mod codec;
pub mod error;
pub mod laws;
pub mod proto;
pub mod wire;

pub use crate::codec::{Codec, CodecState};
pub use crate::error::{too_big, CodecError, Oversize};
pub use crate::proto::Proto;
