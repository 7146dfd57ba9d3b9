//! A minimal binary message-framing codec.
//!
//! A [`MessageBuilder`] accumulates header key/value pairs and an optional
//! body and produces a validated [`Message`]; the message encodes itself
//! into a single sentinel-delimited byte buffer (`to_bytes`) and is
//! recovered from such a buffer (`from_bytes`), with every length and
//! offset checked against the actual buffer before use.

pub mod builder;
pub mod headers;
pub mod laws;
pub mod message;
pub mod text;
pub mod wire;

pub use builder::MessageBuilder;
pub use message::Message;
pub use wire::u16_to_u8s;
