//! Wire engine for the gob self-describing binary interchange format.
//!
//! The crate covers the byte-level layers of a gob stream: the
//! variable-length integer codec, a positional message cursor, the
//! section framing, the per-stream type dictionary, and the value and
//! struct codecs that sit on top of them.

pub mod buffer;
pub mod decoder;
pub mod encoder;
pub mod error;
pub mod message;
pub mod stream;
pub mod types;
pub mod value;
pub mod varint;
pub mod wire;
