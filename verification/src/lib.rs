//! Decoder for a subset of the RESP wire protocol.

pub mod decode;
pub mod length;
pub mod line;
pub mod search;
pub mod stream;
pub mod value;
