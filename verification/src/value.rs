//! Decoded values and decoding errors.

use vstd::prelude::*;

verus! {

/// Why a buffer could not be decoded.
#[derive(Debug, Clone, Copy, PartialEq, Eq)]
pub enum RespError {
    /// A bulk string has no terminated length line.
    MissingLength,
    /// The length line of a bulk string is not a length.
    InvalidLength,
    /// The buffer is empty or starts with an unknown type byte.
    InvalidData,
    /// A simple string has no terminator.
    MissingEndOfLine,
    /// A bulk string announces more bytes than the buffer holds after the length line.
    /// `required` counts the payload and the terminator behind it, `actual` the bytes at hand.
    NotEnoughData { required: usize, actual: usize },
}

/// A decoded value that borrows its payload from the buffer it was decoded from.
#[derive(Debug, Clone, Copy, PartialEq, Eq)]
pub enum RedisValue<'data> {
    SimpleString(&'data [u8]),
    BulkString(&'data [u8]),
    Null,
}

/// The mathematical content of a decoded value.
pub enum Frame {
    SimpleString(Seq<u8>),
    BulkString(Seq<u8>),
    Null,
}

impl<'data> View for RedisValue<'data> {
    type V = Frame;

    open spec fn view(&self) -> Frame {
        match *self {
            RedisValue::SimpleString(line) => Frame::SimpleString(line@),
            RedisValue::BulkString(payload) => Frame::BulkString(payload@),
            RedisValue::Null => Frame::Null,
        }
    }
}

/// What the result of a decoding attempt means: the content of the value, or the error.
pub open spec fn outcome(result: Result<RedisValue<'_>, RespError>) -> Result<Frame, RespError> {
    match result {
        Ok(value) => Ok(value@),
        Err(error) => Err(error),
    }
}

} // verus!
