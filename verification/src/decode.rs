//! Decoding one value from the front of a buffer.

use vstd::prelude::*;
use crate::length::{decode_length, length_field, NULL_LENGTH};
use crate::line::{split_line, terminator, NEWLINE};
use crate::search::{first_occurrence, lemma_first_occurrence};
use crate::value::{outcome, Frame, RedisValue, RespError};

verus! {

/// The type byte of a simple string, `+`.
pub const SIMPLE_STRING: u8 = 43;

/// The type byte of a bulk string, `$`.
pub const BULK_STRING: u8 = 36;

/// What the bytes behind the type byte of a simple string decode to: the line before the
/// first terminator. Bytes behind that terminator play no part.
pub open spec fn simple_string_frame(data: Seq<u8>) -> Result<Frame, RespError> {
    match first_occurrence(data, terminator()) {
        Some(at) => Ok(Frame::SimpleString(data.subrange(0, at))),
        None => Err(RespError::MissingEndOfLine),
    }
}

/// What a bulk string decodes to once its length line is known to announce `length` and
/// `rest` is what follows that line.
///
/// The payload is the first `length` bytes of `rest`. Two more bytes must follow it, and
/// what they hold is not looked at.
pub open spec fn bulk_payload_frame(length: int, rest: Seq<u8>) -> Result<Frame, RespError> {
    if length == NULL_LENGTH {
        Ok(Frame::Null)
    } else if rest.len() < length + 2 {
        Err(
            RespError::NotEnoughData {
                required: (length + 2) as usize,
                actual: rest.len() as usize,
            },
        )
    } else {
        Ok(Frame::BulkString(rest.subrange(0, length)))
    }
}

/// What the bytes behind the type byte of a bulk string decode to.
pub open spec fn bulk_string_frame(data: Seq<u8>) -> Result<Frame, RespError> {
    match first_occurrence(data, terminator()) {
        Some(at) => match length_field(data.subrange(0, at)) {
            Some(length) => bulk_payload_frame(length, data.subrange(at + 2, data.len() as int)),
            None => Err(RespError::InvalidLength),
        },
        None => Err(RespError::MissingLength),
    }
}

/// What a buffer decodes to: the value at its front, chosen by the type byte.
pub open spec fn frame(data: Seq<u8>) -> Result<Frame, RespError> {
    if data.len() > 0 && data[0] == SIMPLE_STRING {
        simple_string_frame(data.skip(1))
    } else if data.len() > 0 && data[0] == BULK_STRING {
        bulk_string_frame(data.skip(1))
    } else {
        Err(RespError::InvalidData)
    }
}

/// The length that the length line of a buffer announces, where the buffer starts a bulk
/// string and holds a whole length line that is a length.
pub open spec fn announced_length(data: Seq<u8>) -> Option<int> {
    if data.len() > 0 && data[0] == BULK_STRING {
        match first_occurrence(data.skip(1), terminator()) {
            Some(at) => length_field(data.skip(1).subrange(0, at)),
            None => None,
        }
    } else {
        None
    }
}

/// `part` is a range of `whole`: it starts and ends inside it.
pub open spec fn lies_within(part: Seq<u8>, whole: Seq<u8>) -> bool {
    exists|from: int, to: int|
        0 <= from <= to <= whole.len() && part == #[trigger] whole.subrange(from, to)
}

/// A decoded bulk string is exactly as long as its length line announces, and the null
/// value is decoded from the announced length -1 alone.
pub proof fn lemma_bulk_string_length(data: Seq<u8>)
    ensures
        frame(data) matches Ok(Frame::BulkString(payload)) ==> announced_length(data) == Some(
            payload.len() as int,
        ),
        frame(data) == Ok::<Frame, RespError>(Frame::Null) <==> announced_length(data) == Some(
            NULL_LENGTH as int,
        ),
{
}

/// Where the buffer is too short for the announced bulk string, the error counts what is
/// missing: `required` is the announced length and the two bytes of the terminator behind
/// the payload, `actual` is the number of bytes behind the length line, and it is the
/// smaller of the two.
pub proof fn lemma_not_enough_data(data: Seq<u8>)
    ensures
        frame(data) matches Err(RespError::NotEnoughData { required, actual }) ==> {
            &&& actual < required
            &&& announced_length(data) == Some(required - 2)
            &&& first_occurrence(data.skip(1), terminator()) matches Some(at)
            &&& actual == data.len() - 1 - at - 2
        },
{
}

/// The payload of a decoded value is a range of the buffer: no byte of it lies behind the
/// end of the buffer.
pub proof fn lemma_payload_within_buffer(data: Seq<u8>)
    ensures
        frame(data) matches Ok(Frame::SimpleString(line)) ==> lies_within(line, data),
        frame(data) matches Ok(Frame::BulkString(payload)) ==> lies_within(payload, data),
{
    if data.len() > 0 {
        let body = data.skip(1);
        lemma_first_occurrence(body, terminator());
        if let Some(at) = first_occurrence(body, terminator()) {
            assert(terminator().len() == 2);
            if let Ok(Frame::SimpleString(line)) = frame(data) {
                assert(line =~= data.subrange(1, 1 + at));
            }
            if let Ok(Frame::BulkString(payload)) = frame(data) {
                let from = 1 + at + 2;
                assert(payload =~= data.subrange(from, from + payload.len()));
            }
        }
    }
}

/// Decoding is a function of the bytes of the buffer: two runs of `resp_parse` on buffers
/// that hold the same bytes end in the same value or the same error.
pub proof fn lemma_resp_parse_deterministic(
    first_data: &[u8],
    first: Result<RedisValue<'_>, RespError>,
    second_data: &[u8],
    second: Result<RedisValue<'_>, RespError>,
)
    requires
        call_ensures(resp_parse, (first_data,), first),
        call_ensures(resp_parse, (second_data,), second),
        first_data@ == second_data@,
    ensures
        outcome(first) == outcome(second),
{
}

/// Decodes a simple string from the bytes that follow its type byte.
pub fn parse_simple_string(data: &[u8]) -> (result: Result<RedisValue<'_>, RespError>)
    ensures
        outcome(result) == simple_string_frame(data@),
{
    match split_line(data) {
        (Some(line), _) => Ok(RedisValue::SimpleString(line)),
        (None, _) => Err(RespError::MissingEndOfLine),
    }
}

/// Decodes a bulk string from the bytes that follow its type byte.
pub fn parse_bulk_string(data: &[u8]) -> (result: Result<RedisValue<'_>, RespError>)
    ensures
        outcome(result) == bulk_string_frame(data@),
{
    match split_line(data) {
        (Some(line), rest) => {
            let length: isize = match decode_length(line) {
                Ok(length) => length,
                Err(_) => {
                    return Err(RespError::InvalidLength);
                },
            };
            if length == NULL_LENGTH {
                return Ok(RedisValue::Null);
            }
            let length: usize = length as usize;
            let required: usize = length + NEWLINE.len();
            let actual: usize = rest.len();
            if actual < required {
                Err(RespError::NotEnoughData { required, actual })
            } else {
                let payload = &rest[0..length];
                Ok(RedisValue::BulkString(payload))
            }
        },
        (None, _) => Err(RespError::MissingLength),
    }
}

/// Decodes the value at the front of `data`.
///
/// Only the first value is decoded; bytes behind it are left alone. Every buffer is
/// decoded or refused with an error: none is read behind its end.
pub fn resp_parse(data: &[u8]) -> (result: Result<RedisValue<'_>, RespError>)
    ensures
        outcome(result) == frame(data@),
        result matches Ok(RedisValue::SimpleString(line)) ==> lies_within(line@, data@),
        result matches Ok(RedisValue::BulkString(payload)) ==> lies_within(payload@, data@)
            && announced_length(data@) == Some(payload@.len() as int),
        result matches Ok(RedisValue::Null) ==> announced_length(data@) == Some(
            NULL_LENGTH as int,
        ),
        result matches Err(RespError::NotEnoughData { required, actual }) ==> actual < required
            && announced_length(data@) == Some(required - 2),
{
    proof {
        lemma_bulk_string_length(data@);
        lemma_not_enough_data(data@);
        lemma_payload_within_buffer(data@);
    }
    if data.len() == 0 {
        return Err(RespError::InvalidData);
    }
    let tag: u8 = data[0];
    if tag == SIMPLE_STRING {
        let body = &data[1..data.len()];
        assert(body@ =~= data@.skip(1));
        parse_simple_string(body)
    } else if tag == BULK_STRING {
        let body = &data[1..data.len()];
        assert(body@ =~= data@.skip(1));
        parse_bulk_string(body)
    } else {
        Err(RespError::InvalidData)
    }
}

} // verus!
