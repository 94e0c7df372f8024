//! Decoding one value piece by piece, as the pieces come in from a byte source.
//!
//! Nothing here reads. A `ReadState` says what to read next, the caller reads it from the
//! source, and `ReadState::step` decides from what was read how the decoding goes on.

use vstd::prelude::*;
use vstd::utf8::valid_utf8;
use crate::decode::{BULK_STRING, SIMPLE_STRING};
use crate::length::{decode_length, length_field, NULL_LENGTH};
use crate::line::{CARRIAGE_RETURN, LINE_FEED};
use crate::value::{Frame, RespError};

verus! {

/// A decoded value that owns its payload.
#[derive(Debug, PartialEq, Eq)]
pub enum OwnedValue {
    SimpleString(Vec<u8>),
    BulkString(Vec<u8>),
    Null,
}

impl View for OwnedValue {
    type V = Frame;

    open spec fn view(&self) -> Frame {
        match *self {
            OwnedValue::SimpleString(line) => Frame::SimpleString(line@),
            OwnedValue::BulkString(payload) => Frame::BulkString(payload@),
            OwnedValue::Null => Frame::Null,
        }
    }
}

/// What is to be read from the byte source next.
#[derive(Debug, Clone, Copy, PartialEq, Eq)]
pub enum Demand {
    /// Exactly this many bytes.
    Bytes(usize),
    /// One line, up to and including its line feed.
    Line,
}

/// How far the reading of one value has come: what the next piece from the source is.
#[derive(Debug, PartialEq, Eq)]
pub enum ReadState {
    /// The type byte.
    Tag,
    /// The line of a simple string.
    SimpleLine,
    /// The length line of a bulk string.
    LengthLine,
    /// The payload of a bulk string of this length.
    Payload { length: usize },
    /// The two bytes behind the payload of a bulk string.
    Trailer { payload: Vec<u8> },
}

/// The mathematical content of a `ReadState`.
pub enum Phase {
    Tag,
    SimpleLine,
    LengthLine,
    Payload { length: usize },
    Trailer { payload: Seq<u8> },
}

impl View for ReadState {
    type V = Phase;

    open spec fn view(&self) -> Phase {
        match *self {
            ReadState::Tag => Phase::Tag,
            ReadState::SimpleLine => Phase::SimpleLine,
            ReadState::LengthLine => Phase::LengthLine,
            ReadState::Payload { length } => Phase::Payload { length },
            ReadState::Trailer { payload } => Phase::Trailer { payload: payload@ },
        }
    }
}

/// How the decoding goes on after one piece was read.
#[derive(Debug, PartialEq, Eq)]
pub enum Step {
    /// More is to be read.
    Next(ReadState),
    /// The value is complete.
    Done(OwnedValue),
    /// What was read is no value.
    Failed(RespError),
}

/// The mathematical content of a `Step`.
pub enum Advance {
    Next(Phase),
    Done(Frame),
    Failed(RespError),
}

impl View for Step {
    type V = Advance;

    open spec fn view(&self) -> Advance {
        match *self {
            Step::Next(state) => Advance::Next(state@),
            Step::Done(value) => Advance::Done(value@),
            Step::Failed(error) => Advance::Failed(error),
        }
    }
}

/// What is to be read in a phase.
pub open spec fn demanded(phase: Phase) -> Demand {
    match phase {
        Phase::Tag => Demand::Bytes(1),
        Phase::SimpleLine => Demand::Line,
        Phase::LengthLine => Demand::Line,
        Phase::Payload { length } => Demand::Bytes(length),
        Phase::Trailer { .. } => Demand::Bytes(2),
    }
}

/// `input` is what was to be read in `phase`: where a number of bytes was asked for,
/// `input` has that many.
pub open spec fn answers(phase: Phase, input: Seq<u8>) -> bool {
    match demanded(phase) {
        Demand::Bytes(count) => input.len() == count,
        Demand::Line => true,
    }
}

/// A line without its line end: without the carriage return and line feed that it ends
/// with, or without the line feed alone that it ends with. A line that ends otherwise is
/// left as it is.
pub open spec fn without_line_end(line: Seq<u8>) -> Seq<u8> {
    let n = line.len() as int;
    if n >= 2 && line[n - 2] == CARRIAGE_RETURN && line[n - 1] == LINE_FEED {
        line.take(n - 2)
    } else if n >= 1 && line[n - 1] == LINE_FEED {
        line.take(n - 1)
    } else {
        line
    }
}

/// How the decoding goes on from `phase` once `input` was read.
///
/// A simple string is its line without the line end. A bulk string is its payload, once
/// the two bytes behind it were read; what those two hold is not looked at. Either must be
/// well-formed UTF-8, or it is invalid data.
pub open spec fn advance(phase: Phase, input: Seq<u8>) -> Advance {
    match phase {
        Phase::Tag => if input[0] == SIMPLE_STRING {
            Advance::Next(Phase::SimpleLine)
        } else if input[0] == BULK_STRING {
            Advance::Next(Phase::LengthLine)
        } else {
            Advance::Failed(RespError::InvalidData)
        },
        Phase::SimpleLine => if valid_utf8(without_line_end(input)) {
            Advance::Done(Frame::SimpleString(without_line_end(input)))
        } else {
            Advance::Failed(RespError::InvalidData)
        },
        Phase::LengthLine => match length_field(without_line_end(input)) {
            Some(length) => if length == NULL_LENGTH {
                Advance::Done(Frame::Null)
            } else {
                Advance::Next(Phase::Payload { length: length as usize })
            },
            None => Advance::Failed(RespError::InvalidLength),
        },
        Phase::Payload { .. } => Advance::Next(Phase::Trailer { payload: input }),
        Phase::Trailer { payload } => if valid_utf8(payload) {
            Advance::Done(Frame::BulkString(payload))
        } else {
            Advance::Failed(RespError::InvalidData)
        },
    }
}

/// The number of pieces that are still to be read at most before the value is complete.
pub open spec fn pieces_left(phase: Phase) -> nat {
    match phase {
        Phase::Tag => 4,
        Phase::SimpleLine => 1,
        Phase::LengthLine => 3,
        Phase::Payload { .. } => 2,
        Phase::Trailer { .. } => 1,
    }
}

/// Every step that asks for more brings the end nearer: no value takes more than four
/// pieces.
pub proof fn lemma_step_brings_end_nearer(phase: Phase, input: Seq<u8>)
    ensures
        advance(phase, input) matches Advance::Next(next) ==> pieces_left(next) < pieces_left(
            phase,
        ),
{
}

/// Reading from a source never fails for want of data: the errors of a step are invalid
/// data and invalid length, and no others.
pub proof fn lemma_step_errors(phase: Phase, input: Seq<u8>)
    ensures
        advance(phase, input) matches Advance::Failed(error) ==> error == RespError::InvalidData
            || error == RespError::InvalidLength,
{
}

/// Tells whether `bytes` are well-formed UTF-8, with `std::str::from_utf8`.
///
/// Trusted: that function accepts a slice exactly when it is valid UTF-8.
#[verifier::external_body]
fn is_text(bytes: &[u8]) -> (ok: bool)
    ensures
        ok == valid_utf8(bytes@),
{
    match std::str::from_utf8(bytes) {
        Ok(_) => true,
        Err(_) => false,
    }
}

/// Takes the line end off `line`.
pub fn strip_line_end(line: Vec<u8>) -> (stripped: Vec<u8>)
    ensures
        stripped@ == without_line_end(line@),
{
    let mut line = line;
    let n: usize = line.len();
    if n >= 1 && line[n - 1] == LINE_FEED {
        if n >= 2 && line[n - 2] == CARRIAGE_RETURN {
            line.truncate(n - 2);
        } else {
            line.truncate(n - 1);
        }
    }
    line
}

impl ReadState {
    /// The state before anything was read.
    pub fn start() -> (state: ReadState)
        ensures
            state@ == Phase::Tag,
    {
        ReadState::Tag
    }

    /// What is to be read from the source in this state.
    pub fn demand(&self) -> (demand: Demand)
        ensures
            demand == demanded(self@),
    {
        match self {
            ReadState::Tag => Demand::Bytes(1),
            ReadState::SimpleLine => Demand::Line,
            ReadState::LengthLine => Demand::Line,
            ReadState::Payload { length } => Demand::Bytes(*length),
            ReadState::Trailer { .. } => Demand::Bytes(2),
        }
    }

    /// Decides how the decoding goes on, given the `input` that was read from the source
    /// to meet `self.demand()`.
    pub fn step(self, input: Vec<u8>) -> (step: Step)
        requires
            answers(self@, input@),
        ensures
            step@ == advance(self@, input@),
    {
        match self {
            ReadState::Tag => {
                let tag: u8 = input[0];
                if tag == SIMPLE_STRING {
                    Step::Next(ReadState::SimpleLine)
                } else if tag == BULK_STRING {
                    Step::Next(ReadState::LengthLine)
                } else {
                    Step::Failed(RespError::InvalidData)
                }
            },
            ReadState::SimpleLine => {
                let line = strip_line_end(input);
                if is_text(line.as_slice()) {
                    Step::Done(OwnedValue::SimpleString(line))
                } else {
                    Step::Failed(RespError::InvalidData)
                }
            },
            ReadState::LengthLine => {
                let line = strip_line_end(input);
                match decode_length(line.as_slice()) {
                    Ok(length) => {
                        if length == NULL_LENGTH {
                            Step::Done(OwnedValue::Null)
                        } else {
                            Step::Next(ReadState::Payload { length: length as usize })
                        }
                    },
                    Err(_) => Step::Failed(RespError::InvalidLength),
                }
            },
            ReadState::Payload { .. } => Step::Next(ReadState::Trailer { payload: input }),
            ReadState::Trailer { payload } => {
                if is_text(payload.as_slice()) {
                    Step::Done(OwnedValue::BulkString(payload))
                } else {
                    Step::Failed(RespError::InvalidData)
                }
            },
        }
    }
}

} // verus!
