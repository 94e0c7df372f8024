//! Splitting a buffer at the first line terminator.

use vstd::prelude::*;
use crate::search::{
    find_bytes, find_subsequence, first_occurrence, lemma_first_occurrence_found,
    FIND_BYTES_LIMIT,
};

verus! {

/// The byte carriage return.
pub const CARRIAGE_RETURN: u8 = 13;

/// The byte line feed.
pub const LINE_FEED: u8 = 10;

/// The line terminator: carriage return, line feed.
pub const NEWLINE: [u8; 2] = [13, 10];

/// The line terminator as a sequence of bytes.
pub open spec fn terminator() -> Seq<u8> {
    seq![CARRIAGE_RETURN, LINE_FEED]
}

/// Splits `data` at its first terminator into the line before it and the rest behind it.
///
/// Without a terminator there is no line, and the rest is all of `data`.
///
/// A buffer of more than `FIND_BYTES_LIMIT` bytes is searched offset by offset, which is
/// slower and finds the same terminator.
pub fn split_line(data: &[u8]) -> (parts: (Option<&[u8]>, &[u8]))
    ensures
        match first_occurrence(data@, terminator()) {
            Some(at) => {
                &&& parts.0 matches Some(line)
                &&& line@ == data@.subrange(0, at)
                &&& parts.1@ == data@.subrange(at + 2, data@.len() as int)
            },
            None => parts.0 is None && parts.1@ == data@,
        },
{
    let newline: [u8; 2] = NEWLINE;
    let pattern: &[u8] = newline.as_slice();
    assert(pattern@ =~= terminator());
    let found = if data.len() <= FIND_BYTES_LIMIT {
        find_bytes(data, pattern)
    } else {
        find_subsequence(data, pattern)
    };
    match found {
        Some(at) => {
            proof {
                lemma_first_occurrence_found(data@, terminator(), at as int);
                assert(at + terminator().len() <= data@.len() == data.len());
            }
            let line = &data[0..at];
            let rest = &data[at + 2..data.len()];
            (Some(line), rest)
        },
        None => (None, data),
    }
}

} // verus!
