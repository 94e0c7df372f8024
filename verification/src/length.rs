//! The length line of a bulk string.

use vstd::prelude::*;
use vstd::utf8::{is_leading_byte_width_1, partial_valid_utf8_extend_ascii_block, valid_utf8};
use crate::value::RespError;

verus! {

/// The byte `+`.
pub const PLUS: u8 = 43;

/// The byte `-`.
pub const MINUS: u8 = 45;

/// The byte `0`; the other decimal digits follow it in order.
pub const ZERO: u8 = 48;

/// The byte `9`.
pub const NINE: u8 = 57;

/// The length that announces a null bulk string.
pub const NULL_LENGTH: isize = -1;

/// `byte` is one of the decimal digits `0` to `9`.
pub open spec fn is_digit(byte: u8) -> bool {
    ZERO <= byte <= NINE
}

/// Every byte of `bytes` is a decimal digit.
pub open spec fn all_digits(bytes: Seq<u8>) -> bool {
    forall|i: int| 0 <= i < bytes.len() ==> is_digit(#[trigger] bytes[i])
}

/// The number that a run of decimal digits writes, most significant digit first.
pub open spec fn decimal_value(digits: Seq<u8>) -> nat
    decreases digits.len(),
{
    if digits.len() == 0 {
        0
    } else {
        decimal_value(digits.drop_last()) * 10 + (digits.last() - ZERO) as nat
    }
}

/// The integer that `text` writes in decimal: an optional sign, then one digit or more and
/// nothing else. `None` where `text` is not of that form.
pub open spec fn signed_decimal(text: Seq<u8>) -> Option<int> {
    if text.len() > 0 && (text[0] == PLUS || text[0] == MINUS) {
        let digits = text.skip(1);
        if digits.len() > 0 && all_digits(digits) {
            Some(
                if text[0] == MINUS {
                    -(decimal_value(digits) as int)
                } else {
                    decimal_value(digits) as int
                },
            )
        } else {
            None
        }
    } else if text.len() > 0 && all_digits(text) {
        Some(decimal_value(text) as int)
    } else {
        None
    }
}

/// The length that a length line announces: a decimal integer that is a byte count no
/// greater than `isize::MAX`, or -1 for the null bulk string. `None` for every other line.
pub open spec fn length_field(line: Seq<u8>) -> Option<int> {
    match signed_decimal(line) {
        Some(value) => if NULL_LENGTH <= value <= isize::MAX {
            Some(value)
        } else {
            None
        },
        None => None,
    }
}

/// A run of digits is worth at least as much as any of its prefixes.
pub proof fn lemma_decimal_value_grows(digits: Seq<u8>, k: int)
    requires
        0 <= k <= digits.len(),
        all_digits(digits),
    ensures
        decimal_value(digits.take(k)) <= decimal_value(digits),
    decreases digits.len(),
{
    if k == digits.len() {
        assert(digits.take(k) =~= digits);
    } else {
        let shorter = digits.drop_last();
        assert(shorter.take(k) =~= digits.take(k));
        assert(all_digits(shorter)) by {
            assert forall|i: int| 0 <= i < shorter.len() implies is_digit(
                #[trigger] shorter[i],
            ) by {
                assert(shorter[i] == digits[i]);
            }
        }
        lemma_decimal_value_grows(shorter, k);
        assert(is_digit(digits[digits.len() - 1]));
    }
}

/// A line that announces a length is plain ASCII, and so well-formed UTF-8: to read the
/// line as text before it is read as a number rejects no line that is a length.
pub proof fn lemma_length_line_is_text(line: Seq<u8>)
    requires
        length_field(line) is Some,
    ensures
        valid_utf8(line),
{
    assert(valid_utf8(line.subrange(0, 0)));
    assert forall|i: int| 0 <= i < line.len() implies #[trigger] is_leading_byte_width_1(
        line[i],
    ) by {
        if line[0] == PLUS || line[0] == MINUS {
            if i > 0 {
                assert(is_digit(line.skip(1)[i - 1]));
            }
        } else {
            assert(is_digit(line[i]));
        }
    }
    partial_valid_utf8_extend_ascii_block(line, 0, line.len() as int);
    assert(line.subrange(0, line.len() as int) =~= line);
}

/// Decodes the length line of a bulk string.
///
/// The line must write a decimal integer. The result is that integer where it is a byte
/// count, or `NULL_LENGTH` where the line writes -1; every other line is an invalid length.
pub fn decode_length(line: &[u8]) -> (length: Result<isize, RespError>)
    ensures
        match length_field(line@) {
            Some(value) => length == Ok::<isize, RespError>(value as isize),
            None => length == Err::<isize, RespError>(RespError::InvalidLength),
        },
        length matches Ok(value) ==> NULL_LENGTH <= value,
{
    let n: usize = line.len();
    if n == 0 {
        return Err(RespError::InvalidLength);
    }
    let negative: bool = line[0] == MINUS;
    let start: usize = if negative || line[0] == PLUS { 1 } else { 0 };
    if start == n {
        return Err(RespError::InvalidLength);
    }
    let ghost digits = line@.skip(start as int);
    assert(start == 0 ==> digits =~= line@);
    let max: usize = isize::MAX as usize;
    let mut value: usize = 0;
    let mut i: usize = start;
    while i < n
        invariant
            n == line@.len(),
            start <= i <= n,
            start < n,
            negative == (line@[0] == MINUS),
            start == (if line@[0] == PLUS || line@[0] == MINUS { 1int } else { 0int }),
            digits == line@.skip(start as int),
            start == 0 ==> digits == line@,
            max == isize::MAX,
            all_digits(digits.take(i - start)),
            value == decimal_value(digits.take(i - start)),
            value <= max,
        decreases n - i,
    {
        let byte: u8 = line[i];
        if byte < ZERO || byte > NINE {
            assert(!is_digit(digits[i - start]));
            return Err(RespError::InvalidLength);
        }
        let digit: usize = (byte - ZERO) as usize;
        proof {
            let longer = digits.take(i - start + 1);
            assert(longer.drop_last() =~= digits.take(i - start));
            assert(longer.last() == byte);
            assert(all_digits(longer)) by {
                assert forall|j: int| 0 <= j < longer.len() implies is_digit(
                    #[trigger] longer[j],
                ) by {
                    if j < i - start {
                        assert(longer[j] == digits.take(i - start)[j]);
                    }
                }
            }
            assert(decimal_value(longer) == value * 10 + digit);
        }
        if value > (max - digit) / 10 {
            proof {
                if all_digits(digits) {
                    lemma_decimal_value_grows(digits, i - start + 1);
                }
            }
            return Err(RespError::InvalidLength);
        }
        value = value * 10 + digit;
        i += 1;
    }
    assert(digits.take(n - start) =~= digits);
    if !negative {
        Ok(value as isize)
    } else if value == 0 {
        Ok(0)
    } else if value == 1 {
        Ok(NULL_LENGTH)
    } else {
        Err(RespError::InvalidLength)
    }
}

} // verus!
