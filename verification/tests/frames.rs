use resp_decode::decode::{
    parse_bulk_string, parse_simple_string, resp_parse, BULK_STRING, SIMPLE_STRING,
};
use resp_decode::value::{RedisValue, RespError};

#[test]
fn type_bytes_are_plus_and_dollar() {
    assert_eq!(SIMPLE_STRING, b'+');
    assert_eq!(BULK_STRING, b'$');
}

#[test]
fn simple_string_without_terminator_misses_end_of_line() {
    assert_eq!(resp_parse(b"+hello"), Err(RespError::MissingEndOfLine));
    assert_eq!(resp_parse(b"+"), Err(RespError::MissingEndOfLine));
    assert_eq!(resp_parse(b"+hello\r"), Err(RespError::MissingEndOfLine));
    assert_eq!(resp_parse(b"+hello\n"), Err(RespError::MissingEndOfLine));
}

#[test]
fn empty_simple_string() {
    assert_eq!(resp_parse(b"+\r\n"), Ok(RedisValue::SimpleString(b"")));
}

#[test]
fn simple_string_keeps_bytes_that_are_no_text() {
    assert_eq!(resp_parse(b"+\xff\x00\r\n"), Ok(RedisValue::SimpleString(b"\xff\x00")));
}

#[test]
fn first_frame_only_is_decoded() {
    assert_eq!(resp_parse(b"+hel\r\nlo\r\n"), Ok(RedisValue::SimpleString(b"hel")));
    assert_eq!(resp_parse(b"+a\r\n$1\r\nb\r\n"), Ok(RedisValue::SimpleString(b"a")));
    assert_eq!(resp_parse(b"$1\r\nb\r\n+a\r\n"), Ok(RedisValue::BulkString(b"b")));
}

#[test]
fn unknown_type_byte_is_invalid_data() {
    assert_eq!(resp_parse(b""), Err(RespError::InvalidData));
    assert_eq!(resp_parse(b"ZZZZZZZ"), Err(RespError::InvalidData));
    assert_eq!(resp_parse(b"-ERR\r\n"), Err(RespError::InvalidData));
    assert_eq!(resp_parse(b":1\r\n"), Err(RespError::InvalidData));
    assert_eq!(resp_parse(b"*0\r\n"), Err(RespError::InvalidData));
    assert_eq!(resp_parse(b"\r\n"), Err(RespError::InvalidData));
    assert_eq!(resp_parse(b" +hello\r\n"), Err(RespError::InvalidData));
}

#[test]
fn bulk_string_without_length_line_misses_length() {
    assert_eq!(resp_parse(b"$"), Err(RespError::MissingLength));
    assert_eq!(resp_parse(b"$11"), Err(RespError::MissingLength));
    assert_eq!(resp_parse(b"$11\r"), Err(RespError::MissingLength));
    assert_eq!(resp_parse(b"$-1"), Err(RespError::MissingLength));
    assert_eq!(resp_parse(b"$hello"), Err(RespError::MissingLength));
}

#[test]
fn bulk_string_with_malformed_length_is_invalid_length() {
    assert_eq!(resp_parse(b"$11hello\r\n"), Err(RespError::InvalidLength));
    assert_eq!(resp_parse(b"$\r\n"), Err(RespError::InvalidLength));
    assert_eq!(resp_parse(b"$\r\nhello\r\n"), Err(RespError::InvalidLength));
    assert_eq!(resp_parse(b"$ 5\r\nhello\r\n"), Err(RespError::InvalidLength));
    assert_eq!(resp_parse(b"$5 \r\nhello\r\n"), Err(RespError::InvalidLength));
    assert_eq!(resp_parse(b"$\xff\r\nhello\r\n"), Err(RespError::InvalidLength));
    assert_eq!(resp_parse(b"$5\n\r\nhello\r\n"), Err(RespError::InvalidLength));
}

#[test]
fn negative_length_other_than_null_marker_is_invalid_length() {
    assert_eq!(resp_parse(b"$-2\r\n"), Err(RespError::InvalidLength));
    assert_eq!(resp_parse(b"$-2\r\nhello\r\n"), Err(RespError::InvalidLength));
    assert_eq!(resp_parse(b"$-11\r\nhello world\r\n"), Err(RespError::InvalidLength));
}

#[test]
fn null_marker_needs_nothing_behind_it() {
    assert_eq!(resp_parse(b"$-1\r\n"), Ok(RedisValue::Null));
    assert_eq!(resp_parse(b"$-1\r\nhello\r\n"), Ok(RedisValue::Null));
    assert_eq!(resp_parse(b"$-01\r\n"), Ok(RedisValue::Null));
}

#[test]
fn empty_bulk_string() {
    assert_eq!(resp_parse(b"$0\r\n\r\n"), Ok(RedisValue::BulkString(b"")));
    assert_eq!(resp_parse(b"$-0\r\n\r\n"), Ok(RedisValue::BulkString(b"")));
    assert_eq!(
        resp_parse(b"$0\r\n"),
        Err(RespError::NotEnoughData { required: 2, actual: 0 })
    );
    assert_eq!(
        resp_parse(b"$0\r\n\r"),
        Err(RespError::NotEnoughData { required: 2, actual: 1 })
    );
}

#[test]
fn bulk_string_with_signed_or_padded_length() {
    assert_eq!(resp_parse(b"$+2\r\nhi\r\n"), Ok(RedisValue::BulkString(b"hi")));
    assert_eq!(resp_parse(b"$002\r\nhi\r\n"), Ok(RedisValue::BulkString(b"hi")));
}

#[test]
fn bulk_string_payload_may_hold_terminators() {
    assert_eq!(
        resp_parse(b"$12\r\nhello\r\nworld\r\n"),
        Ok(RedisValue::BulkString(b"hello\r\nworld"))
    );
    assert_eq!(resp_parse(b"$2\r\n\r\n\r\n"), Ok(RedisValue::BulkString(b"\r\n")));
}

#[test]
fn bytes_behind_payload_are_counted_not_read() {
    assert_eq!(resp_parse(b"$5\r\nhelloXY"), Ok(RedisValue::BulkString(b"hello")));
    assert_eq!(resp_parse(b"$5\r\nhello\n\r"), Ok(RedisValue::BulkString(b"hello")));
    assert_eq!(resp_parse(b"$5\r\nhello world"), Ok(RedisValue::BulkString(b"hello")));
}

#[test]
fn short_bulk_string_reports_what_is_needed() {
    assert_eq!(
        resp_parse(b"$11\r\n"),
        Err(RespError::NotEnoughData { required: 13, actual: 0 })
    );
    assert_eq!(
        resp_parse(b"$11\r\nhello"),
        Err(RespError::NotEnoughData { required: 13, actual: 5 })
    );
    assert_eq!(
        resp_parse(b"$11\r\nhello world"),
        Err(RespError::NotEnoughData { required: 13, actual: 11 })
    );
    assert_eq!(
        resp_parse(b"$11\r\nhello world\r"),
        Err(RespError::NotEnoughData { required: 13, actual: 12 })
    );
    assert_eq!(
        resp_parse(b"$11\r\nhello world\r\n"),
        Ok(RedisValue::BulkString(b"hello world"))
    );
}

#[test]
fn largest_length_is_not_enough_data() {
    let input = format!("${}\r\nhello\r\n", isize::MAX);
    assert_eq!(
        resp_parse(input.as_bytes()),
        Err(RespError::NotEnoughData { required: isize::MAX as usize + 2, actual: 7 })
    );
}

#[test]
fn length_beyond_largest_is_invalid_length() {
    let input = format!("${}\r\nhello\r\n", isize::MAX as u128 + 1);
    assert_eq!(resp_parse(input.as_bytes()), Err(RespError::InvalidLength));
    assert_eq!(
        resp_parse(b"$99999999999999999999999999999999999999999\r\nhello\r\n"),
        Err(RespError::InvalidLength)
    );
}

#[test]
fn parse_simple_string_takes_bytes_behind_type_byte() {
    assert_eq!(parse_simple_string(b"hello\r\n"), Ok(RedisValue::SimpleString(b"hello")));
    assert_eq!(parse_simple_string(b"+hello\r\n"), Ok(RedisValue::SimpleString(b"+hello")));
    assert_eq!(parse_simple_string(b"hello"), Err(RespError::MissingEndOfLine));
    assert_eq!(parse_simple_string(b""), Err(RespError::MissingEndOfLine));
}

#[test]
fn parse_bulk_string_takes_bytes_behind_type_byte() {
    assert_eq!(parse_bulk_string(b"5\r\nhello\r\n"), Ok(RedisValue::BulkString(b"hello")));
    assert_eq!(parse_bulk_string(b"-1\r\n"), Ok(RedisValue::Null));
    assert_eq!(parse_bulk_string(b""), Err(RespError::MissingLength));
    assert_eq!(parse_bulk_string(b"$5\r\nhello\r\n"), Err(RespError::InvalidLength));
    assert_eq!(
        parse_bulk_string(b"5\r\nhel"),
        Err(RespError::NotEnoughData { required: 7, actual: 3 })
    );
}

#[test]
fn bulk_string_is_as_long_as_announced() {
    for length in 0..40usize {
        let payload: Vec<u8> = (0..length).map(|i| b'a' + (i % 26) as u8).collect();
        let mut input = format!("${}\r\n", length).into_bytes();
        input.extend_from_slice(&payload);
        input.extend_from_slice(b"\r\ntrailing");
        match resp_parse(&input) {
            Ok(RedisValue::BulkString(decoded)) => {
                assert_eq!(decoded.len(), length);
                assert_eq!(decoded, &payload[..]);
            }
            r => panic!("got unexpected result: {:?}", r),
        }
    }
}

#[test]
fn not_enough_data_requires_length_and_terminator() {
    for length in 0..20usize {
        let mut input = format!("${}\r\n", length).into_bytes();
        for have in 0..length + 2 {
            match resp_parse(&input) {
                Err(RespError::NotEnoughData { required, actual }) => {
                    assert!(actual < required);
                    assert_eq!(required, length + 2);
                    assert_eq!(actual, have);
                }
                r => panic!("got unexpected result: {:?}", r),
            }
            input.push(b'x');
        }
        assert_eq!(
            resp_parse(&input),
            Ok(RedisValue::BulkString(&vec![b'x'; length][..]))
        );
    }
}

#[test]
fn decoding_twice_gives_same_result() {
    let inputs: &[&[u8]] = &[
        b"",
        b"+hello\r\n",
        b"+hello",
        b"$11\r\nhello world\r\n",
        b"$11\r\nhello",
        b"$-1\r\n",
        b"$x\r\n",
        b"$",
        b"ZZZZZZZ",
    ];
    for &input in inputs {
        let copy = input.to_vec();
        assert_eq!(resp_parse(input), resp_parse(input));
        assert_eq!(resp_parse(input), resp_parse(&copy));
    }
}

fn offset_in(whole: &[u8], part: &[u8]) -> Option<usize> {
    (0..=whole.len() - part.len()).find(|&from| {
        whole[from..from + part.len()].as_ptr_range() == part.as_ptr_range()
    })
}

#[test]
fn payload_is_a_part_of_the_input() {
    let input: &[u8] = b"+hello\r\n";
    match resp_parse(input) {
        Ok(RedisValue::SimpleString(line)) => assert_eq!(offset_in(input, line), Some(1)),
        r => panic!("got unexpected result: {:?}", r),
    }
    let input: &[u8] = b"$5\r\nhello\r\n";
    match resp_parse(input) {
        Ok(RedisValue::BulkString(payload)) => assert_eq!(offset_in(input, payload), Some(4)),
        r => panic!("got unexpected result: {:?}", r),
    }
}

#[test]
fn every_truncation_is_decoded_or_refused() {
    let whole: &[&[u8]] = &[
        b"+hello world\r\nrest",
        b"$11\r\nhello world\r\nrest",
        b"$-1\r\nrest",
        b"$0\r\n\r\n",
    ];
    for &input in whole {
        for end in 0..=input.len() {
            let cut = &input[..end];
            match resp_parse(cut) {
                Ok(RedisValue::SimpleString(part)) | Ok(RedisValue::BulkString(part)) => {
                    assert!(part.len() < cut.len());
                    assert!(offset_in(cut, part).is_some());
                }
                Ok(RedisValue::Null) => assert!(cut.starts_with(b"$-1\r\n")),
                Err(RespError::NotEnoughData { required, actual }) => {
                    assert!(actual < required);
                    assert!(actual < cut.len());
                }
                Err(_) => (),
            }
        }
    }
}

#[test]
fn every_short_buffer_is_decoded_or_refused() {
    let alphabet: &[u8] = b"+$-10\r\nZ\xff";
    let mut buffer: Vec<u8> = Vec::new();
    let mut count = 0usize;
    for &a in alphabet {
        for &b in alphabet {
            for &c in alphabet {
                for &d in alphabet {
                    for &e in alphabet {
                        buffer.clear();
                        buffer.extend_from_slice(&[a, b, c, d, e]);
                        for end in 0..=buffer.len() {
                            let cut = &buffer[..end];
                            match resp_parse(cut) {
                                Ok(RedisValue::SimpleString(part))
                                | Ok(RedisValue::BulkString(part)) => {
                                    assert!(part.len() < cut.len());
                                }
                                Ok(RedisValue::Null) => assert!(cut.len() >= 5),
                                Err(RespError::NotEnoughData { required, actual }) => {
                                    assert!(actual < required);
                                }
                                Err(_) => (),
                            }
                            count += 1;
                        }
                    }
                }
            }
        }
    }
    assert_eq!(count, 9 * 9 * 9 * 9 * 9 * 6);
}

#[test]
fn value_at_front_of_buffer_beyond_fast_search_limit() {
    let mut data = vec![0u8; i32::MAX as usize + 18];
    data[..11].copy_from_slice(b"$5\r\nhello\r\n");
    assert_eq!(resp_parse(&data), Ok(RedisValue::BulkString(b"hello")));

    data[..8].copy_from_slice(b"+hello\r\n");
    assert_eq!(resp_parse(&data), Ok(RedisValue::SimpleString(b"hello")));
}
