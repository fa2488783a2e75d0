use blipbuff::event::{parse_byte, parse_event, parse_wide, LogEvent};

fn event(time: i128, channel: u8, address: i128, data: i128) -> Option<LogEvent> {
    Some(LogEvent { time, channel, address, data })
}

fn wide(text: &str) -> Option<i128> {
    parse_wide(text.as_bytes())
}

fn byte(text: &str) -> Option<u8> {
    parse_byte(text.as_bytes())
}

#[test]
fn plain_line_is_read() {
    assert_eq!(parse_event(b"1234 2 1 15"), event(1234, 2, 1, 15));
    assert_eq!(parse_event(b"0 0 0 0"), event(0, 0, 0, 0));
    assert_eq!(parse_event(b"29829 4 0 0"), event(29829, 4, 0, 0));
}

#[test]
fn signs_are_read() {
    assert_eq!(parse_event(b"-5 +3 +7 -9"), event(-5, 3, 7, -9));
    assert_eq!(parse_event(b"+5 3 -0 +0"), event(5, 3, 0, 0));
}

#[test]
fn channel_takes_no_minus_and_one_byte() {
    assert_eq!(parse_event(b"1 -3 1 1"), None);
    assert_eq!(parse_event(b"1 -0 1 1"), None);
    assert_eq!(parse_event(b"1 255 1 1"), event(1, 255, 1, 1));
    assert_eq!(parse_event(b"1 256 1 1"), None);
    assert_eq!(parse_event(b"1 0255 1 1"), event(1, 255, 1, 1));
}

#[test]
fn last_field_skips_white_space_and_ends_at_it() {
    assert_eq!(parse_event(b"1 2 3 \t\r\n 4"), event(1, 2, 3, 4));
    assert_eq!(parse_event(b"1 2 3 4\n"), event(1, 2, 3, 4));
    assert_eq!(parse_event(b"1 2 3 4 trailing words"), event(1, 2, 3, 4));
    assert_eq!(parse_event(b"1 2 3 4\t5"), event(1, 2, 3, 4));
    assert_eq!(parse_event(b"1 2 3\t4"), None);
}

#[test]
fn first_fields_end_at_one_space_only() {
    assert_eq!(parse_event(b"1  2 3 4"), None);
    assert_eq!(parse_event(b" 1 2 3 4"), None);
    assert_eq!(parse_event(b"1\t2 3 4"), None);
    assert_eq!(parse_event(b"1 2  3 4"), None);
}

#[test]
fn missing_fields_are_refused() {
    assert_eq!(parse_event(b""), None);
    assert_eq!(parse_event(b"1"), None);
    assert_eq!(parse_event(b"1 2"), None);
    assert_eq!(parse_event(b"1 2 3"), None);
    assert_eq!(parse_event(b"1 2 3 "), None);
    assert_eq!(parse_event(b"1 2 3 \n"), None);
}

#[test]
fn other_text_is_refused() {
    assert_eq!(parse_event(b"a 2 3 4"), None);
    assert_eq!(parse_event(b"1 2 3 4x"), None);
    assert_eq!(parse_event(b"1 2 0x3 4"), None);
    assert_eq!(parse_event(b"1.0 2 3 4"), None);
    assert_eq!(parse_event(b"1 2 3 +"), None);
    assert_eq!(parse_event(b"- 2 3 4"), None);
    assert_eq!(parse_event(b"1 2 3 --4"), None);
    assert_eq!(parse_event(b"1 2 3 1_000"), None);
    assert_eq!(parse_event(&[0xC3, 0xA9, b' ', b'2', b' ', b'3', b' ', b'4']), None);
}

#[test]
fn wide_numbers_reach_both_ends_of_128_bits() {
    assert_eq!(wide("170141183460469231731687303715884105727"), Some(i128::MAX));
    assert_eq!(wide("+170141183460469231731687303715884105727"), Some(i128::MAX));
    assert_eq!(wide("170141183460469231731687303715884105728"), None);
    assert_eq!(wide("-170141183460469231731687303715884105728"), Some(i128::MIN));
    assert_eq!(wide("-170141183460469231731687303715884105729"), None);
    assert_eq!(wide("1701411834604692317316873037158841057270"), None);
    assert_eq!(wide("999999999999999999999999999999999999999999999999999"), None);
    assert_eq!(wide("000000000000000000000000000000000000000000000000042"), Some(42));
}

#[test]
fn wide_numbers_agree_with_the_standard_parser() {
    for text in [
        "0", "7", "-7", "+7", "007", "-0", "+0", "", "+", "-", "++1", "+-1", "1-", "12a", " 1",
        "1 ", "340282366920938463463374607431768211455", "-1701411834604692317316873037158841",
    ] {
        assert_eq!(wide(text), text.parse::<i128>().ok());
    }
}

#[test]
fn bytes_agree_with_the_standard_parser() {
    for text in ["0", "9", "+9", "-9", "-0", "255", "256", "0000", "", "+", "25 ", "2_5", "999"] {
        assert_eq!(byte(text), text.parse::<u8>().ok());
    }
}

#[test]
fn empty_and_sign_only_fields_are_refused() {
    assert_eq!(parse_wide(b""), None);
    assert_eq!(parse_wide(b"-"), None);
    assert_eq!(parse_wide(b"+"), None);
    assert_eq!(parse_byte(b""), None);
    assert_eq!(parse_byte(b"+"), None);
    assert_eq!(parse_byte(b"-"), None);
    assert_eq!(parse_wide(b"-12"), Some(-12));
    assert_eq!(parse_byte(b"12"), Some(12));
    assert_eq!(parse_byte(b"-12"), None);
}
