//! The event log of the chip: one event per line, four decimal fields.
//!
//! The first three fields each run up to the next space, or to the end of
//! the line. The fourth starts after any white space that follows the third
//! and runs up to the next white space. What follows it is ignored.

use vstd::prelude::*;

verus! {

/// One line of the log.
#[derive(Clone, Copy, Debug, PartialEq, Eq)]
pub struct LogEvent {
    /// Clock tick of the event within its frame.
    pub time: i128,
    /// The channel the event is for; a number that names no channel closes
    /// the frame.
    pub channel: u8,
    /// The register to write.
    pub address: i128,
    /// The value to write.
    pub data: i128,
}

/// Whether `b` is one of tab, line feed, carriage return and space.
pub open spec fn is_blank(b: u8) -> bool {
    b == 9 || b == 10 || b == 13 || b == 32
}

/// Whether `b` is a decimal digit.
pub open spec fn is_digit(b: u8) -> bool {
    48 <= b <= 57
}

/// Whether `s` is one or more decimal digits.
pub open spec fn all_digits(s: Seq<u8>) -> bool {
    s.len() > 0 && forall|i: int| 0 <= i < s.len() ==> is_digit(#[trigger] s[i])
}

/// The number that the digits of `s` spell.
pub open spec fn digits_value(s: Seq<u8>) -> nat
    decreases s.len(),
{
    if s.len() == 0 {
        0
    } else {
        10 * digits_value(s.drop_last()) + (s.last() - 48) as nat
    }
}

/// The number that `s` spells: digits behind an optional sign, a minus only
/// where `signed`. `None` where `s` is anything else.
pub open spec fn decimal_value(s: Seq<u8>, signed: bool) -> Option<int> {
    if s.len() > 0 && s[0] == 43 {
        if all_digits(s.skip(1)) {
            Some(digits_value(s.skip(1)) as int)
        } else {
            None
        }
    } else if s.len() > 0 && s[0] == 45 && signed {
        if all_digits(s.skip(1)) {
            Some(-(digits_value(s.skip(1)) as int))
        } else {
            None
        }
    } else if all_digits(s) {
        Some(digits_value(s) as int)
    } else {
        None
    }
}

/// The number that `s` spells, where it fits in 128 bits with a sign.
pub open spec fn wide_value(s: Seq<u8>) -> Option<i128> {
    match decimal_value(s, true) {
        Some(v) => if i128::MIN <= v <= i128::MAX {
            Some(v as i128)
        } else {
            None
        },
        None => None,
    }
}

/// The number that `s` spells, where it fits in a byte.
pub open spec fn byte_value(s: Seq<u8>) -> Option<u8> {
    match decimal_value(s, false) {
        Some(v) => if v <= u8::MAX {
            Some(v as u8)
        } else {
            None
        },
        None => None,
    }
}

/// The first place from `from` on that holds a space, or the length of `s`.
pub open spec fn next_space(s: Seq<u8>, from: int) -> int
    decreases s.len() - from,
{
    if from >= s.len() {
        s.len() as int
    } else if s[from] == 32 {
        from
    } else {
        next_space(s, from + 1)
    }
}

/// The first place from `from` on that holds white space if `blank`, and
/// anything else if not, or the length of `s`.
pub open spec fn next_blank(s: Seq<u8>, from: int, blank: bool) -> int
    decreases s.len() - from,
{
    if from >= s.len() {
        s.len() as int
    } else if is_blank(s[from]) == blank {
        from
    } else {
        next_blank(s, from + 1, blank)
    }
}

/// The place behind the space that ends a field at `end`.
pub open spec fn behind(s: Seq<u8>, end: int) -> int {
    if end < s.len() {
        end + 1
    } else {
        end
    }
}

/// The four fields of a line, each as the places where it starts and ends.
pub open spec fn fields(s: Seq<u8>) -> ((int, int), (int, int), (int, int), (int, int)) {
    let first = next_space(s, 0);
    let second = next_space(s, behind(s, first));
    let third = next_space(s, behind(s, second));
    let start = next_blank(s, behind(s, third), false);
    (
        (0, first),
        (behind(s, first), second),
        (behind(s, second), third),
        (start, next_blank(s, start, true)),
    )
}

/// The event that a line spells, if its four fields are numbers that fit.
pub open spec fn event_of(s: Seq<u8>) -> Option<LogEvent> {
    let (time, channel, address, data) = fields(s);
    match (
        wide_value(s.subrange(time.0, time.1)),
        byte_value(s.subrange(channel.0, channel.1)),
        wide_value(s.subrange(address.0, address.1)),
        wide_value(s.subrange(data.0, data.1)),
    ) {
        (Some(time), Some(channel), Some(address), Some(data)) => Some(
            LogEvent { time, channel, address, data },
        ),
        _ => None,
    }
}

/// A place that `next_space` gives lies between `from` and the end, holds a
/// space unless it is the end, and no place before it does.
pub proof fn lemma_next_space(s: Seq<u8>, from: int)
    requires
        0 <= from <= s.len(),
    ensures
        from <= next_space(s, from) <= s.len(),
        next_space(s, from) < s.len() ==> s[next_space(s, from)] == 32,
        forall|i: int| from <= i < next_space(s, from) ==> #[trigger] s[i] != 32,
    decreases s.len() - from,
{
    if from < s.len() && s[from] != 32 {
        lemma_next_space(s, from + 1);
    }
}

/// A place that `next_blank` gives lies between `from` and the end, is of
/// the kind asked for unless it is the end, and no place before it is.
pub proof fn lemma_next_blank(s: Seq<u8>, from: int, blank: bool)
    requires
        0 <= from <= s.len(),
    ensures
        from <= next_blank(s, from, blank) <= s.len(),
        next_blank(s, from, blank) < s.len() ==> is_blank(s[next_blank(s, from, blank)])
            == blank,
        forall|i: int|
            from <= i < next_blank(s, from, blank) ==> is_blank(#[trigger] s[i]) != blank,
    decreases s.len() - from,
{
    if from < s.len() && is_blank(s[from]) != blank {
        lemma_next_blank(s, from + 1, blank);
    }
}

/// More digits never spell a smaller number.
pub proof fn lemma_digits_value_grows(s: Seq<u8>, n: int)
    requires
        0 <= n <= s.len(),
        forall|i: int| 0 <= i < s.len() ==> is_digit(#[trigger] s[i]),
    ensures
        digits_value(s.take(n)) <= digits_value(s),
    decreases s.len() - n,
{
    if n < s.len() {
        lemma_digits_value_grows(s, n + 1);
        assert(s.take(n + 1).drop_last() =~= s.take(n));
    } else {
        assert(s.take(n) =~= s);
    }
}

/// Finds the end of a field that a space ends.
fn find_space(line: &[u8], from: usize) -> (end: usize)
    requires
        from <= line.len(),
    ensures
        end == next_space(line@, from as int),
        from <= end <= line.len(),
{
    let mut at: usize = from;
    while at < line.len() && line[at] != 32
        invariant
            from <= at <= line.len(),
            next_space(line@, at as int) == next_space(line@, from as int),
        decreases line.len() - at,
    {
        at = at + 1;
    }
    at
}

/// Whether `b` is white space.
fn blank(b: u8) -> (r: bool)
    ensures
        r == is_blank(b),
{
    b == 9 || b == 10 || b == 13 || b == 32
}

/// Finds the next place that holds white space, or the next that holds
/// none.
fn find_blank(line: &[u8], from: usize, wanted: bool) -> (end: usize)
    requires
        from <= line.len(),
    ensures
        end == next_blank(line@, from as int, wanted),
        from <= end <= line.len(),
{
    let mut at: usize = from;
    while at < line.len() && blank(line[at]) != wanted
        invariant
            from <= at <= line.len(),
            next_blank(line@, at as int, wanted) == next_blank(line@, from as int, wanted),
        decreases line.len() - at,
    {
        at = at + 1;
    }
    at
}

/// Reads a field of digits. Gives their number if they are digits, at
/// least one, and spell at most `limit`.
fn parse_digits(field: &[u8], limit: u128) -> (value: Option<u128>)
    ensures
        value == if all_digits(field@) && digits_value(field@) <= limit {
            Some(digits_value(field@) as u128)
        } else {
            None
        },
{
    if field.len() == 0 {
        return None;
    }
    let mut total: u128 = 0;
    let mut at: usize = 0;
    while at < field.len()
        invariant
            at <= field.len(),
            forall|i: int| 0 <= i < at ==> is_digit(#[trigger] field@[i]),
            total == digits_value(field@.take(at as int)),
            total <= limit,
        decreases field.len() - at,
    {
        let b: u8 = field[at];
        if b < 48 || b > 57 {
            return None;
        }
        let digit: u128 = (b - 48) as u128;
        proof {
            let grown = field@.take(at + 1);
            assert(grown.drop_last() =~= field@.take(at as int));
            assert(grown.last() == b);
            assert(digits_value(grown) == total * 10 + digit);
            if all_digits(field@) {
                lemma_digits_value_grows(field@, at + 1);
            }
        }
        if digit > limit || total > (limit - digit) / 10 {
            return None;
        }
        total = total * 10 + digit;
        at = at + 1;
    }
    assert(field@.take(field.len() as int) =~= field@);
    Some(total)
}

/// Reads a field as a number of 128 bits with a sign.
pub fn parse_wide(field: &[u8]) -> (value: Option<i128>)
    ensures
        value == wide_value(field@),
{
    let len: usize = field.len();
    if len > 0 && field[0] == 45 {
        assert(field@.skip(1) =~= field@.subrange(1, len as int));
        match parse_digits(&field[1..len], 0x8000_0000_0000_0000_0000_0000_0000_0000) {
            Some(v) => {
                if v == 0x8000_0000_0000_0000_0000_0000_0000_0000 {
                    Some(i128::MIN)
                } else {
                    Some(-(v as i128))
                }
            },
            None => None,
        }
    } else if len > 0 && field[0] == 43 {
        assert(field@.skip(1) =~= field@.subrange(1, len as int));
        match parse_digits(&field[1..len], 0x7FFF_FFFF_FFFF_FFFF_FFFF_FFFF_FFFF_FFFF) {
            Some(v) => Some(v as i128),
            None => None,
        }
    } else {
        match parse_digits(field, 0x7FFF_FFFF_FFFF_FFFF_FFFF_FFFF_FFFF_FFFF) {
            Some(v) => Some(v as i128),
            None => None,
        }
    }
}

/// Reads a field as a number of one byte.
pub fn parse_byte(field: &[u8]) -> (value: Option<u8>)
    ensures
        value == byte_value(field@),
{
    let len: usize = field.len();
    if len > 0 && field[0] == 43 {
        assert(field@.skip(1) =~= field@.subrange(1, len as int));
        match parse_digits(&field[1..len], 255) {
            Some(v) => Some(v as u8),
            None => None,
        }
    } else {
        match parse_digits(field, 255) {
            Some(v) => Some(v as u8),
            None => None,
        }
    }
}

/// Reads one line of the log.
pub fn parse_event(line: &[u8]) -> (event: Option<LogEvent>)
    ensures
        event == event_of(line@),
{
    let len: usize = line.len();
    let first: usize = find_space(line, 0);
    let second_start: usize = if first < len {
        first + 1
    } else {
        first
    };
    let second: usize = find_space(line, second_start);
    let third_start: usize = if second < len {
        second + 1
    } else {
        second
    };
    let third: usize = find_space(line, third_start);
    let rest: usize = if third < len {
        third + 1
    } else {
        third
    };
    let fourth_start: usize = find_blank(line, rest, false);
    let fourth: usize = find_blank(line, fourth_start, true);
    let time = parse_wide(&line[0..first]);
    let channel = parse_byte(&line[second_start..second]);
    let address = parse_wide(&line[third_start..third]);
    let data = parse_wide(&line[fourth_start..fourth]);
    match (time, channel, address, data) {
        (Some(time), Some(channel), Some(address), Some(data)) => Some(
            LogEvent { time, channel, address, data },
        ),
        _ => None,
    }
}

} // verus!
