//! Bytes written as two hexadecimal digits each.

use crate::assembler::scan::{chars_of, lemma_run_end, run_end};
use vstd::prelude::*;
use vstd::string::*;

verus! {

/// The lower-case hexadecimal digit of a value below 16.
pub open spec fn hex_digit(d: int) -> char {
    if d == 0 {
        '0'
    } else if d == 1 {
        '1'
    } else if d == 2 {
        '2'
    } else if d == 3 {
        '3'
    } else if d == 4 {
        '4'
    } else if d == 5 {
        '5'
    } else if d == 6 {
        '6'
    } else if d == 7 {
        '7'
    } else if d == 8 {
        '8'
    } else if d == 9 {
        '9'
    } else if d == 10 {
        'a'
    } else if d == 11 {
        'b'
    } else if d == 12 {
        'c'
    } else if d == 13 {
        'd'
    } else if d == 14 {
        'e'
    } else {
        'f'
    }
}

/// A byte as two lower-case hexadecimal digits, the high one first.
pub open spec fn hex_pair(byte: u8) -> Seq<char> {
    seq![hex_digit(byte as int / 16), hex_digit(byte as int % 16)]
}

/// The one-character string of a hexadecimal digit.
fn digit_str(d: u8) -> (s: &'static str)
    requires
        d < 16,
    ensures
        s@ == seq![hex_digit(d as int)],
{
    proof {
        reveal_strlit("0");
        reveal_strlit("1");
        reveal_strlit("2");
        reveal_strlit("3");
        reveal_strlit("4");
        reveal_strlit("5");
        reveal_strlit("6");
        reveal_strlit("7");
        reveal_strlit("8");
        reveal_strlit("9");
        reveal_strlit("a");
        reveal_strlit("b");
        reveal_strlit("c");
        reveal_strlit("d");
        reveal_strlit("e");
        reveal_strlit("f");
    }
    let s = if d == 0 {
        "0"
    } else if d == 1 {
        "1"
    } else if d == 2 {
        "2"
    } else if d == 3 {
        "3"
    } else if d == 4 {
        "4"
    } else if d == 5 {
        "5"
    } else if d == 6 {
        "6"
    } else if d == 7 {
        "7"
    } else if d == 8 {
        "8"
    } else if d == 9 {
        "9"
    } else if d == 10 {
        "a"
    } else if d == 11 {
        "b"
    } else if d == 12 {
        "c"
    } else if d == 13 {
        "d"
    } else if d == 14 {
        "e"
    } else {
        "f"
    };
    assert(s@ =~= seq![hex_digit(d as int)]);
    s
}

/// Writes a byte as two lower-case hexadecimal digits.
pub fn hex_of_byte(byte: u8) -> (hex: String)
    ensures
        hex@ == hex_pair(byte),
{
    let mut hex = String::from_str(digit_str(byte / 16));
    hex.append(digit_str(byte % 16));
    assert(hex@ =~= hex_pair(byte));
    hex
}

/// The value of a hexadecimal digit, in either case, or `None` for any
/// other character.
pub open spec fn hex_digit_value(c: char) -> Option<int> {
    if '0' <= c && c <= '9' {
        Some(c as int - '0' as int)
    } else if 'a' <= c && c <= 'f' {
        Some(c as int - 'a' as int + 10)
    } else if 'A' <= c && c <= 'F' {
        Some(c as int - 'A' as int + 10)
    } else {
        None
    }
}

/// Whether every character is a hexadecimal digit.
pub open spec fn all_hex_digits(digits: Seq<char>) -> bool {
    forall|k: int| 0 <= k < digits.len() ==> hex_digit_value(#[trigger] digits[k]) is Some
}

/// The number that a sequence of hexadecimal digits writes.
pub open spec fn hex_value(digits: Seq<char>) -> int
    decreases digits.len(),
{
    if digits.len() == 0 {
        0
    } else {
        hex_value(digits.drop_last()) * 16 + hex_digit_value(digits.last()).unwrap()
    }
}

/// The digits of a group: the group without the `+` that may begin it.
pub open spec fn group_digits(group: Seq<char>) -> Seq<char> {
    if group.len() > 0 && group[0] == '+' {
        group.skip(1)
    } else {
        group
    }
}

/// The byte that a group of characters writes in hexadecimal: the group is
/// one hexadecimal digit or more, after a `+` or not, and writes a number of
/// at most 255.
pub open spec fn spec_hex_byte(group: Seq<char>) -> Option<u8> {
    if group_digits(group).len() > 0 && all_hex_digits(group_digits(group)) && hex_value(
        group_digits(group),
    ) <= 255 {
        Some(hex_value(group_digits(group)) as u8)
    } else {
        None
    }
}

/// Where the group that begins at `i` ends: at the next blank, or at the end
/// of the line.
pub open spec fn group_end(s: Seq<char>, i: int) -> int {
    run_end(s, i, |c: char| c != ' ')
}

/// The bytes that a line writes in hexadecimal: groups with one blank
/// between each two, each group one byte. `None` where a group writes no
/// byte.
pub open spec fn spec_parse_hex(s: Seq<char>) -> Option<Seq<u8>>
    decreases s.len(),
{
    let end = group_end(s, 0);
    match spec_hex_byte(s.take(end)) {
        None => None,
        Some(byte) => if 0 <= end < s.len() {
            match spec_parse_hex(s.skip(end + 1)) {
                None => None,
                Some(bytes) => Some(seq![byte] + bytes),
            }
        } else {
            Some(seq![byte])
        },
    }
}

/// Words with one blank between each two.
pub open spec fn join_with_blanks(words: Seq<Seq<char>>) -> Seq<char>
    decreases words.len(),
{
    if words.len() == 0 {
        Seq::empty()
    } else if words.len() == 1 {
        words[0]
    } else {
        words[0] + seq![' '] + join_with_blanks(words.drop_first())
    }
}

/// Each byte as its two hexadecimal digits.
pub open spec fn hex_of_bytes(bytes: Seq<u8>) -> Seq<Seq<char>> {
    Seq::new(bytes.len(), |k: int| hex_pair(bytes[k]))
}

/// The number that a hexadecimal digit and the digits before it write.
pub proof fn lemma_hex_value_push(digits: Seq<char>, c: char)
    ensures
        hex_value(digits.push(c)) == hex_value(digits) * 16 + hex_digit_value(c).unwrap(),
{
    assert(digits.push(c).drop_last() == digits);
}

/// The first digits of a hexadecimal number write no more than all of them.
pub proof fn lemma_hex_value_prefix(digits: Seq<char>, k: int)
    requires
        0 <= k <= digits.len(),
        all_hex_digits(digits),
    ensures
        0 <= hex_value(digits.take(k)) <= hex_value(digits),
    decreases digits.len() - k,
{
    if k < digits.len() {
        lemma_hex_value_prefix(digits, k + 1);
        assert(digits.take(k + 1) == digits.take(k).push(digits[k]));
        lemma_hex_value_push(digits.take(k), digits[k]);
        lemma_hex_value_nonnegative(digits.take(k));
    } else {
        assert(digits.take(k) == digits);
        lemma_hex_value_nonnegative(digits);
    }
}

/// Hexadecimal digits write a number that is not negative.
pub proof fn lemma_hex_value_nonnegative(digits: Seq<char>)
    requires
        all_hex_digits(digits),
    ensures
        0 <= hex_value(digits),
    decreases digits.len(),
{
    if digits.len() > 0 {
        assert(hex_digit_value(digits[digits.len() - 1]) is Some);
        lemma_hex_value_nonnegative(digits.drop_last());
    }
}

/// The two digits that write a byte read back as that byte.
pub proof fn lemma_hex_pair_reads_back(byte: u8)
    ensures
        spec_hex_byte(hex_pair(byte)) == Some(byte),
        hex_pair(byte).len() == 2,
        hex_pair(byte)[0] != ' ',
        hex_pair(byte)[1] != ' ',
{
    let pair = hex_pair(byte);
    let high = byte as int / 16;
    let low = byte as int % 16;
    assert(hex_digit_value(hex_digit(high)) == Some(high));
    assert(hex_digit_value(hex_digit(low)) == Some(low));
    assert(group_digits(pair) == pair);
    assert(pair.drop_last() == seq![pair[0]]);
    assert(pair.drop_last().drop_last() == Seq::<char>::empty());
    assert(hex_value(pair.drop_last().drop_last()) == 0);
    assert(hex_value(pair.drop_last()) == high);
    assert(hex_value(pair) == high * 16 + low);
}

/// Bytes written in hexadecimal with a blank between each two read back as
/// the same bytes.
pub proof fn lemma_hex_round_trip(bytes: Seq<u8>)
    requires
        bytes.len() > 0,
    ensures
        spec_parse_hex(join_with_blanks(hex_of_bytes(bytes))) == Some(bytes),
    decreases bytes.len(),
{
    let words = hex_of_bytes(bytes);
    let line = join_with_blanks(words);
    let class = |c: char| c != ' ';
    lemma_hex_pair_reads_back(bytes[0]);
    assert(words[0] == hex_pair(bytes[0]));
    if bytes.len() == 1 {
        assert(line == hex_pair(bytes[0]));
        assert(run_end(line, 2, class) == 2);
        assert(run_end(line, 1, class) == 2);
        assert(run_end(line, 0, class) == 2);
        assert(line.take(2) == line);
        assert(seq![bytes[0]] == bytes);
    } else {
        let rest = join_with_blanks(words.drop_first());
        assert(words.drop_first() == hex_of_bytes(bytes.drop_first()));
        lemma_hex_round_trip(bytes.drop_first());
        assert(line == hex_pair(bytes[0]) + seq![' '] + rest);
        assert(line[2] == ' ');
        assert(run_end(line, 2, class) == 2);
        assert(run_end(line, 1, class) == 2);
        assert(run_end(line, 0, class) == 2);
        assert(line.take(2) == hex_pair(bytes[0]));
        assert(line.skip(3) == rest);
        assert(seq![bytes[0]] + bytes.drop_first() == bytes);
    }
}

/// The value of a hexadecimal digit, or `None` for any other character.
fn digit_value(c: char) -> (value: Option<u32>)
    ensures
        match hex_digit_value(c) {
            Some(v) => value == Some(v as u32) && v < 16,
            None => value is None,
        },
{
    if c >= '0' && c <= '9' {
        Some(c as u32 - '0' as u32)
    } else if c >= 'a' && c <= 'f' {
        Some(c as u32 - 'a' as u32 + 10)
    } else if c >= 'A' && c <= 'F' {
        Some(c as u32 - 'A' as u32 + 10)
    } else {
        None
    }
}

/// The byte that the characters from `start` to `end` write in hexadecimal.
pub(crate) fn hex_byte(chars: &Vec<char>, start: usize, end: usize) -> (byte: Option<u8>)
    requires
        start <= end <= chars.len(),
    ensures
        byte == spec_hex_byte(chars@.subrange(start as int, end as int)),
{
    let ghost group = chars@.subrange(start as int, end as int);
    let first = if start < end && chars[start] == '+' {
        start + 1
    } else {
        start
    };
    let ghost digits = chars@.subrange(first as int, end as int);
    assert(digits == group_digits(group));
    if first == end {
        return None;
    }
    let mut value: u32 = 0;
    let mut at: usize = first;
    assert(digits.take(0) == Seq::<char>::empty());
    while at < end
        invariant
            first <= at <= end <= chars.len(),
            digits == chars@.subrange(first as int, end as int),
            digits == group_digits(chars@.subrange(start as int, end as int)),
            digits.len() > 0,
            all_hex_digits(digits.take(at - first)),
            value == hex_value(digits.take(at - first)),
            value <= 255,
        decreases end - at,
    {
        let c = chars[at];
        assert(digits[at - first] == c);
        assert(digits.take(at + 1 - first) == digits.take(at - first).push(c));
        match digit_value(c) {
            None => {
                assert(hex_digit_value(digits[at - first]) is None);
                return None;
            },
            Some(digit) => {
                proof {
                    lemma_hex_value_push(digits.take(at - first), c);
                    assert forall|k: int| 0 <= k < at + 1 - first implies hex_digit_value(
                        #[trigger] digits.take(at + 1 - first)[k],
                    ) is Some by {
                        if k < at - first {
                            assert(digits.take(at - first)[k] == digits[k]);
                        }
                    }
                }
                value = value * 16 + digit;
                if value > 255 {
                    proof {
                        if all_hex_digits(digits) {
                            lemma_hex_value_prefix(digits, at + 1 - first);
                        }
                    }
                    return None;
                }
            },
        }
        at += 1;
    }
    assert(digits.take(at - first) == digits);
    Some(value as u8)
}

/// Reads a line of bytes written in hexadecimal, with one blank between
/// each two.
pub fn parse_hex(input: &str) -> (result: Result<Vec<u8>, ()>)
    ensures
        match spec_parse_hex(input@) {
            Some(bytes) => result is Ok && result.unwrap()@ == bytes,
            None => result is Err,
        },
{
    let chars = chars_of(input);
    let mut results: Vec<u8> = Vec::new();
    let mut start: usize = 0;
    assert(chars@.skip(0) == chars@);
    loop
        invariant
            chars@ == input@,
            start <= chars.len(),
            spec_parse_hex(chars@) == match spec_parse_hex(chars@.skip(start as int)) {
                Some(bytes) => Some(results@ + bytes),
                None => None,
            },
        decreases chars.len() - start,
    {
        let ghost rest = chars@.skip(start as int);
        let mut end: usize = start;
        while end < chars.len() && chars[end] != ' '
            invariant
                start <= end <= chars.len(),
                rest == chars@.skip(start as int),
                group_end(rest, 0) == group_end(rest, end - start),
            decreases chars.len() - end,
        {
            assert(rest[end - start] == chars@[end as int]);
            end += 1;
        }
        assert(group_end(rest, 0) == end - start) by {
            if end < chars.len() {
                assert(rest[end - start] == chars@[end as int]);
            }
        }
        assert(rest.take(end - start) == chars@.subrange(start as int, end as int));
        match hex_byte(&chars, start, end) {
            None => {
                return Err(());
            },
            Some(byte) => {
                let ghost before = results@;
                results.push(byte);
                assert(results@ == before + seq![byte]);
                if end >= chars.len() {
                    return Ok(results);
                }
                let ghost after = spec_parse_hex(chars@.skip(end + 1));
                assert(rest.skip(end - start + 1) == chars@.skip(end + 1));
                assert(after is Some ==> before + (seq![byte] + after.unwrap()) == results@
                    + after.unwrap());
                start = end + 1;
            },
        }
    }
}

} // verus!
