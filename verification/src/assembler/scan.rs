//! Character classes and the runs of characters that the grammar is made of.
//!
//! A position is an index into the characters of the line. Every function
//! here reads forwards from a position and says where it stopped.

use vstd::prelude::*;
use vstd::string::*;

verus! {

/// Whether `nom` counts `c` as alphabetic: what `nom::AsChar::is_alpha`
/// returns for the character.
pub uninterp spec fn char_is_alphabetic(c: char) -> bool;

/// `nom::AsChar::is_alpha` for `char`, the test by which `nom` finds the end
/// of an alphabetic run. With the default features of `nom` it returns for
/// every character; the result depends on the character alone, and the
/// contract names it and does not spell it out.
#[verifier::external_body]
pub(crate) fn is_alphabetic(c: char) -> (b: bool)
    ensures
        b == char_is_alphabetic(c),
{
    nom::AsChar::is_alpha(c)
}

/// For each character of a line, whether it is alphabetic.
pub open spec fn alphabetic_flags(s: Seq<char>) -> Seq<bool> {
    Seq::new(s.len(), |k: int| char_is_alphabetic(s[k]))
}

/// A decimal digit.
pub open spec fn is_digit(c: char) -> bool {
    '0' <= c && c <= '9'
}

/// White space: a blank, a tab, a carriage return or a line feed.
pub open spec fn is_space(c: char) -> bool {
    c == ' ' || c == '\t' || c == '\r' || c == '\n'
}

/// The first position from `i` on that holds no character of the class
/// `class`, or the length of `s` where every character from `i` on is of it.
pub open spec fn run_end(s: Seq<char>, i: int, class: spec_fn(char) -> bool) -> int
    decreases s.len() - i,
{
    if 0 <= i < s.len() && class(s[i]) {
        run_end(s, i + 1, class)
    } else {
        i
    }
}

/// Where the white space that begins at `i` ends.
pub open spec fn skip_spaces(s: Seq<char>, i: int) -> int {
    run_end(s, i, |c: char| is_space(c))
}

/// Where the digits that begin at `i` end.
pub open spec fn digits_end(s: Seq<char>, i: int) -> int {
    run_end(s, i, |c: char| is_digit(c))
}

/// Where the name that begins at `i` ends: a name is made of alphabetic
/// characters, and `letters` says of each character of `s` whether it is
/// one. A character of which `letters` says nothing counts as none.
pub open spec fn alpha_end(s: Seq<char>, letters: Seq<bool>, i: int) -> int
    decreases s.len() - i,
{
    if 0 <= i < s.len() && i < letters.len() && letters[i] {
        alpha_end(s, letters, i + 1)
    } else {
        i
    }
}

/// A name ends between its start and the end of the line.
pub proof fn lemma_alpha_end(s: Seq<char>, letters: Seq<bool>, i: int)
    requires
        0 <= i <= s.len(),
    ensures
        i <= alpha_end(s, letters, i) <= s.len(),
    decreases s.len() - i,
{
    if i < s.len() && i < letters.len() && letters[i] {
        lemma_alpha_end(s, letters, i + 1);
    }
}

/// The value of a decimal digit.
pub open spec fn digit_value(c: char) -> nat {
    (c as int - '0' as int) as nat
}

/// The number that a sequence of decimal digits writes.
pub open spec fn decimal_value(digits: Seq<char>) -> nat
    decreases digits.len(),
{
    if digits.len() == 0 {
        0
    } else {
        decimal_value(digits.drop_last()) * 10 + digit_value(digits.last())
    }
}

/// A run ends between its start and the end of the line; every character
/// of it is of the class, and the character behind it is not.
pub proof fn lemma_run_end(s: Seq<char>, i: int, class: spec_fn(char) -> bool)
    requires
        0 <= i <= s.len(),
    ensures
        i <= run_end(s, i, class) <= s.len(),
        forall|k: int| i <= k < run_end(s, i, class) ==> class(#[trigger] s[k]),
        run_end(s, i, class) < s.len() ==> !class(s[run_end(s, i, class)]),
    decreases s.len() - i,
{
    if i < s.len() && class(s[i]) {
        lemma_run_end(s, i + 1, class);
    }
}

/// The characters of a string, in their order.
pub(crate) fn chars_of(s: &str) -> (chars: Vec<char>)
    ensures
        chars@ == s@,
{
    let mut chars: Vec<char> = Vec::new();
    for c in it: s.chars()
        invariant
            chars@ == it.seq().take(it.index() as int),
            it.seq() == s@,
    {
        chars.push(c);
    }
    chars
}

/// Whether the characters from `start` to `end` are those of `word`.
pub(crate) fn is_word(chars: &Vec<char>, start: usize, end: usize, word: &str) -> (b: bool)
    requires
        start <= end <= chars.len(),
    ensures
        b == (chars@.subrange(start as int, end as int) == word@),
{
    let len = word.unicode_len();
    if end - start != len {
        return false;
    }
    let mut k: usize = 0;
    while k < len
        invariant
            k <= len,
            len == word@.len(),
            end - start == len,
            start <= end <= chars.len(),
            forall|j: int| 0 <= j < k ==> chars@[start + j] == word@[j],
        decreases len - k,
    {
        if chars[start + k] != word.get_char(k) {
            assert(chars@.subrange(start as int, end as int)[k as int] != word@[k as int]);
            return false;
        }
        k += 1;
    }
    assert(chars@.subrange(start as int, end as int) =~= word@);
    true
}

/// Where the white space that begins at `start` ends.
pub(crate) fn skip_spaces_from(chars: &Vec<char>, start: usize) -> (end: usize)
    requires
        start <= chars.len(),
    ensures
        end == skip_spaces(chars@, start as int),
        start <= end <= chars.len(),
{
    let mut end = start;
    while end < chars.len() && (chars[end] == ' ' || chars[end] == '\t' || chars[end] == '\r'
        || chars[end] == '\n')
        invariant
            start <= end <= chars.len(),
            skip_spaces(chars@, start as int) == skip_spaces(chars@, end as int),
        decreases chars.len() - end,
    {
        end += 1;
    }
    end
}

/// Where the digits that begin at `start` end.
pub(crate) fn digits_end_from(chars: &Vec<char>, start: usize) -> (end: usize)
    requires
        start <= chars.len(),
    ensures
        end == digits_end(chars@, start as int),
        start <= end <= chars.len(),
{
    let mut end = start;
    while end < chars.len() && chars[end] >= '0' && chars[end] <= '9'
        invariant
            start <= end <= chars.len(),
            digits_end(chars@, start as int) == digits_end(chars@, end as int),
        decreases chars.len() - end,
    {
        end += 1;
    }
    end
}

/// Says of each character whether it is alphabetic.
pub(crate) fn classify(chars: &Vec<char>) -> (letters: Vec<bool>)
    ensures
        letters@ == alphabetic_flags(chars@),
{
    let mut letters: Vec<bool> = Vec::new();
    let mut k: usize = 0;
    while k < chars.len()
        invariant
            k <= chars.len(),
            letters@ == alphabetic_flags(chars@).take(k as int),
        decreases chars.len() - k,
    {
        letters.push(is_alphabetic(chars[k]));
        k += 1;
    }
    letters
}

/// Where the name that begins at `start` ends.
pub(crate) fn alpha_end_from(chars: &Vec<char>, letters: &Vec<bool>, start: usize) -> (end: usize)
    requires
        start <= chars.len(),
    ensures
        end == alpha_end(chars@, letters@, start as int),
        start <= end <= chars.len(),
{
    let mut end = start;
    while end < chars.len() && end < letters.len() && letters[end]
        invariant
            start <= end <= chars.len(),
            alpha_end(chars@, letters@, start as int) == alpha_end(chars@, letters@, end as int),
        decreases chars.len() - end,
    {
        end += 1;
    }
    end
}

/// An operand that begins with a sign of its kind: white space, the sign
/// `sigil`, white space, one digit or more, white space. The digits write
/// a number of at most `limit`. The result is that number and the position
/// behind the operand, or `None` where `s` holds no such operand at `i`.
pub open spec fn spec_prefixed_number(s: Seq<char>, i: int, sigil: char, limit: nat) -> Option<
    (nat, int),
> {
    let at = skip_spaces(s, i);
    let first = skip_spaces(s, at + 1);
    let last = digits_end(s, first);
    if 0 <= at < s.len() && s[at] == sigil && first < last && decimal_value(
        s.subrange(first, last),
    ) <= limit {
        Some((decimal_value(s.subrange(first, last)), skip_spaces(s, last)))
    } else {
        None
    }
}

/// An operand that begins with a sign ends behind its start and within the
/// line, and its number is at most the limit.
pub proof fn lemma_prefixed_number_bounds(s: Seq<char>, i: int, sigil: char, limit: nat)
    requires
        0 <= i <= s.len(),
        spec_prefixed_number(s, i, sigil, limit) is Some,
    ensures
        spec_prefixed_number(s, i, sigil, limit).unwrap().0 <= limit,
        i < spec_prefixed_number(s, i, sigil, limit).unwrap().1 <= s.len(),
{
    let at = skip_spaces(s, i);
    lemma_run_end(s, i, |c: char| is_space(c));
    let first = skip_spaces(s, at + 1);
    lemma_run_end(s, at + 1, |c: char| is_space(c));
    let last = digits_end(s, first);
    lemma_run_end(s, first, |c: char| is_digit(c));
    lemma_run_end(s, last, |c: char| is_space(c));
}

/// The number that a digit and the digits before it write.
pub proof fn lemma_decimal_value_push(digits: Seq<char>, c: char)
    ensures
        decimal_value(digits.push(c)) == decimal_value(digits) * 10 + digit_value(c),
{
    assert(digits.push(c).drop_last() == digits);
}

/// The first digits of a number write no more than all of them.
pub proof fn lemma_decimal_value_prefix(digits: Seq<char>, k: int)
    requires
        0 <= k <= digits.len(),
    ensures
        decimal_value(digits.take(k)) <= decimal_value(digits),
    decreases digits.len() - k,
{
    if k < digits.len() {
        lemma_decimal_value_prefix(digits, k + 1);
        assert(digits.take(k + 1) == digits.take(k).push(digits[k]));
        lemma_decimal_value_push(digits.take(k), digits[k]);
    } else {
        assert(digits.take(k) == digits);
    }
}

/// The number that the digits from `first` to `last` write, or `None` where
/// it is above `limit`.
pub(crate) fn read_decimal(chars: &Vec<char>, first: usize, last: usize, limit: u32) -> (value:
    Option<u32>)
    requires
        first <= last <= chars.len(),
        forall|k: int| first <= k < last ==> is_digit(#[trigger] chars@[k]),
    ensures
        value == if decimal_value(chars@.subrange(first as int, last as int)) <= limit {
            Some(decimal_value(chars@.subrange(first as int, last as int)) as u32)
        } else {
            None
        },
{
    let ghost digits = chars@.subrange(first as int, last as int);
    let mut value: u64 = 0;
    let mut at: usize = first;
    assert(digits.take(0) == Seq::<char>::empty());
    while at < last
        invariant
            first <= at <= last <= chars.len(),
            digits == chars@.subrange(first as int, last as int),
            forall|k: int| first <= k < last ==> is_digit(#[trigger] chars@[k]),
            value == decimal_value(digits.take(at - first)),
            value <= limit,
        decreases last - at,
    {
        let c = chars[at];
        assert(is_digit(chars@[at as int]));
        let digit = (c as u32 - '0' as u32) as u64;
        proof {
            assert(digits.take(at + 1 - first) == digits.take(at - first).push(c));
            lemma_decimal_value_push(digits.take(at - first), c);
            lemma_decimal_value_prefix(digits, at + 1 - first);
        }
        value = value * 10 + digit;
        if value > limit as u64 {
            return None;
        }
        at += 1;
    }
    assert(digits.take(at - first) == digits);
    Some(value as u32)
}

/// Reads an operand that begins with the sign `sigil` and writes a number
/// of at most `limit`.
pub(crate) fn prefixed_number(chars: &Vec<char>, start: usize, sigil: char, limit: u32) -> (result:
    Option<(u32, usize)>)
    requires
        start <= chars.len(),
    ensures
        match spec_prefixed_number(chars@, start as int, sigil, limit as nat) {
            Some((value, end)) => result == Some((value as u32, end as usize)) && start < end
                <= chars.len(),
            None => result is None,
        },
{
    let at = skip_spaces_from(chars, start);
    if at >= chars.len() || chars[at] != sigil {
        return None;
    }
    let first = skip_spaces_from(chars, at + 1);
    let last = digits_end_from(chars, first);
    if first >= last {
        return None;
    }
    proof {
        lemma_run_end(chars@, first as int, |c: char| is_digit(c));
    }
    match read_decimal(chars, first, last, limit) {
        None => None,
        Some(value) => Some((value, skip_spaces_from(chars, last))),
    }
}

/// The rest of a line from the position `from` on.
pub(crate) fn rest_of<'a>(input: &'a str, from: usize) -> (rest: &'a str)
    requires
        from <= input@.len(),
    ensures
        rest@ == input@.subrange(from as int, input@.len() as int),
{
    input.substring_char(from, input.unicode_len())
}

} // verus!
