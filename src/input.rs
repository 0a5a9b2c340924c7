use vstd::prelude::*;
use crate::naming::{is_whitespace, is_whitespace_char};

verus! {

/// A rejected answer to one of the interactive prompts; it carries the input.
pub enum InputError {
    InvalidResolution { input: String },
    InvalidCount { input: String },
}

pub open spec fn is_digit(c: char) -> bool {
    '0' <= c <= '9'
}

pub open spec fn digit_value(c: char) -> nat {
    (c as u32 - 48) as nat
}

/// The number that a string of decimal digits denotes.
pub open spec fn digits_value(s: Seq<char>) -> nat
    decreases s.len(),
{
    if s.len() == 0 {
        0
    } else {
        digits_value(s.drop_last()) * 10 + digit_value(s.last())
    }
}

/// The digits of a count: the text without one leading `+`.
pub open spec fn count_digits(s: Seq<char>) -> Seq<char> {
    if s.len() > 0 && s[0] == '+' {
        s.drop_first()
    } else {
        s
    }
}

/// A count is written as one or more decimal digits, optionally after a `+`,
/// and its value fits in `usize`.
pub open spec fn is_valid_count(s: Seq<char>) -> bool {
    &&& count_digits(s).len() > 0
    &&& forall|i: int| 0 <= i < count_digits(s).len() ==> is_digit(#[trigger] count_digits(s)[i])
    &&& digits_value(count_digits(s)) <= usize::MAX
}

/// A longer string of digits denotes at least as much as its prefix.
proof fn lemma_digits_value_prefix(s: Seq<char>, k: int)
    requires
        0 <= k <= s.len(),
    ensures
        digits_value(s.take(k)) <= digits_value(s),
    decreases s.len() - k,
{
    if k < s.len() {
        lemma_digits_value_prefix(s, k + 1);
        assert(s.take(k + 1).drop_last() =~= s.take(k));
    } else {
        assert(s.take(k) =~= s);
    }
}

/// The text without its leading whitespace.
pub open spec fn trim_start(s: Seq<char>) -> Seq<char>
    decreases s.len(),
{
    if s.len() > 0 && is_whitespace_char(s[0]) {
        trim_start(s.drop_first())
    } else {
        s
    }
}

/// The text without its trailing whitespace.
pub open spec fn trim_end(s: Seq<char>) -> Seq<char>
    decreases s.len(),
{
    if s.len() > 0 && is_whitespace_char(s.last()) {
        trim_end(s.drop_last())
    } else {
        s
    }
}

/// The text without whitespace at either end.
pub open spec fn trimmed(s: Seq<char>) -> Seq<char> {
    trim_end(trim_start(s))
}

/// An answer as typed, without whitespace at either end (the line break
/// included).
pub fn trim_answer(line: &str) -> (r: String)
    ensures
        r@ == trimmed(line@),
{
    let n = line.unicode_len();
    let mut start: usize = 0;
    assert(line@.subrange(0, n as int) =~= line@);
    while start < n && is_whitespace(line.get_char(start))
        invariant
            n == line@.len(),
            start <= n,
            trim_start(line@) == trim_start(line@.subrange(start as int, n as int)),
        decreases n - start,
    {
        assert(line@.subrange(start as int, n as int).drop_first() =~= line@.subrange(
            start + 1,
            n as int,
        ));
        start = start + 1;
    }
    let ghost rest = line@.subrange(start as int, n as int);
    assert(trim_start(line@) == rest);
    let mut end: usize = n;
    while end > start && is_whitespace(line.get_char(end - 1))
        invariant
            n == line@.len(),
            start <= end <= n,
            rest == line@.subrange(start as int, n as int),
            trim_end(rest) == trim_end(line@.subrange(start as int, end as int)),
        decreases end - start,
    {
        assert(line@.subrange(start as int, end as int).drop_last() =~= line@.subrange(
            start as int,
            end - 1,
        ));
        end = end - 1;
    }
    let kept = line.substring_char(start, end);
    String::from_str(kept)
}

/// Reads the number of images to fetch.
pub fn parse_count(input: &str) -> (r: Result<usize, InputError>)
    ensures
        r is Ok <==> is_valid_count(input@),
        r matches Ok(n) ==> n == digits_value(count_digits(input@)),
        r matches Err(e) ==> (e matches InputError::InvalidCount { input: t } && t@ == input@),
{
    let len = input.unicode_len();
    let start: usize = if len > 0 && input.get_char(0) == '+' {
        1
    } else {
        0
    };
    let ghost digits = count_digits(input@);
    assert(digits =~= input@.subrange(start as int, len as int));
    if start == len {
        return Err(InputError::InvalidCount { input: String::from_str(input) });
    }
    let mut n: usize = 0;
    let mut i: usize = start;
    while i < len
        invariant
            start <= i <= len,
            len == input@.len(),
            digits =~= input@.subrange(start as int, len as int),
            digits == count_digits(input@),
            forall|j: int| 0 <= j < i - start ==> is_digit(#[trigger] digits[j]),
            n == digits_value(digits.take(i - start)),
        decreases len - i,
    {
        let c = input.get_char(i);
        let k: usize = i - start;
        assert(c == digits[k as int]);
        if !('0' <= c && c <= '9') {
            assert(!is_digit(count_digits(input@)[k as int]));
            return Err(InputError::InvalidCount { input: String::from_str(input) });
        }
        let d: usize = (c as u32 - 48) as usize;
        assert(digits.take(k + 1).drop_last() =~= digits.take(k as int));
        assert(digits_value(digits.take(k + 1)) == n * 10 + d);
        if n > (usize::MAX - d) / 10 {
            proof {
                assert(n * 10 + d > usize::MAX) by (nonlinear_arith)
                    requires
                        n > (usize::MAX - d) / 10,
                        d <= 9,
                ;
                lemma_digits_value_prefix(digits, k + 1);
                assert(digits_value(count_digits(input@)) > usize::MAX);
            }
            return Err(InputError::InvalidCount { input: String::from_str(input) });
        }
        assert(n * 10 + d <= usize::MAX) by (nonlinear_arith)
            requires
                n <= (usize::MAX - d) / 10,
                d <= 9,
        ;
        n = n * 10 + d;
        i = i + 1;
    }
    assert(digits.take(len - start) =~= digits);
    Ok(n)
}

} // verus!
