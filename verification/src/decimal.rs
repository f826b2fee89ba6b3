//! Decimal numbers as text: writing an integer out and reading one in.

use vstd::prelude::*;
use crate::text::{chars_of, text_of};

verus! {

/// The character that writes the digit `d`.
pub open spec fn digit_char(d: int) -> char {
    if d == 0 {
        '0'
    } else if d == 1 {
        '1'
    } else if d == 2 {
        '2'
    } else if d == 3 {
        '3'
    } else if d == 4 {
        '4'
    } else if d == 5 {
        '5'
    } else if d == 6 {
        '6'
    } else if d == 7 {
        '7'
    } else if d == 8 {
        '8'
    } else {
        '9'
    }
}

/// The digit that `c` writes, if it is one of `0` to `9`.
pub open spec fn digit_value(c: char) -> Option<int> {
    if c == '0' {
        Some(0)
    } else if c == '1' {
        Some(1)
    } else if c == '2' {
        Some(2)
    } else if c == '3' {
        Some(3)
    } else if c == '4' {
        Some(4)
    } else if c == '5' {
        Some(5)
    } else if c == '6' {
        Some(6)
    } else if c == '7' {
        Some(7)
    } else if c == '8' {
        Some(8)
    } else if c == '9' {
        Some(9)
    } else {
        None
    }
}

/// The decimal digits of `n`, most significant first, without leading zeros.
pub open spec fn decimal(n: nat) -> Seq<char>
    decreases n,
{
    if n < 10 {
        seq![digit_char(n as int)]
    } else {
        decimal(n / 10).push(digit_char((n % 10) as int))
    }
}

/// The decimal form of `n`, with a minus sign where it is negative.
pub open spec fn signed_decimal(n: int) -> Seq<char> {
    if n < 0 {
        seq!['-'] + decimal((-n) as nat)
    } else {
        decimal(n as nat)
    }
}

/// The number that a run of digits writes; `None` where a character is no digit.
/// The empty run writes zero.
pub open spec fn digits_value(s: Seq<char>) -> Option<nat>
    decreases s.len(),
{
    if s.len() == 0 {
        Some(0)
    } else {
        match (digits_value(s.drop_last()), digit_value(s.last())) {
            (Some(high), Some(d)) => Some((high * 10 + d) as nat),
            _ => None,
        }
    }
}

/// The number that `s` writes: an optional `+`, then one digit or more, the
/// value no greater than `u64::MAX`. Anything else writes no number.
pub open spec fn parsed_u64(s: Seq<char>) -> Option<u64> {
    let body = if s.len() > 0 && s[0] == '+' {
        s.subrange(1, s.len() as int)
    } else {
        s
    };
    if body.len() == 0 {
        None
    } else {
        match digits_value(body) {
            Some(n) => if n <= u64::MAX {
                Some(n as u64)
            } else {
                None
            },
            None => None,
        }
    }
}

fn digit_of(d: u64) -> (c: char)
    requires
        d < 10,
    ensures
        c == digit_char(d as int),
{
    if d == 0 {
        '0'
    } else if d == 1 {
        '1'
    } else if d == 2 {
        '2'
    } else if d == 3 {
        '3'
    } else if d == 4 {
        '4'
    } else if d == 5 {
        '5'
    } else if d == 6 {
        '6'
    } else if d == 7 {
        '7'
    } else if d == 8 {
        '8'
    } else {
        '9'
    }
}

fn value_of(c: char) -> (d: Option<u64>)
    ensures
        match d {
            Some(v) => digit_value(c) == Some(v as int) && v < 10,
            None => digit_value(c) is None,
        },
{
    if c == '0' {
        Some(0)
    } else if c == '1' {
        Some(1)
    } else if c == '2' {
        Some(2)
    } else if c == '3' {
        Some(3)
    } else if c == '4' {
        Some(4)
    } else if c == '5' {
        Some(5)
    } else if c == '6' {
        Some(6)
    } else if c == '7' {
        Some(7)
    } else if c == '8' {
        Some(8)
    } else if c == '9' {
        Some(9)
    } else {
        None
    }
}

fn push_decimal(out: &mut Vec<char>, n: u64)
    ensures
        final(out)@ == old(out)@ + decimal(n as nat),
    decreases n,
{
    if n < 10 {
        out.push(digit_of(n));
        assert(out@ =~= old(out)@ + decimal(n as nat));
    } else {
        push_decimal(out, n / 10);
        out.push(digit_of(n % 10));
        assert(out@ =~= old(out)@ + decimal(n as nat));
    }
}

/// Writes `n` in decimal.
pub fn u64_text(n: u64) -> (s: String)
    ensures
        s@ == decimal(n as nat),
{
    let mut out: Vec<char> = Vec::new();
    push_decimal(&mut out, n);
    assert(out@ =~= decimal(n as nat));
    text_of(&out)
}

/// Writes `n` in decimal, with a minus sign where it is negative.
pub fn i64_text(n: i64) -> (s: String)
    ensures
        s@ == signed_decimal(n as int),
{
    let mut out: Vec<char> = Vec::new();
    if n < 0 {
        out.push('-');
        let magnitude: u64 = if n == i64::MIN {
            9223372036854775808u64
        } else {
            (-n) as u64
        };
        push_decimal(&mut out, magnitude);
        assert(out@ =~= signed_decimal(n as int));
    } else {
        push_decimal(&mut out, n as u64);
        assert(out@ =~= signed_decimal(n as int));
    }
    text_of(&out)
}

/// A run of digits that grows does not write a smaller number.
proof fn lemma_digits_grow(s: Seq<char>, k: int)
    requires
        0 <= k <= s.len(),
    ensures
        digits_value(s) is Some ==> digits_value(s.take(k)) is Some,
        digits_value(s) is Some ==> digits_value(s.take(k))->0 <= digits_value(s)->0,
    decreases s.len() - k,
{
    if k == s.len() {
        assert(s.take(k) =~= s);
    } else {
        lemma_digits_grow(s.drop_last(), k);
        assert(s.drop_last().take(k) =~= s.take(k));
    }
}

/// Reads a number written as an optional `+` and decimal digits.
pub fn parse_u64(text: &str) -> (r: Option<u64>)
    ensures
        r == parsed_u64(text@),
{
    let t = chars_of(text);
    let start: usize = if t.len() > 0 && t[0] == '+' {
        1
    } else {
        0
    };
    if start == t.len() {
        return None;
    }
    let ghost body = t@.subrange(start as int, t.len() as int);
    let mut value: u64 = 0;
    let mut i: usize = start;
    proof {
        assert(body.take(0) =~= Seq::<char>::empty());
    }
    while i < t.len()
        invariant
            start <= i <= t.len(),
            start < t.len(),
            t@ == text@,
            start == (if t@.len() > 0 && t@[0] == '+' {
                1int
            } else {
                0int
            }),
            body == t@.subrange(start as int, t.len() as int),
            digits_value(body.take(i - start)) == Some(value as nat),
        decreases t.len() - i,
    {
        let ghost prefix = body.take(i - start + 1);
        proof {
            assert(t@.subrange(0, t.len() as int) =~= t@);
            assert(prefix.drop_last() =~= body.take(i - start));
            assert(prefix.last() == t@[i as int]);
            lemma_digits_grow(body, i - start + 1);
        }
        let d = match value_of(t[i]) {
            Some(d) => d,
            None => {
                return None;
            },
        };
        if value > (u64::MAX - d) / 10 {
            return None;
        }
        value = value * 10 + d;
        i += 1;
    }
    proof {
        assert(t@.subrange(0, t.len() as int) =~= t@);
        assert(body.take(t.len() - start) =~= body);
    }
    Some(value)
}

} // verus!
