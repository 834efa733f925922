//! Unsigned numbers as decimal text, and back.

use crate::text::{chars_of, string_of};
use vstd::prelude::*;

verus! {

/// The character for a digit below ten.
pub open spec fn digit_char(d: nat) -> char {
    if d == 0 {
        '0'
    } else if d == 1 {
        '1'
    } else if d == 2 {
        '2'
    } else if d == 3 {
        '3'
    } else if d == 4 {
        '4'
    } else if d == 5 {
        '5'
    } else if d == 6 {
        '6'
    } else if d == 7 {
        '7'
    } else if d == 8 {
        '8'
    } else {
        '9'
    }
}

/// The digit that a character stands for, if it is one of `0` to `9`.
pub open spec fn digit_value(c: char) -> Option<nat> {
    if '0' <= c <= '9' {
        Some((c as u32 - '0' as u32) as nat)
    } else {
        None
    }
}

/// The decimal digits of `n`, without leading zeros.
pub open spec fn digits(n: nat) -> Seq<char>
    decreases n,
{
    if n < 10 {
        seq![digit_char(n)]
    } else {
        digits(n / 10).push(digit_char(n % 10))
    }
}

/// The number that a run of decimal digits stands for; nothing if a
/// character is no digit. The empty run stands for zero.
pub open spec fn digits_value(s: Seq<char>) -> Option<nat>
    decreases s.len(),
{
    if s.len() == 0 {
        Some(0)
    } else {
        match (digits_value(s.drop_last()), digit_value(s.last())) {
            (Some(front), Some(d)) => Some(front * 10 + d),
            _ => None,
        }
    }
}

/// The number that a text stands for: decimal digits, at least one, after
/// an optional `+`. Nothing for any other text.
pub open spec fn number_of(s: Seq<char>) -> Option<nat> {
    let body = if s.len() > 0 && s[0] == '+' {
        s.subrange(1, s.len() as int)
    } else {
        s
    };
    if body.len() == 0 {
        None
    } else {
        digits_value(body)
    }
}

/// The 64-bit number that a text stands for, if it stands for a number and
/// the number fits.
pub open spec fn u64_of(s: Seq<char>) -> Option<u64> {
    match number_of(s) {
        Some(n) => if n <= u64::MAX {
            Some(n as u64)
        } else {
            None
        },
        None => None,
    }
}

/// The digits of a number stand for that number.
pub proof fn lemma_digits_value(n: nat)
    ensures
        digits_value(digits(n)) == Some(n),
        digits(n).len() > 0,
        digits(n)[0] != '+',
    decreases n,
{
    if n < 10 {
        let s = digits(n);
        assert(s.drop_last() =~= Seq::<char>::empty());
        assert(digits_value(s.drop_last()) == Some(0nat));
        assert(digit_value(s.last()) == Some(n));
    } else {
        lemma_digits_value(n / 10);
        let s = digits(n);
        assert(s.drop_last() =~= digits(n / 10));
        assert(digit_value(s.last()) == Some(n % 10));
        assert(s[0] == digits(n / 10)[0]);
    }
}

/// Reading the decimal text of a 64-bit number gives the number back, so
/// different numbers have different texts.
pub proof fn lemma_u64_of_digits(n: u64)
    ensures
        u64_of(digits(n as nat)) == Some(n),
{
    lemma_digits_value(n as nat);
}

/// The character for a digit below ten.
fn digit_of(d: u64) -> (c: char)
    requires
        d < 10,
    ensures
        c == digit_char(d as nat),
{
    if d == 0 {
        '0'
    } else if d == 1 {
        '1'
    } else if d == 2 {
        '2'
    } else if d == 3 {
        '3'
    } else if d == 4 {
        '4'
    } else if d == 5 {
        '5'
    } else if d == 6 {
        '6'
    } else if d == 7 {
        '7'
    } else if d == 8 {
        '8'
    } else {
        '9'
    }
}

/// The decimal text of `n`.
pub fn decimal(n: u64) -> (text: String)
    ensures
        text@ == digits(n as nat),
{
    let mut reversed: Vec<char> = Vec::new();
    let mut rest: u64 = n;
    // `reversed` holds the digits below `rest`, lowest first.
    let ghost mut low: Seq<char> = Seq::empty();
    while rest >= 10
        invariant
            reversed@.len() == low.len(),
            forall|i: int| 0 <= i < low.len() ==> reversed@[i] == low[low.len() - 1 - i],
            digits(n as nat) == digits(rest as nat) + low,
        decreases rest,
    {
        let c = digit_of(rest % 10);
        reversed.push(c);
        proof {
            let next = seq![c] + low;
            assert(digits(rest as nat) == digits((rest / 10) as nat).push(c));
            assert(digits((rest / 10) as nat).push(c) + low =~= digits((rest / 10) as nat) + next);
            low = next;
        }
        rest = rest / 10;
    }
    let first = digit_of(rest);
    reversed.push(first);
    proof {
        let all = seq![first] + low;
        assert(digits(rest as nat) + low =~= all);
        low = all;
    }
    let mut ordered: Vec<char> = Vec::new();
    let mut i: usize = reversed.len();
    while i > 0
        invariant
            i <= reversed@.len(),
            reversed@.len() == low.len(),
            forall|k: int| 0 <= k < low.len() ==> reversed@[k] == low[low.len() - 1 - k],
            ordered@.len() == reversed@.len() - i,
            forall|k: int| 0 <= k < ordered@.len() ==> ordered@[k] == low[k],
        decreases i,
    {
        i = i - 1;
        ordered.push(reversed[i]);
    }
    assert(ordered@ =~= low);
    string_of(ordered.as_slice())
}

/// The number that `text` stands for, if it is decimal digits after an
/// optional `+` and the number fits 64 bits.
pub fn parse_u64(text: &str) -> (r: Option<u64>)
    ensures
        r == u64_of(text@),
{
    let chars = chars_of(text);
    let start: usize = if chars.len() > 0 && chars[0] == '+' {
        1
    } else {
        0
    };
    if start == chars.len() {
        return None;
    }
    let ghost body = chars@.subrange(start as int, chars@.len() as int);
    let mut value: u64 = 0;
    let mut i: usize = start;
    proof {
        assert(body.take(0) =~= Seq::<char>::empty());
        if start == 0 {
            assert(body =~= text@);
        }
        assert(number_of(text@) == digits_value(body));
    }
    while i < chars.len()
        invariant
            start <= i <= chars@.len(),
            body == chars@.subrange(start as int, chars@.len() as int),
            number_of(text@) == digits_value(body),
            digits_value(body.take(i - start)) == Some(value as nat),
        decreases chars@.len() - i,
    {
        let c = chars[i];
        proof {
            let next = body.take(i - start + 1);
            assert(next.drop_last() =~= body.take(i - start));
            assert(next.last() == c);
            assert(body.take(body.len() as int) =~= body);
        }
        if !('0' <= c && c <= '9') {
            proof {
                lemma_bad_digit(body, i - start);
            }
            return None;
        }
        let d: u64 = (c as u32 - '0' as u32) as u64;
        if value > (u64::MAX - d) / 10 {
            proof {
                lemma_prefix_too_large(body, i - start + 1);
            }
            return None;
        }
        value = value * 10 + d;
        i = i + 1;
    }
    proof {
        assert(body.take(body.len() as int) =~= body);
    }
    Some(value)
}

/// A run with a character that is no digit stands for nothing.
proof fn lemma_bad_digit(s: Seq<char>, at: int)
    requires
        0 <= at < s.len(),
        digit_value(s[at]) is None,
    ensures
        digits_value(s) is None,
    decreases s.len(),
{
    if at < s.len() - 1 {
        lemma_bad_digit(s.drop_last(), at);
    }
}

/// The value of a run of digits is at least the value of each of its
/// prefixes: where a prefix does not fit 64 bits, the run does not.
proof fn lemma_prefix_too_large(s: Seq<char>, k: int)
    requires
        0 <= k <= s.len(),
        digits_value(s.take(k)) matches Some(v) && v > u64::MAX,
    ensures
        digits_value(s) matches Some(n) ==> n > u64::MAX,
    decreases s.len() - k,
{
    if k < s.len() {
        let next = s.take(k + 1);
        assert(next.drop_last() =~= s.take(k));
        if digit_value(next.last()) is Some {
            lemma_prefix_too_large(s, k + 1);
        } else {
            lemma_bad_digit(s, k);
        }
    } else {
        assert(s.take(k) =~= s);
    }
}

} // verus!
