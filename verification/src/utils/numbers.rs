//! Numbers read from text: whole numbers with or without a sign, and spans
//! of time written as decimal seconds.

use crate::utils::text::{
    all_digits, digits_value, is_digit, lemma_digits_value_nonnegative, lemma_digits_value_prefix,
};
use vstd::prelude::*;
use vstd::slice::slice_subrange;

verus! {

/// The number that a run of one or more decimal digits writes, if it is at
/// most `max`.
pub open spec fn digits_spec(s: Seq<char>, max: u64) -> Option<u64> {
    if all_digits(s) && digits_value(s) <= max {
        Some(digits_value(s) as u64)
    } else {
        None
    }
}

/// Reads a run of one or more decimal digits that writes a number up to
/// `max`.
pub fn parse_digits(v: &[char], max: u64) -> (r: Option<u64>)
    ensures
        r == digits_spec(v@, max),
        r matches Some(n) ==> n == digits_value(v@),
{
    if v.len() == 0 {
        return None;
    }
    let mut acc: u64 = 0;
    let mut i: usize = 0;
    while i < v.len()
        invariant
            i <= v.len(),
            forall|k: int| 0 <= k < i ==> is_digit(#[trigger] v@[k]),
            acc == digits_value(v@.take(i as int)),
            acc <= max,
        decreases v.len() - i,
    {
        let n: u32 = v[i] as u32;
        if n < 0x30 || n > 0x39 {
            proof {
                assert(!is_digit(v@[i as int]));
            }
            return None;
        }
        let d: u64 = (n - 0x30) as u64;
        proof {
            assert(v@.take(i + 1).drop_last() == v@.take(i as int));
            assert(v@.take(i + 1).last() == v@[i as int]);
            assert(digits_value(v@.take(i + 1)) == acc * 10 + d);
        }
        if d > max || acc > (max - d) / 10 {
            proof {
                assert(acc * 10 + d > max) by (nonlinear_arith)
                    requires
                        d > max || acc > (max - d) / 10,
                        0 <= d,
                        0 <= acc,
                ;
                if all_digits(v@) {
                    lemma_digits_value_prefix(v@, i + 1);
                }
            }
            return None;
        }
        proof {
            assert(acc * 10 + d <= max) by (nonlinear_arith)
                requires
                    d <= max,
                    acc <= (max - d) / 10,
                    0 <= acc,
            ;
        }
        acc = acc * 10 + d;
        i += 1;
    }
    proof {
        assert(v@.take(v@.len() as int) == v@);
    }
    Some(acc)
}

/// `s` without one leading plus sign.
pub open spec fn without_plus(s: Seq<char>) -> Seq<char> {
    if s.len() > 0 && s[0] == '+' {
        s.drop_first()
    } else {
        s
    }
}

/// The number up to `max` that `s` writes in decimal, with or without a
/// leading plus sign, if it writes one.
pub open spec fn unsigned_spec(s: Seq<char>, max: u64) -> Option<u64> {
    digits_spec(without_plus(s), max)
}

/// Reads a number up to `max` written in decimal, with or without a leading
/// plus sign.
pub fn parse_unsigned(v: &[char], max: u64) -> (r: Option<u64>)
    ensures
        r == unsigned_spec(v@, max),
        r matches Some(n) ==> n == digits_value(without_plus(v@)),
{
    if v.len() > 0 && v[0] == '+' {
        let body = slice_subrange(v, 1, v.len());
        proof {
            assert(body@ == v@.drop_first());
        }
        parse_digits(body, max)
    } else {
        parse_digits(v, max)
    }
}

/// The number from `min` to `max` that `s` writes in decimal, with or
/// without a sign, if it writes one.
pub open spec fn signed_spec(s: Seq<char>, min: i64, max: i64) -> Option<i64> {
    if s.len() > 0 && s[0] == '-' {
        if all_digits(s.drop_first()) && -digits_value(s.drop_first()) >= min {
            Some((-digits_value(s.drop_first())) as i64)
        } else {
            None
        }
    } else if all_digits(without_plus(s)) && digits_value(without_plus(s)) <= max {
        Some(digits_value(without_plus(s)) as i64)
    } else {
        None
    }
}

/// Reads a number from `min` to `max` written in decimal, with or without a
/// sign.
pub fn parse_signed(v: &[char], min: i64, max: i64) -> (r: Option<i64>)
    requires
        min <= 0 <= max,
    ensures
        r == signed_spec(v@, min, max),
        r matches Some(n) ==> min <= n <= max,
{
    if v.len() > 0 && v[0] == '-' {
        let body = slice_subrange(v, 1, v.len());
        proof {
            assert(body@ == v@.drop_first());
        }
        let bound: u64 = if min == i64::MIN {
            0x8000_0000_0000_0000
        } else {
            (-min) as u64
        };
        assert(bound == -(min as int));
        match parse_digits(body, bound) {
            Some(n) => {
                assert(n <= 0x8000_0000_0000_0000);
                if n == 0x8000_0000_0000_0000 {
                    Some(i64::MIN)
                } else {
                    let m: i64 = n as i64;
                    Some(-m)
                }
            },
            None => None,
        }
    } else {
        let bound: u64 = max as u64;
        match parse_unsigned(v, bound) {
            Some(n) => {
                assert(n <= max);
                Some(n as i64)
            },
            None => None,
        }
    }
}

/// Whether every character of `s` is a decimal digit.
pub open spec fn digits_only(s: Seq<char>) -> bool {
    forall|i: int| 0 <= i < s.len() ==> is_digit(#[trigger] s[i])
}

/// The value of the digit at place `i` of `s`; zero where `s` ends before.
pub open spec fn digit_at(s: Seq<char>, i: int) -> int {
    if 0 <= i < s.len() {
        s[i] as u32 - 0x30
    } else {
        0
    }
}

/// The thousandths that the digits behind a decimal point write; what lies
/// beyond the third digit is dropped.
pub open spec fn thousandths(frac: Seq<char>) -> int {
    digit_at(frac, 0) * 100 + digit_at(frac, 1) * 10 + digit_at(frac, 2)
}

/// The first place of a point in `s`; the length of `s` if it has none.
pub open spec fn point_of(s: Seq<char>) -> int
    decreases s.len(),
{
    if s.len() == 0 {
        0
    } else if s[0] == '.' {
        0
    } else {
        1 + point_of(s.skip(1))
    }
}

/// The digits behind the first point of `s`; none if it has no point.
pub open spec fn behind_point(s: Seq<char>) -> Seq<char> {
    if point_of(s) < s.len() {
        s.skip(point_of(s) + 1)
    } else {
        Seq::<char>::empty()
    }
}

/// The milliseconds in a span of time written as decimal seconds: digits,
/// with or without a leading plus sign, and with or without a point and
/// more digits; at least one digit in all. Fractions of a millisecond are
/// dropped. Nothing if the text has another form or the span does not fit.
pub open spec fn millis_spec(s: Seq<char>) -> Option<u64> {
    let body = without_plus(s);
    let whole = body.take(point_of(body));
    let frac = behind_point(body);
    if whole.len() + frac.len() > 0 && digits_only(whole) && digits_only(frac) && digits_value(
        whole,
    ) * 1000 + thousandths(frac) <= u64::MAX {
        Some((digits_value(whole) * 1000 + thousandths(frac)) as u64)
    } else {
        None
    }
}

fn find_point(v: &[char]) -> (i: usize)
    ensures
        i == point_of(v@),
        i <= v.len(),
{
    let mut i: usize = 0;
    proof {
        assert(v@.skip(0) == v@);
    }
    while i < v.len() && v[i] != '.'
        invariant
            i <= v.len(),
            point_of(v@) == i + point_of(v@.skip(i as int)),
        decreases v.len() - i,
    {
        proof {
            assert(v@.skip(i as int).skip(1) == v@.skip(i + 1));
        }
        i += 1;
    }
    i
}

fn check_digits(v: &[char]) -> (r: bool)
    ensures
        r == digits_only(v@),
{
    let mut i: usize = 0;
    while i < v.len()
        invariant
            i <= v.len(),
            forall|k: int| 0 <= k < i ==> is_digit(#[trigger] v@[k]),
        decreases v.len() - i,
    {
        let n: u32 = v[i] as u32;
        if n < 0x30 || n > 0x39 {
            proof {
                assert(!is_digit(v@[i as int]));
            }
            return false;
        }
        i += 1;
    }
    true
}

fn digit(v: &[char], i: usize) -> (d: u64)
    requires
        digits_only(v@),
    ensures
        d == digit_at(v@, i as int),
        d <= 9,
{
    if i < v.len() {
        proof {
            assert(is_digit(v@[i as int]));
        }
        (v[i] as u32 - 0x30) as u64
    } else {
        0
    }
}

/// Reads a span of time written as decimal seconds, in milliseconds.
pub fn parse_millis(v: &[char]) -> (r: Option<u64>)
    ensures
        r == millis_spec(v@),
{
    let start: usize = if v.len() > 0 && v[0] == '+' {
        1
    } else {
        0
    };
    let body = slice_subrange(v, start, v.len());
    proof {
        if start == 1 {
            assert(body@ == v@.drop_first());
        } else {
            assert(body@ == v@);
        }
    }
    let dot = find_point(body);
    let whole = slice_subrange(body, 0, dot);
    let frac = if dot < body.len() {
        slice_subrange(body, dot + 1, body.len())
    } else {
        slice_subrange(body, dot, dot)
    };
    proof {
        assert(whole@ == body@.take(dot as int));
        assert(frac@ == behind_point(body@));
    }
    if whole.len() + frac.len() == 0 || !check_digits(whole) || !check_digits(frac) {
        return None;
    }
    let ms: u64 = digit(frac, 0) * 100 + digit(frac, 1) * 10 + digit(frac, 2);
    let limit: u64 = (u64::MAX - ms) / 1000;
    if whole.len() == 0 {
        proof {
            assert(digits_value(whole@) == 0);
        }
        return Some(ms);
    }
    proof {
        lemma_digits_value_nonnegative(whole@);
    }
    match parse_digits(whole, limit) {
        Some(n) => {
            proof {
                assert(n * 1000 + ms <= u64::MAX) by (nonlinear_arith)
                    requires
                        n <= (u64::MAX - ms) / 1000,
                        0 <= ms,
                ;
            }
            Some(n * 1000 + ms)
        },
        None => {
            proof {
                assert(all_digits(whole@));
                let w = digits_value(whole@);
                assert(w * 1000 + ms > u64::MAX) by (nonlinear_arith)
                    requires
                        w > (u64::MAX - ms) / 1000,
                        0 <= ms <= 999,
                ;
            }
            None
        },
    }
}

} // verus!
