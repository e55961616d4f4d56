//! Durations in seconds as the probe prints them: a decimal number with an
//! optional fraction, read into whole microseconds.

use crate::text::{
    after_plus, all_digits, chars_of, digits_value, is_digit, lemma_digits_value_monotonic,
};
use vstd::prelude::*;

verus! {

/// Microseconds in a second.
pub const MICROS_PER_SECOND: u64 = 1_000_000;

/// The largest number of whole seconds whose microseconds, with any
/// fraction added, fit 64 bits.
pub const MAX_SECONDS: u64 = 18_446_744_073_708;

/// Where the decimal point of `s` stands: the index of its first `.`, or
/// the length of `s` where it has none.
pub open spec fn point_at(s: Seq<char>) -> int
    decreases s.len(),
{
    if s.len() == 0 || s[0] == '.' {
        0
    } else {
        1 + point_at(s.skip(1))
    }
}

/// What stands before the decimal point.
pub open spec fn whole_part(s: Seq<char>) -> Seq<char> {
    s.take(point_at(s))
}

/// What stands behind the decimal point; empty where there is no point.
pub open spec fn fraction_part(s: Seq<char>) -> Seq<char> {
    if point_at(s) < s.len() {
        s.skip(point_at(s) + 1)
    } else {
        Seq::empty()
    }
}

/// The first six digits of a fraction, filled up with zeros.
pub open spec fn micro_digits(fraction: Seq<char>) -> Seq<char> {
    Seq::new(
        6,
        |k: int|
            if k < fraction.len() {
                fraction[k]
            } else {
                '0'
            },
    )
}

/// `s` is a decimal number: an optional `+`, digits, and optionally a
/// point and more digits, with at least one digit in all.
pub open spec fn is_decimal(s: Seq<char>) -> bool {
    let d = after_plus(s);
    &&& all_digits(whole_part(d))
    &&& all_digits(fraction_part(d))
    &&& whole_part(d).len() + fraction_part(d).len() > 0
}

/// The microseconds that a text in seconds stands for, cut off behind the
/// sixth digit of the fraction.  Only a decimal number that is greater
/// than zero and whose whole seconds are below `limit_secs` is read.
pub open spec fn seconds_reading(s: Seq<char>, limit_secs: u64) -> Option<u64> {
    let whole = whole_part(after_plus(s));
    let fraction = fraction_part(after_plus(s));
    if is_decimal(s) && (digits_value(whole) > 0 || digits_value(fraction) > 0) && digits_value(
        whole,
    ) < limit_secs {
        Some((digits_value(whole) * 1_000_000 + digits_value(micro_digits(fraction))) as u64)
    } else {
        None
    }
}

/// The first `.` of a text is its decimal point.
proof fn lemma_point_at(s: Seq<char>, p: int)
    requires
        0 <= p <= s.len(),
        forall|k: int| 0 <= k < p ==> s[k] != '.',
        p < s.len() ==> s[p] == '.',
    ensures
        point_at(s) == p,
    decreases p,
{
    if p > 0 {
        let t = s.skip(1);
        assert forall|k: int| 0 <= k < p - 1 implies t[k] != '.' by {
            assert(t[k] == s[k + 1]);
        }
        lemma_point_at(t, p - 1);
    }
}

/// One more digit behind a number multiplies it by ten and adds the digit.
proof fn lemma_next_digit(s: Seq<char>, k: int)
    requires
        0 <= k < s.len(),
        is_digit(s[k]),
    ensures
        digits_value(s.take(k + 1)) == digits_value(s.take(k)) * 10 + (s[k] as u32 - 0x30),
        all_digits(s.take(k)) ==> all_digits(s.take(k + 1)),
{
    let next = s.take(k + 1);
    assert(next.drop_last() =~= s.take(k));
    assert(next.last() == s[k]);
    if all_digits(s.take(k)) {
        assert forall|i: int| 0 <= i < next.len() implies is_digit(#[trigger] next[i]) by {
            if i < k {
                assert(next[i] == s.take(k)[i]);
            }
        }
    }
}

/// The number that the characters from `from` up to `to` denote, where
/// they are digits and the number is below `limit`.
fn read_digits(v: &Vec<char>, from: usize, to: usize, limit: u64) -> (r: Option<u64>)
    requires
        from <= to <= v@.len(),
        limit <= MAX_SECONDS + 1,
    ensures
        r == if all_digits(v@.subrange(from as int, to as int)) && digits_value(
            v@.subrange(from as int, to as int),
        ) < limit {
            Some(digits_value(v@.subrange(from as int, to as int)) as u64)
        } else {
            None
        },
{
    let ghost s = v@.subrange(from as int, to as int);
    if limit == 0 {
        return None;
    }
    let mut value: u64 = 0;
    let mut i: usize = from;
    while i < to
        invariant
            from <= i <= to <= v@.len(),
            s == v@.subrange(from as int, to as int),
            all_digits(s.take(i - from)),
            value == digits_value(s.take(i - from)),
            value < limit <= MAX_SECONDS + 1,
        decreases to - i,
    {
        let code: u32 = v[i] as u32;
        assert(s[i - from] == v@[i as int]);
        if code < 0x30 || code > 0x39 {
            assert(!is_digit(s[i - from]));
            return None;
        }
        proof {
            lemma_next_digit(s, i - from);
        }
        let next: u64 = value * 10 + (code - 0x30) as u64;
        if next >= limit {
            proof {
                if all_digits(s) {
                    lemma_digits_value_monotonic(s, i - from + 1);
                }
            }
            return None;
        }
        value = next;
        i += 1;
    }
    assert(s.take(to - from) =~= s);
    Some(value)
}

/// Whether the characters from `from` on are digits, and if so, whether
/// their number is greater than zero.
fn digits_positive(v: &Vec<char>, from: usize) -> (r: Option<bool>)
    requires
        from <= v@.len(),
    ensures
        r == if all_digits(v@.skip(from as int)) {
            Some(digits_value(v@.skip(from as int)) > 0)
        } else {
            None
        },
{
    let ghost s = v@.skip(from as int);
    let mut nonzero = false;
    let mut i: usize = from;
    while i < v.len()
        invariant
            from <= i <= v@.len(),
            s == v@.skip(from as int),
            all_digits(s.take(i - from)),
            nonzero == (digits_value(s.take(i - from)) > 0),
        decreases v.len() - i,
    {
        let code: u32 = v[i] as u32;
        assert(s[i - from] == v@[i as int]);
        if code < 0x30 || code > 0x39 {
            assert(!is_digit(s[i - from]));
            return None;
        }
        proof {
            lemma_next_digit(s, i - from);
        }
        if code != 0x30 {
            nonzero = true;
        }
        i += 1;
    }
    assert(s.take(v@.len() - from) =~= s);
    Some(nonzero)
}

/// The first six of the digits from `from` on, filled up with zeros, as a
/// number.
fn leading_micros(v: &Vec<char>, from: usize) -> (r: u64)
    requires
        from <= v@.len(),
        all_digits(v@.skip(from as int)),
    ensures
        r == digits_value(micro_digits(v@.skip(from as int))),
        r < 1_000_000,
{
    let ghost fraction = v@.skip(from as int);
    let ghost six = micro_digits(fraction);
    let mut micros: u64 = 0;
    let mut bound: u64 = 1;
    let mut k: usize = 0;
    while k < 6
        invariant
            k <= 6,
            from <= v@.len(),
            fraction == v@.skip(from as int),
            all_digits(fraction),
            six == micro_digits(fraction),
            micros == digits_value(six.take(k as int)),
            micros < bound,
            k == 0 ==> bound == 1,
            k == 1 ==> bound == 10,
            k == 2 ==> bound == 100,
            k == 3 ==> bound == 1_000,
            k == 4 ==> bound == 10_000,
            k == 5 ==> bound == 100_000,
            k == 6 ==> bound == 1_000_000,
        decreases 6 - k,
    {
        let digit: u64 = if k < v.len() - from {
            assert(fraction[k as int] == v@[from + k]);
            assert(is_digit(fraction[k as int]));
            (v[from + k] as u32 - 0x30) as u64
        } else {
            0
        };
        proof {
            assert(six[k as int] as u32 - 0x30 == digit);
            lemma_next_digit(six, k as int);
        }
        micros = micros * 10 + digit;
        bound = bound * 10;
        k += 1;
    }
    assert(six.take(6) =~= six);
    micros
}

/// Reads a duration in seconds into microseconds.
pub fn read_seconds(text: &str, limit_secs: u64) -> (r: Option<u64>)
    requires
        limit_secs <= MAX_SECONDS + 1,
    ensures
        r == seconds_reading(text@, limit_secs),
{
    let v = chars_of(text);
    let start: usize = if v.len() > 0 && v[0] == '+' {
        1
    } else {
        0
    };
    let ghost d = v@.subrange(start as int, v@.len() as int);
    assert(d =~= after_plus(text@));
    let mut point: usize = start;
    while point < v.len() && v[point] != '.'
        invariant
            start <= point <= v.len(),
            d == v@.subrange(start as int, v@.len() as int),
            forall|k: int| 0 <= k < point - start ==> d[k] != '.',
        decreases v.len() - point,
    {
        point += 1;
    }
    let first: usize = if point < v.len() {
        point + 1
    } else {
        point
    };
    proof {
        lemma_point_at(d, point - start);
        assert(v@.subrange(start as int, point as int) =~= whole_part(d));
        assert(v@.skip(first as int) =~= fraction_part(d));
    }
    if v.len() - first + (point - start) == 0 {
        return None;
    }
    let seconds = match read_digits(&v, start, point, limit_secs) {
        Some(n) => n,
        None => {
            return None;
        },
    };
    let nonzero = match digits_positive(&v, first) {
        Some(b) => b,
        None => {
            return None;
        },
    };
    if seconds == 0 && !nonzero {
        return None;
    }
    let micros = leading_micros(&v, first);
    Some(seconds * MICROS_PER_SECOND + micros)
}

} // verus!
