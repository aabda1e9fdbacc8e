//! Timestamps of the encoder's diagnostics.
//!
//! A timestamp reads `HH:MM:SS.ff`: three fields separated by `:`, each a
//! decimal number with an optional fraction. Times are kept as whole
//! microseconds; digits of a fraction beyond the sixth are cut off.

use crate::text::{find_byte, first_byte_from, lemma_first_byte_is_least, trim_bounds, trimmed};
use vstd::prelude::*;
use vstd::slice::*;

verus! {

pub const COLON: u8 = 0x3a;

pub const DOT: u8 = 0x2e;

pub const COMMA: u8 = 0x2c;

/// Whether `b` is one of the ASCII digits `0` to `9`.
pub open spec fn is_digit(b: u8) -> bool {
    0x30 <= b && b <= 0x39
}

/// Whether `s` holds ASCII digits only.
pub open spec fn all_digits(s: Seq<u8>) -> bool {
    forall|i: int| 0 <= i < s.len() ==> is_digit(#[trigger] s[i])
}

/// The number that a run of ASCII digits stands for.
pub open spec fn digits_value(s: Seq<u8>) -> nat
    decreases s.len(),
{
    if s.len() == 0 {
        0
    } else {
        digits_value(s.drop_last()) * 10 + (s.last() - 0x30) as nat
    }
}

/// Ten to the power of `n`.
pub open spec fn pow10(n: nat) -> nat
    decreases n,
{
    if n == 0 {
        1
    } else {
        10 * pow10((n - 1) as nat)
    }
}

/// The first six digits of a fraction, filled up with zeros on the right.
pub open spec fn six_digits(s: Seq<u8>) -> Seq<u8> {
    if s.len() >= 6 {
        s.take(6)
    } else {
        s + Seq::new((6 - s.len()) as nat, |i: int| 0x30u8)
    }
}

/// The millionths that the digits behind a decimal point stand for.
pub open spec fn fraction_micros(s: Seq<u8>) -> nat {
    digits_value(six_digits(s))
}

/// Where the whole part of a field ends: at its first `.`, or at its end.
pub open spec fn whole_len(f: Seq<u8>) -> int {
    match first_byte_from(f, DOT, 0) {
        Some(i) => i,
        None => f.len() as int,
    }
}

/// The digits of a field in front of its first `.`.
pub open spec fn whole_part(f: Seq<u8>) -> Seq<u8> {
    f.take(whole_len(f))
}

/// The digits of a field behind its first `.`.
pub open spec fn fraction_part(f: Seq<u8>) -> Seq<u8> {
    if whole_len(f) < f.len() {
        f.skip(whole_len(f) + 1)
    } else {
        Seq::empty()
    }
}

/// The microseconds that one field stands for when its unit is the second:
/// digits, then optionally `.` and digits, at least one digit in all.
pub open spec fn field_micros(f: Seq<u8>) -> Option<nat> {
    let whole = whole_part(f);
    let frac = fraction_part(f);
    if all_digits(whole) && all_digits(frac) && whole.len() + frac.len() > 0 {
        Some(digits_value(whole) * 1_000_000 + fraction_micros(frac))
    } else {
        None
    }
}

/// The microseconds that a timestamp stands for: white space at both ends
/// is ignored, and what remains must be exactly three fields with `:`
/// between them: hours, minutes and seconds.
pub open spec fn time_micros(s: Seq<u8>) -> Option<nat> {
    let t = trimmed(s);
    match first_byte_from(t, COLON, 0) {
        None => None,
        Some(c1) => match first_byte_from(t, COLON, c1 + 1) {
            None => None,
            Some(c2) => match (
                field_micros(t.subrange(0, c1)),
                field_micros(t.subrange(c1 + 1, c2)),
                field_micros(t.subrange(c2 + 1, t.len() as int)),
            ) {
                (Some(h), Some(m), Some(sec)) => Some(h * 3600 + m * 60 + sec),
                _ => None,
            },
        },
    }
}

/// A time that fits in 64 bits, or nothing.
pub open spec fn bounded(t: Option<nat>) -> Option<u64> {
    match t {
        Some(v) => if v <= u64::MAX {
            Some(v as u64)
        } else {
            None
        },
        None => None,
    }
}

pub proof fn lemma_pow10_small()
    ensures
        pow10(0) == 1,
        pow10(1) == 10,
        pow10(2) == 100,
        pow10(3) == 1_000,
        pow10(4) == 10_000,
        pow10(5) == 100_000,
        pow10(6) == 1_000_000,
{
    reveal_with_fuel(pow10, 8);
}

/// A run of digits stands for at least as much as each of its prefixes.
pub proof fn lemma_digits_value_prefix(s: Seq<u8>, k: int)
    requires
        all_digits(s),
        0 <= k <= s.len(),
    ensures
        digits_value(s.take(k)) <= digits_value(s),
    decreases s.len(),
{
    if k == s.len() {
        assert(s.take(k) =~= s);
    } else {
        lemma_digits_value_prefix(s.drop_last(), k);
        assert(s.drop_last().take(k) =~= s.take(k));
        assert(is_digit(s[s.len() - 1]));
    }
}

/// A well-formed field holds digits and at most one dot, nothing else.
pub proof fn lemma_field_bytes(f: Seq<u8>, j: int)
    requires
        field_micros(f) is Some,
        0 <= j < f.len(),
    ensures
        is_digit(f[j]) || f[j] == DOT,
{
    lemma_first_byte_is_least(f, DOT, 0);
    let w = whole_len(f);
    if j < w {
        assert(whole_part(f)[j] == f[j]);
    } else if j > w {
        assert(fraction_part(f)[j - w - 1] == f[j]);
    }
}

/// A well-formed timestamp has exactly three fields: there are two colons
/// in it and no third.
pub proof fn lemma_three_fields(s: Seq<u8>)
    requires
        time_micros(s) is Some,
    ensures
        ({
            let t = trimmed(s);
            let c1 = first_byte_from(t, COLON, 0);
            let c2 = first_byte_from(t, COLON, c1.unwrap() + 1);
            c1 is Some && c2 is Some && first_byte_from(t, COLON, c2.unwrap() + 1) is None
        }),
{
    let t = trimmed(s);
    let c1 = first_byte_from(t, COLON, 0).unwrap();
    lemma_first_byte_is_least(t, COLON, 0);
    let c2 = first_byte_from(t, COLON, c1 + 1).unwrap();
    lemma_first_byte_is_least(t, COLON, c1 + 1);
    let last = t.subrange(c2 + 1, t.len() as int);
    lemma_first_byte_is_least(t, COLON, c2 + 1);
    if first_byte_from(t, COLON, c2 + 1) is Some {
        let c3 = first_byte_from(t, COLON, c2 + 1).unwrap();
        assert(last[c3 - c2 - 1] == t[c3]);
        lemma_field_bytes(last, c3 - c2 - 1);
    }
}

fn byte_is_digit(b: u8) -> (r: bool)
    ensures
        r == is_digit(b),
{
    0x30 <= b && b <= 0x39
}

/// Reads a run of digits; gives nothing where a byte is no digit or the
/// number does not fit in 64 bits.
fn parse_digits(s: &[u8]) -> (r: Option<u64>)
    ensures
        match r {
            Some(v) => all_digits(s@) && v == digits_value(s@),
            None => !all_digits(s@) || digits_value(s@) > u64::MAX,
        },
{
    let mut acc: u64 = 0;
    let mut i: usize = 0;
    while i < s.len()
        invariant
            i <= s@.len(),
            all_digits(s@.take(i as int)),
            acc == digits_value(s@.take(i as int)),
        decreases s@.len() - i,
    {
        let b = s[i];
        if !byte_is_digit(b) {
            return None;
        }
        let d: u64 = (b - 0x30) as u64;
        proof {
            assert(s@.take(i + 1).drop_last() =~= s@.take(i as int));
            assert(s@.take(i + 1).last() == b);
            assert(digits_value(s@.take(i + 1)) == acc * 10 + d);
            assert(all_digits(s@.take(i + 1))) by {
                assert forall|j: int| 0 <= j < i + 1 implies is_digit(
                    #[trigger] s@.take(i + 1)[j],
                ) by {
                    if j < i {
                        assert(s@.take(i as int)[j] == s@.take(i + 1)[j]);
                    }
                }
            }
            if all_digits(s@) {
                lemma_digits_value_prefix(s@, i + 1);
            }
        }
        if acc > 1844674407370955161 {
            return None;
        }
        let acc10: u64 = acc * 10;
        if acc10 > u64::MAX - d {
            return None;
        }
        acc = acc10 + d;
        i += 1;
    }
    assert(s@.take(i as int) =~= s@);
    Some(acc)
}

/// Reads the digits behind a decimal point as millionths; gives nothing
/// where a byte is no digit.
fn parse_fraction(s: &[u8]) -> (r: Option<u64>)
    ensures
        match r {
            Some(v) => all_digits(s@) && v == fraction_micros(s@) && v < 1_000_000,
            None => !all_digits(s@),
        },
{
    let mut acc: u64 = 0;
    let mut i: usize = 0;
    // the digits that count: the first six
    while i < s.len() && i < 6
        invariant
            i <= s@.len(),
            i <= 6,
            all_digits(s@.take(i as int)),
            acc == digits_value(s@.take(i as int)),
            acc < pow10(i as nat),
        decreases s@.len() - i,
    {
        let b = s[i];
        if !byte_is_digit(b) {
            return None;
        }
        let d: u64 = (b - 0x30) as u64;
        proof {
            lemma_pow10_small();
            assert(s@.take(i + 1).drop_last() =~= s@.take(i as int));
            assert(s@.take(i + 1).last() == b);
            assert(all_digits(s@.take(i + 1))) by {
                assert forall|j: int| 0 <= j < i + 1 implies is_digit(
                    #[trigger] s@.take(i + 1)[j],
                ) by {
                    if j < i {
                        assert(s@.take(i as int)[j] == s@.take(i + 1)[j]);
                    }
                }
            }
            assert(pow10((i + 1) as nat) == 10 * pow10(i as nat));
        }
        acc = acc * 10 + d;
        i += 1;
    }
    let taken: usize = i;
    // the digits that are cut off must still be digits
    while i < s.len()
        invariant
            taken <= i <= s@.len(),
            forall|j: int| taken <= j < i ==> is_digit(#[trigger] s@[j]),
        decreases s@.len() - i,
    {
        if !byte_is_digit(s[i]) {
            return None;
        }
        i += 1;
    }
    assert(all_digits(s@)) by {
        assert forall|j: int| 0 <= j < s@.len() implies is_digit(#[trigger] s@[j]) by {
            if j < taken {
                assert(s@.take(taken as int)[j] == s@[j]);
            }
        }
    }
    // fill up with zeros
    let mut k: usize = taken;
    let ghost mut padded: Seq<u8> = s@.take(taken as int);
    while k < 6
        invariant
            taken <= k <= 6,
            taken < 6 ==> taken == s@.len(),
            padded =~= s@.take(taken as int) + Seq::new((k - taken) as nat, |i: int| 0x30u8),
            acc == digits_value(padded),
            acc < pow10(k as nat),
        decreases 6 - k,
    {
        proof {
            lemma_pow10_small();
            let next = padded.push(0x30u8);
            assert(next.drop_last() =~= padded);
            assert(next =~= s@.take(taken as int) + Seq::new(
                (k + 1 - taken) as nat,
                |i: int| 0x30u8,
            ));
            assert(pow10((k + 1) as nat) == 10 * pow10(k as nat));
            padded = next;
        }
        acc = acc * 10;
        k += 1;
    }
    proof {
        lemma_pow10_small();
        if s@.len() >= 6 {
            assert(padded =~= six_digits(s@));
        } else {
            assert(s@.take(taken as int) =~= s@);
            assert(padded =~= six_digits(s@));
        }
    }
    Some(acc)
}

/// Reads one field of a timestamp as microseconds.
fn parse_field(f: &[u8]) -> (r: Option<u64>)
    ensures
        r == bounded(field_micros(f@)),
{
    let dot: usize = match find_byte(f, DOT, 0) {
        Some(i) => i,
        None => f.len(),
    };
    assert(dot as int == whole_len(f@));
    let whole = slice_subrange(f, 0, dot);
    assert(whole@ =~= whole_part(f@));
    let whole_value = parse_digits(whole);
    if dot < f.len() {
        let frac = slice_subrange(f, dot + 1, f.len());
        assert(frac@ =~= fraction_part(f@));
        if whole.len() + frac.len() == 0 {
            return None;
        }
        match (whole_value, parse_fraction(frac)) {
            (Some(w), Some(fr)) => {
                let total: u128 = (w as u128) * 1_000_000 + (fr as u128);
                if total > u64::MAX as u128 {
                    None
                } else {
                    Some(total as u64)
                }
            },
            _ => None,
        }
    } else {
        assert(fraction_part(f@) =~= Seq::<u8>::empty());
        assert(six_digits(Seq::<u8>::empty()) =~= Seq::new(6, |i: int| 0x30u8));
        proof {
            lemma_zeros_value(6);
        }
        if whole.len() == 0 {
            return None;
        }
        match whole_value {
            Some(w) => {
                let total: u128 = (w as u128) * 1_000_000;
                if total > u64::MAX as u128 {
                    None
                } else {
                    Some(total as u64)
                }
            },
            None => None,
        }
    }
}

/// A run of zeros stands for zero.
pub proof fn lemma_zeros_value(n: nat)
    ensures
        digits_value(Seq::new(n, |i: int| 0x30u8)) == 0,
    decreases n,
{
    if n > 0 {
        lemma_zeros_value((n - 1) as nat);
        assert(Seq::new(n, |i: int| 0x30u8).drop_last() =~= Seq::new(
            (n - 1) as nat,
            |i: int| 0x30u8,
        ));
    }
}

/// `s` without the white space at both ends.
pub fn trim(s: &[u8]) -> (r: &[u8])
    ensures
        r@ == trimmed(s@),
{
    let (lo, hi) = trim_bounds(s, 0, s.len());
    assert(s@.subrange(0, s@.len() as int) =~= s@);
    slice_subrange(s, lo, hi)
}

/// Reads a timestamp `HH:MM:SS.ff` as microseconds. Gives nothing where the
/// text is not three fields of digits, or the time does not fit in 64 bits.
pub fn parse_time_str(s: &[u8]) -> (r: Option<u64>)
    ensures
        r == bounded(time_micros(s@)),
{
    let t = trim(s);
    let n: usize = t.len();
    let c1 = match find_byte(t, COLON, 0) {
        Some(i) => i,
        None => {
            return None;
        },
    };
    let c2 = match find_byte(t, COLON, c1 + 1) {
        Some(i) => i,
        None => {
            return None;
        },
    };
    let hours = parse_field(slice_subrange(t, 0, c1));
    let minutes = parse_field(slice_subrange(t, c1 + 1, c2));
    let seconds = parse_field(slice_subrange(t, c2 + 1, n));
    match (hours, minutes, seconds) {
        (Some(h), Some(m), Some(sec)) => {
            let total: u128 = (h as u128) * 3600 + (m as u128) * 60 + (sec as u128);
            if total > u64::MAX as u128 {
                None
            } else {
                Some(total as u64)
            }
        },
        _ => None,
    }
}

} // verus!
