//! Progress of a job as a fraction between zero and one, kept in parts per
//! million.

use vstd::prelude::*;

verus! {

/// The number of parts that stand for the whole.
pub const FULL_PPM: u32 = 1_000_000;

/// A fraction between zero and one, both ends included.
#[derive(Clone, Copy, Debug)]
pub struct Fraction {
    ppm: u32,
}

impl View for Fraction {
    type V = nat;

    /// The fraction in parts per million.
    closed spec fn view(&self) -> nat {
        self.ppm as nat
    }
}

impl Fraction {
    #[verifier::type_invariant]
    spec fn in_range(self) -> bool {
        self.ppm <= FULL_PPM
    }

    /// Nothing done yet.
    pub fn zero() -> (r: Fraction)
        ensures
            r@ == 0,
    {
        Fraction { ppm: 0 }
    }

    /// All done.
    pub fn full() -> (r: Fraction)
        ensures
            r@ == FULL_PPM,
    {
        Fraction { ppm: FULL_PPM }
    }

    /// The fraction of `ppm` parts per million; more than a million parts
    /// count as the whole.
    pub fn from_ppm(ppm: u32) -> (r: Fraction)
        ensures
            r@ == if ppm <= FULL_PPM {
                ppm
            } else {
                FULL_PPM
            },
    {
        if ppm <= FULL_PPM {
            Fraction { ppm }
        } else {
            Fraction { ppm: FULL_PPM }
        }
    }

    /// The fraction in parts per million: never more than a million.
    pub fn ppm(&self) -> (r: u32)
        ensures
            r == self@,
            r <= FULL_PPM,
    {
        proof {
            use_type_invariant(self);
        }
        self.ppm
    }

    /// The larger of two fractions.
    pub fn max(self, other: Fraction) -> (r: Fraction)
        ensures
            r@ == if self@ >= other@ {
                self@
            } else {
                other@
            },
            r == self || r == other,
    {
        if self.ppm >= other.ppm {
            self
        } else {
            other
        }
    }

    /// Whether two fractions are the same.
    pub fn same(&self, other: &Fraction) -> (r: bool)
        ensures
            r == (self@ == other@),
    {
        self.ppm == other.ppm
    }

    /// A fraction is what its parts per million say.
    pub proof fn lemma_view_injective(a: Fraction, b: Fraction)
        requires
            a@ == b@,
        ensures
            a == b,
    {
    }
}

/// How far `current` is into `total`, in parts per million, rounded down;
/// beyond the end it is the whole.
pub open spec fn ratio_ppm(current: nat, total: nat) -> nat
    recommends
        total > 0,
{
    if current >= total {
        FULL_PPM as nat
    } else {
        current * 1_000_000 / total
    }
}

/// The ratio never exceeds the whole.
pub proof fn lemma_ratio_bounded(current: nat, total: nat)
    requires
        total > 0,
    ensures
        ratio_ppm(current, total) <= FULL_PPM,
{
    if current < total {
        assert(current * 1_000_000 / total < 1_000_000) by (nonlinear_arith)
            requires
                current < total,
                total > 0,
        ;
    }
}

/// Later positions give no smaller a ratio.
pub proof fn lemma_ratio_monotonic(a: nat, b: nat, total: nat)
    requires
        total > 0,
        a <= b,
    ensures
        ratio_ppm(a, total) <= ratio_ppm(b, total),
{
    lemma_ratio_bounded(a, total);
    if b < total {
        assert(a * 1_000_000 / total <= b * 1_000_000 / total) by (nonlinear_arith)
            requires
                a <= b,
                total > 0,
        ;
    }
}

/// The fraction of a stream of length `total` that lies before `current`.
/// A stream of no length has no progress: the sample is dropped.
pub fn progress_fraction(current: u64, total: u64) -> (r: Option<Fraction>)
    ensures
        total == 0 ==> r is None,
        total > 0 ==> r is Some && r.unwrap()@ == ratio_ppm(current as nat, total as nat),
        r is Some ==> r.unwrap()@ <= FULL_PPM,
{
    if total == 0 {
        return None;
    }
    proof {
        lemma_ratio_bounded(current as nat, total as nat);
    }
    if current >= total {
        return Some(Fraction::full());
    }
    assert((current as nat) * 1_000_000 <= u128::MAX) by (nonlinear_arith)
        requires
            current <= u64::MAX,
    ;
    let scaled: u128 = (current as u128) * 1_000_000;
    let q: u128 = scaled / (total as u128);
    Some(Fraction { ppm: q as u32 })
}

} // verus!
