//! Progress told from the time stamps of decoded frames.

use crate::fraction::{progress_fraction, ratio_ppm, Fraction};
use vstd::prelude::*;

verus! {

/// Tells how far a stream has come from the time stamps of its frames.
#[derive(Clone, Copy, Debug)]
pub struct ProgressCallBacker {
    /// The length of the stream in microseconds.
    pub total_duration: i64,
    /// The unit of the time stamps in seconds, as a ratio: its numerator.
    pub time_base_num: i32,
    /// The unit of the time stamps in seconds, as a ratio: its denominator.
    pub time_base_den: i32,
}

/// The microseconds that the time stamp `pts` stands for in the unit
/// `num / den` seconds, rounded down.
pub open spec fn elapsed_micros(pts: int, num: int, den: int) -> int
    recommends
        den != 0,
{
    if den > 0 {
        (pts * num * 1_000_000) / den
    } else {
        (-(pts * num * 1_000_000)) / (-den)
    }
}

/// How far a stream of the length `total` microseconds has come at the
/// time stamp `pts`, in parts per million. A time before the start counts
/// as the start. Nothing can be told without a unit (`den` is zero) or
/// without a length.
pub open spec fn frame_progress(total: int, num: int, den: int, pts: int) -> Option<nat> {
    if den == 0 || total <= 0 {
        None
    } else if elapsed_micros(pts, num, den) <= 0 {
        Some(0)
    } else {
        Some(ratio_ppm(elapsed_micros(pts, num, den) as nat, total as nat))
    }
}

impl ProgressCallBacker {
    /// A teller that knows neither the length of the stream nor the unit of
    /// its time stamps.
    pub fn new() -> (r: ProgressCallBacker)
        ensures
            r.total_duration == 0,
            r.time_base_num == 0,
            r.time_base_den == 0,
    {
        ProgressCallBacker { total_duration: 0, time_base_num: 0, time_base_den: 0 }
    }

    /// How far the stream has come at a frame with the time stamp `pts`. A
    /// frame without a time stamp tells nothing.
    pub fn progress(&self, pts: Option<i64>) -> (r: Option<Fraction>)
        ensures
            match pts {
                Some(p) => {
                    let want = frame_progress(
                        self.total_duration as int,
                        self.time_base_num as int,
                        self.time_base_den as int,
                        p as int,
                    );
                    &&& r is Some == want is Some
                    &&& r is Some ==> r.unwrap()@ == want.unwrap()
                },
                None => r is None,
            },
    {
        let p = match pts {
            Some(p) => p,
            None => {
                return None;
            },
        };
        if self.time_base_den == 0 || self.total_duration <= 0 {
            return None;
        }
        let a: i128 = p as i128;
        let b: i128 = self.time_base_num as i128;
        assert(-0x4000_0000_0000_0000_0000_0000 <= a * b <= 0x4000_0000_0000_0000_0000_0000)
            by (nonlinear_arith)
            requires
                -0x8000_0000_0000_0000 <= a <= 0x8000_0000_0000_0000,
                -0x8000_0000 <= b <= 0x8000_0000,
        ;
        let product: i128 = a * b;
        let scaled: i128 = product * 1_000_000;
        let (n, d): (i128, i128) = if self.time_base_den > 0 {
            (scaled, self.time_base_den as i128)
        } else {
            (-scaled, -(self.time_base_den as i128))
        };
        assert(elapsed_micros(p as int, self.time_base_num as int, self.time_base_den as int) == n
            / d);
        if n <= 0 {
            assert(n / d <= 0) by (nonlinear_arith)
                requires
                    n <= 0,
                    d > 0,
            ;
            return Some(Fraction::zero());
        }
        let elapsed: i128 = n / d;
        assert(0 <= elapsed) by (nonlinear_arith)
            requires
                elapsed == n / d,
                n > 0,
                d > 0,
        ;
        if elapsed == 0 {
            return Some(Fraction::zero());
        }
        let total: u64 = self.total_duration as u64;
        if elapsed >= total as i128 {
            return Some(Fraction::full());
        }
        progress_fraction(elapsed as u64, total)
    }
}

} // verus!
