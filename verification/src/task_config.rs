//! What the page of a job's settings makes of what the user types and
//! ticks.

use crate::timecode::{digits_value, is_digit};
use vstd::prelude::*;
use vstd::string::*;

verus! {

/// The bit rate that a job gets when one is switched on, in kbit/s.
pub const DEFAULT_BITRATE: u32 = 128;

/// The ASCII digits of a text, in their order.
pub open spec fn digits_only(s: Seq<u8>) -> Seq<u8>
    decreases s.len(),
{
    if s.len() == 0 {
        Seq::empty()
    } else if is_digit(s.last()) {
        digits_only(s.drop_last()).push(s.last())
    } else {
        digits_only(s.drop_last())
    }
}

/// The bit rate that a typed text stands for: the number that its digits
/// make, whatever stands between them. A text without digits, or with a
/// number that does not fit in 32 bits, stands for none.
pub open spec fn typed_bitrate(text: Seq<u8>) -> Option<u32> {
    let digits = digits_only(text);
    if digits.len() > 0 && digits_value(digits) <= u32::MAX {
        Some(digits_value(digits) as u32)
    } else {
        None
    }
}

/// Reads the bit rate that the user typed, in kbit/s, see
/// [`typed_bitrate`].
pub fn parse_bitrate(text: &str) -> (r: Option<u32>)
    ensures
        r == typed_bitrate(text.spec_bytes()),
{
    let bytes = text.as_bytes();
    let mut acc: u64 = 0;
    let mut seen: bool = false;
    let mut too_large: bool = false;
    let mut i: usize = 0;
    assert(bytes@.take(0) =~= Seq::<u8>::empty());
    while i < bytes.len()
        invariant
            i <= bytes@.len(),
            seen == (digits_only(bytes@.take(i as int)).len() > 0),
            !too_large ==> acc == digits_value(digits_only(bytes@.take(i as int))) && acc
                <= u32::MAX,
            too_large ==> digits_value(digits_only(bytes@.take(i as int))) > u32::MAX,
        decreases bytes@.len() - i,
    {
        let b = bytes[i];
        proof {
            assert(bytes@.take(i + 1).drop_last() =~= bytes@.take(i as int));
            assert(bytes@.take(i + 1).last() == b);
            let before = digits_only(bytes@.take(i as int));
            assert(before.push(b).drop_last() =~= before);
        }
        if 0x30 <= b && b <= 0x39 {
            seen = true;
            if !too_large {
                acc = acc * 10 + (b - 0x30) as u64;
                if acc > u32::MAX as u64 {
                    too_large = true;
                }
            }
        }
        i += 1;
    }
    assert(bytes@.take(i as int) =~= bytes@);
    if seen && !too_large {
        Some(acc as u32)
    } else {
        None
    }
}

/// The bit rate after its box was ticked: switched off where one was set,
/// else switched on with [`DEFAULT_BITRATE`].
pub fn toggled_bitrate(current: Option<u32>) -> (r: Option<u32>)
    ensures
        r == if current is Some {
            None::<u32>
        } else {
            Some(DEFAULT_BITRATE)
        },
{
    match current {
        Some(_) => None,
        None => Some(DEFAULT_BITRATE),
    }
}

} // verus!
