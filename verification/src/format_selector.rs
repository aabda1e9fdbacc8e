//! Which formats the window for choosing a format shows, and which of them
//! is the chosen one.

use crate::formats::MediaFormat;
use crate::text::{ascii_lower, find_bytes, first_match, str_eq, to_ascii_lower};
use vstd::prelude::*;
use vstd::string::*;
use vstd::utf8::encode_utf8;

verus! {

/// Whether a format is shown for what was typed into the filter: where
/// nothing was typed, or the typed text stands in the format's extension.
/// The case of ASCII letters does not count.
pub open spec fn shown_for(format: MediaFormat, filter: Seq<char>) -> bool {
    filter.len() == 0 || first_match(
        ascii_lower(encode_utf8(format.ext_spec())),
        ascii_lower(encode_utf8(filter)),
    ) is Some
}

/// Whether a format is shown for what was typed into the filter, see
/// [`shown_for`].
pub fn matches_filter(format: &MediaFormat, filter: &str) -> (r: bool)
    ensures
        r == shown_for(*format, filter@),
{
    if filter.is_empty() {
        return true;
    }
    let name = to_ascii_lower(format.ext().as_bytes());
    let typed = to_ascii_lower(filter.as_bytes());
    find_bytes(name.as_slice(), typed.as_slice()).is_some()
}

/// Whether one of `formats` has the extension `ext`.
pub open spec fn has_ext(formats: Seq<MediaFormat>, ext: Seq<char>) -> bool {
    exists|i: int| 0 <= i < formats.len() && (#[trigger] formats[i]).ext_spec() == ext
}

/// The place of a format in the list of a job: the index of the first of
/// `formats` with the extension `ext`; zero where there is none.
pub fn position_of_ext(formats: &Vec<MediaFormat>, ext: &str) -> (r: usize)
    ensures
        r == 0 || r < formats@.len(),
        has_ext(formats@, ext@) ==> r < formats@.len() && formats@[r as int].ext_spec() == ext@
            && forall|j: int| 0 <= j < r ==> formats@[j].ext_spec() != ext@,
        !has_ext(formats@, ext@) ==> r == 0,
{
    let mut i: usize = 0;
    while i < formats.len()
        invariant
            i <= formats@.len(),
            forall|j: int| 0 <= j < i ==> (#[trigger] formats@[j]).ext_spec() != ext@,
        decreases formats@.len() - i,
    {
        if str_eq(formats[i].ext(), ext) {
            return i;
        }
        i += 1;
    }
    0
}

} // verus!
