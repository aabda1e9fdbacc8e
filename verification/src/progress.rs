//! Recognising the two kinds of line in the encoder's diagnostics that say
//! how long the input is and how far the encoder has come.

use crate::text::{find_byte, find_bytes, find_space, first_byte_from, first_match, first_space_from};
use crate::timecode::{bounded, parse_time_str, time_micros, COMMA};
use vstd::prelude::*;
use vstd::slice::*;
use vstd::string::*;

verus! {

/// The bytes that introduce the length of the input.
pub open spec fn duration_marker() -> Seq<u8> {
    "Duration: ".spec_bytes()
}

/// The bytes that introduce the current position.
pub open spec fn time_marker() -> Seq<u8> {
    "time=".spec_bytes()
}

/// The text between the first `Duration: ` of a line and the next comma.
pub open spec fn duration_text(line: Seq<u8>) -> Option<Seq<u8>> {
    match first_match(line, duration_marker()) {
        None => None,
        Some(at) => {
            let start = at + duration_marker().len();
            match first_byte_from(line, COMMA, start) {
                None => None,
                Some(end) => Some(line.subrange(start, end)),
            }
        },
    }
}

/// The text between the first `time=` of a line and the next white space.
pub open spec fn time_text(line: Seq<u8>) -> Option<Seq<u8>> {
    match first_match(line, time_marker()) {
        None => None,
        Some(at) => {
            let start = at + time_marker().len();
            match first_space_from(line, start) {
                None => None,
                Some(end) => Some(line.subrange(start, end)),
            }
        },
    }
}

/// The length of the input that a line announces, in microseconds.
pub open spec fn line_duration(line: Seq<u8>) -> Option<u64> {
    match duration_text(line) {
        Some(t) => bounded(time_micros(t)),
        None => None,
    }
}

/// The position that a line reports, in microseconds.
pub open spec fn line_time(line: Seq<u8>) -> Option<u64> {
    match time_text(line) {
        Some(t) => bounded(time_micros(t)),
        None => None,
    }
}

/// The text between the first `Duration: ` and the next comma.
fn find_duration_text(line: &[u8]) -> (r: Option<&[u8]>)
    ensures
        match r {
            Some(t) => duration_text(line@) == Some(t@),
            None => duration_text(line@) is None,
        },
{
    let marker = "Duration: ".as_bytes();
    let n: usize = line.len();
    let at = match find_bytes(line, marker) {
        Some(i) => i,
        None => {
            return None;
        },
    };
    let start: usize = at + marker.len();
    match find_byte(line, COMMA, start) {
        Some(end) => Some(slice_subrange(line, start, end)),
        None => None,
    }
}

/// Reads the length of the input from a line such as
/// `Duration: 00:01:30.50, start: 0.000000`. A line without the marker,
/// without a comma behind it or with a malformed timestamp gives nothing.
pub fn parse_duration(line: &[u8]) -> (r: Option<u64>)
    ensures
        r == line_duration(line@),
{
    match find_duration_text(line) {
        Some(t) => parse_time_str(t),
        None => None,
    }
}

/// Reads the current position from a line such as
/// `size= 256kB time=00:00:04.00 bitrate= 524.3kbits/s`. A line without the
/// marker, without white space behind the timestamp or with a malformed
/// timestamp gives nothing.
pub fn parse_progress_time(line: &[u8]) -> (r: Option<u64>)
    ensures
        r == line_time(line@),
{
    let marker = "time=".as_bytes();
    let n: usize = line.len();
    let at = match find_bytes(line, marker) {
        Some(i) => i,
        None => {
            return None;
        },
    };
    let start: usize = at + marker.len();
    let end = match find_space(line, start) {
        Some(i) => i,
        None => {
            return None;
        },
    };
    parse_time_str(slice_subrange(line, start, end))
}

/// Why the length of an input is not known.
#[derive(Clone, Copy, Debug, PartialEq, Eq, Structural)]
pub enum ProbeError {
    /// The encoder's report does not speak of a length.
    NotFound,
    /// The length that the report gives is malformed, or it is zero.
    Unreadable,
}

/// The length of the input that a report of the encoder gives, or why
/// there is none: the report must speak of a length, and the length must
/// be a well-formed time other than zero.
pub open spec fn probed_duration(report: Seq<u8>) -> Result<u64, ProbeError> {
    match duration_text(report) {
        None => Err(ProbeError::NotFound),
        Some(t) => match bounded(time_micros(t)) {
            Some(d) => if d > 0 {
                Ok(d)
            } else {
                Err(ProbeError::Unreadable)
            },
            None => Err(ProbeError::Unreadable),
        },
    }
}

/// Reads the length of an input from what the encoder reports about it,
/// in microseconds. Without a length no progress can be told, so a report
/// that gives none, or a length of zero, is an error.
pub fn probe_duration(report: &[u8]) -> (r: Result<u64, ProbeError>)
    ensures
        r == probed_duration(report@),
{
    let text = match find_duration_text(report) {
        Some(t) => t,
        None => {
            return Err(ProbeError::NotFound);
        },
    };
    match parse_time_str(text) {
        Some(d) => if d > 0 {
            Ok(d)
        } else {
            Err(ProbeError::Unreadable)
        },
        None => Err(ProbeError::Unreadable),
    }
}

} // verus!
