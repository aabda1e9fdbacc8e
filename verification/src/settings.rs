//! What the application remembers between jobs, and how the encoder is
//! looked for.

use crate::command::{FfmpegEntry, FfmpegEntryView};
use crate::text::{find_byte, first_byte_from, text_view, trim_bounds, trimmed, utf8_text};
use vstd::prelude::*;
use vstd::slice::*;
use vstd::utf8::{decode_utf8, valid_utf8};

verus! {

pub const LINE_FEED: u8 = 0x0a;

/// The settings of the application.
#[derive(Debug)]
pub struct AppSettings {
    /// Where the encoder is found, once that is known.
    pub ffmpeg_entry: Option<FfmpegEntry>,
}

/// What an optional entry holds.
pub open spec fn entry_view(e: Option<FfmpegEntry>) -> Option<FfmpegEntryView> {
    match e {
        Some(entry) => Some(entry@),
        None => None,
    }
}

impl AppSettings {
    /// Settings that do not know the encoder.
    pub fn new() -> (r: AppSettings)
        ensures
            r.ffmpeg_entry is None,
    {
        AppSettings { ffmpeg_entry: None }
    }

    /// Settings with the encoder at `ffmpeg_entry`.
    pub fn with_ffmpeg_entry(ffmpeg_entry: FfmpegEntry) -> (r: AppSettings)
        ensures
            r.ffmpeg_entry == Some(ffmpeg_entry),
    {
        AppSettings { ffmpeg_entry: Some(ffmpeg_entry) }
    }
}

impl Clone for AppSettings {
    fn clone(&self) -> (r: AppSettings)
        ensures
            entry_view(r.ffmpeg_entry) == entry_view(self.ffmpeg_entry),
    {
        AppSettings {
            ffmpeg_entry: match &self.ffmpeg_entry {
                Some(e) => Some(e.clone()),
                None => None,
            },
        }
    }
}

/// The first line of what a command printed, up to its line feed.
pub open spec fn first_line(out: Seq<u8>) -> Seq<u8> {
    match first_byte_from(out, LINE_FEED, 0) {
        Some(end) => out.take(end),
        None => out,
    }
}

/// The path that the system's command for locating programs printed: the
/// first line of its output without the white space around it. There is
/// none where it printed nothing, or something that is no text.
pub open spec fn located_path(out: Seq<u8>) -> Option<Seq<char>> {
    if out.len() > 0 && valid_utf8(out) && valid_utf8(trimmed(first_line(out))) {
        Some(decode_utf8(trimmed(first_line(out))))
    } else {
        None
    }
}

/// Where the encoder is, by what three probes found, in this order: the
/// path that the system's command for locating programs printed, if it
/// ended with success; else a file named like the encoder beside the running
/// program; else the environment, if the bare name could be run.
pub open spec fn chosen_entry(
    located: Option<Seq<u8>>,
    beside_program: Option<Seq<char>>,
    runs_by_name: bool,
) -> Option<FfmpegEntryView> {
    if located is Some && located_path(located.unwrap()) is Some {
        Some(FfmpegEntryView::Path(located_path(located.unwrap()).unwrap()))
    } else if beside_program is Some {
        Some(FfmpegEntryView::Path(beside_program.unwrap()))
    } else if runs_by_name {
        Some(FfmpegEntryView::Env)
    } else {
        None
    }
}

/// What a slice of bytes holds, if there is one.
pub open spec fn bytes_view(b: Option<&[u8]>) -> Option<Seq<u8>> {
    match b {
        Some(s) => Some(s@),
        None => None,
    }
}

fn read_located_path(out: &[u8]) -> (r: Option<String>)
    ensures
        text_view(r) == located_path(out@),
{
    if out.len() == 0 {
        return None;
    }
    if utf8_text(out).is_none() {
        return None;
    }
    let end: usize = match find_byte(out, LINE_FEED, 0) {
        Some(i) => i,
        None => out.len(),
    };
    assert(out@.subrange(0, end as int) =~= first_line(out@));
    let (lo, hi) = trim_bounds(out, 0, end);
    utf8_text(slice_subrange(out, lo, hi))
}

/// Decides where the encoder is from what was found.
///
/// `located` is what the system's command for locating programs printed,
/// where it ended with success. `beside_program` is the path of a file
/// named like the encoder beside the running program, where there is one.
/// `runs_by_name` says whether the encoder could be run by its bare name.
pub fn choose_ffmpeg(located: Option<&[u8]>, beside_program: Option<String>, runs_by_name: bool) -> (r:
    Option<FfmpegEntry>)
    ensures
        entry_view(r) == chosen_entry(bytes_view(located), text_view(beside_program), runs_by_name),
{
    if let Some(out) = located {
        if let Some(path) = read_located_path(out) {
            return Some(FfmpegEntry::Path(path));
        }
    }
    if let Some(path) = beside_program {
        return Some(FfmpegEntry::Path(path));
    }
    if runs_by_name {
        Some(FfmpegEntry::Env)
    } else {
        None
    }
}

/// The settings that the application starts with: the encoder where the
/// probes found it, else left to the environment.
pub fn first_run_settings(found: Option<FfmpegEntry>) -> (r: AppSettings)
    ensures
        entry_view(r.ffmpeg_entry) == Some(
            match found {
                Some(e) => e@,
                None => FfmpegEntryView::Env,
            },
        ),
{
    let entry = match found {
        Some(e) => e,
        None => FfmpegEntry::Env,
    };
    AppSettings::with_ffmpeg_entry(entry)
}

} // verus!
