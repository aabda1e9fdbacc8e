//! The command line of one run of the encoder.

use crate::formats::MediaFormat;
use crate::text::{decimal, str_eq, text_view, u64_to_string, views};
use vstd::prelude::*;
use vstd::string::*;

verus! {

/// Where the encoder is found.
#[derive(Debug)]
pub enum FfmpegEntry {
    /// At this path.
    Path(String),
    /// Under the name `ffmpeg`, by the search path of the environment.
    Env,
}

/// An [`FfmpegEntry`] as plain values.
pub enum FfmpegEntryView {
    Path(Seq<char>),
    Env,
}

impl View for FfmpegEntry {
    type V = FfmpegEntryView;

    open spec fn view(&self) -> FfmpegEntryView {
        match self {
            FfmpegEntry::Path(p) => FfmpegEntryView::Path(p@),
            FfmpegEntry::Env => FfmpegEntryView::Env,
        }
    }
}

impl FfmpegEntryView {
    /// The program to start.
    pub open spec fn program(self) -> Seq<char> {
        match self {
            FfmpegEntryView::Path(p) => p,
            FfmpegEntryView::Env => "ffmpeg"@,
        }
    }
}

impl Clone for FfmpegEntry {
    fn clone(&self) -> (r: FfmpegEntry)
        ensures
            r@ == self@,
    {
        match self {
            FfmpegEntry::Path(p) => FfmpegEntry::Path(p.clone()),
            FfmpegEntry::Env => FfmpegEntry::Env,
        }
    }
}

impl FfmpegEntry {
    /// The program to start: the path, or `ffmpeg`.
    pub fn to_string(&self) -> (r: String)
        ensures
            r@ == self@.program(),
    {
        match self {
            FfmpegEntry::Path(p) => p.clone(),
            FfmpegEntry::Env => String::from_str("ffmpeg"),
        }
    }

    /// The program to start, taking the entry apart.
    pub fn into_path(self) -> (r: String)
        ensures
            r@ == self@.program(),
    {
        match self {
            FfmpegEntry::Path(p) => p,
            FfmpegEntry::Env => String::from_str("ffmpeg"),
        }
    }

    /// Reads an entry from what a user typed. `exists` says whether a file
    /// is there under that path: if so the entry is that path, else the
    /// encoder is left to the environment. Nothing typed is an error.
    pub fn parse(s: &str, exists: bool) -> (r: Result<FfmpegEntry, String>)
        ensures
            match r {
                Ok(e) => s@.len() > 0 && e@ == if exists {
                    FfmpegEntryView::Path(s@)
                } else {
                    FfmpegEntryView::Env
                },
                Err(msg) => s@.len() == 0 && msg@ == "Empty string"@,
            },
    {
        if s.is_empty() {
            return Err(String::from_str("Empty string"));
        }
        if exists {
            Ok(FfmpegEntry::Path(String::from_str(s)))
        } else {
            Ok(FfmpegEntry::Env)
        }
    }

    /// Whether two entries are the same.
    pub fn same(&self, other: &FfmpegEntry) -> (r: bool)
        ensures
            r == (self@ == other@),
    {
        match (self, other) {
            (FfmpegEntry::Path(a), FfmpegEntry::Path(b)) => str_eq(a.as_str(), b.as_str()),
            (FfmpegEntry::Env, FfmpegEntry::Env) => true,
            _ => false,
        }
    }
}

/// One run of the encoder: what to read, what to write and how.
#[derive(Debug)]
pub struct FfmpegTask {
    pub ffmpeg_entry: FfmpegEntry,
    pub input: Option<String>,
    pub output: Option<String>,
    pub output_format: MediaFormat,
    /// In kbit/s.
    pub video_bitrate: Option<u32>,
    /// In kbit/s.
    pub audio_bitrate: Option<u32>,
    /// Width and height in pixels.
    pub resolution: Option<(u32, u32)>,
    /// In frames per second.
    pub frame_rate: Option<u32>,
    /// In Hz.
    pub sample_rate: Option<u32>,
    /// Arguments handed to the encoder as they are, in front of the output.
    pub extra_args: Vec<String>,
}

/// An [`FfmpegTask`] as plain values.
pub struct FfmpegTaskView {
    pub ffmpeg_entry: FfmpegEntryView,
    pub input: Option<Seq<char>>,
    pub output: Option<Seq<char>>,
    pub output_format: MediaFormat,
    pub video_bitrate: Option<u32>,
    pub audio_bitrate: Option<u32>,
    pub resolution: Option<(u32, u32)>,
    pub frame_rate: Option<u32>,
    pub sample_rate: Option<u32>,
    pub extra_args: Seq<Seq<char>>,
}

impl View for FfmpegTask {
    type V = FfmpegTaskView;

    open spec fn view(&self) -> FfmpegTaskView {
        FfmpegTaskView {
            ffmpeg_entry: self.ffmpeg_entry@,
            input: text_view(self.input),
            output: text_view(self.output),
            output_format: self.output_format,
            video_bitrate: self.video_bitrate,
            audio_bitrate: self.audio_bitrate,
            resolution: self.resolution,
            frame_rate: self.frame_rate,
            sample_rate: self.sample_rate,
            extra_args: views(self.extra_args@),
        }
    }
}

/// A flag with a bit rate in kbit/s, or nothing where none is set.
pub open spec fn bitrate_args(flag: Seq<char>, kbps: Option<u32>) -> Seq<Seq<char>> {
    match kbps {
        Some(b) => seq![flag, decimal(b as nat) + "k"@],
        None => Seq::empty(),
    }
}

/// The flag `-s` with width and height, or nothing where none is set.
pub open spec fn resolution_args(resolution: Option<(u32, u32)>) -> Seq<Seq<char>> {
    match resolution {
        Some((w, h)) => seq!["-s"@, decimal(w as nat) + "x"@ + decimal(h as nat)],
        None => Seq::empty(),
    }
}

/// A flag with a number, or nothing where none is set.
pub open spec fn number_args(flag: Seq<char>, value: Option<u32>) -> Seq<Seq<char>> {
    match value {
        Some(v) => seq![flag, decimal(v as nat)],
        None => Seq::empty(),
    }
}

/// The arguments of a run:
/// `-y -i <input> [-b:v <N>k] [-b:a <N>k] [-s <W>x<H>] [-r <fps>] [-ar <rate>] [<extra>...] <output>`.
/// Each option is present only where it is set.
pub open spec fn command_args(t: FfmpegTaskView) -> Seq<Seq<char>>
    recommends
        t.input is Some,
        t.output is Some,
{
    seq!["-y"@, "-i"@, t.input.unwrap()] + bitrate_args("-b:v"@, t.video_bitrate) + bitrate_args(
        "-b:a"@,
        t.audio_bitrate,
    ) + resolution_args(t.resolution) + number_args("-r"@, t.frame_rate) + number_args(
        "-ar"@,
        t.sample_rate,
    ) + t.extra_args + seq![t.output.unwrap()]
}

/// The output path is the last argument, and the input follows `-y -i`.
pub proof fn lemma_command_shape(t: FfmpegTaskView)
    requires
        t.input is Some,
        t.output is Some,
    ensures
        command_args(t).len() >= 4,
        command_args(t).last() == t.output.unwrap(),
        command_args(t)[0] == "-y"@,
        command_args(t)[1] == "-i"@,
        command_args(t)[2] == t.input.unwrap(),
{
}

/// Why a run has no command line.
pub open spec fn build_error(t: FfmpegTaskView) -> Seq<char> {
    if t.input is None {
        "Missing input path"@
    } else {
        "Missing output path"@
    }
}

fn push_text(args: &mut Vec<String>, text: String)
    ensures
        views(final(args)@) == views(old(args)@).push(text@),
{
    args.push(text);
    assert(views(args@) =~= views(old(args)@).push(text@));
}

fn push_flag(args: &mut Vec<String>, flag: &str)
    ensures
        views(final(args)@) == views(old(args)@).push(flag@),
{
    push_text(args, String::from_str(flag));
}

fn push_bitrate(args: &mut Vec<String>, flag: &str, kbps: Option<u32>)
    ensures
        views(final(args)@) == views(old(args)@) + bitrate_args(flag@, kbps),
{
    if let Some(b) = kbps {
        push_flag(args, flag);
        let mut v = u64_to_string(b as u64);
        v.append("k");
        push_text(args, v);
        assert(views(args@) =~= views(old(args)@) + bitrate_args(flag@, kbps));
    } else {
        assert(views(args@) =~= views(old(args)@) + bitrate_args(flag@, kbps));
    }
}

fn push_resolution(args: &mut Vec<String>, resolution: Option<(u32, u32)>)
    ensures
        views(final(args)@) == views(old(args)@) + resolution_args(resolution),
{
    if let Some((w, h)) = resolution {
        push_flag(args, "-s");
        let mut v = u64_to_string(w as u64);
        v.append("x");
        let hs = u64_to_string(h as u64);
        v.append(hs.as_str());
        push_text(args, v);
        assert(views(args@) =~= views(old(args)@) + resolution_args(resolution));
    } else {
        assert(views(args@) =~= views(old(args)@) + resolution_args(resolution));
    }
}

fn push_number(args: &mut Vec<String>, flag: &str, value: Option<u32>)
    ensures
        views(final(args)@) == views(old(args)@) + number_args(flag@, value),
{
    if let Some(v) = value {
        push_flag(args, flag);
        push_text(args, u64_to_string(v as u64));
        assert(views(args@) =~= views(old(args)@) + number_args(flag@, value));
    } else {
        assert(views(args@) =~= views(old(args)@) + number_args(flag@, value));
    }
}

fn push_all(args: &mut Vec<String>, extra: &Vec<String>)
    ensures
        views(final(args)@) == views(old(args)@) + views(extra@),
{
    let ghost before = views(args@);
    let mut i: usize = 0;
    assert(views(args@) =~= before + views(extra@).take(0));
    while i < extra.len()
        invariant
            i <= extra@.len(),
            views(args@) == before + views(extra@).take(i as int),
        decreases extra@.len() - i,
    {
        push_text(args, extra[i].clone());
        assert(views(extra@).take(i + 1) =~= views(extra@).take(i as int).push(extra@[i as int]@));
        assert(views(args@) =~= before + views(extra@).take(i + 1));
        i += 1;
    }
    assert(views(extra@).take(i as int) =~= views(extra@));
}

fn same_text(a: &Option<String>, b: &Option<String>) -> (r: bool)
    ensures
        r == (text_view(*a) == text_view(*b)),
{
    match (a, b) {
        (Some(x), Some(y)) => str_eq(x.as_str(), y.as_str()),
        (None, None) => true,
        _ => false,
    }
}

fn same_texts(a: &Vec<String>, b: &Vec<String>) -> (r: bool)
    ensures
        r == (views(a@) == views(b@)),
{
    if a.len() != b.len() {
        return false;
    }
    let mut i: usize = 0;
    while i < a.len()
        invariant
            a@.len() == b@.len(),
            i <= a@.len(),
            forall|j: int| 0 <= j < i ==> (#[trigger] a@[j])@ == b@[j]@,
        decreases a@.len() - i,
    {
        if !str_eq(a[i].as_str(), b[i].as_str()) {
            assert(views(a@)[i as int] != views(b@)[i as int]);
            return false;
        }
        i += 1;
    }
    assert(views(a@) =~= views(b@));
    true
}

fn same_number(a: Option<u32>, b: Option<u32>) -> (r: bool)
    ensures
        r == (a == b),
{
    match (a, b) {
        (Some(x), Some(y)) => x == y,
        (None, None) => true,
        _ => false,
    }
}

fn same_size(a: Option<(u32, u32)>, b: Option<(u32, u32)>) -> (r: bool)
    ensures
        r == (a == b),
{
    match (a, b) {
        (Some((w, h)), Some((x, y))) => w == x && h == y,
        (None, None) => true,
        _ => false,
    }
}

/// Whether two runs are the same in all that matters: the encoder, the
/// paths, the extension of the format, the options and the extra arguments.
pub open spec fn same_run(a: FfmpegTaskView, b: FfmpegTaskView) -> bool {
    &&& a.ffmpeg_entry == b.ffmpeg_entry
    &&& a.input == b.input
    &&& a.output == b.output
    &&& a.output_format.ext_spec() == b.output_format.ext_spec()
    &&& a.video_bitrate == b.video_bitrate
    &&& a.audio_bitrate == b.audio_bitrate
    &&& a.resolution == b.resolution
    &&& a.frame_rate == b.frame_rate
    &&& a.sample_rate == b.sample_rate
    &&& a.extra_args == b.extra_args
}

fn clone_text(t: &Option<String>) -> (r: Option<String>)
    ensures
        text_view(r) == text_view(*t),
{
    match t {
        Some(s) => Some(s.clone()),
        None => None,
    }
}

fn clone_texts(items: &Vec<String>) -> (r: Vec<String>)
    ensures
        views(r@) == views(items@),
{
    let mut r: Vec<String> = Vec::new();
    push_all(&mut r, items);
    assert(views(r@) =~= views(items@));
    r
}

impl Clone for FfmpegTask {
    fn clone(&self) -> (r: FfmpegTask)
        ensures
            r@ == self@,
    {
        FfmpegTask {
            ffmpeg_entry: self.ffmpeg_entry.clone(),
            input: clone_text(&self.input),
            output: clone_text(&self.output),
            output_format: self.output_format,
            video_bitrate: self.video_bitrate,
            audio_bitrate: self.audio_bitrate,
            resolution: self.resolution,
            frame_rate: self.frame_rate,
            sample_rate: self.sample_rate,
            extra_args: clone_texts(&self.extra_args),
        }
    }
}

impl FfmpegTask {
    /// A run of the encoder `ffmpeg_entry` that writes `output_format`, with
    /// nothing else set.
    pub fn new(ffmpeg_entry: FfmpegEntry, output_format: MediaFormat) -> (r: FfmpegTask)
        ensures
            r@ == (FfmpegTaskView {
                ffmpeg_entry: ffmpeg_entry@,
                input: None,
                output: None,
                output_format: output_format,
                video_bitrate: None,
                audio_bitrate: None,
                resolution: None,
                frame_rate: None,
                sample_rate: None,
                extra_args: Seq::empty(),
            }),
    {
        let r = FfmpegTask {
            ffmpeg_entry,
            input: None,
            output: None,
            output_format,
            video_bitrate: None,
            audio_bitrate: None,
            resolution: None,
            frame_rate: None,
            sample_rate: None,
            extra_args: Vec::new(),
        };
        assert(views(r.extra_args@) =~= Seq::<Seq<char>>::empty());
        r
    }

    /// Sets the file to read.
    pub fn input(self, path: &str) -> (r: FfmpegTask)
        ensures
            r@ == (FfmpegTaskView { input: Some(path@), ..self@ }),
    {
        let mut r = self;
        r.input = Some(String::from_str(path));
        r
    }

    /// Sets the file to write.
    pub fn output(self, path: &str) -> (r: FfmpegTask)
        ensures
            r@ == (FfmpegTaskView { output: Some(path@), ..self@ }),
    {
        let mut r = self;
        r.output = Some(String::from_str(path));
        r
    }

    /// Sets or clears the video bit rate, in kbit/s.
    pub fn video_bitrate(self, kbps: Option<u32>) -> (r: FfmpegTask)
        ensures
            r@ == (FfmpegTaskView { video_bitrate: kbps, ..self@ }),
    {
        let mut r = self;
        r.video_bitrate = kbps;
        r
    }

    /// Sets or clears the audio bit rate, in kbit/s.
    pub fn audio_bitrate(self, kbps: Option<u32>) -> (r: FfmpegTask)
        ensures
            r@ == (FfmpegTaskView { audio_bitrate: kbps, ..self@ }),
    {
        let mut r = self;
        r.audio_bitrate = kbps;
        r
    }

    /// Sets the size of the picture.
    pub fn resolution(self, width: u32, height: u32) -> (r: FfmpegTask)
        ensures
            r@ == (FfmpegTaskView { resolution: Some((width, height)), ..self@ }),
    {
        let mut r = self;
        r.resolution = Some((width, height));
        r
    }

    /// Sets the frame rate.
    pub fn frame_rate(self, fps: u32) -> (r: FfmpegTask)
        ensures
            r@ == (FfmpegTaskView { frame_rate: Some(fps), ..self@ }),
    {
        let mut r = self;
        r.frame_rate = Some(fps);
        r
    }

    /// Sets the sample rate.
    pub fn sample_rate(self, rate: u32) -> (r: FfmpegTask)
        ensures
            r@ == (FfmpegTaskView { sample_rate: Some(rate), ..self@ }),
    {
        let mut r = self;
        r.sample_rate = Some(rate);
        r
    }

    /// Adds an argument that is handed to the encoder as it is.
    pub fn extra_arg(self, arg: &str) -> (r: FfmpegTask)
        ensures
            r@ == (FfmpegTaskView { extra_args: self@.extra_args.push(arg@), ..self@ }),
    {
        let mut r = self;
        push_flag(&mut r.extra_args, arg);
        r
    }

    /// Whether two runs are the same, see [`same_run`].
    pub fn same(&self, other: &FfmpegTask) -> (r: bool)
        ensures
            r == same_run(self@, other@),
    {
        self.ffmpeg_entry.same(&other.ffmpeg_entry) && same_text(&self.input, &other.input)
            && same_text(&self.output, &other.output) && str_eq(
            self.output_format.ext(),
            other.output_format.ext(),
        ) && same_number(self.video_bitrate, other.video_bitrate) && same_number(
            self.audio_bitrate,
            other.audio_bitrate,
        ) && same_size(self.resolution, other.resolution) && same_number(
            self.frame_rate,
            other.frame_rate,
        ) && same_number(self.sample_rate, other.sample_rate) && same_texts(
            &self.extra_args,
            &other.extra_args,
        )
    }

    /// The output path and the arguments of the run, the output path last.
    /// A run without an input or without an output has no command line: the
    /// error says which of the two is missing, the input first.
    pub fn build(self) -> (r: Result<(String, Vec<String>), String>)
        ensures
            match r {
                Ok((output, args)) => self@.input is Some && self@.output is Some && output@
                    == self@.output.unwrap() && views(args@) == command_args(self@),
                Err(msg) => (self@.input is None || self@.output is None) && msg@ == build_error(
                    self@,
                ),
            },
    {
        let ghost t = self@;
        let input = match self.input {
            Some(p) => p,
            None => {
                return Err(String::from_str("Missing input path"));
            },
        };
        let output = match self.output {
            Some(p) => p,
            None => {
                return Err(String::from_str("Missing output path"));
            },
        };
        let mut args: Vec<String> = Vec::new();
        assert(views(args@) =~= Seq::<Seq<char>>::empty());
        push_flag(&mut args, "-y");
        push_flag(&mut args, "-i");
        push_text(&mut args, input);
        assert(views(args@) =~= seq!["-y"@, "-i"@, t.input.unwrap()]);
        push_bitrate(&mut args, "-b:v", self.video_bitrate);
        push_bitrate(&mut args, "-b:a", self.audio_bitrate);
        push_resolution(&mut args, self.resolution);
        push_number(&mut args, "-r", self.frame_rate);
        push_number(&mut args, "-ar", self.sample_rate);
        push_all(&mut args, &self.extra_args);
        let ghost front = views(args@);
        push_text(&mut args, output.clone());
        assert(views(args@) =~= front + seq![t.output.unwrap()]);
        Ok((output, args))
    }
}

} // verus!
