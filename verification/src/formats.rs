//! The media formats that a job can be converted to.

use crate::text::str_eq;
use vstd::prelude::*;
use vstd::string::*;

verus! {

/// `s` without the dots at its start.
pub open spec fn strip_dots(s: Seq<char>) -> Seq<char>
    decreases s.len(),
{
    if s.len() > 0 && s[0] == '.' {
        strip_dots(s.drop_first())
    } else {
        s
    }
}

/// The lower-case form of a text, as the standard library's
/// `str::to_lowercase` gives it.
pub uninterp spec fn lowercase_of(s: Seq<char>) -> Seq<char>;

/// A file extension as the formats are looked up by: without the dots in
/// front of it, in lower case.
pub open spec fn normal_ext(ext: Seq<char>) -> Seq<char> {
    lowercase_of(strip_dots(ext))
}

/// Calls `str::to_lowercase` of the standard library. The result is the
/// lower-case form of `s` by the rules of Unicode, which depends on `s`
/// alone; nothing more is claimed of it.
#[verifier::external_body]
fn to_lowercase(s: &str) -> (r: String)
    ensures
        r@ == lowercase_of(s@),
{
    s.to_lowercase()
}

/// `s` without the dots at its start.
pub fn strip_leading_dots(s: &str) -> (r: &str)
    ensures
        r@ == strip_dots(s@),
{
    let n: usize = s.unicode_len();
    let mut i: usize = 0;
    assert(s@.skip(0) =~= s@);
    while i < n && s.get_char(i) == '.'
        invariant
            i <= n == s@.len(),
            strip_dots(s@) == strip_dots(s@.skip(i as int)),
        decreases n - i,
    {
        assert(s@.skip(i as int).drop_first() =~= s@.skip(i + 1));
        i += 1;
    }
    assert(s@.subrange(i as int, n as int) =~= s@.skip(i as int));
    s.substring_char(i, n)
}

/// Brings a file extension into the form by which formats are looked up.
pub fn normalize_extension(ext: &str) -> (r: String)
    ensures
        r@ == normal_ext(ext@),
{
    to_lowercase(strip_leading_dots(ext))
}

/// The video formats that the encoder can write.
#[derive(Clone, Copy, Debug, PartialEq, Eq, Structural)]
pub enum Video {
    Mp4,
    Mkv,
    Avi,
    Mov,
    Wmv,
    Flv,
    Webm,
    Mpegts,
    Mpeg,
    Mpg,
    Ogv,
    Gif,
    ThreeG2,
    ThreeGp,
    F4v,
    Nut,
    Psp,
    RealMedia,
    Swf,
    Vcd,
    Hds,
    Ismv,
}

impl Video {
    /// The file extension of the format, in lower case and without a dot.
    pub open spec fn ext_spec(self) -> Seq<char> {
        match self {
            Video::Mp4 => "mp4"@,
            Video::Mkv => "mkv"@,
            Video::Avi => "avi"@,
            Video::Mov => "mov"@,
            Video::Wmv => "wmv"@,
            Video::Flv => "flv"@,
            Video::Webm => "webm"@,
            Video::Mpegts => "ts"@,
            Video::Mpeg => "mpeg"@,
            Video::Mpg => "mpg"@,
            Video::Ogv => "ogv"@,
            Video::Gif => "gif"@,
            Video::ThreeG2 => "3g2"@,
            Video::ThreeGp => "3gp"@,
            Video::F4v => "f4v"@,
            Video::Nut => "nut"@,
            Video::Psp => "psp"@,
            Video::RealMedia => "rm"@,
            Video::Swf => "swf"@,
            Video::Vcd => "dat"@,
            Video::Hds => "f4m"@,
            Video::Ismv => "ismv"@,
        }
    }

    /// A short description of the format.
    pub open spec fn desc_spec(self) -> Seq<char> {
        match self {
            Video::Mp4 => "MPEG-4 Part 14, widely supported video container"@,
            Video::Mkv => "Matroska Multimedia Container"@,
            Video::Avi => "Audio Video Interleave, Microsoft format"@,
            Video::Mov => "Apple QuickTime Movie"@,
            Video::Wmv => "Windows Media Video"@,
            Video::Flv => "Flash Video Format"@,
            Video::Webm => "Web-optimized Matroska variant by Google"@,
            Video::Mpegts => "MPEG Transport Stream"@,
            Video::Mpeg => "MPEG-1 or MPEG-2 Video"@,
            Video::Mpg => "Alternative extension for MPEG video"@,
            Video::Ogv => "Ogg Video, Theora encoded"@,
            Video::Gif => "Graphics Interchange Format, supports animation"@,
            Video::ThreeG2 => "3GPP2 multimedia format"@,
            Video::ThreeGp => "3GPP multimedia format"@,
            Video::F4v => "Flash MP4 video format"@,
            Video::Nut => "Experimental multimedia container"@,
            Video::Psp => "PlayStation Portable media format"@,
            Video::RealMedia => "RealNetworks streaming format"@,
            Video::Swf => "Small Web Format for vector animation"@,
            Video::Vcd => "Video CD format"@,
            Video::Hds => "HTTP Dynamic Streaming, Adobe format"@,
            Video::Ismv => "Smooth Streaming format from Microsoft"@,
        }
    }

    /// Every format, in the order in which they are offered.
    pub open spec fn all_spec() -> Seq<Video> {
        seq![
            Video::Mp4,
            Video::Mkv,
            Video::Avi,
            Video::Mov,
            Video::Wmv,
            Video::Flv,
            Video::Webm,
            Video::Mpegts,
            Video::Mpeg,
            Video::Mpg,
            Video::Ogv,
            Video::Gif,
            Video::ThreeG2,
            Video::ThreeGp,
            Video::F4v,
            Video::Nut,
            Video::Psp,
            Video::RealMedia,
            Video::Swf,
            Video::Vcd,
            Video::Hds,
            Video::Ismv,
        ]
    }

    /// The file extension of the format, in lower case and without a dot.
    pub fn ext(&self) -> (r: &'static str)
        ensures
            r@ == self.ext_spec(),
    {
        match self {
            Video::Mp4 => "mp4",
            Video::Mkv => "mkv",
            Video::Avi => "avi",
            Video::Mov => "mov",
            Video::Wmv => "wmv",
            Video::Flv => "flv",
            Video::Webm => "webm",
            Video::Mpegts => "ts",
            Video::Mpeg => "mpeg",
            Video::Mpg => "mpg",
            Video::Ogv => "ogv",
            Video::Gif => "gif",
            Video::ThreeG2 => "3g2",
            Video::ThreeGp => "3gp",
            Video::F4v => "f4v",
            Video::Nut => "nut",
            Video::Psp => "psp",
            Video::RealMedia => "rm",
            Video::Swf => "swf",
            Video::Vcd => "dat",
            Video::Hds => "f4m",
            Video::Ismv => "ismv",
        }
    }

    /// A short description of the format.
    pub fn desc(&self) -> (r: Option<&'static str>)
        ensures
            r is Some,
            r.unwrap()@ == self.desc_spec(),
    {
        match self {
            Video::Mp4 => Some("MPEG-4 Part 14, widely supported video container"),
            Video::Mkv => Some("Matroska Multimedia Container"),
            Video::Avi => Some("Audio Video Interleave, Microsoft format"),
            Video::Mov => Some("Apple QuickTime Movie"),
            Video::Wmv => Some("Windows Media Video"),
            Video::Flv => Some("Flash Video Format"),
            Video::Webm => Some("Web-optimized Matroska variant by Google"),
            Video::Mpegts => Some("MPEG Transport Stream"),
            Video::Mpeg => Some("MPEG-1 or MPEG-2 Video"),
            Video::Mpg => Some("Alternative extension for MPEG video"),
            Video::Ogv => Some("Ogg Video, Theora encoded"),
            Video::Gif => Some("Graphics Interchange Format, supports animation"),
            Video::ThreeG2 => Some("3GPP2 multimedia format"),
            Video::ThreeGp => Some("3GPP multimedia format"),
            Video::F4v => Some("Flash MP4 video format"),
            Video::Nut => Some("Experimental multimedia container"),
            Video::Psp => Some("PlayStation Portable media format"),
            Video::RealMedia => Some("RealNetworks streaming format"),
            Video::Swf => Some("Small Web Format for vector animation"),
            Video::Vcd => Some("Video CD format"),
            Video::Hds => Some("HTTP Dynamic Streaming, Adobe format"),
            Video::Ismv => Some("Smooth Streaming format from Microsoft"),
        }
    }

    /// Every format, in the order in which they are offered.
    pub fn all() -> (r: Vec<Video>)
        ensures
            r@ == Self::all_spec(),
    {
        let r = vec![
            Video::Mp4,
            Video::Mkv,
            Video::Avi,
            Video::Mov,
            Video::Wmv,
            Video::Flv,
            Video::Webm,
            Video::Mpegts,
            Video::Mpeg,
            Video::Mpg,
            Video::Ogv,
            Video::Gif,
            Video::ThreeG2,
            Video::ThreeGp,
            Video::F4v,
            Video::Nut,
            Video::Psp,
            Video::RealMedia,
            Video::Swf,
            Video::Vcd,
            Video::Hds,
            Video::Ismv,
        ];
        assert(r@ =~= Self::all_spec());
        r
    }

    /// The first of `formats` with the extension `ext`.
    pub open spec fn find_ext(formats: Seq<Video>, ext: Seq<char>) -> Option<Video>
        decreases formats.len(),
    {
        if formats.len() == 0 {
            None
        } else if formats[0].ext_spec() == ext {
            Some(formats[0])
        } else {
            Self::find_ext(formats.drop_first(), ext)
        }
    }

    /// The format with the extension `ext`, which is in lower case and
    /// has no dot.
    pub open spec fn with_ext(ext: Seq<char>) -> Option<Video> {
        Self::find_ext(Self::all_spec(), ext)
    }

    /// The format with the extension `ext`, which is in lower case and
    /// has no dot.
    pub fn from_normal_extension(ext: &str) -> (r: Option<Video>)
        ensures
            r == Self::with_ext(ext@),
    {
        let all = Self::all();
        let mut i: usize = 0;
        assert(all@.skip(0) =~= all@);
        while i < all.len()
            invariant
                i <= all@.len(),
                Self::with_ext(ext@) == Self::find_ext(all@.skip(i as int), ext@),
            decreases all@.len() - i,
        {
            let f = all[i];
            assert(all@.skip(i as int).drop_first() =~= all@.skip(i + 1));
            if str_eq(f.ext(), ext) {
                return Some(f);
            }
            i += 1;
        }
        None
    }

    /// The format that a file extension stands for: dots in front of
    /// it and the case of its letters do not count.
    pub fn from_extension(ext: &str) -> (r: Option<Video>)
        ensures
            r == Self::with_ext(normal_ext(ext@)),
    {
        let normal = normalize_extension(ext);
        Self::from_normal_extension(normal.as_str())
    }
}

/// The audio formats that the encoder can write.
#[derive(Clone, Copy, Debug, PartialEq, Eq, Structural)]
pub enum Audio {
    Mp3,
    Wav,
    Flac,
    Aac,
    Ac3,
    Opus,
    Vorbis,
    Alac,
    Amr,
    Wma,
    Dts,
    Lpcm,
    Eac3,
    Dsd,
    Tta,
    Wv,
}

impl Audio {
    /// The file extension of the format, in lower case and without a dot.
    pub open spec fn ext_spec(self) -> Seq<char> {
        match self {
            Audio::Mp3 => "mp3"@,
            Audio::Wav => "wav"@,
            Audio::Flac => "flac"@,
            Audio::Aac => "aac"@,
            Audio::Ac3 => "ac3"@,
            Audio::Opus => "opus"@,
            Audio::Vorbis => "ogg"@,
            Audio::Alac => "m4a"@,
            Audio::Amr => "amr"@,
            Audio::Wma => "wma"@,
            Audio::Dts => "dts"@,
            Audio::Lpcm => "lpcm"@,
            Audio::Eac3 => "eac3"@,
            Audio::Dsd => "dsf"@,
            Audio::Tta => "tta"@,
            Audio::Wv => "wv"@,
        }
    }

    /// A short description of the format.
    pub open spec fn desc_spec(self) -> Seq<char> {
        match self {
            Audio::Mp3 => "MPEG-1 Audio Layer 3"@,
            Audio::Wav => "Waveform Audio File Format"@,
            Audio::Flac => "Free Lossless Audio Codec"@,
            Audio::Aac => "Advanced Audio Coding"@,
            Audio::Ac3 => "Audio Codec 3"@,
            Audio::Opus => "Opus Interactive Audio Codec"@,
            Audio::Vorbis => "Xiph Vorbis audio"@,
            Audio::Alac => "Apple Lossless Audio Codec"@,
            Audio::Amr => "Adaptive Multi-Rate Audio Codec"@,
            Audio::Wma => "Windows Media Audio"@,
            Audio::Dts => "DTS Coherent Acoustics"@,
            Audio::Lpcm => "Linear PCM"@,
            Audio::Eac3 => "Enhanced AC-3"@,
            Audio::Dsd => "Direct Stream Digital"@,
            Audio::Tta => "True Audio"@,
            Audio::Wv => "WavPack"@,
        }
    }

    /// Every format, in the order in which they are offered.
    pub open spec fn all_spec() -> Seq<Audio> {
        seq![
            Audio::Mp3,
            Audio::Wav,
            Audio::Flac,
            Audio::Aac,
            Audio::Ac3,
            Audio::Opus,
            Audio::Vorbis,
            Audio::Alac,
            Audio::Amr,
            Audio::Wma,
            Audio::Dts,
            Audio::Lpcm,
            Audio::Eac3,
            Audio::Dsd,
            Audio::Tta,
            Audio::Wv,
        ]
    }

    /// The file extension of the format, in lower case and without a dot.
    pub fn ext(&self) -> (r: &'static str)
        ensures
            r@ == self.ext_spec(),
    {
        match self {
            Audio::Mp3 => "mp3",
            Audio::Wav => "wav",
            Audio::Flac => "flac",
            Audio::Aac => "aac",
            Audio::Ac3 => "ac3",
            Audio::Opus => "opus",
            Audio::Vorbis => "ogg",
            Audio::Alac => "m4a",
            Audio::Amr => "amr",
            Audio::Wma => "wma",
            Audio::Dts => "dts",
            Audio::Lpcm => "lpcm",
            Audio::Eac3 => "eac3",
            Audio::Dsd => "dsf",
            Audio::Tta => "tta",
            Audio::Wv => "wv",
        }
    }

    /// A short description of the format.
    pub fn desc(&self) -> (r: Option<&'static str>)
        ensures
            r is Some,
            r.unwrap()@ == self.desc_spec(),
    {
        match self {
            Audio::Mp3 => Some("MPEG-1 Audio Layer 3"),
            Audio::Wav => Some("Waveform Audio File Format"),
            Audio::Flac => Some("Free Lossless Audio Codec"),
            Audio::Aac => Some("Advanced Audio Coding"),
            Audio::Ac3 => Some("Audio Codec 3"),
            Audio::Opus => Some("Opus Interactive Audio Codec"),
            Audio::Vorbis => Some("Xiph Vorbis audio"),
            Audio::Alac => Some("Apple Lossless Audio Codec"),
            Audio::Amr => Some("Adaptive Multi-Rate Audio Codec"),
            Audio::Wma => Some("Windows Media Audio"),
            Audio::Dts => Some("DTS Coherent Acoustics"),
            Audio::Lpcm => Some("Linear PCM"),
            Audio::Eac3 => Some("Enhanced AC-3"),
            Audio::Dsd => Some("Direct Stream Digital"),
            Audio::Tta => Some("True Audio"),
            Audio::Wv => Some("WavPack"),
        }
    }

    /// Every format, in the order in which they are offered.
    pub fn all() -> (r: Vec<Audio>)
        ensures
            r@ == Self::all_spec(),
    {
        let r = vec![
            Audio::Mp3,
            Audio::Wav,
            Audio::Flac,
            Audio::Aac,
            Audio::Ac3,
            Audio::Opus,
            Audio::Vorbis,
            Audio::Alac,
            Audio::Amr,
            Audio::Wma,
            Audio::Dts,
            Audio::Lpcm,
            Audio::Eac3,
            Audio::Dsd,
            Audio::Tta,
            Audio::Wv,
        ];
        assert(r@ =~= Self::all_spec());
        r
    }

    /// The first of `formats` with the extension `ext`.
    pub open spec fn find_ext(formats: Seq<Audio>, ext: Seq<char>) -> Option<Audio>
        decreases formats.len(),
    {
        if formats.len() == 0 {
            None
        } else if formats[0].ext_spec() == ext {
            Some(formats[0])
        } else {
            Self::find_ext(formats.drop_first(), ext)
        }
    }

    /// The format with the extension `ext`, which is in lower case and
    /// has no dot.
    pub open spec fn with_ext(ext: Seq<char>) -> Option<Audio> {
        Self::find_ext(Self::all_spec(), ext)
    }

    /// The format with the extension `ext`, which is in lower case and
    /// has no dot.
    pub fn from_normal_extension(ext: &str) -> (r: Option<Audio>)
        ensures
            r == Self::with_ext(ext@),
    {
        let all = Self::all();
        let mut i: usize = 0;
        assert(all@.skip(0) =~= all@);
        while i < all.len()
            invariant
                i <= all@.len(),
                Self::with_ext(ext@) == Self::find_ext(all@.skip(i as int), ext@),
            decreases all@.len() - i,
        {
            let f = all[i];
            assert(all@.skip(i as int).drop_first() =~= all@.skip(i + 1));
            if str_eq(f.ext(), ext) {
                return Some(f);
            }
            i += 1;
        }
        None
    }

    /// The format that a file extension stands for: dots in front of
    /// it and the case of its letters do not count.
    pub fn from_extension(ext: &str) -> (r: Option<Audio>)
        ensures
            r == Self::with_ext(normal_ext(ext@)),
    {
        let normal = normalize_extension(ext);
        Self::from_normal_extension(normal.as_str())
    }
}

/// A format by its kind.
#[derive(Clone, Copy, Debug, PartialEq, Eq, Structural)]
pub enum FormatType {
    Audio(Audio),
    Video(Video),
}

/// A format that a job can be converted to.
#[derive(Clone, Copy, Debug, PartialEq, Eq, Structural)]
pub enum MediaFormat {
    Audio(Audio),
    Video(Video),
}

/// What the engine asks of an output format.
pub trait ConvertibleFormat {
    /// The file extension of the format as plain characters.
    spec fn ext_view(&self) -> Seq<char>;

    /// The description of the format as plain characters.
    spec fn decs_view(&self) -> Option<Seq<char>>;

    /// The kind of the format.
    spec fn format_type_view(&self) -> FormatType;

    /// The formats that a file of this format can be converted to.
    fn get_supported_output_formats(&self) -> (r: Vec<MediaFormat>)
        ensures
            r@ == MediaFormat::all_spec(),
    ;

    /// The file extension of the format, without a dot.
    fn get_ext(&self) -> (r: String)
        ensures
            r@ == self.ext_view(),
    ;

    /// A short description of the format.
    fn get_decs(&self) -> (r: Option<String>)
        ensures
            r is Some == self.decs_view() is Some,
            r is Some ==> r.unwrap()@ == self.decs_view().unwrap(),
    ;

    /// The kind of the format.
    fn get_format_type(&self) -> (r: FormatType)
        ensures
            r == self.format_type_view(),
    ;
}

impl MediaFormat {
    /// The file extension of the format, in lower case and without a dot.
    pub open spec fn ext_spec(self) -> Seq<char> {
        match self {
            MediaFormat::Audio(a) => a.ext_spec(),
            MediaFormat::Video(v) => v.ext_spec(),
        }
    }

    /// A short description of the format.
    pub open spec fn desc_spec(self) -> Seq<char> {
        match self {
            MediaFormat::Audio(a) => a.desc_spec(),
            MediaFormat::Video(v) => v.desc_spec(),
        }
    }

    /// Every format: the audio formats, then the video formats.
    pub open spec fn all_spec() -> Seq<MediaFormat> {
        Audio::all_spec().map_values(|a: Audio| MediaFormat::Audio(a)) + Video::all_spec().map_values(
            |v: Video| MediaFormat::Video(v),
        )
    }

    /// The format with the extension `ext`, which is in lower case and
    /// has no dot. A video format goes first where both kinds have one.
    pub open spec fn with_ext(ext: Seq<char>) -> Option<MediaFormat> {
        match Video::with_ext(ext) {
            Some(v) => Some(MediaFormat::Video(v)),
            None => match Audio::with_ext(ext) {
                Some(a) => Some(MediaFormat::Audio(a)),
                None => None,
            },
        }
    }

    /// The format with the extension `ext`, which is in lower case and
    /// has no dot.
    pub fn from_normal_extension(ext: &str) -> (r: Option<MediaFormat>)
        ensures
            r == Self::with_ext(ext@),
    {
        if let Some(video) = Video::from_normal_extension(ext) {
            return Some(MediaFormat::Video(video));
        }
        if let Some(audio) = Audio::from_normal_extension(ext) {
            return Some(MediaFormat::Audio(audio));
        }
        None
    }

    /// The format that a file extension stands for, if there is one: dots
    /// in front of it and the case of its letters do not count.
    pub fn new(extension: &str) -> (r: Option<MediaFormat>)
        ensures
            r == Self::with_ext(normal_ext(extension@)),
    {
        let ext = normalize_extension(extension);
        Self::from_normal_extension(ext.as_str())
    }

    /// The file extension of the format, in lower case and without a dot.
    pub fn ext(&self) -> (r: &'static str)
        ensures
            r@ == self.ext_spec(),
    {
        match self {
            MediaFormat::Audio(a) => a.ext(),
            MediaFormat::Video(v) => v.ext(),
        }
    }

    /// Every format: the audio formats, then the video formats.
    pub fn all() -> (r: Vec<MediaFormat>)
        ensures
            r@ == Self::all_spec(),
    {
        let audio = Audio::all();
        let video = Video::all();
        let mut r: Vec<MediaFormat> = Vec::new();
        let mut i: usize = 0;
        while i < audio.len()
            invariant
                i <= audio@.len(),
                r@ =~= audio@.take(i as int).map_values(|a: Audio| MediaFormat::Audio(a)),
            decreases audio@.len() - i,
        {
            r.push(MediaFormat::Audio(audio[i]));
            i += 1;
        }
        assert(audio@.take(i as int) =~= audio@);
        let mut j: usize = 0;
        while j < video.len()
            invariant
                j <= video@.len(),
                r@ =~= audio@.map_values(|a: Audio| MediaFormat::Audio(a)) + video@.take(
                    j as int,
                ).map_values(|v: Video| MediaFormat::Video(v)),
            decreases video@.len() - j,
        {
            r.push(MediaFormat::Video(video[j]));
            j += 1;
        }
        assert(video@.take(j as int) =~= video@);
        r
    }
}

impl Default for MediaFormat {
    /// The format that a new job starts with.
    fn default() -> (r: MediaFormat)
        ensures
            r == MediaFormat::Audio(Audio::Mp3),
    {
        MediaFormat::Audio(Audio::Mp3)
    }
}

impl ConvertibleFormat for MediaFormat {
    open spec fn ext_view(&self) -> Seq<char> {
        self.ext_spec()
    }

    open spec fn decs_view(&self) -> Option<Seq<char>> {
        Some(self.desc_spec())
    }

    open spec fn format_type_view(&self) -> FormatType {
        match self {
            MediaFormat::Audio(a) => FormatType::Audio(*a),
            MediaFormat::Video(v) => FormatType::Video(*v),
        }
    }

    fn get_supported_output_formats(&self) -> (r: Vec<MediaFormat>) {
        MediaFormat::all()
    }

    fn get_ext(&self) -> (r: String) {
        String::from_str(self.ext())
    }

    fn get_decs(&self) -> (r: Option<String>) {
        let d = match self {
            MediaFormat::Audio(a) => a.desc(),
            MediaFormat::Video(v) => v.desc(),
        };
        match d {
            Some(text) => Some(String::from_str(text)),
            None => None,
        }
    }

    fn get_format_type(&self) -> (r: FormatType) {
        match self {
            MediaFormat::Audio(a) => FormatType::Audio(*a),
            MediaFormat::Video(v) => FormatType::Video(*v),
        }
    }
}

/// A number made of the length of a text and its first four characters:
/// texts with different numbers differ.
spec fn ext_tag(s: Seq<char>) -> int {
    let c0 = if s.len() > 0 {
        s[0] as int
    } else {
        0
    };
    let c1 = if s.len() > 1 {
        s[1] as int
    } else {
        0
    };
    let c2 = if s.len() > 2 {
        s[2] as int
    } else {
        0
    };
    let c3 = if s.len() > 3 {
        s[3] as int
    } else {
        0
    };
    s.len() + 10 * (c0 + 256 * (c1 + 256 * (c2 + 256 * c3)))
}

/// The number that stands for the extension of a video format.
spec fn video_tag(f: Video) -> int {
    match f {
        Video::Mp4 => 34366533,
        Video::Mkv => 77607493,
        Video::Avi => 69115853,
        Video::Mov => 77617733,
        Video::Wmv => 77612713,
        Video::Flv => 77609983,
        Video::Webm => 18351650474,
        Video::Mpegts => 295562,
        Video::Mpeg => 17347011654,
        Video::Mpg => 67789893,
        Video::Ogv => 77597273,
        Video::Gif => 67116553,
        Video::ThreeG2 => 33032193,
        Video::ThreeGp => 73664513,
        Video::F4v => 77466623,
        Video::Nut => 76322383,
        Video::Psp => 73695843,
        Video::RealMedia => 280182,
        Video::Swf => 67152513,
        Video::Vcd => 76271083,
        Video::Hds => 71568383,
        Video::Ismv => 19868844574,
    }
}

proof fn lemma_video_tag(f: Video)
    ensures
        ext_tag(f.ext_spec()) == video_tag(f),
{
    reveal_strlit("mp4");
    reveal_strlit("mkv");
    reveal_strlit("avi");
    reveal_strlit("mov");
    reveal_strlit("wmv");
    reveal_strlit("flv");
    reveal_strlit("webm");
    reveal_strlit("ts");
    reveal_strlit("mpeg");
    reveal_strlit("mpg");
    reveal_strlit("ogv");
    reveal_strlit("gif");
    reveal_strlit("3g2");
    reveal_strlit("3gp");
    reveal_strlit("f4v");
    reveal_strlit("nut");
    reveal_strlit("psp");
    reveal_strlit("rm");
    reveal_strlit("swf");
    reveal_strlit("dat");
    reveal_strlit("f4m");
    reveal_strlit("ismv");
}

/// No two video formats share an extension.
pub proof fn lemma_video_extensions_differ(a: Video, b: Video)
    requires
        a != b,
    ensures
        a.ext_spec() != b.ext_spec(),
{
    lemma_video_tag(a);
    lemma_video_tag(b);
}

/// Every video format is one of all video formats.
pub proof fn lemma_video_listed(f: Video)
    ensures
        Video::all_spec().contains(f),
{
    let all = Video::all_spec();
    match f {
        Video::Mp4 => assert(all[0] == f),
        Video::Mkv => assert(all[1] == f),
        Video::Avi => assert(all[2] == f),
        Video::Mov => assert(all[3] == f),
        Video::Wmv => assert(all[4] == f),
        Video::Flv => assert(all[5] == f),
        Video::Webm => assert(all[6] == f),
        Video::Mpegts => assert(all[7] == f),
        Video::Mpeg => assert(all[8] == f),
        Video::Mpg => assert(all[9] == f),
        Video::Ogv => assert(all[10] == f),
        Video::Gif => assert(all[11] == f),
        Video::ThreeG2 => assert(all[12] == f),
        Video::ThreeGp => assert(all[13] == f),
        Video::F4v => assert(all[14] == f),
        Video::Nut => assert(all[15] == f),
        Video::Psp => assert(all[16] == f),
        Video::RealMedia => assert(all[17] == f),
        Video::Swf => assert(all[18] == f),
        Video::Vcd => assert(all[19] == f),
        Video::Hds => assert(all[20] == f),
        Video::Ismv => assert(all[21] == f),
    }
}

/// A format that is in a list is found there by its extension.
proof fn lemma_video_found_in(formats: Seq<Video>, f: Video)
    requires
        formats.contains(f),
    ensures
        Video::find_ext(formats, f.ext_spec()) == Some(f),
    decreases formats.len(),
{
    if formats[0] != f {
        lemma_video_extensions_differ(formats[0], f);
        let i = choose|i: int| 0 <= i < formats.len() && formats[i] == f;
        assert(formats.drop_first()[i - 1] == f);
        lemma_video_found_in(formats.drop_first(), f);
    }
}

/// Every video format is found by its own extension.
pub proof fn lemma_video_found_by_extension(f: Video)
    ensures
        Video::with_ext(f.ext_spec()) == Some(f),
{
    lemma_video_listed(f);
    lemma_video_found_in(Video::all_spec(), f);
}

/// The number that stands for the extension of a audio format.
spec fn audio_tag(f: Audio) -> int {
    match f {
        Audio::Mp3 => 33711173,
        Audio::Wav => 77581993,
        Audio::Flac => 16673291264,
        Audio::Aac => 65129933,
        Audio::Ac3 => 33677773,
        Audio::Opus => 19370763354,
        Audio::Vorbis => 67766873,
        Audio::Alac => 63704133,
        Audio::Amr => 74991053,
        Audio::Wma => 63850153,
        Audio::Dts => 75664363,
        Audio::Lpcm => 18352333884,
        Audio::Eac3 => 8621510134,
        Audio::Dsd => 67142123,
        Audio::Tta => 63868043,
        Audio::Wv => 303272,
    }
}

proof fn lemma_audio_tag(f: Audio)
    ensures
        ext_tag(f.ext_spec()) == audio_tag(f),
{
    reveal_strlit("mp3");
    reveal_strlit("wav");
    reveal_strlit("flac");
    reveal_strlit("aac");
    reveal_strlit("ac3");
    reveal_strlit("opus");
    reveal_strlit("ogg");
    reveal_strlit("m4a");
    reveal_strlit("amr");
    reveal_strlit("wma");
    reveal_strlit("dts");
    reveal_strlit("lpcm");
    reveal_strlit("eac3");
    reveal_strlit("dsf");
    reveal_strlit("tta");
    reveal_strlit("wv");
}

/// No two audio formats share an extension.
pub proof fn lemma_audio_extensions_differ(a: Audio, b: Audio)
    requires
        a != b,
    ensures
        a.ext_spec() != b.ext_spec(),
{
    lemma_audio_tag(a);
    lemma_audio_tag(b);
}

/// Every audio format is one of all audio formats.
pub proof fn lemma_audio_listed(f: Audio)
    ensures
        Audio::all_spec().contains(f),
{
    let all = Audio::all_spec();
    match f {
        Audio::Mp3 => assert(all[0] == f),
        Audio::Wav => assert(all[1] == f),
        Audio::Flac => assert(all[2] == f),
        Audio::Aac => assert(all[3] == f),
        Audio::Ac3 => assert(all[4] == f),
        Audio::Opus => assert(all[5] == f),
        Audio::Vorbis => assert(all[6] == f),
        Audio::Alac => assert(all[7] == f),
        Audio::Amr => assert(all[8] == f),
        Audio::Wma => assert(all[9] == f),
        Audio::Dts => assert(all[10] == f),
        Audio::Lpcm => assert(all[11] == f),
        Audio::Eac3 => assert(all[12] == f),
        Audio::Dsd => assert(all[13] == f),
        Audio::Tta => assert(all[14] == f),
        Audio::Wv => assert(all[15] == f),
    }
}

/// A format that is in a list is found there by its extension.
proof fn lemma_audio_found_in(formats: Seq<Audio>, f: Audio)
    requires
        formats.contains(f),
    ensures
        Audio::find_ext(formats, f.ext_spec()) == Some(f),
    decreases formats.len(),
{
    if formats[0] != f {
        lemma_audio_extensions_differ(formats[0], f);
        let i = choose|i: int| 0 <= i < formats.len() && formats[i] == f;
        assert(formats.drop_first()[i - 1] == f);
        lemma_audio_found_in(formats.drop_first(), f);
    }
}

/// Every audio format is found by its own extension.
pub proof fn lemma_audio_found_by_extension(f: Audio)
    ensures
        Audio::with_ext(f.ext_spec()) == Some(f),
{
    lemma_audio_listed(f);
    lemma_audio_found_in(Audio::all_spec(), f);
}

/// Every format is found by its own extension.
pub proof fn lemma_found_by_extension(f: MediaFormat)
    ensures
        MediaFormat::with_ext(f.ext_spec()) == Some(f),
{
    match f {
        MediaFormat::Video(v) => {
            lemma_video_found_by_extension(v);
        },
        MediaFormat::Audio(a) => {
            lemma_audio_found_by_extension(a);
            lemma_kinds_apart(a);
        },
    }
}

/// No video format has the extension of an audio format.
proof fn lemma_kinds_apart(a: Audio)
    ensures
        Video::with_ext(a.ext_spec()) is None,
{
    lemma_audio_tag(a);
    lemma_video_none(Video::all_spec(), a);
}

proof fn lemma_video_none(formats: Seq<Video>, a: Audio)
    requires
        ext_tag(a.ext_spec()) == audio_tag(a),
    ensures
        Video::find_ext(formats, a.ext_spec()) is None,
    decreases formats.len(),
{
    if formats.len() > 0 {
        lemma_video_tag(formats[0]);
        lemma_video_none(formats.drop_first(), a);
    }
}

} // verus!
