use converlex::formats::{
    normalize_extension, strip_leading_dots, Audio, ConvertibleFormat, FormatType, MediaFormat, Video,
};

#[test]
fn extension_is_found_whatever_its_case_and_dots() {
    assert_eq!(MediaFormat::new("mp3"), Some(MediaFormat::Audio(Audio::Mp3)));
    assert_eq!(MediaFormat::new(".MP4"), Some(MediaFormat::Video(Video::Mp4)));
    assert_eq!(MediaFormat::new("..Mkv"), Some(MediaFormat::Video(Video::Mkv)));
    assert_eq!(MediaFormat::new("xyz"), None);
    assert_eq!(MediaFormat::new(""), None);
    assert_eq!(MediaFormat::new("mp3."), None);
}

#[test]
fn extensions_that_differ_from_the_variant_name() {
    assert_eq!(Video::from_extension("ts"), Some(Video::Mpegts));
    assert_eq!(Video::from_extension("3g2"), Some(Video::ThreeG2));
    assert_eq!(Video::from_extension("3GP"), Some(Video::ThreeGp));
    assert_eq!(Video::from_extension("rm"), Some(Video::RealMedia));
    assert_eq!(Video::from_extension("dat"), Some(Video::Vcd));
    assert_eq!(Video::from_extension("f4m"), Some(Video::Hds));
    assert_eq!(Video::from_extension("mpegts"), None);
    assert_eq!(Audio::from_extension("ogg"), Some(Audio::Vorbis));
    assert_eq!(Audio::from_extension("m4a"), Some(Audio::Alac));
    assert_eq!(Audio::from_extension("dsf"), Some(Audio::Dsd));
    assert_eq!(Audio::from_extension("vorbis"), None);
    assert_eq!(Audio::from_extension("mp4"), None);
}

#[test]
fn every_format_is_found_by_its_own_extension() {
    for v in Video::all() {
        assert_eq!(Video::from_extension(v.ext()), Some(v));
        assert_eq!(Video::from_normal_extension(v.ext()), Some(v));
        assert_eq!(MediaFormat::new(v.ext()), Some(MediaFormat::Video(v)));
        assert!(v.desc().is_some());
    }
    for a in Audio::all() {
        assert_eq!(Audio::from_extension(a.ext()), Some(a));
        assert_eq!(MediaFormat::new(a.ext()), Some(MediaFormat::Audio(a)));
        assert!(a.desc().is_some());
    }
}

#[test]
fn all_formats_in_their_order() {
    assert_eq!(Video::all().len(), 22);
    assert_eq!(Audio::all().len(), 16);
    assert_eq!(Video::all()[0], Video::Mp4);
    assert_eq!(Video::all()[21], Video::Ismv);
    assert_eq!(Audio::all()[0], Audio::Mp3);
    assert_eq!(Audio::all()[15], Audio::Wv);
    let all = MediaFormat::all();
    assert_eq!(all.len(), 38);
    assert_eq!(all[0], MediaFormat::Audio(Audio::Mp3));
    assert_eq!(all[15], MediaFormat::Audio(Audio::Wv));
    assert_eq!(all[16], MediaFormat::Video(Video::Mp4));
    assert_eq!(all[37], MediaFormat::Video(Video::Ismv));
}

#[test]
fn format_answers_what_the_engine_asks() {
    let f = MediaFormat::Video(Video::Mpegts);
    assert_eq!(f.get_ext(), "ts");
    assert_eq!(f.ext(), "ts");
    assert_eq!(f.get_decs(), Some("MPEG Transport Stream".to_string()));
    assert_eq!(f.get_format_type(), FormatType::Video(Video::Mpegts));
    assert_eq!(f.get_supported_output_formats(), MediaFormat::all());
    let a = MediaFormat::Audio(Audio::Flac);
    assert_eq!(a.get_ext(), "flac");
    assert_eq!(a.get_decs(), Some("Free Lossless Audio Codec".to_string()));
    assert_eq!(a.get_format_type(), FormatType::Audio(Audio::Flac));
    assert_eq!(MediaFormat::default(), MediaFormat::Audio(Audio::Mp3));
}

#[test]
fn extension_is_normalized() {
    assert_eq!(strip_leading_dots("...a.b"), "a.b");
    assert_eq!(strip_leading_dots("a"), "a");
    assert_eq!(strip_leading_dots("..."), "");
    assert_eq!(strip_leading_dots(""), "");
    assert_eq!(normalize_extension(".FLAC"), "flac");
    assert_eq!(normalize_extension("ÄB"), "äb");
}
