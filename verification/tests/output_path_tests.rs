use converlex::formats::{Audio, MediaFormat, Video};
use converlex::output_path::{build_converted_name, choose_output_name, get_output_path};
use converlex::paths::{get_file_extension, shorten_components, shorten_path};

fn names(items: &[&str]) -> Vec<String> {
    items.iter().map(|s| s.to_string()).collect()
}

#[test]
fn collision_is_resolved_with_the_next_free_number() {
    let existing = names(&["a_converted.mp3", "a_converted_1.mp3"]);
    let out = get_output_path("a.wav", &MediaFormat::Audio(Audio::Mp3), false, &existing);
    assert_eq!(out, "a_converted_2.mp3");
}

#[test]
fn free_name_is_taken_as_it_is() {
    let existing = names(&["b_converted.mp3", "a_converted_1.mp3"]);
    let out = get_output_path("a.wav", &MediaFormat::Audio(Audio::Mp3), false, &existing);
    assert_eq!(out, "a_converted.mp3");
}

#[test]
fn overwrite_takes_the_first_name_whatever_is_there() {
    let existing = names(&["a_converted.mp3", "a_converted_1.mp3"]);
    let out = get_output_path("a.wav", &MediaFormat::Audio(Audio::Mp3), true, &existing);
    assert_eq!(out, "a_converted.mp3");
}

#[test]
fn output_stays_in_the_directory_of_the_input() {
    let existing = names(&["clip_converted.mkv"]);
    let out = get_output_path("/data/in/clip.mp4", &MediaFormat::Video(Video::Mkv), false, &existing);
    assert_eq!(out, "/data/in/clip_converted_1.mkv");
    let out = get_output_path("/data/in/clip.mp4", &MediaFormat::Video(Video::Mpegts), false, &existing);
    assert_eq!(out, "/data/in/clip_converted.ts");
}

#[test]
fn numbers_go_past_nine_and_skip_nothing() {
    let mut existing = vec!["a_converted.mp3".to_string()];
    for n in 1..=11 {
        existing.push(format!("a_converted_{}.mp3", n));
    }
    assert_eq!(choose_output_name("a", "mp3", false, &existing), "a_converted_12.mp3");
    existing.remove(10);
    assert_eq!(choose_output_name("a", "mp3", false, &existing), "a_converted_10.mp3");
}

#[test]
fn converted_names_follow_the_pattern() {
    assert_eq!(build_converted_name("song", "flac", 0), "song_converted.flac");
    assert_eq!(build_converted_name("song", "flac", 1), "song_converted_1.flac");
    assert_eq!(build_converted_name("song", "flac", 120), "song_converted_120.flac");
    assert_eq!(build_converted_name("", "mp3", 0), "_converted.mp3");
}

#[test]
fn input_without_stem_or_parent() {
    let out = get_output_path("", &MediaFormat::Audio(Audio::Wav), false, &names(&[]));
    assert_eq!(out, "_converted.wav");
}

#[test]
fn file_extension_is_what_follows_the_last_dot() {
    assert_eq!(get_file_extension("movie.final.MP4"), "MP4");
    assert_eq!(get_file_extension("/a/b/c.tar.gz"), "gz");
    assert_eq!(get_file_extension("noext"), "");
    assert_eq!(get_file_extension(".hidden"), "");
    assert_eq!(get_file_extension(""), "");
}

#[test]
fn short_path_is_shown_whole() {
    assert_eq!(shorten_path("/a/b/c.mp3", 50), "/a/b/c.mp3");
    assert_eq!(shorten_path("/a/b/c.mp3", 10), "/a/b/c.mp3");
}

#[test]
fn path_of_two_components_is_shown_whole() {
    assert_eq!(shorten_path("/averyveryverylongname.mp3", 5), "/averyveryverylongname.mp3");
}

#[test]
fn long_path_has_its_middle_abbreviated() {
    let sep = std::path::MAIN_SEPARATOR;
    let path = format!("music{sep}albums{sep}nineties{sep}song.mp3");
    let want = format!("music{sep}a...{sep}n...{sep}song.mp3");
    assert_eq!(shorten_path(&path, want.len()), want);
    assert_eq!(shorten_path(&path, 25), want);
}

#[test]
fn path_too_long_even_abbreviated_is_shown_by_its_file_name() {
    let sep = std::path::MAIN_SEPARATOR;
    let path = format!("music{sep}albums{sep}nineties{sep}song.mp3");
    assert_eq!(shorten_path(&path, 21), "song.mp3");
    assert_eq!(shorten_path(&path, 0), "song.mp3");
}

#[test]
fn components_are_folded_with_the_given_separator() {
    let full = "C:\\Users\\somebody\\clip.mov";
    let comps = names(&["C:", "Users", "", "somebody", "clip.mov"]);
    let out = shorten_components(full, &comps, Some("clip.mov".to_string()), '\\', 22);
    assert_eq!(out, "C:\\U...\\s...\\clip.mov");
    let out = shorten_components(full, &comps, Some("clip.mov".to_string()), '\\', 20);
    assert_eq!(out, "clip.mov");
    let out = shorten_components(full, &comps, None, '\\', 3);
    assert_eq!(out, "");
    let out = shorten_components(full, &comps, None, '\\', 26);
    assert_eq!(out, full);
}
