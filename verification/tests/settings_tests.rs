use converlex::command::FfmpegEntry;
use converlex::settings::{choose_ffmpeg, first_run_settings, AppSettings};

#[test]
fn located_path_goes_first() {
    let found = choose_ffmpeg(Some(b"  /usr/bin/ffmpeg \n/other/ffmpeg\n"), Some("./ffmpeg".to_string()), true);
    assert!(matches!(found, Some(FfmpegEntry::Path(p)) if p == "/usr/bin/ffmpeg"));
    let found = choose_ffmpeg(Some(b"C:\\ff\\ffmpeg.exe\r\n"), None, false);
    assert!(matches!(found, Some(FfmpegEntry::Path(p)) if p == "C:\\ff\\ffmpeg.exe"));
    let found = choose_ffmpeg(Some(b"/bin/ff"), None, false);
    assert!(matches!(found, Some(FfmpegEntry::Path(p)) if p == "/bin/ff"));
    let found = choose_ffmpeg(Some(b"\n/bin/ff"), None, true);
    assert!(matches!(found, Some(FfmpegEntry::Path(p)) if p.is_empty()));
}

#[test]
fn file_beside_the_program_goes_second() {
    let found = choose_ffmpeg(None, Some("./ffmpeg".to_string()), true);
    assert!(matches!(found, Some(FfmpegEntry::Path(p)) if p == "./ffmpeg"));
    let found = choose_ffmpeg(Some(b""), Some("./ffmpeg".to_string()), true);
    assert!(matches!(found, Some(FfmpegEntry::Path(p)) if p == "./ffmpeg"));
    let found = choose_ffmpeg(Some(b"\xff\xff\n"), Some("./ffmpeg".to_string()), true);
    assert!(matches!(found, Some(FfmpegEntry::Path(p)) if p == "./ffmpeg"));
}

#[test]
fn environment_goes_last() {
    assert!(matches!(choose_ffmpeg(None, None, true), Some(FfmpegEntry::Env)));
    assert!(choose_ffmpeg(None, None, false).is_none());
}

#[test]
fn settings_start_with_what_was_found() {
    assert!(AppSettings::new().ffmpeg_entry.is_none());
    let s = AppSettings::with_ffmpeg_entry(FfmpegEntry::Path("p".to_string()));
    assert!(matches!(&s.ffmpeg_entry, Some(FfmpegEntry::Path(p)) if p == "p"));
    assert!(matches!(s.clone().ffmpeg_entry, Some(FfmpegEntry::Path(p)) if p == "p"));
    assert!(matches!(first_run_settings(None).ffmpeg_entry, Some(FfmpegEntry::Env)));
    let s = first_run_settings(Some(FfmpegEntry::Path("q".to_string())));
    assert!(matches!(s.ffmpeg_entry, Some(FfmpegEntry::Path(p)) if p == "q"));
}
