use converlex::app_data::{AddTaskError, AppData};
use converlex::app_event::{AppEvent, Effect};
use converlex::batch::Launch;
use converlex::command::{FfmpegEntry, FfmpegTask};
use converlex::event::{ProgressMsg, TaskStatus};
use converlex::format_selector::{matches_filter, position_of_ext};
use converlex::formats::{Audio, MediaFormat, Video};
use converlex::fraction::Fraction;
use converlex::process_filter::ProgressCallBacker;
use converlex::progress::{probe_duration, ProbeError};
use converlex::settings::AppSettings;
use converlex::store::JobStatusStore;
use converlex::task::Task;
use converlex::task_config::{parse_bitrate, toggled_bitrate, DEFAULT_BITRATE};
use converlex::task_item_row::TaskItemRow;
use converlex::text::{find_byte, find_bytes, find_space, i64_to_string, join, str_eq, u64_to_string};
use converlex::timecode::trim;

#[test]
fn length_is_probed_from_the_report() {
    let report = b"Input #0, wav, from 'a.wav':\n  Duration: 00:03:25.45, bitrate: 1411 kb/s\n";
    assert_eq!(probe_duration(report), Ok(205_450_000));
}

#[test]
fn report_without_length_is_an_error() {
    assert_eq!(probe_duration(b"a.wav: No such file or directory\n"), Err(ProbeError::NotFound));
    assert_eq!(probe_duration(b"  Duration: 00:03:25.45"), Err(ProbeError::NotFound));
    assert_eq!(probe_duration(b""), Err(ProbeError::NotFound));
}

#[test]
fn malformed_or_zero_length_is_an_error() {
    assert_eq!(probe_duration(b"  Duration: N/A, bitrate: N/A\n"), Err(ProbeError::Unreadable));
    assert_eq!(probe_duration(b"  Duration: 1:2, x\n"), Err(ProbeError::Unreadable));
    assert_eq!(probe_duration(b"  Duration: 00:00:00.00, x\n"), Err(ProbeError::Unreadable));
}

#[test]
fn store_is_finished_when_every_job_has_ended() {
    let mut store = JobStatusStore::new();
    assert!(store.is_finished());
    store.register("a");
    store.register("b");
    assert!(!store.is_finished());
    store.apply(&ProgressMsg::Done { task_id: "a".to_string() });
    assert!(!store.is_finished());
    store.apply(&ProgressMsg::Progress { task_id: "b".to_string(), progress: Fraction::full() });
    assert!(!store.is_finished());
    store.apply(&ProgressMsg::Error { task_id: "b".to_string(), error: "e".to_string() });
    assert!(store.is_finished());
}

#[test]
fn frame_time_stamp_tells_the_progress() {
    let mut cb = ProgressCallBacker::new();
    assert_eq!((cb.total_duration, cb.time_base_num, cb.time_base_den), (0, 0, 0));
    assert!(cb.progress(Some(10)).is_none());
    cb.total_duration = 10_000_000;
    assert!(cb.progress(Some(10)).is_none());
    cb.time_base_num = 1;
    cb.time_base_den = 44_100;
    assert!(cb.progress(None).is_none());
    assert_eq!(cb.progress(Some(0)).unwrap().ppm(), 0);
    assert_eq!(cb.progress(Some(220_500)).unwrap().ppm(), 500_000);
    assert_eq!(cb.progress(Some(441_000)).unwrap().ppm(), 1_000_000);
    assert_eq!(cb.progress(Some(i64::MAX)).unwrap().ppm(), 1_000_000);
    assert_eq!(cb.progress(Some(-5)).unwrap().ppm(), 0);
    assert_eq!(cb.progress(Some(i64::MIN)).unwrap().ppm(), 0);
    cb.time_base_num = -1;
    cb.time_base_den = -44_100;
    assert_eq!(cb.progress(Some(110_250)).unwrap().ppm(), 250_000);
    cb.time_base_den = 44_100;
    assert_eq!(cb.progress(Some(110_250)).unwrap().ppm(), 0);
    cb.total_duration = -1;
    assert!(cb.progress(Some(1)).is_none());
}

#[test]
fn row_starts_with_three_audio_formats() {
    let row = TaskItemRow::new("clip".to_string());
    assert_eq!(row.task_name, "clip");
    assert_eq!(row.selected_format, 0);
    assert_eq!(row.format_to_list, vec![Audio::Mp3, Audio::Wav, Audio::Flac]);
}

#[test]
fn runs_are_the_same_by_what_matters() {
    let a = FfmpegTask::new(FfmpegEntry::Env, MediaFormat::Audio(Audio::Mp3)).input("i").output("o").extra_arg("-x");
    let b = a.clone();
    assert!(a.same(&b));
    assert!(!a.same(&b.clone().extra_arg("-y")));
    assert!(!a.same(&b.clone().input("j")));
    assert!(!a.same(&b.clone().frame_rate(1)));
    assert!(!a.same(&b.clone().resolution(1, 2)));
    assert!(!a.same(&b.clone().video_bitrate(Some(3))));
    let mut c = b.clone();
    c.output_format = MediaFormat::Video(Video::Mp4);
    assert!(!a.same(&c));
    let mut d = b.clone();
    d.ffmpeg_entry = FfmpegEntry::Path("p".to_string());
    assert!(!a.same(&d));
    let mut e = b.clone();
    e.output = None;
    assert!(!a.same(&e));
}

#[test]
fn events_change_the_state_as_the_methods_do() {
    let mut app = AppData::new(AppSettings::new());
    assert!(matches!(
        app.event(AppEvent::AddTask { path: "a.wav".to_string(), existing: vec![] }),
        Effect::Refused(AddTaskError::EncoderUnknown)
    ));
    assert!(matches!(app.event(AppEvent::StartConvert { overwrite: false }), Effect::EncoderUnknown));
    assert!(matches!(app.event(AppEvent::UpdateFfmpegEntry(Some(FfmpegEntry::Env))), Effect::Nothing));
    assert!(matches!(
        app.event(AppEvent::AddTask { path: "a.txt".to_string(), existing: vec![] }),
        Effect::Refused(AddTaskError::UnsupportedFormat)
    ));
    let id = match app.event(AppEvent::AddTask {
        path: "a.wav".to_string(),
        existing: vec!["a_converted.mp3".to_string()],
    }) {
        Effect::Added(id) => id,
        _ => panic!("the file must be taken"),
    };
    assert_eq!(app.tasks[0].id, id);
    assert_eq!(app.tasks[0].task.output_path, "a_converted_1.mp3");

    app.event(AppEvent::ChangeOutputFormat { task_id: id.clone(), selected: 1, existing: vec![] });
    assert_eq!(app.tasks[0].task.output_path, "a_converted.wav");
    app.event(AppEvent::ToggleAutoRename { task_id: id.clone(), existing: vec![] });
    assert!(!app.tasks[0].task.auto_rename);
    app.event(AppEvent::ChangeAudioBitrate(id.clone(), Some(64)));
    app.event(AppEvent::ChangeVideoBitrate(id.clone(), Some(900)));
    let edited = Task::new("b.wav".to_string(), "b.ogg".to_string(), MediaFormat::all(), 6, FfmpegEntry::Env);
    app.event(AppEvent::UpdateTask(id.clone(), edited));
    app.event(AppEvent::ToggleConifg(id.clone()));
    assert!(app.show_config_page);
    app.event(AppEvent::ConfigWindowClosing);
    assert!(!app.show_config_page);
    app.event(AppEvent::ToggleSettingsWindow);
    assert!(app.show_settings_window);
    app.event(AppEvent::ToggleFormatSelectorWindow(id.clone()));
    assert!(app.show_format_selctor_window);
    app.event(AppEvent::FormatSelectorWindowClosing);
    assert!(!app.show_format_selctor_window);

    match app.event(AppEvent::StartConvert { overwrite: false }) {
        Effect::Started(plan) => {
            assert_eq!(plan.len(), 1);
            match &plan[0] {
                Launch::Start { args, remove_existing_output, .. } => {
                    assert_eq!(args, &vec!["-y", "-i", "b.wav", "-b:v", "900k", "-b:a", "64k", "b.ogg"]);
                    assert!(!*remove_existing_output);
                }
                _ => panic!("the job must start"),
            }
        }
        _ => panic!("the batch must start"),
    }

    app.event(AppEvent::UpdateProgress(id.clone(), Fraction::from_ppm(400_000)));
    assert_eq!(app.tasks[0].task.status, TaskStatus::Running);
    app.event(AppEvent::UpdateProgress(id.clone(), Fraction::from_ppm(100_000)));
    assert_eq!(app.tasks[0].task.progress.ppm(), 400_000);
    app.event(AppEvent::MarkDone(id.clone(), Some("broken".to_string())));
    assert_eq!(app.tasks[0].task.status, TaskStatus::Failed);
    assert_eq!(app.tasks[0].task.error, Some("broken".to_string()));
    app.event(AppEvent::MarkDone(id.clone(), None));
    assert_eq!(app.tasks[0].task.status, TaskStatus::Failed);
    assert!(matches!(app.event(AppEvent::StartConvert { overwrite: false }), Effect::Started(p) if p.is_empty()));
    app.event(AppEvent::RemoveAll);
    assert!(app.tasks.is_empty());
}

#[test]
fn text_helpers() {
    assert_eq!(u64_to_string(0), "0");
    assert_eq!(u64_to_string(7), "7");
    assert_eq!(u64_to_string(1234567890), "1234567890");
    assert_eq!(u64_to_string(u64::MAX), "18446744073709551615");
    assert_eq!(i64_to_string(-1), "-1");
    assert_eq!(i64_to_string(i64::MIN), "-9223372036854775808");
    assert_eq!(i64_to_string(i64::MAX), "9223372036854775807");
    assert_eq!(join(&vec![], ", "), "");
    assert_eq!(join(&vec!["a".to_string()], ", "), "a");
    assert_eq!(join(&vec!["a".to_string(), "".to_string(), "c".to_string()], ", "), "a, , c");
    assert!(str_eq("abc", "abc"));
    assert!(!str_eq("abc", "abd"));
    assert!(!str_eq("abc", "ab"));
    assert!(str_eq("", ""));
    assert_eq!(find_bytes(b"hello world", b"o w"), Some(4));
    assert_eq!(find_bytes(b"hello", b"hello"), Some(0));
    assert_eq!(find_bytes(b"aab", b"ab"), Some(1));
    assert_eq!(find_bytes(b"hello", b"hello!"), None);
    assert_eq!(find_bytes(b"hello", b"xyz"), None);
    assert_eq!(find_bytes(b"hello", b""), Some(0));
    assert_eq!(find_bytes(b"", b""), Some(0));
    assert_eq!(find_byte(b"a,b,c", b',', 0), Some(1));
    assert_eq!(find_byte(b"a,b,c", b',', 2), Some(3));
    assert_eq!(find_byte(b"a,b,c", b',', 4), None);
    assert_eq!(find_byte(b"a,b,c", b',', 99), None);
    assert_eq!(find_space(b"ab\tc d", 0), Some(2));
    assert_eq!(find_space(b"ab\tc d", 3), Some(4));
    assert_eq!(find_space(b"abc", 0), None);
    assert_eq!(trim(b" \t\r\n x y \x0b\x0c "), b"x y");
    assert_eq!(trim(b"   "), b"");
    assert_eq!(trim(b""), b"");
}

#[test]
fn typed_bit_rate_is_the_number_of_its_digits() {
    assert_eq!(parse_bitrate("128"), Some(128));
    assert_eq!(parse_bitrate(" 1 2k8 "), Some(128));
    assert_eq!(parse_bitrate("007"), Some(7));
    assert_eq!(parse_bitrate("0"), Some(0));
    assert_eq!(parse_bitrate("-5"), Some(5));
    assert_eq!(parse_bitrate("4294967295"), Some(u32::MAX));
    assert_eq!(parse_bitrate("4294967296"), None);
    assert_eq!(parse_bitrate("99999999999999999999999999"), None);
    assert_eq!(parse_bitrate(""), None);
    assert_eq!(parse_bitrate("kbit"), None);
    assert_eq!(parse_bitrate("１２"), None);
}

#[test]
fn ticking_switches_the_bit_rate() {
    assert_eq!(DEFAULT_BITRATE, 128);
    assert_eq!(toggled_bitrate(None), Some(128));
    assert_eq!(toggled_bitrate(Some(320)), None);
    assert_eq!(toggled_bitrate(Some(128)), None);
}

#[test]
fn filter_shows_the_formats_that_hold_the_typed_text() {
    let mp4 = MediaFormat::Video(Video::Mp4);
    assert!(matches_filter(&mp4, ""));
    assert!(matches_filter(&mp4, "mp"));
    assert!(matches_filter(&mp4, "P4"));
    assert!(matches_filter(&mp4, "MP4"));
    assert!(!matches_filter(&mp4, "mp3"));
    assert!(!matches_filter(&mp4, "mp4 "));
    assert!(!matches_filter(&mp4, "ts"));
    assert!(matches_filter(&MediaFormat::Video(Video::Mpegts), "T"));
    assert!(!matches_filter(&MediaFormat::Audio(Audio::Flac), "é"));
}

#[test]
fn chosen_format_is_found_by_its_extension() {
    let all = MediaFormat::all();
    assert_eq!(position_of_ext(&all, "mp3"), 0);
    assert_eq!(position_of_ext(&all, "wav"), 1);
    assert_eq!(position_of_ext(&all, "mp4"), 16);
    assert_eq!(position_of_ext(&all, "nope"), 0);
    assert_eq!(position_of_ext(&Vec::new(), "mp3"), 0);
    let twice = vec![MediaFormat::Audio(Audio::Wav), MediaFormat::Audio(Audio::Mp3), MediaFormat::Audio(Audio::Mp3)];
    assert_eq!(position_of_ext(&twice, "mp3"), 1);
}

#[test]
fn ended_job_is_resubmitted_as_a_new_one() {
    let mut task = Task::new("a.wav".to_string(), "a.mp3".to_string(), MediaFormat::all(), 2, FfmpegEntry::Env);
    task.set_audio_bitrate(Some(64));
    task.apply(&ProgressMsg::Progress { task_id: "x".to_string(), progress: Fraction::from_ppm(10) });
    task.apply(&ProgressMsg::Error { task_id: "x".to_string(), error: "e".to_string() });
    assert_eq!(task.status, TaskStatus::Failed);
    let again = task.resubmitted();
    assert_eq!(again.status, TaskStatus::Queued);
    assert_eq!(again.progress.ppm(), 0);
    assert_eq!(again.error, None);
    assert_eq!(again.input_path, "a.wav");
    assert_eq!(again.output_path, "a.mp3");
    assert_eq!(again.selected_output_format, 2);
    assert_eq!(again.supported_output_formats, MediaFormat::all());
    assert!(again.auto_rename);
    assert_eq!(
        again.job(&FfmpegEntry::Env).build().unwrap().1,
        vec!["-y", "-i", "a.wav", "-b:a", "64k", "a.mp3"]
    );
    assert_eq!(task.status, TaskStatus::Failed);
}
