use converlex::app_data::{AddTaskError, AppData};
use converlex::batch::Launch;
use converlex::command::FfmpegEntry;
use converlex::event::{ProgressMsg, TaskStatus};
use converlex::formats::{Audio, MediaFormat, Video};
use converlex::fraction::Fraction;
use converlex::settings::AppSettings;
use converlex::task::{Task, TaskType};

fn app() -> AppData {
    AppData::new(AppSettings::with_ffmpeg_entry(FfmpegEntry::Env))
}

fn names(items: &[&str]) -> Vec<String> {
    items.iter().map(|s| s.to_string()).collect()
}

#[test]
fn file_becomes_a_queued_job() {
    let mut a = app();
    assert_eq!(a.add_task("id1".to_string(), "/m/song.wav", &names(&["song_converted.mp3"])), Ok(()));
    assert_eq!(a.tasks.len(), 1);
    assert_eq!(a.find("id1"), Some(0));
    assert_eq!(a.find("nope"), None);
    let t = &a.tasks[0].task;
    assert_eq!(a.tasks[0].id, "id1");
    assert_eq!(t.input_path, "/m/song.wav");
    assert_eq!(t.output_path, "/m/song_converted_1.mp3");
    assert_eq!(t.supported_output_formats, MediaFormat::all());
    assert_eq!(t.selected_output_format, 0);
    assert!(t.auto_rename);
    assert_eq!(t.status, TaskStatus::Queued);
    assert_eq!(t.progress.ppm(), 0);
    assert!(t.error.is_none());
    let TaskType::Ffmpeg(run) = &t.task_type;
    assert!(run.input.is_none() && run.output.is_none());
    assert_eq!(run.output_format, MediaFormat::Audio(Audio::Mp3));
}

#[test]
fn file_of_unknown_kind_is_not_taken() {
    let mut a = app();
    assert_eq!(a.add_task("x".to_string(), "notes.txt", &names(&[])), Err(AddTaskError::UnsupportedFormat));
    assert_eq!(a.add_task("x".to_string(), "noext", &names(&[])), Err(AddTaskError::UnsupportedFormat));
    assert!(a.tasks.is_empty());
}

#[test]
fn no_job_without_an_encoder() {
    let mut a = AppData::new(AppSettings::new());
    assert_eq!(a.add_task("x".to_string(), "a.mp3", &names(&[])), Err(AddTaskError::EncoderUnknown));
    assert_eq!(a.add_task("x".to_string(), "a.txt", &names(&[])), Err(AddTaskError::UnsupportedFormat));
    assert!(a.tasks.is_empty());
    assert!(a.start_convert(false).is_none());
    a.update_ffmpeg_entry(Some(FfmpegEntry::Path("/ff".to_string())));
    assert_eq!(a.add_task("x".to_string(), "a.mp3", &names(&[])), Ok(()));
    a.update_ffmpeg_entry(None);
    assert!(a.settings.ffmpeg_entry.is_none());
}

#[test]
fn fresh_names_are_distinct_and_of_the_usual_length() {
    let mut a = app();
    let one = a.add_new_task("a.mp3", &names(&[])).unwrap();
    let two = a.add_new_task("b.mp3", &names(&[])).unwrap();
    assert_eq!(one.len(), 36);
    assert_eq!(two.len(), 36);
    assert_ne!(one, two);
    assert_eq!(a.tasks.len(), 2);
    assert_eq!(a.find(&one), Some(0));
    assert_eq!(a.find(&two), Some(1));
    assert_eq!(a.add_new_task("b.txt", &names(&[])), Err(AddTaskError::UnsupportedFormat));
}

#[test]
fn job_of_a_known_name_is_replaced() {
    let mut a = app();
    a.add_task("x".to_string(), "a.mp3", &names(&[])).unwrap();
    a.add_task("y".to_string(), "b.mp3", &names(&[])).unwrap();
    a.add_task("x".to_string(), "c.mp3", &names(&[])).unwrap();
    assert_eq!(a.tasks.len(), 2);
    assert_eq!(a.tasks[0].task.input_path, "c.mp3");
    assert_eq!(a.tasks[1].task.input_path, "b.mp3");
}

#[test]
fn format_change_renames_the_output() {
    let mut a = app();
    a.add_task("x".to_string(), "dir/a.wav", &names(&[])).unwrap();
    let flac = MediaFormat::all().iter().position(|f| *f == MediaFormat::Audio(Audio::Flac)).unwrap();
    a.change_output_format("x", flac, &names(&["a_converted.flac"]));
    assert_eq!(a.tasks[0].task.selected_output_format, flac);
    assert_eq!(a.tasks[0].task.output_path, "dir/a_converted_1.flac");
    a.change_output_format("x", 1000, &names(&[]));
    assert_eq!(a.tasks[0].task.selected_output_format, flac);
    a.change_output_format("unknown", 0, &names(&[]));
    assert_eq!(a.tasks[0].task.selected_output_format, flac);
}

#[test]
fn automatic_naming_can_be_switched() {
    let mut a = app();
    a.add_task("x".to_string(), "a.wav", &names(&[])).unwrap();
    a.toggle_auto_rename("x", &names(&[]));
    assert!(!a.tasks[0].task.auto_rename);
    let mkv = MediaFormat::all().iter().position(|f| *f == MediaFormat::Video(Video::Mkv)).unwrap();
    a.change_output_format("x", mkv, &names(&[]));
    assert_eq!(a.tasks[0].task.output_path, "a_converted.mp3");
    a.toggle_auto_rename("x", &names(&["a_converted.mkv"]));
    assert!(a.tasks[0].task.auto_rename);
    assert_eq!(a.tasks[0].task.output_path, "a_converted_1.mkv");
}

#[test]
fn edited_paths_are_taken_over() {
    let mut a = app();
    a.add_task("x".to_string(), "a.wav", &names(&[])).unwrap();
    let edited = Task::new("b.wav".to_string(), "out.mp3".to_string(), MediaFormat::all(), 3, FfmpegEntry::Env);
    a.update_task("x", &edited);
    let t = &a.tasks[0].task;
    assert_eq!(t.input_path, "b.wav");
    assert_eq!(t.output_path, "out.mp3");
    assert_eq!(t.selected_output_format, 3);
    assert!(t.auto_rename);
}

#[test]
fn reports_move_the_job_forward_only() {
    let mut a = app();
    a.add_task("x".to_string(), "a.wav", &names(&[])).unwrap();
    a.add_task("y".to_string(), "b.wav", &names(&[])).unwrap();
    let p = |ppm| ProgressMsg::Progress { task_id: "x".to_string(), progress: Fraction::from_ppm(ppm) };
    a.apply_report(&p(500_000));
    a.apply_report(&p(200_000));
    assert_eq!(a.tasks[0].task.status, TaskStatus::Running);
    assert_eq!(a.tasks[0].task.progress.ppm(), 500_000);
    assert_eq!(a.tasks[1].task.status, TaskStatus::Queued);
    a.apply_report(&ProgressMsg::Error { task_id: "x".to_string(), error: "bad".to_string() });
    assert_eq!(a.tasks[0].task.status, TaskStatus::Failed);
    assert_eq!(a.tasks[0].task.progress.ppm(), 500_000);
    assert_eq!(a.tasks[0].task.error, Some("bad".to_string()));
    a.apply_report(&ProgressMsg::Done { task_id: "x".to_string() });
    assert_eq!(a.tasks[0].task.status, TaskStatus::Failed);
    a.apply_report(&ProgressMsg::Done { task_id: "y".to_string() });
    a.apply_report(&ProgressMsg::Done { task_id: "y".to_string() });
    assert_eq!(a.tasks[1].task.status, TaskStatus::Done);
    assert_eq!(a.tasks[1].task.progress.ppm(), 1_000_000);
    a.apply_report(&ProgressMsg::Done { task_id: "z".to_string() });
    assert_eq!(a.tasks.len(), 2);
}

#[test]
fn only_queued_jobs_are_started() {
    let mut a = app();
    a.add_task("x".to_string(), "a.wav", &names(&[])).unwrap();
    a.add_task("y".to_string(), "b.wav", &names(&[])).unwrap();
    a.add_task("z".to_string(), "c.wav", &names(&[])).unwrap();
    a.apply_report(&ProgressMsg::Done { task_id: "y".to_string() });
    a.change_audio_bitrate("z", Some(96));
    a.change_video_bitrate("z", Some(800));
    a.change_video_bitrate("z", None);
    a.toggle_auto_rename("x", &names(&[]));
    let mut edited = Task::new("a.wav".to_string(), "a.wav".to_string(), MediaFormat::all(), 0, FfmpegEntry::Env);
    edited.auto_rename = false;
    a.update_task("x", &edited);
    let plan = a.start_convert(true).unwrap();
    assert_eq!(plan.len(), 2);
    assert!(matches!(&plan[0], Launch::Rejected { report } if report.task_id() == "x"));
    match &plan[1] {
        Launch::Start { supervisor, args, remove_existing_output } => {
            assert_eq!(supervisor.task_id(), "z");
            assert_eq!(args, &vec!["-y", "-i", "c.wav", "-b:a", "96k", "c_converted.mp3"]);
            assert!(*remove_existing_output);
        }
        _ => panic!("the job must start"),
    }
}

#[test]
fn windows_open_and_close() {
    let mut a = app();
    assert!(!a.show_config_page && !a.show_settings_window && !a.show_format_selctor_window);
    a.toggle_config("x");
    assert!(a.show_config_page);
    assert_eq!(a.configuring_taskid, Some("x".to_string()));
    a.config_window_closing();
    assert!(!a.show_config_page);
    assert_eq!(a.configuring_taskid, None);
    a.toggle_settings_window();
    assert!(a.show_settings_window);
    a.toggle_settings_window();
    assert!(!a.show_settings_window);
    a.toggle_format_selector_window("y");
    assert!(a.show_format_selctor_window);
    assert_eq!(a.configuring_taskid, Some("y".to_string()));
    a.format_selector_window_closing();
    assert!(!a.show_format_selctor_window);
    assert_eq!(a.configuring_taskid, Some("y".to_string()));
}

#[test]
fn remove_all_drops_every_job() {
    let mut a = app();
    a.add_task("x".to_string(), "a.wav", &names(&[])).unwrap();
    a.toggle_config("x");
    a.remove_all();
    assert!(a.tasks.is_empty());
    assert!(!a.show_config_page);
    assert_eq!(a.start_convert(false).unwrap().len(), 0);
}
