use converlex::batch::{plan_batch, prepare, Launch};
use converlex::command::{FfmpegEntry, FfmpegTask};
use converlex::error::JobError;
use converlex::event::{ProgressMsg, TaskStatus};
use converlex::formats::{Audio, MediaFormat};
use converlex::store::JobStatusStore;
use converlex::supervisor::{line_looks_like_error, ProcessOutcome, Supervisor};

fn supervisor(id: &str) -> Supervisor {
    Supervisor::new(id.to_string(), "ffmpeg".to_string(), "ffmpeg -y -i a b".to_string(), "b".to_string())
}

fn ppm_of(reports: &[ProgressMsg]) -> Vec<(String, u32)> {
    reports
        .iter()
        .map(|r| match r {
            ProgressMsg::Progress { task_id, progress } => (task_id.clone(), progress.ppm()),
            _ => panic!("a running job reports progress only"),
        })
        .collect()
}

fn job(input: &str, output: &str) -> FfmpegTask {
    FfmpegTask::new(FfmpegEntry::Env, MediaFormat::Audio(Audio::Mp3)).input(input).output(output)
}

#[test]
fn progress_is_reported_once_the_duration_is_known() {
    let mut s = supervisor("j1");
    assert!(s.feed(b"frame=1 time=00:00:01.00 bitrate=1\r").is_empty());
    assert_eq!(s.duration(), None);
    assert!(s.feed(b"  Duration: 00:00:10.00, start: 0\r").is_empty());
    assert_eq!(s.duration(), Some(10_000_000));
    let reports = s.feed(b"frame=1 time=00:00:02.50 bitrate=1\rframe=2 time=00:00:05.00 bitrate=1\r");
    assert_eq!(ppm_of(&reports), vec![("j1".to_string(), 250_000), ("j1".to_string(), 500_000)]);
}

#[test]
fn lines_may_arrive_in_pieces() {
    let mut s = supervisor("j");
    assert!(s.feed(b"Dura").is_empty());
    assert!(s.feed(b"tion: 00:00:04.00, x\rti").is_empty());
    assert!(s.feed(b"me=00:00:0").is_empty());
    let reports = s.feed(b"1.00 \rtime=00:00:03.00 \rtime=00:0");
    assert_eq!(ppm_of(&reports), vec![("j".to_string(), 250_000), ("j".to_string(), 750_000)]);
    let reports = s.feed(b"0:04.00 \r");
    assert_eq!(ppm_of(&reports), vec![("j".to_string(), 1_000_000)]);
}

#[test]
fn position_beyond_the_end_is_the_whole() {
    let mut s = supervisor("j");
    s.feed(b"Duration: 00:00:04.00, x\r");
    let reports = s.feed(b"time=00:00:09.00 \r");
    assert_eq!(ppm_of(&reports), vec![("j".to_string(), 1_000_000)]);
}

#[test]
fn first_duration_wins() {
    let mut s = supervisor("j");
    s.feed(b"Duration: N/A, x\r");
    assert_eq!(s.duration(), None);
    s.feed(b"Duration: 00:00:04.00, x\r");
    s.feed(b"Duration: 00:00:08.00, x\r");
    assert_eq!(s.duration(), Some(4_000_000));
}

#[test]
fn duration_of_zero_gives_no_progress() {
    let mut s = supervisor("j");
    s.feed(b"Duration: 00:00:00.00, x\r");
    assert_eq!(s.duration(), Some(0));
    assert!(s.feed(b"time=00:00:01.00 \r").is_empty());
}

#[test]
fn duration_line_is_never_a_progress_line() {
    let mut s = supervisor("j");
    s.feed(b"Duration: 00:00:04.00, x\r");
    assert!(s.feed(b"Duration: 00:00:04.00, time=00:00:01.00 \r").is_empty());
}

#[test]
fn malformed_lines_are_dropped() {
    let mut s = supervisor("j");
    s.feed(b"Duration: 00:00:04.00, x\r");
    assert!(s.feed(b"time=1:2 \r").is_empty());
    assert!(s.feed(b"time=N/A \r").is_empty());
    assert!(s.feed(b"time=00:00:01.00\r").len() == 1);
    assert!(s.feed(b"\xff\xfe time=00:00:01.00 \r").is_empty());
    assert!(s.feed(b"nothing\n at\n all\r").is_empty());
}

#[test]
fn success_ends_with_done() {
    let mut s = supervisor("j");
    s.feed(b"Duration: 00:00:04.00, x\r");
    let report = s.finish(ProcessOutcome::Exited { code: Some(0) });
    assert!(matches!(report, ProgressMsg::Done { task_id } if task_id == "j"));
}

#[test]
fn failure_carries_the_status_and_the_error_lines() {
    let mut s = supervisor("j");
    s.feed(b"all fine\rError opening input\rstill fine\rsome ERR here\r no end");
    let report = s.finish(ProcessOutcome::Exited { code: Some(1) });
    match report {
        ProgressMsg::Error { task_id, error } => {
            assert_eq!(task_id, "j");
            assert_eq!(
                error,
                "ffmpeg exited with status 1\nFull stderr:\nError opening input\rsome ERR here\r"
            );
        }
        _ => panic!("a failed run ends with an error"),
    }
}

#[test]
fn other_outcomes_end_with_their_error() {
    let text = |outcome: ProcessOutcome| match supervisor("j").finish(outcome) {
        ProgressMsg::Error { task_id, error } => {
            assert_eq!(task_id, "j");
            error
        }
        _ => panic!("a failed run ends with an error"),
    };
    assert_eq!(text(ProcessOutcome::Exited { code: None }), "ffmpeg exited with status unknown\nFull stderr:\n");
    assert_eq!(text(ProcessOutcome::Exited { code: Some(-9) }), "ffmpeg exited with status -9\nFull stderr:\n");
    assert_eq!(
        text(ProcessOutcome::Exited { code: Some(i32::MIN) }),
        "ffmpeg exited with status -2147483648\nFull stderr:\n"
    );
    assert_eq!(text(ProcessOutcome::BinaryNotFound), "Encoder not found: ffmpeg");
    assert_eq!(
        text(ProcessOutcome::SpawnFailed { reason: "denied".to_string() }),
        "Failed to spawn ffmpeg process: denied\nCommand: ffmpeg -y -i a b"
    );
    assert_eq!(
        text(ProcessOutcome::RemovalFailed { reason: "busy".to_string() }),
        "Cannot remove the existing output b: busy"
    );
    assert_eq!(text(ProcessOutcome::StreamFailed { reason: "eof".to_string() }), "Lost contact with ffmpeg: eof");
    assert_eq!(text(ProcessOutcome::Cancelled), "Cancelled");
}

#[test]
fn error_marker_is_found_in_any_case() {
    assert!(line_looks_like_error(b"Error"));
    assert!(line_looks_like_error(b"xxERRxx"));
    assert!(line_looks_like_error(b"stderr"));
    assert!(line_looks_like_error(b"eRr"));
    assert!(!line_looks_like_error(b"er r"));
    assert!(!line_looks_like_error(b"er"));
    assert!(!line_looks_like_error(b""));
    assert!(!line_looks_like_error(b"e\xd2r"));
}

#[test]
fn messages_of_the_failures() {
    assert_eq!(
        JobError::PathCollisionUnresolved { path: "a.mp3".to_string() }.message(),
        "Input and output are the same file: a.mp3"
    );
    assert_eq!(JobError::InvalidConfig { reason: "why".to_string() }.message(), "Invalid config: why");
    assert_eq!(
        JobError::NonZeroExit { code: Some(0), diagnostics: "d".to_string() }.message(),
        "ffmpeg exited with status 0\nFull stderr:\nd"
    );
}

#[test]
fn job_that_writes_over_its_input_is_rejected() {
    match prepare("j", &job("same.mp3", "same.mp3"), true) {
        Launch::Rejected { report } => match report {
            ProgressMsg::Error { task_id, error } => {
                assert_eq!(task_id, "j");
                assert_eq!(error, "Input and output are the same file: same.mp3");
            }
            _ => panic!("a rejected job is answered with an error"),
        },
        Launch::Start { .. } => panic!("the job must not start"),
    }
}

#[test]
fn job_without_input_or_output_is_rejected() {
    let bare = FfmpegTask::new(FfmpegEntry::Env, MediaFormat::Audio(Audio::Mp3));
    match prepare("j", &bare, false) {
        Launch::Rejected { report: ProgressMsg::Error { task_id, error } } => {
            assert_eq!(task_id, "j");
            assert_eq!(error, "Invalid config: Missing input path");
        }
        _ => panic!("the job must not start"),
    }
    match prepare("j", &bare.input("i"), false) {
        Launch::Rejected { report: ProgressMsg::Error { error, .. } } => {
            assert_eq!(error, "Invalid config: Missing output path");
        }
        _ => panic!("the job must not start"),
    }
}

#[test]
fn sound_job_is_started_with_its_command_line() {
    match prepare("j", &job("a.wav", "a_converted.mp3").audio_bitrate(Some(192)), true) {
        Launch::Start { supervisor, args, remove_existing_output } => {
            assert_eq!(args, vec!["-y", "-i", "a.wav", "-b:a", "192k", "a_converted.mp3"]);
            assert!(remove_existing_output);
            assert_eq!(supervisor.task_id(), "j");
            assert_eq!(supervisor.program(), "ffmpeg");
            assert_eq!(supervisor.output(), "a_converted.mp3");
            match supervisor.finish(ProcessOutcome::SpawnFailed { reason: "r".to_string() }) {
                ProgressMsg::Error { error, .. } => assert_eq!(
                    error,
                    "Failed to spawn ffmpeg process: r\nCommand: ffmpeg -y -i a.wav -b:a 192k a_converted.mp3"
                ),
                _ => panic!("a failed run ends with an error"),
            }
        }
        Launch::Rejected { .. } => panic!("the job must start"),
    }
}

#[test]
fn one_bad_job_does_not_stop_the_others() {
    let tasks = vec![
        ("1".to_string(), job("a.wav", "a.mp3")),
        ("2".to_string(), job("b.wav", "b.mp3")),
        ("3".to_string(), job("c.wav", "c.mp3")),
    ];
    let mut store = JobStatusStore::new();
    for (id, _) in &tasks {
        store.register(id);
    }
    let plan = plan_batch(&tasks, false);
    assert_eq!(plan.len(), 3);
    let mut sent: Vec<ProgressMsg> = Vec::new();
    for launch in plan {
        match launch {
            Launch::Rejected { report } => sent.push(report),
            Launch::Start { mut supervisor, .. } => {
                if supervisor.task_id() == "2" {
                    sent.push(supervisor.finish(ProcessOutcome::BinaryNotFound));
                } else {
                    sent.extend(supervisor.feed(b"Duration: 00:00:02.00, x\rtime=00:00:01.00 \r"));
                    sent.push(supervisor.finish(ProcessOutcome::Exited { code: Some(0) }));
                }
            }
        }
    }
    let done = sent.iter().filter(|m| matches!(m, ProgressMsg::Done { .. })).count();
    let errors = sent.iter().filter(|m| matches!(m, ProgressMsg::Error { .. })).count();
    assert_eq!(done, 2);
    assert_eq!(errors, 1);
    let at = sent.iter().position(|m| matches!(m, ProgressMsg::Error { task_id, .. } if task_id == "2")).unwrap();
    assert!(sent[at + 1..].iter().all(|m| m.task_id() != "2"));
    for m in &sent {
        store.apply(m);
    }
    assert_eq!(store.status("1"), Some(TaskStatus::Done));
    assert_eq!(store.status("2"), Some(TaskStatus::Failed));
    assert_eq!(store.status("3"), Some(TaskStatus::Done));
    assert_eq!(store.message("2"), Some("Encoder not found: ffmpeg".to_string()));
}

#[test]
fn batch_answers_every_job_in_order() {
    let tasks = vec![
        ("1".to_string(), job("a.wav", "a.mp3")),
        ("2".to_string(), job("same", "same")),
        ("3".to_string(), FfmpegTask::new(FfmpegEntry::Env, MediaFormat::Audio(Audio::Mp3))),
    ];
    let plan = plan_batch(&tasks, true);
    assert_eq!(plan.len(), 3);
    assert!(matches!(&plan[0], Launch::Start { supervisor, .. } if supervisor.task_id() == "1"));
    assert!(matches!(&plan[1], Launch::Rejected { report } if report.task_id() == "2"));
    assert!(matches!(&plan[2], Launch::Rejected { report } if report.task_id() == "3"));
    assert!(plan_batch(&Vec::new(), true).is_empty());
}
