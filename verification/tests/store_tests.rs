use converlex::event::{ProgressMsg, TaskStatus};
use converlex::fraction::Fraction;
use converlex::store::JobStatusStore;

fn progress(id: &str, ppm: u32) -> ProgressMsg {
    ProgressMsg::Progress { task_id: id.to_string(), progress: Fraction::from_ppm(ppm) }
}

fn done(id: &str) -> ProgressMsg {
    ProgressMsg::Done { task_id: id.to_string() }
}

fn error(id: &str, text: &str) -> ProgressMsg {
    ProgressMsg::Error { task_id: id.to_string(), error: text.to_string() }
}

#[test]
fn new_job_is_queued_with_no_progress() {
    let mut store = JobStatusStore::new();
    assert_eq!(store.len(), 0);
    assert!(store.register("a"));
    assert!(!store.register("a"));
    assert_eq!(store.len(), 1);
    assert!(store.contains("a"));
    assert!(!store.contains("b"));
    assert_eq!(store.status("a"), Some(TaskStatus::Queued));
    assert_eq!(store.progress("a").unwrap().ppm(), 0);
    assert_eq!(store.message("a"), None);
    assert_eq!(store.status("b"), None);
    assert!(store.progress("b").is_none());
}

#[test]
fn progress_makes_a_job_running() {
    let mut store = JobStatusStore::new();
    store.register("a");
    store.apply(&progress("a", 250_000));
    assert_eq!(store.status("a"), Some(TaskStatus::Running));
    assert_eq!(store.progress("a").unwrap().ppm(), 250_000);
}

#[test]
fn stored_progress_never_decreases() {
    let mut store = JobStatusStore::new();
    store.register("a");
    store.apply(&progress("a", 600_000));
    let f1 = store.progress("a").unwrap().ppm();
    store.apply(&progress("a", 400_000));
    let f2 = store.progress("a").unwrap().ppm();
    assert!(f2 >= f1);
    assert_eq!(f2, 600_000);
    store.apply(&progress("a", 700_000));
    assert_eq!(store.progress("a").unwrap().ppm(), 700_000);
}

#[test]
fn done_twice_leaves_the_job_done() {
    let mut store = JobStatusStore::new();
    store.register("a");
    store.apply(&done("a"));
    assert_eq!(store.status("a"), Some(TaskStatus::Done));
    assert_eq!(store.progress("a").unwrap().ppm(), 1_000_000);
    store.apply(&done("a"));
    assert_eq!(store.status("a"), Some(TaskStatus::Done));
    assert_eq!(store.progress("a").unwrap().ppm(), 1_000_000);
    assert_eq!(store.len(), 1);
}

#[test]
fn error_fails_the_job_and_keeps_its_progress() {
    let mut store = JobStatusStore::new();
    store.register("a");
    store.apply(&progress("a", 300_000));
    store.apply(&error("a", "boom"));
    assert_eq!(store.status("a"), Some(TaskStatus::Failed));
    assert_eq!(store.progress("a").unwrap().ppm(), 300_000);
    assert_eq!(store.message("a"), Some("boom".to_string()));
}

#[test]
fn an_ended_job_ignores_later_reports() {
    let mut store = JobStatusStore::new();
    store.register("a");
    store.apply(&error("a", "first"));
    store.apply(&done("a"));
    store.apply(&progress("a", 900_000));
    store.apply(&error("a", "second"));
    assert_eq!(store.status("a"), Some(TaskStatus::Failed));
    assert_eq!(store.progress("a").unwrap().ppm(), 0);
    assert_eq!(store.message("a"), Some("first".to_string()));
}

#[test]
fn report_about_an_unknown_job_changes_nothing() {
    let mut store = JobStatusStore::new();
    store.register("a");
    store.apply(&done("zzz"));
    assert_eq!(store.len(), 1);
    assert_eq!(store.status("a"), Some(TaskStatus::Queued));
    assert_eq!(store.status("zzz"), None);
}

#[test]
fn reports_are_routed_by_job() {
    let mut store = JobStatusStore::new();
    store.register("a");
    store.register("b");
    store.apply(&progress("b", 100_000));
    store.apply(&done("a"));
    assert_eq!(store.status("a"), Some(TaskStatus::Done));
    assert_eq!(store.status("b"), Some(TaskStatus::Running));
    assert_eq!(store.progress("b").unwrap().ppm(), 100_000);
}

#[test]
fn report_knows_its_job_and_kind() {
    assert_eq!(progress("a", 1).task_id(), "a");
    assert_eq!(done("b").task_id(), "b");
    assert_eq!(error("c", "x").task_id(), "c");
    assert!(!progress("a", 1).is_terminal());
    assert!(done("b").is_terminal());
    assert!(error("c", "x").is_terminal());
    assert!(TaskStatus::Done.is_terminal());
    assert!(TaskStatus::Failed.is_terminal());
    assert!(!TaskStatus::Queued.is_terminal());
    assert!(!TaskStatus::Running.is_terminal());
}
