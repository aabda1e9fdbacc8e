//! What a running job reports, and the states a job goes through.

use crate::fraction::Fraction;
use vstd::prelude::*;

verus! {

/// The state of a job: `Queued`, then `Running`, then `Done` or `Failed`.
#[derive(Clone, Copy, Debug, PartialEq, Eq, Structural)]
pub enum TaskStatus {
    Queued,
    Running,
    Done,
    Failed,
}

/// Whether a job in this state has ended.
pub open spec fn is_terminal(status: TaskStatus) -> bool {
    status == TaskStatus::Done || status == TaskStatus::Failed
}

impl TaskStatus {
    /// Whether a job in this state has ended: it is `Done` or `Failed`.
    pub fn is_terminal(&self) -> (r: bool)
        ensures
            r == is_terminal(*self),
    {
        match self {
            TaskStatus::Done => true,
            TaskStatus::Failed => true,
            _ => false,
        }
    }
}

/// A report from a running job. Every report names its job.
#[derive(Debug)]
pub enum ProgressMsg {
    /// The job has come this far.
    Progress { task_id: String, progress: Fraction },
    /// The encoder ended with success.
    Done { task_id: String },
    /// The job failed; `error` says why.
    Error { task_id: String, error: String },
}

/// A report as plain values.
pub enum ProgressMsgView {
    Progress { task_id: Seq<char>, ppm: nat },
    Done { task_id: Seq<char> },
    Error { task_id: Seq<char>, error: Seq<char> },
}

impl ProgressMsgView {
    /// The job that the report is about.
    pub open spec fn task_id(self) -> Seq<char> {
        match self {
            ProgressMsgView::Progress { task_id, .. } => task_id,
            ProgressMsgView::Done { task_id } => task_id,
            ProgressMsgView::Error { task_id, .. } => task_id,
        }
    }

    /// Whether the report ends its job.
    pub open spec fn is_terminal(self) -> bool {
        !(self is Progress)
    }
}

impl View for ProgressMsg {
    type V = ProgressMsgView;

    open spec fn view(&self) -> ProgressMsgView {
        match self {
            ProgressMsg::Progress { task_id, progress } => ProgressMsgView::Progress {
                task_id: task_id@,
                ppm: progress@,
            },
            ProgressMsg::Done { task_id } => ProgressMsgView::Done { task_id: task_id@ },
            ProgressMsg::Error { task_id, error } => ProgressMsgView::Error {
                task_id: task_id@,
                error: error@,
            },
        }
    }
}

impl Clone for ProgressMsg {
    fn clone(&self) -> (r: ProgressMsg)
        ensures
            r@ == self@,
    {
        match self {
            ProgressMsg::Progress { task_id, progress } => ProgressMsg::Progress {
                task_id: task_id.clone(),
                progress: *progress,
            },
            ProgressMsg::Done { task_id } => ProgressMsg::Done { task_id: task_id.clone() },
            ProgressMsg::Error { task_id, error } => ProgressMsg::Error {
                task_id: task_id.clone(),
                error: error.clone(),
            },
        }
    }
}

impl ProgressMsg {
    /// The job that the report is about.
    pub fn task_id(&self) -> (r: &String)
        ensures
            r@ == self@.task_id(),
    {
        match self {
            ProgressMsg::Progress { task_id, .. } => task_id,
            ProgressMsg::Done { task_id } => task_id,
            ProgressMsg::Error { task_id, .. } => task_id,
        }
    }

    /// Whether the report ends its job: it is `Done` or `Error`.
    pub fn is_terminal(&self) -> (r: bool)
        ensures
            r == self@.is_terminal(),
    {
        match self {
            ProgressMsg::Progress { .. } => false,
            _ => true,
        }
    }
}

} // verus!
