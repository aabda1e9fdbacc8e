//! Getting the jobs of a batch ready to run.
//!
//! Each job is looked at on its own: one that cannot run is answered with
//! the report of its failure and holds up no other.

use crate::command::{command_args, FfmpegTask, FfmpegTaskView};
use crate::error::{JobError, JobErrorView};
use crate::event::{ProgressMsg, ProgressMsgView};
use crate::supervisor::{Supervisor, SupervisorView};
use crate::text::{join, joined, str_eq, views};
use vstd::prelude::*;
use vstd::string::*;

verus! {

/// What to do with a job.
pub enum Launch {
    /// Run the encoder with these arguments under this supervisor. Where
    /// `remove_existing_output` is set, a file in the place of the output
    /// is removed first.
    Start { supervisor: Supervisor, args: Vec<String>, remove_existing_output: bool },
    /// Do not run it: send this report instead.
    Rejected { report: ProgressMsg },
}

/// The command line as it is shown: the program and its arguments with
/// spaces between them.
pub open spec fn command_line(program: Seq<char>, args: Seq<Seq<char>>) -> Seq<char> {
    program + " "@ + joined(args, " "@)
}

/// Why a job cannot run: it lacks its input or its output, or it would
/// write over its input.
pub open spec fn rejection(t: FfmpegTaskView) -> Option<JobErrorView> {
    if t.input is None {
        Some(JobErrorView::InvalidConfig { reason: "Missing input path"@ })
    } else if t.output is None {
        Some(JobErrorView::InvalidConfig { reason: "Missing output path"@ })
    } else if t.input.unwrap() == t.output.unwrap() {
        Some(JobErrorView::PathCollisionUnresolved { path: t.output.unwrap() })
    } else {
        None
    }
}

/// The supervisor that a job starts with.
pub open spec fn fresh_supervisor(task_id: Seq<char>, t: FfmpegTaskView) -> SupervisorView
    recommends
        t.input is Some,
        t.output is Some,
{
    SupervisorView {
        task_id,
        program: t.ffmpeg_entry.program(),
        command: command_line(t.ffmpeg_entry.program(), command_args(t)),
        output: t.output.unwrap(),
        pending: Seq::empty(),
        duration: None,
        diagnostics: Seq::empty(),
    }
}

/// Whether `launch` is what is to be done with the job `task_id`.
pub open spec fn launch_of(launch: Launch, task_id: Seq<char>, t: FfmpegTaskView, overwrite: bool) -> bool {
    match launch {
        Launch::Start { supervisor, args, remove_existing_output } => {
            &&& rejection(t) is None
            &&& supervisor@ == fresh_supervisor(task_id, t)
            &&& views(args@) == command_args(t)
            &&& remove_existing_output == overwrite
        },
        Launch::Rejected { report } => {
            &&& rejection(t) is Some
            &&& report@ == ProgressMsgView::Error {
                task_id,
                error: rejection(t).unwrap().message(),
            }
        },
    }
}

/// A job whose output is its input is never started.
pub proof fn lemma_identity_rejected(
    launch: Launch,
    task_id: Seq<char>,
    t: FfmpegTaskView,
    overwrite: bool,
)
    requires
        launch_of(launch, task_id, t, overwrite),
        t.input is Some,
        t.input == t.output,
    ensures
        launch is Rejected,
        launch->report@.is_terminal(),
{
}

/// Looks at one job before it runs. A job that lacks its input or its
/// output, or whose output is its input, is rejected with the report of
/// that failure. Any other job is to be started; `overwrite` says whether
/// a file in the place of its output may be removed for it.
pub fn prepare(task_id: &str, task: &FfmpegTask, overwrite: bool) -> (launch: Launch)
    ensures
        launch_of(launch, task_id@, task@, overwrite),
{
    let program = task.ffmpeg_entry.to_string();
    match task.clone().build() {
        Err(reason) => {
            let failure = JobError::InvalidConfig { reason };
            Launch::Rejected {
                report: ProgressMsg::Error {
                    task_id: String::from_str(task_id),
                    error: failure.message(),
                },
            }
        },
        Ok((output, args)) => {
            let same = match &task.input {
                Some(input) => str_eq(input.as_str(), output.as_str()),
                None => false,
            };
            if same {
                let failure = JobError::PathCollisionUnresolved { path: output };
                Launch::Rejected {
                    report: ProgressMsg::Error {
                        task_id: String::from_str(task_id),
                        error: failure.message(),
                    },
                }
            } else {
                let mut command = program.clone();
                command.append(" ");
                let shown = join(&args, " ");
                command.append(shown.as_str());
                Launch::Start {
                    supervisor: Supervisor::new(
                        String::from_str(task_id),
                        program,
                        command,
                        output,
                    ),
                    args,
                    remove_existing_output: overwrite,
                }
            }
        },
    }
}

/// Looks at every job of a batch, in order: the `i`th answer is for the
/// `i`th job.
pub fn plan_batch(tasks: &Vec<(String, FfmpegTask)>, overwrite: bool) -> (plan: Vec<Launch>)
    ensures
        plan@.len() == tasks@.len(),
        forall|i: int|
            0 <= i < tasks@.len() ==> launch_of(
                #[trigger] plan@[i],
                tasks@[i].0@,
                tasks@[i].1@,
                overwrite,
            ),
{
    let mut plan: Vec<Launch> = Vec::new();
    let mut i: usize = 0;
    while i < tasks.len()
        invariant
            i <= tasks@.len(),
            plan@.len() == i,
            forall|j: int|
                0 <= j < i ==> launch_of(#[trigger] plan@[j], tasks@[j].0@, tasks@[j].1@, overwrite),
        decreases tasks@.len() - i,
    {
        let launch = prepare(tasks[i].0.as_str(), &tasks[i].1, overwrite);
        plan.push(launch);
        i += 1;
    }
    plan
}

} // verus!
