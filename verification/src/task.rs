//! A job as the user sees and edits it before and while it runs.

use crate::command::{FfmpegEntry, FfmpegTask, FfmpegTaskView};
use crate::event::{is_terminal, ProgressMsg, TaskStatus};
use crate::formats::MediaFormat;
use crate::fraction::{Fraction, FULL_PPM};
use crate::output_path::{get_output_path, output_path};
use crate::store::{queued, step, JobState};
use crate::text::views;
use vstd::prelude::*;
use vstd::string::*;

verus! {

/// How a job is carried out.
#[derive(Debug)]
pub enum TaskType {
    /// By a run of the encoder.
    Ffmpeg(FfmpegTask),
}

impl TaskType {
    /// The run of the encoder.
    pub open spec fn run(self) -> FfmpegTaskView {
        match self {
            TaskType::Ffmpeg(t) => t@,
        }
    }
}

/// A job: a file to convert, where to and how, and how far it has come.
#[derive(Debug)]
pub struct Task {
    pub input_path: String,
    pub output_path: String,
    /// The formats that the input can be converted to.
    pub supported_output_formats: Vec<MediaFormat>,
    /// The index of the chosen format in `supported_output_formats`.
    pub selected_output_format: usize,
    /// Whether the output path follows the input path and the format.
    pub auto_rename: bool,
    pub progress: Fraction,
    pub task_type: TaskType,
    pub status: TaskStatus,
    /// Why the job failed.
    pub error: Option<String>,
}

/// A [`Task`] as plain values.
pub struct TaskView {
    pub input_path: Seq<char>,
    pub output_path: Seq<char>,
    pub formats: Seq<MediaFormat>,
    pub selected: usize,
    pub auto_rename: bool,
    pub run: FfmpegTaskView,
    pub state: JobState,
}

impl View for Task {
    type V = TaskView;

    open spec fn view(&self) -> TaskView {
        TaskView {
            input_path: self.input_path@,
            output_path: self.output_path@,
            formats: self.supported_output_formats@,
            selected: self.selected_output_format,
            auto_rename: self.auto_rename,
            run: self.task_type.run(),
            state: JobState {
                status: self.status,
                ppm: self.progress@,
                message: match self.error {
                    Some(e) => Some(e@),
                    None => None,
                },
            },
        }
    }
}

impl TaskView {
    /// The output path that follows from the input path and the chosen
    /// format, in a directory whose files are named `existing`.
    pub open spec fn renamed(self, existing: Seq<Seq<char>>) -> Seq<char>
        recommends
            self.selected < self.formats.len(),
    {
        output_path(
            self.input_path,
            self.formats[self.selected as int].ext_spec(),
            false,
            existing,
        )
    }

    /// The task with another format chosen. An index that is not in the
    /// list changes nothing. Where the output path follows the format, it
    /// is made anew.
    pub open spec fn with_format(self, selected: usize, existing: Seq<Seq<char>>) -> TaskView {
        if selected < self.formats.len() {
            let chosen = TaskView { selected, ..self };
            if self.auto_rename {
                TaskView { output_path: chosen.renamed(existing), ..chosen }
            } else {
                chosen
            }
        } else {
            self
        }
    }

    /// The task with automatic naming switched the other way. Where it is
    /// switched on, the output path is made anew.
    pub open spec fn toggled(self, existing: Seq<Seq<char>>) -> TaskView {
        let flipped = TaskView { auto_rename: !self.auto_rename, ..self };
        if flipped.auto_rename && self.selected < self.formats.len() {
            TaskView { output_path: flipped.renamed(existing), ..flipped }
        } else {
            flipped
        }
    }

    /// The task with the paths, the naming and the choice of another.
    pub open spec fn updated(self, other: TaskView) -> TaskView {
        TaskView {
            input_path: other.input_path,
            output_path: other.output_path,
            auto_rename: other.auto_rename,
            selected: other.selected,
            ..self
        }
    }

    /// The run of the encoder that carries the task out: the settings of
    /// the task's run, with the encoder, the paths and the chosen format of
    /// the task.
    pub open spec fn job(self, ffmpeg_entry: crate::command::FfmpegEntryView) -> FfmpegTaskView {
        FfmpegTaskView {
            ffmpeg_entry,
            input: Some(self.input_path),
            output: Some(self.output_path),
            output_format: if self.selected < self.formats.len() {
                self.formats[self.selected as int]
            } else {
                self.run.output_format
            },
            ..self.run
        }
    }
}

impl Task {
    /// A new job, queued, with automatic naming on and nothing done.
    pub fn new(
        input_path: String,
        output_path: String,
        supported_output_formats: Vec<MediaFormat>,
        selected_output_format: usize,
        ffmpeg_entry: FfmpegEntry,
    ) -> (r: Task)
        requires
            selected_output_format < supported_output_formats@.len(),
        ensures
            r@ == (TaskView {
                input_path: input_path@,
                output_path: output_path@,
                formats: supported_output_formats@,
                selected: selected_output_format,
                auto_rename: true,
                run: FfmpegTaskView {
                    ffmpeg_entry: ffmpeg_entry@,
                    input: None,
                    output: None,
                    output_format: supported_output_formats@[selected_output_format as int],
                    video_bitrate: None,
                    audio_bitrate: None,
                    resolution: None,
                    frame_rate: None,
                    sample_rate: None,
                    extra_args: Seq::empty(),
                },
                state: queued(),
            }),
    {
        let output_format = supported_output_formats[selected_output_format];
        Task {
            input_path,
            output_path,
            supported_output_formats,
            selected_output_format,
            auto_rename: true,
            progress: Fraction::zero(),
            task_type: TaskType::Ffmpeg(FfmpegTask::new(ffmpeg_entry, output_format)),
            status: TaskStatus::Queued,
            error: None,
        }
    }

    /// Chooses another output format, see [`TaskView::with_format`].
    /// `existing` holds the names of the files beside the input.
    pub fn select_output_format(&mut self, selected: usize, existing: &Vec<String>)
        ensures
            final(self)@ == old(self)@.with_format(selected, views(existing@)),
    {
        if selected >= self.supported_output_formats.len() {
            return ;
        }
        self.selected_output_format = selected;
        if self.auto_rename {
            let format = self.supported_output_formats[selected];
            let renamed = get_output_path(self.input_path.as_str(), &format, false, existing);
            self.output_path = renamed;
        }
    }

    /// Switches automatic naming the other way, see [`TaskView::toggled`].
    /// `existing` holds the names of the files beside the input.
    pub fn toggle_auto_rename(&mut self, existing: &Vec<String>)
        ensures
            final(self)@ == old(self)@.toggled(views(existing@)),
    {
        self.auto_rename = !self.auto_rename;
        if self.auto_rename && self.selected_output_format < self.supported_output_formats.len() {
            let format = self.supported_output_formats[self.selected_output_format];
            let renamed = get_output_path(self.input_path.as_str(), &format, false, existing);
            self.output_path = renamed;
        }
    }

    /// Takes over the paths, the naming and the choice of format of
    /// `other`.
    pub fn update_from(&mut self, other: &Task)
        ensures
            final(self)@ == old(self)@.updated(other@),
    {
        self.input_path = other.input_path.clone();
        self.output_path = other.output_path.clone();
        self.auto_rename = other.auto_rename;
        self.selected_output_format = other.selected_output_format;
    }

    /// Sets or clears the audio bit rate of the run, in kbit/s.
    pub fn set_audio_bitrate(&mut self, kbps: Option<u32>)
        ensures
            final(self)@ == (TaskView {
                run: FfmpegTaskView { audio_bitrate: kbps, ..old(self)@.run },
                ..old(self)@
            }),
    {
        match &mut self.task_type {
            TaskType::Ffmpeg(run) => {
                run.audio_bitrate = kbps;
            },
        }
    }

    /// Sets or clears the video bit rate of the run, in kbit/s.
    pub fn set_video_bitrate(&mut self, kbps: Option<u32>)
        ensures
            final(self)@ == (TaskView {
                run: FfmpegTaskView { video_bitrate: kbps, ..old(self)@.run },
                ..old(self)@
            }),
    {
        match &mut self.task_type {
            TaskType::Ffmpeg(run) => {
                run.video_bitrate = kbps;
            },
        }
    }

    /// Takes a report about this job: its state takes a step, see
    /// [`step`]. The progress never decreases.
    pub fn apply(&mut self, event: &ProgressMsg)
        ensures
            final(self)@ == (TaskView { state: step(old(self)@.state, event@), ..old(self)@ }),
            final(self)@.state.ppm >= old(self)@.state.ppm,
            final(self)@.state.ppm <= FULL_PPM,
    {
        let had = self.progress.ppm();
        if self.status.is_terminal() {
            return ;
        }
        match event {
            ProgressMsg::Progress { progress, .. } => {
                let reached = self.progress.max(*progress);
                let top = reached.ppm();
                self.status = TaskStatus::Running;
                self.progress = reached;
            },
            ProgressMsg::Done { .. } => {
                self.status = TaskStatus::Done;
                self.progress = Fraction::full();
            },
            ProgressMsg::Error { error, .. } => {
                self.status = TaskStatus::Failed;
                self.error = Some(error.clone());
            },
        }
    }

    /// A copy of the job that waits to be run again: queued, with nothing
    /// done and no failure. A job that has ended is never started again
    /// itself.
    pub fn resubmitted(&self) -> (r: Task)
        ensures
            r@ == (TaskView { state: queued(), ..self@ }),
    {
        let mut formats: Vec<MediaFormat> = Vec::new();
        let mut i: usize = 0;
        while i < self.supported_output_formats.len()
            invariant
                i <= self.supported_output_formats@.len(),
                formats@ =~= self.supported_output_formats@.take(i as int),
            decreases self.supported_output_formats@.len() - i,
        {
            formats.push(self.supported_output_formats[i]);
            i += 1;
        }
        assert(self.supported_output_formats@.take(i as int) =~= self.supported_output_formats@);
        Task {
            input_path: self.input_path.clone(),
            output_path: self.output_path.clone(),
            supported_output_formats: formats,
            selected_output_format: self.selected_output_format,
            auto_rename: self.auto_rename,
            progress: Fraction::zero(),
            task_type: match &self.task_type {
                TaskType::Ffmpeg(run) => TaskType::Ffmpeg(run.clone()),
            },
            status: TaskStatus::Queued,
            error: None,
        }
    }

    /// The run of the encoder `ffmpeg_entry` that carries the task out.
    pub fn job(&self, ffmpeg_entry: &FfmpegEntry) -> (r: FfmpegTask)
        ensures
            r@ == self@.job(ffmpeg_entry@),
    {
        let mut run = match &self.task_type {
            TaskType::Ffmpeg(t) => t.clone(),
        };
        run.ffmpeg_entry = ffmpeg_entry.clone();
        if self.selected_output_format < self.supported_output_formats.len() {
            run.output_format = self.supported_output_formats[self.selected_output_format];
        }
        run.input(self.input_path.as_str()).output(self.output_path.as_str())
    }
}

} // verus!
