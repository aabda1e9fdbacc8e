//! The jobs of the application and what it shows, and how both change with
//! what the user does and what the running jobs report.

use crate::app_event::{AppEvent, Effect};
use crate::batch::{launch_of, prepare, Launch};
use crate::command::{FfmpegEntry, FfmpegEntryView, FfmpegTaskView};
use crate::event::{ProgressMsg, ProgressMsgView, TaskStatus};
use crate::formats::{normal_ext, MediaFormat};
use crate::output_path::{get_output_path, output_path};
use crate::paths::{extension_or_empty, get_file_extension};
use crate::settings::{entry_view, AppSettings};
use crate::store::step;
use crate::task::{Task, TaskView};
use crate::text::{str_eq, views};
use vstd::prelude::*;
use vstd::string::*;

verus! {

/// A job under its name.
#[derive(Debug)]
pub struct TaskEntry {
    pub id: String,
    pub task: Task,
}

/// The state of the application.
#[derive(Debug)]
pub struct AppData {
    /// The jobs in the order in which they are shown.
    pub tasks: Vec<TaskEntry>,
    pub show_config_page: bool,
    /// The job whose settings are shown.
    pub configuring_taskid: Option<String>,
    pub settings: AppSettings,
    pub show_settings_window: bool,
    pub show_format_selctor_window: bool,
}

/// An [`AppData`] as plain values.
pub struct AppDataView {
    pub tasks: Seq<(Seq<char>, TaskView)>,
    pub show_config_page: bool,
    pub configuring_taskid: Option<Seq<char>>,
    pub ffmpeg_entry: Option<FfmpegEntryView>,
    pub show_settings_window: bool,
    pub show_format_selctor_window: bool,
}

/// The jobs of a list as plain values.
pub open spec fn entry_views(entries: Seq<TaskEntry>) -> Seq<(Seq<char>, TaskView)> {
    entries.map_values(|e: TaskEntry| (e.id@, e.task@))
}

impl View for AppData {
    type V = AppDataView;

    open spec fn view(&self) -> AppDataView {
        AppDataView {
            tasks: entry_views(self.tasks@),
            show_config_page: self.show_config_page,
            configuring_taskid: match self.configuring_taskid {
                Some(id) => Some(id@),
                None => None,
            },
            ffmpeg_entry: entry_view(self.settings.ffmpeg_entry),
            show_settings_window: self.show_settings_window,
            show_format_selctor_window: self.show_format_selctor_window,
        }
    }
}

/// Why a file was not taken as a job.
#[derive(Clone, Copy, Debug, PartialEq, Eq, Structural)]
pub enum AddTaskError {
    /// The extension of the file names no format that can be converted.
    UnsupportedFormat,
    /// The settings do not say where the encoder is.
    EncoderUnknown,
}

/// The index of the first job named `id`.
pub open spec fn position(tasks: Seq<(Seq<char>, TaskView)>, id: Seq<char>) -> Option<int>
    decreases tasks.len(),
{
    if tasks.len() == 0 {
        None
    } else {
        match position(tasks.drop_last(), id) {
            Some(i) => Some(i),
            None => if tasks.last().0 == id {
                Some(tasks.len() - 1)
            } else {
                None
            },
        }
    }
}

/// The first job named `id` is at the index that `position` gives, and
/// there is none where it gives none.
pub proof fn lemma_position(tasks: Seq<(Seq<char>, TaskView)>, id: Seq<char>)
    ensures
        match position(tasks, id) {
            Some(i) => 0 <= i < tasks.len() && tasks[i].0 == id && forall|j: int|
                0 <= j < i ==> tasks[j].0 != id,
            None => forall|j: int| 0 <= j < tasks.len() ==> tasks[j].0 != id,
        },
    decreases tasks.len(),
{
    if tasks.len() > 0 {
        let front = tasks.drop_last();
        lemma_position(front, id);
        assert forall|j: int| 0 <= j < front.len() implies front[j] == tasks[j] by {}
        match position(front, id) {
            Some(i) => {
                assert(front[i] == tasks[i]);
                assert forall|j: int| 0 <= j < i implies tasks[j].0 != id by {
                    assert(front[j] == tasks[j]);
                }
            },
            None => {
                assert forall|j: int| 0 <= j < tasks.len() - 1 implies tasks[j].0 != id by {
                    assert(front[j] == tasks[j]);
                }
            },
        }
    }
}

/// A job found among the first jobs of a list is the one found in the
/// whole list.
proof fn lemma_position_stable(tasks: Seq<(Seq<char>, TaskView)>, id: Seq<char>, k: int)
    requires
        0 <= k <= tasks.len(),
        position(tasks.take(k), id) is Some,
    ensures
        position(tasks, id) == position(tasks.take(k), id),
    decreases tasks.len() - k,
{
    if k == tasks.len() {
        assert(tasks.take(k) =~= tasks);
    } else {
        assert(tasks.take(k + 1).drop_last() =~= tasks.take(k));
        lemma_position_stable(tasks, id, k + 1);
    }
}

/// The jobs with the first one named `id` replaced; unchanged where there
/// is none.
pub open spec fn with_task(tasks: Seq<(Seq<char>, TaskView)>, id: Seq<char>, task: TaskView) -> Seq<
    (Seq<char>, TaskView),
> {
    match position(tasks, id) {
        Some(i) => tasks.update(i, (tasks[i].0, task)),
        None => tasks,
    }
}

/// The jobs with one more: it takes the place of the first job of the same
/// name, or the last place where there is none.
pub open spec fn with_added(tasks: Seq<(Seq<char>, TaskView)>, id: Seq<char>, task: TaskView) -> Seq<
    (Seq<char>, TaskView),
> {
    match position(tasks, id) {
        Some(i) => tasks.update(i, (id, task)),
        None => tasks.push((id, task)),
    }
}

/// The job that a file starts as: queued, named automatically, to be
/// converted to the first of all formats.
pub open spec fn new_task(path: Seq<char>, existing: Seq<Seq<char>>, entry: FfmpegEntryView) -> TaskView {
    let formats = MediaFormat::all_spec();
    TaskView {
        input_path: path,
        output_path: output_path(path, formats[0].ext_spec(), false, existing),
        formats,
        selected: 0,
        auto_rename: true,
        run: FfmpegTaskView {
            ffmpeg_entry: entry,
            input: None,
            output: None,
            output_format: formats[0],
            video_bitrate: None,
            audio_bitrate: None,
            resolution: None,
            frame_rate: None,
            sample_rate: None,
            extra_args: Seq::empty(),
        },
        state: crate::store::queued(),
    }
}

/// Why a file is not taken as a job, if it is not.
pub open spec fn add_task_error(path: Seq<char>, entry: Option<FfmpegEntryView>) -> Option<
    AddTaskError,
> {
    if MediaFormat::with_ext(normal_ext(extension_or_empty(path))) is None {
        Some(AddTaskError::UnsupportedFormat)
    } else if entry is None {
        Some(AddTaskError::EncoderUnknown)
    } else {
        None
    }
}

/// The jobs that wait to be run, in the order in which they are shown,
/// each with the run of the encoder that carries it out.
pub open spec fn queued_jobs(tasks: Seq<(Seq<char>, TaskView)>, entry: FfmpegEntryView) -> Seq<
    (Seq<char>, FfmpegTaskView),
>
    decreases tasks.len(),
{
    if tasks.len() == 0 {
        Seq::empty()
    } else {
        let before = queued_jobs(tasks.drop_last(), entry);
        if tasks.last().1.state.status == TaskStatus::Queued {
            before.push((tasks.last().0, tasks.last().1.job(entry)))
        } else {
            before
        }
    }
}

impl AppDataView {
    /// The first job named `id`, if there is one.
    pub open spec fn task(self, id: Seq<char>) -> Option<TaskView> {
        match position(self.tasks, id) {
            Some(i) => Some(self.tasks[i].1),
            None => None,
        }
    }

    /// The state with the first job named `id` replaced by `task`.
    pub open spec fn with_task(self, id: Seq<char>, task: TaskView) -> AppDataView {
        AppDataView { tasks: with_task(self.tasks, id, task), ..self }
    }

    /// After a file was taken as the job `id`.
    pub open spec fn added(self, id: Seq<char>, path: Seq<char>, existing: Seq<Seq<char>>) -> AppDataView
        recommends
            self.ffmpeg_entry is Some,
    {
        AppDataView {
            tasks: with_added(self.tasks, id, new_task(path, existing, self.ffmpeg_entry.unwrap())),
            ..self
        }
    }

    /// After every job was dropped.
    pub open spec fn cleared(self) -> AppDataView {
        AppDataView { tasks: Seq::empty(), show_config_page: false, ..self }
    }

    /// After another format was chosen for the job `id`.
    pub open spec fn format_changed(
        self,
        id: Seq<char>,
        selected: usize,
        existing: Seq<Seq<char>>,
    ) -> AppDataView {
        match self.task(id) {
            Some(t) => self.with_task(id, t.with_format(selected, existing)),
            None => self,
        }
    }

    /// After automatic naming of the job `id` was switched.
    pub open spec fn auto_rename_toggled(self, id: Seq<char>, existing: Seq<Seq<char>>) -> AppDataView {
        match self.task(id) {
            Some(t) => self.with_task(id, t.toggled(existing)),
            None => self,
        }
    }

    /// After the job `id` took over what was edited in `other`.
    pub open spec fn task_updated(self, id: Seq<char>, other: TaskView) -> AppDataView {
        match self.task(id) {
            Some(t) => self.with_task(id, t.updated(other)),
            None => self,
        }
    }

    /// After a report of a running job.
    pub open spec fn reported(self, event: crate::event::ProgressMsgView) -> AppDataView {
        match self.task(event.task_id()) {
            Some(t) => self.with_task(
                event.task_id(),
                TaskView { state: step(t.state, event), ..t },
            ),
            None => self,
        }
    }

    /// After the audio bit rate of the job `id` was set or cleared.
    pub open spec fn audio_bitrate_changed(self, id: Seq<char>, kbps: Option<u32>) -> AppDataView {
        match self.task(id) {
            Some(t) => self.with_task(
                id,
                TaskView { run: FfmpegTaskView { audio_bitrate: kbps, ..t.run }, ..t },
            ),
            None => self,
        }
    }

    /// After the video bit rate of the job `id` was set or cleared.
    pub open spec fn video_bitrate_changed(self, id: Seq<char>, kbps: Option<u32>) -> AppDataView {
        match self.task(id) {
            Some(t) => self.with_task(
                id,
                TaskView { run: FfmpegTaskView { video_bitrate: kbps, ..t.run }, ..t },
            ),
            None => self,
        }
    }

    /// After the page of settings was opened for the job `id`.
    pub open spec fn config_opened(self, id: Seq<char>) -> AppDataView {
        AppDataView { show_config_page: true, configuring_taskid: Some(id), ..self }
    }

    /// After the page of settings of a job was closed.
    pub open spec fn config_closed(self) -> AppDataView {
        AppDataView { show_config_page: false, configuring_taskid: None, ..self }
    }

    /// After the window of the settings was opened or closed.
    pub open spec fn settings_toggled(self) -> AppDataView {
        AppDataView { show_settings_window: !self.show_settings_window, ..self }
    }

    /// After the place of the encoder was set or forgotten.
    pub open spec fn entry_changed(self, entry: Option<FfmpegEntryView>) -> AppDataView {
        AppDataView { ffmpeg_entry: entry, ..self }
    }

    /// After the window for choosing a format was opened for the job `id`.
    pub open spec fn selector_opened(self, id: Seq<char>) -> AppDataView {
        AppDataView { show_format_selctor_window: true, configuring_taskid: Some(id), ..self }
    }

    /// After the window for choosing a format was closed.
    pub open spec fn selector_closed(self) -> AppDataView {
        AppDataView { show_format_selctor_window: false, ..self }
    }
}

/// Whether `plan` answers the jobs that wait: one answer for each, in the
/// order in which the jobs are shown, each as [`launch_of`] asks.
pub open spec fn plan_of(view: AppDataView, overwrite: bool, plan: Seq<Launch>) -> bool
    recommends
        view.ffmpeg_entry is Some,
{
    let jobs = queued_jobs(view.tasks, view.ffmpeg_entry.unwrap());
    &&& plan.len() == jobs.len()
    &&& forall|i: int|
        0 <= i < jobs.len() ==> launch_of(#[trigger] plan[i], jobs[i].0, jobs[i].1, overwrite)
}

/// What a job's end is reported as: `Done`, or `Error` with the text.
pub open spec fn end_report(task_id: Seq<char>, failure: Option<String>) -> ProgressMsgView {
    match failure {
        None => ProgressMsgView::Done { task_id },
        Some(error) => ProgressMsgView::Error { task_id, error: error@ },
    }
}

/// Whether `after` and `effect` are what `event` leads to from `before`.
pub open spec fn event_outcome(
    before: AppDataView,
    event: AppEvent,
    after: AppDataView,
    effect: Effect,
) -> bool {
    match event {
        AppEvent::AddTask { path, existing } => match effect {
            Effect::Added(id) => add_task_error(path@, before.ffmpeg_entry) is None && after
                == before.added(id@, path@, views(existing@)),
            Effect::Refused(e) => add_task_error(path@, before.ffmpeg_entry) == Some(e) && after
                == before,
            _ => false,
        },
        AppEvent::StartConvert { overwrite } => after == before && match effect {
            Effect::Started(plan) => before.ffmpeg_entry is Some && plan_of(
                before,
                overwrite,
                plan@,
            ),
            Effect::EncoderUnknown => before.ffmpeg_entry is None,
            _ => false,
        },
        _ => effect is Nothing && after == match event {
            AppEvent::RemoveAll => before.cleared(),
            AppEvent::ChangeOutputFormat { task_id, selected, existing } => before.format_changed(
                task_id@,
                selected,
                views(existing@),
            ),
            AppEvent::ToggleConifg(id) => before.config_opened(id@),
            AppEvent::ToggleAutoRename { task_id, existing } => before.auto_rename_toggled(
                task_id@,
                views(existing@),
            ),
            AppEvent::UpdateTask(id, task) => before.task_updated(id@, task@),
            AppEvent::ConfigWindowClosing => before.config_closed(),
            AppEvent::UpdateProgress(id, progress) => before.reported(
                ProgressMsgView::Progress { task_id: id@, ppm: progress@ },
            ),
            AppEvent::MarkDone(id, failure) => before.reported(end_report(id@, failure)),
            AppEvent::UpdateFfmpegEntry(entry) => before.entry_changed(entry_view(entry)),
            AppEvent::ToggleSettingsWindow => before.settings_toggled(),
            AppEvent::ToggleFormatSelectorWindow(id) => before.selector_opened(id@),
            AppEvent::FormatSelectorWindowClosing => before.selector_closed(),
            AppEvent::ChangeAudioBitrate(id, kbps) => before.audio_bitrate_changed(id@, kbps),
            AppEvent::ChangeVideoBitrate(id, kbps) => before.video_bitrate_changed(id@, kbps),
            _ => before,
        },
    }
}

/// Calls `Uuid::new_v4` of the crate `uuid` and gives the identifier as
/// text. The identifier is random, so nothing is said of its characters
/// but their number: the text has the 36 characters of the hyphenated
/// form. The call ends the program where the system gives no random bytes.
#[verifier::external_body]
fn fresh_task_id() -> (r: String)
    ensures
        r@.len() == 36,
{
    uuid::Uuid::new_v4().to_string()
}

impl AppData {
    /// An application without jobs, with every window closed.
    pub fn new(settings: AppSettings) -> (r: AppData)
        ensures
            r@ == (AppDataView {
                tasks: Seq::empty(),
                show_config_page: false,
                configuring_taskid: None,
                ffmpeg_entry: entry_view(settings.ffmpeg_entry),
                show_settings_window: false,
                show_format_selctor_window: false,
            }),
    {
        let r = AppData {
            tasks: Vec::new(),
            show_config_page: false,
            configuring_taskid: None,
            settings,
            show_settings_window: false,
            show_format_selctor_window: false,
        };
        assert(entry_views(r.tasks@) =~= Seq::empty());
        r
    }

    /// The index of the first job named `id`.
    pub fn find(&self, id: &str) -> (r: Option<usize>)
        ensures
            match r {
                Some(i) => position(self@.tasks, id@) == Some(i as int) && i < self.tasks@.len(),
                None => position(self@.tasks, id@) is None,
            },
    {
        let ghost all = entry_views(self.tasks@);
        let mut i: usize = 0;
        assert(all.take(0) =~= Seq::empty());
        while i < self.tasks.len()
            invariant
                i <= self.tasks@.len(),
                all == entry_views(self.tasks@),
                position(all.take(i as int), id@) is None,
            decreases self.tasks@.len() - i,
        {
            assert(all.take(i + 1).drop_last() =~= all.take(i as int));
            proof {
                lemma_position_extends(all, id@, i + 1);
            }
            if str_eq(self.tasks[i].id.as_str(), id) {
                proof {
                    lemma_position_stable(all, id@, i + 1);
                }
                return Some(i);
            }
            i += 1;
        }
        assert(all.take(i as int) =~= all);
        None
    }

    /// Takes a file as a new job named `id`, see [`new_task`]. `existing`
    /// holds the names of the files beside it. A file whose extension names
    /// no format is not taken, nor any file while the encoder is unknown.
    pub fn add_task(&mut self, id: String, path: &str, existing: &Vec<String>) -> (r: Result<
        (),
        AddTaskError,
    >)
        ensures
            match r {
                Ok(()) => add_task_error(path@, old(self)@.ffmpeg_entry) is None && final(self)@
                    == old(self)@.added(id@, path@, views(existing@)),
                Err(e) => add_task_error(path@, old(self)@.ffmpeg_entry) == Some(e) && final(self)@
                    == old(self)@,
            },
    {
        let extension = get_file_extension(path);
        if MediaFormat::new(extension.as_str()).is_none() {
            return Err(AddTaskError::UnsupportedFormat);
        }
        let entry = match &self.settings.ffmpeg_entry {
            Some(e) => e.clone(),
            None => {
                return Err(AddTaskError::EncoderUnknown);
            },
        };
        let formats = MediaFormat::all();
        proof {
            lemma_first_format();
        }
        let first = formats[0];
        let output = get_output_path(path, &first, false, existing);
        let task = Task::new(String::from_str(path), output, formats, 0, entry);
        let ghost before = entry_views(self.tasks@);
        match self.find(id.as_str()) {
            Some(i) => {
                let ghost shown = (id@, task@);
                self.tasks.set(i, TaskEntry { id, task });
                assert(entry_views(self.tasks@) =~= before.update(i as int, shown));
            },
            None => {
                let ghost shown = (id@, task@);
                self.tasks.push(TaskEntry { id, task });
                assert(entry_views(self.tasks@) =~= before.push(shown));
            },
        }
        Ok(())
    }

    /// Takes a file as a new job under a fresh random name and gives the
    /// name, see [`AppData::add_task`].
    pub fn add_new_task(&mut self, path: &str, existing: &Vec<String>) -> (r: Result<
        String,
        AddTaskError,
    >)
        ensures
            match r {
                Ok(id) => add_task_error(path@, old(self)@.ffmpeg_entry) is None && final(self)@
                    == old(self)@.added(id@, path@, views(existing@)),
                Err(e) => add_task_error(path@, old(self)@.ffmpeg_entry) == Some(e) && final(self)@
                    == old(self)@,
            },
    {
        let id = fresh_task_id();
        match self.add_task(id.clone(), path, existing) {
            Ok(()) => Ok(id),
            Err(e) => Err(e),
        }
    }

    /// Drops every job and closes the page of settings of a job.
    pub fn remove_all(&mut self)
        ensures
            final(self)@ == old(self)@.cleared(),
    {
        self.tasks.clear();
        self.show_config_page = false;
        assert(entry_views(self.tasks@) =~= Seq::empty());
    }

    /// Chooses another output format for the job `id`, see
    /// [`TaskView::with_format`]. `existing` holds the names of the files
    /// beside the job's input. Nothing changes where no job has that name.
    pub fn change_output_format(&mut self, id: &str, selected: usize, existing: &Vec<String>)
        ensures
            final(self)@ == old(self)@.format_changed(id@, selected, views(existing@)),
    {
        let ghost before = entry_views(self.tasks@);
        if let Some(i) = self.find(id) {
            self.tasks[i].task.select_output_format(selected, existing);
            assert(entry_views(self.tasks@) =~= before.update(
                i as int,
                (before[i as int].0, before[i as int].1.with_format(selected, views(existing@))),
            ));
        }
    }

    /// Switches automatic naming of the job `id` the other way, see
    /// [`TaskView::toggled`]. `existing` holds the names of the files beside
    /// the job's input. Nothing changes where no job has that name.
    pub fn toggle_auto_rename(&mut self, id: &str, existing: &Vec<String>)
        ensures
            final(self)@ == old(self)@.auto_rename_toggled(id@, views(existing@)),
    {
        let ghost before = entry_views(self.tasks@);
        if let Some(i) = self.find(id) {
            self.tasks[i].task.toggle_auto_rename(existing);
            assert(entry_views(self.tasks@) =~= before.update(
                i as int,
                (before[i as int].0, before[i as int].1.toggled(views(existing@))),
            ));
        }
    }

    /// Gives the job `id` the paths, the naming and the choice of format of
    /// `task`. Nothing changes where no job has that name.
    pub fn update_task(&mut self, id: &str, task: &Task)
        ensures
            final(self)@ == old(self)@.task_updated(id@, task@),
    {
        let ghost before = entry_views(self.tasks@);
        if let Some(i) = self.find(id) {
            self.tasks[i].task.update_from(task);
            assert(entry_views(self.tasks@) =~= before.update(
                i as int,
                (before[i as int].0, before[i as int].1.updated(task@)),
            ));
        }
    }

    /// Takes a report of a running job: the first job of that name takes a
    /// step, see [`step`]. A report about an unknown job changes nothing.
    pub fn apply_report(&mut self, event: &ProgressMsg)
        ensures
            final(self)@ == old(self)@.reported(event@),
            final(self)@.tasks.len() == old(self)@.tasks.len(),
            forall|j: int|
                0 <= j < old(self)@.tasks.len() ==> (#[trigger] final(self)@.tasks[j]).1.state.ppm
                    >= old(self)@.tasks[j].1.state.ppm,
    {
        let ghost before = entry_views(self.tasks@);
        if let Some(i) = self.find(event.task_id().as_str()) {
            self.tasks[i].task.apply(event);
            assert(entry_views(self.tasks@) =~= before.update(
                i as int,
                (
                    before[i as int].0,
                    TaskView { state: step(before[i as int].1.state, event@), ..before[i as int].1 },
                ),
            ));
        }
    }

    /// Sets or clears the audio bit rate of the job `id`, in kbit/s.
    pub fn change_audio_bitrate(&mut self, id: &str, kbps: Option<u32>)
        ensures
            final(self)@ == old(self)@.audio_bitrate_changed(id@, kbps),
    {
        let ghost before = entry_views(self.tasks@);
        if let Some(i) = self.find(id) {
            self.tasks[i].task.set_audio_bitrate(kbps);
            assert(entry_views(self.tasks@) =~= before.update(
                i as int,
                (
                    before[i as int].0,
                    TaskView {
                        run: FfmpegTaskView { audio_bitrate: kbps, ..before[i as int].1.run },
                        ..before[i as int].1
                    },
                ),
            ));
        }
    }

    /// Sets or clears the video bit rate of the job `id`, in kbit/s.
    pub fn change_video_bitrate(&mut self, id: &str, kbps: Option<u32>)
        ensures
            final(self)@ == old(self)@.video_bitrate_changed(id@, kbps),
    {
        let ghost before = entry_views(self.tasks@);
        if let Some(i) = self.find(id) {
            self.tasks[i].task.set_video_bitrate(kbps);
            assert(entry_views(self.tasks@) =~= before.update(
                i as int,
                (
                    before[i as int].0,
                    TaskView {
                        run: FfmpegTaskView { video_bitrate: kbps, ..before[i as int].1.run },
                        ..before[i as int].1
                    },
                ),
            ));
        }
    }

    /// Opens the page of settings for the job `id`.
    pub fn toggle_config(&mut self, id: &str)
        ensures
            final(self)@ == old(self)@.config_opened(id@),
    {
        self.show_config_page = true;
        self.configuring_taskid = Some(String::from_str(id));
    }

    /// Closes the page of settings of a job.
    pub fn config_window_closing(&mut self)
        ensures
            final(self)@ == old(self)@.config_closed(),
    {
        self.show_config_page = false;
        self.configuring_taskid = None;
    }

    /// Opens the window of the settings, or closes it where it is open.
    pub fn toggle_settings_window(&mut self)
        ensures
            final(self)@ == old(self)@.settings_toggled(),
    {
        self.show_settings_window = !self.show_settings_window;
    }

    /// Sets or forgets where the encoder is.
    pub fn update_ffmpeg_entry(&mut self, ffmpeg_entry: Option<FfmpegEntry>)
        ensures
            final(self)@ == old(self)@.entry_changed(entry_view(ffmpeg_entry)),
    {
        self.settings.ffmpeg_entry = ffmpeg_entry;
    }

    /// Opens the window for choosing the format of the job `id`.
    pub fn toggle_format_selector_window(&mut self, id: &str)
        ensures
            final(self)@ == old(self)@.selector_opened(id@),
    {
        self.show_format_selctor_window = true;
        self.configuring_taskid = Some(String::from_str(id));
    }

    /// Closes the window for choosing a format.
    pub fn format_selector_window_closing(&mut self)
        ensures
            final(self)@ == old(self)@.selector_closed(),
    {
        self.show_format_selctor_window = false;
    }

    /// Gets the jobs that wait ready to run: one answer for each queued job,
    /// in the order in which the jobs are shown. A job that cannot run is
    /// answered with the report of its failure, see [`prepare`]. `overwrite`
    /// says whether files in the place of outputs may be removed. Nothing
    /// is started while the encoder is unknown.
    pub fn start_convert(&self, overwrite: bool) -> (r: Option<Vec<Launch>>)
        ensures
            r is Some == self@.ffmpeg_entry is Some,
            r is Some ==> plan_of(self@, overwrite, r.unwrap()@),
    {
        let entry = match &self.settings.ffmpeg_entry {
            Some(e) => e,
            None => {
                return None;
            },
        };
        let ghost all = entry_views(self.tasks@);
        let mut plan: Vec<Launch> = Vec::new();
        let mut i: usize = 0;
        assert(all.take(0) =~= Seq::empty());
        while i < self.tasks.len()
            invariant
                i <= self.tasks@.len(),
                all == entry_views(self.tasks@),
                plan@.len() == queued_jobs(all.take(i as int), entry@).len(),
                forall|j: int|
                    0 <= j < plan@.len() ==> launch_of(
                        #[trigger] plan@[j],
                        queued_jobs(all.take(i as int), entry@)[j].0,
                        queued_jobs(all.take(i as int), entry@)[j].1,
                        overwrite,
                    ),
            decreases self.tasks@.len() - i,
        {
            assert(all.take(i + 1).drop_last() =~= all.take(i as int));
            assert(all.take(i + 1).last() == (self.tasks@[i as int].id@, self.tasks@[i as int].task@));
            if self.tasks[i].task.status == TaskStatus::Queued {
                let run = self.tasks[i].task.job(entry);
                let launch = prepare(self.tasks[i].id.as_str(), &run, overwrite);
                plan.push(launch);
            }
            i += 1;
        }
        assert(all.take(i as int) =~= all);
        Some(plan)
    }

    /// Takes an event: changes the state as the event asks and says what is
    /// to be done besides, see [`event_outcome`].
    pub fn event(&mut self, event: AppEvent) -> (effect: Effect)
        ensures
            event_outcome(old(self)@, event, final(self)@, effect),
    {
        match event {
            AppEvent::AddTask { path, existing } => {
                match self.add_new_task(path.as_str(), &existing) {
                    Ok(id) => Effect::Added(id),
                    Err(e) => Effect::Refused(e),
                }
            },
            AppEvent::RemoveAll => {
                self.remove_all();
                Effect::Nothing
            },
            AppEvent::ChangeOutputFormat { task_id, selected, existing } => {
                self.change_output_format(task_id.as_str(), selected, &existing);
                Effect::Nothing
            },
            AppEvent::StartConvert { overwrite } => {
                match self.start_convert(overwrite) {
                    Some(plan) => Effect::Started(plan),
                    None => Effect::EncoderUnknown,
                }
            },
            AppEvent::ToggleConifg(id) => {
                self.toggle_config(id.as_str());
                Effect::Nothing
            },
            AppEvent::ToggleAutoRename { task_id, existing } => {
                self.toggle_auto_rename(task_id.as_str(), &existing);
                Effect::Nothing
            },
            AppEvent::UpdateTask(id, task) => {
                self.update_task(id.as_str(), &task);
                Effect::Nothing
            },
            AppEvent::ConfigWindowClosing => {
                self.config_window_closing();
                Effect::Nothing
            },
            AppEvent::UpdateProgress(id, progress) => {
                let report = ProgressMsg::Progress { task_id: id, progress };
                self.apply_report(&report);
                Effect::Nothing
            },
            AppEvent::MarkDone(id, failure) => {
                let report = match failure {
                    None => ProgressMsg::Done { task_id: id },
                    Some(error) => ProgressMsg::Error { task_id: id, error },
                };
                self.apply_report(&report);
                Effect::Nothing
            },
            AppEvent::UpdateFfmpegEntry(entry) => {
                self.update_ffmpeg_entry(entry);
                Effect::Nothing
            },
            AppEvent::ToggleSettingsWindow => {
                self.toggle_settings_window();
                Effect::Nothing
            },
            AppEvent::ToggleFormatSelectorWindow(id) => {
                self.toggle_format_selector_window(id.as_str());
                Effect::Nothing
            },
            AppEvent::FormatSelectorWindowClosing => {
                self.format_selector_window_closing();
                Effect::Nothing
            },
            AppEvent::ChangeAudioBitrate(id, kbps) => {
                self.change_audio_bitrate(id.as_str(), kbps);
                Effect::Nothing
            },
            AppEvent::ChangeVideoBitrate(id, kbps) => {
                self.change_video_bitrate(id.as_str(), kbps);
                Effect::Nothing
            },
        }
    }
}

/// Looking for a job among the first `k` jobs of a list: it is the one
/// found among the first `k - 1`, else the `k`th if it has the name.
proof fn lemma_position_extends(tasks: Seq<(Seq<char>, TaskView)>, id: Seq<char>, k: int)
    requires
        0 < k <= tasks.len(),
    ensures
        position(tasks.take(k), id) == match position(tasks.take(k - 1), id) {
            Some(i) => Some(i),
            None => if tasks[k - 1].0 == id {
                Some(k - 1)
            } else {
                None
            },
        },
        k == tasks.len() ==> tasks.take(k) == tasks,
{
    assert(tasks.take(k).drop_last() =~= tasks.take(k - 1));
    if k == tasks.len() {
        assert(tasks.take(k) =~= tasks);
    }
}

/// There is a first format.
proof fn lemma_first_format()
    ensures
        MediaFormat::all_spec().len() > 0,
{
    assert(crate::formats::Audio::all_spec().len() == 16);
}

} // verus!
