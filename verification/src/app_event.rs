//! What can happen to the application: what the user does, and what the
//! running jobs report.

use crate::app_data::AddTaskError;
use crate::batch::Launch;
use crate::command::FfmpegEntry;
use crate::fraction::Fraction;
use crate::task::Task;
use vstd::prelude::*;

verus! {

/// Something that happened. Where an event renames an output, `existing`
/// holds the names of the files beside the job's input.
#[derive(Debug)]
pub enum AppEvent {
    /// A file was picked or dropped.
    AddTask { path: String, existing: Vec<String> },
    RemoveAll,
    ChangeOutputFormat { task_id: String, selected: usize, existing: Vec<String> },
    /// The jobs are to be run. `overwrite` says whether files in the place
    /// of outputs may be removed.
    StartConvert { overwrite: bool },
    ToggleConifg(String),
    ToggleAutoRename { task_id: String, existing: Vec<String> },
    UpdateTask(String, Task),
    ConfigWindowClosing,
    /// A job reported how far it has come.
    UpdateProgress(String, Fraction),
    /// A job ended: with success, or with the text of its failure.
    MarkDone(String, Option<String>),
    UpdateFfmpegEntry(Option<FfmpegEntry>),
    ToggleSettingsWindow,
    ToggleFormatSelectorWindow(String),
    FormatSelectorWindowClosing,
    ChangeAudioBitrate(String, Option<u32>),
    ChangeVideoBitrate(String, Option<u32>),
}

/// What is to be done after an event, beyond showing the new state.
pub enum Effect {
    Nothing,
    /// A job was added under this name.
    Added(String),
    /// The file was not taken: tell the user why.
    Refused(AddTaskError),
    /// The encoder is unknown: tell the user to set it.
    EncoderUnknown,
    /// Carry these out, one for each job that waited.
    Started(Vec<Launch>),
}

} // verus!
