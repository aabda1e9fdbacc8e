//! One row of the list of jobs, as it is first shown.

use crate::formats::Audio;
use vstd::prelude::*;

verus! {

/// A row of the list of jobs: the name of the job and the formats that are
/// offered for it.
#[derive(Debug)]
pub struct TaskItemRow {
    pub task_name: String,
    pub selected_format: usize,
    pub format_to_list: Vec<Audio>,
}

impl TaskItemRow {
    /// The row for a job: three audio formats are offered, the first of
    /// them chosen.
    pub fn new(task_name: String) -> (r: TaskItemRow)
        ensures
            r.task_name == task_name,
            r.selected_format == 0,
            r.format_to_list@ == seq![Audio::Mp3, Audio::Wav, Audio::Flac],
    {
        let formats = vec![Audio::Mp3, Audio::Wav, Audio::Flac];
        assert(formats@ =~= seq![Audio::Mp3, Audio::Wav, Audio::Flac]);
        TaskItemRow { task_name, selected_format: 0, format_to_list: formats }
    }
}

} // verus!
