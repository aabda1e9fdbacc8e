//! The states of the jobs of a batch, keyed by job.
//!
//! One writer applies the reports of the running jobs in the order in which
//! they arrive; any number of readers may look at the result.

use crate::event::{is_terminal, ProgressMsg, ProgressMsgView, TaskStatus};
use crate::fraction::{Fraction, FULL_PPM};
use crate::text::str_eq;
use vstd::prelude::*;

verus! {

/// What is known of one job.
pub struct JobState {
    pub status: TaskStatus,
    /// The progress in parts per million.
    pub ppm: nat,
    /// Why the job failed.
    pub message: Option<Seq<char>>,
}

/// The state of a job after a report about it.
///
/// A job that has ended keeps its state. Progress makes a job `Running`
/// and never lowers what it had reached. `Done` completes the job. `Error`
/// fails it, keeps what it had reached and stores the reason.
pub open spec fn step(s: JobState, ev: ProgressMsgView) -> JobState {
    if is_terminal(s.status) {
        s
    } else {
        match ev {
            ProgressMsgView::Progress { ppm, .. } => JobState {
                status: TaskStatus::Running,
                ppm: if ppm > s.ppm {
                    ppm
                } else {
                    s.ppm
                },
                message: s.message,
            },
            ProgressMsgView::Done { .. } => JobState {
                status: TaskStatus::Done,
                ppm: FULL_PPM as nat,
                message: s.message,
            },
            ProgressMsgView::Error { error, .. } => JobState {
                status: TaskStatus::Failed,
                ppm: s.ppm,
                message: Some(error),
            },
        }
    }
}

/// The states of all jobs after a report: the job that the report names
/// takes a step, the others stay; a report about an unknown job changes
/// nothing.
pub open spec fn apply_event(m: Map<Seq<char>, JobState>, ev: ProgressMsgView) -> Map<
    Seq<char>,
    JobState,
> {
    if m.contains_key(ev.task_id()) {
        m.insert(ev.task_id(), step(m[ev.task_id()], ev))
    } else {
        m
    }
}

/// The state of a job that has just been queued.
pub open spec fn queued() -> JobState {
    JobState { status: TaskStatus::Queued, ppm: 0, message: None }
}

/// The stored progress of a job never decreases.
pub proof fn lemma_progress_monotonic(s: JobState, ev: ProgressMsgView)
    requires
        s.ppm <= FULL_PPM,
    ensures
        step(s, ev).ppm >= s.ppm,
        (ev matches ProgressMsgView::Progress { ppm, .. } ==> ppm <= FULL_PPM) ==> step(
            s,
            ev,
        ).ppm <= FULL_PPM,
{
}

/// A job that has ended stays as it is, whatever is reported about it.
pub proof fn lemma_terminal_sticky(s: JobState, ev: ProgressMsgView)
    requires
        is_terminal(s.status),
    ensures
        step(s, ev) == s,
{
}

/// A report that ends a job leaves the job ended.
pub proof fn lemma_terminal_event_ends(s: JobState, ev: ProgressMsgView)
    requires
        ev.is_terminal(),
    ensures
        is_terminal(step(s, ev).status),
{
}

/// Applying a report a second time changes nothing.
pub proof fn lemma_step_idempotent(s: JobState, ev: ProgressMsgView)
    ensures
        step(step(s, ev), ev) == step(s, ev),
{
}

/// A job moves forward only: from `Queued` to `Running`, and from either
/// to `Done` or `Failed`.
pub proof fn lemma_status_order(s: JobState, ev: ProgressMsgView)
    ensures
        step(s, ev).status == s.status || (s.status == TaskStatus::Queued && step(s, ev).status
            != TaskStatus::Queued) || (s.status == TaskStatus::Running && is_terminal(
            step(s, ev).status,
        )),
{
}

/// Applying a report to a store a second time changes nothing.
pub proof fn lemma_apply_idempotent(m: Map<Seq<char>, JobState>, ev: ProgressMsgView)
    ensures
        apply_event(apply_event(m, ev), ev) == apply_event(m, ev),
{
    if m.contains_key(ev.task_id()) {
        lemma_step_idempotent(m[ev.task_id()], ev);
        assert(apply_event(apply_event(m, ev), ev) =~= apply_event(m, ev));
    }
}

/// A report keeps the set of jobs, changes no job but its own, and lowers
/// no job's progress.
pub proof fn lemma_apply_frame(m: Map<Seq<char>, JobState>, ev: ProgressMsgView, id: Seq<char>)
    requires
        m.contains_key(id),
        m[id].ppm <= FULL_PPM,
    ensures
        apply_event(m, ev).contains_key(id),
        apply_event(m, ev).dom() == m.dom(),
        id != ev.task_id() ==> apply_event(m, ev)[id] == m[id],
        apply_event(m, ev)[id].ppm >= m[id].ppm,
{
    assert(apply_event(m, ev).dom() =~= m.dom());
}

struct JobEntry {
    id: String,
    status: TaskStatus,
    progress: Fraction,
    message: Option<String>,
}

impl JobEntry {
    spec fn state(self) -> JobState {
        JobState {
            status: self.status,
            ppm: self.progress@,
            message: match self.message {
                Some(m) => Some(m@),
                None => None,
            },
        }
    }
}

/// The states of the jobs of a batch.
pub struct JobStatusStore {
    entries: Vec<JobEntry>,
}

impl View for JobStatusStore {
    type V = Map<Seq<char>, JobState>;

    /// The state of each job, by the job's name.
    closed spec fn view(&self) -> Map<Seq<char>, JobState> {
        Map::new(
            |id: Seq<char>| self.has(id),
            |id: Seq<char>| self.entries@[self.index_of(id)].state(),
        )
    }
}

impl JobStatusStore {
    spec fn has(self, id: Seq<char>) -> bool {
        exists|i: int| 0 <= i < self.entries@.len() && (#[trigger] self.entries@[i]).id@ == id
    }

    spec fn index_of(self, id: Seq<char>) -> int {
        choose|i: int| 0 <= i < self.entries@.len() && (#[trigger] self.entries@[i]).id@ == id
    }

    /// No job is stored twice, and no progress is more than the whole.
    pub closed spec fn wf(self) -> bool {
        &&& forall|i: int, j: int|
            0 <= i < j < self.entries@.len() ==> (#[trigger] self.entries@[i]).id@ != (
            #[trigger] self.entries@[j]).id@
        &&& forall|i: int|
            0 <= i < self.entries@.len() ==> (#[trigger] self.entries@[i]).progress@ <= FULL_PPM
    }

    /// The progress of every job is between nothing and the whole.
    pub proof fn lemma_bounded(self, id: Seq<char>)
        requires
            self.wf(),
            self@.contains_key(id),
        ensures
            self@[id].ppm <= FULL_PPM,
    {
    }

    /// A store without jobs.
    pub fn new() -> (r: JobStatusStore)
        ensures
            r.wf(),
            r@ == Map::<Seq<char>, JobState>::empty(),
    {
        let r = JobStatusStore { entries: Vec::new() };
        assert(r@ =~= Map::<Seq<char>, JobState>::empty());
        r
    }

    fn find(&self, id: &str) -> (r: Option<usize>)
        requires
            self.wf(),
        ensures
            match r {
                Some(i) => i < self.entries@.len() && self.entries@[i as int].id@ == id@
                    && self.has(id@) && self.index_of(id@) == i,
                None => !self.has(id@),
            },
    {
        let mut i: usize = 0;
        while i < self.entries.len()
            invariant
                self.wf(),
                i <= self.entries@.len(),
                forall|j: int| 0 <= j < i ==> (#[trigger] self.entries@[j]).id@ != id@,
            decreases self.entries@.len() - i,
        {
            if str_eq(self.entries[i].id.as_str(), id) {
                return Some(i);
            }
            i += 1;
        }
        None
    }

    /// Whether the store knows the job.
    pub fn contains(&self, id: &str) -> (r: bool)
        requires
            self.wf(),
        ensures
            r == self@.contains_key(id@),
    {
        self.find(id).is_some()
    }

    /// The number of jobs.
    pub fn len(&self) -> (r: usize)
        requires
            self.wf(),
        ensures
            r == self@.dom().len(),
            self@.dom().finite(),
    {
        proof {
            self.lemma_dom_len();
        }
        self.entries.len()
    }

    proof fn lemma_dom_len(self)
        requires
            self.wf(),
        ensures
            self@.dom().finite(),
            self@.dom().len() == self.entries@.len(),
    {
        let ids = self.entries@.map_values(|e: JobEntry| e.id@);
        assert(ids.no_duplicates());
        ids.unique_seq_to_set();
        assert forall|id: Seq<char>| self@.dom().contains(id) implies ids.to_set().contains(id) by {
            let i = self.index_of(id);
            assert(ids[i] == id);
        }
        assert forall|id: Seq<char>| ids.to_set().contains(id) implies self@.dom().contains(id) by {
            let i = choose|i: int| 0 <= i < ids.len() && ids[i] == id;
            assert(self.entries@[i].id@ == id);
        }
        assert(self@.dom() =~= ids.to_set());
    }

    /// Adds a job in the state `Queued`, with no progress. A job that the
    /// store knows already stays as it is. Says whether the job was added.
    pub fn register(&mut self, id: &str) -> (added: bool)
        requires
            old(self).wf(),
        ensures
            final(self).wf(),
            added == !old(self)@.contains_key(id@),
            added ==> final(self)@ == old(self)@.insert(id@, queued()),
            !added ==> final(self)@ == old(self)@,
    {
        if self.find(id).is_some() {
            return false;
        }
        let ghost before = *self;
        let entry = JobEntry {
            id: String::from_str(id),
            status: TaskStatus::Queued,
            progress: Fraction::zero(),
            message: None,
        };
        self.entries.push(entry);
        proof {
            let after = *self;
            assert(after.entries@.len() == before.entries@.len() + 1);
            assert forall|k: Seq<char>| #[trigger]
                after@.contains_key(k) == before@.insert(id@, queued()).contains_key(k) by {
                if k == id@ {
                    assert(after.entries@[before.entries@.len() as int].id@ == k);
                } else if before.has(k) {
                    let i = before.index_of(k);
                    assert(after.entries@[i].id@ == k);
                } else if after.has(k) {
                    let i = after.index_of(k);
                    assert(before.entries@[i].id@ == k);
                }
            }
            assert forall|k: Seq<char>| after@.contains_key(k) implies #[trigger] after@[k]
                == before@.insert(id@, queued())[k] by {
                let i = after.index_of(k);
                if k != id@ {
                    assert(before.entries@[i].id@ == k);
                    let j = before.index_of(k);
                    assert(i == j);
                }
            }
            assert(after@ =~= before@.insert(id@, queued()));
        }
        true
    }

    proof fn lemma_updated(before: JobStatusStore, after: JobStatusStore, i: int, state: JobState)
        requires
            before.wf(),
            0 <= i < before.entries@.len(),
            after.entries@.len() == before.entries@.len(),
            forall|j: int|
                0 <= j < before.entries@.len() ==> (#[trigger] after.entries@[j]).id@
                    == before.entries@[j].id@,
            forall|j: int|
                0 <= j < before.entries@.len() && j != i ==> (#[trigger] after.entries@[j]).state()
                    == before.entries@[j].state(),
            after.entries@[i].state() == state,
            state.ppm <= FULL_PPM,
        ensures
            after.wf(),
            after@ == before@.insert(before.entries@[i].id@, state),
    {
        assert(after.wf()) by {
            assert forall|j: int| 0 <= j < after.entries@.len() implies (
            #[trigger] after.entries@[j]).progress@ <= FULL_PPM by {
                if j != i {
                    assert(after.entries@[j].state().ppm == before.entries@[j].state().ppm);
                }
            }
        }
        let id = before.entries@[i].id@;
        let want = before@.insert(id, state);
        assert forall|k: Seq<char>| #[trigger] after@.contains_key(k) == want.contains_key(k) by {
            if before.has(k) {
                let j = before.index_of(k);
                assert(after.entries@[j].id@ == k);
            }
            if after.has(k) {
                let j = after.index_of(k);
                assert(before.entries@[j].id@ == k);
            }
            if k == id {
                assert(after.entries@[i].id@ == k);
            }
        }
        assert forall|k: Seq<char>| after@.contains_key(k) implies #[trigger] after@[k]
            == want[k] by {
            let j = after.index_of(k);
            assert(before.entries@[j].id@ == k);
            assert(before.index_of(k) == j);
        }
        assert(after@ =~= want);
    }

    /// The state of a job.
    pub fn status(&self, id: &str) -> (r: Option<TaskStatus>)
        requires
            self.wf(),
        ensures
            r is Some == self@.contains_key(id@),
            r is Some ==> r.unwrap() == self@[id@].status,
    {
        match self.find(id) {
            Some(i) => Some(self.entries[i].status),
            None => None,
        }
    }

    /// How far a job has come.
    pub fn progress(&self, id: &str) -> (r: Option<Fraction>)
        requires
            self.wf(),
        ensures
            r is Some == self@.contains_key(id@),
            r is Some ==> r.unwrap()@ == self@[id@].ppm && r.unwrap()@ <= FULL_PPM,
    {
        match self.find(id) {
            Some(i) => Some(self.entries[i].progress),
            None => None,
        }
    }

    /// Why a job failed.
    pub fn message(&self, id: &str) -> (r: Option<String>)
        requires
            self.wf(),
        ensures
            match r {
                Some(m) => self@.contains_key(id@) && self@[id@].message == Some(m@),
                None => !self@.contains_key(id@) || self@[id@].message is None,
            },
    {
        match self.find(id) {
            Some(i) => match &self.entries[i].message {
                Some(m) => Some(m.clone()),
                None => None,
            },
            None => None,
        }
    }

    /// Applies a report: the job that it names takes a step, see [`step`].
    /// A report about a job that the store does not know, or about a job
    /// that has ended, changes nothing.
    pub fn apply(&mut self, event: &ProgressMsg)
        requires
            old(self).wf(),
        ensures
            final(self).wf(),
            final(self)@ == apply_event(old(self)@, event@),
            final(self)@.dom() == old(self)@.dom(),
            forall|id: Seq<char>| #[trigger]
                old(self)@.contains_key(id) ==> final(self)@[id].ppm >= old(self)@[id].ppm,
    {
        let ghost before = *self;
        proof {
            assert forall|id: Seq<char>| #[trigger] before@.contains_key(id) implies apply_event(
                before@,
                event@,
            )[id].ppm >= before@[id].ppm && apply_event(before@, event@).dom() == before@.dom() by {
                before.lemma_bounded(id);
                lemma_apply_frame(before@, event@, id);
            }
            assert(apply_event(before@, event@).dom() =~= before@.dom());
        }
        let i = match self.find(event.task_id().as_str()) {
            Some(i) => i,
            None => {
                return ;
            },
        };
        if self.entries[i].status.is_terminal() {
            assert(before@.insert(event@.task_id(), before@[event@.task_id()]) =~= before@);
            return ;
        }
        let ghost state = step(before.entries@[i as int].state(), event@);
        match event {
            ProgressMsg::Progress { progress, .. } => {
                let reached = self.entries[i].progress.max(*progress);
                let top = reached.ppm();
                self.entries[i].status = TaskStatus::Running;
                self.entries[i].progress = reached;
            },
            ProgressMsg::Done { .. } => {
                self.entries[i].status = TaskStatus::Done;
                self.entries[i].progress = Fraction::full();
            },
            ProgressMsg::Error { error, .. } => {
                self.entries[i].status = TaskStatus::Failed;
                self.entries[i].message = Some(error.clone());
            },
        }
        proof {
            Self::lemma_updated(before, *self, i as int, state);
        }
    }

    /// Whether every job has ended: the reader of the reports may stop.
    pub fn is_finished(&self) -> (r: bool)
        requires
            self.wf(),
        ensures
            r == forall|id: Seq<char>|
                self@.contains_key(id) ==> is_terminal(#[trigger] self@[id].status),
    {
        let mut i: usize = 0;
        while i < self.entries.len()
            invariant
                self.wf(),
                i <= self.entries@.len(),
                forall|j: int| 0 <= j < i ==> is_terminal((#[trigger] self.entries@[j]).status),
            decreases self.entries@.len() - i,
        {
            if !self.entries[i].status.is_terminal() {
                proof {
                    let id = self.entries@[i as int].id@;
                    assert(self.has(id));
                    assert(self.index_of(id) == i);
                    assert(self@.contains_key(id) && !is_terminal(self@[id].status));
                }
                return false;
            }
            i += 1;
        }
        proof {
            assert forall|id: Seq<char>| self@.contains_key(id) implies is_terminal(
                #[trigger] self@[id].status,
            ) by {
                let j = self.index_of(id);
                assert(is_terminal(self.entries@[j].status));
            }
        }
        true
    }
}

} // verus!
