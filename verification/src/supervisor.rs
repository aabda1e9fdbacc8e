//! The life of one run of the encoder, seen from what it writes and how it
//! ends.
//!
//! Whoever runs the process hands each chunk of its diagnostics to
//! [`Supervisor::feed`] as it arrives and the way it ended to
//! [`Supervisor::finish`]; what comes back are the reports to send. A
//! supervisor gives any number of progress reports and then, once, a report
//! that ends the job.

use crate::error::{JobError, JobErrorView};
use crate::event::{ProgressMsg, ProgressMsgView};
use crate::fraction::{lemma_ratio_bounded, progress_fraction, ratio_ppm, Fraction, FULL_PPM};
use crate::progress::{line_duration, line_time, parse_duration, parse_progress_time};
use crate::text::{
    find_byte, find_bytes, first_byte_from, first_match, lemma_first_byte_extended,
    lemma_first_byte_is_least, lemma_first_byte_skipped, lower, to_lower, utf8_text,
};
use vstd::prelude::*;
use vstd::slice::*;
use vstd::string::*;
use vstd::utf8::{decode_utf8, valid_utf8};

verus! {

/// The byte that ends a line of the encoder's running report.
pub const CR: u8 = 0x0d;

/// Whether the letters `err` stand in the line, in whatever case.
pub open spec fn looks_like_error(line: Seq<u8>) -> bool {
    exists|i: int|
        0 <= i && i + 3 <= line.len() && lower(#[trigger] line[i]) == 0x65 && lower(line[i + 1])
            == 0x72 && lower(line[i + 2]) == 0x72
}

/// Whether the line speaks of the length of the input.
pub open spec fn is_duration_line(line: Seq<u8>) -> bool {
    first_match(line, "Duration:".spec_bytes()) is Some
}

/// Whether the line reports a position: a line that speaks of the length
/// of the input is never taken for one.
pub open spec fn is_time_line(line: Seq<u8>) -> bool {
    !is_duration_line(line) && first_match(line, "time=".spec_bytes()) is Some
}

/// What has been learned from the lines read so far.
pub struct ParserState {
    /// The length of the input in microseconds, once a line has told it.
    pub duration: Option<u64>,
    /// The lines that looked like errors, one after the other.
    pub diagnostics: Seq<char>,
}

/// What is known after one more line.
///
/// A line that is not valid UTF-8 is skipped. A line that looks like an
/// error is kept. The first line that tells the length of the input
/// settles it: later ones are ignored.
pub open spec fn after_line(st: ParserState, line: Seq<u8>) -> ParserState {
    if !valid_utf8(line) {
        st
    } else {
        ParserState {
            duration: if is_duration_line(line) && st.duration is None {
                line_duration(line)
            } else {
                st.duration
            },
            diagnostics: if looks_like_error(line) {
                st.diagnostics + decode_utf8(line)
            } else {
                st.diagnostics
            },
        }
    }
}

/// The progress that a line reports, in parts per million: the position it
/// gives over the length of the input. There is none where the line gives
/// no position, or the length is not known yet or is zero.
pub open spec fn sample_of_line(st: ParserState, line: Seq<u8>) -> Option<nat> {
    if valid_utf8(line) && is_time_line(line) {
        match (line_time(line), st.duration) {
            (Some(t), Some(total)) => if total > 0 {
                Some(ratio_ppm(t as nat, total as nat))
            } else {
                None
            },
            _ => None,
        }
    } else {
        None
    }
}

/// The samples with one more, if there is one.
pub open spec fn with_sample(samples: Seq<nat>, sample: Option<nat>) -> Seq<nat> {
    match sample {
        Some(p) => samples.push(p),
        None => samples,
    }
}

/// What reading the whole lines of a buffer gives.
pub struct Drained {
    /// Where the first line begins that is not whole yet.
    pub consumed: int,
    pub state: ParserState,
    /// The progress reported by the lines, in their order.
    pub samples: Seq<nat>,
}

/// Reads the whole lines of `buf` from `from` on, one after the other. A
/// line ends with a carriage return, which belongs to it.
pub open spec fn drain_from(buf: Seq<u8>, from: int, st: ParserState, samples: Seq<nat>) -> Drained
    decreases buf.len() - from,
{
    match first_byte_from(buf, CR, from) {
        Some(end) => if from <= end < buf.len() {
            let line = buf.subrange(from, end + 1);
            drain_from(
                buf,
                end + 1,
                after_line(st, line),
                with_sample(samples, sample_of_line(st, line)),
            )
        } else {
            Drained { consumed: from, state: st, samples }
        },
        None => Drained { consumed: from, state: st, samples },
    }
}

/// A [`ProcessOutcome`] as plain values.
pub enum ProcessOutcomeView {
    Exited { code: Option<i32> },
    BinaryNotFound,
    SpawnFailed { reason: Seq<char> },
    RemovalFailed { reason: Seq<char> },
    StreamFailed { reason: Seq<char> },
    Cancelled,
}

/// How the encoder's run ended.
#[derive(Debug)]
pub enum ProcessOutcome {
    /// The process ran and ended, with this exit code if it left one.
    Exited { code: Option<i32> },
    /// There is no encoder where it was said to be.
    BinaryNotFound,
    /// The process could not be started.
    SpawnFailed { reason: String },
    /// A file in the place of the output could not be removed.
    RemovalFailed { reason: String },
    /// Reading from the process or waiting for it failed.
    StreamFailed { reason: String },
    /// The process was stopped on request.
    Cancelled,
}

/// The supervisor of one run.
pub struct Supervisor {
    task_id: String,
    program: String,
    command: String,
    output: String,
    pending: Vec<u8>,
    duration: Option<u64>,
    diagnostics: String,
}

/// A [`Supervisor`] as plain values.
pub struct SupervisorView {
    pub task_id: Seq<char>,
    /// The program that is run.
    pub program: Seq<char>,
    /// The command line, for showing it.
    pub command: Seq<char>,
    /// The file that is written.
    pub output: Seq<char>,
    /// What has arrived of a line that is not whole yet.
    pub pending: Seq<u8>,
    pub duration: Option<u64>,
    pub diagnostics: Seq<char>,
}

impl SupervisorView {
    pub open spec fn state(self) -> ParserState {
        ParserState { duration: self.duration, diagnostics: self.diagnostics }
    }

    /// What reading one more chunk gives.
    pub open spec fn drained(self, chunk: Seq<u8>) -> Drained {
        drain_from(self.pending + chunk, 0, self.state(), Seq::empty())
    }

    /// The supervisor after one more chunk: the whole lines are read, the
    /// rest waits for the next chunk.
    pub open spec fn fed(self, chunk: Seq<u8>) -> SupervisorView {
        let d = self.drained(chunk);
        SupervisorView {
            pending: (self.pending + chunk).skip(d.consumed),
            duration: d.state.duration,
            diagnostics: d.state.diagnostics,
            ..self
        }
    }

    /// The failure that an outcome stands for; none for a run that ended
    /// with the exit code zero.
    pub open spec fn failure(self, outcome: ProcessOutcomeView) -> Option<JobErrorView> {
        match outcome {
            ProcessOutcomeView::Exited { code } => if code == Some(0i32) {
                None
            } else {
                Some(JobErrorView::NonZeroExit { code, diagnostics: self.diagnostics })
            },
            ProcessOutcomeView::BinaryNotFound => Some(
                JobErrorView::BinaryNotFound { program: self.program },
            ),
            ProcessOutcomeView::SpawnFailed { reason } => Some(
                JobErrorView::SpawnFailure { reason, command: self.command },
            ),
            ProcessOutcomeView::RemovalFailed { reason } => Some(
                JobErrorView::PreexistingOutputRemovalFailed { path: self.output, reason },
            ),
            ProcessOutcomeView::StreamFailed { reason } => Some(
                JobErrorView::StreamFailure { reason },
            ),
            ProcessOutcomeView::Cancelled => Some(JobErrorView::Cancelled),
        }
    }

    /// The report that ends the job: `Done` after a run without failure,
    /// else `Error` with the text of the failure.
    pub open spec fn finished(self, outcome: ProcessOutcomeView) -> ProgressMsgView {
        match self.failure(outcome) {
            None => ProgressMsgView::Done { task_id: self.task_id },
            Some(e) => ProgressMsgView::Error { task_id: self.task_id, error: e.message() },
        }
    }
}

/// The reports of progress for a job, one for each sample.
pub open spec fn progress_reports(task_id: Seq<char>, samples: Seq<nat>) -> Seq<ProgressMsgView> {
    samples.map_values(|ppm: nat| ProgressMsgView::Progress { task_id, ppm })
}

/// The views of some reports, in order.
pub open spec fn report_views(reports: Seq<ProgressMsg>) -> Seq<ProgressMsgView> {
    reports.map_values(|m: ProgressMsg| m@)
}

/// Whether the letters `err` stand in the line, in whatever case.
pub fn line_looks_like_error(line: &[u8]) -> (r: bool)
    ensures
        r == looks_like_error(line@),
{
    let n: usize = line.len();
    if n < 3 {
        return false;
    }
    let mut i: usize = 0;
    while i <= n - 3
        invariant
            n == line@.len(),
            3 <= n,
            i <= n - 2,
            forall|j: int|
                0 <= j < i ==> !(lower(#[trigger] line@[j]) == 0x65 && lower(line@[j + 1]) == 0x72
                    && lower(line@[j + 2]) == 0x72),
        decreases n - i,
    {
        if to_lower(line[i]) == 0x65 && to_lower(line[i + 1]) == 0x72 && to_lower(line[i + 2])
            == 0x72 {
            return true;
        }
        i += 1;
    }
    false
}

/// Reads one line: learns from it what there is to learn and gives the
/// progress that it reports.
fn read_line(line: &[u8], duration: &mut Option<u64>, diagnostics: &mut String) -> (r: Option<
    Fraction,
>)
    ensures
        (ParserState { duration: *final(duration), diagnostics: final(diagnostics)@ })
            == after_line(
            ParserState { duration: *old(duration), diagnostics: old(diagnostics)@ },
            line@,
        ),
        r is Some == sample_of_line(
            ParserState { duration: *old(duration), diagnostics: old(diagnostics)@ },
            line@,
        ) is Some,
        r is Some ==> r.unwrap()@ == sample_of_line(
            ParserState { duration: *old(duration), diagnostics: old(diagnostics)@ },
            line@,
        ).unwrap(),
{
    let text = match utf8_text(line) {
        Some(t) => t,
        None => {
            return None;
        },
    };
    if line_looks_like_error(line) {
        diagnostics.append(text.as_str());
    }
    if find_bytes(line, "Duration:".as_bytes()).is_some() {
        if duration.is_none() {
            *duration = parse_duration(line);
        }
        None
    } else if find_bytes(line, "time=".as_bytes()).is_some() {
        match (parse_progress_time(line), *duration) {
            (Some(t), Some(total)) => progress_fraction(t, total),
            _ => None,
        }
    } else {
        None
    }
}

impl View for ProcessOutcome {
    type V = ProcessOutcomeView;

    open spec fn view(&self) -> ProcessOutcomeView {
        match self {
            ProcessOutcome::Exited { code } => ProcessOutcomeView::Exited { code: *code },
            ProcessOutcome::BinaryNotFound => ProcessOutcomeView::BinaryNotFound,
            ProcessOutcome::SpawnFailed { reason } => ProcessOutcomeView::SpawnFailed {
                reason: reason@,
            },
            ProcessOutcome::RemovalFailed { reason } => ProcessOutcomeView::RemovalFailed {
                reason: reason@,
            },
            ProcessOutcome::StreamFailed { reason } => ProcessOutcomeView::StreamFailed {
                reason: reason@,
            },
            ProcessOutcome::Cancelled => ProcessOutcomeView::Cancelled,
        }
    }
}

impl View for Supervisor {
    type V = SupervisorView;

    closed spec fn view(&self) -> SupervisorView {
        SupervisorView {
            task_id: self.task_id@,
            program: self.program@,
            command: self.command@,
            output: self.output@,
            pending: self.pending@,
            duration: self.duration,
            diagnostics: self.diagnostics@,
        }
    }
}

impl Supervisor {
    /// The supervisor of a run that has not written anything yet.
    pub fn new(task_id: String, program: String, command: String, output: String) -> (r:
        Supervisor)
        ensures
            r@ == (SupervisorView {
                task_id: task_id@,
                program: program@,
                command: command@,
                output: output@,
                pending: Seq::empty(),
                duration: None,
                diagnostics: Seq::empty(),
            }),
    {
        Supervisor {
            task_id,
            program,
            command,
            output,
            pending: Vec::new(),
            duration: None,
            diagnostics: String::new(),
        }
    }

    /// The job that is supervised.
    pub fn task_id(&self) -> (r: &String)
        ensures
            r@ == self@.task_id,
    {
        &self.task_id
    }

    /// The program to run.
    pub fn program(&self) -> (r: &String)
        ensures
            r@ == self@.program,
    {
        &self.program
    }

    /// The file that the run writes.
    pub fn output(&self) -> (r: &String)
        ensures
            r@ == self@.output,
    {
        &self.output
    }

    /// The length of the input in microseconds, once a line has told it.
    pub fn duration(&self) -> (r: Option<u64>)
        ensures
            r == self@.duration,
    {
        self.duration
    }

    /// Takes the next chunk of the encoder's diagnostics and gives the
    /// reports of progress that its whole lines amount to, in their order.
    /// What follows the last carriage return waits for the next chunk.
    pub fn feed(&mut self, chunk: &[u8]) -> (reports: Vec<ProgressMsg>)
        ensures
            final(self)@ == old(self)@.fed(chunk@),
            report_views(reports@) == progress_reports(
                old(self)@.task_id,
                old(self)@.drained(chunk@).samples,
            ),
    {
        let ghost before = self@;
        let mut buf: Vec<u8> = Vec::new();
        core::mem::swap(&mut buf, &mut self.pending);
        let mut k: usize = 0;
        while k < chunk.len()
            invariant
                k <= chunk@.len(),
                buf@ == before.pending + chunk@.take(k as int),
            decreases chunk@.len() - k,
        {
            buf.push(chunk[k]);
            assert(chunk@.take(k + 1) =~= chunk@.take(k as int).push(chunk@[k as int]));
            k += 1;
        }
        assert(chunk@.take(k as int) =~= chunk@);
        let ghost whole = before.pending + chunk@;
        let mut reports: Vec<ProgressMsg> = Vec::new();
        let ghost mut samples: Seq<nat> = Seq::empty();
        let mut from: usize = 0;
        let n: usize = buf.len();
        assert(report_views(reports@) =~= progress_reports(before.task_id, samples));
        loop
            invariant
                from <= n == buf@.len(),
                buf@ == whole,
                self.task_id@ == before.task_id,
                self.program@ == before.program,
                self.command@ == before.command,
                self.output@ == before.output,
                before.drained(chunk@) == drain_from(
                    whole,
                    from as int,
                    ParserState { duration: self.duration, diagnostics: self.diagnostics@ },
                    samples,
                ),
                report_views(reports@) == progress_reports(before.task_id, samples),
            ensures
                from <= n == buf@.len(),
                buf@ == whole,
                self.task_id@ == before.task_id,
                self.program@ == before.program,
                self.command@ == before.command,
                self.output@ == before.output,
                before.drained(chunk@) == (Drained {
                    consumed: from as int,
                    state: ParserState { duration: self.duration, diagnostics: self.diagnostics@ },
                    samples,
                }),
                report_views(reports@) == progress_reports(before.task_id, samples),
            decreases n - from,
        {
            let end = match find_byte(buf.as_slice(), CR, from) {
                Some(e) => e,
                None => {
                    break ;
                },
            };
            let line = slice_subrange(buf.as_slice(), from, end + 1);
            let ghost st = ParserState { duration: self.duration, diagnostics: self.diagnostics@ };
            let sample = read_line(line, &mut self.duration, &mut self.diagnostics);
            match sample {
                Some(progress) => {
                    let report = ProgressMsg::Progress { task_id: self.task_id.clone(), progress };
                    let ghost shown = report@;
                    let ghost sent = reports@;
                    reports.push(report);
                    proof {
                        let next = samples.push(progress@);
                        assert(shown == ProgressMsgView::Progress {
                            task_id: before.task_id,
                            ppm: progress@,
                        });
                        assert(report_views(reports@) =~= report_views(sent).push(shown));
                        assert(progress_reports(before.task_id, next) =~= progress_reports(
                            before.task_id,
                            samples,
                        ).push(shown));
                        samples = next;
                    }
                },
                None => {},
            }
            from = end + 1;
        }
        let rest = buf.split_off(from);
        assert(rest@ =~= whole.skip(from as int));
        self.pending = rest;
        reports
    }

    /// Takes the way the run ended and gives the report that ends the job:
    /// `Done` after the exit code zero, `Error` with the text of the failure
    /// after anything else. The supervisor is used up: a job is ended once.
    pub fn finish(self, outcome: ProcessOutcome) -> (report: ProgressMsg)
        ensures
            report@ == self@.finished(outcome@),
    {
        let failure = match outcome {
            ProcessOutcome::Exited { code } => {
                match code {
                    Some(0) => {
                        return ProgressMsg::Done { task_id: self.task_id };
                    },
                    _ => JobError::NonZeroExit { code, diagnostics: self.diagnostics },
                }
            },
            ProcessOutcome::BinaryNotFound => JobError::BinaryNotFound { program: self.program },
            ProcessOutcome::SpawnFailed { reason } => JobError::SpawnFailure {
                reason,
                command: self.command,
            },
            ProcessOutcome::RemovalFailed { reason } => JobError::PreexistingOutputRemovalFailed {
                path: self.output,
                reason,
            },
            ProcessOutcome::StreamFailed { reason } => JobError::StreamFailure { reason },
            ProcessOutcome::Cancelled => JobError::Cancelled,
        };
        ProgressMsg::Error { task_id: self.task_id, error: failure.message() }
    }
}

/// The progress that a line reports is never more than the whole.
pub proof fn lemma_sample_bounded(st: ParserState, line: Seq<u8>)
    requires
        sample_of_line(st, line) is Some,
    ensures
        sample_of_line(st, line).unwrap() <= FULL_PPM,
{
    lemma_ratio_bounded(line_time(line).unwrap() as nat, st.duration.unwrap() as nat);
}

/// While it runs, a job reports progress only, and under its own name.
pub proof fn lemma_reports_are_progress(task_id: Seq<char>, samples: Seq<nat>, i: int)
    requires
        0 <= i < samples.len(),
    ensures
        progress_reports(task_id, samples).len() == samples.len(),
        !progress_reports(task_id, samples)[i].is_terminal(),
        progress_reports(task_id, samples)[i].task_id() == task_id,
{
}

/// The report that a supervisor gives at the end ends its job, and no
/// other.
pub proof fn lemma_finished_is_terminal(s: SupervisorView, outcome: ProcessOutcomeView)
    ensures
        s.finished(outcome).is_terminal(),
        s.finished(outcome).task_id() == s.task_id,
        s.finished(outcome) is Done <==> outcome == (ProcessOutcomeView::Exited {
            code: Some(0i32),
        }),
{
}

/// Reading goes line by line: it stops in front of the first line that is
/// not whole, and what was read does not depend on the samples gathered
/// before.
pub proof fn lemma_drain_gathers(buf: Seq<u8>, from: int, st: ParserState, samples: Seq<nat>)
    requires
        0 <= from <= buf.len(),
    ensures
        from <= drain_from(buf, from, st, samples).consumed <= buf.len(),
        first_byte_from(buf, CR, drain_from(buf, from, st, samples).consumed) is None,
        drain_from(buf, from, st, samples).consumed == drain_from(
            buf,
            from,
            st,
            Seq::empty(),
        ).consumed,
        drain_from(buf, from, st, samples).state == drain_from(buf, from, st, Seq::empty()).state,
        drain_from(buf, from, st, samples).samples == samples + drain_from(
            buf,
            from,
            st,
            Seq::empty(),
        ).samples,
    decreases buf.len() - from,
{
    lemma_first_byte_is_least(buf, CR, from);
    match first_byte_from(buf, CR, from) {
        Some(end) => {
            let line = buf.subrange(from, end + 1);
            let next = after_line(st, line);
            let one = with_sample(Seq::empty(), sample_of_line(st, line));
            let more = with_sample(samples, sample_of_line(st, line));
            assert(more =~= samples + one);
            lemma_drain_gathers(buf, end + 1, next, more);
            lemma_drain_gathers(buf, end + 1, next, one);
            let rest = drain_from(buf, end + 1, next, Seq::empty()).samples;
            assert((samples + one) + rest =~= samples + (one + rest));
        },
        None => {
            assert(samples + Seq::<nat>::empty() =~= samples);
        },
    }
}

/// When more text follows, reading begins with the same lines and goes on
/// from where it stopped.
pub proof fn lemma_drain_extended(
    buf: Seq<u8>,
    more: Seq<u8>,
    from: int,
    st: ParserState,
    samples: Seq<nat>,
)
    requires
        0 <= from <= buf.len(),
    ensures
        drain_from(buf + more, from, st, samples) == drain_from(
            buf + more,
            drain_from(buf, from, st, samples).consumed,
            drain_from(buf, from, st, samples).state,
            drain_from(buf, from, st, samples).samples,
        ),
    decreases buf.len() - from,
{
    lemma_first_byte_is_least(buf, CR, from);
    match first_byte_from(buf, CR, from) {
        Some(end) => {
            lemma_first_byte_extended(buf, more, CR, from);
            let line = buf.subrange(from, end + 1);
            assert((buf + more).subrange(from, end + 1) =~= line);
            lemma_drain_extended(
                buf,
                more,
                end + 1,
                after_line(st, line),
                with_sample(samples, sample_of_line(st, line)),
            );
        },
        None => {},
    }
}

/// Reading a text without its first `c` bytes is reading the text from `c`
/// on.
pub proof fn lemma_drain_skipped(
    buf: Seq<u8>,
    c: int,
    from: int,
    st: ParserState,
    samples: Seq<nat>,
)
    requires
        0 <= c <= buf.len(),
        0 <= from <= buf.len() - c,
    ensures
        drain_from(buf, from + c, st, samples) == (Drained {
            consumed: drain_from(buf.skip(c), from, st, samples).consumed + c,
            ..drain_from(buf.skip(c), from, st, samples)
        }),
    decreases buf.len() - c - from,
{
    lemma_first_byte_skipped(buf, c, CR, from);
    lemma_first_byte_is_least(buf, CR, from + c);
    match first_byte_from(buf, CR, from + c) {
        Some(end) => {
            let line = buf.subrange(from + c, end + 1);
            assert(buf.skip(c).subrange(from, end - c + 1) =~= line);
            lemma_drain_skipped(
                buf,
                c,
                end - c + 1,
                after_line(st, line),
                with_sample(samples, sample_of_line(st, line)),
            );
        },
        None => {},
    }
}

/// It makes no difference in how many pieces the diagnostics arrive: two
/// chunks one after the other leave the supervisor as the two in one would,
/// and give the same reports in the same order.
pub proof fn lemma_feed_in_pieces(s: SupervisorView, a: Seq<u8>, b: Seq<u8>)
    ensures
        s.fed(a).fed(b) == s.fed(a + b),
        s.drained(a).samples + s.fed(a).drained(b).samples == s.drained(a + b).samples,
{
    let first = s.pending + a;
    let both = first + b;
    assert(s.pending + (a + b) =~= both);
    let d1 = s.drained(a);
    lemma_drain_gathers(first, 0, s.state(), Seq::empty());
    lemma_drain_extended(first, b, 0, s.state(), Seq::empty());
    // reading both goes on from where reading the first stopped
    let c = d1.consumed;
    lemma_drain_gathers(both, c, d1.state, d1.samples);
    // and what is read from there on is what the second chunk adds
    assert(both.skip(c) =~= first.skip(c) + b);
    lemma_drain_skipped(both, c, 0, d1.state, Seq::empty());
    let d2 = s.fed(a).drained(b);
    assert(s.fed(a).state() == d1.state);
    assert((first.skip(c) + b).skip(d2.consumed) =~= both.skip(c + d2.consumed));
}

} // verus!
