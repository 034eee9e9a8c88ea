//! The job loop of the edge agent, as a state machine: the program around it
//! waits, reads, runs the driver and calls the gateway, and hands each
//! outcome back as an event; the machine says what to do next.
//!
//! One cycle: woken with the job id taken from the pending slot, read the
//! job's cut-list, run the driver on it, and report the job complete to the
//! gateway once the driver succeeded. A failed run is not reported: the job
//! stays published so that the gateway can re-dispatch it. The loop runs
//! until the connection to the gateway ends.

use vstd::prelude::*;
use vstd::string::StrSliceExecFns;
use vstd::utf8::encode_utf8;

verus! {

/// Where the loop stands.
pub enum JobPhase {
    /// Waiting to be woken by a pushed job id.
    Waiting,
    /// Reading the cut-list of the job.
    ReadingCsv { job_id: String },
    /// The driver runs the job.
    RunningJob { job_id: String },
    /// Reporting the job complete to the gateway.
    Reporting { job_id: String },
    /// The connection to the gateway ended; the loop is over.
    Stopped,
}

/// What the program around the loop observed.
pub enum JobEvent {
    /// The loop was woken; `taken` is what it took out of the pending slot.
    Woken { taken: Option<String> },
    /// The cut-list was read; `None` when the read failed or held no string.
    CsvRead { csv: Option<String> },
    /// The driver finished the job, successfully or not.
    JobRan { ok: bool },
    /// The `ReportComplete` call returned, successfully or not.
    Reported { ok: bool },
    /// The connection to the gateway ended, cleanly or not.
    ConnectionEnded { clean: bool },
}

/// A job order handed to the machine driver.
pub struct JobRequest {
    /// The job order id.
    pub id: String,
    /// The kind of the payload.
    pub payload_type: String,
    /// The payload: the cut-list's UTF-8 bytes.
    pub payload: Vec<u8>,
}

/// What the program around the loop does next.
pub enum JobAction {
    /// Wait for the next wake-up.
    Wait,
    /// Read the job's cut-list from `PendingJobCsv`.
    ReadCsv,
    /// Run the driver on the job order.
    RunJob(JobRequest),
    /// Call `ReportComplete` with the job id.
    ReportComplete { job_id: String },
    /// Return from the run: successfully exactly when the connection ended cleanly.
    Finish { clean: bool },
}

/// The phase, with ids as character sequences.
pub enum PhaseView {
    Waiting,
    ReadingCsv(Seq<char>),
    RunningJob(Seq<char>),
    Reporting(Seq<char>),
    Stopped,
}

/// The event, with strings as character sequences.
pub enum EventView {
    Woken(Option<Seq<char>>),
    CsvRead(Option<Seq<char>>),
    JobRan(bool),
    Reported(bool),
    ConnectionEnded(bool),
}

/// The action, with strings and bytes as sequences.
pub enum ActionView {
    Wait,
    ReadCsv,
    RunJob { id: Seq<char>, payload_type: Seq<char>, payload: Seq<u8> },
    ReportComplete(Seq<char>),
    Finish(bool),
}

impl View for JobPhase {
    type V = PhaseView;

    open spec fn view(&self) -> PhaseView {
        match self {
            JobPhase::Waiting => PhaseView::Waiting,
            JobPhase::ReadingCsv { job_id } => PhaseView::ReadingCsv(job_id@),
            JobPhase::RunningJob { job_id } => PhaseView::RunningJob(job_id@),
            JobPhase::Reporting { job_id } => PhaseView::Reporting(job_id@),
            JobPhase::Stopped => PhaseView::Stopped,
        }
    }
}

/// The view of an optional string.
pub open spec fn opt_view(s: Option<String>) -> Option<Seq<char>> {
    match s {
        Some(s) => Some(s@),
        None => None,
    }
}

impl View for JobEvent {
    type V = EventView;

    open spec fn view(&self) -> EventView {
        match self {
            JobEvent::Woken { taken } => EventView::Woken(opt_view(*taken)),
            JobEvent::CsvRead { csv } => EventView::CsvRead(opt_view(*csv)),
            JobEvent::JobRan { ok } => EventView::JobRan(*ok),
            JobEvent::Reported { ok } => EventView::Reported(*ok),
            JobEvent::ConnectionEnded { clean } => EventView::ConnectionEnded(*clean),
        }
    }
}

impl View for JobAction {
    type V = ActionView;

    open spec fn view(&self) -> ActionView {
        match self {
            JobAction::Wait => ActionView::Wait,
            JobAction::ReadCsv => ActionView::ReadCsv,
            JobAction::RunJob(req) => ActionView::RunJob {
                id: req.id@,
                payload_type: req.payload_type@,
                payload: req.payload@,
            },
            JobAction::ReportComplete { job_id } => ActionView::ReportComplete(job_id@),
            JobAction::Finish { clean } => ActionView::Finish(*clean),
        }
    }
}

/// The payload type of the job orders the agent hands to its driver.
pub open spec fn spec_cut_list_csv() -> Seq<char> {
    "CutListCsv"@
}

/// The events the loop can observe in a phase: the outcome of what it asked
/// for, or the end of the connection while the loop still runs.
pub open spec fn accepts(p: PhaseView, e: EventView) -> bool {
    match (p, e) {
        (PhaseView::Stopped, _) => false,
        (_, EventView::ConnectionEnded(_)) => true,
        (PhaseView::Waiting, EventView::Woken(_)) => true,
        (PhaseView::ReadingCsv(_), EventView::CsvRead(_)) => true,
        (PhaseView::RunningJob(_), EventView::JobRan(_)) => true,
        (PhaseView::Reporting(_), EventView::Reported(_)) => true,
        _ => false,
    }
}

/// The next phase and the action to take, for an accepted event.
pub open spec fn next(p: PhaseView, e: EventView) -> (PhaseView, ActionView) {
    match (p, e) {
        (_, EventView::ConnectionEnded(clean)) => (PhaseView::Stopped, ActionView::Finish(clean)),
        (PhaseView::Waiting, EventView::Woken(None)) => (PhaseView::Waiting, ActionView::Wait),
        (PhaseView::Waiting, EventView::Woken(Some(id))) => (PhaseView::ReadingCsv(id), ActionView::ReadCsv),
        (PhaseView::ReadingCsv(id), EventView::CsvRead(csv)) => (
            PhaseView::RunningJob(id),
            ActionView::RunJob {
                id: id,
                payload_type: spec_cut_list_csv(),
                payload: encode_utf8(
                    match csv {
                        Some(c) => c,
                        None => Seq::<char>::empty(),
                    },
                ),
            },
        ),
        (PhaseView::RunningJob(id), EventView::JobRan(true)) => (PhaseView::Reporting(id), ActionView::ReportComplete(id)),
        (PhaseView::RunningJob(_), EventView::JobRan(false)) => (PhaseView::Waiting, ActionView::Wait),
        (PhaseView::Reporting(_), EventView::Reported(_)) => (PhaseView::Waiting, ActionView::Wait),
        _ => (p, ActionView::Wait),
    }
}

/// A job is reported complete only right after the driver ran that same job
/// successfully.
pub proof fn law_report_only_after_success(p: PhaseView, e: EventView, id: Seq<char>)
    requires
        accepts(p, e),
        next(p, e).1 == ActionView::ReportComplete(id),
    ensures
        p == PhaseView::RunningJob(id),
        e == EventView::JobRan(true),
{
}

/// A driver failure is never reported: the loop goes back to waiting and the
/// job stays published.
pub proof fn law_failed_run_not_reported(id: Seq<char>)
    ensures
        next(PhaseView::RunningJob(id), EventView::JobRan(false)) == (PhaseView::Waiting, ActionView::Wait),
{
}

/// A wake-up with nothing pending changes nothing.
pub proof fn law_empty_wakeup_waits()
    ensures
        next(PhaseView::Waiting, EventView::Woken(None)) == (PhaseView::Waiting, ActionView::Wait),
{
}

/// Every event that the loop accepts in a phase other than waiting carries
/// on the job id it was woken with, until the loop waits again.
pub proof fn law_job_id_carried(p: PhaseView, e: EventView)
    requires
        accepts(p, e),
    ensures
        match (p, next(p, e).0) {
            (PhaseView::ReadingCsv(a), PhaseView::RunningJob(b)) => a == b,
            (PhaseView::RunningJob(a), PhaseView::Reporting(b)) => a == b,
            (PhaseView::Waiting, PhaseView::ReadingCsv(b)) => e == EventView::Woken(Some(b)),
            (_, PhaseView::Waiting) => true,
            (_, PhaseView::Stopped) => e is ConnectionEnded,
            _ => false,
        },
{
}

/// A full cycle: woken with `id`, the loop reads the cut-list, hands the
/// driver a `CutListCsv` job order with that id and the cut-list's bytes
/// (none when the read failed), reports that id complete once the driver
/// succeeded, and then waits again whatever the report's outcome.
pub proof fn law_job_cycle(id: Seq<char>, csv: Option<Seq<char>>, report_ok: bool)
    ensures
        next(PhaseView::Waiting, EventView::Woken(Some(id))) == (PhaseView::ReadingCsv(id), ActionView::ReadCsv),
        next(PhaseView::ReadingCsv(id), EventView::CsvRead(csv)) == (
            PhaseView::RunningJob(id),
            ActionView::RunJob {
                id: id,
                payload_type: spec_cut_list_csv(),
                payload: encode_utf8(
                    match csv {
                        Some(c) => c,
                        None => Seq::<char>::empty(),
                    },
                ),
            },
        ),
        next(PhaseView::RunningJob(id), EventView::JobRan(true)) == (PhaseView::Reporting(id), ActionView::ReportComplete(id)),
        next(PhaseView::Reporting(id), EventView::Reported(report_ok)) == (PhaseView::Waiting, ActionView::Wait),
{
}

/// The loop finishes exactly when the connection ends, and then accepts
/// nothing more; the run succeeds exactly when the connection ended cleanly.
pub proof fn law_connection_end_finishes(p: PhaseView, e: EventView, later: EventView)
    requires
        accepts(p, e),
    ensures
        (next(p, e).1 is Finish) <==> (e is ConnectionEnded),
        e matches EventView::ConnectionEnded(clean) ==> next(p, e) == (PhaseView::Stopped, ActionView::Finish(clean)),
        !accepts(PhaseView::Stopped, later),
{
}

/// Every outcome of what the loop asks for is accepted: a new loop accepts
/// every wake-up, and after any step the loop accepts every possible outcome
/// of the action it returned (every wake-up after `Wait`, every read result
/// after `ReadCsv`, a successful and a failed driver run after `RunJob`, and
/// either reply after `ReportComplete`), as well as the end of the
/// connection. So a dispatched job always runs, and a successful run is
/// always reported.
pub proof fn law_every_outcome_accepted(p: PhaseView, e: EventView, t: Option<Seq<char>>, csv: Option<Seq<char>>, ok: bool, clean: bool)
    requires
        accepts(p, e),
    ensures
        accepts(PhaseView::Waiting, EventView::Woken(t)),
        accepts(PhaseView::Waiting, EventView::ConnectionEnded(clean)),
        next(p, e).1 is Wait ==> accepts(next(p, e).0, EventView::Woken(t)),
        next(p, e).1 is ReadCsv ==> accepts(next(p, e).0, EventView::CsvRead(csv)),
        next(p, e).1 is RunJob ==> accepts(next(p, e).0, EventView::JobRan(ok)),
        next(p, e).1 is ReportComplete ==> accepts(next(p, e).0, EventView::Reported(ok)),
        !(next(p, e).1 is Finish) ==> accepts(next(p, e).0, EventView::ConnectionEnded(clean)),
{
}

/// The job loop of the agent.
pub struct JobLoop {
    /// Where the loop stands.
    pub phase: JobPhase,
}

impl JobLoop {
    /// A loop that waits for its first job.
    pub fn new() -> (r: Self)
        ensures
            r.phase@ == PhaseView::Waiting,
    {
        JobLoop { phase: JobPhase::Waiting }
    }

    /// Whether `event` is an outcome the loop asked for in its phase.
    pub fn accepts(&self, event: &JobEvent) -> (r: bool)
        ensures
            r == accepts(self.phase@, event@),
    {
        match (&self.phase, event) {
            (JobPhase::Stopped, _) => false,
            (_, JobEvent::ConnectionEnded { .. }) => true,
            (JobPhase::Waiting, JobEvent::Woken { .. }) => true,
            (JobPhase::ReadingCsv { .. }, JobEvent::CsvRead { .. }) => true,
            (JobPhase::RunningJob { .. }, JobEvent::JobRan { .. }) => true,
            (JobPhase::Reporting { .. }, JobEvent::Reported { .. }) => true,
            _ => false,
        }
    }

    /// Takes the outcome of the last action into account and says what to do next.
    pub fn handle(&mut self, event: JobEvent) -> (a: JobAction)
        requires
            accepts(old(self).phase@, event@),
        ensures
            (final(self).phase@, a@) == next(old(self).phase@, event@),
    {
        let mut phase = JobPhase::Waiting;
        std::mem::swap(&mut phase, &mut self.phase);
        match (phase, event) {
            (_, JobEvent::ConnectionEnded { clean }) => {
                self.phase = JobPhase::Stopped;
                JobAction::Finish { clean }
            },
            (JobPhase::Waiting, JobEvent::Woken { taken: None }) => JobAction::Wait,
            (JobPhase::Waiting, JobEvent::Woken { taken: Some(id) }) => {
                self.phase = JobPhase::ReadingCsv { job_id: id };
                JobAction::ReadCsv
            },
            (JobPhase::ReadingCsv { job_id }, JobEvent::CsvRead { csv }) => {
                let text = match csv {
                    Some(c) => c,
                    None => String::new(),
                };
                let payload = text.as_str().as_bytes_vec();
                let request = JobRequest {
                    id: job_id.clone(),
                    payload_type: "CutListCsv".to_owned(),
                    payload,
                };
                self.phase = JobPhase::RunningJob { job_id };
                JobAction::RunJob(request)
            },
            (JobPhase::RunningJob { job_id }, JobEvent::JobRan { ok }) => {
                if ok {
                    self.phase = JobPhase::Reporting { job_id: job_id.clone() };
                    JobAction::ReportComplete { job_id }
                } else {
                    JobAction::Wait
                }
            },
            (JobPhase::Reporting { .. }, JobEvent::Reported { .. }) => JobAction::Wait,
            (p, _) => {
                self.phase = p;
                JobAction::Wait
            },
        }
    }
}

} // verus!
