//! The timeline index's scan status, and when background work may start.
use crate::timeline::enrichment::EnrichmentReport;
use crate::timeline::scan::ScanReport;
use vstd::prelude::*;

verus! {

/// Lifecycle of the timeline index.
#[derive(Clone, Copy, Debug, PartialEq, Eq, Structural)]
pub enum ScanState {
    Starting,
    Scanning,
    Ready,
    Error,
}

/// A periodic rescan is only started from a settled, ready index.
pub fn should_run_periodic_timeline_rescan(state: ScanState) -> (run: bool)
    ensures
        run <==> state == ScanState::Ready,
{
    match state {
        ScanState::Ready => true,
        _ => false,
    }
}

/// What a rescan did: the scan, the albums it built, and the enrichment pass.
#[derive(Debug, Clone, Copy, Default, PartialEq, Eq, Structural)]
pub struct RescanReport {
    pub scan: ScanReport,
    pub albums_count: usize,
    pub enrichment: EnrichmentReport,
}

/// Progress of the index as clients see it. `started_at` is a reading, in seconds, of
/// the monotonic clock the caller keeps, taken when the running scan began.
#[derive(Debug, Clone, PartialEq, Eq)]
pub struct ScanStatus {
    pub state: ScanState,
    pub phase: String,
    pub found: usize,
    pub processed: usize,
    pub errors: usize,
    pub workers: usize,
    pub elapsed_seconds: u64,
    pub error: Option<String>,
    pub started_at: Option<u64>,
}

/// Seconds from `started` to `now` on the caller's monotonic clock; none when no scan
/// has started.
pub open spec fn elapsed_spec(started: Option<u64>, now: u64) -> u64 {
    match started {
        Some(s) => if now >= s {
            (now - s) as u64
        } else {
            0
        },
        None => 0,
    }
}

impl ScanStatus {
    /// The status of an index that has not been scanned yet.
    pub fn starting(workers: usize) -> (s: ScanStatus)
        ensures
            s.state == ScanState::Starting,
            s.phase@ == "starting"@,
            s.found == 0 && s.processed == 0 && s.errors == 0,
            s.workers == workers,
            s.elapsed_seconds == 0,
            s.error is None,
            s.started_at is None,
    {
        ScanStatus {
            state: ScanState::Starting,
            phase: "starting".to_owned(),
            found: 0,
            processed: 0,
            errors: 0,
            workers,
            elapsed_seconds: 0,
            error: None,
            started_at: None,
        }
    }

    /// The status of an index a previous run completed: ready, otherwise as
    /// [`ScanStatus::starting`].
    pub fn ready(workers: usize) -> (s: ScanStatus)
        ensures
            s.state == ScanState::Ready,
            s.phase@ == "ready"@,
            s.found == 0 && s.processed == 0 && s.errors == 0,
            s.workers == workers,
            s.elapsed_seconds == 0,
            s.error is None,
            s.started_at is None,
    {
        ScanStatus {
            state: ScanState::Ready,
            phase: "ready".to_owned(),
            found: 0,
            processed: 0,
            errors: 0,
            workers,
            elapsed_seconds: 0,
            error: None,
            started_at: None,
        }
    }

    /// The status when a scan begins at `now`: scanning, indexing, counts reset.
    pub fn scanning(workers: usize, now: u64) -> (s: ScanStatus)
        ensures
            s.state == ScanState::Scanning,
            s.phase@ == "indexing"@,
            s.found == 0 && s.processed == 0 && s.errors == 0,
            s.workers == workers,
            s.elapsed_seconds == 0,
            s.error is None,
            s.started_at == Some(now),
    {
        ScanStatus {
            state: ScanState::Scanning,
            phase: "indexing".to_owned(),
            found: 0,
            processed: 0,
            errors: 0,
            workers,
            elapsed_seconds: 0,
            error: None,
            started_at: Some(now),
        }
    }

    /// Recomputes the elapsed time at `now`.
    pub fn update_elapsed(&mut self, now: u64)
        ensures
            final(self).elapsed_seconds == elapsed_spec(old(self).started_at, now),
            final(self).state == old(self).state,
            final(self).phase == old(self).phase,
            final(self).found == old(self).found,
            final(self).processed == old(self).processed,
            final(self).errors == old(self).errors,
            final(self).workers == old(self).workers,
            final(self).error == old(self).error,
            final(self).started_at == old(self).started_at,
    {
        self.elapsed_seconds = match self.started_at {
            Some(s) => if now >= s {
                now - s
            } else {
                0
            },
            None => 0,
        };
    }

    /// Records scan progress: the photos found, those processed (analysed, reused or
    /// failed) and the failures.
    pub fn record_progress(&mut self, report: &ScanReport, now: u64)
        requires
            report.analyzed + report.reused + report.errors <= usize::MAX,
        ensures
            final(self).found == report.found,
            final(self).processed == report.analyzed + report.reused + report.errors,
            final(self).errors == report.errors,
            final(self).elapsed_seconds == elapsed_spec(old(self).started_at, now),
            final(self).state == old(self).state,
            final(self).phase == old(self).phase,
            final(self).workers == old(self).workers,
            final(self).error == old(self).error,
            final(self).started_at == old(self).started_at,
    {
        self.found = report.found;
        self.processed = report.analyzed + report.reused + report.errors;
        self.errors = report.errors;
        self.update_elapsed(now);
    }

    /// Enters the album-building phase.
    pub fn building_albums(&mut self)
        ensures
            final(self).phase@ == "building_albums"@,
            final(self).state == old(self).state,
            final(self).found == old(self).found,
            final(self).processed == old(self).processed,
            final(self).errors == old(self).errors,
            final(self).workers == old(self).workers,
            final(self).elapsed_seconds == old(self).elapsed_seconds,
            final(self).error == old(self).error,
            final(self).started_at == old(self).started_at,
    {
        self.phase = "building_albums".to_owned();
    }

    /// A failed scan: the error state and phase with the message.
    pub fn fail(&mut self, message: String, now: u64)
        ensures
            final(self).state == ScanState::Error,
            final(self).phase@ == "error"@,
            final(self).error == Some(message),
            final(self).elapsed_seconds == elapsed_spec(old(self).started_at, now),
            final(self).found == old(self).found,
            final(self).processed == old(self).processed,
            final(self).errors == old(self).errors,
            final(self).workers == old(self).workers,
            final(self).started_at == old(self).started_at,
    {
        self.state = ScanState::Error;
        self.phase = "error".to_owned();
        self.error = Some(message);
        self.update_elapsed(now);
    }

    /// A completed rescan: ready, with the scan's counts.
    pub fn complete(&mut self, report: &RescanReport, now: u64)
        requires
            report.scan.analyzed + report.scan.reused + report.scan.errors <= usize::MAX,
        ensures
            final(self).state == ScanState::Ready,
            final(self).phase@ == "ready"@,
            final(self).found == report.scan.found,
            final(self).processed == report.scan.analyzed + report.scan.reused + report.scan.errors,
            final(self).errors == report.scan.errors,
            final(self).elapsed_seconds == elapsed_spec(old(self).started_at, now),
            final(self).workers == old(self).workers,
            final(self).error == old(self).error,
            final(self).started_at == old(self).started_at,
    {
        self.state = ScanState::Ready;
        self.phase = "ready".to_owned();
        self.found = report.scan.found;
        self.processed = report.scan.analyzed + report.scan.reused + report.scan.errors;
        self.errors = report.scan.errors;
        self.update_elapsed(now);
    }
}

/// Whether an initial scan is still owed.
pub fn needs_initial_scan(status: &ScanStatus) -> (r: bool)
    ensures
        r == (status.state == ScanState::Starting),
{
    match status.state {
        ScanState::Starting => true,
        _ => false,
    }
}

/// Whether scan progress is worth a log line: every hundredth processed photo.
pub fn progress_worth_logging(processed: usize) -> (r: bool)
    ensures
        r == (processed > 0 && processed % 100 == 0),
{
    processed > 0 && processed % 100 == 0
}

/// The queue of album-description work: whether a pass is running, and the batch
/// waiting for the next pass.
#[derive(Debug, Clone, Default, PartialEq, Eq)]
pub struct AiSchedule<T> {
    pub running: bool,
    pub pending: Vec<T>,
}

/// Whether a pass must be started after scheduling.
#[derive(Debug, Clone, Copy, PartialEq, Eq, Structural)]
pub enum ScheduleAction {
    StartPass,
    AlreadyRunning,
    NothingToDo,
}

/// The queue after scheduling `inputs`: unchanged for an empty batch; otherwise the
/// batch replaces the pending one and a pass is running.
pub open spec fn schedule_spec<T>(running: bool, pending: Seq<T>, inputs: Seq<T>) -> (bool, Seq<T>) {
    if inputs.len() == 0 {
        (running, pending)
    } else {
        (true, inputs)
    }
}

/// The batch a running pass takes next from the queue, and the queue after.
pub open spec fn next_batch_spec<T>(running: bool, pending: Seq<T>) -> (Option<Seq<T>>, bool, Seq<T>) {
    if pending.len() == 0 {
        (None, false, Seq::empty())
    } else {
        (Some(pending), running, Seq::empty())
    }
}

/// Work scheduled while a pass runs is not lost and not repeated: the pass takes the
/// latest non-empty batch scheduled, once, and then, with nothing left, stops.
pub proof fn lemma_latest_batch_taken_once<T>(running: bool, pending: Seq<T>, first: Seq<T>, second: Seq<T>)
    requires
        second.len() > 0,
    ensures
        ({
            let (r1, p1) = schedule_spec(running, pending, first);
            let (r2, p2) = schedule_spec(r1, p1, second);
            let (taken, r3, p3) = next_batch_spec(r2, p2);
            let (again, r4, p4) = next_batch_spec(r3, p3);
            &&& taken == Some(second)
            &&& again is None
            &&& !r4
            &&& p4.len() == 0
        }),
{
}

impl<T> AiSchedule<T> {
    /// Schedules a batch. An empty batch changes nothing. Otherwise the batch replaces
    /// any pending one; a pass is started unless one is running.
    pub fn schedule(&mut self, inputs: Vec<T>) -> (a: ScheduleAction)
        ensures
            inputs@.len() == 0 ==> a == ScheduleAction::NothingToDo && final(self).running == old(self).running
                && final(self).pending@ == old(self).pending@,
            inputs@.len() > 0 ==> final(self).pending@ == inputs@ && final(self).running,
            inputs@.len() > 0 && old(self).running ==> a == ScheduleAction::AlreadyRunning,
            inputs@.len() > 0 && !old(self).running ==> a == ScheduleAction::StartPass,
            (final(self).running, final(self).pending@) == schedule_spec(old(self).running, old(self).pending@, inputs@),
    {
        if inputs.len() == 0 {
            return ScheduleAction::NothingToDo;
        }
        self.pending = inputs;
        if self.running {
            return ScheduleAction::AlreadyRunning;
        }
        self.running = true;
        ScheduleAction::StartPass
    }

    /// What the running pass does next: take the whole pending batch, or, with none
    /// left, stop and mark the queue idle (`None`).
    pub fn next_batch(&mut self) -> (b: Option<Vec<T>>)
        ensures
            old(self).pending@.len() == 0 ==> b is None && !final(self).running && final(self).pending@.len() == 0,
            old(self).pending@.len() > 0 ==> (b matches Some(v) && v@ == old(self).pending@),
            old(self).pending@.len() > 0 ==> final(self).pending@.len() == 0 && final(self).running == old(self).running,
            (match b {
                Some(v) => Some(v@),
                None => None,
            }, final(self).running, final(self).pending@) == next_batch_spec(old(self).running, old(self).pending@),
    {
        if self.pending.len() == 0 {
            self.running = false;
            return None;
        }
        let mut taken: Vec<T> = Vec::new();
        std::mem::swap(&mut taken, &mut self.pending);
        Some(taken)
    }
}

} // verus!
