//! Deleting the logs of old runs: which runs are due, in which order, and when
//! there is room for the logs of another run.

use vstd::prelude::*;

use crate::error::{optional_text, plain_error, AppError, ErrorCode, ErrorView};
use crate::paths::{below, is_run_directory, is_same_path};
use crate::registry::{without, ManagedLogReaderRegistry, RegistryView};
use crate::run::{Controls, Platform, RunControl};
use crate::text::{copy_optional, decimal, decimal_text, same_text, text_before, text_less};
use crate::timestamp::{timestamp_for_system_time, written_at, UnixTime};

verus! {

/// The bytes that all logs together may take.
pub const MANAGED_LOG_RETENTION_MAX_TOTAL_BYTES: u64 = 1_073_741_824;

/// The age at which the log of a run is deleted, in seconds: thirty days.
pub const MANAGED_LOG_RETENTION_MAX_AGE_SECONDS: u64 = 2_592_000;

/// How many runs are asked for at once.
pub const MANAGED_LOG_RETENTION_PAGE_SIZE: usize = 64;

/// How often runs are asked for in one pass.
pub const MANAGED_LOG_RETENTION_MAX_PAGES: usize = 4;

/// How many runs may keep their logs.
pub const MAX_RETAINED_MANAGED_LOG_RUNS: u64 = 256;

/// How often expired audit events are deleted in one pass.
pub const AUDIT_RETENTION_MAX_BATCHES_PER_PASS: usize = 4;

/// The bytes that are set aside for a run: while it is captured, and where the
/// size of its files could not be found out.
#[derive(Clone, Copy, Debug, PartialEq, Eq, Structural)]
pub struct RetentionLimits {
    pub default_bytes_per_run: u64,
    pub hard_maximum_bytes_per_run: u64,
}

/// The number of runs that the logs have room for.
pub fn maximum_active_runs(limits: RetentionLimits) -> (runs: u64)
    requires
        limits.default_bytes_per_run > 0,
    ensures
        runs == MANAGED_LOG_RETENTION_MAX_TOTAL_BYTES as nat / limits.default_bytes_per_run as nat,
{
    MANAGED_LOG_RETENTION_MAX_TOTAL_BYTES / limits.default_bytes_per_run
}

/// A run whose log may be deleted.
#[derive(Debug)]
pub struct RetentionCandidate {
    pub run_id: String,
    pub log_directory: String,
    pub retention_timestamp: String,
    pub deletion_started_at: Option<String>,
}

/// What a look at the files of a log found.
#[derive(Clone, Copy, Debug, PartialEq, Eq, Structural)]
pub enum DiskFinding {
    Missing,
    Present { retained_bytes: u64 },
    Unreadable,
}

/// What is known of a candidate: whether the supervisor holds the run, whether
/// its log is being captured, and, where neither holds, what its files are.
#[derive(Clone, Copy, Debug, PartialEq, Eq, Structural)]
pub struct CandidateFinding {
    pub controlled: bool,
    pub active_reader: bool,
    pub disk: DiskFinding,
}

impl CandidateFinding {
    /// A log that is in use is not touched.
    pub open spec fn is_protected(self) -> bool {
        self.controlled || self.active_reader
    }
}

/// A candidate that may be deleted.
#[derive(Debug)]
pub struct InspectedCandidate {
    pub candidate: RetentionCandidate,
    pub reserved_bytes: u64,
    pub missing: bool,
    pub removed: bool,
}

/// The refusal of more logs than there is room for.
pub open spec fn capacity_error() -> ErrorView {
    plain_error(
        ErrorCode::StorageError,
        "managed run log retention capacity is not yet available"@,
    ).retry().with(
        "maximumRetainedBytes"@,
        decimal_text(MANAGED_LOG_RETENTION_MAX_TOTAL_BYTES as nat),
    )
}

pub fn managed_log_retention_capacity_error() -> (error: AppError)
    ensures
        error@ == capacity_error(),
{
    AppError::new(
        ErrorCode::StorageError,
        "managed run log retention capacity is not yet available",
    ).as_retryable().with_detail(
        "maximumRetainedBytes",
        decimal(MANAGED_LOG_RETENTION_MAX_TOTAL_BYTES).as_str(),
    )
}

pub fn managed_log_retention_worker_error() -> (error: AppError)
    ensures
        error@ == plain_error(
            ErrorCode::Internal,
            "managed run log retention worker failed"@,
        ).retry(),
{
    AppError::new(ErrorCode::Internal, "managed run log retention worker failed").as_retryable()
}

/// The moment before which a log is too old to be kept; none stands for a
/// moment before 1970.
pub fn retention_cutoff(now: UnixTime) -> (cutoff: Option<UnixTime>)
    ensures
        match cutoff {
            Some(cutoff) => cutoff.seconds + MANAGED_LOG_RETENTION_MAX_AGE_SECONDS == now.seconds
                && cutoff.nanoseconds == now.nanoseconds,
            None => now.seconds < MANAGED_LOG_RETENTION_MAX_AGE_SECONDS,
        },
{
    if now.seconds < MANAGED_LOG_RETENTION_MAX_AGE_SECONDS {
        return None;
    }
    Some(
        UnixTime {
            seconds: now.seconds - MANAGED_LOG_RETENTION_MAX_AGE_SECONDS,
            nanoseconds: now.nanoseconds,
        },
    )
}

/// The text of that moment, for a reading of the clock; none stands for a clock
/// before 1970.
pub fn cutoff_timestamp(now: Option<UnixTime>) -> (result: Result<String, AppError>)
    ensures
        match result {
            Ok(text) => {
                &&& now is Some
                &&& now->0.seconds >= MANAGED_LOG_RETENTION_MAX_AGE_SECONDS
                &&& written_at(
                    text@,
                    (UnixTime {
                        seconds: (now->0.seconds - MANAGED_LOG_RETENTION_MAX_AGE_SECONDS) as u64,
                        nanoseconds: now->0.nanoseconds,
                    }),
                )
            },
            Err(error) => (now is None || now->0.seconds < MANAGED_LOG_RETENTION_MAX_AGE_SECONDS)
                && error@ == plain_error(
                ErrorCode::PlatformError,
                "system clock is before Unix epoch"@,
            ),
        },
{
    let cutoff = match now {
        Some(now) => retention_cutoff(now),
        None => None,
    };
    timestamp_for_system_time(cutoff)
}

/// Whether more runs are asked for: the last page was full, and
/// the pass has not asked for as many as it may.
pub fn wants_next_page(pages_read: usize, last_page_length: usize) -> (wants: bool)
    ensures
        wants == (last_page_length >= MANAGED_LOG_RETENTION_PAGE_SIZE && pages_read
            < MANAGED_LOG_RETENTION_MAX_PAGES),
{
    last_page_length >= MANAGED_LOG_RETENTION_PAGE_SIZE && pages_read
        < MANAGED_LOG_RETENTION_MAX_PAGES
}

/// The candidates that have been read, and in how many pages.
#[derive(Debug)]
pub struct CandidatePages {
    pub candidates: Vec<RetentionCandidate>,
    pub pages_read: usize,
}

/// What the reading of candidates does next.
#[derive(Debug)]
pub enum CandidateStep {
    /// Read the page behind the candidate of a time and a run.
    ReadOn { pages: CandidatePages, after_timestamp: String, after_run_id: String },
    /// These are the candidates of the pass.
    Complete(Vec<RetentionCandidate>),
}

/// Takes a page of candidates in. It is asked for more behind its last one while
/// the pages are full and the pass may read on.
pub fn load_managed_log_retention_candidates(
    pages: CandidatePages,
    page: Vec<RetentionCandidate>,
) -> (step: CandidateStep)
    requires
        pages.pages_read < MANAGED_LOG_RETENTION_MAX_PAGES,
    ensures
        ({
            let more = page@.len() >= MANAGED_LOG_RETENTION_PAGE_SIZE && pages.pages_read + 1
                < MANAGED_LOG_RETENTION_MAX_PAGES;
            match step {
                CandidateStep::ReadOn { pages: next, after_timestamp, after_run_id } => {
                    &&& more
                    &&& next.candidates@ == pages.candidates@ + page@
                    &&& next.pages_read == pages.pages_read + 1
                    &&& after_timestamp@ == page@.last().retention_timestamp@
                    &&& after_run_id@ == page@.last().run_id@
                },
                CandidateStep::Complete(candidates) => !more && candidates@ == pages.candidates@
                    + page@,
            }
        }),
{
    let mut candidates = pages.candidates;
    let mut page = page;
    let length: usize = page.len();
    let pages_read: usize = pages.pages_read + 1;
    if wants_next_page(pages_read, length) {
        let after_timestamp = page[length - 1].retention_timestamp.clone();
        let after_run_id = page[length - 1].run_id.clone();
        candidates.append(&mut page);
        CandidateStep::ReadOn {
            pages: CandidatePages { candidates, pages_read },
            after_timestamp,
            after_run_id,
        }
    } else {
        candidates.append(&mut page);
        CandidateStep::Complete(candidates)
    }
}

/// Whether more expired audit events are deleted: the last batch was full, and
/// the pass has not deleted as many as it may. A failed batch counts as empty.
pub fn wants_next_audit_batch(batches: usize, deleted: Option<u64>, batch_size: u32) -> (wants: bool)
    ensures
        wants == (batches < AUDIT_RETENTION_MAX_BATCHES_PER_PASS && (match deleted {
            Some(deleted) => deleted,
            None => 0,
        }) >= batch_size),
{
    let deleted: u64 = match deleted {
        Some(deleted) => deleted,
        None => 0,
    };
    batches < AUDIT_RETENTION_MAX_BATCHES_PER_PASS && deleted >= batch_size as u64
}

/// The bytes that are counted for a log that may be deleted.
pub open spec fn counted_bytes(limits: RetentionLimits, disk: DiskFinding) -> u64 {
    match disk {
        DiskFinding::Missing => 0,
        DiskFinding::Present { retained_bytes } => retained_bytes,
        DiskFinding::Unreadable => limits.hard_maximum_bytes_per_run,
    }
}

/// The bytes of the logs that may be deleted.
pub open spec fn found_bytes(limits: RetentionLimits, findings: Seq<CandidateFinding>) -> nat
    decreases findings.len(),
{
    if findings.len() == 0 {
        0
    } else {
        let rest = found_bytes(limits, findings.drop_last());
        if findings.last().is_protected() {
            rest
        } else {
            rest + counted_bytes(limits, findings.last().disk) as nat
        }
    }
}

/// The runs whose log is still being captured though they are no longer held.
pub open spec fn reader_only_runs(findings: Seq<CandidateFinding>) -> nat
    decreases findings.len(),
{
    if findings.len() == 0 {
        0
    } else {
        reader_only_runs(findings.drop_last()) + (if !findings.last().controlled
            && findings.last().active_reader {
            1nat
        } else {
            0nat
        })
    }
}

/// The candidates that may be deleted, in their order.
pub open spec fn deletable(
    limits: RetentionLimits,
    candidates: Seq<RetentionCandidate>,
    findings: Seq<CandidateFinding>,
) -> Seq<InspectedCandidate>
    decreases candidates.len(),
{
    if candidates.len() == 0 {
        Seq::empty()
    } else {
        let rest = deletable(limits, candidates.drop_last(), findings.drop_last());
        if findings.last().is_protected() {
            rest
        } else {
            rest.push(
                InspectedCandidate {
                    candidate: candidates.last(),
                    reserved_bytes: counted_bytes(limits, findings.last().disk),
                    missing: findings.last().disk is Missing,
                    removed: false,
                },
            )
        }
    }
}

/// The bytes of the candidates that have not been removed.
pub open spec fn kept_bytes(inspected: Seq<InspectedCandidate>) -> nat
    decreases inspected.len(),
{
    if inspected.len() == 0 {
        0
    } else {
        kept_bytes(inspected.drop_last()) + (if inspected.last().removed {
            0nat
        } else {
            inspected.last().reserved_bytes as nat
        })
    }
}

/// The number of candidates that have been removed.
pub open spec fn removed_count(inspected: Seq<InspectedCandidate>) -> nat
    decreases inspected.len(),
{
    if inspected.len() == 0 {
        0
    } else {
        removed_count(inspected.drop_last()) + (if inspected.last().removed {
            1nat
        } else {
            0nat
        })
    }
}

/// One pass over the logs that may be deleted.
#[derive(Debug)]
pub struct RetentionPass {
    pub inspected: Vec<InspectedCandidate>,
    pub retained_bytes: u64,
    pub candidate_count: u64,
    pub remaining_candidates: u64,
    pub truncated: bool,
    pub retained_budget: u64,
}

impl RetentionPass {
    /// The counters of a pass are what its candidates say.
    pub open spec fn wf(self) -> bool {
        &&& self.retained_bytes == kept_bytes(self.inspected@)
        &&& self.remaining_candidates == (if removed_count(self.inspected@)
            <= self.candidate_count {
            self.candidate_count - removed_count(self.inspected@)
        } else {
            0
        })
        &&& self.retained_budget <= MANAGED_LOG_RETENTION_MAX_TOTAL_BYTES
    }

    /// Whether the log of a candidate has to go: its deletion was begun, its
    /// files are gone, it is too old, or there are too many or too large logs.
    pub open spec fn is_due(self, index: int, cutoff: Seq<char>) -> bool {
        let entry = self.inspected@[index];
        ||| entry.candidate.deletion_started_at is Some
        ||| entry.missing
        ||| !text_before(cutoff, entry.candidate.retention_timestamp@)
        ||| self.remaining_candidates > MAX_RETAINED_MANAGED_LOG_RUNS
        ||| !self.truncated && self.retained_bytes > self.retained_budget
    }

    /// Whether the logs that are left fit.
    pub open spec fn fits(self) -> bool {
        &&& !self.truncated
        &&& self.remaining_candidates <= MAX_RETAINED_MANAGED_LOG_RUNS
        &&& self.retained_bytes <= self.retained_budget
    }
}

proof fn lemma_nothing_removed(
    limits: RetentionLimits,
    candidates: Seq<RetentionCandidate>,
    findings: Seq<CandidateFinding>,
)
    requires
        candidates.len() == findings.len(),
    ensures
        kept_bytes(deletable(limits, candidates, findings)) == found_bytes(limits, findings),
        removed_count(deletable(limits, candidates, findings)) == 0,
    decreases candidates.len(),
{
    if candidates.len() > 0 {
        lemma_nothing_removed(limits, candidates.drop_last(), findings.drop_last());
        let rest = deletable(limits, candidates.drop_last(), findings.drop_last());
        let all = deletable(limits, candidates, findings);
        if !findings.last().is_protected() {
            assert(all.drop_last() =~= rest);
        }
    }
}

proof fn lemma_found_bytes_grow(limits: RetentionLimits, findings: Seq<CandidateFinding>, end: int)
    requires
        0 <= end <= findings.len(),
    ensures
        found_bytes(limits, findings.subrange(0, end)) <= found_bytes(limits, findings),
        reader_only_runs(findings.subrange(0, end)) <= reader_only_runs(findings),
        reader_only_runs(findings) <= findings.len(),
    decreases findings.len(),
{
    if end < findings.len() {
        lemma_found_bytes_grow(limits, findings.drop_last(), end);
        assert(findings.drop_last().subrange(0, end) =~= findings.subrange(0, end));
    } else {
        assert(findings.subrange(0, end) =~= findings);
        if findings.len() > 0 {
            lemma_found_bytes_grow(limits, findings.drop_last(), end - 1);
        }
    }
}

/// Begins a pass. Room is set aside for the runs that are held, for those that
/// are about to start, and for those whose capture has not ended.
pub fn begin_retention_pass(
    limits: RetentionLimits,
    candidates: Vec<RetentionCandidate>,
    findings: &Vec<CandidateFinding>,
    candidate_count: u64,
    active_runs: usize,
    additional_active_reservations: usize,
) -> (result: Result<RetentionPass, AppError>)
    requires
        candidates@.len() == findings@.len(),
    ensures
        ({
            let bytes = found_bytes(limits, findings@);
            let reservations = active_runs + additional_active_reservations + reader_only_runs(
                findings@,
            );
            let active_bytes = reservations * limits.default_bytes_per_run;
            let room = bytes <= u64::MAX && reservations <= usize::MAX && active_bytes
                <= MANAGED_LOG_RETENTION_MAX_TOTAL_BYTES;
            match result {
                Ok(pass) => {
                    &&& room
                    &&& pass.wf()
                    &&& pass.inspected@ == deletable(limits, candidates@, findings@)
                    &&& pass.candidate_count == candidate_count
                    &&& pass.truncated == (candidate_count > candidates@.len())
                    &&& pass.retained_budget == MANAGED_LOG_RETENTION_MAX_TOTAL_BYTES
                        - active_bytes
                },
                Err(error) => !room && error@ == capacity_error(),
            }
        }),
{
    let truncated = candidate_count > candidates.len() as u64;
    let mut inspected: Vec<InspectedCandidate> = Vec::new();
    let mut retained_bytes: u64 = 0;
    let mut reader_only: usize = 0;
    let mut pending = candidates;
    let total: usize = pending.len();
    let ghost all = pending@;
    let mut i: usize = 0;
    // The candidates are moved out one by one, from the front.
    assert(all.subrange(0, 0) =~= Seq::empty());
    assert(findings@.subrange(0, 0) =~= Seq::empty());
    assert(all.subrange(0, all.len() as int) =~= all);
    while i < total
        invariant
            i <= total,
            total == findings@.len(),
            all == candidates@,
            all.len() == total,
            pending@ == all.subrange(i as int, total as int),
            inspected@ == deletable(
                limits,
                all.subrange(0, i as int),
                findings@.subrange(0, i as int),
            ),
            retained_bytes == found_bytes(limits, findings@.subrange(0, i as int)),
            reader_only == reader_only_runs(findings@.subrange(0, i as int)),
            reader_only <= i,
        decreases total - i,
    {
        let finding = findings[i];
        let candidate = pending.remove(0);
        proof {
            let shorter = findings@.subrange(0, i as int);
            let longer = findings@.subrange(0, i + 1);
            assert(longer.drop_last() =~= shorter);
            assert(longer.last() == finding);
            assert(all.subrange(0, i + 1).drop_last() =~= all.subrange(0, i as int));
            assert(all.subrange(0, i + 1).last() == candidate);
            assert(pending@ =~= all.subrange(i + 1, total as int));
            lemma_found_bytes_grow(limits, findings@, i + 1);
        }
        if finding.controlled || finding.active_reader {
            if !finding.controlled {
                reader_only = reader_only + 1;
            }
        } else {
            let (reserved_bytes, missing): (u64, bool) = match finding.disk {
                DiskFinding::Missing => (0, true),
                DiskFinding::Present { retained_bytes } => (retained_bytes, false),
                DiskFinding::Unreadable => (limits.hard_maximum_bytes_per_run, false),
            };
            retained_bytes = match retained_bytes.checked_add(reserved_bytes) {
                Some(sum) => sum,
                None => return Err(managed_log_retention_capacity_error()),
            };
            inspected.push(
                InspectedCandidate { candidate, reserved_bytes, missing, removed: false },
            );
        }
        i += 1;
    }
    proof {
        assert(all.subrange(0, total as int) =~= all);
        assert(findings@.subrange(0, total as int) =~= findings@);
        lemma_nothing_removed(limits, candidates@, findings@);
    }
    let ghost reservations = active_runs + additional_active_reservations + reader_only;
    let count = match active_runs.checked_add(additional_active_reservations) {
        Some(count) => match count.checked_add(reader_only) {
            Some(count) => count,
            None => return Err(managed_log_retention_capacity_error()),
        },
        None => return Err(managed_log_retention_capacity_error()),
    };
    let active_bytes: u64 = match (count as u64).checked_mul(limits.default_bytes_per_run) {
        Some(bytes) => bytes,
        None => return Err(managed_log_retention_capacity_error()),
    };
    if active_bytes > MANAGED_LOG_RETENTION_MAX_TOTAL_BYTES {
        return Err(managed_log_retention_capacity_error());
    }
    Ok(
        RetentionPass {
            inspected,
            retained_bytes,
            candidate_count,
            remaining_candidates: candidate_count,
            truncated,
            retained_budget: MANAGED_LOG_RETENTION_MAX_TOTAL_BYTES - active_bytes,
        },
    )
}

/// The first candidate from a place on whose log has to go.
pub open spec fn is_first_due(
    pass: RetentionPass,
    from: int,
    cutoff: Seq<char>,
    next: Option<usize>,
) -> bool {
    match next {
        Some(i) => from <= i < pass.inspected@.len() && pass.is_due(i as int, cutoff) && forall|
            k: int,
        |
            from <= k < i ==> !#[trigger] pass.is_due(k, cutoff),
        None => forall|k: int|
            from <= k < pass.inspected@.len() ==> !#[trigger] pass.is_due(k, cutoff),
    }
}

/// The next candidate from a place on whose log has to go.
pub fn next_due_candidate(pass: &RetentionPass, from: usize, cutoff: &str) -> (next: Option<usize>)
    ensures
        is_first_due(*pass, from as int, cutoff@, next),
{
    let mut i: usize = from;
    while i < pass.inspected.len()
        invariant
            from <= i,
            forall|k: int| from <= k < i ==> !#[trigger] pass.is_due(k, cutoff@),
        decreases pass.inspected@.len() - i,
    {
        let entry = &pass.inspected[i];
        if entry.candidate.deletion_started_at.is_some() || entry.missing || !text_less(
            cutoff,
            entry.candidate.retention_timestamp.as_str(),
        ) || pass.remaining_candidates > MAX_RETAINED_MANAGED_LOG_RUNS || (!pass.truncated
            && pass.retained_bytes > pass.retained_budget) {
            assert(pass.is_due(i as int, cutoff@));
            return Some(i);
        }
        assert(!pass.is_due(i as int, cutoff@));
        i += 1;
    }
    None
}

pub(crate) proof fn lemma_one_removed(inspected: Seq<InspectedCandidate>, index: int)
    requires
        0 <= index < inspected.len(),
        !inspected[index].removed,
    ensures
        ({
            let after = inspected.update(
                index,
                (InspectedCandidate { removed: true, ..inspected[index] }),
            );
            &&& kept_bytes(after) + inspected[index].reserved_bytes == kept_bytes(inspected)
            &&& removed_count(after) == removed_count(inspected) + 1
        }),
    decreases inspected.len(),
{
    let after = inspected.update(
        index,
        (InspectedCandidate { removed: true, ..inspected[index] }),
    );
    if index == inspected.len() - 1 {
        assert(after.drop_last() =~= inspected.drop_last());
    } else {
        lemma_one_removed(inspected.drop_last(), index);
        assert(after.drop_last() =~= inspected.drop_last().update(
            index,
            (InspectedCandidate { removed: true, ..inspected[index] }),
        ));
    }
}

/// What came of the removal of a log.
#[derive(Clone, Copy, Debug, PartialEq, Eq, Structural)]
pub enum RemovalOutcome {
    Deleted,
    /// The run is in use again.
    Protected,
    /// The store shows something else than before.
    StateChanged,
}

/// Counts a log that was removed. A removal that failed or was not made leaves
/// the pass as it is.
pub fn count_removal(pass: &mut RetentionPass, index: usize, outcome: RemovalOutcome)
    requires
        old(pass).wf(),
        index < old(pass).inspected@.len(),
        !old(pass).inspected@[index as int].removed,
    ensures
        final(pass).wf(),
        final(pass).candidate_count == old(pass).candidate_count,
        final(pass).truncated == old(pass).truncated,
        final(pass).retained_budget == old(pass).retained_budget,
        final(pass).inspected@ == (if outcome == RemovalOutcome::Deleted {
            old(pass).inspected@.update(
                index as int,
                (InspectedCandidate { removed: true, ..old(pass).inspected@[index as int] }),
            )
        } else {
            old(pass).inspected@
        }),
{
    if outcome == RemovalOutcome::Deleted {
        proof {
            lemma_one_removed(pass.inspected@, index as int);
        }
        let entry = pass.inspected.remove(index);
        let reserved: u64 = entry.reserved_bytes;
        let mut entry = entry;
        entry.removed = true;
        pass.inspected.insert(index, entry);
        proof {
            assert(pass.inspected@ =~= old(pass).inspected@.update(index as int, entry));
        }
        pass.retained_bytes = pass.retained_bytes.saturating_sub(reserved);
        pass.remaining_candidates = pass.remaining_candidates.saturating_sub(1);
    }
}

/// Ends a pass: there is room where every candidate was seen and those that are
/// left are neither too many nor too large.
pub fn finish_retention_pass(pass: &RetentionPass) -> (result: Result<(), AppError>)
    ensures
        match result {
            Ok(_) => pass.fits(),
            Err(error) => !pass.fits() && error@ == capacity_error(),
        },
{
    if pass.truncated || pass.remaining_candidates > MAX_RETAINED_MANAGED_LOG_RUNS
        || pass.retained_bytes > pass.retained_budget {
        return Err(managed_log_retention_capacity_error());
    }
    Ok(())
}

/// What to do with a candidate whose log has to go.
#[derive(Debug)]
pub enum RemovalStep {
    Protected,
    StateChanged,
    /// Store that the deletion has begun. A deletion that was begun before goes
    /// on under its own time; a new one gets a time after the given one.
    Begin { started_before: Option<String>, after: String },
}

/// The refusal to delete a directory that is not the run's own.
pub open spec fn identity_error() -> ErrorView {
    plain_error(
        ErrorCode::StorageError,
        "managed run log retention identity is inconsistent"@,
    ).with("stage"@, "ValidateManagedLogRetentionIdentity"@)
}

/// What is decided about a candidate whose log has to go, right before it does.
pub open spec fn removal_decided(
    controls: Map<Seq<char>, RunControl>,
    before: RegistryView,
    candidate: RetentionCandidate,
    current: Option<RetentionCandidate>,
    platform: Platform,
    log_root: Seq<char>,
    result: Result<RemovalStep, AppError>,
    after: RegistryView,
) -> bool {
    let run_id = candidate.run_id@;
    let held = controls.dom().contains(run_id);
    let captured = before.entries.dom().contains(run_id) && before.entries[run_id].active;
    if held {
        result is Ok && result->Ok_0 is Protected && after == before
    } else {
        match current {
            None => result is Ok && result->Ok_0 is StateChanged && after == before,
            Some(current) => if !is_same_path(
                platform,
                candidate.log_directory@,
                below(platform, log_root, run_id),
            ) || current.log_directory@ != candidate.log_directory@ {
                result is Err && result->Err_0@ == identity_error() && after == before
            } else if captured {
                result is Ok && result->Ok_0 is Protected && after == before
            } else {
                &&& after.entries == before.entries.remove(run_id)
                &&& after.completed == without(before.completed, run_id)
                &&& match result {
                    Ok(RemovalStep::Begin { started_before, after }) => {
                        &&& optional_text(started_before) == optional_text(
                            current.deletion_started_at,
                        )
                        &&& after@ == current.retention_timestamp@
                    },
                    _ => false,
                }
            },
        }
    }
}

/// Decides about a candidate whose log has to go, right before it does: a run
/// that is held or captured again stays, and so does a directory that is not
/// the one that belongs to the run.
pub fn remove_managed_log_retention_candidate(
    controls: &Controls,
    registry: &mut ManagedLogReaderRegistry,
    candidate: &RetentionCandidate,
    current: Option<&RetentionCandidate>,
    platform: Platform,
    log_root: &str,
) -> (result: Result<RemovalStep, AppError>)
    requires
        controls.wf(),
        old(registry).wf(),
    ensures
        final(registry).wf(),
        removal_decided(
            controls@,
            old(registry)@,
            *candidate,
            match current {
                Some(current) => Some(*current),
                None => None,
            },
            platform,
            log_root@,
            result,
            final(registry)@,
        ),
{
    if controls.contains(candidate.run_id.as_str()) {
        return Ok(RemovalStep::Protected);
    }
    let current = match current {
        Some(current) => current,
        None => return Ok(RemovalStep::StateChanged),
    };
    if !is_run_directory(
        platform,
        log_root,
        candidate.run_id.as_str(),
        candidate.log_directory.as_str(),
    ) || !same_text(
        current.log_directory.as_str(),
        candidate.log_directory.as_str(),
    ) {
        return Err(
            AppError::new(
                ErrorCode::StorageError,
                "managed run log retention identity is inconsistent",
            ).with_detail("stage", "ValidateManagedLogRetentionIdentity"),
        );
    }
    if !registry.evict_for_retention(candidate.run_id.as_str()) {
        return Ok(RemovalStep::Protected);
    }
    Ok(
        RemovalStep::Begin {
            started_before: copy_optional(&current.deletion_started_at),
            after: current.retention_timestamp.clone(),
        },
    )
}

/// What came of a removal once its steps were stored: a step that the store did
/// not take means that something else changed the run.
pub fn removal_outcome(deletion_started: bool, deletion_marked: bool) -> (outcome: RemovalOutcome)
    ensures
        outcome == (if deletion_started && deletion_marked {
            RemovalOutcome::Deleted
        } else {
            RemovalOutcome::StateChanged
        }),
{
    if deletion_started && deletion_marked {
        RemovalOutcome::Deleted
    } else {
        RemovalOutcome::StateChanged
    }
}

/// Whether a run is in use: held by the supervisor, or with a log that is being
/// captured.
pub fn retention_candidate_protection(
    controls: &Controls,
    registry: &ManagedLogReaderRegistry,
    run_id: &str,
) -> (protection: (bool, bool))
    requires
        controls.wf(),
        registry.wf(),
    ensures
        protection.0 == controls@.dom().contains(run_id@),
        protection.1 == (registry@.entries.dom().contains(run_id@)
            && registry@.entries[run_id@].active),
{
    (controls.contains(run_id), registry.is_active(run_id))
}

/// What has been done last in a pass.
#[derive(Clone, Copy, Debug, PartialEq, Eq, Structural)]
pub enum CleanupEvent {
    /// The candidates have been looked at.
    Inspected,
    /// The removal of the log at a place was tried; none stands for a failure.
    Removed { place: usize, outcome: Option<RemovalOutcome> },
    /// That many batches of expired audit events have been deleted, the last
    /// with so many events; none stands for a failure.
    AuditEventsDeleted { batches: usize, deleted: Option<u64> },
}

/// What a pass does next.
#[derive(Debug)]
pub enum CleanupAction {
    /// Remove the log of the candidate at a place.
    Remove { place: usize },
    /// Delete a batch of expired audit events; it is the given one of the pass.
    DeleteAuditEvents { batch: usize },
    /// The pass is over.
    Finish(Result<(), AppError>),
}

impl CleanupEvent {
    /// A removal is told of a log that has not been removed before.
    pub open spec fn fits(self, pass: RetentionPass) -> bool {
        match self {
            CleanupEvent::Removed { place, .. } => place < pass.inspected@.len()
                && !pass.inspected@[place as int].removed,
            _ => true,
        }
    }
}

/// The candidates once an event has been counted.
pub open spec fn inspected_after(pass: RetentionPass, event: CleanupEvent) -> Seq<
    InspectedCandidate,
> {
    match event {
        CleanupEvent::Removed { place, outcome: Some(RemovalOutcome::Deleted) } =>
            pass.inspected@.update(
            place as int,
            (InspectedCandidate { removed: true, ..pass.inspected@[place as int] }),
        ),
        _ => pass.inspected@,
    }
}

/// The step from a place on: the first log that has to go, or, where none has,
/// the audit events.
pub open spec fn goes_on(
    pass: RetentionPass,
    cutoff: Seq<char>,
    from: int,
    action: CleanupAction,
) -> bool {
    match action {
        CleanupAction::Remove { place } => {
            &&& from <= place < pass.inspected@.len()
            &&& pass.is_due(place as int, cutoff)
            &&& forall|k: int| from <= k < place ==> !#[trigger] pass.is_due(k, cutoff)
        },
        CleanupAction::DeleteAuditEvents { batch } => {
            &&& batch == 1
            &&& forall|k: int|
                from <= k < pass.inspected@.len() ==> !#[trigger] pass.is_due(k, cutoff)
        },
        CleanupAction::Finish(_) => false,
    }
}

/// Whether another batch of audit events follows.
pub open spec fn more_audit_events(batches: int, deleted: Option<u64>, batch_size: u32) -> bool {
    batches < AUDIT_RETENTION_MAX_BATCHES_PER_PASS && (match deleted {
        Some(deleted) => deleted,
        None => 0,
    }) >= batch_size
}

/// What follows an event of a pass.
pub open spec fn cleanup_follows(
    before: RetentionPass,
    cutoff: Seq<char>,
    event: CleanupEvent,
    audit_batch_size: u32,
    action: CleanupAction,
    after: RetentionPass,
) -> bool {
    &&& after.inspected@ == inspected_after(before, event)
    &&& after.candidate_count == before.candidate_count
    &&& after.truncated == before.truncated
    &&& after.retained_budget == before.retained_budget
    &&& match event {
        CleanupEvent::Inspected => goes_on(after, cutoff, 0, action),
        CleanupEvent::Removed { place, .. } => goes_on(after, cutoff, place + 1, action),
        CleanupEvent::AuditEventsDeleted { batches, deleted } => if more_audit_events(
            batches as int,
            deleted,
            audit_batch_size,
        ) {
            action matches CleanupAction::DeleteAuditEvents { batch } && batch == batches + 1
        } else {
            action matches CleanupAction::Finish(result) && match result {
                Ok(_) => after.fits(),
                Err(error) => !after.fits() && error@ == capacity_error(),
            }
        },
    }
}

/// The steps of a pass: each log that has to go is removed, in order, by what
/// is left at its turn; then expired audit events are deleted; and only then it
/// is said whether there is room. A failed removal does not end the pass.
pub fn run_managed_log_retention_cleanup(
    pass: &mut RetentionPass,
    cutoff: &str,
    event: CleanupEvent,
    audit_batch_size: u32,
) -> (action: CleanupAction)
    requires
        old(pass).wf(),
        event.fits(*old(pass)),
    ensures
        final(pass).wf(),
        cleanup_follows(*old(pass), cutoff@, event, audit_batch_size, action, *final(pass)),
{
    let from: usize = match event {
        CleanupEvent::Inspected => 0,
        CleanupEvent::Removed { place, outcome } => {
            let total: usize = pass.inspected.len();
            assert(place < total);
            if let Some(outcome) = outcome {
                count_removal(pass, place, outcome);
            }
            place + 1
        },
        CleanupEvent::AuditEventsDeleted { batches, deleted } => {
            return if wants_next_audit_batch(batches, deleted, audit_batch_size) {
                CleanupAction::DeleteAuditEvents { batch: batches + 1 }
            } else {
                CleanupAction::Finish(finish_retention_pass(pass))
            };
        },
    };
    match next_due_candidate(pass, from, cutoff) {
        Some(place) => CleanupAction::Remove { place },
        None => CleanupAction::DeleteAuditEvents { batch: 1 },
    }
}

/// A pass moves on: a log is removed after all that were removed before it, so
/// none is removed twice.
pub proof fn lemma_each_log_is_removed_once(
    pass: RetentionPass,
    cutoff: Seq<char>,
    removed_place: usize,
    outcome: Option<RemovalOutcome>,
    after: RetentionPass,
    action: CleanupAction,
)
    requires
        forall|k: int|
            removed_place <= k < pass.inspected@.len() ==> !(#[trigger] pass.inspected@[k]).removed,
        after.inspected@ == inspected_after(
            pass,
            (CleanupEvent::Removed { place: removed_place, outcome }),
        ),
        removed_place < pass.inspected@.len(),
        goes_on(after, cutoff, removed_place + 1, action),
        action is Remove,
    ensures
        action->Remove_place > removed_place,
        forall|k: int|
            action->Remove_place <= k < after.inspected@.len() ==> !(
            #[trigger] after.inspected@[k]).removed,
{
    assert forall|k: int| action->Remove_place <= k < after.inspected@.len() implies !(
    #[trigger] after.inspected@[k]).removed by {
        assert(!pass.inspected@[k].removed);
    }
}

/// A log that is in use is never among those that a pass deletes.
pub proof fn lemma_protected_logs_are_kept(
    limits: RetentionLimits,
    candidates: Seq<RetentionCandidate>,
    findings: Seq<CandidateFinding>,
    place: int,
) -> (origin: int)
    requires
        candidates.len() == findings.len(),
        0 <= place < deletable(limits, candidates, findings).len(),
    ensures
        0 <= origin < candidates.len(),
        deletable(limits, candidates, findings)[place].candidate == candidates[origin],
        !findings[origin].is_protected(),
    decreases candidates.len(),
{
    let rest = deletable(limits, candidates.drop_last(), findings.drop_last());
    if place < rest.len() {
        let origin = lemma_protected_logs_are_kept(
            limits,
            candidates.drop_last(),
            findings.drop_last(),
            place,
        );
        assert(candidates.drop_last()[origin] == candidates[origin]);
        assert(findings.drop_last()[origin] == findings[origin]);
        origin
    } else {
        candidates.len() - 1
    }
}

/// Where a pass ends with room, all logs together take no more than they may:
/// those that are left, and what is set aside for the runs in use.
pub proof fn lemma_room_means_bounded_logs(pass: RetentionPass)
    requires
        pass.wf(),
        pass.fits(),
    ensures
        kept_bytes(pass.inspected@) + (MANAGED_LOG_RETENTION_MAX_TOTAL_BYTES
            - pass.retained_budget) <= MANAGED_LOG_RETENTION_MAX_TOTAL_BYTES,
        pass.candidate_count - removed_count(pass.inspected@) <= MAX_RETAINED_MANAGED_LOG_RUNS,
{
}

} // verus!
