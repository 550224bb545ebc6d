//! What deleting old logs is for: logs stay within their age, their number and their
//! bytes, no log that is in use is touched, and where everything could be deleted
//! that had to go, there is room.

use vstd::prelude::*;

use crate::error::{optional_text, AppError, ErrorCode};
use crate::paths::{below, is_same_path};
use crate::registry::{ManagedLogReaderRegistry, RegistryView};
use crate::retention::{
    begin_retention_pass, cleanup_follows, cutoff_timestamp, deletable, finish_retention_pass,
    found_bytes, goes_on, is_first_due, kept_bytes, lemma_one_removed,
    load_managed_log_retention_candidates, maximum_active_runs, next_due_candidate,
    reader_only_runs, removal_decided, removal_outcome, removed_count,
    retention_candidate_protection, retention_cutoff, wants_next_audit_batch, wants_next_page,
    CandidateFinding, CandidatePages, CandidateStep, CleanupAction, CleanupEvent, DiskFinding,
    InspectedCandidate, RemovalOutcome, RemovalStep, RetentionCandidate, RetentionLimits,
    RetentionPass,
};
use crate::run::{Controls, Platform, RunControl};
use crate::text::text_before;
use crate::timestamp::{written_at, UnixTime};

verus! {

/// A log is kept in its turn only where nothing speaks against it: its deletion was not
/// begun, its files are there, it is younger than the cutoff, and neither the number of
/// the logs nor, where all of them were seen, their bytes are too large. The first log
/// against which something speaks is the next to go.
pub proof fn lemma_kept_log_is_young_and_has_room(
    pass: RetentionPass,
    from: usize,
    cutoff: &str,
    next: Option<usize>,
    place: int,
)
    requires
        pass.wf(),
        call_ensures(next_due_candidate, (&pass, from, cutoff), next),
        from <= place < pass.inspected@.len(),
        match next {
            Some(next) => place < next,
            None => true,
        },
    ensures
        ({
            let entry = pass.inspected@[place];
            &&& entry.candidate.deletion_started_at is None
            &&& !entry.missing
            &&& text_before(cutoff@, entry.candidate.retention_timestamp@)
            &&& pass.candidate_count - removed_count(pass.inspected@) <= 256
            &&& !pass.truncated ==> kept_bytes(pass.inspected@) <= pass.retained_budget
        }),
{
    assert(is_first_due(pass, from as int, cutoff@, next));
    match next {
        Some(_) => {
            assert(!pass.is_due(place, cutoff@));
        },
        None => {
            assert(!pass.is_due(place, cutoff@));
        },
    }
}

/// A log goes only for a reason.
pub proof fn lemma_log_goes_for_a_reason(
    pass: RetentionPass,
    from: usize,
    cutoff: &str,
    next: usize,
)
    requires
        pass.wf(),
        call_ensures(next_due_candidate, (&pass, from, cutoff), Some(next)),
    ensures
        from <= next < pass.inspected@.len(),
        ({
            let entry = pass.inspected@[next as int];
            ||| entry.candidate.deletion_started_at is Some
            ||| entry.missing
            ||| !text_before(cutoff@, entry.candidate.retention_timestamp@)
            ||| pass.candidate_count - removed_count(pass.inspected@) > 256
            ||| !pass.truncated && kept_bytes(pass.inspected@) > pass.retained_budget
        }),
{
}

/// A pass as it went on while logs were removed: what was found, what came of it, and
/// which step followed.
pub struct RetentionTrace {
    pub cutoff: Seq<char>,
    pub batch_size: u32,
    pub passes: Seq<RetentionPass>,
    pub events: Seq<CleanupEvent>,
    pub actions: Seq<CleanupAction>,
}

impl RetentionTrace {
    /// It begins with logs of which none was removed, every removal that is asked for
    /// is told of in the next event, and behind the last one the audit events follow.
    pub open spec fn wf(self) -> bool {
        &&& self.events.len() > 0
        &&& self.passes.len() == self.events.len() + 1
        &&& self.actions.len() == self.events.len()
        &&& self.events[0] is Inspected
        &&& forall|k: int|
            0 <= k < self.passes[0].inspected@.len() ==> !(
            #[trigger] self.passes[0].inspected@[k]).removed
        &&& forall|i: int| 0 <= i < self.passes.len() ==> (#[trigger] self.passes[i]).wf()
        &&& forall|i: int|
            0 <= i < self.events.len() ==> #[trigger] cleanup_follows(
                self.passes[i],
                self.cutoff,
                self.events[i],
                self.batch_size,
                self.actions[i],
                self.passes[i + 1],
            )
        &&& forall|i: int|
            0 < i < self.events.len() ==> self.actions[i - 1] is Remove && (
            #[trigger] self.events[i]) is Removed && self.events[i]->Removed_place
                == self.actions[i - 1]->Remove_place
        &&& self.actions.last() is DeleteAuditEvents
    }

    /// Every log that had to go could be removed.
    pub open spec fn all_removed(self) -> bool {
        forall|i: int|
            0 < i < self.events.len() ==> (#[trigger] self.events[i])->outcome == Some(
                RemovalOutcome::Deleted,
            )
    }

    /// The place from which an event goes on.
    pub open spec fn from(self, i: int) -> int {
        match self.events[i] {
            CleanupEvent::Removed { place, .. } => place + 1,
            _ => 0,
        }
    }
}

/// The bytes of logs of which all are removed.
proof fn lemma_all_removed_keep_nothing(inspected: Seq<InspectedCandidate>)
    requires
        forall|k: int| 0 <= k < inspected.len() ==> (#[trigger] inspected[k]).removed,
    ensures
        kept_bytes(inspected) == 0,
    decreases inspected.len(),
{
    if inspected.len() > 0 {
        let rest = inspected.drop_last();
        assert forall|k: int| 0 <= k < rest.len() implies (#[trigger] rest[k]).removed by {
            assert(inspected[k].removed);
        }
        lemma_all_removed_keep_nothing(rest);
        assert(inspected[inspected.len() - 1].removed);
    }
}

proof fn lemma_removed_at_most_all(inspected: Seq<InspectedCandidate>)
    ensures
        removed_count(inspected) <= inspected.len(),
    decreases inspected.len(),
{
    if inspected.len() > 0 {
        lemma_removed_at_most_all(inspected.drop_last());
    }
}

proof fn lemma_all_removed_count(inspected: Seq<InspectedCandidate>)
    requires
        forall|k: int| 0 <= k < inspected.len() ==> (#[trigger] inspected[k]).removed,
    ensures
        removed_count(inspected) == inspected.len(),
    decreases inspected.len(),
{
    if inspected.len() > 0 {
        let rest = inspected.drop_last();
        assert forall|k: int| 0 <= k < rest.len() implies (#[trigger] rest[k]).removed by {
            assert(inspected[k].removed);
        }
        lemma_all_removed_count(rest);
        assert(inspected[inspected.len() - 1].removed);
    }
}

proof fn lemma_pressure_removes_all(trace: RetentionTrace, at: int)
    requires
        trace.wf(),
        trace.all_removed(),
        0 <= at < trace.events.len(),
    ensures
        trace.passes[at + 1].inspected@.len() == trace.passes[0].inspected@.len(),
        trace.passes[at + 1].candidate_count == trace.passes[0].candidate_count,
        trace.passes[at + 1].retained_budget == trace.passes[0].retained_budget,
        trace.passes[at + 1].truncated == trace.passes[0].truncated,
        0 <= trace.from(at) <= trace.passes[0].inspected@.len(),
        forall|k: int|
            trace.from(at) <= k < trace.passes[at + 1].inspected@.len() ==> !(
            #[trigger] trace.passes[at + 1].inspected@[k]).removed,
        !trace.passes[0].truncated && kept_bytes(trace.passes[at + 1].inspected@)
            > trace.passes[0].retained_budget ==> forall|k: int|
            0 <= k < trace.from(at) ==> (#[trigger] trace.passes[at + 1].inspected@[k]).removed,
        trace.passes[0].candidate_count - removed_count(trace.passes[at + 1].inspected@) > 256
            ==> forall|k: int|
            0 <= k < trace.from(at) ==> (#[trigger] trace.passes[at + 1].inspected@[k]).removed,
    decreases at,
{
    assert(cleanup_follows(
        trace.passes[at],
        trace.cutoff,
        trace.events[at],
        trace.batch_size,
        trace.actions[at],
        trace.passes[at + 1],
    ));
    if at > 0 {
        lemma_pressure_removes_all(trace, at - 1);
        assert(cleanup_follows(
            trace.passes[at - 1],
            trace.cutoff,
            trace.events[at - 1],
            trace.batch_size,
            trace.actions[at - 1],
            trace.passes[at],
        ));
        let before = trace.passes[at];
        let after = trace.passes[at + 1];
        assert(before.wf() && after.wf());
        assert(trace.events[at] is Removed);
        let place = trace.actions[at - 1]->Remove_place as int;
        let from = trace.from(at - 1);
        assert(trace.events[at]->outcome == Some(RemovalOutcome::Deleted));
        assert(goes_on(before, trace.cutoff, from, trace.actions[at - 1]));
        assert(!before.inspected@[place].removed);
        lemma_one_removed(before.inspected@, place);
        lemma_removed_at_most_all(before.inspected@);
        lemma_removed_at_most_all(after.inspected@);
        assert(after.inspected@ =~= before.inspected@.update(
            place,
            (InspectedCandidate { removed: true, ..before.inspected@[place] }),
        ));
        let bytes = !trace.passes[0].truncated && kept_bytes(after.inspected@)
            > trace.passes[0].retained_budget;
        let count = trace.passes[0].candidate_count - removed_count(after.inspected@) > 256;
        if bytes || count {
            if place > from {
                assert(!before.is_due(from, trace.cutoff));
            }
            assert(place == from);
            assert forall|k: int| 0 <= k < trace.from(at) implies (
            #[trigger] after.inspected@[k]).removed by {
                if k < from {
                    assert(before.inspected@[k].removed);
                }
            }
        }
        assert forall|k: int| trace.from(at) <= k < after.inspected@.len() implies !(
        #[trigger] after.inspected@[k]).removed by {
            assert(!before.inspected@[k].removed);
        }
    } else {
        assert forall|k: int| 0 <= k < trace.passes[1].inspected@.len() implies !(
        #[trigger] trace.passes[1].inspected@[k]).removed by {
            assert(!trace.passes[0].inspected@[k].removed);
        }
    }
}

/// A pass that saw every candidate and could remove every log that had to go ends with
/// room, however large the logs were: those that are left are neither too many nor too
/// large. It only leaves out that more logs than may be kept are in use.
pub proof fn lemma_pass_that_removes_all_that_is_due_makes_room(trace: RetentionTrace)
    requires
        trace.wf(),
        trace.all_removed(),
        !trace.passes[0].truncated,
        trace.passes[0].candidate_count <= trace.passes[0].inspected@.len() + 256,
    ensures
        kept_bytes(trace.passes.last().inspected@) <= trace.passes[0].retained_budget,
        trace.passes[0].candidate_count - removed_count(trace.passes.last().inspected@) <= 256,
        trace.passes.last().fits(),
{
    let last = trace.events.len() - 1;
    lemma_pressure_removes_all(trace, last);
    let end = trace.passes[last + 1];
    assert(end.wf());
    assert(cleanup_follows(
        trace.passes[last],
        trace.cutoff,
        trace.events[last],
        trace.batch_size,
        trace.actions[last],
        end,
    ));
    let from = trace.from(last);
    assert(goes_on(end, trace.cutoff, from, trace.actions[last]));
    lemma_removed_at_most_all(end.inspected@);
    let bytes = kept_bytes(end.inspected@) > trace.passes[0].retained_budget;
    let count = trace.passes[0].candidate_count - removed_count(end.inspected@) > 256;
    if bytes || count {
        if from < end.inspected@.len() {
            assert(!end.is_due(from, trace.cutoff));
        }
        assert(from == end.inspected@.len());
        lemma_all_removed_keep_nothing(end.inspected@);
        lemma_all_removed_count(end.inspected@);
    }
}

/// What a pass ends with tells the truth: there is room exactly where every candidate
/// was seen, no more than the allowed number of logs are left, and their bytes are
/// within the budget.
pub proof fn lemma_room_is_told_truly(pass: RetentionPass, result: Result<(), AppError>)
    requires
        pass.wf(),
        call_ensures(finish_retention_pass, (&pass,), result),
    ensures
        result is Ok <==> !pass.truncated && kept_bytes(pass.inspected@) <= pass.retained_budget
            && pass.candidate_count - removed_count(pass.inspected@) <= 256,
        result matches Err(error) ==> error@.code == ErrorCode::StorageError && error@.retryable,
{
    lemma_removed_at_most_all(pass.inspected@);
}

/// A removal counts only where the log was deleted: another outcome, or none, leaves the
/// counts as they are; and the audit events come behind the logs, at most four batches,
/// another one only behind a full one, and only then it is said whether there is room.
pub proof fn lemma_pass_comes_to_its_end(
    before: RetentionPass,
    cutoff: Seq<char>,
    event: CleanupEvent,
    batch_size: u32,
    action: CleanupAction,
    after: RetentionPass,
)
    requires
        before.wf(),
        after.wf(),
        event.fits(before),
        cleanup_follows(before, cutoff, event, batch_size, action, after),
    ensures
        match event {
            CleanupEvent::Removed { place, outcome } => {
                &&& outcome == Some(RemovalOutcome::Deleted) ==> kept_bytes(after.inspected@)
                    + before.inspected@[place as int].reserved_bytes == kept_bytes(
                    before.inspected@,
                ) && removed_count(after.inspected@) == removed_count(before.inspected@) + 1
                &&& outcome != Some(RemovalOutcome::Deleted) ==> after.inspected@
                    == before.inspected@
            },
            _ => after.inspected@ == before.inspected@,
        },
        action is Finish ==> event is AuditEventsDeleted,
        event is AuditEventsDeleted ==> !(action is Remove),
        !(event is AuditEventsDeleted) && action is DeleteAuditEvents ==> action->batch == 1,
        event is AuditEventsDeleted && action is DeleteAuditEvents ==> {
            &&& action->batch == event->batches + 1
            &&& action->batch <= 4
            &&& event->deleted matches Some(deleted) ==> deleted >= batch_size
        },
        event matches CleanupEvent::AuditEventsDeleted { batches, deleted } ==> (batches < 4
            && deleted is Some && deleted->0 >= batch_size ==> action is DeleteAuditEvents),
        event matches CleanupEvent::AuditEventsDeleted { batches, deleted } ==> (batches >= 4 || (
        deleted is None && batch_size > 0) || (deleted is Some && deleted->0 < batch_size)
            ==> action is Finish),
        action matches CleanupAction::Finish(result) ==> (result is Ok <==> after.fits()),
{
    if let CleanupEvent::Removed { place, outcome } = event {
        if outcome == Some(RemovalOutcome::Deleted) {
            lemma_one_removed(before.inspected@, place as int);
        }
    }
}

/// What a pass may delete: exactly the candidates that are not in use, in their order,
/// none of them removed yet.
pub proof fn lemma_unused_logs_may_go(
    limits: RetentionLimits,
    candidates: Seq<RetentionCandidate>,
    findings: Seq<CandidateFinding>,
    origin: int,
) -> (place: int)
    requires
        candidates.len() == findings.len(),
        0 <= origin < candidates.len(),
        !findings[origin].controlled,
        !findings[origin].active_reader,
    ensures
        0 <= place < deletable(limits, candidates, findings).len(),
        ({
            let entry = deletable(limits, candidates, findings)[place];
            &&& entry.candidate == candidates[origin]
            &&& !entry.removed
            &&& entry.missing <==> findings[origin].disk is Missing
            &&& match findings[origin].disk {
                DiskFinding::Missing => entry.reserved_bytes == 0,
                DiskFinding::Present { retained_bytes } => entry.reserved_bytes == retained_bytes,
                DiskFinding::Unreadable => entry.reserved_bytes
                    == limits.hard_maximum_bytes_per_run,
            }
        }),
    decreases candidates.len(),
{
    let rest = deletable(limits, candidates.drop_last(), findings.drop_last());
    if origin == candidates.len() - 1 {
        rest.len() as int
    } else {
        assert(candidates.drop_last()[origin] == candidates[origin]);
        assert(findings.drop_last()[origin] == findings[origin]);
        let place = lemma_unused_logs_may_go(
            limits,
            candidates.drop_last(),
            findings.drop_last(),
            origin,
        );
        assert(deletable(limits, candidates, findings)[place] == rest[place]);
        place
    }
}

/// The room for old logs is what the runs in use leave of one gibibyte: each run that is
/// held, is about to start, or is still captured takes its share; where they take more
/// than all, the pass is refused.
pub proof fn lemma_runs_in_use_take_their_share(
    limits: RetentionLimits,
    candidates: Vec<RetentionCandidate>,
    findings: Vec<CandidateFinding>,
    candidate_count: u64,
    active_runs: usize,
    additional: usize,
    result: Result<RetentionPass, AppError>,
)
    requires
        call_ensures(
            begin_retention_pass,
            (limits, candidates, &findings, candidate_count, active_runs, additional),
            result,
        ),
    ensures
        result matches Ok(pass) ==> {
            &&& pass.retained_budget + (active_runs + additional + reader_only_runs(findings@))
                * limits.default_bytes_per_run == 1_073_741_824
            &&& pass.truncated <==> candidate_count > candidates@.len()
            &&& pass.candidate_count == candidate_count
            &&& kept_bytes(pass.inspected@) == pass.retained_bytes
        },
        (active_runs + additional) * limits.default_bytes_per_run > 1_073_741_824 ==> result is Err,
        result matches Err(error) ==> error@.retryable && error@.code == ErrorCode::StorageError,
{
    let only = reader_only_runs(findings@);
    let base = (active_runs + additional) as int;
    assert((base + only) * limits.default_bytes_per_run >= base * limits.default_bytes_per_run)
        by (nonlinear_arith)
        requires
            only >= 0,
            limits.default_bytes_per_run >= 0,
    ;
}

/// A log that is captured though its run is no longer held counts as in use.
pub proof fn lemma_captured_log_counts_as_in_use(findings: Seq<CandidateFinding>, place: int)
    requires
        0 <= place < findings.len(),
        findings[place].active_reader,
        !findings[place].controlled,
    ensures
        reader_only_runs(findings) >= 1,
    decreases findings.len(),
{
    if place < findings.len() - 1 {
        assert(findings.drop_last()[place] == findings[place]);
        lemma_captured_log_counts_as_in_use(findings.drop_last(), place);
    }
}

/// A log is deleted only where, right before, its run is not held, its log is not
/// captured, and the directory is the run's own in both looks; a deletion that was begun
/// goes on under its own time.
pub proof fn lemma_deletion_begins_where_nothing_uses_the_log(
    controls: Map<Seq<char>, RunControl>,
    before: RegistryView,
    candidate: RetentionCandidate,
    current: Option<RetentionCandidate>,
    platform: Platform,
    log_root: Seq<char>,
    result: Result<RemovalStep, AppError>,
    after: RegistryView,
)
    requires
        removal_decided(
            controls,
            before,
            candidate,
            current,
            platform,
            log_root,
            result,
            after,
        ),
    ensures
        ({
            let run_id = candidate.run_id@;
            let held = controls.dom().contains(run_id);
            let captured = before.entries.dom().contains(run_id) && before.entries[run_id].active;
            let own = is_same_path(
                platform,
                candidate.log_directory@,
                below(platform, log_root, run_id),
            ) && current is Some && current->0.log_directory@ == candidate.log_directory@;
            let begins = result is Ok && result->Ok_0 is Begin;
            &&& begins <==> !held && !captured && own
            &&& begins ==> !after.entries.dom().contains(run_id)
            &&& !begins ==> after == before
            &&& result matches Ok(RemovalStep::Begin { started_before, after: time }) ==> {
                &&& optional_text(started_before) == optional_text(current->0.deletion_started_at)
                &&& time@ == current->0.retention_timestamp@
            }
            &&& held ==> result is Ok && result->Ok_0 is Protected
            &&& !held && current is None ==> result is Ok && result->Ok_0 is StateChanged
            &&& result is Err <==> !held && current is Some && !own
        }),
{
}

/// A log counts as deleted exactly where both writes of the deletion took effect.
pub proof fn lemma_deletion_takes_both_writes(
    started: bool,
    marked: bool,
    outcome: RemovalOutcome,
)
    requires
        call_ensures(removal_outcome, (started, marked), outcome),
    ensures
        outcome == RemovalOutcome::Deleted <==> started && marked,
        outcome != RemovalOutcome::Protected,
{
}

/// A log is too old after thirty days, to the nanosecond.
pub proof fn lemma_logs_are_kept_for_thirty_days(now: UnixTime, cutoff: Option<UnixTime>)
    requires
        call_ensures(retention_cutoff, (now,), cutoff),
    ensures
        cutoff is Some <==> now.seconds >= 30 * 24 * 60 * 60,
        cutoff matches Some(cutoff) ==> now.seconds - cutoff.seconds == 30 * 24 * 60 * 60
            && cutoff.nanoseconds == now.nanoseconds,
{
}

/// Candidates are read in at most four pages, another one only behind a full one of
/// sixty-four, from behind its last; none of them is lost and their order stays.
pub proof fn lemma_candidates_are_read_page_by_page(
    pages: CandidatePages,
    page: Vec<RetentionCandidate>,
    step: CandidateStep,
)
    requires
        call_ensures(load_managed_log_retention_candidates, (pages, page), step),
    ensures
        step is ReadOn <==> page@.len() >= 64 && pages.pages_read + 1 < 4,
        step matches CandidateStep::Complete(candidates) ==> candidates@ == pages.candidates@
            + page@,
        step matches CandidateStep::ReadOn { pages: next, after_timestamp, after_run_id } ==> {
            &&& next.candidates@ == pages.candidates@ + page@
            &&& next.pages_read == pages.pages_read + 1
            &&& after_run_id@ == page@[page@.len() - 1].run_id@
            &&& after_timestamp@ == page@[page@.len() - 1].retention_timestamp@
        },
{
}

proof fn lemma_deletable_comes_from(
    limits: RetentionLimits,
    candidates: Seq<RetentionCandidate>,
    findings: Seq<CandidateFinding>,
    place: int,
) -> (origin: int)
    requires
        candidates.len() == findings.len(),
        0 <= place < deletable(limits, candidates, findings).len(),
    ensures
        0 <= origin < candidates.len(),
        deletable(limits, candidates, findings)[place].candidate == candidates[origin],
        !findings[origin].controlled && !findings[origin].active_reader,
    decreases candidates.len(),
{
    let rest = deletable(limits, candidates.drop_last(), findings.drop_last());
    if place < rest.len() {
        let origin = lemma_deletable_comes_from(
            limits,
            candidates.drop_last(),
            findings.drop_last(),
            place,
        );
        assert(candidates.drop_last()[origin] == candidates[origin]);
        assert(findings.drop_last()[origin] == findings[origin]);
        origin
    } else {
        candidates.len() - 1
    }
}

/// A pass looks at the logs that nothing uses, at all of them and at no other: none of them
/// is removed yet, and each counts for the bytes that were found of it.
pub proof fn lemma_pass_looks_at_all_unused_logs(
    limits: RetentionLimits,
    candidates: Vec<RetentionCandidate>,
    findings: Vec<CandidateFinding>,
    candidate_count: u64,
    active_runs: usize,
    additional: usize,
    pass: RetentionPass,
    origin: int,
    place: int,
)
    requires
        candidates@.len() == findings@.len(),
        call_ensures(
            begin_retention_pass,
            (limits, candidates, &findings, candidate_count, active_runs, additional),
            Ok(pass),
        ),
    ensures
        0 <= origin < candidates@.len() && !findings@[origin].controlled
            && !findings@[origin].active_reader ==> exists|k: int|
            0 <= k < pass.inspected@.len() && (#[trigger] pass.inspected@[k]).candidate
                == candidates@[origin] && !pass.inspected@[k].removed,
        0 <= place < pass.inspected@.len() ==> exists|k: int|
            0 <= k < candidates@.len() && (#[trigger] candidates@[k])
                == pass.inspected@[place].candidate && !findings@[k].controlled
                && !findings@[k].active_reader,
{
    if 0 <= origin < candidates@.len() && !findings@[origin].controlled
        && !findings@[origin].active_reader {
        let k = lemma_unused_logs_may_go(limits, candidates@, findings@, origin);
        assert(pass.inspected@[k].candidate == candidates@[origin]);
    }
    if 0 <= place < pass.inspected@.len() {
        let k = lemma_deletable_comes_from(limits, candidates@, findings@, place);
        assert(candidates@[k] == pass.inspected@[place].candidate);
    }
}

/// The bytes of the logs that nothing uses add up one by one: a log in use adds none, a
/// missing one none, and one that could not be read as many as a log may have.
pub proof fn lemma_bytes_add_up_one_by_one(
    limits: RetentionLimits,
    findings: Seq<CandidateFinding>,
    finding: CandidateFinding,
)
    ensures
        found_bytes(limits, Seq::<CandidateFinding>::empty()) == 0,
        finding.controlled || finding.active_reader ==> found_bytes(limits, findings.push(finding))
            == found_bytes(limits, findings),
        !finding.controlled && !finding.active_reader ==> found_bytes(
            limits,
            findings.push(finding),
        ) == found_bytes(limits, findings) + match finding.disk {
            DiskFinding::Missing => 0nat,
            DiskFinding::Present { retained_bytes } => retained_bytes as nat,
            DiskFinding::Unreadable => limits.hard_maximum_bytes_per_run as nat,
        },
        reader_only_runs(findings.push(finding)) == reader_only_runs(findings) + (if
            finding.active_reader && !finding.controlled {
            1nat
        } else {
            0
        }),
{
    let longer = findings.push(finding);
    assert(longer.drop_last() =~= findings);
    assert(longer.last() == finding);
}

/// As many runs may be active as find room for their logs in a gibibyte, and not one more.
pub proof fn lemma_active_runs_find_room(limits: RetentionLimits, runs: u64)
    requires
        limits.default_bytes_per_run > 0,
        call_ensures(maximum_active_runs, (limits,), runs),
    ensures
        runs * limits.default_bytes_per_run <= 1_073_741_824,
        (runs + 1) * limits.default_bytes_per_run > 1_073_741_824,
{
    let size = limits.default_bytes_per_run as int;
    vstd::arithmetic::div_mod::lemma_fundamental_div_mod(1_073_741_824, size);
    assert(runs == 1_073_741_824int / size);
    assert(runs * size == size * runs && (runs + 1) * size == size * runs + size)
        by (nonlinear_arith);
}

/// The text up to which logs are too old is that of thirty days ago, and there is none where
/// the clock does not stand that far behind its beginning.
pub proof fn lemma_cutoff_is_written_for_thirty_days_ago(
    now: Option<UnixTime>,
    cutoff: Option<UnixTime>,
    result: Result<String, AppError>,
)
    requires
        call_ensures(cutoff_timestamp, (now,), result),
        now is Some ==> call_ensures(retention_cutoff, (now->0,), cutoff),
    ensures
        result is Ok <==> now is Some && now->0.seconds >= 2_592_000,
        result is Ok ==> cutoff is Some && written_at(result->Ok_0@, cutoff->0),
        result matches Err(error) ==> error@.code == ErrorCode::PlatformError,
{
    if result is Ok {
        assert(cutoff->0 == (UnixTime {
            seconds: (now->0.seconds - 2_592_000) as u64,
            nanoseconds: now->0.nanoseconds,
        }));
    }
}

/// Pages are read on while they come full, four at most, and so are batches of old audit
/// events deleted.
pub proof fn lemma_reading_on_has_an_end(
    pages_read: usize,
    last_page_length: usize,
    wants_page: bool,
    batches: usize,
    deleted: Option<u64>,
    batch_size: u32,
    wants_batch: bool,
)
    requires
        call_ensures(wants_next_page, (pages_read, last_page_length), wants_page),
        call_ensures(wants_next_audit_batch, (batches, deleted, batch_size), wants_batch),
    ensures
        wants_page <==> last_page_length >= 64 && pages_read < 4,
        batches >= 4 ==> !wants_batch,
        batches < 4 && deleted is Some ==> (wants_batch <==> deleted->0 >= batch_size),
        deleted is None && batch_size > 0 ==> !wants_batch,
{
}

/// A log is in use exactly where its run is held, and captured exactly where its reader is
/// active.
pub proof fn lemma_log_in_use_is_protected(
    controls: Controls,
    registry: ManagedLogReaderRegistry,
    run_id: &str,
    protection: (bool, bool),
    active: bool,
)
    requires
        controls.wf(),
        registry.wf(),
        call_ensures(retention_candidate_protection, (&controls, &registry, run_id), protection),
        call_ensures(ManagedLogReaderRegistry::is_active, (&registry, run_id), active),
    ensures
        protection.0 <==> controls@.dom().contains(run_id@),
        protection.1 <==> active,
        active <==> registry@.entries.dom().contains(run_id@) && registry@.entries[run_id@].active,
{
}

} // verus!
