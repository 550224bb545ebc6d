//! What taking runs over is for: a process that is found again is held again as
//! what it was, as often as the supervisor is started; a stop goes on without a
//! second signal; and what cannot be confirmed is given up.

use vstd::prelude::*;

use crate::error::{optional_text, AppError};
use crate::exit::{coherent, ActiveRun};
use crate::recovery::{
    exit_settled, monitor_terminal_exit, pending_retried, plan_fits, reconcile_run,
    reconciliation_previous_timestamp, recovered_control, recovered_control_plan,
    recovery_evidence_is_probeable, startup_follows, taken_over, wants_cleanup_retry, MonitorStep,
    Reconciliation, RecoveredPlan, RecoveryCandidate, RecoveryOutcome, RecoveryProbe,
    StartupAction, StartupEvent, StartupPass, StartupStep,
};
use crate::run::{
    optional_key, process_matches, Controls, ManagedProcess, ManagedRunRecord, Platform,
    RunControl, RunState, StopKind, StopOperation, StopPhase, StopStatus,
};
use crate::stop::{action_of, StopAction};
use crate::text::{lemma_text_order_is_total, text_before};

verus! {

/// What is stored of a run allows a look at its process: it has an identity, was
/// not seen to end, and has the process group that goes with the identity.
pub open spec fn has_evidence(platform: Platform, run: ManagedRunRecord) -> bool {
    &&& run.process_instance_key is Some
    &&& run.ended_at is None
    &&& run.exit_code is None
    &&& run.exit_signal is None
    &&& platform == Platform::Windows ==> run.process_group_id is None
    &&& platform == Platform::MacOs ==> run.process_group_id == Some(
        run.process_instance_key->0.pid,
    )
}

/// The evidence that is asked for before a process is looked at.
pub proof fn lemma_evidence_comes_before_the_look(
    platform: Platform,
    run: ManagedRunRecord,
    probeable: bool,
)
    requires
        call_ensures(recovery_evidence_is_probeable, (platform, &run), probeable),
    ensures
        probeable == has_evidence(platform, run),
{
}

/// Recovery can be repeated: a run with evidence that is not being stopped is held
/// again as running, whether it was running or had been taken over before; and
/// nothing else is.
pub proof fn lemma_recovery_can_be_repeated(
    platform: Platform,
    run: ManagedRunRecord,
    plan: Option<RecoveredPlan>,
)
    requires
        call_ensures(recovered_control_plan, (platform, &run, None::<&StopOperation>), plan),
    ensures
        plan == Some(RecoveredPlan::Running) <==> has_evidence(platform, run) && run.stop_method
            is None && (run.state == RunState::Running || run.state == RunState::Recovered),
        plan is None || plan == Some(RecoveredPlan::Running),
{
}

/// The two states in which a run runs are alike for recovery.
pub proof fn lemma_recovered_run_is_as_good_as_a_running_one(
    platform: Platform,
    run: ManagedRunRecord,
    again: ManagedRunRecord,
    plan: Option<RecoveredPlan>,
    plan_again: Option<RecoveredPlan>,
)
    requires
        run.state == RunState::Running,
        again == (ManagedRunRecord { state: RunState::Recovered, ..run }),
        plan_fits(plan, platform, run, None),
        plan_fits(plan_again, platform, again, None),
    ensures
        plan == plan_again,
{
}

/// A startup pass that finds the process of a run again stores the run as recovered
/// and holds that process; the next pass, which sees the run as recovered, does the
/// same, as do all later ones.
pub proof fn lemma_found_process_is_held_again_by_every_pass(
    controls: Map<Seq<char>, RunControl>,
    platform: Platform,
    pass: StartupPass,
    process: ManagedProcess,
    looked: StartupAction,
    between: Map<Seq<char>, RunControl>,
    stored: StartupAction,
    after: Map<Seq<char>, RunControl>,
    times: (u64, u64),
)
    requires
        pass.wf(),
        pass.step is Probe,
        ({
            let candidate = pass.page@[pass.next as int];
            &&& candidate.active_stop is None
            &&& candidate.run.stop_method is None
            &&& candidate.run.state == RunState::Running || candidate.run.state
                == RunState::Recovered
            &&& has_evidence(platform, candidate.run)
        }),
        startup_follows(
            controls,
            platform,
            pass,
            StartupEvent::Probed(
                RecoveryProbe { outcome: RecoveryOutcome::Recovered, process: Some(process) },
            ),
            times.0,
            looked,
            between,
        ),
        looked is Perform,
        startup_follows(
            between,
            platform,
            looked->Perform_0,
            StartupEvent::Stored(Ok(())),
            times.1,
            stored,
            after,
        ),
    ensures
        looked->Perform_0.step is Store,
        looked->Perform_0.step->Store_0.outcome == RecoveryOutcome::Recovered,
        between == controls,
        ({
            let run_id = pass.page@[pass.next as int].run.id@;
            &&& after.dom() == controls.dom().insert(run_id)
            &&& after[run_id] == RunControl::Running(process)
            &&& stored is Perform && stored->Perform_0.workers == pass.workers
        }),
{
}

/// When a stop goes on after a restart: where it was only requested, in the phase in
/// which it is announced; where its signal is known to be out, in the phase in which
/// the process is watched; and where neither can be known, not at all.
pub open spec fn goes_on_in(
    kind: StopKind,
    status: StopStatus,
    state: RunState,
    signal_known: bool,
    phase: StopPhase,
) -> bool {
    match phase {
        StopPhase::Requested => !signal_known && status == StopStatus::Requested && (state
            == RunState::StopRequested || (kind == StopKind::Force && state
            == RunState::GracefulStopping)),
        StopPhase::Monitoring => signal_known && status == StopStatus::InProgress && state == (
        if kind == StopKind::Graceful {
            RunState::GracefulStopping
        } else {
            RunState::ForceStopping
        }),
        StopPhase::TimedOut => signal_known && status == StopStatus::TimedOut && kind
            == StopKind::Graceful && state == RunState::GracefulStopping,
        _ => false,
    }
}

/// A stop that is stored for a run is the stop of that very run as it stands.
pub open spec fn belongs_to(operation: StopOperation, run: ManagedRunRecord) -> bool {
    let shown = operation.run;
    &&& shown.run_id@ == run.id@
    &&& shown.profile_id@ == run.profile_snapshot.id@
    &&& shown.profile_updated_at@ == run.profile_snapshot.updated_at@
    &&& shown.state == run.state
    &&& optional_key(shown.process_instance_key) == optional_key(run.process_instance_key)
    &&& shown.process_group_id == run.process_group_id
    &&& shown.started_at@ == run.started_at@
    &&& shown.updated_at@ == run.updated_at@
    &&& optional_text(shown.ended_at) == optional_text(run.ended_at)
    &&& run.stop_method is Some
    &&& operation.kind == StopKind::Graceful ==> run.stop_method->0@ == "GRACEFUL"@
    &&& operation.kind == StopKind::Force ==> run.stop_method->0@ == "FORCE"@
    &&& operation.outcome is None
    &&& operation.completed_at is None
}

/// A stop is resumed exactly where it belongs to the run and its phase is known, and
/// then under its own name, of its own kind, with what is known of its signal and
/// with the whole time that a stop of its kind has.
pub proof fn lemma_stop_is_resumed_where_it_stood(
    platform: Platform,
    run: ManagedRunRecord,
    operation: StopOperation,
    plan: Option<RecoveredPlan>,
)
    requires
        call_ensures(recovered_control_plan, (platform, &run, Some(&operation)), plan),
    ensures
        ({
            let known = operation.signal_disposition is Some;
            let goes = |phase: StopPhase|
                goes_on_in(operation.kind, operation.status, run.state, known, phase);
            &&& plan != Some(RecoveredPlan::Running)
            &&& plan is Some <==> has_evidence(platform, run) && belongs_to(operation, run) && (
            goes(StopPhase::Requested) || goes(StopPhase::Monitoring) || goes(StopPhase::TimedOut))
            &&& plan matches Some(
                RecoveredPlan::Stopping {
                    operation_id,
                    kind,
                    phase,
                    signal_disposition,
                    confirmation_window,
                },
            ) ==> {
                &&& operation_id@ == operation.operation_id@
                &&& kind == operation.kind
                &&& goes(phase)
                &&& signal_disposition == operation.signal_disposition
                &&& kind == StopKind::Graceful ==> confirmation_window
                    == run.profile_snapshot.stop_timeout_ms
                &&& kind == StopKind::Force ==> confirmation_window == 5_000
            }
        }),
{
}

/// A stop that goes on after a restart sends no signal that may have been sent
/// before: its next action announces the signal, or watches the process.
pub proof fn lemma_resumed_stop_repeats_no_signal(
    platform: Platform,
    run: ManagedRunRecord,
    operation: StopOperation,
    plan: RecoveredPlan,
    process: ManagedProcess,
    now_ms: u64,
    control: RunControl,
)
    requires
        plan_fits(Some(plan), platform, run, Some(operation)),
        recovered_control(plan, process, now_ms, control),
    ensures
        control is Stopping,
        ({
            let stop = control->Stopping_0;
            let action = action_of(stop.phase, stop.kind, stop.signal_disposition);
            &&& action == StopAction::MarkSignalPending || action == StopAction::PollExit
            &&& action == StopAction::MarkSignalPending <==> operation.signal_disposition is None
            &&& stop.process == process
            &&& stop.worker_running
            &&& stop.phase == StopPhase::Requested ==> stop.deadline == now_ms
                + stop.confirmation_window
            &&& stop.phase != StopPhase::Requested ==> stop.deadline == now_ms
        }),
{
}

/// What is held of a run that was taken over agrees with what is stored of it, where
/// the process that was found is the stored one: an exit that is assessed then finds
/// no mismatch.
pub proof fn lemma_taken_over_run_agrees_with_the_store(
    platform: Platform,
    run: ManagedRunRecord,
    active_stop: Option<StopOperation>,
    plan: RecoveredPlan,
    process: ManagedProcess,
    now_ms: u64,
    control: RunControl,
)
    requires
        plan_fits(Some(plan), platform, run, active_stop),
        process_matches(
            platform,
            process,
            optional_key(run.process_instance_key),
            run.process_group_id,
        ),
        recovered_control(plan, process, now_ms, control),
    ensures
        coherent(platform, control, ActiveRun { run, active_stop }),
{
}

/// What is decided of a run: it is recovered exactly where its process was found and
/// it is known how to hold it; it is held exactly where that process is there; a
/// run that was found to have ended, or to be another one, is stored as that; and
/// one that cannot be looked at is orphaned.
pub proof fn lemma_run_is_recovered_where_its_process_was_found(
    plan: Option<RecoveredPlan>,
    probe: Option<RecoveryProbe>,
    decision: Reconciliation,
)
    requires
        call_ensures(reconcile_run, (plan, probe), decision),
    ensures
        decision.outcome == RecoveryOutcome::Recovered <==> (probe matches Some(found)
            && found.outcome == RecoveryOutcome::Recovered && found.process is Some && plan
            is Some),
        decision.recovered is Some <==> (probe matches Some(found) && found.process is Some && plan
            is Some),
        decision.recovered matches Some((held, process)) ==> plan == Some(held)
            && probe->0.process == Some(process),
        probe matches Some(found) ==> (found.outcome != RecoveryOutcome::Recovered
            ==> decision.outcome == found.outcome),
        probe is None ==> decision.outcome == RecoveryOutcome::Orphaned,
        decision.outcome == RecoveryOutcome::Recovered ==> decision.recovered is Some,
{
}

/// A page of unfinished runs: none ends the pass with the workers that were found on
/// the way; otherwise the runs of the page are taken one after the other, and the
/// next page is asked for behind the last of them.
pub proof fn lemma_pages_are_read_to_the_end(
    controls: Map<Seq<char>, RunControl>,
    platform: Platform,
    pass: StartupPass,
    page: Vec<RecoveryCandidate>,
    now_ms: u64,
    action: StartupAction,
    after: Map<Seq<char>, RunControl>,
)
    requires
        pass.step is ReadPage,
        startup_follows(
            controls,
            platform,
            pass,
            StartupEvent::Page(Ok(page)),
            now_ms,
            action,
            after,
        ),
    ensures
        after == controls,
        action is Done <==> page@.len() == 0,
        action matches StartupAction::Done(workers) ==> workers == pass.workers,
        page@.len() > 0 ==> (action matches StartupAction::Perform(next) && {
            &&& next.page == page
            &&& next.next == 0
            &&& next.workers == pass.workers
            &&& next.cursor is Some && next.cursor->0@ == page@[page@.len() - 1].run.id@
            &&& next.step is Probe <==> has_evidence(platform, page@[0].run)
            &&& next.step is Store <==> !has_evidence(platform, page@[0].run)
            &&& next.step matches StartupStep::Store(decision) ==> decision.outcome
                == RecoveryOutcome::Orphaned && decision.recovered is None
        }),
{
}

/// A run whose outcome is stored is followed by the next of its page, or by the next
/// page; what was decided is held, and nothing else changes. A failure ends the pass.
pub proof fn lemma_each_run_is_followed_by_the_next(
    controls: Map<Seq<char>, RunControl>,
    platform: Platform,
    pass: StartupPass,
    stored: Result<(), AppError>,
    now_ms: u64,
    action: StartupAction,
    after: Map<Seq<char>, RunControl>,
)
    requires
        pass.wf(),
        pass.step is Store,
        startup_follows(
            controls,
            platform,
            pass,
            StartupEvent::Stored(stored),
            now_ms,
            action,
            after,
        ),
    ensures
        stored matches Err(error) ==> action == StartupAction::Fail(error) && after == controls,
        stored is Ok ==> (action matches StartupAction::Perform(next) && {
            let place = pass.next + 1;
            let recovered = pass.step->Store_0.recovered;
            let run_id = pass.page@[pass.next as int].run.id@;
            &&& next.page == pass.page
            &&& next.next == place
            &&& next.step is ReadPage <==> place == pass.page@.len()
            &&& place < pass.page@.len() ==> (next.step is Probe <==> has_evidence(
                platform,
                pass.page@[place].run,
            ))
            &&& recovered is None ==> after == controls && next.workers == pass.workers
            &&& recovered matches Some((plan, process)) ==> {
                &&& after.dom() == controls.dom().insert(run_id)
                &&& forall|other: Seq<char>|
                    other != run_id && controls.dom().contains(other) ==> #[trigger] after[other]
                        == controls[other]
                &&& plan is Running ==> after[run_id] == RunControl::Running(process)
                    && next.workers == pass.workers
                &&& plan is Stopping ==> after[run_id] is Stopping
                    && after[run_id]->Stopping_0.process == process && next.workers@.len()
                    == pass.workers@.len() + 1 && next.workers@.last().run_id@ == run_id
                    && next.workers@.last().operation_id@
                    == after[run_id]->Stopping_0.operation_id@
            }
        }),
{
}

/// A run that is taken over is held with the process that was found, and a worker
/// goes on exactly where it was being stopped.
pub proof fn lemma_take_over_holds_the_found_process(
    before: Map<Seq<char>, RunControl>,
    run_id: Seq<char>,
    plan: RecoveredPlan,
    process: ManagedProcess,
    now_ms: u64,
    worker: Option<String>,
    after: Map<Seq<char>, RunControl>,
)
    requires
        taken_over(before, run_id, plan, process, now_ms, worker, after),
    ensures
        after.dom().contains(run_id),
        after[run_id].key() == Some(process.instance_key@),
        worker is Some <==> after[run_id] is Stopping,
        after[run_id] is Running <==> plan is Running,
        worker is Some ==> worker->0@ == after[run_id]->Stopping_0.operation_id@,
        forall|other: Seq<char>|
            other != run_id ==> (#[trigger] after.dom().contains(other) == before.dom().contains(
                other,
            )),
{
}

/// The time after which a reconciliation lies is before neither of the two times.
pub proof fn lemma_reconciliation_lies_behind_both_times(
    run_updated_at: &str,
    active_updated_at: Option<&str>,
    timestamp: &str,
)
    requires
        call_ensures(
            reconciliation_previous_timestamp,
            (run_updated_at, active_updated_at),
            timestamp,
        ),
    ensures
        !text_before(timestamp@, run_updated_at@),
        active_updated_at matches Some(active) ==> !text_before(timestamp@, active@),
        timestamp@ == run_updated_at@ || (active_updated_at matches Some(active) && timestamp@
            == active@),
{
    lemma_text_order_is_total(run_updated_at@, run_updated_at@);
    if let Some(active) = active_updated_at {
        lemma_text_order_is_total(active@, active@);
        lemma_text_order_is_total(run_updated_at@, active@);
    }
}

/// Trying a clean-up again lets exactly the runs go that wait for it and were cleaned
/// up, and touches no other; none is left to be tried where none is.
pub proof fn lemma_clean_up_lets_cleaned_runs_go_only(
    before: Map<Seq<char>, RunControl>,
    cleaned: Seq<String>,
    after: Map<Seq<char>, RunControl>,
    left: nat,
    name: Seq<char>,
)
    requires
        pending_retried(before, cleaned, after, left),
        before.dom().finite(),
    ensures
        before.dom().contains(name) && !after.dom().contains(name) <==> before.dom().contains(name)
            && before[name] is CleanupPending && (exists|i: int|
            0 <= i < cleaned.len() && (#[trigger] cleaned[i])@ == name),
        after.dom().contains(name) ==> before.dom().contains(name) && after[name] == before[name],
        after.dom().contains(name) && after[name] is CleanupPending ==> left > 0,
{
    if after.dom().contains(name) && after[name] is CleanupPending {
        let pending = after.dom().filter(|n: Seq<char>| after[n] is CleanupPending);
        let property = |control: RunControl| control is CleanupPending;
        assert(after.dom().filter(|n: Seq<char>| property(after[n])) =~= pending);
        assert(pending.contains(name));
        assert(after.dom().subset_of(before.dom()));
        vstd::set_lib::lemma_set_subset_finite(before.dom(), after.dom());
        vstd::set_lib::lemma_set_subset_finite(before.dom(), pending);
        if pending.len() == 0 {
            assert(pending =~= Set::empty());
        }
    }
}

/// A clean-up is tried again up to four times, and then only while a run waits.
pub proof fn lemma_clean_up_is_retried_while_a_run_waits(attempts: usize, left: usize, wants: bool)
    requires
        call_ensures(wants_cleanup_retry, (attempts, left), wants),
    ensures
        attempts >= 4 ==> !wants,
        attempts == 0 ==> wants,
        0 < attempts < 4 ==> wants == (left > 0),
{
}

/// The monitor of an interactive run leaves the run as soon as it is not held as
/// running by itself; it stores an exit only where one was seen, at the time at which
/// it was first confirmed, and waits otherwise.
pub proof fn lemma_monitor_stores_a_seen_exit_only(
    controls: Controls,
    run_id: &str,
    confirmed_at: Option<String>,
    exited: bool,
    exit_time: Option<String>,
    step: MonitorStep,
)
    requires
        call_ensures(
            monitor_terminal_exit,
            (&controls, run_id, confirmed_at, exited, exit_time),
            step,
        ),
    ensures
        step is Leave <==> !(controls@.dom().contains(run_id@) && controls@[run_id@] is Running
            && controls@[run_id@]->Running_0.terminal),
        step matches MonitorStep::MarkExited(ended_at) ==> {
            &&& confirmed_at is Some || exited
            &&& confirmed_at is Some ==> confirmed_at == Some(ended_at)
            &&& confirmed_at is None ==> exit_time == Some(ended_at)
        },
        !(step is Leave) && confirmed_at is Some ==> step is MarkExited,
        !(step is Leave) && exited && exit_time is Some ==> step is MarkExited,
        !(step is Leave) && confirmed_at is None && !exited ==> step is Wait,
{
}

/// A run is let go exactly where its exit was stored; where it was not, it stays held and
/// its exit is stored again later.
pub proof fn lemma_run_is_held_until_its_exit_is_stored(
    before: Map<Seq<char>, RunControl>,
    run_id: Seq<char>,
    stored: bool,
    finished: bool,
    after: Map<Seq<char>, RunControl>,
    other: Seq<char>,
)
    requires
        exit_settled(before, run_id, stored, finished, after),
    ensures
        finished <==> stored,
        stored ==> !after.dom().contains(run_id),
        !stored ==> after == before,
        other != run_id ==> (after.dom().contains(other) <==> before.dom().contains(other)),
        other != run_id && before.dom().contains(other) ==> after[other] == before[other],
{
}

} // verus!
