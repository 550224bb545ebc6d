//! Taking runs over after the supervisor was started again: which stored runs
//! can be held again, in which phase of a stop, and which are given up.

use vstd::prelude::*;

use crate::error::{optional_text, AppError};
use crate::run::{
    is_text, persisted_platform_control_is_valid, shows, stop_summary_matches_record, Controls,
    ManagedProcess, ManagedRunRecord, Platform, RunControl, RunState, SignalDisposition, StopKind,
    StopOperation, StopPhase, StopStatus, StoppingProcess,
};
use crate::stop::{confirmation_window, FORCE_STOP_CONFIRMATION_TIMEOUT_MS};
use crate::text::{is_listed, text_before, text_less};

verus! {

/// What is stored of a run that was left unfinished.
#[derive(Clone, Copy, Debug, PartialEq, Eq, Structural)]
pub enum RecoveryOutcome {
    Recovered,
    ExitedWhileOffline,
    IdentityMismatch,
    Orphaned,
}

/// How a process that is found again is held.
#[derive(Debug)]
pub enum RecoveredPlan {
    Running,
    Stopping {
        operation_id: String,
        kind: StopKind,
        phase: StopPhase,
        signal_disposition: Option<SignalDisposition>,
        confirmation_window: u64,
    },
}

pub open spec fn method_label(kind: StopKind) -> Seq<char> {
    match kind {
        StopKind::Graceful => "GRACEFUL"@,
        StopKind::Force => "FORCE"@,
    }
}

pub fn stop_method_label(kind: StopKind) -> (label: &'static str)
    ensures
        label@ == method_label(kind),
{
    match kind {
        StopKind::Graceful => "GRACEFUL",
        StopKind::Force => "FORCE",
    }
}

/// A run that has an identity and has not been seen to end, and whose stored
/// process group fits the identity.
pub open spec fn probeable(platform: Platform, run: ManagedRunRecord) -> bool {
    &&& run.process_instance_key is Some
    &&& run.ended_at is None
    &&& run.exit_code is None
    &&& run.exit_signal is None
    &&& match platform {
        Platform::Windows => run.process_group_id is None,
        Platform::MacOs => run.process_group_id == Some(run.process_instance_key->0.pid),
    }
}

pub fn recovery_evidence_is_probeable(platform: Platform, run: &ManagedRunRecord) -> (probe: bool)
    ensures
        probe == probeable(platform, *run),
{
    match &run.process_instance_key {
        Some(key) => run.ended_at.is_none() && run.exit_code.is_none() && run.exit_signal.is_none()
            && persisted_platform_control_is_valid(platform, key, run.process_group_id),
        None => false,
    }
}

/// The phase in which an unfinished stop goes on. A stop whose signal was about
/// to be sent has none: whether the signal went out cannot be known, and it is
/// never sent a second time.
pub open spec fn resumed_phase(
    kind: StopKind,
    status: StopStatus,
    state: RunState,
    signal_known: bool,
) -> Option<StopPhase> {
    match (kind, status, state) {
        (StopKind::Graceful, StopStatus::Requested, RunState::StopRequested) if !signal_known => Some(
            StopPhase::Requested,
        ),
        (StopKind::Force, StopStatus::Requested, RunState::StopRequested) if !signal_known => Some(
            StopPhase::Requested,
        ),
        (StopKind::Force, StopStatus::Requested, RunState::GracefulStopping) if !signal_known => Some(
            StopPhase::Requested,
        ),
        (StopKind::Graceful, StopStatus::InProgress, RunState::GracefulStopping) if signal_known => Some(
            StopPhase::Monitoring,
        ),
        (StopKind::Force, StopStatus::InProgress, RunState::ForceStopping) if signal_known => Some(
            StopPhase::Monitoring,
        ),
        (StopKind::Graceful, StopStatus::TimedOut, RunState::GracefulStopping) if signal_known => Some(
            StopPhase::TimedOut,
        ),
        _ => None,
    }
}

/// A stop operation that has not ended and agrees with the stored run.
pub open spec fn stop_is_coherent(operation: StopOperation, run: ManagedRunRecord) -> bool {
    &&& shows(
        operation.run,
        run,
        run.profile_snapshot.id@,
        run.state,
        run.updated_at@,
        optional_text(run.ended_at),
    )
    &&& optional_text(run.stop_method) == Some(method_label(operation.kind))
    &&& operation.outcome is None
    &&& operation.completed_at is None
}

/// What is known of how a stored run can be held again.
pub open spec fn plan_fits(
    plan: Option<RecoveredPlan>,
    platform: Platform,
    run: ManagedRunRecord,
    active_stop: Option<StopOperation>,
) -> bool {
    if run.state == RunState::Starting || !probeable(platform, run) {
        plan is None
    } else {
        match active_stop {
            None => if run.stop_method is None && (run.state == RunState::Running || run.state
                == RunState::Recovered) {
                plan == Some(RecoveredPlan::Running)
            } else {
                plan is None
            },
            Some(operation) => {
                let phase = resumed_phase(
                    operation.kind,
                    operation.status,
                    run.state,
                    operation.signal_disposition is Some,
                );
                if stop_is_coherent(operation, run) && phase is Some {
                    match plan {
                        Some(
                            RecoveredPlan::Stopping {
                                operation_id,
                                kind,
                                phase: planned,
                                signal_disposition,
                                confirmation_window: window,
                            },
                        ) => {
                            &&& operation_id@ == operation.operation_id@
                            &&& kind == operation.kind
                            &&& planned == phase->0
                            &&& signal_disposition == operation.signal_disposition
                            &&& window == confirmation_window(
                                operation.kind,
                                run.profile_snapshot.stop_timeout_ms,
                            )
                        },
                        _ => false,
                    }
                } else {
                    plan is None
                }
            },
        }
    }
}

pub fn recovered_control_plan(
    platform: Platform,
    run: &ManagedRunRecord,
    active_stop: Option<&StopOperation>,
) -> (plan: Option<RecoveredPlan>)
    ensures
        plan_fits(
            plan,
            platform,
            *run,
            match active_stop {
                Some(operation) => Some(*operation),
                None => None,
            },
        ),
{
    if run.state == RunState::Starting || !recovery_evidence_is_probeable(platform, run) {
        return None;
    }
    let operation = match active_stop {
        Some(operation) => operation,
        None => {
            return if run.stop_method.is_none() && (run.state == RunState::Running || run.state
                == RunState::Recovered) {
                Some(RecoveredPlan::Running)
            } else {
                None
            };
        },
    };
    if !stop_summary_matches_record(&operation.run, run) || !is_text(
        &run.stop_method,
        stop_method_label(operation.kind),
    ) || operation.outcome.is_some() || operation.completed_at.is_some() {
        return None;
    }
    let signal_known = operation.signal_disposition.is_some();
    let phase = match (operation.kind, operation.status, run.state) {
        (StopKind::Graceful, StopStatus::Requested, RunState::StopRequested)
        | (StopKind::Force, StopStatus::Requested, RunState::StopRequested)
        | (StopKind::Force, StopStatus::Requested, RunState::GracefulStopping) => {
            if signal_known {
                return None;
            }
            StopPhase::Requested
        },
        (StopKind::Graceful, StopStatus::InProgress, RunState::GracefulStopping)
        | (StopKind::Force, StopStatus::InProgress, RunState::ForceStopping) => {
            if !signal_known {
                return None;
            }
            StopPhase::Monitoring
        },
        (StopKind::Graceful, StopStatus::TimedOut, RunState::GracefulStopping) => {
            if !signal_known {
                return None;
            }
            StopPhase::TimedOut
        },
        _ => return None,
    };
    let window: u64 = match operation.kind {
        StopKind::Graceful => run.profile_snapshot.stop_timeout_ms as u64,
        StopKind::Force => FORCE_STOP_CONFIRMATION_TIMEOUT_MS,
    };
    Some(
        RecoveredPlan::Stopping {
            operation_id: operation.operation_id.clone(),
            kind: operation.kind,
            phase,
            signal_disposition: operation.signal_disposition,
            confirmation_window: window,
        },
    )
}

/// What a look at the process of a stored run found.
#[derive(Debug)]
pub struct RecoveryProbe {
    pub outcome: RecoveryOutcome,
    pub process: Option<ManagedProcess>,
}

/// What is to be stored of an unfinished run, and what is held of it then.
#[derive(Debug)]
pub struct Reconciliation {
    pub outcome: RecoveryOutcome,
    pub recovered: Option<(RecoveredPlan, ManagedProcess)>,
}

/// Decides about an unfinished run from what a look at its process found; a run
/// whose evidence allows no look is orphaned. A process that was found is held
/// again only where it is known how.
pub fn reconcile_run(plan: Option<RecoveredPlan>, probe: Option<RecoveryProbe>) -> (decision:
    Reconciliation)
    ensures
        match probe {
            None => decision.outcome == RecoveryOutcome::Orphaned && decision.recovered is None,
            Some(probe) => {
                &&& decision.outcome == (if probe.outcome == RecoveryOutcome::Recovered && (plan
                    is None || probe.process is None) {
                    RecoveryOutcome::Orphaned
                } else {
                    probe.outcome
                })
                &&& decision.recovered == (if plan is Some && probe.process is Some {
                    Some((plan->0, probe.process->0))
                } else {
                    None
                })
            },
        },
{
    match probe {
        None => Reconciliation { outcome: RecoveryOutcome::Orphaned, recovered: None },
        Some(probe) => match (plan, probe.process) {
            (Some(plan), Some(process)) => Reconciliation {
                outcome: probe.outcome,
                recovered: Some((plan, process)),
            },
            _ => Reconciliation {
                outcome: if probe.outcome == RecoveryOutcome::Recovered {
                    RecoveryOutcome::Orphaned
                } else {
                    probe.outcome
                },
                recovered: None,
            },
        },
    }
}

/// The time after which a reconciliation has to lie.
pub fn reconciliation_previous_timestamp<'a>(
    run_updated_at: &'a str,
    active_updated_at: Option<&'a str>,
) -> (timestamp: &'a str)
    ensures
        timestamp@ == (match active_updated_at {
            Some(active) => if text_before(run_updated_at@, active@) {
                active@
            } else {
                run_updated_at@
            },
            None => run_updated_at@,
        }),
{
    match active_updated_at {
        Some(active) => if text_less(run_updated_at, active) {
            active
        } else {
            run_updated_at
        },
        None => run_updated_at,
    }
}

/// What is held of a run that is taken over. A stop that was only requested
/// gets its whole time again; one whose signal was sent is due at once.
pub open spec fn recovered_control(
    plan: RecoveredPlan,
    process: ManagedProcess,
    now_ms: u64,
    control: RunControl,
) -> bool {
    match plan {
        RecoveredPlan::Running => control == RunControl::Running(process),
        RecoveredPlan::Stopping {
            operation_id,
            kind,
            phase,
            signal_disposition,
            confirmation_window: window,
        } => match control {
            RunControl::Stopping(stop) => {
                &&& stop.process == process
                &&& stop.operation_id@ == operation_id@
                &&& stop.kind == kind
                &&& stop.phase == phase
                &&& stop.signal_disposition == signal_disposition
                &&& stop.confirmation_window == window
                &&& stop.deadline == (if phase == StopPhase::Requested {
                    now_ms + window
                } else {
                    now_ms as int
                })
                &&& stop.worker_running
            },
            _ => false,
        },
    }
}

/// What holding a run that is taken over gives.
pub open spec fn taken_over(
    before: Map<Seq<char>, RunControl>,
    run_id: Seq<char>,
    plan: RecoveredPlan,
    process: ManagedProcess,
    now_ms: u64,
    worker: Option<String>,
    after: Map<Seq<char>, RunControl>,
) -> bool {
    &&& after.dom() == before.dom().insert(run_id)
    &&& forall|other: Seq<char>|
        other != run_id && before.dom().contains(other) ==> #[trigger] after[other]
            == before[other]
    &&& recovered_control(plan, process, now_ms, after[run_id])
    &&& match plan {
        RecoveredPlan::Running => worker is None,
        RecoveredPlan::Stopping { operation_id, .. } => worker is Some && worker->0@
            == operation_id@,
    }
}

/// Holds a run that is taken over; the result names the operation whose worker
/// has to go on, where there is one.
pub fn materialize_recovered_control(
    controls: &mut Controls,
    run_id: &str,
    plan: RecoveredPlan,
    process: ManagedProcess,
    now_ms: u64,
) -> (worker: Option<String>)
    requires
        old(controls).wf(),
        match plan {
            RecoveredPlan::Running => true,
            RecoveredPlan::Stopping { confirmation_window: window, .. } => now_ms + window
                <= u64::MAX,
        },
    ensures
        final(controls).wf(),
        taken_over(
            old(controls)@,
            run_id@,
            plan,
            process,
            now_ms,
            worker,
            final(controls)@,
        ),
{
    match plan {
        RecoveredPlan::Running => {
            controls.insert(run_id, RunControl::Running(process));
            None
        },
        RecoveredPlan::Stopping {
            operation_id,
            kind,
            phase,
            signal_disposition,
            confirmation_window: window,
        } => {
            let worker = operation_id.clone();
            let deadline: u64 = match phase {
                StopPhase::Requested => now_ms + window,
                _ => now_ms,
            };
            controls.insert(
                run_id,
                RunControl::Stopping(
                    StoppingProcess {
                        process,
                        operation_id,
                        kind,
                        phase,
                        signal_disposition,
                        confirmation_window: window,
                        deadline,
                        worker_running: true,
                    },
                ),
            );
            Some(worker)
        },
    }
}

/// No stop is taken over in a phase in which a signal may be under way or an
/// end is about to be stored.
pub proof fn lemma_ambiguous_stop_is_not_resumed(
    platform: Platform,
    run: ManagedRunRecord,
    active_stop: Option<StopOperation>,
    plan: RecoveredPlan,
)
    requires
        plan_fits(Some(plan), platform, run, active_stop),
    ensures
        run.state != RunState::Starting,
        active_stop is Some ==> !(active_stop->0.status is SignalPending),
        match plan {
            RecoveredPlan::Running => active_stop is None,
            RecoveredPlan::Stopping { phase, signal_disposition, .. } => {
                &&& phase == StopPhase::Requested || phase == StopPhase::Monitoring || phase
                    == StopPhase::TimedOut
                &&& phase == StopPhase::Requested <==> signal_disposition is None
            },
        },
{
}

/// What trying the clean-up of failed launches again gives.
pub open spec fn pending_retried(
    before: Map<Seq<char>, RunControl>,
    cleaned: Seq<String>,
    after: Map<Seq<char>, RunControl>,
    left: nat,
) -> bool {
    &&& forall|name: Seq<char>| #[trigger]
        after.dom().contains(name) <==> before.dom().contains(name) && !(before[name]
            is CleanupPending && is_listed(cleaned, name))
    &&& forall|name: Seq<char>|
        after.dom().contains(name) ==> #[trigger] after[name] == before[name]
    &&& left == crate::run::count_where(after, |control: RunControl| control is CleanupPending)
}

/// Lets the runs go whose failed launch has now been cleaned up; the result is
/// the number of runs that still wait for it.
pub fn retry_pending_controls(controls: &mut Controls, cleaned: &Vec<String>) -> (left: usize)
    requires
        old(controls).wf(),
    ensures
        final(controls).wf(),
        pending_retried(old(controls)@, cleaned@, final(controls)@, left as nat),
{
    let mut i: usize = 0;
    while i < cleaned.len()
        invariant
            controls.wf(),
            i <= cleaned@.len(),
            forall|name: Seq<char>| #[trigger]
                controls@.dom().contains(name) <==> old(controls)@.dom().contains(name) && !(old(controls)@[name] is CleanupPending && is_listed(cleaned@.subrange(0, i as int), name)),
            forall|name: Seq<char>|
                controls@.dom().contains(name) ==> #[trigger] controls@[name] == old(controls)@[name],
        decreases cleaned@.len() - i,
    {
        let pending = match controls.get(cleaned[i].as_str()) {
            Some(RunControl::CleanupPending(_)) => true,
            _ => false,
        };
        let ghost before = controls@;
        if pending {
            let _ = controls.remove(cleaned[i].as_str());
        }
        proof {
            let shorter = cleaned@.subrange(0, i as int);
            let longer = cleaned@.subrange(0, i + 1);
            assert(longer =~= shorter.push(cleaned@[i as int]));
            let this = cleaned@[i as int]@;
            assert forall|name: Seq<char>| is_listed(longer, name) == (is_listed(shorter, name)
                || name == this) by {
                if is_listed(longer, name) && name != this {
                    let k = choose|k: int| 0 <= k < longer.len() && (#[trigger] longer[k])@ == name;
                    assert(shorter[k]@ == name);
                }
                if is_listed(shorter, name) {
                    let k = choose|k: int| 0 <= k < shorter.len() && (#[trigger] shorter[k])@ == name;
                    assert(longer[k]@ == name);
                }
                assert(longer[i as int]@ == this);
            }
        }
        i += 1;
    }
    assert(cleaned@.subrange(0, cleaned@.len() as int) =~= cleaned@);
    crate::run::cleanup_pending_count(controls)
}

/// A run that the store shows as unfinished, with its active stop.
#[derive(Debug)]
pub struct RecoveryCandidate {
    pub run: ManagedRunRecord,
    pub active_stop: Option<StopOperation>,
}

/// A stop whose worker has to go on.
#[derive(Debug)]
pub struct RecoveredStopWorker {
    pub run_id: String,
    pub operation_id: String,
}

/// What the reconciliation at the start waits for.
#[derive(Debug)]
pub enum StartupStep {
    /// A page of unfinished runs behind the last one that was read.
    ReadPage,
    /// A look at the process of the next run.
    Probe,
    /// That the outcome of the next run is stored.
    Store(Reconciliation),
}

/// The reconciliation of the runs that were left unfinished: the page that is
/// worked on, the next run of it, the last run of the page, and the stops whose
/// workers have to go on.
#[derive(Debug)]
pub struct StartupPass {
    pub page: Vec<RecoveryCandidate>,
    pub next: usize,
    pub cursor: Option<String>,
    pub workers: Vec<RecoveredStopWorker>,
    pub step: StartupStep,
}

/// What came of a step.
#[derive(Debug)]
pub enum StartupEvent {
    Page(Result<Vec<RecoveryCandidate>, AppError>),
    Probed(RecoveryProbe),
    Stored(Result<(), AppError>),
}

/// What follows.
#[derive(Debug)]
pub enum StartupAction {
    /// Do the step that the pass is at.
    Perform(StartupPass),
    Done(Vec<RecoveredStopWorker>),
    Fail(AppError),
}

impl StartupPass {
    /// While a page is worked on there is a next run; and before a page is read
    /// there is none left.
    pub open spec fn wf(self) -> bool {
        match self.step {
            StartupStep::ReadPage => self.next == self.page@.len(),
            StartupStep::Probe => self.next < self.page@.len(),
            StartupStep::Store(_) => self.next < self.page@.len(),
        }
    }

    pub fn begin() -> (pass: Self)
        ensures
            pass.wf(),
            pass.page@ == Seq::<RecoveryCandidate>::empty(),
            pass.next == 0,
            pass.cursor is None,
            pass.workers@ == Seq::<RecoveredStopWorker>::empty(),
            pass.step is ReadPage,
    {
        StartupPass {
            page: Vec::new(),
            next: 0,
            cursor: None,
            workers: Vec::new(),
            step: StartupStep::ReadPage,
        }
    }
}

/// The plan for a run.
pub open spec fn plan_for(
    plan: Option<RecoveredPlan>,
    platform: Platform,
    candidate: RecoveryCandidate,
) -> bool {
    plan_fits(plan, platform, candidate.run, candidate.active_stop)
}

/// What is decided of a run from what a look at its process found.
pub open spec fn decided(
    platform: Platform,
    candidate: RecoveryCandidate,
    probe: Option<RecoveryProbe>,
    decision: Reconciliation,
) -> bool {
    match probe {
        None => decision.outcome == RecoveryOutcome::Orphaned && decision.recovered is None,
        Some(probe) => exists|plan: Option<RecoveredPlan>|
            {
                &&& #[trigger] plan_for(plan, platform, candidate)
                &&& decision.outcome == (if probe.outcome == RecoveryOutcome::Recovered && (plan
                    is None || probe.process is None) {
                    RecoveryOutcome::Orphaned
                } else {
                    probe.outcome
                })
                &&& decision.recovered == (if plan is Some && probe.process is Some {
                    Some((plan->0, probe.process->0))
                } else {
                    None
                })
            },
    }
}

/// The pass turns to the run at a place of its page: it is looked at where its
/// evidence allows that, and is orphaned where not; behind the last run the next
/// page is read.
pub open spec fn turns_to(pass: StartupPass, platform: Platform, place: int) -> bool {
    &&& pass.next == place
    &&& match pass.step {
        StartupStep::ReadPage => place == pass.page@.len(),
        StartupStep::Probe => place < pass.page@.len() && probeable(platform, pass.page@[place].run),
        StartupStep::Store(decision) => place < pass.page@.len() && !probeable(
            platform,
            pass.page@[place].run,
        ) && decided(platform, pass.page@[place], None, decision),
    }
}

/// What follows an event of the reconciliation at the start.
pub open spec fn startup_follows(
    controls: Map<Seq<char>, RunControl>,
    platform: Platform,
    pass: StartupPass,
    event: StartupEvent,
    now_ms: u64,
    action: StartupAction,
    after: Map<Seq<char>, RunControl>,
) -> bool {
    match (pass.step, event) {
        (StartupStep::ReadPage, StartupEvent::Page(Err(error))) => action == StartupAction::Fail(
            error,
        ) && after == controls,
        (StartupStep::ReadPage, StartupEvent::Page(Ok(page))) => {
            &&& after == controls
            &&& if page@.len() == 0 {
                action matches StartupAction::Done(workers) && workers == pass.workers
            } else {
                action matches StartupAction::Perform(next) && {
                    &&& next.page == page
                    &&& next.workers == pass.workers
                    &&& optional_text(next.cursor) == Some(page@.last().run.id@)
                    &&& turns_to(next, platform, 0)
                }
            }
        },
        (StartupStep::Probe, StartupEvent::Probed(probe)) => {
            &&& after == controls
            &&& action matches StartupAction::Perform(next) && {
                &&& next == (StartupPass { step: next.step, ..pass })
                &&& next.step matches StartupStep::Store(decision) && decided(
                    platform,
                    pass.page@[pass.next as int],
                    Some(probe),
                    decision,
                )
            }
        },
        (StartupStep::Store(_), StartupEvent::Stored(Err(error))) => action == StartupAction::Fail(
            error,
        ) && after == controls,
        (StartupStep::Store(decision), StartupEvent::Stored(Ok(_))) => {
            let run_id = pass.page@[pass.next as int].run.id@;
            &&& action matches StartupAction::Perform(next) && {
                &&& next.page == pass.page
                &&& next.cursor == pass.cursor
                &&& turns_to(next, platform, pass.next + 1)
                &&& match decision.recovered {
                    None => after == controls && next.workers == pass.workers,
                    Some((plan, process)) => {
                        &&& after.dom() == controls.dom().insert(run_id)
                        &&& forall|other: Seq<char>|
                            other != run_id && controls.dom().contains(other)
                                ==> #[trigger] after[other] == controls[other]
                        &&& recovered_control(plan, process, now_ms, after[run_id])
                        &&& match plan {
                            RecoveredPlan::Running => next.workers == pass.workers,
                            RecoveredPlan::Stopping { operation_id, .. } => {
                                &&& next.workers@.len() == pass.workers@.len() + 1
                                &&& next.workers@.drop_last() == pass.workers@
                                &&& next.workers@.last().run_id@ == run_id
                                &&& next.workers@.last().operation_id@ == operation_id@
                            },
                        }
                    },
                }
            }
        },
        _ => false,
    }
}

/// An event is one that the pass waits for.
pub open spec fn startup_event_fits(step: StartupStep, event: StartupEvent) -> bool {
    match step {
        StartupStep::ReadPage => event is Page,
        StartupStep::Probe => event is Probed,
        StartupStep::Store(_) => event is Stored,
    }
}

/// Whether the time of a stop that goes on can be counted.
pub open spec fn window_fits(step: StartupStep, now_ms: u64) -> bool {
    match step {
        StartupStep::Store(Reconciliation {
            recovered: Some((RecoveredPlan::Stopping { confirmation_window, .. }, _)),
            ..
        }) => now_ms + confirmation_window <= u64::MAX,
        _ => true,
    }
}

/// Turns to the next run of the page.
fn turn_on(pass: StartupPass, platform: Platform) -> (turned: StartupPass)
    requires
        pass.next <= pass.page@.len(),
    ensures
        turned.wf(),
        turns_to(turned, platform, pass.next as int),
        turned == (StartupPass { step: turned.step, ..pass }),
{
    let mut turned = pass;
    if turned.next == turned.page.len() {
        turned.step = StartupStep::ReadPage;
    } else if recovery_evidence_is_probeable(platform, &turned.page[turned.next].run) {
        turned.step = StartupStep::Probe;
    } else {
        turned.step = StartupStep::Store(reconcile_run(None, None));
    }
    turned
}

/// The reconciliation of the runs that were left unfinished, at the start: page
/// by page, each run is looked at, its outcome is stored, and where its process
/// was found it is held again.
pub fn reconcile_startup_managed_runs(
    controls: &mut Controls,
    platform: Platform,
    pass: StartupPass,
    event: StartupEvent,
    now_ms: u64,
) -> (action: StartupAction)
    requires
        old(controls).wf(),
        pass.wf(),
        startup_event_fits(pass.step, event),
        window_fits(pass.step, now_ms),
    ensures
        final(controls).wf(),
        startup_follows(old(controls)@, platform, pass, event, now_ms, action, final(controls)@),
        action matches StartupAction::Perform(next) ==> next.wf(),
{
    let mut next = pass;
    match event {
        StartupEvent::Page(Err(error)) => StartupAction::Fail(error),
        StartupEvent::Page(Ok(page)) => {
            let length: usize = page.len();
            if length == 0 {
                return StartupAction::Done(next.workers);
            }
            next.cursor = Some(page[length - 1].run.id.clone());
            next.page = page;
            next.next = 0;
            StartupAction::Perform(turn_on(next, platform))
        },
        StartupEvent::Probed(probe) => {
            let candidate = &next.page[next.next];
            let plan = match &candidate.active_stop {
                Some(operation) => recovered_control_plan(
                    platform,
                    &candidate.run,
                    Some(operation),
                ),
                None => recovered_control_plan(platform, &candidate.run, None),
            };
            assert(plan_for(plan, platform, *candidate));
            next.step = StartupStep::Store(reconcile_run(plan, Some(probe)));
            StartupAction::Perform(next)
        },
        StartupEvent::Stored(Err(error)) => StartupAction::Fail(error),
        StartupEvent::Stored(Ok(_)) => {
            let StartupPass { page, next: place, cursor, workers, step } = next;
            let mut workers = workers;
            let total: usize = page.len();
            assert(place < total);
            if let StartupStep::Store(decision) = step {
                if let Some((plan, process)) = decision.recovered {
                    let run_id = page[place].run.id.as_str();
                    let worker = materialize_recovered_control(
                        controls,
                        run_id,
                        plan,
                        process,
                        now_ms,
                    );
                    if let Some(operation_id) = worker {
                        let ghost before = workers@;
                        workers.push(
                            RecoveredStopWorker { run_id: run_id.to_owned(), operation_id },
                        );
                        assert(workers@.drop_last() =~= before);
                    }
                }
            }
            let on = StartupPass {
                page,
                next: place + 1,
                cursor,
                workers,
                step: StartupStep::ReadPage,
            };
            StartupAction::Perform(turn_on(on, platform))
        },
    }
}

/// The reconciliation at the start as it went on: the passes, and what came of
/// the step of each.
pub struct StartupTrace {
    pub platform: Platform,
    pub passes: Seq<StartupPass>,
    pub events: Seq<StartupEvent>,
    pub actions: Seq<StartupAction>,
    pub controls: Seq<Map<Seq<char>, RunControl>>,
    pub times: Seq<u64>,
}

impl StartupTrace {
    /// It begins with no page, and each pass follows from the one before.
    pub open spec fn wf(self) -> bool {
        &&& self.passes.len() == self.events.len()
        &&& self.actions.len() == self.events.len()
        &&& self.times.len() == self.events.len()
        &&& self.controls.len() == self.events.len() + 1
        &&& self.passes.len() > 0 ==> self.passes[0].page@.len() == 0 && self.passes[0].next == 0
            && self.passes[0].step is ReadPage
        &&& forall|i: int|
            0 <= i < self.events.len() ==> {
                &&& (#[trigger] self.passes[i]).wf()
                &&& startup_follows(
                    self.controls[i],
                    self.platform,
                    self.passes[i],
                    self.events[i],
                    self.times[i],
                    self.actions[i],
                    self.controls[i + 1],
                )
                &&& i + 1 < self.passes.len() ==> self.actions[i] == StartupAction::Perform(
                    self.passes[i + 1],
                )
            }
    }
}

/// The runs of a page from a place on.
pub open spec fn ids_from(page: Seq<RecoveryCandidate>, from: int) -> Seq<Seq<char>>
    decreases page.len() - from,
{
    if from >= page.len() || from < 0 {
        Seq::empty()
    } else {
        seq![page[from].run.id@] + ids_from(page, from + 1)
    }
}

/// The runs that the store listed in the first events.
pub open spec fn listed(trace: StartupTrace, end: int) -> Seq<Seq<char>>
    decreases end,
{
    if end <= 0 {
        Seq::empty()
    } else {
        listed(trace, end - 1) + (match trace.events[end - 1] {
            StartupEvent::Page(Ok(page)) => ids_from(page@, 0),
            _ => Seq::empty(),
        })
    }
}

/// The runs whose outcome was stored in the first events.
pub open spec fn reconciled(trace: StartupTrace, end: int) -> Seq<Seq<char>>
    decreases end,
{
    if end <= 0 {
        Seq::empty()
    } else {
        reconciled(trace, end - 1) + (match trace.events[end - 1] {
            StartupEvent::Stored(Ok(_)) => {
                let pass = trace.passes[end - 1];
                seq![pass.page@[pass.next as int].run.id@]
            },
            _ => Seq::empty(),
        })
    }
}

proof fn lemma_reconciled_so_far(trace: StartupTrace, at: int)
    requires
        trace.wf(),
        0 <= at < trace.passes.len(),
    ensures
        listed(trace, at) == reconciled(trace, at) + ids_from(
            trace.passes[at].page@,
            trace.passes[at].next as int,
        ),
    decreases at,
{
    let pass = trace.passes[at];
    if at == 0 {
        assert(ids_from(pass.page@, 0) =~= Seq::empty());
        assert(Seq::<Seq<char>>::empty() + Seq::<Seq<char>>::empty() =~= Seq::<Seq<char>>::empty());
    } else {
        lemma_reconciled_so_far(trace, at - 1);
        let before = trace.passes[at - 1];
        let left = ids_from(before.page@, before.next as int);
        assert(before.wf());
        match (before.step, trace.events[at - 1]) {
            (StartupStep::ReadPage, StartupEvent::Page(Ok(page))) => {
                assert(left =~= Seq::empty());
                assert(reconciled(trace, at - 1) + left =~= reconciled(trace, at - 1));
                assert(reconciled(trace, at) =~= reconciled(trace, at - 1));
                assert(listed(trace, at) =~= reconciled(trace, at) + ids_from(page@, 0));
            },
            (StartupStep::Probe, StartupEvent::Probed(_)) => {
                assert(listed(trace, at) =~= listed(trace, at - 1));
                assert(reconciled(trace, at) =~= reconciled(trace, at - 1));
            },
            (StartupStep::Store(_), StartupEvent::Stored(Ok(_))) => {
                let id = before.page@[before.next as int].run.id@;
                assert(listed(trace, at) =~= listed(trace, at - 1));
                assert(left == seq![id] + ids_from(before.page@, before.next + 1));
                assert(reconciled(trace, at) + ids_from(before.page@, before.next + 1)
                    =~= reconciled(trace, at - 1) + left);
            },
            _ => {},
        }
    }
}

/// When the reconciliation at the start is done, each run that the store listed
/// as unfinished has been reconciled, once and in the order of the lists.
pub proof fn lemma_each_unfinished_run_is_reconciled_once(trace: StartupTrace)
    requires
        trace.wf(),
        trace.actions.len() > 0,
        trace.actions.last() is Done,
    ensures
        reconciled(trace, trace.events.len() as int) == listed(trace, trace.events.len() as int),
{
    let last = trace.events.len() - 1;
    lemma_reconciled_so_far(trace, last);
    let pass = trace.passes[last];
    assert(pass.wf());
    match (pass.step, trace.events[last]) {
        (StartupStep::ReadPage, StartupEvent::Page(Ok(page))) => {
            assert(ids_from(pass.page@, pass.next as int) =~= Seq::empty());
            assert(ids_from(page@, 0) =~= Seq::empty());
            assert(reconciled(trace, last + 1) =~= reconciled(trace, last));
            assert(listed(trace, last + 1) =~= listed(trace, last));
            assert(listed(trace, last) =~= reconciled(trace, last));
        },
        _ => {},
    }
}

/// The runs whose process was found again, and stored as such, in the first
/// events.
pub open spec fn found_again(trace: StartupTrace, end: int) -> Set<Seq<char>>
    decreases end,
{
    if end <= 0 {
        Set::empty()
    } else {
        let rest = found_again(trace, end - 1);
        let pass = trace.passes[end - 1];
        match (pass.step, trace.events[end - 1]) {
            (StartupStep::Store(decision), StartupEvent::Stored(Ok(_))) => {
                if decision.recovered is Some {
                    rest.insert(pass.page@[pass.next as int].run.id@)
                } else {
                    rest
                }
            },
            _ => rest,
        }
    }
}

/// What is held after the first events of the reconciliation at the start is
/// what was held before, and every run whose process was found again; no other.
pub proof fn lemma_runs_found_again_are_held(trace: StartupTrace, end: int)
    requires
        trace.wf(),
        0 <= end <= trace.events.len(),
    ensures
        trace.controls[end].dom() == trace.controls[0].dom().union(found_again(trace, end)),
    decreases end,
{
    if end == 0 {
        assert(trace.controls[0].dom() =~= trace.controls[0].dom().union(Set::empty()));
    } else {
        lemma_runs_found_again_are_held(trace, end - 1);
        let pass = trace.passes[end - 1];
        assert(pass.wf());
        assert(trace.controls[end].dom() =~= trace.controls[0].dom().union(
            found_again(trace, end),
        ));
    }
}

/// How often the clean-up of failed launches is tried again by itself.
pub const CLEANUP_RETRY_ATTEMPTS: usize = 4;

/// Whether the clean-up is tried once more, after so many attempts and with so
/// many runs that still wait for it.
pub fn wants_cleanup_retry(attempts: usize, left: usize) -> (wants: bool)
    ensures
        wants == (attempts < CLEANUP_RETRY_ATTEMPTS && (attempts == 0 || left > 0)),
{
    attempts < CLEANUP_RETRY_ATTEMPTS && (attempts == 0 || left > 0)
}

/// What the monitor of an interactive run does next.
#[derive(Debug)]
pub enum MonitorStep {
    /// The run is no longer this monitor's.
    Leave,
    /// Look again later.
    Wait,
    /// Store that the run ended at a time.
    MarkExited(String),
}

/// One look of the monitor of an interactive run. It leaves the run as soon as
/// a stop takes it over; once the exit has been confirmed at a time, that time
/// stays and only storing it is tried again.
pub fn monitor_terminal_exit(
    controls: &Controls,
    run_id: &str,
    confirmed_at: Option<String>,
    exited: bool,
    exit_time: Option<String>,
) -> (step: MonitorStep)
    requires
        controls.wf(),
    ensures
        ({
            let held = controls@.dom().contains(run_id@) && controls@[run_id@] is Running
                && controls@[run_id@]->Running_0.terminal;
            match step {
                MonitorStep::Leave => !held,
                MonitorStep::Wait => held && confirmed_at is None && (!exited || exit_time is None),
                MonitorStep::MarkExited(ended_at) => held && (if confirmed_at is Some {
                    ended_at == confirmed_at->0
                } else {
                    exited && exit_time == Some(ended_at)
                }),
            }
        }),
{
    let held = match controls.get(run_id) {
        Some(RunControl::Running(process)) => process.terminal,
        _ => false,
    };
    if !held {
        return MonitorStep::Leave;
    }
    match (confirmed_at, exit_time) {
        (Some(ended_at), _) => MonitorStep::MarkExited(ended_at),
        (None, Some(ended_at)) if exited => MonitorStep::MarkExited(ended_at),
        _ => MonitorStep::Wait,
    }
}

/// What is held once the exit of a run was to be stored.
pub open spec fn exit_settled(
    before: Map<Seq<char>, RunControl>,
    run_id: Seq<char>,
    stored: bool,
    finished: bool,
    after: Map<Seq<char>, RunControl>,
) -> bool {
    &&& finished == stored
    &&& after == (if stored {
        before.remove(run_id)
    } else {
        before
    })
}

/// What is held after storing that an interactive run has exited was tried: the
/// run is let go once that is stored.
pub fn after_terminal_exit(controls: &mut Controls, run_id: &str, stored: bool) -> (finished: bool)
    requires
        old(controls).wf(),
    ensures
        final(controls).wf(),
        exit_settled(old(controls)@, run_id@, stored, finished, final(controls)@),
{
    if stored {
        let _ = controls.remove(run_id);
    }
    stored
}

} // verus!
