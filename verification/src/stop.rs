//! Stopping a managed run: who may stop it, which signal is sent when, how the
//! end is confirmed and stored, and what is taken over after a restart.

use vstd::prelude::*;

use crate::error::{optional_text, plain_error, AppError, ErrorCode, ErrorView};
use crate::run::{
    is_key, is_text, optional_key, platform_control_matches_summary, process_matches, Controls,
    ManagedProcess, ManagedRunRecord, Platform, RunControl, SignalDisposition, StopKind,
    StopOperation, StopOutcome, StopPhase, StopStatus, StoppingProcess,
};
use crate::text::{same_text, text_before, text_less};

verus! {

/// Between two tries to store something.
pub const CLEANUP_RETRY_DELAY_MS: u64 = 250;

/// Between two looks at a process that is expected to exit.
pub const STOP_POLL_INTERVAL_MS: u64 = 100;

/// Between two looks at a process that outlived its graceful stop.
pub const TIMED_OUT_STOP_POLL_INTERVAL_MS: u64 = 1_000;

/// How long a forced stop may take.
pub const FORCE_STOP_CONFIRMATION_TIMEOUT_MS: u64 = 5_000;

/// A request to stop a run.
#[derive(Debug)]
pub enum StopCommand {
    Graceful { run_id: String },
    Force { run_id: String, supersede_operation_id: Option<String> },
}

impl StopCommand {
    pub open spec fn target(self) -> Seq<char> {
        match self {
            StopCommand::Graceful { run_id } => run_id@,
            StopCommand::Force { run_id, .. } => run_id@,
        }
    }

    pub open spec fn kind_of(self) -> StopKind {
        match self {
            StopCommand::Graceful { .. } => StopKind::Graceful,
            StopCommand::Force { .. } => StopKind::Force,
        }
    }

    pub fn run_id(&self) -> (run_id: &str)
        ensures
            run_id@ == self.target(),
    {
        match self {
            StopCommand::Graceful { run_id } => run_id.as_str(),
            StopCommand::Force { run_id, .. } => run_id.as_str(),
        }
    }

    pub fn kind(&self) -> (kind: StopKind)
        ensures
            kind == self.kind_of(),
    {
        match self {
            StopCommand::Graceful { .. } => StopKind::Graceful,
            StopCommand::Force { .. } => StopKind::Force,
        }
    }
}

/// How long a stop of a kind may take for a run.
pub open spec fn confirmation_window(kind: StopKind, stop_timeout_ms: u32) -> u64 {
    match kind {
        StopKind::Graceful => stop_timeout_ms as u64,
        StopKind::Force => FORCE_STOP_CONFIRMATION_TIMEOUT_MS,
    }
}

fn window_for(kind: StopKind, stop_timeout_ms: u32) -> (window: u64)
    ensures
        window == confirmation_window(kind, stop_timeout_ms),
{
    match kind {
        StopKind::Graceful => stop_timeout_ms as u64,
        StopKind::Force => FORCE_STOP_CONFIRMATION_TIMEOUT_MS,
    }
}

/// The later of the two times that a stop operation carries.
pub open spec fn latest_time(operation: StopOperation) -> Seq<char> {
    if text_before(operation.run.updated_at@, operation.updated_at@) {
        operation.updated_at@
    } else {
        operation.run.updated_at@
    }
}

pub fn latest_stop_result_timestamp(operation: &StopOperation) -> (timestamp: &str)
    ensures
        timestamp@ == latest_time(*operation),
{
    if text_less(operation.run.updated_at.as_str(), operation.updated_at.as_str()) {
        operation.updated_at.as_str()
    } else {
        operation.run.updated_at.as_str()
    }
}

/// The time after which the next change of a run has to lie: the later one of
/// the run's own and of its active stop's.
pub fn previous_stop_timestamp<'a>(
    run_updated_at: &'a str,
    active: Option<&'a StopOperation>,
) -> (timestamp: &'a str)
    ensures
        timestamp@ == (match active {
            Some(operation) => if text_before(run_updated_at@, latest_time(*operation)) {
                latest_time(*operation)
            } else {
                run_updated_at@
            },
            None => run_updated_at@,
        }),
{
    match active {
        Some(operation) => {
            let latest = latest_stop_result_timestamp(operation);
            if text_less(run_updated_at, latest) {
                latest
            } else {
                run_updated_at
            }
        },
        None => run_updated_at,
    }
}

/// A forced stop names the operation it replaces, but that operation is just
/// storing something that cannot be taken back.
pub open spec fn supersession_is_unsafe(
    controls: Map<Seq<char>, RunControl>,
    operation_id: Seq<char>,
    command: StopCommand,
) -> bool {
    match command {
        StopCommand::Graceful { .. } => false,
        StopCommand::Force { run_id, supersede_operation_id } => {
            &&& controls.dom().contains(run_id@)
            &&& match controls[run_id@] {
                RunControl::Stopping(stop) => {
                    &&& stop.operation_id@ != operation_id
                    &&& optional_text(supersede_operation_id) == Some(stop.operation_id@)
                    &&& stop.phase is SignalAttempted || stop.phase is CompletionPending
                },
                _ => false,
            }
        },
    }
}

/// The answer to a forced stop that would cut into a stop that is storing its
/// result.
pub open spec fn irreversible_stop_error(active_operation_id: Seq<char>) -> ErrorView {
    plain_error(
        ErrorCode::Conflict,
        "managed stop operation is committing an irreversible result"@,
    ).retry().with("activeOperationId"@, active_operation_id).with(
        "reason"@,
        "retry after the active signal or completion evidence is durable"@,
    )
}

pub fn reject_unsafe_force_supersession(
    controls: &Controls,
    operation_id: &str,
    command: &StopCommand,
) -> (result: Result<(), AppError>)
    requires
        controls.wf(),
    ensures
        match result {
            Ok(_) => !supersession_is_unsafe(controls@, operation_id@, *command),
            Err(error) => supersession_is_unsafe(controls@, operation_id@, *command) && error@
                == irreversible_stop_error(
                controls@[command.target()]->Stopping_0.operation_id@,
            ),
        },
{
    match command {
        StopCommand::Graceful { .. } => Ok(()),
        StopCommand::Force { run_id, supersede_operation_id } => match controls.get(
            run_id.as_str(),
        ) {
            Some(RunControl::Stopping(stop)) => {
                let committing = match stop.phase {
                    StopPhase::SignalAttempted | StopPhase::CompletionPending(_) => true,
                    _ => false,
                };
                if same_text(stop.operation_id.as_str(), operation_id) || !is_text(
                    supersede_operation_id,
                    stop.operation_id.as_str(),
                ) || !committing {
                    return Ok(());
                }
                Err(
                    AppError::new(
                        ErrorCode::Conflict,
                        "managed stop operation is committing an irreversible result",
                    ).as_retryable().with_detail(
                        "activeOperationId",
                        stop.operation_id.as_str(),
                    ).with_detail(
                        "reason",
                        "retry after the active signal or completion evidence is durable",
                    ),
                )
            },
            _ => Ok(()),
        },
    }
}

/// The phase in which a stop operation of the store is taken up.
pub open spec fn phase_of_status(status: StopStatus) -> Option<StopPhase> {
    match status {
        StopStatus::Requested => Some(StopPhase::Requested),
        StopStatus::SignalPending => Some(StopPhase::SignalPending),
        StopStatus::InProgress => Some(StopPhase::Monitoring),
        StopStatus::TimedOut => Some(StopPhase::TimedOut),
        StopStatus::Completed => None,
        StopStatus::Superseded => None,
    }
}

pub fn control_phase_from_result(operation: &StopOperation) -> (result: Result<
    (StopPhase, Option<SignalDisposition>),
    AppError,
>)
    ensures
        match result {
            Ok((phase, disposition)) => phase_of_status(operation.status) == Some(phase)
                && disposition == operation.signal_disposition,
            Err(error) => phase_of_status(operation.status) is None && error@ == plain_error(
                ErrorCode::Conflict,
                "terminal managed stop operation cannot own a live control"@,
            ),
        },
{
    let phase = match operation.status {
        StopStatus::Requested => StopPhase::Requested,
        StopStatus::SignalPending => StopPhase::SignalPending,
        StopStatus::InProgress => StopPhase::Monitoring,
        StopStatus::TimedOut => StopPhase::TimedOut,
        StopStatus::Completed | StopStatus::Superseded => {
            return Err(
                AppError::new(
                    ErrorCode::Conflict,
                    "terminal managed stop operation cannot own a live control",
                ),
            );
        },
    };
    Ok((phase, operation.signal_disposition))
}

/// The process that a stop may take over: the one of a running run, or the one
/// of the stop that it replaces.
pub open spec fn stoppable_process(
    controls: Map<Seq<char>, RunControl>,
    run_id: Seq<char>,
    superseded: Option<Seq<char>>,
) -> Option<ManagedProcess> {
    if !controls.dom().contains(run_id) {
        None
    } else {
        match controls[run_id] {
            RunControl::Running(process) => if superseded is None {
                Some(process)
            } else {
                None
            },
            RunControl::Stopping(stop) => if superseded == Some(stop.operation_id@) {
                Some(stop.process)
            } else {
                None
            },
            _ => None,
        }
    }
}

/// Which process a stop takes, and what is then held.
pub open spec fn process_taken(
    before: Map<Seq<char>, RunControl>,
    run_id: Seq<char>,
    superseded: Option<Seq<char>>,
    process: Option<ManagedProcess>,
    after: Map<Seq<char>, RunControl>,
) -> bool {
    &&& process == stoppable_process(before, run_id, superseded)
    &&& after == (if process is Some {
        before.remove(run_id)
    } else {
        before
    })
}

pub fn take_process_for_stop(
    controls: &mut Controls,
    run_id: &str,
    superseded_operation_id: &Option<String>,
) -> (process: Option<ManagedProcess>)
    requires
        old(controls).wf(),
    ensures
        final(controls).wf(),
        process_taken(
            old(controls)@,
            run_id@,
            optional_text(*superseded_operation_id),
            process,
            final(controls)@,
        ),
{
    match controls.remove(run_id) {
        None => {
            assert(controls@ =~= old(controls)@);
            None
        },
        Some(RunControl::Running(process)) if superseded_operation_id.is_none() => Some(process),
        Some(RunControl::Stopping(stop)) if is_text(
            superseded_operation_id,
            stop.operation_id.as_str(),
        ) => Some(stop.process),
        Some(control) => {
            controls.insert(run_id, control);
            assert(controls@ =~= old(controls)@);
            None
        },
    }
}

/// What the store decided about a stop request.
#[derive(Debug)]
pub struct StopDecision {
    pub result: StopOperation,
    pub superseded_operation_id: Option<String>,
}

/// What to do once the store has taken a stop request.
#[derive(Clone, Copy, Debug, PartialEq, Eq, Structural)]
pub enum BegunStop {
    /// Answer with the stored operation.
    Reply,
    /// Answer with the stored operation, and let a worker drive it.
    ReplyAndSchedule,
    /// Read the run, and take its process over.
    TakeOver,
}

/// What the first step after the store has taken a stop request gives.
pub open spec fn stop_admitted(
    before: Map<Seq<char>, RunControl>,
    run_id: Seq<char>,
    operation_id: Seq<char>,
    status: StopStatus,
    step: BegunStop,
    after: Map<Seq<char>, RunControl>,
) -> bool {
    let ended = status is Completed || status is Superseded;
    let driven = before.dom().contains(run_id) && before[run_id] is Stopping
        && before[run_id]->Stopping_0.operation_id@ == operation_id;
    &&& ended ==> step == BegunStop::Reply && after == before
    &&& !ended && driven ==> {
        let stop = before[run_id]->Stopping_0;
        &&& step == (if stop.worker_running {
            BegunStop::Reply
        } else {
            BegunStop::ReplyAndSchedule
        })
        &&& after == before.insert(
            run_id,
            RunControl::Stopping((StoppingProcess { worker_running: true, ..stop })),
        )
    }
    &&& !ended && !driven ==> step == BegunStop::TakeOver && after == before
}

/// The first step after the store has taken a stop request: an operation that
/// has ended is answered; one that is being driven goes on with its worker.
pub fn after_begin(
    controls: &mut Controls,
    run_id: &str,
    operation_id: &str,
    status: StopStatus,
) -> (step: BegunStop)
    requires
        old(controls).wf(),
    ensures
        final(controls).wf(),
        stop_admitted(
            old(controls)@,
            run_id@,
            operation_id@,
            status,
            step,
            final(controls)@,
        ),
{
    match status {
        StopStatus::Completed | StopStatus::Superseded => return BegunStop::Reply,
        _ => {},
    }
    let driven = match controls.get(run_id) {
        Some(RunControl::Stopping(stop)) => same_text(stop.operation_id.as_str(), operation_id),
        _ => false,
    };
    if !driven {
        return BegunStop::TakeOver;
    }
    match controls.remove(run_id) {
        Some(RunControl::Stopping(stop)) => {
            let mut stop = stop;
            let scheduled = stop.worker_running;
            stop.worker_running = true;
            controls.insert(run_id, RunControl::Stopping(stop));
            assert(controls@ =~= old(controls)@.insert(run_id@, controls@[run_id@]));
            if scheduled {
                BegunStop::Reply
            } else {
                BegunStop::ReplyAndSchedule
            }
        },
        _ => BegunStop::TakeOver,
    }
}

/// What became of the process of a run that is to be stopped.
#[derive(Debug)]
pub enum TakenOver {
    /// No process could be taken over: the operation ends as orphaned.
    CompleteOrphaned,
    /// The process is being stopped, and a worker drives the operation.
    Stopping,
}

/// What taking the process of a run over for a stop operation gives.
pub open spec fn stop_begun(
    before: Map<Seq<char>, RunControl>,
    platform: Platform,
    operation_id: Seq<char>,
    command: StopCommand,
    decision: StopDecision,
    record: ManagedRunRecord,
    now_ms: u64,
    taken: TakenOver,
    after: Map<Seq<char>, RunControl>,
) -> bool {
    let run_id = command.target();
    match stoppable_process(before, run_id, optional_text(decision.superseded_operation_id)) {
        None => taken is CompleteOrphaned && after == before,
        Some(process) => {
            &&& taken is Stopping
            &&& after.dom() == before.dom()
            &&& forall|other: Seq<char>|
                other != run_id && before.dom().contains(other) ==> #[trigger] after[other]
                    == before[other]
            &&& match after[run_id] {
                RunControl::Stopping(stop) => {
                    &&& stop.process == process
                    &&& stop.operation_id@ == operation_id
                    &&& stop.kind == command.kind_of()
                    &&& stop.signal_disposition == decision.result.signal_disposition
                    &&& stop.confirmation_window == confirmation_window(
                        command.kind_of(),
                        record.profile_snapshot.stop_timeout_ms,
                    )
                    &&& stop.deadline == now_ms + stop.confirmation_window
                    &&& stop.worker_running
                    &&& stop.phase == (if process_matches(
                        platform,
                        process,
                        optional_key(decision.result.run.process_instance_key),
                        decision.result.run.process_group_id,
                    ) && optional_key(record.process_instance_key) == Some(
                        process.instance_key@,
                    ) {
                        phase_of_status(decision.result.status)->0
                    } else {
                        StopPhase::CompletionPending(StopOutcome::IdentityMismatch)
                    })
                },
                _ => false,
            }
        },
    }
}

/// Takes the process of a run over for a stop operation. A process that is not
/// the stored one gets no signal: its operation ends in an identity mismatch.
pub fn begin_supervisor_stop(
    controls: &mut Controls,
    platform: Platform,
    operation_id: &str,
    command: &StopCommand,
    decision: &StopDecision,
    record: &ManagedRunRecord,
    now_ms: u64,
) -> (result: Result<TakenOver, AppError>)
    requires
        old(controls).wf(),
        now_ms <= u64::MAX - u32::MAX,
        phase_of_status(decision.result.status) is Some,
    ensures
        final(controls).wf(),
        result is Ok,
        stop_begun(
            old(controls)@,
            platform,
            operation_id@,
            *command,
            *decision,
            *record,
            now_ms,
            result->Ok_0,
            final(controls)@,
        ),
{
    let run_id = command.run_id();
    let kind = command.kind();
    match take_process_for_stop(controls, run_id, &decision.superseded_operation_id) {
        None => Ok(TakenOver::CompleteOrphaned),
        Some(process) => {
            let (status_phase, signal_disposition) = match control_phase_from_result(
                &decision.result,
            ) {
                Ok(pair) => pair,
                Err(error) => return Err(error),
            };
            let matches = platform_control_matches_summary(
                platform,
                &process,
                &decision.result.run,
            ) && is_key(&record.process_instance_key, &process.instance_key);
            let phase = if matches {
                status_phase
            } else {
                StopPhase::CompletionPending(StopOutcome::IdentityMismatch)
            };
            let window: u64 = window_for(kind, record.profile_snapshot.stop_timeout_ms);
            controls.insert(
                run_id,
                RunControl::Stopping(
                    StoppingProcess {
                        process,
                        operation_id: operation_id.to_owned(),
                        kind,
                        phase,
                        signal_disposition,
                        confirmation_window: window,
                        deadline: now_ms + window,
                        worker_running: true,
                    },
                ),
            );
            proof {
                assert(controls@.dom() =~= old(controls)@.dom());
            }
            Ok(TakenOver::Stopping)
        },
    }
}

/// What a stop worker has done next.
#[derive(Clone, Copy, Debug, PartialEq, Eq, Structural)]
pub enum StopAction {
    /// The operation is no longer this worker's.
    Leave,
    /// Store that the signal is about to be sent.
    MarkSignalPending,
    /// Send the signal of a kind.
    SendSignal(StopKind),
    /// Store whether the signal reached the process.
    MarkSignalAttempted(SignalDisposition),
    /// No disposition was recorded: the operation cannot be confirmed.
    LoseSignal,
    /// See whether the process has exited.
    PollExit,
    /// Store what the operation ended in.
    Complete(StopOutcome),
}

/// What the worker of a stop in a phase has to do.
pub open spec fn action_of(phase: StopPhase, kind: StopKind, disposition: Option<SignalDisposition>) -> StopAction {
    match phase {
        StopPhase::Requested => StopAction::MarkSignalPending,
        StopPhase::SignalPending => StopAction::SendSignal(kind),
        StopPhase::SignalAttempted => match disposition {
            Some(disposition) => StopAction::MarkSignalAttempted(disposition),
            None => StopAction::LoseSignal,
        },
        StopPhase::Monitoring => StopAction::PollExit,
        StopPhase::TimedOut => StopAction::PollExit,
        StopPhase::CompletionPending(outcome) => StopAction::Complete(outcome),
    }
}

/// The stop of a run, where an operation drives it.
pub open spec fn driven_stop(
    controls: Map<Seq<char>, RunControl>,
    run_id: Seq<char>,
    operation_id: Seq<char>,
) -> Option<StoppingProcess> {
    if controls.dom().contains(run_id) {
        match controls[run_id] {
            RunControl::Stopping(stop) => if stop.operation_id@ == operation_id {
                Some(stop)
            } else {
                None
            },
            _ => None,
        }
    } else {
        None
    }
}

pub fn next_stop_action(controls: &Controls, run_id: &str, operation_id: &str) -> (action: StopAction)
    requires
        controls.wf(),
    ensures
        action == (match driven_stop(controls@, run_id@, operation_id@) {
            Some(stop) => action_of(stop.phase, stop.kind, stop.signal_disposition),
            None => StopAction::Leave,
        }),
{
    match controls.get(run_id) {
        Some(RunControl::Stopping(stop)) => {
            if !same_text(stop.operation_id.as_str(), operation_id) {
                return StopAction::Leave;
            }
            match stop.phase {
                StopPhase::Requested => StopAction::MarkSignalPending,
                StopPhase::SignalPending => StopAction::SendSignal(stop.kind),
                StopPhase::SignalAttempted => match stop.signal_disposition {
                    Some(disposition) => StopAction::MarkSignalAttempted(disposition),
                    None => StopAction::LoseSignal,
                },
                StopPhase::Monitoring | StopPhase::TimedOut => StopAction::PollExit,
                StopPhase::CompletionPending(outcome) => StopAction::Complete(outcome),
            }
        },
        _ => StopAction::Leave,
    }
}

/// How far a stop operation is in the store, read again after a refused write.
#[derive(Clone, Copy, Debug, PartialEq, Eq, Structural)]
pub struct StoredStop {
    pub status: StopStatus,
    pub signal_disposition: Option<SignalDisposition>,
    pub outcome: Option<StopOutcome>,
}

/// What came of a write to the store.
#[derive(Clone, Copy, Debug, PartialEq, Eq, Structural)]
pub enum StoreReply {
    /// No time could be given to the change, so nothing was written.
    NoTimestamp,
    Stored,
    /// The write failed; this is what the store shows, where it could be read.
    Failed(Option<StoredStop>),
}

/// What came of the action of a stop worker.
#[derive(Debug)]
pub enum StopEvent {
    Stored(StoreReply),
    Signal(Result<SignalDisposition, AppError>),
    Polled(Result<bool, AppError>),
    SignalLost,
}

/// What a stop worker does after an action.
#[derive(Clone, Copy, Debug, PartialEq, Eq, Structural)]
pub enum StopStep {
    /// Go on after a number of milliseconds.
    Continue(u64),
    /// Store that the graceful stop has run out of time.
    MarkTimedOut,
    Finished,
}

/// Whether a write took effect: it was stored, or it failed and the store
/// shows it nevertheless.
pub open spec fn took_effect(reply: StoreReply, shown: spec_fn(StoredStop) -> bool) -> bool {
    match reply {
        StoreReply::NoTimestamp => false,
        StoreReply::Stored => true,
        StoreReply::Failed(Some(stored)) => shown(stored),
        StoreReply::Failed(None) => false,
    }
}

/// What an identity that could not be confirmed makes of a stop: where only the
/// process group is gone, the process is orphaned.
pub open spec fn identity_outcome(error: ErrorView) -> StopOutcome {
    if error.details.dom().contains("stage"@) && (error.details["stage"@]
        == "RevalidateProcessGroup"@ || error.details["stage"@] == "getpgid"@
        || error.details["stage"@] == "PollManagedProcessGroup"@) {
        StopOutcome::Orphaned
    } else {
        StopOutcome::IdentityMismatch
    }
}

pub fn identity_validation_outcome(error: &AppError) -> (outcome: StopOutcome)
    ensures
        outcome == identity_outcome(error@),
{
    match error.details.get("stage") {
        Some(stage) => if same_text(stage, "RevalidateProcessGroup") || same_text(stage, "getpgid")
            || same_text(stage, "PollManagedProcessGroup") {
            StopOutcome::Orphaned
        } else {
            StopOutcome::IdentityMismatch
        },
        None => StopOutcome::IdentityMismatch,
    }
}

/// The phase after a signal was tried.
pub open spec fn after_signal(signal: Result<SignalDisposition, AppError>) -> StopPhase {
    match signal {
        Ok(_) => StopPhase::SignalAttempted,
        Err(error) => StopPhase::CompletionPending(
            if error@.code == ErrorCode::IdentityMismatch {
                identity_outcome(error@)
            } else {
                StopOutcome::Orphaned
            },
        ),
    }
}

/// The phase and the step after a look at a process whose signal was sent.
pub open spec fn after_monitoring(
    kind: StopKind,
    disposition: Option<SignalDisposition>,
    polled: Result<bool, AppError>,
    deadline_passed: bool,
) -> (StopPhase, StopStep) {
    match polled {
        Ok(true) => (StopPhase::CompletionPending(StopOutcome::Exited), StopStep::Continue(0)),
        Err(error) if error@.code == ErrorCode::IdentityMismatch => (
            StopPhase::CompletionPending(identity_outcome(error@)),
            StopStep::Continue(0),
        ),
        _ => if !deadline_passed {
            (StopPhase::Monitoring, StopStep::Continue(STOP_POLL_INTERVAL_MS))
        } else if kind == StopKind::Graceful {
            (StopPhase::Monitoring, StopStep::MarkTimedOut)
        } else if polled is Ok && disposition == Some(SignalDisposition::Unavailable) {
            (StopPhase::CompletionPending(StopOutcome::SignalUnavailable), StopStep::Continue(0))
        } else {
            (StopPhase::CompletionPending(StopOutcome::Orphaned), StopStep::Continue(0))
        },
    }
}

/// The phase and the step after a look at a process that outlived its graceful
/// stop.
pub open spec fn after_timed_out_poll(polled: Result<bool, AppError>) -> (StopPhase, StopStep) {
    match polled {
        Ok(true) => (StopPhase::CompletionPending(StopOutcome::Exited), StopStep::Continue(0)),
        Err(error) if error@.code == ErrorCode::IdentityMismatch => (
            StopPhase::CompletionPending(identity_outcome(error@)),
            StopStep::Continue(0),
        ),
        _ => (StopPhase::TimedOut, StopStep::Continue(TIMED_OUT_STOP_POLL_INTERVAL_MS)),
    }
}

/// The event is one that the action of the phase can bring.
pub open spec fn event_fits(stop: StoppingProcess, event: StopEvent) -> bool {
    match stop.phase {
        StopPhase::Requested => event is Stored,
        StopPhase::SignalPending => event is Signal,
        StopPhase::SignalAttempted => if stop.signal_disposition is Some {
            event is Stored
        } else {
            event is SignalLost
        },
        StopPhase::Monitoring => event is Polled || event is Stored,
        StopPhase::TimedOut => event is Polled,
        StopPhase::CompletionPending(_) => event is Stored,
    }
}

/// What an event makes of a stop, and what the worker does then.
pub open spec fn stop_after(stop: StoppingProcess, event: StopEvent, now_ms: u64) -> (
    StoppingProcess,
    StopStep,
) {
    let retry = StopStep::Continue(CLEANUP_RETRY_DELAY_MS);
    match (stop.phase, event) {
        (StopPhase::Requested, StopEvent::Stored(reply)) => if took_effect(
            reply,
            |stored: StoredStop| stored.status == StopStatus::SignalPending,
        ) {
            (
                StoppingProcess { phase: StopPhase::SignalPending, ..stop },
                StopStep::Continue(0),
            )
        } else {
            (stop, retry)
        },
        (StopPhase::SignalPending, StopEvent::Signal(signal)) => (
            StoppingProcess {
                phase: after_signal(signal),
                signal_disposition: if signal is Ok {
                    Some(signal->Ok_0)
                } else {
                    stop.signal_disposition
                },
                ..stop
            },
            StopStep::Continue(0),
        ),
        (StopPhase::SignalAttempted, StopEvent::SignalLost) => (
            StoppingProcess {
                phase: StopPhase::CompletionPending(StopOutcome::Orphaned),
                ..stop
            },
            StopStep::Continue(0),
        ),
        (StopPhase::SignalAttempted, StopEvent::Stored(reply)) => if took_effect(
            reply,
            |stored: StoredStop|
                stored.status == StopStatus::InProgress && stored.signal_disposition
                    == stop.signal_disposition,
        ) {
            (
                StoppingProcess {
                    phase: StopPhase::Monitoring,
                    deadline: (now_ms + stop.confirmation_window) as u64,
                    ..stop
                },
                StopStep::Continue(0),
            )
        } else {
            (stop, retry)
        },
        (StopPhase::Monitoring, StopEvent::Polled(polled)) => {
            let (phase, step) = after_monitoring(
                stop.kind,
                stop.signal_disposition,
                polled,
                now_ms >= stop.deadline,
            );
            (StoppingProcess { phase, ..stop }, step)
        },
        (StopPhase::Monitoring, StopEvent::Stored(reply)) => if took_effect(
            reply,
            |stored: StoredStop| stored.status == StopStatus::TimedOut,
        ) {
            (
                StoppingProcess { phase: StopPhase::TimedOut, ..stop },
                StopStep::Continue(TIMED_OUT_STOP_POLL_INTERVAL_MS),
            )
        } else {
            (stop, retry)
        },
        (StopPhase::TimedOut, StopEvent::Polled(polled)) => {
            let (phase, step) = after_timed_out_poll(polled);
            (StoppingProcess { phase, ..stop }, step)
        },
        (StopPhase::CompletionPending(outcome), StopEvent::Stored(reply)) => if took_effect(
            reply,
            |stored: StoredStop|
                stored.status == StopStatus::Completed && stored.outcome == Some(outcome),
        ) {
            (stop, StopStep::Finished)
        } else {
            (stop, retry)
        },
        _ => (stop, StopStep::Finished),
    }
}

/// What is held of a run once its stop has ended: nothing of a process that has
/// exited, and any other process in quarantine.
pub open spec fn finalized(
    controls: Map<Seq<char>, RunControl>,
    run_id: Seq<char>,
    operation_id: Seq<char>,
    outcome: StopOutcome,
) -> Map<Seq<char>, RunControl> {
    match driven_stop(controls, run_id, operation_id) {
        Some(stop) => if outcome == StopOutcome::Exited {
            controls.remove(run_id)
        } else {
            controls.insert(run_id, RunControl::Quarantined(stop.process))
        },
        None => controls,
    }
}

pub fn finalize_stop_control(
    controls: &mut Controls,
    run_id: &str,
    operation_id: &str,
    outcome: StopOutcome,
)
    requires
        old(controls).wf(),
    ensures
        final(controls).wf(),
        final(controls)@ == finalized(old(controls)@, run_id@, operation_id@, outcome),
{
    match controls.remove(run_id) {
        None => {
            assert(controls@ =~= old(controls)@);
        },
        Some(RunControl::Stopping(stop)) if same_text(stop.operation_id.as_str(), operation_id) => {
            if outcome != StopOutcome::Exited {
                controls.insert(run_id, RunControl::Quarantined(stop.process));
                assert(controls@ =~= finalized(old(controls)@, run_id@, operation_id@, outcome));
            }
        },
        Some(control) => {
            controls.insert(run_id, control);
            assert(controls@ =~= old(controls)@);
        },
    }
}

fn effective(reply: StoreReply, shown: bool) -> (effective: bool)
    ensures
        effective == (match reply {
            StoreReply::NoTimestamp => false,
            StoreReply::Stored => true,
            StoreReply::Failed(_) => shown,
        }),
{
    match reply {
        StoreReply::NoTimestamp => false,
        StoreReply::Stored => true,
        StoreReply::Failed(_) => shown,
    }
}

/// Takes one event of a stop worker into the stop that it drives.
fn advance_stop(stop: StoppingProcess, event: StopEvent, now_ms: u64) -> (next: (
    StoppingProcess,
    StopStep,
))
    requires
        event_fits(stop, event),
        now_ms + stop.confirmation_window <= u64::MAX,
    ensures
        next == stop_after(stop, event, now_ms),
{
    let mut next = stop;
    let retry = StopStep::Continue(CLEANUP_RETRY_DELAY_MS);
    match event {
        StopEvent::SignalLost => {
            next.phase = StopPhase::CompletionPending(StopOutcome::Orphaned);
            (next, StopStep::Continue(0))
        },
        StopEvent::Signal(Ok(disposition)) => {
            next.signal_disposition = Some(disposition);
            next.phase = StopPhase::SignalAttempted;
            (next, StopStep::Continue(0))
        },
        StopEvent::Signal(Err(error)) => {
            let outcome = if error.code == ErrorCode::IdentityMismatch {
                identity_validation_outcome(&error)
            } else {
                StopOutcome::Orphaned
            };
            next.phase = StopPhase::CompletionPending(outcome);
            (next, StopStep::Continue(0))
        },
        StopEvent::Stored(reply) => {
            let stored = match reply {
                StoreReply::Failed(stored) => stored,
                _ => None,
            };
            match next.phase {
                StopPhase::Requested => {
                    let shown = match stored {
                        Some(stored) => stored.status == StopStatus::SignalPending,
                        None => false,
                    };
                    if effective(reply, shown) {
                        next.phase = StopPhase::SignalPending;
                        (next, StopStep::Continue(0))
                    } else {
                        (next, retry)
                    }
                },
                StopPhase::SignalAttempted => {
                    let shown = match stored {
                        Some(stored) => stored.status == StopStatus::InProgress
                            && stored.signal_disposition == next.signal_disposition,
                        None => false,
                    };
                    if effective(reply, shown) {
                        next.deadline = now_ms + next.confirmation_window;
                        next.phase = StopPhase::Monitoring;
                        (next, StopStep::Continue(0))
                    } else {
                        (next, retry)
                    }
                },
                StopPhase::Monitoring => {
                    let shown = match stored {
                        Some(stored) => stored.status == StopStatus::TimedOut,
                        None => false,
                    };
                    if effective(reply, shown) {
                        next.phase = StopPhase::TimedOut;
                        (next, StopStep::Continue(TIMED_OUT_STOP_POLL_INTERVAL_MS))
                    } else {
                        (next, retry)
                    }
                },
                StopPhase::CompletionPending(outcome) => {
                    let shown = match stored {
                        Some(stored) => stored.status == StopStatus::Completed && stored.outcome
                            == Some(outcome),
                        None => false,
                    };
                    if effective(reply, shown) {
                        (next, StopStep::Finished)
                    } else {
                        (next, retry)
                    }
                },
                _ => (next, StopStep::Finished),
            }
        },
        StopEvent::Polled(polled) => {
            let timed_out = match next.phase {
                StopPhase::TimedOut => true,
                _ => false,
            };
            let exited = match &polled {
                Ok(exited) => *exited,
                Err(_) => false,
            };
            if exited {
                next.phase = StopPhase::CompletionPending(StopOutcome::Exited);
                return (next, StopStep::Continue(0));
            }
            if let Err(error) = &polled {
                if error.code == ErrorCode::IdentityMismatch {
                    next.phase = StopPhase::CompletionPending(identity_validation_outcome(error));
                    return (next, StopStep::Continue(0));
                }
            }
            if timed_out {
                return (next, StopStep::Continue(TIMED_OUT_STOP_POLL_INTERVAL_MS));
            }
            if now_ms < next.deadline {
                return (next, StopStep::Continue(STOP_POLL_INTERVAL_MS));
            }
            match next.kind {
                StopKind::Graceful => (next, StopStep::MarkTimedOut),
                StopKind::Force => {
                    let unavailable = match next.signal_disposition {
                        Some(SignalDisposition::Unavailable) => true,
                        _ => false,
                    };
                    next.phase = StopPhase::CompletionPending(
                        if polled.is_ok() && unavailable {
                            StopOutcome::SignalUnavailable
                        } else {
                            StopOutcome::Orphaned
                        },
                    );
                    (next, StopStep::Continue(0))
                },
            }
        },
    }
}

/// What one event of a stop worker gives.
pub open spec fn worker_advanced(
    before: Map<Seq<char>, RunControl>,
    run_id: Seq<char>,
    operation_id: Seq<char>,
    event: StopEvent,
    now_ms: u64,
    step: StopStep,
    after: Map<Seq<char>, RunControl>,
) -> bool {
    match driven_stop(before, run_id, operation_id) {
        None => step == StopStep::Finished && after == before,
        Some(stop) => {
            let (next, next_step) = stop_after(stop, event, now_ms);
            &&& step == next_step
            &&& after == (if next_step == StopStep::Finished {
                finalized(before, run_id, operation_id, stop.phase->CompletionPending_0)
            } else {
                before.insert(run_id, RunControl::Stopping(next))
            })
        },
    }
}

/// Takes one event of a stop worker in: the worker leaves a run whose stop is
/// not its own, and when its operation is stored as completed, what is held of
/// the run is settled.
pub fn advance_stop_worker(
    controls: &mut Controls,
    run_id: &str,
    operation_id: &str,
    event: StopEvent,
    now_ms: u64,
) -> (step: StopStep)
    requires
        old(controls).wf(),
        match driven_stop(old(controls)@, run_id@, operation_id@) {
            Some(stop) => event_fits(stop, event) && now_ms + stop.confirmation_window <= u64::MAX,
            None => true,
        },
    ensures
        final(controls).wf(),
        worker_advanced(
            old(controls)@,
            run_id@,
            operation_id@,
            event,
            now_ms,
            step,
            final(controls)@,
        ),
{
    match controls.remove(run_id) {
        None => {
            assert(controls@ =~= old(controls)@);
            StopStep::Finished
        },
        Some(RunControl::Stopping(stop)) if same_text(stop.operation_id.as_str(), operation_id) => {
            let pending = match stop.phase {
                StopPhase::CompletionPending(outcome) => Some(outcome),
                _ => None,
            };
            let (next, step) = advance_stop(stop, event, now_ms);
            controls.insert(run_id, RunControl::Stopping(next));
            proof {
                assert(controls@ =~= old(controls)@.insert(run_id@, RunControl::Stopping(next)));
            }
            match (step, pending) {
                (StopStep::Finished, Some(outcome)) => {
                    proof {
                        assert(next == stop);
                        assert(controls@ =~= old(controls)@);
                    }
                    finalize_stop_control(controls, run_id, operation_id, outcome);
                },
                _ => {},
            }
            step
        },
        Some(control) => {
            controls.insert(run_id, control);
            assert(controls@ =~= old(controls)@);
            StopStep::Finished
        },
    }
}

/// How far a phase lies on the way of a stop.
pub open spec fn phase_rank(phase: StopPhase) -> nat {
    match phase {
        StopPhase::Requested => 0,
        StopPhase::SignalPending => 1,
        StopPhase::SignalAttempted => 2,
        StopPhase::Monitoring => 3,
        StopPhase::TimedOut => 4,
        StopPhase::CompletionPending(_) => 5,
    }
}

/// A stop never goes back: every event keeps its phase or moves it forward, and
/// touches neither its process nor the operation that drives it.
pub proof fn lemma_stop_moves_forward(stop: StoppingProcess, event: StopEvent, now_ms: u64)
    requires
        event_fits(stop, event),
    ensures
        ({
            let next = stop_after(stop, event, now_ms).0;
            &&& phase_rank(stop.phase) <= phase_rank(next.phase)
            &&& next.process == stop.process
            &&& next.operation_id == stop.operation_id
            &&& next.kind == stop.kind
        }),
{
}

/// A signal is sent at most once: whatever came of it, the stop has then left
/// the only phase in which a signal is sent, and never comes back to it.
pub proof fn lemma_signal_is_sent_once(stop: StoppingProcess, event: StopEvent, now_ms: u64)
    requires
        event_fits(stop, event),
        phase_rank(stop.phase) >= 1,
    ensures
        ({
            let next = stop_after(stop, event, now_ms).0;
            !(action_of(next.phase, next.kind, next.signal_disposition) is SendSignal)
        }),
{
}

/// No signal is sent before the store has taken that it is about to be: a stop
/// comes to the phase in which it is sent only by a write that took effect.
pub proof fn lemma_signal_is_announced(stop: StoppingProcess, event: StopEvent, now_ms: u64)
    requires
        event_fits(stop, event),
        stop.phase != StopPhase::SignalPending,
        stop_after(stop, event, now_ms).0.phase == StopPhase::SignalPending,
    ensures
        stop.phase == StopPhase::Requested,
        event is Stored,
        took_effect(
            event->Stored_0,
            |stored: StoredStop| stored.status == StopStatus::SignalPending,
        ),
{
}

/// What a stop ends in is settled before it is stored: no later event changes
/// it.
pub proof fn lemma_outcome_is_settled(stop: StoppingProcess, event: StopEvent, now_ms: u64)
    requires
        event_fits(stop, event),
        stop.phase is CompletionPending,
    ensures
        stop_after(stop, event, now_ms).0 == stop,
{
}

/// A process that was not seen to exit stays with the supervisor when its stop
/// ends, and every other run stays as it was.
pub proof fn lemma_unconfirmed_process_is_kept(
    controls: Map<Seq<char>, RunControl>,
    run_id: Seq<char>,
    operation_id: Seq<char>,
    outcome: StopOutcome,
)
    requires
        driven_stop(controls, run_id, operation_id) is Some,
        outcome != StopOutcome::Exited,
    ensures
        ({
            let after = finalized(controls, run_id, operation_id, outcome);
            &&& after.dom() =~= controls.dom()
            &&& after[run_id] == RunControl::Quarantined(
                driven_stop(controls, run_id, operation_id)->0.process,
            )
            &&& after[run_id].key() == controls[run_id].key()
            &&& forall|other: Seq<char>|
                other != run_id && controls.dom().contains(other) ==> #[trigger] after[other]
                    == controls[other]
        }),
{
}

} // verus!
