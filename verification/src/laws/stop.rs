//! What stopping a run is for: a process is let go only when its end was seen,
//! a signal is sent once and only to the process that was meant, and a stop that
//! cannot be confirmed keeps its process.

use vstd::prelude::*;

use crate::error::{optional_text, AppError, ErrorCode};
use crate::run::{
    Controls, ManagedProcess, ManagedRunRecord, Platform, RunControl, SignalDisposition, StopKind,
    StopOperation, StopOutcome, StopPhase, StopStatus, StoppingProcess,
};
use crate::stop::{
    action_of, confirmation_window, control_phase_from_result, event_fits, finalized,
    identity_validation_outcome, latest_stop_result_timestamp, previous_stop_timestamp,
    process_taken, reject_unsafe_force_supersession, stop_admitted, stop_after, stop_begun,
    supersession_is_unsafe, worker_advanced, BegunStop, StopAction, StopCommand, StopDecision,
    StopEvent, StopStep, StoreReply, StoredStop, TakenOver,
};
use crate::text::{lemma_text_order_is_total, lemma_text_order_is_transitive, text_before};

verus! {

/// A stop comes to be recorded as exited exactly when a look at the process has
/// shown that it is gone.
pub proof fn lemma_exit_is_recorded_when_it_is_seen(
    stop: StoppingProcess,
    event: StopEvent,
    now_ms: u64,
)
    requires
        event_fits(stop, event),
        stop.phase != StopPhase::CompletionPending(StopOutcome::Exited),
    ensures
        stop_after(stop, event, now_ms).0.phase == StopPhase::CompletionPending(
            StopOutcome::Exited,
        ) <==> event == StopEvent::Polled(Ok(true)),
{
}

/// While there is time, a process that is still there is looked at again, ten
/// times a second, whatever the kind of the stop, and nothing of the stop changes.
/// So it is where the look failed for a reason that does not concern its identity.
pub proof fn lemma_live_process_is_watched_while_there_is_time(
    stop: StoppingProcess,
    polled: Result<bool, AppError>,
    now_ms: u64,
)
    requires
        stop.phase == StopPhase::Monitoring,
        polled matches Ok(exited) ==> !exited,
        polled matches Err(error) ==> error@.code != ErrorCode::IdentityMismatch,
        now_ms < stop.deadline,
    ensures
        stop_after(stop, StopEvent::Polled(polled), now_ms) == (stop, StopStep::Continue(100)),
{
}

/// When the time is up, a graceful stop is stored as timed out and goes on, and a
/// forced one ends: as one whose signal never reached the process exactly where
/// that was recorded and the process was seen alive, and as orphaned otherwise.
pub proof fn lemma_time_ends_a_forced_stop_only(
    stop: StoppingProcess,
    polled: Result<bool, AppError>,
    now_ms: u64,
)
    requires
        stop.phase == StopPhase::Monitoring,
        polled matches Ok(exited) ==> !exited,
        polled matches Err(error) ==> error@.code != ErrorCode::IdentityMismatch,
        now_ms >= stop.deadline,
    ensures
        ({
            let (next, step) = stop_after(stop, StopEvent::Polled(polled), now_ms);
            &&& stop.kind == StopKind::Graceful ==> next == stop && step == StopStep::MarkTimedOut
            &&& stop.kind == StopKind::Force ==> {
                &&& step == StopStep::Continue(0)
                &&& next.phase == StopPhase::CompletionPending(StopOutcome::SignalUnavailable)
                    <==> polled is Ok && stop.signal_disposition == Some(
                    SignalDisposition::Unavailable,
                )
                &&& next.phase == StopPhase::CompletionPending(StopOutcome::Orphaned) <==> !(polled
                    is Ok && stop.signal_disposition == Some(SignalDisposition::Unavailable))
            }
        }),
{
}

/// A graceful stop that ran out of time never ends by time: once a second the
/// process is looked at, until it is gone or is found to be another one.
pub proof fn lemma_timed_out_stop_waits_on(
    stop: StoppingProcess,
    polled: Result<bool, AppError>,
    now_ms: u64,
)
    requires
        stop.phase == StopPhase::TimedOut,
    ensures
        ({
            let (next, step) = stop_after(stop, StopEvent::Polled(polled), now_ms);
            match polled {
                Ok(true) => next.phase == StopPhase::CompletionPending(StopOutcome::Exited)
                    && step == StopStep::Continue(0),
                Ok(false) => next == stop && step == StopStep::Continue(1_000),
                Err(error) => if error@.code == ErrorCode::IdentityMismatch {
                    next.phase is CompletionPending && step == StopStep::Continue(0)
                } else {
                    next == stop && step == StopStep::Continue(1_000)
                },
            }
        }),
{
}

/// A look that finds another process ends the stop at once, before and behind the
/// deadline, and whatever the kind: as orphaned where only the group could not be
/// confirmed, and otherwise as a mismatch of the identity. Neither is an exit.
pub proof fn lemma_another_process_ends_the_stop(
    stop: StoppingProcess,
    error: AppError,
    now_ms: u64,
)
    requires
        stop.phase == StopPhase::Monitoring || stop.phase == StopPhase::TimedOut,
        error@.code == ErrorCode::IdentityMismatch,
    ensures
        ({
            let (next, step) = stop_after(stop, StopEvent::Polled(Err(error)), now_ms);
            let named = error@.details.dom().contains("stage"@);
            let stage = error@.details["stage"@];
            let group = named && (stage == "RevalidateProcessGroup"@ || stage == "getpgid"@ || stage
                == "PollManagedProcessGroup"@);
            &&& step == StopStep::Continue(0)
            &&& group ==> next.phase == StopPhase::CompletionPending(StopOutcome::Orphaned)
            &&& !group ==> next.phase == StopPhase::CompletionPending(
                StopOutcome::IdentityMismatch,
            )
            &&& next == (StoppingProcess { phase: next.phase, ..stop })
        }),
{
}

/// What came of a signal is recorded as it came, and the stop goes on to store
/// it; a signal that could not be sent ends the stop, and never as an exit.
pub proof fn lemma_signal_is_recorded_as_it_came(
    stop: StoppingProcess,
    signal: Result<SignalDisposition, AppError>,
    now_ms: u64,
)
    requires
        stop.phase == StopPhase::SignalPending,
    ensures
        ({
            let (next, step) = stop_after(stop, StopEvent::Signal(signal), now_ms);
            &&& step == StopStep::Continue(0)
            &&& signal matches Ok(disposition) ==> next == (StoppingProcess {
                phase: StopPhase::SignalAttempted,
                signal_disposition: Some(disposition),
                ..stop
            }) && action_of(next.phase, next.kind, next.signal_disposition)
                == StopAction::MarkSignalAttempted(disposition)
            &&& signal matches Err(error) ==> {
                &&& next == (StoppingProcess { phase: next.phase, ..stop })
                &&& next.phase is CompletionPending
                &&& next.phase != StopPhase::CompletionPending(StopOutcome::Exited)
                &&& error@.code != ErrorCode::IdentityMismatch ==> next.phase
                    == StopPhase::CompletionPending(StopOutcome::Orphaned)
                &&& error@.code == ErrorCode::IdentityMismatch && !error@.details.dom().contains(
                    "stage"@,
                ) ==> next.phase == StopPhase::CompletionPending(StopOutcome::IdentityMismatch)
            }
        }),
{
}

/// Whether the store shows what the worker of a stop wanted to write.
pub open spec fn store_shows(stop: StoppingProcess, stored: StoredStop) -> bool {
    match stop.phase {
        StopPhase::Requested => stored.status == StopStatus::SignalPending,
        StopPhase::SignalAttempted => stored.status == StopStatus::InProgress
            && stored.signal_disposition == stop.signal_disposition,
        StopPhase::Monitoring => stored.status == StopStatus::TimedOut,
        StopPhase::CompletionPending(outcome) => stored.status == StopStatus::Completed
            && stored.outcome == Some(outcome),
        _ => false,
    }
}

/// A write that failed counts as made exactly where the store shows it; and one
/// that was not made, or cannot be seen, changes nothing and is tried again.
pub proof fn lemma_write_counts_where_it_shows(
    stop: StoppingProcess,
    stored: StoredStop,
    now_ms: u64,
)
    requires
        event_fits(stop, StopEvent::Stored(StoreReply::Stored)),
    ensures
        ({
            let made = stop_after(stop, StopEvent::Stored(StoreReply::Stored), now_ms);
            let failed = stop_after(
                stop,
                StopEvent::Stored(StoreReply::Failed(Some(stored))),
                now_ms,
            );
            let again = (stop, StopStep::Continue(250));
            &&& store_shows(stop, stored) ==> failed == made
            &&& !store_shows(stop, stored) ==> failed == again
            &&& stop_after(stop, StopEvent::Stored(StoreReply::Failed(None)), now_ms) == again
            &&& stop_after(stop, StopEvent::Stored(StoreReply::NoTimestamp), now_ms) == again
            &&& made != again
        }),
{
}

/// What a write that was made leads to: the next phase, with the whole time for
/// the confirmation from the moment at which the signal was stored.
pub proof fn lemma_write_leads_on(stop: StoppingProcess, now_ms: u64)
    requires
        event_fits(stop, StopEvent::Stored(StoreReply::Stored)),
        now_ms + stop.confirmation_window <= u64::MAX,
    ensures
        ({
            let (next, step) = stop_after(stop, StopEvent::Stored(StoreReply::Stored), now_ms);
            &&& stop.phase == StopPhase::Requested ==> next == (StoppingProcess {
                phase: StopPhase::SignalPending,
                ..stop
            }) && step == StopStep::Continue(0)
            &&& stop.phase == StopPhase::SignalAttempted ==> {
                &&& next.phase == StopPhase::Monitoring
                &&& next.deadline == now_ms + stop.confirmation_window
                &&& next == (StoppingProcess {
                    phase: next.phase,
                    deadline: next.deadline,
                    ..stop
                })
                &&& step == StopStep::Continue(0)
            }
            &&& stop.phase == StopPhase::Monitoring ==> next == (StoppingProcess {
                phase: StopPhase::TimedOut,
                ..stop
            }) && step == StopStep::Continue(1_000)
            &&& stop.phase is CompletionPending ==> next == stop && step == StopStep::Finished
        }),
{
}

/// A stop is finished only by storing what it ended in, and what is asked of its
/// worker is what its phase needs: a signal of its own kind, a look, or the
/// storing of its outcome.
pub proof fn lemma_stop_finishes_by_storing_its_end(
    stop: StoppingProcess,
    event: StopEvent,
    now_ms: u64,
)
    requires
        event_fits(stop, event),
    ensures
        stop_after(stop, event, now_ms).1 == StopStep::Finished ==> stop.phase is CompletionPending
            && event is Stored,
        stop_after(stop, event, now_ms).1 == StopStep::MarkTimedOut ==> stop.phase
            == StopPhase::Monitoring && stop.kind == StopKind::Graceful && now_ms >= stop.deadline,
{
    lemma_actions_serve_the_phase(stop);
}

/// What the worker of a stop does: it sends a signal exactly when the sending was
/// announced and not done, of the kind that was asked for; it looks at the process
/// exactly when the signal is known to be out; and it stores an end exactly when
/// the end is known.
pub proof fn lemma_actions_serve_the_phase(stop: StoppingProcess)
    ensures
        ({
            let action = action_of(stop.phase, stop.kind, stop.signal_disposition);
            &&& stop.phase == StopPhase::SignalPending <==> action is SendSignal
            &&& action is SendSignal ==> action == StopAction::SendSignal(stop.kind)
            &&& action is PollExit <==> stop.phase == StopPhase::Monitoring || stop.phase
                == StopPhase::TimedOut
            &&& action is Complete <==> stop.phase is CompletionPending
            &&& action matches StopAction::Complete(outcome) ==> stop.phase
                == StopPhase::CompletionPending(outcome)
            &&& stop.phase == StopPhase::Requested <==> action is MarkSignalPending
            &&& action is LoseSignal <==> stop.phase == StopPhase::SignalAttempted
                && stop.signal_disposition is None
            &&& action matches StopAction::MarkSignalAttempted(disposition) ==> stop.phase
                == StopPhase::SignalAttempted && stop.signal_disposition == Some(disposition)
            &&& !(action is Leave)
        }),
{
}

/// A signal of which nothing was recorded is never taken for a delivered one:
/// the stop ends as orphaned.
pub proof fn lemma_lost_signal_orphans(stop: StoppingProcess, now_ms: u64)
    requires
        stop.phase == StopPhase::SignalAttempted,
        stop.signal_disposition is None,
    ensures
        stop_after(stop, StopEvent::SignalLost, now_ms) == (
            StoppingProcess {
                phase: StopPhase::CompletionPending(StopOutcome::Orphaned),
                ..stop
            },
            StopStep::Continue(0),
        ),
{
}

/// A stop on which everything goes well, from the request to its end: the sending
/// of the signal is stored, the signal is sent and that is stored, the end of the
/// process is seen and stored; then the run is let go and its worker has finished.
pub proof fn lemma_stop_that_goes_well_lets_the_run_go(
    controls: Map<Seq<char>, RunControl>,
    run_id: Seq<char>,
    stop: StoppingProcess,
    disposition: SignalDisposition,
    times: (u64, u64, u64, u64, u64),
)
    requires
        controls.dom().contains(run_id),
        controls[run_id] == RunControl::Stopping(stop),
        stop.phase == StopPhase::Requested,
    ensures
        ({
            let stored = StopEvent::Stored(StoreReply::Stored);
            let a = stop_after(stop, stored, times.0).0;
            let b = stop_after(a, StopEvent::Signal(Ok(disposition)), times.1).0;
            let c = stop_after(b, stored, times.2).0;
            let d = stop_after(c, StopEvent::Polled(Ok(true)), times.3).0;
            let e = stop_after(d, stored, times.4);
            &&& action_of(a.phase, a.kind, a.signal_disposition) == StopAction::SendSignal(
                stop.kind,
            )
            &&& d.phase == StopPhase::CompletionPending(StopOutcome::Exited)
            &&& e.1 == StopStep::Finished
            &&& finalized(controls, run_id, stop.operation_id@, StopOutcome::Exited)
                == controls.remove(run_id)
        }),
{
}

/// A stop as it went on: where it stood, and what came of each action.
pub struct StopTrace {
    pub stops: Seq<StoppingProcess>,
    pub events: Seq<StopEvent>,
    pub times: Seq<u64>,
}

impl StopTrace {
    pub open spec fn wf(self) -> bool {
        &&& self.stops.len() == self.events.len() + 1
        &&& self.times.len() == self.events.len()
        &&& forall|i: int|
            0 <= i < self.events.len() ==> event_fits(#[trigger] self.stops[i], self.events[i])
                && self.stops[i + 1] == stop_after(
                self.stops[i],
                self.events[i],
                self.times[i],
            ).0
    }
}

/// However a stop went on, it is recorded as exited only where at some look the
/// process was gone; and all the while it is the same process, of the same
/// operation and of the same kind.
pub proof fn lemma_exit_was_seen_on_the_way(trace: StopTrace, at: int) -> (seen: int)
    requires
        trace.wf(),
        0 <= at < trace.stops.len(),
    ensures
        trace.stops[at].process == trace.stops[0].process,
        trace.stops[at].operation_id == trace.stops[0].operation_id,
        trace.stops[at].kind == trace.stops[0].kind,
        trace.stops[at].phase == StopPhase::CompletionPending(StopOutcome::Exited)
            && trace.stops[0].phase != StopPhase::CompletionPending(StopOutcome::Exited) ==> 0
            <= seen < at && trace.events[seen] == StopEvent::Polled(Ok(true)),
    decreases at,
{
    if at == 0 {
        0
    } else {
        let before = trace.stops[at - 1];
        assert(event_fits(before, trace.events[at - 1]));
        let earlier = lemma_exit_was_seen_on_the_way(trace, at - 1);
        if before.phase != StopPhase::CompletionPending(StopOutcome::Exited) {
            lemma_exit_is_recorded_when_it_is_seen(
                before,
                trace.events[at - 1],
                trace.times[at - 1],
            );
            at - 1
        } else {
            earlier
        }
    }
}

/// However a stop went on, a signal was sent at most once.
pub proof fn lemma_one_signal_on_the_way(trace: StopTrace, first: int, second: int)
    requires
        trace.wf(),
        0 <= first < second < trace.events.len(),
        trace.events[first] is Signal,
    ensures
        !(trace.events[second] is Signal),
    decreases second - first,
{
    assert(event_fits(trace.stops[first], trace.events[first]));
    lemma_past_the_signal(trace, first + 1, second);
    assert(event_fits(trace.stops[second], trace.events[second]));
}

proof fn lemma_past_the_signal(trace: StopTrace, from: int, to: int)
    requires
        trace.wf(),
        0 < from <= to < trace.stops.len(),
        trace.stops[from].phase != StopPhase::Requested,
        trace.stops[from].phase != StopPhase::SignalPending,
    ensures
        trace.stops[to].phase != StopPhase::Requested,
        trace.stops[to].phase != StopPhase::SignalPending,
    decreases to - from,
{
    if from < to {
        lemma_past_the_signal(trace, from, to - 1);
        assert(event_fits(trace.stops[to - 1], trace.events[to - 1]));
    }
}

/// What a worker does to what is held: it touches its own run only; it lets the
/// run go exactly when the exit was stored, and keeps the same process in every
/// other case, in quarantine where the stop has ended; and a worker whose stop is
/// no longer held touches nothing.
pub proof fn lemma_worker_lets_go_of_exited_processes_only(
    before: Map<Seq<char>, RunControl>,
    run_id: Seq<char>,
    operation_id: Seq<char>,
    event: StopEvent,
    now_ms: u64,
    step: StopStep,
    after: Map<Seq<char>, RunControl>,
    other: Seq<char>,
)
    requires
        worker_advanced(before, run_id, operation_id, event, now_ms, step, after),
        before.dom().contains(run_id) ==> (before[run_id] matches RunControl::Stopping(stop)
            ==> event_fits(stop, event)),
    ensures
        other != run_id ==> after.dom().contains(other) == before.dom().contains(other)
            && after[other] == before[other],
        before.dom().contains(run_id) && before[run_id] is Stopping
            && before[run_id]->Stopping_0.operation_id@ == operation_id ==> {
            let stop = before[run_id]->Stopping_0;
            &&& !after.dom().contains(run_id) <==> step == StopStep::Finished && stop.phase
                == StopPhase::CompletionPending(StopOutcome::Exited)
            &&& after.dom().contains(run_id) ==> match after[run_id] {
                RunControl::Stopping(next) => step != StopStep::Finished && next.process
                    == stop.process && next.operation_id == stop.operation_id && next
                    == stop_after(stop, event, now_ms).0,
                RunControl::Quarantined(process) => step == StopStep::Finished && process
                    == stop.process,
                _ => false,
            }
        },
        !(before.dom().contains(run_id) && before[run_id] is Stopping
            && before[run_id]->Stopping_0.operation_id@ == operation_id) ==> after == before && step
            == StopStep::Finished,
{
}

/// What is taken over for a stop: the process of a run that runs, where nothing is
/// replaced, or that of the stop that is replaced, and no other. A process that is
/// not the one that is stored gets no signal. The whole time is given from now on:
/// that of the profile for a graceful stop, and five seconds for a forced one.
pub proof fn lemma_right_process_is_stopped(
    before: Map<Seq<char>, RunControl>,
    platform: Platform,
    operation_id: Seq<char>,
    command: StopCommand,
    decision: StopDecision,
    record: ManagedRunRecord,
    now_ms: u64,
    taken: TakenOver,
    after: Map<Seq<char>, RunControl>,
    run_id: Seq<char>,
)
    requires
        stop_begun(
            before,
            platform,
            operation_id,
            command,
            decision,
            record,
            now_ms,
            taken,
            after,
        ),
        now_ms <= u64::MAX - u32::MAX,
        run_id == (match command {
            StopCommand::Graceful { run_id } => run_id@,
            StopCommand::Force { run_id, .. } => run_id@,
        }),
    ensures
        ({
            let held = before.dom().contains(run_id);
            let free = held && before[run_id] is Running && decision.superseded_operation_id
                is None;
            let replaced = held && before[run_id] is Stopping && optional_text(
                decision.superseded_operation_id,
            ) == Some(before[run_id]->Stopping_0.operation_id@);
            let process = if free {
                before[run_id]->Running_0
            } else {
                before[run_id]->Stopping_0.process
            };
            let shown = decision.result.run;
            let known = shown.process_instance_key is Some && record.process_instance_key is Some
                && shown.process_instance_key->0@ == process.instance_key@
                && record.process_instance_key->0@ == process.instance_key@ && match platform {
                Platform::Windows => shown.process_group_id is None,
                Platform::MacOs => shown.process_group_id == Some(process.process_group_id),
            };
            &&& taken is Stopping <==> free || replaced
            &&& !(free || replaced) ==> after == before
            &&& (free || replaced) ==> after.dom() == before.dom() && {
                &&& after[run_id] matches RunControl::Stopping(stop) && {
                    &&& stop.process == process
                    &&& stop.operation_id@ == operation_id
                    &&& stop.kind == StopKind::Force <==> command is Force
                    &&& command is Graceful ==> stop.deadline == now_ms
                        + record.profile_snapshot.stop_timeout_ms && stop.confirmation_window
                        == record.profile_snapshot.stop_timeout_ms
                    &&& command is Force ==> stop.deadline == now_ms + 5_000
                        && stop.confirmation_window == 5_000
                    &&& stop.worker_running
                    &&& stop.signal_disposition == decision.result.signal_disposition
                    &&& !known ==> stop.phase == StopPhase::CompletionPending(
                        StopOutcome::IdentityMismatch,
                    )
                    &&& known ==> match decision.result.status {
                        StopStatus::Requested => stop.phase == StopPhase::Requested,
                        StopStatus::SignalPending => stop.phase == StopPhase::SignalPending,
                        StopStatus::InProgress => stop.phase == StopPhase::Monitoring,
                        StopStatus::TimedOut => stop.phase == StopPhase::TimedOut,
                        _ => true,
                    }
                }
            }
            &&& forall|other: Seq<char>|
                other != run_id && before.dom().contains(other) ==> #[trigger] after[other]
                    == before[other]
        }),
{
}

/// An operation that has ended is answered and nothing more; one that is held is
/// driven by exactly one worker from then on; and only where neither holds is a
/// process taken over.
pub proof fn lemma_one_worker_drives_a_stop(
    before: Map<Seq<char>, RunControl>,
    run_id: Seq<char>,
    operation_id: Seq<char>,
    status: StopStatus,
    step: BegunStop,
    after: Map<Seq<char>, RunControl>,
)
    requires
        stop_admitted(before, run_id, operation_id, status, step, after),
    ensures
        ({
            let ended = status == StopStatus::Completed || status == StopStatus::Superseded;
            let own = before.dom().contains(run_id) && before[run_id] is Stopping
                && before[run_id]->Stopping_0.operation_id@ == operation_id;
            &&& step == BegunStop::TakeOver <==> !ended && !own
            &&& step == BegunStop::ReplyAndSchedule <==> !ended && own
                && !before[run_id]->Stopping_0.worker_running
            &&& !ended && own ==> {
                let stop = before[run_id]->Stopping_0;
                after[run_id] == RunControl::Stopping(
                    StoppingProcess { worker_running: true, ..stop },
                )
            }
            &&& after.dom() =~= before.dom()
            &&& ended || !own ==> after == before
            &&& forall|other: Seq<char>|
                other != run_id && before.dom().contains(other) ==> #[trigger] after[other]
                    == before[other]
        }),
{
}

/// A forced stop is refused for now exactly while the stop that it would replace
/// stores something that cannot be taken back: that its signal was tried, or its
/// end. A graceful stop never is, nor one that repeats itself or names another.
pub proof fn lemma_force_waits_for_what_cannot_be_taken_back(
    controls: Map<Seq<char>, RunControl>,
    operation_id: Seq<char>,
    command: StopCommand,
    run_id: String,
    stop: StoppingProcess,
)
    requires
        controls.dom().contains(run_id@),
        controls[run_id@] == RunControl::Stopping(stop),
    ensures
        command == (StopCommand::Graceful { run_id }) ==> !supersession_is_unsafe(
            controls,
            operation_id,
            command,
        ),
        forall|superseded: Option<String>|
            command == (StopCommand::Force { run_id, supersede_operation_id: superseded })
                ==> #[trigger] supersession_is_unsafe(
                controls,
                operation_id,
                StopCommand::Force { run_id, supersede_operation_id: superseded },
            ) == (superseded is Some && superseded->0@ == stop.operation_id@
                && stop.operation_id@ != operation_id && (stop.phase == StopPhase::SignalAttempted
                || stop.phase is CompletionPending)),
{
}

/// The later of two times is never before either of them, and is one of them; so
/// is the time after which a change of a stop has to lie.
pub proof fn lemma_change_lies_behind_both_times(
    operation: StopOperation,
    latest: &str,
    run_updated_at: &str,
    previous: &str,
)
    requires
        call_ensures(latest_stop_result_timestamp, (&operation,), latest),
        call_ensures(previous_stop_timestamp, (run_updated_at, Some(&operation)), previous),
    ensures
        !text_before(latest@, operation.updated_at@),
        !text_before(latest@, operation.run.updated_at@),
        latest@ == operation.updated_at@ || latest@ == operation.run.updated_at@,
        !text_before(previous@, run_updated_at@),
        !text_before(previous@, operation.updated_at@),
        !text_before(previous@, operation.run.updated_at@),
        previous@ == run_updated_at@ || previous@ == operation.updated_at@ || previous@
            == operation.run.updated_at@,
{
    let a = operation.updated_at@;
    let b = operation.run.updated_at@;
    let c = run_updated_at@;
    lemma_text_order_is_total(a, b);
    lemma_text_order_is_total(a, c);
    lemma_text_order_is_total(b, c);
    lemma_text_order_is_total(a, a);
    lemma_text_order_is_total(b, b);
    lemma_text_order_is_total(c, c);
    if text_before(c, a) && text_before(a, b) {
        lemma_text_order_is_transitive(c, a, b);
    }
    if text_before(c, b) && text_before(b, a) {
        lemma_text_order_is_transitive(c, b, a);
    }
}

/// A stored operation is taken up where it stands, with what is known of its
/// signal; one that has ended is not taken up.
pub proof fn lemma_operation_is_taken_up_where_it_stands(
    operation: StopOperation,
    result: Result<(StopPhase, Option<SignalDisposition>), AppError>,
)
    requires
        call_ensures(control_phase_from_result, (&operation,), result),
    ensures
        result is Err <==> operation.status == StopStatus::Completed || operation.status
            == StopStatus::Superseded,
        result matches Ok((phase, disposition)) ==> {
            &&& disposition == operation.signal_disposition
            &&& phase == StopPhase::Requested <==> operation.status == StopStatus::Requested
            &&& phase == StopPhase::SignalPending <==> operation.status
                == StopStatus::SignalPending
            &&& phase == StopPhase::Monitoring <==> operation.status == StopStatus::InProgress
            &&& phase == StopPhase::TimedOut <==> operation.status == StopStatus::TimedOut
        },
{
}

/// A stop takes the process of its run exactly where the run runs and no stop is superseded,
/// or where it is stopped by the very operation that is superseded; the run is then held
/// by nobody else. What was not taken stays held.
pub proof fn lemma_process_is_taken_from_its_run(
    before: Map<Seq<char>, RunControl>,
    run_id: Seq<char>,
    superseded: Option<Seq<char>>,
    process: Option<ManagedProcess>,
    after: Map<Seq<char>, RunControl>,
    other: Seq<char>,
)
    requires
        process_taken(before, run_id, superseded, process, after),
    ensures
        process is Some <==> before.dom().contains(run_id) && ((before[run_id] is Running
            && superseded is None) || (before[run_id] is Stopping && superseded == Some(
            before[run_id]->Stopping_0.operation_id@,
        ))),
        process matches Some(taken) ==> !after.dom().contains(run_id) && before[run_id].key()
            == Some(taken.instance_key@),
        process is None ==> after == before,
        other != run_id ==> (after.dom().contains(other) <==> before.dom().contains(other)),
        other != run_id && before.dom().contains(other) ==> after[other] == before[other],
{
}

/// A process whose group can no longer be looked at is orphaned; any other doubt about who it
/// is means that it is another process.
pub proof fn lemma_lost_group_orphans(error: AppError, outcome: StopOutcome)
    requires
        call_ensures(identity_validation_outcome, (&error,), outcome),
    ensures
        ({
            let named = error@.details.dom().contains("stage"@);
            let stage = error@.details["stage"@];
            &&& outcome == StopOutcome::Orphaned <==> named && (stage == "RevalidateProcessGroup"@
                || stage == "getpgid"@ || stage == "PollManagedProcessGroup"@)
            &&& outcome == StopOutcome::Orphaned || outcome == StopOutcome::IdentityMismatch
        }),
{
}

/// A forced stop that would take back what cannot be taken back is refused for now, with the
/// operation that is in its way, and is worth another try.
pub proof fn lemma_force_is_told_what_it_waits_for(
    controls: Controls,
    operation_id: &str,
    command: StopCommand,
    result: Result<(), AppError>,
)
    requires
        controls.wf(),
        call_ensures(
            reject_unsafe_force_supersession,
            (&controls, operation_id, &command),
            result,
        ),
    ensures
        command is Graceful ==> result is Ok,
        result matches Err(error) ==> {
            &&& command is Force && error.code == ErrorCode::Conflict && error.retryable
            &&& controls@[command->Force_run_id@] is Stopping
        },
        (command matches StopCommand::Force { run_id, supersede_operation_id } ==> {
            let held = controls@.dom().contains(run_id@) && controls@[run_id@] is Stopping;
            let stop = controls@[run_id@]->Stopping_0;
            result is Err <==> held && stop.operation_id@ != operation_id@ && optional_text(
                supersede_operation_id,
            ) == Some(stop.operation_id@) && (stop.phase is SignalAttempted || stop.phase
                is CompletionPending)
        }),
{
    if let Err(error) = result {
        assert(error@.code == error.code && error@.retryable == error.retryable);
    }
}

} // verus!
