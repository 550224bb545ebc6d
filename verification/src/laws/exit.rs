//! What assessing an exit and stopping all runs for it is for: a run is shown as
//! what it is, a stop that is under way is adopted and not made a second time, every
//! run that goes on is asked once, and nothing is said to be done while a run is left.

use vstd::prelude::*;

use crate::error::{optional_text, AppError, ErrorCode};
use crate::exit::{
    authoritative_exit_impact, blocks_exit, child_stop_id, coherent, durable_of, first_impact,
    impact_for, impact_listed, impact_of, impacts_fit, is_due, is_member, is_stored,
    load_or_prepare_managed_exit_operation, managed_exit_assessment_id, member_fits,
    member_result_fits, needs_child_stop, phase_fits_status, shows_stop_all, stop_all_next,
    ActiveRun, ExitImpactSummary, ExitMember, ExitMemberAction, ExitOperation, ExitPreparation,
    ExitRunImpact, ImpactView, RetainedReason, StopAllEvent, StopAllMemberAction, StopAllResult,
    StopAllStatus, StopAllStep,
};
use crate::run::{
    ManagedProcess, Platform, RunControl, RunState, SignalDisposition, StopKind, StopOperation,
    StopPhase, StopStatus, StoppingProcess,
};
use crate::stop::{control_phase_from_result, stop_after, StopEvent, StoreReply};
use crate::text::text_before;

verus! {

/// A stored identity is that of a process.
pub open spec fn is_stored_process(durable: ActiveRun, process: ManagedProcess) -> bool {
    durable.run.process_instance_key is Some && durable.run.process_instance_key->0@
        == process.instance_key@
}

/// A stored identity and group are those of a process.
pub open spec fn is_stored_group(
    platform: Platform,
    durable: ActiveRun,
    process: ManagedProcess,
) -> bool {
    &&& is_stored_process(durable, process)
    &&& platform == Platform::Windows ==> durable.run.process_group_id is None
    &&& platform == Platform::MacOs ==> durable.run.process_group_id == Some(
        process.process_group_id,
    )
}

/// A stored stop is the one that is held, as far as it has come.
pub open spec fn is_stored_stop(active: StopOperation, stop: StoppingProcess) -> bool {
    &&& active.operation_id@ == stop.operation_id@
    &&& active.kind == stop.kind
    &&& match active.status {
        StopStatus::Requested => stop.phase == StopPhase::Requested || stop.phase
            is CompletionPending,
        StopStatus::SignalPending => stop.phase == StopPhase::SignalPending || stop.phase
            == StopPhase::SignalAttempted || stop.phase is CompletionPending,
        StopStatus::InProgress => stop.phase == StopPhase::Monitoring || stop.phase
            is CompletionPending,
        StopStatus::TimedOut => stop.phase == StopPhase::TimedOut || stop.phase
            is CompletionPending,
        StopStatus::Completed | StopStatus::Superseded => false,
    }
}

/// What is held and what is stored of a run agree exactly where the store shows it
/// as starting, as running or as being stopped just as it is held.
pub proof fn lemma_held_and_stored_agree(
    platform: Platform,
    control: RunControl,
    durable: ActiveRun,
)
    ensures
        coherent(platform, control, durable) <==> match durable.active_stop {
            Some(active) => control is Stopping && is_stored_stop(active, control->Stopping_0)
                && is_stored_group(platform, durable, control->Stopping_0.process),
            None => match durable.run.state {
                RunState::Starting => {
                    ||| control is StartingIntent && durable.run.process_instance_key is None
                        && durable.run.process_group_id is None
                    ||| control is Suspended && is_stored_process(durable, control->Suspended_0)
                    ||| control is RunningUncommitted && is_stored_process(
                        durable,
                        control->RunningUncommitted_0,
                    )
                },
                RunState::Running => {
                    ||| control is RunningUncommitted && is_stored_process(
                        durable,
                        control->RunningUncommitted_0,
                    )
                    ||| control is Running && is_stored_group(
                        platform,
                        durable,
                        control->Running_0,
                    )
                },
                RunState::Recovered => control is Running && is_stored_group(
                    platform,
                    durable,
                    control->Running_0,
                ),
                _ => false,
            },
        },
{
}

/// What a run is shown as tells what is held of it: as running only where it is held
/// as running; as being launched only where its process does not run yet; as being
/// stopped only where it is held as that, under the operation of that stop; and
/// anything else stays, for the reason that holds.
pub proof fn lemma_run_is_shown_as_it_is_held(
    platform: Platform,
    control: Option<RunControl>,
    durable: Option<ActiveRun>,
)
    ensures
        ({
            let shown = impact_of(platform, control, durable);
            let agrees = control is Some && durable is Some && coherent(
                platform,
                control->0,
                durable->0,
            );
            &&& shown is Running <==> agrees && control->0 is Running
            &&& shown is Launching <==> agrees && (control->0 is StartingIntent || control->0
                is Suspended || control->0 is RunningUncommitted)
            &&& shown is ForceStopping <==> agrees && control->0 is Stopping
                && control->0->Stopping_0.kind == StopKind::Force
            &&& shown is GracefulTimedOut <==> agrees && control->0 is Stopping
                && control->0->Stopping_0.kind == StopKind::Graceful
                && durable->0.active_stop->0.status == StopStatus::TimedOut
            &&& shown is GracefulStopping <==> agrees && control->0 is Stopping
                && control->0->Stopping_0.kind == StopKind::Graceful
                && durable->0.active_stop->0.status != StopStatus::TimedOut
            &&& shown matches ImpactView::ForceStopping { operation_id } ==> operation_id
                == control->0->Stopping_0.operation_id@
            &&& shown matches ImpactView::GracefulTimedOut { operation_id } ==> operation_id
                == control->0->Stopping_0.operation_id@
            &&& shown matches ImpactView::GracefulStopping { operation_id } ==> operation_id
                == control->0->Stopping_0.operation_id@
            &&& shown is Retained <==> !agrees
            &&& shown matches ImpactView::Retained { reason } ==> {
                &&& reason == RetainedReason::DurableOnly <==> control is None
                &&& reason == RetainedReason::Quarantined <==> control is Some && control->0
                    is Quarantined
                &&& reason == RetainedReason::CleanupPending <==> control is Some && control->0
                    is CleanupPending
                &&& reason == RetainedReason::ControlMismatch <==> control is Some && !(control->0
                    is Quarantined) && !(control->0 is CleanupPending)
            }
        }),
{
}

/// A run that is being stopped, as the store knows, is adopted by an exit under the
/// operation of that stop: no second one is made for it. A run that goes on gets one
/// of its own, and a run that stays gets none.
pub proof fn lemma_stop_under_way_is_adopted(
    platform: Platform,
    control: Option<RunControl>,
    durable: Option<ActiveRun>,
    impact: ExitRunImpact,
    exit_operation_id: Seq<char>,
    member: ExitMember,
)
    requires
        impact@ == impact_of(platform, control, durable),
        member_fits(member, exit_operation_id, impact),
    ensures
        member.run_id@ == impact.id(),
        ({
            let agrees = control is Some && durable is Some && coherent(
                platform,
                control->0,
                durable->0,
            );
            &&& member.action == ExitMemberAction::StopAdopted <==> agrees && control->0
                is Stopping
            &&& agrees && control->0 is Stopping ==> member.stop_operation_id is Some
                && member.stop_operation_id->0@ == control->0->Stopping_0.operation_id@
                && durable->0.active_stop is Some && member.stop_operation_id->0@
                == durable->0.active_stop->0.operation_id@
            &&& member.action == ExitMemberAction::GracefulRequested <==> agrees && !(control->0
                is Stopping)
            &&& member.action == ExitMemberAction::GracefulRequested ==> member.stop_operation_id
                is Some && member.stop_operation_id->0@ == child_stop_id(
                exit_operation_id,
                impact.id(),
            )
            &&& member.action == ExitMemberAction::NoAction <==> !agrees
            &&& !agrees ==> member.stop_operation_id is None
        }),
{
}

/// A stop that is driven by its worker agrees with the store all the way: it is taken
/// up in a phase that fits what is stored, and each write that is made leads to a
/// phase that fits what was written.
pub proof fn lemma_driven_stop_agrees_with_the_store(
    operation: StopOperation,
    taken_up: Result<(StopPhase, Option<SignalDisposition>), AppError>,
    stop: StoppingProcess,
    disposition: SignalDisposition,
    now_ms: u64,
)
    requires
        call_ensures(control_phase_from_result, (&operation,), taken_up),
    ensures
        taken_up matches Ok((phase, _)) ==> phase_fits_status(phase, operation.status),
        ({
            let stored = StopEvent::Stored(StoreReply::Stored);
            let next = stop_after(stop, stored, now_ms).0;
            &&& stop.phase == StopPhase::Requested ==> phase_fits_status(
                next.phase,
                StopStatus::SignalPending,
            )
            &&& stop.phase == StopPhase::SignalAttempted && stop.signal_disposition is Some
                ==> phase_fits_status(next.phase, StopStatus::InProgress)
            &&& stop.phase == StopPhase::Monitoring ==> phase_fits_status(
                next.phase,
                StopStatus::TimedOut,
            )
            &&& stop.phase == StopPhase::SignalPending ==> phase_fits_status(
                stop_after(stop, StopEvent::Signal(Ok(disposition)), now_ms).0.phase,
                StopStatus::SignalPending,
            )
        }),
        forall|phase: StopPhase|
            !#[trigger] phase_fits_status(phase, StopStatus::Completed) && !phase_fits_status(
                phase,
                StopStatus::Superseded,
            ),
{
}

/// The assessment lists every run that is held or stored, and no other, each once
/// and in the order of their IDs, each as what is held and stored of it makes it.
pub proof fn lemma_every_run_is_assessed_once(
    platform: Platform,
    controls: Map<Seq<char>, RunControl>,
    durable_runs: Seq<ActiveRun>,
    impacts: Seq<ExitRunImpact>,
    run_id: Seq<char>,
    place: int,
)
    requires
        impacts_fit(platform, controls, durable_runs, impacts),
    ensures
        (exists|i: int| 0 <= i < impacts.len() && (#[trigger] impacts[i]).id() == run_id) <==> (
        controls.dom().contains(run_id) || exists|i: int|
            0 <= i < durable_runs.len() && (#[trigger] durable_runs[i]).run.id@ == run_id),
        forall|i: int, j: int|
            0 <= i < j < impacts.len() ==> text_before(
                (#[trigger] impacts[i]).id(),
                (#[trigger] impacts[j]).id(),
            ),
        0 <= place < impacts.len() && controls.dom().contains(impacts[place].id())
            && controls[impacts[place].id()] is Quarantined ==> impacts[place]@
            == (ImpactView::Retained { reason: RetainedReason::Quarantined }),
        0 <= place < impacts.len() && !controls.dom().contains(impacts[place].id())
            ==> impacts[place]@ == (ImpactView::Retained { reason: RetainedReason::DurableOnly }),
        0 <= place < impacts.len() && impacts[place]@ is Running ==> controls.dom().contains(
            impacts[place].id(),
        ) && controls[impacts[place].id()] is Running,
{
    if exists|i: int| 0 <= i < impacts.len() && (#[trigger] impacts[i]).id() == run_id {
        let i = choose|i: int| 0 <= i < impacts.len() && (#[trigger] impacts[i]).id() == run_id;
        assert(controls.dom().contains(impacts[i].id()) || is_stored(
            durable_runs,
            impacts[i].id(),
        ));
    }
    if controls.dom().contains(run_id) || is_stored(durable_runs, run_id) {
        assert(impact_listed(impacts, run_id));
    }
}

/// Of two entries that the store shows of one run the later one counts.
pub proof fn lemma_later_entry_counts(runs: Seq<ActiveRun>, place: int)
    requires
        0 <= place < runs.len(),
        forall|k: int|
            place < k < runs.len() ==> (#[trigger] runs[k]).run.id@ != runs[place].run.id@,
    ensures
        durable_of(runs, runs[place].run.id@) == Some(runs[place]),
    decreases runs.len(),
{
    if place < runs.len() - 1 {
        assert(runs[runs.len() - 1].run.id@ != runs[place].run.id@);
        let rest = runs.drop_last();
        assert forall|k: int| place < k < rest.len() implies (#[trigger] rest[k]).run.id@
            != rest[place].run.id@ by {
            assert(runs[k].run.id@ != runs[place].run.id@);
        }
        lemma_later_entry_counts(rest, place);
    }
}

proof fn lemma_first_impact(impacts: Seq<ExitRunImpact>, place: int)
    requires
        0 <= place < impacts.len(),
        forall|k: int| 0 <= k < place ==> (#[trigger] impacts[k]).id() != impacts[place].id(),
    ensures
        first_impact(impacts, impacts[place].id()) == Some(impacts[place]),
    decreases place,
{
    if place > 0 {
        assert(impacts[0].id() != impacts[place].id());
        let rest = impacts.drop_first();
        assert(rest[place - 1] == impacts[place]);
        assert forall|k: int| 0 <= k < place - 1 implies (#[trigger] rest[k]).id() != rest[place
            - 1].id() by {
            assert(rest[k] == impacts[k + 1]);
        }
        lemma_first_impact(rest, place - 1);
    }
}

/// Whose stop is asked for: a member gets its stop requested exactly where the exit
/// asked for it and its run runs, or is being stopped gracefully by that very
/// request. A stop that was adopted, a forced one and a run that stays are left alone.
pub proof fn lemma_runs_that_go_on_are_asked(
    impacts: Seq<ExitRunImpact>,
    place: int,
    member: ExitMember,
)
    requires
        0 <= place < impacts.len(),
        forall|k: int| 0 <= k < place ==> (#[trigger] impacts[k]).id() != impacts[place].id(),
        member.run_id@ == impacts[place].id(),
    ensures
        is_due(member, impacts) <==> {
            &&& member.action == ExitMemberAction::GracefulRequested
            &&& member.stop_operation_id is Some
            &&& {
                ||| impacts[place] is Running
                ||| impacts[place] is GracefulStopping
                    && impacts[place]->GracefulStopping_operation_id@
                    == member.stop_operation_id->0@
                ||| impacts[place] is GracefulTimedOut
                    && impacts[place]->GracefulTimedOut_operation_id@
                    == member.stop_operation_id->0@
            }
        },
{
    lemma_first_impact(impacts, place);
}

/// A run that is not there any more is asked for nothing.
pub proof fn lemma_gone_runs_are_not_asked(impacts: Seq<ExitRunImpact>, member: ExitMember)
    requires
        forall|k: int| 0 <= k < impacts.len() ==> (#[trigger] impacts[k]).id() != member.run_id@,
    ensures
        !is_due(member, impacts),
    decreases impacts.len(),
{
    if impacts.len() > 0 {
        assert(impacts[0].id() != member.run_id@);
        let rest = impacts.drop_first();
        assert forall|k: int| 0 <= k < rest.len() implies (#[trigger] rest[k]).id()
            != member.run_id@ by {
            assert(rest[k] == impacts[k + 1]);
        }
        lemma_gone_runs_are_not_asked(rest, member);
    }
}

/// The steps of a stop of all runs: each member whose stop is due is asked for once,
/// none is left out, and none that is not due is asked. A run that has exited and one
/// that has moved on is passed over; another refusal is the answer; and what is left
/// is looked at only when nobody is to be asked any more.
pub proof fn lemma_stop_all_leaves_nobody_out(
    operation: ExitOperation,
    before: Seq<ExitRunImpact>,
    event: StopAllEvent,
    step: StopAllStep,
)
    requires
        stop_all_next(operation, before, event, step),
        event.fits(operation),
    ensures
        step matches StopAllStep::Request { place } ==> {
            let from = match event {
                StopAllEvent::Prepared => 0,
                StopAllEvent::Requested { place } => place + 1,
                StopAllEvent::Refused { place, .. } => place + 1,
                StopAllEvent::Reassessed { place, .. } => place + 1,
                _ => 0,
            };
            &&& from <= place < operation.members@.len()
            &&& is_due(operation.members@[place as int], before)
            &&& forall|k: int|
                from <= k < place ==> !is_due(#[trigger] operation.members@[k], before)
        },
        step is Assess && event is Prepared ==> forall|k: int|
            0 <= k < operation.members@.len() ==> !is_due(#[trigger] operation.members@[k], before),
        event matches StopAllEvent::Refused { place, error } ==> {
            &&& step is Reassess <==> error@.code == ErrorCode::Conflict
            &&& step is Answer <==> error@.code != ErrorCode::Conflict && error@.code
                != ErrorCode::AlreadyExited
            &&& step matches StopAllStep::Answer(answer) ==> answer == Err::<
                StopAllResult,
                AppError,
            >(error)
        },
        event matches StopAllEvent::Reassessed { place, error, latest } ==> {
            &&& latest matches Err(failure) ==> step == StopAllStep::Answer(Err(failure))
            &&& latest is Ok && step is Answer ==> step == StopAllStep::Answer(Err(error))
            &&& latest matches Ok(latest) ==> (step is Answer <==> needs_child_stop(
                latest.runs@,
                operation.members@[place as int].run_id@,
                operation.members@[place as int].stop_operation_id->0@,
            ))
        },
        event is Prepared || event is Requested ==> step is Request || step is Assess,
        event matches StopAllEvent::Assessed(Err(failure)) ==> step == StopAllStep::Answer(
            Err(failure),
        ),
        event matches StopAllEvent::Checked { shown, checked } ==> step == StopAllStep::Answer(
            match checked {
                Ok(_) => Ok(shown),
                Err(error) => Err(error),
            },
        ),
{
}

/// How far the stop of all runs is said to have come: it is completed exactly when no
/// run is left, it is blocked exactly when one is left that does not stop by itself,
/// and otherwise it drains. A run that is none of the operation's refuses the answer.
pub proof fn lemma_exit_is_done_when_no_run_is_left(
    operation: ExitOperation,
    current: ExitImpactSummary,
    result: Result<StopAllResult, AppError>,
    left: int,
)
    requires
        shows_stop_all(operation, current, result),
        0 <= left < current.runs@.len(),
        forall|k: int|
            left < k < current.runs@.len() ==> (#[trigger] current.runs@[k]).id()
                != current.runs@[left].id(),
    ensures
        result matches Ok(shown) ==> {
            let run = current.runs@[left];
            &&& shown.status != StopAllStatus::Completed
            &&& run is Launching || run is Running || run is GracefulTimedOut || run is Retained
                ==> shown.status == StopAllStatus::Blocked
            &&& shown.operation_id@ == operation.operation_id@
            &&& shown.members@.len() == operation.members@.len()
        },
        (forall|i: int|
            0 <= i < operation.members@.len() ==> (#[trigger] operation.members@[i]).run_id@
                != current.runs@[left].id()) ==> result is Err,
        result matches Err(error) ==> error@.code == ErrorCode::Conflict && error@.retryable,
{
    let run = current.runs@[left];
    if result is Ok {
        assert(is_member(operation.members@, run.id()));
        let i = choose|i: int|
            0 <= i < operation.members@.len() && (#[trigger] operation.members@[i]).run_id@
                == run.id();
        lemma_last_impact(current.runs@, left);
        assert(impact_for(current.runs@, operation.members@[i].run_id@) == Some(run));
    }
}

proof fn lemma_last_impact(impacts: Seq<ExitRunImpact>, place: int)
    requires
        0 <= place < impacts.len(),
        forall|k: int| place < k < impacts.len() ==> (#[trigger] impacts[k]).id() != impacts[place].id(),
    ensures
        impact_for(impacts, impacts[place].id()) == Some(impacts[place]),
    decreases impacts.len(),
{
    if place < impacts.len() - 1 {
        assert(impacts[impacts.len() - 1].id() != impacts[place].id());
        let rest = impacts.drop_last();
        assert forall|k: int| place < k < rest.len() implies (#[trigger] rest[k]).id()
            != rest[place].id() by {
            assert(impacts[k].id() != impacts[place].id());
        }
        lemma_last_impact(rest, place);
    }
}

/// Where no run is left, every member is shown as gone and the exit as completed;
/// where all that are left are being stopped, it drains.
pub proof fn lemma_exit_completes_and_drains(
    operation: ExitOperation,
    current: ExitImpactSummary,
    result: Result<StopAllResult, AppError>,
    place: int,
)
    requires
        shows_stop_all(operation, current, result),
    ensures
        current.runs@.len() == 0 ==> result is Ok && result->Ok_0.status
            == StopAllStatus::Completed,
        result is Ok && current.runs@.len() > 0 && (forall|i: int|
            0 <= i < current.runs@.len() ==> (#[trigger] current.runs@[i]) is GracefulStopping
                || current.runs@[i] is ForceStopping) ==> result->Ok_0.status
            == StopAllStatus::Draining,
        result is Ok && 0 <= place < operation.members@.len() ==> {
            let shown = result->Ok_0.members@[place];
            let member = operation.members@[place];
            &&& shown.run_id@ == member.run_id@
            &&& shown.action is NoAction <==> member.action == ExitMemberAction::NoAction
            &&& shown.action is GracefulRequested <==> member.action
                == ExitMemberAction::GracefulRequested
            &&& shown.action is StopAdopted <==> member.action == ExitMemberAction::StopAdopted
            &&& shown.action matches StopAllMemberAction::StopAdopted { operation_id } ==> Some(
                operation_id@,
            ) == optional_text(member.stop_operation_id)
            &&& shown.action matches StopAllMemberAction::GracefulRequested { operation_id }
                ==> Some(operation_id@) == optional_text(member.stop_operation_id)
            &&& shown.current_impact is None ==> forall|i: int|
                0 <= i < current.runs@.len() ==> (#[trigger] current.runs@[i]).id()
                    != member.run_id@
        },
{
    if result is Ok && 0 <= place < operation.members@.len() {
        assert(member_result_fits(
            result->Ok_0.members@[place],
            operation.members@[place],
            current.runs@,
        ));
        if impact_for(current.runs@, operation.members@[place].run_id@) is None {
            lemma_absent_impact(current.runs@, operation.members@[place].run_id@);
        }
    }
    if result is Ok && current.runs@.len() > 0 {
        if result->Ok_0.status == StopAllStatus::Blocked {
            let i = choose|i: int|
                0 <= i < operation.members@.len() && {
                    let impact = impact_for(
                        current.runs@,
                        (#[trigger] operation.members@[i]).run_id@,
                    );
                    impact is Some && blocks_exit(impact->0@)
                };
            lemma_found_impact(current.runs@, operation.members@[i].run_id@);
        }
    }
}

proof fn lemma_absent_impact(impacts: Seq<ExitRunImpact>, run_id: Seq<char>)
    requires
        impact_for(impacts, run_id) is None,
    ensures
        forall|i: int| 0 <= i < impacts.len() ==> (#[trigger] impacts[i]).id() != run_id,
    decreases impacts.len(),
{
    if impacts.len() > 0 {
        lemma_absent_impact(impacts.drop_last(), run_id);
        assert forall|i: int| 0 <= i < impacts.len() implies (#[trigger] impacts[i]).id()
            != run_id by {
            if i < impacts.len() - 1 {
                assert(impacts.drop_last()[i] == impacts[i]);
            }
        }
    }
}

proof fn lemma_found_impact(impacts: Seq<ExitRunImpact>, run_id: Seq<char>)
    requires
        impact_for(impacts, run_id) is Some,
    ensures
        exists|i: int| 0 <= i < impacts.len() && #[trigger] impacts[i] == impact_for(
            impacts,
            run_id,
        )->0,
    decreases impacts.len(),
{
    if impacts.last().id() == run_id {
        assert(impacts[impacts.len() - 1] == impacts.last());
    } else {
        lemma_found_impact(impacts.drop_last(), run_id);
        let i = choose|i: int|
            0 <= i < impacts.drop_last().len() && #[trigger] impacts.drop_last()[i] == impact_for(
                impacts.drop_last(),
                run_id,
            )->0;
        assert(impacts[i] == impacts.drop_last()[i]);
    }
}

/// An exit goes by the assessment that was confirmed, or not at all; an operation that
/// was stored before is worked on again just as it was, whatever is shown now.
pub proof fn lemma_exit_goes_by_what_was_confirmed(
    replay: Option<ExitOperation>,
    operation_id: &str,
    request_sha256: [u8; 32],
    expected_assessment_id: &str,
    impact: ExitImpactSummary,
    created_at: Result<String, AppError>,
    result: Result<ExitPreparation, AppError>,
)
    requires
        call_ensures(
            load_or_prepare_managed_exit_operation,
            (replay, operation_id, request_sha256, expected_assessment_id, &impact, created_at),
            result,
        ),
    ensures
        replay matches Some(operation) ==> result == Ok::<ExitPreparation, AppError>(
            ExitPreparation::Replay(operation),
        ),
        replay is None ==> (result is Ok <==> expected_assessment_id@ == impact.assessment_id@
            && created_at is Ok),
        replay is None ==> (result matches Ok(prepared) ==> (prepared
            matches ExitPreparation::Store(operation) && {
            &&& operation.operation_id@ == operation_id@
            &&& operation.request_sha256@ == request_sha256@
            &&& operation.members@.len() == impact.runs@.len()
            &&& forall|i: int|
                0 <= i < impact.runs@.len() ==> (#[trigger] operation.members@[i]).run_id@
                    == impact.runs@[i].id()
        })),
        replay is None && expected_assessment_id@ != impact.assessment_id@ ==> result is Err
            && result->Err_0@.code == ErrorCode::Conflict && result->Err_0@.retryable,
{
}

/// What an exit means is told exactly where it could be written down and was found in order:
/// with the runs that were assessed, under an identifier that is the same for the same
/// service and the same assessment.
pub proof fn lemma_assessment_is_told_under_its_identifier(
    incarnation: [u8; 32],
    runs: Vec<ExitRunImpact>,
    canonical: Result<Vec<u8>, String>,
    checked: Result<(), AppError>,
    result: Result<ExitImpactSummary, AppError>,
    bytes: &[u8],
    id: String,
)
    requires
        call_ensures(authoritative_exit_impact, (&incarnation, runs, canonical, checked), result),
        call_ensures(managed_exit_assessment_id, (&incarnation, bytes), id),
    ensures
        result is Ok <==> canonical is Ok && checked is Ok,
        result matches Ok(summary) ==> summary.runs == runs,
        result is Ok && canonical->Ok_0@ == bytes@ ==> result->Ok_0.assessment_id@ == id@,
        canonical is Ok && checked is Err ==> result->Err_0 == checked->Err_0,
{
}

} // verus!
