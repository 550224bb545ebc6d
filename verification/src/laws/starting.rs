//! What starting a run, and the service itself, is for: a run is started once, as it was
//! shown and where there is room, and a start that fails leaves nothing behind but what
//! still has to be cleaned up.

use vstd::prelude::*;

use crate::error::{AppError, ErrorCode};
use crate::launch::LaunchStep;
use crate::paths::{below, is_absolute};
use crate::run::{Platform, RunControl};
use crate::service::{service_follows, service_of, ManagedRunService, ServiceReply, ServiceStep};
use crate::starting::{
    start_follows, RunStartReply, RunStartStep, StartManagedRunRequest, StartRules,
};

verus! {

/// A start goes on only where it is admitted: on the right platform, while fewer runs are
/// held than may be, both before old logs made room and after, and with the profile as it
/// was shown. Nothing is held for the run until its intent is stored.
pub proof fn lemma_run_is_started_where_there_is_room(
    controls: Map<Seq<char>, RunControl>,
    rules: StartRules,
    log_root: Seq<char>,
    request: StartManagedRunRequest,
    step: RunStartStep,
    reply: RunStartReply,
    next: RunStartStep,
    after: Map<Seq<char>, RunControl>,
)
    requires
        step.wf(controls),
        step.asks_for(reply),
        start_follows(controls, rules, log_root, request, step, reply, next, after),
    ensures
        next is WaitForGate <==> step is CheckRequest && reply->Checked_0 is Ok && rules.context
            == rules.platform,
        next is CleanUp <==> step is WaitForGate && controls.dom().len() < rules.maximum_runs,
        next matches RunStartStep::CleanUp { additional_active_reservations }
            ==> additional_active_reservations == 1,
        next is WaitForRuns <==> step is CleanUp && reply->CleanedUp_0 is Ok,
        next is LoadProfile <==> step is WaitForRuns && controls.dom().len() < rules.maximum_runs,
        step is LoadProfile && next is DrawId <==> step is LoadProfile && reply->Profile_0 is Ok
            && reply->Profile_0->Ok_0.updated_at@ == request.expected_profile_updated_at@,
        step is LoadProfile && next is DrawId ==> next->DrawId_interactive
            == reply->Profile_0->Ok_0.interactive && next->DrawId_attempts_left == 3,
        step is CheckRequest || step is WaitForGate || step is CleanUp || step is WaitForRuns
            || step is LoadProfile || step is DrawId || step is ReadClock ==> after == controls,
        !(next is CheckRequest),
{
}

/// A run gets an identifier that no held run and no stored run has: a taken one is drawn
/// anew, four times at most, and the run is launched under the one that its intent was
/// stored with, with its logs in a directory of its own.
pub proof fn lemma_run_gets_an_identifier_of_its_own(
    controls: Map<Seq<char>, RunControl>,
    rules: StartRules,
    log_root: Seq<char>,
    request: StartManagedRunRequest,
    step: RunStartStep,
    reply: RunStartReply,
    next: RunStartStep,
    after: Map<Seq<char>, RunControl>,
)
    requires
        step.wf(controls),
        step.asks_for(reply),
        start_follows(controls, rules, log_root, request, step, reply, next, after),
    ensures
        next matches RunStartStep::ReadClock { interactive, attempts_left, run_id } ==> {
            &&& step == (RunStartStep::DrawId { interactive, attempts_left })
            &&& reply == RunStartReply::Id(Ok(run_id)) && !controls.dom().contains(run_id@)
        },
        next matches RunStartStep::StoreIntent {
            interactive,
            attempts_left,
            run_id,
            log_directory,
            started_at,
        } ==> {
            &&& step == (RunStartStep::ReadClock { interactive, attempts_left, run_id })
            &&& reply == RunStartReply::Time(Ok(started_at))
            &&& log_directory@ == below(rules.platform, log_root, run_id@)
        },
        step matches RunStartStep::DrawId { interactive, attempts_left } ==> (next
            matches RunStartStep::DrawId { interactive: again, attempts_left: left } ==> {
            &&& again == interactive && left == attempts_left - 1
            &&& reply->Id_0 is Ok && controls.dom().contains(reply->Id_0->Ok_0@)
        }),
        step matches RunStartStep::StoreIntent { interactive, attempts_left, .. } ==> (next
            matches RunStartStep::DrawId { interactive: again, attempts_left: left } ==> again
            == interactive && left == attempts_left - 1 && reply->Stored_0 is Err && after
            == controls),
        step matches RunStartStep::StoreIntent { interactive, run_id, .. } ==> {
            &&& reply->Stored_0 is Ok <==> next is Launching
            &&& next matches RunStartStep::Launching { launch } ==> {
                &&& launch.run_id == run_id && launch.interactive == interactive
                &&& launch.step == LaunchStep::Preview
                &&& after == controls.insert(run_id@, RunControl::StartingIntent)
            }
        },
        next is Launching ==> step is StoreIntent || step is Launching,
        next is DrawId ==> step is LoadProfile || step is DrawId || step is StoreIntent,
{
}

/// A start that fails is told to have failed, and with what: where nothing was launched,
/// nothing is held for it, and where something was, only a process that is still there and
/// has to be cleaned up stays held. Only a launch that started answers with a run.
pub proof fn lemma_failed_start_leaves_only_what_is_cleaned_up(
    controls: Map<Seq<char>, RunControl>,
    rules: StartRules,
    log_root: Seq<char>,
    request: StartManagedRunRequest,
    step: RunStartStep,
    reply: RunStartReply,
    next: RunStartStep,
    after: Map<Seq<char>, RunControl>,
    other: Seq<char>,
)
    requires
        step.wf(controls),
        step.asks_for(reply),
        start_follows(controls, rules, log_root, request, step, reply, next, after),
    ensures
        next matches RunStartStep::Answered { result, follow_up } ==> {
            &&& result is Ok ==> step is Launching
            &&& step !is Launching && step !is StoreFailure ==> result is Err && after == controls
        },
        step is EndLeftover ==> next is StoreFailure,
        step is StoreFailure ==> next is Answered && next->result is Err,
        (step matches RunStartStep::EndLeftover { run_id, failure } ==> (next
            matches RunStartStep::StoreFailure { run_id: id, report } ==> {
            &&& id == run_id
            &&& report.orphaned ==> after.dom().contains(run_id@) && after[run_id@]
                is CleanupPending
            &&& !report.orphaned ==> after == controls && report.stage == failure.stage
            &&& other != run_id@ && controls.dom().contains(other) ==> after.dom().contains(other)
                && after[other] == controls[other]
            &&& failure.error is Some ==> report.error.code == failure.error->0.code
        })),
        (step matches RunStartStep::StoreFailure { run_id, report } ==> {
            &&& report.orphaned ==> after == controls
            &&& !report.orphaned ==> !after.dom().contains(run_id@)
            &&& other != run_id@ ==> (after.dom().contains(other) <==> controls.dom().contains(
                other,
            ))
            &&& other != run_id@ && controls.dom().contains(other) ==> after[other]
                == controls[other]
        }),
        reply matches RunStartReply::Checked(Err(error)) ==> next is Answered
            && next->result->Err_0@ == error@,
        reply matches RunStartReply::CleanedUp(Err(error)) ==> next is Answered
            && next->result->Err_0@ == error@,
        reply matches RunStartReply::Profile(Err(error)) ==> next is Answered
            && next->result->Err_0@ == error@,
        reply matches RunStartReply::Id(Err(error)) ==> next is Answered && next->result->Err_0@
            == error@,
        reply matches RunStartReply::Time(Err(error)) ==> next is Answered && next->result->Err_0@
            == error@,
        step is WaitForGate && controls.dom().len() >= rules.maximum_runs ==> next is Answered
            && next->result->Err_0.code == ErrorCode::Conflict && next->result->Err_0.retryable,
        step is WaitForRuns && controls.dom().len() >= rules.maximum_runs ==> next is Answered
            && next->result->Err_0.code == ErrorCode::Conflict && next->result->Err_0.retryable,
        step is LoadProfile && reply->Profile_0 is Ok && reply->Profile_0->Ok_0.updated_at@
            != request.expected_profile_updated_at@ ==> next is Answered
            && next->result->Err_0.code == ErrorCode::Conflict,
{
    if let RunStartStep::Answered { result: Err(error), .. } = next {
        assert(error@.code == error.code && error@.retryable == error.retryable);
    }
    if let RunStartStep::StoreFailure { report, .. } = next {
        assert(report.error@.code == report.error.code);
    }
    if let RunStartStep::EndLeftover { failure, .. } = step {
        if let Some(error) = failure.error {
            assert(error@.code == error.code);
        }
    }
}

/// The service comes to stand one step after the other, always the same service under the
/// same root, and only once every step before went well; the runs that it holds change
/// while they are reconciled and at no other time. Only a clean-up may fail on the way.
pub proof fn lemma_service_comes_to_stand_step_by_step(
    controls: Map<Seq<char>, RunControl>,
    platform: Platform,
    step: ServiceStep,
    reply: ServiceReply,
    next: ServiceStep,
    after: Map<Seq<char>, RunControl>,
)
    requires
        step.wf(),
        step.asks_for(reply),
        service_follows(controls, platform, step, reply, next, after),
    ensures
        next is DrawIncarnation <==> step is OpenRetention && reply->Opened_0 is Ok,
        next matches ServiceStep::DrawIncarnation { log_root } ==> step
            == (ServiceStep::OpenRetention { log_root }),
        step is DrawIncarnation ==> (next is Reconcile <==> reply->Drawn_0 is Ok),
        (step matches ServiceStep::DrawIncarnation { log_root } ==> (next
            matches ServiceStep::Reconcile { service, .. } ==> service.log_root == log_root
            && reply->Drawn_0 == Ok::<[u8; 32], AppError>(service.service_incarnation))),
        next is PublishContext <==> step is ReadContext && reply->Done_0 is Ok,
        next is ScheduleWorkers <==> step is PublishContext && reply->Done_0 is Ok,
        next is CleanUp <==> step is ScheduleWorkers,
        next is Ready <==> step is CleanUp,
        next is ReadContext ==> step is Reconcile,
        next is Reconcile ==> step is Reconcile || step is DrawIncarnation,
        service_of(step) is Some && next !is Fail ==> service_of(next) == service_of(step),
        (step matches ServiceStep::ReadContext { workers, .. } ==> (next
            matches ServiceStep::PublishContext { workers: kept, .. } ==> kept == workers)),
        (step matches ServiceStep::PublishContext { workers, .. } ==> (next
            matches ServiceStep::ScheduleWorkers { workers: kept, .. } ==> kept == workers)),
        step !is Reconcile ==> after == controls,
        (step is ReadContext || step is PublishContext) && reply->Done_0 is Err ==> next
            == ServiceStep::Fail(reply->Done_0->Err_0),
        step is DrawIncarnation && reply->Drawn_0 is Err ==> next == ServiceStep::Fail(
            reply->Drawn_0->Err_0,
        ),
        step is OpenRetention && reply->Opened_0 is Err ==> next is Fail,
{
}

/// The service begins only with an absolute root for its logs.
pub proof fn lemma_service_begins_with_an_absolute_root(
    platform: Platform,
    log_root: Option<String>,
    step: ServiceStep,
)
    requires
        call_ensures(ManagedRunService::begin, (platform, log_root), step),
    ensures
        step is OpenRetention || step is Fail,
        step is OpenRetention <==> log_root is Some && is_absolute(platform, log_root->0@),
        step matches ServiceStep::OpenRetention { log_root: root } ==> log_root == Some(root),
{
}

} // verus!
