//! Starting a managed run from the request to the answer: it is admitted, old
//! logs make room, it is admitted again, its profile is the one that was shown,
//! its intent is stored, and only then it is launched.

use vstd::prelude::*;

use crate::error::{plain_error, AppError, ErrorCode, ErrorView};
use crate::launch::{
    active_capacity_error, admit_launch, collides, create_starting_intent, event_fits,
    follow_up_of_error, follow_up_of_run, follow_up_start, launch_after, native_part,
    platform_refusal, record_failed_launch, record_native_failure, require_launch_platform,
    require_profile_revision, revision_conflict, settled_error, start_platform_run, IntentStep,
    Launch, LaunchAction, LaunchEvent, LaunchFailure, LaunchFailureStage, LaunchReport, LaunchStep,
    NativeFailure, StartFollowUp, RUN_ID_ALLOCATION_ATTEMPTS,
};
use crate::paths::{below, join_path};
use crate::run::{Controls, ManagedRunSummary, Platform, RunControl};
use crate::service::ManagedRunService;

verus! {

/// A request to start a run: its profile, in the version that was shown.
#[derive(Debug)]
pub struct StartManagedRunRequest {
    pub profile_id: String,
    pub expected_profile_updated_at: String,
}

/// What a start has to know of the profile that is stored.
#[derive(Debug)]
pub struct StoredProfile {
    pub updated_at: String,
    pub interactive: bool,
}

/// What is to be done next for a run to start.
#[derive(Debug)]
#[allow(inconsistent_fields)]
pub enum RunStartStep {
    /// Check the request.
    CheckRequest,
    /// Wait until no other run is being started.
    WaitForGate,
    /// Delete old logs, with room for so many runs more.
    CleanUp { additional_active_reservations: usize },
    /// Wait for what is held of the runs.
    WaitForRuns,
    /// Read the profile.
    LoadProfile,
    /// Draw an ID for the run; so many more may be drawn.
    DrawId { interactive: bool, attempts_left: usize },
    /// Read the clock.
    ReadClock { interactive: bool, attempts_left: usize, run_id: String },
    /// Store the run as starting.
    StoreIntent {
        interactive: bool,
        attempts_left: usize,
        run_id: String,
        log_directory: String,
        started_at: String,
    },
    /// Do the step that the launch is at.
    Launching { launch: Launch },
    /// End what a failed launch has left, as far as it can be ended.
    EndLeftover { run_id: String, failure: LaunchFailure },
    /// Store the failed launch.
    StoreFailure { run_id: String, report: LaunchReport },
    /// Answer, and then do what goes on.
    Answered { result: Result<ManagedRunSummary, AppError>, follow_up: StartFollowUp },
}

/// What came of a step.
#[derive(Debug)]
pub enum RunStartReply {
    Checked(Result<(), AppError>),
    Entered,
    CleanedUp(Result<(), AppError>),
    Profile(Result<StoredProfile, AppError>),
    Id(Result<String, AppError>),
    Time(Result<String, AppError>),
    Stored(Result<(), AppError>),
    Launched(LaunchEvent),
    Ended(Option<NativeFailure>),
    FailureStored(bool),
}

impl RunStartStep {
    /// What a step and what is held know of each other.
    pub open spec fn wf(self, controls: Map<Seq<char>, RunControl>) -> bool {
        match self {
            RunStartStep::ReadClock { run_id, .. } => !controls.dom().contains(run_id@),
            RunStartStep::StoreIntent { run_id, .. } => !controls.dom().contains(run_id@),
            RunStartStep::Launching { launch } => launch.wf(controls),
            RunStartStep::EndLeftover { failure, .. } => failure.error is Some || failure.leftover
                is Native,
            _ => true,
        }
    }

    /// A reply is one to what was asked.
    pub open spec fn asks_for(self, reply: RunStartReply) -> bool {
        match self {
            RunStartStep::CheckRequest => reply is Checked,
            RunStartStep::WaitForGate => reply is Entered,
            RunStartStep::CleanUp { .. } => reply is CleanedUp,
            RunStartStep::WaitForRuns => reply is Entered,
            RunStartStep::LoadProfile => reply is Profile,
            RunStartStep::DrawId { .. } => reply is Id,
            RunStartStep::ReadClock { .. } => reply is Time,
            RunStartStep::StoreIntent { .. } => reply is Stored,
            RunStartStep::Launching { launch } => reply matches RunStartReply::Launched(event)
                && event_fits(launch.step, event),
            RunStartStep::EndLeftover { .. } => reply is Ended,
            RunStartStep::StoreFailure { .. } => reply is FailureStored,
            RunStartStep::Answered { .. } => false,
        }
    }
}

/// What a start goes by: the platform of the supervisor and that of the context,
/// and how many runs the logs have room for.
#[derive(Clone, Copy, Debug, PartialEq, Eq, Structural)]
pub struct StartRules {
    pub platform: Platform,
    pub context: Platform,
    pub maximum_runs: usize,
}

/// The start is refused before anything was done for it: nothing goes on.
pub open spec fn is_refused(next: RunStartStep, error: ErrorView) -> bool {
    next matches RunStartStep::Answered { result, follow_up } && {
        &&& result matches Err(refusal) && refusal@ == error
        &&& !follow_up.watch_exit
        &&& !follow_up.retry_cleanup
    }
}

/// The start ends with an error of the store or of the launch.
pub open spec fn ends_badly(next: RunStartStep, error: ErrorView) -> bool {
    next matches RunStartStep::Answered { result, follow_up } && {
        &&& result matches Err(refusal) && refusal@ == error
        &&& follow_up == follow_up_of_error(error)
    }
}

/// The refusal where no ID could be found for a run.
pub open spec fn no_id_error() -> ErrorView {
    plain_error(ErrorCode::Internal, "failed to allocate a unique managed run ID"@)
}

/// An ID was taken: another one is drawn, or none is left.
pub open spec fn tries_again(next: RunStartStep, interactive: bool, attempts_left: usize) -> bool {
    if attempts_left == 0 {
        ends_badly(next, no_id_error())
    } else {
        next == (RunStartStep::DrawId {
            interactive,
            attempts_left: (attempts_left - 1) as usize,
        })
    }
}

/// What a launch came to where a step follows it.
pub open spec fn launch_action(next: RunStartStep) -> LaunchAction {
    match next {
        RunStartStep::Launching { launch } => LaunchAction::Perform(launch),
        RunStartStep::EndLeftover { failure, .. } => LaunchAction::Fail(failure),
        RunStartStep::Answered { result, .. } => match result {
            Ok(run) => LaunchAction::Started(run),
            Err(error) => LaunchAction::Abandon(error),
        },
        _ => arbitrary(),
    }
}

/// A run is launched for the first time: at its first step.
pub open spec fn is_new_launch(launch: Launch, run_id: String, interactive: bool) -> bool {
    &&& launch.run_id == run_id
    &&& launch.interactive == interactive
    &&& launch.step == LaunchStep::Preview
}

/// What a failed launch is reported as, once its process was ended.
pub open spec fn is_reported(
    controls: Map<Seq<char>, RunControl>,
    run_id: Seq<char>,
    failure: LaunchFailure,
    ended: Option<NativeFailure>,
    report: LaunchReport,
    after: Map<Seq<char>, RunControl>,
) -> bool {
    let native = native_part(failure, ended);
    let public = if failure.error is Some {
        failure.error->0@
    } else {
        native->0.public_error@
    };
    if native is Some && native->0.cleanup_pending {
        &&& report.orphaned
        &&& report.stage == LaunchFailureStage::Cleanup
        &&& report.error@ == public.with("cleanupPending"@, "true"@)
        &&& after == controls.insert(run_id, RunControl::CleanupPending(native->0.pending))
    } else {
        &&& !report.orphaned
        &&& report.stage == failure.stage
        &&& report.error@ == public
        &&& after == controls
    }
}

/// What follows a step of a start, and what is then held.
pub open spec fn start_follows(
    controls: Map<Seq<char>, RunControl>,
    rules: StartRules,
    log_root: Seq<char>,
    request: StartManagedRunRequest,
    step: RunStartStep,
    reply: RunStartReply,
    next: RunStartStep,
    after: Map<Seq<char>, RunControl>,
) -> bool {
    let held = controls.dom().len();
    match (step, reply) {
        (RunStartStep::CheckRequest, RunStartReply::Checked(checked)) => after == controls
            && match checked {
            Err(error) => is_refused(next, error@),
            Ok(_) => if rules.context != rules.platform {
                is_refused(next, platform_refusal())
            } else {
                next is WaitForGate
            },
        },
        (RunStartStep::WaitForGate, RunStartReply::Entered) => after == controls && if held
            >= rules.maximum_runs {
            is_refused(next, active_capacity_error(rules.maximum_runs as nat))
        } else {
            next == (RunStartStep::CleanUp { additional_active_reservations: 1 })
        },
        (RunStartStep::CleanUp { .. }, RunStartReply::CleanedUp(outcome)) => after == controls
            && match outcome {
            Err(error) => is_refused(next, error@),
            Ok(_) => next is WaitForRuns,
        },
        (RunStartStep::WaitForRuns, RunStartReply::Entered) => after == controls && if held
            >= rules.maximum_runs {
            is_refused(next, active_capacity_error(rules.maximum_runs as nat))
        } else {
            next is LoadProfile
        },
        (RunStartStep::LoadProfile, RunStartReply::Profile(loaded)) => after == controls
            && match loaded {
            Err(error) => ends_badly(next, error@),
            Ok(profile) => if profile.updated_at@ != request.expected_profile_updated_at@ {
                ends_badly(
                    next,
                    revision_conflict(
                        request.profile_id@,
                        request.expected_profile_updated_at@,
                        profile.updated_at@,
                    ),
                )
            } else {
                next == (RunStartStep::DrawId {
                    interactive: profile.interactive,
                    attempts_left: (RUN_ID_ALLOCATION_ATTEMPTS - 1) as usize,
                })
            },
        },
        (RunStartStep::DrawId { interactive, attempts_left }, RunStartReply::Id(drawn)) => after
            == controls && match drawn {
            Err(error) => ends_badly(next, error@),
            Ok(run_id) => if controls.dom().contains(run_id@) {
                tries_again(next, interactive, attempts_left)
            } else {
                next == (RunStartStep::ReadClock { interactive, attempts_left, run_id })
            },
        },
        (
            RunStartStep::ReadClock { interactive, attempts_left, run_id },
            RunStartReply::Time(read),
        ) => after == controls && match read {
            Err(error) => ends_badly(next, error@),
            Ok(time) => next matches RunStartStep::StoreIntent {
                interactive: shown,
                attempts_left: left,
                run_id: id,
                log_directory,
                started_at,
            } && {
                &&& shown == interactive
                &&& left == attempts_left
                &&& id == run_id
                &&& log_directory@ == below(rules.platform, log_root, run_id@)
                &&& started_at == time
            },
        },
        (
            RunStartStep::StoreIntent { interactive, attempts_left, run_id, .. },
            RunStartReply::Stored(stored),
        ) => match stored {
            Ok(_) => {
                &&& after == controls.insert(run_id@, RunControl::StartingIntent)
                &&& next matches RunStartStep::Launching { launch } && is_new_launch(
                    launch,
                    run_id,
                    interactive,
                )
            },
            Err(error) => after == controls && if collides(error@, run_id@) {
                tries_again(next, interactive, attempts_left)
            } else {
                ends_badly(next, error@)
            },
        },
        (RunStartStep::Launching { launch }, RunStartReply::Launched(event)) => {
            &&& launch_after(
                controls,
                rules.platform,
                launch,
                event,
                launch_action(next),
                after,
            )
            &&& match next {
                RunStartStep::Launching { .. } => true,
                RunStartStep::EndLeftover { run_id, .. } => run_id@ == launch.run_id@,
                RunStartStep::Answered { result, follow_up } => follow_up == match result {
                    Ok(run) => follow_up_of_run(after, run.run_id@),
                    Err(error) => follow_up_of_error(error@),
                },
                _ => false,
            }
        },
        (RunStartStep::EndLeftover { run_id, failure }, RunStartReply::Ended(ended)) => next
            matches RunStartStep::StoreFailure { run_id: id, report } && id == run_id
            && is_reported(controls, run_id@, failure, ended, report, after),
        (RunStartStep::StoreFailure { run_id, report }, RunStartReply::FailureStored(stored)) => {
            &&& after == (if report.orphaned {
                controls
            } else {
                controls.remove(run_id@)
            })
            &&& ends_badly(next, settled_error(report, run_id@, stored))
        },
        _ => false,
    }
}

/// The start is refused before anything was done for it.
fn refuse(error: AppError) -> (next: RunStartStep)
    ensures
        is_refused(next, error@),
{
    RunStartStep::Answered {
        result: Err(error),
        follow_up: StartFollowUp { watch_exit: false, retry_cleanup: false },
    }
}

fn end(controls: &Controls, result: Result<ManagedRunSummary, AppError>) -> (next: RunStartStep)
    requires
        controls.wf(),
    ensures
        next == (RunStartStep::Answered {
            result,
            follow_up: match result {
                Ok(run) => follow_up_of_run(controls@, run.run_id@),
                Err(error) => follow_up_of_error(error@),
            },
        }),
{
    let follow_up = follow_up_start(controls, &result);
    RunStartStep::Answered { result, follow_up }
}

fn try_again(controls: &Controls, interactive: bool, attempts_left: usize) -> (next: RunStartStep)
    requires
        controls.wf(),
    ensures
        tries_again(next, interactive, attempts_left),
{
    if attempts_left > 0 {
        RunStartStep::DrawId { interactive, attempts_left: attempts_left - 1 }
    } else {
        end(
            controls,
            Err(AppError::new(ErrorCode::Internal, "failed to allocate a unique managed run ID")),
        )
    }
}

fn store_intent(
    controls: &mut Controls,
    interactive: bool,
    attempts_left: usize,
    run_id: String,
    stored: Result<(), AppError>,
) -> (next: RunStartStep)
    requires
        old(controls).wf(),
        !old(controls)@.dom().contains(run_id@),
    ensures
        final(controls).wf(),
        next.wf(final(controls)@),
        match stored {
            Ok(_) => {
                &&& final(controls)@ == old(controls)@.insert(run_id@, RunControl::StartingIntent)
                &&& next matches RunStartStep::Launching { launch } && is_new_launch(
                    launch,
                    run_id,
                    interactive,
                )
            },
            Err(error) => final(controls)@ == old(controls)@ && if collides(error@, run_id@) {
                tries_again(next, interactive, attempts_left)
            } else {
                ends_badly(next, error@)
            },
        },
{
    match create_starting_intent(controls, run_id.as_str(), attempts_left, Some(stored)) {
        IntentStep::Created => RunStartStep::Launching {
            launch: Launch::begin(run_id, interactive),
        },
        IntentStep::Retry => try_again(controls, interactive, attempts_left),
        IntentStep::Fail(error) => end(controls, Err(error)),
    }
}

impl ManagedRunService {
    /// Moves the start of a run on by one step.
    pub fn start(
        &self,
        controls: &mut Controls,
        rules: &StartRules,
        request: &StartManagedRunRequest,
        step: RunStartStep,
        reply: RunStartReply,
    ) -> (next: RunStartStep)
        requires
            old(controls).wf(),
            step.wf(old(controls)@),
            step.asks_for(reply),
        ensures
            final(controls).wf(),
            next.wf(final(controls)@),
            start_follows(
                old(controls)@,
                *rules,
                self.log_root@,
                *request,
                step,
                reply,
                next,
                final(controls)@,
            ),
    {
        match (step, reply) {
            (RunStartStep::CheckRequest, RunStartReply::Checked(checked)) => {
                match checked {
                    Ok(_) => {},
                    Err(error) => return refuse(error),
                }
                match require_launch_platform(rules.platform, rules.context) {
                    Ok(_) => RunStartStep::WaitForGate,
                    Err(error) => refuse(error),
                }
            },
            (RunStartStep::WaitForGate, RunStartReply::Entered) => {
                match admit_launch(controls.len(), rules.maximum_runs) {
                    Ok(_) => RunStartStep::CleanUp { additional_active_reservations: 1 },
                    Err(error) => refuse(error),
                }
            },
            (
                RunStartStep::CleanUp { additional_active_reservations: _ },
                RunStartReply::CleanedUp(outcome),
            ) => match outcome {
                Ok(_) => RunStartStep::WaitForRuns,
                Err(error) => refuse(error),
            },
            (RunStartStep::WaitForRuns, RunStartReply::Entered) => {
                match admit_launch(controls.len(), rules.maximum_runs) {
                    Ok(_) => RunStartStep::LoadProfile,
                    Err(error) => refuse(error),
                }
            },
            (RunStartStep::LoadProfile, RunStartReply::Profile(loaded)) => {
                let profile = match loaded {
                    Ok(profile) => profile,
                    Err(error) => return end(controls, Err(error)),
                };
                match require_profile_revision(
                    request.profile_id.as_str(),
                    request.expected_profile_updated_at.as_str(),
                    profile.updated_at.as_str(),
                ) {
                    Ok(_) => RunStartStep::DrawId {
                        interactive: profile.interactive,
                        attempts_left: RUN_ID_ALLOCATION_ATTEMPTS - 1,
                    },
                    Err(error) => end(controls, Err(error)),
                }
            },
            (RunStartStep::DrawId { interactive, attempts_left }, RunStartReply::Id(drawn)) => {
                match drawn {
                    Ok(run_id) => if controls.contains(run_id.as_str()) {
                        try_again(controls, interactive, attempts_left)
                    } else {
                        RunStartStep::ReadClock { interactive, attempts_left, run_id }
                    },
                    Err(error) => end(controls, Err(error)),
                }
            },
            (
                RunStartStep::ReadClock { interactive, attempts_left, run_id },
                RunStartReply::Time(read),
            ) => match read {
                Ok(started_at) => {
                    let log_directory = join_path(
                        rules.platform,
                        self.log_root.as_str(),
                        run_id.as_str(),
                    );
                    RunStartStep::StoreIntent {
                        interactive,
                        attempts_left,
                        run_id,
                        log_directory,
                        started_at,
                    }
                },
                Err(error) => end(controls, Err(error)),
            },
            (
                RunStartStep::StoreIntent {
                    interactive,
                    attempts_left,
                    run_id,
                    log_directory: _,
                    started_at: _,
                },
                RunStartReply::Stored(stored),
            ) => store_intent(controls, interactive, attempts_left, run_id, stored),
            (RunStartStep::Launching { launch }, RunStartReply::Launched(event)) => {
                let run_id = launch.run_id.clone();
                match start_platform_run(controls, rules.platform, launch, event) {
                    LaunchAction::Perform(launch) => RunStartStep::Launching { launch },
                    LaunchAction::Fail(failure) => RunStartStep::EndLeftover { run_id, failure },
                    LaunchAction::Abandon(error) => end(controls, Err(error)),
                    LaunchAction::Started(run) => end(controls, Ok(run)),
                }
            },
            (RunStartStep::EndLeftover { run_id, failure }, RunStartReply::Ended(ended)) => {
                let report = record_native_failure(controls, run_id.as_str(), failure, ended);
                RunStartStep::StoreFailure { run_id, report }
            },
            (
                RunStartStep::StoreFailure { run_id, report },
                RunStartReply::FailureStored(stored),
            ) => {
                let error = record_failed_launch(controls, run_id.as_str(), report, stored);
                end(controls, Err(error))
            },
            _ => vstd::pervasive::unreached(),
        }
    }
}

/// A start as it went, with what was held before and after each step. Between
/// two steps of a start others may change what is held.
pub struct StartTrace {
    pub rules: StartRules,
    pub log_root: Seq<char>,
    pub request: StartManagedRunRequest,
    pub steps: Seq<RunStartStep>,
    pub replies: Seq<RunStartReply>,
    pub before: Seq<Map<Seq<char>, RunControl>>,
    pub after: Seq<Map<Seq<char>, RunControl>>,
}

impl StartTrace {
    /// It begins at the beginning, and each step follows from the one before.
    pub open spec fn wf(self) -> bool {
        &&& self.steps.len() == self.replies.len() + 1
        &&& self.before.len() == self.replies.len()
        &&& self.after.len() == self.replies.len()
        &&& self.steps[0] is CheckRequest
        &&& forall|i: int| 0 <= i < self.replies.len() ==> #[trigger] self.goes_at(i)
    }

    /// The step at a place is followed as it should be.
    pub open spec fn goes_at(self, i: int) -> bool {
        start_follows(
            self.before[i],
            self.rules,
            self.log_root,
            self.request,
            self.steps[i],
            self.replies[i],
            self.steps[i + 1],
            self.after[i],
        )
    }
}

/// A run is launched only after all this, in this order: the request was checked
/// and is for this platform, there was room for one more run, old logs were
/// deleted with room for one run more, there was still room, and the profile was
/// the one that was shown. An intent is stored before, and none is stored without
/// the same.
pub proof fn lemma_launch_is_admitted(trace: StartTrace, at: int)
    requires
        trace.wf(),
        0 <= at < trace.steps.len(),
        trace.steps[at] is StoreIntent || trace.steps[at] is Launching,
    ensures
        at > 5,
        trace.replies[0]->Checked_0 is Ok,
        trace.rules.context == trace.rules.platform,
        trace.steps[1] is WaitForGate,
        trace.before[1].dom().len() < trace.rules.maximum_runs,
        trace.steps[2] == (RunStartStep::CleanUp { additional_active_reservations: 1 }),
        trace.replies[2]->CleanedUp_0 is Ok,
        trace.steps[3] is WaitForRuns,
        trace.before[3].dom().len() < trace.rules.maximum_runs,
        trace.steps[4] is LoadProfile,
        trace.replies[4] matches RunStartReply::Profile(Ok(profile)) && profile.updated_at@
            == trace.request.expected_profile_updated_at@,
{
    lemma_start_begins_alike(trace, at);
    assert(trace.goes_at(0));
    assert(trace.goes_at(1));
    assert(trace.goes_at(2));
    assert(trace.goes_at(3));
    assert(trace.goes_at(4));
    assert(trace.goes_at(5));
    assert(trace.steps[5] !is Answered);
}

/// The place of a step in the order, up to the drawing of an ID.
pub open spec fn place_of(step: RunStartStep) -> int {
    match step {
        RunStartStep::CheckRequest => 0,
        RunStartStep::WaitForGate => 1,
        RunStartStep::CleanUp { .. } => 2,
        RunStartStep::WaitForRuns => 3,
        RunStartStep::LoadProfile => 4,
        _ => 5,
    }
}

proof fn lemma_one_start_step(
    controls: Map<Seq<char>, RunControl>,
    rules: StartRules,
    log_root: Seq<char>,
    request: StartManagedRunRequest,
    step: RunStartStep,
    reply: RunStartReply,
    next: RunStartStep,
    after: Map<Seq<char>, RunControl>,
)
    requires
        start_follows(controls, rules, log_root, request, step, reply, next, after),
    ensures
        place_of(step) < 5 && next !is Answered ==> place_of(next) == place_of(step) + 1,
        place_of(step) == 5 ==> place_of(next) == 5,
        step !is Answered,
        next is StoreIntent || next is Launching ==> place_of(step) == 5 && step !is DrawId,
{
}

proof fn lemma_start_begins_alike(trace: StartTrace, at: int)
    requires
        trace.wf(),
        0 <= at < trace.steps.len(),
        trace.steps[at] !is Answered,
    ensures
        forall|i: int|
            0 <= i <= at && i < 5 ==> place_of(#[trigger] trace.steps[i]) == i,
        at >= 5 ==> place_of(trace.steps[at]) == 5,
        trace.steps[at] is StoreIntent || trace.steps[at] is Launching ==> at > 5,
    decreases at,
{
    if at > 0 {
        assert(trace.goes_at(at - 1));
        lemma_one_start_step(
            trace.before[at - 1],
            trace.rules,
            trace.log_root,
            trace.request,
            trace.steps[at - 1],
            trace.replies[at - 1],
            trace.steps[at],
            trace.after[at - 1],
        );
        lemma_start_begins_alike(trace, at - 1);
    }
}

} // verus!
