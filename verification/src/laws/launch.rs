//! What launching a run is for: a launch on which every step goes well ends in
//! the process that was prepared, running and held, of whatever kind the run is;
//! and a step that goes wrong ends it, with nothing lost and nothing given away.

use vstd::prelude::*;

use crate::error::{AppError, ErrorCode};
use crate::launch::{
    admit_launch, candidate_was_not_found, event_fits, failure_reported, follow_up_start,
    intent_stored, launch_after, needs_cleanup_retry, platform_launch_plan,
    redact_credential_error, require_launch_platform, require_preview_platform,
    require_profile_revision, settled_error, stage_of_native, validate_working_directory,
    DirectoryProbe, ExecutableResolution, ExecutionPreview, IntentStep, Invocation, Launch,
    LaunchAction, LaunchEvent, LaunchFailure, LaunchFailureStage, LaunchReport, LaunchStep,
    Leftover, NativeFailure, StartFollowUp, UnknownReason,
};
use crate::run::{
    Controls, ManagedProcess, ManagedRunRecord, ManagedRunSummary, Platform, RunControl, RunState,
};

verus! {

/// An event by which a step of a launch reports that it went well.
pub open spec fn went_well(platform: Platform, event: LaunchEvent) -> bool {
    match event {
        LaunchEvent::Done => true,
        LaunchEvent::Preview(preview) => {
            &&& preview.platform == platform
            &&& preview.executable_resolution matches ExecutableResolution::Unknown {
                reason,
                candidates,
            } && reason == UnknownReason::Other && candidates@.len() > 0
        },
        LaunchEvent::Directory(probe) => probe == DirectoryProbe::Directory,
        LaunchEvent::Prepared(_) => true,
        LaunchEvent::Bound { record, .. } => record.profile_id is Some && match platform {
            Platform::Windows => record.process_group_id is None,
            Platform::MacOs => record.process_group_id is Some,
        },
        LaunchEvent::Output(taken) => taken,
        LaunchEvent::Captured(_) => true,
        _ => false,
    }
}

/// How many steps lie before a step.
pub open spec fn steps_before(step: LaunchStep) -> nat {
    match step {
        LaunchStep::Preview => 0,
        LaunchStep::WorkingDirectory => 1,
        LaunchStep::MergeEnvironment => 2,
        LaunchStep::ResolveCredentials => 3,
        LaunchStep::RedactionRules => 4,
        LaunchStep::TextPipelines => 5,
        LaunchStep::OpenCollector => 6,
        LaunchStep::StdoutPipe => 7,
        LaunchStep::StderrPipe => 8,
        LaunchStep::PrepareProcess => 9,
        LaunchStep::ControlGroup => 10,
        LaunchStep::BindIdentity => 11,
        LaunchStep::CheckResult => 12,
        LaunchStep::TerminalOutput => 13,
        LaunchStep::StartCapture => 14,
        LaunchStep::Resume => 15,
        LaunchStep::MarkRunning => 16,
    }
}

/// Whether a launch of a kind has a step: a run with a terminal has no pipes, and
/// one with pipes no terminal.
pub open spec fn has_step(interactive: bool, step: LaunchStep) -> bool {
    if interactive {
        step != LaunchStep::StdoutPipe && step != LaunchStep::StderrPipe
    } else {
        step != LaunchStep::TerminalOutput
    }
}

/// A step that went well leads to the next step that a launch of the kind has,
/// leaving none of them out; and the last one to the run that is shown, with its
/// process held as running.
pub proof fn lemma_step_that_went_well_leads_on(
    controls: Map<Seq<char>, RunControl>,
    platform: Platform,
    launch: Launch,
    event: LaunchEvent,
    action: LaunchAction,
    after: Map<Seq<char>, RunControl>,
)
    requires
        launch.wf(controls),
        event_fits(launch.step, event),
        has_step(launch.interactive, launch.step),
        went_well(platform, event),
        launch_after(controls, platform, launch, event, action, after),
    ensures
        launch.step != LaunchStep::MarkRunning ==> (action matches LaunchAction::Perform(next) && {
            &&& next.run_id == launch.run_id
            &&& next.interactive == launch.interactive
            &&& steps_before(next.step) > steps_before(launch.step)
            &&& has_step(next.interactive, next.step)
            &&& forall|left_out: LaunchStep|
                #![trigger has_step(launch.interactive, left_out)]
                steps_before(launch.step) < steps_before(left_out) < steps_before(next.step)
                    ==> !has_step(launch.interactive, left_out)
        }),
        launch.step == LaunchStep::MarkRunning ==> {
            &&& action == LaunchAction::Started(launch.result->0)
            &&& after[launch.run_id@] == RunControl::Running(
                controls[launch.run_id@]->RunningUncommitted_0,
            )
        },
{
}

/// The process that a launch has made, wherever it stands.
pub open spec fn made_process(controls: Map<Seq<char>, RunControl>, launch: Launch) -> Option<
    ManagedProcess,
> {
    match launch.process {
        Some(process) => Some(process),
        None => match controls[launch.run_id@] {
            RunControl::Suspended(process) => Some(process),
            RunControl::RunningUncommitted(process) => Some(process),
            _ => None,
        },
    }
}

/// The same process, but for the reader of its log.
pub open spec fn is_same_process(first: ManagedProcess, second: ManagedProcess) -> bool {
    second == (ManagedProcess { log_reader: second.log_reader, ..first })
}

/// A launch makes its process once and keeps it: the process that a step makes is
/// the one that was prepared, a later step has the one of the step before, and only
/// the capture of its log adds the reader. While it is not resumed it is never held
/// as running, and it is resumed only after its output is captured.
pub proof fn lemma_launch_keeps_its_process(
    controls: Map<Seq<char>, RunControl>,
    platform: Platform,
    launch: Launch,
    event: LaunchEvent,
    next: Launch,
    after: Map<Seq<char>, RunControl>,
)
    requires
        launch.wf(controls),
        event_fits(launch.step, event),
        launch_after(controls, platform, launch, event, LaunchAction::Perform(next), after),
        next.wf(after),
    ensures
        match event {
            LaunchEvent::Prepared(process) => made_process(after, next) == Some(process),
            LaunchEvent::Captured(reader) => {
                &&& made_process(controls, launch) is Some
                &&& made_process(after, next) is Some
                &&& is_same_process(
                    made_process(controls, launch)->0,
                    made_process(after, next)->0,
                )
                &&& made_process(after, next)->0.log_reader == Some(reader)
            },
            _ => made_process(after, next) == made_process(controls, launch),
        },
        after[launch.run_id@] is RunningUncommitted && !(controls[launch.run_id@]
            is RunningUncommitted) ==> launch.step == LaunchStep::Resume && event is Done,
        next.step == LaunchStep::Resume && launch.step != LaunchStep::Resume ==> event is Captured,
        next.step == LaunchStep::StartCapture && launch.step == LaunchStep::TerminalOutput ==> event
            == LaunchEvent::Output(true),
        next.step == LaunchStep::StartCapture && launch.interactive ==> launch.step
            == LaunchStep::TerminalOutput,
        !(after[launch.run_id@] is Running),
{
}

/// A launch as it went on, and how it ended.
pub struct LaunchTrace {
    pub platform: Platform,
    pub launches: Seq<Launch>,
    pub events: Seq<LaunchEvent>,
    pub controls: Seq<Map<Seq<char>, RunControl>>,
    pub end: LaunchAction,
}

impl LaunchTrace {
    /// It begins with the preview of a run whose intent is held, each step follows
    /// from the one before, and the last one ends it.
    pub open spec fn wf(self) -> bool {
        &&& self.launches.len() == self.events.len()
        &&& self.controls.len() == self.events.len() + 1
        &&& self.launches.len() > 0
        &&& self.launches[0].step == LaunchStep::Preview
        &&& self.end !is Perform
        &&& forall|i: int| 0 <= i < self.launches.len() ==> #[trigger] self.goes_at(i)
    }

    pub open spec fn action_at(self, i: int) -> LaunchAction {
        if i + 1 < self.launches.len() {
            LaunchAction::Perform(self.launches[i + 1])
        } else {
            self.end
        }
    }

    pub open spec fn goes_at(self, i: int) -> bool {
        &&& self.launches[i].wf(self.controls[i])
        &&& event_fits(self.launches[i].step, self.events[i])
        &&& launch_after(
            self.controls[i],
            self.platform,
            self.launches[i],
            self.events[i],
            self.action_at(i),
            self.controls[i + 1],
        )
    }
}

proof fn lemma_launch_stays_on_its_way(trace: LaunchTrace, at: int)
    requires
        trace.wf(),
        0 <= at < trace.launches.len(),
        forall|i: int|
            0 <= i < trace.events.len() ==> went_well(trace.platform, #[trigger] trace.events[i]),
    ensures
        trace.launches[at].run_id == trace.launches[0].run_id,
        trace.launches[at].interactive == trace.launches[0].interactive,
        has_step(trace.launches[at].interactive, trace.launches[at].step),
        steps_before(trace.launches[at].step) >= at,
    decreases at,
{
    if at > 0 {
        lemma_launch_stays_on_its_way(trace, at - 1);
        assert(trace.goes_at(at - 1));
        assert(went_well(trace.platform, trace.events[at - 1]));
        lemma_step_that_went_well_leads_on(
            trace.controls[at - 1],
            trace.platform,
            trace.launches[at - 1],
            trace.events[at - 1],
            trace.action_at(at - 1),
            trace.controls[at],
        );
    }
}

/// A launch of either kind on which every step goes well never fails: it ends, after
/// at most as many steps as there are, with the run shown as started and its process
/// held as running.
pub proof fn lemma_launch_that_goes_well_starts(trace: LaunchTrace)
    requires
        trace.wf(),
        forall|i: int|
            0 <= i < trace.events.len() ==> went_well(trace.platform, #[trigger] trace.events[i]),
    ensures
        trace.end is Started,
        trace.launches.len() <= 17,
        trace.launches.last().step == LaunchStep::MarkRunning,
        trace.controls.last()[trace.launches[0].run_id@] is Running,
{
    let last = trace.launches.len() - 1;
    lemma_launch_stays_on_its_way(trace, last);
    assert(trace.goes_at(last));
    assert(went_well(trace.platform, trace.events[last]));
    lemma_step_that_went_well_leads_on(
        trace.controls[last],
        trace.platform,
        trace.launches[last],
        trace.events[last],
        trace.end,
        trace.controls[last + 1],
    );
}

/// The stage as which the failure of a step is recorded.
pub open spec fn recorded_as(stage: LaunchFailureStage, step: LaunchStep) -> bool {
    match stage {
        LaunchFailureStage::ExecutableResolution => step == LaunchStep::Preview || step
            == LaunchStep::PrepareProcess,
        LaunchFailureStage::ProcessCreation => step == LaunchStep::WorkingDirectory,
        LaunchFailureStage::CredentialResolution => step == LaunchStep::MergeEnvironment || step
            == LaunchStep::ResolveCredentials,
        LaunchFailureStage::LogPreparation => 4 <= steps_before(step) <= 8 || 13 <= steps_before(
            step,
        ) <= 14,
        LaunchFailureStage::IdentityRead => step == LaunchStep::ControlGroup,
        LaunchFailureStage::IdentityPersistence => step == LaunchStep::BindIdentity,
        LaunchFailureStage::RunningPersistence => step == LaunchStep::CheckResult || step
            == LaunchStep::MarkRunning,
        LaunchFailureStage::ProcessResume => step == LaunchStep::Resume,
        _ => false,
    }
}

/// Why a launch may go on behind an event that does not say that its step went
/// well: an executable was missing and another one is left, or the store shows the
/// run as running with its own process though it did not say so.
pub open spec fn may_go_on(
    controls: Map<Seq<char>, RunControl>,
    launch: Launch,
    event: LaunchEvent,
) -> bool {
    match event {
        LaunchEvent::Native(failure) => launch.step == LaunchStep::PrepareProcess
            && candidate_was_not_found(failure) && launch.next_candidate + 1
            < launch.candidates@.len(),
        LaunchEvent::Unconfirmed { shown, .. } => shown matches Some((state, key)) && state
            == RunState::Running && key is Some && key->0@
            == controls[launch.run_id@]->RunningUncommitted_0.instance_key@,
        _ => false,
    }
}

/// A step that did not go well ends the launch, with the process that was made
/// handed over to be ended, suspended or running as it is, and the run held as an
/// intent: it is never held as running and never shown as started. The failure is
/// recorded as that of its step, with the error that was reported. The one
/// exception leaves a process suspended and held: no time could be given to a
/// change.
pub proof fn lemma_step_that_went_wrong_ends_the_launch(
    controls: Map<Seq<char>, RunControl>,
    platform: Platform,
    launch: Launch,
    event: LaunchEvent,
    action: LaunchAction,
    after: Map<Seq<char>, RunControl>,
)
    requires
        launch.wf(controls),
        event_fits(launch.step, event),
        !went_well(platform, event),
        launch_after(controls, platform, launch, event, action, after),
    ensures
        may_go_on(controls, launch, event) ==> match event {
            LaunchEvent::Native(_) => action == LaunchAction::Perform(
                (Launch { next_candidate: (launch.next_candidate + 1) as usize, ..launch }),
            ),
            _ => action == LaunchAction::Started(launch.result->0) && after[launch.run_id@]
                == RunControl::Running(controls[launch.run_id@]->RunningUncommitted_0),
        },
        event is NoTimestamp ==> action == LaunchAction::Abandon(event->NoTimestamp_0) && after
            == controls,
        !may_go_on(controls, launch, event) && !(event is NoTimestamp) ==> (action
            matches LaunchAction::Fail(failure) && {
            &&& after[launch.run_id@] is StartingIntent
            &&& match made_process(controls, launch) {
                None => !(failure.leftover is Suspended) && !(failure.leftover is Running),
                Some(process) => if launch.step == LaunchStep::MarkRunning {
                    failure.leftover == Leftover::Running(process)
                } else if launch.step == LaunchStep::Resume {
                    failure.leftover == Leftover::Native(event->Native_0)
                } else {
                    failure.leftover == Leftover::Suspended(process)
                },
            }
            &&& event is Native && !candidate_was_not_found(event->Native_0) ==> failure.leftover
                == Leftover::Native(event->Native_0) && failure.error is None
            &&& !(event is Native) && !(event is Bound) ==> recorded_as(
                failure.stage,
                launch.step,
            )
            &&& event is Bound ==> failure.stage == LaunchFailureStage::RunningPersistence
            &&& launch.step == LaunchStep::Resume ==> failure.stage
                == LaunchFailureStage::ProcessResume
            &&& event matches LaunchEvent::Failed(error) ==> failure.error is Some && (if launch.step
                == LaunchStep::ResolveCredentials {
                failure.error->0@.code == error@.code
            } else {
                failure.error->0@ == error@
            })
            &&& event matches LaunchEvent::Unconfirmed { error, .. } ==> failure.error is Some
                && failure.error->0@ == error@
        }),
{
}

/// The executables of a run are tried one after the other, each once, and only
/// where one was not there: a missing one is followed by the next, and behind the
/// last one the launch fails because none was found. Any other failure ends the
/// launch at once, though another one may be left.
pub proof fn lemma_executables_are_tried_in_turn(
    controls: Map<Seq<char>, RunControl>,
    platform: Platform,
    launch: Launch,
    failure: NativeFailure,
    action: LaunchAction,
    after: Map<Seq<char>, RunControl>,
)
    requires
        launch.wf(controls),
        launch.step == LaunchStep::PrepareProcess,
        launch_after(controls, platform, launch, LaunchEvent::Native(failure), action, after),
    ensures
        ({
            let error = failure.public_error@;
            let stage = error.details["stage"@];
            let missing = !failure.cleanup_pending && error.code == ErrorCode::NotFound
                && error.details.dom().contains("stage"@) && (stage == "OpenRequestedExecutable"@
                || stage == "CreateProcessW"@ || stage == "posix_spawn"@);
            &&& action is Perform <==> missing && launch.next_candidate + 1
                < launch.candidates@.len()
            &&& action matches LaunchAction::Perform(next) ==> next.next_candidate == (
            launch.next_candidate + 1) as usize && next.candidates == launch.candidates && next.step
                == launch.step
            &&& missing && action is Fail ==> {
                &&& action->Fail_0.stage == LaunchFailureStage::ExecutableResolution
                &&& action->Fail_0.leftover is Nothing
                &&& action->Fail_0.error is Some
                &&& action->Fail_0.error->0@.code == ErrorCode::NotFound
            }
            &&& !missing ==> action is Fail && action->Fail_0.leftover == Leftover::Native(failure)
        }),
{
}

/// What a launch will try and with which arguments is what the preview says, and
/// a preview is refused exactly where it is for another platform, hides where to
/// look behind a secret, or names nothing that could be run.
pub proof fn lemma_preview_is_launched_as_it_was_shown(
    platform: Platform,
    preview: ExecutionPreview,
    result: Result<(Vec<String>, Vec<String>), AppError>,
)
    requires
        call_ensures(platform_launch_plan, (platform, preview), result),
    ensures
        result is Ok <==> went_well(platform, LaunchEvent::Preview(preview)),
        result matches Ok((argv, candidates)) ==> {
            &&& preview.executable_resolution matches ExecutableResolution::Unknown {
                candidates: shown,
                ..
            } && candidates == shown
            &&& match preview.invocation {
                Invocation::Direct { argv: shown } => argv == shown,
                Invocation::Shell { argv: shown } => argv == shown,
            }
        },
        result matches Err(error) ==> error@.code == ErrorCode::NotSupported || error@.code
            == ErrorCode::NotFound,
        result matches Err(error) ==> (error@.code == ErrorCode::NotFound <==> preview.platform
            == platform && (preview.executable_resolution is NotFound || (
        preview.executable_resolution is Unknown && preview.executable_resolution->reason
            == UnknownReason::Other))),
{
}

/// A working directory is taken exactly where it is one; what is said otherwise
/// tells apart that it is something else, is missing, is closed, or cannot be read.
pub proof fn lemma_only_a_directory_is_worked_in(
    probe: DirectoryProbe,
    result: Result<(), AppError>,
)
    requires
        call_ensures(validate_working_directory, (probe,), result),
    ensures
        result is Ok <==> probe == DirectoryProbe::Directory,
        result matches Err(error) ==> {
            &&& error@.code == ErrorCode::NotFound <==> probe == DirectoryProbe::Missing
            &&& error@.code == ErrorCode::AccessDenied <==> probe == DirectoryProbe::Denied
            &&& error@.code == ErrorCode::InvalidArgument <==> probe == DirectoryProbe::OtherFile
            &&& error@.code == ErrorCode::PlatformError <==> probe == DirectoryProbe::Unreadable
        },
{
}

/// What is said of a credential that could not be read does not depend on what the
/// store said, but for the kind of the failure and whether it passes.
pub proof fn lemma_credential_error_gives_nothing_away(
    first: AppError,
    second: AppError,
    first_shown: AppError,
    second_shown: AppError,
)
    requires
        call_ensures(redact_credential_error, (first,), first_shown),
        call_ensures(redact_credential_error, (second,), second_shown),
        first@.code == second@.code,
        first@.retryable == second@.retryable,
    ensures
        first_shown@ == second_shown@,
        first_shown@.code == first@.code,
        first_shown@.retryable == first@.retryable,
        first_shown@.details.dom() =~= Set::<Seq<char>>::empty(),
        first_shown@.operation_id is None,
{
}

/// A run that is bound is shown with its own ID, profile, identity, group and times,
/// as running and not ended.
pub proof fn lemma_started_run_is_shown_as_it_is(
    controls: Map<Seq<char>, RunControl>,
    platform: Platform,
    launch: Launch,
    record: ManagedRunRecord,
    running_updated_at: String,
    next: Launch,
    after: Map<Seq<char>, RunControl>,
)
    requires
        launch.step == LaunchStep::BindIdentity,
        launch_after(
            controls,
            platform,
            launch,
            LaunchEvent::Bound { record, running_updated_at },
            LaunchAction::Perform(next),
            after,
        ),
    ensures
        next.result is Some,
        ({
            let shown = next.result->0;
            &&& shown.run_id@ == record.id@
            &&& record.profile_id is Some && shown.profile_id@ == record.profile_id->0@
            &&& shown.profile_updated_at@ == record.profile_snapshot.updated_at@
            &&& shown.state == RunState::Running
            &&& shown.process_instance_key is Some <==> record.process_instance_key is Some
            &&& shown.process_instance_key is Some ==> shown.process_instance_key->0@
                == record.process_instance_key->0@
            &&& shown.process_group_id == record.process_group_id
            &&& shown.started_at@ == record.started_at@
            &&& shown.updated_at@ == running_updated_at@
            &&& shown.ended_at is None
        }),
{
}

/// A run is launched only by the profile in the version that was shown.
pub proof fn lemma_profile_is_the_one_that_was_shown(
    profile_id: &str,
    expected: &str,
    actual: &str,
    result: Result<(), AppError>,
)
    requires
        call_ensures(require_profile_revision, (profile_id, expected, actual), result),
    ensures
        result is Ok <==> expected@ == actual@,
        result matches Err(error) ==> error@.code == ErrorCode::Conflict && !error@.retryable,
{
}

/// What the answer to a failed launch says: the run, and how it stands in the store:
/// as failed, as orphaned where its process could not be ended, or that it could
/// not be stored. The kind and the words of the failure stay.
pub proof fn lemma_failed_launch_names_its_run(
    report: LaunchReport,
    run_id: Seq<char>,
    stored: bool,
)
    ensures
        ({
            let shown = settled_error(report, run_id, stored);
            &&& shown.code == report.error@.code
            &&& shown.message == report.error@.message
            &&& shown.retryable == report.error@.retryable
            &&& shown.details["runId"@] == run_id
            &&& shown.details.dom().contains("runId"@)
            &&& stored && report.orphaned ==> shown.details["runState"@] == "orphaned"@
            &&& stored && !report.orphaned ==> shown.details["runState"@] == "failed"@
            &&& stored ==> shown.details.dom().contains("runState"@)
            &&& !stored ==> shown.details.dom().contains("runStatePersistence"@)
                && shown.details["runStatePersistence"@] == "failed"@
            &&& forall|name: Seq<char>|
                name != "runId"@ && name != "runState"@ && name != "runStatePersistence"@
                    && report.error@.details.dom().contains(name)
                    ==> #[trigger] shown.details[name] == report.error@.details[name]
        }),
{
    reveal_strlit("runId");
    reveal_strlit("runState");
    reveal_strlit("runStatePersistence");
    assert("runId"@.len() == 5 && "runState"@.len() == 8);
    assert("runStatePersistence"@.len() == 19);
}

/// The part of a launch that a failed native call belongs to, for every call that
/// is known: its name is on the list of the part and on no other, and a call on no
/// list is taken for one that reads the identity.
pub proof fn lemma_native_calls_belong_to_one_part(name: Seq<char>)
    ensures
        stage_of_native(None) == LaunchFailureStage::IdentityRead,
        stage_of_native(Some("CreateJobObjectW"@)) == LaunchFailureStage::JobCreation,
        stage_of_native(Some("SetInformationJobObject"@)) == LaunchFailureStage::JobConfiguration,
        ({
            let stage = stage_of_native(Some(name));
            let job = name == "CreateJobObjectW"@ || name == "SetInformationJobObject"@;
            let executable = name == "OpenRequestedExecutable"@ || name
                == "GetRequestedExecutableFileId"@;
            let ending = name == "TerminateJobObject"@ || name == "TerminateProcess"@ || name
                == "WaitForSingleObject"@ || name == "kill(SIGKILL)"@ || name
                == "killpg(SIGKILL)"@ || name == "killpg(0)"@ || name == "waitpid"@;
            &&& stage == LaunchFailureStage::JobCreation ==> name == "CreateJobObjectW"@
            &&& stage == LaunchFailureStage::JobConfiguration ==> name
                == "SetInformationJobObject"@
            &&& stage == LaunchFailureStage::ExecutableResolution ==> executable
            &&& stage == LaunchFailureStage::JobAssignment ==> name == "AssignProcessToJobObject"@
            &&& stage == LaunchFailureStage::ProcessResume ==> name == "ResumeThread"@ || name
                == "SIGCONT"@
            &&& stage == LaunchFailureStage::Cleanup ==> ending
            &&& executable ==> stage == LaunchFailureStage::ExecutableResolution || job
            &&& stage == LaunchFailureStage::IdentityRead ==> !job && !executable && !ending && name
                != "AssignProcessToJobObject"@ && name != "ResumeThread"@ && name != "SIGCONT"@
                && name != "CreateProcessW"@ && name != "posix_spawn"@ && name != "openpty"@
            &&& stage != LaunchFailureStage::IdentityPersistence
            &&& stage != LaunchFailureStage::RunningPersistence
            &&& stage != LaunchFailureStage::CredentialResolution
        }),
{
    reveal_strlit("CreateJobObjectW");
    reveal_strlit("SetInformationJobObject");
    assert("CreateJobObjectW"@.len() == 16);
    assert("SetInformationJobObject"@.len() == 23);
}

/// A run is held as an intent exactly where the store took it; an identifier that is held
/// or stored already is drawn anew while there are attempts left, and every other answer of
/// the store ends the start. Nothing is held where the store did not take the run.
pub proof fn lemma_intent_is_held_where_it_is_stored(
    before: Map<Seq<char>, RunControl>,
    run_id: Seq<char>,
    attempts_left: usize,
    reply: Option<Result<(), AppError>>,
    step: IntentStep,
    after: Map<Seq<char>, RunControl>,
)
    requires
        intent_stored(before, run_id, attempts_left, reply, step, after),
    ensures
        step is Created <==> reply is Some && reply->0 is Ok,
        step is Created ==> after.dom().contains(run_id) && after[run_id] is StartingIntent,
        step !is Created ==> after == before,
        reply is None ==> (step is Retry <==> attempts_left > 0),
        reply matches Some(Err(error)) ==> {
            let collision = error.code == ErrorCode::Conflict && error@.details.dom().contains(
                "runId"@,
            ) && error@.details["runId"@] == run_id;
            &&& step is Retry <==> collision && attempts_left > 0
            &&& !collision ==> step == IntentStep::Fail(error)
        },
{
    if let Some(Err(error)) = reply {
        assert(error@.code == error.code);
    }
}

/// A launch that failed is told with its own error, or with that of the system where it has
/// none. What could not be ended is held to be cleaned up, told to be pending and stored as
/// orphaned; else nothing is held anew.
pub proof fn lemma_what_could_not_be_ended_is_held(
    before: Map<Seq<char>, RunControl>,
    run_id: Seq<char>,
    failure: LaunchFailure,
    ended: Option<NativeFailure>,
    report: LaunchReport,
    after: Map<Seq<char>, RunControl>,
)
    requires
        failure_reported(before, run_id, failure, ended, report, after),
        failure.error is Some || failure.leftover is Native || ended is Some,
    ensures
        ({
            let native = if failure.leftover is Nothing {
                None
            } else if failure.leftover is Native {
                Some(failure.leftover->Native_0)
            } else {
                ended
            };
            &&& report.orphaned <==> native is Some && native->0.cleanup_pending
            &&& report.orphaned ==> after.dom().contains(run_id) && after[run_id]
                == RunControl::CleanupPending(native->0.pending) && report.stage
                == LaunchFailureStage::Cleanup && report.error@.details.dom().contains(
                "cleanupPending"@,
            ) && report.error@.details["cleanupPending"@] == "true"@
            &&& !report.orphaned ==> after == before && report.stage == failure.stage
            &&& failure.error is Some ==> report.error.code == failure.error->0.code
                && report.error.retryable == failure.error->0.retryable
            &&& failure.error is None && native is Some ==> report.error.code
                == native->0.public_error.code
            &&& forall|other: Seq<char>|
                other != run_id && before.dom().contains(other) ==> #[trigger] after[other]
                    == before[other]
        }),
{
    assert(report.error@.code == report.error.code);
    assert(report.error@.retryable == report.error.retryable);
    if let Some(error) = failure.error {
        assert(error@.code == error.code && error@.retryable == error.retryable);
    }
    if let Leftover::Native(native) = failure.leftover {
        assert(native.public_error@.code == native.public_error.code);
    }
    if let Some(native) = ended {
        assert(native.public_error@.code == native.public_error.code);
    }
}

/// Behind a start its exit is watched exactly where it runs in a terminal, and cleaning up is
/// tried again exactly where the start failed and left something.
pub proof fn lemma_start_is_followed_up(
    controls: Controls,
    result: Result<ManagedRunSummary, AppError>,
    follow_up: StartFollowUp,
    retry: bool,
)
    requires
        controls.wf(),
        call_ensures(follow_up_start, (&controls, &result), follow_up),
        result is Err ==> call_ensures(needs_cleanup_retry, (&result->Err_0,), retry),
    ensures
        follow_up.watch_exit <==> result is Ok && controls@.dom().contains(result->Ok_0.run_id@)
            && controls@[result->Ok_0.run_id@] is Running
            && controls@[result->Ok_0.run_id@]->Running_0.terminal,
        follow_up.retry_cleanup <==> result is Err && retry,
        result matches Err(error) ==> (retry <==> error@.details.dom().contains("cleanupPending"@)
            && error@.details["cleanupPending"@] == "true"@),
{
}

/// A launch is admitted exactly where fewer runs are held than may be and the context is
/// that of the platform; a lack of room is worth another try.
pub proof fn lemma_launch_is_admitted_where_there_is_room(
    held: usize,
    maximum: usize,
    admitted: Result<(), AppError>,
    platform: Platform,
    context: Platform,
    launched: Result<(), AppError>,
    previewed: Result<(), AppError>,
)
    requires
        call_ensures(admit_launch, (held, maximum), admitted),
        call_ensures(require_launch_platform, (platform, context), launched),
        call_ensures(require_preview_platform, (context, platform), previewed),
    ensures
        admitted is Ok <==> held < maximum,
        admitted matches Err(error) ==> error.code == ErrorCode::Conflict && error.retryable,
        launched is Ok <==> platform == context,
        previewed is Ok <==> platform == context,
        launched matches Err(error) ==> error.code == ErrorCode::NotSupported && !error.retryable,
        previewed matches Err(error) ==> error.code == ErrorCode::NotSupported,
{
    if let Err(error) = admitted {
        assert(error@.code == error.code && error@.retryable == error.retryable);
    }
    if let Err(error) = launched {
        assert(error@.code == error.code && error@.retryable == error.retryable);
    }
    if let Err(error) = previewed {
        assert(error@.code == error.code);
    }
}

} // verus!
