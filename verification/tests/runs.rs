use supervisor::details::{
    live_run, managed_run_id, resolve_process_details, DetailsReplies, ProcessControl,
};
use supervisor::error::{AppError, ErrorCode};
use supervisor::launch::{
    admit_launch, create_starting_intent, executable_candidate_was_not_found, follow_up_start,
    native_failure_stage, needs_cleanup_retry, platform_launch_plan, record_failed_launch, record_native_failure,
    redact_credential_error, require_preview_platform, require_profile_revision,
    start_platform_run, validate_working_directory, DirectoryProbe, ExecutableResolution,
    ExecutionPreview, IntentStep, Invocation, Launch, LaunchAction, LaunchEvent, LaunchFailure,
    LaunchFailureStage, LaunchStep, Leftover, NativeFailure, StartFollowUp, UnknownReason,
};
use supervisor::recovery::{
    after_terminal_exit, materialize_recovered_control, monitor_terminal_exit,
    recovered_control_plan, recovery_evidence_is_probeable, reconcile_run, retry_pending_controls,
    reconcile_startup_managed_runs, wants_cleanup_retry, MonitorStep, RecoveredPlan,
    RecoveryCandidate, RecoveryOutcome, RecoveryProbe, StartupAction, StartupEvent, StartupPass,
    StartupStep,
};
use supervisor::run::{
    cleanup_pending_count, control_instance_key, managed_instance_key,
    persisted_platform_control_is_valid, projected_managed_run_summary, running_count, Controls,
    ManagedProcess, ManagedRunRecord, ManagedRunSummary, PendingCleanup, Platform,
    ProcessInstanceKey, ProfileSnapshot, RunControl, RunState, SignalDisposition, StopKind,
    StopOperation, StopOutcome, StopPhase, StopStatus, StoppingProcess,
};
use supervisor::stop::{
    advance_stop_worker, after_begin, begin_supervisor_stop, control_phase_from_result,
    identity_validation_outcome, next_stop_action, reject_unsafe_force_supersession, BegunStop,
    StopAction, StopCommand, StopDecision, StopEvent, StopStep, StoreReply, StoredStop, TakenOver,
};
use supervisor::table::Table;

const T0: &str = "2024-01-01T00:00:00.000000000Z";
const T1: &str = "2024-01-01T00:00:01.000000000Z";

fn key(pid: u32) -> ProcessInstanceKey {
    ProcessInstanceKey { boot_id: "boot".to_string(), pid, native_start_time: 5 }
}

fn process(pid: u32) -> ManagedProcess {
    ManagedProcess {
        handle: 1,
        instance_key: key(pid),
        process_group_id: pid,
        terminal: false,
        log_reader: None,
    }
}

fn record(pid: u32, state: RunState) -> ManagedRunRecord {
    ManagedRunRecord {
        id: "run-1".to_string(),
        profile_id: Some("p".to_string()),
        profile_snapshot: ProfileSnapshot {
            id: "p".to_string(),
            updated_at: T0.to_string(),
            stop_timeout_ms: 2_000,
        },
        state,
        process_instance_key: Some(key(pid)),
        process_group_id: Some(pid),
        stop_method: None,
        exit_code: None,
        exit_signal: None,
        started_at: T0.to_string(),
        updated_at: T1.to_string(),
        ended_at: None,
        log_directory: "/logs/run-1".to_string(),
        log_redaction_version: 1,
        logs_deletion_started_at: None,
        logs_deleted_at: None,
    }
}

fn summary(pid: u32) -> ManagedRunSummary {
    ManagedRunSummary {
        run_id: "run-1".to_string(),
        profile_id: "p".to_string(),
        profile_updated_at: T0.to_string(),
        state: RunState::Running,
        process_instance_key: Some(key(pid)),
        process_group_id: Some(pid),
        started_at: T0.to_string(),
        updated_at: T1.to_string(),
        ended_at: None,
    }
}

fn operation(pid: u32, status: StopStatus) -> StopOperation {
    StopOperation {
        operation_id: "op".to_string(),
        kind: StopKind::Graceful,
        status,
        signal_disposition: None,
        outcome: None,
        run: summary(pid),
        updated_at: T1.to_string(),
        completed_at: None,
    }
}

fn running(pid: u32) -> Controls {
    let mut controls: Controls = Table::new();
    controls.insert("run-1", RunControl::Running(process(pid)));
    controls
}

fn graceful() -> StopCommand {
    StopCommand::Graceful { run_id: "run-1".to_string() }
}

fn begun(pid: u32) -> Controls {
    let mut controls = running(pid);
    let decision = StopDecision {
        result: operation(pid, StopStatus::Requested),
        superseded_operation_id: None,
    };
    let taken = begin_supervisor_stop(
        &mut controls,
        Platform::MacOs,
        "op",
        &graceful(),
        &decision,
        &record(pid, RunState::Running),
        1_000,
    );
    assert!(matches!(taken, Ok(TakenOver::Stopping)));
    controls
}

fn phase(controls: &Controls) -> StopPhase {
    match controls.get("run-1") {
        Some(RunControl::Stopping(stop)) => stop.phase,
        other => panic!("{other:?}"),
    }
}

#[test]
fn held_processes_are_counted() {
    let mut controls = running(7);
    let pending = PendingCleanup { handle: 2, process_instance_key: None };
    controls.insert("run-2", RunControl::CleanupPending(pending));
    controls.insert("run-3", RunControl::StartingIntent);
    assert_eq!(running_count(&controls), 1);
    assert_eq!(cleanup_pending_count(&controls), 1);
    assert_eq!(managed_instance_key(&controls, "run-1").unwrap().pid, 7);
    assert!(managed_instance_key(&controls, "run-3").is_none());
    assert_eq!(control_instance_key(controls.get("run-1").unwrap()).unwrap().pid, 7);
    let left = retry_pending_controls(&mut controls, &vec!["run-2".to_string()]);
    assert_eq!(left, 0);
    assert!(!controls.contains("run-2"));
}

#[test]
fn a_group_is_stored_on_macos_only() {
    assert!(persisted_platform_control_is_valid(Platform::MacOs, &key(7), Some(7)));
    assert!(!persisted_platform_control_is_valid(Platform::MacOs, &key(7), None));
    assert!(persisted_platform_control_is_valid(Platform::Windows, &key(7), None));
    assert!(!persisted_platform_control_is_valid(Platform::Windows, &key(7), Some(7)));
    let shown =
        projected_managed_run_summary(Platform::MacOs, &record(7, RunState::Running)).unwrap();
    assert_eq!(shown.process_group_id, Some(7));
    assert!(
        projected_managed_run_summary(Platform::Windows, &record(7, RunState::Running)).is_err()
    );
}

#[test]
fn a_graceful_stop_goes_through_its_phases() {
    let mut controls = begun(7);
    assert_eq!(
        next_stop_action(&controls, "run-1", "op"),
        StopAction::MarkSignalPending
    );
    let stored = || StopEvent::Stored(StoreReply::Stored);
    assert_eq!(
        advance_stop_worker(&mut controls, "run-1", "op", stored(), 1_000),
        StopStep::Continue(0)
    );
    assert_eq!(
        next_stop_action(&controls, "run-1", "op"),
        StopAction::SendSignal(StopKind::Graceful)
    );
    let delivered = StopEvent::Signal(Ok(SignalDisposition::Delivered));
    advance_stop_worker(&mut controls, "run-1", "op", delivered, 1_100);
    assert_eq!(
        next_stop_action(&controls, "run-1", "op"),
        StopAction::MarkSignalAttempted(SignalDisposition::Delivered)
    );
    advance_stop_worker(&mut controls, "run-1", "op", stored(), 1_200);
    assert_eq!(phase(&controls), StopPhase::Monitoring);
    let step = advance_stop_worker(&mut controls, "run-1", "op", StopEvent::Polled(Ok(false)), 1_300);
    assert_eq!(step, StopStep::Continue(100));
    advance_stop_worker(&mut controls, "run-1", "op", StopEvent::Polled(Ok(true)), 1_400);
    assert_eq!(phase(&controls), StopPhase::CompletionPending(StopOutcome::Exited));
    let step = advance_stop_worker(&mut controls, "run-1", "op", stored(), 1_500);
    assert_eq!(step, StopStep::Finished);
    assert!(!controls.contains("run-1"));
}

#[test]
fn a_refused_write_counts_where_the_store_shows_it() {
    let mut controls = begun(7);
    let unread = StopEvent::Stored(StoreReply::Failed(None));
    let step = advance_stop_worker(&mut controls, "run-1", "op", unread, 1_000);
    assert_eq!(step, StopStep::Continue(250));
    assert_eq!(phase(&controls), StopPhase::Requested);
    let shown = StoredStop {
        status: StopStatus::SignalPending,
        signal_disposition: None,
        outcome: None,
    };
    let shown = StopEvent::Stored(StoreReply::Failed(Some(shown)));
    advance_stop_worker(&mut controls, "run-1", "op", shown, 1_000);
    assert_eq!(phase(&controls), StopPhase::SignalPending);
}

#[test]
fn another_process_gets_no_signal() {
    let mut controls = running(8);
    let decision = StopDecision {
        result: operation(7, StopStatus::Requested),
        superseded_operation_id: None,
    };
    begin_supervisor_stop(
        &mut controls,
        Platform::MacOs,
        "op",
        &graceful(),
        &decision,
        &record(7, RunState::Running),
        0,
    )
    .unwrap();
    assert_eq!(
        next_stop_action(&controls, "run-1", "op"),
        StopAction::Complete(StopOutcome::IdentityMismatch)
    );
}

#[test]
fn a_run_without_a_process_ends_as_orphaned() {
    let mut controls: Controls = Table::new();
    let decision = StopDecision {
        result: operation(7, StopStatus::Requested),
        superseded_operation_id: None,
    };
    let taken = begin_supervisor_stop(
        &mut controls,
        Platform::MacOs,
        "op",
        &graceful(),
        &decision,
        &record(7, RunState::Running),
        0,
    );
    assert!(matches!(taken, Ok(TakenOver::CompleteOrphaned)));
}

#[test]
fn a_stop_that_is_driven_is_not_taken_over_again() {
    let mut controls = begun(7);
    assert_eq!(
        after_begin(&mut controls, "run-1", "op", StopStatus::Requested),
        BegunStop::Reply
    );
    assert_eq!(
        after_begin(&mut controls, "run-1", "other", StopStatus::Requested),
        BegunStop::TakeOver
    );
    assert_eq!(
        after_begin(&mut controls, "run-1", "op", StopStatus::Completed),
        BegunStop::Reply
    );
    assert_eq!(next_stop_action(&controls, "run-1", "other"), StopAction::Leave);
}

#[test]
fn a_stop_that_takes_too_long_is_timed_out() {
    let mut controls = begun(7);
    let stored = || StopEvent::Stored(StoreReply::Stored);
    advance_stop_worker(&mut controls, "run-1", "op", stored(), 1_000);
    let delivered = StopEvent::Signal(Ok(SignalDisposition::Delivered));
    advance_stop_worker(&mut controls, "run-1", "op", delivered, 1_000);
    advance_stop_worker(&mut controls, "run-1", "op", stored(), 1_000);
    let late = StopEvent::Polled(Ok(false));
    let step = advance_stop_worker(&mut controls, "run-1", "op", late, 10_000);
    assert_eq!(step, StopStep::MarkTimedOut);
}

#[test]
fn a_lost_group_is_told_from_a_lost_identity() {
    let group = AppError::new(ErrorCode::NotFound, "gone").with_detail("stage", "getpgid");
    assert_eq!(identity_validation_outcome(&group), StopOutcome::Orphaned);
    let other = AppError::new(ErrorCode::NotFound, "gone");
    assert_eq!(identity_validation_outcome(&other), StopOutcome::IdentityMismatch);
    let (phase, _) = control_phase_from_result(&operation(7, StopStatus::SignalPending)).unwrap();
    assert_eq!(phase, StopPhase::SignalPending);
    assert!(control_phase_from_result(&operation(7, StopStatus::Completed)).is_err());
}

#[test]
fn a_forced_stop_may_have_to_wait_for_the_signal() {
    let force = StopCommand::Force {
        run_id: "run-1".to_string(),
        supersede_operation_id: Some("op".to_string()),
    };
    assert!(reject_unsafe_force_supersession(&running(7), "force", &force).is_ok());
    let mut controls = begun(7);
    let stored = StopEvent::Stored(StoreReply::Stored);
    advance_stop_worker(&mut controls, "run-1", "op", stored, 1_000);
    assert!(reject_unsafe_force_supersession(&controls, "force", &force).is_ok());
    let delivered = StopEvent::Signal(Ok(SignalDisposition::Delivered));
    advance_stop_worker(&mut controls, "run-1", "op", delivered, 1_000);
    let error = reject_unsafe_force_supersession(&controls, "force", &force).unwrap_err();
    assert_eq!(error.code, ErrorCode::Conflict);
}

#[test]
fn a_run_without_evidence_is_orphaned() {
    let decision = reconcile_run(Some(RecoveredPlan::Running), None);
    assert_eq!(decision.outcome, RecoveryOutcome::Orphaned);
    let found = RecoveryProbe { outcome: RecoveryOutcome::Recovered, process: Some(process(7)) };
    let decision = reconcile_run(Some(RecoveredPlan::Running), Some(found));
    assert_eq!(decision.outcome, RecoveryOutcome::Recovered);
    assert!(decision.recovered.is_some());
    let found = RecoveryProbe { outcome: RecoveryOutcome::Recovered, process: Some(process(7)) };
    let decision = reconcile_run(None, Some(found));
    assert_eq!(decision.outcome, RecoveryOutcome::Orphaned);
    assert!(recovery_evidence_is_probeable(Platform::MacOs, &record(7, RunState::Running)));
}

#[test]
fn a_recovered_run_is_held_again() {
    let stored = record(7, RunState::Running);
    let plan = recovered_control_plan(Platform::MacOs, &stored, None).unwrap();
    assert!(matches!(plan, RecoveredPlan::Running));
    let mut controls: Controls = Table::new();
    let worker = materialize_recovered_control(&mut controls, "run-1", plan, process(7), 0);
    assert!(worker.is_none());
    assert!(matches!(controls.get("run-1"), Some(RunControl::Running(_))));
    assert!(
        recovered_control_plan(Platform::MacOs, &record(7, RunState::Starting), None).is_none()
    );
}

#[test]
fn a_stop_whose_signal_may_be_on_its_way_is_not_resumed() {
    let mut stored = record(7, RunState::GracefulStopping);
    stored.stop_method = Some("GRACEFUL".to_string());
    let mut stop = operation(7, StopStatus::SignalPending);
    stop.run = projected_managed_run_summary(Platform::MacOs, &stored).unwrap();
    assert!(recovered_control_plan(Platform::MacOs, &stored, Some(&stop)).is_none());
}

#[test]
fn an_interactive_run_is_watched_until_it_ends() {
    let mut terminal = process(7);
    terminal.terminal = true;
    let mut controls: Controls = Table::new();
    controls.insert("run-1", RunControl::Running(terminal));
    assert!(matches!(
        monitor_terminal_exit(&controls, "run-1", None, false, None),
        MonitorStep::Wait
    ));
    match monitor_terminal_exit(&controls, "run-1", None, true, Some(T1.to_string())) {
        MonitorStep::MarkExited(at) => assert_eq!(at, T1),
        other => panic!("{other:?}"),
    }
    match monitor_terminal_exit(&controls, "run-1", Some(T0.to_string()), true, Some(T1.to_string()))
    {
        MonitorStep::MarkExited(at) => assert_eq!(at, T0),
        other => panic!("{other:?}"),
    }
    assert!(!after_terminal_exit(&mut controls, "run-1", false));
    assert!(after_terminal_exit(&mut controls, "run-1", true));
    assert!(matches!(
        monitor_terminal_exit(&controls, "run-1", None, true, None),
        MonitorStep::Leave
    ));
}

fn preview() -> ExecutionPreview {
    ExecutionPreview {
        platform: Platform::MacOs,
        invocation: Invocation::Direct { argv: vec!["sh".to_string()] },
        executable_resolution: ExecutableResolution::Unknown {
            reason: UnknownReason::Other,
            candidates: vec!["/bin/a".to_string(), "/bin/b".to_string()],
        },
    }
}

fn perform(action: LaunchAction) -> Launch {
    match action {
        LaunchAction::Perform(launch) => launch,
        other => panic!("{other:?}"),
    }
}

fn prepared(controls: &mut Controls) -> Launch {
    let step = create_starting_intent(controls, "run-1", 3, Some(Ok(())));
    assert!(matches!(step, IntentStep::Created));
    let mut launch = Launch::begin("run-1".to_string(), false);
    for event in [
        LaunchEvent::Preview(preview()),
        LaunchEvent::Directory(DirectoryProbe::Directory),
        LaunchEvent::Done,
        LaunchEvent::Done,
        LaunchEvent::Done,
        LaunchEvent::Done,
        LaunchEvent::Done,
        LaunchEvent::Done,
        LaunchEvent::Done,
    ] {
        launch = perform(start_platform_run(controls, Platform::MacOs, launch, event));
    }
    assert_eq!(launch.step, LaunchStep::PrepareProcess);
    launch
}

fn missing_executable() -> NativeFailure {
    NativeFailure {
        public_error: AppError::new(ErrorCode::NotFound, "none").with_detail("stage", "posix_spawn"),
        cleanup_pending: false,
        pending: PendingCleanup { handle: 0, process_instance_key: None },
    }
}

#[test]
fn a_launch_ends_in_a_running_process() {
    let mut controls: Controls = Table::new();
    let mut launch = prepared(&mut controls);
    let bound = LaunchEvent::Bound {
        record: record(7, RunState::Starting),
        running_updated_at: T1.to_string(),
    };
    for event in [
        LaunchEvent::Prepared(process(7)),
        LaunchEvent::Done,
        bound,
        LaunchEvent::Done,
        LaunchEvent::Captured(4),
        LaunchEvent::Done,
    ] {
        launch = perform(start_platform_run(&mut controls, Platform::MacOs, launch, event));
    }
    assert_eq!(launch.step, LaunchStep::MarkRunning);
    let action = start_platform_run(&mut controls, Platform::MacOs, launch, LaunchEvent::Done);
    match action {
        LaunchAction::Started(shown) => {
            assert_eq!(shown.state, RunState::Running);
            assert_eq!(shown.updated_at, T1);
        }
        other => panic!("{other:?}"),
    }
    match controls.get("run-1") {
        Some(RunControl::Running(held)) => assert_eq!(held.log_reader, Some(4)),
        other => panic!("{other:?}"),
    }
}

#[test]
fn a_result_that_is_refused_ends_the_suspended_process() {
    let mut controls: Controls = Table::new();
    let mut launch = prepared(&mut controls);
    let bound = LaunchEvent::Bound {
        record: record(7, RunState::Starting),
        running_updated_at: T1.to_string(),
    };
    for event in [LaunchEvent::Prepared(process(7)), LaunchEvent::Done, bound] {
        launch = perform(start_platform_run(&mut controls, Platform::MacOs, launch, event));
    }
    assert_eq!(launch.step, LaunchStep::CheckResult);
    assert!(matches!(controls.get("run-1"), Some(RunControl::Suspended(_))));
    let unsound = LaunchEvent::Failed(AppError::new(ErrorCode::Internal, "unsound"));
    let action = start_platform_run(&mut controls, Platform::MacOs, launch, unsound);
    let LaunchAction::Fail(failure) = action else { panic!("not failed") };
    assert_eq!(failure.stage, LaunchFailureStage::RunningPersistence);
    assert!(matches!(failure.leftover, Leftover::Suspended(_)));
    assert!(matches!(controls.get("run-1"), Some(RunControl::StartingIntent)));
}

#[test]
fn the_next_executable_is_tried_where_one_is_missing() {
    let mut controls: Controls = Table::new();
    let launch = prepared(&mut controls);
    assert!(executable_candidate_was_not_found(&missing_executable()));
    let event = LaunchEvent::Native(missing_executable());
    let launch = perform(start_platform_run(&mut controls, Platform::MacOs, launch, event));
    assert_eq!(launch.next_candidate, 1);
    let event = LaunchEvent::Native(missing_executable());
    match start_platform_run(&mut controls, Platform::MacOs, launch, event) {
        LaunchAction::Fail(failure) => {
            assert_eq!(failure.stage, LaunchFailureStage::ExecutableResolution);
            assert_eq!(failure.error.unwrap().message, "managed run executable was not found");
        }
        other => panic!("{other:?}"),
    }
}

#[test]
fn a_process_is_ended_where_its_launch_fails() {
    let mut controls: Controls = Table::new();
    let launch = prepared(&mut controls);
    let event = LaunchEvent::Prepared(process(7));
    let launch = perform(start_platform_run(&mut controls, Platform::MacOs, launch, event));
    let launch = perform(start_platform_run(
        &mut controls,
        Platform::MacOs,
        launch,
        LaunchEvent::Done,
    ));
    let broken = AppError::new(ErrorCode::StorageError, "broken");
    let action = start_platform_run(
        &mut controls,
        Platform::MacOs,
        launch,
        LaunchEvent::Failed(broken),
    );
    let LaunchAction::Fail(failure) = action else { panic!("not failed") };
    assert_eq!(failure.stage, LaunchFailureStage::IdentityPersistence);
    assert!(matches!(failure.leftover, Leftover::Suspended(_)));
    let stuck = NativeFailure { cleanup_pending: true, ..missing_executable() };
    let report = record_native_failure(&mut controls, "run-1", failure, Some(stuck));
    assert!(report.orphaned);
    assert_eq!(report.stage, LaunchFailureStage::Cleanup);
    let error = record_failed_launch(&mut controls, "run-1", report, true);
    assert_eq!(error.details.get("runState"), Some("orphaned"));
    assert_eq!(error.details.get("runId"), Some("run-1"));
    assert!(needs_cleanup_retry(&error));
    let failed = follow_up_start(&controls, &Err(error));
    assert_eq!(failed, StartFollowUp { watch_exit: false, retry_cleanup: true });
    let shown = |id: &str| {
        let stored = ManagedRunRecord { id: id.to_string(), ..record(9, RunState::Running) };
        projected_managed_run_summary(Platform::MacOs, &stored)
    };
    let started = follow_up_start(&controls, &shown("run-1"));
    assert_eq!(started, StartFollowUp { watch_exit: false, retry_cleanup: false });
    let interactive = ManagedProcess { terminal: true, ..process(9) };
    controls.insert("run-2", RunControl::Running(interactive));
    let started = follow_up_start(&controls, &shown("run-2"));
    assert_eq!(started, StartFollowUp { watch_exit: true, retry_cleanup: false });
    assert!(matches!(controls.get("run-1"), Some(RunControl::CleanupPending(_))));
}

#[test]
fn a_failed_launch_without_a_process_is_let_go() {
    let mut controls: Controls = Table::new();
    controls.insert("run-1", RunControl::StartingIntent);
    let failure = LaunchFailure {
        stage: LaunchFailureStage::LogPreparation,
        error: Some(AppError::new(ErrorCode::StorageError, "full")),
        leftover: Leftover::Nothing,
    };
    let report = record_native_failure(&mut controls, "run-1", failure, None);
    let error = record_failed_launch(&mut controls, "run-1", report, false);
    assert_eq!(error.details.get("runStatePersistence"), Some("failed"));
    assert!(!controls.contains("run-1"));
}

#[test]
fn a_taken_run_id_is_tried_again() {
    let mut controls: Controls = Table::new();
    let taken = || AppError::new(ErrorCode::Conflict, "taken").with_detail("runId", "run-1");
    assert!(matches!(
        create_starting_intent(&mut controls, "run-1", 1, Some(Err(taken()))),
        IntentStep::Retry
    ));
    match create_starting_intent(&mut controls, "run-1", 0, Some(Err(taken()))) {
        IntentStep::Fail(error) => {
            assert_eq!(error.message, "failed to allocate a unique managed run ID");
        }
        other => panic!("{other:?}"),
    }
    let broken = AppError::new(ErrorCode::StorageError, "broken");
    assert!(matches!(
        create_starting_intent(&mut controls, "run-1", 1, Some(Err(broken))),
        IntentStep::Fail(_)
    ));
}

#[test]
fn failed_calls_are_recorded_by_their_stage() {
    let stage = |name: &str| {
        native_failure_stage(&AppError::new(ErrorCode::Internal, "x").with_detail("stage", name))
    };
    assert_eq!(stage("CreateJobObjectW"), LaunchFailureStage::JobCreation);
    assert_eq!(stage("openpty"), LaunchFailureStage::LogPreparation);
    assert_eq!(stage("posix_spawn"), LaunchFailureStage::ProcessCreation);
    assert_eq!(stage("AssignProcessToJobObject"), LaunchFailureStage::JobAssignment);
    assert_eq!(stage("getpgid"), LaunchFailureStage::IdentityRead);
    assert_eq!(stage("SIGCONT"), LaunchFailureStage::ProcessResume);
    assert_eq!(stage("waitpid"), LaunchFailureStage::Cleanup);
    assert_eq!(stage("something else"), LaunchFailureStage::IdentityRead);
}

#[test]
fn what_cannot_be_launched_is_refused_before() {
    let wrong = ExecutionPreview { platform: Platform::Windows, ..preview() };
    assert_eq!(
        platform_launch_plan(Platform::MacOs, wrong).unwrap_err().code,
        ErrorCode::NotSupported
    );
    let (argv, candidates) = platform_launch_plan(Platform::MacOs, preview()).unwrap();
    assert_eq!(argv, vec!["sh"]);
    assert_eq!(candidates.len(), 2);
    let error = validate_working_directory(DirectoryProbe::Missing).unwrap_err();
    assert_eq!(error.code, ErrorCode::NotFound);
    assert!(require_profile_revision("p", T0, T0).is_ok());
    let error = require_profile_revision("p", T0, T1).unwrap_err();
    assert_eq!(error.details.get("actualUpdatedAt"), Some(T1));
    assert!(admit_launch(3, 4).is_ok());
    let error = admit_launch(4, 4).unwrap_err();
    assert_eq!(error.details.get("maximumActiveRuns"), Some("4"));
    assert!(require_preview_platform(Platform::MacOs, Platform::Windows).is_err());
    let secret = AppError::new(ErrorCode::AccessDenied, "token s3cr3t").with_detail("name", "x");
    let public = redact_credential_error(secret);
    assert_eq!(public.message, "managed run credentials could not be resolved");
    assert_eq!(public.details.get("name"), None);
}

fn replies() -> DetailsReplies {
    DetailsReplies { summary_checked: Ok(()), active_stop: Ok(None), response_checked: Ok(()) }
}

#[test]
fn what_is_held_and_what_is_stored_must_agree() {
    let controls = running(7);
    assert_eq!(live_run(&controls, &key(7)).unwrap().as_deref(), Some("run-1"));
    assert!(live_run(&controls, &key(8)).unwrap().is_none());
    let stored = record(7, RunState::Running);
    let asked = |live: Option<&str>, durable: Option<&ManagedRunRecord>, replies| {
        resolve_process_details(Platform::MacOs, &key(7), live, durable, replies)
    };
    let details = asked(Some("run-1"), Some(&stored), replies()).unwrap();
    assert_eq!(details.process_instance_key.pid, 7);
    assert_eq!(managed_run_id(details.control).as_deref(), Some("run-1"));
    let external = asked(None, None, replies()).unwrap();
    assert!(external.process_instance_key.same(&key(7)));
    assert!(matches!(external.control, ProcessControl::External));
    let error = asked(Some("run-1"), None, replies()).unwrap_err();
    assert_eq!(
        error.details.get("reason"),
        Some("live control has no durable run identity")
    );
    let error = asked(Some("run-9"), Some(&stored), replies()).unwrap_err();
    assert_eq!(
        error.details.get("reason"),
        Some("live and durable run identities disagree")
    );
    let no = |words: &str| AppError::new(ErrorCode::Internal, words);
    let refused = DetailsReplies {
        summary_checked: Err(no("summary")),
        active_stop: Err(no("stop")),
        response_checked: Err(no("response")),
    };
    assert_eq!(asked(None, Some(&stored), refused).unwrap_err().message, "summary");
    let refused = DetailsReplies { response_checked: Err(no("response")), ..replies() };
    assert_eq!(asked(None, None, refused).unwrap_err().message, "response");
    let mut twice = running(7);
    twice.insert("run-2", RunControl::Running(process(7)));
    assert!(live_run(&twice, &key(7)).is_err());
}

#[test]
fn a_stopping_process_is_held_by_its_operation() {
    let stop = StoppingProcess {
        process: process(7),
        operation_id: "op".to_string(),
        kind: StopKind::Force,
        phase: StopPhase::CompletionPending(StopOutcome::Orphaned),
        signal_disposition: None,
        confirmation_window: 5_000,
        deadline: 5_000,
        worker_running: true,
    };
    let mut controls: Controls = Table::new();
    controls.insert("run-1", RunControl::Stopping(stop));
    let stored = StopEvent::Stored(StoreReply::Stored);
    let step = advance_stop_worker(&mut controls, "run-1", "op", stored, 0);
    assert_eq!(step, StopStep::Finished);
    assert!(matches!(controls.get("run-1"), Some(RunControl::Quarantined(_))));
}

#[test]
fn a_clean_up_is_tried_so_often() {
    assert!(wants_cleanup_retry(0, 0));
    assert!(wants_cleanup_retry(3, 1));
    assert!(!wants_cleanup_retry(3, 0));
    assert!(!wants_cleanup_retry(4, 1));
}

#[test]
fn unfinished_runs_are_reconciled_page_by_page() {
    let mut controls: Controls = Table::new();
    let candidate = |id: &str, state: RunState| RecoveryCandidate {
        run: ManagedRunRecord { id: id.to_string(), ..record(7, state) },
        active_stop: None,
    };
    let lost = RecoveryCandidate {
        run: ManagedRunRecord {
            id: "run-b".to_string(),
            process_instance_key: None,
            ..record(7, RunState::Running)
        },
        active_stop: None,
    };
    let mut step = |pass: StartupPass, event: StartupEvent| {
        reconcile_startup_managed_runs(&mut controls, Platform::MacOs, pass, event, 5)
    };
    let page = vec![candidate("run-a", RunState::Running), lost];
    let StartupAction::Perform(pass) = step(StartupPass::begin(), StartupEvent::Page(Ok(page)))
    else {
        panic!("no page")
    };
    assert_eq!(pass.cursor.as_deref(), Some("run-b"));
    assert!(matches!(pass.step, StartupStep::Probe));
    let found = RecoveryProbe { outcome: RecoveryOutcome::Recovered, process: Some(process(7)) };
    let StartupAction::Perform(pass) = step(pass, StartupEvent::Probed(found)) else {
        panic!("not decided")
    };
    assert!(matches!(&pass.step, StartupStep::Store(decision)
        if decision.outcome == RecoveryOutcome::Recovered));
    let StartupAction::Perform(pass) = step(pass, StartupEvent::Stored(Ok(()))) else {
        panic!("not stored")
    };
    assert!(matches!(&pass.step, StartupStep::Store(decision)
        if decision.outcome == RecoveryOutcome::Orphaned));
    let StartupAction::Perform(pass) = step(pass, StartupEvent::Stored(Ok(()))) else {
        panic!("not stored")
    };
    assert!(matches!(pass.step, StartupStep::ReadPage));
    let done = step(pass, StartupEvent::Page(Ok(vec![])));
    assert!(matches!(done, StartupAction::Done(workers) if workers.is_empty()));
    let broken = AppError::new(ErrorCode::StorageError, "broken");
    let failed = step(StartupPass::begin(), StartupEvent::Page(Err(broken)));
    assert!(matches!(failed, StartupAction::Fail(_)));
    assert!(matches!(controls.get("run-a"), Some(RunControl::Running(_))));
    assert!(!controls.contains("run-b"));
}
