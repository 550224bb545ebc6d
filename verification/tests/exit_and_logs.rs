use supervisor::error::{AppError, ErrorCode};
use supervisor::exit::{
    authoritative_exit_impact, build_authoritative_exit_impact, exit_impact_needs_child_stop, exit_run_impact_id,
    generate_service_incarnation, load_or_prepare_managed_exit_operation,
    managed_exit_assessment_id, managed_exit_child_operation_id, managed_exit_request_sha256,
    managed_stop_phase_matches_result, next_due_member, project_stop_all_for_exit_result,
    service_incarnation, stop_all_for_exit, ActiveRun, ExitImpactSummary, ExitMember,
    ExitMemberAction, ExitOperation, ExitPreparation, ExitRunImpact, RetainedReason, StopAllEvent, StopAllMemberAction,
    StopAllStatus, StopAllStep,
};
use supervisor::logs::{
    get_log_range, log_range_response, managed_log_background_error, managed_log_chunk,
    managed_log_encoding_policy, managed_log_error, managed_log_io_error, managed_log_read_error,
    managed_log_redaction_error, managed_log_redaction_secrets, managed_log_retention_error,
    managed_log_text_error, managed_log_text_status, validate_log_root, DecodedText,
    EncodingPolicy, EnvironmentEntry, LogEncoding, LogErrorKind, LogFault, LogPart, LogRangePlan,
    LogRangeRequest, LogStream, OutputSource, RedactionFault, TextStatus,
};
use supervisor::registry::{ManagedLogReaderRegistry, MANAGED_LOG_READER_CAPACITY};
use supervisor::retention::{
    begin_retention_pass, count_removal, cutoff_timestamp, finish_retention_pass,
    load_managed_log_retention_candidates,
    managed_log_retention_worker_error, maximum_active_runs, next_due_candidate,
    remove_managed_log_retention_candidate, removal_outcome, retention_candidate_protection,
    retention_cutoff, run_managed_log_retention_cleanup, wants_next_audit_batch, wants_next_page,
    CandidateFinding, CandidatePages, CandidateStep, CleanupAction, CleanupEvent, DiskFinding, RemovalOutcome, RemovalStep,
    RetentionCandidate, RetentionLimits,
};
use supervisor::run::{
    Controls, ManagedProcess, ManagedRunRecord, Platform, ProcessInstanceKey, ProfileSnapshot,
    RunControl, RunState, StopOutcome, StopPhase, StopStatus,
};
use supervisor::runtime::IoFailure;
use supervisor::table::Table;
use supervisor::timestamp::UnixTime;

const T0: &str = "2024-01-01T00:00:00.000000000Z";
const T1: &str = "2024-01-02T00:00:00.000000000Z";
const MAC: Platform = Platform::MacOs;
const ROOT: &str = "/logs";

fn key(pid: u32) -> ProcessInstanceKey {
    ProcessInstanceKey { boot_id: "boot".to_string(), pid, native_start_time: 5 }
}

fn process(pid: u32) -> ManagedProcess {
    ManagedProcess {
        handle: 1,
        instance_key: key(pid),
        process_group_id: pid,
        terminal: false,
        log_reader: Some(11),
    }
}

fn record(id: &str, pid: u32, state: RunState) -> ManagedRunRecord {
    ManagedRunRecord {
        id: id.to_string(),
        profile_id: Some("p".to_string()),
        profile_snapshot: ProfileSnapshot {
            id: "p".to_string(),
            updated_at: T0.to_string(),
            stop_timeout_ms: 2_000,
        },
        state,
        process_instance_key: Some(key(pid)),
        process_group_id: Some(pid),
        stop_method: None,
        exit_code: None,
        exit_signal: None,
        started_at: T0.to_string(),
        updated_at: T0.to_string(),
        ended_at: None,
        log_directory: format!("/logs/{id}"),
        log_redaction_version: 1,
        logs_deletion_started_at: None,
        logs_deleted_at: None,
    }
}

fn running(id: &str, pid: u32) -> ActiveRun {
    ActiveRun { run: record(id, pid, RunState::Running), active_stop: None }
}

#[test]
fn every_run_that_is_held_or_stored_is_shown() {
    let mut controls: Controls = Table::new();
    controls.insert("run-b", RunControl::Running(process(7)));
    controls.insert("run-a", RunControl::StartingIntent);
    let stored = vec![running("run-b", 7), running("run-c", 9)];
    let impacts = build_authoritative_exit_impact(Platform::MacOs, &controls, &stored, 8).unwrap();
    let ids: Vec<&str> = impacts.iter().map(exit_run_impact_id).collect();
    assert_eq!(ids, vec!["run-a", "run-b", "run-c"]);
    assert!(matches!(impacts[1], ExitRunImpact::Running { .. }));
    assert!(matches!(
        impacts[2],
        ExitRunImpact::Retained { reason: RetainedReason::DurableOnly, .. }
    ));
    assert!(build_authoritative_exit_impact(Platform::MacOs, &controls, &stored, 2).is_err());
}

#[test]
fn a_process_that_is_not_the_stored_one_is_retained() {
    let mut controls: Controls = Table::new();
    controls.insert("run-b", RunControl::Running(process(8)));
    let stored = vec![running("run-b", 7)];
    let impacts = build_authoritative_exit_impact(Platform::MacOs, &controls, &stored, 8).unwrap();
    assert!(matches!(
        impacts[0],
        ExitRunImpact::Retained { reason: RetainedReason::ControlMismatch, .. }
    ));
}

#[test]
fn names_of_exit_stops_are_digests() {
    assert_eq!(
        managed_exit_child_operation_id("exit-1", "run-1"),
        "exit-stop:a99a5fc1518b524c67b269fa26e2407e52fcb93763957e4e6cc22c0bc5a074be"
    );
    assert_ne!(
        managed_exit_child_operation_id("exit-1r", "un-1"),
        managed_exit_child_operation_id("exit-1", "run-1")
    );
    assert_eq!(
        managed_exit_assessment_id(&[7; 32], b"{\"runs\":[]}"),
        "9db561d19fda0218c0dcd28b72fb30461352348c55e8bac2bad4678ef8d88352"
    );
    let written = || Ok(b"{\"runs\":[]}".to_vec());
    let summary = authoritative_exit_impact(&[7; 32], vec![], written(), Ok(())).unwrap();
    assert_eq!(
        summary.assessment_id,
        "9db561d19fda0218c0dcd28b72fb30461352348c55e8bac2bad4678ef8d88352"
    );
    let unsound = Err(AppError::new(ErrorCode::Internal, "unsound"));
    assert!(authoritative_exit_impact(&[7; 32], vec![], written(), unsound).is_err());
    let unwritten = authoritative_exit_impact(&[7; 32], vec![], Err("deep".to_string()), Ok(()));
    assert_eq!(unwritten.unwrap_err().details.get("reason"), Some("deep"));
    let digest = managed_exit_request_sha256(b"abc");
    assert_eq!(digest[0], 0xba);
    assert_eq!(digest[31], 0xad);
    assert_ne!(
        generate_service_incarnation().unwrap(),
        generate_service_incarnation().unwrap()
    );
}

#[test]
fn the_number_of_a_service_is_what_was_drawn() {
    assert_eq!(service_incarnation(Ok([5; 32])).unwrap(), [5; 32]);
    let error = service_incarnation(Err("no entropy".to_string())).unwrap_err();
    assert_eq!(error.code, ErrorCode::PlatformError);
    assert_eq!(error.message, "failed to generate the Supervisor service incarnation");
    assert_eq!(error.details.get("stage"), Some("GenerateServiceIncarnation"));
    assert_eq!(error.details.get("source"), Some("no entropy"));
}

fn impacts() -> Vec<ExitRunImpact> {
    vec![
        ExitRunImpact::Running { run_id: "run-a".to_string() },
        ExitRunImpact::ForceStopping {
            run_id: "run-b".to_string(),
            operation_id: "stop-b".to_string(),
        },
        ExitRunImpact::Retained {
            run_id: "run-c".to_string(),
            reason: RetainedReason::Quarantined,
        },
    ]
}

fn prepare(replay: Option<ExitOperation>, expected: &str) -> Result<ExitPreparation, AppError> {
    let impact = ExitImpactSummary { assessment_id: "now".to_string(), runs: impacts() };
    load_or_prepare_managed_exit_operation(
        replay,
        "exit-1",
        [0; 32],
        expected,
        &impact,
        Ok(T0.to_string()),
    )
}

fn exit_operation() -> ExitOperation {
    match prepare(None, "now") {
        Ok(ExitPreparation::Store(operation)) => operation,
        other => panic!("unexpected {:?}", other),
    }
}

#[test]
fn an_exit_goes_by_the_assessment_that_was_shown() {
    let members = exit_operation().members;
    assert_eq!(members[0].action, ExitMemberAction::GracefulRequested);
    assert_eq!(
        members[0].stop_operation_id.as_deref(),
        Some(managed_exit_child_operation_id("exit-1", "run-a").as_str())
    );
    assert_eq!(members[1].action, ExitMemberAction::StopAdopted);
    assert_eq!(members[1].stop_operation_id.as_deref(), Some("stop-b"));
    assert_eq!(members[2].action, ExitMemberAction::NoAction);
    assert_eq!(exit_operation().created_at, T0);
    assert_eq!(exit_operation().assessment_id, "now");
    let again = prepare(Some(exit_operation()), "old").unwrap();
    assert!(matches!(again, ExitPreparation::Replay(_)));
    let error = prepare(None, "old").unwrap_err();
    assert_eq!(error.code, ErrorCode::Conflict);
}

#[test]
fn an_exit_is_blocked_drains_and_completes() {
    let operation = exit_operation();
    let now = |runs: Vec<ExitRunImpact>| ExitImpactSummary {
        assessment_id: "later".to_string(),
        runs,
    };
    let result = project_stop_all_for_exit_result(&operation, &now(impacts())).unwrap();
    assert_eq!(result.status, StopAllStatus::Blocked);
    assert!(matches!(
        result.members[1].action,
        StopAllMemberAction::StopAdopted { .. }
    ));
    let draining = vec![impacts().remove(1)];
    let result = project_stop_all_for_exit_result(&operation, &now(draining)).unwrap();
    assert_eq!(result.status, StopAllStatus::Draining);
    assert!(result.members[0].current_impact.is_none());
    let result = project_stop_all_for_exit_result(&operation, &now(vec![])).unwrap();
    assert_eq!(result.status, StopAllStatus::Completed);
    let stranger = vec![ExitRunImpact::Running { run_id: "run-z".to_string() }];
    let error = project_stop_all_for_exit_result(&operation, &now(stranger)).unwrap_err();
    assert_eq!(
        error.message,
        "managed exit impact gained a run outside the fixed stop membership"
    );
}

#[test]
fn only_runs_that_still_run_are_stopped() {
    let operation = exit_operation();
    assert_eq!(next_due_member(&operation, &impacts(), 0), Some(0));
    assert_eq!(next_due_member(&operation, &impacts(), 1), None);
    assert_eq!(next_due_member(&operation, &vec![], 0), None);
    let adopted = ExitMember {
        run_id: "run-a".to_string(),
        action: ExitMemberAction::StopAdopted,
        stop_operation_id: Some("x".to_string()),
    };
    let other = ExitOperation { members: vec![adopted], ..exit_operation() };
    assert_eq!(next_due_member(&other, &impacts(), 0), None);
    assert!(exit_impact_needs_child_stop(&impacts(), "run-a", "x"));
    assert!(!exit_impact_needs_child_stop(&impacts(), "run-b", "stop-b"));
}

#[test]
fn a_refused_stop_may_be_passed_over() {
    let operation = exit_operation();
    let refused = |code: ErrorCode| {
        let event = StopAllEvent::Refused { place: 0, error: AppError::new(code, "no") };
        stop_all_for_exit(&operation, &impacts(), event)
    };
    let reassessed = |runs: Vec<ExitRunImpact>| {
        let event = StopAllEvent::Reassessed {
            place: 0,
            error: AppError::new(ErrorCode::Conflict, "no"),
            latest: Ok(ExitImpactSummary { assessment_id: "later".to_string(), runs }),
        };
        stop_all_for_exit(&operation, &impacts(), event)
    };
    let begun = stop_all_for_exit(&operation, &impacts(), StopAllEvent::Prepared);
    assert!(matches!(begun, StopAllStep::Request { place: 0 }));
    let taken = stop_all_for_exit(&operation, &impacts(), StopAllEvent::Requested { place: 0 });
    assert!(matches!(taken, StopAllStep::Assess));
    assert!(matches!(refused(ErrorCode::AlreadyExited), StopAllStep::Assess));
    assert!(matches!(refused(ErrorCode::Conflict), StopAllStep::Reassess { place: 0, .. }));
    assert!(matches!(refused(ErrorCode::StorageError), StopAllStep::Answer(Err(_))));
    assert!(matches!(reassessed(impacts()), StopAllStep::Answer(Err(_))));
    assert!(matches!(reassessed(vec![]), StopAllStep::Assess));
    let current = ExitImpactSummary { assessment_id: "later".to_string(), runs: vec![] };
    let step = stop_all_for_exit(&operation, &impacts(), StopAllEvent::Assessed(Ok(current)));
    let StopAllStep::Check(shown) = step else { panic!("not checked") };
    let event = StopAllEvent::Checked { shown, checked: Ok(()) };
    let shown = match stop_all_for_exit(&operation, &impacts(), event) {
        StopAllStep::Answer(Ok(result)) => {
            assert_eq!(result.status, StopAllStatus::Completed);
            result
        }
        other => panic!("unexpected {:?}", other),
    };
    let unsound = Err(AppError::new(ErrorCode::Internal, "unsound"));
    let event = StopAllEvent::Checked { shown, checked: unsound };
    let step = stop_all_for_exit(&operation, &impacts(), event);
    assert!(matches!(step, StopAllStep::Answer(Err(_))));
    assert!(managed_stop_phase_matches_result(
        StopPhase::SignalPending,
        StopStatus::SignalPending
    ));
    assert!(!managed_stop_phase_matches_result(StopPhase::TimedOut, StopStatus::Requested));
    assert!(!managed_stop_phase_matches_result(
        StopPhase::CompletionPending(StopOutcome::Exited),
        StopStatus::Completed
    ));
}

#[test]
fn the_longest_unused_reader_makes_room() {
    let mut registry = ManagedLogReaderRegistry::new();
    for number in 0..MANAGED_LOG_READER_CAPACITY {
        let id = format!("run-{number}");
        registry.reserve_active(&id, number as u64).unwrap();
    }
    assert!(registry.reserve_active("one-more", 1).is_err());
    registry.mark_completed("run-0");
    registry.mark_completed("run-1");
    assert_eq!(registry.get("run-0"), Some((0, false)));
    registry.reserve_active("one-more", 1).unwrap();
    assert_eq!(registry.get("run-1"), None);
    assert_eq!(registry.get("run-0"), Some((0, false)));
    assert!(registry.is_active("run-5"));
    assert!(!registry.evict_for_retention("run-5"));
    assert!(registry.evict_for_retention("run-0"));
    registry.remove("run-5");
    assert_eq!(registry.get("run-5"), None);
}

#[test]
fn an_old_log_is_opened_once() {
    let mut registry = ManagedLogReaderRegistry::new();
    assert_eq!(registry.insert_historical("run-1", 4).unwrap(), (4, true));
    assert_eq!(registry.insert_historical("run-1", 5).unwrap(), (4, true));
}

fn range() -> LogRangeRequest {
    LogRangeRequest {
        run_id: "run-1".to_string(),
        stream: LogStream::Stderr,
        starting_byte_offset: None,
        maximum_bytes: 100,
    }
}

#[test]
fn a_log_is_read_where_its_run_is_held() {
    let mut registry = ManagedLogReaderRegistry::new();
    let mut controls: Controls = Table::new();
    let stored = record("run-1", 7, RunState::Exited);
    let plan =
        get_log_range(&mut registry, &controls, &range(), &stored, MAC, ROOT, 1).unwrap();
    assert!(matches!(plan, LogRangePlan::OpenHistorical));
    controls.insert("run-1", RunControl::Running(process(7)));
    let plan = get_log_range(&mut registry, &controls, &range(), &stored, MAC, ROOT, 1).unwrap();
    assert!(matches!(plan, LogRangePlan::Read { reader: 11, historical: false }));
    let mut deleted = record("run-1", 7, RunState::Exited);
    deleted.logs_deleted_at = Some(T1.to_string());
    let none: Controls = Table::new();
    assert!(get_log_range(&mut registry, &none, &range(), &deleted, MAC, ROOT, 1).is_err());
    let moved = get_log_range(&mut registry, &none, &range(), &stored, MAC, "/other", 1);
    assert_eq!(moved.unwrap_err().details.get("stage"), Some("ValidateManagedLogDirectory"));
}

fn part() -> LogPart {
    LogPart {
        sequence: 3,
        first_available: 10,
        first: 20,
        next: 30,
        end: 40,
        text: "abc".to_string(),
        has_more: true,
        complete: false,
        end_of_file: false,
        io_status_known: true,
        disk_error: Some(LogErrorKind::StorageFull),
        read_error: None,
        delivery_error: None,
        text_status: None,
    }
}

#[test]
fn what_was_read_is_shown_as_it_is() {
    let unsound = Err(AppError::new(ErrorCode::Internal, "unsound"));
    assert!(log_range_response(&range(), part(), false, unsound).is_err());
    let response = log_range_response(&range(), part(), false, Ok(())).unwrap();
    assert_eq!(response.stream, LogStream::Stderr);
    assert_eq!(
        (
            response.first_available_byte_offset,
            response.first_byte_offset,
            response.next_byte_offset,
            response.stream_end_byte_offset
        ),
        (10, 20, 30, 40)
    );
    assert_eq!(response.disk_error, Some(LogErrorKind::StorageFull));
    let chunk = managed_log_chunk(&"run-1".to_string(), LogStream::Stdout, part());
    assert_eq!(chunk.text, "abc");
    assert!(!chunk.caught_up);
    assert_eq!(managed_log_text_status(None), TextStatus::Unknown);
    let decoded = DecodedText {
        resolved_encoding: Some(LogEncoding::Utf16Le),
        replacement_used: true,
        controls_filtered: false,
        fallback_unavailable: false,
    };
    assert_eq!(
        managed_log_text_status(Some(decoded)),
        TextStatus::Known {
            encoding: LogEncoding::Utf16Le,
            replacement_used: true,
            controls_filtered: false,
            fallback_unavailable: false
        }
    );
}

#[test]
fn secrets_are_kept_out_of_the_logs() {
    let entry = |value: &str, secret: bool, sensitive_name: bool| EnvironmentEntry {
        value: value.to_string(),
        secret,
        sensitive_name,
    };
    let secrets = managed_log_redaction_secrets(&vec![
        entry("plain", false, false),
        entry("hidden", true, false),
        entry("token", false, true),
    ]);
    assert_eq!(secrets, vec!["hidden", "token"]);
    let error = managed_log_redaction_error(RedactionFault::TooManyPatterns);
    assert!(!error.message.is_empty());
}

#[test]
fn the_code_page_is_that_of_the_machine() {
    let policy = |source| managed_log_encoding_policy(Platform::Windows, false, source, 1252, 850);
    assert_eq!(
        policy(OutputSource::Cmd).unwrap(),
        EncodingPolicy::WindowsAuto { fallback_code_page: 850 }
    );
    assert_eq!(
        policy(OutputSource::Direct).unwrap(),
        EncodingPolicy::WindowsAuto { fallback_code_page: 1252 }
    );
    let unix =
        managed_log_encoding_policy(Platform::MacOs, false, OutputSource::Zsh, 1252, 850).unwrap();
    assert_eq!(unix, EncodingPolicy::Utf8);
    assert!(!managed_log_text_error(1252).message.is_empty());
}

fn fault(kind: LogErrorKind) -> LogFault {
    LogFault {
        kind,
        operation: "Open".to_string(),
        stream: Some("stdout".to_string()),
        accepted_input_bytes: 0,
    }
}

#[test]
fn failures_of_a_log_are_told_by_their_kind() {
    assert_eq!(
        managed_log_error(&fault(LogErrorKind::PermissionDenied)).code,
        ErrorCode::AccessDenied
    );
    assert!(managed_log_read_error(&fault(LogErrorKind::Interrupted)).retryable);
    assert_eq!(
        managed_log_retention_error(&fault(LogErrorKind::InvalidPath)).code,
        ErrorCode::InvalidArgument
    );
    let busy = IoFailure::new("ResourceBusy", "busy");
    let error = managed_log_io_error("stdout", "CreatePipe", &busy);
    assert!(error.retryable);
    assert_eq!(error.details.get("logStream"), Some("stdout"));
    let gone = IoFailure::new("NotFound", "gone");
    assert!(!managed_log_background_error("SpawnEventWorker", &gone).retryable);
    assert!(validate_log_root(MAC, Some("/logs")).is_ok());
    assert!(validate_log_root(MAC, Some("logs")).is_err());
    assert!(validate_log_root(MAC, Some("")).is_err());
    assert!(validate_log_root(MAC, None).is_err());
}

fn candidate(id: &str, at: &str) -> RetentionCandidate {
    RetentionCandidate {
        run_id: id.to_string(),
        log_directory: format!("/logs/{id}"),
        retention_timestamp: at.to_string(),
        deletion_started_at: None,
    }
}

fn found(bytes: u64) -> CandidateFinding {
    CandidateFinding {
        controlled: false,
        active_reader: false,
        disk: DiskFinding::Present { retained_bytes: bytes },
    }
}

fn limits() -> RetentionLimits {
    RetentionLimits { default_bytes_per_run: 1_000, hard_maximum_bytes_per_run: 2_000 }
}

#[test]
fn old_logs_are_deleted_first() {
    let candidates = vec![candidate("run-a", T0), candidate("run-b", T1)];
    let findings = vec![found(100), found(100)];
    let mut pass = begin_retention_pass(limits(), candidates, &findings, 2, 0, 0).unwrap();
    let cutoff = "2024-01-01T12:00:00.000000000Z";
    assert_eq!(next_due_candidate(&pass, 0, cutoff), Some(0));
    count_removal(&mut pass, 0, RemovalOutcome::Deleted);
    assert_eq!(next_due_candidate(&pass, 1, cutoff), None);
    assert!(finish_retention_pass(&pass).is_ok());
    assert_eq!(pass.remaining_candidates, 1);
}

#[test]
fn a_pass_removes_what_is_due_and_then_says_whether_there_is_room() {
    let candidates = vec![candidate("run-a", T0), candidate("run-b", T1), candidate("run-c", T0)];
    let findings = vec![found(100), found(100), found(100)];
    let mut pass = begin_retention_pass(limits(), candidates, &findings, 3, 0, 0).unwrap();
    let cutoff = "2024-01-01T12:00:00.000000000Z";
    let action = run_managed_log_retention_cleanup(&mut pass, cutoff, CleanupEvent::Inspected, 10);
    assert!(matches!(action, CleanupAction::Remove { place: 0 }));
    let event = CleanupEvent::Removed { place: 0, outcome: Some(RemovalOutcome::Deleted) };
    let action = run_managed_log_retention_cleanup(&mut pass, cutoff, event, 10);
    assert!(matches!(action, CleanupAction::Remove { place: 2 }));
    let event = CleanupEvent::Removed { place: 2, outcome: None };
    let action = run_managed_log_retention_cleanup(&mut pass, cutoff, event, 10);
    assert!(matches!(action, CleanupAction::DeleteAuditEvents { batch: 1 }));
    let event = CleanupEvent::AuditEventsDeleted { batches: 1, deleted: Some(10) };
    let action = run_managed_log_retention_cleanup(&mut pass, cutoff, event, 10);
    assert!(matches!(action, CleanupAction::DeleteAuditEvents { batch: 2 }));
    let event = CleanupEvent::AuditEventsDeleted { batches: 2, deleted: None };
    let action = run_managed_log_retention_cleanup(&mut pass, cutoff, event, 10);
    assert!(matches!(action, CleanupAction::Finish(Ok(()))));
    assert_eq!((pass.remaining_candidates, pass.retained_bytes), (2, 200));
}

#[test]
fn a_run_in_use_protects_its_log() {
    let mut controls: Controls = Table::new();
    controls.insert("run-a", RunControl::Running(process(7)));
    let mut registry = ManagedLogReaderRegistry::new();
    registry.reserve_active("run-b", 3).unwrap();
    assert_eq!(retention_candidate_protection(&controls, &registry, "run-a"), (true, false));
    assert_eq!(retention_candidate_protection(&controls, &registry, "run-b"), (false, true));
    assert_eq!(retention_candidate_protection(&controls, &registry, "run-c"), (false, false));
}

#[test]
fn a_log_that_is_in_use_is_kept() {
    let held = CandidateFinding { controlled: true, ..found(100) };
    let candidates = vec![candidate("run-a", T0)];
    let pass = begin_retention_pass(limits(), candidates, &vec![held], 1, 1, 0).unwrap();
    assert_eq!(next_due_candidate(&pass, 0, T1), None);
    let mut controls: Controls = Table::new();
    controls.insert("run-a", RunControl::Running(process(7)));
    let mut registry = ManagedLogReaderRegistry::new();
    let step = remove_managed_log_retention_candidate(
        &controls,
        &mut registry,
        &candidate("run-a", T0),
        Some(&candidate("run-a", T0)),
        MAC,
        ROOT,
    )
    .unwrap();
    assert!(matches!(step, RemovalStep::Protected));
    let none: Controls = Table::new();
    let step = remove_managed_log_retention_candidate(
        &none,
        &mut registry,
        &candidate("run-a", T0),
        None,
        MAC,
        ROOT,
    )
    .unwrap();
    assert!(matches!(step, RemovalStep::StateChanged));
    let step = remove_managed_log_retention_candidate(
        &none,
        &mut registry,
        &candidate("run-a", T0),
        Some(&candidate("run-a", T0)),
        MAC,
        ROOT,
    )
    .unwrap();
    assert!(matches!(step, RemovalStep::Begin { .. }));
    let elsewhere = remove_managed_log_retention_candidate(
        &none,
        &mut registry,
        &candidate("run-a", T0),
        Some(&candidate("run-a", T0)),
        MAC,
        "/other",
    );
    assert_eq!(
        elsewhere.unwrap_err().message,
        "managed run log retention identity is inconsistent"
    );
}

#[test]
fn there_is_no_room_beyond_the_limit() {
    let wide = RetentionLimits {
        default_bytes_per_run: 1_073_741_824,
        hard_maximum_bytes_per_run: 1_073_741_824,
    };
    assert!(begin_retention_pass(wide, vec![], &vec![], 0, 1, 0).is_ok());
    let error = begin_retention_pass(wide, vec![], &vec![], 0, 1, 1).unwrap_err();
    assert_eq!(error.details.get("maximumRetainedBytes"), Some("1073741824"));
    assert!(error.retryable);
    assert!(managed_log_retention_worker_error().retryable);
    assert_eq!(removal_outcome(true, true), RemovalOutcome::Deleted);
}

#[test]
fn logs_are_kept_for_thirty_days() {
    let now = UnixTime { seconds: 2_592_000 + 5, nanoseconds: 7 };
    let cutoff = retention_cutoff(now).unwrap();
    assert_eq!((cutoff.seconds, cutoff.nanoseconds), (5, 7));
    assert_eq!(cutoff_timestamp(Some(now)).unwrap(), "1970-01-01T00:00:05.000000007Z");
    assert!(cutoff_timestamp(None).is_err());
    assert!(cutoff_timestamp(Some(UnixTime { seconds: 4, nanoseconds: 0 })).is_err());
    assert!(wants_next_page(1, 64));
    assert!(!wants_next_page(1, 63));
    assert!(!wants_next_page(4, 64));
    assert!(wants_next_audit_batch(1, Some(10), 10));
    assert!(!wants_next_audit_batch(1, Some(9), 10));
    assert!(!wants_next_audit_batch(1, None, 10));
}

#[test]
fn an_error_can_be_shown_again() {
    let error = AppError::new(ErrorCode::Internal, "x").with_detail("a", "b");
    let copy = error.copy();
    assert_eq!(copy.details.get("a"), Some("b"));
    assert_eq!(copy.message, error.message);
}

#[test]
fn the_logs_have_room_for_so_many_runs() {
    assert_eq!(maximum_active_runs(limits()), 1_073_741);
}

#[test]
fn candidates_are_read_in_so_many_pages() {
    let page = |count: usize| {
        (0..count).map(|i| candidate(&format!("run-{i}"), T0)).collect::<Vec<RetentionCandidate>>()
    };
    let mut pages = CandidatePages { candidates: vec![], pages_read: 0 };
    for _ in 0..3 {
        match load_managed_log_retention_candidates(pages, page(64)) {
            CandidateStep::ReadOn { pages: next, after_timestamp, after_run_id } => {
                assert_eq!((after_timestamp.as_str(), after_run_id.as_str()), (T0, "run-63"));
                pages = next;
            }
            other => panic!("{other:?}"),
        }
    }
    match load_managed_log_retention_candidates(pages, page(64)) {
        CandidateStep::Complete(candidates) => assert_eq!(candidates.len(), 256),
        other => panic!("{other:?}"),
    }
    let pages = CandidatePages { candidates: vec![], pages_read: 0 };
    assert!(matches!(
        load_managed_log_retention_candidates(pages, page(63)),
        CandidateStep::Complete(candidates) if candidates.len() == 63
    ));
}
