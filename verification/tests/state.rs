use supervisor::bundle::{
    build_and_export_bundle, Bundle, BundleAction, BundleEvent, BundleStep,
};
use supervisor::catalog::{
    classification_rule_for_discovery, delete_classification_rule, delete_project,
    publish_and_commit_catalog_mutation, remove_project_from_context, remove_rule_from_context,
    replace_project_in_context, replace_rule_in_context, require_catalog_version,
    save_classification_rule, save_project, validate_project_context, CatalogMutation,
    MatcherKind, MutationAction, MutationEvent, MutationKind, MutationStep, NormalizedRoot,
    ProjectContext, ProjectInput, ProjectSummary, RuleAction, RuleInput, RuleSummary,
    SaveProjectRequest, SaveRuleRequest, SavedFrom,
};
use supervisor::collection::{Collection, Reported};
use supervisor::diagnostics::{
    advance_export, begin_export, build_manifest, capture_application_logs, check_content_bytes,
    current_unix_millis, diagnostic_application_log_error,
    diagnostic_export_error, error_code_identifier, is_cancelled_export_error, log_export_result,
    manifest_inputs, next_export_slot, remember_completed_request, sha256_hex, unix_millis,
    BoundedContents, CancelDisposition, CaptureStep, ContentInput, ContentKind, DiagnosticLimits,
    DiagnosticsManifest, Export, ExportAction, ExportEvent, ExportNote, ExportRegistry,
    ExportRequest, ExportReservation, ExportResult, ExportStep, LogCapture, LogReadMetadata,
};
use supervisor::error::{AppError, ErrorCode};
use supervisor::keys::{
    address_family_rank, compare_optional_process_keys, compare_port_bindings,
    compare_process_keys, port_protocol_rank, AddressFamily, PortBindingKey, PortProtocol,
};
use supervisor::logs::{LogErrorKind, LogFault};
use supervisor::revision::{
    ContinuedSnapshot, EntityChecks, RequestedSnapshot, RevisionChange, RevisionState,
    RevisionStreamError, SnapshotLimits, StateDelta, Upserted,
};
use supervisor::run::ProcessInstanceKey;
use supervisor::snapshot::{
    build_snapshot_page, check_chunk_bytes, format_snapshot_cursor, invalid_snapshot_cursor,
    parse_snapshot_cursor, snapshot_collection_count, SystemSnapshot,
    MAX_SNAPSHOT_CHUNK_PAYLOAD_BYTES,
};
use supervisor::timestamp::UnixTime;

const T0: &str = "2024-01-01T00:00:00.000000000Z";
const T1: &str = "2024-01-02T00:00:00.000000000Z";

fn root(name: &str) -> NormalizedRoot {
    NormalizedRoot {
        canonical_root_directory: format!("/Src/{name}"),
        normalized_path: format!("/src/{name}"),
    }
}

fn context() -> ProjectContext {
    ProjectContext { projects: vec![], rules: vec![], known_project_ids: vec![] }
}

fn rule(id: &str) -> RuleSummary {
    RuleSummary {
        id: id.to_string(),
        input: RuleInput {
            matcher_kind: MatcherKind::CommandLineContains,
            pattern: "vite".to_string(),
            action: RuleAction::AssignProject { project_id: "p".to_string() },
            priority: -3,
            enabled: true,
        },
        created_at: T0.to_string(),
        updated_at: T0.to_string(),
    }
}

#[test]
fn a_project_is_put_into_the_context_once() {
    let mut state = context();
    replace_project_in_context(&mut state, "p", &root("a"));
    replace_project_in_context(&mut state, "p", &root("b"));
    assert_eq!(state.projects.len(), 1);
    assert_eq!(state.projects[0].normalized_path, "/src/b");
    assert_eq!(state.known_project_ids, vec!["p"]);
    assert!(remove_project_from_context(&mut state, "p").is_ok());
    assert!(state.projects.is_empty());
    assert!(remove_project_from_context(&mut state, "p").is_err());
}

#[test]
fn a_rule_is_put_into_the_context_once() {
    let mut state = context();
    replace_rule_in_context(&mut state, &rule("r"));
    replace_rule_in_context(&mut state, &rule("r"));
    assert_eq!(state.rules.len(), 1);
    let shown = classification_rule_for_discovery(&rule("r"));
    assert_eq!(shown.priority, -3);
    assert_eq!(shown.pattern, "vite");
    assert!(remove_rule_from_context(&mut state, "r").is_ok());
    assert!(remove_rule_from_context(&mut state, "r").is_err());
}

#[test]
fn a_context_knows_the_projects_of_the_catalog() {
    let texts = |list: &[&str]| list.iter().map(|text| text.to_string()).collect::<Vec<String>>();
    assert!(validate_project_context(&texts(&["a", "b"]), &texts(&["b", "a"])).is_ok());
    assert!(validate_project_context(&texts(&["b", "a"]), &texts(&["a", "b"])).is_err());
    assert!(validate_project_context(&texts(&["a"]), &texts(&["a", "b"])).is_err());
    assert!(validate_project_context(&texts(&["a", "b"]), &texts(&["a"])).is_err());
}

fn project(updated_at: &str) -> ProjectSummary {
    ProjectSummary {
        id: "p".to_string(),
        input: ProjectInput { name: "old".to_string(), root_directory: "/x".to_string() },
        created_at: T0.to_string(),
        updated_at: updated_at.to_string(),
    }
}

fn wanted() -> ProjectInput {
    ProjectInput { name: "new".to_string(), root_directory: "/src/../src/a".to_string() }
}

#[test]
fn a_saved_project_lies_where_the_system_says() {
    let request = SaveProjectRequest::Create { input: wanted() };
    let (saved, state) = save_project(
        context(),
        request,
        SavedFrom::Allocated("p".to_string()),
        &root("a"),
        Ok(T1.to_string()),
    )
    .unwrap();
    assert_eq!(saved.input.root_directory, "/Src/a");
    assert_eq!((saved.created_at.as_str(), saved.updated_at.as_str()), (T1, T1));
    assert_eq!(state.known_project_ids, vec!["p"]);
}

#[test]
fn a_project_that_was_changed_meanwhile_is_not_saved() {
    let update = |expected: &str| SaveProjectRequest::Update {
        project_id: "p".to_string(),
        expected_updated_at: expected.to_string(),
        input: wanted(),
    };
    let error = save_project(
        context(),
        update(T0),
        SavedFrom::Current(project(T1)),
        &root("a"),
        Ok(T1.to_string()),
    )
    .unwrap_err();
    assert_eq!(error.message, "project was modified by another operation");
    assert_eq!(error.details.get("actualUpdatedAt"), Some(T1));
    let (saved, _) = save_project(
        context(),
        update(T1),
        SavedFrom::Current(project(T1)),
        &root("a"),
        Ok(T0.to_string()),
    )
    .unwrap();
    assert_eq!(saved.created_at, T0);
    assert_eq!(saved.updated_at, "2024-01-02T00:00:00.000000001Z");
    assert!(delete_project("p", T0, T1).is_err());
    assert!(delete_project("p", T1, T1).is_ok());
    assert!(delete_classification_rule("r", T0, T1).is_err());
    assert!(require_catalog_version("project", "projectId", "p", T0, T0).is_ok());
}

#[test]
fn a_saved_rule_gets_its_times() {
    let request = SaveRuleRequest::Create { input: rule("r").input };
    let source = SavedFrom::Allocated("r".to_string());
    let (saved, state) =
        save_classification_rule(context(), request, source, Ok(T1.to_string())).unwrap();
    assert_eq!(saved.created_at, T1);
    assert_eq!(state.rules.len(), 1);
}

fn step_of(action: MutationAction<u32>) -> CatalogMutation {
    match action {
        MutationAction::Perform(mutation) => mutation,
        other => panic!("{other:?}"),
    }
}

#[test]
fn a_change_is_committed_after_it_is_published() {
    let mut mutation = CatalogMutation::begin(MutationKind::SaveRule);
    let mut steps = vec![mutation.step];
    loop {
        let event = if mutation.step == MutationStep::Commit {
            MutationEvent::Committed(7)
        } else {
            MutationEvent::Done
        };
        match publish_and_commit_catalog_mutation(mutation, event) {
            MutationAction::Perform(next) => {
                steps.push(next.step);
                mutation = next;
            }
            MutationAction::AnswerCommitted(answer) => {
                assert_eq!(answer, 7);
                break;
            }
            other => panic!("{other:?}"),
        }
    }
    assert_eq!(steps[steps.len() - 2..], [MutationStep::Publish, MutationStep::Commit]);
}

#[test]
fn a_change_that_was_made_before_is_answered_again() {
    let mutation = CatalogMutation::begin(MutationKind::SaveProject);
    assert!(matches!(
        publish_and_commit_catalog_mutation(mutation, MutationEvent::Replayed("first")),
        MutationAction::AnswerReplay("first")
    ));
}

#[test]
fn a_change_that_cannot_be_published_is_taken_back() {
    let failed = || MutationEvent::<u32>::Failed(AppError::new(ErrorCode::Internal, "no"));
    let publish = CatalogMutation {
        kind: MutationKind::SaveRule,
        step: MutationStep::Publish,
        error: None,
    };
    let rollback = step_of(publish_and_commit_catalog_mutation(publish, failed()));
    assert_eq!(rollback.step, MutationStep::Rollback);
    let commit = CatalogMutation {
        kind: MutationKind::SaveRule,
        step: MutationStep::Commit,
        error: None,
    };
    let durable = step_of(publish_and_commit_catalog_mutation(commit, failed()));
    assert_eq!(durable.step, MutationStep::ReadDurable);
    match publish_and_commit_catalog_mutation(durable, failed()) {
        MutationAction::Fail(error) => {
            assert!(error.retryable);
            assert_eq!(
                error.details.get("catalogContextReconcileStatus"),
                Some("durableReadFailed")
            );
        }
        other => panic!("{other:?}"),
    }
}

fn key(pid: u32) -> ProcessInstanceKey {
    ProcessInstanceKey { boot_id: "boot".to_string(), pid, native_start_time: 5 }
}

fn port(number: u16, pid: Option<u32>) -> PortBindingKey {
    PortBindingKey {
        protocol: PortProtocol::Tcp,
        address_family: AddressFamily::Ipv4,
        local_address: "127.0.0.1".to_string(),
        local_port: number,
        process_instance_key: pid.map(key),
    }
}

#[test]
fn entities_stand_in_the_order_of_their_keys() {
    assert!(compare_process_keys(&key(1), &key(2)));
    assert!(!compare_process_keys(&key(2), &key(2)));
    assert!(compare_optional_process_keys(&None, &Some(key(1))));
    assert!(!compare_optional_process_keys(&Some(key(1)), &None));
    assert!(compare_port_bindings(&port(80, None), &port(81, None)));
    assert!(compare_port_bindings(&port(80, None), &port(80, Some(1))));
    assert!(port_protocol_rank(PortProtocol::Tcp) < port_protocol_rank(PortProtocol::Udp));
    assert!(address_family_rank(AddressFamily::Ipv4) < address_family_rank(AddressFamily::Ipv6));
}

#[test]
fn a_collection_takes_a_change_in_at_once() {
    let mut collection: Collection<ProcessInstanceKey> = Collection::new();
    let reported = |pid: u32, bytes: usize| Reported {
        key: key(pid),
        content: format!("p{pid}"),
        counted_bytes: bytes,
    };
    let first = vec![reported(2, 10), reported(1, 20)];
    assert_eq!(collection.project(&first, &vec![]), (2, 30));
    collection.apply(&first, &vec![], 1);
    let second = vec![reported(2, 5)];
    assert_eq!(collection.project(&second, &vec![key(1)]), (1, 5));
    collection.apply(&second, &vec![key(1)], 2);
    assert_eq!((collection.len(), collection.counted_bytes()), (1, 5));
    let frozen = collection.freeze();
    assert_eq!(frozen[0].key.pid, 2);
    assert_eq!(frozen[0].last_seen_revision, 2);
}

fn limits() -> SnapshotLimits {
    SnapshotLimits {
        maximum_safe_revision: 9_007_199_254_740_991,
        maximum_entity_bytes: 100_000,
        maximum_processes: 10_000,
        maximum_port_bindings: 10_000,
        maximum_total_entity_bytes: 10_000_000,
    }
}

fn processes(pids: std::ops::Range<u32>) -> StateDelta<ProcessInstanceKey> {
    let upserted: Vec<Upserted<ProcessInstanceKey>> = pids
        .map(|pid| Upserted { key: key(pid), content: format!("p{pid}"), encoded_bytes: 50 })
        .collect();
    StateDelta { upserted, removed: vec![], encoded_bytes: 1_000 }
}

fn sound(count: usize) -> Vec<EntityChecks> {
    (0..count).map(|_| EntityChecks { key: Ok(()), parent: Ok(()), control: Ok(()) }).collect()
}

fn applied(
    state: &mut RevisionState,
    delta: StateDelta<ProcessInstanceKey>,
    now_ms: u64,
) -> Result<supervisor::revision::RevisionEvent, AppError> {
    let checks = sound(delta.upserted.len());
    state.apply_process_delta(delta, checks, now_ms)
}

#[test]
fn an_unsound_process_is_refused_in_its_turn() {
    let mut state = RevisionState::new(limits());
    let refusal = |words: &str| Err(AppError::new(ErrorCode::InvalidArgument, words));
    let mut checks = sound(3);
    checks[1].control = refusal("control");
    checks[1].parent = refusal("parent");
    checks[2].key = refusal("key");
    let error = state.apply_process_delta(processes(0..3), checks, 0).unwrap_err();
    assert_eq!(error.message, "parent");
    let mut twice = processes(0..2);
    twice.upserted.extend(processes(0..1).upserted);
    let mut checks = sound(3);
    checks[2].key = refusal("key");
    let error = state.apply_process_delta(twice, checks, 0).unwrap_err();
    assert_eq!(error.message, "key");
    let mut twice = processes(0..1);
    twice.upserted.extend(processes(0..2).upserted);
    let mut checks = sound(3);
    checks[2].key = refusal("key");
    let error = state.apply_process_delta(twice, checks, 0).unwrap_err();
    assert_eq!(error.message, "state delta is ambiguous");
    assert_eq!(error.details.get("index"), Some("1"));
    let refused = state.apply_log_batch(5, refusal("batch")).unwrap_err();
    assert_eq!(refused.message, "batch");
    assert_eq!(state.current_revision(), 0);
}

#[test]
fn every_change_has_the_next_revision() {
    let mut state = RevisionState::new(limits());
    assert_eq!(state.current_revision(), 0);
    let event = applied(&mut state, processes(0..3), 0).unwrap();
    assert_eq!(event.revision(), 1);
    assert!(matches!(event.change(), RevisionChange::Process { .. }));
    let ports = StateDelta {
        upserted: vec![Upserted {
            key: port(80, Some(1)),
            content: "port".to_string(),
            encoded_bytes: 40,
        }],
        removed: vec![],
        encoded_bytes: 100,
    };
    assert_eq!(state.apply_port_delta(ports, 0).unwrap().revision(), 2);
    assert_eq!(state.apply_log_batch(5, Ok(())).unwrap().revision(), 3);
    assert_eq!(state.current_revision(), 3);
    assert_ne!(RevisionStreamError::Lagged { skipped: 1 }, RevisionStreamError::Closed);
}

#[test]
fn a_change_over_the_limits_changes_nothing() {
    let mut state = RevisionState::new(limits());
    assert!(applied(&mut state, processes(0..129), 0).is_err());
    let mut large = processes(0..1);
    large.encoded_bytes = 600_000;
    assert!(applied(&mut state, large, 0).is_err());
    let mut twice = processes(0..1);
    twice.removed.push(key(0));
    assert!(applied(&mut state, twice, 0).is_err());
    assert_eq!(state.current_revision(), 0);
}

fn first_page(state: &mut RevisionState, now_ms: u64) -> SystemSnapshot {
    let revision = state.current_revision();
    let session = state.start_snapshot_session(revision, now_ms).unwrap();
    let page = build_snapshot_page(&session, 500).unwrap();
    state.keep_snapshot(session, page, 1_000).unwrap()
}

fn filled() -> RevisionState {
    let mut state = RevisionState::new(limits());
    for start in (0..1_100).step_by(100) {
        applied(&mut state, processes(start..start + 100), 0).unwrap();
    }
    state
}

#[test]
fn a_snapshot_is_handed_out_in_pages() {
    let mut state = filled();
    let first = first_page(&mut state, 0);
    assert_eq!(first.processes.len(), 1_024);
    assert_eq!(first.process_count, 1_100);
    let cursor = first.next_cursor.unwrap();
    let place = match state.continue_snapshot_session(11, &cursor, 10).unwrap() {
        ContinuedSnapshot::NextPage(place) => place,
        other => panic!("{other:?}"),
    };
    let page = build_snapshot_page(state.session(place), 500).unwrap();
    let second = state.issue_page(place, page, 1_000, 10).unwrap();
    assert_eq!(second.processes.len(), 76);
    assert_eq!(second.chunk_index, 1);
    assert!(second.next_cursor.is_none());
    assert_eq!(first.processes[1_023].key.pid + 1, second.processes[0].key.pid);
}

#[test]
fn a_page_that_was_handed_out_is_the_same_again() {
    let mut state = filled();
    let first = first_page(&mut state, 0);
    let again = format_snapshot_cursor(&first.snapshot_id, 0);
    applied(&mut state, processes(5_000..5_001), 1).unwrap();
    match state.continue_snapshot_session(11, &again, 1).unwrap() {
        ContinuedSnapshot::Issued(page) => {
            assert_eq!(page.processes.len(), first.processes.len());
            assert_eq!(page.revision, first.revision);
            assert_eq!(page.next_cursor, first.next_cursor);
        }
        other => panic!("{other:?}"),
    }
}

#[test]
fn a_cursor_that_leads_nowhere_is_refused() {
    let mut state = filled();
    let first = first_page(&mut state, 0);
    let skip = format_snapshot_cursor(&first.snapshot_id, 5);
    assert!(state.continue_snapshot_session(11, &skip, 1).is_err());
    let cursor = first.next_cursor.unwrap();
    assert!(state.continue_snapshot_session(10, &cursor, 1).is_err());
    assert!(state.continue_snapshot_session(11, "nonsense", 1).is_err());
    assert!(state.continue_snapshot_session(11, &cursor, 40_000).is_err());
}

#[test]
fn a_request_begins_a_snapshot_or_goes_on_with_one() {
    let mut state = filled();
    match state.get_snapshot(11, None, 0) {
        Ok(RequestedSnapshot::Started(session)) => assert_eq!(session.processes.len(), 1_100),
        other => panic!("{other:?}"),
    }
    let first = first_page(&mut state, 0);
    match state.get_snapshot(11, first.next_cursor.as_deref(), 1) {
        Ok(RequestedSnapshot::Continued(ContinuedSnapshot::NextPage(0))) => {}
        other => panic!("{other:?}"),
    }
    assert!(state.get_snapshot(12, first.next_cursor.as_deref(), 1).is_err());
    assert!(state.get_snapshot(11, Some("nonsense"), 1).is_err());
}

#[test]
fn there_is_room_for_so_many_snapshots() {
    let mut state = filled();
    for _ in 0..4 {
        first_page(&mut state, 0);
    }
    let revision = state.current_revision();
    assert!(state.start_snapshot_session(revision, 0).is_err());
    assert!(state.start_snapshot_session(revision, 40_000).is_ok());
}

#[test]
fn a_cursor_is_read_back_as_it_was_written() {
    let id = "0123456789abcdef0123456789abcdef";
    let cursor = format_snapshot_cursor(id, 0xab);
    assert_eq!(cursor, format!("{id}:000000ab"));
    assert_eq!(parse_snapshot_cursor(&cursor).unwrap(), (id.to_string(), 0xab));
    for bad in ["", ":", &format!("{id}:AB"), &format!("{id}:000000AB"), &"x".repeat(200)] {
        assert!(parse_snapshot_cursor(bad).is_err(), "{bad}");
    }
    assert_eq!(invalid_snapshot_cursor("why").details.get("reason"), Some("why"));
    assert_eq!(snapshot_collection_count("process", 7).unwrap(), 7);
    assert!(check_chunk_bytes(MAX_SNAPSHOT_CHUNK_PAYLOAD_BYTES).is_ok());
    assert!(check_chunk_bytes(MAX_SNAPSHOT_CHUNK_PAYLOAD_BYTES + 1).is_err());
}

fn export_request() -> ExportRequest {
    ExportRequest { include_application_logs: true, include_database_summary: false }
}

fn manifest() -> DiagnosticsManifest {
    DiagnosticsManifest {
        format_version: 1,
        items: vec![],
        selected_estimated_bytes: 1,
        selected_maximum_bytes: 2,
        byte_budget: 3,
    }
}

fn export_result(name: &str) -> ExportResult {
    ExportResult {
        file_name: name.to_string(),
        total_bytes: 3,
        sha256: sha256_hex(b"abc"),
        manifest: manifest(),
    }
}

fn begin(registry: &mut ExportRegistry, request: &str, operation: &str) -> ExportAction {
    match registry.reserve_export(request, operation, export_request()) {
        Ok(ExportReservation::Active) => {
            begin_export(registry, request.to_string(), operation.to_string(), export_request())
        }
        Ok(ExportReservation::Replay(result)) => ExportAction::Answer(Ok(result)),
        Err(error) => ExportAction::Answer(Err(error)),
    }
}

#[test]
fn an_export_is_answered_again() {
    let mut registry = ExportRegistry::new();
    let ExportAction::Perform(export) = begin(&mut registry, "r1", "op") else {
        panic!("not begun")
    };
    let event = ExportEvent::FileName(Ok("slot-1".to_string()));
    let ExportAction::Perform(export) = advance_export(&mut registry, export, event) else {
        panic!("not named")
    };
    assert!(matches!(export.step, ExportStep::Write));
    let event = ExportEvent::Written(Ok(export_result("slot-1")));
    match advance_export(&mut registry, export, event) {
        ExportAction::Answer(Ok(result)) => assert_eq!(result.file_name, "slot-1"),
        other => panic!("{other:?}"),
    }
    match begin(&mut registry, "r2", "op") {
        ExportAction::Answer(Ok(result)) => assert_eq!(result.file_name, "slot-1"),
        other => panic!("{other:?}"),
    }
    let other = ExportRequest { include_application_logs: false, include_database_summary: false };
    assert!(registry.reserve_export("r3", "op", other).is_err());
    assert_eq!(registry.cancel_export("r1"), CancelDisposition::AlreadyCompleted);
    assert_eq!(registry.cancel_export("r9"), CancelDisposition::NotFound);
    registry.invalidate_completed_slot("slot-1");
    assert!(matches!(begin(&mut registry, "r4", "op"), ExportAction::Perform(_)));
}

fn make_export(registry: &mut ExportRegistry, request: &str, operation: &str, file: &str) {
    let ExportAction::Perform(export) = begin(registry, request, operation) else {
        panic!("not begun")
    };
    let event = ExportEvent::FileName(Ok(file.to_string()));
    let ExportAction::Perform(export) = advance_export(registry, export, event) else {
        panic!("not named")
    };
    let event = ExportEvent::Written(Ok(export_result(file)));
    assert!(matches!(advance_export(registry, export, event), ExportAction::Answer(Ok(_))));
}

#[test]
fn an_export_is_answered_after_others_were_made() {
    let mut registry = ExportRegistry::new();
    make_export(&mut registry, "r1", "op1", "slot-1");
    make_export(&mut registry, "r2", "op2", "slot-2");
    make_export(&mut registry, "r3", "op3", "slot-3");
    for (operation, file) in [("op1", "slot-1"), ("op2", "slot-2"), ("op3", "slot-3")] {
        match begin(&mut registry, "again", operation) {
            ExportAction::Answer(Ok(result)) => assert_eq!(result.file_name, file),
            other => panic!("{other:?}"),
        }
    }
    make_export(&mut registry, "r4", "op4", "slot-1");
    assert!(matches!(begin(&mut registry, "r5", "op2"), ExportAction::Answer(Ok(_))));
    assert!(matches!(begin(&mut registry, "r6", "op1"), ExportAction::Perform(_)));
}

#[test]
fn a_snapshot_is_read_through_while_the_state_changes() {
    let mut state = filled();
    let mut page = first_page(&mut state, 0);
    assert_eq!(page.snapshot_id.len(), 32);
    let mut seen: Vec<u32> = Vec::new();
    let mut now = 0;
    loop {
        assert_eq!(page.revision, 11);
        assert_eq!(page.process_count, 1_100);
        seen.extend(page.processes.iter().map(|entity| entity.key.pid));
        let Some(cursor) = page.next_cursor else { break };
        now += 1;
        let changed = applied(&mut state, processes(9_000..9_001), now).unwrap();
        assert_eq!(changed.revision(), 11 + now);
        page = match state.get_snapshot(11, Some(&cursor), now).unwrap() {
            RequestedSnapshot::Continued(ContinuedSnapshot::NextPage(place)) => {
                let next = build_snapshot_page(state.session(place), 500).unwrap();
                state.issue_page(place, next, 1_000, now).unwrap()
            }
            other => panic!("{other:?}"),
        };
    }
    assert_eq!(seen.len(), 1_100);
    assert!(seen.windows(2).all(|pair| pair[0] < pair[1]));
    assert!(!seen.contains(&9_000));
}

#[test]
fn one_export_runs_at_a_time() {
    let mut registry = ExportRegistry::new();
    let reserved = registry.reserve_export("r1", "op", export_request()).unwrap();
    assert!(matches!(reserved, ExportReservation::Active));
    let error = registry.reserve_export("r2", "op2", export_request()).unwrap_err();
    assert_eq!(error.code, ErrorCode::Conflict);
    assert_eq!(registry.cancel_export("r1"), CancelDisposition::Accepted);
    assert!(registry.is_cancelled("r1"));
    registry.abandon_export("r1");
    assert!(registry.reserve_export("r2", "op2", export_request()).is_ok());
}

#[test]
fn a_failed_export_frees_the_registry() {
    let mut registry = ExportRegistry::new();
    let export = Export {
        request_id: "r1".to_string(),
        operation_id: "op".to_string(),
        request: ExportRequest {
            include_application_logs: true,
            include_database_summary: true,
        },
        step: ExportStep::ReadDatabase,
    };
    registry.reserve_export("r1", "op", export.request).unwrap();
    let broken = AppError::new(ErrorCode::StorageError, "broken");
    let event = ExportEvent::Database(Err(broken));
    assert!(matches!(
        advance_export(&mut registry, export, event),
        ExportAction::Answer(Err(_))
    ));
    assert!(registry.reserve_export("r2", "op2", export_request()).is_ok());
}

#[test]
fn an_export_is_named_by_its_digest() {
    let result = export_result("slot-1");
    assert_eq!(
        result.sha256,
        "ba7816bf8f01cfea414140de5dae2223b00361a396177a9cb410ff61f20015ad"
    );
    assert_eq!(result.sha256, sha256_hex(b"abc"));
    assert_eq!(result.total_bytes, 3);
    assert!(matches!(
        log_export_result(&Ok(export_result("x"))),
        ExportNote::Completed { total_bytes: 3 }
    ));
    let denied = Err(AppError::new(ErrorCode::AccessDenied, "no"));
    assert!(matches!(
        log_export_result(&denied),
        ExportNote::Failed { error_code } if error_code == error_code_identifier(ErrorCode::AccessDenied)
    ));
}

#[test]
fn files_are_used_in_turn() {
    assert_eq!(next_export_slot(0, 3), (0, 1));
    assert_eq!(next_export_slot(4, 3), (1, 5));
    assert_eq!(next_export_slot(255, 3), (0, 0));
    let mut requests = vec![];
    for number in 0..257 {
        remember_completed_request(&mut requests, &format!("r{number}"));
    }
    assert_eq!(requests.len(), 256);
    assert_eq!(requests[0], "r1");
}

#[test]
fn times_are_told_in_milliseconds() {
    let time = UnixTime { seconds: 2, nanoseconds: 3_999_999 };
    assert_eq!(unix_millis(Some(time)).unwrap(), 2_003);
    assert!(unix_millis(None).is_err());
    assert!(current_unix_millis().unwrap() > 1_577_836_800_000);
}

fn diagnostic_limits() -> DiagnosticLimits {
    DiagnosticLimits {
        format_version: 1,
        maximum_system_summary_bytes: 100,
        maximum_database_summary_bytes: 50,
        application_log_content_id: "application-logs".to_string(),
    }
}

#[test]
fn a_manifest_lists_what_an_export_holds() {
    let logs = ContentInput {
        content_id: "application-logs".to_string(),
        selected: true,
        estimated_bytes: 10,
        maximum_bytes: 20,
        truncated: false,
    };
    let inputs = manifest_inputs(&diagnostic_limits(), true, logs, Some((7, 8)));
    assert_eq!(inputs.len(), 3);
    let built = build_manifest(&diagnostic_limits(), &bounded(inputs)).unwrap();
    assert_eq!(built.byte_budget, 1_000);
    assert!(built.items.iter().any(|item| item.kind == ContentKind::ApplicationLogs));
    assert!(check_content_bytes("systemSummary", 100, 100).is_ok());
    let error = check_content_bytes("systemSummary", 101, 100).unwrap_err();
    assert_eq!(error.details.get("content"), Some("systemSummary"));
}

fn bounded(items: Vec<ContentInput>) -> BoundedContents {
    BoundedContents {
        items,
        selected_estimated_bytes: 25,
        selected_maximum_bytes: 170,
        byte_budget: 1_000,
    }
}

fn log_content() -> ContentInput {
    ContentInput {
        content_id: "application-logs".to_string(),
        selected: true,
        estimated_bytes: 10,
        maximum_bytes: 20,
        truncated: false,
    }
}

fn bundle(include_database_summary: bool) -> Bundle {
    let request = ExportRequest { include_application_logs: true, include_database_summary };
    Bundle::begin(request, "slot-1".to_string())
}

fn go_on(bundle: Bundle, event: BundleEvent) -> Bundle {
    match build_and_export_bundle(&diagnostic_limits(), bundle, event) {
        BundleAction::Perform(next) => next,
        other => panic!("{other:?}"),
    }
}

fn refused(bundle: Bundle, event: BundleEvent) -> AppError {
    match build_and_export_bundle(&diagnostic_limits(), bundle, event) {
        BundleAction::Answer(Err(error)) => error,
        other => panic!("{other:?}"),
    }
}

fn summed_up(include_database_summary: bool) -> Bundle {
    let bundle = bundle(include_database_summary);
    let bundle = go_on(bundle, BundleEvent::System { cancelled: false, bytes: Some(100) });
    go_on(bundle, BundleEvent::Logs(Ok(log_content())))
}

#[test]
fn an_export_is_written_at_its_end() {
    let mut bundle = summed_up(false);
    bundle = go_on(bundle, BundleEvent::Database { cancelled: false, bytes: None });
    let BundleStep::BoundContents { inputs } = bundle.step else { panic!("not bounded") };
    assert_eq!(inputs[2].estimated_bytes, 50);
    let contents = bounded(inputs);
    bundle = Bundle { step: BundleStep::BoundContents { inputs: vec![] }, ..self::bundle(false) };
    for event in [
        BundleEvent::Bounded(Ok(contents)),
        BundleEvent::Checked(Ok(())),
        BundleEvent::Clock(Ok(7)),
        BundleEvent::Contents(Some(b"abc".to_vec())),
        BundleEvent::Budget { spent: Ok(()), cancelled: false },
        BundleEvent::Written(Ok(3)),
    ] {
        bundle = go_on(bundle, event);
    }
    let answer =
        build_and_export_bundle(&diagnostic_limits(), bundle, BundleEvent::Checked(Ok(())));
    let BundleAction::Answer(Ok(result)) = answer else { panic!("not answered") };
    assert_eq!(result.sha256, sha256_hex(b"abc"));
    assert_eq!(result.file_name, "slot-1");
    assert_eq!(result.total_bytes, 3);
    assert_eq!(result.manifest.items.len(), 3);
}

#[test]
fn an_export_ends_where_it_is_refused() {
    let event = BundleEvent::System { cancelled: true, bytes: Some(1_000) };
    assert!(is_cancelled_export_error(&refused(bundle(true), event)));
    let event = BundleEvent::System { cancelled: false, bytes: Some(101) };
    let error = refused(bundle(true), event);
    assert_eq!(error.details.get("content"), Some("systemSummary"));
    let event = BundleEvent::System { cancelled: false, bytes: None };
    assert_eq!(refused(bundle(true), event).message, "diagnostic bundle serialization failed");
    let event = BundleEvent::Database { cancelled: false, bytes: Some(51) };
    let error = refused(summed_up(true), event);
    assert_eq!(error.details.get("content"), Some("databaseSummary"));
    let event = BundleEvent::Database { cancelled: true, bytes: Some(51) };
    assert!(is_cancelled_export_error(&refused(summed_up(true), event)));
    let spending = || Bundle {
        step: BundleStep::SpendBudget { manifest: manifest(), contents: b"abc".to_vec() },
        ..bundle(true)
    };
    let none = Err(AppError::new(ErrorCode::Internal, "no room"));
    let error = refused(spending(), BundleEvent::Budget { spent: none, cancelled: true });
    assert_eq!(error.message, "no room");
    let error = refused(spending(), BundleEvent::Budget { spent: Ok(()), cancelled: true });
    assert!(is_cancelled_export_error(&error));
}

#[test]
fn logs_are_captured_to_their_end() {
    let read = |first: u64, next: u64| LogReadMetadata {
        first_available_sequence: Some(1),
        first_sequence: Some(first),
        next_sequence: next,
        end_sequence: 9,
        complete: true,
        dropped_records: 0,
    };
    let start = LogCapture { cursor: None, first: None };
    let capture = match capture_application_logs(start, read(1, 5), true) {
        CaptureStep::ReadOn(capture) => capture,
        other => panic!("{other:?}"),
    };
    match capture_application_logs(capture, read(5, 9), false) {
        CaptureStep::Captured(all) => {
            assert_eq!(all.first_sequence, Some(1));
            assert_eq!(all.next_sequence, 9);
        }
        other => panic!("{other:?}"),
    }
}

#[test]
fn a_cancelled_export_says_so() {
    let fault = LogFault {
        kind: LogErrorKind::ResourceBusy,
        operation: "Publish".to_string(),
        stream: None,
        accepted_input_bytes: 0,
    };
    assert!(is_cancelled_export_error(&diagnostic_export_error(true, &fault)));
    let error = diagnostic_export_error(false, &fault);
    assert_eq!(error.code, ErrorCode::Conflict);
    assert!(error.retryable);
    let error = diagnostic_application_log_error("Read", "Poisoned");
    assert_eq!(error.details.get("diagnosticErrorKind"), Some("Poisoned"));
}
