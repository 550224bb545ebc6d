use supervisor::catalog::SavedFrom;
use supervisor::credentials::{
    after_cleanup_pass, commit_profile_mutation, create_profile_mutation_hmac_key,
    credential_cleanup_label, decode_lower_hex_nibble, decode_profile_mutation_hmac_key,
    drain_credential_cleanup, finish_profile_mutation, initialize_profile_mutation_hmac_key,
    CleanupDrain, CredentialCleanupStatus, DrainStep, KeyReply, KeyStep,
};
use supervisor::enrichment::{
    after_enrichment_batch, decode_params as decode_enrichment, enrichment_batches,
    has_exact_process_instance_key_shape, has_exact_request_shape, validate_request,
    EnrichmentBatchResult, EnrichmentDemand, EnrichmentRequest, EnrichmentResponse, JsonValue,
};
use supervisor::error::{AppError, ErrorCode};
use supervisor::external_stop::{
    bind_external_stop, ExternalStopLedger, ExternalStopRequest, ExternalStopStep, SignalReply,
    MAX_EXTERNAL_STOP_OPERATIONS,
};
use supervisor::profiles::{
    ensure_initial_input_matches, environment_names_equal, replace_environment_secret,
    save_launch_profile_with_secrets, server_profile, sorted_environment, EnvironmentEntry,
    EnvironmentValue, LaunchProfile, LaunchProfileInput, SaveLaunchProfileRequest,
    SecretCredential,
};
use supervisor::rpc::{answer, decode_params, dispatch, Dispatcher, Method, RequestEnvelope, Route};
use supervisor::run::ProcessInstanceKey;
use supervisor::secrets::{advance_secret_save, SaveAction, SaveReply, SaveStep, SecretSave};

fn key(pid: u32) -> ProcessInstanceKey {
    ProcessInstanceKey { boot_id: "boot".to_string(), pid, native_start_time: 5 }
}

fn stop(pid: u32) -> ExternalStopRequest {
    ExternalStopRequest { process_instance_key: key(pid), scope: "singleProcess".to_string() }
}

fn carried_out(ledger: &mut ExternalStopLedger, id: &str, pid: u32) {
    let request = stop(pid);
    assert!(matches!(ledger.stop(id, &request), ExternalStopStep::LookUp));
    assert!(matches!(ledger.after_lookup(id, &request, Ok(None)), ExternalStopStep::Signal));
    let result = ledger.after_signal(id, &request, Ok(SignalReply::SignalDelivered { checked: Ok(()) })).unwrap();
    assert_eq!(result.process_instance_key.pid, pid);
}

#[test]
fn an_external_stop_is_carried_out_once() {
    let mut ledger = ExternalStopLedger::new();
    carried_out(&mut ledger, "op", 7);
    match ledger.stop("op", &stop(7)) {
        ExternalStopStep::Answer(Ok(result)) => assert_eq!(result.process_instance_key.pid, 7),
        other => panic!("{other:?}"),
    }
    match ledger.stop("op", &stop(8)) {
        ExternalStopStep::Answer(Err(error)) => {
            assert_eq!(error.code, ErrorCode::Conflict);
            assert_eq!(error.details.get("existingPid"), Some("7"));
            assert_eq!(error.details.get("requestedPid"), Some("8"));
            assert_eq!(error.operation_id.as_deref(), Some("op"));
        }
        other => panic!("{other:?}"),
    }
}

#[test]
fn a_managed_process_is_not_stopped_from_outside() {
    let mut ledger = ExternalStopLedger::new();
    match ledger.after_lookup("op", &stop(7), Ok(Some("run-1".to_string()))) {
        ExternalStopStep::Answer(Err(error)) => {
            assert_eq!(error.details.get("runId"), Some("run-1"));
            assert_eq!(error.details.get("pid"), Some("7"));
        }
        other => panic!("{other:?}"),
    }
    assert!(matches!(ledger.stop("op", &stop(7)), ExternalStopStep::Answer(Err(_))));
    let unknown = AppError::new(ErrorCode::StorageError, "broken");
    match ledger.after_lookup("op2", &stop(7), Err(unknown)) {
        ExternalStopStep::Answer(Err(error)) => {
            assert_eq!(error.details.get("managedControlLookup"), Some("failedClosed"));
        }
        other => panic!("{other:?}"),
    }
}

#[test]
fn a_process_that_has_exited_is_told_so() {
    let mut ledger = ExternalStopLedger::new();
    let error = ledger.after_signal("op", &stop(7), Ok(SignalReply::AlreadyExited)).unwrap_err();
    assert_eq!(error.code, ErrorCode::AlreadyExited);
    let failed = AppError::new(ErrorCode::AccessDenied, "no").attach_operation_id("other");
    let error = ledger.after_signal("op2", &stop(7), Err(failed)).unwrap_err();
    assert_eq!(error.operation_id.as_deref(), Some("op2"));
    let unsound = Err(AppError::new(ErrorCode::Internal, "unsound"));
    let reply = Ok(SignalReply::SignalDelivered { checked: unsound });
    let error = ledger.after_signal("op3", &stop(7), reply).unwrap_err();
    assert_eq!(error.message, "unsound");
    assert!(matches!(ledger.stop("op3", &stop(7)), ExternalStopStep::Answer(Err(_))));
}

#[test]
fn the_ledger_has_room_for_so_many_operations() {
    let mut ledger = ExternalStopLedger::new();
    for number in 0..MAX_EXTERNAL_STOP_OPERATIONS {
        let id = format!("op{number}");
        let reply = Ok(SignalReply::SignalDelivered { checked: Ok(()) });
        ledger.after_signal(&id, &stop(1), reply).unwrap();
    }
    match ledger.stop("one-more", &stop(1)) {
        ExternalStopStep::Answer(Err(error)) => {
            assert_eq!(error.details.get("capacity"), Some("4096"));
        }
        other => panic!("{other:?}"),
    }
    assert!(matches!(ledger.stop("op5", &stop(1)), ExternalStopStep::Answer(Ok(_))));
}

#[test]
fn an_external_stop_names_its_operation() {
    let (id, request) =
        bind_external_stop("process.stop_external", Some("op"), Some(stop(7))).unwrap();
    assert_eq!((id, request.process_instance_key.pid), ("op", 7));
    let error = bind_external_stop("run.stop", Some("op"), Some(stop(7))).unwrap_err();
    assert_eq!(error.details.get("field"), Some("method"));
    let error = bind_external_stop("process.stop_external", None, Some(stop(7))).unwrap_err();
    assert_eq!(error.details.get("field"), Some("operationId"));
    let error = bind_external_stop("process.stop_external", Some("op"), None).unwrap_err();
    assert_eq!(error.details.get("field"), Some("params"));
}

#[test]
fn a_clean_up_makes_four_passes_and_a_look() {
    let DrainStep::Drain(size, mut drain) = drain_credential_cleanup() else { panic!("done") };
    assert_eq!(size, 64);
    for expected in [64, 64, 64, 1] {
        match after_cleanup_pass(drain, Ok(64)) {
            DrainStep::Drain(size, next) => {
                assert_eq!(size, expected);
                drain = next;
            }
            other => panic!("{other:?}"),
        }
    }
    assert_eq!(drain, CleanupDrain { passes: 4, acknowledged: 256 });
    assert!(matches!(
        after_cleanup_pass(drain, Ok(0)),
        DrainStep::Finished(CredentialCleanupStatus::Complete { acknowledged: 256 })
    ));
    assert!(matches!(
        after_cleanup_pass(drain, Ok(1)),
        DrainStep::Finished(CredentialCleanupStatus::Pending { acknowledged: 257 })
    ));
    let broken = AppError::new(ErrorCode::StorageError, "broken");
    assert!(matches!(
        after_cleanup_pass(drain, Err(broken)),
        DrainStep::Finished(CredentialCleanupStatus::Deferred { acknowledged: 256, .. })
    ));
    assert!(matches!(
        after_cleanup_pass(CleanupDrain { passes: 0, acknowledged: 0 }, Ok(3)),
        DrainStep::Finished(CredentialCleanupStatus::Complete { acknowledged: 3 })
    ));
}

#[test]
fn a_failed_save_says_how_the_clean_up_went() {
    let pending = CredentialCleanupStatus::Pending { acknowledged: 9 };
    assert_eq!(credential_cleanup_label(&pending), "pending");
    let failed: Result<u8, AppError> = Err(AppError::new(ErrorCode::StorageError, "broken"));
    let failed = commit_profile_mutation(failed, "op");
    let error = finish_profile_mutation(failed, pending).unwrap_err();
    assert!(error.retryable);
    assert_eq!(error.operation_id.as_deref(), Some("op"));
    assert_eq!(error.details.get("profileMutationFailurePhase"), Some("commit"));
    assert_eq!(error.details.get("credentialCleanup"), Some("pending"));
    let complete = CredentialCleanupStatus::Complete { acknowledged: 0 };
    let mutation = finish_profile_mutation(Ok(5), complete).unwrap();
    assert_eq!(*mutation.value(), 5);
    assert!(matches!(
        mutation.credential_cleanup(),
        CredentialCleanupStatus::Complete { acknowledged: 0 }
    ));
    assert_eq!(mutation.into_parts().0, 5);
}

#[test]
fn a_key_is_read_back_as_it_was_written() {
    let encoded = create_profile_mutation_hmac_key().unwrap();
    assert_eq!(encoded.len(), 64);
    assert_ne!(encoded, create_profile_mutation_hmac_key().unwrap());
    let key = decode_profile_mutation_hmac_key(encoded.as_bytes()).unwrap();
    let mut text = String::new();
    for byte in key {
        text.push_str(&format!("{byte:02x}"));
    }
    assert_eq!(text, encoded);
    assert_eq!(decode_lower_hex_nibble(b'f'), Some(15));
    assert_eq!(decode_lower_hex_nibble(b'F'), None);
}

#[test]
fn a_key_that_was_not_written_here_is_refused() {
    for encoded in ["", "ab", &"G".repeat(64), &"A".repeat(64)] {
        let error = decode_profile_mutation_hmac_key(encoded.as_bytes()).unwrap_err();
        assert_eq!(error.details.get("state"), Some("invalidCredentialMaterial"));
    }
}

#[test]
fn a_missing_key_is_made_only_where_none_was_used() {
    let missing = || KeyReply::Stored(Err(AppError::new(ErrorCode::NotFound, "none")));
    let search = |used: bool| {
        let ledger = KeyReply::Ledger(Ok(used));
        initialize_profile_mutation_hmac_key(KeyStep::AskLedger, ledger)
    };
    let create = initialize_profile_mutation_hmac_key(search(false), missing());
    assert!(matches!(create, KeyStep::Create));
    match initialize_profile_mutation_hmac_key(search(true), missing()) {
        KeyStep::Fail(error) => {
            assert_eq!(error.details.get("state"), Some("missingKeyWithExistingLedger"));
        }
        other => panic!("{other:?}"),
    }
    let stored = || KeyReply::Stored(Ok("0f".repeat(32).into_bytes()));
    match initialize_profile_mutation_hmac_key(search(true), stored()) {
        KeyStep::Use(key) => assert_eq!(key, [15; 32]),
        other => panic!("{other:?}"),
    }
    let denied = KeyReply::Stored(Err(AppError::new(ErrorCode::AccessDenied, "no")));
    let step = initialize_profile_mutation_hmac_key(search(false), denied);
    assert!(matches!(step, KeyStep::Fail(_)));
    let unread = KeyReply::Ledger(Err(AppError::new(ErrorCode::StorageError, "no")));
    let step = initialize_profile_mutation_hmac_key(KeyStep::AskLedger, unread);
    assert!(matches!(step, KeyStep::Fail(_)));
    let back = initialize_profile_mutation_hmac_key(create, KeyReply::Created(Ok(())));
    assert!(matches!(back, KeyStep::ReadBack));
    match initialize_profile_mutation_hmac_key(back, missing()) {
        KeyStep::Fail(error) => assert_eq!(error.message, "none"),
        other => panic!("{other:?}"),
    }
    let step = initialize_profile_mutation_hmac_key(KeyStep::ReadBack, stored());
    assert!(matches!(step, KeyStep::Use(_)));
}

fn literal(name: &str, text: &str) -> EnvironmentEntry {
    EnvironmentEntry {
        name: name.to_string(),
        value: EnvironmentValue::Literal(text.to_string()),
    }
}

fn input(entries: Vec<EnvironmentEntry>) -> LaunchProfileInput {
    LaunchProfileInput { settings: "{}".to_string(), environment: entries }
}

fn names(input: &LaunchProfileInput) -> Vec<&str> {
    input.environment.iter().map(|entry| entry.name.as_str()).collect()
}

#[test]
fn the_case_of_a_variable_matters_outside_windows() {
    assert!(environment_names_equal("Path", "PATH", true));
    assert!(!environment_names_equal("Path", "PATH", false));
    assert!(!environment_names_equal("É", "é", true));
    assert!(!environment_names_equal("PATHS", "PATH", true));
}

#[test]
fn a_reference_takes_the_place_of_a_secret() {
    let mut profile = input(vec![literal("B", "1"), literal("Token", "x")]);
    replace_environment_secret(&mut profile, "TOKEN", "ref-1", true);
    assert_eq!(names(&profile), vec!["B", "TOKEN"]);
    assert!(matches!(
        &profile.environment[1].value,
        EnvironmentValue::CredentialReference(reference) if reference == "ref-1"
    ));
    replace_environment_secret(&mut profile, "A", "ref-2", true);
    assert_eq!(names(&profile), vec!["B", "TOKEN", "A"]);
}

#[test]
fn variables_are_sorted_and_keep_their_order_under_one_name() {
    let sorted = sorted_environment(&vec![literal("b", "1"), literal("a", "2"), literal("b", "0")]);
    let shown: Vec<String> = sorted
        .iter()
        .map(|entry| match &entry.value {
            EnvironmentValue::Literal(text) => format!("{}{}", entry.name, text),
            EnvironmentValue::CredentialReference(text) => text.clone(),
        })
        .collect();
    assert_eq!(shown, vec!["a2", "b1", "b0"]);
}

fn profile(id: &str) -> LaunchProfile {
    LaunchProfile {
        id: id.to_string(),
        input: input(vec![literal("B", "1")]),
        created_at: "2024-01-01T00:00:00.000000000Z".to_string(),
        updated_at: "2024-01-01T00:00:00.000000000Z".to_string(),
    }
}

#[test]
fn a_profile_is_stored_with_references_only() {
    let request = SaveLaunchProfileRequest::Update {
        profile_id: "p".to_string(),
        expected_updated_at: "t".to_string(),
        input: input(vec![literal("B", "1")]),
    };
    let secrets = vec![SecretCredential {
        name: "A".to_string(),
        credential_reference: "ref".to_string(),
    }];
    let (stored_request, stored) =
        save_launch_profile_with_secrets(request, profile("p"), &secrets, false).unwrap();
    assert_eq!(names(&stored.input), vec!["A", "B"]);
    match stored_request {
        SaveLaunchProfileRequest::Update { profile_id, input, .. } => {
            assert_eq!(profile_id, "p");
            assert_eq!(names(&input), vec!["A", "B"]);
        }
        other => panic!("{other:?}"),
    }
}

#[test]
fn a_profile_that_was_not_asked_for_is_refused() {
    let request = SaveLaunchProfileRequest::Update {
        profile_id: "q".to_string(),
        expected_updated_at: "t".to_string(),
        input: input(vec![literal("B", "1")]),
    };
    let error = ensure_initial_input_matches(&request, &profile("p")).unwrap_err();
    assert_eq!(error.code, ErrorCode::Internal);
    let other = SaveLaunchProfileRequest::Create { input: input(vec![]) };
    assert!(ensure_initial_input_matches(&other, &profile("p")).is_err());
    let same = SaveLaunchProfileRequest::Create { input: input(vec![literal("B", "1")]) };
    assert!(ensure_initial_input_matches(&same, &profile("p")).is_ok());
}

#[test]
fn a_changed_profile_keeps_its_first_time() {
    let request = SaveLaunchProfileRequest::Update {
        profile_id: "p".to_string(),
        expected_updated_at: "t".to_string(),
        input: input(vec![]),
    };
    let now = Ok("2023-01-01T00:00:00.000000000Z".to_string());
    let changed = server_profile(&request, SavedFrom::Current(profile("p")), now).unwrap();
    assert_eq!(changed.created_at, "2024-01-01T00:00:00.000000000Z");
    assert_eq!(changed.updated_at, "2024-01-01T00:00:00.000000001Z");
    assert!(changed.input.environment.is_empty());
    let create = SaveLaunchProfileRequest::Create { input: input(vec![]) };
    let now = Ok("2023-01-01T00:00:00.000000000Z".to_string());
    let made = server_profile(&create, SavedFrom::Allocated("n".to_string()), now).unwrap();
    assert_eq!(made.id, "n");
    assert_eq!(made.created_at, made.updated_at);
}

fn envelope(method: Method, name: &str, operation: Option<&str>) -> RequestEnvelope {
    RequestEnvelope {
        method,
        method_name: name.to_string(),
        operation_id: operation.map(|id| id.to_string()),
    }
}

#[test]
fn a_change_names_its_operation() {
    let save = envelope(Method::ProjectSave, "save", None);
    let error = dispatch(Dispatcher::Catalog, &save).unwrap_err();
    assert_eq!(error.details.get("reason"), Some("is required for catalog mutations"));
    assert_eq!(error.details.get("method"), Some("save"));
    let save = envelope(Method::ProjectSave, "save", Some("op"));
    match dispatch(Dispatcher::Catalog, &save).unwrap() {
        Route::Handle(operation) => assert_eq!(operation.as_deref(), Some("op")),
        other => panic!("{other:?}"),
    }
    assert!(matches!(dispatch(Dispatcher::Stop, &save).unwrap(), Route::NotHandled));
    let profile = envelope(Method::ProfileDelete, "delete", None);
    let error = dispatch(Dispatcher::Profile, &profile).unwrap_err();
    assert_eq!(error.message, "profile mutation requires an operation ID");
}

#[test]
fn a_read_names_no_operation() {
    let read = envelope(Method::RunGetHistory, "run.get_history", Some("op"));
    let error = dispatch(Dispatcher::History, &read).unwrap_err();
    assert_eq!(error.details.get("reason"), Some("must be null for run.get_history"));
    assert_eq!(error.operation_id.as_deref(), Some("op"));
    let list = envelope(Method::ProfileList, "list", Some("op"));
    assert!(matches!(dispatch(Dispatcher::Profile, &list).unwrap(), Route::Handle(Some(_))));
    let unlisted = envelope(Method::Unlisted, "x", None);
    for dispatcher in [
        Dispatcher::Catalog,
        Dispatcher::Profile,
        Dispatcher::Stop,
        Dispatcher::Exit,
        Dispatcher::History,
        Dispatcher::Log,
        Dispatcher::Diagnostics,
        Dispatcher::Enrichment,
    ] {
        assert!(matches!(dispatch(dispatcher, &unlisted).unwrap(), Route::NotHandled));
    }
}

#[test]
fn parameters_that_cannot_be_read_are_refused() {
    let read = envelope(Method::RunGetLogRange, "run.get_log_range", None);
    let error = decode_params::<u8>(Dispatcher::Log, &read, None).unwrap_err();
    assert_eq!(
        error.details.get("reason"),
        Some("must contain exactly the fields required by run.get_log_range")
    );
    assert_eq!(decode_params(Dispatcher::Log, &read, Some(4)).unwrap(), 4);
    let failed: Result<u8, AppError> = Err(AppError::new(ErrorCode::NotFound, "none"));
    let error = answer(failed, &Some("op".to_string())).unwrap_err();
    assert_eq!(error.operation_id.as_deref(), Some("op"));
    assert_eq!(answer(Ok(3), &None).unwrap(), 3);
}

fn key_json() -> JsonValue {
    let field = |name: &str| (name.to_string(), JsonValue::Scalar);
    JsonValue::Object(vec![field("bootId"), field("pid"), field("nativeStartTime")])
}

fn request_json(visible: JsonValue, selected: JsonValue) -> JsonValue {
    JsonValue::Object(vec![
        ("visibleProcessInstanceKeys".to_string(), visible),
        ("selectedProcessInstanceKey".to_string(), selected),
    ])
}

#[test]
fn a_request_to_learn_more_has_an_exact_shape() {
    assert!(has_exact_process_instance_key_shape(&key_json()));
    let good = request_json(JsonValue::Array(vec![key_json()]), JsonValue::Null);
    assert!(has_exact_request_shape(&good));
    let good = request_json(JsonValue::Array(vec![]), key_json());
    assert!(has_exact_request_shape(&good));
    let bad = request_json(JsonValue::Array(vec![JsonValue::Null]), JsonValue::Null);
    assert!(!has_exact_request_shape(&bad));
    let bad = request_json(JsonValue::Null, JsonValue::Null);
    assert!(!has_exact_request_shape(&bad));
    let bad = request_json(JsonValue::Array(vec![]), JsonValue::Scalar);
    assert!(!has_exact_request_shape(&bad));
    assert!(!has_exact_request_shape(&JsonValue::Null));
    let read = envelope(Method::ProcessRequestEnrichment, "process.request_enrichment", None);
    let decoded = Some(EnrichmentRequest { visible: vec![], selected: None });
    assert!(decode_enrichment(&read, &JsonValue::Null, decoded).is_err());
}

#[test]
fn processes_are_asked_for_once() {
    let read = envelope(Method::ProcessRequestEnrichment, "process.request_enrichment", None);
    let request = EnrichmentRequest { visible: vec![key(1), key(2), key(1)], selected: None };
    let fine = || vec![Ok(()), Ok(()), Ok(())];
    let error = validate_request(&read, &request, &fine(), &Ok(())).unwrap_err();
    assert_eq!(error.details.get("reason"), Some("must contain unique process identities"));
    let mut verdicts = fine();
    verdicts[1] =
        Err(AppError::new(ErrorCode::InvalidArgument, "bad").with_detail("reason", "is odd"));
    let error = validate_request(&read, &request, &verdicts, &Ok(())).unwrap_err();
    assert_eq!(error.details.get("field"), Some("visibleProcessInstanceKeys[1]"));
    assert_eq!(error.details.get("reason"), Some("is odd"));
    let many = EnrichmentRequest { visible: (0..65).map(key).collect(), selected: None };
    let verdicts = (0..65).map(|_| Ok(())).collect();
    let error = validate_request(&read, &many, &verdicts, &Ok(())).unwrap_err();
    assert_eq!(error.details.get("reason"), Some("must contain at most 64 process identities"));
}

#[test]
fn batches_hold_the_chosen_process_first() {
    let request =
        EnrichmentRequest { visible: (0..64).map(key).collect(), selected: Some(key(900)) };
    let batches = enrichment_batches(&request);
    assert_eq!(batches.len(), 2);
    assert_eq!((batches[0].len(), batches[1].len()), (64, 1));
    assert_eq!(batches[0][0].instance_key.pid, 900);
    assert_eq!(batches[0][0].demand, EnrichmentDemand::SelectedMetadataAndPorts);
    let shown = EnrichmentRequest { visible: vec![key(1), key(2)], selected: Some(key(2)) };
    let batches = enrichment_batches(&shown);
    let pids: Vec<u32> = batches[0].iter().map(|item| item.instance_key.pid).collect();
    assert_eq!(pids, vec![2, 1]);
}

#[test]
fn a_process_that_is_gone_is_passed_over() {
    let start = EnrichmentResponse { visible_accepted: 0, selected_accepted: false };
    let gone = AppError::new(ErrorCode::NotFound, "gone");
    let results = vec![
        EnrichmentBatchResult { instance_key: key(1), result: Ok(()) },
        EnrichmentBatchResult { instance_key: key(2), result: Err(gone) },
        EnrichmentBatchResult { instance_key: key(3), result: Ok(()) },
    ];
    let response = after_enrichment_batch(start, &Some(key(3)), results).unwrap();
    assert_eq!(response, EnrichmentResponse { visible_accepted: 1, selected_accepted: true });
    let broken = AppError::new(ErrorCode::Internal, "broken");
    let results = vec![EnrichmentBatchResult { instance_key: key(2), result: Err(broken) }];
    assert!(after_enrichment_batch(start, &None, results).is_err());
}

fn save_on(action: SaveAction, reply: SaveReply) -> SaveAction {
    match action {
        SaveAction::Perform(save) => advance_secret_save(save, reply),
        other => panic!("{other:?}"),
    }
}

#[test]
fn a_secret_is_staged_before_it_is_put() {
    let request = SaveLaunchProfileRequest::Create { input: input(vec![literal("B", "1")]) };
    let names = vec!["A".to_string(), "B".to_string()];
    let save = SecretSave::begin(request, profile("p"), names, false);
    let mut action = SaveAction::Perform(save);
    for _ in 0..3 {
        action = save_on(action, SaveReply::Done);
    }
    for reference in ["ref-a", "ref-b"] {
        assert!(matches!(
            &action,
            SaveAction::Perform(save) if matches!(save.step, SaveStep::MakeReference)
        ));
        action = save_on(action, SaveReply::Reference(reference.to_string()));
        assert!(matches!(
            &action,
            SaveAction::Perform(save) if matches!(save.step, SaveStep::Stage { .. })
        ));
        action = save_on(action, SaveReply::Done);
        assert!(matches!(
            &action,
            SaveAction::Perform(save) if matches!(save.step, SaveStep::Put { .. })
        ));
        action = save_on(action, SaveReply::Done);
    }
    let SaveAction::Persist { profile, secrets, .. } = action else { panic!("not stored") };
    assert_eq!(secrets.len(), 2);
    for (entry, reference) in profile.input.environment.iter().zip(["ref-a", "ref-b"]) {
        assert!(matches!(
            &entry.value,
            EnvironmentValue::CredentialReference(text) if text == reference
        ));
    }
}

#[test]
fn a_save_that_fails_a_check_touches_no_secret() {
    let request = SaveLaunchProfileRequest::Create { input: input(vec![]) };
    let save = SecretSave::begin(request, profile("p"), vec!["A".to_string()], false);
    assert!(matches!(advance_secret_save(save, SaveReply::Done), SaveAction::Fail(_)));
    let request = SaveLaunchProfileRequest::Create { input: input(vec![literal("B", "1")]) };
    let save = SecretSave::begin(request, profile("p"), vec![], false);
    let mut action = SaveAction::Perform(save);
    for _ in 0..3 {
        action = save_on(action, SaveReply::Done);
    }
    assert!(matches!(action, SaveAction::Persist { .. }));
}
