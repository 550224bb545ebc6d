use supervisor::binding::{BindReply, BindStep};
use supervisor::capturing::{
    reserve_capture, start_managed_log_capture, CaptureStart, CaptureWorker, StreamNames,
};
use supervisor::catalog::SavedFrom;
use supervisor::error::{AppError, ErrorCode};
use supervisor::launch::{LaunchEvent, LaunchStep};
use supervisor::logs::{LogErrorKind, LogFault};
use supervisor::profiles::{LaunchProfile, LaunchProfileInput, SaveLaunchProfileRequest};
use supervisor::recovery::StartupEvent;
use supervisor::registry::ManagedLogReaderRegistry;
use supervisor::run::{Controls, ManagedProcess, Platform, ProcessInstanceKey, RunControl};
use supervisor::runtime::IoFailure;
use supervisor::saving::{
    delete_profile, save_profile_from_wire, ProfileDeleteReply, ProfileDeleteStep,
    ProfileSaveReply, ProfileSaveStep, SaveWithSecrets,
};
use supervisor::secrets::SaveReply;
use supervisor::service::{ManagedRunService, ServiceReply, ServiceStep};
use supervisor::starting::{
    RunStartReply, RunStartStep, StartManagedRunRequest, StartRules, StoredProfile,
};
use supervisor::table::Table;
use supervisor::transport::{EntryFacts, MacOsSocketServerError, MacOsUnixSocketListener};

const T0: &str = "2024-01-01T00:00:00.000000000Z";
const T1: &str = "2024-01-02T00:00:00.000000000Z";
const MAC: Platform = Platform::MacOs;

fn no(words: &str) -> AppError {
    AppError::new(ErrorCode::Internal, words)
}

fn replied(controls: &mut Controls, step: ServiceStep, reply: ServiceReply) -> ServiceStep {
    ManagedRunService::new(controls, MAC, step, reply)
}

fn page(controls: &mut Controls, step: ServiceStep) -> ServiceStep {
    let event = StartupEvent::Page(Ok(vec![]));
    replied(controls, step, ServiceReply::Startup { event, now_ms: 0 })
}

fn reconciling(controls: &mut Controls) -> ServiceStep {
    let mut step = ManagedRunService::begin(MAC, Some("/logs".to_string()));
    for reply in [ServiceReply::Opened(Ok(())), ServiceReply::Drawn(Ok([7; 32]))] {
        step = replied(controls, step, reply);
    }
    assert!(matches!(step, ServiceStep::Reconcile { .. }));
    step
}

#[test]
fn a_service_is_there_though_no_log_could_be_deleted() {
    let mut controls: Controls = Table::new();
    let mut step = reconciling(&mut controls);
    step = page(&mut controls, step);
    for reply in [
        ServiceReply::Done(Ok(())),
        ServiceReply::Done(Ok(())),
        ServiceReply::Scheduled,
        ServiceReply::CleanedUp(Err(no("full"))),
    ] {
        step = replied(&mut controls, step, reply);
    }
    let ServiceStep::Ready { service } = step else { panic!("not ready") };
    assert_eq!(service.log_root, "/logs");
    assert_eq!(service.service_incarnation, [7; 32]);
    assert_eq!(controls.len(), 0);
}

#[test]
fn a_service_is_refused_before_it_reconciles() {
    for root in [None, Some("logs".to_string()), Some(String::new())] {
        match ManagedRunService::begin(MAC, root) {
            ServiceStep::Fail(error) => {
                assert_eq!(error.code, ErrorCode::InvalidArgument);
                assert_eq!(error.details.get("field"), Some("logRoot"));
            }
            other => panic!("{other:?}"),
        }
    }
    let mut controls: Controls = Table::new();
    let fault = LogFault {
        kind: LogErrorKind::PermissionDenied,
        operation: "Open".to_string(),
        stream: None,
        accepted_input_bytes: 0,
    };
    let step = ManagedRunService::begin(MAC, Some("/logs".to_string()));
    match replied(&mut controls, step, ServiceReply::Opened(Err(fault))) {
        ServiceStep::Fail(error) => assert_eq!(error.code, ErrorCode::AccessDenied),
        other => panic!("{other:?}"),
    }
    let step = reconciling(&mut controls);
    let event = StartupEvent::Page(Err(no("unread")));
    let reply = ServiceReply::Startup { event, now_ms: 0 };
    match replied(&mut controls, step, reply) {
        ServiceStep::Fail(error) => assert_eq!(error.message, "unread"),
        other => panic!("{other:?}"),
    }
}

fn service() -> ManagedRunService {
    ManagedRunService { log_root: "/logs".to_string(), service_incarnation: [7; 32] }
}

fn request() -> StartManagedRunRequest {
    StartManagedRunRequest {
        profile_id: "p".to_string(),
        expected_profile_updated_at: T0.to_string(),
    }
}

const RULES: StartRules = StartRules { platform: MAC, context: MAC, maximum_runs: 1 };

fn started(controls: &mut Controls, step: RunStartStep, reply: RunStartReply) -> RunStartStep {
    service().start(controls, &RULES, &request(), step, reply)
}

fn profile(updated_at: &str) -> RunStartReply {
    let stored = StoredProfile { updated_at: updated_at.to_string(), interactive: true };
    RunStartReply::Profile(Ok(stored))
}

fn loading(controls: &mut Controls) -> RunStartStep {
    let mut step = RunStartStep::CheckRequest;
    for reply in [
        RunStartReply::Checked(Ok(())),
        RunStartReply::Entered,
        RunStartReply::CleanedUp(Ok(())),
        RunStartReply::Entered,
    ] {
        step = started(controls, step, reply);
    }
    assert!(matches!(step, RunStartStep::LoadProfile));
    step
}

fn refusal(step: RunStartStep) -> AppError {
    match step {
        RunStartStep::Answered { result: Err(error), .. } => error,
        other => panic!("{other:?}"),
    }
}

#[test]
fn a_run_is_launched_after_it_was_admitted() {
    let mut controls: Controls = Table::new();
    let mut step = loading(&mut controls);
    for reply in [
        profile(T0),
        RunStartReply::Id(Ok("run-1".to_string())),
        RunStartReply::Time(Ok(T1.to_string())),
    ] {
        step = started(&mut controls, step, reply);
    }
    let RunStartStep::StoreIntent { log_directory, started_at, .. } = &step else {
        panic!("not stored")
    };
    assert_eq!((log_directory.as_str(), started_at.as_str()), ("/logs/run-1", T1));
    step = started(&mut controls, step, RunStartReply::Stored(Ok(())));
    let RunStartStep::Launching { launch } = &step else { panic!("not launched") };
    assert_eq!(launch.step, LaunchStep::Preview);
    assert!(launch.interactive);
    assert!(matches!(controls.get("run-1"), Some(RunControl::StartingIntent)));
    let failed = RunStartReply::Launched(LaunchEvent::Failed(no("no preview")));
    step = started(&mut controls, step, failed);
    step = started(&mut controls, step, RunStartReply::Ended(None));
    step = started(&mut controls, step, RunStartReply::FailureStored(true));
    let error = refusal(step);
    assert_eq!(error.message, "no preview");
    assert_eq!(error.details.get("runState"), Some("failed"));
    assert!(!controls.contains("run-1"));
}

#[test]
fn a_run_is_refused_in_its_order() {
    let mut controls: Controls = Table::new();
    let step = RunStartStep::CheckRequest;
    let refused = started(&mut controls, step, RunStartReply::Checked(Err(no("unsound"))));
    assert_eq!(refusal(refused).message, "unsound");
    let elsewhere = StartRules { context: Platform::Windows, ..RULES };
    let step = service().start(
        &mut controls,
        &elsewhere,
        &request(),
        RunStartStep::CheckRequest,
        RunStartReply::Checked(Ok(())),
    );
    assert_eq!(refusal(step).code, ErrorCode::NotSupported);
    let step = RunStartStep::CleanUp { additional_active_reservations: 1 };
    let full = started(&mut controls, step, RunStartReply::CleanedUp(Err(no("full"))));
    assert_eq!(refusal(full).message, "full");
    let step = loading(&mut controls);
    let changed = refusal(started(&mut controls, step, profile(T1)));
    assert_eq!(changed.details.get("actualUpdatedAt"), Some(T1));
    controls.insert("run-1", RunControl::StartingIntent);
    for step in [RunStartStep::WaitForGate, RunStartStep::WaitForRuns] {
        let error = refusal(started(&mut controls, step, RunStartReply::Entered));
        assert_eq!(error.details.get("maximumActiveRuns"), Some("1"));
    }
    let step = RunStartStep::DrawId { interactive: false, attempts_left: 1 };
    let again = started(&mut controls, step, RunStartReply::Id(Ok("run-1".to_string())));
    assert!(matches!(again, RunStartStep::DrawId { attempts_left: 0, .. }));
    let none = started(&mut controls, again, RunStartReply::Id(Ok("run-1".to_string())));
    assert_eq!(refusal(none).message, "failed to allocate a unique managed run ID");
}

#[test]
fn a_terminal_run_is_watched_once_it_is_answered() {
    let mut controls: Controls = Table::new();
    let mut step = loading(&mut controls);
    for reply in [
        profile(T0),
        RunStartReply::Id(Ok("run-1".to_string())),
        RunStartReply::Time(Ok(T1.to_string())),
        RunStartReply::Stored(Ok(())),
    ] {
        step = started(&mut controls, step, reply);
    }
    let RunStartStep::Launching { launch } = step else { panic!("not launched") };
    let launch = supervisor::launch::Launch { step: LaunchStep::BindIdentity, ..launch };
    let process = ManagedProcess {
        handle: 1,
        instance_key: ProcessInstanceKey {
            boot_id: "boot".to_string(),
            pid: 7,
            native_start_time: 5,
        },
        process_group_id: 7,
        terminal: true,
        log_reader: None,
    };
    controls.insert("run-1", RunControl::Suspended(process));
    let reply = RunStartReply::Launched(LaunchEvent::NoTimestamp(no("late")));
    let step = started(&mut controls, RunStartStep::Launching { launch }, reply);
    let RunStartStep::Answered { result, follow_up } = step else { panic!("not answered") };
    assert_eq!(result.unwrap_err().message, "late");
    assert!(!follow_up.watch_exit && !follow_up.retry_cleanup);
}

fn entry(mode: u32) -> EntryFacts {
    EntryFacts { is_symlink: false, is_socket: true, device: 1, inode: 2, uid: 501, mode }
}

fn bound(step: BindStep, reply: BindReply) -> BindStep {
    MacOsUnixSocketListener::bind("/r", 501, step, reply)
}

fn missing() -> BindReply {
    BindReply::Entry(Err(IoFailure::new("NotFound", "none")))
}

#[test]
fn a_socket_is_listened_on_when_it_is_private() {
    let mut step = BindStep::FindRoot;
    for reply in [
        BindReply::Root(Ok("/r/".to_string())),
        BindReply::Entry(Ok(entry(0o777))),
        BindReply::Entry(Ok(entry(0o777))),
        BindReply::Done(Ok(())),
        BindReply::Done(Ok(())),
        BindReply::Entry(Ok(entry(0o755))),
        BindReply::Done(Ok(())),
        BindReply::Entry(Ok(entry(0o100_600))),
    ] {
        step = bound(step, reply);
    }
    let BindStep::Listening { endpoint, listener } = step else { panic!("not listening") };
    assert_eq!(endpoint, "/r/supervisor.sock");
    assert_eq!((listener.generation, listener.live), (0, 0));
    assert_eq!(listener.identity.mode, 0o600);
}

#[test]
fn a_socket_that_is_not_private_is_given_up() {
    let mut step = bound(BindStep::FindRoot, BindReply::Root(Ok("/r".to_string())));
    for reply in [
        missing(),
        BindReply::Done(Ok(())),
        BindReply::Entry(Ok(entry(0o755))),
        BindReply::Done(Ok(())),
        BindReply::Entry(Ok(entry(0o755))),
    ] {
        step = bound(step, reply);
    }
    assert!(matches!(step, BindStep::GiveUp { .. }));
    let step = bound(step, BindReply::Entry(Ok(entry(0o755))));
    assert!(matches!(step, BindStep::RemoveBound { .. }));
    let step = bound(step, BindReply::Done(Ok(())));
    assert!(matches!(
        step,
        BindStep::Fail(MacOsSocketServerError::BoundEndpointModeMismatch { mode: 0o755 })
    ));
    let step = bound(BindStep::FindRoot, BindReply::Root(Ok("/other".to_string())));
    assert!(matches!(step, BindStep::Fail(MacOsSocketServerError::RuntimeRootMismatch)));
    let stale = BindStep::InspectStale { endpoint: "/r/supervisor.sock".to_string() };
    let link = EntryFacts { is_symlink: true, ..entry(0o600) };
    let step = bound(stale, BindReply::Entry(Ok(link)));
    assert!(matches!(step, BindStep::Fail(MacOsSocketServerError::StaleEndpointSymlink)));
}

#[test]
fn a_capture_that_cannot_begin_leaves_no_reader() {
    let mut registry = ManagedLogReaderRegistry::new();
    let names = StreamNames { stdout: "stdout", stderr: "stderr" };
    let step = reserve_capture(&mut registry, "run-1", 4);
    assert!(matches!(step, CaptureStart::Spawn(CaptureWorker::Stdout)));
    assert!(registry.is_active("run-1"));
    assert!(matches!(reserve_capture(&mut registry, "run-1", 5), CaptureStart::Fail(_)));
    let mut spawn = |worker: CaptureWorker, spawned: Result<(), IoFailure>| {
        start_managed_log_capture(&mut registry, "run-1", names, worker, spawned)
    };
    let step = spawn(CaptureWorker::Stdout, Ok(()));
    assert!(matches!(step, CaptureStart::Spawn(CaptureWorker::Stderr)));
    let step = spawn(CaptureWorker::Stderr, Ok(()));
    assert!(matches!(step, CaptureStart::Spawn(CaptureWorker::Events)));
    assert!(matches!(spawn(CaptureWorker::Events, Ok(())), CaptureStart::Capturing));
    let busy = Err(IoFailure::new("WouldBlock", "busy"));
    let CaptureStart::Fail(error) = spawn(CaptureWorker::Stderr, busy) else { panic!("begun") };
    assert_eq!(error.details.get("logStream"), Some("stderr"));
    assert!(error.retryable);
    assert!(!registry.is_active("run-1"));
    assert_eq!(registry.get("run-1"), None);
}

fn input() -> LaunchProfileInput {
    LaunchProfileInput { settings: "{}".to_string(), environment: vec![] }
}

fn wire() -> SaveWithSecrets {
    SaveWithSecrets { request: SaveLaunchProfileRequest::Create { input: input() }, names: vec![] }
}

fn saved() -> LaunchProfile {
    LaunchProfile {
        id: "profile-1".to_string(),
        input: input(),
        created_at: T0.to_string(),
        updated_at: T0.to_string(),
    }
}

fn save(step: ProfileSaveStep, reply: ProfileSaveReply) -> ProfileSaveStep {
    save_profile_from_wire("op", false, step, reply)
}

#[test]
fn a_profile_is_saved_and_then_credentials_are_cleaned_up() {
    let mut step = ProfileSaveStep::CheckRequest { wire: wire() };
    for reply in [
        ProfileSaveReply::Checked(Ok(())),
        ProfileSaveReply::Replayed(Ok(None)),
        ProfileSaveReply::Id(Ok("profile-1".to_string())),
        ProfileSaveReply::Now(Ok(T0.to_string())),
        ProfileSaveReply::Secret(SaveReply::Done),
        ProfileSaveReply::Secret(SaveReply::Done),
        ProfileSaveReply::Secret(SaveReply::Done),
        ProfileSaveReply::Prepared(Ok(())),
        ProfileSaveReply::Committed(Ok(saved())),
    ] {
        step = save(step, reply);
    }
    assert!(matches!(step, ProfileSaveStep::CleanUp { .. }));
    let ProfileSaveStep::Answered { result } = save(step, ProfileSaveReply::Drained(Ok(0))) else {
        panic!("not answered")
    };
    assert_eq!(result.unwrap().id, "profile-1");
    let step = save(ProfileSaveStep::Commit, ProfileSaveReply::Committed(Err(no("lost"))));
    let ProfileSaveStep::Answered { result } = save(step, ProfileSaveReply::Drained(Ok(0))) else {
        panic!("not answered")
    };
    let error = result.unwrap_err();
    assert_eq!(error.details.get("profileMutationFailurePhase"), Some("commit"));
    assert_eq!(error.details.get("credentialCleanup"), Some("complete"));
}

#[test]
fn a_saved_profile_is_answered_again() {
    let replay = ProfileSaveStep::Replay { wire: wire() };
    match save(replay, ProfileSaveReply::Replayed(Ok(Some(saved())))) {
        ProfileSaveStep::Answered { result } => assert_eq!(result.unwrap().created_at, T0),
        other => panic!("{other:?}"),
    }
    let request = SaveLaunchProfileRequest::Update {
        profile_id: "profile-1".to_string(),
        expected_updated_at: T0.to_string(),
        input: input(),
    };
    let replay = ProfileSaveStep::Replay { wire: SaveWithSecrets { request, names: vec![] } };
    let load = save(replay, ProfileSaveReply::Replayed(Ok(None)));
    let clock = save(load, ProfileSaveReply::Current(Ok(saved())));
    assert!(matches!(
        &clock,
        ProfileSaveStep::ReadClock { source: SavedFrom::Current(current), .. }
            if current.id == "profile-1"
    ));
    match save(clock, ProfileSaveReply::Now(Ok(T1.to_string()))) {
        ProfileSaveStep::Secrets { save } => assert_eq!(save.profile.updated_at, T1),
        other => panic!("{other:?}"),
    }
}

#[test]
fn a_deletion_is_checked_before_it_is_answered() {
    let delete = |step: ProfileDeleteStep<u32>, reply: ProfileDeleteReply<u32>| {
        delete_profile("op", step, reply)
    };
    let mut step = ProfileDeleteStep::CheckRequest;
    for reply in [
        ProfileDeleteReply::Checked(Ok(())),
        ProfileDeleteReply::Replayed(Ok(None)),
        ProfileDeleteReply::Now(Ok(T0.to_string())),
        ProfileDeleteReply::Prepared(Ok(())),
        ProfileDeleteReply::Committed(Ok(5)),
        ProfileDeleteReply::Drained(Ok(0)),
    ] {
        step = delete(step, reply);
    }
    assert!(matches!(step, ProfileDeleteStep::CheckAnswer { answer: 5 }));
    let step = delete(step, ProfileDeleteReply::Checked(Ok(())));
    assert!(matches!(step, ProfileDeleteStep::Answered { result: Ok(5) }));
    let replay = delete(ProfileDeleteStep::Replay, ProfileDeleteReply::Replayed(Ok(Some(9))));
    assert!(matches!(replay, ProfileDeleteStep::Answered { result: Ok(9) }));
    let step = ProfileDeleteStep::Prepare { recorded_at: T0.to_string() };
    let step = delete(step, ProfileDeleteReply::Prepared(Err(no("gone"))));
    let step = delete(step, ProfileDeleteReply::Drained(Err(no("later"))));
    let ProfileDeleteStep::Answered { result } = step else { panic!("not answered") };
    assert_eq!(result.unwrap_err().details.get("credentialCleanup"), Some("deferred"));
}
