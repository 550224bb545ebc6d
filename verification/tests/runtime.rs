use supervisor::endpoints::{
    bind_private_socket, create_current_user_pipe, created_pipe, is_valid_pipe_name, wide_nul,
    PipeSecurityError, SocketReply, SocketSecurityError, SocketStep,
};
use supervisor::error::{AppError, ErrorCode};
use supervisor::accepting::{PipeReply, PipeStep, SocketAcceptReply, SocketAcceptStep};
use supervisor::job_object::{
    launch_plan, launch_suspended_into_job, windows_result, EndCall, LaunchReply, LaunchSpec,
    LaunchState, SpikeError as JobError, SuspendedProcess,
};
use supervisor::paths::{
    is_absolute_path, is_entry_of, is_run_directory, join_path, parent_path, same_path,
};
use supervisor::platform::{
    clear_extended_acl, create_private_directory, current_user_home, home_buffer_len,
    inspect_acl_entries, is_single_name, mkdir_at, no_acl_or_error, open_or_create_directory_at,
    open_private_file, path_component_c_string, prepare_runtime_directory, validate_handle,
    validate_parent_directory, wide_path, windows_error, words_for, AclEntry, AclReply, AclStep,
    DirectoryReply, FileFacts, HomeStep, ENOATTR, ERANGE, ERROR_ALREADY_EXISTS, MAX_BUFFER_BYTES,
};
use supervisor::process_group::{
    after_socket_answer, c_char_array_to_string, call_pidinfo, map_errno, probe_process,
    probe_socket_fd, probe_socket_fds, socket_fds, validate_identity, GroupSignal,
    MacProcessIdentity, ManagedProcessGroup, NativeFailure, ProcessProbe, RawProcess,
    SocketAnswer, SocketProbeStep, SpikeError, EBADF, EPERM, ESRCH,
};
use supervisor::run::Platform;
use supervisor::runtime::{
    acquire, io_app_error, AcquireReply, AcquireStep, AuthenticatedPeerMessage,
    AuthenticatedPeerProcessId, ClientMessage, ClientMessageKind, IoFailure, RuntimePaths,
    SessionToken, UserFolder,
};
use supervisor::rpc::{Method, RequestEnvelope};
use supervisor::transport::{
    confirm_stale_endpoint, inspect_bound_endpoint, is_occupied_error, peer_pid, pipe_sddl,
    remove_stale_endpoint, secure_bound_endpoint, socket_endpoint, validate_endpoint_path,
    EntryFacts, HandshakeReply, MacOsSocketServerError, MacOsUnixSocketListener, SocketIdentity,
    StaleStep, WindowsNamedPipeListener, WindowsPipeServerError, SOCKET_MODE,
};

fn folder(path: &str) -> UserFolder {
    UserFolder { path: path.to_string(), session_id: 3 }
}

fn failure(kind: &str) -> IoFailure {
    IoFailure::new(kind, "words")
}

#[test]
fn paths_lie_below_the_folder_of_the_user() {
    let paths = RuntimePaths::for_current_user(Platform::MacOs, Ok(folder("/Users/a"))).unwrap();
    assert_eq!(
        paths.root(),
        "/Users/a/Library/Application Support/DevProcessManager/runtime"
    );
    assert_eq!(
        paths.lock_file(),
        "/Users/a/Library/Application Support/DevProcessManager/runtime/supervisor.lock"
    );
    let windows =
        RuntimePaths::for_current_user(Platform::Windows, Ok(folder("C:\\Local"))).unwrap();
    assert_eq!(
        windows.session_token_file(),
        "C:\\Local\\DevProcessManager\\session-3\\runtime\\session.token"
    );
    assert_eq!(join_path(Platform::MacOs, "/", "x"), "/x");
    assert!(mac_paths().same(&mac_paths().copy()));
    assert!(!mac_paths().same(&windows));
}

fn mac_paths() -> RuntimePaths {
    RuntimePaths::for_current_user(Platform::MacOs, Ok(folder("/r"))).unwrap()
}

#[test]
fn paths_are_the_same_by_their_parts() {
    let mac = Platform::MacOs;
    let windows = Platform::Windows;
    assert!(same_path(mac, "/a/b", "/a//b/"));
    assert!(same_path(mac, "/a/./b", "/a/b/."));
    assert!(!same_path(mac, "./a", "a"));
    assert!(!same_path(mac, "/a", "a"));
    assert!(!same_path(mac, "/a/../b", "/b"));
    assert!(!same_path(mac, "/a\\b", "/a/b"));
    assert!(same_path(windows, "c:\\x", "C:/x"));
    assert!(!same_path(windows, "C:x", "C:\\x"));
    assert!(same_path(windows, "\\\\srv\\share\\x", "//srv/share/x"));
    assert!(!same_path(windows, "\\\\srv\\share", "\\\\srv\\SHARE"));
    assert!(!same_path(windows, "\\\\?\\C:\\a/b", "\\\\?\\C:\\a\\b"));
    assert!(same_path(windows, "\\\\?\\c:\\a", "\\\\?\\C:\\a"));
}

#[test]
fn names_are_joined_and_taken_off() {
    let mac = Platform::MacOs;
    let windows = Platform::Windows;
    assert_eq!(join_path(windows, "C:", "x"), "C:x");
    assert_eq!(join_path(windows, "C:\\", "x"), "C:\\x");
    assert_eq!(join_path(windows, "C:\\a", "x"), "C:\\a\\x");
    assert_eq!(join_path(windows, "C:\\a", "\\x"), "C:\\x");
    assert_eq!(join_path(windows, "C:\\a", "D:x"), "D:x");
    assert_eq!(join_path(mac, "/a", "/x"), "/x");
    assert_eq!(join_path(mac, "", "x"), "x");
    assert_eq!(parent_path(mac, "/a/b"), Some("/a".to_string()));
    assert_eq!(parent_path(mac, "/a"), Some("/".to_string()));
    assert_eq!(parent_path(mac, "a"), Some(String::new()));
    assert_eq!(parent_path(mac, "/"), None);
    assert_eq!(parent_path(windows, "C:\\a"), Some("C:\\".to_string()));
    assert_eq!(parent_path(windows, "C:\\"), None);
    assert_eq!(parent_path(windows, "\\\\srv\\share"), None);
    assert!(is_entry_of(mac, "/a//x", "/a/", "x"));
    assert!(!is_entry_of(mac, "/a/b/x", "/a", "x"));
}

#[test]
fn a_log_directory_is_the_runs_own() {
    assert!(is_run_directory(Platform::MacOs, "/logs/", "run-1", "/logs//run-1"));
    assert!(!is_run_directory(Platform::MacOs, "/logs", "run-1", "/logs/run-2"));
    assert!(is_run_directory(Platform::Windows, "C:\\logs", "run-1", "c:/logs/run-1"));
}

#[test]
fn a_folder_that_is_not_absolute_is_refused() {
    let error =
        RuntimePaths::for_current_user(Platform::MacOs, Ok(folder("home"))).unwrap_err();
    assert_eq!(error.message, "resolve current-user runtime directory failed");
    assert_eq!(error.details.get("ioKind"), Some("InvalidData"));
    for path in ["Local", "\\Local", "C:Local"] {
        assert!(RuntimePaths::for_current_user(Platform::Windows, Ok(folder(path))).is_err());
    }
    assert!(is_absolute_path(Platform::Windows, "C:/Local"));
    assert!(is_absolute_path(Platform::Windows, "\\\\srv\\share"));
}

#[test]
fn files_lie_in_the_root_of_every_user() {
    for (platform, path) in [
        (Platform::MacOs, "/"),
        (Platform::MacOs, "/Users/a/"),
        (Platform::Windows, "C:\\"),
        (Platform::Windows, "C:/Users/a"),
        (Platform::Windows, "\\\\srv\\share"),
        (Platform::Windows, "\\\\?\\UNC\\srv"),
        (Platform::Windows, "\\\\?\\C:"),
    ] {
        let paths = RuntimePaths::for_current_user(platform, Ok(folder(path))).unwrap();
        let lock = parent_path(platform, paths.lock_file());
        let token = parent_path(platform, paths.session_token_file());
        assert_eq!(lock.as_deref(), Some(paths.root()));
        assert_eq!(token.as_deref(), Some(paths.root()));
        assert!(!same_path(platform, paths.lock_file(), paths.session_token_file()));
    }
}

#[test]
fn a_failed_call_is_answered_with_its_kind() {
    let error = io_app_error("open", Some("/x"), failure("PermissionDenied"));
    assert_eq!(error.code, ErrorCode::AccessDenied);
    assert!(!error.retryable);
    assert_eq!(error.details.get("path"), Some("/x"));
    assert!(io_app_error("open", None, failure("WouldBlock")).retryable);
}

#[test]
fn a_session_token_is_random() {
    let token = SessionToken::generate().unwrap();
    let other = SessionToken::generate().unwrap();
    assert_ne!(token.as_bytes(), other.as_bytes());
    assert!(!token.same(&other));
    assert!(token.same(&token.copy()));
    assert_eq!(token.copy().as_bytes(), token.as_bytes());
    assert_eq!(token.debug_text(), "SessionToken([REDACTED; 32])");
}

#[test]
fn a_session_token_is_what_was_drawn() {
    assert_eq!(SessionToken::from_drawn(Ok([5; 32])).unwrap().as_bytes(), &[5; 32]);
    let refused = SessionToken::from_drawn(Err("no entropy".to_string()));
    assert!(refused.is_err());
    if let Err(error) = refused {
        assert_eq!(error.code, ErrorCode::PlatformError);
        assert_eq!(error.message, "failed to generate the Supervisor session token");
        assert_eq!(error.details.get("operation"), Some("generate session token"));
        assert_eq!(error.details.get("source"), Some("no entropy"));
    }
}

#[test]
fn a_supervisor_starts_when_its_token_is_published() {
    let paths = mac_paths();
    let mut step = AcquireStep::Prepare;
    let mut steps = 0;
    while !matches!(step, AcquireStep::Acquired) {
        step = acquire(&paths, step, AcquireReply::Done);
        steps += 1;
    }
    assert_eq!(steps, 9);
}

#[test]
fn a_second_supervisor_is_refused() {
    let paths = mac_paths();
    match acquire(&paths, AcquireStep::TryLock, AcquireReply::WouldBlock) {
        AcquireStep::Fail(error) => {
            assert_eq!(error.code, ErrorCode::Conflict);
            assert!(error.retryable);
            assert_eq!(error.details.get("path"), Some("/r/Library/Application Support/DevProcessManager/runtime/supervisor.lock"));
        }
        other => panic!("{other:?}"),
    }
}

#[test]
fn a_token_that_cannot_be_written_is_discarded() {
    let paths = mac_paths();
    let missing = AcquireReply::Failed(failure("NotFound"));
    let step = acquire(&paths, AcquireStep::RemoveStaleTemporary, missing);
    assert!(matches!(step, AcquireStep::OpenTemporary));
    let full = AcquireReply::Failed(failure("StorageFull"));
    let step = acquire(&paths, AcquireStep::WriteTemporary, full);
    let AcquireStep::Discard(error) = step else { panic!("kept") };
    assert_eq!(error.details.get("path"), Some("/r/Library/Application Support/DevProcessManager/runtime/session.token.new"));
    let step = acquire(&paths, AcquireStep::Discard(error), AcquireReply::Done);
    assert!(matches!(step, AcquireStep::Fail(_)));
    let refused = AcquireReply::Refused(AppError::new(ErrorCode::PlatformError, "no"));
    let step = acquire(&paths, AcquireStep::GenerateToken, refused);
    assert!(matches!(step, AcquireStep::Fail(_)));
}

#[test]
fn the_supervisor_is_not_its_own_peer() {
    assert!(AuthenticatedPeerProcessId::from_transport(0, 5).is_none());
    assert!(AuthenticatedPeerProcessId::from_transport(5, 5).is_none());
    let peer = AuthenticatedPeerProcessId::from_transport(6, 5).unwrap();
    let envelope = RequestEnvelope {
        method: Method::RunStop,
        method_name: "run.stop".to_string(),
        operation_id: None,
    };
    let message = AuthenticatedPeerMessage::bind(ClientMessage::Request(envelope), &peer);
    assert_eq!(message.kind(), ClientMessageKind::Request);
    let request = message.request().unwrap();
    assert_eq!(request.envelope().method_name, "run.stop");
    assert_eq!(request.peer_process_id(), 6);
    assert!(message.cancel().is_none());
    let cancel = AuthenticatedPeerMessage::bind(ClientMessage::Cancel("r1".to_string()), &peer);
    assert!(cancel.request().is_none());
    assert_eq!(cancel.cancel().unwrap(), "r1");
}

#[test]
fn the_buffer_for_the_user_is_doubled_up_to_a_limit() {
    assert_eq!(home_buffer_len(-1), 16_384);
    assert_eq!(home_buffer_len(100), 100);
    assert_eq!(home_buffer_len(i64::MAX), MAX_BUFFER_BYTES);
    assert!(matches!(
        current_user_home(ERANGE, failure("Other"), 100, None),
        HomeStep::Retry(200)
    ));
    assert!(matches!(
        current_user_home(ERANGE, failure("Other"), MAX_BUFFER_BYTES, None),
        HomeStep::Fail(_)
    ));
    assert!(matches!(
        current_user_home(0, failure("Other"), 100, Some("/Users/a".to_string())),
        HomeStep::Found(_)
    ));
    match current_user_home(0, failure("Other"), 100, Some("home".to_string())) {
        HomeStep::Fail(reason) => assert_eq!(reason.kind, "InvalidData"),
        other => panic!("{other:?}"),
    }
    match current_user_home(0, failure("Other"), 100, None) {
        HomeStep::Fail(reason) => assert_eq!(reason.kind, "NotFound"),
        other => panic!("{other:?}"),
    }
}

#[test]
fn directories_are_prepared_from_the_top() {
    let home = folder("/Users/a");
    let root = "/Users/a/Library/Application Support/DevProcessManager/runtime";
    let steps = prepare_runtime_directory(Platform::MacOs, &home, root).unwrap();
    let own: Vec<bool> = steps.iter().map(|step| step.own).collect();
    assert_eq!(own, vec![false, false, false, true, true]);
    assert_eq!(steps[4].path, root);
    assert!(prepare_runtime_directory(Platform::MacOs, &home, "/tmp").is_err());
    let other = format!("{root}//");
    assert!(prepare_runtime_directory(Platform::MacOs, &home, &other).is_ok());
}

#[test]
fn on_windows_the_directories_above_are_prepared() {
    let steps = prepare_runtime_directory(Platform::Windows, &folder("C:\\"), "D:\\a\\b\\c");
    let paths: Vec<String> = steps.unwrap().into_iter().map(|step| step.path).collect();
    assert_eq!(paths, vec!["D:\\a", "D:\\a\\b", "D:\\a\\b\\c"]);
    let failed = |path: &str| {
        prepare_runtime_directory(Platform::Windows, &folder("C:\\"), path).unwrap_err().words
    };
    assert_eq!(failed("C:\\"), "runtime directory has no session parent");
    assert_eq!(failed("C:\\a"), "session directory has no application parent");
}

#[test]
fn only_private_directories_of_the_user_are_taken() {
    let facts = FileFacts { is_file: false, is_directory: true, uid: 501, mode: 0o755 };
    assert!(validate_parent_directory(facts, 501, Ok(false)).is_ok());
    let granted = validate_parent_directory(facts, 501, Ok(true)).unwrap_err();
    assert_eq!(
        granted.words,
        "runtime parent directory grants access through an extended ACL"
    );
    let open = FileFacts { mode: 0o775, ..facts };
    assert!(validate_parent_directory(open, 501, Ok(false)).is_err());
    assert!(validate_parent_directory(facts, 502, Ok(false)).is_err());
    assert!(open_private_file(facts, 501).is_err());
    let file = FileFacts { is_file: true, is_directory: false, ..facts };
    assert!(open_private_file(file, 501).is_ok());
}

#[test]
fn one_allowing_entry_is_enough() {
    assert!(matches!(inspect_acl_entries(AclReply::Entry(AclEntry::Deny)), AclStep::Next));
    assert!(matches!(
        inspect_acl_entries(AclReply::Entry(AclEntry::Allow)),
        AclStep::Answer(Ok(true))
    ));
    assert!(matches!(inspect_acl_entries(AclReply::End), AclStep::Answer(Ok(false))));
    assert!(matches!(
        inspect_acl_entries(AclReply::Entry(AclEntry::Unknown)),
        AclStep::Answer(Err(_))
    ));
    assert!(matches!(no_acl_or_error(Some(ENOATTR), failure("Other")), Ok(false)));
    assert!(no_acl_or_error(Some(1), failure("Other")).is_err());
    assert!(clear_extended_acl(false, Some(ENOATTR), failure("Other")).is_ok());
    assert!(clear_extended_acl(false, None, failure("Other")).is_err());
}

#[test]
fn a_directory_is_made_once() {
    assert!(matches!(mkdir_at(Some(failure("AlreadyExists"))), DirectoryReply::Done));
    assert!(matches!(mkdir_at(Some(failure("Interrupted"))), DirectoryReply::Again));
    assert!(matches!(
        open_or_create_directory_at(Some(failure("NotFound")), false),
        DirectoryReply::Make
    ));
    assert!(matches!(
        open_or_create_directory_at(Some(failure("NotFound")), true),
        DirectoryReply::Fail(_)
    ));
    assert!(create_private_directory(Err((Some(ERROR_ALREADY_EXISTS), failure("Other")))).is_ok());
    assert!(create_private_directory(Err((None, failure("Other")))).is_err());
}

#[test]
fn a_name_is_one_part_of_a_path() {
    for name in ["sock", "sock/", "sock/.", "sock//./", ".hidden"] {
        assert!(is_single_name(name.as_bytes()), "{name}");
    }
    for name in ["", ".", "..", "/", "/sock", "a/b", "./a", "../a"] {
        assert!(!is_single_name(name.as_bytes()), "{name}");
    }
    for name in ["sock", "sock/", "sock/.", "a/b", "./a", ".", "..", "", "/x", "/"] {
        let path = std::path::Path::new(name);
        let mut components = path.components();
        let normal = matches!(components.next(), Some(std::path::Component::Normal(_)));
        assert_eq!(
            is_single_name(name.as_bytes()),
            path.components().count() == 1 && normal,
            "{name}"
        );
    }
    assert!(path_component_c_string(b"Library").is_ok());
    assert!(path_component_c_string(b"..").is_err());
    assert_eq!(
        path_component_c_string(b"a\0b").unwrap_err().words,
        "runtime path contains a NUL byte"
    );
}

#[test]
fn a_handle_leads_nowhere_else() {
    assert!(validate_handle(0x10, 1, true).is_ok());
    assert!(validate_handle(0x20, 1, false).is_ok());
    assert_eq!(
        validate_handle(0x410, 1, true).unwrap_err().words,
        "sensitive path is a reparse point"
    );
    assert!(validate_handle(0x10, 1, false).is_err());
    assert!(validate_handle(0x10, 2, true).is_err());
    assert_eq!(windows_error(0x8007_0005), Some(5));
    assert_eq!(windows_error(0x8000_4005), None);
    assert_eq!(words_for(0, 8), 0);
    assert_eq!(words_for(9, 8), 2);
    assert_eq!(words_for(16, 8), 2);
    assert_eq!(wide_path(vec![0x61]).unwrap(), vec![0x61, 0]);
    assert!(wide_path(vec![0x61, 0]).is_err());
}

#[test]
fn a_private_socket_replaces_a_stale_one() {
    let mut step = SocketStep::InspectDirectory;
    for reply in [
        SocketReply::Missing,
        SocketReply::Done,
        SocketReply::Done,
        SocketReply::Socket,
        SocketReply::Done,
        SocketReply::Done,
        SocketReply::Done,
    ] {
        step = bind_private_socket("/r", "/r/s", b"s", step, reply);
    }
    assert!(matches!(step, SocketStep::Listening));
}

#[test]
fn only_a_socket_is_removed() {
    let link = bind_private_socket(
        "/r",
        "/r/s",
        b"s",
        SocketStep::InspectDirectory,
        SocketReply::Symlink,
    );
    assert!(matches!(
        link,
        SocketStep::Fail(SocketSecurityError::SymlinkRuntimeDirectory)
    ));
    for reply in [SocketReply::Symlink, SocketReply::Something] {
        let step = bind_private_socket("/r", "/r/s", b"s", SocketStep::InspectStale, reply);
        assert!(matches!(step, SocketStep::Fail(SocketSecurityError::UnsafeStalePath)));
    }
    let step = bind_private_socket(
        "/r",
        "/r/s",
        b"../s",
        SocketStep::RestrictDirectory,
        SocketReply::Done,
    );
    assert!(matches!(step, SocketStep::Fail(SocketSecurityError::InvalidSocketName)));
    let step = bind_private_socket(
        "/r",
        "/r/s",
        b"s",
        SocketStep::RestrictSocket,
        SocketReply::Failed("denied".to_string()),
    );
    let SocketStep::RemoveSocket(error) = step else { panic!("kept") };
    assert_eq!(error.message(), "restrict Unix socket for /r/s: denied");
}

#[test]
fn a_pipe_is_for_its_user_alone() {
    let plan = create_current_user_pipe("dev-1_A", Ok("S-1-5-21".to_string())).unwrap();
    let path = "\\\\.\\pipe\\com.local.devprocessmanager-dev-1_A";
    assert_eq!(plan.path, wide_nul(path));
    assert_eq!(plan.sddl, wide_nul("D:P(A;;GA;;;S-1-5-21)"));
    assert_eq!(wide_nul("a"), vec![0x61, 0]);
    for name in ["", "a b", "ä", "a/b"] {
        assert!(!is_valid_pipe_name(name));
    }
    assert!(is_valid_pipe_name(&"a".repeat(96)));
    assert!(!is_valid_pipe_name(&"a".repeat(97)));
    assert!(matches!(
        create_current_user_pipe("", Err(PipeSecurityError::InvalidSidString)),
        Err(PipeSecurityError::InvalidPipeName)
    ));
    assert_eq!(created_pipe(Some(9), String::new()).unwrap().raw_handle(), 9);
    let error = created_pipe(None, "denied".to_string()).unwrap_err();
    assert_eq!(error.message(), "CreateNamedPipeW: denied");
}

fn facts() -> EntryFacts {
    EntryFacts {
        is_symlink: false,
        is_socket: true,
        device: 1,
        inode: 2,
        uid: 501,
        mode: 0o140600,
    }
}

#[test]
fn a_stale_socket_is_looked_at_twice() {
    let missing = remove_stale_endpoint(Err(failure("NotFound")), 501);
    assert!(matches!(missing, StaleStep::Absent));
    let StaleStep::LookAgain(identity) = remove_stale_endpoint(Ok(facts()), 501) else {
        panic!("not looked at again")
    };
    assert_eq!(identity, SocketIdentity { device: 1, inode: 2, uid: 501, mode: 0o600 });
    assert!(matches!(confirm_stale_endpoint(identity, Ok(facts())), StaleStep::Remove));
    let replaced = EntryFacts { inode: 3, ..facts() };
    assert!(matches!(
        confirm_stale_endpoint(identity, Ok(replaced)),
        StaleStep::Fail(MacOsSocketServerError::StaleEndpointChanged)
    ));
    assert!(matches!(
        remove_stale_endpoint(Ok(facts()), 502),
        StaleStep::Fail(MacOsSocketServerError::StaleEndpointOwnerMismatch {
            expected: 502,
            actual: 501
        })
    ));
    let link = EntryFacts { is_symlink: true, ..facts() };
    assert!(matches!(
        remove_stale_endpoint(Ok(link), 501),
        StaleStep::Fail(MacOsSocketServerError::StaleEndpointSymlink)
    ));
}

#[test]
fn a_bound_socket_is_private_before_it_is_used() {
    let initial = inspect_bound_endpoint(Ok(facts()), 501).unwrap();
    assert_eq!(secure_bound_endpoint(initial, Ok(()), Ok(initial)).unwrap().mode, SOCKET_MODE);
    let open = SocketIdentity { mode: 0o644, ..initial };
    let failed = secure_bound_endpoint(initial, Ok(()), Ok(open)).unwrap_err();
    assert!(matches!(
        failed.error,
        MacOsSocketServerError::BoundEndpointModeMismatch { mode: 0o644 }
    ));
    assert_eq!(failed.remove, Some(open));
    let other = SocketIdentity { inode: 9, ..initial };
    let failed = secure_bound_endpoint(initial, Ok(()), Ok(other)).unwrap_err();
    assert_eq!(failed.remove, None);
    let failed =
        secure_bound_endpoint(initial, Err(failure("PermissionDenied")), Ok(initial)).unwrap_err();
    assert_eq!(failed.remove, Some(initial));
    assert!(initial.remove_if_matching(Ok(facts())));
    assert!(!initial.remove_if_matching(Err(failure("NotFound"))));
    let plain = EntryFacts { is_socket: false, ..facts() };
    assert!(matches!(
        inspect_bound_endpoint(Ok(plain), 501),
        Err(MacOsSocketServerError::BoundEndpointNotSocket)
    ));
}

#[test]
fn the_socket_lies_below_the_locked_root() {
    let endpoint = socket_endpoint(Ok("/r".to_string()), "/r").unwrap();
    assert_eq!(endpoint, "/r/supervisor.sock");
    assert!(validate_endpoint_path("/r", &endpoint).is_ok());
    assert!(validate_endpoint_path("/q", &endpoint).is_err());
    assert!(validate_endpoint_path("/a", "/a//supervisor.sock").is_ok());
    assert!(validate_endpoint_path("/a", "/a/b/supervisor.sock").is_err());
    assert!(validate_endpoint_path("/a", "/a/other.sock").is_err());
    assert!(socket_endpoint(Ok("/r".to_string()), "/r/").is_ok());
    let error = socket_endpoint(Ok("/r".to_string()), "/q").unwrap_err();
    assert_eq!(
        error.message(),
        "the instance guard does not own the fixed current-user runtime root"
    );
}

#[test]
fn a_peer_of_another_user_is_refused() {
    let identity = SocketIdentity { device: 1, inode: 2, uid: 501, mode: 0o600 };
    let mut listener = MacOsUnixSocketListener::listen(identity);
    let (peer, generation) = listener.check_peer(Ok(501), Ok(77), 5).unwrap();
    assert_eq!((peer.get(), generation), (77, 1));
    assert!(matches!(
        listener.check_peer(Ok(502), Ok(77), 5),
        Err(MacOsSocketServerError::PeerUserMismatch { expected: 501, actual: 502 })
    ));
    for number in [-1, 0, 5] {
        assert!(matches!(
            listener.check_peer(Ok(501), Ok(number), 5),
            Err(MacOsSocketServerError::InvalidPeerProcessId)
        ));
    }
    assert!(listener.after_handshake(HandshakeReply::Timeout).is_err());
    assert_eq!(listener.generation, 0);
    assert_eq!(listener.after_handshake(HandshakeReply::Connected).unwrap(), 1);
    listener.generation = u64::MAX;
    assert!(matches!(
        listener.check_peer(Ok(501), Ok(77), 5),
        Err(MacOsSocketServerError::GenerationExhausted)
    ));
    assert_eq!(peer_pid(Ok((77, 4)), 4).unwrap(), 77);
    assert!(peer_pid(Ok((77, 2)), 4).is_err());
}

#[test]
fn a_pipe_always_has_an_instance_that_waits() {
    let mut listener = WindowsNamedPipeListener::bind(3, Ok(100)).unwrap();
    let peer = listener.check_client(Ok(()), Ok(3), Ok(9), 5).unwrap();
    assert_eq!(peer.get(), 9);
    assert_eq!(listener.take_connected_and_replenish(Ok(101)).unwrap(), 100);
    assert_eq!(listener.pending, Some(101));
    assert_eq!(listener.next_generation().unwrap(), 1);
    assert_eq!(listener.after_handshake(HandshakeReply::Connected).unwrap(), 1);
    let refusal = listener.check_client(Ok(()), Ok(4), Ok(9), 5).unwrap_err();
    assert!(matches!(refusal, WindowsPipeServerError::ClientSessionMismatch));
    let answer = listener.reject_connected_instance(Err(failure("Other")), refusal);
    assert!(matches!(answer, WindowsPipeServerError::CreateInstance(_)));
    assert_eq!(listener.pending, None);
    assert!(matches!(
        listener.take_connected_and_replenish(Ok(1)),
        Err(WindowsPipeServerError::PendingInstanceUnavailable)
    ));
    assert!(listener.needs_instance());
    assert!(listener.ensure_pending_instance(Ok(102)).is_ok());
    assert_eq!(listener.pending, Some(102));
    assert!(listener.ensure_pending_instance(Err(failure("Other"))).is_ok());
    assert_eq!(listener.pending, Some(102));
}

fn peer(session: u32, process: u32) -> PipeReply {
    PipeReply::Peer {
        connected: Ok(()),
        session: Ok(session),
        process: Ok(process),
        own_process_id: 5,
    }
}

fn accept_one(listener: &mut WindowsNamedPipeListener, reply: HandshakeReply) -> PipeStep {
    let step = listener.begin_accept();
    assert!(matches!(step, PipeStep::Connect));
    let step = listener.accept_authenticated(step, peer(3, 9));
    let step = listener.accept_authenticated(step, PipeReply::Instance(Ok(200)));
    listener.accept_authenticated(step, PipeReply::Handshake(reply))
}

#[test]
fn connections_on_a_pipe_are_numbered_and_bounded() {
    let mut listener = WindowsNamedPipeListener::bind(3, Ok(100)).unwrap();
    let refused = accept_one(&mut listener, HandshakeReply::Timeout);
    assert!(matches!(refused, PipeStep::Refused(WindowsPipeServerError::HandshakeTimeout)));
    assert_eq!(listener.live, 0);
    for number in 1..=15 {
        assert!(listener.has_room());
        match accept_one(&mut listener, HandshakeReply::Connected) {
            PipeStep::Accepted { generation, .. } => assert_eq!(generation, number),
            other => panic!("{other:?}"),
        }
    }
    assert!(!listener.has_room());
    listener.release();
    assert!(listener.has_room());
}

#[test]
fn a_stranger_on_a_pipe_gets_no_handshake() {
    let mut listener = WindowsNamedPipeListener::bind(3, Ok(100)).unwrap();
    for (session, process) in [(4, 9), (3, 0), (3, 5)] {
        let step = listener.begin_accept();
        let step = listener.accept_authenticated(step, peer(session, process));
        assert!(matches!(step, PipeStep::Reject(_)));
        let step = listener.accept_authenticated(step, PipeReply::Instance(Ok(101)));
        assert!(matches!(step, PipeStep::Refused(_)));
        assert_eq!((listener.live, listener.generation, listener.pending), (0, 0, Some(101)));
    }
    let step = listener.begin_accept();
    let step = listener.accept_authenticated(step, peer(4, 9));
    let step = listener.accept_authenticated(step, PipeReply::Instance(Err(failure("Other"))));
    assert!(matches!(step, PipeStep::Refused(WindowsPipeServerError::CreateInstance(_))));
    assert!(matches!(listener.begin_accept(), PipeStep::CreateInstance));
}

#[test]
fn connections_on_a_socket_are_bounded() {
    let identity = SocketIdentity { device: 1, inode: 2, uid: 501, mode: 0o600 };
    let mut listener = MacOsUnixSocketListener::listen(identity);
    for number in 1..=16 {
        assert!(listener.has_room());
        let step = listener.begin_accept();
        let seen = SocketAcceptReply::Peer {
            accepted: Ok(()),
            uid: Ok(501),
            process: Ok(77),
            own_process_id: 5,
        };
        let step = listener.accept_authenticated(step, seen);
        let reply = SocketAcceptReply::Handshake(HandshakeReply::Connected);
        match listener.accept_authenticated(step, reply) {
            SocketAcceptStep::Accepted { generation, .. } => assert_eq!(generation, number),
            other => panic!("{other:?}"),
        }
    }
    assert!(!listener.has_room());
    listener.release();
    let step = listener.begin_accept();
    let seen = SocketAcceptReply::Peer {
        accepted: Err(failure("Other")),
        uid: Ok(501),
        process: Ok(77),
        own_process_id: 5,
    };
    let step = listener.accept_authenticated(step, seen);
    assert!(matches!(step, SocketAcceptStep::Refused(MacOsSocketServerError::Accept(_))));
    assert_eq!((listener.live, listener.generation), (15, 16));
}

#[test]
fn an_occupied_pipe_is_told_apart() {
    assert!(is_occupied_error(Some(5)));
    assert!(is_occupied_error(Some(231)));
    assert!(!is_occupied_error(Some(2)));
    assert!(matches!(
        WindowsNamedPipeListener::bind(3, Err((Some(231), failure("Other")))),
        Err(WindowsPipeServerError::EndpointOccupied)
    ));
    let sddl = pipe_sddl("S-1").unwrap();
    assert_eq!(sddl, "D:P(A;;GA;;;S-1)\0".encode_utf16().collect::<Vec<u16>>());
    assert!(matches!(pipe_sddl("S\0"), Err(WindowsPipeServerError::InvalidSddl)));
    assert_eq!(
        WindowsPipeServerError::InvalidSddl.message(),
        "the current-user SID cannot be represented in SDDL"
    );
}

fn identity(start: u64) -> MacProcessIdentity {
    MacProcessIdentity { pid: 70, native_start_seconds: start, native_start_microseconds: 1 }
}

fn probe(start: u64) -> ProcessProbe {
    ProcessProbe {
        identity: identity(start),
        parent_pid: 1,
        process_group_id: 70,
        owner_uid: 501,
        open_file_count: 3,
        name: "sh".to_string(),
    }
}

fn native(code: i32) -> NativeFailure {
    NativeFailure { code: Some(code), words: "words".to_string() }
}

#[test]
fn a_reused_process_number_gets_no_signal() {
    let group = ManagedProcessGroup::spawn(Ok((1, 70)), Ok(70), Ok(probe(10))).unwrap();
    assert_eq!(group.identity(), identity(10));
    assert_eq!(group.signal_validated_group(Ok(probe(10)), Ok(70)).unwrap(), 70);
    let asked = group.request_graceful_stop(Ok(probe(10)), Ok(70)).unwrap();
    assert_eq!(asked, GroupSignal { group: 70, signal: 15 });
    let ended = group.force_stop(Ok(probe(10)), Ok(70)).unwrap();
    assert_eq!(ended, GroupSignal { group: 70, signal: 9 });
    assert!(group.force_stop(Ok(probe(11)), Ok(70)).is_err());
    assert!(matches!(
        group.signal_validated_group(Ok(probe(11)), Ok(70)),
        Err(SpikeError::IdentityMismatch { .. })
    ));
    assert!(matches!(
        group.signal_validated_group(Ok(probe(10)), Ok(71)),
        Err(SpikeError::ProcessGroupChanged { expected: 70, actual: 71 })
    ));
    assert!(matches!(
        group.after_signal(Err(native(ESRCH))),
        Err(SpikeError::NotFound { pid: 70 })
    ));
    assert!(validate_identity(identity(10), Ok(probe(10))).is_ok());
}

#[test]
fn a_process_that_leads_no_group_is_refused() {
    let error = ManagedProcessGroup::spawn(Ok((1, 70)), Ok(1), Ok(probe(10))).unwrap_err();
    assert_eq!(error.message(), "process group changed from 70 to 1");
    let denied = Err(native(EPERM));
    let error = ManagedProcessGroup::spawn(Ok((1, 70)), denied, Ok(probe(10))).unwrap_err();
    assert_eq!(error.message(), "getpgid is access limited");
    assert_eq!(
        map_errno("op", -3, native(ESRCH)).message(),
        "process -3 no longer exists"
    );
    assert_eq!(map_errno("op", 3, native(5)).message(), "op: words");
}

#[test]
fn what_the_system_writes_of_a_process_is_read() {
    assert_eq!(call_pidinfo(12, false, "op", 70, native(0)).unwrap(), 12);
    assert_eq!(call_pidinfo(0, true, "op", 70, native(0)).unwrap(), 0);
    assert!(call_pidinfo(0, false, "op", 70, native(0)).is_err());
    assert!(call_pidinfo(-1, true, "op", 70, native(ESRCH)).is_err());
    let raw = || RawProcess {
        parent_pid: 1,
        process_group_id: 70,
        owner_uid: 501,
        open_file_count: 3,
        start_seconds: 10,
        start_microseconds: 1,
        name: b"sh\0junk".to_vec(),
    };
    let read = probe_process(70, Ok(100), 100, raw()).unwrap();
    assert_eq!(read.identity, identity(10));
    assert_eq!(read.name, "sh");
    let error = probe_process(70, Ok(99), 100, raw()).unwrap_err();
    assert_eq!(
        error.message(),
        "proc_pidinfo(PROC_PIDTBSDINFO) returned 99 bytes; expected at least 100"
    );
    assert_eq!(c_char_array_to_string(&vec![0xff, b'a']), "\u{fffd}a");
}

#[test]
fn sockets_are_picked_from_the_descriptors() {
    let entries = vec![(3, 1), (4, 2), (5, 2), (6, 2)];
    assert_eq!(socket_fds(&entries, 24), vec![4, 5]);
    assert_eq!(socket_fds(&entries, 1_000), vec![4, 5, 6]);
    let read = probe_socket_fd(70, 4, 2, vec![1, 2, 3], native(0)).unwrap().unwrap();
    assert_eq!(read.native_info, vec![1, 2]);
    assert!(probe_socket_fd(70, 4, 0, vec![], native(EBADF)).unwrap().is_none());
    assert!(probe_socket_fd(70, 4, 0, vec![], native(EPERM)).is_err());
    let spawned = ManagedProcessGroup::spawn(Err("no".to_string()), Ok(70), Ok(probe(10)));
    assert!(matches!(
        spawned,
        Err(SpikeError::Native { operation, .. }) if operation == "spawn with setpgid"
    ));
}

fn spec() -> LaunchSpec {
    LaunchSpec {
        application: vec![0x61],
        command_line: vec![0x62],
        current_directory: Some(vec![0x63]),
        enable_ctrl_break: true,
        allow_breakaway: false,
    }
}

#[test]
fn a_launch_plan_ends_its_texts() {
    let plan = launch_plan(spec()).unwrap();
    assert_eq!(plan.application, vec![0x61, 0]);
    assert_eq!(plan.current_directory, Some(vec![0x63, 0]));
    assert!(plan.kill_on_job_close && plan.create_suspended && plan.create_new_process_group);
    assert!(!plan.breakaway_ok);
    let bad = LaunchSpec { command_line: vec![0x62, 0], ..spec() };
    match launch_plan(bad) {
        Err(error) => assert_eq!(error.message(), "command_line contains an interior NUL"),
        Ok(_) => panic!("a zero was taken"),
    }
}

#[test]
fn a_process_runs_only_in_its_job() {
    let suspended = SuspendedProcess {
        job: 1,
        process: 2,
        thread: 3,
        process_id: 44,
        assigned_to_job: false,
    };
    let mut state = LaunchState::CreateJob;
    for reply in [
        LaunchReply::Job(1),
        LaunchReply::Done,
        LaunchReply::Process(suspended),
        LaunchReply::Done,
        LaunchReply::Done,
    ] {
        state = launch_suspended_into_job(state, reply, true);
    }
    let LaunchState::Launched { process } = state else { panic!("not launched") };
    assert_eq!(process.process_id(), 44);
    assert_eq!(process.handles(), (1, 2));
    assert_eq!(process.request_ctrl_break().unwrap(), 44);
    assert!(process.has_exited(0));
    assert!(!process.has_exited(258));
    let error = process.after_ctrl_break(Err("gone".to_string())).unwrap_err();
    assert!(matches!(
        error,
        JobError::Windows { stage, .. } if stage == "GenerateConsoleCtrlEvent(CTRL_BREAK_EVENT)"
    ));
    assert!(process.after_ctrl_break(Ok(())).is_ok());
    assert!(process.force_terminate(Ok(())).is_ok());
    let error = process.force_terminate(Err("gone".to_string())).unwrap_err();
    assert!(matches!(error, JobError::Windows { .. }));
}

#[test]
fn a_process_that_cannot_be_assigned_is_ended() {
    let suspended = SuspendedProcess {
        job: 1,
        process: 2,
        thread: 3,
        process_id: 44,
        assigned_to_job: false,
    };
    let state = launch_suspended_into_job(
        LaunchState::Assign { suspended },
        LaunchReply::Failed("denied".to_string()),
        false,
    );
    assert!(matches!(state, LaunchState::Terminate { call: EndCall::Process(2), .. }));
    let assigned = SuspendedProcess { assigned_to_job: true, ..suspended };
    assert_eq!(assigned.terminate_and_wait(), EndCall::Job(1));
    let resumed = launch_suspended_into_job(
        LaunchState::Resume { suspended: assigned },
        LaunchReply::Failed("denied".to_string()),
        false,
    );
    assert!(matches!(resumed, LaunchState::Terminate { call: EndCall::Job(1), .. }));
    let state = launch_suspended_into_job(state, LaunchReply::Done, false);
    assert!(matches!(state, LaunchState::AwaitEnd { .. }));
    let state = launch_suspended_into_job(state, LaunchReply::Failed("stuck".to_string()), false);
    let LaunchState::Failed { error, end_again } = state else { panic!("not failed") };
    assert_eq!(end_again, Some(suspended));
    assert_eq!(
        error.message(),
        "AssignProcessToJobObject failed: denied; cleanup also failed: stuck"
    );
    assert_eq!(
        JobError::CtrlBreakNotConfigured.message(),
        "the process was not created as a CTRL_BREAK process group"
    );
    assert!(windows_result("TerminateJobObject", Err("no".to_string())).is_err());
}

#[test]
fn the_sockets_of_a_process_are_collected() {
    let entries = vec![(4, 2), (5, 2), (6, 1), (7, 2)];
    let answer = |actual: i32, code: i32| SocketAnswer {
        actual,
        native_info: vec![1, 2, 3],
        failure: native(code),
    };
    let SocketProbeStep::Ask(probes) = probe_socket_fds(70, Ok(32), &entries) else {
        panic!("nothing to ask")
    };
    assert_eq!(probes.fds, vec![4, 5, 7]);
    let SocketProbeStep::Ask(probes) = after_socket_answer(probes, answer(2, 0)) else {
        panic!("nothing to ask")
    };
    let SocketProbeStep::Ask(probes) = after_socket_answer(probes, answer(0, EBADF)) else {
        panic!("nothing to ask")
    };
    match after_socket_answer(probes, answer(3, 0)) {
        SocketProbeStep::Done(sockets) => {
            let fds: Vec<i32> = sockets.iter().map(|socket| socket.fd).collect();
            assert_eq!(fds, vec![4, 7]);
            assert_eq!(sockets[0].native_info, vec![1, 2]);
        }
        other => panic!("{other:?}"),
    }
    let SocketProbeStep::Ask(probes) = probe_socket_fds(70, Ok(8), &entries) else {
        panic!("nothing to ask")
    };
    assert!(matches!(after_socket_answer(probes, answer(0, EPERM)), SocketProbeStep::Fail(_)));
    let failed = probe_socket_fds(70, Err(SpikeError::NotFound { pid: 70 }), &entries);
    assert!(matches!(failed, SocketProbeStep::Fail(SpikeError::NotFound { pid: 70 })));
}
