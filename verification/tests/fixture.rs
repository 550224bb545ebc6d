use supervisor::fixture::{
    authorize, build_line, child_readiness, expect_successful_exit, new_session_nonce, pace, parse,
    parse_bounded_u64, parse_child_readiness, parse_grandchild_readiness, parse_pid,
    process_tree_scenario_name, read_bounded_line, AuthorizedInvocation, EncodingScenario,
    ExitPoll, ExitStep, FixtureError, InternalAuthorization, Invocation, NetworkAddress,
    ProcessTreeScenario, StreamState,
};
use supervisor::fixture_output::{
    address_name, encoding_readiness, grandchild_readiness, network_readiness, payload,
    payload_bytes, scenario_name, stderr_prefix, stdout_prefix, tree_readiness,
};
use supervisor::process_tree::{run_child, run_root, ChildStep, RootStep, TreeReply};

fn arguments(texts: &[&str]) -> Vec<Option<String>> {
    texts.iter().map(|text| Some(text.to_string())).collect()
}

fn acknowledged() -> Option<String> {
    Some("I_ACKNOWLEDGE_FIXTURE_SIDE_EFFECTS".to_string())
}

fn request(texts: &[&str]) -> Result<Invocation, FixtureError> {
    let list = texts.iter().map(|text| text.to_string()).collect();
    parse(&AuthorizedInvocation::External(list), &None, &None)
}

#[test]
fn a_user_allows_the_program_twice() {
    let given = arguments(&["--allow-test-fixture", "network"]);
    match authorize(given.clone(), &acknowledged(), &None) {
        Ok(AuthorizedInvocation::External(rest)) => assert_eq!(rest, vec!["network"]),
        other => panic!("{other:?}"),
    }
    assert_eq!(authorize(given, &None, &None).unwrap_err(), FixtureError::Authorization);
    let bare = arguments(&["--allow-test-fixture"]);
    assert_eq!(
        authorize(bare, &acknowledged(), &None).unwrap_err(),
        FixtureError::InvalidArguments
    );
    let twice = arguments(&["--allow-test-fixture", "network", "--allow-test-fixture"]);
    assert_eq!(
        authorize(twice, &acknowledged(), &None).unwrap_err(),
        FixtureError::Authorization
    );
}

#[test]
fn arguments_are_few_and_short() {
    assert!(authorize(vec![], &acknowledged(), &None).is_err());
    assert!(authorize(vec![None], &acknowledged(), &None).is_err());
    let long = arguments(&["--allow-test-fixture", &"x".repeat(129)]);
    assert!(authorize(long, &acknowledged(), &None).is_err());
    let fits = arguments(&["--allow-test-fixture", &"x".repeat(128)]);
    assert!(authorize(fits, &acknowledged(), &None).is_ok());
    let many = arguments(&["--allow-test-fixture"; 17]);
    assert!(authorize(many, &acknowledged(), &None).is_err());
}

#[test]
fn the_program_knows_its_own_processes_by_a_nonce() {
    let given = arguments(&["--allow-test-fixture", "--internal-process-grandchild"]);
    let nonce = new_session_nonce().unwrap();
    assert_eq!(nonce.len(), 64);
    assert_ne!(nonce, new_session_nonce().unwrap());
    match authorize(given.clone(), &acknowledged(), &Some(nonce)) {
        Ok(AuthorizedInvocation::Internal(role)) => {
            assert_eq!(role, InternalAuthorization::ProcessGrandchild);
        }
        other => panic!("{other:?}"),
    }
    let short = Some("ab".to_string());
    assert!(authorize(given.clone(), &acknowledged(), &short).is_err());
    let upper = Some("A".repeat(64));
    assert!(authorize(given, &acknowledged(), &upper).is_err());
}

#[test]
fn requests_have_defaults() {
    assert_eq!(
        request(&["process-tree"]).unwrap(),
        Invocation::ProcessTree { tree: ProcessTreeScenario::Stable, hold_ms: 30_000 }
    );
    assert_eq!(
        request(&["network", "--address", "::1", "--hold-ms", "5"]).unwrap(),
        Invocation::Network { address: NetworkAddress::Ipv6Loopback, hold_ms: 5 }
    );
    assert_eq!(
        request(&["encoding", "--scenario", "ansi-osc"]).unwrap(),
        Invocation::Encoding { encoding: EncodingScenario::AnsiOsc }
    );
    assert_eq!(
        request(&["log-flood"]).unwrap(),
        Invocation::LogFlood {
            bytes_per_stream: 12 * 1024 * 1024,
            bytes_per_second: 8 * 1024 * 1024,
            line_bytes: 4096
        }
    );
}

#[test]
fn requests_that_are_not_understood_are_refused() {
    for texts in [
        vec![],
        vec!["dance"],
        vec!["network", "--address"],
        vec!["network", "--address", "--hold-ms"],
        vec!["network", "address", "::1"],
        vec!["network", "--address", "::1", "--address", "::"],
        vec!["network", "--scenario", "stable"],
        vec!["network", "--hold-ms", "0"],
        vec!["network", "--hold-ms", "50001"],
        vec!["process-tree", "--scenario", "odd"],
        vec!["log-flood", "--bytes-per-second", "1000"],
        vec!["encoding", "--scenario", "ebcdic"],
    ] {
        assert_eq!(request(&texts).unwrap_err(), FixtureError::InvalidArguments, "{texts:?}");
    }
}

#[test]
fn a_flood_takes_no_longer_than_the_limit() {
    let at = |rate: &str| {
        request(&["log-flood", "--bytes-per-stream", "25000", "--bytes-per-second", rate])
    };
    assert!(at("1000").is_ok());
    assert!(at("999").is_err());
}

#[test]
fn the_program_tells_its_processes_what_to_do() {
    let internal = AuthorizedInvocation::Internal(InternalAuthorization::ProcessChild);
    let name = Some(
        process_tree_scenario_name(ProcessTreeScenario::ChildExitsAfterSpawn).to_string(),
    );
    let hold = Some("7".to_string());
    assert_eq!(
        parse(&internal, &name, &hold).unwrap(),
        Invocation::InternalProcess {
            role: InternalAuthorization::ProcessChild,
            tree: ProcessTreeScenario::ChildExitsAfterSpawn,
            hold_ms: 7
        }
    );
    assert_eq!(parse(&internal, &None, &hold).unwrap_err(), FixtureError::Authorization);
    let bad = Some("x".to_string());
    assert_eq!(parse(&internal, &name, &bad).unwrap_err(), FixtureError::InvalidArguments);
}

#[test]
fn numbers_are_read_within_bounds() {
    assert_eq!(parse_bounded_u64("007", 1, 10).unwrap(), 7);
    assert!(parse_bounded_u64("", 1, 10).is_err());
    assert!(parse_bounded_u64("-1", 0, 10).is_err());
    assert!(parse_bounded_u64("11", 1, 10).is_err());
    assert_eq!(parse_bounded_u64("18446744073709551615", 0, u64::MAX).unwrap(), u64::MAX);
    assert!(parse_bounded_u64("18446744073709551616", 0, u64::MAX).is_err());
}

#[test]
fn a_line_is_filled_and_ended() {
    assert_eq!(build_line(6, b"ab", b'S'), b"abSSS\n");
    assert_eq!(build_line(2, b"abc", b'S'), b"a\n");
    assert_eq!(build_line(1, b"abc", b'S'), b"\n");
}

#[test]
fn a_stream_repeats_its_line() {
    let line = b"abc\n".to_vec();
    let mut stream = StreamState::new(200_001, line.clone());
    let mut written: Vec<u8> = vec![];
    while let Some(chunk) = stream.next_chunk() {
        assert!(chunk.len() <= 64 * 1024);
        let length = chunk.len();
        written.extend_from_slice(chunk);
        stream.advance(length);
    }
    assert!(stream.is_complete());
    assert_eq!(written.len(), 200_001);
    for (index, byte) in written.iter().enumerate() {
        assert_eq!(*byte, line[index % line.len()]);
    }
}

#[test]
fn a_stream_that_nobody_reads_is_complete() {
    let mut stream = StreamState::new(10, vec![b'x'; 70_000]);
    assert_eq!(stream.next_chunk().unwrap().len(), 10);
    stream.complete();
    assert!(stream.next_chunk().is_none());
}

#[test]
fn the_rate_is_kept() {
    assert_eq!(pace(1_000, 1_000, 0), 1_000_000_000);
    assert_eq!(pace(1_000, 1_000, 400_000_000), 600_000_000);
    assert_eq!(pace(1_000, 1_000, 2_000_000_000), 0);
}

#[test]
fn a_process_says_that_it_is_there() {
    let line = child_readiness(12, 34);
    assert_eq!(line, "MAGICTOOLS_TEST_FIXTURE_CHILD_READY:12:34");
    let ended = format!("{line}\n");
    let text = read_bounded_line(ended.as_bytes()).unwrap();
    assert_eq!(parse_child_readiness(text).unwrap(), (12, 34));
    assert!(parse_child_readiness(b"MAGICTOOLS_TEST_FIXTURE_CHILD_READY:12").is_err());
    assert!(parse_child_readiness(b"MAGICTOOLS_TEST_FIXTURE_CHILD_READY:1:2:3").is_err());
    assert!(parse_child_readiness(b"MAGICTOOLS_TEST_FIXTURE_CHILD_READY:0:2").is_err());
    assert_eq!(
        parse_grandchild_readiness(b"MAGICTOOLS_TEST_FIXTURE_GRANDCHILD_READY:9").unwrap(),
        9
    );
    assert!(parse_grandchild_readiness(b"READY:9").is_err());
    assert_eq!(parse_pid(b"4294967295"), Some(u32::MAX));
    assert_eq!(parse_pid(b"4294967296"), None);
    assert_eq!(parse_pid(b""), None);
}

#[test]
fn a_readiness_line_is_plain_and_short() {
    assert!(read_bounded_line(b"").is_err());
    assert!(read_bounded_line(b"x").is_err());
    assert!(read_bounded_line(b"x\r\n").is_err());
    assert!(read_bounded_line(&[0xff, b'\n']).is_err());
    let mut long = vec![b'x'; 256];
    long.push(b'\n');
    assert!(read_bounded_line(&long).is_err());
    assert_eq!(read_bounded_line(b"\n").unwrap(), b"");
}

#[test]
fn a_process_ends_well_and_in_time() {
    assert!(matches!(
        expect_successful_exit(ExitPoll::Exited { success: true }, false),
        ExitStep::Done(Ok(()))
    ));
    assert!(matches!(
        expect_successful_exit(ExitPoll::Exited { success: false }, false),
        ExitStep::Done(Err(FixtureError::Runtime))
    ));
    assert!(matches!(expect_successful_exit(ExitPoll::Running, false), ExitStep::Wait));
    assert!(matches!(expect_successful_exit(ExitPoll::Running, true), ExitStep::Terminate));
    assert_eq!(FixtureError::Runtime.exit_code(), 70);
    assert_eq!(FixtureError::TimedOut.exit_code(), 124);
    assert_eq!(FixtureError::Authorization.exit_code(), 64);
}

#[test]
fn the_bytes_of_an_encoding_are_written_in_parts() {
    let parts = payload(EncodingScenario::Utf8Split);
    assert_eq!(parts.concat(), "UTF-8 split: \u{1f9ea}\n".as_bytes());
    assert_eq!(parts.len(), 4);
    assert_eq!(payload_bytes(&parts).unwrap(), 18);
    let little: Vec<u8> = payload(EncodingScenario::Utf16LeBomSplit).concat();
    let units: Vec<u16> =
        little.chunks(2).map(|pair| u16::from_le_bytes([pair[0], pair[1]])).collect();
    assert_eq!(String::from_utf16(&units).unwrap(), "\u{feff}MagicTools LE \u{4e2d}\n");
    let big: Vec<u8> = payload(EncodingScenario::Utf16BeBomSplit).concat();
    let units: Vec<u16> =
        big.chunks(2).map(|pair| u16::from_be_bytes([pair[0], pair[1]])).collect();
    assert_eq!(String::from_utf16(&units).unwrap(), "\u{feff}MagicTools BE \u{4e2d}\n");
    assert!(String::from_utf8(payload(EncodingScenario::InvalidUtf8).concat()).is_err());
    assert!(String::from_utf8(payload(EncodingScenario::Utf8Truncated).concat()).is_err());
    assert_eq!(payload(EncodingScenario::Windows1252)[1], b"Windows-1252 quote");
    assert_eq!(payload(EncodingScenario::AnsiOsc)[3], b"\x07OSC title\n");
    assert!(payload_bytes(&vec![]).is_err());
    assert!(payload_bytes(&vec![vec![0; 65_537]]).is_err());
    assert_eq!(scenario_name(EncodingScenario::AnsiOsc), "ansi-osc");
    assert_eq!(
        encoding_readiness(EncodingScenario::Windows1252, 5),
        "MAGICTOOLS_TEST_FIXTURE_ENCODING_READY scenario=windows-1252 payload_bytes=5"
    );
}

#[test]
fn the_program_says_that_it_is_there() {
    assert_eq!(address_name(NetworkAddress::Ipv6Unspecified), "::");
    assert_eq!(
        network_readiness(NetworkAddress::Ipv6Loopback, 10, 20).unwrap(),
        "MAGICTOOLS_TEST_FIXTURE_NETWORK_READY address=::1 tcp_port=10 udp_port=20"
    );
    assert!(network_readiness(NetworkAddress::Ipv4Loopback, 0, 20).is_err());
    assert_eq!(
        tree_readiness(1, 2, 3, ProcessTreeScenario::Stable),
        "MAGICTOOLS_TEST_FIXTURE_PROCESS_TREE_READY:1:2:3:stable"
    );
    assert_eq!(grandchild_readiness(8), "MAGICTOOLS_TEST_FIXTURE_GRANDCHILD_READY:8");
    assert_eq!(stdout_prefix(), b"\x1b[32mMAGICTOOLS_TEST_FIXTURE_STDOUT\x1b[0m ");
    assert!(stderr_prefix().starts_with(b"\x1b]0;MagicTools fixture\x07"));
}

fn line(text: &str) -> TreeReply {
    TreeReply::Line(Ok(text.as_bytes().to_vec()))
}

#[test]
fn a_tree_is_announced_where_its_child_is_known() {
    let stable = ProcessTreeScenario::Stable;
    let ready = "MAGICTOOLS_TEST_FIXTURE_CHILD_READY:20:30";
    let step = run_root(10, stable, RootStep::Spawn, TreeReply::Spawned(Ok(20)));
    let step = run_root(10, stable, step, line(ready));
    assert!(matches!(step, RootStep::LookAtChild { child: 20, grandchild: 30 }));
    let step = run_root(10, stable, step, TreeReply::Ended(Some(false)));
    let RootStep::Announce { line: said } = &step else { panic!("not announced") };
    assert_eq!(said, "MAGICTOOLS_TEST_FIXTURE_PROCESS_TREE_READY:10:20:30:stable");
    let step = run_root(10, stable, step, TreeReply::Written(true));
    let step = run_root(10, stable, step, TreeReply::Held);
    assert!(matches!(step, RootStep::AwaitEnd));
    let step = run_root(10, stable, step, TreeReply::Awaited(Ok(())));
    assert!(matches!(step, RootStep::Finished(Ok(()))));
    let other = run_root(10, stable, RootStep::ReadChild { expected: 21 }, line(ready));
    assert!(matches!(other, RootStep::TerminateChild(FixtureError::Runtime)));
    let ended = run_root(10, stable, other, TreeReply::Terminated);
    assert!(matches!(ended, RootStep::Finished(Err(FixtureError::Runtime))));
    let gone = RootStep::LookAtChild { child: 20, grandchild: 30 };
    let gone = run_root(10, stable, gone, TreeReply::Ended(Some(true)));
    assert!(matches!(gone, RootStep::TerminateChild(_)));
    let exits = ProcessTreeScenario::ChildExitsAfterSpawn;
    let waits = run_root(10, exits, RootStep::ReadChild { expected: 20 }, line(ready));
    assert!(matches!(waits, RootStep::AwaitChild { .. }));
}

#[test]
fn a_child_announces_its_own_grandchild() {
    let exits = ProcessTreeScenario::ChildExitsAfterSpawn;
    let ready = "MAGICTOOLS_TEST_FIXTURE_GRANDCHILD_READY:30";
    let step = run_child(20, exits, ChildStep::Spawn, TreeReply::Spawned(Ok(30)));
    let step = run_child(20, exits, step, line(ready));
    let ChildStep::Announce { line: said } = &step else { panic!("not announced") };
    assert_eq!(said, "MAGICTOOLS_TEST_FIXTURE_CHILD_READY:20:30");
    let step = run_child(20, exits, step, TreeReply::Written(true));
    assert!(matches!(step, ChildStep::Finished(Ok(()))));
    let other = run_child(20, exits, ChildStep::ReadGrandchild { expected: 31 }, line(ready));
    assert!(matches!(other, ChildStep::TerminateGrandchild(FixtureError::Runtime)));
    let held = run_child(20, ProcessTreeScenario::Stable, ChildStep::Hold, TreeReply::Held);
    assert!(matches!(held, ChildStep::AwaitGrandchild));
}
