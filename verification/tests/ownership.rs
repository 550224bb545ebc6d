use supervisor::ownership::{
    handoff_to, is_done, ownership_moved, Delivery, ExplicitExitDecision, ExplicitExitPolicy,
    HandoffAcceptance, HandoffReply, RunSnapshot, SpawnedChild, SupervisorActor, SupervisorError,
    SupervisorEvent, SupervisorShutdownDecision, UpgradeHandoffDecision, WaitReply,
};

fn child(pid: u32) -> SpawnedChild {
    SpawnedChild { pid: Some(pid), has_stdout: true, has_stderr: true, child: pid as u64 }
}

fn actor_with(pids: &[u32]) -> SupervisorActor {
    let mut actor = SupervisorActor::new();
    for pid in pids {
        actor.start_run(Ok(child(*pid))).unwrap();
    }
    actor
}

#[test]
fn runs_are_numbered_from_one() {
    let mut actor = SupervisorActor::new();
    assert_eq!(actor.start_run(Ok(child(40))).unwrap(), RunSnapshot { run_id: 1, pid: 40 });
    assert_eq!(actor.start_run(Ok(child(41))).unwrap(), RunSnapshot { run_id: 2, pid: 41 });
    assert_eq!(actor.runs.len(), 2);
}

#[test]
fn a_process_without_its_streams_is_not_taken_on() {
    let mut actor = SupervisorActor::new();
    let silent = SpawnedChild { has_stdout: false, ..child(1) };
    match actor.start_run(Ok(silent)) {
        Err(SupervisorError::Io(words)) => {
            assert_eq!(words, "spawned process did not expose its piped stdout");
        }
        other => panic!("{other:?}"),
    }
    let nameless = SpawnedChild { pid: None, ..child(1) };
    assert!(actor.start_run(Ok(nameless)).is_err());
    let deaf = SpawnedChild { has_stderr: false, ..child(1) };
    assert!(actor.start_run(Ok(deaf)).is_err());
    assert!(matches!(actor.start_run(Err("no".to_string())), Err(SupervisorError::Io(_))));
    assert_eq!(actor.runs.len(), 0);
}

#[test]
fn the_stop_of_a_run_is_announced_once() {
    let mut actor = actor_with(&[7]);
    let first = actor.stop_run(1).unwrap();
    assert!(matches!(first, Some(SupervisorEvent::StopRequested { run_id: 1 })));
    assert!(actor.stop_run(1).unwrap().is_none());
    match actor.stop_run(9) {
        Err(error) => assert_eq!(error.message(), "run 9 was not found"),
        Ok(_) => panic!("a run that is not there was stopped"),
    }
}

#[test]
fn leaving_keeps_the_runs_or_stops_them_all() {
    let mut actor = actor_with(&[7, 8]);
    let (decision, events) = actor.explicit_ui_exit(ExplicitExitPolicy::KeepRunning);
    assert_eq!(decision, ExplicitExitDecision::UiMayExitKeepingRuns { active_runs: 2 });
    assert!(events.is_empty());
    let (decision, _) = actor.explicit_ui_exit(ExplicitExitPolicy::Cancel);
    assert_eq!(decision, ExplicitExitDecision::Cancelled);
    actor.stop_run(1).unwrap();
    let (decision, events) = actor.explicit_ui_exit(ExplicitExitPolicy::StopAll);
    assert_eq!(decision, ExplicitExitDecision::StopRequested { requested: 2, failed: 0 });
    assert_eq!(events.len(), 1);
    let (_, again) = actor.explicit_ui_exit(ExplicitExitPolicy::StopAll);
    assert!(again.is_empty());
}

#[test]
fn a_supervisor_with_runs_does_not_go() {
    let mut actor = actor_with(&[7]);
    assert_eq!(
        actor.request_shutdown(),
        SupervisorShutdownDecision::RefusedActiveRuns { active_runs: 1 }
    );
    assert!(!is_done(&actor, true));
    let events = actor.reap_exited(vec![(1, WaitReply::Exited(Some(3)))]);
    assert!(matches!(
        events[0],
        SupervisorEvent::RunExited { run_id: 1, exit_code: Some(3) }
    ));
    assert_eq!(actor.request_shutdown(), SupervisorShutdownDecision::Accepted);
    assert!(is_done(&actor, true));
    assert!(!is_done(&actor, false));
}

#[test]
fn runs_are_handed_to_a_supervisor_that_owns_none() {
    let mut old = actor_with(&[7, 8]);
    let mut new = SupervisorActor::new();
    let runs = old.take_runs();
    let count = runs.len();
    let acceptance = new.accept_handoff(runs);
    let decision = old.transfer_to(count, HandoffReply::Answered(acceptance));
    assert_eq!(decision, UpgradeHandoffDecision::Accepted { transferred_runs: 2 });
    assert!(ownership_moved(decision));
    assert_eq!(old.runs.len(), 0);
    assert_eq!(new.runs.len(), 2);
    assert_eq!(new.runs.get(1).unwrap().snapshot.pid, 8);
}

#[test]
fn runs_come_back_from_a_supervisor_that_owns_some() {
    let mut old = actor_with(&[7, 8]);
    let mut new = actor_with(&[9]);
    let runs = old.take_runs();
    let acceptance = new.accept_handoff(runs);
    assert!(matches!(acceptance, HandoffAcceptance::RejectedBusy { existing_runs: 1, .. }));
    let decision = old.transfer_to(2, HandoffReply::Answered(acceptance));
    assert_eq!(decision, UpgradeHandoffDecision::RejectedTargetBusy { target_runs: 1 });
    assert!(!ownership_moved(decision));
    assert_eq!(old.runs.len(), 2);
    assert_eq!(new.runs.len(), 1);
}

#[test]
fn runs_that_were_not_sent_come_back() {
    let mut old = actor_with(&[7]);
    let runs = old.take_runs();
    let decision = old.transfer_to(1, HandoffReply::NotSent(runs));
    assert_eq!(decision, UpgradeHandoffDecision::RejectedTargetUnavailable);
    assert_eq!(old.runs.len(), 1);
    let runs = old.take_runs();
    drop(runs);
    let decision = old.transfer_to(1, HandoffReply::Lost);
    assert_eq!(decision, UpgradeHandoffDecision::AcknowledgementLost { transferred_runs: 1 });
    assert_eq!(handoff_to(4, 4), Some(UpgradeHandoffDecision::RejectedSameSupervisor));
    assert_eq!(handoff_to(4, 5), None);
}

#[test]
fn a_closed_subscriber_is_let_go() {
    let mut actor = SupervisorActor::new();
    actor.connect_ui(10);
    actor.connect_ui(11);
    actor.connect_ui(12);
    actor.emit(&vec![Delivery::Delivered, Delivery::Closed, Delivery::Full]);
    assert_eq!(actor.subscribers, vec![10, 12]);
}

#[test]
fn a_run_whose_end_is_unknown_is_told_as_failed() {
    let mut actor = actor_with(&[7, 8]);
    let events = actor.reap_exited(vec![
        (1, WaitReply::Running),
        (2, WaitReply::Failed("lost".to_string())),
    ]);
    assert_eq!(events.len(), 1);
    match &events[0] {
        SupervisorEvent::RunFailed { run_id: 2, message } => assert_eq!(message, "lost"),
        other => panic!("{other:?}"),
    }
    assert_eq!(actor.runs.len(), 1);
}
