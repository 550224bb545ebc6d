//! Who owns a running process: a supervisor that outlives its user interface,
//! does not go while it owns runs, and can hand them to its replacement.

use vstd::prelude::*;

verus! {

pub type RunId = u64;

/// A process, by the boot in which it runs, its number and its start.
#[derive(Debug)]
pub struct ProcessInstanceKey {
    pub boot_id: String,
    pub pid: u32,
    pub native_start_time: u64,
}

/// What is shown of a run.
#[derive(Clone, Copy, Debug, PartialEq, Eq, Structural)]
pub struct RunSnapshot {
    pub run_id: RunId,
    pub pid: u32,
}

/// What was stored of a run. It is a hint for later only: no run is made of it,
/// because only a live handle proves that a process is owned.
#[derive(Debug)]
pub struct PersistedRunHint {
    pub run_id: RunId,
    pub instance_key: ProcessInstanceKey,
}

/// What a user wants done with the runs when the user interface goes.
#[derive(Clone, Copy, Debug, PartialEq, Eq, Structural)]
pub enum ExplicitExitPolicy {
    KeepRunning,
    StopAll,
    Cancel,
}

/// What becomes of the wish to go.
#[derive(Clone, Copy, Debug, PartialEq, Eq, Structural)]
pub enum ExplicitExitDecision {
    UiMayExitKeepingRuns { active_runs: usize },
    StopRequested { requested: usize, failed: usize },
    Cancelled,
}

/// What subscribers are told.
#[derive(Debug)]
#[allow(inconsistent_fields)]
pub enum SupervisorEvent {
    RunStarted(RunSnapshot),
    StopRequested { run_id: RunId },
    RunExited { run_id: RunId, exit_code: Option<i32> },
    RunFailed { run_id: RunId, message: String },
}

/// Whether a supervisor goes when it is asked to.
#[derive(Clone, Copy, Debug, PartialEq, Eq, Structural)]
pub enum SupervisorShutdownDecision {
    Accepted,
    RefusedActiveRuns { active_runs: usize },
}

/// What becomes of the runs when a supervisor is replaced.
#[derive(Clone, Copy, Debug, PartialEq, Eq, Structural)]
#[allow(inconsistent_fields)]
pub enum UpgradeHandoffDecision {
    Accepted { transferred_runs: usize },
    AcknowledgementLost { transferred_runs: usize },
    RejectedSameSupervisor,
    RejectedTargetBusy { target_runs: usize },
    RejectedTargetUnavailable,
}

/// What can go wrong with a supervisor.
#[derive(Debug)]
pub enum SupervisorError {
    CommandChannelClosed,
    ReplyChannelClosed,
    RunNotFound(RunId),
    Io(String),
}

/// What an error says.
pub open spec fn supervisor_message(error: SupervisorError) -> Seq<char> {
    match error {
        SupervisorError::CommandChannelClosed => "the Supervisor command channel is closed"@,
        SupervisorError::ReplyChannelClosed => "the Supervisor reply channel is closed"@,
        SupervisorError::RunNotFound(run_id) => "run "@ + crate::text::decimal_text(run_id as nat)
            + " was not found"@,
        SupervisorError::Io(source) => "failed to launch or manage a process: "@ + source@,
    }
}

impl SupervisorError {
    pub fn message(&self) -> (message: String)
        ensures
            message@ == supervisor_message(*self),
    {
        match self {
            SupervisorError::CommandChannelClosed => {
                "the Supervisor command channel is closed".to_owned()
            },
            SupervisorError::ReplyChannelClosed => {
                "the Supervisor reply channel is closed".to_owned()
            },
            SupervisorError::RunNotFound(run_id) => crate::text::join(
                crate::text::join("run ", crate::text::decimal(*run_id).as_str()).as_str(),
                " was not found",
            ),
            SupervisorError::Io(source) => crate::text::join(
                "failed to launch or manage a process: ",
                source.as_str(),
            ),
        }
    }
}

/// A run that is owned: its process handle, and whether its stop was asked for.
#[derive(Clone, Copy, Debug, PartialEq, Eq, Structural)]
pub struct ManagedRun {
    pub snapshot: RunSnapshot,
    pub child: u64,
    pub stop_requested: bool,
}

/// The runs that a supervisor owns.
#[derive(Debug)]
pub struct RunTable {
    runs: Vec<ManagedRun>,
}

impl View for RunTable {
    type V = Seq<ManagedRun>;

    closed spec fn view(&self) -> Seq<ManagedRun> {
        self.runs@
    }
}

/// No run is owned twice.
pub open spec fn ids_differ(runs: Seq<ManagedRun>) -> bool {
    forall|i: int, j: int|
        0 <= i < j < runs.len() ==> (#[trigger] runs[i]).snapshot.run_id != (
        #[trigger] runs[j]).snapshot.run_id
}

/// A run stands at a place.
pub open spec fn stands_at(runs: Seq<ManagedRun>, run_id: RunId, place: int) -> bool {
    0 <= place < runs.len() && runs[place].snapshot.run_id == run_id
}

/// A run is owned.
pub open spec fn owns(runs: Seq<ManagedRun>, run_id: RunId) -> bool {
    exists|place: int| stands_at(runs, run_id, place)
}

/// Where a run stands.
pub open spec fn place_of(runs: Seq<ManagedRun>, run_id: RunId) -> int {
    choose|place: int| stands_at(runs, run_id, place)
}

/// The runs but for one.
pub open spec fn without(runs: Seq<ManagedRun>, run_id: RunId) -> Seq<ManagedRun> {
    if owns(runs, run_id) {
        runs.remove(place_of(runs, run_id))
    } else {
        runs
    }
}

/// A run whose stop was asked for.
pub open spec fn asked_to_stop(run: ManagedRun) -> ManagedRun {
    ManagedRun { stop_requested: true, ..run }
}

/// The runs whose stop is asked for anew when all are to stop.
pub open spec fn new_stops(runs: Seq<ManagedRun>) -> Seq<SupervisorEvent>
    decreases runs.len(),
{
    if runs.len() == 0 {
        Seq::empty()
    } else {
        let rest = new_stops(runs.drop_last());
        if runs.last().stop_requested {
            rest
        } else {
            rest.push(SupervisorEvent::StopRequested { run_id: runs.last().snapshot.run_id })
        }
    }
}

impl RunTable {
    pub open spec fn wf(self) -> bool {
        ids_differ(self@)
    }

    pub fn new() -> (table: Self)
        ensures
            table.wf(),
            table@ == Seq::<ManagedRun>::empty(),
    {
        RunTable { runs: Vec::new() }
    }

    pub fn len(&self) -> (length: usize)
        ensures
            length == self@.len(),
    {
        self.runs.len()
    }

    pub fn get(&self, place: usize) -> (run: Option<ManagedRun>)
        ensures
            run == if place < self@.len() {
                Some(self@[place as int])
            } else {
                None
            },
    {
        if place < self.runs.len() {
            Some(self.runs[place])
        } else {
            None
        }
    }

    fn find(&self, run_id: RunId) -> (place: Option<usize>)
        requires
            self.wf(),
        ensures
            match place {
                Some(place) => stands_at(self@, run_id, place as int) && place_of(self@, run_id)
                    == place,
                None => !owns(self@, run_id),
            },
    {
        let mut i: usize = 0;
        while i < self.runs.len()
            invariant
                i <= self.runs@.len(),
                self.wf(),
                forall|k: int| 0 <= k < i ==> (#[trigger] self@[k]).snapshot.run_id != run_id,
            decreases self.runs@.len() - i,
        {
            if self.runs[i].snapshot.run_id == run_id {
                proof {
                    assert(stands_at(self@, run_id, i as int));
                    let place = place_of(self@, run_id);
                    assert(stands_at(self@, run_id, place));
                }
                return Some(i);
            }
            i += 1;
        }
        None
    }

    /// Takes a run out.
    fn remove(&mut self, run_id: RunId) -> (run: Option<ManagedRun>)
        requires
            old(self).wf(),
        ensures
            final(self).wf(),
            final(self)@ == without(old(self)@, run_id),
            !owns(final(self)@, run_id),
            run == if owns(old(self)@, run_id) {
                Some(old(self)@[place_of(old(self)@, run_id)])
            } else {
                None
            },
    {
        match self.find(run_id) {
            Some(place) => {
                let run = self.runs[place];
                self.runs.remove(place);
                proof {
                    let before = old(self)@;
                    let after = self@;
                    let n = place as int;
                    assert(after =~= before.remove(n));
                    assert forall|i: int, j: int| 0 <= i < j < after.len() implies (
                    #[trigger] after[i]).snapshot.run_id != (#[trigger] after[j]).snapshot.run_id by {
                        let x = if i < n { i } else { i + 1 };
                        let y = if j < n { j } else { j + 1 };
                        assert(before[x] == after[i] && before[y] == after[j]);
                    }
                    assert forall|i: int| !stands_at(after, run_id, i) by {
                        if stands_at(after, run_id, i) {
                            let x = if i < n { i } else { i + 1 };
                            assert(before[x] == after[i]);
                            assert(before[n].snapshot.run_id == run_id);
                        }
                    }
                }
                Some(run)
            },
            None => None,
        }
    }
}

/// A process that was spawned: its number and its two streams, as far as they
/// are there.
#[derive(Clone, Copy, Debug, PartialEq, Eq, Structural)]
pub struct SpawnedChild {
    pub pid: Option<u32>,
    pub has_stdout: bool,
    pub has_stderr: bool,
    pub child: u64,
}

/// What asking for the end of a process gives.
#[derive(Debug)]
pub enum WaitReply {
    Running,
    Exited(Option<i32>),
    Failed(String),
}

/// What is told of a run that ended.
pub open spec fn end_event(run_id: RunId, reply: WaitReply) -> Option<SupervisorEvent> {
    match reply {
        WaitReply::Running => None,
        WaitReply::Exited(exit_code) => Some(SupervisorEvent::RunExited { run_id, exit_code }),
        WaitReply::Failed(message) => Some(SupervisorEvent::RunFailed { run_id, message }),
    }
}

/// The runs that are left after some were asked for their end.
pub open spec fn runs_left(runs: Seq<ManagedRun>, waits: Seq<(RunId, WaitReply)>) -> Seq<ManagedRun>
    decreases waits.len(),
{
    if waits.len() == 0 {
        runs
    } else {
        let (run_id, reply) = waits.last();
        let rest = runs_left(runs, waits.drop_last());
        if reply is Running {
            rest
        } else {
            without(rest, run_id)
        }
    }
}

/// What is told of the runs that ended.
pub open spec fn end_events(waits: Seq<(RunId, WaitReply)>) -> Seq<SupervisorEvent>
    decreases waits.len(),
{
    if waits.len() == 0 {
        Seq::empty()
    } else {
        let (run_id, reply) = waits.last();
        let rest = end_events(waits.drop_last());
        match end_event(run_id, reply) {
            Some(event) => rest.push(event),
            None => rest,
        }
    }
}

/// What a replacement does with the runs that it is handed.
#[derive(Debug)]
pub enum HandoffAcceptance {
    Accepted { transferred_runs: usize },
    RejectedBusy { existing_runs: usize, runs: RunTable },
}

/// What comes back of the runs that were handed on.
#[derive(Debug)]
pub enum HandoffReply {
    /// They could not be sent.
    NotSent(RunTable),
    Answered(HandoffAcceptance),
    /// They were sent, and no answer came.
    Lost,
}

/// What a subscriber does with an event.
#[derive(Clone, Copy, Debug, PartialEq, Eq, Structural)]
pub enum Delivery {
    Delivered,
    Full,
    Closed,
}

/// The subscribers that are still there.
pub open spec fn still_there(subscribers: Seq<u64>, deliveries: Seq<Delivery>) -> Seq<u64>
    decreases subscribers.len(),
{
    if subscribers.len() == 0 {
        Seq::empty()
    } else {
        let n = subscribers.len() - 1;
        let rest = still_there(subscribers.drop_last(), deliveries);
        if deliveries[n] == Delivery::Closed {
            rest
        } else {
            rest.push(subscribers[n])
        }
    }
}

/// A supervisor gives its runs up, to hand them on.
pub open spec fn gives_up(before: SupervisorActor, after: SupervisorActor, runs: RunTable) -> bool {
    &&& after.subscribers == before.subscribers
    &&& after.next_run_id == before.next_run_id
    &&& after.runs@.len() == 0
    &&& runs == before.runs
}

/// A supervisor takes runs over where it owns none, and gives them back
/// otherwise.
pub open spec fn accepts(
    before: SupervisorActor,
    after: SupervisorActor,
    runs: RunTable,
    acceptance: HandoffAcceptance,
) -> bool {
    &&& after.subscribers == before.subscribers
    &&& after.next_run_id == before.next_run_id
    &&& if before.runs@.len() == 0 {
        &&& after.runs == runs
        &&& acceptance is Accepted
        &&& acceptance->transferred_runs == runs@.len()
    } else {
        &&& after.runs == before.runs
        &&& acceptance is RejectedBusy
        &&& acceptance->existing_runs == before.runs@.len()
        &&& acceptance->runs == runs
    }
}

/// A supervisor takes back the runs that were not taken over.
pub open spec fn takes_back(
    before: SupervisorActor,
    after: SupervisorActor,
    transferred_runs: usize,
    reply: HandoffReply,
    decision: UpgradeHandoffDecision,
) -> bool {
    &&& after.subscribers == before.subscribers
    &&& after.next_run_id == before.next_run_id
    &&& match reply {
        HandoffReply::NotSent(runs) => {
            &&& after.runs == runs
            &&& decision == UpgradeHandoffDecision::RejectedTargetUnavailable
        },
        HandoffReply::Answered(HandoffAcceptance::Accepted { transferred_runs: count }) => {
            &&& after.runs == before.runs
            &&& decision == (UpgradeHandoffDecision::Accepted { transferred_runs: count })
        },
        HandoffReply::Answered(HandoffAcceptance::RejectedBusy { existing_runs, runs }) => {
            &&& after.runs == runs
            &&& decision == (UpgradeHandoffDecision::RejectedTargetBusy {
                target_runs: existing_runs,
            })
        },
        HandoffReply::Lost => {
            &&& after.runs == before.runs
            &&& decision == (UpgradeHandoffDecision::AcknowledgementLost { transferred_runs })
        },
    }
}

/// A supervisor: its runs, the number for the next one, and who is told.
#[derive(Debug)]
pub struct SupervisorActor {
    pub runs: RunTable,
    pub next_run_id: RunId,
    pub subscribers: Vec<u64>,
}

/// A run was to be started: what is answered, and what becomes of the supervisor.
pub open spec fn run_started(
    before: SupervisorActor,
    spawned: Result<SpawnedChild, String>,
    result: Result<RunSnapshot, SupervisorError>,
    after: SupervisorActor,
) -> bool {
    &&& after.subscribers == before.subscribers
    &&& match spawned {
        Err(source) => result == Err::<RunSnapshot, SupervisorError>(SupervisorError::Io(source))
            && after == before,
        Ok(child) => if child.pid is None || !child.has_stdout || !child.has_stderr {
            &&& after == before
            &&& result is Err
            &&& result->Err_0 is Io
            &&& result->Err_0->Io_0@ == (if child.pid is None {
                "spawned process did not expose a process identifier"@
            } else if !child.has_stdout {
                "spawned process did not expose its piped stdout"@
            } else {
                "spawned process did not expose its piped stderr"@
            })
        } else {
            let snapshot = RunSnapshot { run_id: before.next_run_id, pid: child.pid->0 };
            &&& result == Ok::<RunSnapshot, SupervisorError>(snapshot)
            &&& after.runs@ == without(before.runs@, before.next_run_id).push(
                ManagedRun { snapshot, child: child.child, stop_requested: false },
            )
            &&& after.next_run_id == if before.next_run_id == u64::MAX {
                u64::MAX
            } else {
                (before.next_run_id + 1) as u64
            }
        },
    }
}

/// A run was asked to stop: what is answered, and what becomes of the supervisor.
pub open spec fn run_stopped(
    before: SupervisorActor,
    run_id: RunId,
    result: Result<Option<SupervisorEvent>, SupervisorError>,
    after: SupervisorActor,
) -> bool {
    &&& after.subscribers == before.subscribers
    &&& after.next_run_id == before.next_run_id
    &&& if owns(before.runs@, run_id) {
        let place = place_of(before.runs@, run_id);
        &&& after.runs@ == before.runs@.update(place, asked_to_stop(before.runs@[place]))
        &&& result is Ok
        &&& result->Ok_0 == if before.runs@[place].stop_requested {
            None
        } else {
            Some(SupervisorEvent::StopRequested { run_id })
        }
    } else {
        after.runs@ == before.runs@ && result == Err::<Option<SupervisorEvent>, SupervisorError>(
            SupervisorError::RunNotFound(run_id),
        )
    }
}

/// The user interface is left: what is decided, and what becomes of the supervisor.
pub open spec fn exit_decided(
    before: SupervisorActor,
    policy: ExplicitExitPolicy,
    decision: ExplicitExitDecision,
    events: Seq<SupervisorEvent>,
    after: SupervisorActor,
) -> bool {
    &&& after.subscribers == before.subscribers
    &&& after.next_run_id == before.next_run_id
    &&& match policy {
        ExplicitExitPolicy::KeepRunning => {
            &&& decision == ExplicitExitDecision::UiMayExitKeepingRuns {
                active_runs: decision->active_runs,
            }
            &&& decision->active_runs == before.runs@.len()
            &&& events.len() == 0
            &&& after.runs@ == before.runs@
        },
        ExplicitExitPolicy::Cancel => decision == ExplicitExitDecision::Cancelled && events.len()
            == 0 && after.runs@ == before.runs@,
        ExplicitExitPolicy::StopAll => {
            &&& decision is StopRequested
            &&& decision->requested == before.runs@.len()
            &&& decision->failed == 0
            &&& events == new_stops(before.runs@)
            &&& after.runs@.len() == before.runs@.len()
            &&& forall|i: int|
                0 <= i < before.runs@.len() ==> #[trigger] after.runs@[i] == asked_to_stop(
                    before.runs@[i],
                )
        },
    }
}

/// Runs were looked at: what is told of them, and what becomes of the supervisor.
pub open spec fn exits_reaped(
    before: SupervisorActor,
    waits: Seq<(RunId, WaitReply)>,
    events: Seq<SupervisorEvent>,
    after: SupervisorActor,
) -> bool {
    &&& after.subscribers == before.subscribers
    &&& after.next_run_id == before.next_run_id
    &&& after.runs@ == runs_left(before.runs@, waits)
    &&& events == end_events(waits)
}

impl SupervisorActor {
    pub open spec fn wf(self) -> bool {
        self.runs.wf()
    }

    pub fn new() -> (actor: Self)
        ensures
            actor.wf(),
            actor.runs@ == Seq::<ManagedRun>::empty(),
            actor.next_run_id == 1,
            actor.subscribers@ == Seq::<u64>::empty(),
    {
        SupervisorActor { runs: RunTable::new(), next_run_id: 1, subscribers: Vec::new() }
    }

    pub fn connect_ui(&mut self, subscriber: u64)
        requires
            old(self).wf(),
        ensures
            final(self).wf(),
            final(self).runs == old(self).runs,
            final(self).next_run_id == old(self).next_run_id,
            final(self).subscribers@ == old(self).subscribers@.push(subscriber),
    {
        self.subscribers.push(subscriber);
    }

    /// Takes on a process that was spawned. A run that stood under the same
    /// number is replaced by it.
    pub fn start_run(&mut self, spawned: Result<SpawnedChild, String>) -> (result: Result<
        RunSnapshot,
        SupervisorError,
    >)
        requires
            old(self).wf(),
        ensures
            final(self).wf(),
            run_started(*old(self), spawned, result, *final(self)),
    {
        let child = match spawned {
            Ok(child) => child,
            Err(source) => return Err(SupervisorError::Io(source)),
        };
        let pid: u32 = match child.pid {
            Some(pid) => pid,
            None => return Err(
                SupervisorError::Io(
                    "spawned process did not expose a process identifier".to_owned(),
                ),
            ),
        };
        if !child.has_stdout {
            return Err(
                SupervisorError::Io("spawned process did not expose its piped stdout".to_owned()),
            );
        }
        if !child.has_stderr {
            return Err(
                SupervisorError::Io("spawned process did not expose its piped stderr".to_owned()),
            );
        }
        let run_id: u64 = self.next_run_id;
        self.next_run_id = self.next_run_id.saturating_add(1);
        let snapshot = RunSnapshot { run_id, pid };
        let _ = self.runs.remove(run_id);
        let ghost before = self.runs@;
        self.runs.runs.push(ManagedRun { snapshot, child: child.child, stop_requested: false });
        proof {
            assert forall|i: int, j: int| 0 <= i < j < self.runs@.len() implies (
            #[trigger] self.runs@[i]).snapshot.run_id != (
            #[trigger] self.runs@[j]).snapshot.run_id by {
                assert(self.runs@[i] == before[i]);
                if j < before.len() {
                    assert(self.runs@[j] == before[j]);
                } else {
                    assert(!stands_at(before, run_id, i));
                }
            }
        }
        Ok(snapshot)
    }

    /// Asks for the stop of a run. Subscribers are told the first time only.
    pub fn stop_run(&mut self, run_id: RunId) -> (result: Result<
        Option<SupervisorEvent>,
        SupervisorError,
    >)
        requires
            old(self).wf(),
        ensures
            final(self).wf(),
            run_stopped(*old(self), run_id, result, *final(self)),
    {
        let place: usize = match self.runs.find(run_id) {
            Some(place) => place,
            None => return Err(SupervisorError::RunNotFound(run_id)),
        };
        let run = self.runs.runs[place];
        self.runs.runs.set(
            place,
            ManagedRun { snapshot: run.snapshot, child: run.child, stop_requested: true },
        );
        proof {
            let before = old(self).runs@;
            let after = self.runs@;
            assert(after =~= before.update(place as int, asked_to_stop(run)));
            assert forall|i: int, j: int| 0 <= i < j < after.len() implies (
            #[trigger] after[i]).snapshot.run_id != (#[trigger] after[j]).snapshot.run_id by {
                assert(before[i].snapshot == after[i].snapshot);
                assert(before[j].snapshot == after[j].snapshot);
            }
        }
        if run.stop_requested {
            Ok(None)
        } else {
            Ok(Some(SupervisorEvent::StopRequested { run_id }))
        }
    }

    /// Decides whether the user interface may go: its runs go on, or their stop
    /// is asked for.
    pub fn explicit_ui_exit(&mut self, policy: ExplicitExitPolicy) -> (result: (
        ExplicitExitDecision,
        Vec<SupervisorEvent>,
    ))
        requires
            old(self).wf(),
        ensures
            final(self).wf(),
            exit_decided(*old(self), policy, result.0, result.1@, *final(self)),
    {
        let mut events: Vec<SupervisorEvent> = Vec::new();
        match policy {
            ExplicitExitPolicy::KeepRunning => (
                ExplicitExitDecision::UiMayExitKeepingRuns { active_runs: self.runs.len() },
                events,
            ),
            ExplicitExitPolicy::Cancel => (ExplicitExitDecision::Cancelled, events),
            ExplicitExitPolicy::StopAll => {
                let requested: usize = self.runs.len();
                let ghost before = self.runs@;
                assert(before.subrange(0, 0) =~= Seq::<ManagedRun>::empty());
                let mut i: usize = 0;
                while i < requested
                    invariant
                        i <= requested,
                        requested == before.len(),
                        self.runs@.len() == requested,
                        self.subscribers == old(self).subscribers,
                        self.next_run_id == old(self).next_run_id,
                        before == old(self).runs@,
                        events@ == new_stops(before.subrange(0, i as int)),
                        forall|k: int|
                            0 <= k < i ==> #[trigger] self.runs@[k] == asked_to_stop(before[k]),
                        forall|k: int| i <= k < requested ==> #[trigger] self.runs@[k] == before[k],
                    decreases requested - i,
                {
                    let run = self.runs.runs[i];
                    assert(self.runs@[i as int] == before[i as int]);
                    proof {
                        let longer = before.subrange(0, i + 1);
                        assert(longer.drop_last() =~= before.subrange(0, i as int));
                    }
                    if !run.stop_requested {
                        events.push(SupervisorEvent::StopRequested { run_id: run.snapshot.run_id });
                    }
                    self.runs.runs.set(
                        i,
                        ManagedRun {
                            snapshot: run.snapshot,
                            child: run.child,
                            stop_requested: true,
                        },
                    );
                    i += 1;
                }
                proof {
                    assert(before.subrange(0, before.len() as int) =~= before);
                    assert forall|i: int, j: int| 0 <= i < j < self.runs@.len() implies (
                    #[trigger] self.runs@[i]).snapshot.run_id != (
                    #[trigger] self.runs@[j]).snapshot.run_id by {
                        assert(before[i].snapshot == self.runs@[i].snapshot);
                        assert(before[j].snapshot == self.runs@[j].snapshot);
                    }
                }
                (ExplicitExitDecision::StopRequested { requested, failed: 0 }, events)
            },
        }
    }

    /// A supervisor goes only where it owns nothing.
    pub fn request_shutdown(&self) -> (decision: SupervisorShutdownDecision)
        ensures
            decision is Accepted <==> self.runs@.len() == 0,
            decision is RefusedActiveRuns ==> decision->active_runs == self.runs@.len(),
    {
        if self.runs.len() == 0 {
            SupervisorShutdownDecision::Accepted
        } else {
            SupervisorShutdownDecision::RefusedActiveRuns { active_runs: self.runs.len() }
        }
    }

    /// Takes runs over from another supervisor, where it owns none itself.
    pub fn accept_handoff(&mut self, runs: RunTable) -> (acceptance: HandoffAcceptance)
        requires
            old(self).wf(),
            runs.wf(),
        ensures
            final(self).wf(),
            accepts(*old(self), *final(self), runs, acceptance),
    {
        if self.runs.len() == 0 {
            let transferred_runs: usize = runs.len();
            self.runs = runs;
            HandoffAcceptance::Accepted { transferred_runs }
        } else {
            HandoffAcceptance::RejectedBusy { existing_runs: self.runs.len(), runs }
        }
    }

    /// Takes the runs out, to hand them on.
    pub fn take_runs(&mut self) -> (runs: RunTable)
        requires
            old(self).wf(),
        ensures
            final(self).wf(),
            gives_up(*old(self), *final(self), runs),
    {
        let mut runs = RunTable::new();
        std::mem::swap(&mut runs, &mut self.runs);
        runs
    }

    /// Takes in what came back of the runs that were handed on.
    pub fn transfer_to(&mut self, transferred_runs: usize, reply: HandoffReply) -> (decision:
        UpgradeHandoffDecision)
        requires
            old(self).wf(),
            match reply {
                HandoffReply::NotSent(runs) => runs.wf(),
                HandoffReply::Answered(
                    HandoffAcceptance::RejectedBusy { existing_runs, runs },
                ) => runs.wf(),
                _ => true,
            },
        ensures
            final(self).wf(),
            takes_back(*old(self), *final(self), transferred_runs, reply, decision),
    {
        match reply {
            HandoffReply::NotSent(runs) => {
                self.runs = runs;
                UpgradeHandoffDecision::RejectedTargetUnavailable
            },
            HandoffReply::Answered(HandoffAcceptance::Accepted { transferred_runs: count }) => {
                UpgradeHandoffDecision::Accepted { transferred_runs: count }
            },
            HandoffReply::Answered(HandoffAcceptance::RejectedBusy { existing_runs, runs }) => {
                self.runs = runs;
                UpgradeHandoffDecision::RejectedTargetBusy { target_runs: existing_runs }
            },
            HandoffReply::Lost => UpgradeHandoffDecision::AcknowledgementLost { transferred_runs },
        }
    }

    /// Lets the runs go that have ended, and tells of each.
    pub fn reap_exited(&mut self, waits: Vec<(RunId, WaitReply)>) -> (events: Vec<SupervisorEvent>)
        requires
            old(self).wf(),
        ensures
            final(self).wf(),
            exits_reaped(*old(self), waits@, events@, *final(self)),
    {
        let mut events: Vec<SupervisorEvent> = Vec::new();
        let mut i: usize = 0;
        while i < waits.len()
            invariant
                i <= waits@.len(),
                self.wf(),
                self.subscribers == old(self).subscribers,
                self.next_run_id == old(self).next_run_id,
                self.runs@ == runs_left(old(self).runs@, waits@.subrange(0, i as int)),
                events@ == end_events(waits@.subrange(0, i as int)),
            decreases waits@.len() - i,
        {
            proof {
                let longer = waits@.subrange(0, i + 1);
                assert(longer.drop_last() =~= waits@.subrange(0, i as int));
                assert(longer.last() == waits@[i as int]);
            }
            let run_id: u64 = waits[i].0;
            match &waits[i].1 {
                WaitReply::Running => {},
                WaitReply::Exited(exit_code) => {
                    let _ = self.runs.remove(run_id);
                    events.push(SupervisorEvent::RunExited { run_id, exit_code: *exit_code });
                },
                WaitReply::Failed(message) => {
                    let _ = self.runs.remove(run_id);
                    events.push(SupervisorEvent::RunFailed { run_id, message: message.clone() });
                },
            }
            i += 1;
        }
        assert(waits@.subrange(0, waits@.len() as int) =~= waits@);
        events
    }

    /// Lets the subscribers go that have closed.
    pub fn emit(&mut self, deliveries: &Vec<Delivery>)
        requires
            old(self).wf(),
            deliveries@.len() == old(self).subscribers@.len(),
        ensures
            final(self).wf(),
            final(self).runs == old(self).runs,
            final(self).next_run_id == old(self).next_run_id,
            final(self).subscribers@ == still_there(old(self).subscribers@, deliveries@),
    {
        let mut kept: Vec<u64> = Vec::new();
        let mut i: usize = 0;
        while i < self.subscribers.len()
            invariant
                i <= self.subscribers@.len(),
                *self == *old(self),
                deliveries@.len() == self.subscribers@.len(),
                kept@ == still_there(self.subscribers@.subrange(0, i as int), deliveries@),
            decreases self.subscribers@.len() - i,
        {
            proof {
                let longer = self.subscribers@.subrange(0, i + 1);
                assert(longer.drop_last() =~= self.subscribers@.subrange(0, i as int));
            }
            if deliveries[i] != Delivery::Closed {
                kept.push(self.subscribers[i]);
            }
            i += 1;
        }
        assert(self.subscribers@.subrange(0, self.subscribers@.len() as int)
            =~= self.subscribers@);
        self.subscribers = kept;
    }
}

/// A supervisor does not hand its runs to itself.
pub fn handoff_to(supervisor_id: u64, replacement_id: u64) -> (refusal: Option<
    UpgradeHandoffDecision,
>)
    ensures
        refusal == if supervisor_id == replacement_id {
            Some(UpgradeHandoffDecision::RejectedSameSupervisor)
        } else {
            None
        },
{
    if supervisor_id == replacement_id {
        Some(UpgradeHandoffDecision::RejectedSameSupervisor)
    } else {
        None
    }
}

/// The runs are no longer this supervisor's, so it goes.
pub fn ownership_moved(decision: UpgradeHandoffDecision) -> (moved: bool)
    ensures
        moved == (decision is Accepted || decision is AcknowledgementLost),
{
    match decision {
        UpgradeHandoffDecision::Accepted { .. } => true,
        UpgradeHandoffDecision::AcknowledgementLost { .. } => true,
        _ => false,
    }
}

/// A supervisor that nobody can talk to goes when its last run has ended.
pub fn is_done(actor: &SupervisorActor, commands_closed: bool) -> (done: bool)
    ensures
        done == (commands_closed && actor.runs@.len() == 0),
{
    commands_closed && actor.runs.len() == 0
}

/// A run has one owner: where runs are handed on and the answer comes back, or
/// they could not be sent, they are all with the new supervisor or all with the
/// old one, the decision says which, and what the new one owned stays its own.
pub proof fn lemma_handoff_keeps_every_run(
    old_before: SupervisorActor,
    old_empty: SupervisorActor,
    old_after: SupervisorActor,
    new_before: SupervisorActor,
    new_after: SupervisorActor,
    runs: RunTable,
    acceptance: HandoffAcceptance,
    sent: bool,
    decision: UpgradeHandoffDecision,
)
    requires
        gives_up(old_before, old_empty, runs),
        sent ==> accepts(new_before, new_after, runs, acceptance),
        !sent ==> new_after == new_before,
        takes_back(
            old_empty,
            old_after,
            runs@.len() as usize,
            if sent {
                HandoffReply::Answered(acceptance)
            } else {
                HandoffReply::NotSent(runs)
            },
            decision,
        ),
    ensures
        if decision is Accepted {
            &&& old_after.runs@.len() == 0
            &&& new_before.runs@.len() == 0
            &&& new_after.runs == old_before.runs
        } else {
            &&& old_after.runs == old_before.runs
            &&& new_after.runs == new_before.runs
        },
{
}

/// The stop of a run is announced once, however often it is asked for.
pub proof fn lemma_stop_is_announced_once(runs: Seq<ManagedRun>)
    requires
        forall|i: int| 0 <= i < runs.len() ==> (#[trigger] runs[i]).stop_requested,
    ensures
        new_stops(runs) == Seq::<SupervisorEvent>::empty(),
    decreases runs.len(),
{
    if runs.len() > 0 {
        assert forall|i: int| 0 <= i < runs.drop_last().len() implies (
        #[trigger] runs.drop_last()[i]).stop_requested by {
            assert(runs[i].stop_requested);
        }
        assert(runs[runs.len() - 1].stop_requested);
        lemma_stop_is_announced_once(runs.drop_last());
    }
}

} // verus!
