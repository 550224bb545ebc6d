//! What holding processes is for: a process that was started is held until it has ended or
//! was handed on, it is signalled only while it is itself, and one that cannot be held is
//! ended.

use vstd::prelude::*;

use crate::fixture::ProcessTreeScenario;
use crate::job_object::{
    answers, launch_follows, launch_plan, EndCall, LaunchPlan, LaunchReply, LaunchSpec,
    LaunchState,
};
use crate::ownership::{
    accepts, end_events, exit_decided, exits_reaped, gives_up, handoff_to, ids_differ, is_done,
    new_stops, ownership_moved, owns, place_of, run_started, run_stopped, runs_left, stands_at,
    still_there, takes_back, without, Delivery, ExplicitExitDecision, ExplicitExitPolicy,
    HandoffAcceptance, HandoffReply, ManagedRun, RunId, RunSnapshot, RunTable, SpawnedChild,
    SupervisorActor, SupervisorError, SupervisorEvent, SupervisorShutdownDecision,
    UpgradeHandoffDecision, WaitReply,
};
use crate::process_group::{
    answer_follows, call_pidinfo, map_errno, probe_process, probe_socket_fd, socket_fds,
    sockets_in, validate_identity, GroupSignal, MacProcessIdentity, ManagedProcessGroup,
    NativeFailure, ProcessProbe, RawProcess, SocketAnswer, SocketFdProbe, SocketProbeStep,
    SocketProbes,
};
use crate::process_tree::{child_follows, root_follows, ChildStep, RootStep, TreeReply};

verus! {

proof fn lemma_place(runs: Seq<ManagedRun>, run_id: RunId, place: int)
    requires
        ids_differ(runs),
        stands_at(runs, run_id, place),
    ensures
        place_of(runs, run_id) == place,
        owns(runs, run_id),
{
    let chosen = place_of(runs, run_id);
    assert(stands_at(runs, run_id, chosen));
    if chosen < place {
        assert(runs[chosen].snapshot.run_id != runs[place].snapshot.run_id);
    } else if place < chosen {
        assert(runs[place].snapshot.run_id != runs[chosen].snapshot.run_id);
    }
}

proof fn lemma_left_without(runs: Seq<ManagedRun>, run_id: RunId, other: RunId)
    requires
        ids_differ(runs),
    ensures
        ids_differ(without(runs, run_id)),
        owns(without(runs, run_id), other) <==> owns(runs, other) && other != run_id,
{
    let after = without(runs, run_id);
    if owns(runs, run_id) {
        let place = place_of(runs, run_id);
        assert(stands_at(runs, run_id, place));
        assert(after == runs.remove(place));
        assert forall|i: int, j: int| 0 <= i < j < after.len() implies (
        #[trigger] after[i]).snapshot.run_id != (#[trigger] after[j]).snapshot.run_id by {
            let x = if i < place { i } else { i + 1 };
            let y = if j < place { j } else { j + 1 };
            assert(after[i] == runs[x] && after[j] == runs[y]);
        }
        if owns(after, other) {
            let k = place_of(after, other);
            assert(stands_at(after, other, k));
            let m = if k < place { k } else { k + 1 };
            assert(stands_at(runs, other, m));
            if other == run_id {
                lemma_place(runs, run_id, m);
            }
        }
        if owns(runs, other) && other != run_id {
            let m = place_of(runs, other);
            assert(stands_at(runs, other, m));
            let k = if m < place { m } else { m - 1 };
            assert(stands_at(after, other, k));
        }
    }
}

/// A process that was started with all that is needed to follow it is held from then on
/// under a number of its own, and nothing else is: what could not be started is told, and
/// changes nothing.
pub proof fn lemma_started_process_is_held(
    before: SupervisorActor,
    spawned: Result<SpawnedChild, String>,
    result: Result<RunSnapshot, SupervisorError>,
    after: SupervisorActor,
    other: RunId,
)
    requires
        before.wf(),
        run_started(before, spawned, result, after),
    ensures
        result is Ok <==> spawned is Ok && spawned->Ok_0.pid is Some && spawned->Ok_0.has_stdout
            && spawned->Ok_0.has_stderr,
        result matches Ok(snapshot) ==> {
            &&& owns(after.runs@, snapshot.run_id)
            &&& snapshot.run_id == before.next_run_id && Some(snapshot.pid) == spawned->Ok_0.pid
            &&& after.runs@.last().child == spawned->Ok_0.child
            &&& !after.runs@.last().stop_requested
            &&& after.next_run_id > before.next_run_id || before.next_run_id
                == 0xffff_ffff_ffff_ffff
            &&& other != snapshot.run_id ==> (owns(after.runs@, other) <==> owns(
                before.runs@,
                other,
            ))
        },
        result is Err ==> after == before && result->Err_0 is Io,
{
    if let Ok(snapshot) = result {
        let rest = without(before.runs@, before.next_run_id);
        lemma_left_without(before.runs@, before.next_run_id, other);
        let last = rest.len() as int;
        assert(after.runs@[last].snapshot == snapshot);
        assert(stands_at(after.runs@, snapshot.run_id, last));
        if other != snapshot.run_id {
            if owns(rest, other) {
                let k = place_of(rest, other);
                assert(stands_at(rest, other, k));
                assert(stands_at(after.runs@, other, k));
            }
            if owns(after.runs@, other) {
                let k = place_of(after.runs@, other);
                assert(stands_at(after.runs@, other, k));
                assert(k != last);
                assert(stands_at(rest, other, k));
            }
        }
    }
}

/// A run that is held is marked as asked to stop and that is told once; one that is not held
/// is told to be unknown. No run is let go by being asked.
pub proof fn lemma_stop_is_told_once(
    before: SupervisorActor,
    run_id: RunId,
    result: Result<Option<SupervisorEvent>, SupervisorError>,
    after: SupervisorActor,
    place: int,
)
    requires
        before.wf(),
        run_stopped(before, run_id, result, after),
        0 <= place < before.runs@.len(),
    ensures
        result is Ok <==> owns(before.runs@, run_id),
        result is Err ==> result->Err_0 == SupervisorError::RunNotFound(run_id),
        after.runs@.len() == before.runs@.len(),
        after.next_run_id == before.next_run_id && after.subscribers == before.subscribers,
        after.runs@[place].snapshot == before.runs@[place].snapshot,
        after.runs@[place].child == before.runs@[place].child,
        after.runs@[place].stop_requested <==> before.runs@[place].stop_requested
            || before.runs@[place].snapshot.run_id == run_id,
        before.runs@[place].snapshot.run_id == run_id ==> (result->Ok_0 is Some
            <==> !before.runs@[place].stop_requested),
        result is Ok && result->Ok_0 is Some ==> result->Ok_0->0 == (SupervisorEvent::StopRequested {
            run_id,
        }),
{
    if before.runs@[place].snapshot.run_id == run_id {
        assert(stands_at(before.runs@, run_id, place));
        lemma_place(before.runs@, run_id, place);
    }
    if owns(before.runs@, run_id) {
        assert(stands_at(before.runs@, run_id, place_of(before.runs@, run_id)));
    }
}

proof fn lemma_new_stops(runs: Seq<ManagedRun>, run_id: RunId)
    ensures
        new_stops(runs).contains((SupervisorEvent::StopRequested { run_id })) <==> exists|i: int|
            0 <= i < runs.len() && (#[trigger] runs[i]).snapshot.run_id == run_id
                && !runs[i].stop_requested,
        new_stops(runs).len() <= runs.len(),
    decreases runs.len(),
{
    let event = SupervisorEvent::StopRequested { run_id };
    if runs.len() > 0 {
        let before = runs.drop_last();
        let rest = new_stops(before);
        lemma_new_stops(before, run_id);
        let last = SupervisorEvent::StopRequested { run_id: runs.last().snapshot.run_id };
        let pushed = rest.push(last);
        assert(pushed[rest.len() as int] == last);
        if rest.contains(event) {
            let k = rest.index_of(event);
            assert(pushed[k] == event);
            let i = choose|i: int|
                0 <= i < before.len() && (#[trigger] before[i]).snapshot.run_id == run_id
                    && !before[i].stop_requested;
            assert(runs[i].snapshot.run_id == run_id && !runs[i].stop_requested);
        }
        if pushed.contains(event) && event != last {
            let k = pushed.index_of(event);
            assert(rest[k] == event);
        }
        if event == last && !runs.last().stop_requested {
            assert(runs[runs.len() - 1].snapshot.run_id == run_id);
        }
        if exists|i: int|
            0 <= i < runs.len() && (#[trigger] runs[i]).snapshot.run_id == run_id
                && !runs[i].stop_requested {
            let i = choose|i: int|
                0 <= i < runs.len() && (#[trigger] runs[i]).snapshot.run_id == run_id
                    && !runs[i].stop_requested;
            if i < before.len() {
                assert(before[i].snapshot.run_id == run_id);
            }
        }
    }
}

/// Leaving the user interface ends no run: kept runs go on as they are, runs that are to
/// stop are all asked, each that was not asked before is told, and leaving can be taken
/// back without a trace.
pub proof fn lemma_leaving_the_interface_ends_no_run(
    before: SupervisorActor,
    policy: ExplicitExitPolicy,
    decision: ExplicitExitDecision,
    events: Seq<SupervisorEvent>,
    after: SupervisorActor,
    place: int,
)
    requires
        before.wf(),
        exit_decided(before, policy, decision, events, after),
        0 <= place < before.runs@.len(),
    ensures
        after.runs@.len() == before.runs@.len(),
        after.next_run_id == before.next_run_id && after.subscribers == before.subscribers,
        after.runs@[place].snapshot == before.runs@[place].snapshot,
        after.runs@[place].child == before.runs@[place].child,
        policy is StopAll ==> after.runs@[place].stop_requested,
        policy !is StopAll ==> after.runs@[place] == before.runs@[place] && events.len() == 0,
        policy is StopAll ==> (events.contains(
            (SupervisorEvent::StopRequested { run_id: before.runs@[place].snapshot.run_id }),
        ) <==> !before.runs@[place].stop_requested),
        policy is KeepRunning <==> decision is UiMayExitKeepingRuns,
        policy is StopAll <==> decision is StopRequested,
        policy is Cancel <==> decision is Cancelled,
        decision is UiMayExitKeepingRuns ==> decision->active_runs == before.runs@.len(),
        decision is StopRequested ==> decision->requested == before.runs@.len()
            && decision->failed == 0,
{
    let run_id = before.runs@[place].snapshot.run_id;
    lemma_new_stops(before.runs@, run_id);
    if policy is StopAll && new_stops(before.runs@).contains(
        (SupervisorEvent::StopRequested { run_id }),
    ) {
        let i = choose|i: int|
            0 <= i < before.runs@.len() && (#[trigger] before.runs@[i]).snapshot.run_id == run_id
                && !before.runs@[i].stop_requested;
        if i < place {
            assert(before.runs@[i].snapshot.run_id != before.runs@[place].snapshot.run_id);
        } else if place < i {
            assert(before.runs@[place].snapshot.run_id != before.runs@[i].snapshot.run_id);
        }
    }
}

proof fn lemma_runs_left(runs: Seq<ManagedRun>, waits: Seq<(RunId, WaitReply)>, run_id: RunId)
    requires
        ids_differ(runs),
    ensures
        ids_differ(runs_left(runs, waits)),
        owns(runs_left(runs, waits), run_id) <==> owns(runs, run_id) && !(exists|i: int|
            0 <= i < waits.len() && (#[trigger] waits[i]).0 == run_id && !(waits[i].1 is Running)),
    decreases waits.len(),
{
    if waits.len() > 0 {
        let before = waits.drop_last();
        let (last, reply) = waits.last();
        lemma_runs_left(runs, before, run_id);
        if !(reply is Running) {
            lemma_left_without(runs_left(runs, before), last, run_id);
            if last == run_id {
                assert(waits[waits.len() - 1].0 == run_id && !(waits[waits.len() - 1].1
                    is Running));
            }
        }
        if exists|i: int|
            0 <= i < before.len() && (#[trigger] before[i]).0 == run_id && !(before[i].1
                is Running) {
            let i = choose|i: int|
                0 <= i < before.len() && (#[trigger] before[i]).0 == run_id && !(before[i].1
                    is Running);
            assert(waits[i].0 == run_id && !(waits[i].1 is Running));
        }
        if exists|i: int|
            0 <= i < waits.len() && (#[trigger] waits[i]).0 == run_id && !(waits[i].1 is Running) {
            let i = choose|i: int|
                0 <= i < waits.len() && (#[trigger] waits[i]).0 == run_id && !(waits[i].1
                    is Running);
            if i < before.len() {
                assert(before[i].0 == run_id);
            }
        }
    }
}

/// A run is let go exactly where it was seen to have ended, or could not be waited for any
/// more: a run that still runs stays held.
pub proof fn lemma_run_is_held_until_it_ended(
    before: SupervisorActor,
    waits: Seq<(RunId, WaitReply)>,
    events: Seq<SupervisorEvent>,
    after: SupervisorActor,
    run_id: RunId,
)
    requires
        before.wf(),
        exits_reaped(before, waits, events, after),
    ensures
        owns(after.runs@, run_id) <==> owns(before.runs@, run_id) && (forall|i: int|
            0 <= i < waits.len() && (#[trigger] waits[i]).0 == run_id ==> waits[i].1 is Running),
        after.next_run_id == before.next_run_id && after.subscribers == before.subscribers,
{
    lemma_runs_left(before.runs@, waits, run_id);
}

/// What is told of the runs that were looked at grows by one event for each that ended, of
/// its kind and with its exit code, and by none for one that still runs.
pub proof fn lemma_each_end_is_told(
    waits: Seq<(RunId, WaitReply)>,
    run_id: RunId,
    reply: WaitReply,
)
    ensures
        reply is Running ==> end_events(waits.push((run_id, reply))) == end_events(waits),
        reply matches WaitReply::Exited(exit_code) ==> end_events(waits.push((run_id, reply)))
            == end_events(waits).push((SupervisorEvent::RunExited { run_id, exit_code })),
        reply matches WaitReply::Failed(message) ==> end_events(waits.push((run_id, reply)))
            == end_events(waits).push((SupervisorEvent::RunFailed { run_id, message })),
        end_events(Seq::<(RunId, WaitReply)>::empty()).len() == 0,
{
    let longer = waits.push((run_id, reply));
    assert(longer.drop_last() =~= waits);
    assert(longer.last() == (run_id, reply));
}

/// A supervisor goes only where it holds no run and nobody can ask it any more; while it
/// holds one, it says how many.
pub proof fn lemma_supervisor_stays_while_it_holds_a_run(
    actor: SupervisorActor,
    decision: SupervisorShutdownDecision,
    commands_closed: bool,
    done: bool,
)
    requires
        call_ensures(SupervisorActor::request_shutdown, (&actor,), decision),
        call_ensures(is_done, (&actor, commands_closed), done),
    ensures
        actor.runs@.len() > 0 ==> decision is RefusedActiveRuns && decision->active_runs
            == actor.runs@.len() && !done,
        actor.runs@.len() == 0 ==> decision is Accepted && done == commands_closed,
{
}

/// Runs are handed to another supervisor only, and have moved exactly where they were taken
/// or where it is not known; a target that is busy or gone leaves them where they were.
pub proof fn lemma_runs_move_where_they_were_taken(
    supervisor_id: u64,
    replacement_id: u64,
    refusal: Option<UpgradeHandoffDecision>,
    before: SupervisorActor,
    after: SupervisorActor,
    transferred_runs: usize,
    reply: HandoffReply,
    decision: UpgradeHandoffDecision,
    moved: bool,
)
    requires
        call_ensures(handoff_to, (supervisor_id, replacement_id), refusal),
        takes_back(before, after, transferred_runs, reply, decision),
        call_ensures(ownership_moved, (decision,), moved),
    ensures
        refusal is Some <==> supervisor_id == replacement_id,
        refusal is Some ==> refusal->0 is RejectedSameSupervisor,
        moved <==> reply is Lost || (reply matches HandoffReply::Answered(
            HandoffAcceptance::Accepted { .. },
        )),
        moved ==> after.runs == before.runs,
        (reply matches HandoffReply::NotSent(runs) ==> after.runs == runs && decision
            is RejectedTargetUnavailable),
        (reply matches HandoffReply::Answered(HandoffAcceptance::RejectedBusy {
            existing_runs,
            runs,
        }) ==> after.runs == runs && decision == (UpgradeHandoffDecision::RejectedTargetBusy {
            target_runs: existing_runs,
        })),
        reply is Lost ==> decision == (UpgradeHandoffDecision::AcknowledgementLost {
            transferred_runs,
        }),
{
}

/// A supervisor takes runs over only where it holds none, and then all of them.
pub proof fn lemma_runs_are_taken_over_by_an_idle_supervisor(
    before: SupervisorActor,
    after: SupervisorActor,
    runs: RunTable,
    acceptance: HandoffAcceptance,
    emptied: SupervisorActor,
    taken: RunTable,
)
    requires
        accepts(before, after, runs, acceptance),
        gives_up(before, emptied, taken),
    ensures
        acceptance is Accepted <==> before.runs@.len() == 0,
        acceptance is Accepted ==> after.runs == runs && acceptance->transferred_runs
            == runs@.len(),
        acceptance is RejectedBusy ==> after.runs == before.runs && acceptance->runs == runs
            && acceptance->existing_runs == before.runs@.len(),
        emptied.runs@.len() == 0 && taken == before.runs,
{
}

/// A group is signalled exactly where the process is still the one that was started and
/// still leads its group: asked to end with 15, made to end with 9, and always the whole
/// group that was started. The three ways of asking agree.
pub proof fn lemma_only_the_same_process_is_signalled(
    process: ManagedProcessGroup,
    probed: Result<ProcessProbe, crate::process_group::SpikeError>,
    group: Result<i32, NativeFailure>,
    target: Result<i32, crate::process_group::SpikeError>,
    asked: Result<GroupSignal, crate::process_group::SpikeError>,
    forced: Result<GroupSignal, crate::process_group::SpikeError>,
)
    requires
        call_ensures(ManagedProcessGroup::signal_validated_group, (&process, probed, group), target),
        call_ensures(ManagedProcessGroup::request_graceful_stop, (&process, probed, group), asked),
        call_ensures(ManagedProcessGroup::force_stop, (&process, probed, group), forced),
    ensures
        target is Ok <==> probed is Ok && probed->Ok_0.identity.pid == process.identity.pid
            && probed->Ok_0.identity.native_start_seconds == process.identity.native_start_seconds
            && probed->Ok_0.identity.native_start_microseconds
            == process.identity.native_start_microseconds && group is Ok && group->Ok_0
            == process.process_group_id,
        asked is Ok <==> target is Ok,
        forced is Ok <==> target is Ok,
        target is Ok ==> target->Ok_0 == process.process_group_id,
        asked is Ok ==> asked->Ok_0.group == process.process_group_id && asked->Ok_0.signal == 15,
        forced is Ok ==> forced->Ok_0.group == process.process_group_id && forced->Ok_0.signal == 9,
        probed is Err ==> target->Err_0 == probed->Err_0,
        probed is Ok && probed->Ok_0.identity != process.identity ==> target->Err_0
            is IdentityMismatch,
        probed is Ok && probed->Ok_0.identity == process.identity && group is Ok && group->Ok_0
            != process.process_group_id ==> target->Err_0 is ProcessGroupChanged,
{
}

/// A process that was spawned is held exactly where it leads a group of its own number and
/// can be looked at; it is known by what was seen of it.
pub proof fn lemma_spawned_process_leads_its_group(
    spawned: Result<(u64, i32), String>,
    group: Result<i32, NativeFailure>,
    probed: Result<ProcessProbe, crate::process_group::SpikeError>,
    result: Result<ManagedProcessGroup, crate::process_group::SpikeError>,
    expected: MacProcessIdentity,
    valid: Result<(), crate::process_group::SpikeError>,
)
    requires
        call_ensures(ManagedProcessGroup::spawn, (spawned, group, probed), result),
        call_ensures(validate_identity, (expected, probed), valid),
    ensures
        result is Ok <==> spawned is Ok && group is Ok && group->Ok_0 == spawned->Ok_0.1 && probed
            is Ok,
        result matches Ok(process) ==> process.child == spawned->Ok_0.0
            && process.process_group_id == spawned->Ok_0.1 && process.identity
            == probed->Ok_0.identity,
        valid is Ok <==> probed is Ok && probed->Ok_0.identity == expected,
        probed is Err ==> valid->Err_0 == probed->Err_0,
{
}

/// What the system says of a process is told for what it is: missing rights, a process that
/// is gone, or the system's own words. An answer counts where it holds something, or where
/// nothing was allowed and nothing went wrong.
pub proof fn lemma_system_error_is_told_for_what_it_is(
    operation: &str,
    pid: i32,
    failure: NativeFailure,
    error: crate::process_group::SpikeError,
    actual: i32,
    allow_empty: bool,
    written: Result<usize, crate::process_group::SpikeError>,
)
    requires
        call_ensures(map_errno, (operation, pid, failure), error),
        call_ensures(call_pidinfo, (actual, allow_empty, operation, pid, failure), written),
    ensures
        error is AccessLimited <==> failure.code is Some && (failure.code->0 == 1
            || failure.code->0 == 13),
        error is NotFound <==> failure.code is Some && failure.code->0 == 3,
        error is NotFound ==> error->pid == pid,
        error is Native ==> error->source == failure.words,
        error is AccessLimited || error is NotFound || error is Native,
        written is Ok <==> actual > 0 || (actual == 0 && allow_empty && failure.code is Some
            && failure.code->0 == 0),
        written is Ok ==> written->Ok_0 == actual,
{
}

/// A process is known by its number and by when it started, and only from a whole record.
pub proof fn lemma_process_is_known_from_a_whole_record(
    pid: i32,
    written: Result<usize, crate::process_group::SpikeError>,
    record_bytes: usize,
    raw: RawProcess,
    result: Result<ProcessProbe, crate::process_group::SpikeError>,
)
    requires
        call_ensures(probe_process, (pid, written, record_bytes, raw), result),
    ensures
        result is Ok <==> written is Ok && written->Ok_0 >= record_bytes,
        result matches Ok(probe) ==> {
            &&& probe.identity.pid == pid
            &&& probe.identity.native_start_seconds == raw.start_seconds
            &&& probe.identity.native_start_microseconds == raw.start_microseconds
            &&& probe.parent_pid == raw.parent_pid && probe.owner_uid == raw.owner_uid
            &&& probe.process_group_id == raw.process_group_id
            &&& probe.open_file_count == raw.open_file_count
        },
        written is Err ==> result->Err_0 == written->Err_0,
        written is Ok && result is Err ==> result->Err_0 is ShortRead,
{
}

proof fn lemma_sockets_in(entries: Seq<(i32, u32)>, fd: i32)
    ensures
        sockets_in(entries).contains(fd) <==> exists|i: int|
            0 <= i < entries.len() && (#[trigger] entries[i]).0 == fd && entries[i].1 == 2,
    decreases entries.len(),
{
    if entries.len() > 0 {
        let before = entries.drop_last();
        let rest = sockets_in(before);
        lemma_sockets_in(before, fd);
        let pushed = rest.push(entries.last().0);
        assert(pushed[rest.len() as int] == entries.last().0);
        if rest.contains(fd) {
            let k = rest.index_of(fd);
            assert(pushed[k] == fd);
            let i = choose|i: int|
                0 <= i < before.len() && (#[trigger] before[i]).0 == fd && before[i].1 == 2;
            assert(entries[i].0 == fd && entries[i].1 == 2);
        }
        if pushed.contains(fd) && fd != entries.last().0 {
            let k = pushed.index_of(fd);
            assert(rest[k] == fd);
        }
        if entries.last().0 == fd && entries.last().1 == 2 {
            assert(entries[entries.len() - 1].0 == fd);
        }
        if exists|i: int| 0 <= i < entries.len() && (#[trigger] entries[i]).0 == fd && entries[i].1
            == 2 {
            let i = choose|i: int|
                0 <= i < entries.len() && (#[trigger] entries[i]).0 == fd && entries[i].1 == 2;
            if i < before.len() {
                assert(before[i].0 == fd);
            }
        }
    }
}

/// The sockets of a process are those of its open files, as far as they were written, that
/// are sockets.
pub proof fn lemma_sockets_are_the_open_files_that_are_sockets(
    entries: Vec<(i32, u32)>,
    written: usize,
    fds: Vec<i32>,
    fd: i32,
)
    requires
        call_ensures(socket_fds, (&entries, written), fds),
    ensures
        fds@.contains(fd) <==> exists|i: int|
            0 <= i < entries@.len() && 8 * (i + 1) <= written && (#[trigger] entries@[i]).0 == fd
                && entries@[i].1 == 2,
{
    let end = crate::process_group::entries_written(entries@.len(), written as nat) as int;
    let seen = entries@.subrange(0, end);
    lemma_sockets_in(seen, fd);
    if exists|i: int| 0 <= i < seen.len() && (#[trigger] seen[i]).0 == fd && seen[i].1 == 2 {
        let i = choose|i: int|
            0 <= i < seen.len() && (#[trigger] seen[i]).0 == fd && seen[i].1 == 2;
        assert(entries@[i] == seen[i]);
        assert(8 * (i + 1) <= written);
    }
    if exists|i: int|
        0 <= i < entries@.len() && 8 * (i + 1) <= written && (#[trigger] entries@[i]).0 == fd
            && entries@[i].1 == 2 {
        let i = choose|i: int|
            0 <= i < entries@.len() && 8 * (i + 1) <= written && (#[trigger] entries@[i]).0 == fd
                && entries@[i].1 == 2;
        assert(i < written / 8);
        assert(seen[i] == entries@[i]);
    }
}

/// A process runs only once its job holds it: it is made suspended, given to the job, and
/// only then resumed. One that cannot be given to the job or resumed is ended, with the job
/// where the job holds it and alone where it does not, and is not forgotten where that
/// fails.
pub proof fn lemma_process_runs_only_in_its_job(
    state: LaunchState,
    reply: LaunchReply,
    enable_ctrl_break: bool,
    next: LaunchState,
)
    requires
        answers(state, reply),
        launch_follows(state, reply, enable_ctrl_break, next),
    ensures
        next matches LaunchState::SetLimits { job } ==> reply == LaunchReply::Job(job),
        next matches LaunchState::CreateProcess { job } ==> state == (LaunchState::SetLimits { job })
            && reply is Done,
        (next matches LaunchState::Assign { suspended } ==> state is CreateProcess
            && suspended.job == state->CreateProcess_job && !suspended.assigned_to_job
            && suspended.process == reply->Process_0.process && suspended.process_id
            == reply->Process_0.process_id),
        (next matches LaunchState::Resume { suspended } ==> state is Assign && reply is Done
            && suspended.assigned_to_job && suspended.process == state->Assign_suspended.process
            && suspended.job == state->Assign_suspended.job && suspended.process_id
            == state->Assign_suspended.process_id),
        (next matches LaunchState::Launched { process } ==> state is Resume && reply is Done
            && process.id() == state->Resume_suspended.process_id && process.job_handle()
            == state->Resume_suspended.job && process.process_handle()
            == state->Resume_suspended.process && (process.break_group() is Some
            <==> enable_ctrl_break)),
        next is Terminate <==> (state is Assign || state is Resume) && reply is Failed,
        (next matches LaunchState::Terminate { suspended, call, .. } ==> {
            &&& suspended.assigned_to_job ==> call == EndCall::Job(suspended.job)
            &&& !suspended.assigned_to_job ==> call == EndCall::Process(suspended.process)
            &&& state is Assign ==> suspended == state->Assign_suspended
            &&& state is Resume ==> suspended == state->Resume_suspended
        }),
        next is AwaitEnd <==> state is Terminate && reply is Done,
        next is AwaitEnd ==> next->AwaitEnd_suspended == state->Terminate_suspended,
        (state is Terminate || state is AwaitEnd) && reply is Failed ==> next is Failed
            && next->end_again is Some,
        state is AwaitEnd && reply is Done ==> next is Failed && next->end_again is None,
        next is Failed && (state is CreateJob || state is SetLimits || state is CreateProcess)
            ==> next->end_again is None,
        (state is CreateJob || state is SetLimits || state is CreateProcess) && reply is Failed
            ==> next is Failed,
{
}

/// A process is planned to start suspended in a job that ends it when it is closed; no text
/// with a zero in it is handed on, and every text is ended by one.
pub proof fn lemma_process_is_planned_to_end_with_its_job(
    spec: LaunchSpec,
    result: Result<LaunchPlan, crate::job_object::SpikeError>,
)
    requires
        call_ensures(launch_plan, (spec,), result),
    ensures
        result is Ok <==> !spec.application@.contains(0u16) && !spec.command_line@.contains(0u16)
            && (spec.current_directory is Some ==> !spec.current_directory->0@.contains(0u16)),
        result matches Ok(plan) ==> {
            &&& plan.kill_on_job_close && plan.create_suspended
            &&& plan.breakaway_ok == spec.allow_breakaway
            &&& plan.create_new_process_group == spec.enable_ctrl_break
            &&& plan.application@.last() == 0 && plan.command_line@.last() == 0
            &&& plan.application@.drop_last() == spec.application@
            &&& plan.command_line@.drop_last() == spec.command_line@
            &&& plan.current_directory is Some <==> spec.current_directory is Some
        },
        result is Err ==> result->Err_0 is InteriorNul,
{
    if let Ok(plan) = result {
        assert(plan.application@.drop_last() =~= spec.application@);
        assert(plan.command_line@.drop_last() =~= spec.command_line@);
    }
}

/// The root of a tree announces it only once its child said who it is and, for a stable
/// tree, still runs, or, for a tree whose child goes, has ended well; a root that fails
/// after its child was started ends the child first.
pub proof fn lemma_tree_is_announced_once_it_stands(
    own: u32,
    tree: ProcessTreeScenario,
    step: RootStep,
    reply: TreeReply,
    next: RootStep,
)
    requires
        step.asks_for(reply),
        root_follows(own, tree, step, reply, next),
    ensures
        next matches RootStep::ReadChild { expected } ==> reply == TreeReply::Spawned(Ok(expected)),
        (next matches RootStep::LookAtChild { child, .. } ==> tree == ProcessTreeScenario::Stable
            && step == (RootStep::ReadChild { expected: child }) && reply->Line_0 is Ok),
        (next matches RootStep::AwaitChild { child, .. } ==> tree
            == ProcessTreeScenario::ChildExitsAfterSpawn && step == (RootStep::ReadChild {
            expected: child,
        }) && reply->Line_0 is Ok),
        next is Announce <==> (step is LookAtChild && reply->Ended_0 == Some(false)) || (step
            is AwaitChild && reply->Awaited_0 is Ok),
        next is Hold <==> step is Announce && reply->Written_0,
        next is AwaitEnd <==> step is Hold && tree == ProcessTreeScenario::Stable,
        (next matches RootStep::Finished(result) ==> (result is Ok <==> (step is Hold && tree
            == ProcessTreeScenario::ChildExitsAfterSpawn) || (step is AwaitEnd && reply->Awaited_0
            is Ok))),
        (next matches RootStep::Finished(result) ==> (result is Err ==> step is Spawn || step
            is TerminateChild)),
        (step matches RootStep::TerminateChild(error) ==> next == RootStep::Finished(Err(error))),
        step is ReadChild && reply->Line_0 is Err ==> next == RootStep::TerminateChild(
            reply->Line_0->Err_0,
        ),
        !(next is Spawn),
{
}

/// A child announces itself only once its own child said who it is, and one that fails after
/// that was started ends it first.
pub proof fn lemma_child_answers_for_its_own_child(
    own: u32,
    tree: ProcessTreeScenario,
    step: ChildStep,
    reply: TreeReply,
    next: ChildStep,
)
    requires
        step.asks_for(reply),
        child_follows(own, tree, step, reply, next),
    ensures
        next matches ChildStep::ReadGrandchild { expected } ==> reply == TreeReply::Spawned(
            Ok(expected),
        ),
        next is Announce ==> step is ReadGrandchild && reply->Line_0 is Ok,
        next is Hold <==> step is Announce && reply->Written_0 && tree
            == ProcessTreeScenario::Stable,
        next is AwaitGrandchild <==> step is Hold,
        (next matches ChildStep::Finished(result) ==> {
            &&& step is Announce ==> result is Ok && tree
                == ProcessTreeScenario::ChildExitsAfterSpawn && reply->Written_0
            &&& step is AwaitGrandchild ==> result == reply->Awaited_0
            &&& step is Announce || step is AwaitGrandchild || result is Err
        }),
        step is Announce && !reply->Written_0 ==> next is TerminateGrandchild,
        (step matches ChildStep::TerminateGrandchild(error) ==> next == ChildStep::Finished(
            Err(error),
        )),
        step is ReadGrandchild && reply->Line_0 is Err ==> next == ChildStep::TerminateGrandchild(
            reply->Line_0->Err_0,
        ),
        !(next is Spawn),
{
}

/// The sockets of a process are asked for one after the other: each that answers is kept
/// under its number, one that is gone meanwhile is passed over, and anything else ends the
/// look.
pub proof fn lemma_each_socket_is_asked_for(
    probes: SocketProbes,
    answer: SocketAnswer,
    step: SocketProbeStep,
)
    requires
        probes.next < probes.fds@.len(),
        answer_follows(probes, answer, step),
    ensures
        step is Fail <==> answer.actual <= 0 && !(answer.failure.code is Some && (
        answer.failure.code->0 == 9 || answer.failure.code->0 == 2)),
        step is Done ==> probes.next + 1 == probes.fds@.len(),
        step matches SocketProbeStep::Ask(next) ==> {
            &&& next.pid == probes.pid && next.fds@ == probes.fds@
            &&& next.next == probes.next + 1
            &&& next.sockets@.len() == probes.sockets@.len() + (if answer.actual > 0 {
                1int
            } else {
                0
            })
            &&& answer.actual > 0 ==> next.sockets@.last().fd == probes.fds@[probes.next as int]
            &&& forall|i: int|
                0 <= i < probes.sockets@.len() ==> #[trigger] next.sockets@[i]
                    == probes.sockets@[i]
        },
        step matches SocketProbeStep::Done(found) ==> found@.len() == probes.sockets@.len() + (if
            answer.actual > 0 {
            1int
        } else {
            0
        }),
{
}

/// One socket answers exactly where the system gave something of it; one that is gone is
/// none, and anything else is a failure.
pub proof fn lemma_socket_that_is_gone_is_none(
    pid: i32,
    fd: i32,
    actual: i32,
    native_info: Vec<u8>,
    failure: NativeFailure,
    result: Result<Option<SocketFdProbe>, crate::process_group::SpikeError>,
)
    requires
        call_ensures(probe_socket_fd, (pid, fd, actual, native_info, failure), result),
    ensures
        result is Ok && result->Ok_0 is Some <==> actual > 0,
        result is Ok && result->Ok_0 is Some ==> result->Ok_0->0.fd == fd
            && result->Ok_0->0.native_info@.len() <= native_info@.len()
            && result->Ok_0->0.native_info@.len() <= actual,
        result is Ok && result->Ok_0 is None <==> actual <= 0 && failure.code is Some && (
        failure.code->0 == 9 || failure.code->0 == 2),
{
}

/// A signal was sent exactly where the system took it, and what went wrong is told.
pub proof fn lemma_signal_was_sent_where_it_was_taken(
    process: ManagedProcessGroup,
    sent: Result<(), NativeFailure>,
    result: Result<(), crate::process_group::SpikeError>,
    wait: u32,
    held: crate::job_object::ManagedProcess,
    exited: bool,
    group: Result<u32, crate::job_object::SpikeError>,
)
    requires
        call_ensures(ManagedProcessGroup::after_signal, (&process, sent), result),
        call_ensures(crate::job_object::ManagedProcess::has_exited, (&held, wait), exited),
        call_ensures(crate::job_object::ManagedProcess::request_ctrl_break, (&held,), group),
    ensures
        result is Ok <==> sent is Ok,
        sent matches Err(failure) ==> (result->Err_0 is NotFound <==> failure.code is Some
            && failure.code->0 == 3),
        exited <==> wait == 0,
        group is Ok <==> held.break_group() is Some,
        group is Ok ==> group->Ok_0 == held.break_group()->0,
{
}

/// A listener stays exactly while it is not gone: one that only could not keep up is told
/// again later.
pub proof fn lemma_listener_stays_until_it_is_gone(
    subscribers: Seq<u64>,
    deliveries: Seq<Delivery>,
    subscriber: u64,
)
    requires
        deliveries.len() == subscribers.len() + 1,
    ensures
        deliveries.last() == Delivery::Closed ==> still_there(
            subscribers.push(subscriber),
            deliveries,
        ) == still_there(subscribers, deliveries),
        deliveries.last() != Delivery::Closed ==> still_there(
            subscribers.push(subscriber),
            deliveries,
        ) == still_there(subscribers, deliveries).push(subscriber),
        still_there(Seq::<u64>::empty(), deliveries).len() == 0,
{
    let longer = subscribers.push(subscriber);
    assert(longer.drop_last() =~= subscribers);
}

} // verus!
