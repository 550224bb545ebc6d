//! What holds over many calls on the state: revisions follow each other without
//! gap, and a snapshot is read through as it was frozen.

use vstd::prelude::*;

use crate::collection::{sorted, Entity, EntityKey};
use crate::error::AppError;
use crate::keys::PortBindingKey;
use crate::revision::{
    continuation_fault, continues, has_session, log_batch_applied, page_issued, port_delta_applied,
    process_delta_applied, same_page, session_place, sessions_wf, snapshot_continued,
    snapshot_kept, snapshot_started, unexpired, without_expired, ContinuedSnapshot, EntityChecks,
    PortDelta, ProcessDelta, RevisionChange, RevisionEvent, StateView,
};
use crate::run::ProcessInstanceKey;
use crate::snapshot::{
    cursor_fault, cursor_text, is_snapshot_id, is_span, lemma_cursor_of_snapshot, shows_page,
    FrozenSnapshotSession, SnapshotPage, SystemSnapshot, MAX_SNAPSHOT_CHUNK_ENTITIES,
};

verus! {

/// A call on the state, with its arguments and what it gave.
#[allow(inconsistent_fields)]
pub enum Call {
    ProcessDelta {
        delta: ProcessDelta,
        checks: Seq<EntityChecks>,
        now_ms: u64,
        result: Result<RevisionEvent, AppError>,
    },
    PortDelta { delta: PortDelta, now_ms: u64, result: Result<RevisionEvent, AppError> },
    LogBatch {
        batch: u64,
        checked: Result<(), AppError>,
        result: Result<RevisionEvent, AppError>,
    },
    Start {
        starting_revision: u64,
        now_ms: u64,
        result: Result<FrozenSnapshotSession, AppError>,
    },
    Keep {
        session: FrozenSnapshotSession,
        page: SnapshotPage,
        encoded_bytes: usize,
        result: Result<SystemSnapshot, AppError>,
    },
    Continue {
        starting_revision: u64,
        cursor: Seq<char>,
        now_ms: u64,
        result: Result<ContinuedSnapshot, AppError>,
    },
    Issue {
        place: int,
        page: SnapshotPage,
        encoded_bytes: usize,
        now_ms: u64,
        result: Result<SystemSnapshot, AppError>,
    },
}

/// A call was made on a state that admits it, and left another.
pub open spec fn made(before: StateView, call: Call, after: StateView) -> bool {
    match call {
        Call::ProcessDelta { delta, checks, now_ms, result } => process_delta_applied(
            before,
            delta,
            checks,
            now_ms,
            result,
            after,
        ),
        Call::PortDelta { delta, now_ms, result } => port_delta_applied(
            before,
            delta,
            now_ms,
            result,
            after,
        ),
        Call::LogBatch { batch, checked, result } => log_batch_applied(
            before,
            batch,
            checked,
            result,
            after,
        ),
        Call::Start { starting_revision, now_ms, result } => {
            &&& after == without_expired(before, now_ms)
            &&& snapshot_started(after, starting_revision, now_ms, result)
        },
        Call::Keep { session, page, encoded_bytes, result } => {
            &&& !has_session(before.sessions, session.snapshot_id@)
            &&& snapshot_kept(before, session, page, encoded_bytes, result, after)
        },
        Call::Continue { starting_revision, cursor, now_ms, result } => snapshot_continued(
            without_expired(before, now_ms),
            starting_revision,
            cursor,
            now_ms,
            result,
            after,
        ),
        Call::Issue { place, page, encoded_bytes, now_ms, result } => {
            &&& 0 <= place < before.sessions.len()
            &&& page_issued(before, place, page, encoded_bytes, now_ms, result, after)
        },
    }
}

/// The states that calls lead through.
pub struct Trace {
    pub states: Seq<StateView>,
    pub calls: Seq<Call>,
}

impl Trace {
    pub open spec fn wf(self) -> bool {
        &&& self.states.len() == self.calls.len() + 1
        &&& forall|i: int| 0 <= i < self.states.len() ==> (#[trigger] self.states[i]).wf()
        &&& forall|i: int|
            0 <= i < self.calls.len() ==> made(
                self.states[i],
                #[trigger] self.calls[i],
                self.states[i + 1],
            )
    }
}

/// The event of a change that was accepted.
pub open spec fn accepted(call: Call) -> Option<RevisionEvent> {
    match call {
        Call::ProcessDelta { result: Ok(event), .. } => Some(event),
        Call::PortDelta { result: Ok(event), .. } => Some(event),
        Call::LogBatch { result: Ok(event), .. } => Some(event),
        _ => None,
    }
}

/// How many of the first calls were changes that were accepted.
pub open spec fn accepted_count(calls: Seq<Call>, end: int) -> nat
    decreases end,
{
    if end <= 0 {
        0
    } else {
        accepted_count(calls, end - 1) + if accepted(calls[end - 1]) is Some {
            1nat
        } else {
            0nat
        }
    }
}

proof fn lemma_revision_step(before: StateView, call: Call, after: StateView)
    requires
        before.wf(),
        made(before, call, after),
    ensures
        after.revision == before.revision + (if accepted(call) is Some {
            1int
        } else {
            0int
        }),
        accepted(call) is Some ==> accepted(call)->0.revision == after.revision,
{
}

/// Over any calls, the revision rises by one with each change that is accepted
/// and with nothing else: the accepted changes get the revisions after the
/// first one in the order in which they were made, without gap or repeat.
pub proof fn lemma_revisions_follow_each_other(trace: Trace, end: int)
    requires
        trace.wf(),
        0 <= end <= trace.calls.len(),
    ensures
        trace.states[end].revision == trace.states[0].revision + accepted_count(trace.calls, end),
        forall|i: int|
            0 <= i < end && accepted(#[trigger] trace.calls[i]) is Some ==> accepted(
                trace.calls[i],
            )->0.revision == trace.states[0].revision + accepted_count(trace.calls, i) + 1,
    decreases end,
{
    if end > 0 {
        lemma_revisions_follow_each_other(trace, end - 1);
        assert(trace.states[end - 1].wf());
        assert(made(trace.states[end - 1], trace.calls[end - 1], trace.states[end]));
        lemma_revision_step(trace.states[end - 1], trace.calls[end - 1], trace.states[end]);
    }
}

/// A batch of logs that is accepted is sound, carries its revision and its batch, and
/// changes neither the processes nor the port bindings.
pub proof fn lemma_log_batch_changes_no_entity(
    before: StateView,
    batch: u64,
    checked: Result<(), AppError>,
    event: RevisionEvent,
    after: StateView,
)
    requires
        before.wf(),
        log_batch_applied(before, batch, checked, Ok(event), after),
    ensures
        checked is Ok,
        event.revision == before.revision + 1,
        event.change == (RevisionChange::Log { batch }),
        after.revision == event.revision,
        after.processes == before.processes,
        after.port_bindings == before.port_bindings,
        after.sessions == before.sessions,
{
}

/// A snapshot later on: what was frozen is the same, and pages were only added.
pub open spec fn grown(before: FrozenSnapshotSession, after: FrozenSnapshotSession) -> bool {
    &&& after == (FrozenSnapshotSession {
        pages: after.pages,
        last_accessed_at_ms: after.last_accessed_at_ms,
        ..before
    })
    &&& before.pages@.len() <= after.pages@.len()
    &&& forall|i: int| 0 <= i < before.pages@.len() ==> #[trigger] after.pages@[i] == before.pages@[i]
}

/// The snapshot of a name.
pub open spec fn session_of(state: StateView, id: Seq<char>) -> FrozenSnapshotSession {
    state.sessions[choose|place: int| #[trigger] session_place(state.sessions, id, place)]
}

/// A snapshot of a name stands at one place.
proof fn lemma_session_of(state: StateView, id: Seq<char>, place: int)
    requires
        sessions_wf(state.sessions),
        session_place(state.sessions, id, place),
    ensures
        session_of(state, id) == state.sessions[place],
        has_session(state.sessions, id),
{
    let chosen = choose|place: int| #[trigger] session_place(state.sessions, id, place);
    assert(session_place(state.sessions, id, chosen));
    if chosen < place {
        assert(state.sessions[chosen].snapshot_id@ != state.sessions[place].snapshot_id@);
    }
    if place < chosen {
        assert(state.sessions[place].snapshot_id@ != state.sessions[chosen].snapshot_id@);
    }
}

proof fn lemma_has_place(sessions: Seq<FrozenSnapshotSession>, id: Seq<char>) -> (place: int)
    requires
        has_session(sessions, id),
    ensures
        session_place(sessions, id, place),
{
    choose|i: int| 0 <= i < sessions.len() && (#[trigger] sessions[i]).snapshot_id@ == id
}

/// A snapshot that is still kept is one that was kept before.
proof fn lemma_unexpired_place(
    sessions: Seq<FrozenSnapshotSession>,
    now_ms: u64,
    place: int,
) -> (origin: int)
    requires
        0 <= place < unexpired(sessions, now_ms).len(),
    ensures
        0 <= origin < sessions.len(),
        sessions[origin] == unexpired(sessions, now_ms)[place],
    decreases sessions.len(),
{
    let rest = unexpired(sessions.drop_last(), now_ms);
    if place < rest.len() {
        let origin = lemma_unexpired_place(sessions.drop_last(), now_ms, place);
        assert(sessions.drop_last()[origin] == sessions[origin]);
        origin
    } else {
        sessions.len() - 1
    }
}

/// Where only old snapshots were let go, those that are left are the same.
proof fn lemma_purge_keeps(before: StateView, now_ms: u64, id: Seq<char>)
    requires
        before.wf(),
        has_session(unexpired(before.sessions, now_ms), id),
    ensures
        has_session(before.sessions, id),
        exists|place: int| #[trigger]
            session_place(unexpired(before.sessions, now_ms), id, place) && unexpired(
                before.sessions,
                now_ms,
            )[place] == session_of(before, id),
        forall|place: int| #[trigger]
            session_place(unexpired(before.sessions, now_ms), id, place) ==> unexpired(
                before.sessions,
                now_ms,
            )[place] == session_of(before, id),
{
    let left = unexpired(before.sessions, now_ms);
    let place = lemma_has_place(left, id);
    assert forall|place: int| #[trigger] session_place(left, id, place) implies left[place]
        == session_of(before, id) by {
        let origin = lemma_unexpired_place(before.sessions, now_ms, place);
        assert(session_place(before.sessions, id, origin));
        lemma_session_of(before, id, origin);
    }
    let origin = lemma_unexpired_place(before.sessions, now_ms, place);
    assert(session_place(before.sessions, id, origin));
    lemma_session_of(before, id, origin);
}

/// Whatever is called, a snapshot that is kept before and after is the same:
/// no change of the state shows in it, and no page that was handed out changes.
pub proof fn lemma_call_keeps_snapshots(
    before: StateView,
    call: Call,
    after: StateView,
    id: Seq<char>,
)
    requires
        before.wf(),
        after.wf(),
        made(before, call, after),
        has_session(before.sessions, id),
        has_session(after.sessions, id),
    ensures
        grown(session_of(before, id), session_of(after, id)),
{
    let from = lemma_has_place(before.sessions, id);
    let to = lemma_has_place(after.sessions, id);
    lemma_session_of(before, id, from);
    lemma_session_of(after, id, to);
    match call {
        Call::ProcessDelta { delta, checks, now_ms, result } => {
            if after.sessions == unexpired(before.sessions, now_ms) {
                lemma_purge_keeps(before, now_ms, id);
            }
        },
        Call::PortDelta { delta, now_ms, result } => {
            if after.sessions == unexpired(before.sessions, now_ms) {
                lemma_purge_keeps(before, now_ms, id);
            }
        },
        Call::LogBatch { .. } => {},
        Call::Start { starting_revision, now_ms, result } => {
            lemma_purge_keeps(before, now_ms, id);
        },
        Call::Keep { session, page, encoded_bytes, result } => {
            if result is Ok {
                assert(after.sessions[from] == before.sessions[from]);
                assert(session_place(after.sessions, id, from));
                lemma_session_of(after, id, from);
            }
        },
        Call::Continue { starting_revision, cursor, now_ms, result } => {
            lemma_continue_keeps(before, starting_revision, cursor, now_ms, result, after, id);
        },
        Call::Issue { place, page, encoded_bytes, now_ms, result } => {
            if result is Ok {
                assert(session_place(after.sessions, id, from));
                lemma_session_of(after, id, from);
            }
        },
    }
}

proof fn lemma_continue_keeps(
    before: StateView,
    starting_revision: u64,
    cursor: Seq<char>,
    now_ms: u64,
    result: Result<ContinuedSnapshot, AppError>,
    after: StateView,
    id: Seq<char>,
)
    requires
        before.wf(),
        after.wf(),
        snapshot_continued(
            without_expired(before, now_ms),
            starting_revision,
            cursor,
            now_ms,
            result,
            after,
        ),
        has_session(after.sessions, id),
    ensures
        has_session(before.sessions, id),
        grown(session_of(before, id), session_of(after, id)),
{
    let kept = unexpired(before.sessions, now_ms);
    let to = lemma_has_place(after.sessions, id);
    lemma_session_of(after, id, to);
    assert(after.sessions.len() == kept.len());
    assert(kept[to].snapshot_id == after.sessions[to].snapshot_id);
    assert(session_place(kept, id, to));
    assert(kept[to].snapshot_id@ == id);
    lemma_purge_keeps(before, now_ms, id);
}

proof fn lemma_grown_again(
    first: FrozenSnapshotSession,
    second: FrozenSnapshotSession,
    third: FrozenSnapshotSession,
)
    requires
        grown(first, second),
        grown(second, third),
    ensures
        grown(first, third),
{
    assert forall|i: int| 0 <= i < first.pages@.len() implies #[trigger] third.pages@[i]
        == first.pages@[i] by {
        assert(second.pages@[i] == first.pages@[i]);
    }
}

/// Over any calls, a snapshot that stays kept stays as it was frozen, and the
/// pages that were handed out stay what they were.
pub proof fn lemma_snapshot_stays_frozen(trace: Trace, from: int, to: int, id: Seq<char>)
    requires
        trace.wf(),
        0 <= from <= to < trace.states.len(),
        forall|i: int| from <= i <= to ==> has_session((#[trigger] trace.states[i]).sessions, id),
    ensures
        grown(session_of(trace.states[from], id), session_of(trace.states[to], id)),
    decreases to - from,
{
    if from < to {
        lemma_snapshot_stays_frozen(trace, from, to - 1, id);
        let call = trace.calls[to - 1];
        assert(made(trace.states[to - 1], call, trace.states[to]));
        assert(has_session(trace.states[to - 1].sessions, id));
        assert(has_session(trace.states[to].sessions, id));
        lemma_call_keeps_snapshots(trace.states[to - 1], call, trace.states[to], id);
        lemma_grown_again(
            session_of(trace.states[from], id),
            session_of(trace.states[to - 1], id),
            session_of(trace.states[to], id),
        );
    }
}

/// What a cursor that names a snapshot and a page gives.
proof fn lemma_continued(
    state: StateView,
    starting_revision: u64,
    id: Seq<char>,
    chunk_index: u32,
    now_ms: u64,
    result: Result<ContinuedSnapshot, AppError>,
    after: StateView,
)
    requires
        is_snapshot_id(id),
        snapshot_continued(
            state,
            starting_revision,
            cursor_text(id, chunk_index),
            now_ms,
            result,
            after,
        ),
    ensures
        cursor_fault(cursor_text(id, chunk_index)) is None,
        continues(
            state.sessions,
            starting_revision,
            id,
            chunk_index,
            now_ms,
            result,
            after.sessions,
        ),
        after == (StateView { sessions: after.sessions, ..state }),
{
    lemma_cursor_of_snapshot(id, chunk_index);
}

/// A cursor of a snapshot that is kept is taken: a page that was handed out is
/// handed out again, and the page after the last one is the next to be made.
pub proof fn lemma_cursor_is_taken(
    state: StateView,
    id: Seq<char>,
    chunk_index: u32,
    now_ms: u64,
    result: Result<ContinuedSnapshot, AppError>,
    after: StateView,
)
    requires
        state.wf(),
        has_session(state.sessions, id),
        ({
            let session = session_of(state, id);
            &&& chunk_index <= session.pages@.len()
            &&& chunk_index == session.pages@.len() ==> !session.is_complete()
            &&& snapshot_continued(
                state,
                session.starting_revision,
                cursor_text(id, chunk_index),
                now_ms,
                result,
                after,
            )
        }),
    ensures
        cursor_fault(cursor_text(id, chunk_index)) is None,
        result is Ok,
        ({
            let session = session_of(state, id);
            if chunk_index < session.pages@.len() {
                result->Ok_0 is Issued && shows_page(
                    result->Ok_0->Issued_0,
                    session,
                    chunk_index,
                    session.pages@[chunk_index as int],
                )
            } else {
                &&& result->Ok_0 is NextPage
                &&& session_place(state.sessions, id, result->Ok_0->NextPage_0 as int)
                &&& state.sessions[result->Ok_0->NextPage_0 as int] == session
                &&& after == state
            }
        }),
{
    let found = lemma_has_place(state.sessions, id);
    lemma_session_of(state, id, found);
    let session = session_of(state, id);
    assert(session.wf());
    lemma_continued(
        state,
        session.starting_revision,
        id,
        chunk_index,
        now_ms,
        result,
        after,
    );
    assert forall|place: int| #[trigger] session_place(state.sessions, id, place) implies
        state.sessions[place] == session by {
        lemma_session_of(state, id, place);
    }
    assert(continuation_fault(session, session.starting_revision, chunk_index) is None);
}

/// The entities of the first pages, one after the other.
pub open spec fn joined_processes(shown: Seq<SystemSnapshot>, end: int) -> Seq<
    Entity<ProcessInstanceKey>,
>
    decreases end,
{
    if end <= 0 {
        Seq::empty()
    } else {
        joined_processes(shown, end - 1) + shown[end - 1].processes@
    }
}

pub open spec fn joined_port_bindings(shown: Seq<SystemSnapshot>, end: int) -> Seq<
    Entity<PortBindingKey>,
>
    decreases end,
{
    if end <= 0 {
        Seq::empty()
    } else {
        joined_port_bindings(shown, end - 1) + shown[end - 1].port_bindings@
    }
}

proof fn lemma_spans_join<K: EntityKey>(
    first: Seq<Entity<K>>,
    second: Seq<Entity<K>>,
    entities: Seq<Entity<K>>,
    middle: int,
    end: int,
)
    requires
        is_span(first, entities, 0, middle),
        is_span(second, entities, middle, end),
    ensures
        is_span(first + second, entities, 0, end),
{
    let joined = first + second;
    assert forall|i: int| 0 <= i < joined.len() implies (#[trigger] joined[i]).key.key()
        == entities[0 + i].key.key() && joined[i].says() == entities[0 + i].says() by {
        if i < first.len() {
            assert(joined[i] == first[i]);
        } else {
            assert(joined[i] == second[i - first.len()]);
        }
    }
}

/// The pages of a snapshot, joined, are its entities up to the end of the last.
proof fn lemma_pages_join(session: FrozenSnapshotSession, shown: Seq<SystemSnapshot>, end: int)
    requires
        session.wf(),
        0 < end <= shown.len() <= session.pages@.len(),
        forall|i: int|
            0 <= i < shown.len() ==> shows_page(
                #[trigger] shown[i],
                session,
                i as u32,
                session.pages@[i],
            ),
    ensures
        is_span(
            joined_processes(shown, end),
            session.processes@,
            0,
            session.pages@[end - 1].process_end as int,
        ),
        is_span(
            joined_port_bindings(shown, end),
            session.port_bindings@,
            0,
            session.pages@[end - 1].port_end as int,
        ),
    decreases end,
{
    let page = session.pages@[end - 1];
    assert(page.lies_in(session));
    assert(shows_page(shown[end - 1], session, (end - 1) as u32, page));
    if end > 1 {
        lemma_pages_join(session, shown, end - 1);
        assert(page.process_start == session.pages@[end - 2].process_end);
    } else {
        assert(joined_processes(shown, 0) =~= Seq::empty());
        assert(joined_port_bindings(shown, 0) =~= Seq::empty());
    }
    lemma_spans_join(
        joined_processes(shown, end - 1),
        shown[end - 1].processes@,
        session.processes@,
        page.process_start as int,
        page.process_end as int,
    );
    lemma_spans_join(
        joined_port_bindings(shown, end - 1),
        shown[end - 1].port_bindings@,
        session.port_bindings@,
        page.port_start as int,
        page.port_end as int,
    );
}

/// A request with a cursor, made at a place of a trace, was answered with a
/// page: one that was handed out before, or the next one, which was then made.
pub open spec fn answered(
    trace: Trace,
    at: int,
    starting_revision: u64,
    cursor: Seq<char>,
    shown: SystemSnapshot,
    end: int,
) -> bool {
    &&& 0 <= at < end <= trace.calls.len()
    &&& match trace.calls[at] {
        Call::Continue { starting_revision: revision, cursor: asked, now_ms, result } => {
            &&& revision == starting_revision
            &&& asked == cursor
            &&& match result {
                Ok(ContinuedSnapshot::Issued(page)) => page == shown && end == at + 1,
                Ok(ContinuedSnapshot::NextPage(place)) => end == at + 2 && match trace.calls[at
                    + 1] {
                    Call::Issue { place: issued, result: Ok(page), .. } => issued == place && page
                        == shown,
                    _ => false,
                },
                Err(_) => false,
            }
        },
        _ => false,
    }
}

/// A snapshot of a name stays kept between two places of a trace.
pub open spec fn stays_kept(trace: Trace, from: int, to: int, id: Seq<char>) -> bool {
    forall|i: int| from <= i <= to ==> has_session((#[trigger] trace.states[i]).sessions, id)
}

/// An answer to a cursor shows the page that the cursor names.
pub proof fn lemma_answer_shows_its_page(
    trace: Trace,
    at: int,
    id: Seq<char>,
    chunk_index: u32,
    shown: SystemSnapshot,
    end: int,
)
    requires
        trace.wf(),
        0 <= at < end <= trace.calls.len(),
        stays_kept(trace, at, end, id),
        answered(
            trace,
            at,
            session_of(trace.states[at], id).starting_revision,
            cursor_text(id, chunk_index),
            shown,
            end,
        ),
    ensures
        ({
            let session = session_of(trace.states[end], id);
            &&& chunk_index < session.pages@.len()
            &&& shows_page(shown, session, chunk_index, session.pages@[chunk_index as int])
        }),
{
    let before = trace.states[at];
    let middle = trace.states[at + 1];
    assert(before.wf() && middle.wf());
    assert(has_session(before.sessions, id));
    assert(has_session(middle.sessions, id));
    let held = lemma_has_place(before.sessions, id);
    lemma_session_of(before, id, held);
    assert(session_of(before, id).wf());
    assert(made(before, trace.calls[at], middle));
    match trace.calls[at] {
        Call::Continue { starting_revision, cursor, now_ms, result } => {
            let purged = without_expired(before, now_ms);
            crate::revision::lemma_unexpired(before.sessions, now_ms);
            assert(purged.wf());
            lemma_continue_keeps(before, starting_revision, cursor, now_ms, result, middle, id);
            lemma_continued(
                purged,
                starting_revision,
                id,
                chunk_index,
                now_ms,
                result,
                middle,
            );
            assert(has_session(purged.sessions, id));
            lemma_purge_keeps(before, now_ms, id);
            let session = session_of(before, id);
            let place = choose|place: int| #[trigger]
                session_place(purged.sessions, id, place) && purged.sessions[place] == session;
            lemma_session_of(purged, id, place);
            match result {
                Ok(ContinuedSnapshot::Issued(page)) => {
                    assert(session_place(middle.sessions, id, place));
                    lemma_session_of(middle, id, place);
                },
                Ok(ContinuedSnapshot::NextPage(next)) => {
                    let after = trace.states[at + 2];
                    assert(after.wf());
                    assert(made(middle, trace.calls[at + 1], after));
                    assert(session_place(purged.sessions, id, next as int));
                    lemma_session_of(purged, id, next as int);
                    assert(middle == purged);
                    assert(middle.sessions[next as int] == session);
                    assert(session_place(after.sessions, id, next as int));
                    lemma_session_of(after, id, next as int);
                },
                Err(_) => {},
            }
        },
        _ => {},
    }
}

/// The same cursor gets the same page, whatever was called in between, as long
/// as the snapshot is kept.
pub proof fn lemma_same_cursor_gets_the_same_page(
    trace: Trace,
    id: Seq<char>,
    chunk_index: u32,
    at: int,
    shown: SystemSnapshot,
    end: int,
    later: int,
    again: SystemSnapshot,
    later_end: int,
)
    requires
        trace.wf(),
        end <= later,
        stays_kept(trace, at, later_end, id),
        answered(
            trace,
            at,
            session_of(trace.states[at], id).starting_revision,
            cursor_text(id, chunk_index),
            shown,
            end,
        ),
        answered(
            trace,
            later,
            session_of(trace.states[at], id).starting_revision,
            cursor_text(id, chunk_index),
            again,
            later_end,
        ),
    ensures
        same_page(shown, again),
        shown.processes@.len() + shown.port_bindings@.len() <= MAX_SNAPSHOT_CHUNK_ENTITIES,
{
    lemma_snapshot_stays_frozen(trace, at, later, id);
    lemma_snapshot_stays_frozen(trace, end, later_end, id);
    lemma_answer_shows_its_page(trace, at, id, chunk_index, shown, end);
    lemma_answer_shows_its_page(trace, later, id, chunk_index, again, later_end);
    let session = session_of(trace.states[end], id);
    let last = session_of(trace.states[later_end], id);
    assert(last.pages@[chunk_index as int] == session.pages@[chunk_index as int]);
    let place = lemma_has_place(trace.states[end].sessions, id);
    lemma_session_of(trace.states[end], id, place);
    assert(trace.states[end].wf());
    assert(session.wf());
    assert(session.pages@[chunk_index as int].lies_in(session));
    crate::revision::lemma_page_is_handed_out_again(session, last, chunk_index, shown, again);
}

/// The reading of a snapshot in a trace: where it was begun, and for each page
/// where it was asked for, the page, and where the answer ended.
pub struct Reading {
    pub start: int,
    pub session: FrozenSnapshotSession,
    pub asked: Seq<int>,
    pub shown: Seq<SystemSnapshot>,
    pub ended: Seq<int>,
}

impl Reading {
    /// The name of the snapshot.
    pub open spec fn id(self) -> Seq<char> {
        self.session.snapshot_id@
    }

    /// The snapshot was begun without a cursor and kept with its first page;
    /// each further page was asked for with the cursor of the one before; and
    /// the snapshot stayed kept all the time.
    pub open spec fn is_in(self, trace: Trace) -> bool {
        let count = self.shown.len() as int;
        &&& 0 < count
        &&& self.asked.len() == count
        &&& self.ended.len() == count
        &&& 0 <= self.start
        &&& self.start + 1 == self.asked[0]
        &&& self.asked[0] + 1 == self.ended[0]
        &&& self.ended[count - 1] <= trace.calls.len()
        &&& begun(trace.calls[self.start], self.session)
        &&& first_page(trace.calls[self.start + 1], self.session, self.shown[0])
        &&& forall|i: int|
            0 < i < count ==> {
                &&& self.ended[i - 1] <= (#[trigger] self.asked[i])
                &&& self.asked[i] < self.ended[i]
                &&& self.shown[i - 1].next_cursor is Some
                &&& answered(
                    trace,
                    self.asked[i],
                    self.session.starting_revision,
                    self.shown[i - 1].next_cursor->0@,
                    self.shown[i],
                    self.ended[i],
                )
            }
        &&& stays_kept(trace, self.ended[0], self.ended[count - 1], self.id())
    }
}

/// A call began a snapshot.
pub open spec fn begun(call: Call, session: FrozenSnapshotSession) -> bool {
    match call {
        Call::Start { result: Ok(started), .. } => started == session,
        _ => false,
    }
}

/// A call kept a snapshot with its first page.
pub open spec fn first_page(
    call: Call,
    session: FrozenSnapshotSession,
    shown: SystemSnapshot,
) -> bool {
    match call {
        Call::Keep { session: kept, result: Ok(page), .. } => kept == session && page == shown,
        _ => false,
    }
}

proof fn lemma_ends_rise(trace: Trace, reading: Reading, i: int, j: int)
    requires
        reading.is_in(trace),
        0 <= i <= j < reading.shown.len(),
    ensures
        reading.ended[i] <= reading.ended[j],
        i < j ==> reading.ended[i] <= reading.asked[j],
    decreases j - i,
{
    if i < j {
        lemma_ends_rise(trace, reading, i, j - 1);
        assert(reading.ended[j - 1] <= reading.asked[j]);
    }
}

/// The page of a number is shown as it stands in the snapshot after the answer.
proof fn lemma_page_is_shown(trace: Trace, reading: Reading, i: int)
    requires
        trace.wf(),
        reading.is_in(trace),
        0 <= i < reading.shown.len(),
        reading.shown.len() <= u32::MAX,
    ensures
        ({
            let session = session_of(trace.states[reading.ended[i]], reading.id());
            &&& grown(reading.session, session)
            &&& session.wf()
            &&& i < session.pages@.len()
            &&& shows_page(reading.shown[i], session, i as u32, session.pages@[i])
        }),
    decreases i,
{
    let id = reading.id();
    lemma_ends_rise(trace, reading, 0, i);
    lemma_ends_rise(trace, reading, i, reading.shown.len() - 1);
    let end = reading.ended[i];
    let state = trace.states[end];
    assert(state.wf());
    assert(has_session(state.sessions, id));
    let place = lemma_has_place(state.sessions, id);
    lemma_session_of(state, id, place);
    assert(state.sessions[place].wf());
    if i == 0 {
        let before = trace.states[reading.start + 1];
        assert(made(before, trace.calls[reading.start + 1], state));
        assert(made(
            trace.states[reading.start],
            trace.calls[reading.start],
            trace.states[reading.start + 1],
        ));
        let kept = state.sessions.len() - 1;
        assert(session_place(state.sessions, id, kept));
        lemma_session_of(state, id, kept);
    } else {
        lemma_page_is_shown(trace, reading, i - 1);
        let earlier = reading.ended[i - 1];
        let at = reading.asked[i];
        lemma_ends_rise(trace, reading, 0, i - 1);
        lemma_snapshot_stays_frozen(trace, earlier, at, id);
        lemma_snapshot_stays_frozen(trace, earlier, end, id);
        lemma_grown_again(
            reading.session,
            session_of(trace.states[earlier], id),
            session_of(trace.states[at], id),
        );
        lemma_grown_again(
            reading.session,
            session_of(trace.states[earlier], id),
            session_of(state, id),
        );
        lemma_answer_shows_its_page(trace, at, id, i as u32, reading.shown[i], end);
    }
}

/// A snapshot that is read to its end, page after page by the cursor of the
/// page before, gives the state as it was when it was begun: every process and
/// every port binding once, in their order, on pages that all say the same of
/// the whole. What is changed meanwhile does not show.
pub proof fn lemma_snapshot_is_read_through(trace: Trace, reading: Reading)
    requires
        trace.wf(),
        reading.is_in(trace),
        reading.shown.len() <= u32::MAX,
    ensures
        ({
            let state = trace.states[reading.start + 1];
            let count = reading.shown.len() as int;
            &&& sorted(state.processes)
            &&& sorted(state.port_bindings)
            &&& state.processes == trace.states[reading.start].processes
            &&& state.port_bindings == trace.states[reading.start].port_bindings
            &&& forall|i: int|
                0 <= i < count ==> {
                    let page = #[trigger] reading.shown[i];
                    &&& page.snapshot_id@ == reading.id()
                    &&& page.chunk_index == i
                    &&& page.revision == state.revision
                    &&& page.process_count == state.processes.len()
                    &&& page.port_binding_count == state.port_bindings.len()
                    &&& page.processes@.len() + page.port_bindings@.len()
                        <= MAX_SNAPSHOT_CHUNK_ENTITIES
                }
            &&& reading.shown[count - 1].next_cursor is None ==> is_span(
                joined_processes(reading.shown, count),
                state.processes,
                0,
                state.processes.len() as int,
            ) && is_span(
                joined_port_bindings(reading.shown, count),
                state.port_bindings,
                0,
                state.port_bindings.len() as int,
            )
        }),
{
    let id = reading.id();
    let count = reading.shown.len() as int;
    let end = reading.ended[count - 1];
    let last = session_of(trace.states[end], id);
    let state = trace.states[reading.start + 1];
    lemma_ends_rise(trace, reading, 0, count - 1);
    assert(state.wf());
    assert(made(trace.states[reading.start], trace.calls[reading.start], state));
    lemma_page_is_shown(trace, reading, count - 1);
    assert forall|i: int| 0 <= i < count implies shows_page(
        #[trigger] reading.shown[i],
        last,
        i as u32,
        last.pages@[i],
    ) && i < last.pages@.len() by {
        lemma_page_is_shown(trace, reading, i);
        lemma_ends_rise(trace, reading, 0, i);
        lemma_ends_rise(trace, reading, i, count - 1);
        lemma_snapshot_stays_frozen(trace, reading.ended[i], end, id);
        let session = session_of(trace.states[reading.ended[i]], id);
        assert(last.pages@[i] == session.pages@[i]);
    }
    assert forall|i: int| 0 <= i < count implies {
        let page = #[trigger] reading.shown[i];
        &&& page.snapshot_id@ == id
        &&& page.chunk_index == i
        &&& page.revision == state.revision
        &&& page.process_count == state.processes.len()
        &&& page.port_binding_count == state.port_bindings.len()
        &&& page.processes@.len() + page.port_bindings@.len() <= MAX_SNAPSHOT_CHUNK_ENTITIES
    } by {
        assert(shows_page(reading.shown[i], last, i as u32, last.pages@[i]));
        assert(last.pages@[i].lies_in(last));
    }
    if reading.shown[count - 1].next_cursor is None {
        assert(shows_page(
            reading.shown[count - 1],
            last,
            (count - 1) as u32,
            last.pages@[count - 1],
        ));
        let page = last.pages@[count - 1];
        assert(!page.has_more);
        assert(page.lies_in(last));
        lemma_pages_join(last, reading.shown, count);
        lemma_span_of_span(
            joined_processes(reading.shown, count),
            last.processes@,
            state.processes,
        );
        lemma_span_of_span(
            joined_port_bindings(reading.shown, count),
            last.port_bindings@,
            state.port_bindings,
        );
    }
}

proof fn lemma_span_of_span<K: EntityKey>(
    copies: Seq<Entity<K>>,
    middle: Seq<Entity<K>>,
    entities: Seq<Entity<K>>,
)
    requires
        is_span(copies, middle, 0, middle.len() as int),
        is_span(middle, entities, 0, entities.len() as int),
    ensures
        is_span(copies, entities, 0, entities.len() as int),
{
    assert forall|i: int| 0 <= i < copies.len() implies (#[trigger] copies[i]).key.key()
        == entities[0 + i].key.key() && copies[i].says() == entities[0 + i].says() by {
        let between = middle[0 + i];
    }
}

} // verus!
