//! What the supervisor's state is for: what was reported is what is found, what was
//! removed is gone, everything else stays, and each accepted change is counted once.

use vstd::prelude::*;

use crate::collection::{
    lookup, reported_under, total_bytes, Entity, EntityKey, EntityView, Reported,
};
use crate::error::{AppError, ErrorCode};
use crate::keys::PortKeyView;
use crate::revision::{
    after_delta, ambiguity, as_reported, budget_refusal, continues, delta_refusal,
    entities_refusal, entity_refusal, first_bad_removal, has_session, is_clean_removal, is_expired,
    log_batch_applied, own_refusal, page_issued, pinned_bytes, port_delta_applied,
    process_delta_applied, repeats, session_place, sessions_wf, snapshot_kept, snapshot_started,
    unexpired, upserted_refusal, upserts, upserts_bytes, upserts_count, ContinuedSnapshot,
    EntityChecks, PortDelta, ProcessDelta, RevisionChange, RevisionEvent, StateDelta, StateView,
    Upserted,
};
use crate::run::KeyView;
use crate::snapshot::{build_snapshot_page, FrozenSnapshotSession, SnapshotPage, SystemSnapshot};

verus! {

/// No key stands in a change twice.
pub open spec fn names_each_key_once<K: EntityKey>(delta: StateDelta<K>) -> bool {
    &&& forall|i: int, j: int|
        0 <= i < j < delta.upserted@.len() ==> (#[trigger] delta.upserted@[i]).key.key() != (
        #[trigger] delta.upserted@[j]).key.key()
    &&& forall|i: int, j: int|
        0 <= i < j < delta.removed@.len() ==> (#[trigger] delta.removed@[i]).key() != (
        #[trigger] delta.removed@[j]).key()
    &&& forall|i: int, j: int|
        0 <= i < delta.upserted@.len() && 0 <= j < delta.removed@.len() ==> (
        #[trigger] delta.upserted@[i]).key.key() != (#[trigger] delta.removed@[j]).key()
}

/// A change is small enough to be told as one event, and each of its entities to be shown
/// in a snapshot.
pub open spec fn is_small_enough<K>(delta: StateDelta<K>, maximum_entity_bytes: nat) -> bool {
    &&& delta.upserted@.len() + delta.removed@.len() <= 128
    &&& delta.encoded_bytes + 64 * (delta.upserted@.len() + delta.removed@.len()) <= 524_288
    &&& forall|i: int|
        0 <= i < delta.upserted@.len() ==> (#[trigger] delta.upserted@[i]).encoded_bytes + 64
            <= maximum_entity_bytes
}

/// All that was checked of the entities of a change was in order.
pub open spec fn is_checked(count: nat, checks: Seq<EntityChecks>) -> bool {
    forall|i: int|
        0 <= i < count && i < checks.len() ==> (#[trigger] checks[i]).key is Ok
            && checks[i].parent is Ok && checks[i].control is Ok
}

proof fn lemma_upserted_in_order<K: EntityKey>(
    entity: Seq<char>,
    upserted: Seq<Upserted<K>>,
    checks: Seq<EntityChecks>,
    from: int,
)
    requires
        0 <= from <= upserted.len(),
    ensures
        upserted_refusal(entity, upserted, checks, from) is None <==> (forall|i: int|
            from <= i < upserted.len() ==> !#[trigger] repeats(upserted, i) && own_refusal(
                checks,
                i,
            ) is None),
    decreases upserted.len() - from,
{
    if from < upserted.len() {
        lemma_upserted_in_order(entity, upserted, checks, from + 1);
        if upserted_refusal(entity, upserted, checks, from) is None {
            assert forall|i: int| from <= i < upserted.len() implies !#[trigger] repeats(
                upserted,
                i,
            ) && own_refusal(checks, i) is None by {
                if i > from {
                    assert(from + 1 <= i);
                }
            }
        } else {
            assert(repeats(upserted, from) || own_refusal(checks, from) is Some
                || upserted_refusal(entity, upserted, checks, from + 1) is Some);
            assert(repeats(upserted, from) == repeats(upserted, from));
        }
    }
}

proof fn lemma_removals_in_order<K: EntityKey>(
    upserted: Seq<Upserted<K>>,
    removed: Seq<K>,
    from: int,
)
    requires
        0 <= from <= removed.len(),
    ensures
        first_bad_removal(upserted, removed, from) is None <==> (forall|i: int|
            from <= i < removed.len() ==> #[trigger] is_clean_removal(upserted, removed, i)),
    decreases removed.len() - from,
{
    if from < removed.len() {
        lemma_removals_in_order(upserted, removed, from + 1);
    }
}

proof fn lemma_entities_in_order<K>(
    entity: Seq<char>,
    upserted: Seq<Upserted<K>>,
    maximum: nat,
    from: int,
)
    requires
        0 <= from <= upserted.len(),
        maximum <= usize::MAX,
    ensures
        entities_refusal(entity, upserted, maximum, from) is None <==> (forall|i: int|
            from <= i < upserted.len() ==> (#[trigger] upserted[i]).encoded_bytes + 64 <= maximum),
    decreases upserted.len() - from,
{
    if from < upserted.len() {
        lemma_entities_in_order(entity, upserted, maximum, from + 1);
        let own = entity_refusal(
            entity,
            from as nat,
            upserted[from].encoded_bytes as nat,
            maximum,
        );
        assert(own is None <==> upserted[from].encoded_bytes + 64 <= maximum);
        if entities_refusal(entity, upserted, maximum, from) is None {
            assert forall|i: int| from <= i < upserted.len() implies (
            #[trigger] upserted[i]).encoded_bytes + 64 <= maximum by {
                if i > from {
                    assert(from + 1 <= i);
                }
            }
        }
    }
}

proof fn lemma_delta_in_order<K: EntityKey>(
    entity: Seq<char>,
    delta: StateDelta<K>,
    checks: Seq<EntityChecks>,
    maximum_entity_bytes: nat,
)
    requires
        maximum_entity_bytes <= usize::MAX,
    ensures
        delta_refusal(entity, delta, checks, maximum_entity_bytes) is None
            <==> names_each_key_once(delta) && is_checked(delta.upserted@.len(), checks)
            && is_small_enough(delta, maximum_entity_bytes),
{
    let upserted = delta.upserted@;
    let removed = delta.removed@;
    lemma_upserted_in_order(entity, upserted, checks, 0);
    lemma_removals_in_order(upserted, removed, 0);
    lemma_entities_in_order(entity, upserted, maximum_entity_bytes, 0);
    if ambiguity(entity, upserted, checks, removed) is None {
        assert forall|i: int, j: int| 0 <= i < j < upserted.len() implies (
        #[trigger] upserted[i]).key.key() != (#[trigger] upserted[j]).key.key() by {
            assert(!repeats(upserted, j));
        }
        assert forall|i: int, j: int| 0 <= i < j < removed.len() implies (
        #[trigger] removed[i]).key() != (#[trigger] removed[j]).key() by {
            assert(is_clean_removal(upserted, removed, j));
        }
        assert forall|i: int, j: int|
            0 <= i < upserted.len() && 0 <= j < removed.len() implies (
        #[trigger] upserted[i]).key.key() != (#[trigger] removed[j]).key() by {
            assert(is_clean_removal(upserted, removed, j));
            if upserted[i].key.key() == removed[j].key() {
                assert(upserts(upserted, removed[j].key()));
            }
        }
        assert forall|i: int| 0 <= i < upserted.len() && i < checks.len() implies (
        #[trigger] checks[i]).key is Ok && checks[i].parent is Ok && checks[i].control is Ok by {
            assert(!repeats(upserted, i) && own_refusal(checks, i) is None);
        }
    } else if names_each_key_once(delta) && is_checked(upserted.len(), checks) {
        assert forall|i: int| 0 <= i < upserted.len() implies !#[trigger] repeats(upserted, i)
            && own_refusal(checks, i) is None by {
            if i < checks.len() {
                assert(checks[i].key is Ok);
            }
        }
        assert forall|i: int| 0 <= i < removed.len() implies #[trigger] is_clean_removal(
            upserted,
            removed,
            i,
        ) by {}
    }
    let count = upserted.len() + removed.len();
    assert(count * 64 == 64 * count);
    assert(budget_refusal(entity, count, delta.encoded_bytes as nat) is None <==> count <= 128
        && delta.encoded_bytes + 64 * count <= 524_288);
}

proof fn lemma_reported_under<K: EntityKey>(reported: Seq<Reported<K>>, key: K::V, revision: u64)
    ensures
        reported_under(reported, key, revision) is None <==> (forall|i: int|
            0 <= i < reported.len() ==> (#[trigger] reported[i]).key.key() != key),
        reported_under(reported, key, revision) is Some ==> exists|i: int|
            0 <= i < reported.len() && (#[trigger] reported[i]).key.key() == key && reported_under(
                reported,
                key,
                revision,
            ) == Some(reported[i].says(revision)),
    decreases reported.len(),
{
    if reported.len() > 0 {
        let rest = reported.drop_last();
        lemma_reported_under(rest, key, revision);
        assert forall|i: int| 0 <= i < rest.len() implies rest[i] == #[trigger] reported[i] by {}
        if reported.last().key.key() == key {
            assert(reported[reported.len() - 1].key.key() == key);
        } else if reported_under(rest, key, revision) is Some {
            let i = choose|i: int|
                0 <= i < rest.len() && (#[trigger] rest[i]).key.key() == key && reported_under(
                    rest,
                    key,
                    revision,
                ) == Some(rest[i].says(revision));
            assert(reported[i].key.key() == key);
        }
    }
}

/// What a change says of a key: the entity that was reported under it, that it is gone, or
/// that it is as before.
pub open spec fn is_found_as_told<K: EntityKey>(
    before: Option<EntityView>,
    delta: StateDelta<K>,
    revision: int,
    key: K::V,
    found: Option<EntityView>,
) -> bool {
    &&& forall|i: int|
        0 <= i < delta.upserted@.len() && (#[trigger] delta.upserted@[i]).key.key() == key ==> {
            &&& found is Some
            &&& found->0.content == delta.upserted@[i].content@
            &&& found->0.last_seen_revision == revision
            &&& found->0.counted_bytes == delta.upserted@[i].encoded_bytes + 64
        }
    &&& (exists|i: int| 0 <= i < delta.removed@.len() && (#[trigger] delta.removed@[i]).key() == key)
        ==> found is None
    &&& (forall|i: int|
        0 <= i < delta.upserted@.len() ==> (#[trigger] delta.upserted@[i]).key.key() != key) && (
    forall|i: int| 0 <= i < delta.removed@.len() ==> (#[trigger] delta.removed@[i]).key() != key)
        ==> found == before
}

proof fn lemma_change_is_found<K: EntityKey>(
    entities: Seq<Entity<K>>,
    delta: StateDelta<K>,
    revision: u64,
    key: K::V,
)
    requires
        names_each_key_once(delta),
        forall|i: int|
            0 <= i < delta.upserted@.len() ==> (#[trigger] delta.upserted@[i]).encoded_bytes + 64
                <= usize::MAX,
    ensures
        is_found_as_told(
            lookup(entities, key),
            delta,
            revision as int,
            key,
            after_delta(entities, delta, revision, key),
        ),
{
    let reported = as_reported(delta.upserted@);
    lemma_reported_under(reported, key, revision);
    let new = reported_under(reported, key, revision);
    assert forall|i: int| 0 <= i < reported.len() implies (#[trigger] reported[i]).key
        == delta.upserted@[i].key by {}
    assert forall|i: int|
        0 <= i < delta.upserted@.len() && (#[trigger] delta.upserted@[i]).key.key() == key implies {
        &&& new is Some
        &&& new->0.content == delta.upserted@[i].content@
        &&& new->0.last_seen_revision == revision
        &&& new->0.counted_bytes == delta.upserted@[i].encoded_bytes + 64
    } by {
        assert(reported[i].key.key() == key);
        let k = choose|k: int|
            0 <= k < reported.len() && (#[trigger] reported[k]).key.key() == key && new == Some(
                reported[k].says(revision),
            );
        assert(delta.upserted@[k].key.key() == key);
        assert(k == i);
    }
    if new is Some {
        let k = choose|k: int|
            0 <= k < reported.len() && (#[trigger] reported[k]).key.key() == key && new == Some(
                reported[k].says(revision),
            );
        assert(delta.upserted@[k].key.key() == key);
    }
    if forall|i: int|
        0 <= i < delta.upserted@.len() ==> (#[trigger] delta.upserted@[i]).key.key() != key {
        assert(new is None) by {
            if new is Some {
                let k = choose|k: int|
                    0 <= k < reported.len() && (#[trigger] reported[k]).key.key() == key && new
                        == Some(reported[k].says(revision));
                assert(delta.upserted@[k].key.key() == key);
            }
        }
    }
}

/// A change of the processes is accepted exactly where it names no key twice, all its
/// entities were checked and are small enough, all of them fit, and a revision is left.
/// Then each reported process is found with what was reported and the new revision, each
/// removed one is gone, and every other is as before; the ports are untouched. A change
/// that is not accepted changes no entity and takes no revision.
pub proof fn lemma_process_change_is_found_as_told(
    before: StateView,
    delta: ProcessDelta,
    checks: Seq<EntityChecks>,
    now_ms: u64,
    result: Result<RevisionEvent, AppError>,
    after: StateView,
    key: KeyView,
)
    requires
        before.wf(),
        process_delta_applied(before, delta, checks, now_ms, result, after),
        after.wf(),
    ensures
        result is Ok <==> names_each_key_once(delta) && is_checked(delta.upserted@.len(), checks)
            && is_small_enough(delta, before.limits.maximum_entity_bytes as nat) && upserts_count(
            before.processes,
            delta,
        ) <= before.limits.maximum_processes && upserts_bytes(before.processes, delta)
            + total_bytes(before.port_bindings) <= before.limits.maximum_total_entity_bytes
            && before.revision < before.limits.maximum_safe_revision,
        result matches Ok(event) ==> {
            &&& event.revision == before.revision + 1 && after.revision == event.revision
            &&& after.port_bindings == before.port_bindings
            &&& event.change is Process
            &&& is_found_as_told(
                lookup(before.processes, key),
                delta,
                before.revision + 1,
                key,
                lookup(after.processes, key),
            )
        },
        result is Err ==> after.processes == before.processes && after.port_bindings
            == before.port_bindings && after.revision == before.revision,
{
    lemma_delta_in_order(
        "process"@,
        delta,
        checks,
        before.limits.maximum_entity_bytes as nat,
    );
    if let Ok(event) = result {
        lemma_change_is_found(before.processes, delta, event.revision, key);
    }
}

/// A change of the ports is accepted exactly where it names no key twice, its entities are
/// small enough, all of them fit, and a revision is left. Then each reported port is found
/// with what was reported and the new revision, each removed one is gone, and every other
/// is as before; the processes are untouched. A change that is not accepted changes no
/// entity and takes no revision.
pub proof fn lemma_port_change_is_found_as_told(
    before: StateView,
    delta: PortDelta,
    now_ms: u64,
    result: Result<RevisionEvent, AppError>,
    after: StateView,
    key: PortKeyView,
)
    requires
        before.wf(),
        port_delta_applied(before, delta, now_ms, result, after),
        after.wf(),
    ensures
        result is Ok <==> names_each_key_once(delta) && is_small_enough(
            delta,
            before.limits.maximum_entity_bytes as nat,
        ) && upserts_count(before.port_bindings, delta) <= before.limits.maximum_port_bindings
            && upserts_bytes(before.port_bindings, delta) + total_bytes(before.processes)
            <= before.limits.maximum_total_entity_bytes && before.revision
            < before.limits.maximum_safe_revision,
        result matches Ok(event) ==> {
            &&& event.revision == before.revision + 1 && after.revision == event.revision
            &&& after.processes == before.processes
            &&& event.change is Port
            &&& is_found_as_told(
                lookup(before.port_bindings, key),
                delta,
                before.revision + 1,
                key,
                lookup(after.port_bindings, key),
            )
        },
        result is Err ==> after.processes == before.processes && after.port_bindings
            == before.port_bindings && after.revision == before.revision,
{
    lemma_delta_in_order(
        "port"@,
        delta,
        Seq::empty(),
        before.limits.maximum_entity_bytes as nat,
    );
    if let Ok(event) = result {
        lemma_change_is_found(before.port_bindings, delta, event.revision, key);
    }
}

/// The event of a change tells every reported entity with its content, and every removed
/// key, in the order in which they came.
pub proof fn lemma_change_is_told_whole(
    before: StateView,
    delta: ProcessDelta,
    ports: PortDelta,
    checks: Seq<EntityChecks>,
    now_ms: u64,
    event: RevisionEvent,
    port_event: RevisionEvent,
    after: StateView,
    port_after: StateView,
    i: int,
)
    requires
        process_delta_applied(before, delta, checks, now_ms, Ok(event), after),
        port_delta_applied(before, ports, now_ms, Ok(port_event), port_after),
    ensures
        event.change matches RevisionChange::Process { upserted, removed } && {
            &&& removed@ == delta.removed@
            &&& upserted@.len() == delta.upserted@.len()
            &&& 0 <= i < upserted@.len() ==> upserted@[i].key == delta.upserted@[i].key
                && upserted@[i].content == delta.upserted@[i].content
        },
        port_event.change matches RevisionChange::Port { upserted, removed } && {
            &&& removed@ == ports.removed@
            &&& upserted@.len() == ports.upserted@.len()
            &&& 0 <= i < upserted@.len() ==> upserted@[i].key == ports.upserted@[i].key
                && upserted@[i].content == ports.upserted@[i].content
        },
{
}

/// A batch of log is told exactly where it was in order and a revision is left, and takes
/// that revision.
pub proof fn lemma_log_batch_takes_a_revision(
    before: StateView,
    batch: u64,
    checked: Result<(), AppError>,
    result: Result<RevisionEvent, AppError>,
    after: StateView,
)
    requires
        before.wf(),
        log_batch_applied(before, batch, checked, result, after),
    ensures
        result is Ok <==> checked is Ok && before.revision < before.limits.maximum_safe_revision,
        result matches Ok(event) ==> event.revision == before.revision + 1 && after.revision
            == event.revision && event.change == (RevisionChange::Log { batch }),
        result is Err ==> after == before,
        checked is Err ==> result == Err::<RevisionEvent, AppError>(checked->Err_0),
{
}

proof fn lemma_unexpired_has(sessions: Seq<FrozenSnapshotSession>, now_ms: u64, i: int)
    requires
        0 <= i < sessions.len(),
    ensures
        !is_expired(sessions[i], now_ms) ==> exists|k: int|
            0 <= k < unexpired(sessions, now_ms).len() && unexpired(sessions, now_ms)[k]
                == sessions[i],
    decreases sessions.len(),
{
    let rest = sessions.drop_last();
    let kept = unexpired(rest, now_ms);
    if !is_expired(sessions[i], now_ms) {
        if i < rest.len() {
            lemma_unexpired_has(rest, now_ms, i);
            let k = choose|k: int| 0 <= k < kept.len() && kept[k] == rest[i];
            assert(unexpired(sessions, now_ms)[k] == sessions[i]);
        } else {
            assert(unexpired(sessions, now_ms)[kept.len() as int] == sessions[i]);
        }
    }
}

proof fn lemma_unexpired_only(sessions: Seq<FrozenSnapshotSession>, now_ms: u64, k: int)
    requires
        0 <= k < unexpired(sessions, now_ms).len(),
    ensures
        !is_expired(unexpired(sessions, now_ms)[k], now_ms),
        exists|i: int|
            0 <= i < sessions.len() && #[trigger] sessions[i] == unexpired(sessions, now_ms)[k],
    decreases sessions.len(),
{
    let rest = sessions.drop_last();
    let kept = unexpired(rest, now_ms);
    if k < kept.len() {
        lemma_unexpired_only(rest, now_ms, k);
        let i = choose|i: int| 0 <= i < rest.len() && #[trigger] rest[i] == kept[k];
        assert(sessions[i] == unexpired(sessions, now_ms)[k]);
    } else {
        assert(sessions[sessions.len() - 1] == unexpired(sessions, now_ms)[k]);
    }
}

/// A snapshot is kept over a change exactly while it was last read no more than thirty
/// seconds ago and made no more than five minutes ago.
pub proof fn lemma_snapshot_lives_while_it_is_read(
    before: StateView,
    delta: ProcessDelta,
    checks: Seq<EntityChecks>,
    now_ms: u64,
    event: RevisionEvent,
    after: StateView,
    session: FrozenSnapshotSession,
)
    requires
        process_delta_applied(before, delta, checks, now_ms, Ok(event), after),
    ensures
        (exists|k: int| 0 <= k < after.sessions.len() && after.sessions[k] == session) <==> (
        exists|i: int| 0 <= i < before.sessions.len() && before.sessions[i] == session) && now_ms
            - session.last_accessed_at_ms <= 30_000 && now_ms - session.created_at_ms <= 300_000,
{
    let kept = unexpired(before.sessions, now_ms);
    if exists|k: int| 0 <= k < kept.len() && kept[k] == session {
        let k = choose|k: int| 0 <= k < kept.len() && kept[k] == session;
        lemma_unexpired_only(before.sessions, now_ms, k);
    }
    if exists|i: int| 0 <= i < before.sessions.len() && before.sessions[i] == session {
        let i = choose|i: int| 0 <= i < before.sessions.len() && before.sessions[i] == session;
        lemma_unexpired_has(before.sessions, now_ms, i);
    }
}

/// A snapshot begins only from a revision that has been, with fewer than four others kept,
/// and where what all of them hold is not more than twice what the state may hold. It then
/// holds the whole state of its revision under a new identifier. Only a lack of room is
/// worth another try.
pub proof fn lemma_snapshot_begins_where_there_is_room(
    state: StateView,
    starting_revision: u64,
    now_ms: u64,
    result: Result<FrozenSnapshotSession, AppError>,
)
    requires
        state.wf(),
        snapshot_started(state, starting_revision, now_ms, result),
    ensures
        ({
            let room = state.sessions.len() < 4 && total_bytes(state.processes) + total_bytes(
                state.port_bindings,
            ) + pinned_bytes(state.sessions) <= 2 * state.limits.maximum_total_entity_bytes;
            &&& result matches Ok(session) ==> {
                &&& starting_revision <= state.revision && room
                &&& session.revision == state.revision
                &&& session.starting_revision == starting_revision
                &&& session.processes@.len() == state.processes.len()
                &&& session.port_bindings@.len() == state.port_bindings.len()
                &&& session.total_entity_bytes == total_bytes(state.processes) + total_bytes(
                    state.port_bindings,
                )
                &&& session.created_at_ms == now_ms && session.last_accessed_at_ms == now_ms
                &&& !has_session(state.sessions, session.snapshot_id@)
                &&& forall|i: int|
                    0 <= i < state.processes.len() ==> (#[trigger] session.processes@[i]).key.key()
                        == state.processes[i].key.key() && session.processes@[i].says()
                        == state.processes[i].says()
                &&& forall|i: int|
                    0 <= i < state.port_bindings.len() ==> (
                    #[trigger] session.port_bindings@[i]).key.key()
                        == state.port_bindings[i].key.key() && session.port_bindings@[i].says()
                        == state.port_bindings[i].says()
            }
            &&& result matches Err(error) ==> {
                &&& error.retryable <==> starting_revision <= state.revision && !room
                &&& error.code == ErrorCode::InvalidArgument <==> starting_revision
                    > state.limits.maximum_safe_revision
                &&& error.code == ErrorCode::Internal <==> starting_revision <= state.revision
                    && room
            }
        }),
{
    if let Err(error) = result {
        assert(error@.code == error.code && error@.retryable == error.retryable);
    }
}

/// A snapshot is kept, with its first page, exactly where that page is small enough and
/// what it holds can be counted; nothing else of the state changes.
pub proof fn lemma_snapshot_is_kept_with_its_first_page(
    state: StateView,
    session: FrozenSnapshotSession,
    page: SnapshotPage,
    encoded_bytes: usize,
    result: Result<SystemSnapshot, AppError>,
    after: StateView,
)
    requires
        snapshot_kept(state, session, page, encoded_bytes, result, after),
    ensures
        result is Ok <==> encoded_bytes <= 786_432 && session.processes@.len() <= u32::MAX
            && session.port_bindings@.len() <= u32::MAX,
        result is Err ==> after == state,
        result is Ok ==> {
            &&& after.sessions.len() == state.sessions.len() + 1
            &&& after.sessions.last().snapshot_id == session.snapshot_id
            &&& after.sessions.last().pages@.len() == 1 && after.sessions.last().pages@[0] == page
            &&& after.processes == state.processes && after.port_bindings == state.port_bindings
            &&& after.revision == state.revision
        },
        result matches Ok(shown) ==> shown.chunk_index == 0 && (shown.next_cursor is Some
            <==> page.has_more),
{
}

/// A page goes on where the one before it ended, processes first, holds at most 1,024
/// entities, and ends early only where no more fit or none are left.
pub proof fn lemma_page_goes_on_where_the_last_ended(
    session: FrozenSnapshotSession,
    baseline: usize,
    result: Result<SnapshotPage, AppError>,
)
    requires
        session.wf(),
        !session.is_complete(),
        call_ensures(build_snapshot_page, (&session, baseline), result),
    ensures
        result matches Ok(page) ==> {
            &&& session.pages@.len() == 0 ==> page.process_start == 0 && page.port_start == 0
            &&& session.pages@.len() > 0 ==> page.process_start == session.pages@.last().process_end
                && page.port_start == session.pages@.last().port_end
            &&& page.process_start <= page.process_end <= session.processes@.len()
            &&& page.port_start <= page.port_end <= session.port_bindings@.len()
            &&& (page.process_end - page.process_start) + (page.port_end - page.port_start) <= 1_024
            &&& page.port_end > page.port_start ==> page.process_end == session.processes@.len()
            &&& page.has_more <==> page.process_end < session.processes@.len() || page.port_end
                < session.port_bindings@.len()
            &&& page.has_more ==> page.process_end > page.process_start || page.port_end
                > page.port_start
        },
        result matches Err(error) ==> error.code == ErrorCode::Internal,
{
    if let Err(error) = result {
        assert(error@.code == error.code);
    }
}

/// A snapshot is continued exactly where it is still kept, was begun from the revision that
/// is named, and the page is the next one of a snapshot that has more, or one that was
/// handed out before. A page that was handed out is handed out again, and keeps the snapshot
/// alive; nothing else of what is kept changes. A snapshot that is gone is worth another
/// try.
pub proof fn lemma_snapshot_is_continued_page_by_page(
    kept: Seq<FrozenSnapshotSession>,
    starting_revision: u64,
    id: Seq<char>,
    chunk_index: u32,
    now_ms: u64,
    result: Result<ContinuedSnapshot, AppError>,
    after: Seq<FrozenSnapshotSession>,
    place: int,
)
    requires
        sessions_wf(kept),
        kept.len() <= usize::MAX,
        continues(kept, starting_revision, id, chunk_index, now_ms, result, after),
    ensures
        !has_session(kept, id) ==> result is Err && result->Err_0.code == ErrorCode::Conflict
            && result->Err_0.retryable && after == kept,
        0 <= place < kept.len() && kept[place].snapshot_id@ == id ==> {
            let session = kept[place];
            let pages = session.pages@;
            let own = session.starting_revision == starting_revision;
            &&& result is Ok && result->Ok_0 is NextPage <==> own && chunk_index == pages.len()
                && (pages.len() == 0 || pages.last().has_more)
            &&& result is Ok && result->Ok_0 is Issued <==> own && chunk_index < pages.len()
            &&& result matches Ok(ContinuedSnapshot::NextPage(at)) ==> at == place && after == kept
            &&& result matches Ok(ContinuedSnapshot::Issued(shown)) ==> {
                &&& shown.chunk_index == chunk_index && shown.snapshot_id@ == id
                &&& shown.revision == session.revision
                &&& after.len() == kept.len()
                &&& after[place].last_accessed_at_ms == now_ms
                &&& after[place].pages == session.pages
                &&& after[place].created_at_ms == session.created_at_ms
                &&& forall|other: int|
                    0 <= other < kept.len() && other != place ==> #[trigger] after[other]
                        == kept[other]
            }
            &&& result is Err ==> after == kept && result->Err_0.code == ErrorCode::InvalidArgument
        },
{
    if let Err(error) = result {
        assert(error@.code == error.code && error@.retryable == error.retryable);
    }
    if 0 <= place < kept.len() && kept[place].snapshot_id@ == id {
        assert(has_session(kept, id));
        assert forall|k: int| #[trigger] session_place(kept, id, k) implies k == place by {
            if k < place {
                assert(kept[k].snapshot_id@ != kept[place].snapshot_id@);
            } else if place < k {
                assert(kept[place].snapshot_id@ != kept[k].snapshot_id@);
            }
        }
        assert(session_place(kept, id, place));
        assert(crate::snapshot::counts_refusal(kept[place]) is None);
        assert(kept[place].pages@.len() > 0);
    }
}

/// A new page is handed out exactly where it is small enough; it is then the last of its
/// snapshot, which is alive from then on, and nothing else changes.
pub proof fn lemma_new_page_is_kept_with_its_snapshot(
    state: StateView,
    place: int,
    page: SnapshotPage,
    encoded_bytes: usize,
    now_ms: u64,
    result: Result<SystemSnapshot, AppError>,
    after: StateView,
    other: int,
)
    requires
        0 <= place < state.sessions.len(),
        0 <= other < state.sessions.len(),
        page_issued(state, place, page, encoded_bytes, now_ms, result, after),
    ensures
        result is Ok <==> encoded_bytes <= 786_432,
        result is Err ==> after == state,
        result is Ok ==> {
            &&& after.sessions[place].pages@.len() == state.sessions[place].pages@.len() + 1
            &&& after.sessions[place].pages@.last() == page
            &&& after.sessions[place].last_accessed_at_ms == now_ms
            &&& after.sessions[place].snapshot_id == state.sessions[place].snapshot_id
            &&& other != place ==> after.sessions[other] == state.sessions[other]
            &&& after.processes == state.processes && after.port_bindings == state.port_bindings
            &&& after.revision == state.revision
        },
        result matches Ok(shown) ==> (shown.next_cursor is Some <==> page.has_more)
            && shown.revision == state.sessions[place].revision,
{
}

/// A snapshot is kept over a change of the ports as over one of the processes.
pub proof fn lemma_snapshot_lives_over_a_change_of_ports(
    before: StateView,
    delta: PortDelta,
    now_ms: u64,
    event: RevisionEvent,
    after: StateView,
    session: FrozenSnapshotSession,
)
    requires
        port_delta_applied(before, delta, now_ms, Ok(event), after),
    ensures
        (exists|k: int| 0 <= k < after.sessions.len() && after.sessions[k] == session) <==> (
        exists|i: int| 0 <= i < before.sessions.len() && before.sessions[i] == session) && now_ms
            - session.last_accessed_at_ms <= 30_000 && now_ms - session.created_at_ms <= 300_000,
{
    let kept = unexpired(before.sessions, now_ms);
    if exists|k: int| 0 <= k < kept.len() && kept[k] == session {
        let k = choose|k: int| 0 <= k < kept.len() && kept[k] == session;
        lemma_unexpired_only(before.sessions, now_ms, k);
    }
    if exists|i: int| 0 <= i < before.sessions.len() && before.sessions[i] == session {
        let i = choose|i: int| 0 <= i < before.sessions.len() && before.sessions[i] == session;
        lemma_unexpired_has(before.sessions, now_ms, i);
    }
}

} // verus!
