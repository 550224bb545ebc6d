//! The revision of the supervisor's state: every accepted change gets the next
//! revision, and snapshots of the state are frozen and handed out in pages.

use vstd::prelude::*;

use crate::collection::{
    bytes_after, changed, count_after, lookup, reported_bytes, sorted, total_bytes, unambiguous,
    is_reported, Collection, Entity, EntityKey, EntityView, Reported,
};
use crate::error::{optional_text, plain_error, AppError, ErrorCode, ErrorView};
use crate::keys::PortBindingKey;
use crate::random::random_array;
use crate::run::ProcessInstanceKey;
use crate::snapshot::{
    check_chunk_bytes, chunk_too_large, counts_refusal, cursor_fault, cursor_text, invalid_cursor,
    invalid_snapshot_cursor, is_snapshot_id, make_snapshot_page_response, parse_snapshot_cursor,
    shows_page, snapshot_internal_error, FrozenSnapshotSession, SnapshotPage, SystemSnapshot,
    MAX_SNAPSHOT_CHUNK_ENTITIES, MAX_SNAPSHOT_CHUNK_PAYLOAD_BYTES, MAX_SNAPSHOT_SESSIONS,
    SNAPSHOT_SESSION_IDLE_TIMEOUT_MS, SNAPSHOT_SESSION_MAX_LIFETIME_MS,
};
use crate::text::{decimal, decimal_text, encode_lower_hex, lower_hex, same_text};

verus! {

/// How many events wait for a slow listener.
pub const REVISION_EVENT_CAPACITY: usize = 256;

/// How many entities a change may name.
pub const MAX_REVISION_DELTA_ENTITIES: usize = 128;

/// How many bytes a change may be counted for.
pub const MAX_REVISION_DELTA_PAYLOAD_BYTES: usize = 524_288;

/// The bytes that an entity is counted for beyond its own.
pub const SNAPSHOT_ENTITY_ACCOUNTING_SLACK_BYTES: usize = 64;

/// The bounds of the state that are agreed with those who read it.
#[derive(Clone, Copy, Debug, PartialEq, Eq, Structural)]
pub struct SnapshotLimits {
    pub maximum_safe_revision: u64,
    pub maximum_entity_bytes: usize,
    pub maximum_processes: usize,
    pub maximum_port_bindings: usize,
    pub maximum_total_entity_bytes: usize,
}

impl SnapshotLimits {
    /// The bytes of the state, of one change and of the frozen states can be
    /// counted.
    pub open spec fn wf(self) -> bool {
        &&& self.maximum_total_entity_bytes + MAX_REVISION_DELTA_ENTITIES
            * self.maximum_entity_bytes <= usize::MAX
        &&& 2 * self.maximum_total_entity_bytes <= usize::MAX
        &&& self.maximum_processes + MAX_REVISION_DELTA_ENTITIES <= usize::MAX
        &&& self.maximum_port_bindings + MAX_REVISION_DELTA_ENTITIES <= usize::MAX
    }
}

/// An entity in a change: its key, what it says as it is written down, and how
/// many bytes that takes.
#[derive(Debug)]
pub struct Upserted<K> {
    pub key: K,
    pub content: String,
    pub encoded_bytes: usize,
}

/// A change of one of the collections, and how many bytes it takes.
#[derive(Debug)]
pub struct StateDelta<K> {
    pub upserted: Vec<Upserted<K>>,
    pub removed: Vec<K>,
    pub encoded_bytes: usize,
}

/// A change of the processes.
pub type ProcessDelta = StateDelta<ProcessInstanceKey>;

/// A change of the port bindings.
pub type PortDelta = StateDelta<PortBindingKey>;

/// What changed at a revision. The content of a log batch is not part of the
/// state; the number is that under which it is kept.
#[derive(Debug)]
#[allow(inconsistent_fields)]
pub enum RevisionChange {
    Process { upserted: Vec<Reported<ProcessInstanceKey>>, removed: Vec<ProcessInstanceKey> },
    Port { upserted: Vec<Reported<PortBindingKey>>, removed: Vec<PortBindingKey> },
    Log { batch: u64 },
}

/// A change that was accepted, with its revision.
#[derive(Debug)]
pub struct RevisionEvent {
    pub revision: u64,
    pub change: RevisionChange,
}

impl RevisionEvent {
    pub fn revision(&self) -> (revision: u64)
        ensures
            revision == self.revision,
    {
        self.revision
    }

    pub fn change(&self) -> (change: &RevisionChange)
        ensures
            *change == self.change,
    {
        &self.change
    }
}

/// Why a listener got no event.
#[derive(Clone, Copy, Debug, PartialEq, Eq, Structural)]
pub enum RevisionStreamError {
    Lagged { skipped: u64 },
    Closed,
}

/// What the rules for processes say of one that was found: of its key, of the
/// key of its parent, and of how it is held.
#[derive(Debug)]
pub struct EntityChecks {
    pub key: Result<(), AppError>,
    pub parent: Result<(), AppError>,
    pub control: Result<(), AppError>,
}

impl EntityChecks {
    /// The first refusal among them.
    pub open spec fn refusal(self) -> Option<ErrorView> {
        match (self.key, self.parent, self.control) {
            (Err(error), _, _) => Some(error@),
            (Ok(_), Err(error), _) => Some(error@),
            (Ok(_), Ok(_), Err(error)) => Some(error@),
            _ => None,
        }
    }

    fn first_refusal(&self) -> (refusal: Option<AppError>)
        ensures
            match refusal {
                Some(error) => self.refusal() == Some(error@),
                None => self.refusal() is None,
            },
    {
        match (&self.key, &self.parent, &self.control) {
            (Err(error), _, _) => Some(error.copy()),
            (_, Err(error), _) => Some(error.copy()),
            (_, _, Err(error)) => Some(error.copy()),
            _ => None,
        }
    }
}

/// The refusal of an entity by its own rules, where it has any.
pub open spec fn own_refusal(checks: Seq<EntityChecks>, i: int) -> Option<ErrorView> {
    if 0 <= i < checks.len() {
        checks[i].refusal()
    } else {
        None
    }
}

/// Whether a key stood in the list before.
pub open spec fn repeats<K: EntityKey>(upserted: Seq<Upserted<K>>, i: int) -> bool {
    exists|j: int| 0 <= j < i && (#[trigger] upserted[j]).key.key() == upserted[i].key.key()
}

/// The refusal of the first entry from a place on that its own rules refuse, or
/// whose key stood in the list before.
pub open spec fn upserted_refusal<K: EntityKey>(
    entity: Seq<char>,
    upserted: Seq<Upserted<K>>,
    checks: Seq<EntityChecks>,
    from: int,
) -> Option<ErrorView>
    decreases upserted.len() - from,
{
    if from >= upserted.len() {
        None
    } else if own_refusal(checks, from) is Some {
        own_refusal(checks, from)
    } else if repeats(upserted, from) {
        Some(ambiguous_error(entity, "upserted"@, from as nat, "duplicate key"@))
    } else {
        upserted_refusal(entity, upserted, checks, from + 1)
    }
}

/// Whether a key is among those of the list.
pub open spec fn upserts<K: EntityKey>(upserted: Seq<Upserted<K>>, key: K::V) -> bool {
    exists|j: int| 0 <= j < upserted.len() && (#[trigger] upserted[j]).key.key() == key
}

/// Whether a removed key stood in the list before.
pub open spec fn removes_again<K: EntityKey>(removed: Seq<K>, i: int) -> bool {
    exists|j: int| 0 <= j < i && (#[trigger] removed[j]).key() == removed[i].key()
}

/// Whether a removed key stands nowhere else in the change.
pub open spec fn is_clean_removal<K: EntityKey>(
    upserted: Seq<Upserted<K>>,
    removed: Seq<K>,
    i: int,
) -> bool {
    !removes_again(removed, i) && !upserts(upserted, removed[i].key())
}

/// The first removal from a place on that is repeated or contradicted.
pub open spec fn first_bad_removal<K: EntityKey>(
    upserted: Seq<Upserted<K>>,
    removed: Seq<K>,
    from: int,
) -> Option<int>
    decreases removed.len() - from,
{
    if from >= removed.len() {
        None
    } else if !is_clean_removal(upserted, removed, from) {
        Some(from)
    } else {
        first_bad_removal(upserted, removed, from + 1)
    }
}

/// The refusal of a change that says two things of one key.
pub open spec fn ambiguous_error(
    entity: Seq<char>,
    collection: Seq<char>,
    index: nat,
    reason: Seq<char>,
) -> ErrorView {
    plain_error(ErrorCode::InvalidArgument, "state delta is ambiguous"@).with(
        "entity"@,
        entity,
    ).with("collection"@, collection).with("index"@, decimal_text(index)).with("reason"@, reason)
}

fn invalid_delta_entry(entity: &str, collection: &str, index: usize, reason: &str) -> (error:
    AppError)
    ensures
        error@ == ambiguous_error(entity@, collection@, index as nat, reason@),
{
    AppError::new(ErrorCode::InvalidArgument, "state delta is ambiguous").with_detail(
        "entity",
        entity,
    ).with_detail("collection", collection).with_detail(
        "index",
        decimal(index as u64).as_str(),
    ).with_detail("reason", reason)
}

/// The refusal of a change that holds an unsound entity, or whose keys are not
/// all different: what is upserted comes first, entry by entry.
pub open spec fn ambiguity<K: EntityKey>(
    entity: Seq<char>,
    upserted: Seq<Upserted<K>>,
    checks: Seq<EntityChecks>,
    removed: Seq<K>,
) -> Option<ErrorView> {
    match upserted_refusal(entity, upserted, checks, 0) {
        Some(error) => Some(error),
        None => match first_bad_removal(upserted, removed, 0) {
            Some(i) => Some(
                ambiguous_error(
                    entity,
                    "removed"@,
                    i as nat,
                    if removes_again(removed, i) {
                        "duplicate key"@
                    } else {
                        "key is also upserted"@
                    },
                ),
            ),
            None => None,
        },
    }
}

/// An entry that its own rules admit, and whose key did not stand before.
pub open spec fn is_clean_entry<K: EntityKey>(
    upserted: Seq<Upserted<K>>,
    checks: Seq<EntityChecks>,
    i: int,
) -> bool {
    own_refusal(checks, i) is None && !repeats(upserted, i)
}

proof fn lemma_upserted_refusal<K: EntityKey>(
    entity: Seq<char>,
    upserted: Seq<Upserted<K>>,
    checks: Seq<EntityChecks>,
    from: int,
    to: int,
)
    requires
        0 <= from <= to <= upserted.len(),
        forall|i: int| from <= i < to ==> #[trigger] is_clean_entry(upserted, checks, i),
    ensures
        upserted_refusal(entity, upserted, checks, from) == upserted_refusal(
            entity,
            upserted,
            checks,
            to,
        ),
    decreases to - from,
{
    if from < to {
        assert(is_clean_entry(upserted, checks, from));
        lemma_upserted_refusal(entity, upserted, checks, from + 1, to);
    }
}

proof fn lemma_first_bad_removal<K: EntityKey>(
    upserted: Seq<Upserted<K>>,
    removed: Seq<K>,
    from: int,
    to: int,
)
    requires
        0 <= from <= to <= removed.len(),
        forall|i: int|
            from <= i < to ==> #[trigger] is_clean_removal(upserted, removed, i),
    ensures
        first_bad_removal(upserted, removed, from) == first_bad_removal(upserted, removed, to),
    decreases to - from,
{
    if from < to {
        assert(is_clean_removal(upserted, removed, from));
        lemma_first_bad_removal(upserted, removed, from + 1, to);
    }
}

/// Whether every entity of a change is sound, and every key is named once.
fn validate_delta<K: EntityKey>(
    entity: &str,
    delta: &StateDelta<K>,
    checks: &Vec<EntityChecks>,
) -> (result: Result<(), AppError>)
    ensures
        match result {
            Ok(_) => {
                &&& ambiguity(entity@, delta.upserted@, checks@, delta.removed@) is None
                &&& forall|i: int|
                    0 <= i < delta.upserted@.len() ==> !#[trigger] repeats(delta.upserted@, i)
                &&& forall|i: int|
                    0 <= i < delta.removed@.len() ==> #[trigger] is_clean_removal(delta.upserted@, delta.removed@, i)
            },
            Err(error) => ambiguity(entity@, delta.upserted@, checks@, delta.removed@) == Some(error@),
        },
{
    let ghost upserted = delta.upserted@;
    let ghost removed = delta.removed@;
    let mut i: usize = 0;
    while i < delta.upserted.len()
        invariant
            upserted == delta.upserted@,
            removed == delta.removed@,
            i <= upserted.len(),
            forall|k: int|
                0 <= k < i ==> #[trigger] is_clean_entry(upserted, checks@, k),
        decreases upserted.len() - i,
    {
        if i < checks.len() {
            if let Some(error) = checks[i].first_refusal() {
                proof {
                    lemma_upserted_refusal(entity@, upserted, checks@, 0, i as int);
                }
                return Err(error);
            }
        }
        let mut j: usize = 0;
        while j < i
            invariant
                own_refusal(checks@, i as int) is None,
                upserted == delta.upserted@,
                removed == delta.removed@,
                j <= i < upserted.len(),
                forall|k: int|
                0 <= k < i ==> #[trigger] is_clean_entry(upserted, checks@, k),
                forall|k: int|
                    0 <= k < j ==> (#[trigger] upserted[k]).key.key()
                        != upserted[i as int].key.key(),
            decreases i - j,
        {
            if delta.upserted[j].key.is_same(&delta.upserted[i].key) {
                proof {
                    assert(repeats(upserted, i as int));
                    lemma_upserted_refusal(entity@, upserted, checks@, 0, i as int);
                }
                return Err(invalid_delta_entry(entity, "upserted", i, "duplicate key"));
            }
            j += 1;
        }
        assert(is_clean_entry(upserted, checks@, i as int));
        i += 1;
    }
    proof {
        lemma_upserted_refusal(entity@, upserted, checks@, 0, upserted.len() as int);
        assert forall|k: int| 0 <= k < upserted.len() implies !#[trigger] repeats(upserted, k) by {
            assert(is_clean_entry(upserted, checks@, k));
        }
    }
    let mut r: usize = 0;
    while r < delta.removed.len()
        invariant
            upserted == delta.upserted@,
            removed == delta.removed@,
            upserted_refusal(entity@, upserted, checks@, 0) is None,
            forall|k: int| 0 <= k < upserted.len() ==> !#[trigger] repeats(upserted, k),
            r <= removed.len(),
            forall|k: int|
                0 <= k < r ==> #[trigger] is_clean_removal(upserted, removed, k),
        decreases removed.len() - r,
    {
        let mut j: usize = 0;
        while j < r
            invariant
                upserted == delta.upserted@,
                removed == delta.removed@,
                upserted_refusal(entity@, upserted, checks@, 0) is None,
            forall|k: int| 0 <= k < upserted.len() ==> !#[trigger] repeats(upserted, k),
                j <= r < removed.len(),
                forall|k: int|
                    0 <= k < r ==> #[trigger] is_clean_removal(upserted, removed, k),
                forall|k: int|
                    0 <= k < j ==> (#[trigger] removed[k]).key() != removed[r as int].key(),
            decreases r - j,
        {
            if delta.removed[j].is_same(&delta.removed[r]) {
                proof {
                    assert(removes_again(removed, r as int));
                    lemma_first_bad_removal(upserted, removed, 0, r as int);
                }
                return Err(invalid_delta_entry(entity, "removed", r, "duplicate key"));
            }
            j += 1;
        }
        assert(!removes_again(removed, r as int));
        let mut u: usize = 0;
        while u < delta.upserted.len()
            invariant
                upserted == delta.upserted@,
                removed == delta.removed@,
                upserted_refusal(entity@, upserted, checks@, 0) is None,
            forall|k: int| 0 <= k < upserted.len() ==> !#[trigger] repeats(upserted, k),
                u <= upserted.len(),
                r < removed.len(),
                !removes_again(removed, r as int),
                forall|k: int|
                    0 <= k < r ==> #[trigger] is_clean_removal(upserted, removed, k),
                forall|k: int|
                    0 <= k < u ==> (#[trigger] upserted[k]).key.key() != removed[r as int].key(),
            decreases upserted.len() - u,
        {
            if delta.upserted[u].key.is_same(&delta.removed[r]) {
                proof {
                    assert(upserts(upserted, removed[r as int].key()));
                    lemma_first_bad_removal(upserted, removed, 0, r as int);
                }
                return Err(invalid_delta_entry(entity, "removed", r, "key is also upserted"));
            }
            u += 1;
        }
        assert(is_clean_removal(upserted, removed, r as int));
        r += 1;
    }
    proof {
        lemma_first_bad_removal(upserted, removed, 0, removed.len() as int);
    }
    Ok(())
}

/// The refusal where bytes cannot be counted.
pub open spec fn overflow_error() -> ErrorView {
    plain_error(ErrorCode::InvalidArgument, "snapshot state byte accounting overflowed"@)
}

fn snapshot_state_capacity_overflow() -> (error: AppError)
    ensures
        error@ == overflow_error(),
{
    AppError::new(ErrorCode::InvalidArgument, "snapshot state byte accounting overflowed")
}

/// The refusal of a change that names too many entities or takes too many
/// bytes.
pub open spec fn budget_refusal(entity: Seq<char>, count: nat, encoded: nat) -> Option<ErrorView> {
    let counted = encoded + count * SNAPSHOT_ENTITY_ACCOUNTING_SLACK_BYTES as nat;
    if counted > usize::MAX {
        Some(overflow_error())
    } else if count <= MAX_REVISION_DELTA_ENTITIES && counted <= MAX_REVISION_DELTA_PAYLOAD_BYTES {
        None
    } else {
        Some(
            plain_error(
                ErrorCode::InvalidArgument,
                "state delta exceeds the bounded revision event contract"@,
            ).with("entity"@, entity).with("entityCount"@, decimal_text(count)).with(
                "maximumEntities"@,
                decimal_text(MAX_REVISION_DELTA_ENTITIES as nat),
            ).with("encodedBytes"@, decimal_text(encoded)).with(
                "accountingBytes"@,
                decimal_text(counted),
            ).with("maximumBytes"@, decimal_text(MAX_REVISION_DELTA_PAYLOAD_BYTES as nat)),
        )
    }
}

fn validate_delta_wire_budget(entity: &str, entity_count: usize, encoded_bytes: usize) -> (result:
    Result<(), AppError>)
    ensures
        match result {
            Ok(_) => budget_refusal(entity@, entity_count as nat, encoded_bytes as nat) is None
                && entity_count <= MAX_REVISION_DELTA_ENTITIES,
            Err(error) => budget_refusal(entity@, entity_count as nat, encoded_bytes as nat)
                == Some(error@),
        },
{
    let slack: usize = match entity_count.checked_mul(SNAPSHOT_ENTITY_ACCOUNTING_SLACK_BYTES) {
        Some(slack) => slack,
        None => return Err(snapshot_state_capacity_overflow()),
    };
    let counted: usize = match encoded_bytes.checked_add(slack) {
        Some(counted) => counted,
        None => return Err(snapshot_state_capacity_overflow()),
    };
    if entity_count <= MAX_REVISION_DELTA_ENTITIES && counted <= MAX_REVISION_DELTA_PAYLOAD_BYTES {
        return Ok(());
    }
    Err(
        AppError::new(
            ErrorCode::InvalidArgument,
            "state delta exceeds the bounded revision event contract",
        ).with_detail("entity", entity).with_detail(
            "entityCount",
            decimal(entity_count as u64).as_str(),
        ).with_detail(
            "maximumEntities",
            decimal(MAX_REVISION_DELTA_ENTITIES as u64).as_str(),
        ).with_detail("encodedBytes", decimal(encoded_bytes as u64).as_str()).with_detail(
            "accountingBytes",
            decimal(counted as u64).as_str(),
        ).with_detail(
            "maximumBytes",
            decimal(MAX_REVISION_DELTA_PAYLOAD_BYTES as u64).as_str(),
        ),
    )
}

/// The refusal of an entity that takes too many bytes.
pub open spec fn entity_refusal(
    entity: Seq<char>,
    index: nat,
    encoded: nat,
    maximum: nat,
) -> Option<ErrorView> {
    let counted = encoded + SNAPSHOT_ENTITY_ACCOUNTING_SLACK_BYTES as nat;
    if counted > usize::MAX {
        Some(overflow_error())
    } else if counted <= maximum {
        None
    } else {
        Some(
            plain_error(
                ErrorCode::InvalidArgument,
                "state entity exceeds the bounded snapshot contract"@,
            ).with("entity"@, entity).with("index"@, decimal_text(index)).with(
                "encodedBytes"@,
                decimal_text(encoded),
            ).with("accountingBytes"@, decimal_text(counted)).with(
                "maximumBytes"@,
                decimal_text(maximum),
            ),
        )
    }
}

fn validate_snapshot_entity(
    entity: &str,
    index: usize,
    encoded_bytes: usize,
    maximum: usize,
) -> (result: Result<usize, AppError>)
    ensures
        match result {
            Ok(counted) => entity_refusal(
                entity@,
                index as nat,
                encoded_bytes as nat,
                maximum as nat,
            ) is None && counted == encoded_bytes + SNAPSHOT_ENTITY_ACCOUNTING_SLACK_BYTES
                && counted <= maximum,
            Err(error) => entity_refusal(
                entity@,
                index as nat,
                encoded_bytes as nat,
                maximum as nat,
            ) == Some(error@),
        },
{
    let counted: usize = match encoded_bytes.checked_add(SNAPSHOT_ENTITY_ACCOUNTING_SLACK_BYTES) {
        Some(counted) => counted,
        None => return Err(snapshot_state_capacity_overflow()),
    };
    if counted <= maximum {
        return Ok(counted);
    }
    Err(
        AppError::new(
            ErrorCode::InvalidArgument,
            "state entity exceeds the bounded snapshot contract",
        ).with_detail("entity", entity).with_detail(
            "index",
            decimal(index as u64).as_str(),
        ).with_detail("encodedBytes", decimal(encoded_bytes as u64).as_str()).with_detail(
            "accountingBytes",
            decimal(counted as u64).as_str(),
        ).with_detail("maximumBytes", decimal(maximum as u64).as_str()),
    )
}

/// The refusal of the first entity from a place on that takes too many bytes.
pub open spec fn entities_refusal<K>(
    entity: Seq<char>,
    upserted: Seq<Upserted<K>>,
    maximum: nat,
    from: int,
) -> Option<ErrorView>
    decreases upserted.len() - from,
{
    if from >= upserted.len() {
        None
    } else {
        let refusal = entity_refusal(
            entity,
            from as nat,
            upserted[from].encoded_bytes as nat,
            maximum,
        );
        if refusal is Some {
            refusal
        } else {
            entities_refusal(entity, upserted, maximum, from + 1)
        }
    }
}

/// The refusal of a state that would be too large.
pub open spec fn capacity_refusal(
    entity: Seq<char>,
    count: int,
    maximum_count: nat,
    bytes: int,
    maximum_bytes: nat,
) -> Option<ErrorView> {
    if count <= maximum_count && bytes <= maximum_bytes {
        None
    } else if bytes > usize::MAX {
        Some(overflow_error())
    } else {
        Some(
            plain_error(
                ErrorCode::InvalidArgument,
                "state delta exceeds the bounded snapshot collection contract"@,
            ).with("entity"@, entity).with("count"@, decimal_text(count as nat)).with(
                "maximumCount"@,
                decimal_text(maximum_count),
            ).with("totalEntityBytes"@, decimal_text(bytes as nat)).with(
                "maximumTotalEntityBytes"@,
                decimal_text(maximum_bytes),
            ),
        )
    }
}

fn validate_snapshot_state_capacity(
    entity: &str,
    count: usize,
    maximum_count: usize,
    entity_bytes: usize,
    other_entity_bytes: usize,
    maximum_bytes: usize,
) -> (result: Result<(), AppError>)
    ensures
        match result {
            Ok(_) => capacity_refusal(
                entity@,
                count as int,
                maximum_count as nat,
                entity_bytes + other_entity_bytes,
                maximum_bytes as nat,
            ) is None,
            Err(error) => capacity_refusal(
                entity@,
                count as int,
                maximum_count as nat,
                entity_bytes + other_entity_bytes,
                maximum_bytes as nat,
            ) == Some(error@),
        },
{
    let total: usize = match entity_bytes.checked_add(other_entity_bytes) {
        Some(total) => total,
        None => return Err(snapshot_state_capacity_overflow()),
    };
    if count <= maximum_count && total <= maximum_bytes {
        return Ok(());
    }
    Err(
        AppError::new(
            ErrorCode::InvalidArgument,
            "state delta exceeds the bounded snapshot collection contract",
        ).with_detail("entity", entity).with_detail(
            "count",
            decimal(count as u64).as_str(),
        ).with_detail("maximumCount", decimal(maximum_count as u64).as_str()).with_detail(
            "totalEntityBytes",
            decimal(total as u64).as_str(),
        ).with_detail("maximumTotalEntityBytes", decimal(maximum_bytes as u64).as_str()),
    )
}

/// An entity of a change as the collections count it.
pub open spec fn counts_as<K: EntityKey>(reported: Reported<K>, upserted: Upserted<K>) -> bool {
    &&& reported.key == upserted.key
    &&& reported.content == upserted.content
    &&& reported.counted_bytes == upserted.encoded_bytes + SNAPSHOT_ENTITY_ACCOUNTING_SLACK_BYTES
}

/// The entities of a change as the collections count them.
pub open spec fn counted_entities<K: EntityKey>(
    reported: Seq<Reported<K>>,
    upserted: Seq<Upserted<K>>,
) -> bool {
    &&& reported.len() == upserted.len()
    &&& forall|i: int| 0 <= i < reported.len() ==> counts_as(#[trigger] reported[i], upserted[i])
}

/// The refusal of a change, whatever the state is.
pub open spec fn delta_refusal<K: EntityKey>(
    entity: Seq<char>,
    delta: StateDelta<K>,
    checks: Seq<EntityChecks>,
    maximum_entity_bytes: nat,
) -> Option<ErrorView> {
    let ambiguous = ambiguity(entity, delta.upserted@, checks, delta.removed@);
    let budget = budget_refusal(
        entity,
        delta.upserted@.len() + delta.removed@.len(),
        delta.encoded_bytes as nat,
    );
    if ambiguous is Some {
        ambiguous
    } else if budget is Some {
        budget
    } else {
        entities_refusal(entity, delta.upserted@, maximum_entity_bytes, 0)
    }
}

/// Checks a change against the bounds that hold whatever the state is, and
/// counts its entities.
fn admit_delta<K: EntityKey>(
    entity: &str,
    delta: StateDelta<K>,
    checks: &Vec<EntityChecks>,
    maximum_entity_bytes: usize,
) -> (result: Result<(Vec<Reported<K>>, Vec<K>), AppError>)
    requires
        delta.upserted@.len() + delta.removed@.len() <= usize::MAX,
    ensures
        match result {
            Ok((reported, removed)) => {
                &&& delta_refusal(entity@, delta, checks@, maximum_entity_bytes as nat) is None
                &&& removed == delta.removed
                &&& counted_entities(reported@, delta.upserted@)
                &&& unambiguous(reported@, removed@)
                &&& reported@.len() <= MAX_REVISION_DELTA_ENTITIES
                &&& reported_bytes(reported@) <= reported@.len() * maximum_entity_bytes
            },
            Err(error) => delta_refusal(entity@, delta, checks@, maximum_entity_bytes as nat) == Some(
                error@,
            ),
        },
{
    match validate_delta(entity, &delta, checks) {
        Ok(_) => {},
        Err(error) => return Err(error),
    }
    match validate_delta_wire_budget(
        entity,
        delta.upserted.len() + delta.removed.len(),
        delta.encoded_bytes,
    ) {
        Ok(_) => {},
        Err(error) => return Err(error),
    }
    let total: usize = delta.upserted.len();
    let mut pending = delta.upserted;
    let ghost all = pending@;
    let mut reported: Vec<Reported<K>> = Vec::new();
    let mut i: usize = 0;
    assert(all.subrange(0, all.len() as int) =~= all);
    while i < total
        invariant
            all == delta.upserted@,
            total == all.len(),
            i <= total,
            pending@ == all.subrange(i as int, total as int),
            reported@.len() == i,
            forall|k: int| 0 <= k < i ==> counts_as(#[trigger] reported@[k], all[k]),
            reported_bytes(reported@) <= i * maximum_entity_bytes,
            entities_refusal(entity@, all, maximum_entity_bytes as nat, 0) == entities_refusal(
                entity@,
                all,
                maximum_entity_bytes as nat,
                i as int,
            ),
            ambiguity(entity@, delta.upserted@, checks@, delta.removed@) is None,
            budget_refusal(
                entity@,
                delta.upserted@.len() + delta.removed@.len(),
                delta.encoded_bytes as nat,
            ) is None,
        decreases total - i,
    {
        let entry = pending.remove(0);
        assert(entry == all[i as int]);
        assert(pending@ =~= all.subrange(i + 1, total as int));
        let counted: usize = match validate_snapshot_entity(
            entity,
            i,
            entry.encoded_bytes,
            maximum_entity_bytes,
        ) {
            Ok(counted) => counted,
            Err(error) => return Err(error),
        };
        let ghost before = reported@;
        reported.push(
            Reported { key: entry.key, content: entry.content, counted_bytes: counted },
        );
        proof {
            assert(reported@.drop_last() =~= before);
            assert((i + 1) * maximum_entity_bytes == i * maximum_entity_bytes
                + maximum_entity_bytes) by (nonlinear_arith);
        }
        i += 1;
    }
    proof {
        let removed = delta.removed@;
        assert forall|a: int, b: int| 0 <= a < b < reported@.len() implies (
        #[trigger] reported@[a]).key.key() != (#[trigger] reported@[b]).key.key() by {
            assert(!repeats(all, b));
            assert(all[a].key.key() == reported@[a].key.key());
        }
        assert forall|a: int, b: int| 0 <= a < b < removed.len() implies (
        #[trigger] removed[a]).key() != (#[trigger] removed[b]).key() by {
            assert(is_clean_removal(all, removed, b));
        }
        assert forall|a: int| 0 <= a < removed.len() implies !is_reported(
            reported@,
            (#[trigger] removed[a]).key(),
        ) by {
            assert(is_clean_removal(all, removed, a));
            if is_reported(reported@, removed[a].key()) {
                let k = choose|k: int|
                    0 <= k < reported@.len() && (#[trigger] reported@[k]).key.key()
                        == removed[a].key();
                assert(all[k].key.key() == removed[a].key());
            }
        }
    }
    Ok((reported, delta.removed))
}

/// The bytes that the frozen states are counted for.
pub open spec fn pinned_bytes(sessions: Seq<FrozenSnapshotSession>) -> nat
    decreases sessions.len(),
{
    if sessions.len() == 0 {
        0
    } else {
        pinned_bytes(sessions.drop_last()) + sessions.last().total_entity_bytes as nat
    }
}

/// Whether a snapshot is no longer kept: it was not asked for, or it is too old.
pub open spec fn is_expired(session: FrozenSnapshotSession, now_ms: u64) -> bool {
    now_ms - session.last_accessed_at_ms > SNAPSHOT_SESSION_IDLE_TIMEOUT_MS || now_ms
        - session.created_at_ms > SNAPSHOT_SESSION_MAX_LIFETIME_MS
}

/// The snapshots that are still kept.
pub open spec fn unexpired(sessions: Seq<FrozenSnapshotSession>, now_ms: u64) -> Seq<
    FrozenSnapshotSession,
>
    decreases sessions.len(),
{
    if sessions.len() == 0 {
        Seq::empty()
    } else {
        let rest = unexpired(sessions.drop_last(), now_ms);
        if is_expired(sessions.last(), now_ms) {
            rest
        } else {
            rest.push(sessions.last())
        }
    }
}

/// Each snapshot is sound and has a name of its own.
pub open spec fn sessions_wf(sessions: Seq<FrozenSnapshotSession>) -> bool {
    &&& forall|i: int|
        0 <= i < sessions.len() ==> (#[trigger] sessions[i]).wf() && sessions[i].pages@.len() > 0
            && counts_refusal(sessions[i]) is None
    &&& forall|i: int, j: int|
        0 <= i < j < sessions.len() ==> (#[trigger] sessions[i]).snapshot_id@ != (
        #[trigger] sessions[j]).snapshot_id@
}

/// Whether a snapshot of a name is kept.
pub open spec fn has_session(sessions: Seq<FrozenSnapshotSession>, id: Seq<char>) -> bool {
    exists|i: int| 0 <= i < sessions.len() && (#[trigger] sessions[i]).snapshot_id@ == id
}

pub(crate) proof fn lemma_unexpired(sessions: Seq<FrozenSnapshotSession>, now_ms: u64)
    requires
        sessions_wf(sessions),
    ensures
        sessions_wf(unexpired(sessions, now_ms)),
        unexpired(sessions, now_ms).len() <= sessions.len(),
        pinned_bytes(unexpired(sessions, now_ms)) <= pinned_bytes(sessions),
        forall|id: Seq<char>| #[trigger]
            has_session(unexpired(sessions, now_ms), id) ==> has_session(sessions, id),
    decreases sessions.len(),
{
    if sessions.len() > 0 {
        let rest = sessions.drop_last();
        assert(sessions_wf(rest)) by {
            assert forall|i: int| 0 <= i < rest.len() implies (#[trigger] rest[i]).wf()
                && rest[i].pages@.len() > 0 by {
                assert(sessions[i].wf());
            }
            assert forall|i: int, j: int| 0 <= i < j < rest.len() implies (
            #[trigger] rest[i]).snapshot_id@ != (#[trigger] rest[j]).snapshot_id@ by {
                assert(sessions[i].snapshot_id@ != sessions[j].snapshot_id@);
            }
        }
        lemma_unexpired(rest, now_ms);
        let kept = unexpired(rest, now_ms);
        let last = sessions.last();
        let after = unexpired(sessions, now_ms);
        assert(last.wf() && last.pages@.len() > 0) by {
            assert(sessions[sessions.len() - 1].wf());
        }
        assert(!has_session(rest, last.snapshot_id@)) by {
            if has_session(rest, last.snapshot_id@) {
                let k = choose|k: int|
                    0 <= k < rest.len() && (#[trigger] rest[k]).snapshot_id@ == last.snapshot_id@;
                assert(sessions[k].snapshot_id@ != sessions[sessions.len() - 1].snapshot_id@);
            }
        }
        assert forall|id: Seq<char>| #[trigger] has_session(after, id) implies has_session(
            sessions,
            id,
        ) by {
            let k = choose|k: int| 0 <= k < after.len() && (#[trigger] after[k]).snapshot_id@ == id;
            if k < kept.len() {
                assert(kept[k].snapshot_id@ == id);
                assert(has_session(kept, id));
                let m = choose|m: int| 0 <= m < rest.len() && (#[trigger] rest[m]).snapshot_id@ == id;
                assert(sessions[m].snapshot_id@ == id);
            } else {
                assert(sessions[sessions.len() - 1].snapshot_id@ == id);
            }
        }
        if !is_expired(last, now_ms) {
            assert(after.drop_last() =~= kept);
            assert forall|i: int, j: int| 0 <= i < j < after.len() implies (
            #[trigger] after[i]).snapshot_id@ != (#[trigger] after[j]).snapshot_id@ by {
                if j < kept.len() {
                    assert(kept[i].snapshot_id@ != kept[j].snapshot_id@);
                } else {
                    assert(has_session(kept, kept[i].snapshot_id@));
                }
            }
        }
    }
}

/// The state of the supervisor that others read: its processes and port
/// bindings, its revision, and the snapshots that are being handed out.
#[derive(Debug)]
pub struct RevisionState {
    limits: SnapshotLimits,
    processes: Collection<ProcessInstanceKey>,
    port_bindings: Collection<PortBindingKey>,
    sessions: Vec<FrozenSnapshotSession>,
    current_revision: u64,
}

/// What the state holds.
pub struct StateView {
    pub limits: SnapshotLimits,
    pub processes: Seq<Entity<ProcessInstanceKey>>,
    pub port_bindings: Seq<Entity<PortBindingKey>>,
    pub sessions: Seq<FrozenSnapshotSession>,
    pub revision: u64,
}

impl View for RevisionState {
    type V = StateView;

    closed spec fn view(&self) -> StateView {
        StateView {
            limits: self.limits,
            processes: self.processes@,
            port_bindings: self.port_bindings@,
            sessions: self.sessions@,
            revision: self.current_revision,
        }
    }
}

impl StateView {
    /// The state keeps its bounds, its revision is one that everyone can read,
    /// and the snapshots are sound.
    pub open spec fn wf(self) -> bool {
        &&& self.limits.wf()
        &&& sorted(self.processes)
        &&& sorted(self.port_bindings)
        &&& self.processes.len() <= self.limits.maximum_processes
        &&& self.port_bindings.len() <= self.limits.maximum_port_bindings
        &&& total_bytes(self.processes) + total_bytes(self.port_bindings)
            <= self.limits.maximum_total_entity_bytes
        &&& self.revision <= self.limits.maximum_safe_revision
        &&& sessions_wf(self.sessions)
        &&& self.sessions.len() <= MAX_SNAPSHOT_SESSIONS
        &&& pinned_bytes(self.sessions) <= 2 * self.limits.maximum_total_entity_bytes
    }
}

/// The refusal of a change where no revision is left.
pub open spec fn revisions_exhausted(revision: u64, maximum: u64) -> ErrorView {
    plain_error(
        ErrorCode::Conflict,
        "Supervisor revision space is exhausted"@,
    ).with("currentRevision"@, decimal_text(revision as nat)).with(
        "maximumSafeRevision"@,
        decimal_text(maximum as nat),
    )
}

/// The refusal of a change that a state cannot take.
pub open spec fn process_refusal(
    state: StateView,
    delta: ProcessDelta,
    checks: Seq<EntityChecks>,
) -> Option<ErrorView> {
    let refusal = delta_refusal(
        "process"@,
        delta,
        checks,
        state.limits.maximum_entity_bytes as nat,
    );
    if refusal is Some {
        refusal
    } else {
        capacity_refusal(
            "process"@,
            upserts_count(state.processes, delta),
            state.limits.maximum_processes as nat,
            upserts_bytes(state.processes, delta) + total_bytes(state.port_bindings),
            state.limits.maximum_total_entity_bytes as nat,
        )
    }
}

/// The refusal of a change of the port bindings that a state cannot take. There
/// are no rules for a binding of its own.
pub open spec fn port_refusal(state: StateView, delta: PortDelta) -> Option<ErrorView> {
    let refusal = delta_refusal(
        "port"@,
        delta,
        Seq::empty(),
        state.limits.maximum_entity_bytes as nat,
    );
    if refusal is Some {
        refusal
    } else {
        capacity_refusal(
            "port"@,
            upserts_count(state.port_bindings, delta),
            state.limits.maximum_port_bindings as nat,
            upserts_bytes(state.port_bindings, delta) + total_bytes(state.processes),
            state.limits.maximum_total_entity_bytes as nat,
        )
    }
}

/// The entities of a change as the collections count them.
pub open spec fn as_reported<K: EntityKey>(upserted: Seq<Upserted<K>>) -> Seq<Reported<K>> {
    Seq::new(
        upserted.len(),
        |i: int|
            Reported {
                key: upserted[i].key,
                content: upserted[i].content,
                counted_bytes: (upserted[i].encoded_bytes
                    + SNAPSHOT_ENTITY_ACCOUNTING_SLACK_BYTES) as usize,
            },
    )
}

/// How many entities a collection holds after a change.
pub open spec fn upserts_count<K: EntityKey>(entities: Seq<Entity<K>>, delta: StateDelta<K>) -> int {
    count_after(entities, as_reported(delta.upserted@), delta.removed@)
}

/// How many bytes a collection is counted for after a change.
pub open spec fn upserts_bytes<K: EntityKey>(entities: Seq<Entity<K>>, delta: StateDelta<K>) -> int {
    bytes_after(entities, as_reported(delta.upserted@), delta.removed@)
}

/// What stands under a key after a change at a revision.
pub open spec fn after_delta<K: EntityKey>(
    entities: Seq<Entity<K>>,
    delta: StateDelta<K>,
    revision: u64,
    key: K::V,
) -> Option<EntityView> {
    changed(entities, as_reported(delta.upserted@), delta.removed@, revision, key)
}

/// What a change of the processes gives.
pub open spec fn process_delta_applied(
    before: StateView,
    delta: ProcessDelta,
    checks: Seq<EntityChecks>,
    now_ms: u64,
    result: Result<RevisionEvent, AppError>,
    after: StateView,
) -> bool {
    let refusal = process_refusal(before, delta, checks);
    match result {
        Ok(event) => {
            &&& refusal is None
            &&& event.revision == before.revision + 1
            &&& after.revision == event.revision
            &&& after.limits == before.limits
            &&& after.port_bindings == before.port_bindings
            &&& after.sessions == unexpired(before.sessions, now_ms)
            &&& forall|key: crate::run::KeyView| #[trigger]
                lookup(after.processes, key) == after_delta(
                    before.processes,
                    delta,
                    event.revision,
                    key,
                )
            &&& match event.change {
                RevisionChange::Process { upserted, removed } => upserted@
                    == as_reported(delta.upserted@) && removed == delta.removed,
                _ => false,
            }
        },
        Err(error) => if refusal is Some {
            refusal == Some(error@) && after == before
        } else {
            &&& before.revision == before.limits.maximum_safe_revision
            &&& error@ == revisions_exhausted(
                before.revision,
                before.limits.maximum_safe_revision,
            )
            &&& after == (StateView {
                sessions: unexpired(before.sessions, now_ms),
                ..before
            })
        },
    }
}

/// What a change of the port bindings gives.
pub open spec fn port_delta_applied(
    before: StateView,
    delta: PortDelta,
    now_ms: u64,
    result: Result<RevisionEvent, AppError>,
    after: StateView,
) -> bool {
    let refusal = port_refusal(before, delta);
    match result {
        Ok(event) => {
            &&& refusal is None
            &&& event.revision == before.revision + 1
            &&& after.revision == event.revision
            &&& after.limits == before.limits
            &&& after.processes == before.processes
            &&& after.sessions == unexpired(before.sessions, now_ms)
            &&& forall|key: crate::keys::PortKeyView| #[trigger]
                lookup(after.port_bindings, key) == after_delta(
                    before.port_bindings,
                    delta,
                    event.revision,
                    key,
                )
            &&& match event.change {
                RevisionChange::Port { upserted, removed } => upserted@
                    == as_reported(delta.upserted@) && removed == delta.removed,
                _ => false,
            }
        },
        Err(error) => if refusal is Some {
            refusal == Some(error@) && after == before
        } else {
            &&& before.revision == before.limits.maximum_safe_revision
            &&& error@ == revisions_exhausted(
                before.revision,
                before.limits.maximum_safe_revision,
            )
            &&& after == (StateView {
                sessions: unexpired(before.sessions, now_ms),
                ..before
            })
        },
    }
}

/// What a batch of logs gives.
pub open spec fn log_batch_applied(
    before: StateView,
    batch: u64,
    checked: Result<(), AppError>,
    result: Result<RevisionEvent, AppError>,
    after: StateView,
) -> bool {
    match result {
        Ok(event) => {
            &&& checked is Ok
            &&& event == (RevisionEvent {
                revision: (before.revision + 1) as u64,
                change: RevisionChange::Log { batch },
            })
            &&& before.revision < before.limits.maximum_safe_revision
            &&& after == (StateView { revision: event.revision, ..before })
        },
        Err(error) => {
            &&& after == before
            &&& match checked {
                Err(refusal) => error == refusal,
                Ok(_) => {
                    &&& before.revision == before.limits.maximum_safe_revision
                    &&& error@ == revisions_exhausted(
                        before.revision,
                        before.limits.maximum_safe_revision,
                    )
                },
            }
        },
    }
}

proof fn lemma_as_reported<K: EntityKey>(reported: Seq<Reported<K>>, upserted: Seq<Upserted<K>>)
    requires
        counted_entities(reported, upserted),
    ensures
        reported == as_reported(upserted),
{
    assert(reported =~= as_reported(upserted)) by {
        assert forall|i: int| 0 <= i < reported.len() implies reported[i] == as_reported(
            upserted,
        )[i] by {
            assert(counts_as(reported[i], upserted[i]));
        }
    }
}

impl RevisionState {
    pub closed spec fn tables_wf(self) -> bool {
        self.processes.wf() && self.port_bindings.wf()
    }

    /// What every operation keeps.
    pub open spec fn wf(self) -> bool {
        self.tables_wf() && self@.wf()
    }

    pub fn new(limits: SnapshotLimits) -> (state: Self)
        requires
            limits.wf(),
        ensures
            state.wf(),
            state@.limits == limits,
            state@.processes == Seq::<Entity<ProcessInstanceKey>>::empty(),
            state@.port_bindings == Seq::<Entity<PortBindingKey>>::empty(),
            state@.sessions == Seq::<FrozenSnapshotSession>::empty(),
            state@.revision == 0,
    {
        RevisionState {
            limits,
            processes: Collection::new(),
            port_bindings: Collection::new(),
            sessions: Vec::new(),
            current_revision: 0,
        }
    }

    pub fn current_revision(&self) -> (revision: u64)
        ensures
            revision == self@.revision,
    {
        self.current_revision
    }

    /// The revision of the next change.
    fn next_revision(&self) -> (result: Result<u64, AppError>)
        requires
            self.wf(),
        ensures
            match result {
                Ok(revision) => self@.revision < self@.limits.maximum_safe_revision && revision
                    == self@.revision + 1,
                Err(error) => self@.revision == self@.limits.maximum_safe_revision && error@
                    == revisions_exhausted(
                    self@.revision,
                    self@.limits.maximum_safe_revision,
                ),
            },
    {
        if self.current_revision >= self.limits.maximum_safe_revision {
            return Err(
                AppError::new(
                    ErrorCode::Conflict,
                    "Supervisor revision space is exhausted",
                ).with_detail(
                    "currentRevision",
                    decimal(self.current_revision).as_str(),
                ).with_detail(
                    "maximumSafeRevision",
                    decimal(self.limits.maximum_safe_revision).as_str(),
                ),
            );
        }
        Ok(self.current_revision + 1)
    }

    /// Lets the snapshots go that are no longer kept.
    fn purge_expired_snapshot_sessions(&mut self, now_ms: u64)
        requires
            old(self).wf(),
        ensures
            final(self).wf(),
            final(self)@ == (StateView {
                sessions: unexpired(old(self)@.sessions, now_ms),
                ..old(self)@
            }),
    {
        let total: usize = self.sessions.len();
        let ghost all = self.sessions@;
        let mut kept: Vec<FrozenSnapshotSession> = Vec::new();
        let mut i: usize = 0;
        assert(all.subrange(0, 0) =~= Seq::empty());
        assert(all.subrange(0, all.len() as int) =~= all);
        while i < total
            invariant
                self.tables_wf(),
                self.limits == old(self).limits,
                self.processes == old(self).processes,
                self.port_bindings == old(self).port_bindings,
                self.current_revision == old(self).current_revision,
                all == old(self).sessions@,
                total == all.len(),
                i <= total,
                self.sessions@ == all.subrange(i as int, total as int),
                kept@ == unexpired(all.subrange(0, i as int), now_ms),
            decreases total - i,
        {
            let session = self.sessions.remove(0);
            proof {
                let longer = all.subrange(0, i + 1);
                assert(longer.drop_last() =~= all.subrange(0, i as int));
                assert(longer.last() == session);
                assert(self.sessions@ =~= all.subrange(i + 1, total as int));
            }
            let idle: u64 = now_ms.saturating_sub(session.last_accessed_at_ms);
            let age: u64 = now_ms.saturating_sub(session.created_at_ms);
            if idle <= SNAPSHOT_SESSION_IDLE_TIMEOUT_MS && age <= SNAPSHOT_SESSION_MAX_LIFETIME_MS {
                kept.push(session);
            }
            i += 1;
        }
        assert(all.subrange(0, total as int) =~= all);
        proof {
            lemma_unexpired(all, now_ms);
        }
        self.sessions = kept;
    }

    /// Takes a change of the processes in, with what the rules for processes say
    /// of each that is upserted. A change that is refused leaves the
    /// state as it is, but for snapshots that are no longer kept.
    pub fn apply_process_delta(
        &mut self,
        delta: ProcessDelta,
        checks: Vec<EntityChecks>,
        now_ms: u64,
    ) -> (result: Result<RevisionEvent, AppError>)
        requires
            old(self).wf(),
            checks@.len() == delta.upserted@.len(),
            delta.upserted@.len() + delta.removed@.len() <= usize::MAX,
        ensures
            final(self).wf(),
            process_delta_applied(old(self)@, delta, checks@, now_ms, result, final(self)@),
    {
        let (upserted, removed) = match admit_delta(
            "process",
            delta,
            &checks,
            self.limits.maximum_entity_bytes,
        ) {
            Ok(pair) => pair,
            Err(error) => return Err(error),
        };
        proof {
            lemma_as_reported(upserted@, delta.upserted@);
            lemma_delta_fits(upserted@, self.limits);
        }
        let (count, bytes) = self.processes.project(&upserted, &removed);
        match validate_snapshot_state_capacity(
            "process",
            count,
            self.limits.maximum_processes,
            bytes,
            self.port_bindings.counted_bytes(),
            self.limits.maximum_total_entity_bytes,
        ) {
            Ok(_) => {},
            Err(error) => return Err(error),
        }
        self.purge_expired_snapshot_sessions(now_ms);
        let revision = match self.next_revision() {
            Ok(revision) => revision,
            Err(error) => return Err(error),
        };
        self.processes.apply(&upserted, &removed, revision);
        self.current_revision = revision;
        proof {
            self.processes.lemma_wf();
        }
        Ok(RevisionEvent { revision, change: RevisionChange::Process { upserted, removed } })
    }

    /// Takes a change of the port bindings in.
    pub fn apply_port_delta(&mut self, delta: PortDelta, now_ms: u64) -> (result: Result<
        RevisionEvent,
        AppError,
    >)
        requires
            old(self).wf(),
            delta.upserted@.len() + delta.removed@.len() <= usize::MAX,
        ensures
            final(self).wf(),
            port_delta_applied(old(self)@, delta, now_ms, result, final(self)@),
    {
        let checks: Vec<EntityChecks> = Vec::new();
        assert(checks@ =~= Seq::empty());
        let (upserted, removed) = match admit_delta(
            "port",
            delta,
            &checks,
            self.limits.maximum_entity_bytes,
        ) {
            Ok(pair) => pair,
            Err(error) => return Err(error),
        };
        proof {
            lemma_as_reported(upserted@, delta.upserted@);
            lemma_delta_fits(upserted@, self.limits);
        }
        let (count, bytes) = self.port_bindings.project(&upserted, &removed);
        match validate_snapshot_state_capacity(
            "port",
            count,
            self.limits.maximum_port_bindings,
            bytes,
            self.processes.counted_bytes(),
            self.limits.maximum_total_entity_bytes,
        ) {
            Ok(_) => {},
            Err(error) => return Err(error),
        }
        self.purge_expired_snapshot_sessions(now_ms);
        let revision = match self.next_revision() {
            Ok(revision) => revision,
            Err(error) => return Err(error),
        };
        self.port_bindings.apply(&upserted, &removed, revision);
        self.current_revision = revision;
        proof {
            self.port_bindings.lemma_wf();
        }
        Ok(RevisionEvent { revision, change: RevisionChange::Port { upserted, removed } })
    }

    /// Gives the next revision to a batch of logs, which is not part of the
    /// state; `checked` is what the rules for batches say of it.
    pub fn apply_log_batch(&mut self, batch: u64, checked: Result<(), AppError>) -> (result: Result<
        RevisionEvent,
        AppError,
    >)
        requires
            old(self).wf(),
        ensures
            final(self).wf(),
            log_batch_applied(old(self)@, batch, checked, result, final(self)@),
    {
        match checked {
            Ok(_) => {},
            Err(error) => return Err(error),
        }
        match self.next_revision() {
            Ok(revision) => {
                self.current_revision = revision;
                Ok(RevisionEvent { revision, change: RevisionChange::Log { batch } })
            },
            Err(error) => Err(error),
        }
    }
}

proof fn lemma_delta_fits<K>(reported: Seq<Reported<K>>, limits: SnapshotLimits)
    requires
        limits.wf(),
        reported.len() <= MAX_REVISION_DELTA_ENTITIES,
        reported_bytes(reported) <= reported.len() * limits.maximum_entity_bytes,
    ensures
        limits.maximum_total_entity_bytes + reported_bytes(reported) <= usize::MAX,
{
    assert(reported.len() * limits.maximum_entity_bytes <= MAX_REVISION_DELTA_ENTITIES
        * limits.maximum_entity_bytes) by (nonlinear_arith)
        requires
            reported.len() <= MAX_REVISION_DELTA_ENTITIES,
    ;
}

/// The refusal of a snapshot that starts at a revision which is not there.
pub open spec fn start_refusal(state: StateView, starting_revision: u64) -> Option<ErrorView> {
    if starting_revision > state.limits.maximum_safe_revision {
        Some(
            plain_error(
                ErrorCode::InvalidArgument,
                "snapshot starting revision exceeds the JavaScript-safe limit"@,
            ).with("startingRevision"@, decimal_text(starting_revision as nat)).with(
                "maximumSafeRevision"@,
                decimal_text(state.limits.maximum_safe_revision as nat),
            ),
        )
    } else if starting_revision > state.revision {
        Some(
            plain_error(
                ErrorCode::Conflict,
                "snapshot starting revision is ahead of Supervisor state"@,
            ).with("startingRevision"@, decimal_text(starting_revision as nat)).with(
                "currentRevision"@,
                decimal_text(state.revision as nat),
            ),
        )
    } else {
        None
    }
}

/// Whether there is room for one more snapshot of the state.
pub open spec fn has_snapshot_room(state: StateView) -> bool {
    &&& state.sessions.len() < MAX_SNAPSHOT_SESSIONS
    &&& total_bytes(state.processes) + total_bytes(state.port_bindings) + pinned_bytes(
        state.sessions,
    ) <= 2 * state.limits.maximum_total_entity_bytes
}

/// The refusal of a snapshot for which there is no room.
pub open spec fn snapshots_exhausted(maximum_total_entity_bytes: nat) -> ErrorView {
    plain_error(
        ErrorCode::Conflict,
        "the frozen snapshot resource capacity is currently exhausted"@,
    ).retry().with("maximumSessions"@, decimal_text(MAX_SNAPSHOT_SESSIONS as nat)).with(
        "maximumPinnedEntityBytes"@,
        decimal_text(2 * maximum_total_entity_bytes),
    )
}

/// The refusal of a cursor of a snapshot that is no longer kept.
pub open spec fn session_unavailable(snapshot_id: Seq<char>) -> ErrorView {
    plain_error(
        ErrorCode::Conflict,
        "the frozen snapshot session is no longer available"@,
    ).retry().with("snapshotId"@, snapshot_id)
}

/// A new snapshot is a copy of the state as it is.
pub open spec fn freezes(
    session: FrozenSnapshotSession,
    state: StateView,
    starting_revision: u64,
    now_ms: u64,
) -> bool {
    &&& session.wf()
    &&& session.pages@.len() == 0
    &&& session.starting_revision == starting_revision
    &&& session.revision == state.revision
    &&& crate::snapshot::is_span(
        session.processes@,
        state.processes,
        0,
        state.processes.len() as int,
    )
    &&& crate::snapshot::is_span(
        session.port_bindings@,
        state.port_bindings,
        0,
        state.port_bindings.len() as int,
    )
    &&& session.total_entity_bytes == total_bytes(state.processes) + total_bytes(
        state.port_bindings,
    )
    &&& session.created_at_ms == now_ms
    &&& session.last_accessed_at_ms == now_ms
    &&& !has_session(state.sessions, session.snapshot_id@)
}

proof fn lemma_pinned_start(sessions: Seq<FrozenSnapshotSession>, end: int)
    requires
        0 <= end <= sessions.len(),
    ensures
        pinned_bytes(sessions.subrange(0, end)) <= pinned_bytes(sessions),
    decreases sessions.len(),
{
    if end < sessions.len() {
        lemma_pinned_start(sessions.drop_last(), end);
        assert(sessions.drop_last().subrange(0, end) =~= sessions.subrange(0, end));
    } else {
        assert(sessions.subrange(0, end) =~= sessions);
    }
}

/// What a cursor asks for.
#[derive(Debug)]
pub enum ContinuedSnapshot {
    /// A page that was handed out before.
    Issued(SystemSnapshot),
    /// The next page of the snapshot at a place.
    NextPage(usize),
}

/// What a request for a snapshot asks for.
#[derive(Debug)]
pub enum RequestedSnapshot {
    /// A new snapshot, of which no page has been made.
    Started(FrozenSnapshotSession),
    Continued(ContinuedSnapshot),
}

/// The place of a snapshot.
pub open spec fn session_place(sessions: Seq<FrozenSnapshotSession>, id: Seq<char>, place: int) -> bool {
    0 <= place < sessions.len() && sessions[place].snapshot_id@ == id
}

/// Why a cursor is refused that names a snapshot which is kept.
pub open spec fn continuation_fault(
    session: FrozenSnapshotSession,
    starting_revision: u64,
    chunk_index: u32,
) -> Option<Seq<char>> {
    if session.starting_revision != starting_revision {
        Some("does not belong to the requested startingRevision"@)
    } else if chunk_index > session.pages@.len() {
        Some("skips an unissued snapshot chunk"@)
    } else if chunk_index == session.pages@.len() && session.is_complete() {
        Some("continues a completed snapshot"@)
    } else {
        None
    }
}

impl RevisionState {
    fn validate_snapshot_start(&self, starting_revision: u64) -> (result: Result<(), AppError>)
        ensures
            match result {
                Ok(_) => start_refusal(self@, starting_revision) is None,
                Err(error) => start_refusal(self@, starting_revision) == Some(error@),
            },
    {
        if starting_revision > self.limits.maximum_safe_revision {
            return Err(
                AppError::new(
                    ErrorCode::InvalidArgument,
                    "snapshot starting revision exceeds the JavaScript-safe limit",
                ).with_detail(
                    "startingRevision",
                    decimal(starting_revision).as_str(),
                ).with_detail(
                    "maximumSafeRevision",
                    decimal(self.limits.maximum_safe_revision).as_str(),
                ),
            );
        }
        if starting_revision > self.current_revision {
            return Err(
                AppError::new(
                    ErrorCode::Conflict,
                    "snapshot starting revision is ahead of Supervisor state",
                ).with_detail(
                    "startingRevision",
                    decimal(starting_revision).as_str(),
                ).with_detail("currentRevision", decimal(self.current_revision).as_str()),
            );
        }
        Ok(())
    }

    /// Whether there is room for a snapshot of a number of bytes.
    fn reserve_snapshot_session_slot(&self, required: usize) -> (result: Result<(), AppError>)
        requires
            self.wf(),
            required == total_bytes(self@.processes) + total_bytes(self@.port_bindings),
        ensures
            match result {
                Ok(_) => has_snapshot_room(self@),
                Err(error) => !has_snapshot_room(self@) && error@ == snapshots_exhausted(
                    self@.limits.maximum_total_entity_bytes as nat,
                ),
            },
    {
        let maximum: usize = 2 * self.limits.maximum_total_entity_bytes;
        if self.sessions.len() < MAX_SNAPSHOT_SESSIONS {
            let mut pinned: usize = 0;
            let mut i: usize = 0;
            assert(self.sessions@.subrange(0, 0) =~= Seq::empty());
            while i < self.sessions.len()
                invariant
                    self.wf(),
                    i <= self.sessions@.len(),
                    pinned == pinned_bytes(self.sessions@.subrange(0, i as int)),
                    pinned <= 2 * self.limits.maximum_total_entity_bytes,
                decreases self.sessions@.len() - i,
            {
                proof {
                    let longer = self.sessions@.subrange(0, i + 1);
                    assert(longer.drop_last() =~= self.sessions@.subrange(0, i as int));
                    assert(longer.last() == self.sessions@[i as int]);
                    lemma_pinned_start(self.sessions@, i + 1);
                }
                pinned += self.sessions[i].total_entity_bytes;
                i += 1;
            }
            assert(self.sessions@.subrange(0, self.sessions@.len() as int) =~= self.sessions@);
            if required <= maximum - pinned {
                return Ok(());
            }
        }
        Err(
            AppError::new(
                ErrorCode::Conflict,
                "the frozen snapshot resource capacity is currently exhausted",
            ).as_retryable().with_detail(
                "maximumSessions",
                decimal(MAX_SNAPSHOT_SESSIONS as u64).as_str(),
            ).with_detail("maximumPinnedEntityBytes", decimal(maximum as u64).as_str()),
        )
    }

    /// The place of a snapshot.
    fn find_session(&self, snapshot_id: &str) -> (place: Option<usize>)
        ensures
            match place {
                Some(i) => session_place(self@.sessions, snapshot_id@, i as int),
                None => !has_session(self@.sessions, snapshot_id@),
            },
    {
        let mut i: usize = 0;
        while i < self.sessions.len()
            invariant
                i <= self.sessions@.len(),
                forall|k: int|
                    0 <= k < i ==> (#[trigger] self.sessions@[k]).snapshot_id@ != snapshot_id@,
            decreases self.sessions@.len() - i,
        {
            if same_text(self.sessions[i].snapshot_id.as_str(), snapshot_id) {
                return Some(i);
            }
            i += 1;
        }
        None
    }

    /// A name that no snapshot has. The names are drawn at random, so what they
    /// are is left open.
    fn allocate_snapshot_id(&self) -> (result: Result<String, AppError>)
        ensures
            match result {
                Ok(id) => !has_session(self@.sessions, id@) && is_snapshot_id(id@),
                Err(error) => error@ == plain_error(
                    ErrorCode::Internal,
                    "failed to generate an opaque snapshot identifier"@,
                ) || error@ == plain_error(
                    ErrorCode::Internal,
                    "failed to allocate a unique snapshot identifier"@,
                ),
            },
    {
        let mut attempt: usize = 0;
        while attempt < MAX_SNAPSHOT_SESSIONS
            decreases MAX_SNAPSHOT_SESSIONS - attempt,
        {
            let bytes = match random_array::<16>() {
                Ok(bytes) => bytes,
                Err(_) => {
                    return Err(
                        snapshot_internal_error("failed to generate an opaque snapshot identifier"),
                    );
                },
            };
            let id = encode_lower_hex(bytes.as_slice());
            assert(id@ == lower_hex(bytes@));
            if self.find_session(id.as_str()).is_none() {
                return Ok(id);
            }
            attempt += 1;
        }
        Err(snapshot_internal_error("failed to allocate a unique snapshot identifier"))
    }

    /// Freezes the state for a new snapshot under a name that is not taken.
    fn freeze_state(&self, snapshot_id: String, starting_revision: u64, now_ms: u64) -> (session:
        FrozenSnapshotSession)
        requires
            self.wf(),
            !has_session(self@.sessions, snapshot_id@),
            is_snapshot_id(snapshot_id@),
        ensures
            freezes(session, self@, starting_revision, now_ms),
            session.snapshot_id == snapshot_id,
    {
        proof {
            self.processes.lemma_wf();
            self.port_bindings.lemma_wf();
        }
        FrozenSnapshotSession {
            snapshot_id,
            starting_revision,
            revision: self.current_revision,
            processes: self.processes.freeze(),
            port_bindings: self.port_bindings.freeze(),
            total_entity_bytes: self.processes.counted_bytes()
                + self.port_bindings.counted_bytes(),
            pages: Vec::new(),
            created_at_ms: now_ms,
            last_accessed_at_ms: now_ms,
        }
    }

    /// Begins a snapshot of the state. It is kept once its first page has been
    /// made.
    pub fn start_snapshot_session(&mut self, starting_revision: u64, now_ms: u64) -> (result: Result<
        FrozenSnapshotSession,
        AppError,
    >)
        requires
            old(self).wf(),
        ensures
            final(self).wf(),
            final(self)@ == without_expired(old(self)@, now_ms),
            snapshot_started(final(self)@, starting_revision, now_ms, result),
    {
        self.purge_expired_snapshot_sessions(now_ms);
        match self.validate_snapshot_start(starting_revision) {
            Ok(_) => {},
            Err(error) => return Err(error),
        }
        let total: usize = self.processes.counted_bytes() + self.port_bindings.counted_bytes();
        match self.reserve_snapshot_session_slot(total) {
            Ok(_) => {},
            Err(error) => return Err(error),
        }
        match self.allocate_snapshot_id() {
            Ok(snapshot_id) => Ok(self.freeze_state(snapshot_id, starting_revision, now_ms)),
            Err(error) => Err(error),
        }
    }

    /// Keeps a new snapshot, once its first page fits as it is encoded.
    pub fn keep_snapshot(
        &mut self,
        session: FrozenSnapshotSession,
        page: SnapshotPage,
        encoded_bytes: usize,
    ) -> (result: Result<SystemSnapshot, AppError>)
        requires
            old(self).wf(),
            has_snapshot_room(old(self)@),
            session.wf(),
            session.pages@.len() == 0,
            session.total_entity_bytes == total_bytes(old(self)@.processes) + total_bytes(
                old(self)@.port_bindings,
            ),
            !has_session(old(self)@.sessions, session.snapshot_id@),
            page.lies_in(session),
            page.entities() <= MAX_SNAPSHOT_CHUNK_ENTITIES,
            page.process_start == 0,
            page.port_start == 0,
        ensures
            final(self).wf(),
            snapshot_kept(old(self)@, session, page, encoded_bytes, result, final(self)@),
    {
        match check_chunk_bytes(encoded_bytes) {
            Ok(_) => {},
            Err(error) => return Err(error),
        }
        let shown = match make_snapshot_page_response(&session, 0, &page) {
            Ok(shown) => shown,
            Err(error) => return Err(error),
        };
        let ghost before = self.sessions@;
        let mut session = session;
        session.pages.push(page);
        self.sessions.push(session);
        proof {
            let after = self.sessions@;
            assert(after.drop_last() =~= before);
            assert(session.pages@ =~= seq![page]);
            assert(session.pages@[0].lies_in(session));
            assert(session.wf());
            assert forall|i: int| 0 <= i < after.len() implies (#[trigger] after[i]).wf()
                && after[i].pages@.len() > 0 by {
                if i < before.len() {
                    assert(before[i].wf());
                }
            }
            assert forall|i: int, j: int| 0 <= i < j < after.len() implies (
            #[trigger] after[i]).snapshot_id@ != (#[trigger] after[j]).snapshot_id@ by {
                if j < before.len() {
                    assert(before[i].snapshot_id@ != before[j].snapshot_id@);
                } else {
                    assert(before[i].snapshot_id@ != session.snapshot_id@);
                }
            }
        }
        Ok(shown)
    }

    /// A snapshot that is kept.
    pub fn session(&self, place: usize) -> (session: &FrozenSnapshotSession)
        requires
            place < self@.sessions.len(),
        ensures
            *session == self@.sessions[place as int],
    {
        &self.sessions[place]
    }

    /// Goes on with a snapshot. A page that was handed out is handed out again
    /// as it was; the next one has to be made.
    pub fn continue_snapshot_session(
        &mut self,
        starting_revision: u64,
        cursor: &str,
        now_ms: u64,
    ) -> (result: Result<ContinuedSnapshot, AppError>)
        requires
            old(self).wf(),
        ensures
            final(self).wf(),
            snapshot_continued(
                without_expired(old(self)@, now_ms),
                starting_revision,
                cursor@,
                now_ms,
                result,
                final(self)@,
            ),
    {
        self.purge_expired_snapshot_sessions(now_ms);
        let (snapshot_id, chunk_index) = match parse_snapshot_cursor(cursor) {
            Ok(pair) => pair,
            Err(error) => return Err(error),
        };
        assert(cursor_text(snapshot_id@, chunk_index) == cursor@);
        let place = match self.find_session(snapshot_id.as_str()) {
            Some(place) => place,
            None => {
                return Err(
                    AppError::new(
                        ErrorCode::Conflict,
                        "the frozen snapshot session is no longer available",
                    ).as_retryable().with_detail("snapshotId", snapshot_id.as_str()),
                );
            },
        };
        let ghost kept = self.sessions@;
        proof {
            assert(kept[place as int].wf());
            assert(has_session(kept, snapshot_id@));
        }
        let session = &self.sessions[place];
        if session.starting_revision != starting_revision {
            return Err(
                invalid_snapshot_cursor("does not belong to the requested startingRevision"),
            );
        }
        let index: usize = chunk_index as usize;
        if index > session.pages.len() {
            return Err(invalid_snapshot_cursor("skips an unissued snapshot chunk"));
        }
        if index == session.pages.len() {
            if !session.pages[index - 1].has_more {
                return Err(invalid_snapshot_cursor("continues a completed snapshot"));
            }
            return Ok(ContinuedSnapshot::NextPage(place));
        }
        let page = session.pages[index];
        assert(session.pages@[index as int].lies_in(*session));
        let shown = match make_snapshot_page_response(session, chunk_index, &page) {
            Ok(shown) => shown,
            Err(error) => return Err(error),
        };
        self.touch_session(place, now_ms);
        Ok(ContinuedSnapshot::Issued(shown))
    }

    /// What a request for a snapshot gives: without a cursor a snapshot is
    /// begun, and with one it is gone on with.
    pub fn get_snapshot(
        &mut self,
        starting_revision: u64,
        cursor: Option<&str>,
        now_ms: u64,
    ) -> (result: Result<RequestedSnapshot, AppError>)
        requires
            old(self).wf(),
        ensures
            final(self).wf(),
            match cursor {
                None => {
                    &&& final(self)@ == without_expired(old(self)@, now_ms)
                    &&& match result {
                        Ok(RequestedSnapshot::Started(session)) => snapshot_started(
                            final(self)@,
                            starting_revision,
                            now_ms,
                            Ok(session),
                        ),
                        Ok(RequestedSnapshot::Continued(_)) => false,
                        Err(error) => snapshot_started(
                            final(self)@,
                            starting_revision,
                            now_ms,
                            Err(error),
                        ),
                    }
                },
                Some(cursor) => match result {
                    Ok(RequestedSnapshot::Started(_)) => false,
                    Ok(RequestedSnapshot::Continued(page)) => snapshot_continued(
                        without_expired(old(self)@, now_ms),
                        starting_revision,
                        cursor@,
                        now_ms,
                        Ok(page),
                        final(self)@,
                    ),
                    Err(error) => snapshot_continued(
                        without_expired(old(self)@, now_ms),
                        starting_revision,
                        cursor@,
                        now_ms,
                        Err(error),
                        final(self)@,
                    ),
                },
            },
    {
        match cursor {
            None => match self.start_snapshot_session(starting_revision, now_ms) {
                Ok(session) => Ok(RequestedSnapshot::Started(session)),
                Err(error) => Err(error),
            },
            Some(cursor) => match self.continue_snapshot_session(
                starting_revision,
                cursor,
                now_ms,
            ) {
                Ok(page) => Ok(RequestedSnapshot::Continued(page)),
                Err(error) => Err(error),
            },
        }
    }

    /// Notes that a snapshot was asked for.
    fn touch_session(&mut self, place: usize, now_ms: u64)
        requires
            old(self).wf(),
            place < old(self)@.sessions.len(),
        ensures
            final(self).wf(),
            final(self)@ == (StateView {
                sessions: old(self)@.sessions.update(
                    place as int,
                    (FrozenSnapshotSession {
                        last_accessed_at_ms: now_ms,
                        ..old(self)@.sessions[place as int]
                    }),
                ),
                ..old(self)@
            }),
    {
        let ghost before = self.sessions@;
        let mut session = self.sessions.remove(place);
        session.last_accessed_at_ms = now_ms;
        proof {
            assert(before[place as int].wf());
            lemma_same_session(before[place as int], session);
        }
        self.sessions.insert(place, session);
        proof {
            assert(self.sessions@ =~= before.update(place as int, session));
            lemma_updated(before, place as int, session);
        }
    }

    /// Hands the next page of a snapshot out, once it fits as it is encoded.
    pub fn issue_page(
        &mut self,
        place: usize,
        page: SnapshotPage,
        encoded_bytes: usize,
        now_ms: u64,
    ) -> (result: Result<SystemSnapshot, AppError>)
        requires
            old(self).wf(),
            place < old(self)@.sessions.len(),
            ({
                let session = old(self)@.sessions[place as int];
                &&& !session.is_complete()
                &&& session.pages@.len() < u32::MAX
                &&& page.lies_in(session)
                &&& page.entities() <= MAX_SNAPSHOT_CHUNK_ENTITIES
                &&& (page.process_start as int, page.port_start as int) == session.next_start()
            }),
        ensures
            final(self).wf(),
            page_issued(
                old(self)@,
                place as int,
                page,
                encoded_bytes,
                now_ms,
                result,
                final(self)@,
            ),
    {
        match check_chunk_bytes(encoded_bytes) {
            Ok(_) => {},
            Err(error) => return Err(error),
        }
        let chunk_index: u32 = self.sessions[place].pages.len() as u32;
        let shown = match make_snapshot_page_response(&self.sessions[place], chunk_index, &page) {
            Ok(shown) => shown,
            Err(error) => return Err(error),
        };
        let ghost before = self.sessions@;
        let ghost session = before[place as int];
        let mut next = self.sessions.remove(place);
        next.pages.push(page);
        next.last_accessed_at_ms = now_ms;
        proof {
            assert(session.wf());
            assert(next.pages@ =~= session.pages@.push(page));
            assert forall|i: int| 0 <= i < next.pages@.len() implies (
            #[trigger] next.pages@[i]).lies_in(next) by {
                if i < session.pages@.len() {
                    assert(session.pages@[i].lies_in(session));
                }
            }
            assert forall|i: int| 0 < i < next.pages@.len() implies (
            #[trigger] next.pages@[i]).process_start == next.pages@[i - 1].process_end
                && next.pages@[i].port_start == next.pages@[i - 1].port_end by {
                if i < session.pages@.len() {
                    assert(session.pages@[i].process_start == session.pages@[i - 1].process_end);
                }
            }
            assert forall|i: int| 0 <= i < next.pages@.len() - 1 implies (
            #[trigger] next.pages@[i]).has_more by {
                if i < session.pages@.len() - 1 {
                    assert(session.pages@[i].has_more);
                }
            }
            assert(next.wf());
        }
        self.sessions.insert(place, next);
        proof {
            assert(self.sessions@ =~= before.update(place as int, next));
            lemma_updated(before, place as int, next);
        }
        Ok(shown)
    }
}

/// The state without the snapshots that nobody has asked for in time.
pub open spec fn without_expired(state: StateView, now_ms: u64) -> StateView {
    StateView { sessions: unexpired(state.sessions, now_ms), ..state }
}

/// What beginning a snapshot gives.
pub open spec fn snapshot_started(
    state: StateView,
    starting_revision: u64,
    now_ms: u64,
    result: Result<FrozenSnapshotSession, AppError>,
) -> bool {
    match result {
        Ok(session) => {
            &&& start_refusal(state, starting_revision) is None
            &&& has_snapshot_room(state)
            &&& freezes(session, state, starting_revision, now_ms)
        },
        Err(error) => if start_refusal(state, starting_revision) is Some {
            start_refusal(state, starting_revision) == Some(error@)
        } else if !has_snapshot_room(state) {
            error@ == snapshots_exhausted(state.limits.maximum_total_entity_bytes as nat)
        } else {
            error@ == plain_error(
                ErrorCode::Internal,
                "failed to generate an opaque snapshot identifier"@,
            ) || error@ == plain_error(
                ErrorCode::Internal,
                "failed to allocate a unique snapshot identifier"@,
            )
        },
    }
}

/// What keeping a new snapshot with its first page gives.
pub open spec fn snapshot_kept(
    state: StateView,
    session: FrozenSnapshotSession,
    page: SnapshotPage,
    encoded_bytes: usize,
    result: Result<SystemSnapshot, AppError>,
    after: StateView,
) -> bool {
    match result {
        Ok(shown) => {
            let kept = after.sessions.last();
            &&& encoded_bytes <= MAX_SNAPSHOT_CHUNK_PAYLOAD_BYTES
            &&& counts_refusal(session) is None
            &&& shows_page(shown, session, 0, page)
            &&& after.sessions.len() == state.sessions.len() + 1
            &&& after == (StateView { sessions: state.sessions.push(kept), ..state })
            &&& kept.pages@ == seq![page]
            &&& kept == (FrozenSnapshotSession { pages: kept.pages, ..session })
        },
        Err(error) => {
            &&& after == state
            &&& if encoded_bytes > MAX_SNAPSHOT_CHUNK_PAYLOAD_BYTES {
                error@ == chunk_too_large(encoded_bytes as nat)
            } else {
                counts_refusal(session) == Some(error@)
            }
        },
    }
}

/// What handing the next page of the snapshot at a place out gives.
pub open spec fn page_issued(
    state: StateView,
    place: int,
    page: SnapshotPage,
    encoded_bytes: usize,
    now_ms: u64,
    result: Result<SystemSnapshot, AppError>,
    after: StateView,
) -> bool {
    let session = state.sessions[place];
    match result {
        Ok(shown) => {
            let extended = after.sessions[place];
            &&& encoded_bytes <= MAX_SNAPSHOT_CHUNK_PAYLOAD_BYTES
            &&& shows_page(shown, session, session.pages@.len() as u32, page)
            &&& extended.pages@ == session.pages@.push(page)
            &&& extended == (FrozenSnapshotSession {
                pages: extended.pages,
                last_accessed_at_ms: now_ms,
                ..session
            })
            &&& after == (StateView { sessions: state.sessions.update(place, extended), ..state })
        },
        Err(error) => {
            &&& after == state
            &&& encoded_bytes > MAX_SNAPSHOT_CHUNK_PAYLOAD_BYTES
            &&& error@ == chunk_too_large(encoded_bytes as nat)
        },
    }
}

/// What a cursor gives.
pub open spec fn snapshot_continued(
    state: StateView,
    starting_revision: u64,
    cursor: Seq<char>,
    now_ms: u64,
    result: Result<ContinuedSnapshot, AppError>,
    after: StateView,
) -> bool {
    if cursor_fault(cursor) is Some {
        result is Err && result->Err_0@ == invalid_cursor(cursor_fault(cursor)->0) && after
            == state
    } else {
        exists|id: Seq<char>, chunk_index: u32| #[trigger]
            cursor_text(id, chunk_index) == cursor && continues(
                state.sessions,
                starting_revision,
                id,
                chunk_index,
                now_ms,
                result,
                after.sessions,
            ) && after == (StateView { sessions: after.sessions, ..state })
    }
}

/// What going on with a snapshot gives.
pub open spec fn continues(
    kept: Seq<FrozenSnapshotSession>,
    starting_revision: u64,
    id: Seq<char>,
    chunk_index: u32,
    now_ms: u64,
    result: Result<ContinuedSnapshot, AppError>,
    after: Seq<FrozenSnapshotSession>,
) -> bool {
    if !has_session(kept, id) {
        result is Err && result->Err_0@ == session_unavailable(id) && after == kept
    } else {
        exists|place: int| #[trigger]
            session_place(kept, id, place) && {
                let session = kept[place];
                let fault = continuation_fault(session, starting_revision, chunk_index);
                if fault is Some {
                    result is Err && result->Err_0@ == invalid_cursor(fault->0) && after == kept
                } else if chunk_index == session.pages@.len() {
                    result is Ok && result->Ok_0 == ContinuedSnapshot::NextPage(place as usize)
                        && after == kept
                } else if counts_refusal(session) is Some {
                    result is Err && Some(result->Err_0@) == counts_refusal(session) && after
                        == kept
                } else {
                    &&& result is Ok
                    &&& result->Ok_0 is Issued
                    &&& shows_page(
                        result->Ok_0->Issued_0,
                        session,
                        chunk_index,
                        session.pages@[chunk_index as int],
                    )
                    &&& after == kept.update(
                        place,
                        (FrozenSnapshotSession { last_accessed_at_ms: now_ms, ..session }),
                    )
                }
            }
    }
}

/// Two pages show the same.
pub open spec fn same_page(first: SystemSnapshot, second: SystemSnapshot) -> bool {
    &&& first.snapshot_id@ == second.snapshot_id@
    &&& first.chunk_index == second.chunk_index
    &&& first.revision == second.revision
    &&& first.process_count == second.process_count
    &&& first.port_binding_count == second.port_binding_count
    &&& first.total_entity_bytes == second.total_entity_bytes
    &&& crate::snapshot::is_span(
        first.processes@,
        second.processes@,
        0,
        second.processes@.len() as int,
    )
    &&& crate::snapshot::is_span(
        first.port_bindings@,
        second.port_bindings@,
        0,
        second.port_bindings@.len() as int,
    )
    &&& optional_text(first.next_cursor) == optional_text(second.next_cursor)
}

/// A page is handed out again as it was, whatever has changed meanwhile and
/// however many pages have been handed out since.
pub proof fn lemma_page_is_handed_out_again(
    session: FrozenSnapshotSession,
    later: FrozenSnapshotSession,
    chunk_index: u32,
    first: SystemSnapshot,
    again: SystemSnapshot,
)
    requires
        later == (FrozenSnapshotSession {
            pages: later.pages,
            last_accessed_at_ms: later.last_accessed_at_ms,
            ..session
        }),
        session.pages@.is_prefix_of(later.pages@),
        chunk_index < session.pages@.len(),
        shows_page(first, session, chunk_index, session.pages@[chunk_index as int]),
        shows_page(again, later, chunk_index, later.pages@[chunk_index as int]),
    ensures
        same_page(first, again),
{
    let page = session.pages@[chunk_index as int];
    assert(later.pages@[chunk_index as int] == page);
    assert forall|i: int| 0 <= i < first.processes@.len() implies (
    #[trigger] first.processes@[i]).key.key() == again.processes@[0 + i].key.key()
        && first.processes@[i].says() == again.processes@[0 + i].says() by {
        let entity = again.processes@[i];
    }
    assert forall|i: int| 0 <= i < first.port_bindings@.len() implies (
    #[trigger] first.port_bindings@[i]).key.key() == again.port_bindings@[0 + i].key.key()
        && first.port_bindings@[i].says() == again.port_bindings@[0 + i].says() by {
        let entity = again.port_bindings@[i];
    }
}

proof fn lemma_same_session(before: FrozenSnapshotSession, after: FrozenSnapshotSession)
    requires
        before.wf(),
        after == (FrozenSnapshotSession {
            last_accessed_at_ms: after.last_accessed_at_ms,
            ..before
        }),
    ensures
        after.wf(),
{
    assert forall|i: int| 0 <= i < after.pages@.len() implies (#[trigger] after.pages@[i]).lies_in(
        after,
    ) by {
        assert(before.pages@[i].lies_in(before));
    }
}

proof fn lemma_updated(
    sessions: Seq<FrozenSnapshotSession>,
    place: int,
    session: FrozenSnapshotSession,
)
    requires
        sessions_wf(sessions),
        0 <= place < sessions.len(),
        session.wf(),
        session.pages@.len() > 0,
        counts_refusal(session) is None,
        session.snapshot_id == sessions[place].snapshot_id,
        session.total_entity_bytes == sessions[place].total_entity_bytes,
    ensures
        sessions_wf(sessions.update(place, session)),
        pinned_bytes(sessions.update(place, session)) == pinned_bytes(sessions),
{
    let after = sessions.update(place, session);
    assert forall|i: int| 0 <= i < after.len() implies (#[trigger] after[i]).wf()
        && after[i].pages@.len() > 0 by {
        assert(sessions[i].wf());
    }
    assert forall|i: int, j: int| 0 <= i < j < after.len() implies (
    #[trigger] after[i]).snapshot_id@ != (#[trigger] after[j]).snapshot_id@ by {
        assert(sessions[i].snapshot_id@ != sessions[j].snapshot_id@);
    }
    lemma_pinned_updated(sessions, place, session);
}

proof fn lemma_pinned_updated(
    sessions: Seq<FrozenSnapshotSession>,
    place: int,
    session: FrozenSnapshotSession,
)
    requires
        0 <= place < sessions.len(),
        session.total_entity_bytes == sessions[place].total_entity_bytes,
    ensures
        pinned_bytes(sessions.update(place, session)) == pinned_bytes(sessions),
    decreases sessions.len(),
{
    let after = sessions.update(place, session);
    if place < sessions.len() - 1 {
        lemma_pinned_updated(sessions.drop_last(), place, session);
        assert(after.drop_last() =~= sessions.drop_last().update(place, session));
    } else {
        assert(after.drop_last() =~= sessions.drop_last());
    }
}

} // verus!
