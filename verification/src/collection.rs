//! Entities of a kind, one for each key, in the order of their keys, with the
//! bytes that they are counted for.

use vstd::prelude::*;

verus! {

/// A key in a strict total order.
pub trait EntityKey: Sized {
    /// What a key says.
    type V;

    spec fn key(&self) -> Self::V;

    /// Whether one key stands before another.
    spec fn before(a: Self::V, b: Self::V) -> bool;

    proof fn lemma_total(a: Self::V, b: Self::V)
        ensures
            a == b <==> !Self::before(a, b) && !Self::before(b, a),
            !(Self::before(a, b) && Self::before(b, a)),
    ;

    proof fn lemma_transitive(a: Self::V, b: Self::V, c: Self::V)
        requires
            Self::before(a, b),
            Self::before(b, c),
        ensures
            Self::before(a, c),
    ;

    fn is_before(&self, other: &Self) -> (before: bool)
        ensures
            before == Self::before(self.key(), other.key()),
    ;

    fn is_same(&self, other: &Self) -> (same: bool)
        ensures
            same == (self.key() == other.key()),
    ;

    fn copy(&self) -> (copy: Self)
        ensures
            copy.key() == self.key(),
    ;
}

/// An entity as it was reported: its key, what it says as it is written down,
/// and the bytes it is counted for.
#[derive(Debug)]
pub struct Reported<K> {
    pub key: K,
    pub content: String,
    pub counted_bytes: usize,
}

/// An entity of a collection, with the revision at which it was last reported.
#[derive(Debug)]
pub struct Entity<K> {
    pub key: K,
    pub content: String,
    pub last_seen_revision: u64,
    pub counted_bytes: usize,
}

/// What a collection holds under a key.
pub struct EntityView {
    pub content: Seq<char>,
    pub last_seen_revision: u64,
    pub counted_bytes: usize,
}

impl<K> Entity<K> {
    pub open spec fn says(self) -> EntityView {
        EntityView {
            content: self.content@,
            last_seen_revision: self.last_seen_revision,
            counted_bytes: self.counted_bytes,
        }
    }
}

impl<K> Reported<K> {
    pub open spec fn says(self, revision: u64) -> EntityView {
        EntityView {
            content: self.content@,
            last_seen_revision: revision,
            counted_bytes: self.counted_bytes,
        }
    }
}

/// The keys rise from one entity to the next.
pub open spec fn sorted<K: EntityKey>(entities: Seq<Entity<K>>) -> bool {
    forall|i: int, j: int|
        0 <= i < j < entities.len() ==> K::before(
            (#[trigger] entities[i]).key.key(),
            (#[trigger] entities[j]).key.key(),
        )
}

/// What stands under a key.
pub open spec fn lookup<K: EntityKey>(entities: Seq<Entity<K>>, key: K::V) -> Option<EntityView>
    decreases entities.len(),
{
    if entities.len() == 0 {
        None
    } else if entities.last().key.key() == key {
        Some(entities.last().says())
    } else {
        lookup(entities.drop_last(), key)
    }
}

/// The bytes that all entities together are counted for.
pub open spec fn total_bytes<K>(entities: Seq<Entity<K>>) -> nat
    decreases entities.len(),
{
    if entities.len() == 0 {
        0
    } else {
        total_bytes(entities.drop_last()) + entities.last().counted_bytes as nat
    }
}

/// What is reported under a key: of two reports the later one counts.
pub open spec fn reported_under<K: EntityKey>(
    reported: Seq<Reported<K>>,
    key: K::V,
    revision: u64,
) -> Option<EntityView>
    decreases reported.len(),
{
    if reported.len() == 0 {
        None
    } else if reported.last().key.key() == key {
        Some(reported.last().says(revision))
    } else {
        reported_under(reported.drop_last(), key, revision)
    }
}

/// Whether a key is among those that are gone.
pub open spec fn is_removed<K: EntityKey>(removed: Seq<K>, key: K::V) -> bool {
    exists|i: int| 0 <= i < removed.len() && (#[trigger] removed[i]).key() == key
}

/// Whether a key is among those that are reported.
pub open spec fn is_reported<K: EntityKey>(reported: Seq<Reported<K>>, key: K::V) -> bool {
    exists|i: int| 0 <= i < reported.len() && (#[trigger] reported[i]).key.key() == key
}

/// What stands under a key after a change.
pub open spec fn changed<K: EntityKey>(
    entities: Seq<Entity<K>>,
    reported: Seq<Reported<K>>,
    removed: Seq<K>,
    revision: u64,
    key: K::V,
) -> Option<EntityView> {
    let new = reported_under(reported, key, revision);
    if new is Some {
        new
    } else if is_removed(removed, key) {
        None
    } else {
        lookup(entities, key)
    }
}

/// No key is reported twice or gone twice, and none is both.
pub open spec fn unambiguous<K: EntityKey>(reported: Seq<Reported<K>>, removed: Seq<K>) -> bool {
    &&& forall|i: int, j: int|
        0 <= i < j < reported.len() ==> (#[trigger] reported[i]).key.key() != (
        #[trigger] reported[j]).key.key()
    &&& forall|i: int, j: int|
        0 <= i < j < removed.len() ==> (#[trigger] removed[i]).key() != (
        #[trigger] removed[j]).key()
    &&& forall|i: int| 0 <= i < removed.len() ==> !is_reported(
        reported,
        (#[trigger] removed[i]).key(),
    )
}

/// An entity stands under its key.
pub proof fn lemma_lookup<K: EntityKey>(entities: Seq<Entity<K>>, i: int)
    requires
        sorted(entities),
        0 <= i < entities.len(),
    ensures
        lookup(entities, entities[i].key.key()) == Some(entities[i].says()),
    decreases entities.len(),
{
    if i < entities.len() - 1 {
        let rest = entities.drop_last();
        lemma_sorted_rest(entities);
        lemma_lookup(rest, i);
        assert(rest[i] == entities[i]);
        K::lemma_total(entities[i].key.key(), entities.last().key.key());
        assert(K::before(entities[i].key.key(), entities[entities.len() - 1].key.key()));
    }
}

/// What stands under a key is an entity of the collection.
pub proof fn lemma_found<K: EntityKey>(entities: Seq<Entity<K>>, key: K::V) -> (i: int)
    requires
        lookup(entities, key) is Some,
    ensures
        0 <= i < entities.len(),
        entities[i].key.key() == key,
        lookup(entities, key) == Some(entities[i].says()),
    decreases entities.len(),
{
    if entities.last().key.key() == key {
        entities.len() - 1
    } else {
        let i = lemma_found(entities.drop_last(), key);
        assert(entities.drop_last()[i] == entities[i]);
        i
    }
}

proof fn lemma_sorted_rest<K: EntityKey>(entities: Seq<Entity<K>>)
    requires
        entities.len() > 0,
        sorted(entities),
    ensures
        sorted(entities.drop_last()),
{
    let rest = entities.drop_last();
    assert forall|i: int, j: int| 0 <= i < j < rest.len() implies K::before(
        (#[trigger] rest[i]).key.key(),
        (#[trigger] rest[j]).key.key(),
    ) by {
        assert(K::before(entities[i].key.key(), entities[j].key.key()));
    }
}

proof fn lemma_bytes_removed<K>(entities: Seq<Entity<K>>, i: int)
    requires
        0 <= i < entities.len(),
    ensures
        total_bytes(entities.remove(i)) + entities[i].counted_bytes == total_bytes(entities),
    decreases entities.len(),
{
    if i == entities.len() - 1 {
        assert(entities.remove(i) =~= entities.drop_last());
    } else {
        lemma_bytes_removed(entities.drop_last(), i);
        assert(entities.remove(i).drop_last() =~= entities.drop_last().remove(i));
        assert(entities.remove(i).last() == entities.last());
    }
}

proof fn lemma_bytes_inserted<K>(entities: Seq<Entity<K>>, i: int, entity: Entity<K>)
    requires
        0 <= i <= entities.len(),
    ensures
        total_bytes(entities.insert(i, entity)) == total_bytes(entities) + entity.counted_bytes,
{
    let after = entities.insert(i, entity);
    lemma_bytes_removed(after, i);
    assert(after.remove(i) =~= entities);
}

proof fn lemma_removed<K: EntityKey>(entities: Seq<Entity<K>>, i: int)
    requires
        sorted(entities),
        0 <= i < entities.len(),
    ensures
        sorted(entities.remove(i)),
        lookup(entities.remove(i), entities[i].key.key()) is None,
        forall|key: K::V|
            key != entities[i].key.key() ==> #[trigger] lookup(entities.remove(i), key) == lookup(
                entities,
                key,
            ),
{
    let after = entities.remove(i);
    assert forall|a: int, b: int| 0 <= a < b < after.len() implies K::before(
        (#[trigger] after[a]).key.key(),
        (#[trigger] after[b]).key.key(),
    ) by {
        let x = if a < i { a } else { a + 1 };
        let y = if b < i { b } else { b + 1 };
        assert(K::before(entities[x].key.key(), entities[y].key.key()));
    }
    let gone = entities[i].key.key();
    if lookup(after, gone) is Some {
        let a = lemma_found(after, gone);
        let x = if a < i { a } else { a + 1 };
        assert(entities[x] == after[a]);
        K::lemma_total(gone, gone);
        if x < i {
            assert(K::before(entities[x].key.key(), entities[i].key.key()));
        } else {
            assert(K::before(entities[i].key.key(), entities[x].key.key()));
        }
    }
    assert forall|key: K::V| key != gone implies #[trigger] lookup(after, key) == lookup(
        entities,
        key,
    ) by {
        if lookup(after, key) is Some {
            let a = lemma_found(after, key);
            let x = if a < i { a } else { a + 1 };
            assert(entities[x] == after[a]);
            lemma_lookup(entities, x);
        }
        if lookup(entities, key) is Some {
            let x = lemma_found(entities, key);
            let a = if x < i { x } else { x - 1 };
            assert(after[a] == entities[x]);
            lemma_lookup(after, a);
        }
    }
}

proof fn lemma_inserted<K: EntityKey>(entities: Seq<Entity<K>>, i: int, entity: Entity<K>)
    requires
        sorted(entities),
        0 <= i <= entities.len(),
        forall|k: int| 0 <= k < i ==> K::before(
            (#[trigger] entities[k]).key.key(),
            entity.key.key(),
        ),
        forall|k: int| i <= k < entities.len() ==> K::before(
            entity.key.key(),
            (#[trigger] entities[k]).key.key(),
        ),
    ensures
        sorted(entities.insert(i, entity)),
        lookup(entities.insert(i, entity), entity.key.key()) == Some(entity.says()),
        forall|key: K::V|
            key != entity.key.key() ==> #[trigger] lookup(entities.insert(i, entity), key)
                == lookup(entities, key),
{
    let after = entities.insert(i, entity);
    assert forall|a: int, b: int| 0 <= a < b < after.len() implies K::before(
        (#[trigger] after[a]).key.key(),
        (#[trigger] after[b]).key.key(),
    ) by {
        if a != i && b != i {
            let x = if a < i { a } else { a - 1 };
            let y = if b < i { b } else { b - 1 };
            assert(after[a] == entities[x] && after[b] == entities[y]);
            assert(K::before(entities[x].key.key(), entities[y].key.key()));
        } else if a == i {
            assert(after[b] == entities[b - 1]);
        } else {
            assert(after[a] == entities[a]);
        }
    }
    lemma_lookup(after, i);
    assert(after.remove(i) =~= entities);
    lemma_removed(after, i);
}

/// The place of a key, where it stands.
fn find<K: EntityKey>(entities: &Vec<Entity<K>>, key: &K) -> (place: Option<usize>)
    requires
        sorted(entities@),
    ensures
        match place {
            Some(i) => i < entities@.len() && entities@[i as int].key.key() == key.key() && lookup(
                entities@,
                key.key(),
            ) == Some(entities@[i as int].says()),
            None => lookup(entities@, key.key()) is None,
        },
{
    let mut i: usize = 0;
    while i < entities.len()
        invariant
            sorted(entities@),
            i <= entities@.len(),
            forall|k: int| 0 <= k < i ==> (#[trigger] entities@[k]).key.key() != key.key(),
        decreases entities@.len() - i,
    {
        if entities[i].key.is_same(key) {
            proof {
                lemma_lookup(entities@, i as int);
            }
            return Some(i);
        }
        i += 1;
    }
    proof {
        if lookup(entities@, key.key()) is Some {
            let k = lemma_found(entities@, key.key());
            assert(entities@[k].key.key() == key.key());
        }
    }
    None
}

/// Takes an entity out.
fn take_out<K: EntityKey>(entities: &mut Vec<Entity<K>>, key: &K)
    requires
        sorted(old(entities)@),
    ensures
        sorted(final(entities)@),
        lookup(final(entities)@, key.key()) is None,
        forall|other: K::V|
            other != key.key() ==> #[trigger] lookup(final(entities)@, other) == lookup(
                old(entities)@,
                other,
            ),
        match lookup(old(entities)@, key.key()) {
            Some(gone) => final(entities)@.len() + 1 == old(entities)@.len() && total_bytes(
                final(entities)@,
            ) + gone.counted_bytes == total_bytes(old(entities)@),
            None => final(entities)@ == old(entities)@,
        },
{
    if let Some(i) = find(entities, key) {
        proof {
            lemma_removed(entities@, i as int);
            lemma_bytes_removed(entities@, i as int);
        }
        let _ = entities.remove(i);
    }
}

/// Puts an entity in, in the place of one of the same key.
fn put_in<K: EntityKey>(entities: &mut Vec<Entity<K>>, entity: Entity<K>)
    requires
        sorted(old(entities)@),
        old(entities)@.len() < usize::MAX,
    ensures
        sorted(final(entities)@),
        lookup(final(entities)@, entity.key.key()) == Some(entity.says()),
        forall|other: K::V|
            other != entity.key.key() ==> #[trigger] lookup(final(entities)@, other) == lookup(
                old(entities)@,
                other,
            ),
        match lookup(old(entities)@, entity.key.key()) {
            Some(gone) => final(entities)@.len() == old(entities)@.len() && total_bytes(
                final(entities)@,
            ) + gone.counted_bytes == total_bytes(old(entities)@) + entity.counted_bytes,
            None => final(entities)@.len() == old(entities)@.len() + 1 && total_bytes(
                final(entities)@,
            ) == total_bytes(old(entities)@) + entity.counted_bytes,
        },
{
    take_out(entities, &entity.key);
    let mut i: usize = 0;
    while i < entities.len() && entities[i].key.is_before(&entity.key)
        invariant
            sorted(entities@),
            i <= entities@.len(),
            lookup(entities@, entity.key.key()) is None,
            forall|k: int| 0 <= k < i ==> K::before(
                (#[trigger] entities@[k]).key.key(),
                entity.key.key(),
            ),
        decreases entities@.len() - i,
    {
        i += 1;
    }
    proof {
        let key = entity.key.key();
        assert forall|k: int| i <= k < entities@.len() implies K::before(
            key,
            (#[trigger] entities@[k]).key.key(),
        ) by {
            lemma_lookup(entities@, i as int);
            K::lemma_total(entities@[i as int].key.key(), key);
            if k > i {
                K::lemma_transitive(key, entities@[i as int].key.key(), entities@[k].key.key());
            }
        }
        lemma_inserted(entities@, i as int, entity);
        lemma_bytes_inserted(entities@, i as int, entity);
    }
    entities.insert(i, entity);
}

/// Entities of a kind, with the bytes that they are counted for.
#[derive(Debug)]
pub struct Collection<K> {
    entities: Vec<Entity<K>>,
    bytes: usize,
}

impl<K: EntityKey> View for Collection<K> {
    type V = Seq<Entity<K>>;

    closed spec fn view(&self) -> Seq<Entity<K>> {
        self.entities@
    }
}

impl<K: EntityKey> Collection<K> {
    /// The entities are in order, and the bytes are theirs.
    pub closed spec fn wf(self) -> bool {
        sorted(self.entities@) && self.bytes == total_bytes(self.entities@)
    }

    pub proof fn lemma_wf(self)
        requires
            self.wf(),
        ensures
            sorted(self@),
            total_bytes(self@) <= usize::MAX,
    {
    }

    pub fn new() -> (collection: Self)
        ensures
            collection.wf(),
            collection@ == Seq::<Entity<K>>::empty(),
    {
        Collection { entities: Vec::new(), bytes: 0 }
    }

    pub fn len(&self) -> (length: usize)
        ensures
            length == self@.len(),
    {
        self.entities.len()
    }

    /// The bytes that the entities are counted for.
    pub fn counted_bytes(&self) -> (bytes: usize)
        requires
            self.wf(),
        ensures
            bytes == total_bytes(self@),
    {
        self.bytes
    }

    /// Copies of the entities, in their order.
    pub fn freeze(&self) -> (entities: Vec<Entity<K>>)
        requires
            self.wf(),
        ensures
            sorted(entities@),
            entities@.len() == self@.len(),
            forall|i: int|
                0 <= i < entities@.len() ==> (#[trigger] entities@[i]).key.key()
                    == self@[i].key.key() && entities@[i].says() == self@[i].says(),
            total_bytes(entities@) == total_bytes(self@),
    {
        let mut entities: Vec<Entity<K>> = Vec::new();
        let mut i: usize = 0;
        assert(self.entities@.subrange(0, 0).len() == 0);
        while i < self.entities.len()
            invariant
                self.wf(),
                i <= self.entities@.len(),
                entities@.len() == i,
                forall|k: int|
                    0 <= k < i ==> (#[trigger] entities@[k]).key.key()
                        == self.entities@[k].key.key() && entities@[k].says()
                        == self.entities@[k].says(),
                total_bytes(entities@) == total_bytes(self.entities@.subrange(0, i as int)),
            decreases self.entities@.len() - i,
        {
            let entity = &self.entities[i];
            let ghost before = entities@;
            entities.push(
                Entity {
                    key: entity.key.copy(),
                    content: entity.content.clone(),
                    last_seen_revision: entity.last_seen_revision,
                    counted_bytes: entity.counted_bytes,
                },
            );
            proof {
                assert(entities@.drop_last() =~= before);
                let longer = self.entities@.subrange(0, i + 1);
                assert(longer.drop_last() =~= self.entities@.subrange(0, i as int));
                assert(longer.last() == self.entities@[i as int]);
            }
            i += 1;
        }
        assert(self.entities@.subrange(0, self.entities@.len() as int) =~= self.entities@);
        proof {
            assert forall|a: int, b: int| 0 <= a < b < entities@.len() implies K::before(
                (#[trigger] entities@[a]).key.key(),
                (#[trigger] entities@[b]).key.key(),
            ) by {
                assert(K::before(self.entities@[a].key.key(), self.entities@[b].key.key()));
            }
        }
        entities
    }
}

/// The bytes that the entities of some keys are counted for.
pub open spec fn bytes_under<K: EntityKey>(entities: Seq<Entity<K>>, keys: Seq<K::V>) -> nat
    decreases keys.len(),
{
    if keys.len() == 0 {
        0
    } else {
        bytes_under(entities, keys.drop_last()) + (match lookup(entities, keys.last()) {
            Some(entity) => entity.counted_bytes as nat,
            None => 0,
        })
    }
}

/// The number of entities that stand under some keys.
pub open spec fn count_under<K: EntityKey>(entities: Seq<Entity<K>>, keys: Seq<K::V>) -> nat
    decreases keys.len(),
{
    if keys.len() == 0 {
        0
    } else {
        count_under(entities, keys.drop_last()) + (match lookup(entities, keys.last()) {
            Some(entity) => 1nat,
            None => 0,
        })
    }
}

/// The bytes that what is reported is counted for.
pub open spec fn reported_bytes<K>(reported: Seq<Reported<K>>) -> nat
    decreases reported.len(),
{
    if reported.len() == 0 {
        0
    } else {
        reported_bytes(reported.drop_last()) + reported.last().counted_bytes as nat
    }
}

/// What the keys that are gone say.
pub open spec fn removed_keys<K: EntityKey>(removed: Seq<K>) -> Seq<K::V> {
    Seq::new(removed.len(), |i: int| removed[i].key())
}

/// What the keys that are reported say.
pub open spec fn reported_keys<K: EntityKey>(reported: Seq<Reported<K>>) -> Seq<K::V> {
    Seq::new(reported.len(), |i: int| reported[i].key.key())
}

/// The number of entities after a change.
pub open spec fn count_after<K: EntityKey>(
    entities: Seq<Entity<K>>,
    reported: Seq<Reported<K>>,
    removed: Seq<K>,
) -> int {
    entities.len() - count_under(entities, removed_keys(removed)) - count_under(
        entities,
        reported_keys(reported),
    ) + reported.len()
}

/// The bytes that the entities are counted for after a change.
pub open spec fn bytes_after<K: EntityKey>(
    entities: Seq<Entity<K>>,
    reported: Seq<Reported<K>>,
    removed: Seq<K>,
) -> int {
    total_bytes(entities) - bytes_under(entities, removed_keys(removed)) - bytes_under(
        entities,
        reported_keys(reported),
    ) + reported_bytes(reported)
}

/// What stands under different keys is part of the whole.
proof fn lemma_part_of_whole<K: EntityKey>(entities: Seq<Entity<K>>, keys: Seq<K::V>)
    requires
        sorted(entities),
        keys.no_duplicates(),
    ensures
        bytes_under(entities, keys) <= total_bytes(entities),
        count_under(entities, keys) <= entities.len(),
    decreases keys.len(),
{
    if keys.len() > 0 {
        let rest = keys.drop_last();
        let key = keys.last();
        assert(rest.no_duplicates());
        if lookup(entities, key) is Some {
            let i = lemma_found(entities, key);
            lemma_removed(entities, i);
            lemma_bytes_removed(entities, i);
            assert forall|k: int| 0 <= k < rest.len() implies #[trigger] rest[k] != key by {
                assert(keys[k] != keys[keys.len() - 1]);
            }
            lemma_under_others(entities, i, rest);
            lemma_part_of_whole(entities.remove(i), rest);
        } else {
            lemma_part_of_whole(entities, rest);
        }
    }
}

proof fn lemma_under_others<K: EntityKey>(entities: Seq<Entity<K>>, i: int, keys: Seq<K::V>)
    requires
        sorted(entities),
        0 <= i < entities.len(),
        forall|k: int| 0 <= k < keys.len() ==> #[trigger] keys[k] != entities[i].key.key(),
    ensures
        bytes_under(entities.remove(i), keys) == bytes_under(entities, keys),
        count_under(entities.remove(i), keys) == count_under(entities, keys),
    decreases keys.len(),
{
    if keys.len() > 0 {
        let rest = keys.drop_last();
        assert forall|k: int| 0 <= k < rest.len() implies #[trigger] rest[k]
            != entities[i].key.key() by {
            assert(keys[k] != entities[i].key.key());
        }
        lemma_under_others(entities, i, rest);
        lemma_removed(entities, i);
        assert(keys[keys.len() - 1] != entities[i].key.key());
    }
}

proof fn lemma_under_joined<K: EntityKey>(entities: Seq<Entity<K>>, a: Seq<K::V>, b: Seq<K::V>)
    ensures
        bytes_under(entities, a + b) == bytes_under(entities, a) + bytes_under(entities, b),
        count_under(entities, a + b) == count_under(entities, a) + count_under(entities, b),
    decreases b.len(),
{
    if b.len() > 0 {
        lemma_under_joined(entities, a, b.drop_last());
        assert((a + b).drop_last() =~= a + b.drop_last());
        assert((a + b).last() == b.last());
    } else {
        assert(a + b =~= a);
    }
}

/// The keys of an unambiguous change are all different.
proof fn lemma_change_keys<K: EntityKey>(
    entities: Seq<Entity<K>>,
    reported: Seq<Reported<K>>,
    removed: Seq<K>,
    end: int,
)
    requires
        sorted(entities),
        unambiguous(reported, removed),
        0 <= end <= reported.len(),
    ensures
        bytes_under(entities, removed_keys(removed)) + bytes_under(
            entities,
            reported_keys(reported.subrange(0, end)),
        ) <= total_bytes(entities),
        count_under(entities, removed_keys(removed)) + count_under(
            entities,
            reported_keys(reported.subrange(0, end)),
        ) <= entities.len(),
{
    let a = removed_keys(removed);
    let b = reported_keys(reported.subrange(0, end));
    let keys = a + b;
    assert forall|i: int, j: int|
        0 <= i < keys.len() && 0 <= j < keys.len() && i != j implies keys[i] != keys[j] by {
        if i < a.len() && j < a.len() {
            if i < j {
                assert(removed[i].key() != removed[j].key());
            } else {
                assert(removed[j].key() != removed[i].key());
            }
        } else if i < a.len() {
            assert(!is_reported(reported, removed[i].key()));
            assert(reported[j - a.len()].key.key() == keys[j]);
        } else if j < a.len() {
            assert(!is_reported(reported, removed[j].key()));
            assert(reported[i - a.len()].key.key() == keys[i]);
        } else {
            let x = i - a.len();
            let y = j - a.len();
            if x < y {
                assert(reported[x].key.key() != reported[y].key.key());
            } else {
                assert(reported[y].key.key() != reported[x].key.key());
            }
        }
    }
    lemma_under_joined(entities, a, b);
    lemma_part_of_whole(entities, keys);
}

proof fn lemma_under_start<K: EntityKey>(entities: Seq<Entity<K>>, keys: Seq<K::V>, end: int)
    requires
        0 <= end <= keys.len(),
    ensures
        bytes_under(entities, keys.subrange(0, end)) <= bytes_under(entities, keys),
        count_under(entities, keys.subrange(0, end)) <= count_under(entities, keys),
    decreases keys.len(),
{
    if end < keys.len() {
        lemma_under_start(entities, keys.drop_last(), end);
        assert(keys.drop_last().subrange(0, end) =~= keys.subrange(0, end));
    } else {
        assert(keys.subrange(0, end) =~= keys);
    }
}

proof fn lemma_reported_start<K>(reported: Seq<Reported<K>>, end: int)
    requires
        0 <= end <= reported.len(),
    ensures
        reported_bytes(reported.subrange(0, end)) <= reported_bytes(reported),
    decreases reported.len(),
{
    if end < reported.len() {
        lemma_reported_start(reported.drop_last(), end);
        assert(reported.drop_last().subrange(0, end) =~= reported.subrange(0, end));
    } else {
        assert(reported.subrange(0, end) =~= reported);
    }
}

proof fn lemma_reported_under<K: EntityKey>(reported: Seq<Reported<K>>, key: K::V, revision: u64)
    ensures
        reported_under(reported, key, revision) is Some <==> is_reported(reported, key),
    decreases reported.len(),
{
    if reported.len() > 0 {
        let rest = reported.drop_last();
        lemma_reported_under(rest, key, revision);
        if is_reported(rest, key) {
            let k = choose|k: int| 0 <= k < rest.len() && (#[trigger] rest[k]).key.key() == key;
            assert(reported[k].key.key() == key);
        }
        if is_reported(reported, key) && reported.last().key.key() != key {
            let k = choose|k: int|
                0 <= k < reported.len() && (#[trigger] reported[k]).key.key() == key;
            assert(rest[k].key.key() == key);
        }
        if reported.last().key.key() == key {
            assert(reported[reported.len() - 1].key.key() == key);
        }
    }
}

impl<K: EntityKey> Collection<K> {
    /// How many entities there are after a change, and how many bytes they are
    /// counted for.
    pub fn project(&self, reported: &Vec<Reported<K>>, removed: &Vec<K>) -> (projected: (
        usize,
        usize,
    ))
        requires
            self.wf(),
            unambiguous(reported@, removed@),
            self@.len() + reported@.len() <= usize::MAX,
            total_bytes(self@) + reported_bytes(reported@) <= usize::MAX,
        ensures
            projected.0 == count_after(self@, reported@, removed@),
            projected.1 == bytes_after(self@, reported@, removed@),
    {
        let mut count: usize = self.entities.len();
        let mut bytes: usize = self.bytes;
        let mut i: usize = 0;
        let ghost entities = self.entities@;
        let ghost gone = removed_keys(removed@);
        let ghost new = reported_keys(reported@);
        proof {
            lemma_change_keys(entities, reported@, removed@, 0);
            assert(reported_keys(reported@.subrange(0, 0)) =~= Seq::empty());
            assert(gone.subrange(0, 0) =~= Seq::empty());
        }
        while i < removed.len()
            invariant
                self.wf(),
                entities == self.entities@,
                gone == removed_keys(removed@),
                i <= removed@.len(),
                bytes_under(entities, gone) <= total_bytes(entities),
                count_under(entities, gone) <= entities.len(),
                count == entities.len() - count_under(entities, gone.subrange(0, i as int)),
                bytes == total_bytes(entities) - bytes_under(
                    entities,
                    gone.subrange(0, i as int),
                ),
            decreases removed@.len() - i,
        {
            proof {
                let longer = gone.subrange(0, i + 1);
                assert(longer.drop_last() =~= gone.subrange(0, i as int));
                assert(longer.last() == removed@[i as int].key());
                lemma_under_start(entities, gone, i + 1);
            }
            if let Some(place) = find(&self.entities, &removed[i]) {
                count -= 1;
                bytes -= self.entities[place].counted_bytes;
            }
            i += 1;
        }
        assert(gone.subrange(0, gone.len() as int) =~= gone);
        let mut j: usize = 0;
        assert(reported@.subrange(0, 0) =~= Seq::empty());
        while j < reported.len()
            invariant
                self.wf(),
                entities == self.entities@,
                gone == removed_keys(removed@),
                unambiguous(reported@, removed@),
                entities.len() + reported@.len() <= usize::MAX,
                total_bytes(entities) + reported_bytes(reported@) <= usize::MAX,
                j <= reported@.len(),
                bytes_under(entities, gone) + bytes_under(
                    entities,
                    reported_keys(reported@.subrange(0, j as int)),
                ) <= total_bytes(entities),
                count_under(entities, gone) + count_under(
                    entities,
                    reported_keys(reported@.subrange(0, j as int)),
                ) <= entities.len(),
                count == entities.len() - count_under(entities, gone) - count_under(
                    entities,
                    reported_keys(reported@.subrange(0, j as int)),
                ) + j,
                bytes == total_bytes(entities) - bytes_under(entities, gone) - bytes_under(
                    entities,
                    reported_keys(reported@.subrange(0, j as int)),
                ) + reported_bytes(reported@.subrange(0, j as int)),
            decreases reported@.len() - j,
        {
            proof {
                let shorter = reported@.subrange(0, j as int);
                let longer = reported@.subrange(0, j + 1);
                assert(longer.drop_last() =~= shorter);
                assert(longer.last() == reported@[j as int]);
                assert(reported_keys(longer).drop_last() =~= reported_keys(shorter));
                assert(reported_keys(longer).last() == reported@[j as int].key.key());
                lemma_change_keys(entities, reported@, removed@, j + 1);
                lemma_reported_start(reported@, j + 1);
            }
            match find(&self.entities, &reported[j].key) {
                Some(place) => {
                    bytes -= self.entities[place].counted_bytes;
                },
                None => {
                    count += 1;
                },
            }
            bytes += reported[j].counted_bytes;
            j += 1;
        }
        assert(reported@.subrange(0, reported@.len() as int) =~= reported@);
        (count, bytes)
    }

    /// Takes a change in: what is gone leaves, and what is reported stands
    /// under its key, seen at the revision of the change.
    pub fn apply(&mut self, reported: &Vec<Reported<K>>, removed: &Vec<K>, revision: u64)
        requires
            old(self).wf(),
            unambiguous(reported@, removed@),
            old(self)@.len() + reported@.len() <= usize::MAX,
            total_bytes(old(self)@) + reported_bytes(reported@) <= usize::MAX,
        ensures
            final(self).wf(),
            final(self)@.len() == count_after(old(self)@, reported@, removed@),
            total_bytes(final(self)@) == bytes_after(old(self)@, reported@, removed@),
            forall|key: K::V| #[trigger]
                lookup(final(self)@, key) == changed(
                    old(self)@,
                    reported@,
                    removed@,
                    revision,
                    key,
                ),
    {
        let (_, bytes) = self.project(reported, removed);
        let ghost before = self.entities@;
        let ghost gone = removed_keys(removed@);
        let mut i: usize = 0;
        proof {
            assert(gone.subrange(0, 0) =~= Seq::empty());
            assert(removed@.subrange(0, 0) =~= Seq::empty());
        }
        while i < removed.len()
            invariant
                before == old(self).entities@,
                gone == removed_keys(removed@),
                unambiguous(reported@, removed@),
                sorted(self.entities@),
                i <= removed@.len(),
                self.entities@.len() == before.len() - count_under(
                    before,
                    gone.subrange(0, i as int),
                ),
                total_bytes(self.entities@) == total_bytes(before) - bytes_under(
                    before,
                    gone.subrange(0, i as int),
                ),
                forall|key: K::V| #[trigger]
                    lookup(self.entities@, key) == (if is_removed(
                        removed@.subrange(0, i as int),
                        key,
                    ) {
                        None
                    } else {
                        lookup(before, key)
                    }),
            decreases removed@.len() - i,
        {
            let ghost between = self.entities@;
            proof {
                let shorter = removed@.subrange(0, i as int);
                let longer = gone.subrange(0, i + 1);
                assert(longer.drop_last() =~= gone.subrange(0, i as int));
                assert(longer.last() == removed@[i as int].key());
                assert(!is_removed(shorter, removed@[i as int].key())) by {
                    if is_removed(shorter, removed@[i as int].key()) {
                        let k = choose|k: int|
                            0 <= k < shorter.len() && (#[trigger] shorter[k]).key()
                                == removed@[i as int].key();
                        assert(removed@[k].key() != removed@[i as int].key());
                    }
                }
            }
            take_out(&mut self.entities, &removed[i]);
            proof {
                let shorter = removed@.subrange(0, i as int);
                let longer = removed@.subrange(0, i + 1);
                assert forall|key: K::V| #[trigger]
                    lookup(self.entities@, key) == (if is_removed(longer, key) {
                        None
                    } else {
                        lookup(before, key)
                    }) by {
                    assert(is_removed(longer, key) == (is_removed(shorter, key)
                        || removed@[i as int].key() == key)) by {
                        if is_removed(shorter, key) {
                            let k = choose|k: int|
                                0 <= k < shorter.len() && (#[trigger] shorter[k]).key() == key;
                            assert(longer[k].key() == key);
                        }
                        if removed@[i as int].key() == key {
                            assert(longer[i as int].key() == key);
                        }
                        if is_removed(longer, key) && removed@[i as int].key() != key {
                            let k = choose|k: int|
                                0 <= k < longer.len() && (#[trigger] longer[k]).key() == key;
                            assert(shorter[k].key() == key);
                        }
                    }
                    assert(lookup(between, key) == (if is_removed(shorter, key) {
                        None
                    } else {
                        lookup(before, key)
                    }));
                }
            }
            i += 1;
        }
        proof {
            assert(gone.subrange(0, gone.len() as int) =~= gone);
            assert(removed@.subrange(0, removed@.len() as int) =~= removed@);
            assert(reported@.subrange(0, 0) =~= Seq::empty());
            assert(reported_keys(reported@.subrange(0, 0)) =~= Seq::empty());
        }
        let mut j: usize = 0;
        while j < reported.len()
            invariant
                before == old(self).entities@,
                sorted(before),
                gone == removed_keys(removed@),
                unambiguous(reported@, removed@),
                before.len() + reported@.len() <= usize::MAX,
                sorted(self.entities@),
                j <= reported@.len(),
                self.entities@.len() == before.len() - count_under(before, gone) - count_under(
                    before,
                    reported_keys(reported@.subrange(0, j as int)),
                ) + j,
                total_bytes(self.entities@) == total_bytes(before) - bytes_under(before, gone)
                    - bytes_under(
                    before,
                    reported_keys(reported@.subrange(0, j as int)),
                ) + reported_bytes(reported@.subrange(0, j as int)),
                forall|key: K::V| #[trigger]
                    lookup(self.entities@, key) == changed(
                        before,
                        reported@.subrange(0, j as int),
                        removed@,
                        revision,
                        key,
                    ),
            decreases reported@.len() - j,
        {
            let ghost between = self.entities@;
            let ghost shorter = reported@.subrange(0, j as int);
            let ghost longer = reported@.subrange(0, j + 1);
            let ghost this = reported@[j as int].key.key();
            proof {
                assert(longer.drop_last() =~= shorter);
                assert(longer.last() == reported@[j as int]);
                assert(reported_keys(longer).drop_last() =~= reported_keys(shorter));
                assert(reported_keys(longer).last() == this);
                lemma_change_keys(before, reported@, removed@, j as int);
                lemma_reported_under(shorter, this, revision);
                if is_reported(shorter, this) {
                    let k = choose|k: int|
                        0 <= k < shorter.len() && (#[trigger] shorter[k]).key.key() == this;
                    assert(reported@[k].key.key() != reported@[j as int].key.key());
                }
                if is_removed(removed@, this) {
                    let k = choose|k: int|
                        0 <= k < removed@.len() && (#[trigger] removed@[k]).key() == this;
                    assert(!is_reported(reported@, removed@[k].key()));
                    assert(reported@[j as int].key.key() == this);
                }
                assert(lookup(between, this) == lookup(before, this));
            }
            put_in(
                &mut self.entities,
                Entity {
                    key: reported[j].key.copy(),
                    content: reported[j].content.clone(),
                    last_seen_revision: revision,
                    counted_bytes: reported[j].counted_bytes,
                },
            );
            proof {
                assert forall|key: K::V| #[trigger]
                    lookup(self.entities@, key) == changed(
                        before,
                        longer,
                        removed@,
                        revision,
                        key,
                    ) by {
                    if key != this {
                        assert(lookup(between, key) == changed(
                            before,
                            shorter,
                            removed@,
                            revision,
                            key,
                        ));
                    }
                }
            }
            j += 1;
        }
        assert(reported@.subrange(0, reported@.len() as int) =~= reported@);
        self.bytes = bytes;
    }
}

} // verus!
