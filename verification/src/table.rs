//! A table from names to values, kept as a list without repeated names.

use vstd::prelude::*;

use crate::text::same_text;

verus! {

/// Values under distinct names.
#[derive(Debug)]
pub struct Table<V> {
    entries: Vec<(String, V)>,
}

/// What a list of entries holds under each name.
pub closed spec fn table_map<V>(entries: Seq<(String, V)>) -> Map<Seq<char>, V>
    decreases entries.len(),
{
    if entries.len() == 0 {
        Map::empty()
    } else {
        table_map(entries.drop_last()).insert(entries.last().0@, entries.last().1)
    }
}

/// No name stands twice in the list.
pub closed spec fn names_differ<V>(entries: Seq<(String, V)>) -> bool {
    forall|i: int, j: int|
        0 <= i < j < entries.len() ==> (#[trigger] entries[i]).0@ != (#[trigger] entries[j]).0@
}

impl<V> View for Table<V> {
    type V = Map<Seq<char>, V>;

    closed spec fn view(&self) -> Map<Seq<char>, V> {
        table_map(self.entries@)
    }
}

/// An entry of the list stands in the map.
proof fn lemma_entry<V>(entries: Seq<(String, V)>, i: int)
    requires
        names_differ(entries),
        0 <= i < entries.len(),
    ensures
        table_map(entries).dom().contains(entries[i].0@),
        table_map(entries)[entries[i].0@] == entries[i].1,
    decreases entries.len(),
{
    if i < entries.len() - 1 {
        assert(names_differ(entries.drop_last())) by {
            assert forall|a: int, b: int| 0 <= a < b < entries.len() - 1 implies (
            #[trigger] entries.drop_last()[a]).0@ != (#[trigger] entries.drop_last()[b]).0@ by {
                assert(entries[a].0@ != entries[b].0@);
            }
        }
        lemma_entry(entries.drop_last(), i);
        assert(entries.drop_last()[i] == entries[i]);
        assert(entries[i].0@ != entries[entries.len() - 1].0@);
    }
}

/// A name of the map stands in the list.
proof fn lemma_name<V>(entries: Seq<(String, V)>, name: Seq<char>) -> (i: int)
    requires
        table_map(entries).dom().contains(name),
    ensures
        0 <= i < entries.len(),
        entries[i].0@ == name,
    decreases entries.len(),
{
    if entries.last().0@ == name {
        entries.len() - 1
    } else {
        let i = lemma_name(entries.drop_last(), name);
        assert(entries.drop_last()[i] == entries[i]);
        i
    }
}

/// The map has as many names as the list has entries.
proof fn lemma_length<V>(entries: Seq<(String, V)>)
    requires
        names_differ(entries),
    ensures
        table_map(entries).dom().finite(),
        table_map(entries).dom().len() == entries.len(),
    decreases entries.len(),
{
    if entries.len() > 0 {
        let rest = entries.drop_last();
        assert(names_differ(rest)) by {
            assert forall|a: int, b: int| 0 <= a < b < rest.len() implies (#[trigger] rest[a]).0@ != (
            #[trigger] rest[b]).0@ by {
                assert(entries[a].0@ != entries[b].0@);
            }
        }
        lemma_length(rest);
        if table_map(rest).dom().contains(entries.last().0@) {
            let i = lemma_name(rest, entries.last().0@);
            assert(entries[i].0@ != entries[entries.len() - 1].0@);
        }
        assert(table_map(entries).dom() =~= table_map(rest).dom().insert(entries.last().0@));
    }
}

impl<V> Table<V> {
    /// No name stands twice in the list.
    pub closed spec fn wf(self) -> bool {
        names_differ(self.entries@)
    }

    pub fn new() -> (table: Self)
        ensures
            table.wf(),
            table@ == Map::<Seq<char>, V>::empty(),
    {
        Table { entries: Vec::new() }
    }

    /// The number of names.
    pub fn len(&self) -> (length: usize)
        requires
            self.wf(),
        ensures
            self@.dom().finite(),
            length == self@.dom().len(),
    {
        proof {
            lemma_length(self.entries@);
        }
        self.entries.len()
    }

    /// The place at which a name stands.
    fn position(&self, name: &str) -> (place: Option<usize>)
        requires
            self.wf(),
        ensures
            match place {
                Some(i) => i < self.entries@.len() && self.entries@[i as int].0@ == name@
                    && self@.dom().contains(name@) && self@[name@] == self.entries@[i as int].1,
                None => !self@.dom().contains(name@),
            },
    {
        let mut i: usize = 0;
        while i < self.entries.len()
            invariant
                self.wf(),
                i <= self.entries@.len(),
                forall|k: int| 0 <= k < i ==> (#[trigger] self.entries@[k]).0@ != name@,
            decreases self.entries@.len() - i,
        {
            if same_text(self.entries[i].0.as_str(), name) {
                proof {
                    lemma_entry(self.entries@, i as int);
                }
                return Some(i);
            }
            i += 1;
        }
        proof {
            if self@.dom().contains(name@) {
                let k = lemma_name(self.entries@, name@);
                assert(self.entries@[k].0@ == name@);
            }
        }
        None
    }

    pub fn contains(&self, name: &str) -> (found: bool)
        requires
            self.wf(),
        ensures
            found == self@.dom().contains(name@),
    {
        self.position(name).is_some()
    }

    pub fn get(&self, name: &str) -> (value: Option<&V>)
        requires
            self.wf(),
        ensures
            match value {
                Some(value) => self@.dom().contains(name@) && *value == self@[name@],
                None => !self@.dom().contains(name@),
            },
    {
        match self.position(name) {
            Some(i) => Some(&self.entries[i].1),
            None => None,
        }
    }

    /// The entry at a place of the list.
    pub fn entry(&self, index: usize) -> (entry: (&str, &V))
        requires
            self.wf(),
            index < self@.dom().len(),
        ensures
            entry.0@ == self.name_at(index as int),
            *entry.1 == self@[entry.0@],
            self@.dom().contains(entry.0@),
    {
        proof {
            lemma_length(self.entries@);
            lemma_entry(self.entries@, index as int);
        }
        (self.entries[index].0.as_str(), &self.entries[index].1)
    }

    /// The name that stands at a place of the list.
    pub closed spec fn name_at(self, index: int) -> Seq<char> {
        self.entries@[index].0@
    }

    /// Every name stands at one place of the list.
    pub proof fn lemma_names(self)
        requires
            self.wf(),
        ensures
            self@.dom().finite(),
            forall|i: int, j: int|
                0 <= i < j < self@.dom().len() ==> #[trigger] self.name_at(i)
                    != #[trigger] self.name_at(j),
            forall|i: int|
                0 <= i < self@.dom().len() ==> self@.dom().contains(#[trigger] self.name_at(i)),
            forall|name: Seq<char>| #[trigger]
                self@.dom().contains(name) ==> exists|i: int|
                    0 <= i < self@.dom().len() && #[trigger] self.name_at(i) == name,
    {
        lemma_length(self.entries@);
        assert forall|i: int| 0 <= i < self@.dom().len() implies self@.dom().contains(
            #[trigger] self.name_at(i),
        ) by {
            lemma_entry(self.entries@, i);
        }
        assert forall|name: Seq<char>| #[trigger] self@.dom().contains(name) implies exists|i: int|
            0 <= i < self@.dom().len() && #[trigger] self.name_at(i) == name by {
            let i = lemma_name(self.entries@, name);
            assert(self.name_at(i) == name);
        }
    }

    /// Takes a value out of the table.
    pub fn remove(&mut self, name: &str) -> (value: Option<V>)
        requires
            old(self).wf(),
        ensures
            final(self).wf(),
            final(self)@ == old(self)@.remove(name@),
            match value {
                Some(value) => old(self)@.dom().contains(name@) && value == old(self)@[name@],
                None => !old(self)@.dom().contains(name@),
            },
    {
        match self.position(name) {
            Some(i) => {
                let ghost before = self.entries@;
                let (_, value) = self.entries.remove(i);
                proof {
                    lemma_removed(before, i as int);
                }
                Some(value)
            },
            None => {
                assert(self@.remove(name@) =~= self@);
                None
            },
        }
    }

    /// Puts a value under a name, in the place of an earlier one.
    pub fn insert(&mut self, name: &str, value: V)
        requires
            old(self).wf(),
        ensures
            final(self).wf(),
            final(self)@ == old(self)@.insert(name@, value),
    {
        let _ = self.remove(name);
        proof {
            if exists|k: int| 0 <= k < self.entries@.len() && (#[trigger] self.entries@[k]).0@ == name@ {
                let k = choose|k: int|
                    0 <= k < self.entries@.len() && (#[trigger] self.entries@[k]).0@ == name@;
                lemma_entry(self.entries@, k);
            }
        }
        let ghost between = self.entries@;
        self.entries.push((name.to_owned(), value));
        proof {
            assert(self.entries@.drop_last() =~= between);
            assert(self@ =~= old(self)@.insert(name@, value));
        }
    }
}

proof fn lemma_removed<V>(entries: Seq<(String, V)>, i: int)
    requires
        names_differ(entries),
        0 <= i < entries.len(),
    ensures
        names_differ(entries.remove(i)),
        table_map(entries.remove(i)) == table_map(entries).remove(entries[i].0@),
    decreases entries.len(),
{
    let rest = entries.remove(i);
    assert(names_differ(rest)) by {
        assert forall|a: int, b: int| 0 <= a < b < rest.len() implies (#[trigger] rest[a]).0@ != (
        #[trigger] rest[b]).0@ by {
            let x = if a < i { a } else { a + 1 };
            let y = if b < i { b } else { b + 1 };
            assert(entries[x].0@ != entries[y].0@);
        }
    }
    let before = table_map(entries);
    let after = table_map(rest);
    let name = entries[i].0@;
    lemma_entry(entries, i);
    assert forall|key: Seq<char>| #[trigger]
        after.dom().contains(key) == before.remove(name).dom().contains(key) by {
        if after.dom().contains(key) {
            let a = lemma_name(rest, key);
            let x = if a < i { a } else { a + 1 };
            lemma_entry(entries, x);
            assert(entries[x].0@ == key);
            if x < i {
                assert(entries[x].0@ != entries[i].0@);
            } else {
                assert(entries[i].0@ != entries[x].0@);
            }
        }
        if before.remove(name).dom().contains(key) {
            let x = lemma_name(entries, key);
            let a = if x < i { x } else { x - 1 };
            assert(rest[a] == entries[x]);
            lemma_entry(rest, a);
        }
    }
    assert forall|key: Seq<char>| #[trigger] after.dom().contains(key) implies after[key]
        == before[key] by {
        let a = lemma_name(rest, key);
        let x = if a < i { a } else { a + 1 };
        assert(rest[a] == entries[x]);
        lemma_entry(rest, a);
        lemma_entry(entries, x);
    }
    assert(after =~= before.remove(name));
}

} // verus!
