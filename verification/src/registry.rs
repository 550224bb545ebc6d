//! The readers of captured logs: a bounded table in which readers of runs that
//! are being captured stay, and the longest unused of the others make room.

use vstd::prelude::*;

use crate::error::{plain_error, AppError, ErrorCode, ErrorView};
use crate::table::Table;
use crate::text::{same_text, texts_of};

verus! {

/// How many readers are kept.
pub const MANAGED_LOG_READER_CAPACITY: usize = 256;

/// The reader of a log. The number is that under which the reader itself is
/// kept.
#[derive(Clone, Copy, Debug, PartialEq, Eq, Structural)]
pub struct ReaderEntry {
    pub reader: u64,
    /// The log is being captured.
    pub active: bool,
    /// The reader was opened on files of an earlier capture.
    pub historical: bool,
}

/// The readers of captured logs, by run ID. The runs whose capture has ended
/// stand in a queue, the longest unused first.
#[derive(Debug)]
pub struct ManagedLogReaderRegistry {
    entries: Table<ReaderEntry>,
    completed: Vec<String>,
}

/// What a registry holds.
pub struct RegistryView {
    pub entries: Map<Seq<char>, ReaderEntry>,
    pub completed: Seq<Seq<char>>,
}

/// A queue without one of its texts.
pub open spec fn without(queue: Seq<Seq<char>>, text: Seq<char>) -> Seq<Seq<char>> {
    if queue.contains(text) {
        queue.remove(queue.index_of(text))
    } else {
        queue
    }
}

impl View for ManagedLogReaderRegistry {
    type V = RegistryView;

    closed spec fn view(&self) -> RegistryView {
        RegistryView { entries: self.entries@, completed: texts_of(self.completed@) }
    }
}

impl RegistryView {
    /// The queue holds each run whose capture has ended, and none twice; the
    /// table is not larger than its bound.
    pub open spec fn wf(self) -> bool {
        &&& self.completed.no_duplicates()
        &&& forall|run_id: Seq<char>| #[trigger]
            self.completed.contains(run_id) <==> self.entries.dom().contains(run_id)
                && !self.entries[run_id].active
        &&& self.entries.dom().finite()
        &&& self.entries.dom().len() <= MANAGED_LOG_READER_CAPACITY
    }

    /// Room for one more reader: where the table is full, the longest unused of
    /// the ended captures is let go.
    pub open spec fn with_room(self) -> RegistryView {
        if self.entries.dom().len() < MANAGED_LOG_READER_CAPACITY {
            self
        } else {
            RegistryView {
                entries: self.entries.remove(self.completed[0]),
                completed: self.completed.drop_first(),
            }
        }
    }

    /// The registry after a reader was used: the reader of an ended capture goes
    /// to the end of the queue.
    pub open spec fn after_use(self, run_id: Seq<char>) -> RegistryView {
        if self.entries.dom().contains(run_id) && !self.entries[run_id].active {
            RegistryView {
                entries: self.entries,
                completed: without(self.completed, run_id).push(run_id),
            }
        } else {
            self
        }
    }

    /// Whether no more reader fits: the table is full of captures that go on.
    pub open spec fn is_exhausted(self) -> bool {
        self.entries.dom().len() >= MANAGED_LOG_READER_CAPACITY && self.completed.len() == 0
    }
}

/// The refusal of a reader for which there is no room.
pub open spec fn reader_capacity_error() -> ErrorView {
    plain_error(
        ErrorCode::Conflict,
        "managed run log reader capacity is exhausted"@,
    ).retry().with("stage"@, "ReserveManagedLogReader"@)
}

/// A reader was asked for, and what becomes of the registry.
pub open spec fn reader_used(
    before: RegistryView,
    run_id: Seq<char>,
    found: Option<(u64, bool)>,
    after: RegistryView,
) -> bool {
    &&& after == before.after_use(run_id)
    &&& found == (if before.entries.dom().contains(run_id) {
        Some((before.entries[run_id].reader, before.entries[run_id].historical))
    } else {
        None
    })
}

/// The reader of a capture that begins was handed in, and what becomes of the registry.
pub open spec fn capture_reserved(
    before: RegistryView,
    run_id: Seq<char>,
    reader: u64,
    result: Result<(), AppError>,
    after: RegistryView,
) -> bool {
    match result {
        Ok(_) => {
            &&& !before.entries.dom().contains(run_id)
            &&& !before.is_exhausted()
            &&& after.entries == before.with_room().entries.insert(
                run_id,
                (ReaderEntry { reader, active: true, historical: false }),
            )
            &&& after.completed == before.with_room().completed
        },
        Err(error) => {
            &&& after == before
            &&& if before.entries.dom().contains(run_id) {
                error@ == plain_error(
                    ErrorCode::Conflict,
                    "managed run log reader is already registered"@,
                )
            } else {
                before.is_exhausted() && error@ == reader_capacity_error()
            }
        },
    }
}

/// A reader on files of an earlier capture was handed in, and what becomes of the
/// registry.
pub open spec fn history_taken_in(
    before: RegistryView,
    run_id: Seq<char>,
    reader: u64,
    result: Result<(u64, bool), AppError>,
    after: RegistryView,
) -> bool {
    if before.entries.dom().contains(run_id) {
        let entry = before.entries[run_id];
        result is Ok && result->Ok_0 == (entry.reader, entry.historical) && after == before
    } else if before.is_exhausted() {
        result is Err && result->Err_0@ == reader_capacity_error() && after == before
    } else {
        &&& result is Ok && result->Ok_0 == (reader, true)
        &&& after.entries == before.with_room().entries.insert(
            run_id,
            (ReaderEntry { reader, active: false, historical: true }),
        )
        &&& after.completed == before.with_room().completed.push(run_id)
    }
}

/// What becomes of the registry where a capture has ended.
pub open spec fn capture_ended(
    before: RegistryView,
    run_id: Seq<char>,
    after: RegistryView,
) -> bool {
    if before.entries.dom().contains(run_id) && before.entries[run_id].active {
        &&& after.entries == before.entries.insert(
            run_id,
            (ReaderEntry { active: false, ..before.entries[run_id] }),
        )
        &&& after.completed == before.completed.push(run_id)
    } else {
        after == before
    }
}

/// A reader had to go because its log goes, and what becomes of the registry.
pub open spec fn reader_evicted(
    before: RegistryView,
    run_id: Seq<char>,
    evicted: bool,
    after: RegistryView,
) -> bool {
    &&& evicted == !(before.entries.dom().contains(run_id) && before.entries[run_id].active)
    &&& !evicted ==> after == before
    &&& evicted ==> after.entries == before.entries.remove(run_id) && after.completed == without(
        before.completed,
        run_id,
    )
}

/// Takes a text out of a queue in which it stands at most once.
pub(crate) fn take_out(queue: &mut Vec<String>, text: &str)
    requires
        texts_of(old(queue)@).no_duplicates(),
    ensures
        texts_of(final(queue)@) == without(texts_of(old(queue)@), text@),
{
    let ghost before = texts_of(queue@);
    let mut i: usize = 0;
    while i < queue.len()
        invariant
            queue@ == old(queue)@,
            before == texts_of(old(queue)@),
            before.no_duplicates(),
            i <= queue@.len(),
            forall|k: int| 0 <= k < i ==> (#[trigger] queue@[k])@ != text@,
        decreases queue@.len() - i,
    {
        if same_text(queue[i].as_str(), text) {
            let _ = queue.remove(i);
            proof {
                assert(before[i as int] == text@);
                assert(before.contains(text@));
                let place = before.index_of(text@);
                assert(before[place] == text@);
                assert(place == i as int);
                assert(texts_of(queue@) =~= before.remove(i as int));
            }
            return;
        }
        i += 1;
    }
    proof {
        assert forall|k: int| 0 <= k < before.len() implies before[k] != text@ by {
            assert(old(queue)@[k]@ != text@);
        }
        assert(!before.contains(text@));
    }
}

pub(crate) proof fn lemma_without(queue: Seq<Seq<char>>, text: Seq<char>)
    requires
        queue.no_duplicates(),
    ensures
        without(queue, text).no_duplicates(),
        forall|other: Seq<char>| #[trigger]
            without(queue, text).contains(other) <==> queue.contains(other) && other != text,
{
    let after = without(queue, text);
    if queue.contains(text) {
        let place = queue.index_of(text);
        assert(queue[place] == text);
        assert forall|other: Seq<char>| #[trigger]
            after.contains(other) == (queue.contains(other) && other != text) by {
            if after.contains(other) {
                let k = after.index_of(other);
                let m = if k < place { k } else { k + 1 };
                assert(queue[m] == other);
                if other == text {
                    assert(queue[m] == queue[place]);
                }
            }
            if queue.contains(other) && other != text {
                let m = queue.index_of(other);
                assert(queue[m] == other);
                let k = if m < place { m } else { m - 1 };
                assert(after[k] == other);
            }
        }
        assert forall|i: int, j: int|
            0 <= i < after.len() && 0 <= j < after.len() && i != j implies after[i] != after[j] by {
            let x = if i < place { i } else { i + 1 };
            let y = if j < place { j } else { j + 1 };
            assert(queue[x] != queue[y]);
        }
    }
}

pub(crate) proof fn lemma_pushed(queue: Seq<Seq<char>>, text: Seq<char>)
    requires
        queue.no_duplicates(),
        !queue.contains(text),
    ensures
        queue.push(text).no_duplicates(),
        forall|other: Seq<char>| #[trigger]
            queue.push(text).contains(other) <==> queue.contains(other) || other == text,
{
    let after = queue.push(text);
    assert forall|other: Seq<char>| #[trigger]
        after.contains(other) == (queue.contains(other) || other == text) by {
        if queue.contains(other) {
            let k = queue.index_of(other);
            assert(after[k] == other);
        }
        assert(after[queue.len() as int] == text);
        if after.contains(other) && other != text {
            let k = after.index_of(other);
            assert(queue[k] == other);
        }
    }
    assert forall|i: int, j: int|
        0 <= i < after.len() && 0 <= j < after.len() && i != j implies after[i] != after[j] by {
        if i < queue.len() && j < queue.len() {
            assert(queue[i] != queue[j]);
        } else if i < queue.len() {
            assert(queue.contains(queue[i]));
        } else {
            assert(queue.contains(queue[j]));
        }
    }
}

impl ManagedLogReaderRegistry {
    pub closed spec fn tables_wf(self) -> bool {
        self.entries.wf()
    }

    /// What every operation keeps.
    pub open spec fn wf(self) -> bool {
        self.tables_wf() && self@.wf()
    }

    pub fn new() -> (registry: Self)
        ensures
            registry.wf(),
            registry@.entries == Map::<Seq<char>, ReaderEntry>::empty(),
            registry@.completed == Seq::<Seq<char>>::empty(),
    {
        let registry = ManagedLogReaderRegistry { entries: Table::new(), completed: Vec::new() };
        proof {
            assert(registry@.completed =~= Seq::<Seq<char>>::empty());
        }
        registry
    }

    /// The reader of a run, and whether it is historical. Using the reader of
    /// an ended capture puts it at the end of the queue.
    pub fn get(&mut self, run_id: &str) -> (found: Option<(u64, bool)>)
        requires
            old(self).wf(),
        ensures
            final(self).wf(),
            reader_used(old(self)@, run_id@, found, final(self)@),
    {
        let entry = match self.entries.get(run_id) {
            Some(entry) => *entry,
            None => return None,
        };
        if !entry.active {
            proof {
                lemma_without(self@.completed, run_id@);
                lemma_pushed(without(self@.completed, run_id@), run_id@);
            }
            take_out(&mut self.completed, run_id);
            let ghost between = texts_of(self.completed@);
            self.completed.push(run_id.to_owned());
            proof {
                assert(texts_of(self.completed@) =~= between.push(run_id@));
            }
        }
        Some((entry.reader, entry.historical))
    }

    /// Makes room for one more reader.
    fn make_room(&mut self) -> (result: Result<(), AppError>)
        requires
            old(self).wf(),
        ensures
            final(self).wf(),
            match result {
                Ok(_) => !old(self)@.is_exhausted() && final(self)@ == old(self)@.with_room(),
                Err(error) => old(self)@.is_exhausted() && error@ == reader_capacity_error()
                    && final(self)@ == old(self)@,
            },
            result is Ok ==> final(self)@.entries.dom().len() < MANAGED_LOG_READER_CAPACITY,
    {
        if self.entries.len() < MANAGED_LOG_READER_CAPACITY {
            return Ok(());
        }
        if self.completed.len() == 0 {
            return Err(
                AppError::new(
                    ErrorCode::Conflict,
                    "managed run log reader capacity is exhausted",
                ).as_retryable().with_detail("stage", "ReserveManagedLogReader"),
            );
        }
        let ghost before = self@;
        let run_id = self.completed.remove(0);
        let _ = self.entries.remove(run_id.as_str());
        proof {
            assert(before.completed[0] == run_id@);
            assert(before.completed.contains(run_id@));
            assert(texts_of(self.completed@) =~= before.completed.drop_first());
            assert(before.completed.index_of(run_id@) == 0);
            assert(without(before.completed, run_id@) =~= before.completed.drop_first());
            lemma_without(before.completed, run_id@);
        }
        Ok(())
    }

    /// Takes the reader of a capture in that begins.
    pub fn reserve_active(&mut self, run_id: &str, reader: u64) -> (result: Result<(), AppError>)
        requires
            old(self).wf(),
        ensures
            final(self).wf(),
            capture_reserved(old(self)@, run_id@, reader, result, final(self)@),
    {
        if self.entries.contains(run_id) {
            return Err(
                AppError::new(
                    ErrorCode::Conflict,
                    "managed run log reader is already registered",
                ),
            );
        }
        match self.make_room() {
            Ok(_) => {},
            Err(error) => return Err(error),
        }
        self.entries.insert(run_id, ReaderEntry { reader, active: true, historical: false });
        Ok(())
    }

    /// Takes a reader in that was opened on files of an earlier capture. A
    /// reader that stands there already goes before it.
    pub fn insert_historical(&mut self, run_id: &str, reader: u64) -> (result: Result<
        (u64, bool),
        AppError,
    >)
        requires
            old(self).wf(),
        ensures
            final(self).wf(),
            history_taken_in(old(self)@, run_id@, reader, result, final(self)@),
    {
        if let Some(entry) = self.entries.get(run_id) {
            return Ok((entry.reader, entry.historical));
        }
        match self.make_room() {
            Ok(_) => {},
            Err(error) => return Err(error),
        }
        let ghost between = self@;
        proof {
            assert(!between.completed.contains(run_id@));
            lemma_pushed(between.completed, run_id@);
        }
        self.entries.insert(run_id, ReaderEntry { reader, active: false, historical: true });
        self.completed.push(run_id.to_owned());
        proof {
            assert(texts_of(self.completed@) =~= between.completed.push(run_id@));
        }
        Ok((reader, true))
    }

    /// Notes that a capture has ended.
    pub fn mark_completed(&mut self, run_id: &str)
        requires
            old(self).wf(),
        ensures
            final(self).wf(),
            capture_ended(old(self)@, run_id@, final(self)@),
    {
        let entry = match self.entries.get(run_id) {
            Some(entry) => *entry,
            None => return,
        };
        if entry.active {
            let ghost before = self@;
            proof {
                lemma_pushed(before.completed, run_id@);
            }
            self.entries.insert(
                run_id,
                ReaderEntry { reader: entry.reader, active: false, historical: entry.historical },
            );
            self.completed.push(run_id.to_owned());
            proof {
                assert(texts_of(self.completed@) =~= before.completed.push(run_id@));
                assert(self@.entries.dom() =~= before.entries.dom());
            }
        }
    }

    /// Lets the reader of a run go.
    pub fn remove(&mut self, run_id: &str)
        requires
            old(self).wf(),
        ensures
            final(self).wf(),
            final(self)@.entries == old(self)@.entries.remove(run_id@),
            final(self)@.completed == without(old(self)@.completed, run_id@),
    {
        let ghost before = self@;
        proof {
            lemma_without(before.completed, run_id@);
        }
        let _ = self.entries.remove(run_id);
        take_out(&mut self.completed, run_id);
    }

    /// Lets the reader of a run go before its files are deleted. The reader of
    /// a capture that goes on stays, and its files with it.
    pub fn evict_for_retention(&mut self, run_id: &str) -> (evicted: bool)
        requires
            old(self).wf(),
        ensures
            final(self).wf(),
            reader_evicted(old(self)@, run_id@, evicted, final(self)@),
    {
        let active = match self.entries.get(run_id) {
            Some(entry) => entry.active,
            None => false,
        };
        if active {
            return false;
        }
        self.remove(run_id);
        true
    }

    /// Whether the log of a run is being captured.
    pub fn is_active(&self, run_id: &str) -> (active: bool)
        requires
            self.wf(),
        ensures
            active == (self@.entries.dom().contains(run_id@) && self@.entries[run_id@].active),
    {
        match self.entries.get(run_id) {
            Some(entry) => entry.active,
            None => false,
        }
    }
}

/// Making room never takes the reader of a capture that goes on.
pub proof fn lemma_room_keeps_active_readers(registry: RegistryView, run_id: Seq<char>)
    requires
        registry.wf(),
        !registry.is_exhausted(),
        registry.entries.dom().contains(run_id),
        registry.entries[run_id].active,
    ensures
        registry.with_room().entries.dom().contains(run_id),
        registry.with_room().entries[run_id] == registry.entries[run_id],
        registry.with_room().entries.dom().len() < MANAGED_LOG_READER_CAPACITY,
{
    if registry.entries.dom().len() >= MANAGED_LOG_READER_CAPACITY {
        assert(registry.completed.contains(registry.completed[0]));
    }
}

} // verus!
