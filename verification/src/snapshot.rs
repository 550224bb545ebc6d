//! Snapshots of the processes and port bindings, handed out in pages: the
//! cursor that names the next page, the pages themselves, and the frozen state
//! from which all pages of one snapshot are taken.

use vstd::prelude::*;
use vstd::string::*;

use crate::collection::{sorted, Entity, EntityKey};
use crate::error::{optional_text, plain_error, AppError, ErrorCode, ErrorView};
use crate::keys::PortBindingKey;
use crate::run::ProcessInstanceKey;
use crate::text::{decimal, decimal_text, hex_char, hex_digit, join, lower_hex};

verus! {

/// How many entities a page may hold.
pub const MAX_SNAPSHOT_CHUNK_ENTITIES: usize = 1_024;

/// How many bytes a page may take.
pub const MAX_SNAPSHOT_CHUNK_PAYLOAD_BYTES: usize = 786_432;

/// How long a cursor may be.
pub const MAX_SNAPSHOT_CURSOR_BYTES: usize = 128;

/// How many snapshots are kept at a time.
pub const MAX_SNAPSHOT_SESSIONS: usize = 4;

/// How long a snapshot is kept without being asked for, in milliseconds. It is
/// the same whether its last page has been handed out or not.
pub const SNAPSHOT_SESSION_IDLE_TIMEOUT_MS: u64 = 30_000;

/// How long a snapshot is kept at all, in milliseconds.
pub const SNAPSHOT_SESSION_MAX_LIFETIME_MS: u64 = 300_000;

/// The last hexadecimal digits of a number, in lower case.
pub open spec fn hex_fixed(n: nat, width: nat) -> Seq<char>
    decreases width,
{
    if width == 0 {
        Seq::empty()
    } else {
        hex_fixed(n / 16, (width - 1) as nat).push(hex_char((n % 16) as int))
    }
}

fn hex_padded(n: u32, width: usize) -> (text: String)
    ensures
        text@ == hex_fixed(n as nat, width as nat),
    decreases width,
{
    if width == 0 {
        return String::new();
    }
    let mut text = hex_padded(n / 16, width - 1);
    text.append(hex_digit((n % 16) as u8));
    proof {
        assert(text@ =~= hex_fixed(n as nat, width as nat));
    }
    text
}

/// The cursor of a page: the snapshot and the number of the page.
pub open spec fn cursor_text(snapshot_id: Seq<char>, chunk_index: u32) -> Seq<char> {
    snapshot_id + seq![':'] + hex_fixed(chunk_index as nat, 8)
}

pub fn format_snapshot_cursor(snapshot_id: &str, chunk_index: u32) -> (cursor: String)
    ensures
        cursor@ == cursor_text(snapshot_id@, chunk_index),
{
    proof {
        reveal_strlit(":");
        assert(":"@ =~= seq![':']);
    }
    let mut cursor = join(snapshot_id, ":");
    cursor.append(hex_padded(chunk_index, 8).as_str());
    cursor
}

/// The refusal of a cursor.
pub open spec fn invalid_cursor(reason: Seq<char>) -> ErrorView {
    plain_error(
        ErrorCode::InvalidArgument,
        "snapshot cursor does not match the frozen snapshot contract"@,
    ).with("field"@, "cursor"@).with("reason"@, reason)
}

pub fn invalid_snapshot_cursor(reason: &str) -> (error: AppError)
    ensures
        error@ == invalid_cursor(reason@),
{
    AppError::new(
        ErrorCode::InvalidArgument,
        "snapshot cursor does not match the frozen snapshot contract",
    ).with_detail("field", "cursor").with_detail("reason", reason)
}

/// Whether a character is a hexadecimal digit, in either case.
pub open spec fn is_hex(c: char) -> bool {
    '0' <= c <= '9' || 'a' <= c <= 'f' || 'A' <= c <= 'F'
}

/// Whether a character is a hexadecimal digit in lower case.
pub open spec fn is_lower_hex(c: char) -> bool {
    '0' <= c <= '9' || 'a' <= c <= 'f'
}

/// Whether eight characters read as a number: eight digits, or a plus sign and
/// seven.
pub open spec fn reads_as_index(text: Seq<char>) -> bool {
    &&& text.len() == 8
    &&& is_hex(text[0]) || text[0] == '+'
    &&& forall|i: int| 1 <= i < 8 ==> is_hex(#[trigger] text[i])
}

/// Whether a text is too long, empty or not of plain characters.
pub open spec fn is_unbounded(cursor: Seq<char>) -> bool {
    cursor.len() == 0 || cursor.len() > MAX_SNAPSHOT_CURSOR_BYTES || !vstd::utf8::is_ascii_chars(
        cursor,
    )
}

/// Whether a text is something, a colon and eight characters without a colon.
pub open spec fn has_cursor_shape(cursor: Seq<char>) -> bool {
    let split = cursor.len() - 9;
    &&& cursor.len() > 9
    &&& cursor[split] == ':'
    &&& forall|i: int| split < i < cursor.len() ==> #[trigger] cursor[i] != ':'
}

/// Why a text is not a cursor.
pub open spec fn cursor_fault(cursor: Seq<char>) -> Option<Seq<char>> {
    if is_unbounded(cursor) {
        Some("must be a bounded opaque ASCII continuation"@)
    } else if !has_cursor_shape(cursor) {
        Some("has an invalid shape"@)
    } else if !reads_as_index(cursor.subrange(cursor.len() - 8, cursor.len() as int)) {
        Some("has an invalid chunk index"@)
    } else if exists|i: int| cursor.len() - 8 <= i < cursor.len() && !is_lower_hex(#[trigger] cursor[i]) {
        Some("is not in canonical form"@)
    } else {
        None
    }
}

/// The value of a hexadecimal digit in lower case.
pub open spec fn hex_value(c: char) -> int {
    if '0' <= c <= '9' {
        c as int - 48
    } else {
        c as int - 87
    }
}

/// Sixteen to a power.
pub open spec fn pow16(exponent: nat) -> nat
    decreases exponent,
{
    if exponent == 0 {
        1
    } else {
        16 * pow16((exponent - 1) as nat)
    }
}

/// The number that hexadecimal digits in lower case stand for.
pub open spec fn hex_number(text: Seq<char>) -> nat
    decreases text.len(),
{
    if text.len() == 0 {
        0
    } else {
        (16 * hex_number(text.drop_last()) + hex_value(text.last())) as nat
    }
}

proof fn lemma_hex_number(text: Seq<char>)
    requires
        forall|i: int| 0 <= i < text.len() ==> is_lower_hex(#[trigger] text[i]),
    ensures
        hex_number(text) < pow16(text.len()),
        hex_fixed(hex_number(text), text.len()) == text,
    decreases text.len(),
{
    if text.len() > 0 {
        let rest = text.drop_last();
        assert forall|i: int| 0 <= i < rest.len() implies is_lower_hex(#[trigger] rest[i]) by {
            assert(is_lower_hex(text[i]));
        }
        lemma_hex_number(rest);
        assert(is_lower_hex(text[text.len() - 1]));
        let digit = hex_value(text.last());
        assert(hex_number(text) / 16 == hex_number(rest));
        assert(hex_number(text) % 16 == digit as nat);
        assert(hex_char(digit) == text.last());
        assert(hex_fixed(hex_number(text), text.len()) =~= rest.push(text.last()));
        assert(rest.push(text.last()) =~= text);
    }
}

proof fn lemma_hex_fixed(n: nat, width: nat)
    ensures
        hex_fixed(n, width).len() == width,
        forall|i: int| 0 <= i < width ==> is_lower_hex(#[trigger] hex_fixed(n, width)[i]),
        n < pow16(width) ==> hex_number(hex_fixed(n, width)) == n,
    decreases width,
{
    if width > 0 {
        lemma_hex_fixed(n / 16, (width - 1) as nat);
        let rest = hex_fixed(n / 16, (width - 1) as nat);
        assert(hex_fixed(n, width).drop_last() =~= rest);
        if n < pow16(width) {
            assert(n / 16 < pow16((width - 1) as nat));
        }
    }
}

/// What is read from a cursor is what was written into it.
pub proof fn lemma_cursor_round_trip(snapshot_id: Seq<char>, chunk_index: u32)
    requires
        snapshot_id.len() > 0,
        snapshot_id.len() + 9 <= MAX_SNAPSHOT_CURSOR_BYTES,
        vstd::utf8::is_ascii_chars(snapshot_id),
    ensures
        cursor_fault(cursor_text(snapshot_id, chunk_index)) is None,
        forall|other: Seq<char>, index: u32| #[trigger]
            cursor_text(other, index) == cursor_text(snapshot_id, chunk_index) ==> other
                == snapshot_id && index == chunk_index,
{
    let cursor = cursor_text(snapshot_id, chunk_index);
    let digits = hex_fixed(chunk_index as nat, 8);
    lemma_hex_fixed(chunk_index as nat, 8);
    assert(pow16(8) == 4_294_967_296) by {
        reveal_with_fuel(pow16, 9);
    }
    let split = cursor.len() - 9;
    assert(cursor.subrange(cursor.len() - 8, cursor.len() as int) =~= digits);
    assert forall|i: int| split < i < cursor.len() implies is_lower_hex(#[trigger] cursor[i]) by {
        assert(cursor[i] == digits[i - split - 1]);
    }
    assert forall|i: int| 0 <= i < cursor.len() implies '\0' <= #[trigger] cursor[i] <= '\u{7f}' by {
        if i < snapshot_id.len() {
            assert(cursor[i] == snapshot_id[i]);
        }
    }
    assert forall|other: Seq<char>, index: u32| #[trigger]
        cursor_text(other, index) == cursor implies other == snapshot_id && index
        == chunk_index by {
        lemma_hex_fixed(index as nat, 8);
        let text = cursor_text(other, index);
        assert(text.subrange(text.len() - 8, text.len() as int) =~= hex_fixed(index as nat, 8));
        assert(text.subrange(0, text.len() - 9) =~= other);
        assert(cursor.subrange(0, cursor.len() - 9) =~= snapshot_id);
    }
}

/// The form of the name of a snapshot: sixteen bytes in hexadecimal.
pub open spec fn is_snapshot_id(id: Seq<char>) -> bool {
    exists|bytes: Seq<u8>| bytes.len() == 16 && id == #[trigger] lower_hex(bytes)
}

/// The cursors of a snapshot can be read, and each names its snapshot and its
/// page.
pub proof fn lemma_cursor_of_snapshot(snapshot_id: Seq<char>, chunk_index: u32)
    requires
        is_snapshot_id(snapshot_id),
    ensures
        cursor_fault(cursor_text(snapshot_id, chunk_index)) is None,
        forall|other: Seq<char>, index: u32| #[trigger]
            cursor_text(other, index) == cursor_text(snapshot_id, chunk_index) ==> other
                == snapshot_id && index == chunk_index,
{
    let bytes = choose|bytes: Seq<u8>|
        bytes.len() == 16 && snapshot_id == #[trigger] lower_hex(bytes);
    assert(snapshot_id.len() == 32);
    assert forall|i: int| 0 <= i < snapshot_id.len() implies '\0' <= #[trigger] snapshot_id[i]
        <= '\u{7f}' by {
        let byte = bytes[i / 2] as int;
        assert(0 <= byte / 16 < 16 && 0 <= byte % 16 < 16);
    }
    lemma_cursor_round_trip(snapshot_id, chunk_index);
}

fn hex_byte(byte: u8) -> (hex: bool)
    requires
        byte < 128,
    ensures
        hex == is_hex(byte as char),
{
    (48 <= byte && byte <= 57) || (97 <= byte && byte <= 102) || (65 <= byte && byte <= 70)
}

/// Reads a cursor.
pub fn parse_snapshot_cursor(cursor: &str) -> (result: Result<(String, u32), AppError>)
    ensures
        match result {
            Ok((snapshot_id, chunk_index)) => cursor_fault(cursor@) is None && cursor@
                == cursor_text(snapshot_id@, chunk_index) && snapshot_id@.len() > 0,
            Err(error) => cursor_fault(cursor@) is Some && error@ == invalid_cursor(
                cursor_fault(cursor@)->0,
            ),
        },
{
    let ghost text = cursor@;
    if !cursor.is_ascii() {
        return Err(invalid_snapshot_cursor("must be a bounded opaque ASCII continuation"));
    }
    let length: usize = cursor.unicode_len();
    if length == 0 || length > MAX_SNAPSHOT_CURSOR_BYTES {
        return Err(invalid_snapshot_cursor("must be a bounded opaque ASCII continuation"));
    }
    if length <= 9 || cursor.get_ascii(length - 9) != 58 {
        return Err(invalid_snapshot_cursor("has an invalid shape"));
    }
    let split: usize = length - 9;
    proof {
        assert('\0' <= text[split as int] <= '\u{7f}');
    }
    let mut i: usize = split + 1;
    let mut readable = true;
    let mut canonical = true;
    let mut number: u32 = 0;
    proof {
        assert(text.subrange(split + 1, split + 1) =~= Seq::empty());
        reveal_with_fuel(pow16, 9);
    }
    while i < length
        invariant
            cursor.is_ascii(),
            text == cursor@,
            !is_unbounded(text),
            length == text.len(),
            split == length - 9,
            length > 9,
            split < i <= length,
            forall|k: int| split < k < i ==> #[trigger] text[k] != ':',
            readable <==> (forall|k: int|
                split < k < i ==> is_hex(#[trigger] text[k]) || (k == split + 1 && text[k] == '+')),
            canonical <==> (forall|k: int| split < k < i ==> is_lower_hex(#[trigger] text[k])),
            canonical ==> number == hex_number(text.subrange(split + 1, i as int)),
            canonical ==> number < pow16((i - split - 1) as nat),
        decreases length - i,
    {
        let byte: u8 = cursor.get_ascii(i);
        proof {
            assert('\0' <= text[i as int] <= '\u{7f}');
        }
        if byte == 58 {
            assert(text[i as int] == ':');
            return Err(invalid_snapshot_cursor("has an invalid shape"));
        }
        if !hex_byte(byte) && !(i == split + 1 && byte == 43) {
            readable = false;
        }
        let lower = (48 <= byte && byte <= 57) || (97 <= byte && byte <= 102);
        proof {
            let longer = text.subrange(split + 1, i + 1);
            assert(longer.drop_last() =~= text.subrange(split + 1, i as int));
            assert(longer.last() == text[i as int]);
            let exponent = (i - split - 1) as nat;
            assert(exponent <= 7);
            lemma_pow16_bound(exponent);
            assert(pow16(exponent + 1) == 16 * pow16(exponent));
        }
        if !lower {
            canonical = false;
        } else if canonical {
            let digit: u32 = if byte <= 57 { (byte - 48) as u32 } else { (byte - 87) as u32 };
            number = 16 * number + digit;
        }
        i += 1;
    }
    let ghost digits = text.subrange(length - 8, length as int);
    proof {
        assert(has_cursor_shape(text));
        assert forall|k: int| 0 <= k < 8 implies #[trigger] digits[k] == text[split + 1 + k] by {}
        if readable {
            assert forall|k: int| 1 <= k < 8 implies is_hex(#[trigger] digits[k]) by {
                assert(text[split + 1 + k] == digits[k]);
            }
            assert(digits[0] == text[split + 1]);
            assert(reads_as_index(digits));
        } else {
            let k = choose|k: int|
                split < k < length && !(is_hex(#[trigger] text[k]) || (k == split + 1 && text[k]
                    == '+'));
            assert(digits[k - split - 1] == text[k]);
            assert(!reads_as_index(digits));
        }
    }
    if !readable {
        return Err(invalid_snapshot_cursor("has an invalid chunk index"));
    }
    if !canonical {
        return Err(invalid_snapshot_cursor("is not in canonical form"));
    }
    let snapshot_id = cursor.substring_ascii(0, split).to_owned();
    proof {
        assert(digits =~= text.subrange(split + 1, length as int));
        assert forall|k: int| 0 <= k < digits.len() implies is_lower_hex(#[trigger] digits[k]) by {
            assert(is_lower_hex(text[split + 1 + k]));
        }
        lemma_hex_number(digits);
        assert(text =~= cursor_text(snapshot_id@, number));
    }
    Ok((snapshot_id, number))
}

proof fn lemma_pow16_bound(exponent: nat)
    requires
        exponent <= 7,
    ensures
        pow16(exponent) <= 268_435_456,
{
    reveal_with_fuel(pow16, 9);
}

pub fn snapshot_internal_error(message: &str) -> (error: AppError)
    ensures
        error@ == plain_error(ErrorCode::Internal, message@),
{
    AppError::new(ErrorCode::Internal, message)
}

/// The refusal of a collection that is too large to be counted.
pub open spec fn count_error(entity: Seq<char>, count: nat) -> ErrorView {
    plain_error(
        ErrorCode::Internal,
        "snapshot collection exceeds the wire count range"@,
    ).with("entity"@, entity).with("count"@, decimal_text(count))
}

pub fn snapshot_collection_count(entity: &str, count: usize) -> (result: Result<u32, AppError>)
    ensures
        match result {
            Ok(counted) => counted == count,
            Err(error) => count > u32::MAX && error@ == count_error(entity@, count as nat),
        },
{
    if count > 4_294_967_295 {
        return Err(
            snapshot_internal_error("snapshot collection exceeds the wire count range").with_detail(
                "entity",
                entity,
            ).with_detail("count", decimal(count as u64).as_str()),
        );
    }
    Ok(count as u32)
}

/// A page of a snapshot: a span of the processes and one of the port bindings.
#[derive(Clone, Copy, Debug, PartialEq, Eq, Structural)]
pub struct SnapshotPage {
    pub process_start: usize,
    pub process_end: usize,
    pub port_start: usize,
    pub port_end: usize,
    pub has_more: bool,
}

/// The state that all pages of a snapshot are taken from.
#[derive(Debug)]
pub struct FrozenSnapshotSession {
    pub snapshot_id: String,
    pub starting_revision: u64,
    pub revision: u64,
    pub processes: Vec<Entity<ProcessInstanceKey>>,
    pub port_bindings: Vec<Entity<PortBindingKey>>,
    pub total_entity_bytes: usize,
    pub pages: Vec<SnapshotPage>,
    pub created_at_ms: u64,
    pub last_accessed_at_ms: u64,
}

/// The bytes that a span of entities takes, each with a separator.
pub open spec fn span_bytes<K>(entities: Seq<Entity<K>>, start: int, end: int) -> nat
    decreases end - start,
{
    if end <= start {
        0
    } else {
        span_bytes(entities, start, end - 1) + entities[end - 1].counted_bytes as nat + 1
    }
}

proof fn lemma_span_first<K>(entities: Seq<Entity<K>>, start: int, end: int)
    requires
        start < end,
    ensures
        span_bytes(entities, start, end) >= entities[start].counted_bytes + 1,
    decreases end - start,
{
    if start < end - 1 {
        lemma_span_first(entities, start, end - 1);
    }
}

impl SnapshotPage {
    /// How many entities the page holds.
    pub open spec fn entities(self) -> int {
        (self.process_end - self.process_start) + (self.port_end - self.port_start)
    }

    /// The bytes that a page takes, with those of the page without entities.
    pub open spec fn bytes(self, session: FrozenSnapshotSession, baseline: usize) -> int {
        baseline + span_bytes(
            session.processes@,
            self.process_start as int,
            self.process_end as int,
        ) + span_bytes(session.port_bindings@, self.port_start as int, self.port_end as int)
    }

    /// The spans lie in the collections, and the port bindings come after the
    /// last process.
    pub open spec fn lies_in(self, session: FrozenSnapshotSession) -> bool {
        &&& self.process_start <= self.process_end <= session.processes@.len()
        &&& self.port_start <= self.port_end <= session.port_bindings@.len()
        &&& self.port_end > self.port_start ==> self.process_end == session.processes@.len()
        &&& self.has_more == (self.process_end < session.processes@.len() || self.port_end
            < session.port_bindings@.len())
    }

    /// The page holds as much as it may: it ends where the entities do, where
    /// it is full, or before an entity for which it has no room.
    pub open spec fn is_filled(self, session: FrozenSnapshotSession, baseline: usize) -> bool {
        &&& self.entities() <= MAX_SNAPSHOT_CHUNK_ENTITIES
        &&& self.entities() > 0 ==> self.bytes(session, baseline)
            <= MAX_SNAPSHOT_CHUNK_PAYLOAD_BYTES
        &&& self.has_more ==> self.entities() > 0
        &&& self.process_end < session.processes@.len() ==> self.entities()
            == MAX_SNAPSHOT_CHUNK_ENTITIES || self.bytes(session, baseline)
            + session.processes@[self.process_end as int].counted_bytes + 1
            > MAX_SNAPSHOT_CHUNK_PAYLOAD_BYTES
        &&& self.process_end == session.processes@.len() && self.port_end
            < session.port_bindings@.len() ==> self.entities() == MAX_SNAPSHOT_CHUNK_ENTITIES
            || self.bytes(session, baseline) + session.port_bindings@[
            self.port_end as int
        ].counted_bytes + 1 > MAX_SNAPSHOT_CHUNK_PAYLOAD_BYTES
    }
}

impl FrozenSnapshotSession {
    /// The name has its form; the pages that were handed out follow each other
    /// from the start, none holds more than it may, and only the last one may
    /// be the end.
    pub open spec fn wf(self) -> bool {
        &&& is_snapshot_id(self.snapshot_id@)
        &&& sorted(self.processes@)
        &&& sorted(self.port_bindings@)
        &&& self.pages@.len() <= u32::MAX
        &&& self.pages@.len() > 0 ==> self.pages@[0].process_start == 0
            && self.pages@[0].port_start == 0
        &&& forall|i: int|
            0 <= i < self.pages@.len() ==> (#[trigger] self.pages@[i]).lies_in(self)
                && self.pages@[i].entities() <= MAX_SNAPSHOT_CHUNK_ENTITIES
        &&& forall|i: int|
            0 < i < self.pages@.len() ==> (#[trigger] self.pages@[i]).process_start == self.pages@[
            i - 1].process_end && self.pages@[i].port_start == self.pages@[i - 1].port_end
        &&& forall|i: int|
            0 <= i < self.pages@.len() - 1 ==> (#[trigger] self.pages@[i]).has_more
    }

    /// Where the next page begins.
    pub open spec fn next_start(self) -> (int, int) {
        if self.pages@.len() == 0 {
            (0, 0)
        } else {
            (self.pages@.last().process_end as int, self.pages@.last().port_end as int)
        }
    }

    /// Whether the last page has been handed out.
    pub open spec fn is_complete(self) -> bool {
        self.pages@.len() > 0 && !self.pages@.last().has_more
    }
}

/// The refusal of an entity that does not fit any page.
pub open spec fn entity_too_large(entity: Seq<char>, index: nat, bytes: nat) -> ErrorView {
    plain_error(
        ErrorCode::Internal,
        "one snapshot entity exceeds the chunk byte budget"@,
    ).with("entity"@, entity).with("index"@, decimal_text(index)).with(
        "encodedBytes"@,
        decimal_text(bytes),
    ).with("maximumBytes"@, decimal_text(MAX_SNAPSHOT_CHUNK_PAYLOAD_BYTES as nat))
}

fn snapshot_entity_too_large(entity: &str, index: usize, bytes: usize) -> (error: AppError)
    ensures
        error@ == entity_too_large(entity@, index as nat, bytes as nat),
{
    snapshot_internal_error("one snapshot entity exceeds the chunk byte budget").with_detail(
        "entity",
        entity,
    ).with_detail("index", decimal(index as u64).as_str()).with_detail(
        "encodedBytes",
        decimal(bytes as u64).as_str(),
    ).with_detail(
        "maximumBytes",
        decimal(MAX_SNAPSHOT_CHUNK_PAYLOAD_BYTES as u64).as_str(),
    )
}

/// Why the next page of a snapshot cannot be made.
pub open spec fn page_refusal(session: FrozenSnapshotSession, baseline: usize) -> Option<ErrorView> {
    let (process, port) = session.next_start();
    if session.pages@.len() >= u32::MAX {
        Some(plain_error(ErrorCode::Internal, "snapshot chunk count is exhausted"@))
    } else if process < session.processes@.len() && baseline
        + session.processes@[process].counted_bytes + 1 > MAX_SNAPSHOT_CHUNK_PAYLOAD_BYTES {
        Some(
            entity_too_large(
                "process"@,
                process as nat,
                session.processes@[process].counted_bytes as nat,
            ),
        )
    } else if process >= session.processes@.len() && port < session.port_bindings@.len() && baseline
        + session.port_bindings@[port].counted_bytes + 1 > MAX_SNAPSHOT_CHUNK_PAYLOAD_BYTES {
        Some(
            entity_too_large(
                "port"@,
                port as nat,
                session.port_bindings@[port].counted_bytes as nat,
            ),
        )
    } else {
        None
    }
}

/// How far a span of entities can go on a page: to the end of the entities, to
/// a number of them, or to the first for which there is no room.
fn fill_span<K: EntityKey>(
    entities: &Vec<Entity<K>>,
    start: usize,
    taken: usize,
    used: usize,
) -> (span: (usize, usize))
    requires
        start <= entities@.len(),
        taken <= MAX_SNAPSHOT_CHUNK_ENTITIES,
        used <= MAX_SNAPSHOT_CHUNK_PAYLOAD_BYTES || taken == 0,
    ensures
        start <= span.0 <= entities@.len(),
        taken + (span.0 - start) <= MAX_SNAPSHOT_CHUNK_ENTITIES,
        span.1 == used + span_bytes(entities@, start as int, span.0 as int),
        span.0 > start ==> span.1 <= MAX_SNAPSHOT_CHUNK_PAYLOAD_BYTES,
        span.0 < entities@.len() ==> taken + (span.0 - start) == MAX_SNAPSHOT_CHUNK_ENTITIES
            || span.1 + entities@[span.0 as int].counted_bytes + 1
            > MAX_SNAPSHOT_CHUNK_PAYLOAD_BYTES,
{
    let mut end: usize = start;
    let mut payload: usize = used;
    while end < entities.len() && taken + (end - start) < MAX_SNAPSHOT_CHUNK_ENTITIES
        && payload.saturating_add(entities[end].counted_bytes).saturating_add(1)
        <= MAX_SNAPSHOT_CHUNK_PAYLOAD_BYTES
        invariant
            start <= end <= entities@.len(),
            taken <= MAX_SNAPSHOT_CHUNK_ENTITIES,
            taken + (end - start) <= MAX_SNAPSHOT_CHUNK_ENTITIES,
            payload == used + span_bytes(entities@, start as int, end as int),
            end > start ==> payload <= MAX_SNAPSHOT_CHUNK_PAYLOAD_BYTES,
        decreases entities@.len() - end,
    {
        payload = payload + entities[end].counted_bytes + 1;
        end += 1;
    }
    (end, payload)
}

/// The next page of a snapshot. The bytes of the page without entities are
/// given, as it is encoded.
pub fn build_snapshot_page(session: &FrozenSnapshotSession, baseline: usize) -> (result: Result<
    SnapshotPage,
    AppError,
>)
    requires
        session.wf(),
        !session.is_complete(),
    ensures
        match result {
            Ok(page) => {
                &&& page_refusal(*session, baseline) is None
                &&& (page.process_start as int, page.port_start as int) == session.next_start()
                &&& page.lies_in(*session)
                &&& page.is_filled(*session, baseline)
            },
            Err(error) => page_refusal(*session, baseline) == Some(error@),
        },
{
    let count: usize = session.pages.len();
    if count >= 4_294_967_295 {
        return Err(snapshot_internal_error("snapshot chunk count is exhausted"));
    }
    let (process_start, port_start): (usize, usize) = if count == 0 {
        (0, 0)
    } else {
        (session.pages[count - 1].process_end, session.pages[count - 1].port_end)
    };
    proof {
        if count > 0 {
            assert(session.pages@[count - 1].lies_in(*session));
        }
    }
    let (process_end, used): (usize, usize) = fill_span(
        &session.processes,
        process_start,
        0,
        baseline,
    );
    if process_end == process_start && process_end < session.processes.len() {
        return Err(
            snapshot_entity_too_large(
                "process",
                process_end,
                session.processes[process_end].counted_bytes,
            ),
        );
    }
    let mut port_end: usize = port_start;
    if process_end == session.processes.len() {
        let taken: usize = process_end - process_start;
        let (end, _) = fill_span(&session.port_bindings, port_start, taken, used);
        port_end = end;
        if taken == 0 && port_end == port_start && port_end < session.port_bindings.len() {
            return Err(
                snapshot_entity_too_large(
                    "port",
                    port_end,
                    session.port_bindings[port_end].counted_bytes,
                ),
            );
        }
    }
    proof {
        if process_start < process_end {
            lemma_span_first(session.processes@, process_start as int, process_end as int);
        }
        if port_start < port_end {
            lemma_span_first(session.port_bindings@, port_start as int, port_end as int);
        }
    }
    Ok(
        SnapshotPage {
            process_start,
            process_end,
            port_start,
            port_end,
            has_more: process_end < session.processes.len() || port_end
                < session.port_bindings.len(),
        },
    )
}

/// A page of a snapshot as it is handed out.
#[derive(Debug)]
pub struct SystemSnapshot {
    pub snapshot_id: String,
    pub chunk_index: u32,
    pub revision: u64,
    pub process_count: u32,
    pub port_binding_count: u32,
    pub total_entity_bytes: u64,
    pub processes: Vec<Entity<ProcessInstanceKey>>,
    pub port_bindings: Vec<Entity<PortBindingKey>>,
    pub next_cursor: Option<String>,
}

/// Copies of a span of entities.
pub open spec fn is_span<K: EntityKey>(
    copies: Seq<Entity<K>>,
    entities: Seq<Entity<K>>,
    start: int,
    end: int,
) -> bool {
    &&& copies.len() == end - start
    &&& forall|i: int|
        0 <= i < copies.len() ==> (#[trigger] copies[i]).key.key() == entities[start + i].key.key()
            && copies[i].says() == entities[start + i].says()
}

fn copy_span<K: EntityKey>(entities: &Vec<Entity<K>>, start: usize, end: usize) -> (copies: Vec<
    Entity<K>,
>)
    requires
        start <= end <= entities@.len(),
    ensures
        is_span(copies@, entities@, start as int, end as int),
{
    let mut copies: Vec<Entity<K>> = Vec::new();
    let mut i: usize = start;
    while i < end
        invariant
            start <= i <= end <= entities@.len(),
            copies@.len() == i - start,
            forall|k: int|
                0 <= k < copies@.len() ==> (#[trigger] copies@[k]).key.key() == entities@[start
                    + k].key.key() && copies@[k].says() == entities@[start + k].says(),
        decreases end - i,
    {
        copies.push(
            Entity {
                key: entities[i].key.copy(),
                content: entities[i].content.clone(),
                last_seen_revision: entities[i].last_seen_revision,
                counted_bytes: entities[i].counted_bytes,
            },
        );
        i += 1;
    }
    copies
}

/// What a page shows: its entities, how many there are in all, and the cursor
/// of the next page where there is one.
pub open spec fn shows_page(
    shown: SystemSnapshot,
    session: FrozenSnapshotSession,
    chunk_index: u32,
    page: SnapshotPage,
) -> bool {
    &&& shown.snapshot_id@ == session.snapshot_id@
    &&& shown.chunk_index == chunk_index
    &&& shown.revision == session.revision
    &&& shown.process_count == session.processes@.len()
    &&& shown.port_binding_count == session.port_bindings@.len()
    &&& shown.total_entity_bytes == session.total_entity_bytes
    &&& is_span(
        shown.processes@,
        session.processes@,
        page.process_start as int,
        page.process_end as int,
    )
    &&& is_span(
        shown.port_bindings@,
        session.port_bindings@,
        page.port_start as int,
        page.port_end as int,
    )
    &&& optional_text(shown.next_cursor) == (if page.has_more {
        Some(cursor_text(session.snapshot_id@, (chunk_index + 1) as u32))
    } else {
        None
    })
}

/// The refusal of collections that are too large to be counted.
pub open spec fn counts_refusal(session: FrozenSnapshotSession) -> Option<ErrorView> {
    if session.processes@.len() > u32::MAX {
        Some(count_error("process"@, session.processes@.len()))
    } else if session.port_bindings@.len() > u32::MAX {
        Some(count_error("port"@, session.port_bindings@.len()))
    } else {
        None
    }
}

/// Shows a page.
pub fn make_snapshot_page_response(
    session: &FrozenSnapshotSession,
    chunk_index: u32,
    page: &SnapshotPage,
) -> (result: Result<SystemSnapshot, AppError>)
    requires
        page.lies_in(*session),
        chunk_index < u32::MAX,
    ensures
        match result {
            Ok(shown) => counts_refusal(*session) is None && shows_page(
                shown,
                *session,
                chunk_index,
                *page,
            ),
            Err(error) => counts_refusal(*session) == Some(error@),
        },
{
    let process_count = match snapshot_collection_count("process", session.processes.len()) {
        Ok(count) => count,
        Err(error) => return Err(error),
    };
    let port_binding_count = match snapshot_collection_count(
        "port",
        session.port_bindings.len(),
    ) {
        Ok(count) => count,
        Err(error) => return Err(error),
    };
    Ok(
        SystemSnapshot {
            snapshot_id: session.snapshot_id.clone(),
            chunk_index,
            revision: session.revision,
            process_count,
            port_binding_count,
            total_entity_bytes: session.total_entity_bytes as u64,
            processes: copy_span(&session.processes, page.process_start, page.process_end),
            port_bindings: copy_span(&session.port_bindings, page.port_start, page.port_end),
            next_cursor: if page.has_more {
                Some(format_snapshot_cursor(session.snapshot_id.as_str(), chunk_index + 1))
            } else {
                None
            },
        },
    )
}

/// What the next page looks like without entities; its encoded length is what
/// the entities are added to.
pub fn snapshot_page_baseline(session: &FrozenSnapshotSession) -> (result: Result<
    SystemSnapshot,
    AppError,
>)
    requires
        session.wf(),
        session.pages@.len() < u32::MAX,
    ensures
        match result {
            Ok(shown) => {
                &&& counts_refusal(*session) is None
                &&& shown.snapshot_id@ == session.snapshot_id@
                &&& shown.chunk_index == session.pages@.len()
                &&& shown.revision == session.revision
                &&& shown.process_count == session.processes@.len()
                &&& shown.port_binding_count == session.port_bindings@.len()
                &&& shown.total_entity_bytes == session.total_entity_bytes
                &&& shown.processes@.len() == 0
                &&& shown.port_bindings@.len() == 0
                &&& optional_text(shown.next_cursor) == Some(
                    cursor_text(session.snapshot_id@, (session.pages@.len() + 1) as u32),
                )
            },
            Err(error) => counts_refusal(*session) == Some(error@),
        },
{
    let chunk_index: u32 = session.pages.len() as u32;
    let process_count = match snapshot_collection_count("process", session.processes.len()) {
        Ok(count) => count,
        Err(error) => return Err(error),
    };
    let port_binding_count = match snapshot_collection_count(
        "port",
        session.port_bindings.len(),
    ) {
        Ok(count) => count,
        Err(error) => return Err(error),
    };
    Ok(
        SystemSnapshot {
            snapshot_id: session.snapshot_id.clone(),
            chunk_index,
            revision: session.revision,
            process_count,
            port_binding_count,
            total_entity_bytes: session.total_entity_bytes as u64,
            processes: Vec::new(),
            port_bindings: Vec::new(),
            next_cursor: Some(
                format_snapshot_cursor(session.snapshot_id.as_str(), chunk_index + 1),
            ),
        },
    )
}

/// The refusal of a page that takes more bytes than it may.
pub open spec fn chunk_too_large(bytes: nat) -> ErrorView {
    plain_error(
        ErrorCode::Internal,
        "snapshot chunk exceeds its encoded byte budget"@,
    ).with("encodedBytes"@, decimal_text(bytes)).with(
        "maximumBytes"@,
        decimal_text(MAX_SNAPSHOT_CHUNK_PAYLOAD_BYTES as nat),
    )
}

/// Whether a page as it is encoded takes no more bytes than it may.
pub fn check_chunk_bytes(encoded_bytes: usize) -> (result: Result<(), AppError>)
    ensures
        match result {
            Ok(_) => encoded_bytes <= MAX_SNAPSHOT_CHUNK_PAYLOAD_BYTES,
            Err(error) => encoded_bytes > MAX_SNAPSHOT_CHUNK_PAYLOAD_BYTES && error@
                == chunk_too_large(encoded_bytes as nat),
        },
{
    if encoded_bytes > MAX_SNAPSHOT_CHUNK_PAYLOAD_BYTES {
        return Err(
            snapshot_internal_error("snapshot chunk exceeds its encoded byte budget").with_detail(
                "encodedBytes",
                decimal(encoded_bytes as u64).as_str(),
            ).with_detail(
                "maximumBytes",
                decimal(MAX_SNAPSHOT_CHUNK_PAYLOAD_BYTES as u64).as_str(),
            ),
        );
    }
    Ok(())
}

/// The page on which an entity of a collection stands, given where each page
/// ends in it.
proof fn lemma_page_of(ends: Seq<int>, place: int) -> (page: int)
    requires
        ends.len() > 0,
        0 <= place < ends.last(),
        forall|i: int| 0 <= i < ends.len() ==> 0 <= #[trigger] ends[i],
    ensures
        0 <= page < ends.len(),
        place < ends[page],
        page > 0 ==> ends[page - 1] <= place,
    decreases ends.len(),
{
    if ends.len() == 1 || ends[ends.len() - 2] <= place {
        ends.len() - 1
    } else {
        let rest = ends.drop_last();
        assert forall|i: int| 0 <= i < rest.len() implies 0 <= #[trigger] rest[i] by {
            assert(0 <= ends[i]);
        }
        let page = lemma_page_of(rest, place);
        assert(rest[page] == ends[page]);
        if page > 0 {
            assert(rest[page - 1] == ends[page - 1]);
        }
        page
    }
}

/// The pages of a snapshot that is complete hold every process and every port
/// binding of the frozen state, each on one page.
pub proof fn lemma_pages_hold_everything(session: FrozenSnapshotSession, place: int)
    requires
        session.wf(),
        session.is_complete(),
    ensures
        0 <= place < session.processes@.len() ==> exists|i: int|
            0 <= i < session.pages@.len() && (#[trigger] session.pages@[i]).process_start <= place
                < session.pages@[i].process_end,
        0 <= place < session.port_bindings@.len() ==> exists|i: int|
            0 <= i < session.pages@.len() && (#[trigger] session.pages@[i]).port_start <= place
                < session.pages@[i].port_end,
        forall|i: int, j: int|
            0 <= i < j < session.pages@.len() ==> (#[trigger] session.pages@[i]).process_end <= (
            #[trigger] session.pages@[j]).process_start && session.pages@[i].port_end
                <= session.pages@[j].port_start,
{
    let pages = session.pages@;
    assert(pages[pages.len() - 1].lies_in(session));
    if 0 <= place < session.processes@.len() {
        let ends = Seq::new(pages.len(), |i: int| pages[i].process_end as int);
        let page = lemma_page_of(ends, place);
        assert(pages[page].lies_in(session));
        assert(pages[page].process_start <= place < pages[page].process_end);
    }
    if 0 <= place < session.port_bindings@.len() {
        let ends = Seq::new(pages.len(), |i: int| pages[i].port_end as int);
        let page = lemma_page_of(ends, place);
        assert(pages[page].lies_in(session));
        assert(pages[page].port_start <= place < pages[page].port_end);
    }
    assert forall|i: int, j: int| 0 <= i < j < pages.len() implies (
    #[trigger] pages[i]).process_end <= (#[trigger] pages[j]).process_start && pages[i].port_end
        <= pages[j].port_start by {
        lemma_pages_rise(session, i, j);
    }
}

proof fn lemma_pages_rise(session: FrozenSnapshotSession, i: int, j: int)
    requires
        session.wf(),
        0 <= i < j < session.pages@.len(),
    ensures
        session.pages@[i].process_end <= session.pages@[j].process_start,
        session.pages@[i].port_end <= session.pages@[j].port_start,
    decreases j - i,
{
    assert(session.pages@[j].process_start == session.pages@[j - 1].process_end);
    if i < j - 1 {
        lemma_pages_rise(session, i, j - 1);
        assert(session.pages@[j - 1].lies_in(session));
    }
}

/// Every page but an empty last one moves on, so a snapshot comes to its end.
pub proof fn lemma_pages_move_on(session: FrozenSnapshotSession, page: SnapshotPage, baseline: usize)
    requires
        session.wf(),
        !session.is_complete(),
        page.lies_in(session),
        page.is_filled(session, baseline),
        (page.process_start as int, page.port_start as int) == session.next_start(),
    ensures
        page.has_more ==> page.process_end + page.port_end > session.next_start().0
            + session.next_start().1,
        !page.has_more ==> page.process_end == session.processes@.len() && page.port_end
            == session.port_bindings@.len(),
{
}

} // verus!
