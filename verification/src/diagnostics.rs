//! Diagnostic exports: one at a time, each answered again under its own
//! operation, and cancelled by the request that asked for it.

use vstd::prelude::*;

use crate::digest::{sha256, sha256_digest};
use crate::error::{plain_error, AppError, ErrorCode, ErrorView};
use crate::logs::{kind_name, LogErrorKind, LogFault};
use crate::registry::without;
use crate::table::Table;
use crate::text::{encode_lower_hex, lower_hex, same_text, texts_of};
use crate::timestamp::{read_clock, UnixTime};

verus! {

/// How many finished exports are answered again.
pub const MAX_COMPLETED_EXPORT_OPERATIONS: usize = 128;

/// How many finished requests are known.
pub const MAX_COMPLETED_EXPORT_REQUESTS: usize = 256;

/// What an export is to hold besides the summary of the system.
#[derive(Clone, Copy, Debug, PartialEq, Eq, Structural)]
pub struct ExportRequest {
    pub include_application_logs: bool,
    pub include_database_summary: bool,
}

/// The parts of an export.
#[derive(Clone, Copy, Debug, PartialEq, Eq, Structural)]
pub enum ContentKind {
    SystemSummary,
    ApplicationLogs,
    DatabaseSummary,
}

/// What a part of an export gives away.
#[derive(Clone, Copy, Debug, PartialEq, Eq, Structural)]
pub enum ContentPrivacy {
    MetadataOnly,
    StructuredRedacted,
    AggregateOnly,
}

/// A part of an export as it is shown.
#[derive(Clone, Copy, Debug, PartialEq, Eq, Structural)]
pub struct ManifestItem {
    pub kind: ContentKind,
    pub included: bool,
    pub available: bool,
    pub estimated_bytes: u64,
    pub maximum_bytes: u64,
    pub privacy: ContentPrivacy,
    pub truncated: bool,
}

/// What an export holds.
#[derive(Debug)]
pub struct DiagnosticsManifest {
    pub format_version: u16,
    pub items: Vec<ManifestItem>,
    pub selected_estimated_bytes: u64,
    pub selected_maximum_bytes: u64,
    pub byte_budget: u64,
}

/// An export that was written.
#[derive(Debug)]
pub struct ExportResult {
    pub file_name: String,
    pub total_bytes: u64,
    pub sha256: String,
    pub manifest: DiagnosticsManifest,
}

/// What an export that was written says.
pub struct ExportResultView {
    pub file_name: Seq<char>,
    pub total_bytes: u64,
    pub sha256: Seq<char>,
    pub format_version: u16,
    pub items: Seq<ManifestItem>,
    pub selected_estimated_bytes: u64,
    pub selected_maximum_bytes: u64,
    pub byte_budget: u64,
}

impl View for ExportResult {
    type V = ExportResultView;

    open spec fn view(&self) -> ExportResultView {
        ExportResultView {
            file_name: self.file_name@,
            total_bytes: self.total_bytes,
            sha256: self.sha256@,
            format_version: self.manifest.format_version,
            items: self.manifest.items@,
            selected_estimated_bytes: self.manifest.selected_estimated_bytes,
            selected_maximum_bytes: self.manifest.selected_maximum_bytes,
            byte_budget: self.manifest.byte_budget,
        }
    }
}

fn copy_items(items: &Vec<ManifestItem>) -> (copy: Vec<ManifestItem>)
    ensures
        copy@ == items@,
{
    let mut copy: Vec<ManifestItem> = Vec::new();
    let mut i: usize = 0;
    while i < items.len()
        invariant
            i <= items@.len(),
            copy@ == items@.subrange(0, i as int),
        decreases items@.len() - i,
    {
        copy.push(items[i]);
        i += 1;
        assert(copy@ =~= items@.subrange(0, i as int));
    }
    assert(items@.subrange(0, items@.len() as int) =~= items@);
    copy
}

impl ExportResult {
    pub fn copy(&self) -> (copy: Self)
        ensures
            copy@ == self@,
    {
        ExportResult {
            file_name: self.file_name.clone(),
            total_bytes: self.total_bytes,
            sha256: self.sha256.clone(),
            manifest: DiagnosticsManifest {
                format_version: self.manifest.format_version,
                items: copy_items(&self.manifest.items),
                selected_estimated_bytes: self.manifest.selected_estimated_bytes,
                selected_maximum_bytes: self.manifest.selected_maximum_bytes,
                byte_budget: self.manifest.byte_budget,
            },
        }
    }
}

/// The export that is being made.
#[derive(Debug)]
pub struct ActiveExport {
    pub request_id: String,
    pub operation_id: String,
    pub request: ExportRequest,
    pub cancelled: bool,
}

/// What the export that is being made says.
pub struct ActiveView {
    pub request_id: Seq<char>,
    pub operation_id: Seq<char>,
    pub request: ExportRequest,
    pub cancelled: bool,
}

/// An export that was made.
#[derive(Debug)]
pub struct CompletedExport {
    pub request: ExportRequest,
    pub result: ExportResult,
}

/// What is known of exports.
#[derive(Debug)]
pub struct ExportRegistry {
    active: Option<ActiveExport>,
    completed: Table<CompletedExport>,
    order: Vec<String>,
    requests: Vec<String>,
}

/// What a registry of exports holds: the one that is being made, those that
/// were made, the order in which they were, and the requests that are done.
pub struct ExportsView {
    pub active: Option<ActiveView>,
    pub completed: Map<Seq<char>, CompletedExport>,
    pub order: Seq<Seq<char>>,
    pub requests: Seq<Seq<char>>,
}

pub open spec fn active_view(active: Option<ActiveExport>) -> Option<ActiveView> {
    match active {
        Some(active) => Some(
            ActiveView {
                request_id: active.request_id@,
                operation_id: active.operation_id@,
                request: active.request,
                cancelled: active.cancelled,
            },
        ),
        None => None,
    }
}

impl View for ExportRegistry {
    type V = ExportsView;

    closed spec fn view(&self) -> ExportsView {
        ExportsView {
            active: active_view(self.active),
            completed: self.completed@,
            order: texts_of(self.order@),
            requests: texts_of(self.requests@),
        }
    }
}

/// A queue with a text at its end: it leaves its earlier place, and where the
/// queue is full, the first one goes.
pub open spec fn remembered(queue: Seq<Seq<char>>, text: Seq<char>, capacity: nat) -> Seq<Seq<char>> {
    let rest = without(queue, text);
    if rest.len() >= capacity {
        rest.drop_first().push(text)
    } else {
        rest.push(text)
    }
}

/// The exports without the one that was written to a file.
pub open spec fn without_file(exports: ExportsView, file_name: Seq<char>) -> ExportsView {
    if exists|id: Seq<char>| #[trigger] is_file_of(exports.completed, id, file_name) {
        let id = choose|id: Seq<char>| #[trigger] is_file_of(exports.completed, id, file_name);
        ExportsView {
            completed: exports.completed.remove(id),
            order: without(exports.order, id),
            ..exports
        }
    } else {
        exports
    }
}

/// Whether an export was written to a file.
pub open spec fn is_file_of(
    completed: Map<Seq<char>, CompletedExport>,
    id: Seq<char>,
    file_name: Seq<char>,
) -> bool {
    completed.dom().contains(id) && completed[id].result.file_name@ == file_name
}

impl ExportsView {
    /// The order names each export that was made once, no two of them were
    /// written to the same file, and nothing grows without bound.
    pub open spec fn wf(self) -> bool {
        &&& self.order.no_duplicates()
        &&& forall|id: Seq<char>| #[trigger]
            self.order.contains(id) <==> self.completed.dom().contains(id)
        &&& self.order.len() <= MAX_COMPLETED_EXPORT_OPERATIONS
        &&& self.requests.no_duplicates()
        &&& self.requests.len() <= MAX_COMPLETED_EXPORT_REQUESTS
        &&& forall|a: Seq<char>, b: Seq<char>|
            #![trigger self.completed.dom().contains(a), self.completed.dom().contains(b)]
            self.completed.dom().contains(a) && self.completed.dom().contains(b)
                && self.completed[a].result.file_name@ == self.completed[b].result.file_name@
                ==> a == b
    }

    /// The exports once a request is done.
    pub open spec fn request_done(self, request_id: Seq<char>) -> ExportsView {
        ExportsView {
            active: if self.active is Some && self.active->0.request_id == request_id {
                None
            } else {
                self.active
            },
            requests: remembered(
                self.requests,
                request_id,
                MAX_COMPLETED_EXPORT_REQUESTS as nat,
            ),
            ..self
        }
    }

    /// Room for one more export that was made: the first one goes.
    pub open spec fn with_operation_room(self, operation_id: Seq<char>) -> ExportsView {
        if self.completed.dom().contains(operation_id) || self.order.len()
            < MAX_COMPLETED_EXPORT_OPERATIONS {
            self
        } else {
            ExportsView {
                completed: self.completed.remove(self.order[0]),
                order: self.order.drop_first(),
                ..self
            }
        }
    }
}

/// The exports once one more has been made: the one that its file was written
/// for before is forgotten, and where there are as many as can be kept, the
/// first one; every other one stays as it is, in its place.
pub open spec fn export_kept(
    before: ExportsView,
    operation_id: Seq<char>,
    request: ExportRequest,
    result: ExportResult,
    after: ExportsView,
) -> bool {
    let room = without_file(before, result.file_name@).with_operation_room(operation_id);
    &&& after.active == before.active
    &&& after.requests == before.requests
    &&& after.order == (if room.completed.dom().contains(operation_id) {
        room.order
    } else {
        room.order.push(operation_id)
    })
    &&& after.completed.dom() == room.completed.dom().insert(operation_id)
    &&& after.completed[operation_id].request == request
    &&& after.completed[operation_id].result@ == result@
    &&& forall|other: Seq<char>|
        other != operation_id && room.completed.dom().contains(other)
            ==> #[trigger] after.completed[other] == room.completed[other]
}

/// Takes a text out of a queue in which it stands at most once.
fn take_text(queue: &mut Vec<String>, text: &str)
    requires
        texts_of(old(queue)@).no_duplicates(),
    ensures
        texts_of(final(queue)@) == without(texts_of(old(queue)@), text@),
        texts_of(final(queue)@).no_duplicates(),
        forall|other: Seq<char>| #[trigger]
            texts_of(final(queue)@).contains(other) <==> texts_of(old(queue)@).contains(other)
                && other != text@,
        texts_of(final(queue)@).len() <= texts_of(old(queue)@).len(),
{
    proof {
        crate::registry::lemma_without(texts_of(queue@), text@);
    }
    crate::registry::take_out(queue, text);
}

pub fn remember_completed_request(requests: &mut Vec<String>, request_id: &str)
    requires
        texts_of(old(requests)@).no_duplicates(),
        old(requests)@.len() <= MAX_COMPLETED_EXPORT_REQUESTS,
    ensures
        texts_of(final(requests)@) == remembered(
            texts_of(old(requests)@),
            request_id@,
            MAX_COMPLETED_EXPORT_REQUESTS as nat,
        ),
        texts_of(final(requests)@).no_duplicates(),
        final(requests)@.len() <= MAX_COMPLETED_EXPORT_REQUESTS,
{
    take_text(requests, request_id);
    let ghost rest = texts_of(requests@);
    if requests.len() >= MAX_COMPLETED_EXPORT_REQUESTS {
        let first = requests.remove(0);
        proof {
            assert(texts_of(requests@) =~= rest.drop_first());
            lemma_dropped(rest);
        }
    }
    let ghost between = texts_of(requests@);
    requests.push(request_id.to_owned());
    proof {
        assert(texts_of(requests@) =~= between.push(request_id@));
        crate::registry::lemma_pushed(between, request_id@);
    }
}

proof fn lemma_dropped(queue: Seq<Seq<char>>)
    requires
        queue.no_duplicates(),
        queue.len() > 0,
    ensures
        queue.drop_first().no_duplicates(),
        forall|other: Seq<char>| #[trigger]
            queue.drop_first().contains(other) <==> queue.contains(other) && other != queue[0],
{
    let rest = queue.drop_first();
    assert forall|other: Seq<char>| #[trigger]
        rest.contains(other) == (queue.contains(other) && other != queue[0]) by {
        if rest.contains(other) {
            let k = rest.index_of(other);
            assert(queue[k + 1] == other);
        }
        if queue.contains(other) && other != queue[0] {
            let k = queue.index_of(other);
            assert(rest[k - 1] == other);
        }
    }
}

/// What an export that is asked for comes to.
#[derive(Debug)]
pub enum ExportReservation {
    /// It was made before.
    Replay(ExportResult),
    /// It is being made now.
    Active,
}

/// What an export that is asked for comes to.
pub enum ReservationView {
    /// It was made before, with this result.
    Replay { result: ExportResultView },
    /// It is being made now.
    Begin,
    /// Its operation was asked with other options.
    Conflict,
    /// Another one is being made.
    Busy,
}

/// What an export that is asked for comes to: while one is being made no other
/// begins, and an operation keeps the options it was first asked with.
pub open spec fn reservation_of(
    exports: ExportsView,
    operation_id: Seq<char>,
    request: ExportRequest,
) -> ReservationView {
    if exports.active is Some {
        if exports.active->0.operation_id == operation_id && exports.active->0.request != request {
            ReservationView::Conflict
        } else {
            ReservationView::Busy
        }
    } else if exports.completed.dom().contains(operation_id) {
        if exports.completed[operation_id].request != request {
            ReservationView::Conflict
        } else {
            ReservationView::Replay { result: exports.completed[operation_id].result@ }
        }
    } else {
        ReservationView::Begin
    }
}

/// Whether a cancellation reached an export.
#[derive(Clone, Copy, Debug, PartialEq, Eq, Structural)]
pub enum CancelDisposition {
    Accepted,
    AlreadyCompleted,
    NotFound,
}

pub open spec fn operation_conflict(operation_id: Seq<char>) -> ErrorView {
    plain_error(
        ErrorCode::Conflict,
        "diagnostic export operation ID is bound to different options"@,
    ).of_operation(operation_id)
}

fn export_operation_conflict(operation_id: &str) -> (error: AppError)
    ensures
        error@ == operation_conflict(operation_id@),
{
    AppError::new(
        ErrorCode::Conflict,
        "diagnostic export operation ID is bound to different options",
    ).attach_operation_id(operation_id)
}

pub open spec fn busy_error(operation_id: Seq<char>) -> ErrorView {
    plain_error(
        ErrorCode::Conflict,
        "a diagnostic export is already active"@,
    ).of_operation(operation_id).retry()
}

fn export_busy_error(operation_id: &str) -> (error: AppError)
    ensures
        error@ == busy_error(operation_id@),
{
    AppError::new(
        ErrorCode::Conflict,
        "a diagnostic export is already active",
    ).attach_operation_id(operation_id).as_retryable()
}

pub open spec fn cancelled_error() -> ErrorView {
    plain_error(
        ErrorCode::Conflict,
        "diagnostic export was cancelled"@,
    ).retry().with("reason"@, "cancelled"@)
}

pub fn cancelled_export_error() -> (error: AppError)
    ensures
        error@ == cancelled_error(),
{
    AppError::new(
        ErrorCode::Conflict,
        "diagnostic export was cancelled",
    ).as_retryable().with_detail("reason", "cancelled")
}

/// An export was asked for: what is answered, and what becomes of the registry.
pub open spec fn export_reserved(
    before: ExportsView,
    request_id: Seq<char>,
    operation_id: Seq<char>,
    request: ExportRequest,
    result: Result<ExportReservation, AppError>,
    after: ExportsView,
) -> bool {
    match reservation_of(before, operation_id, request) {
        ReservationView::Conflict => result is Err && result->Err_0@ == operation_conflict(
            operation_id,
        ) && after == before,
        ReservationView::Busy => result is Err && result->Err_0@ == busy_error(operation_id)
            && after == before,
        ReservationView::Replay { result: made } => {
            &&& result is Ok && result->Ok_0 is Replay
            &&& result->Ok_0->Replay_0@ == made
            &&& after == (ExportsView {
                requests: remembered(
                    before.requests,
                    request_id,
                    MAX_COMPLETED_EXPORT_REQUESTS as nat,
                ),
                ..before
            })
        },
        ReservationView::Begin => {
            &&& result is Ok && result->Ok_0 is Active
            &&& after == (ExportsView {
                active: Some(
                    ActiveView { request_id, operation_id, request, cancelled: false },
                ),
                ..before
            })
        },
    }
}

/// An export was to be cancelled: what is answered, and what becomes of the registry.
pub open spec fn export_cancelled(
    before: ExportsView,
    target_request_id: Seq<char>,
    disposition: CancelDisposition,
    after: ExportsView,
) -> bool {
    if before.active is Some && before.active->0.request_id == target_request_id {
        &&& disposition == CancelDisposition::Accepted
        &&& after == (ExportsView {
            active: Some((ActiveView { cancelled: true, ..before.active->0 })),
            ..before
        })
    } else {
        &&& after == before
        &&& disposition == (if before.requests.contains(target_request_id) {
            CancelDisposition::AlreadyCompleted
        } else {
            CancelDisposition::NotFound
        })
    }
}

/// An export has ended, and what becomes of the registry.
pub open spec fn export_finished(
    before: ExportsView,
    request_id: Seq<char>,
    operation_id: Seq<char>,
    request: ExportRequest,
    result: Result<ExportResult, AppError>,
    after: ExportsView,
) -> bool {
    match result {
        Ok(result) => export_kept(
            before.request_done(request_id),
            operation_id,
            request,
            result,
            after,
        ),
        Err(_) => after == before.request_done(request_id),
    }
}

impl ExportRegistry {
    pub closed spec fn tables_wf(self) -> bool {
        self.completed.wf()
    }

    /// What every operation keeps.
    pub open spec fn wf(self) -> bool {
        self.tables_wf() && self@.wf()
    }

    pub fn new() -> (registry: Self)
        ensures
            registry.wf(),
            registry@.active is None,
            registry@.completed == Map::<Seq<char>, CompletedExport>::empty(),
            registry@.order == Seq::<Seq<char>>::empty(),
            registry@.requests == Seq::<Seq<char>>::empty(),
    {
        let registry = ExportRegistry {
            active: None,
            completed: Table::new(),
            order: Vec::new(),
            requests: Vec::new(),
        };
        proof {
            assert(registry@.order =~= Seq::<Seq<char>>::empty());
            assert(registry@.requests =~= Seq::<Seq<char>>::empty());
        }
        registry
    }

    /// Asks for an export. While one is being made no other begins, and an
    /// operation keeps the options it was first asked with.
    pub fn reserve_export(
        &mut self,
        request_id: &str,
        operation_id: &str,
        request: ExportRequest,
    ) -> (result: Result<ExportReservation, AppError>)
        requires
            old(self).wf(),
        ensures
            final(self).wf(),
            export_reserved(
                old(self)@,
                request_id@,
                operation_id@,
                request,
                result,
                final(self)@,
            ),
    {
        let ghost before = self@;
        if let Some(active) = &self.active {
            if same_text(active.operation_id.as_str(), operation_id) && active.request != request {
                return Err(export_operation_conflict(operation_id));
            }
            return Err(export_busy_error(operation_id));
        }
        let replay = match self.completed.get(operation_id) {
            Some(completed) => {
                if completed.request != request {
                    return Err(export_operation_conflict(operation_id));
                }
                Some(completed.result.copy())
            },
            None => None,
        };
        match replay {
            Some(result) => {
                remember_completed_request(&mut self.requests, request_id);
                Ok(ExportReservation::Replay(result))
            },
            None => {
                self.active = Some(
                    ActiveExport {
                        request_id: request_id.to_owned(),
                        operation_id: operation_id.to_owned(),
                        request,
                        cancelled: false,
                    },
                );
                proof {
                    assert(self@ == (ExportsView { active: self@.active, ..before }));
                }
                Ok(ExportReservation::Active)
            },
        }
    }

    /// Cancels the export that a request asked for, by that request only.
    pub fn cancel_export(&mut self, target_request_id: &str) -> (disposition: CancelDisposition)
        requires
            old(self).wf(),
        ensures
            final(self).wf(),
            export_cancelled(old(self)@, target_request_id@, disposition, final(self)@),
    {
        let ghost before = self@;
        let hit = match &self.active {
            Some(active) => same_text(active.request_id.as_str(), target_request_id),
            None => false,
        };
        if hit {
            if let Some(active) = self.active.take() {
                let mut active = active;
                active.cancelled = true;
                self.active = Some(active);
            }
            proof {
                assert(self@ == (ExportsView { active: self@.active, ..before }));
            }
            return CancelDisposition::Accepted;
        }
        let found = crate::text::lists(&self.requests, target_request_id);
        proof {
            lemma_listed(self.requests@, target_request_id@);
        }
        if found {
            CancelDisposition::AlreadyCompleted
        } else {
            CancelDisposition::NotFound
        }
    }

    /// Whether the export that a request asked for was cancelled.
    pub fn is_cancelled(&self, request_id: &str) -> (cancelled: bool)
        ensures
            cancelled == (self@.active is Some && self@.active->0.request_id == request_id@
                && self@.active->0.cancelled),
    {
        match &self.active {
            Some(active) => active.cancelled && same_text(active.request_id.as_str(), request_id),
            None => false,
        }
    }

    /// Lets an export go that was given up.
    pub fn abandon_export(&mut self, request_id: &str)
        requires
            old(self).wf(),
        ensures
            final(self).wf(),
            final(self)@ == old(self)@.request_done(request_id@),
    {
        let hit = match &self.active {
            Some(active) => same_text(active.request_id.as_str(), request_id),
            None => false,
        };
        if hit {
            self.active = None;
        }
        remember_completed_request(&mut self.requests, request_id);
    }

    /// Forgets the export that was written to a file, before the file is
    /// written again.
    pub fn invalidate_completed_slot(&mut self, file_name: &str)
        requires
            old(self).wf(),
        ensures
            final(self).wf(),
            final(self)@ == without_file(old(self)@, file_name@),
            forall|id: Seq<char>| !#[trigger] is_file_of(final(self)@.completed, id, file_name@),
    {
        let mut stale: Option<String> = None;
        let mut i: usize = 0;
        let length: usize = self.completed.len();
        proof {
            self.completed.lemma_names();
        }
        while i < length
            invariant
                *self == *old(self),
                self.wf(),
                length == self.completed@.dom().len(),
                i <= length,
                match stale {
                    Some(id) => is_file_of(self@.completed, id@, file_name@),
                    None => forall|k: int|
                        0 <= k < i ==> !#[trigger] is_file_of(self@.completed,
                            self.completed.name_at(k),
                            file_name@,
                        ),
                },
            decreases length - i,
        {
            let (id, completed) = self.completed.entry(i);
            if same_text(completed.result.file_name.as_str(), file_name) {
                assert(is_file_of(self@.completed, id@, file_name@));
                stale = Some(id.to_owned());
            } else {
                assert(!is_file_of(self@.completed, self.completed.name_at(i as int), file_name@));
            }
            i += 1;
        }
        let ghost before = self@;
        match stale {
            Some(id) => {
                proof {
                    let chosen = choose|other: Seq<char>| #[trigger]
                        is_file_of(before.completed, other, file_name@);
                    assert(is_file_of(before.completed, id@, file_name@));
                    assert(before.completed.dom().contains(chosen));
                    assert(before.completed.dom().contains(id@));
                    assert(chosen == id@);
                }
                let _ = self.completed.remove(id.as_str());
                take_text(&mut self.order, id.as_str());
                proof {
                    let after = self@;
                    assert(after == without_file(before, file_name@));
                    assert forall|a: Seq<char>, b: Seq<char>|
                        after.completed.dom().contains(a) && after.completed.dom().contains(b)
                            && after.completed[a].result.file_name@
                            == after.completed[b].result.file_name@ implies a == b by {
                        assert(before.completed.dom().contains(a));
                        assert(before.completed.dom().contains(b));
                    }
                    assert forall|other: Seq<char>| !#[trigger] is_file_of(after.completed,
                        other,
                        file_name@,
                    ) by {
                        if is_file_of(after.completed, other, file_name@) {
                            assert(is_file_of(before.completed, other, file_name@));
                            assert(before.completed.dom().contains(other));
                            assert(before.completed.dom().contains(id@));
                        }
                    }
                }
            },
            None => {
                proof {
                    assert forall|other: Seq<char>| !#[trigger] is_file_of(before.completed,
                        other,
                        file_name@,
                    ) by {
                        if is_file_of(before.completed, other, file_name@) {
                            self.completed.lemma_names();
                            let k = choose|k: int|
                                0 <= k < length && #[trigger] self.completed.name_at(k) == other;
                            assert(is_file_of(self@.completed, self.completed.name_at(k), file_name@));
                        }
                    }
                }
            },
        }
    }

    /// Keeps an export that was made, so that it can be answered again.
    fn remember_completed_operation(
        &mut self,
        operation_id: &str,
        request: ExportRequest,
        result: &ExportResult,
    )
        requires
            old(self).wf(),
        ensures
            final(self).wf(),
            export_kept(old(self)@, operation_id@, request, *result, final(self)@),
    {
        self.invalidate_completed_slot(result.file_name.as_str());
        let ghost cleared = self@;
        if !self.completed.contains(operation_id) {
            if self.order.len() >= MAX_COMPLETED_EXPORT_OPERATIONS {
                proof {
                    assert(cleared.order.len() > 0);
                    lemma_dropped(cleared.order);
                    assert(cleared.order.contains(cleared.order[0]));
                }
                let expired = self.order.remove(0);
                let _ = self.completed.remove(expired.as_str());
                proof {
                    assert(texts_of(self.order@) =~= cleared.order.drop_first());
                    assert(expired@ == cleared.order[0]);
                }
            }
            let ghost room = self@;
            proof {
                assert(room == cleared.with_operation_room(operation_id@));
                assert(!room.order.contains(operation_id@));
                crate::registry::lemma_pushed(room.order, operation_id@);
            }
            self.order.push(operation_id.to_owned());
            proof {
                assert(texts_of(self.order@) =~= room.order.push(operation_id@));
            }
        }
        let ghost room = cleared.with_operation_room(operation_id@);
        let kept = result.copy();
        self.completed.insert(operation_id, CompletedExport { request, result: kept });
        proof {
            let after = self@;
            assert(after.completed.dom() =~= room.completed.dom().insert(operation_id@));
            assert forall|a: Seq<char>, b: Seq<char>|
                after.completed.dom().contains(a) && after.completed.dom().contains(b)
                    && after.completed[a].result.file_name@
                    == after.completed[b].result.file_name@ implies a == b by {
                if a != operation_id@ {
                    assert(cleared.completed.dom().contains(a));
                    assert(!is_file_of(cleared.completed, a, result.file_name@));
                }
                if b != operation_id@ {
                    assert(cleared.completed.dom().contains(b));
                    assert(!is_file_of(cleared.completed, b, result.file_name@));
                }
            }
            assert forall|id: Seq<char>| #[trigger]
                after.order.contains(id) == after.completed.dom().contains(id) by {
                assert(cleared.order.contains(id) == cleared.completed.dom().contains(id));
            }
        }
    }

    /// Ends an export. One that was made is kept, to be answered again.
    pub fn finish_export(
        &mut self,
        request_id: &str,
        operation_id: &str,
        request: ExportRequest,
        result: &Result<ExportResult, AppError>,
    )
        requires
            old(self).wf(),
        ensures
            final(self).wf(),
            export_finished(
                old(self)@,
                request_id@,
                operation_id@,
                request,
                *result,
                final(self)@,
            ),
    {
        self.abandon_export(request_id);
        if let Ok(result) = result {
            self.remember_completed_operation(operation_id, request, result);
        }
    }
}

proof fn lemma_listed(list: Seq<String>, text: Seq<char>)
    ensures
        crate::text::is_listed(list, text) == texts_of(list).contains(text),
{
    if crate::text::is_listed(list, text) {
        let k = choose|k: int| 0 <= k < list.len() && (#[trigger] list[k])@ == text;
        assert(texts_of(list)[k] == text);
    }
    if texts_of(list).contains(text) {
        let k = texts_of(list).index_of(text);
        assert(list[k]@ == text);
    }
}

/// The digest of an export, in hexadecimal.
pub fn sha256_hex(contents: &[u8]) -> (digest: String)
    ensures
        digest@ == lower_hex(sha256(contents@)),
{
    let digest = sha256_digest(contents);
    encode_lower_hex(digest.as_slice())
}

/// The milliseconds since 1970, where they can be counted.
pub open spec fn millis_of(time: UnixTime) -> int {
    time.seconds * 1_000 + time.nanoseconds / 1_000_000
}

/// The milliseconds of a clock reading; none stands for a clock before 1970.
pub fn unix_millis(time: Option<UnixTime>) -> (result: Result<u64, AppError>)
    ensures
        match result {
            Ok(millis) => time is Some && millis == millis_of(time->0),
            Err(error) => (time is None || millis_of(time->0) > u64::MAX) && error@ == plain_error(
                ErrorCode::PlatformError,
                "diagnostic export timestamp is unavailable"@,
            ),
        },
{
    if let Some(time) = time {
        if let Some(millis) = time.seconds.checked_mul(1_000) {
            if let Some(millis) = millis.checked_add((time.nanoseconds / 1_000_000) as u64) {
                return Ok(millis);
            }
        }
    }
    Err(AppError::new(ErrorCode::PlatformError, "diagnostic export timestamp is unavailable"))
}

/// The milliseconds of the machine's clock.
pub fn current_unix_millis() -> (result: Result<u64, AppError>)
    ensures
        match result {
            Ok(millis) => exists|time: UnixTime| millis == #[trigger] millis_of(time),
            Err(error) => error@ == plain_error(
                ErrorCode::PlatformError,
                "diagnostic export timestamp is unavailable"@,
            ),
        },
{
    let time = read_clock();
    unix_millis(time)
}

pub fn check_export_cancelled(cancelled: bool) -> (result: Result<(), AppError>)
    ensures
        match result {
            Ok(_) => !cancelled,
            Err(error) => cancelled && error@ == cancelled_error(),
        },
{
    if cancelled {
        Err(cancelled_export_error())
    } else {
        Ok(())
    }
}

/// Whether an error says that an export was cancelled.
pub open spec fn says_cancelled(error: ErrorView) -> bool {
    error.code == ErrorCode::Conflict && error.details.dom().contains("reason"@)
        && error.details["reason"@] == "cancelled"@
}

pub fn is_cancelled_export_error(error: &AppError) -> (cancelled: bool)
    ensures
        cancelled == says_cancelled(error@),
{
    if error.code != ErrorCode::Conflict {
        return false;
    }
    match error.details.get("reason") {
        Some(reason) => same_text(reason, "cancelled"),
        None => false,
    }
}

pub open spec fn code_identifier(code: ErrorCode) -> Seq<char> {
    match code {
        ErrorCode::InvalidArgument => "invalid_argument"@,
        ErrorCode::NotFound => "not_found"@,
        ErrorCode::AlreadyExited => "already_exited"@,
        ErrorCode::AccessDenied => "access_denied"@,
        ErrorCode::IdentityMismatch => "identity_mismatch"@,
        ErrorCode::NotSupported => "not_supported"@,
        ErrorCode::SupervisorUnavailable => "supervisor_unavailable"@,
        ErrorCode::Timeout => "timeout"@,
        ErrorCode::Conflict => "conflict"@,
        ErrorCode::StorageError => "storage_error"@,
        ErrorCode::PlatformError => "platform_error"@,
        ErrorCode::Internal => "internal"@,
    }
}

pub fn error_code_identifier(code: ErrorCode) -> (identifier: &'static str)
    ensures
        identifier@ == code_identifier(code),
{
    match code {
        ErrorCode::InvalidArgument => "invalid_argument",
        ErrorCode::NotFound => "not_found",
        ErrorCode::AlreadyExited => "already_exited",
        ErrorCode::AccessDenied => "access_denied",
        ErrorCode::IdentityMismatch => "identity_mismatch",
        ErrorCode::NotSupported => "not_supported",
        ErrorCode::SupervisorUnavailable => "supervisor_unavailable",
        ErrorCode::Timeout => "timeout",
        ErrorCode::Conflict => "conflict",
        ErrorCode::StorageError => "storage_error",
        ErrorCode::PlatformError => "platform_error",
        ErrorCode::Internal => "internal",
    }
}

/// What is noted of an export that has ended.
#[derive(Debug)]
pub enum ExportNote {
    Completed { total_bytes: u64 },
    Cancelled,
    Failed { error_code: &'static str },
}

pub fn log_export_result(result: &Result<ExportResult, AppError>) -> (note: ExportNote)
    ensures
        match (result, note) {
            (Ok(result), ExportNote::Completed { total_bytes }) => total_bytes
                == result.total_bytes,
            (Err(error), ExportNote::Cancelled) => says_cancelled(error@),
            (Err(error), ExportNote::Failed { error_code }) => !says_cancelled(error@)
                && error_code@ == code_identifier(error.code),
            _ => false,
        },
{
    match result {
        Ok(result) => ExportNote::Completed { total_bytes: result.total_bytes },
        Err(error) => if is_cancelled_export_error(error) {
            ExportNote::Cancelled
        } else {
            ExportNote::Failed { error_code: error_code_identifier(error.code) }
        },
    }
}

/// How a failure to write an export is reported.
pub open spec fn export_report(cancelled: bool, fault: LogFault) -> ErrorView {
    if cancelled {
        cancelled_error()
    } else {
        let code = match fault.kind {
            LogErrorKind::PermissionDenied => ErrorCode::AccessDenied,
            LogErrorKind::AlreadyExists => ErrorCode::Conflict,
            LogErrorKind::ResourceBusy => ErrorCode::Conflict,
            LogErrorKind::StorageFull => ErrorCode::StorageError,
            LogErrorKind::WriteZero => ErrorCode::StorageError,
            LogErrorKind::UnexpectedEof => ErrorCode::StorageError,
            LogErrorKind::OtherIo => ErrorCode::StorageError,
            _ => ErrorCode::Internal,
        };
        ErrorView {
            retryable: crate::logs::is_passing(fault.kind),
            ..plain_error(code, "diagnostic export could not be published"@)
        }.with("diagnosticOperation"@, fault.operation@).with(
            "diagnosticErrorKind"@,
            kind_name(fault.kind),
        )
    }
}

pub fn diagnostic_export_error(cancelled: bool, fault: &LogFault) -> (error: AppError)
    ensures
        error@ == export_report(cancelled, *fault),
{
    if cancelled {
        return cancelled_export_error();
    }
    let code = match fault.kind {
        LogErrorKind::PermissionDenied => ErrorCode::AccessDenied,
        LogErrorKind::AlreadyExists | LogErrorKind::ResourceBusy => ErrorCode::Conflict,
        LogErrorKind::StorageFull | LogErrorKind::WriteZero | LogErrorKind::UnexpectedEof
        | LogErrorKind::OtherIo => ErrorCode::StorageError,
        LogErrorKind::InvalidConfiguration | LogErrorKind::InvalidPath | LogErrorKind::NotFound
        | LogErrorKind::Interrupted | LogErrorKind::InvalidData | LogErrorKind::LimitExceeded
        | LogErrorKind::Unavailable => ErrorCode::Internal,
    };
    let mut error = AppError::new(code, "diagnostic export could not be published");
    error.retryable = fault.kind == LogErrorKind::Interrupted || fault.kind
        == LogErrorKind::ResourceBusy;
    error.with_detail("diagnosticOperation", fault.operation.as_str()).with_detail(
        "diagnosticErrorKind",
        crate::logs::log_error_kind_name(fault.kind),
    )
}

/// The number of the file to which the next export is written; the files are
/// used in turn.
pub fn next_export_slot(counter: u8, slot_count: u8) -> (next: (u8, u8))
    requires
        slot_count > 0,
    ensures
        next.0 == counter % slot_count,
        next.1 == (counter + 1) % 256,
{
    let following: u8 = if counter == 255 { 0 } else { counter + 1 };
    (counter % slot_count, following)
}

/// The steps of an export.
#[derive(Clone, Copy, Debug, PartialEq, Eq, Structural)]
pub enum ExportStep {
    /// Sum up the database.
    ReadDatabase,
    /// Name the file to write to.
    NameFile,
    /// Build the export and write it.
    Write,
}

/// An export on its way.
#[derive(Debug)]
pub struct Export {
    pub request_id: String,
    pub operation_id: String,
    pub request: ExportRequest,
    pub step: ExportStep,
}

/// What came of a step of an export.
#[derive(Debug)]
pub enum ExportEvent {
    /// The database was summed up, or was not to be.
    Database(Result<(), AppError>),
    FileName(Result<String, AppError>),
    Written(Result<ExportResult, AppError>),
}

/// What follows an event of an export.
#[derive(Debug)]
pub enum ExportAction {
    Perform(Export),
    Answer(Result<ExportResult, AppError>),
}

/// The events that a step of an export can bring.
pub open spec fn export_event_fits(step: ExportStep, event: ExportEvent) -> bool {
    match step {
        ExportStep::ReadDatabase => event is Database,
        ExportStep::NameFile => event is FileName,
        ExportStep::Write => event is Written,
    }
}

/// The export ends with an error, which names its operation.
pub open spec fn export_fails(action: ExportAction, export: Export, error: ErrorView) -> bool {
    match action {
        ExportAction::Answer(Err(answer)) => answer@ == error.of_operation(export.operation_id@),
        _ => false,
    }
}

/// Whether the export of a request was cancelled.
pub open spec fn was_cancelled(exports: ExportsView, request_id: Seq<char>) -> bool {
    exports.active is Some && exports.active->0.request_id == request_id
        && exports.active->0.cancelled
}

/// A step of an export was taken: what follows, and what becomes of the registry.
pub open spec fn export_advanced(
    before: ExportsView,
    export: Export,
    event: ExportEvent,
    action: ExportAction,
    after: ExportsView,
) -> bool {
    let done = before.request_done(export.request_id@);
    match event {
        ExportEvent::Database(Ok(_)) => if was_cancelled(before, export.request_id@) {
            export_fails(action, export, cancelled_error()) && after == done
        } else {
            action == ExportAction::Perform((Export { step: ExportStep::NameFile, ..export }))
                && after == before
        },
        ExportEvent::FileName(Ok(file_name)) => {
            &&& action == ExportAction::Perform((Export { step: ExportStep::Write, ..export }))
            &&& after == without_file(before, file_name@)
        },
        ExportEvent::Written(Ok(result)) => {
            &&& match action {
                ExportAction::Answer(Ok(answer)) => answer == result,
                _ => false,
            }
            &&& export_kept(done, export.operation_id@, export.request, result, after)
        },
        ExportEvent::Database(Err(error)) => export_fails(action, export, error@) && after == done,
        ExportEvent::FileName(Err(error)) => export_fails(action, export, error@) && after == done,
        ExportEvent::Written(Err(error)) => export_fails(action, export, error@) && after == done,
    }
}

/// Takes what came of a step of an export in. An export that was cancelled
/// meanwhile ends as cancelled, and a file that is written again no longer
/// stands for the export it was written for before.
pub fn advance_export(registry: &mut ExportRegistry, export: Export, event: ExportEvent) -> (action:
    ExportAction)
    requires
        old(registry).wf(),
        export_event_fits(export.step, event),
    ensures
        final(registry).wf(),
        export_advanced(old(registry)@, export, event, action, final(registry)@),
{
    let mut next = export;
    let failure = match event {
        ExportEvent::Database(Ok(_)) => {
            if registry.is_cancelled(next.request_id.as_str()) {
                cancelled_export_error()
            } else {
                next.step = ExportStep::NameFile;
                return ExportAction::Perform(next);
            }
        },
        ExportEvent::FileName(Ok(file_name)) => {
            registry.invalidate_completed_slot(file_name.as_str());
            next.step = ExportStep::Write;
            return ExportAction::Perform(next);
        },
        ExportEvent::Written(Ok(result)) => {
            let finished: Result<ExportResult, AppError> = Ok(result);
            registry.finish_export(
                next.request_id.as_str(),
                next.operation_id.as_str(),
                next.request,
                &finished,
            );
            return ExportAction::Answer(finished);
        },
        ExportEvent::Database(Err(error)) => error,
        ExportEvent::FileName(Err(error)) => error,
        ExportEvent::Written(Err(error)) => error,
    };
    registry.abandon_export(next.request_id.as_str());
    ExportAction::Answer(Err(failure.attach_operation_id(next.operation_id.as_str())))
}

/// An export begins: what follows, and what becomes of the registry.
pub open spec fn export_begun(
    before: ExportsView,
    request_id: String,
    operation_id: String,
    request: ExportRequest,
    action: ExportAction,
    after: ExportsView,
) -> bool {
    if was_cancelled(before, request_id@) {
        &&& after == before.request_done(request_id@)
        &&& match action {
            ExportAction::Answer(Err(answer)) => answer@ == cancelled_error().of_operation(
                operation_id@,
            ),
            _ => false,
        }
    } else {
        &&& after == before
        &&& action == ExportAction::Perform(
            (Export {
                request_id,
                operation_id,
                request,
                step: if request.include_database_summary {
                    ExportStep::ReadDatabase
                } else {
                    ExportStep::NameFile
                },
            }),
        )
    }
}

/// The first step of an export that was reserved: one that was cancelled
/// meanwhile is not begun.
pub fn begin_export(
    registry: &mut ExportRegistry,
    request_id: String,
    operation_id: String,
    request: ExportRequest,
) -> (action: ExportAction)
    requires
        old(registry).wf(),
    ensures
        final(registry).wf(),
        export_begun(
            old(registry)@,
            request_id,
            operation_id,
            request,
            action,
            final(registry)@,
        ),
{
    if registry.is_cancelled(request_id.as_str()) {
        registry.abandon_export(request_id.as_str());
        return ExportAction::Answer(
            Err(cancelled_export_error().attach_operation_id(operation_id.as_str())),
        );
    }
    let step = if request.include_database_summary {
        ExportStep::ReadDatabase
    } else {
        ExportStep::NameFile
    };
    ExportAction::Perform(Export { request_id, operation_id, request, step })
}

/// A part that an export may hold, and how large it may be.
#[derive(Debug)]
pub struct ContentInput {
    pub content_id: String,
    pub selected: bool,
    pub estimated_bytes: u64,
    pub maximum_bytes: u64,
    pub truncated: bool,
}

/// What an export is bounded by, and the names of its parts.
#[derive(Debug)]
pub struct DiagnosticLimits {
    pub format_version: u16,
    pub maximum_system_summary_bytes: u64,
    pub maximum_database_summary_bytes: u64,
    pub application_log_content_id: String,
}

/// Some parts are those of an export, before they are bounded.
pub open spec fn are_inputs(
    inputs: Seq<ContentInput>,
    limits: DiagnosticLimits,
    include_database_summary: bool,
    log_content: ContentInput,
    exact_summary_bytes: Option<(u64, u64)>,
) -> bool {
    &&& inputs.len() == 3
    &&& inputs[0].content_id@ == "system.summary"@
    &&& inputs[0].selected
    &&& inputs[0].estimated_bytes == (match exact_summary_bytes {
        Some((system, _)) => system,
        None => 1_024,
    })
    &&& inputs[0].maximum_bytes == limits.maximum_system_summary_bytes
    &&& !inputs[0].truncated
    &&& inputs[1] == log_content
    &&& inputs[2].content_id@ == "database.summary"@
    &&& inputs[2].selected == include_database_summary
    &&& inputs[2].estimated_bytes == (match exact_summary_bytes {
        Some((_, database)) => database,
        None => limits.maximum_database_summary_bytes,
    })
    &&& inputs[2].maximum_bytes == limits.maximum_database_summary_bytes
    &&& !inputs[2].truncated
}

/// The parts of an export, before they are bounded: the summary of the system
/// always, the logs, and the summary of the database where it is wanted.
pub fn manifest_inputs(
    limits: &DiagnosticLimits,
    include_database_summary: bool,
    log_content: ContentInput,
    exact_summary_bytes: Option<(u64, u64)>,
) -> (inputs: Vec<ContentInput>)
    ensures
        are_inputs(inputs@, *limits, include_database_summary, log_content, exact_summary_bytes),
{
    let (system_bytes, database_bytes): (u64, u64) = match exact_summary_bytes {
        Some(pair) => pair,
        None => (1_024, limits.maximum_database_summary_bytes),
    };
    let mut inputs: Vec<ContentInput> = Vec::new();
    inputs.push(
        ContentInput {
            content_id: "system.summary".to_owned(),
            selected: true,
            estimated_bytes: system_bytes,
            maximum_bytes: limits.maximum_system_summary_bytes,
            truncated: false,
        },
    );
    inputs.push(log_content);
    inputs.push(
        ContentInput {
            content_id: "database.summary".to_owned(),
            selected: include_database_summary,
            estimated_bytes: database_bytes,
            maximum_bytes: limits.maximum_database_summary_bytes,
            truncated: false,
        },
    );
    inputs
}

/// What the name of a part stands for, and what the part gives away.
pub open spec fn content_of(id: Seq<char>, log_id: Seq<char>) -> Option<(ContentKind, ContentPrivacy)> {
    if id == "system.summary"@ {
        Some((ContentKind::SystemSummary, ContentPrivacy::MetadataOnly))
    } else if id == log_id {
        Some((ContentKind::ApplicationLogs, ContentPrivacy::StructuredRedacted))
    } else if id == "database.summary"@ {
        Some((ContentKind::DatabaseSummary, ContentPrivacy::AggregateOnly))
    } else {
        None
    }
}

pub open spec fn kind_of(content: Option<(ContentKind, ContentPrivacy)>) -> ContentKind {
    match content {
        Some((kind, _)) => kind,
        None => ContentKind::SystemSummary,
    }
}

pub open spec fn privacy_of(content: Option<(ContentKind, ContentPrivacy)>) -> ContentPrivacy {
    match content {
        Some((_, privacy)) => privacy,
        None => ContentPrivacy::MetadataOnly,
    }
}

/// Whether every part of an export is known.
pub open spec fn all_known(items: Seq<ContentInput>, log_id: Seq<char>) -> bool {
    forall|i: int|
        0 <= i < items.len() ==> content_of((#[trigger] items[i]).content_id@, log_id) is Some
}

/// How a part of an export is shown.
pub open spec fn item_of(item: ContentInput, log_id: Seq<char>) -> ManifestItem {
    ManifestItem {
        kind: kind_of(content_of(item.content_id@, log_id)),
        included: item.selected,
        available: true,
        estimated_bytes: item.estimated_bytes,
        maximum_bytes: item.maximum_bytes,
        privacy: privacy_of(content_of(item.content_id@, log_id)),
        truncated: item.truncated,
    }
}

/// The parts of an export once they have been bounded together.
#[derive(Debug)]
pub struct BoundedContents {
    pub items: Vec<ContentInput>,
    pub selected_estimated_bytes: u64,
    pub selected_maximum_bytes: u64,
    pub byte_budget: u64,
}

/// A manifest shows the parts of an export.
pub open spec fn shows_contents(
    manifest: DiagnosticsManifest,
    limits: DiagnosticLimits,
    contents: BoundedContents,
) -> bool {
    let items = contents.items@;
    &&& manifest.format_version == limits.format_version
    &&& manifest.items@.len() == items.len()
    &&& forall|i: int|
        0 <= i < items.len() ==> #[trigger] manifest.items@[i] == item_of(
            items[i],
            limits.application_log_content_id@,
        )
    &&& manifest.selected_estimated_bytes == contents.selected_estimated_bytes
    &&& manifest.selected_maximum_bytes == contents.selected_maximum_bytes
    &&& manifest.byte_budget == contents.byte_budget
}

/// The refusal of an export with a part that is not known.
pub open spec fn manifest_error() -> ErrorView {
    plain_error(ErrorCode::Internal, "diagnostic content manifest is invalid"@)
}

/// Shows what an export holds, once its parts have been bounded. A part that is
/// not known is refused.
pub fn build_manifest(limits: &DiagnosticLimits, contents: &BoundedContents) -> (result: Result<
    DiagnosticsManifest,
    AppError,
>)
    ensures
        ({
            let known = all_known(contents.items@, limits.application_log_content_id@);
            match result {
                Ok(manifest) => known && shows_contents(manifest, *limits, *contents),
                Err(error) => !known && error@ == manifest_error(),
            }
        }),
{
    let log_id = limits.application_log_content_id.as_str();
    let items = &contents.items;
    let mut shown: Vec<ManifestItem> = Vec::new();
    let mut i: usize = 0;
    while i < items.len()
        invariant
            log_id@ == limits.application_log_content_id@,
            items@ == contents.items@,
            i <= items@.len(),
            shown@.len() == i,
            forall|k: int|
                0 <= k < i ==> content_of((#[trigger] items@[k]).content_id@, log_id@) is Some,
            forall|k: int| 0 <= k < i ==> #[trigger] shown@[k] == item_of(items@[k], log_id@),
        decreases items@.len() - i,
    {
        let item = &items[i];
        let id = item.content_id.as_str();
        let (kind, privacy) = if same_text(id, "system.summary") {
            (ContentKind::SystemSummary, ContentPrivacy::MetadataOnly)
        } else if same_text(id, log_id) {
            (ContentKind::ApplicationLogs, ContentPrivacy::StructuredRedacted)
        } else if same_text(id, "database.summary") {
            (ContentKind::DatabaseSummary, ContentPrivacy::AggregateOnly)
        } else {
            assert(content_of(items@[i as int].content_id@, log_id@) is None);
            return Err(
                AppError::new(ErrorCode::Internal, "diagnostic content manifest is invalid"),
            );
        };
        shown.push(
            ManifestItem {
                kind,
                included: item.selected,
                available: true,
                estimated_bytes: item.estimated_bytes,
                maximum_bytes: item.maximum_bytes,
                privacy,
                truncated: item.truncated,
            },
        );
        i += 1;
    }
    Ok(
        DiagnosticsManifest {
            format_version: limits.format_version,
            items: shown,
            selected_estimated_bytes: contents.selected_estimated_bytes,
            selected_maximum_bytes: contents.selected_maximum_bytes,
            byte_budget: contents.byte_budget,
        },
    )
}

/// The refusal of a part that is larger than it may be.
pub open spec fn content_limit_error(content: Seq<char>) -> ErrorView {
    plain_error(
        ErrorCode::Internal,
        "diagnostic content exceeds its resource limit"@,
    ).with("content"@, content)
}

/// Whether a part is no larger than it may be.
pub fn check_content_bytes(content: &str, bytes: u64, maximum_bytes: u64) -> (result: Result<
    (),
    AppError,
>)
    ensures
        match result {
            Ok(_) => bytes <= maximum_bytes,
            Err(error) => bytes > maximum_bytes && error@ == content_limit_error(content@),
        },
{
    if bytes > maximum_bytes {
        return Err(
            AppError::new(
                ErrorCode::Internal,
                "diagnostic content exceeds its resource limit",
            ).with_detail("content", content),
        );
    }
    Ok(())
}

/// What is known of a read of the application's own log.
#[derive(Clone, Copy, Debug, PartialEq, Eq, Structural)]
pub struct LogReadMetadata {
    pub first_available_sequence: Option<u64>,
    pub first_sequence: Option<u64>,
    pub next_sequence: u64,
    pub end_sequence: u64,
    pub complete: bool,
    pub dropped_records: u64,
}

/// The application's own log while it is being read.
#[derive(Clone, Copy, Debug, PartialEq, Eq, Structural)]
pub struct LogCapture {
    pub cursor: Option<u64>,
    pub first: Option<LogReadMetadata>,
}

/// What follows a read of the application's own log.
#[derive(Debug)]
pub enum CaptureStep {
    /// Read on from a place.
    ReadOn(LogCapture),
    /// The whole log was read: it begins as the first read says, and ends as
    /// the last one does.
    Captured(LogReadMetadata),
    Fail(AppError),
}

/// Takes a read of the application's own log in. A read that does not move on
/// although there is more is refused.
pub fn capture_application_logs(
    capture: LogCapture,
    read: LogReadMetadata,
    has_more: bool,
) -> (step: CaptureStep)
    ensures
        ({
            let first = match capture.first {
                Some(first) => first,
                None => read,
            };
            if !has_more {
                step == CaptureStep::Captured(
                    (LogReadMetadata {
                        first_available_sequence: first.first_available_sequence,
                        first_sequence: first.first_sequence,
                        ..read
                    }),
                )
            } else if capture.cursor == Some(read.next_sequence) {
                step is Fail && step->Fail_0@ == manifest_error()
            } else {
                step == CaptureStep::ReadOn(
                    (LogCapture { cursor: Some(read.next_sequence), first: Some(first) }),
                )
            }
        }),
{
    let first = match capture.first {
        Some(first) => first,
        None => read,
    };
    if !has_more {
        return CaptureStep::Captured(
            LogReadMetadata {
                first_available_sequence: first.first_available_sequence,
                first_sequence: first.first_sequence,
                next_sequence: read.next_sequence,
                end_sequence: read.end_sequence,
                complete: read.complete,
                dropped_records: read.dropped_records,
            },
        );
    }
    let stuck = match capture.cursor {
        Some(cursor) => cursor == read.next_sequence,
        None => false,
    };
    if stuck {
        return CaptureStep::Fail(
            AppError::new(ErrorCode::Internal, "diagnostic content manifest is invalid"),
        );
    }
    CaptureStep::ReadOn(LogCapture { cursor: Some(read.next_sequence), first: Some(first) })
}

/// An export that has ended well is answered again under its operation: with
/// the same options the answer is what was made, and with others it is refused.
pub proof fn lemma_export_is_answered_again(
    after: ExportsView,
    operation_id: Seq<char>,
    request: ExportRequest,
    result: ExportResultView,
    other: ExportRequest,
)
    requires
        after.active is None,
        after.completed.dom().contains(operation_id),
        after.completed[operation_id].request == request,
        after.completed[operation_id].result@ == result,
    ensures
        reservation_of(after, operation_id, request) == (ReservationView::Replay { result }),
        other != request ==> reservation_of(after, operation_id, other)
            == ReservationView::Conflict,
{
}

/// An export that was made is still answered after another one was made, unless
/// its file was written again or it was the first of as many as can be kept.
pub proof fn lemma_other_exports_are_kept(
    before: ExportsView,
    operation_id: Seq<char>,
    request: ExportRequest,
    result: ExportResult,
    after: ExportsView,
    other: Seq<char>,
)
    requires
        before.wf(),
        export_kept(before, operation_id, request, result, after),
        before.completed.dom().contains(other),
        other != operation_id,
        before.completed[other].result.file_name@ != result.file_name@,
        before.order.len() < MAX_COMPLETED_EXPORT_OPERATIONS || before.order[0] != other,
    ensures
        after.completed.dom().contains(other),
        after.completed[other] == before.completed[other],
        after.active is None ==> reservation_of(
            after,
            other,
            before.completed[other].request,
        ) == (ReservationView::Replay { result: before.completed[other].result@ }),
{
    let cleared = without_file(before, result.file_name@);
    if exists|id: Seq<char>| #[trigger] is_file_of(before.completed, id, result.file_name@) {
        let id = choose|id: Seq<char>| #[trigger]
            is_file_of(before.completed, id, result.file_name@);
        crate::registry::lemma_without(before.order, id);
        assert(before.order.contains(id));
        assert(cleared.order.len() < before.order.len());
    }
    let room = cleared.with_operation_room(operation_id);
    assert(room.completed.dom().contains(other));
    assert(room.completed[other] == before.completed[other]);
}

/// Once a request is done, its export is no longer being made, and the request
/// is known as done.
pub proof fn lemma_request_done_frees_the_export(exports: ExportsView, request_id: Seq<char>)
    requires
        exports.wf(),
        exports.active is Some,
        exports.active->0.request_id == request_id,
    ensures
        exports.request_done(request_id).active is None,
        exports.request_done(request_id).requests.contains(request_id),
        !was_cancelled(exports.request_done(request_id), request_id),
{
    let queue = exports.request_done(request_id).requests;
    assert(queue[queue.len() - 1] == request_id);
}

/// The report of application logs that could not be captured.
pub fn diagnostic_application_log_error(operation: &str, kind: &str) -> (error: AppError)
    ensures
        error@ == plain_error(ErrorCode::Internal, "diagnostic content is unavailable"@).with(
            "diagnosticOperation"@,
            operation@,
        ).with("diagnosticErrorKind"@, kind@),
{
    AppError::new(ErrorCode::Internal, "diagnostic content is unavailable").with_detail(
        "diagnosticOperation",
        operation,
    ).with_detail("diagnosticErrorKind", kind)
}

} // verus!
