//! What diagnostic exports are for: one is made at a time, it is answered again under its
//! own operation, it can be cancelled until it is written, and it holds what was asked for.

use vstd::prelude::*;

use crate::bundle::{bundle_follows, Bundle, BundleAction, BundleEvent, BundleStep};
use crate::diagnostics::{
    build_manifest, capture_application_logs, check_content_bytes, check_export_cancelled,
    diagnostic_export_error, export_advanced, export_begun, export_cancelled, export_finished,
    export_kept, export_reserved, is_cancelled_export_error, is_file_of, log_export_result,
    manifest_inputs, next_export_slot, remembered, unix_millis, was_cancelled, BoundedContents,
    CancelDisposition, CaptureStep, ContentInput, ContentKind, ContentPrivacy, DiagnosticLimits,
    DiagnosticsManifest, Export, ExportAction, ExportEvent, ExportNote, ExportRequest,
    ExportReservation, ExportResult, ExportStep, ExportsView, LogCapture, LogReadMetadata,
};
use crate::error::{AppError, ErrorCode};
use crate::logs::{LogErrorKind, LogFault};
use crate::registry::lemma_without;
use crate::timestamp::UnixTime;

verus! {

/// An export begins exactly where none is being made and its operation was not carried out
/// before. An operation that was carried out is answered with what it gave. Different
/// options under a known operation are a conflict for good; any other export that is being
/// made is a reason to come back. Only an export that begins is made.
pub proof fn lemma_one_export_is_made_at_a_time(
    before: ExportsView,
    request_id: Seq<char>,
    operation_id: Seq<char>,
    request: ExportRequest,
    result: Result<ExportReservation, AppError>,
    after: ExportsView,
)
    requires
        export_reserved(before, request_id, operation_id, request, result, after),
    ensures
        result is Ok && result->Ok_0 is Active <==> before.active is None
            && !before.completed.dom().contains(operation_id),
        result is Ok && result->Ok_0 is Replay <==> before.active is None
            && before.completed.dom().contains(operation_id)
            && before.completed[operation_id].request == request,
        result matches Ok(ExportReservation::Replay(again)) ==> again@
            == before.completed[operation_id].result@,
        result matches Err(error) ==> {
            &&& error.code == ErrorCode::Conflict
            &&& error.operation_id is Some && error.operation_id->0@ == operation_id
            &&& error.retryable <==> before.active is Some && !(before.active->0.operation_id
                == operation_id && before.active->0.request != request)
        },
        after.active != before.active <==> result is Ok && result->Ok_0 is Active,
        result is Ok && result->Ok_0 is Active ==> {
            &&& after.active is Some && after.active->0.request_id == request_id
            &&& after.active->0.operation_id == operation_id && after.active->0.request == request
            &&& !after.active->0.cancelled
        },
        after.completed == before.completed,
        result is Err ==> after == before,
{
    if let Err(error) = result {
        assert(error@.code == error.code && error@.retryable == error.retryable);
        assert(error@.operation_id == crate::error::optional_text(error.operation_id));
    }
}

/// Only the request that asked for the export that is being made cancels it, and it does so
/// whenever it says so. A request that was answered before is told so, and nothing that was
/// exported is lost.
pub proof fn lemma_export_is_cancelled_by_its_own_request(
    before: ExportsView,
    target: Seq<char>,
    disposition: CancelDisposition,
    after: ExportsView,
    other: Seq<char>,
)
    requires
        export_cancelled(before, target, disposition, after),
    ensures
        disposition == CancelDisposition::Accepted <==> before.active is Some
            && before.active->0.request_id == target,
        disposition == CancelDisposition::Accepted ==> was_cancelled(after, target),
        disposition == CancelDisposition::AlreadyCompleted ==> before.requests.contains(target),
        disposition == CancelDisposition::NotFound ==> !before.requests.contains(target),
        other != target ==> (was_cancelled(after, other) <==> was_cancelled(before, other)),
        after.completed == before.completed && after.requests == before.requests,
        after.active is Some <==> before.active is Some,
        after.active is Some ==> after.active->0.operation_id == before.active->0.operation_id
            && after.active->0.request == before.active->0.request,
{
}

proof fn lemma_remembered(queue: Seq<Seq<char>>, text: Seq<char>, capacity: nat)
    requires
        queue.no_duplicates(),
        queue.len() <= capacity,
        capacity > 0,
    ensures
        remembered(queue, text, capacity).len() > 0,
        remembered(queue, text, capacity).last() == text,
        remembered(queue, text, capacity).len() <= capacity,
{
    lemma_without(queue, text);
}

/// An export that has ended leaves room for the next, whether it went well or not, and the
/// request that asked for it is remembered as answered, the last of all.
pub proof fn lemma_ended_export_leaves_room(
    before: ExportsView,
    request_id: Seq<char>,
    operation_id: Seq<char>,
    request: ExportRequest,
    result: Result<ExportResult, AppError>,
    after: ExportsView,
)
    requires
        before.wf(),
        before.active is Some,
        before.active->0.request_id == request_id,
        export_finished(before, request_id, operation_id, request, result, after),
    ensures
        after.active is None,
        after.requests.len() > 0 && after.requests.last() == request_id,
        result is Err ==> after.completed == before.completed,
        result matches Ok(made) ==> {
            &&& after.completed.dom().contains(operation_id)
            &&& after.completed[operation_id].request == request
            &&& after.completed[operation_id].result@ == made@
        },
{
    lemma_remembered(before.requests, request_id, 256);
}

/// An export that was made is found under its operation with its options; an older one is
/// forgotten only where its file was written over, or where 128 are remembered and it is
/// the oldest.
pub proof fn lemma_made_export_is_remembered(
    before: ExportsView,
    operation_id: Seq<char>,
    request: ExportRequest,
    result: ExportResult,
    after: ExportsView,
    other: Seq<char>,
)
    requires
        before.wf(),
        export_kept(before, operation_id, request, result, after),
    ensures
        after.completed.dom().contains(operation_id),
        after.completed[operation_id].request == request,
        after.completed[operation_id].result@ == result@,
        other != operation_id && after.completed.dom().contains(other) ==> {
            &&& before.completed.dom().contains(other)
            &&& after.completed[other] == before.completed[other]
            &&& before.completed[other].result.file_name@ != result.file_name@
        },
        other != operation_id && before.completed.dom().contains(other)
            && !after.completed.dom().contains(other)
            ==> before.completed[other].result.file_name@ == result.file_name@
            || before.order.len() >= 128,
{
    let file_name = result.file_name@;
    if exists|id: Seq<char>| #[trigger] is_file_of(before.completed, id, file_name) {
        let id = choose|id: Seq<char>| #[trigger] is_file_of(before.completed, id, file_name);
        assert(is_file_of(before.completed, id, file_name));
        if before.completed.dom().contains(other) && before.completed[other].result.file_name@
            == file_name {
            assert(other == id);
        }
        lemma_without(before.order, id);
        assert(before.order.contains(id));
    } else if before.completed.dom().contains(other) {
        assert(!is_file_of(before.completed, other, file_name));
    }
}

/// An export that was cancelled before its file was named is not written: it ends with the
/// word that it was cancelled, under its operation, and makes room for the next. An export
/// that was not cancelled goes on to its name, then to its file, and is answered with what
/// was written. Whatever fails is told as it failed and ends the export.
pub proof fn lemma_export_goes_on_until_it_is_cancelled(
    before: ExportsView,
    export: Export,
    event: ExportEvent,
    action: ExportAction,
    after: ExportsView,
)
    requires
        before.wf(),
        crate::diagnostics::export_event_fits(export.step, event),
        export_advanced(before, export, event, action, after),
    ensures
        action is Perform ==> {
            let next = action->Perform_0;
            &&& next.request_id == export.request_id && next.operation_id == export.operation_id
            &&& next.request == export.request
            &&& next.step == ExportStep::NameFile <==> export.step == ExportStep::ReadDatabase
            &&& next.step == ExportStep::Write <==> export.step == ExportStep::NameFile
            &&& next.step != ExportStep::ReadDatabase
            &&& next.step == ExportStep::NameFile ==> !was_cancelled(before, export.request_id@)
            &&& after.active == before.active
        },
        action is Answer ==> (after.active is None || after.active->0.request_id
            != export.request_id@),
        action is Answer && action->Answer_0 is Ok <==> event is Written && event->Written_0 is Ok,
        action matches ExportAction::Answer(Ok(made)) ==> event == ExportEvent::Written(Ok(made))
            && after.completed.dom().contains(export.operation_id@)
            && after.completed[export.operation_id@].request == export.request
            && after.completed[export.operation_id@].result@ == made@,
        action matches ExportAction::Answer(Err(error)) ==> {
            &&& error.operation_id is Some
            &&& after.completed == before.completed
            &&& event == ExportEvent::Database(Ok(())) ==> was_cancelled(before, export.request_id@)
                && error.code == ErrorCode::Conflict && error.retryable
            &&& event matches ExportEvent::Database(Err(failed)) ==> error.code == failed.code
                && error.retryable == failed.retryable
            &&& event matches ExportEvent::FileName(Err(failed)) ==> error.code == failed.code
                && error.retryable == failed.retryable
            &&& event matches ExportEvent::Written(Err(failed)) ==> error.code == failed.code
                && error.retryable == failed.retryable
        },
        was_cancelled(before, export.request_id@) && export.step == ExportStep::ReadDatabase
            ==> action is Answer && action->Answer_0 is Err,
{
    if let ExportAction::Answer(Err(error)) = action {
        assert(error@.code == error.code && error@.retryable == error.retryable);
        assert(error@.operation_id == crate::error::optional_text(error.operation_id));
    }
    match event {
        ExportEvent::Database(Err(error)) | ExportEvent::FileName(Err(error))
        | ExportEvent::Written(Err(error)) => {
            assert(error@.code == error.code && error@.retryable == error.retryable);
        },
        _ => {},
    }
}

/// An export begins with the database exactly where its summary is asked for, and does not
/// begin at all where it was cancelled before.
pub proof fn lemma_export_reads_the_database_where_that_was_asked_for(
    before: ExportsView,
    request_id: String,
    operation_id: String,
    request: ExportRequest,
    action: ExportAction,
    after: ExportsView,
)
    requires
        before.wf(),
        export_begun(before, request_id, operation_id, request, action, after),
    ensures
        action is Answer <==> was_cancelled(before, request_id@),
        action is Answer ==> action->Answer_0 is Err && after.active is None,
        action matches ExportAction::Perform(export) ==> {
            &&& export.request_id == request_id && export.operation_id == operation_id
            &&& export.request == request
            &&& export.step == ExportStep::ReadDatabase <==> request.include_database_summary
            &&& export.step != ExportStep::Write
            &&& after == before
        },
{
}

/// What an export holds is what was asked for: the system is always summed up, the database
/// where that was asked for, and the logs as they were bounded; each within its limit and,
/// once it was made, with the bytes that it really has.
pub proof fn lemma_export_holds_what_was_asked_for(
    limits: DiagnosticLimits,
    include_database_summary: bool,
    log_content: ContentInput,
    exact_summary_bytes: Option<(u64, u64)>,
    inputs: Vec<ContentInput>,
)
    requires
        call_ensures(
            manifest_inputs,
            (&limits, include_database_summary, log_content, exact_summary_bytes),
            inputs,
        ),
    ensures
        inputs@.len() == 3,
        inputs@[0].content_id@ == "system.summary"@ && inputs@[0].selected,
        inputs@[1] == log_content,
        inputs@[2].content_id@ == "database.summary"@,
        inputs@[2].selected <==> include_database_summary,
        inputs@[0].maximum_bytes == limits.maximum_system_summary_bytes,
        inputs@[2].maximum_bytes == limits.maximum_database_summary_bytes,
        exact_summary_bytes matches Some((system, database)) ==> inputs@[0].estimated_bytes
            == system && inputs@[2].estimated_bytes == database,
        exact_summary_bytes is None ==> inputs@[2].estimated_bytes == inputs@[2].maximum_bytes
            && inputs@[0].estimated_bytes == 1_024,
        !inputs@[0].truncated && !inputs@[2].truncated,
{
}

/// A manifest lists each content as it is, and says of each how private it is: logs are
/// redacted, the database is shown in sums only, and the system by its metadata. A content
/// that it does not know is refused.
pub proof fn lemma_manifest_lists_each_content(
    limits: DiagnosticLimits,
    contents: BoundedContents,
    result: Result<DiagnosticsManifest, AppError>,
    i: int,
)
    requires
        call_ensures(build_manifest, (&limits, &contents), result),
        0 <= i < contents.items@.len(),
    ensures
        ({
            let id = contents.items@[i].content_id@;
            let known = id == "system.summary"@ || id == "database.summary"@ || id
                == limits.application_log_content_id@;
            &&& !known ==> result is Err
            &&& result matches Ok(manifest) ==> {
                let item = manifest.items@[i];
                &&& manifest.items@.len() == contents.items@.len()
                &&& manifest.format_version == limits.format_version
                &&& manifest.byte_budget == contents.byte_budget
                &&& manifest.selected_estimated_bytes == contents.selected_estimated_bytes
                &&& manifest.selected_maximum_bytes == contents.selected_maximum_bytes
                &&& item.included == contents.items@[i].selected && item.available
                &&& item.estimated_bytes == contents.items@[i].estimated_bytes
                &&& item.maximum_bytes == contents.items@[i].maximum_bytes
                &&& item.truncated == contents.items@[i].truncated
                &&& item.kind == ContentKind::SystemSummary <==> item.privacy
                    == ContentPrivacy::MetadataOnly
                &&& item.kind == ContentKind::ApplicationLogs <==> item.privacy
                    == ContentPrivacy::StructuredRedacted
                &&& item.kind == ContentKind::DatabaseSummary <==> item.privacy
                    == ContentPrivacy::AggregateOnly
                &&& item.kind == ContentKind::SystemSummary <==> id == "system.summary"@
                &&& item.kind == ContentKind::ApplicationLogs ==> id
                    == limits.application_log_content_id@
                &&& item.kind == ContentKind::DatabaseSummary ==> id == "database.summary"@
            }
            &&& result is Err ==> exists|k: int|
                0 <= k < contents.items@.len() && (#[trigger] contents.items@[k]).content_id@
                    != "system.summary"@ && contents.items@[k].content_id@ != "database.summary"@
                    && contents.items@[k].content_id@ != limits.application_log_content_id@
        }),
{
}

/// What goes into an export is within its limits and was not cancelled on the way: each
/// step is reached only with what the step before gave, and whatever fails ends the export
/// with what failed.
pub proof fn lemma_bundle_holds_what_was_gathered(
    limits: DiagnosticLimits,
    bundle: Bundle,
    event: BundleEvent,
    action: BundleAction,
)
    requires
        bundle.step.asks_for(event),
        bundle_follows(limits, bundle, event, action),
    ensures
        action matches BundleAction::Perform(next) ==> {
            &&& next.request == bundle.request && next.file_name == bundle.file_name
            &&& next.step matches BundleStep::ReadLogs { system_bytes } ==> event
                == (BundleEvent::System { cancelled: false, bytes: Some(system_bytes) })
                && system_bytes <= limits.maximum_system_summary_bytes
            &&& next.step matches BundleStep::SumUpDatabase { system_bytes, logs } ==> event
                == BundleEvent::Logs(Ok(logs)) && bundle.step == (BundleStep::ReadLogs {
                system_bytes,
            })
            &&& next.step matches BundleStep::BoundContents { inputs } ==> {
                &&& !event->Database_cancelled
                &&& inputs@.len() == 3 && inputs@[0].estimated_bytes
                    == bundle.step->SumUpDatabase_system_bytes && inputs@[1]
                    == bundle.step->logs
                &&& inputs@[2].selected == bundle.request.include_database_summary
                &&& bundle.request.include_database_summary ==> event->Database_bytes == Some(
                    inputs@[2].estimated_bytes,
                ) && inputs@[2].estimated_bytes <= limits.maximum_database_summary_bytes
                &&& !bundle.request.include_database_summary ==> inputs@[2].estimated_bytes
                    == limits.maximum_database_summary_bytes
            }
            &&& next.step matches BundleStep::ReadClock { manifest } ==> bundle.step
                == (BundleStep::CheckManifest { manifest }) && event is Checked
                && event->Checked_0 is Ok
            &&& next.step matches BundleStep::Serialize { manifest, generated_at_unix_millis }
                ==> bundle.step == (BundleStep::ReadClock { manifest }) && event
                == BundleEvent::Clock(Ok(generated_at_unix_millis))
            &&& next.step matches BundleStep::SpendBudget { manifest, contents }
                ==> bundle.step->Serialize_manifest == manifest && event == BundleEvent::Contents(
                Some(contents),
            )
            &&& next.step matches BundleStep::Write { manifest, contents } ==> bundle.step
                == (BundleStep::SpendBudget { manifest, contents }) && event is Budget
                && event->spent is Ok && !event->Budget_cancelled
            &&& next.step matches BundleStep::CheckResult { result } ==> event
                == BundleEvent::Written(Ok(result.total_bytes)) && result.manifest
                == bundle.step->Write_manifest
        },
        (event matches BundleEvent::System { cancelled, .. } && cancelled) ==> action is Answer,
        (event matches BundleEvent::Database { cancelled, .. } && cancelled) ==> action is Answer,
        (event matches BundleEvent::Budget { cancelled, .. } && cancelled) ==> action is Answer,
        action matches BundleAction::Answer(Ok(result)) ==> bundle.step
            == (BundleStep::CheckResult { result }) && event is Checked && event->Checked_0 is Ok,
        action matches BundleAction::Answer(Err(error)) ==> {
            &&& event matches BundleEvent::Logs(Err(failed)) ==> error@ == failed@
            &&& event matches BundleEvent::Bounded(Err(failed)) ==> error@ == failed@
            &&& event matches BundleEvent::Checked(Err(failed)) ==> error@ == failed@
            &&& event matches BundleEvent::Clock(Err(failed)) ==> error@ == failed@
            &&& event matches BundleEvent::Written(Err(failed)) ==> error@ == failed@
            &&& event !is Checked || event->Checked_0 is Err
            &&& event !is Clock || event->Clock_0 is Err
            &&& event !is Logs || event->Logs_0 is Err
            &&& event !is Written || event->Written_0 is Err
            &&& event !is Contents || event->Contents_0 is None
        },
{
}

/// A content that is too large is refused, one that is not is kept; and an export is
/// stopped exactly where it was cancelled, with an error that is known as such.
pub proof fn lemma_only_a_cancelled_export_is_known_as_cancelled(
    cancelled: bool,
    checked: Result<(), AppError>,
    known: bool,
    content: &str,
    bytes: u64,
    maximum_bytes: u64,
    fits: Result<(), AppError>,
)
    requires
        call_ensures(check_export_cancelled, (cancelled,), checked),
        call_ensures(check_content_bytes, (content, bytes, maximum_bytes), fits),
        checked is Err ==> call_ensures(is_cancelled_export_error, (&checked->Err_0,), known),
    ensures
        checked is Err <==> cancelled,
        checked is Err ==> known && checked->Err_0.retryable,
        fits is Ok <==> bytes <= maximum_bytes,
        fits matches Err(error) ==> error.code == ErrorCode::Internal,
{
    if let Err(error) = checked {
        assert(error@.code == error.code && error@.retryable == error.retryable);
    }
    if let Err(error) = fits {
        assert(error@.code == error.code);
    }
}

/// What is noted of an export is how it ended.
pub proof fn lemma_export_is_noted_as_it_ended(
    result: Result<ExportResult, AppError>,
    note: ExportNote,
    known: bool,
)
    requires
        call_ensures(log_export_result, (&result,), note),
        result is Err ==> call_ensures(is_cancelled_export_error, (&result->Err_0,), known),
    ensures
        note is Completed <==> result is Ok,
        note matches ExportNote::Completed { total_bytes } ==> total_bytes
            == result->Ok_0.total_bytes,
        note is Cancelled <==> result is Err && known,
        note is Failed <==> result is Err && !known,
{
}

/// Why an export could not be written is told for what it is: a lack of rights, something in
/// the way, a store that failed, or a fault of the program; cancelling goes before all of
/// them.
pub proof fn lemma_failed_export_is_told_for_what_it_is(
    cancelled: bool,
    fault: LogFault,
    error: AppError,
)
    requires
        call_ensures(diagnostic_export_error, (cancelled, &fault), error),
    ensures
        cancelled ==> error.code == ErrorCode::Conflict && error.retryable,
        !cancelled ==> {
            &&& error.retryable <==> fault.kind == LogErrorKind::Interrupted || fault.kind
                == LogErrorKind::ResourceBusy
            &&& error.code == ErrorCode::AccessDenied <==> fault.kind
                == LogErrorKind::PermissionDenied
            &&& error.code == ErrorCode::Conflict <==> fault.kind == LogErrorKind::AlreadyExists
                || fault.kind == LogErrorKind::ResourceBusy
            &&& error.code == ErrorCode::StorageError <==> fault.kind == LogErrorKind::StorageFull
                || fault.kind == LogErrorKind::WriteZero || fault.kind
                == LogErrorKind::UnexpectedEof || fault.kind == LogErrorKind::OtherIo
            &&& error.code == ErrorCode::Internal <==> fault.kind
                == LogErrorKind::InvalidConfiguration || fault.kind == LogErrorKind::InvalidPath
                || fault.kind == LogErrorKind::NotFound || fault.kind == LogErrorKind::Interrupted
                || fault.kind == LogErrorKind::InvalidData || fault.kind
                == LogErrorKind::LimitExceeded || fault.kind == LogErrorKind::Unavailable
        },
{
    assert(error@.code == error.code && error@.retryable == error.retryable);
}

/// Exports take the slots of their files in turn: each is one of them, the next export
/// takes the next one, and the counter never stands still.
pub proof fn lemma_slots_are_taken_in_turn(
    counter: u8,
    slot_count: u8,
    first: (u8, u8),
    second: (u8, u8),
)
    requires
        slot_count > 0,
        call_ensures(next_export_slot, (counter, slot_count), first),
        call_ensures(next_export_slot, (first.1, slot_count), second),
    ensures
        first.0 < slot_count,
        first.1 != counter,
        counter < 255 ==> second.0 == (if first.0 + 1 == slot_count {
            0int
        } else {
            first.0 + 1
        }),
        counter == 255 ==> second.0 == 0,
{
    if counter < 255 {
        vstd::arithmetic::div_mod::lemma_fundamental_div_mod(counter as int, slot_count as int);
        let d = slot_count as int;
        let q = counter as int / d;
        let r = counter as int % d;
        if r + 1 == d {
            assert(d * q + d == d * (q + 1)) by (nonlinear_arith);
            assert(d * (q + 1) == (q + 1) * d) by (nonlinear_arith);
            vstd::arithmetic::div_mod::lemma_fundamental_div_mod_converse(
                counter + 1,
                d,
                q + 1,
                0,
            );
        } else {
            assert(d * q == q * d) by (nonlinear_arith);
            vstd::arithmetic::div_mod::lemma_fundamental_div_mod_converse(
                counter + 1,
                d,
                q,
                r + 1,
            );
        }
    } else {
        vstd::arithmetic::div_mod::lemma_small_mod(0, slot_count as nat);
    }
}

/// The time of an export is the whole milliseconds since 1970 began, rounded down, as far
/// as they can be counted.
pub proof fn lemma_export_time_is_rounded_down(time: Option<UnixTime>, result: Result<u64, AppError>)
    requires
        call_ensures(unix_millis, (time,), result),
    ensures
        time is None ==> result is Err,
        time matches Some(time) ==> {
            let nanoseconds = time.seconds * 1_000_000_000 + time.nanoseconds;
            &&& result matches Ok(millis) ==> millis * 1_000_000 <= nanoseconds < (millis + 1)
                * 1_000_000
            &&& result is Err ==> nanoseconds >= 0x1_0000_0000_0000_0000 * 1_000_000
        },
{
}

/// Captured application logs begin where the first part began and end where the last part
/// ended; a part that leads nowhere ends the capture.
pub proof fn lemma_logs_are_captured_from_first_to_last(
    capture: LogCapture,
    read: LogReadMetadata,
    has_more: bool,
    step: CaptureStep,
)
    requires
        call_ensures(capture_application_logs, (capture, read, has_more), step),
    ensures
        step is Captured <==> !has_more,
        step matches CaptureStep::Captured(whole) ==> {
            &&& whole.next_sequence == read.next_sequence
            &&& whole.end_sequence == read.end_sequence
            &&& whole.complete == read.complete && whole.dropped_records == read.dropped_records
            &&& capture.first matches Some(first) ==> whole.first_sequence == first.first_sequence
                && whole.first_available_sequence == first.first_available_sequence
            &&& capture.first is None ==> whole == read
        },
        step matches CaptureStep::ReadOn(next) ==> {
            &&& next.cursor == Some(read.next_sequence) && next.cursor != capture.cursor
            &&& next.first is Some
            &&& capture.first is Some ==> next.first == capture.first
            &&& capture.first is None ==> next.first == Some(read)
        },
        has_more ==> (step is Fail <==> capture.cursor == Some(read.next_sequence)),
{
}

} // verus!
