//! What reading logs is for: what is kept secret never stands in a log, a log is handed
//! out only where it may be, and a reader in use is never let go.

use vstd::prelude::*;

use crate::capturing::{capture_begun, capture_follows, spawn_error, CaptureStart, CaptureWorker};
use crate::error::{AppError, ErrorCode};
use crate::logs::{
    log_range_response, managed_log_background_error, managed_log_chunk,
    managed_log_encoding_policy, managed_log_error, managed_log_io_error, managed_log_read_error,
    managed_log_redaction_secrets, managed_log_retention_error, managed_log_text_status,
    range_planned, redacted_values, validate_log_root, DecodedText, EncodingPolicy,
    EnvironmentEntry, LogChunk, LogErrorKind, LogFault, LogPart, LogRangePlan, LogRangeRequest,
    LogRangeResponse, OutputSource, TextStatus,
};
use crate::paths::{below, is_absolute, is_same_path};
use crate::registry::{
    capture_ended, capture_reserved, history_taken_in, lemma_without, reader_evicted, reader_used,
    without, RegistryView,
};
use crate::run::{ManagedRunRecord, Platform, RunControl};
use crate::runtime::IoFailure;

verus! {

proof fn lemma_redacted_values(entries: Seq<EnvironmentEntry>, value: Seq<char>)
    ensures
        redacted_values(entries).contains(value) <==> exists|i: int|
            0 <= i < entries.len() && (entries[i].secret || entries[i].sensitive_name) && (
            #[trigger] entries[i]).value@ == value,
    decreases entries.len(),
{
    if entries.len() > 0 {
        let before = entries.drop_last();
        let values = redacted_values(before);
        lemma_redacted_values(before, value);
        let last = entries.last();
        assert forall|i: int| 0 <= i < before.len() implies before[i] == #[trigger] entries[i] by {}
        if last.secret || last.sensitive_name {
            assert(redacted_values(entries) == values.push(last.value@));
            assert(values.push(last.value@)[values.len() as int] == last.value@);
            if values.contains(value) {
                let k = values.index_of(value);
                assert(values.push(last.value@)[k] == value);
            }
            if values.push(last.value@).contains(value) && value != last.value@ {
                let k = values.push(last.value@).index_of(value);
                assert(values[k] == value);
            }
        }
        if exists|i: int|
            0 <= i < entries.len() && (entries[i].secret || entries[i].sensitive_name) && (
            #[trigger] entries[i]).value@ == value {
            let i = choose|i: int|
                0 <= i < entries.len() && (entries[i].secret || entries[i].sensitive_name) && (
                #[trigger] entries[i]).value@ == value;
            if i < before.len() {
                assert(before[i] == entries[i]);
            }
        }
        if redacted_values(entries).contains(value) {
            if values.contains(value) {
                let i = choose|i: int|
                    0 <= i < before.len() && (before[i].secret || before[i].sensitive_name) && (
                    #[trigger] before[i]).value@ == value;
                assert(entries[i] == before[i]);
            } else {
                assert(entries[entries.len() - 1].value@ == value);
            }
        }
    }
}

/// A value is kept out of the log exactly where it came from the credential store or
/// stands under a name that says so: no secret is forgotten, and nothing else is hidden.
pub proof fn lemma_secrets_are_kept_out_of_the_log(
    entries: Vec<EnvironmentEntry>,
    secrets: Vec<String>,
    value: Seq<char>,
)
    requires
        call_ensures(managed_log_redaction_secrets, (&entries,), secrets),
    ensures
        (exists|k: int| 0 <= k < secrets@.len() && (#[trigger] secrets@[k])@ == value) <==> (
        exists|i: int|
            0 <= i < entries@.len() && (entries@[i].secret || entries@[i].sensitive_name) && (
            #[trigger] entries@[i]).value@ == value),
{
    let values = redacted_values(entries@);
    assert(crate::text::texts_of(secrets@) == values);
    lemma_redacted_values(entries@, value);
    if exists|k: int| 0 <= k < secrets@.len() && (#[trigger] secrets@[k])@ == value {
        let k = choose|k: int| 0 <= k < secrets@.len() && (#[trigger] secrets@[k])@ == value;
        assert(values[k] == value);
        assert(values.contains(value));
    }
    if values.contains(value) {
        let k = values.index_of(value);
        assert(values[k] == value);
        assert(secrets@[k]@ == value);
    }
}

/// A log is handed out exactly where it is kept whole, was written under the present
/// rules, lies in the run's own directory, and the place from which it is to be read
/// means something: a reader is at hand, or none is named. Each other request is refused
/// for its own reason, and only a place that means nothing any more is worth another try.
pub proof fn lemma_log_is_handed_out_where_it_may_be(
    before: RegistryView,
    controls: Map<Seq<char>, RunControl>,
    request: LogRangeRequest,
    record: ManagedRunRecord,
    platform: Platform,
    log_root: Seq<char>,
    redaction_version: u32,
    result: Result<LogRangePlan, AppError>,
    after: RegistryView,
)
    requires
        range_planned(
            before,
            controls,
            request,
            record,
            platform,
            log_root,
            redaction_version,
            result,
            after,
        ),
    ensures
        ({
            let run_id = request.run_id@;
            let kept = record.logs_deletion_started_at is None && record.logs_deleted_at is None;
            let trusted = record.log_redaction_version == redaction_version;
            let own = is_same_path(
                platform,
                record.log_directory@,
                below(platform, log_root, run_id),
            );
            let registered = before.entries.dom().contains(run_id);
            let captured = controls.dom().contains(run_id) && match controls[run_id] {
                RunControl::Running(process) => process.log_reader is Some,
                RunControl::Quarantined(process) => process.log_reader is Some,
                RunControl::Stopping(stop) => stop.process.log_reader is Some,
                RunControl::CleanupPending(_) => false,
                _ => false,
            };
            &&& result is Ok <==> kept && trusted && own && (registered || captured
                || request.starting_byte_offset is None)
            &&& result matches Ok(LogRangePlan::OpenHistorical) ==> !registered && !captured
            &&& result matches Ok(LogRangePlan::Read { reader, historical }) ==> {
                &&& registered ==> reader == before.entries[run_id].reader && historical
                    == before.entries[run_id].historical
                &&& !registered ==> captured && !historical
            }
            &&& result matches Err(error) ==> {
                &&& error.code == ErrorCode::NotFound <==> !kept
                &&& error.code == ErrorCode::NotSupported <==> kept && !trusted
                &&& error.code == ErrorCode::StorageError <==> kept && trusted && !own
                &&& error.code == ErrorCode::Conflict <==> kept && trusted && own
                &&& error.retryable <==> kept && trusted && own
            }
            &&& after.entries == before.entries
        }),
{
    if let Err(error) = result {
        assert(error.code == error@.code && error.retryable == error@.retryable);
    }
}

/// The output of a terminal and of macOS is UTF-8. Elsewhere a direct program writes in
/// the code page of the system and a shell in that of the console; the page that is
/// handed on is always one of the two.
pub proof fn lemma_output_is_decoded_as_it_is_written(
    platform: Platform,
    interactive: bool,
    source: OutputSource,
    ansi_code_page: u32,
    oem_code_page: u32,
    result: Result<EncodingPolicy, AppError>,
)
    requires
        call_ensures(
            managed_log_encoding_policy,
            (platform, interactive, source, ansi_code_page, oem_code_page),
            result,
        ),
    ensures
        result == Ok::<EncodingPolicy, AppError>(EncodingPolicy::Utf8) <==> interactive || platform
            == Platform::MacOs,
        result matches Ok(EncodingPolicy::WindowsAuto { fallback_code_page }) ==> {
            &&& platform == Platform::Windows && !interactive
            &&& source == OutputSource::Direct ==> fallback_code_page == ansi_code_page
            &&& source != OutputSource::Direct ==> fallback_code_page == oem_code_page
            &&& source != OutputSource::Zsh
        },
        platform == Platform::Windows && !interactive ==> {
            &&& source == OutputSource::Direct ==> (result is Ok <==> ansi_code_page <= 65_535)
            &&& source == OutputSource::PowerShell || source == OutputSource::Cmd ==> (result is Ok
                <==> oem_code_page <= 65_535)
            &&& source == OutputSource::Zsh ==> (result matches Err(error) && error.code
                == ErrorCode::NotSupported)
        },
{
    if let Err(error) = result {
        assert(error.code == error@.code);
    }
}

/// A part of a log says the same whether it is read or handed out while it is captured,
/// and it says what was read: the same text under the same run and offsets. The log of an
/// earlier capture is always at its end.
pub proof fn lemma_part_says_the_same_either_way(
    request: LogRangeRequest,
    part: LogPart,
    historical: bool,
    checked: Result<(), AppError>,
    read: Result<LogRangeResponse, AppError>,
    chunk: LogChunk,
)
    requires
        call_ensures(log_range_response, (&request, part, historical, checked), read),
        call_ensures(managed_log_chunk, (&request.run_id, request.stream, part), chunk),
    ensures
        read is Ok <==> checked is Ok,
        read is Err ==> read->Err_0 == checked->Err_0,
        chunk.text == part.text && chunk.delivery_error == part.delivery_error,
        chunk.sequence == part.sequence && chunk.end_of_file == part.end_of_file,
        chunk.first_available_byte_offset == part.first_available,
        chunk.first_byte_offset == part.first && chunk.next_byte_offset == part.next,
        chunk.stream_end_byte_offset == part.end && chunk.has_more == part.has_more,
        chunk.caught_up == part.complete && chunk.io_status_known == part.io_status_known,
        chunk.disk_error == part.disk_error && chunk.read_error == part.read_error,
        chunk.run_id == request.run_id && chunk.stream == request.stream,
        chunk.text_status is Known <==> (part.text_status is Some
            && part.text_status->0.resolved_encoding is Some),
        read matches Ok(response) ==> {
            &&& response.run_id == chunk.run_id && response.stream == chunk.stream
            &&& response.text == chunk.text && response.text_status == chunk.text_status
            &&& response.observed_sequence == chunk.sequence
            &&& response.first_available_byte_offset == chunk.first_available_byte_offset
            &&& response.first_byte_offset == chunk.first_byte_offset
            &&& response.next_byte_offset == chunk.next_byte_offset
            &&& response.stream_end_byte_offset == chunk.stream_end_byte_offset
            &&& response.has_more == chunk.has_more && response.complete == chunk.caught_up
            &&& response.io_status_known == chunk.io_status_known
            &&& response.disk_error == chunk.disk_error && response.read_error == chunk.read_error
            &&& historical ==> response.end_of_file
            &&& !historical ==> response.end_of_file == chunk.end_of_file
        },
{
}

/// How output was decoded is shown exactly where its encoding is known, and as it is.
pub proof fn lemma_decoding_is_shown_as_it_was(status: Option<DecodedText>, shown: TextStatus)
    requires
        call_ensures(managed_log_text_status, (status,), shown),
    ensures
        shown is Unknown <==> status is None || status->0.resolved_encoding is None,
        shown matches TextStatus::Known {
            encoding,
            replacement_used,
            controls_filtered,
            fallback_unavailable,
        } ==> status == Some(
            DecodedText {
                resolved_encoding: Some(encoding),
                replacement_used,
                controls_filtered,
                fallback_unavailable,
            },
        ),
{
}

/// However a log fails, a failure that may pass is worth another try and no other is, and
/// missing rights are told as such. A bad configuration is the program's own fault where a
/// log is prepared, and the caller's where one is read or deleted; only reading finds a
/// log missing.
pub proof fn lemma_log_failure_is_told_for_what_it_is(
    fault: LogFault,
    prepared: AppError,
    read: AppError,
    kept: AppError,
)
    requires
        call_ensures(managed_log_error, (&fault,), prepared),
        call_ensures(managed_log_read_error, (&fault,), read),
        call_ensures(managed_log_retention_error, (&fault,), kept),
    ensures
        ({
            let passes = fault.kind == LogErrorKind::Interrupted || fault.kind
                == LogErrorKind::ResourceBusy;
            let denied = fault.kind == LogErrorKind::PermissionDenied;
            let misconfigured = fault.kind == LogErrorKind::InvalidConfiguration || fault.kind
                == LogErrorKind::InvalidPath;
            let missing = fault.kind == LogErrorKind::NotFound;
            &&& prepared.retryable == passes && read.retryable == passes && kept.retryable == passes
            &&& prepared.code == ErrorCode::AccessDenied <==> denied
            &&& read.code == ErrorCode::AccessDenied <==> denied
            &&& kept.code == ErrorCode::AccessDenied <==> denied
            &&& prepared.code == ErrorCode::Internal <==> misconfigured
            &&& read.code == ErrorCode::InvalidArgument <==> misconfigured
            &&& kept.code == ErrorCode::InvalidArgument <==> misconfigured
            &&& read.code == ErrorCode::NotFound <==> missing
            &&& !denied && !misconfigured ==> prepared.code == ErrorCode::StorageError && kept.code
                == ErrorCode::StorageError
            &&& !denied && !misconfigured && !missing ==> read.code == ErrorCode::StorageError
        }),
{
    assert(prepared@.code == prepared.code && prepared@.retryable == prepared.retryable);
    assert(read@.code == read.code && read@.retryable == read.retryable);
    assert(kept@.code == kept.code && kept@.retryable == kept.retryable);
}

/// A capture that cannot be set up is worth another try exactly where the system said that
/// it was interrupted or busy, whichever part of the set-up failed.
pub proof fn lemma_capture_is_tried_again_where_that_helps(
    stream: &str,
    stage: &str,
    failure: IoFailure,
    pipe: AppError,
    worker: AppError,
    spawned: CaptureWorker,
)
    requires
        call_ensures(managed_log_io_error, (stream, stage, &failure), pipe),
        call_ensures(managed_log_background_error, (stage, &failure), worker),
    ensures
        ({
            let passes = failure.kind@ == "Interrupted"@ || failure.kind@ == "WouldBlock"@
                || failure.kind@ == "ResourceBusy"@;
            &&& pipe.retryable == passes && worker.retryable == passes
            &&& spawn_error(spawned, stream@, stage@, failure).retryable == passes
            &&& pipe.code == ErrorCode::PlatformError && worker.code == ErrorCode::PlatformError
            &&& spawn_error(spawned, stream@, stage@, failure).code == ErrorCode::PlatformError
        }),
{
    assert(pipe@.code == pipe.code && pipe@.retryable == pipe.retryable);
    assert(worker@.code == worker.code && worker@.retryable == worker.retryable);
}

/// Logs are kept below an absolute directory only.
pub proof fn lemma_logs_are_kept_below_an_absolute_directory(
    platform: Platform,
    root: Option<&str>,
    result: Result<(), AppError>,
)
    requires
        call_ensures(validate_log_root, (platform, root), result),
    ensures
        result is Ok <==> root is Some && is_absolute(platform, root->0@),
        result matches Err(error) ==> error.code == ErrorCode::InvalidArgument && !error.retryable,
{
    if let Err(error) = result {
        assert(error@.code == error.code && error@.retryable == error.retryable);
    }
}

/// A reader that begins to capture is held from then on, and takes nobody's place that is
/// still capturing: at most one other reader goes, only where 256 are held, and only the
/// one that was not used for the longest time.
pub proof fn lemma_new_capture_takes_the_longest_unused_place(
    before: RegistryView,
    run_id: Seq<char>,
    reader: u64,
    result: Result<(), AppError>,
    after: RegistryView,
    other: Seq<char>,
)
    requires
        before.wf(),
        capture_reserved(before, run_id, reader, result, after),
    ensures
        result is Ok <==> !before.entries.dom().contains(run_id) && (before.entries.dom().len()
            < 256 || before.completed.len() > 0),
        result is Err ==> after == before,
        result matches Err(error) ==> error.code == ErrorCode::Conflict && (error.retryable
            <==> !before.entries.dom().contains(run_id)),
        result is Ok ==> {
            &&& after.entries.dom().contains(run_id)
            &&& after.entries[run_id].reader == reader
            &&& after.entries[run_id].active && !after.entries[run_id].historical
            &&& !after.completed.contains(run_id)
            &&& before.entries.dom().contains(other) && !after.entries.dom().contains(other)
                <==> before.entries.dom().len() >= 256 && other == before.completed[0]
            &&& other != run_id && after.entries.dom().contains(other)
                ==> before.entries.dom().contains(other) && after.entries[other]
                == before.entries[other]
        },
{
    if let Err(error) = result {
        assert(error@.code == error.code && error@.retryable == error.retryable);
    } else {
        if before.completed.len() > 0 {
            assert(before.completed.contains(before.completed[0]));
        }
        assert(!before.completed.contains(run_id));
        if after.completed.contains(run_id) {
            let k = after.completed.index_of(run_id);
            if before.entries.dom().len() >= 256 {
                assert(before.completed[k + 1] == run_id);
            }
        }
    }
}

/// A reader on files of an earlier capture stands back behind one that is held already;
/// else it is held as historical, at the end of the queue of those that may go, and takes
/// nobody's place that is still capturing.
pub proof fn lemma_historical_reader_stands_back(
    before: RegistryView,
    run_id: Seq<char>,
    reader: u64,
    result: Result<(u64, bool), AppError>,
    after: RegistryView,
    other: Seq<char>,
)
    requires
        before.wf(),
        history_taken_in(before, run_id, reader, result, after),
    ensures
        result is Ok <==> before.entries.dom().contains(run_id) || before.entries.dom().len() < 256
            || before.completed.len() > 0,
        before.entries.dom().contains(run_id) || result is Err ==> after == before,
        result matches Err(error) ==> error.code == ErrorCode::Conflict && error.retryable,
        result matches Ok((used, historical)) ==> {
            &&& after.entries.dom().contains(run_id)
            &&& after.entries[run_id].reader == used && after.entries[run_id].historical
                == historical
            &&& !before.entries.dom().contains(run_id) ==> {
                &&& used == reader && historical && !after.entries[run_id].active
                &&& after.completed.len() > 0 && after.completed.last() == run_id
            }
        },
        before.entries.dom().contains(other) && before.entries[other].active
            ==> after.entries.dom().contains(other) && after.entries[other]
            == before.entries[other],
{
    if let Err(error) = result {
        assert(error@.code == error.code && error@.retryable == error.retryable);
    }
    if before.completed.len() > 0 {
        assert(before.completed.contains(before.completed[0]));
    }
}

/// Using a reader tells which it is and changes none. One whose capture has ended is then
/// the last of all to go; the order of the others stays.
pub proof fn lemma_used_reader_goes_last(
    before: RegistryView,
    run_id: Seq<char>,
    found: Option<(u64, bool)>,
    after: RegistryView,
    first: Seq<char>,
    second: Seq<char>,
)
    requires
        before.wf(),
        reader_used(before, run_id, found, after),
    ensures
        after.entries == before.entries,
        found is Some <==> before.entries.dom().contains(run_id),
        found matches Some((reader, historical)) ==> reader == before.entries[run_id].reader
            && historical == before.entries[run_id].historical,
        found is Some && !before.entries[run_id].active ==> after.completed.len() > 0
            && after.completed.last() == run_id,
        first != run_id && second != run_id && before.completed.contains(first)
            && before.completed.contains(second) && before.completed.index_of(first)
            < before.completed.index_of(second) ==> after.completed.contains(first)
            && after.completed.contains(second) && after.completed.index_of(first)
            < after.completed.index_of(second),
{
    lemma_without(before.completed, run_id);
    let queue = before.completed;
    if before.entries.dom().contains(run_id) && !before.entries[run_id].active && first != run_id
        && second != run_id && queue.contains(first) && queue.contains(second) && queue.index_of(
        first,
    ) < queue.index_of(second) {
        assert(queue.contains(run_id));
        let place = queue.index_of(run_id);
        let rest = without(queue, run_id);
        let i = queue.index_of(first);
        let j = queue.index_of(second);
        assert(queue[place] == run_id && queue[i] == first && queue[j] == second);
        let x = if i < place { i } else { i - 1 };
        let y = if j < place { j } else { j - 1 };
        assert(rest[x] == first && rest[y] == second);
        assert(after.completed == rest.push(run_id));
        assert(after.completed[x] == first && after.completed[y] == second);
        crate::registry::lemma_pushed(rest, run_id);
        let u = after.completed.index_of(first);
        let v = after.completed.index_of(second);
        assert(after.completed[u] == first && after.completed[v] == second);
        assert(u == x && v == y);
    }
}

/// A capture that has ended keeps its reader, which may from then on make room for others:
/// it is the last of those that may go. Nothing else changes.
pub proof fn lemma_ended_capture_may_make_room(
    before: RegistryView,
    run_id: Seq<char>,
    after: RegistryView,
    other: Seq<char>,
)
    requires
        before.wf(),
        capture_ended(before, run_id, after),
    ensures
        after.entries.dom() == before.entries.dom(),
        before.entries.dom().contains(run_id) ==> after.entries[run_id].reader
            == before.entries[run_id].reader && !after.entries[run_id].active
            && after.entries[run_id].historical == before.entries[run_id].historical,
        before.entries.dom().contains(run_id) && before.entries[run_id].active
            ==> after.completed.len() == before.completed.len() + 1 && after.completed.last()
            == run_id,
        other != run_id && before.entries.dom().contains(other) ==> after.entries[other]
            == before.entries[other],
{
    if before.entries.dom().contains(run_id) {
        assert(after.entries.dom() =~= before.entries.dom());
    }
}

/// A log that is still captured keeps its reader where the log is to be deleted; any other
/// reader is let go, and nobody else's.
pub proof fn lemma_captured_log_keeps_its_reader(
    before: RegistryView,
    run_id: Seq<char>,
    evicted: bool,
    after: RegistryView,
    other: Seq<char>,
)
    requires
        before.wf(),
        reader_evicted(before, run_id, evicted, after),
    ensures
        evicted <==> !after.entries.dom().contains(run_id),
        !evicted <==> before.entries.dom().contains(run_id) && before.entries[run_id].active,
        other != run_id ==> (after.entries.dom().contains(other)
            <==> before.entries.dom().contains(other)),
        other != run_id && before.entries.dom().contains(other) ==> after.entries[other]
            == before.entries[other],
        other != run_id ==> (after.completed.contains(other) <==> before.completed.contains(other)),
        after.completed.contains(run_id) ==> !evicted,
{
    lemma_without(before.completed, run_id);
}

/// A capture begins with its reader held, starts the workers of its two streams and then
/// that of its events, and captures once all three were started. One that cannot be started
/// lets the reader of the run go again, and nobody else's.
pub proof fn lemma_capture_starts_its_workers_in_turn(
    before: RegistryView,
    run_id: Seq<char>,
    stdout: Seq<char>,
    stderr: Seq<char>,
    worker: CaptureWorker,
    spawned: Result<(), IoFailure>,
    step: CaptureStart,
    after: RegistryView,
    other: Seq<char>,
)
    requires
        before.wf(),
        capture_follows(before, run_id, stdout, stderr, worker, spawned, step, after),
    ensures
        step == CaptureStart::Spawn(CaptureWorker::Stderr) <==> spawned is Ok && worker
            == CaptureWorker::Stdout,
        step == CaptureStart::Spawn(CaptureWorker::Events) <==> spawned is Ok && worker
            == CaptureWorker::Stderr,
        step is Capturing <==> spawned is Ok && worker == CaptureWorker::Events,
        step is Fail <==> spawned is Err,
        spawned is Ok ==> after == before,
        spawned is Err ==> !after.entries.dom().contains(run_id),
        other != run_id ==> (after.entries.dom().contains(other)
            <==> before.entries.dom().contains(other)),
        other != run_id && before.entries.dom().contains(other) ==> after.entries[other]
            == before.entries[other],
        (step matches CaptureStart::Fail(error) ==> error.code == ErrorCode::PlatformError),
{
    if let CaptureStart::Fail(error) = step {
        assert(error@.code == error.code);
    }
}

/// A capture begins exactly where no reader stands for the run and there is room for one; the
/// reader is then held as capturing, and no reader that captures goes for it.
pub proof fn lemma_capture_begins_with_its_reader_held(
    before: RegistryView,
    run_id: Seq<char>,
    reader: u64,
    step: CaptureStart,
    after: RegistryView,
    other: Seq<char>,
)
    requires
        before.wf(),
        capture_begun(before, run_id, reader, step, after),
    ensures
        step == CaptureStart::Spawn(CaptureWorker::Stdout) <==> !before.entries.dom().contains(
            run_id,
        ) && (before.entries.dom().len() < 256 || before.completed.len() > 0),
        step is Fail ==> after == before,
        step is Fail || step is Spawn,
        step is Spawn ==> after.entries.dom().contains(run_id) && after.entries[run_id].reader
            == reader && after.entries[run_id].active && !after.entries[run_id].historical,
        before.entries.dom().contains(other) && before.entries[other].active
            ==> after.entries.dom().contains(other) && after.entries[other]
            == before.entries[other],
{
    if before.completed.len() > 0 {
        assert(before.completed.contains(before.completed[0]));
    }
}

} // verus!
