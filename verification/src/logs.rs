//! Logs of managed runs: which reader answers a request for a part of a log,
//! what is shown of what was read, and how failures of the log are reported.

use vstd::prelude::*;
use vstd::string::*;

use crate::error::{optional_text, plain_error, AppError, ErrorCode, ErrorView};
use crate::paths::{below, is_absolute, is_absolute_path, is_run_directory, is_same_path};
use crate::registry::{ManagedLogReaderRegistry, RegistryView};
use crate::run::{control_log_range_reader, Controls, ManagedRunRecord, Platform, RunControl};
use crate::runtime::IoFailure;
use crate::text::{decimal, decimal_text, texts_of};

verus! {

/// One of the two streams of a run.
#[derive(Clone, Copy, Debug, PartialEq, Eq, Structural)]
pub enum LogStream {
    Stdout,
    Stderr,
}

/// What went wrong with a log.
#[derive(Clone, Copy, Debug, PartialEq, Eq, Structural)]
pub enum LogErrorKind {
    InvalidConfiguration,
    InvalidPath,
    NotFound,
    PermissionDenied,
    AlreadyExists,
    ResourceBusy,
    StorageFull,
    Interrupted,
    UnexpectedEof,
    InvalidData,
    LimitExceeded,
    WriteZero,
    Unavailable,
    OtherIo,
}

/// The name of what went wrong with a log.
pub open spec fn kind_name(kind: LogErrorKind) -> Seq<char> {
    match kind {
        LogErrorKind::InvalidConfiguration => "InvalidConfiguration"@,
        LogErrorKind::InvalidPath => "InvalidPath"@,
        LogErrorKind::NotFound => "NotFound"@,
        LogErrorKind::PermissionDenied => "PermissionDenied"@,
        LogErrorKind::AlreadyExists => "AlreadyExists"@,
        LogErrorKind::ResourceBusy => "ResourceBusy"@,
        LogErrorKind::StorageFull => "StorageFull"@,
        LogErrorKind::Interrupted => "Interrupted"@,
        LogErrorKind::UnexpectedEof => "UnexpectedEof"@,
        LogErrorKind::InvalidData => "InvalidData"@,
        LogErrorKind::LimitExceeded => "LimitExceeded"@,
        LogErrorKind::WriteZero => "WriteZero"@,
        LogErrorKind::Unavailable => "Unavailable"@,
        LogErrorKind::OtherIo => "OtherIo"@,
    }
}

pub(crate) fn log_error_kind_name(kind: LogErrorKind) -> (name: &'static str)
    ensures
        name@ == kind_name(kind),
{
    match kind {
        LogErrorKind::InvalidConfiguration => "InvalidConfiguration",
        LogErrorKind::InvalidPath => "InvalidPath",
        LogErrorKind::NotFound => "NotFound",
        LogErrorKind::PermissionDenied => "PermissionDenied",
        LogErrorKind::AlreadyExists => "AlreadyExists",
        LogErrorKind::ResourceBusy => "ResourceBusy",
        LogErrorKind::StorageFull => "StorageFull",
        LogErrorKind::Interrupted => "Interrupted",
        LogErrorKind::UnexpectedEof => "UnexpectedEof",
        LogErrorKind::InvalidData => "InvalidData",
        LogErrorKind::LimitExceeded => "LimitExceeded",
        LogErrorKind::WriteZero => "WriteZero",
        LogErrorKind::Unavailable => "Unavailable",
        LogErrorKind::OtherIo => "OtherIo",
    }
}

/// A failure of a log: what was being done, with which stream, and how many
/// bytes had been taken in.
#[derive(Debug)]
pub struct LogFault {
    pub kind: LogErrorKind,
    pub operation: String,
    pub stream: Option<String>,
    pub accepted_input_bytes: u64,
}

/// A failure that may pass by itself.
pub open spec fn is_passing(kind: LogErrorKind) -> bool {
    kind == LogErrorKind::Interrupted || kind == LogErrorKind::ResourceBusy
}

/// How a failure of a log is reported, but for its stream and its bytes.
pub open spec fn fault_report(
    code: ErrorCode,
    message: Seq<char>,
    stage: Seq<char>,
    fault: LogFault,
) -> ErrorView {
    ErrorView { retryable: is_passing(fault.kind), ..plain_error(code, message) }.with(
        "stage"@,
        stage,
    ).with("logOperation"@, fault.operation@).with("logErrorKind"@, kind_name(fault.kind))
}

fn report_fault(code: ErrorCode, message: &str, stage: &str, fault: &LogFault) -> (error: AppError)
    ensures
        error@ == fault_report(code, message@, stage@, *fault),
{
    let mut error = AppError::new(code, message);
    error.retryable = fault.kind == LogErrorKind::Interrupted || fault.kind
        == LogErrorKind::ResourceBusy;
    error.with_detail("stage", stage).with_detail(
        "logOperation",
        fault.operation.as_str(),
    ).with_detail("logErrorKind", log_error_kind_name(fault.kind))
}

/// A report with the stream, where it is known.
pub open spec fn with_stream(error: ErrorView, stream: Option<Seq<char>>) -> ErrorView {
    match stream {
        Some(stream) => error.with("logStream"@, stream),
        None => error,
    }
}

fn add_stream(error: AppError, stream: &Option<String>) -> (result: AppError)
    ensures
        result@ == with_stream(error@, optional_text(*stream)),
{
    match stream {
        Some(stream) => error.with_detail("logStream", stream.as_str()),
        None => error,
    }
}

/// How a failure to prepare a log is reported.
pub open spec fn preparation_report(fault: LogFault) -> ErrorView {
    let code = if fault.kind == LogErrorKind::PermissionDenied {
        ErrorCode::AccessDenied
    } else if fault.kind == LogErrorKind::InvalidConfiguration || fault.kind
        == LogErrorKind::InvalidPath {
        ErrorCode::Internal
    } else {
        ErrorCode::StorageError
    };
    let error = with_stream(
        fault_report(
            code,
            "managed run log preparation failed"@,
            "PrepareManagedRunLogs"@,
            fault,
        ),
        optional_text(fault.stream),
    );
    if fault.accepted_input_bytes != 0 {
        error.with("acceptedInputBytes"@, decimal_text(fault.accepted_input_bytes as nat))
    } else {
        error
    }
}

pub fn managed_log_error(fault: &LogFault) -> (error: AppError)
    ensures
        error@ == preparation_report(*fault),
{
    let code = match fault.kind {
        LogErrorKind::PermissionDenied => ErrorCode::AccessDenied,
        LogErrorKind::InvalidConfiguration | LogErrorKind::InvalidPath => ErrorCode::Internal,
        _ => ErrorCode::StorageError,
    };
    let error = add_stream(
        report_fault(code, "managed run log preparation failed", "PrepareManagedRunLogs", fault),
        &fault.stream,
    );
    if fault.accepted_input_bytes != 0 {
        error.with_detail("acceptedInputBytes", decimal(fault.accepted_input_bytes).as_str())
    } else {
        error
    }
}

/// How a failure to read a log is reported.
pub open spec fn read_report(fault: LogFault) -> ErrorView {
    let code = if fault.kind == LogErrorKind::PermissionDenied {
        ErrorCode::AccessDenied
    } else if fault.kind == LogErrorKind::InvalidConfiguration || fault.kind
        == LogErrorKind::InvalidPath {
        ErrorCode::InvalidArgument
    } else if fault.kind == LogErrorKind::NotFound {
        ErrorCode::NotFound
    } else {
        ErrorCode::StorageError
    };
    with_stream(
        fault_report(
            code,
            "managed run log range could not be read"@,
            "ReadManagedRunLogs"@,
            fault,
        ),
        optional_text(fault.stream),
    )
}

pub fn managed_log_read_error(fault: &LogFault) -> (error: AppError)
    ensures
        error@ == read_report(*fault),
{
    let code = match fault.kind {
        LogErrorKind::PermissionDenied => ErrorCode::AccessDenied,
        LogErrorKind::InvalidConfiguration | LogErrorKind::InvalidPath => {
            ErrorCode::InvalidArgument
        },
        LogErrorKind::NotFound => ErrorCode::NotFound,
        _ => ErrorCode::StorageError,
    };
    add_stream(
        report_fault(
            code,
            "managed run log range could not be read",
            "ReadManagedRunLogs",
            fault,
        ),
        &fault.stream,
    )
}

/// How a failure to keep or delete logs is reported.
pub open spec fn retention_report(fault: LogFault) -> ErrorView {
    let code = if fault.kind == LogErrorKind::PermissionDenied {
        ErrorCode::AccessDenied
    } else if fault.kind == LogErrorKind::InvalidConfiguration || fault.kind
        == LogErrorKind::InvalidPath {
        ErrorCode::InvalidArgument
    } else {
        ErrorCode::StorageError
    };
    fault_report(
        code,
        "managed run log retention operation failed"@,
        "RetainManagedRunLogs"@,
        fault,
    )
}

pub fn managed_log_retention_error(fault: &LogFault) -> (error: AppError)
    ensures
        error@ == retention_report(*fault),
{
    let code = match fault.kind {
        LogErrorKind::PermissionDenied => ErrorCode::AccessDenied,
        LogErrorKind::InvalidConfiguration | LogErrorKind::InvalidPath => {
            ErrorCode::InvalidArgument
        },
        _ => ErrorCode::StorageError,
    };
    report_fault(code, "managed run log retention operation failed", "RetainManagedRunLogs", fault)
}

/// Why a set of secrets cannot be kept out of a log.
#[derive(Clone, Copy, Debug, PartialEq, Eq, Structural)]
pub enum RedactionFault {
    PatternTooLong,
    TooManyPatterns,
    TotalPatternBytesExceeded,
}

pub open spec fn redaction_reason(fault: RedactionFault) -> Seq<char> {
    match fault {
        RedactionFault::PatternTooLong => "patternTooLong"@,
        RedactionFault::TooManyPatterns => "tooManyPatterns"@,
        RedactionFault::TotalPatternBytesExceeded => "totalPatternBytesExceeded"@,
    }
}

pub fn managed_log_redaction_error(fault: RedactionFault) -> (error: AppError)
    ensures
        error@ == plain_error(
            ErrorCode::InvalidArgument,
            "managed run log redaction rules are invalid"@,
        ).with("stage"@, "PrepareManagedLogRedaction"@).with("reason"@, redaction_reason(fault)),
{
    let reason = match fault {
        RedactionFault::PatternTooLong => "patternTooLong",
        RedactionFault::TooManyPatterns => "tooManyPatterns",
        RedactionFault::TotalPatternBytesExceeded => "totalPatternBytesExceeded",
    };
    AppError::new(
        ErrorCode::InvalidArgument,
        "managed run log redaction rules are invalid",
    ).with_detail("stage", "PrepareManagedLogRedaction").with_detail("reason", reason)
}

pub fn managed_log_text_error(code_page: u16) -> (error: AppError)
    ensures
        error@ == plain_error(
            ErrorCode::NotSupported,
            "managed run log encoding is not supported"@,
        ).with("stage"@, "PrepareManagedLogText"@).with(
            "codePage"@,
            decimal_text(code_page as nat),
        ),
{
    AppError::new(
        ErrorCode::NotSupported,
        "managed run log encoding is not supported",
    ).with_detail("stage", "PrepareManagedLogText").with_detail(
        "codePage",
        decimal(code_page as u64).as_str(),
    )
}

/// One variable of the environment that a run is given.
#[derive(Debug)]
pub struct EnvironmentEntry {
    pub value: String,
    /// The value came from the credential store.
    pub secret: bool,
    /// The name says that the value is not for everyone.
    pub sensitive_name: bool,
}

/// Whether a value has to be kept out of the log.
pub open spec fn is_redacted(entry: EnvironmentEntry) -> bool {
    entry.secret || entry.sensitive_name
}

/// The values that have to be kept out of the log, in the order of the
/// environment.
pub open spec fn redacted_values(entries: Seq<EnvironmentEntry>) -> Seq<Seq<char>>
    decreases entries.len(),
{
    if entries.len() == 0 {
        Seq::empty()
    } else if is_redacted(entries.last()) {
        redacted_values(entries.drop_last()).push(entries.last().value@)
    } else {
        redacted_values(entries.drop_last())
    }
}

pub fn managed_log_redaction_secrets(entries: &Vec<EnvironmentEntry>) -> (secrets: Vec<String>)
    ensures
        texts_of(secrets@) == redacted_values(entries@),
{
    let mut secrets: Vec<String> = Vec::new();
    let mut i: usize = 0;
    assert(texts_of(secrets@) =~= Seq::empty());
    assert(entries@.subrange(0, 0).len() == 0);
    while i < entries.len()
        invariant
            i <= entries@.len(),
            texts_of(secrets@) == redacted_values(
                entries@.subrange(0, i as int),
            ),
        decreases entries@.len() - i,
    {
        let ghost before = texts_of(secrets@);
        let ghost rest = entries@.subrange(0, i + 1);
        assert(rest.drop_last() =~= entries@.subrange(0, i as int));
        assert(rest.last() == entries@[i as int]);
        if entries[i].secret || entries[i].sensitive_name {
            secrets.push(entries[i].value.clone());
            assert(texts_of(secrets@) =~= before.push(
                entries@[i as int].value@,
            ));
        }
        i += 1;
    }
    assert(entries@.subrange(0, entries@.len() as int) =~= entries@);
    secrets
}

/// How a run is executed, as far as the encoding of its output goes.
#[derive(Clone, Copy, Debug, PartialEq, Eq, Structural)]
pub enum OutputSource {
    Direct,
    PowerShell,
    Cmd,
    Zsh,
}

/// How the output of a run is decoded.
#[derive(Clone, Copy, Debug, PartialEq, Eq, Structural)]
pub enum EncodingPolicy {
    Utf8,
    WindowsAuto { fallback_code_page: u16 },
}

/// The code page in which a Windows program writes; none for a shell that
/// Windows does not have.
pub open spec fn windows_code_page(source: OutputSource, ansi: u32, oem: u32) -> Option<u32> {
    match source {
        OutputSource::Direct => Some(ansi),
        OutputSource::PowerShell => Some(oem),
        OutputSource::Cmd => Some(oem),
        OutputSource::Zsh => None,
    }
}

/// How the output of a run is decoded: a terminal and macOS give UTF-8, and a
/// Windows pipe falls back to a code page of the system.
pub fn managed_log_encoding_policy(
    platform: Platform,
    interactive: bool,
    source: OutputSource,
    ansi_code_page: u32,
    oem_code_page: u32,
) -> (result: Result<EncodingPolicy, AppError>)
    ensures
        ({
            let page = windows_code_page(source, ansi_code_page, oem_code_page);
            if interactive || platform == Platform::MacOs {
                result is Ok && result->Ok_0 == EncodingPolicy::Utf8
            } else if page is None {
                result is Err && result->Err_0@ == plain_error(
                    ErrorCode::NotSupported,
                    "the selected shell has no Windows log encoding policy"@,
                )
            } else if page->0 > u16::MAX {
                result is Err && result->Err_0@ == plain_error(
                    ErrorCode::PlatformError,
                    "the Windows log encoding code page is invalid"@,
                )
            } else {
                result is Ok && result->Ok_0 == (EncodingPolicy::WindowsAuto {
                    fallback_code_page: page->0 as u16,
                })
            }
        }),
{
    if interactive || platform == Platform::MacOs {
        return Ok(EncodingPolicy::Utf8);
    }
    let code_page: u32 = match source {
        OutputSource::Direct => ansi_code_page,
        OutputSource::PowerShell | OutputSource::Cmd => oem_code_page,
        OutputSource::Zsh => {
            return Err(
                AppError::new(
                    ErrorCode::NotSupported,
                    "the selected shell has no Windows log encoding policy",
                ),
            );
        },
    };
    if code_page > 65_535 {
        return Err(
            AppError::new(
                ErrorCode::PlatformError,
                "the Windows log encoding code page is invalid",
            ),
        );
    }
    Ok(EncodingPolicy::WindowsAuto { fallback_code_page: code_page as u16 })
}

/// The encoding that the output of a run turned out to have.
#[derive(Clone, Copy, Debug, PartialEq, Eq, Structural)]
pub enum LogEncoding {
    Utf8,
    Utf16Le,
    Utf16Be,
    WindowsCodePage { code_page: u16 },
}

/// What is known of how the output of a run was decoded.
#[derive(Clone, Copy, Debug, PartialEq, Eq, Structural)]
pub struct DecodedText {
    pub resolved_encoding: Option<LogEncoding>,
    pub replacement_used: bool,
    pub controls_filtered: bool,
    pub fallback_unavailable: bool,
}

/// What is shown of how the output of a run was decoded.
#[derive(Clone, Copy, Debug, PartialEq, Eq, Structural)]
pub enum TextStatus {
    Unknown,
    Known {
        encoding: LogEncoding,
        replacement_used: bool,
        controls_filtered: bool,
        fallback_unavailable: bool,
    },
}

pub open spec fn text_status_of(status: Option<DecodedText>) -> TextStatus {
    if status is Some && status->0.resolved_encoding is Some {
        TextStatus::Known {
            encoding: status->0.resolved_encoding->0,
            replacement_used: status->0.replacement_used,
            controls_filtered: status->0.controls_filtered,
            fallback_unavailable: status->0.fallback_unavailable,
        }
    } else {
        TextStatus::Unknown
    }
}

pub fn managed_log_text_status(status: Option<DecodedText>) -> (shown: TextStatus)
    ensures
        shown == text_status_of(status),
{
    match status {
        Some(status) => match status.resolved_encoding {
            Some(encoding) => TextStatus::Known {
                encoding,
                replacement_used: status.replacement_used,
                controls_filtered: status.controls_filtered,
                fallback_unavailable: status.fallback_unavailable,
            },
            None => TextStatus::Unknown,
        },
        None => TextStatus::Unknown,
    }
}

/// A request for a part of a log.
#[derive(Debug)]
pub struct LogRangeRequest {
    pub run_id: String,
    pub stream: LogStream,
    pub starting_byte_offset: Option<u64>,
    pub maximum_bytes: u32,
}

/// How a request for a part of a log is answered.
#[derive(Clone, Copy, Debug, PartialEq, Eq, Structural)]
pub enum LogRangePlan {
    /// By a reader, and whether it is historical.
    Read { reader: u64, historical: bool },
    /// By a reader that has to be opened on the files of the run.
    OpenHistorical,
}

/// The refusal of a log that must not or can no longer be read.
pub open spec fn log_refusal(
    record: ManagedRunRecord,
    directory_matches: bool,
    redaction_version: u32,
) -> Option<ErrorView> {
    if record.logs_deletion_started_at is Some || record.logs_deleted_at is Some {
        Some(
            plain_error(
                ErrorCode::NotFound,
                "managed run logs are no longer retained"@,
            ).with("reason"@, "retentionExpired"@),
        )
    } else if record.log_redaction_version != redaction_version {
        Some(
            plain_error(
                ErrorCode::NotSupported,
                "managed run log redaction provenance is unavailable"@,
            ).with("reason"@, "untrustedLogRedactionVersion"@),
        )
    } else if !directory_matches {
        Some(
            plain_error(
                ErrorCode::StorageError,
                "managed run log directory does not match its Supervisor-owned identity"@,
            ).with("stage"@, "ValidateManagedLogDirectory"@),
        )
    } else {
        None
    }
}

fn check_log_record(
    record: &ManagedRunRecord,
    directory_matches: bool,
    redaction_version: u32,
) -> (result: Result<(), AppError>)
    ensures
        match result {
            Ok(_) => log_refusal(*record, directory_matches, redaction_version) is None,
            Err(error) => log_refusal(*record, directory_matches, redaction_version) == Some(
                error@,
            ),
        },
{
    if record.logs_deletion_started_at.is_some() || record.logs_deleted_at.is_some() {
        return Err(
            AppError::new(
                ErrorCode::NotFound,
                "managed run logs are no longer retained",
            ).with_detail("reason", "retentionExpired"),
        );
    }
    if record.log_redaction_version != redaction_version {
        return Err(
            AppError::new(
                ErrorCode::NotSupported,
                "managed run log redaction provenance is unavailable",
            ).with_detail("reason", "untrustedLogRedactionVersion"),
        );
    }
    if !directory_matches {
        return Err(
            AppError::new(
                ErrorCode::StorageError,
                "managed run log directory does not match its Supervisor-owned identity",
            ).with_detail("stage", "ValidateManagedLogDirectory"),
        );
    }
    Ok(())
}

/// The refusal of an offset that no reader knows any more.
pub open spec fn stale_offset_error() -> ErrorView {
    plain_error(
        ErrorCode::Conflict,
        "managed log offset generation is no longer available"@,
    ).retry().with("reason"@, "staleLogOffsetGeneration"@).with(
        "recovery"@,
        "omitStartingByteOffset"@,
    )
}

fn stale_managed_log_offset_error() -> (error: AppError)
    ensures
        error@ == stale_offset_error(),
{
    AppError::new(
        ErrorCode::Conflict,
        "managed log offset generation is no longer available",
    ).as_retryable().with_detail("reason", "staleLogOffsetGeneration").with_detail(
        "recovery",
        "omitStartingByteOffset",
    )
}

/// The reader that is at hand for a run: a registered one, or the one of the
/// capture that the supervisor holds.
pub open spec fn available_reader(
    registry: RegistryView,
    controls: Map<Seq<char>, RunControl>,
    run_id: Seq<char>,
) -> Option<(u64, bool)> {
    if registry.entries.dom().contains(run_id) {
        Some((registry.entries[run_id].reader, registry.entries[run_id].historical))
    } else if controls.dom().contains(run_id) {
        let held = match controls[run_id] {
            RunControl::Running(process) => process.log_reader,
            RunControl::Quarantined(process) => process.log_reader,
            RunControl::Stopping(stop) => stop.process.log_reader,
            _ => None,
        };
        match held {
            Some(reader) => Some((reader, false)),
            None => None,
        }
    } else {
        None
    }
}

/// How a request for a part of a log is answered, and what becomes of the registry.
pub open spec fn range_planned(
    before: RegistryView,
    controls: Map<Seq<char>, RunControl>,
    request: LogRangeRequest,
    record: ManagedRunRecord,
    platform: Platform,
    log_root: Seq<char>,
    redaction_version: u32,
    result: Result<LogRangePlan, AppError>,
    after: RegistryView,
) -> bool {
    let own = is_same_path(
        platform,
        record.log_directory@,
        below(platform, log_root, request.run_id@),
    );
    let refusal = log_refusal(record, own, redaction_version);
    let reader = available_reader(before, controls, request.run_id@);
    &&& after == before.after_use(request.run_id@)
    &&& match result {
        Ok(plan) => refusal is None && (match reader {
            Some((reader, historical)) => plan == (LogRangePlan::Read { reader, historical }),
            None => request.starting_byte_offset is None && plan == LogRangePlan::OpenHistorical,
        }),
        Err(error) => if refusal is Some {
            refusal == Some(error@)
        } else {
            reader is None && request.starting_byte_offset is Some && error@
                == stale_offset_error()
        },
    }
}

/// Decides how a request for a part of a log is answered. The directory that is
/// stored for the run must be its own below the root of all logs. Without a reader at
/// hand an offset means nothing: the files are read from where they start.
pub fn get_log_range(
    registry: &mut ManagedLogReaderRegistry,
    controls: &Controls,
    request: &LogRangeRequest,
    record: &ManagedRunRecord,
    platform: Platform,
    log_root: &str,
    redaction_version: u32,
) -> (result: Result<LogRangePlan, AppError>)
    requires
        old(registry).wf(),
        controls.wf(),
    ensures
        final(registry).wf(),
        range_planned(
            old(registry)@,
            controls@,
            *request,
            *record,
            platform,
            log_root@,
            redaction_version,
            result,
            final(registry)@,
        ),
{
    let registered = registry.get(request.run_id.as_str());
    let own = is_run_directory(
        platform,
        log_root,
        request.run_id.as_str(),
        record.log_directory.as_str(),
    );
    match check_log_record(record, own, redaction_version) {
        Ok(_) => {},
        Err(error) => return Err(error),
    }
    let available = match registered {
        Some(pair) => Some(pair),
        None => match controls.get(request.run_id.as_str()) {
            Some(control) => match control_log_range_reader(control) {
                Some(reader) => Some((reader, false)),
                None => None,
            },
            None => None,
        },
    };
    match available {
        Some((reader, historical)) => Ok(LogRangePlan::Read { reader, historical }),
        None => if request.starting_byte_offset.is_some() {
            Err(stale_managed_log_offset_error())
        } else {
            Ok(LogRangePlan::OpenHistorical)
        },
    }
}

/// A part of a log as it was read, or as it is handed out while it is captured.
#[derive(Debug)]
pub struct LogPart {
    pub sequence: u64,
    pub first_available: u64,
    pub first: u64,
    pub next: u64,
    pub end: u64,
    pub text: String,
    pub has_more: bool,
    pub complete: bool,
    pub end_of_file: bool,
    pub io_status_known: bool,
    pub disk_error: Option<LogErrorKind>,
    pub read_error: Option<LogErrorKind>,
    pub delivery_error: Option<LogErrorKind>,
    pub text_status: Option<DecodedText>,
}

/// The answer to a request for a part of a log.
#[derive(Debug)]
pub struct LogRangeResponse {
    pub run_id: String,
    pub stream: LogStream,
    pub observed_sequence: u64,
    pub first_available_byte_offset: u64,
    pub first_byte_offset: u64,
    pub next_byte_offset: u64,
    pub stream_end_byte_offset: u64,
    pub text: String,
    pub has_more: bool,
    pub complete: bool,
    pub end_of_file: bool,
    pub io_status_known: bool,
    pub disk_error: Option<LogErrorKind>,
    pub read_error: Option<LogErrorKind>,
    pub text_status: TextStatus,
}

/// Shows a part of a log that was read. The log of an earlier capture has
/// ended, whatever its files say. The answer is given where the rules for answers
/// admit it.
pub fn log_range_response(
    request: &LogRangeRequest,
    read: LogPart,
    historical: bool,
    checked: Result<(), AppError>,
) -> (result: Result<LogRangeResponse, AppError>)
    ensures
        checked is Err ==> result is Err && result->Err_0 == checked->Err_0,
        checked is Ok ==> result is Ok && result->Ok_0 == (LogRangeResponse {
            run_id: request.run_id,
            stream: request.stream,
            observed_sequence: read.sequence,
            first_available_byte_offset: read.first_available,
            first_byte_offset: read.first,
            next_byte_offset: read.next,
            stream_end_byte_offset: read.end,
            text: read.text,
            has_more: read.has_more,
            complete: read.complete,
            end_of_file: read.end_of_file || historical,
            io_status_known: read.io_status_known,
            disk_error: read.disk_error,
            read_error: read.read_error,
            text_status: text_status_of(read.text_status),
        }),
{
    match checked {
        Ok(_) => {},
        Err(error) => return Err(error),
    }
    Ok(LogRangeResponse {
        run_id: request.run_id.clone(),
        stream: request.stream,
        observed_sequence: read.sequence,
        first_available_byte_offset: read.first_available,
        first_byte_offset: read.first,
        next_byte_offset: read.next,
        stream_end_byte_offset: read.end,
        text: read.text,
        has_more: read.has_more,
        complete: read.complete,
        end_of_file: read.end_of_file || historical,
        io_status_known: read.io_status_known,
        disk_error: read.disk_error,
        read_error: read.read_error,
        text_status: managed_log_text_status(read.text_status),
    })
}

/// A part of a log that is handed out while it is captured.
#[derive(Debug)]
pub struct LogChunk {
    pub run_id: String,
    pub stream: LogStream,
    pub sequence: u64,
    pub first_available_byte_offset: u64,
    pub first_byte_offset: u64,
    pub next_byte_offset: u64,
    pub stream_end_byte_offset: u64,
    pub text: String,
    pub has_more: bool,
    pub caught_up: bool,
    pub end_of_file: bool,
    pub io_status_known: bool,
    pub disk_error: Option<LogErrorKind>,
    pub read_error: Option<LogErrorKind>,
    pub delivery_error: Option<LogErrorKind>,
    pub text_status: TextStatus,
}

/// Shows a part of a log that is handed out while it is captured.
pub fn managed_log_chunk(run_id: &String, stream: LogStream, event: LogPart) -> (chunk: LogChunk)
    ensures
        chunk == (LogChunk {
            run_id: *run_id,
            stream,
            sequence: event.sequence,
            first_available_byte_offset: event.first_available,
            first_byte_offset: event.first,
            next_byte_offset: event.next,
            stream_end_byte_offset: event.end,
            text: event.text,
            has_more: event.has_more,
            caught_up: event.complete,
            end_of_file: event.end_of_file,
            io_status_known: event.io_status_known,
            disk_error: event.disk_error,
            read_error: event.read_error,
            delivery_error: event.delivery_error,
            text_status: text_status_of(event.text_status),
        }),
{
    LogChunk {
        run_id: run_id.clone(),
        stream,
        sequence: event.sequence,
        first_available_byte_offset: event.first_available,
        first_byte_offset: event.first,
        next_byte_offset: event.next,
        stream_end_byte_offset: event.end,
        text: event.text,
        has_more: event.has_more,
        caught_up: event.complete,
        end_of_file: event.end_of_file,
        io_status_known: event.io_status_known,
        disk_error: event.disk_error,
        read_error: event.read_error,
        delivery_error: event.delivery_error,
        text_status: managed_log_text_status(event.text_status),
    }
}

/// A failure that passes: what failed may be tried again.
pub open spec fn io_passes(failure: IoFailure) -> bool {
    failure.kind@ == "Interrupted"@ || failure.kind@ == "WouldBlock"@ || failure.kind@
        == "ResourceBusy"@
}

fn io_failure_passes(failure: &IoFailure) -> (passes: bool)
    ensures
        passes == io_passes(*failure),
{
    failure.is("Interrupted") || failure.is("WouldBlock") || failure.is("ResourceBusy")
}

/// The report of a stream that could not be set up.
pub fn managed_log_io_error(stream: &str, stage: &str, failure: &IoFailure) -> (error: AppError)
    ensures
        error@ == (ErrorView {
            retryable: io_passes(*failure),
            ..plain_error(ErrorCode::PlatformError, "managed run log pipe setup failed"@)
        }).with("stage"@, stage@).with("logStream"@, stream@).with("ioKind"@, failure.kind@),
{
    let mut error = AppError::new(ErrorCode::PlatformError, "managed run log pipe setup failed");
    error.retryable = io_failure_passes(failure);
    error.with_detail("stage", stage).with_detail("logStream", stream).with_detail(
        "ioKind",
        failure.kind.as_str(),
    )
}

/// The report of a worker that could not be started.
pub fn managed_log_background_error(stage: &str, failure: &IoFailure) -> (error: AppError)
    ensures
        error@ == (ErrorView {
            retryable: io_passes(*failure),
            ..plain_error(
                ErrorCode::PlatformError,
                "managed run log worker could not be started"@,
            )
        }).with("stage"@, stage@).with("ioKind"@, failure.kind@),
{
    let mut error = AppError::new(
        ErrorCode::PlatformError,
        "managed run log worker could not be started",
    );
    error.retryable = io_failure_passes(failure);
    error.with_detail("stage", stage).with_detail("ioKind", failure.kind.as_str())
}

/// The refusal of a directory of all logs.
pub open spec fn log_root_error() -> ErrorView {
    plain_error(ErrorCode::InvalidArgument, "managed run log root is invalid"@).with(
        "field"@,
        "logRoot"@,
    ).with("reason"@, "must be an absolute Unicode path owned by the Supervisor"@)
}

/// The directory of all logs is text, and given from the top. One that is not
/// text is none.
pub fn validate_log_root(platform: Platform, root: Option<&str>) -> (result: Result<(), AppError>)
    ensures
        match result {
            Ok(_) => root is Some && is_absolute(platform, root->0@),
            Err(error) => (root is None || !is_absolute(platform, root->0@)) && error@
                == log_root_error(),
        },
{
    let valid = match root {
        Some(root) => is_absolute_path(platform, root),
        None => false,
    };
    if valid {
        return Ok(());
    }
    Err(
        AppError::new(
            ErrorCode::InvalidArgument,
            "managed run log root is invalid",
        ).with_detail("field", "logRoot").with_detail(
            "reason",
            "must be an absolute Unicode path owned by the Supervisor",
        ),
    )
}

} // verus!
