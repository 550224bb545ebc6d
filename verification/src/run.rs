//! Managed runs: what is stored of a run, what the supervisor holds of its
//! process, and how the two are compared.

use vstd::prelude::*;

use crate::error::{optional_text, plain_error, AppError, ErrorCode, ErrorView};
use crate::table::Table;
use crate::text::{copy_optional, same_text};

verus! {

/// The operating system on which runs are managed.
#[derive(Clone, Copy, Debug, PartialEq, Eq, Structural)]
pub enum Platform {
    Windows,
    MacOs,
}

/// The identity of a process over reboots and reused process numbers.
#[derive(Debug)]
pub struct ProcessInstanceKey {
    pub boot_id: String,
    pub pid: u32,
    pub native_start_time: u64,
}

/// What a process identity says.
pub struct KeyView {
    pub boot_id: Seq<char>,
    pub pid: u32,
    pub native_start_time: u64,
}

impl View for ProcessInstanceKey {
    type V = KeyView;

    open spec fn view(&self) -> KeyView {
        KeyView {
            boot_id: self.boot_id@,
            pid: self.pid,
            native_start_time: self.native_start_time,
        }
    }
}

impl ProcessInstanceKey {
    /// Whether two identities are the same.
    pub fn same(&self, other: &ProcessInstanceKey) -> (same: bool)
        ensures
            same == (self@ == other@),
    {
        self.pid == other.pid && self.native_start_time == other.native_start_time && same_text(
            self.boot_id.as_str(),
            other.boot_id.as_str(),
        )
    }

    pub fn copy(&self) -> (copy: Self)
        ensures
            copy == *self,
    {
        ProcessInstanceKey {
            boot_id: self.boot_id.clone(),
            pid: self.pid,
            native_start_time: self.native_start_time,
        }
    }
}

/// What an optional process identity says.
pub open spec fn optional_key(key: Option<ProcessInstanceKey>) -> Option<KeyView> {
    match key {
        Some(key) => Some(key@),
        None => None,
    }
}

/// Whether an optional process identity is a given one.
pub fn is_key(stored: &Option<ProcessInstanceKey>, key: &ProcessInstanceKey) -> (same: bool)
    ensures
        same == (optional_key(*stored) == Some(key@)),
{
    match stored {
        Some(stored) => stored.same(key),
        None => false,
    }
}

/// Whether two optional process identities are the same.
pub fn same_keys(
    first: &Option<ProcessInstanceKey>,
    second: &Option<ProcessInstanceKey>,
) -> (same: bool)
    ensures
        same == (optional_key(*first) == optional_key(*second)),
{
    match (first, second) {
        (Some(first), Some(second)) => first.same(second),
        (None, None) => true,
        _ => false,
    }
}

/// A copy of an optional process identity.
pub fn copy_key(key: &Option<ProcessInstanceKey>) -> (copy: Option<ProcessInstanceKey>)
    ensures
        copy == *key,
{
    match key {
        Some(key) => Some(key.copy()),
        None => None,
    }
}

/// Whether two optional strings are the same.
pub fn same_optional(first: &Option<String>, second: &Option<String>) -> (same: bool)
    ensures
        same == (optional_text(*first) == optional_text(*second)),
{
    match (first, second) {
        (Some(first), Some(second)) => same_text(first.as_str(), second.as_str()),
        (None, None) => true,
        _ => false,
    }
}

/// Whether an optional string is a given one.
pub fn is_text(stored: &Option<String>, text: &str) -> (same: bool)
    ensures
        same == (optional_text(*stored) == Some(text@)),
{
    match stored {
        Some(stored) => same_text(stored.as_str(), text),
        None => false,
    }
}

/// How far a run has come.
#[derive(Clone, Copy, Debug, PartialEq, Eq, Structural)]
pub enum RunState {
    Starting,
    Running,
    Recovered,
    StopRequested,
    GracefulStopping,
    ForceStopping,
    Exited,
    Failed,
    Orphaned,
}

/// How a run is to be stopped.
#[derive(Clone, Copy, Debug, PartialEq, Eq, Structural)]
pub enum StopKind {
    Graceful,
    Force,
}

/// How far a stop operation has come in the store.
#[derive(Clone, Copy, Debug, PartialEq, Eq, Structural)]
pub enum StopStatus {
    Requested,
    SignalPending,
    InProgress,
    TimedOut,
    Completed,
    Superseded,
}

/// Whether the stop signal reached the process.
#[derive(Clone, Copy, Debug, PartialEq, Eq, Structural)]
pub enum SignalDisposition {
    Delivered,
    Unavailable,
}

/// What a stop operation ended in.
#[derive(Clone, Copy, Debug, PartialEq, Eq, Structural)]
pub enum StopOutcome {
    Exited,
    IdentityMismatch,
    Orphaned,
    SignalUnavailable,
}

/// The launch profile as it was when a run started.
#[derive(Debug)]
pub struct ProfileSnapshot {
    pub id: String,
    pub updated_at: String,
    pub stop_timeout_ms: u32,
}

/// What is stored of a run.
#[derive(Debug)]
pub struct ManagedRunRecord {
    pub id: String,
    pub profile_id: Option<String>,
    pub profile_snapshot: ProfileSnapshot,
    pub state: RunState,
    pub process_instance_key: Option<ProcessInstanceKey>,
    pub process_group_id: Option<u32>,
    pub stop_method: Option<String>,
    pub exit_code: Option<i32>,
    pub exit_signal: Option<i32>,
    pub started_at: String,
    pub updated_at: String,
    pub ended_at: Option<String>,
    pub log_directory: String,
    pub log_redaction_version: u32,
    pub logs_deletion_started_at: Option<String>,
    pub logs_deleted_at: Option<String>,
}

/// What is shown of a run.
#[derive(Debug)]
pub struct ManagedRunSummary {
    pub run_id: String,
    pub profile_id: String,
    pub profile_updated_at: String,
    pub state: RunState,
    pub process_instance_key: Option<ProcessInstanceKey>,
    pub process_group_id: Option<u32>,
    pub started_at: String,
    pub updated_at: String,
    pub ended_at: Option<String>,
}

/// A stop operation as it stands in the store.
#[derive(Debug)]
pub struct StopOperation {
    pub operation_id: String,
    pub kind: StopKind,
    pub status: StopStatus,
    pub signal_disposition: Option<SignalDisposition>,
    pub outcome: Option<StopOutcome>,
    pub run: ManagedRunSummary,
    pub updated_at: String,
    pub completed_at: Option<String>,
}

/// A process that the supervisor owns. The handle is the number under which
/// the process itself is kept.
#[derive(Debug)]
pub struct ManagedProcess {
    pub handle: u64,
    pub instance_key: ProcessInstanceKey,
    pub process_group_id: u32,
    pub terminal: bool,
    pub log_reader: Option<u64>,
}

/// How far the stop of a held process has come.
#[derive(Clone, Copy, Debug, PartialEq, Eq, Structural)]
pub enum StopPhase {
    Requested,
    SignalPending,
    SignalAttempted,
    Monitoring,
    TimedOut,
    CompletionPending(StopOutcome),
}

/// A held process that is being stopped. Times are milliseconds of a clock
/// that never goes back.
#[derive(Debug)]
pub struct StoppingProcess {
    pub process: ManagedProcess,
    pub operation_id: String,
    pub kind: StopKind,
    pub phase: StopPhase,
    pub signal_disposition: Option<SignalDisposition>,
    pub confirmation_window: u64,
    pub deadline: u64,
    pub worker_running: bool,
}

/// A process that could not be cleaned up yet.
#[derive(Debug)]
pub struct PendingCleanup {
    pub handle: u64,
    pub process_instance_key: Option<ProcessInstanceKey>,
}

/// What the supervisor holds of a run.
#[derive(Debug)]
pub enum RunControl {
    StartingIntent,
    Suspended(ManagedProcess),
    RunningUncommitted(ManagedProcess),
    Running(ManagedProcess),
    Stopping(StoppingProcess),
    Quarantined(ManagedProcess),
    CleanupPending(PendingCleanup),
}

/// What the supervisor holds of every run, by run ID.
pub type Controls = Table<RunControl>;

impl RunControl {
    /// The identity of the process that is held.
    pub open spec fn key(self) -> Option<KeyView> {
        match self {
            RunControl::StartingIntent => None,
            RunControl::Suspended(process) => Some(process.instance_key@),
            RunControl::RunningUncommitted(process) => Some(process.instance_key@),
            RunControl::Running(process) => Some(process.instance_key@),
            RunControl::Stopping(stop) => Some(stop.process.instance_key@),
            RunControl::Quarantined(process) => Some(process.instance_key@),
            RunControl::CleanupPending(pending) => optional_key(pending.process_instance_key),
        }
    }

    /// Whether a process is held that has been committed as running.
    pub open spec fn owns_running_process(self) -> bool {
        self is Running || self is Stopping || self is Quarantined
    }
}

/// The identity of the process that is held.
pub fn control_instance_key(control: &RunControl) -> (key: Option<&ProcessInstanceKey>)
    ensures
        match key {
            Some(key) => control.key() == Some(key@),
            None => control.key() is None,
        },
{
    match control {
        RunControl::StartingIntent => None,
        RunControl::Suspended(process) => Some(&process.instance_key),
        RunControl::RunningUncommitted(process) => Some(&process.instance_key),
        RunControl::Running(process) => Some(&process.instance_key),
        RunControl::Stopping(stop) => Some(&stop.process.instance_key),
        RunControl::Quarantined(process) => Some(&process.instance_key),
        RunControl::CleanupPending(pending) => pending.process_instance_key.as_ref(),
    }
}

/// The reader of the log that the supervisor captures of a held run.
pub fn control_log_range_reader(control: &RunControl) -> (reader: Option<u64>)
    ensures
        reader == (match *control {
            RunControl::Running(process) => process.log_reader,
            RunControl::Quarantined(process) => process.log_reader,
            RunControl::Stopping(stop) => stop.process.log_reader,
            _ => None,
        }),
{
    match control {
        RunControl::Running(process) => process.log_reader,
        RunControl::Quarantined(process) => process.log_reader,
        RunControl::Stopping(stop) => stop.process.log_reader,
        _ => None,
    }
}

/// The number of names of a table under which a value with a property stands.
pub open spec fn count_where<V>(table: Map<Seq<char>, V>, property: spec_fn(V) -> bool) -> nat {
    table.dom().filter(|name: Seq<char>| property(table[name])).len()
}

/// The first places of a table under which a value with a property stands.
spec fn places_where<V>(table: Table<V>, property: spec_fn(V) -> bool, end: int) -> Set<Seq<char>> {
    table@.dom().filter(
        |name: Seq<char>|
            property(table@[name]) && exists|i: int| 0 <= i < end && #[trigger] table.name_at(i) == name,
    )
}

proof fn lemma_next_place<V>(table: Table<V>, property: spec_fn(V) -> bool, end: int)
    requires
        table.wf(),
        0 <= end < table@.dom().len(),
    ensures
        places_where(table, property, end).finite(),
        places_where(table, property, end + 1).len() == places_where(table, property, end).len()
            + (if property(table@[table.name_at(end)]) { 1nat } else { 0nat }),
{
    table.lemma_names();
    let name = table.name_at(end);
    let before = places_where(table, property, end);
    let after = places_where(table, property, end + 1);
    assert(before.subset_of(table@.dom()));
    vstd::set_lib::lemma_len_subset(before, table@.dom());
    assert(!before.contains(name));
    if property(table@[name]) {
        assert(after =~= before.insert(name)) by {
            assert(after.contains(name)) by {
                assert(table.name_at(end) == name);
            }
        }
    } else {
        assert(after =~= before);
    }
}

proof fn lemma_all_places<V>(table: Table<V>, property: spec_fn(V) -> bool)
    requires
        table.wf(),
    ensures
        places_where(table, property, 0).len() == 0,
        places_where(table, property, table@.dom().len() as int).len() == count_where(
            table@,
            property,
        ),
{
    table.lemma_names();
    assert(places_where(table, property, 0) =~= Set::empty());
    assert(places_where(table, property, table@.dom().len() as int) =~= table@.dom().filter(
        |name: Seq<char>| property(table@[name]),
    ));
}

/// The number of runs whose committed process the supervisor holds.
pub fn running_count(controls: &Controls) -> (count: usize)
    requires
        controls.wf(),
    ensures
        count == count_where(controls@, |control: RunControl| control.owns_running_process()),
{
    let ghost property = |control: RunControl| control.owns_running_process();
    let mut count: usize = 0;
    let mut i: usize = 0;
    let length: usize = controls.len();
    proof {
        lemma_all_places(*controls, property);
    }
    while i < length
        invariant
            controls.wf(),
            length == controls@.dom().len(),
            i <= length,
            count <= i,
            property == |control: RunControl| control.owns_running_process(),
            count == places_where(*controls, property, i as int).len(),
        decreases length - i,
    {
        let (name, control) = controls.entry(i);
        proof {
            lemma_next_place(*controls, property, i as int);
        }
        match control {
            RunControl::Running(_) | RunControl::Stopping(_) | RunControl::Quarantined(_) => {
                count += 1;
            },
            _ => {},
        }
        i += 1;
    }
    count
}

/// The number of runs whose process could not be cleaned up yet.
pub fn cleanup_pending_count(controls: &Controls) -> (count: usize)
    requires
        controls.wf(),
    ensures
        count == count_where(controls@, |control: RunControl| control is CleanupPending),
{
    let ghost property = |control: RunControl| control is CleanupPending;
    let mut count: usize = 0;
    let mut i: usize = 0;
    let length: usize = controls.len();
    proof {
        lemma_all_places(*controls, property);
    }
    while i < length
        invariant
            controls.wf(),
            length == controls@.dom().len(),
            i <= length,
            count <= i,
            property == |control: RunControl| control is CleanupPending,
            count == places_where(*controls, property, i as int).len(),
        decreases length - i,
    {
        let (name, control) = controls.entry(i);
        proof {
            lemma_next_place(*controls, property, i as int);
        }
        match control {
            RunControl::CleanupPending(_) => {
                count += 1;
            },
            _ => {},
        }
        i += 1;
    }
    count
}

/// The identity of the committed process of a run.
pub fn managed_instance_key(controls: &Controls, run_id: &str) -> (key: Option<ProcessInstanceKey>)
    requires
        controls.wf(),
    ensures
        optional_key(key) == (if controls@.dom().contains(run_id@)
            && controls@[run_id@].owns_running_process() {
            controls@[run_id@].key()
        } else {
            None
        }),
{
    match controls.get(run_id) {
        Some(RunControl::Running(process)) => Some(process.instance_key.copy()),
        Some(RunControl::Quarantined(process)) => Some(process.instance_key.copy()),
        Some(RunControl::Stopping(stop)) => Some(stop.process.instance_key.copy()),
        _ => None,
    }
}

/// Whether a stored identity and process group are those of a held process. A
/// Windows run is held by a job and stores no process group.
pub open spec fn process_matches(
    platform: Platform,
    process: ManagedProcess,
    key: Option<KeyView>,
    process_group_id: Option<u32>,
) -> bool {
    &&& key == Some(process.instance_key@)
    &&& match platform {
        Platform::Windows => process_group_id is None,
        Platform::MacOs => process_group_id == Some(process.process_group_id),
    }
}

fn group_matches(
    platform: Platform,
    process: &ManagedProcess,
    process_group_id: Option<u32>,
) -> (matches: bool)
    ensures
        matches == (match platform {
            Platform::Windows => process_group_id is None,
            Platform::MacOs => process_group_id == Some(process.process_group_id),
        }),
{
    match (platform, process_group_id) {
        (Platform::Windows, None) => true,
        (Platform::Windows, Some(_)) => false,
        (Platform::MacOs, Some(group)) => group == process.process_group_id,
        (Platform::MacOs, None) => false,
    }
}

pub fn platform_control_matches_record(
    platform: Platform,
    process: &ManagedProcess,
    record: &ManagedRunRecord,
) -> (matches: bool)
    ensures
        matches == process_matches(
            platform,
            *process,
            optional_key(record.process_instance_key),
            record.process_group_id,
        ),
{
    is_key(&record.process_instance_key, &process.instance_key) && group_matches(
        platform,
        process,
        record.process_group_id,
    )
}

pub fn platform_control_matches_summary(
    platform: Platform,
    process: &ManagedProcess,
    summary: &ManagedRunSummary,
) -> (matches: bool)
    ensures
        matches == process_matches(
            platform,
            *process,
            optional_key(summary.process_instance_key),
            summary.process_group_id,
        ),
{
    is_key(&summary.process_instance_key, &process.instance_key) && group_matches(
        platform,
        process,
        summary.process_group_id,
    )
}

/// Whether a stored process group fits the identity it was stored with: a
/// Windows run has none, a macOS run leads its own group.
pub fn persisted_platform_control_is_valid(
    platform: Platform,
    instance_key: &ProcessInstanceKey,
    process_group_id: Option<u32>,
) -> (valid: bool)
    ensures
        valid == (match platform {
            Platform::Windows => process_group_id is None,
            Platform::MacOs => process_group_id == Some(instance_key.pid),
        }),
{
    match (platform, process_group_id) {
        (Platform::Windows, None) => true,
        (Platform::Windows, Some(_)) => false,
        (Platform::MacOs, Some(group)) => group == instance_key.pid,
        (Platform::MacOs, None) => false,
    }
}

/// Whether a record carries the process group that a run of the platform has.
pub open spec fn group_is_stored(platform: Platform, process_group_id: Option<u32>) -> bool {
    match platform {
        Platform::Windows => process_group_id is None,
        Platform::MacOs => process_group_id is Some,
    }
}

/// The answer where a record carries another process group than a run of the
/// platform has.
pub open spec fn group_error(platform: Platform) -> ErrorView {
    match platform {
        Platform::Windows => plain_error(
            ErrorCode::Internal,
            "Windows Job-managed run unexpectedly stored a process group"@,
        ),
        Platform::MacOs => plain_error(
            ErrorCode::Internal,
            "macOS managed run lost its controlled process group"@,
        ),
    }
}

/// The process group to show of a run.
pub fn summary_process_group_id(platform: Platform, process_group_id: Option<u32>) -> (result:
    Result<Option<u32>, AppError>)
    ensures
        match result {
            Ok(group) => group_is_stored(platform, process_group_id) && group == process_group_id,
            Err(error) => !group_is_stored(platform, process_group_id) && error@ == group_error(
                platform,
            ),
        },
{
    match (platform, process_group_id) {
        (Platform::Windows, None) => Ok(None),
        (Platform::Windows, Some(_)) => Err(
            AppError::new(
                ErrorCode::Internal,
                "Windows Job-managed run unexpectedly stored a process group",
            ),
        ),
        (Platform::MacOs, Some(group)) => Ok(Some(group)),
        (Platform::MacOs, None) => Err(
            AppError::new(
                ErrorCode::Internal,
                "macOS managed run lost its controlled process group",
            ),
        ),
    }
}

/// A summary shows a record under the profile identity and at the state and
/// time that are given.
pub open spec fn shows(
    summary: ManagedRunSummary,
    record: ManagedRunRecord,
    profile_id: Seq<char>,
    state: RunState,
    updated_at: Seq<char>,
    ended_at: Option<Seq<char>>,
) -> bool {
    &&& summary.run_id@ == record.id@
    &&& summary.profile_id@ == profile_id
    &&& summary.profile_updated_at@ == record.profile_snapshot.updated_at@
    &&& summary.state == state
    &&& optional_key(summary.process_instance_key) == optional_key(record.process_instance_key)
    &&& summary.process_group_id == record.process_group_id
    &&& summary.started_at@ == record.started_at@
    &&& summary.updated_at@ == updated_at
    &&& optional_text(summary.ended_at) == ended_at
}

/// What is shown of a run that has just been started.
pub fn projected_running_result(
    platform: Platform,
    record: &ManagedRunRecord,
    updated_at: &str,
) -> (result: Result<ManagedRunSummary, AppError>)
    ensures
        match result {
            Ok(run) => {
                &&& record.profile_id is Some
                &&& group_is_stored(platform, record.process_group_id)
                &&& shows(
                    run,
                    *record,
                    record.profile_id->0@,
                    RunState::Running,
                    updated_at@,
                    None,
                )
            },
            Err(error) => error@ == (if record.profile_id is None {
                plain_error(
                    ErrorCode::Internal,
                    "managed run lost its launch profile identity"@,
                )
            } else {
                group_error(platform)
            }) && (record.profile_id is None || !group_is_stored(platform, record.process_group_id)),
        },
{
    let profile_id = match &record.profile_id {
        Some(profile_id) => profile_id.clone(),
        None => {
            return Err(
                AppError::new(
                    ErrorCode::Internal,
                    "managed run lost its launch profile identity",
                ),
            );
        },
    };
    let process_group_id = match summary_process_group_id(platform, record.process_group_id) {
        Ok(group) => group,
        Err(error) => return Err(error),
    };
    Ok(
        ManagedRunSummary {
            run_id: record.id.clone(),
            profile_id,
            profile_updated_at: record.profile_snapshot.updated_at.clone(),
            state: RunState::Running,
            process_instance_key: copy_key(&record.process_instance_key),
            process_group_id,
            started_at: record.started_at.clone(),
            updated_at: updated_at.to_owned(),
            ended_at: None,
        },
    )
}

/// What is shown of a stored run.
pub fn projected_managed_run_summary(platform: Platform, record: &ManagedRunRecord) -> (result:
    Result<ManagedRunSummary, AppError>)
    ensures
        match result {
            Ok(run) => group_is_stored(platform, record.process_group_id) && shows(
                run,
                *record,
                record.profile_snapshot.id@,
                record.state,
                record.updated_at@,
                optional_text(record.ended_at),
            ),
            Err(error) => !group_is_stored(platform, record.process_group_id) && error@
                == group_error(platform),
        },
{
    let process_group_id = match summary_process_group_id(platform, record.process_group_id) {
        Ok(group) => group,
        Err(error) => return Err(error),
    };
    Ok(
        ManagedRunSummary {
            run_id: record.id.clone(),
            profile_id: record.profile_snapshot.id.clone(),
            profile_updated_at: record.profile_snapshot.updated_at.clone(),
            state: record.state,
            process_instance_key: copy_key(&record.process_instance_key),
            process_group_id,
            started_at: record.started_at.clone(),
            updated_at: record.updated_at.clone(),
            ended_at: copy_optional(&record.ended_at),
        },
    )
}

/// Whether the summary that a stop operation carries shows the stored run.
pub fn stop_summary_matches_record(
    summary: &ManagedRunSummary,
    record: &ManagedRunRecord,
) -> (matches: bool)
    ensures
        matches == shows(
            *summary,
            *record,
            record.profile_snapshot.id@,
            record.state,
            record.updated_at@,
            optional_text(record.ended_at),
        ),
{
    same_text(summary.run_id.as_str(), record.id.as_str()) && same_text(
        summary.profile_id.as_str(),
        record.profile_snapshot.id.as_str(),
    ) && same_text(
        summary.profile_updated_at.as_str(),
        record.profile_snapshot.updated_at.as_str(),
    ) && summary.state == record.state && same_keys(
        &summary.process_instance_key,
        &record.process_instance_key,
    ) && summary.process_group_id == record.process_group_id && same_text(
        summary.started_at.as_str(),
        record.started_at.as_str(),
    ) && same_text(summary.updated_at.as_str(), record.updated_at.as_str()) && same_optional(
        &summary.ended_at,
        &record.ended_at,
    )
}

} // verus!
