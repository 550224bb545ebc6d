//! Starting a managed run: the steps of a launch in their order, what each
//! failure is recorded as, and what is done with the process then.

use vstd::prelude::*;

use crate::error::{plain_error, AppError, ErrorCode, ErrorView};
use crate::run::{
    group_error, group_is_stored, is_key, optional_key, projected_running_result, shows, Controls,
    ManagedProcess, ManagedRunRecord, ManagedRunSummary, PendingCleanup, Platform,
    ProcessInstanceKey, RunControl, RunState,
};
use crate::text::{decimal, decimal_text, same_text};

verus! {

/// How many run IDs are tried for one launch.
pub const RUN_ID_ALLOCATION_ATTEMPTS: usize = 4;

/// The part of a launch that failed, as it is stored.
#[derive(Clone, Copy, Debug, PartialEq, Eq, Structural)]
pub enum LaunchFailureStage {
    CredentialResolution,
    ExecutableResolution,
    LogPreparation,
    JobCreation,
    JobConfiguration,
    ProcessCreation,
    JobAssignment,
    IdentityRead,
    IdentityPersistence,
    ProcessResume,
    RunningPersistence,
    Cleanup,
}

/// The steps of a launch, in their order.
#[derive(Clone, Copy, Debug, PartialEq, Eq, Structural)]
pub enum LaunchStep {
    Preview,
    WorkingDirectory,
    MergeEnvironment,
    ResolveCredentials,
    RedactionRules,
    TextPipelines,
    OpenCollector,
    StdoutPipe,
    StderrPipe,
    PrepareProcess,
    ControlGroup,
    BindIdentity,
    CheckResult,
    TerminalOutput,
    StartCapture,
    Resume,
    MarkRunning,
}

/// The step that follows a step that was done. An interactive run has a
/// terminal in place of the two pipes.
pub open spec fn next_step(step: LaunchStep, interactive: bool) -> Option<LaunchStep> {
    match step {
        LaunchStep::Preview => Some(LaunchStep::WorkingDirectory),
        LaunchStep::WorkingDirectory => Some(LaunchStep::MergeEnvironment),
        LaunchStep::MergeEnvironment => Some(LaunchStep::ResolveCredentials),
        LaunchStep::ResolveCredentials => Some(LaunchStep::RedactionRules),
        LaunchStep::RedactionRules => Some(LaunchStep::TextPipelines),
        LaunchStep::TextPipelines => Some(LaunchStep::OpenCollector),
        LaunchStep::OpenCollector => Some(
            if interactive {
                LaunchStep::PrepareProcess
            } else {
                LaunchStep::StdoutPipe
            },
        ),
        LaunchStep::StdoutPipe => Some(LaunchStep::StderrPipe),
        LaunchStep::StderrPipe => Some(LaunchStep::PrepareProcess),
        LaunchStep::PrepareProcess => Some(LaunchStep::ControlGroup),
        LaunchStep::ControlGroup => Some(LaunchStep::BindIdentity),
        LaunchStep::BindIdentity => Some(LaunchStep::CheckResult),
        LaunchStep::CheckResult => Some(
            if interactive {
                LaunchStep::TerminalOutput
            } else {
                LaunchStep::StartCapture
            },
        ),
        LaunchStep::TerminalOutput => Some(LaunchStep::StartCapture),
        LaunchStep::StartCapture => Some(LaunchStep::Resume),
        LaunchStep::Resume => Some(LaunchStep::MarkRunning),
        LaunchStep::MarkRunning => None,
    }
}

/// What a failure of a step is recorded as. A process that could not be created
/// is recorded by the native stage instead.
pub open spec fn stage_of_step(step: LaunchStep) -> LaunchFailureStage {
    match step {
        LaunchStep::Preview => LaunchFailureStage::ExecutableResolution,
        LaunchStep::WorkingDirectory => LaunchFailureStage::ProcessCreation,
        LaunchStep::MergeEnvironment => LaunchFailureStage::CredentialResolution,
        LaunchStep::ResolveCredentials => LaunchFailureStage::CredentialResolution,
        LaunchStep::RedactionRules => LaunchFailureStage::LogPreparation,
        LaunchStep::TextPipelines => LaunchFailureStage::LogPreparation,
        LaunchStep::OpenCollector => LaunchFailureStage::LogPreparation,
        LaunchStep::StdoutPipe => LaunchFailureStage::LogPreparation,
        LaunchStep::StderrPipe => LaunchFailureStage::LogPreparation,
        LaunchStep::PrepareProcess => LaunchFailureStage::ExecutableResolution,
        LaunchStep::ControlGroup => LaunchFailureStage::IdentityRead,
        LaunchStep::BindIdentity => LaunchFailureStage::IdentityPersistence,
        LaunchStep::CheckResult => LaunchFailureStage::RunningPersistence,
        LaunchStep::TerminalOutput => LaunchFailureStage::LogPreparation,
        LaunchStep::StartCapture => LaunchFailureStage::LogPreparation,
        LaunchStep::Resume => LaunchFailureStage::ProcessResume,
        LaunchStep::MarkRunning => LaunchFailureStage::RunningPersistence,
    }
}

/// Whether the failure of a step leaves a suspended process behind that has to
/// be ended.
pub open spec fn holds_suspended(step: LaunchStep) -> bool {
    step == LaunchStep::ControlGroup || step == LaunchStep::BindIdentity || step
        == LaunchStep::CheckResult || step == LaunchStep::TerminalOutput || step
        == LaunchStep::StartCapture
}

/// A failure that the operating system reported while a process was made.
#[derive(Debug)]
pub struct NativeFailure {
    pub public_error: AppError,
    pub cleanup_pending: bool,
    pub pending: PendingCleanup,
}

/// The name of the native call that failed.
pub open spec fn native_stage_name(details: Map<Seq<char>, Seq<char>>) -> Option<Seq<char>> {
    if details.dom().contains("stage"@) {
        Some(details["stage"@])
    } else if details.dom().contains("cleanupStage"@) {
        Some(details["cleanupStage"@])
    } else {
        None
    }
}

/// Whether none of a job's executables was there: the next candidate can be
/// tried.
pub open spec fn candidate_was_not_found(failure: NativeFailure) -> bool {
    let details = failure.public_error@.details;
    &&& !failure.cleanup_pending
    &&& failure.public_error@.code == ErrorCode::NotFound
    &&& details.dom().contains("stage"@)
    &&& details["stage"@] == "OpenRequestedExecutable"@ || details["stage"@] == "CreateProcessW"@
        || details["stage"@] == "posix_spawn"@
}

pub fn executable_candidate_was_not_found(failure: &NativeFailure) -> (not_found: bool)
    ensures
        not_found == candidate_was_not_found(*failure),
{
    if failure.cleanup_pending || failure.public_error.code != ErrorCode::NotFound {
        return false;
    }
    match failure.public_error.details.get("stage") {
        Some(stage) => same_text(stage, "OpenRequestedExecutable") || same_text(
            stage,
            "CreateProcessW",
        ) || same_text(stage, "posix_spawn"),
        None => false,
    }
}

/// Native calls that look the executable up.
pub open spec fn looks_up_executable(name: Seq<char>) -> bool {
    name == "OpenRequestedExecutable"@ || name == "GetRequestedExecutableFileId"@
}

/// Native calls that prepare the standard streams of a process.
pub open spec fn prepares_streams(name: Seq<char>) -> bool {
    ||| name == "OpenStandardInputNull"@
    ||| name == "DuplicateStandardInput"@
    ||| name == "DuplicateStandardOutput"@
    ||| name == "DuplicateStandardError"@
    ||| name == "InitializeProcThreadAttributeList(size)"@
    ||| name == "InitializeProcThreadAttributeList"@
    ||| name == "UpdateProcThreadAttribute(handleList)"@
    ||| name == "CreatePseudoConsoleInputPipe"@
    ||| name == "CreatePseudoConsoleOutputPipe"@
    ||| name == "CreatePseudoConsole"@
    ||| name == "UpdateProcThreadAttribute(pseudoConsole)"@
    ||| name == "fcntl(F_DUPFD_CLOEXEC, stdout)"@
    ||| name == "fcntl(F_DUPFD_CLOEXEC, stderr)"@
    ||| name == "openpty"@
    ||| name == "fcntl(F_DUPFD_CLOEXEC, pty-master)"@
    ||| name == "fcntl(F_DUPFD_CLOEXEC, pty-slave)"@
    ||| name == "fcntl(F_DUPFD_CLOEXEC, pty-output)"@
    ||| name == "posix_spawn_file_actions_adddup2(stdout)"@
    ||| name == "posix_spawn_file_actions_addclose(stdout-source)"@
    ||| name == "posix_spawn_file_actions_adddup2(stderr)"@
    ||| name == "posix_spawn_file_actions_addclose(stderr-source)"@
    ||| name == "posix_spawn_file_actions_adddup2(pty-stdin)"@
    ||| name == "posix_spawn_file_actions_adddup2(pty-stdout)"@
    ||| name == "posix_spawn_file_actions_adddup2(pty-stderr)"@
    ||| name == "posix_spawn_file_actions_addclose(pty-slave)"@
}

/// Native calls that create a process.
pub open spec fn creates_process(name: Seq<char>) -> bool {
    ||| name == "CreateProcessW"@
    ||| name == "posix_spawn"@
    ||| name == "ValidateLaunchRequest"@
    ||| name == "posix_spawnattr_init"@
    ||| name == "posix_spawnattr_setpgroup"@
    ||| name == "sigemptyset(mask)"@
    ||| name == "posix_spawnattr_setsigmask"@
    ||| name == "sigemptyset(defaults)"@
    ||| name == "sigaddset(defaults)"@
    ||| name == "posix_spawnattr_setsigdefault"@
    ||| name == "posix_spawnattr_setflags"@
    ||| name == "posix_spawn_file_actions_init"@
    ||| name == "posix_spawn_file_actions_addchdir_np"@
    ||| name == "posix_spawn_file_actions_addopen(stdin)"@
    ||| name == "posix_spawn_file_actions_addopen(stdout)"@
    ||| name == "posix_spawn_file_actions_addopen(stderr)"@
}

/// Native calls that end a process.
pub open spec fn ends_process(name: Seq<char>) -> bool {
    ||| name == "TerminateJobObject"@
    ||| name == "TerminateProcess"@
    ||| name == "WaitForSingleObject"@
    ||| name == "kill(SIGKILL)"@
    ||| name == "killpg(SIGKILL)"@
    ||| name == "killpg(0)"@
    ||| name == "waitpid"@
}

/// What a failed native call is recorded as; a call that is not known is taken
/// for one that reads the identity of the process.
pub open spec fn stage_of_native(name: Option<Seq<char>>) -> LaunchFailureStage {
    match name {
        None => LaunchFailureStage::IdentityRead,
        Some(name) => if name == "CreateJobObjectW"@ {
            LaunchFailureStage::JobCreation
        } else if name == "SetInformationJobObject"@ {
            LaunchFailureStage::JobConfiguration
        } else if looks_up_executable(name) {
            LaunchFailureStage::ExecutableResolution
        } else if prepares_streams(name) {
            LaunchFailureStage::LogPreparation
        } else if creates_process(name) {
            LaunchFailureStage::ProcessCreation
        } else if name == "AssignProcessToJobObject"@ {
            LaunchFailureStage::JobAssignment
        } else if name == "ResumeThread"@ || name == "SIGCONT"@ {
            LaunchFailureStage::ProcessResume
        } else if ends_process(name) {
            LaunchFailureStage::Cleanup
        } else {
            LaunchFailureStage::IdentityRead
        },
    }
}

fn is_stream_call(name: &str) -> (found: bool)
    ensures
        found == prepares_streams(name@),
{
    same_text(name, "OpenStandardInputNull") || same_text(name, "DuplicateStandardInput")
        || same_text(name, "DuplicateStandardOutput") || same_text(name, "DuplicateStandardError")
        || same_text(name, "InitializeProcThreadAttributeList(size)") || same_text(
        name,
        "InitializeProcThreadAttributeList",
    ) || same_text(name, "UpdateProcThreadAttribute(handleList)") || same_text(
        name,
        "CreatePseudoConsoleInputPipe",
    ) || same_text(name, "CreatePseudoConsoleOutputPipe") || same_text(name, "CreatePseudoConsole")
        || same_text(name, "UpdateProcThreadAttribute(pseudoConsole)") || same_text(
        name,
        "fcntl(F_DUPFD_CLOEXEC, stdout)",
    ) || same_text(name, "fcntl(F_DUPFD_CLOEXEC, stderr)") || same_text(name, "openpty")
        || same_text(name, "fcntl(F_DUPFD_CLOEXEC, pty-master)") || same_text(
        name,
        "fcntl(F_DUPFD_CLOEXEC, pty-slave)",
    ) || same_text(name, "fcntl(F_DUPFD_CLOEXEC, pty-output)") || same_text(
        name,
        "posix_spawn_file_actions_adddup2(stdout)",
    ) || same_text(name, "posix_spawn_file_actions_addclose(stdout-source)") || same_text(
        name,
        "posix_spawn_file_actions_adddup2(stderr)",
    ) || same_text(name, "posix_spawn_file_actions_addclose(stderr-source)") || same_text(
        name,
        "posix_spawn_file_actions_adddup2(pty-stdin)",
    ) || same_text(name, "posix_spawn_file_actions_adddup2(pty-stdout)") || same_text(
        name,
        "posix_spawn_file_actions_adddup2(pty-stderr)",
    ) || same_text(name, "posix_spawn_file_actions_addclose(pty-slave)")
}

fn is_creation_call(name: &str) -> (found: bool)
    ensures
        found == creates_process(name@),
{
    same_text(name, "CreateProcessW") || same_text(name, "posix_spawn") || same_text(
        name,
        "ValidateLaunchRequest",
    ) || same_text(name, "posix_spawnattr_init") || same_text(name, "posix_spawnattr_setpgroup")
        || same_text(name, "sigemptyset(mask)") || same_text(name, "posix_spawnattr_setsigmask")
        || same_text(name, "sigemptyset(defaults)") || same_text(name, "sigaddset(defaults)")
        || same_text(name, "posix_spawnattr_setsigdefault") || same_text(
        name,
        "posix_spawnattr_setflags",
    ) || same_text(name, "posix_spawn_file_actions_init") || same_text(
        name,
        "posix_spawn_file_actions_addchdir_np",
    ) || same_text(name, "posix_spawn_file_actions_addopen(stdin)") || same_text(
        name,
        "posix_spawn_file_actions_addopen(stdout)",
    ) || same_text(name, "posix_spawn_file_actions_addopen(stderr)")
}

fn is_ending_call(name: &str) -> (found: bool)
    ensures
        found == ends_process(name@),
{
    same_text(name, "TerminateJobObject") || same_text(name, "TerminateProcess") || same_text(
        name,
        "WaitForSingleObject",
    ) || same_text(name, "kill(SIGKILL)") || same_text(name, "killpg(SIGKILL)") || same_text(
        name,
        "killpg(0)",
    ) || same_text(name, "waitpid")
}

pub fn native_failure_stage(error: &AppError) -> (stage: LaunchFailureStage)
    ensures
        stage == stage_of_native(native_stage_name(error@.details)),
{
    let name = match error.details.get("stage") {
        Some(name) => name,
        None => match error.details.get("cleanupStage") {
            Some(name) => name,
            None => return LaunchFailureStage::IdentityRead,
        },
    };
    if same_text(name, "CreateJobObjectW") {
        LaunchFailureStage::JobCreation
    } else if same_text(name, "SetInformationJobObject") {
        LaunchFailureStage::JobConfiguration
    } else if same_text(name, "OpenRequestedExecutable") || same_text(
        name,
        "GetRequestedExecutableFileId",
    ) {
        LaunchFailureStage::ExecutableResolution
    } else if is_stream_call(name) {
        LaunchFailureStage::LogPreparation
    } else if is_creation_call(name) {
        LaunchFailureStage::ProcessCreation
    } else if same_text(name, "AssignProcessToJobObject") {
        LaunchFailureStage::JobAssignment
    } else if same_text(name, "ResumeThread") || same_text(name, "SIGCONT") {
        LaunchFailureStage::ProcessResume
    } else if is_ending_call(name) {
        LaunchFailureStage::Cleanup
    } else {
        LaunchFailureStage::IdentityRead
    }
}

/// Why the executable of a profile is not known before the launch.
#[derive(Clone, Copy, Debug, PartialEq, Eq, Structural)]
pub enum UnknownReason {
    PathCredentialReference,
    PathExtensionCredentialReference,
    Other,
}

/// What is known of the executable of a profile.
#[derive(Debug)]
pub enum ExecutableResolution {
    Unknown { reason: UnknownReason, candidates: Vec<String> },
    NotSupported,
    NotFound,
}

/// How a profile is run: by itself or by a shell.
#[derive(Debug)]
pub enum Invocation {
    Direct { argv: Vec<String> },
    Shell { argv: Vec<String> },
}

/// What would be run for a profile.
#[derive(Debug)]
pub struct ExecutionPreview {
    pub platform: Platform,
    pub invocation: Invocation,
    pub executable_resolution: ExecutableResolution,
}

impl Invocation {
    pub open spec fn arguments(self) -> Vec<String> {
        match self {
            Invocation::Direct { argv } => argv,
            Invocation::Shell { argv } => argv,
        }
    }
}

/// The refusal of a preview, where it cannot be launched.
pub open spec fn plan_refusal(platform: Platform, preview: ExecutionPreview) -> Option<ErrorView> {
    if preview.platform != platform {
        Some(
            plain_error(
                ErrorCode::NotSupported,
                "execution preview is not supported by this managed launcher"@,
            ),
        )
    } else {
        match preview.executable_resolution {
            ExecutableResolution::Unknown { reason, candidates } => if reason
                != UnknownReason::Other {
                Some(
                    plain_error(
                        ErrorCode::NotSupported,
                        "credential-backed executable search paths require an explicit executable"@,
                    ),
                )
            } else if candidates@.len() > 0 {
                None
            } else {
                Some(
                    plain_error(
                        ErrorCode::NotFound,
                        "managed run executable could not be resolved"@,
                    ),
                )
            },
            ExecutableResolution::NotSupported => Some(
                plain_error(
                    ErrorCode::NotSupported,
                    "managed run executable is not supported on this platform"@,
                ),
            ),
            ExecutableResolution::NotFound => Some(
                plain_error(
                    ErrorCode::NotFound,
                    "managed run executable could not be resolved"@,
                ),
            ),
        }
    }
}

/// The arguments and the executables to try for a preview.
pub fn platform_launch_plan(platform: Platform, preview: ExecutionPreview) -> (result: Result<
    (Vec<String>, Vec<String>),
    AppError,
>)
    ensures
        match result {
            Ok((argv, candidates)) => {
                &&& plan_refusal(platform, preview) is None
                &&& argv == preview.invocation.arguments()
                &&& candidates == preview.executable_resolution->candidates
                &&& candidates@.len() > 0
            },
            Err(error) => plan_refusal(platform, preview) == Some(error@),
        },
{
    if preview.platform != platform {
        return Err(
            AppError::new(
                ErrorCode::NotSupported,
                "execution preview is not supported by this managed launcher",
            ),
        );
    }
    let argv = match preview.invocation {
        Invocation::Direct { argv } => argv,
        Invocation::Shell { argv } => argv,
    };
    match preview.executable_resolution {
        ExecutableResolution::Unknown { reason, candidates } => {
            if reason != UnknownReason::Other {
                return Err(
                    AppError::new(
                        ErrorCode::NotSupported,
                        "credential-backed executable search paths require an explicit executable",
                    ),
                );
            }
            if candidates.len() > 0 {
                Ok((argv, candidates))
            } else {
                Err(
                    AppError::new(
                        ErrorCode::NotFound,
                        "managed run executable could not be resolved",
                    ),
                )
            }
        },
        ExecutableResolution::NotSupported => Err(
            AppError::new(
                ErrorCode::NotSupported,
                "managed run executable is not supported on this platform",
            ),
        ),
        ExecutableResolution::NotFound => Err(
            AppError::new(ErrorCode::NotFound, "managed run executable could not be resolved"),
        ),
    }
}

/// What a look at the working directory of a profile found.
#[derive(Clone, Copy, Debug, PartialEq, Eq, Structural)]
pub enum DirectoryProbe {
    Directory,
    OtherFile,
    Missing,
    Denied,
    Unreadable,
}

/// The refusal of a working directory.
pub open spec fn directory_error(code: ErrorCode, reason: Seq<char>) -> ErrorView {
    plain_error(code, "managed run working directory is unavailable"@).with(
        "field"@,
        "workingDirectory"@,
    ).with("reason"@, reason)
}

/// What a look at the working directory means for a launch.
pub open spec fn directory_refusal(probe: DirectoryProbe) -> Option<ErrorView> {
    match probe {
        DirectoryProbe::Directory => None,
        DirectoryProbe::OtherFile => Some(
            directory_error(ErrorCode::InvalidArgument, "must identify a directory"@),
        ),
        DirectoryProbe::Missing => Some(directory_error(ErrorCode::NotFound, "does not exist"@)),
        DirectoryProbe::Denied => Some(
            directory_error(ErrorCode::AccessDenied, "is not accessible"@),
        ),
        DirectoryProbe::Unreadable => Some(
            directory_error(ErrorCode::PlatformError, "could not be inspected"@),
        ),
    }
}

fn invalid_working_directory(code: ErrorCode, reason: &str) -> (error: AppError)
    ensures
        error@ == directory_error(code, reason@),
{
    AppError::new(code, "managed run working directory is unavailable").with_detail(
        "field",
        "workingDirectory",
    ).with_detail("reason", reason)
}

pub fn validate_working_directory(probe: DirectoryProbe) -> (result: Result<(), AppError>)
    ensures
        match result {
            Ok(_) => directory_refusal(probe) is None,
            Err(error) => directory_refusal(probe) == Some(error@),
        },
{
    match probe {
        DirectoryProbe::Directory => Ok(()),
        DirectoryProbe::OtherFile => Err(
            invalid_working_directory(ErrorCode::InvalidArgument, "must identify a directory"),
        ),
        DirectoryProbe::Missing => Err(
            invalid_working_directory(ErrorCode::NotFound, "does not exist"),
        ),
        DirectoryProbe::Denied => Err(
            invalid_working_directory(ErrorCode::AccessDenied, "is not accessible"),
        ),
        DirectoryProbe::Unreadable => Err(
            invalid_working_directory(ErrorCode::PlatformError, "could not be inspected"),
        ),
    }
}

/// What may be said of a credential that could not be read: the kind of the
/// failure, and nothing of what the store said.
pub open spec fn redacted(source: ErrorView) -> ErrorView {
    ErrorView {
        retryable: source.retryable,
        ..plain_error(source.code, "managed run credentials could not be resolved"@)
    }
}

pub fn redact_credential_error(source: AppError) -> (error: AppError)
    ensures
        error@ == redacted(source@),
{
    let mut error = AppError::new(source.code, "managed run credentials could not be resolved");
    error.retryable = source.retryable;
    error
}

/// The refusal of a launch whose profile has changed since it was shown.
pub open spec fn revision_conflict(
    profile_id: Seq<char>,
    expected: Seq<char>,
    actual: Seq<char>,
) -> ErrorView {
    plain_error(
        ErrorCode::Conflict,
        "launch profile changed before the managed run started"@,
    ).with("profileId"@, profile_id).with("expectedUpdatedAt"@, expected).with(
        "actualUpdatedAt"@,
        actual,
    )
}

/// A launch goes by the profile as it was shown, or not at all.
pub fn require_profile_revision(
    profile_id: &str,
    expected_updated_at: &str,
    actual_updated_at: &str,
) -> (result: Result<(), AppError>)
    ensures
        match result {
            Ok(_) => expected_updated_at@ == actual_updated_at@,
            Err(error) => expected_updated_at@ != actual_updated_at@ && error@
                == revision_conflict(profile_id@, expected_updated_at@, actual_updated_at@),
        },
{
    if same_text(expected_updated_at, actual_updated_at) {
        return Ok(());
    }
    Err(
        AppError::new(
            ErrorCode::Conflict,
            "launch profile changed before the managed run started",
        ).with_detail("profileId", profile_id).with_detail(
            "expectedUpdatedAt",
            expected_updated_at,
        ).with_detail("actualUpdatedAt", actual_updated_at),
    )
}

/// The refusal of a launch for another platform.
pub open spec fn platform_refusal() -> ErrorView {
    plain_error(
        ErrorCode::NotSupported,
        "managed run context is not available for this platform"@,
    )
}

/// Whether a run may be started here: on its own platform.
pub fn require_launch_platform(platform: Platform, context: Platform) -> (result: Result<
    (),
    AppError,
>)
    ensures
        match result {
            Ok(_) => context == platform,
            Err(error) => context != platform && error@ == platform_refusal(),
        },
{
    if context != platform {
        return Err(
            AppError::new(
                ErrorCode::NotSupported,
                "managed run context is not available for this platform",
            ),
        );
    }
    Ok(())
}

/// Whether a run may be started now: while fewer runs than the logs have room for
/// are held.
pub fn admit_launch(held_runs: usize, maximum_runs: usize) -> (result: Result<(), AppError>)
    ensures
        match result {
            Ok(_) => held_runs < maximum_runs,
            Err(error) => held_runs >= maximum_runs && error@ == active_capacity_error(
                maximum_runs as nat,
            ),
        },
{
    if held_runs >= maximum_runs {
        return Err(managed_log_active_capacity_error(maximum_runs));
    }
    Ok(())
}

/// The refusal of a launch for which the logs have no room.
pub open spec fn active_capacity_error(maximum_runs: nat) -> ErrorView {
    plain_error(
        ErrorCode::Conflict,
        "managed log active-run capacity is exhausted"@,
    ).retry().with("maximumActiveRuns"@, decimal_text(maximum_runs))
}

pub fn managed_log_active_capacity_error(maximum_runs: usize) -> (error: AppError)
    ensures
        error@ == active_capacity_error(maximum_runs as nat),
{
    AppError::new(
        ErrorCode::Conflict,
        "managed log active-run capacity is exhausted",
    ).as_retryable().with_detail("maximumActiveRuns", decimal(maximum_runs as u64).as_str())
}

/// Whether the store refused a run because its ID is taken.
pub open spec fn collides(error: ErrorView, run_id: Seq<char>) -> bool {
    error.code == ErrorCode::Conflict && error.details.dom().contains("runId"@)
        && error.details["runId"@] == run_id
}

pub fn run_id_collision(error: &AppError, run_id: &str) -> (collision: bool)
    ensures
        collision == collides(error@, run_id@),
{
    if error.code != ErrorCode::Conflict {
        return false;
    }
    match error.details.get("runId") {
        Some(stored) => same_text(stored, run_id),
        None => false,
    }
}

/// What to do after a run ID was tried.
#[derive(Debug)]
pub enum IntentStep {
    /// The run is stored and held as an intent.
    Created,
    /// Try another ID.
    Retry,
    Fail(AppError),
}

/// What the answer of the store to a new run leads to, and what is then held.
pub open spec fn intent_stored(
    before: Map<Seq<char>, RunControl>,
    run_id: Seq<char>,
    attempts_left: usize,
    reply: Option<Result<(), AppError>>,
    step: IntentStep,
    after: Map<Seq<char>, RunControl>,
) -> bool {
    let taken = reply is None || (reply->0 is Err && collides(reply->0->Err_0@, run_id));
    match step {
        IntentStep::Created => reply is Some && reply->0 is Ok && after == before.insert(
            run_id,
            RunControl::StartingIntent,
        ),
        IntentStep::Retry => taken && attempts_left > 0 && after == before,
        IntentStep::Fail(error) => {
            &&& after == before
            &&& if taken {
                attempts_left == 0 && error@ == plain_error(
                    ErrorCode::Internal,
                    "failed to allocate a unique managed run ID"@,
                )
            } else {
                reply->0 is Err && error == reply->0->Err_0
            }
        },
    }
}

/// What the answer of the store to a new run means. An ID that is held already
/// was not asked for, and only a taken ID is worth another try.
pub fn create_starting_intent(
    controls: &mut Controls,
    run_id: &str,
    attempts_left: usize,
    reply: Option<Result<(), AppError>>,
) -> (step: IntentStep)
    requires
        old(controls).wf(),
        reply is None <==> old(controls)@.dom().contains(run_id@),
    ensures
        final(controls).wf(),
        intent_stored(
            old(controls)@,
            run_id@,
            attempts_left,
            reply,
            step,
            final(controls)@,
        ),
{
    match reply {
        Some(Ok(_)) => {
            controls.insert(run_id, RunControl::StartingIntent);
            return IntentStep::Created;
        },
        Some(Err(error)) => {
            if !run_id_collision(&error, run_id) {
                return IntentStep::Fail(error);
            }
        },
        None => {},
    }
    if attempts_left > 0 {
        IntentStep::Retry
    } else {
        IntentStep::Fail(
            AppError::new(ErrorCode::Internal, "failed to allocate a unique managed run ID"),
        )
    }
}

/// A launch on its way.
#[derive(Debug)]
pub struct Launch {
    pub run_id: String,
    pub interactive: bool,
    pub step: LaunchStep,
    pub argv: Vec<String>,
    pub candidates: Vec<String>,
    pub next_candidate: usize,
    pub process: Option<ManagedProcess>,
    pub result: Option<ManagedRunSummary>,
}

impl Launch {
    /// What a launch and what is held of its run know of each other at a step.
    pub open spec fn wf(self, controls: Map<Seq<char>, RunControl>) -> bool {
        &&& controls.dom().contains(self.run_id@)
        &&& self.process is Some <==> (self.step == LaunchStep::ControlGroup || self.step
            == LaunchStep::TerminalOutput || self.step == LaunchStep::StartCapture || self.step
            == LaunchStep::Resume)
        &&& self.result is Some <==> (self.step == LaunchStep::CheckResult || self.step
            == LaunchStep::TerminalOutput || self.step
            == LaunchStep::StartCapture || self.step == LaunchStep::Resume || self.step
            == LaunchStep::MarkRunning)
        &&& self.step == LaunchStep::PrepareProcess ==> self.next_candidate
            < self.candidates@.len()
        &&& self.step_is_before_process() ==> self.next_candidate == 0 && (self.step
            != LaunchStep::Preview ==> self.candidates@.len() > 0)
        &&& match self.step {
            LaunchStep::BindIdentity | LaunchStep::CheckResult => controls[self.run_id@] is Suspended,
            LaunchStep::MarkRunning => controls[self.run_id@] is RunningUncommitted,
            _ => controls[self.run_id@] is StartingIntent,
        }
    }

    pub open spec fn step_is_before_process(self) -> bool {
        self.step == LaunchStep::Preview || self.step == LaunchStep::WorkingDirectory || self.step
            == LaunchStep::MergeEnvironment || self.step == LaunchStep::ResolveCredentials
            || self.step == LaunchStep::RedactionRules || self.step == LaunchStep::TextPipelines
            || self.step == LaunchStep::OpenCollector || self.step == LaunchStep::StdoutPipe
            || self.step == LaunchStep::StderrPipe
    }

    /// The launch of a run whose intent is stored and held.
    pub fn begin(run_id: String, interactive: bool) -> (launch: Self)
        ensures
            launch.run_id == run_id,
            launch.interactive == interactive,
            launch.step == LaunchStep::Preview,
            forall|controls: Map<Seq<char>, RunControl>|
                controls.dom().contains(run_id@) && controls[run_id@] is StartingIntent
                    ==> #[trigger] launch.wf(controls),
    {
        Launch {
            run_id,
            interactive,
            step: LaunchStep::Preview,
            argv: Vec::new(),
            candidates: Vec::new(),
            next_candidate: 0,
            process: None,
            result: None,
        }
    }
}

/// What came of a step of a launch.
#[derive(Debug)]
pub enum LaunchEvent {
    /// The step was done.
    Done,
    /// The step failed.
    Failed(AppError),
    /// What would be run.
    Preview(ExecutionPreview),
    Directory(DirectoryProbe),
    /// A suspended process was made.
    Prepared(ManagedProcess),
    /// The operating system refused.
    Native(NativeFailure),
    /// No time could be given to the next change of the run.
    NoTimestamp(AppError),
    /// The identity is stored; the run is to be shown as changed at a time.
    Bound { record: ManagedRunRecord, running_updated_at: String },
    /// Whether the process handed its terminal over.
    Output(bool),
    /// The log is captured; the number is that of its reader.
    Captured(u64),
    /// Storing the run as running failed; this is what the store shows.
    Unconfirmed { error: AppError, shown: Option<(RunState, Option<ProcessInstanceKey>)> },
}

/// The events that a step can bring.
pub open spec fn event_fits(step: LaunchStep, event: LaunchEvent) -> bool {
    match step {
        LaunchStep::Preview => event is Preview || event is Failed,
        LaunchStep::WorkingDirectory => event is Directory,
        LaunchStep::PrepareProcess => event is Prepared || event is Native,
        LaunchStep::BindIdentity => event is Bound || event is Failed || event is NoTimestamp,
        LaunchStep::TerminalOutput => event is Output,
        LaunchStep::StartCapture => event is Captured || event is Failed,
        LaunchStep::Resume => event is Done || event is Native,
        LaunchStep::MarkRunning => event is Done || event is Unconfirmed,
        _ => event is Done || event is Failed,
    }
}

/// What a failed launch leaves behind that has to be ended first.
#[derive(Debug)]
pub enum Leftover {
    Nothing,
    /// What the operating system left of its own failure.
    Native(NativeFailure),
    Suspended(ManagedProcess),
    Running(ManagedProcess),
}

/// The failure of a launch. An error of its own goes before what ending the
/// process may report.
#[derive(Debug)]
pub struct LaunchFailure {
    pub stage: LaunchFailureStage,
    pub error: Option<AppError>,
    pub leftover: Leftover,
}

/// What follows an event of a launch.
#[derive(Debug)]
pub enum LaunchAction {
    /// Do the step that the launch is at.
    Perform(Launch),
    Fail(LaunchFailure),
    /// Answer with an error, and leave what is held of the run as it is.
    Abandon(AppError),
    Started(ManagedRunSummary),
}

/// The launch goes on at a step, with nothing else changed.
pub open spec fn goes_on(action: LaunchAction, launch: Launch, step: LaunchStep) -> bool {
    action == LaunchAction::Perform((Launch { step, ..launch }))
}

/// The launch fails with an error of its own.
pub open spec fn fails(
    action: LaunchAction,
    stage: LaunchFailureStage,
    error: ErrorView,
    leftover: Leftover,
) -> bool {
    match action {
        LaunchAction::Fail(failure) => failure.stage == stage && failure.error is Some
            && failure.error->0@ == error && failure.leftover == leftover,
        _ => false,
    }
}

/// Whether the store shows the run as running with the process of the launch.
pub open spec fn shown_as_running(
    shown: Option<(RunState, Option<ProcessInstanceKey>)>,
    process: ManagedProcess,
) -> bool {
    match shown {
        Some((state, key)) => state == RunState::Running && optional_key(key) == Some(
            process.instance_key@,
        ),
        None => false,
    }
}

/// What follows an event of a launch, and what is then held of the run.
pub open spec fn launch_after(
    controls: Map<Seq<char>, RunControl>,
    platform: Platform,
    launch: Launch,
    event: LaunchEvent,
    action: LaunchAction,
    after: Map<Seq<char>, RunControl>,
) -> bool {
    let run_id = launch.run_id@;
    let intent = controls.insert(run_id, RunControl::StartingIntent);
    let stage = stage_of_step(launch.step);
    match launch.step {
        LaunchStep::Preview => after == controls && match event {
            LaunchEvent::Preview(preview) => match plan_refusal(platform, preview) {
                Some(error) => fails(action, stage, error, Leftover::Nothing),
                None => action == LaunchAction::Perform(
                    (Launch {
                        step: LaunchStep::WorkingDirectory,
                        argv: preview.invocation.arguments(),
                        candidates: preview.executable_resolution->candidates,
                        ..launch
                    }),
                ),
            },
            LaunchEvent::Failed(error) => fails(action, stage, error@, Leftover::Nothing),
            _ => false,
        },
        LaunchStep::WorkingDirectory => after == controls && match event {
            LaunchEvent::Directory(probe) => match directory_refusal(probe) {
                Some(error) => fails(action, stage, error, Leftover::Nothing),
                None => goes_on(action, launch, next_step(launch.step, launch.interactive)->0),
            },
            _ => false,
        },
        LaunchStep::PrepareProcess => after == controls && match event {
            LaunchEvent::Prepared(process) => action == LaunchAction::Perform(
                (Launch { step: LaunchStep::ControlGroup, process: Some(process), ..launch }),
            ),
            LaunchEvent::Native(failure) => if candidate_was_not_found(failure) {
                if launch.next_candidate + 1 < launch.candidates@.len() {
                    action == LaunchAction::Perform(
                        (Launch { next_candidate: (launch.next_candidate + 1) as usize, ..launch }),
                    )
                } else {
                    fails(
                        action,
                        stage,
                        plain_error(ErrorCode::NotFound, "managed run executable was not found"@),
                        Leftover::Nothing,
                    )
                }
            } else {
                action == LaunchAction::Fail(
                    (LaunchFailure {
                        stage: stage_of_native(
                            native_stage_name(failure.public_error@.details),
                        ),
                        error: None,
                        leftover: Leftover::Native(failure),
                    }),
                )
            },
            _ => false,
        },
        LaunchStep::ControlGroup => match event {
            LaunchEvent::Done => after == controls.insert(
                run_id,
                RunControl::Suspended(launch.process->0),
            ) && action == LaunchAction::Perform(
                (Launch { step: LaunchStep::BindIdentity, process: None, ..launch }),
            ),
            LaunchEvent::Failed(error) => after == controls && fails(
                action,
                stage,
                error@,
                Leftover::Suspended(launch.process->0),
            ),
            _ => false,
        },
        LaunchStep::BindIdentity => {
            let process = controls[run_id]->Suspended_0;
            match event {
                LaunchEvent::NoTimestamp(error) => after == controls && action
                    == LaunchAction::Abandon(error),
                LaunchEvent::Failed(error) => after == intent && fails(
                    action,
                    stage,
                    error@,
                    Leftover::Suspended(process),
                ),
                LaunchEvent::Bound { record, running_updated_at } => if record.profile_id is None {
                    after == intent && fails(
                        action,
                        LaunchFailureStage::RunningPersistence,
                        plain_error(
                            ErrorCode::Internal,
                            "managed run lost its launch profile identity"@,
                        ),
                        Leftover::Suspended(process),
                    )
                } else if !group_is_stored(platform, record.process_group_id) {
                    after == intent && fails(
                        action,
                        LaunchFailureStage::RunningPersistence,
                        group_error(platform),
                        Leftover::Suspended(process),
                    )
                } else {
                    after == controls && match action {
                        LaunchAction::Perform(next) => {
                            &&& next == (Launch {
                                step: LaunchStep::CheckResult,
                                result: next.result,
                                ..launch
                            })
                            &&& next.result is Some
                            &&& shows(
                                next.result->0,
                                record,
                                record.profile_id->0@,
                                RunState::Running,
                                running_updated_at@,
                                None,
                            )
                        },
                        _ => false,
                    }
                },
                _ => false,
            }
        },
        LaunchStep::CheckResult => after == intent && {
            let process = controls[run_id]->Suspended_0;
            match event {
                LaunchEvent::Done => action == LaunchAction::Perform(
                    (Launch {
                        step: next_step(launch.step, launch.interactive)->0,
                        process: Some(process),
                        ..launch
                    }),
                ),
                LaunchEvent::Failed(error) => fails(
                    action,
                    stage,
                    error@,
                    Leftover::Suspended(process),
                ),
                _ => false,
            }
        },
        LaunchStep::TerminalOutput => after == controls && match event {
            LaunchEvent::Output(taken) => if taken {
                goes_on(action, launch, LaunchStep::StartCapture)
            } else {
                fails(
                    action,
                    stage,
                    plain_error(
                        ErrorCode::Internal,
                        "interactive managed run did not return terminal output"@,
                    ),
                    Leftover::Suspended(launch.process->0),
                )
            },
            _ => false,
        },
        LaunchStep::StartCapture => after == controls && match event {
            LaunchEvent::Captured(reader) => action == LaunchAction::Perform(
                (Launch {
                    step: LaunchStep::Resume,
                    process: Some(
                        (ManagedProcess { log_reader: Some(reader), ..launch.process->0 }),
                    ),
                    ..launch
                }),
            ),
            LaunchEvent::Failed(error) => fails(
                action,
                stage,
                error@,
                Leftover::Suspended(launch.process->0),
            ),
            _ => false,
        },
        LaunchStep::Resume => match event {
            LaunchEvent::Done => after == controls.insert(
                run_id,
                RunControl::RunningUncommitted(launch.process->0),
            ) && action == LaunchAction::Perform(
                (Launch { step: LaunchStep::MarkRunning, process: None, ..launch }),
            ),
            LaunchEvent::Native(failure) => after == controls && action == LaunchAction::Fail(
                (LaunchFailure { stage, error: None, leftover: Leftover::Native(failure) }),
            ),
            _ => false,
        },
        LaunchStep::MarkRunning => {
            let process = controls[run_id]->RunningUncommitted_0;
            let running = after == controls.insert(run_id, RunControl::Running(process)) && action
                == LaunchAction::Started(launch.result->0);
            match event {
                LaunchEvent::Done => running,
                LaunchEvent::Unconfirmed { error, shown } => if shown_as_running(shown, process) {
                    running
                } else {
                    after == intent && fails(action, stage, error@, Leftover::Running(process))
                },
                _ => false,
            }
        },
        _ => after == controls && match event {
            LaunchEvent::Done => goes_on(
                action,
                launch,
                next_step(launch.step, launch.interactive)->0,
            ),
            LaunchEvent::Failed(error) => fails(
                action,
                stage,
                if launch.step == LaunchStep::ResolveCredentials {
                    redacted(error@)
                } else {
                    error@
                },
                Leftover::Nothing,
            ),
            _ => false,
        },
    }
}

fn fail(stage: LaunchFailureStage, error: AppError, leftover: Leftover) -> (action: LaunchAction)
    ensures
        fails(action, stage, error@, leftover),
{
    LaunchAction::Fail(LaunchFailure { stage, error: Some(error), leftover })
}

/// The step that follows a plain step, and what its failure is recorded as.
fn plain_step(step: LaunchStep, interactive: bool) -> (row: (LaunchStep, LaunchFailureStage))
    requires
        next_step(step, interactive) is Some,
    ensures
        row.0 == next_step(step, interactive)->0,
        row.1 == stage_of_step(step),
{
    match step {
        LaunchStep::Preview => (
            LaunchStep::WorkingDirectory,
            LaunchFailureStage::ExecutableResolution,
        ),
        LaunchStep::WorkingDirectory => (
            LaunchStep::MergeEnvironment,
            LaunchFailureStage::ProcessCreation,
        ),
        LaunchStep::MergeEnvironment => (
            LaunchStep::ResolveCredentials,
            LaunchFailureStage::CredentialResolution,
        ),
        LaunchStep::ResolveCredentials => (
            LaunchStep::RedactionRules,
            LaunchFailureStage::CredentialResolution,
        ),
        LaunchStep::RedactionRules => (
            LaunchStep::TextPipelines,
            LaunchFailureStage::LogPreparation,
        ),
        LaunchStep::TextPipelines => (
            LaunchStep::OpenCollector,
            LaunchFailureStage::LogPreparation,
        ),
        LaunchStep::OpenCollector => (
            if interactive {
                LaunchStep::PrepareProcess
            } else {
                LaunchStep::StdoutPipe
            },
            LaunchFailureStage::LogPreparation,
        ),
        LaunchStep::StdoutPipe => (LaunchStep::StderrPipe, LaunchFailureStage::LogPreparation),
        LaunchStep::StderrPipe => (LaunchStep::PrepareProcess, LaunchFailureStage::LogPreparation),
        LaunchStep::PrepareProcess => (
            LaunchStep::ControlGroup,
            LaunchFailureStage::ExecutableResolution,
        ),
        LaunchStep::ControlGroup => (LaunchStep::BindIdentity, LaunchFailureStage::IdentityRead),
        LaunchStep::BindIdentity => (
            LaunchStep::CheckResult,
            LaunchFailureStage::IdentityPersistence,
        ),
        LaunchStep::CheckResult => (
            if interactive {
                LaunchStep::TerminalOutput
            } else {
                LaunchStep::StartCapture
            },
            LaunchFailureStage::RunningPersistence,
        ),
        LaunchStep::TerminalOutput => (
            LaunchStep::StartCapture,
            LaunchFailureStage::LogPreparation,
        ),
        LaunchStep::StartCapture => (LaunchStep::Resume, LaunchFailureStage::LogPreparation),
        LaunchStep::Resume | LaunchStep::MarkRunning => (
            LaunchStep::MarkRunning,
            LaunchFailureStage::ProcessResume,
        ),
    }
}

/// Takes the suspended process of a run out of what is held, and leaves the
/// intent.
fn take_suspended(controls: &mut Controls, run_id: &str) -> (process: Option<ManagedProcess>)
    requires
        old(controls).wf(),
        old(controls)@.dom().contains(run_id@),
        old(controls)@[run_id@] is Suspended,
    ensures
        final(controls).wf(),
        process == Some(old(controls)@[run_id@]->Suspended_0),
        final(controls)@ == old(controls)@.insert(run_id@, RunControl::StartingIntent),
{
    let previous = controls.remove(run_id);
    controls.insert(run_id, RunControl::StartingIntent);
    assert(controls@ =~= old(controls)@.insert(run_id@, RunControl::StartingIntent));
    match previous {
        Some(RunControl::Suspended(process)) => Some(process),
        _ => None,
    }
}

/// Takes the resumed process of a run out of what is held, and leaves the
/// intent.
fn take_running_uncommitted(controls: &mut Controls, run_id: &str) -> (process: Option<
    ManagedProcess,
>)
    requires
        old(controls).wf(),
        old(controls)@.dom().contains(run_id@),
        old(controls)@[run_id@] is RunningUncommitted,
    ensures
        final(controls).wf(),
        process == Some(old(controls)@[run_id@]->RunningUncommitted_0),
        final(controls)@ == old(controls)@.insert(run_id@, RunControl::StartingIntent),
{
    let previous = controls.remove(run_id);
    controls.insert(run_id, RunControl::StartingIntent);
    assert(controls@ =~= old(controls)@.insert(run_id@, RunControl::StartingIntent));
    match previous {
        Some(RunControl::RunningUncommitted(process)) => Some(process),
        _ => None,
    }
}

/// Takes what came of a step of a launch in.
pub fn start_platform_run(
    controls: &mut Controls,
    platform: Platform,
    launch: Launch,
    event: LaunchEvent,
) -> (action: LaunchAction)
    requires
        old(controls).wf(),
        launch.wf(old(controls)@),
        event_fits(launch.step, event),
    ensures
        final(controls).wf(),
        launch_after(old(controls)@, platform, launch, event, action, final(controls)@),
        action is Perform ==> action->Perform_0.wf(final(controls)@),
{
    let mut next = launch;
    let step = next.step;
    let (following, stage) = match step {
        LaunchStep::MarkRunning => (
            LaunchStep::MarkRunning,
            LaunchFailureStage::RunningPersistence,
        ),
        _ => plain_step(step, next.interactive),
    };
    match event {
        LaunchEvent::Preview(preview) => match platform_launch_plan(platform, preview) {
            Ok((argv, candidates)) => {
                next.argv = argv;
                next.candidates = candidates;
                next.step = following;
                LaunchAction::Perform(next)
            },
            Err(error) => fail(stage, error, Leftover::Nothing),
        },
        LaunchEvent::Directory(probe) => match validate_working_directory(probe) {
            Ok(_) => {
                next.step = following;
                LaunchAction::Perform(next)
            },
            Err(error) => fail(stage, error, Leftover::Nothing),
        },
        LaunchEvent::Prepared(process) => {
            next.process = Some(process);
            next.step = following;
            LaunchAction::Perform(next)
        },
        LaunchEvent::Native(failure) => match step {
            LaunchStep::Resume => LaunchAction::Fail(
                LaunchFailure { stage, error: None, leftover: Leftover::Native(failure) },
            ),
            _ => {
                if !executable_candidate_was_not_found(&failure) {
                    let stage = native_failure_stage(&failure.public_error);
                    return LaunchAction::Fail(
                        LaunchFailure { stage, error: None, leftover: Leftover::Native(failure) },
                    );
                }
                if next.candidates.len() - next.next_candidate > 1 {
                    next.next_candidate = next.next_candidate + 1;
                    LaunchAction::Perform(next)
                } else {
                    fail(
                        stage,
                        AppError::new(ErrorCode::NotFound, "managed run executable was not found"),
                        Leftover::Nothing,
                    )
                }
            },
        },
        LaunchEvent::NoTimestamp(error) => LaunchAction::Abandon(error),
        LaunchEvent::Bound { record, running_updated_at } => {
            let projected = projected_running_result(
                platform,
                &record,
                running_updated_at.as_str(),
            );
            match projected {
                Ok(result) => {
                    next.result = Some(result);
                    next.step = following;
                    LaunchAction::Perform(next)
                },
                Err(error) => match take_suspended(controls, next.run_id.as_str()) {
                    Some(process) => fail(
                        LaunchFailureStage::RunningPersistence,
                        error,
                        Leftover::Suspended(process),
                    ),
                    None => LaunchAction::Abandon(error),
                },
            }
        },
        LaunchEvent::Output(taken) => {
            if taken {
                next.step = following;
                return LaunchAction::Perform(next);
            }
            let error = AppError::new(
                ErrorCode::Internal,
                "interactive managed run did not return terminal output",
            );
            match next.process {
                Some(process) => fail(stage, error, Leftover::Suspended(process)),
                None => LaunchAction::Abandon(error),
            }
        },
        LaunchEvent::Captured(reader) => {
            next.process = match next.process {
                Some(process) => {
                    let mut process = process;
                    process.log_reader = Some(reader);
                    Some(process)
                },
                None => None,
            };
            next.step = following;
            LaunchAction::Perform(next)
        },
        LaunchEvent::Unconfirmed { error, shown } => {
            let process = match take_running_uncommitted(controls, next.run_id.as_str()) {
                Some(process) => process,
                None => return LaunchAction::Abandon(error),
            };
            let running = match &shown {
                Some((state, key)) => *state == RunState::Running && is_key(
                    key,
                    &process.instance_key,
                ),
                None => false,
            };
            if !running {
                return fail(stage, error, Leftover::Running(process));
            }
            controls.insert(next.run_id.as_str(), RunControl::Running(process));
            proof {
                assert(controls@ =~= old(controls)@.insert(
                    launch.run_id@,
                    RunControl::Running(process),
                ));
            }
            match next.result {
                Some(result) => LaunchAction::Started(result),
                None => LaunchAction::Abandon(error),
            }
        },
        LaunchEvent::Failed(error) => match step {
            LaunchStep::ResolveCredentials => fail(
                stage,
                redact_credential_error(error),
                Leftover::Nothing,
            ),
            LaunchStep::ControlGroup | LaunchStep::StartCapture => match next.process {
                Some(process) => fail(stage, error, Leftover::Suspended(process)),
                None => LaunchAction::Abandon(error),
            },
            LaunchStep::BindIdentity | LaunchStep::CheckResult => match take_suspended(
                controls,
                next.run_id.as_str(),
            ) {
                Some(process) => fail(stage, error, Leftover::Suspended(process)),
                None => LaunchAction::Abandon(error),
            },
            _ => fail(stage, error, Leftover::Nothing),
        },
        LaunchEvent::Done => match step {
            LaunchStep::ControlGroup => {
                if let Some(process) = next.process {
                    controls.insert(next.run_id.as_str(), RunControl::Suspended(process));
                }
                next.process = None;
                next.step = following;
                LaunchAction::Perform(next)
            },
            LaunchStep::CheckResult => {
                next.process = take_suspended(controls, next.run_id.as_str());
                next.step = following;
                LaunchAction::Perform(next)
            },
            LaunchStep::Resume => {
                if let Some(process) = next.process {
                    controls.insert(next.run_id.as_str(), RunControl::RunningUncommitted(process));
                }
                next.process = None;
                next.step = following;
                LaunchAction::Perform(next)
            },
            LaunchStep::MarkRunning => {
                if let Some(process) = take_running_uncommitted(controls, next.run_id.as_str()) {
                    controls.insert(next.run_id.as_str(), RunControl::Running(process));
                    proof {
                        assert(controls@ =~= old(controls)@.insert(
                            launch.run_id@,
                            RunControl::Running(process),
                        ));
                    }
                }
                match next.result {
                    Some(result) => LaunchAction::Started(result),
                    None => vstd::pervasive::unreached(),
                }
            },
            _ => {
                next.step = following;
                LaunchAction::Perform(next)
            },
        },
    }
}

/// A failed launch as it is to be stored.
#[derive(Debug)]
pub struct LaunchReport {
    pub stage: LaunchFailureStage,
    pub error: AppError,
    /// The run is stored as orphaned where its process could not be ended, and
    /// as failed otherwise.
    pub orphaned: bool,
}

/// What the operating system left of a failure once its process has been ended
/// as far as it could be.
pub open spec fn native_part(failure: LaunchFailure, ended: Option<NativeFailure>) -> Option<
    NativeFailure,
> {
    match failure.leftover {
        Leftover::Nothing => None,
        Leftover::Native(native) => Some(native),
        _ => ended,
    }
}

/// How the failure of a launch is told, and what is then held.
pub open spec fn failure_reported(
    before: Map<Seq<char>, RunControl>,
    run_id: Seq<char>,
    failure: LaunchFailure,
    ended: Option<NativeFailure>,
    report: LaunchReport,
    after: Map<Seq<char>, RunControl>,
) -> bool {
    let native = native_part(failure, ended);
    let public = if failure.error is Some {
        failure.error->0@
    } else {
        native->0.public_error@
    };
    let pending = native is Some && native->0.cleanup_pending;
    &&& report.orphaned == pending
    &&& pending ==> {
        &&& report.stage == LaunchFailureStage::Cleanup
        &&& report.error@ == public.with("cleanupPending"@, "true"@)
        &&& after == before.insert(run_id, RunControl::CleanupPending(native->0.pending))
    }
    &&& !pending ==> {
        &&& report.stage == failure.stage
        &&& report.error@ == public
        &&& after == before
    }
}

/// Reports a failed launch after its process has been ended as far as it could
/// be. Where that is still to be done, the run is held for it.
pub fn record_native_failure(
    controls: &mut Controls,
    run_id: &str,
    failure: LaunchFailure,
    ended: Option<NativeFailure>,
) -> (report: LaunchReport)
    requires
        old(controls).wf(),
        failure.error is Some || native_part(failure, ended) is Some,
    ensures
        final(controls).wf(),
        failure_reported(
            old(controls)@,
            run_id@,
            failure,
            ended,
            report,
            final(controls)@,
        ),
{
    let stage = failure.stage;
    let native = match failure.leftover {
        Leftover::Nothing => None,
        Leftover::Native(native) => Some(native),
        Leftover::Suspended(_) | Leftover::Running(_) => ended,
    };
    match native {
        Some(native) => {
            let public = match failure.error {
                Some(error) => error,
                None => native.public_error,
            };
            if native.cleanup_pending {
                controls.insert(run_id, RunControl::CleanupPending(native.pending));
                LaunchReport {
                    stage: LaunchFailureStage::Cleanup,
                    error: public.with_detail("cleanupPending", "true"),
                    orphaned: true,
                }
            } else {
                LaunchReport { stage, error: public, orphaned: false }
            }
        },
        None => {
            let public = match failure.error {
                Some(error) => error,
                None => vstd::pervasive::unreached(),
            };
            LaunchReport { stage, error: public, orphaned: false }
        },
    }
}

/// What the answer to a failed launch says of how it was stored.
pub open spec fn settled_error(report: LaunchReport, run_id: Seq<char>, stored: bool) -> ErrorView {
    let noted = if !stored {
        report.error@.with("runStatePersistence"@, "failed"@)
    } else if report.orphaned {
        report.error@.with("runState"@, "orphaned"@)
    } else {
        report.error@.with("runState"@, "failed"@)
    };
    noted.with("runId"@, run_id)
}

/// The answer to a failed launch, once storing it has been tried. A run whose
/// process has ended is let go.
pub fn record_failed_launch(controls: &mut Controls, run_id: &str, report: LaunchReport, stored: bool) -> (error:
    AppError)
    requires
        old(controls).wf(),
    ensures
        final(controls).wf(),
        error@ == settled_error(report, run_id@, stored),
        final(controls)@ == (if report.orphaned {
            old(controls)@
        } else {
            old(controls)@.remove(run_id@)
        }),
{
    if !report.orphaned {
        let _ = controls.remove(run_id);
    }
    let orphaned = report.orphaned;
    let noted = if !stored {
        report.error.with_detail("runStatePersistence", "failed")
    } else if orphaned {
        report.error.with_detail("runState", "orphaned")
    } else {
        report.error.with_detail("runState", "failed")
    };
    noted.with_detail("runId", run_id)
}

/// Whether ending the process of a failed launch has to be tried again.
pub fn needs_cleanup_retry(error: &AppError) -> (retry: bool)
    ensures
        retry == cleanup_is_pending(error@),
{
    match error.details.get("cleanupPending") {
        Some(value) => same_text(value, "true"),
        None => false,
    }
}

/// What goes on once a launch has been answered.
#[derive(Clone, Copy, Debug, PartialEq, Eq, Structural)]
pub struct StartFollowUp {
    /// The exit of the new run is watched: nobody waits for an interactive one.
    pub watch_exit: bool,
    /// Ending what a failed launch left is tried again.
    pub retry_cleanup: bool,
}

/// Whether an error says that ending a process has to be tried again.
pub open spec fn cleanup_is_pending(error: ErrorView) -> bool {
    error.details.dom().contains("cleanupPending"@) && error.details["cleanupPending"@] == "true"@
}

/// What goes on once a run has been answered: whether its exit is watched.
pub open spec fn follow_up_of_run(
    controls: Map<Seq<char>, RunControl>,
    run_id: Seq<char>,
) -> StartFollowUp {
    StartFollowUp {
        watch_exit: controls.dom().contains(run_id) && controls[run_id] is Running
            && controls[run_id]->Running_0.terminal,
        retry_cleanup: false,
    }
}

/// What goes on once a refusal has been answered.
pub open spec fn follow_up_of_error(error: ErrorView) -> StartFollowUp {
    StartFollowUp { watch_exit: false, retry_cleanup: cleanup_is_pending(error) }
}

/// What goes on once a launch has been answered with a run or a refusal.
pub fn follow_up_start(controls: &Controls, result: &Result<ManagedRunSummary, AppError>) -> (follow_up:
    StartFollowUp)
    requires
        controls.wf(),
    ensures
        follow_up == match result {
            Ok(run) => follow_up_of_run(controls@, run.run_id@),
            Err(error) => follow_up_of_error(error@),
        },
{
    match result {
        Ok(run) => StartFollowUp {
            watch_exit: match controls.get(run.run_id.as_str()) {
                Some(RunControl::Running(process)) => process.terminal,
                _ => false,
            },
            retry_cleanup: false,
        },
        Err(error) => StartFollowUp {
            watch_exit: false,
            retry_cleanup: needs_cleanup_retry(error),
        },
    }
}

/// Every process that a launch has made is accounted for: when the launch fails
/// or starts, the process is handed over to be ended, or it is held as running.
pub proof fn lemma_no_process_is_lost(
    controls: Map<Seq<char>, RunControl>,
    platform: Platform,
    launch: Launch,
    event: LaunchEvent,
    action: LaunchAction,
    after: Map<Seq<char>, RunControl>,
)
    requires
        launch.wf(controls),
        event_fits(launch.step, event),
        launch_after(controls, platform, launch, event, action, after),
    ensures
        action is Fail && holds_suspended(launch.step) ==> action->Fail_0.leftover
            == Leftover::Suspended(
            if launch.step == LaunchStep::BindIdentity || launch.step == LaunchStep::CheckResult {
                controls[launch.run_id@]->Suspended_0
            } else {
                launch.process->0
            },
        ),
        action is Fail && launch.step == LaunchStep::MarkRunning ==> action->Fail_0.leftover
            == Leftover::Running(controls[launch.run_id@]->RunningUncommitted_0),
        action is Started ==> launch.step == LaunchStep::MarkRunning && after[launch.run_id@]
            == RunControl::Running(controls[launch.run_id@]->RunningUncommitted_0),
        action is Fail ==> after.dom().contains(launch.run_id@)
            && after[launch.run_id@] is StartingIntent,
{
}

/// A launch touches what is held of its own run only.
pub proof fn lemma_launch_keeps_other_runs(
    controls: Map<Seq<char>, RunControl>,
    platform: Platform,
    launch: Launch,
    event: LaunchEvent,
    action: LaunchAction,
    after: Map<Seq<char>, RunControl>,
    other: Seq<char>,
)
    requires
        launch.wf(controls),
        launch_after(controls, platform, launch, event, action, after),
        other != launch.run_id@,
    ensures
        after.dom().contains(other) == controls.dom().contains(other),
        controls.dom().contains(other) ==> after[other] == controls[other],
{
}

/// What a profile would run is shown only for the platform that the supervisor
/// runs on.
pub fn require_preview_platform(context: Platform, active: Platform) -> (result: Result<
    (),
    AppError,
>)
    ensures
        match result {
            Ok(_) => context == active,
            Err(error) => context != active && error@ == plain_error(
                ErrorCode::NotSupported,
                "launch profile preview context is not available for this platform"@,
            ),
        },
{
    if context != active {
        return Err(
            AppError::new(
                ErrorCode::NotSupported,
                "launch profile preview context is not available for this platform",
            ),
        );
    }
    Ok(())
}

} // verus!
