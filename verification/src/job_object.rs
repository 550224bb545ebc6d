//! A process in a job object on Windows: it starts suspended, runs only when
//! the job holds it, and is ended where it cannot be held.

use vstd::prelude::*;

use crate::text::join;

verus! {

/// The code with which a process is ended that could not be launched.
pub const CLEANUP_EXIT_CODE: u32 = 0xFFFF_FF01;

/// What a wait gives where the process has ended.
pub const WAIT_OBJECT_0: u32 = 0;

/// What a launch is asked for. Texts are UTF-16, as the operating system takes
/// them; the command line is handed on as it is.
#[derive(Debug)]
pub struct LaunchSpec {
    pub application: Vec<u16>,
    pub command_line: Vec<u16>,
    pub current_directory: Option<Vec<u16>>,
    pub enable_ctrl_break: bool,
    pub allow_breakaway: bool,
}

/// What can go wrong with a launch.
#[derive(Debug)]
pub enum SpikeError {
    InteriorNul(String),
    CtrlBreakNotConfigured,
    Windows { stage: String, source: String, cleanup: Option<String> },
}

/// What an error says.
pub open spec fn job_message(error: SpikeError) -> Seq<char> {
    match error {
        SpikeError::InteriorNul(field) => field@ + " contains an interior NUL"@,
        SpikeError::CtrlBreakNotConfigured => {
            "the process was not created as a CTRL_BREAK process group"@
        },
        SpikeError::Windows { stage, source, cleanup } => match cleanup {
            Some(cleanup) => stage@ + " failed: "@ + source@ + "; cleanup also failed: "@
                + cleanup@,
            None => stage@ + " failed: "@ + source@,
        },
    }
}

impl SpikeError {
    pub fn message(&self) -> (message: String)
        ensures
            message@ == job_message(*self),
    {
        match self {
            SpikeError::InteriorNul(field) => join(field.as_str(), " contains an interior NUL"),
            SpikeError::CtrlBreakNotConfigured => {
                "the process was not created as a CTRL_BREAK process group".to_owned()
            },
            SpikeError::Windows { stage, source, cleanup } => {
                let text = join(join(stage.as_str(), " failed: ").as_str(), source.as_str());
                match cleanup {
                    Some(cleanup) => join(
                        join(text.as_str(), "; cleanup also failed: ").as_str(),
                        cleanup.as_str(),
                    ),
                    None => text,
                }
            },
        }
    }
}

fn contains_nul(units: &Vec<u16>) -> (found: bool)
    ensures
        found == units@.contains(0u16),
{
    let mut i: usize = 0;
    while i < units.len()
        invariant
            i <= units@.len(),
            forall|k: int| 0 <= k < i ==> #[trigger] units@[k] != 0,
        decreases units@.len() - i,
    {
        if units[i] == 0 {
            assert(units@[i as int] == 0);
            return true;
        }
        i += 1;
    }
    false
}

/// A text with a zero behind it, where it holds none.
pub fn wide_nul(units: Vec<u16>, field: &str) -> (result: Result<Vec<u16>, SpikeError>)
    ensures
        if units@.contains(0u16) {
            result is Err && result->Err_0 is InteriorNul && result->Err_0->InteriorNul_0@
                == field@
        } else {
            result is Ok && result->Ok_0@ == units@.push(0u16)
        },
{
    if contains_nul(&units) {
        return Err(SpikeError::InteriorNul(field.to_owned()));
    }
    let mut units = units;
    units.push(0);
    Ok(units)
}

/// What a launch hands to the operating system. The job always ends what it
/// holds when it is closed, and the process always starts suspended.
#[derive(Debug)]
pub struct LaunchPlan {
    pub application: Vec<u16>,
    pub command_line: Vec<u16>,
    pub current_directory: Option<Vec<u16>>,
    pub kill_on_job_close: bool,
    pub breakaway_ok: bool,
    pub create_suspended: bool,
    pub create_new_process_group: bool,
}

/// The first text of a launch that holds a zero.
pub open spec fn first_bad_text(spec: LaunchSpec) -> Option<Seq<char>> {
    if spec.application@.contains(0u16) {
        Some("application"@)
    } else if spec.command_line@.contains(0u16) {
        Some("command_line"@)
    } else if spec.current_directory is Some && spec.current_directory->0@.contains(0u16) {
        Some("current_directory"@)
    } else {
        None
    }
}

/// What a launch hands to the operating system.
pub fn launch_plan(spec: LaunchSpec) -> (result: Result<LaunchPlan, SpikeError>)
    ensures
        match first_bad_text(spec) {
            Some(field) => result is Err && result->Err_0 is InteriorNul
                && result->Err_0->InteriorNul_0@ == field,
            None => {
                &&& result is Ok
                &&& result->Ok_0.application@ == spec.application@.push(0u16)
                &&& result->Ok_0.command_line@ == spec.command_line@.push(0u16)
                &&& match (result->Ok_0.current_directory, spec.current_directory) {
                    (Some(ended), Some(given)) => ended@ == given@.push(0u16),
                    (None, None) => true,
                    _ => false,
                }
                &&& result->Ok_0.kill_on_job_close
                &&& result->Ok_0.breakaway_ok == spec.allow_breakaway
                &&& result->Ok_0.create_suspended
                &&& result->Ok_0.create_new_process_group == spec.enable_ctrl_break
            },
        },
{
    let application = match wide_nul(spec.application, "application") {
        Ok(text) => text,
        Err(error) => return Err(error),
    };
    let command_line = match wide_nul(spec.command_line, "command_line") {
        Ok(text) => text,
        Err(error) => return Err(error),
    };
    let current_directory = match spec.current_directory {
        Some(path) => match wide_nul(path, "current_directory") {
            Ok(text) => Some(text),
            Err(error) => return Err(error),
        },
        None => None,
    };
    Ok(
        LaunchPlan {
            application,
            command_line,
            current_directory,
            kill_on_job_close: true,
            breakaway_ok: spec.allow_breakaway,
            create_suspended: true,
            create_new_process_group: spec.enable_ctrl_break,
        },
    )
}

/// A process in its job.
#[derive(Clone, Copy, Debug, PartialEq, Eq, Structural)]
pub struct ManagedProcess {
    job: u64,
    process: u64,
    process_id: u32,
    ctrl_break_group_id: Option<u32>,
}

impl ManagedProcess {
    pub closed spec fn id(self) -> u32 {
        self.process_id
    }

    pub closed spec fn job_handle(self) -> u64 {
        self.job
    }

    pub closed spec fn process_handle(self) -> u64 {
        self.process
    }

    /// The group that a break is sent to.
    pub closed spec fn break_group(self) -> Option<u32> {
        self.ctrl_break_group_id
    }

    pub fn process_id(&self) -> (process_id: u32)
        ensures
            process_id == self.id(),
    {
        self.process_id
    }

    /// The job and the process, as the operating system knows them.
    pub fn handles(&self) -> (handles: (u64, u64))
        ensures
            handles == (self.job_handle(), self.process_handle()),
    {
        (self.job, self.process)
    }

    /// The group that a break is sent to, where the process leads one.
    pub fn request_ctrl_break(&self) -> (result: Result<u32, SpikeError>)
        ensures
            match self.break_group() {
                Some(group) => result == Ok::<u32, SpikeError>(group),
                None => result == Err::<u32, SpikeError>(SpikeError::CtrlBreakNotConfigured),
            },
    {
        match self.ctrl_break_group_id {
            Some(group) => Ok(group),
            None => Err(SpikeError::CtrlBreakNotConfigured),
        }
    }

    /// What came of a break that was sent to the group.
    pub fn after_ctrl_break(&self, reply: Result<(), String>) -> (result: Result<(), SpikeError>)
        ensures
            match reply {
                Ok(_) => result is Ok,
                Err(source) => result is Err && failed_at(
                    result->Err_0,
                    "GenerateConsoleCtrlEvent(CTRL_BREAK_EVENT)"@,
                    source,
                ),
            },
    {
        windows_result("GenerateConsoleCtrlEvent(CTRL_BREAK_EVENT)", reply)
    }

    /// What came of ending the job with an exit code.
    pub fn force_terminate(&self, reply: Result<(), String>) -> (result: Result<(), SpikeError>)
        ensures
            match reply {
                Ok(_) => result is Ok,
                Err(source) => result is Err && failed_at(result->Err_0, "TerminateJobObject"@, source),
            },
    {
        windows_result("TerminateJobObject", reply)
    }

    /// Whether a wait of no time says that the process has ended.
    pub fn has_exited(&self, wait: u32) -> (exited: bool)
        ensures
            exited == (wait == WAIT_OBJECT_0),
    {
        wait == WAIT_OBJECT_0
    }
}

/// A failure of a call of the operating system, with nothing to clean up.
pub open spec fn failed_at(error: SpikeError, stage: Seq<char>, source: String) -> bool {
    &&& error is Windows
    &&& error->stage@ == stage
    &&& error->source == source
    &&& error->cleanup is None
}

/// What a call of the operating system came to; what failed says so in words.
pub fn windows_result(stage: &str, reply: Result<(), String>) -> (result: Result<(), SpikeError>)
    ensures
        match reply {
            Ok(_) => result is Ok,
            Err(source) => result is Err && failed_at(result->Err_0, stage@, source),
        },
{
    match reply {
        Ok(_) => Ok(()),
        Err(source) => Err(
            SpikeError::Windows { stage: stage.to_owned(), source, cleanup: None },
        ),
    }
}

/// A process that was created and has not run yet.
#[derive(Clone, Copy, Debug, PartialEq, Eq, Structural)]
pub struct SuspendedProcess {
    pub job: u64,
    pub process: u64,
    pub thread: u64,
    pub process_id: u32,
    pub assigned_to_job: bool,
}

/// The call that ends a suspended process.
#[derive(Clone, Copy, Debug, PartialEq, Eq, Structural)]
pub enum EndCall {
    /// End everything in a job.
    Job(u64),
    /// End a process alone.
    Process(u64),
}

impl SuspendedProcess {
    /// The call that ends the process: by its job where the job holds it, and
    /// alone otherwise.
    pub open spec fn ended_by(self) -> EndCall {
        if self.assigned_to_job {
            EndCall::Job(self.job)
        } else {
            EndCall::Process(self.process)
        }
    }

    /// The call that ends the process, here and where ending it is tried once
    /// more.
    pub fn terminate_and_wait(&self) -> (call: EndCall)
        ensures
            call == self.ended_by(),
    {
        if self.assigned_to_job {
            EndCall::Job(self.job)
        } else {
            EndCall::Process(self.process)
        }
    }
}

/// Where a launch stands: what is to be done next.
#[derive(Debug)]
#[allow(inconsistent_fields)]
pub enum LaunchState {
    CreateJob,
    SetLimits { job: u64 },
    CreateProcess { job: u64 },
    Assign { suspended: SuspendedProcess },
    Resume { suspended: SuspendedProcess },
    /// End the process by a call.
    Terminate { suspended: SuspendedProcess, call: EndCall, stage: String, source: String },
    /// Wait until the process has ended.
    AwaitEnd { suspended: SuspendedProcess, stage: String, source: String },
    /// The launch failed, and so did ending the process: try that once more.
    Failed { error: SpikeError, end_again: Option<SuspendedProcess> },
    Launched { process: ManagedProcess },
}

/// What the operating system answers.
#[derive(Debug)]
pub enum LaunchReply {
    Done,
    Job(u64),
    Process(SuspendedProcess),
    Failed(String),
}

/// A launch failed, with what came of ending the process.
pub open spec fn launch_failure(
    state: LaunchState,
    stage: Seq<char>,
    source: String,
    cleanup: Option<String>,
    end_again: Option<SuspendedProcess>,
) -> bool {
    match state {
        LaunchState::Failed { error, end_again: again } => {
            &&& error is Windows
            &&& error->stage@ == stage
            &&& error->source == source
            &&& error->cleanup == cleanup
            &&& again == end_again
        },
        _ => false,
    }
}

/// An answer is one to what was asked.
pub open spec fn answers(state: LaunchState, reply: LaunchReply) -> bool {
    match state {
        LaunchState::CreateJob => reply is Job || reply is Failed,
        LaunchState::SetLimits { job } => reply is Done || reply is Failed,
        LaunchState::CreateProcess { job } => reply is Failed || reply is Process
            && reply->Process_0.job == job && !reply->Process_0.assigned_to_job,
        LaunchState::Failed { error, end_again } => false,
        LaunchState::Launched { process } => false,
        _ => reply is Done || reply is Failed,
    }
}

/// What follows an answer.
pub open spec fn launch_follows(
    state: LaunchState,
    reply: LaunchReply,
    enable_ctrl_break: bool,
    next: LaunchState,
) -> bool {
    match (state, reply) {
        (LaunchState::CreateJob, LaunchReply::Job(job)) => next == LaunchState::SetLimits { job },
        (LaunchState::CreateJob, LaunchReply::Failed(source)) => launch_failure(
            next,
            "CreateJobObjectW"@,
            source,
            None,
            None,
        ),
        (LaunchState::SetLimits { job }, LaunchReply::Done) => next == LaunchState::CreateProcess {
            job,
        },
        (LaunchState::SetLimits { job }, LaunchReply::Failed(source)) => launch_failure(
            next,
            "SetInformationJobObject"@,
            source,
            None,
            None,
        ),
        (LaunchState::CreateProcess { job }, LaunchReply::Process(suspended)) => next
            == LaunchState::Assign {
            suspended: SuspendedProcess { job, assigned_to_job: false, ..suspended },
        },
        (LaunchState::CreateProcess { job }, LaunchReply::Failed(source)) => launch_failure(
            next,
            "CreateProcessW(CREATE_SUSPENDED)"@,
            source,
            None,
            None,
        ),
        (LaunchState::Assign { suspended }, LaunchReply::Done) => next == LaunchState::Resume {
            suspended: SuspendedProcess { assigned_to_job: true, ..suspended },
        },
        (LaunchState::Assign { suspended }, LaunchReply::Failed(source)) => {
            &&& next is Terminate
            &&& next->Terminate_suspended == suspended
            &&& next->call == suspended.ended_by()
            &&& next->Terminate_stage@ == "AssignProcessToJobObject"@
            &&& next->Terminate_source == source
        },
        (LaunchState::Resume { suspended }, LaunchReply::Done) => {
            &&& next is Launched
            &&& next->process.id() == suspended.process_id
            &&& next->process.job_handle() == suspended.job
            &&& next->process.process_handle() == suspended.process
            &&& next->process.break_group() == if enable_ctrl_break {
                Some(suspended.process_id)
            } else {
                None
            }
        },
        (LaunchState::Resume { suspended }, LaunchReply::Failed(source)) => {
            &&& next is Terminate
            &&& next->Terminate_suspended == suspended
            &&& next->call == suspended.ended_by()
            &&& next->Terminate_stage@ == "ResumeThread"@
            &&& next->Terminate_source == source
        },
        (LaunchState::Terminate { suspended, call, stage, source }, LaunchReply::Done) => next
            == LaunchState::AwaitEnd { suspended, stage, source },
        (LaunchState::Terminate { suspended, call, stage, source }, LaunchReply::Failed(cleanup)) => {
            launch_failure(next, stage@, source, Some(cleanup), Some(suspended))
        },
        (LaunchState::AwaitEnd { suspended, stage, source }, LaunchReply::Done) => launch_failure(
            next,
            stage@,
            source,
            None,
            None,
        ),
        (LaunchState::AwaitEnd { suspended, stage, source }, LaunchReply::Failed(cleanup)) => {
            launch_failure(next, stage@, source, Some(cleanup), Some(suspended))
        },
        _ => false,
    }
}

fn failed(stage: &str, source: String) -> (state: LaunchState)
    ensures
        launch_failure(state, stage@, source, None, None),
{
    LaunchState::Failed {
        error: SpikeError::Windows { stage: stage.to_owned(), source, cleanup: None },
        end_again: None,
    }
}

/// Moves a launch on by one answer of the operating system.
pub fn launch_suspended_into_job(
    state: LaunchState,
    reply: LaunchReply,
    enable_ctrl_break: bool,
) -> (next: LaunchState)
    requires
        answers(state, reply),
    ensures
        launch_follows(state, reply, enable_ctrl_break, next),
{
    match (state, reply) {
        (LaunchState::CreateJob, LaunchReply::Job(job)) => LaunchState::SetLimits { job },
        (LaunchState::CreateJob, LaunchReply::Failed(source)) => failed("CreateJobObjectW", source),
        (LaunchState::SetLimits { job }, LaunchReply::Done) => LaunchState::CreateProcess { job },
        (LaunchState::SetLimits { job: _ }, LaunchReply::Failed(source)) => failed(
            "SetInformationJobObject",
            source,
        ),
        (LaunchState::CreateProcess { job }, LaunchReply::Process(suspended)) => {
            let mut suspended = suspended;
            suspended.job = job;
            suspended.assigned_to_job = false;
            LaunchState::Assign { suspended }
        },
        (LaunchState::CreateProcess { job: _ }, LaunchReply::Failed(source)) => failed(
            "CreateProcessW(CREATE_SUSPENDED)",
            source,
        ),
        (LaunchState::Assign { suspended }, LaunchReply::Done) => {
            let mut suspended = suspended;
            suspended.assigned_to_job = true;
            LaunchState::Resume { suspended }
        },
        (LaunchState::Assign { suspended }, LaunchReply::Failed(source)) => {
            let call = suspended.terminate_and_wait();
            LaunchState::Terminate {
                suspended,
                call,
                stage: "AssignProcessToJobObject".to_owned(),
                source,
            }
        },
        (LaunchState::Resume { suspended }, LaunchReply::Done) => LaunchState::Launched {
            process: ManagedProcess {
                job: suspended.job,
                process: suspended.process,
                process_id: suspended.process_id,
                ctrl_break_group_id: if enable_ctrl_break {
                    Some(suspended.process_id)
                } else {
                    None
                },
            },
        },
        (LaunchState::Resume { suspended }, LaunchReply::Failed(source)) => {
            let call = suspended.terminate_and_wait();
            LaunchState::Terminate { suspended, call, stage: "ResumeThread".to_owned(), source }
        },
        (LaunchState::Terminate { suspended, call: _, stage, source }, LaunchReply::Done) => {
            LaunchState::AwaitEnd { suspended, stage, source }
        },
        (
            LaunchState::Terminate { suspended, call: _, stage, source },
            LaunchReply::Failed(cleanup),
        ) => {
            LaunchState::Failed {
                error: SpikeError::Windows { stage, source, cleanup: Some(cleanup) },
                end_again: Some(suspended),
            }
        },
        (LaunchState::AwaitEnd { suspended: _, stage, source }, LaunchReply::Done) => {
            LaunchState::Failed {
                error: SpikeError::Windows { stage, source, cleanup: None },
                end_again: None,
            }
        },
        (LaunchState::AwaitEnd { suspended, stage, source }, LaunchReply::Failed(cleanup)) => {
            LaunchState::Failed {
                error: SpikeError::Windows { stage, source, cleanup: Some(cleanup) },
                end_again: Some(suspended),
            }
        },
        _ => vstd::pervasive::unreached(),
    }
}

/// No process runs outside its job: it is resumed only when the job holds it.
pub open spec fn runs_in_job(state: LaunchState) -> bool {
    match state {
        LaunchState::Resume { suspended } => suspended.assigned_to_job,
        _ => true,
    }
}

/// A process that is to be assigned is in no job yet.
pub open spec fn starts_alone(state: LaunchState) -> bool {
    match state {
        LaunchState::Assign { suspended } => !suspended.assigned_to_job,
        _ => true,
    }
}

/// A process is resumed only when its job holds it: a failure before that ends
/// the process alone, a later one the whole job. One that was created is
/// launched, or ended, or is still to be ended again: it is never forgotten.
pub proof fn lemma_process_is_never_forgotten(
    state: LaunchState,
    reply: LaunchReply,
    enable_ctrl_break: bool,
    next: LaunchState,
)
    requires
        answers(state, reply),
        starts_alone(state),
        runs_in_job(state),
        launch_follows(state, reply, enable_ctrl_break, next),
    ensures
        starts_alone(next),
        runs_in_job(next),
        next is Terminate ==> next->call == (if state is Resume {
            EndCall::Job(state->Resume_suspended.job)
        } else {
            EndCall::Process(state->Assign_suspended.process)
        }),
        next is Failed && (state is Assign || state is Resume) ==> false,
        state is Terminate && reply is Failed ==> next->end_again == Some(
            state->Terminate_suspended,
        ),
        state is AwaitEnd && reply is Failed ==> next->end_again == Some(
            state->AwaitEnd_suspended,
        ),
{
}

} // verus!
