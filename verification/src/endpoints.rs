//! Endpoints that only the current user can reach: a Unix socket in a private
//! directory, and a named pipe with a list of rights.

use vstd::prelude::*;

use crate::platform::{is_one_name, is_single_name};
use crate::text::{encode_utf16, join, utf16};

verus! {

/// What can go wrong with a private socket.
#[derive(Debug)]
pub enum SocketSecurityError {
    SymlinkRuntimeDirectory,
    InvalidSocketName,
    UnsafeStalePath,
    Io { operation: String, path: String, source: String },
}

/// What an error says.
pub open spec fn socket_message(error: SocketSecurityError) -> Seq<char> {
    match error {
        SocketSecurityError::SymlinkRuntimeDirectory => {
            "the runtime directory cannot be a symbolic link"@
        },
        SocketSecurityError::InvalidSocketName => {
            "the socket name must be one normal path component"@
        },
        SocketSecurityError::UnsafeStalePath => {
            "refusing to remove a stale path that is not a Unix socket"@
        },
        SocketSecurityError::Io { operation, path, source } => operation@ + " for "@ + path@
            + ": "@ + source@,
    }
}

impl SocketSecurityError {
    pub fn message(&self) -> (message: String)
        ensures
            message@ == socket_message(*self),
    {
        match self {
            SocketSecurityError::SymlinkRuntimeDirectory => {
                "the runtime directory cannot be a symbolic link".to_owned()
            },
            SocketSecurityError::InvalidSocketName => {
                "the socket name must be one normal path component".to_owned()
            },
            SocketSecurityError::UnsafeStalePath => {
                "refusing to remove a stale path that is not a Unix socket".to_owned()
            },
            SocketSecurityError::Io { operation, path, source } => join(
                join(
                    join(join(operation.as_str(), " for ").as_str(), path.as_str()).as_str(),
                    ": ",
                ).as_str(),
                source.as_str(),
            ),
        }
    }
}

/// Where the making of a private socket stands: what is to be done next.
#[derive(Debug)]
pub enum SocketStep {
    InspectDirectory,
    CreateDirectory,
    RestrictDirectory,
    InspectStale,
    RemoveStale,
    Bind,
    RestrictSocket,
    /// Remove the socket that could not be made private, and give up.
    RemoveSocket(SocketSecurityError),
    Listening,
    Fail(SocketSecurityError),
}

/// What came of a step.
#[derive(Debug)]
pub enum SocketReply {
    Done,
    /// What stands there is a link.
    Symlink,
    /// What stands there is a socket.
    Socket,
    /// What stands there is something else.
    Something,
    Missing,
    Failed(String),
}

/// The making of a socket failed in a call.
pub open spec fn fails_at(
    step: SocketStep,
    operation: Seq<char>,
    path: Seq<char>,
    source: String,
) -> bool {
    match step {
        SocketStep::Fail(SocketSecurityError::Io { operation: at, path: of, source: why }) => at@
            == operation && of@ == path && why == source,
        _ => false,
    }
}

/// An answer is one to what was asked.
pub open spec fn socket_answers(step: SocketStep, reply: SocketReply) -> bool {
    match step {
        SocketStep::InspectDirectory => true,
        SocketStep::InspectStale => !(reply is Done),
        SocketStep::RemoveSocket(error) => true,
        SocketStep::Listening => false,
        SocketStep::Fail(error) => false,
        _ => reply is Done || reply is Failed,
    }
}

/// What follows a step.
pub open spec fn socket_follows(
    directory: Seq<char>,
    path: Seq<char>,
    socket_name: Seq<u8>,
    step: SocketStep,
    reply: SocketReply,
    next: SocketStep,
) -> bool {
    match (step, reply) {
        (SocketStep::InspectDirectory, SocketReply::Symlink) => next == SocketStep::Fail(
            SocketSecurityError::SymlinkRuntimeDirectory,
        ),
        (SocketStep::InspectDirectory, _) => next is CreateDirectory,
        (SocketStep::CreateDirectory, SocketReply::Done) => next is RestrictDirectory,
        (SocketStep::CreateDirectory, SocketReply::Failed(source)) => fails_at(
            next,
            "create runtime directory"@,
            directory,
            source,
        ),
        (SocketStep::RestrictDirectory, SocketReply::Done) => if is_one_name(socket_name) {
            next is InspectStale
        } else {
            next == SocketStep::Fail(SocketSecurityError::InvalidSocketName)
        },
        (SocketStep::RestrictDirectory, SocketReply::Failed(source)) => fails_at(
            next,
            "restrict runtime directory"@,
            directory,
            source,
        ),
        (SocketStep::InspectStale, SocketReply::Socket) => next is RemoveStale,
        (SocketStep::InspectStale, SocketReply::Symlink) => next == SocketStep::Fail(
            SocketSecurityError::UnsafeStalePath,
        ),
        (SocketStep::InspectStale, SocketReply::Something) => next == SocketStep::Fail(
            SocketSecurityError::UnsafeStalePath,
        ),
        (SocketStep::InspectStale, SocketReply::Missing) => next is Bind,
        (SocketStep::InspectStale, SocketReply::Failed(source)) => fails_at(
            next,
            "inspect stale socket"@,
            path,
            source,
        ),
        (SocketStep::RemoveStale, SocketReply::Done) => next is Bind,
        (SocketStep::RemoveStale, SocketReply::Failed(source)) => fails_at(
            next,
            "remove stale socket"@,
            path,
            source,
        ),
        (SocketStep::Bind, SocketReply::Done) => next is RestrictSocket,
        (SocketStep::Bind, SocketReply::Failed(source)) => fails_at(
            next,
            "bind Unix socket"@,
            path,
            source,
        ),
        (SocketStep::RestrictSocket, SocketReply::Done) => next is Listening,
        (SocketStep::RestrictSocket, SocketReply::Failed(source)) => next is RemoveSocket
            && fails_at(
            SocketStep::Fail(next->RemoveSocket_0),
            "restrict Unix socket"@,
            path,
            source,
        ),
        (SocketStep::RemoveSocket(error), _) => next == SocketStep::Fail(error),
        _ => false,
    }
}

fn io_error(operation: &str, path: &str, source: String) -> (error: SocketSecurityError)
    ensures
        fails_at(SocketStep::Fail(error), operation@, path@, source),
{
    SocketSecurityError::Io { operation: operation.to_owned(), path: path.to_owned(), source }
}

/// Moves the making of a private socket on by one step: the directory is made
/// private first, only a stale socket is removed, and a socket that could not
/// be made private is removed.
pub fn bind_private_socket(
    directory: &str,
    path: &str,
    socket_name: &[u8],
    step: SocketStep,
    reply: SocketReply,
) -> (next: SocketStep)
    requires
        socket_answers(step, reply),
    ensures
        socket_follows(directory@, path@, socket_name@, step, reply, next),
{
    match (step, reply) {
        (SocketStep::InspectDirectory, SocketReply::Symlink) => SocketStep::Fail(
            SocketSecurityError::SymlinkRuntimeDirectory,
        ),
        (SocketStep::InspectDirectory, _) => SocketStep::CreateDirectory,
        (SocketStep::CreateDirectory, SocketReply::Done) => SocketStep::RestrictDirectory,
        (SocketStep::CreateDirectory, SocketReply::Failed(source)) => SocketStep::Fail(
            io_error("create runtime directory", directory, source),
        ),
        (SocketStep::RestrictDirectory, SocketReply::Done) => {
            if is_single_name(socket_name) {
                SocketStep::InspectStale
            } else {
                SocketStep::Fail(SocketSecurityError::InvalidSocketName)
            }
        },
        (SocketStep::RestrictDirectory, SocketReply::Failed(source)) => SocketStep::Fail(
            io_error("restrict runtime directory", directory, source),
        ),
        (SocketStep::InspectStale, SocketReply::Socket) => SocketStep::RemoveStale,
        (SocketStep::InspectStale, SocketReply::Symlink) => SocketStep::Fail(
            SocketSecurityError::UnsafeStalePath,
        ),
        (SocketStep::InspectStale, SocketReply::Something) => SocketStep::Fail(
            SocketSecurityError::UnsafeStalePath,
        ),
        (SocketStep::InspectStale, SocketReply::Missing) => SocketStep::Bind,
        (SocketStep::InspectStale, SocketReply::Failed(source)) => SocketStep::Fail(
            io_error("inspect stale socket", path, source),
        ),
        (SocketStep::RemoveStale, SocketReply::Done) => SocketStep::Bind,
        (SocketStep::RemoveStale, SocketReply::Failed(source)) => SocketStep::Fail(
            io_error("remove stale socket", path, source),
        ),
        (SocketStep::Bind, SocketReply::Done) => SocketStep::RestrictSocket,
        (SocketStep::Bind, SocketReply::Failed(source)) => SocketStep::Fail(
            io_error("bind Unix socket", path, source),
        ),
        (SocketStep::RestrictSocket, SocketReply::Done) => SocketStep::Listening,
        (SocketStep::RestrictSocket, SocketReply::Failed(source)) => SocketStep::RemoveSocket(
            io_error("restrict Unix socket", path, source),
        ),
        (SocketStep::RemoveSocket(error), _) => SocketStep::Fail(error),
        _ => vstd::pervasive::unreached(),
    }
}

/// Nothing but a socket is removed before the supervisor listens, and it
/// listens only on a socket that was made private.
pub proof fn lemma_only_a_stale_socket_is_removed(
    directory: Seq<char>,
    path: Seq<char>,
    socket_name: Seq<u8>,
    step: SocketStep,
    reply: SocketReply,
    next: SocketStep,
)
    requires
        socket_answers(step, reply),
        socket_follows(directory, path, socket_name, step, reply, next),
    ensures
        next is RemoveStale ==> step is InspectStale && reply is Socket,
        next is Listening ==> step is RestrictSocket && reply is Done,
        next is InspectStale ==> is_one_name(socket_name),
        step is RestrictSocket && reply is Failed ==> next is RemoveSocket,
{
}

/// What can go wrong with a named pipe.
#[derive(Debug)]
pub enum PipeSecurityError {
    InvalidPipeName,
    InvalidSidString,
    Windows { stage: String, source: String },
}

/// What an error says.
pub open spec fn pipe_message(error: PipeSecurityError) -> Seq<char> {
    match error {
        PipeSecurityError::InvalidPipeName => "invalid pipe name"@,
        PipeSecurityError::InvalidSidString => {
            "the current user SID could not be converted to UTF-16"@
        },
        PipeSecurityError::Windows { stage, source } => stage@ + ": "@ + source@,
    }
}

impl PipeSecurityError {
    pub fn message(&self) -> (message: String)
        ensures
            message@ == pipe_message(*self),
    {
        match self {
            PipeSecurityError::InvalidPipeName => "invalid pipe name".to_owned(),
            PipeSecurityError::InvalidSidString => {
                "the current user SID could not be converted to UTF-16".to_owned()
            },
            PipeSecurityError::Windows { stage, source } => join(
                join(stage.as_str(), ": ").as_str(),
                source.as_str(),
            ),
        }
    }
}

/// A pipe of the current user, by its handle.
#[derive(Clone, Copy, Debug, PartialEq, Eq, Structural)]
pub struct CurrentUserPipe(u64);

impl CurrentUserPipe {
    pub closed spec fn handle(self) -> u64 {
        self.0
    }

    pub fn raw_handle(&self) -> (handle: u64)
        ensures
            handle == self.handle(),
    {
        self.0
    }
}

/// A byte that may stand in the name of a pipe.
pub open spec fn is_name_byte(byte: u8) -> bool {
    48 <= byte <= 57 || 65 <= byte <= 90 || 97 <= byte <= 122 || byte == 45 || byte == 95
}

/// A name that a pipe may have.
pub open spec fn is_pipe_name(suffix: Seq<char>) -> bool {
    let bytes = vstd::utf8::encode_utf8(suffix);
    &&& 0 < bytes.len() <= 96
    &&& forall|i: int| 0 <= i < bytes.len() ==> is_name_byte(#[trigger] bytes[i])
}

pub fn is_valid_pipe_name(suffix: &str) -> (valid: bool)
    ensures
        valid == is_pipe_name(suffix@),
{
    let bytes = suffix.as_bytes();
    if bytes.len() == 0 || bytes.len() > 96 {
        return false;
    }
    let mut i: usize = 0;
    while i < bytes.len()
        invariant
            i <= bytes@.len(),
            bytes@ == vstd::utf8::encode_utf8(suffix@),
            forall|k: int| 0 <= k < i ==> is_name_byte(#[trigger] bytes@[k]),
        decreases bytes@.len() - i,
    {
        let byte: u8 = bytes[i];
        let good = 48 <= byte && byte <= 57 || 65 <= byte && byte <= 90 || 97 <= byte && byte <= 122
            || byte == 45 || byte == 95;
        if !good {
            assert(!is_name_byte(bytes@[i as int]));
            return false;
        }
        i += 1;
    }
    true
}

/// The list of rights that gives everything to one user and nothing to others.
pub open spec fn only_user(sid: Seq<char>) -> Seq<char> {
    "D:P(A;;GA;;;"@ + sid + ")"@
}

pub fn current_user_sddl(sid: &str) -> (sddl: String)
    ensures
        sddl@ == only_user(sid@),
{
    join(join("D:P(A;;GA;;;", sid).as_str(), ")")
}

/// What the making of a pipe hands to the operating system, in UTF-16 with a
/// zero behind it.
#[derive(Debug)]
pub struct PipePlan {
    pub path: Vec<u16>,
    pub sddl: Vec<u16>,
}

/// A text in UTF-16 with a zero behind it.
pub fn wide_nul(text: &str) -> (units: Vec<u16>)
    ensures
        units@ == utf16(text@).push(0u16),
{
    let mut units = encode_utf16(text);
    units.push(0);
    units
}

/// What the making of a pipe hands to the operating system. The name is looked
/// at before the user is.
pub fn create_current_user_pipe(
    name_suffix: &str,
    sid: Result<String, PipeSecurityError>,
) -> (result: Result<PipePlan, PipeSecurityError>)
    ensures
        if !is_pipe_name(name_suffix@) {
            result == Err::<PipePlan, PipeSecurityError>(PipeSecurityError::InvalidPipeName)
        } else {
            match sid {
                Err(error) => result == Err::<PipePlan, PipeSecurityError>(error),
                Ok(sid) => {
                    &&& result is Ok
                    &&& result->Ok_0.path@ == utf16(
                        "\\\\.\\pipe\\com.local.devprocessmanager-"@ + name_suffix@,
                    ).push(0u16)
                    &&& result->Ok_0.sddl@ == utf16(only_user(sid@)).push(0u16)
                },
            }
        },
{
    if !is_valid_pipe_name(name_suffix) {
        return Err(PipeSecurityError::InvalidPipeName);
    }
    let sid = match sid {
        Ok(sid) => sid,
        Err(error) => return Err(error),
    };
    let sddl = current_user_sddl(sid.as_str());
    let path = join("\\\\.\\pipe\\com.local.devprocessmanager-", name_suffix);
    Ok(PipePlan { path: wide_nul(path.as_str()), sddl: wide_nul(sddl.as_str()) })
}

/// The pipe that was made, by its handle; none where the making failed.
pub fn created_pipe(handle: Option<u64>, source: String) -> (result: Result<
    CurrentUserPipe,
    PipeSecurityError,
>)
    ensures
        match handle {
            Some(handle) => result is Ok && result->Ok_0.handle() == handle,
            None => {
                &&& result is Err
                &&& result->Err_0 is Windows
                &&& result->Err_0->stage@ == "CreateNamedPipeW"@
                &&& result->Err_0->source == source
            },
        },
{
    match handle {
        Some(handle) => Ok(CurrentUserPipe(handle)),
        None => Err(
            PipeSecurityError::Windows { stage: "CreateNamedPipeW".to_owned(), source },
        ),
    }
}

} // verus!
