//! A process with its group on macOS: it is signalled only while it is still
//! the process that was started, and still leads its group.

use vstd::prelude::*;

use crate::text::{decimal, decimal_text, join};

verus! {

/// The codes by which the operating system says why a call failed.
pub const EPERM: i32 = 1;

pub const ENOENT: i32 = 2;

pub const ESRCH: i32 = 3;

pub const EBADF: i32 = 9;

pub const EACCES: i32 = 13;

/// The signal that asks a process to end.
pub const SIGTERM: i32 = 15;

/// The signal that ends a process.
pub const SIGKILL: i32 = 9;

/// The type of a descriptor that is a socket.
pub const PROX_FDTYPE_SOCKET: u32 = 2;

/// The bytes that one entry of the list of descriptors takes.
pub const FD_ENTRY_BYTES: usize = 8;

/// A process, by its number and its start.
#[derive(Clone, Copy, Debug, PartialEq, Eq, Structural)]
pub struct MacProcessIdentity {
    pub pid: i32,
    pub native_start_seconds: u64,
    pub native_start_microseconds: u64,
}

/// What is known of a process.
#[derive(Debug)]
pub struct ProcessProbe {
    pub identity: MacProcessIdentity,
    pub parent_pid: u32,
    pub process_group_id: u32,
    pub owner_uid: u32,
    pub open_file_count: u32,
    pub name: String,
}

/// What is known of a socket of a process.
#[derive(Debug)]
pub struct SocketFdProbe {
    pub fd: i32,
    pub native_info: Vec<u8>,
}

/// Why a call failed: its code where there is one, and its words.
#[derive(Debug)]
pub struct NativeFailure {
    pub code: Option<i32>,
    pub words: String,
}

/// What can go wrong with a process group.
#[derive(Debug)]
#[allow(inconsistent_fields)]
pub enum SpikeError {
    AccessLimited { operation: String },
    NotFound { pid: i32 },
    IdentityMismatch { identity: MacProcessIdentity },
    ProcessGroupChanged { expected: i32, actual: i32 },
    Native { operation: String, source: String },
    ShortRead { operation: String, expected_bytes: usize, actual_bytes: usize },
}

/// The decimal text of a signed number.
pub open spec fn signed_text(n: i32) -> Seq<char> {
    if n < 0 {
        "-"@ + decimal_text((-n) as nat)
    } else {
        decimal_text(n as nat)
    }
}

fn signed(n: i32) -> (text: String)
    ensures
        text@ == signed_text(n),
{
    if n < 0 {
        join("-", decimal((-(n as i64)) as u64).as_str())
    } else {
        decimal(n as u64)
    }
}

/// What an error says.
pub open spec fn group_message(error: SpikeError) -> Seq<char> {
    match error {
        SpikeError::AccessLimited { operation } => operation@ + " is access limited"@,
        SpikeError::NotFound { pid } => "process "@ + signed_text(pid) + " no longer exists"@,
        SpikeError::IdentityMismatch { identity } => "process "@ + signed_text(identity.pid)
            + " identity changed"@,
        SpikeError::ProcessGroupChanged { expected, actual } => "process group changed from "@
            + signed_text(expected) + " to "@ + signed_text(actual),
        SpikeError::Native { operation, source } => operation@ + ": "@ + source@,
        SpikeError::ShortRead { operation, expected_bytes, actual_bytes } => operation@
            + " returned "@ + decimal_text(actual_bytes as nat) + " bytes; expected at least "@
            + decimal_text(expected_bytes as nat),
    }
}

impl SpikeError {
    pub fn message(&self) -> (message: String)
        ensures
            message@ == group_message(*self),
    {
        match self {
            SpikeError::AccessLimited { operation } => join(
                operation.as_str(),
                " is access limited",
            ),
            SpikeError::NotFound { pid } => join(
                join("process ", signed(*pid).as_str()).as_str(),
                " no longer exists",
            ),
            SpikeError::IdentityMismatch { identity } => join(
                join("process ", signed(identity.pid).as_str()).as_str(),
                " identity changed",
            ),
            SpikeError::ProcessGroupChanged { expected, actual } => join(
                join(
                    join("process group changed from ", signed(*expected).as_str()).as_str(),
                    " to ",
                ).as_str(),
                signed(*actual).as_str(),
            ),
            SpikeError::Native { operation, source } => join(
                join(operation.as_str(), ": ").as_str(),
                source.as_str(),
            ),
            SpikeError::ShortRead { operation, expected_bytes, actual_bytes } => join(
                join(
                    join(
                        join(operation.as_str(), " returned ").as_str(),
                        decimal(*actual_bytes as u64).as_str(),
                    ).as_str(),
                    " bytes; expected at least ",
                ).as_str(),
                decimal(*expected_bytes as u64).as_str(),
            ),
        }
    }
}

/// What a failed call means: that it is not allowed, that the process is gone,
/// or something else.
pub open spec fn meaning(operation: Seq<char>, pid: i32, failure: NativeFailure, error: SpikeError) -> bool {
    match failure.code {
        Some(code) => if code == EPERM || code == EACCES {
            error is AccessLimited && error->AccessLimited_operation@ == operation
        } else if code == ESRCH {
            error == SpikeError::NotFound { pid }
        } else {
            error is Native && error->Native_operation@ == operation && error->source
                == failure.words
        },
        None => error is Native && error->Native_operation@ == operation && error->source
            == failure.words,
    }
}

pub fn map_errno(operation: &str, pid: i32, failure: NativeFailure) -> (error: SpikeError)
    ensures
        meaning(operation@, pid, failure, error),
{
    match failure.code {
        Some(code) => if code == EPERM || code == EACCES {
            SpikeError::AccessLimited { operation: operation.to_owned() }
        } else if code == ESRCH {
            SpikeError::NotFound { pid }
        } else {
            SpikeError::Native { operation: operation.to_owned(), source: failure.words }
        },
        None => SpikeError::Native { operation: operation.to_owned(), source: failure.words },
    }
}

/// What the call that asks for a process gives back: how many bytes it wrote.
/// None is an answer only where an empty list is one and no error was left.
pub fn call_pidinfo(
    actual: i32,
    allow_empty: bool,
    operation: &str,
    pid: i32,
    failure: NativeFailure,
) -> (result: Result<usize, SpikeError>)
    ensures
        if actual > 0 || actual == 0 && allow_empty && failure.code == Some(0i32) {
            result is Ok && result->Ok_0 == actual
        } else {
            result is Err && meaning(operation@, pid, failure, result->Err_0)
        },
{
    let cleared = match failure.code {
        Some(code) => code == 0,
        None => false,
    };
    if actual == 0 && allow_empty && cleared {
        Ok(0)
    } else if actual <= 0 {
        Err(map_errno(operation, pid, failure))
    } else {
        Ok(actual as usize)
    }
}

/// What the operating system wrote of a process.
#[derive(Debug)]
pub struct RawProcess {
    pub parent_pid: u32,
    pub process_group_id: u32,
    pub owner_uid: u32,
    pub open_file_count: u32,
    pub start_seconds: u64,
    pub start_microseconds: u64,
    pub name: Vec<u8>,
}

/// The text of some bytes, with a replacement for each part that is not UTF-8.
pub uninterp spec fn lossy_text(bytes: Seq<u8>) -> Seq<char>;

/// Calls `String::from_utf8_lossy`. Of the result it is claimed that it depends
/// on the bytes alone, and that bytes which are UTF-8 are read as such.
#[verifier::external_body]
pub(crate) fn utf8_lossy(bytes: &[u8]) -> (text: String)
    ensures
        text@ == lossy_text(bytes@),
        vstd::utf8::valid_utf8(bytes@) ==> text@ == vstd::utf8::decode_utf8(bytes@),
{
    String::from_utf8_lossy(bytes).into_owned()
}

/// The length of the text in some bytes: up to the first zero.
pub open spec fn text_ends_at(bytes: Seq<u8>, end: int) -> bool {
    &&& 0 <= end <= bytes.len()
    &&& end < bytes.len() ==> bytes[end] == 0
    &&& forall|i: int| 0 <= i < end ==> #[trigger] bytes[i] != 0
}

/// The text in some bytes, up to the first zero.
pub fn c_char_array_to_string(bytes: &Vec<u8>) -> (text: String)
    ensures
        exists|end: int| #[trigger]
            text_ends_at(bytes@, end) && text@ == lossy_text(bytes@.subrange(0, end)) && (
            vstd::utf8::valid_utf8(bytes@.subrange(0, end)) ==> text@ == vstd::utf8::decode_utf8(
                bytes@.subrange(0, end),
            )),
{
    let mut end: usize = 0;
    while end < bytes.len() && bytes[end] != 0
        invariant
            end <= bytes@.len(),
            forall|i: int| 0 <= i < end ==> #[trigger] bytes@[i] != 0,
        decreases bytes@.len() - end,
    {
        end += 1;
    }
    assert(text_ends_at(bytes@, end as int));
    utf8_lossy(vstd::slice::slice_subrange(bytes.as_slice(), 0, end))
}

/// What is known of a process, from what the operating system wrote of it.
pub fn probe_process(
    pid: i32,
    written: Result<usize, SpikeError>,
    record_bytes: usize,
    raw: RawProcess,
) -> (result: Result<ProcessProbe, SpikeError>)
    ensures
        match written {
            Err(error) => result == Err::<ProcessProbe, SpikeError>(error),
            Ok(actual) => if actual < record_bytes {
                &&& result is Err
                &&& result->Err_0 is ShortRead
                &&& result->Err_0->ShortRead_operation@ == "proc_pidinfo(PROC_PIDTBSDINFO)"@
                &&& result->Err_0->expected_bytes == record_bytes
                &&& result->Err_0->actual_bytes == actual
            } else {
                &&& result is Ok
                &&& result->Ok_0.identity == (MacProcessIdentity {
                    pid,
                    native_start_seconds: raw.start_seconds,
                    native_start_microseconds: raw.start_microseconds,
                })
                &&& result->Ok_0.parent_pid == raw.parent_pid
                &&& result->Ok_0.process_group_id == raw.process_group_id
                &&& result->Ok_0.owner_uid == raw.owner_uid
                &&& result->Ok_0.open_file_count == raw.open_file_count
                &&& exists|end: int| #[trigger]
                    text_ends_at(raw.name@, end) && result->Ok_0.name@ == lossy_text(
                        raw.name@.subrange(0, end),
                    )
            },
        },
{
    let actual: usize = match written {
        Ok(actual) => actual,
        Err(error) => return Err(error),
    };
    if actual < record_bytes {
        return Err(
            SpikeError::ShortRead {
                operation: "proc_pidinfo(PROC_PIDTBSDINFO)".to_owned(),
                expected_bytes: record_bytes,
                actual_bytes: actual,
            },
        );
    }
    Ok(
        ProcessProbe {
            identity: MacProcessIdentity {
                pid,
                native_start_seconds: raw.start_seconds,
                native_start_microseconds: raw.start_microseconds,
            },
            parent_pid: raw.parent_pid,
            process_group_id: raw.process_group_id,
            owner_uid: raw.owner_uid,
            open_file_count: raw.open_file_count,
            name: c_char_array_to_string(&raw.name),
        },
    )
}

/// The sockets in a list of descriptors, in its order.
pub open spec fn sockets_in(entries: Seq<(i32, u32)>) -> Seq<i32>
    decreases entries.len(),
{
    if entries.len() == 0 {
        Seq::empty()
    } else {
        let rest = sockets_in(entries.drop_last());
        if entries.last().1 == PROX_FDTYPE_SOCKET {
            rest.push(entries.last().0)
        } else {
            rest
        }
    }
}

/// How many entries of a list were written.
pub open spec fn entries_written(capacity: nat, written: nat) -> nat {
    if written / (FD_ENTRY_BYTES as nat) < capacity {
        written / (FD_ENTRY_BYTES as nat)
    } else {
        capacity
    }
}

/// The sockets of a process, from the list of its descriptors: only what was
/// written counts.
pub fn socket_fds(entries: &Vec<(i32, u32)>, written: usize) -> (fds: Vec<i32>)
    ensures
        fds@ == sockets_in(
            entries@.subrange(0, entries_written(entries@.len(), written as nat) as int),
        ),
{
    let whole: usize = written / FD_ENTRY_BYTES;
    let count: usize = if whole < entries.len() {
        whole
    } else {
        entries.len()
    };
    let mut fds: Vec<i32> = Vec::new();
    let mut i: usize = 0;
    while i < count
        invariant
            i <= count <= entries@.len(),
            fds@ == sockets_in(entries@.subrange(0, i as int)),
        decreases count - i,
    {
        proof {
            let longer = entries@.subrange(0, i + 1);
            assert(longer.drop_last() =~= entries@.subrange(0, i as int));
        }
        if entries[i].1 == PROX_FDTYPE_SOCKET {
            fds.push(entries[i].0);
        }
        i += 1;
    }
    fds
}

/// What is known of a socket, from what was written of it. One that is gone in
/// the meantime is passed over.
pub fn probe_socket_fd(
    pid: i32,
    fd: i32,
    actual: i32,
    native_info: Vec<u8>,
    failure: NativeFailure,
) -> (result: Result<Option<SocketFdProbe>, SpikeError>)
    ensures
        if actual > 0 {
            &&& result is Ok
            &&& result->Ok_0 is Some
            &&& result->Ok_0->0.fd == fd
            &&& result->Ok_0->0.native_info@ == if actual < native_info@.len() {
                native_info@.subrange(0, actual as int)
            } else {
                native_info@
            }
        } else if failure.code == Some(EBADF) || failure.code == Some(ENOENT) {
            result is Ok && result->Ok_0 is None
        } else {
            result is Err && meaning(
                "proc_pidfdinfo(PROC_PIDFDSOCKETINFO)"@,
                pid,
                failure,
                result->Err_0,
            )
        },
{
    if actual <= 0 {
        let gone = match failure.code {
            Some(code) => code == EBADF || code == ENOENT,
            None => false,
        };
        if gone {
            return Ok(None);
        }
        return Err(map_errno("proc_pidfdinfo(PROC_PIDFDSOCKETINFO)", pid, failure));
    }
    let mut native_info = native_info;
    native_info.truncate(actual as usize);
    Ok(Some(SocketFdProbe { fd, native_info }))
}

/// What came of asking for one descriptor: how many bytes were written, the
/// bytes, and the failure where there was one.
#[derive(Debug)]
pub struct SocketAnswer {
    pub actual: i32,
    pub native_info: Vec<u8>,
    pub failure: NativeFailure,
}

/// The sockets of a process, as far as they have been asked for.
#[derive(Debug)]
pub struct SocketProbes {
    pub pid: i32,
    pub fds: Vec<i32>,
    pub next: usize,
    pub sockets: Vec<SocketFdProbe>,
}

impl SocketProbes {
    /// The descriptor that is asked for next.
    pub open spec fn asked(self) -> i32 {
        self.fds@[self.next as int]
    }
}

/// What the look at the sockets of a process does next.
#[derive(Debug)]
pub enum SocketProbeStep {
    /// Ask for the next descriptor.
    Ask(SocketProbes),
    Done(Vec<SocketFdProbe>),
    Fail(SpikeError),
}

/// The look goes on from a place, with the sockets found so far.
pub open spec fn asks_on(
    step: SocketProbeStep,
    pid: i32,
    fds: Seq<i32>,
    next: int,
    sockets: Seq<SocketFdProbe>,
) -> bool {
    match step {
        SocketProbeStep::Ask(probes) => {
            &&& next < fds.len()
            &&& probes.pid == pid
            &&& probes.fds@ == fds
            &&& probes.next == next
            &&& probes.sockets@ == sockets
        },
        SocketProbeStep::Done(found) => next >= fds.len() && found@ == sockets,
        SocketProbeStep::Fail(_) => false,
    }
}

fn ask_on(probes: SocketProbes) -> (step: SocketProbeStep)
    ensures
        asks_on(step, probes.pid, probes.fds@, probes.next as int, probes.sockets@),
{
    if probes.next < probes.fds.len() {
        SocketProbeStep::Ask(probes)
    } else {
        SocketProbeStep::Done(probes.sockets)
    }
}

/// Begins the look at the sockets of a process, from the list of its
/// descriptors and how much of it was written.
pub fn probe_socket_fds(
    pid: i32,
    written: Result<usize, SpikeError>,
    entries: &Vec<(i32, u32)>,
) -> (step: SocketProbeStep)
    ensures
        match written {
            Err(error) => step == SocketProbeStep::Fail(error),
            Ok(written) => asks_on(
                step,
                pid,
                sockets_in(
                    entries@.subrange(0, entries_written(entries@.len(), written as nat) as int),
                ),
                0,
                Seq::empty(),
            ),
        },
{
    match written {
        Err(error) => SocketProbeStep::Fail(error),
        Ok(written) => {
            let sockets: Vec<SocketFdProbe> = Vec::new();
            assert(sockets@ =~= Seq::empty());
            ask_on(SocketProbes { pid, fds: socket_fds(entries, written), next: 0, sockets })
        },
    }
}

/// What a descriptor that was asked for is: a socket with what was written of
/// it, one that is gone, or the end of the look.
pub open spec fn answer_follows(
    probes: SocketProbes,
    answer: SocketAnswer,
    step: SocketProbeStep,
) -> bool {
    let next = probes.next + 1;
    if answer.actual > 0 {
        exists|socket: SocketFdProbe|
            {
                &&& socket.fd == probes.asked()
                &&& socket.native_info@ == if answer.actual < answer.native_info@.len() {
                    answer.native_info@.subrange(0, answer.actual as int)
                } else {
                    answer.native_info@
                }
                &&& #[trigger] asks_on(
                    step,
                    probes.pid,
                    probes.fds@,
                    next,
                    probes.sockets@.push(socket),
                )
            }
    } else if answer.failure.code == Some(EBADF) || answer.failure.code == Some(ENOENT) {
        asks_on(step, probes.pid, probes.fds@, next, probes.sockets@)
    } else {
        step is Fail && meaning(
            "proc_pidfdinfo(PROC_PIDFDSOCKETINFO)"@,
            probes.pid,
            answer.failure,
            step->Fail_0,
        )
    }
}

/// Takes the answer for a descriptor in: a socket is kept, one that is gone in
/// the meantime is passed over, and any other failure ends the look.
pub fn after_socket_answer(probes: SocketProbes, answer: SocketAnswer) -> (step: SocketProbeStep)
    requires
        probes.next < probes.fds@.len(),
    ensures
        answer_follows(probes, answer, step),
{
    let fd: i32 = probes.fds[probes.next];
    let total: usize = probes.fds.len();
    assert(probes.next < total);
    match probe_socket_fd(
        probes.pid,
        fd,
        answer.actual,
        answer.native_info,
        answer.failure,
    ) {
        Err(error) => SocketProbeStep::Fail(error),
        Ok(found) => {
            let mut probes = probes;
            probes.next = probes.next + 1;
            if let Some(socket) = found {
                probes.sockets.push(socket);
            }
            ask_on(probes)
        },
    }
}

/// A process is still the one that it was.
pub fn validate_identity(
    expected: MacProcessIdentity,
    probed: Result<ProcessProbe, SpikeError>,
) -> (result: Result<(), SpikeError>)
    ensures
        match probed {
            Err(error) => result == Err::<(), SpikeError>(error),
            Ok(probe) => if probe.identity == expected {
                result is Ok
            } else {
                result == Err::<(), SpikeError>(
                    SpikeError::IdentityMismatch { identity: expected },
                )
            },
        },
{
    let actual = match probed {
        Ok(probe) => probe.identity,
        Err(error) => return Err(error),
    };
    if actual == expected {
        Ok(())
    } else {
        Err(SpikeError::IdentityMismatch { identity: expected })
    }
}

/// A process that leads its group.
#[derive(Clone, Copy, Debug, PartialEq, Eq, Structural)]
pub struct ManagedProcessGroup {
    pub child: u64,
    pub identity: MacProcessIdentity,
    pub process_group_id: i32,
}

/// A group is the one that a process leads.
fn require_group(expected: i32, group: Result<i32, NativeFailure>, operation: &str, pid: i32) -> (result:
    Result<(), SpikeError>)
    ensures
        match group {
            Err(failure) => result is Err && meaning(operation@, pid, failure, result->Err_0),
            Ok(actual) => if actual == expected {
                result is Ok
            } else {
                result == Err::<(), SpikeError>(
                    SpikeError::ProcessGroupChanged { expected, actual },
                )
            },
        },
{
    match group {
        Ok(actual) => if actual == expected {
            Ok(())
        } else {
            Err(SpikeError::ProcessGroupChanged { expected, actual })
        },
        Err(failure) => Err(map_errno(operation, pid, failure)),
    }
}

/// A signal to a group.
#[derive(Clone, Copy, Debug, PartialEq, Eq, Structural)]
pub struct GroupSignal {
    pub group: i32,
    pub signal: i32,
}

/// The process is still the one that was started, and still leads its group.
pub open spec fn still_leads(
    process: ManagedProcessGroup,
    probed: Result<ProcessProbe, SpikeError>,
    group: Result<i32, NativeFailure>,
) -> bool {
    &&& probed is Ok && probed->Ok_0.identity == process.identity
    &&& group == Ok::<i32, NativeFailure>(process.process_group_id)
}

/// Why it is not, in the order in which it is looked at.
pub open spec fn not_led(
    process: ManagedProcessGroup,
    probed: Result<ProcessProbe, SpikeError>,
    group: Result<i32, NativeFailure>,
    error: SpikeError,
) -> bool {
    match probed {
        Err(refusal) => error == refusal,
        Ok(probe) => if probe.identity != process.identity {
            error == (SpikeError::IdentityMismatch { identity: process.identity })
        } else {
            match group {
                Err(failure) => meaning(
                    "getpgid before signal"@,
                    process.identity.pid,
                    failure,
                    error,
                ),
                Ok(actual) => actual != process.process_group_id && error
                    == (SpikeError::ProcessGroupChanged {
                    expected: process.process_group_id,
                    actual,
                }),
            }
        },
    }
}

impl ManagedProcessGroup {
    /// Takes a process on that was spawned to lead its own group: its handle and
    /// its number. Where it does not lead it, or where it cannot be known again,
    /// the caller ends it.
    pub fn spawn(
        spawned: Result<(u64, i32), String>,
        group: Result<i32, NativeFailure>,
        probed: Result<ProcessProbe, SpikeError>,
    ) -> (result: Result<ManagedProcessGroup, SpikeError>)
        ensures
            match spawned {
                Err(source) => match result {
                    Err(SpikeError::Native { operation, source: words }) => operation@
                        == "spawn with setpgid"@ && words == source,
                    _ => false,
                },
                Ok((child, pid)) => match group {
                    Err(failure) => result is Err && meaning(
                        "getpgid"@,
                        pid,
                        failure,
                        result->Err_0,
                    ),
                    Ok(actual) => if actual != pid {
                        result == Err::<ManagedProcessGroup, SpikeError>(
                            SpikeError::ProcessGroupChanged { expected: pid, actual },
                        )
                    } else {
                        match probed {
                            Err(error) => result == Err::<ManagedProcessGroup, SpikeError>(error),
                            Ok(probe) => result == Ok::<ManagedProcessGroup, SpikeError>(
                                ManagedProcessGroup {
                                    child,
                                    identity: probe.identity,
                                    process_group_id: pid,
                                },
                            ),
                        }
                    },
                },
            },
    {
        let (child, pid): (u64, i32) = match spawned {
            Ok(spawned) => spawned,
            Err(source) => {
                return Err(
                    SpikeError::Native { operation: "spawn with setpgid".to_owned(), source },
                );
            },
        };
        match require_group(pid, group, "getpgid", pid) {
            Ok(_) => {},
            Err(error) => return Err(error),
        }
        match probed {
            Ok(probe) => Ok(
                ManagedProcessGroup { child, identity: probe.identity, process_group_id: pid },
            ),
            Err(error) => Err(error),
        }
    }

    pub fn identity(&self) -> (identity: MacProcessIdentity)
        ensures
            identity == self.identity,
    {
        self.identity
    }

    /// The group that a signal goes to: it is sent only where the process is
    /// still the one that was started, and still leads the group.
    pub fn signal_validated_group(
        &self,
        probed: Result<ProcessProbe, SpikeError>,
        group: Result<i32, NativeFailure>,
    ) -> (result: Result<i32, SpikeError>)
        ensures
            match result {
                Ok(target) => target == self.process_group_id && still_leads(*self, probed, group),
                Err(error) => not_led(*self, probed, group, error),
            },
    {
        match validate_identity(self.identity, probed) {
            Ok(_) => {},
            Err(error) => return Err(error),
        }
        match require_group(
            self.process_group_id,
            group,
            "getpgid before signal",
            self.identity.pid,
        ) {
            Ok(_) => Ok(self.process_group_id),
            Err(error) => Err(error),
        }
    }

    /// The signal that asks the group to end.
    pub fn request_graceful_stop(
        &self,
        probed: Result<ProcessProbe, SpikeError>,
        group: Result<i32, NativeFailure>,
    ) -> (result: Result<GroupSignal, SpikeError>)
        ensures
            match result {
                Ok(sent) => sent == (GroupSignal { group: self.process_group_id, signal: SIGTERM })
                    && still_leads(*self, probed, group),
                Err(error) => not_led(*self, probed, group, error),
            },
    {
        match self.signal_validated_group(probed, group) {
            Ok(group) => Ok(GroupSignal { group, signal: SIGTERM }),
            Err(error) => Err(error),
        }
    }

    /// The signal that ends the group.
    pub fn force_stop(
        &self,
        probed: Result<ProcessProbe, SpikeError>,
        group: Result<i32, NativeFailure>,
    ) -> (result: Result<GroupSignal, SpikeError>)
        ensures
            match result {
                Ok(sent) => sent == (GroupSignal { group: self.process_group_id, signal: SIGKILL })
                    && still_leads(*self, probed, group),
                Err(error) => not_led(*self, probed, group, error),
            },
    {
        match self.signal_validated_group(probed, group) {
            Ok(group) => Ok(GroupSignal { group, signal: SIGKILL }),
            Err(error) => Err(error),
        }
    }

    /// What came of a signal.
    pub fn after_signal(&self, sent: Result<(), NativeFailure>) -> (result: Result<(), SpikeError>)
        ensures
            match sent {
                Ok(_) => result is Ok,
                Err(failure) => result is Err && meaning(
                    "killpg"@,
                    self.identity.pid,
                    failure,
                    result->Err_0,
                ),
            },
    {
        match sent {
            Ok(_) => Ok(()),
            Err(failure) => Err(map_errno("killpg", self.identity.pid, failure)),
        }
    }
}

/// A process number that the operating system gave to another process gets no
/// signal.
pub proof fn lemma_reused_number_gets_no_signal(
    process: ManagedProcessGroup,
    probe: ProcessProbe,
    group: Result<i32, NativeFailure>,
    result: Result<i32, SpikeError>,
)
    requires
        probe.identity != process.identity,
        call_ensures(
            ManagedProcessGroup::signal_validated_group,
            (&process, Ok::<ProcessProbe, SpikeError>(probe), group),
            result,
        ),
    ensures
        result == Err::<i32, SpikeError>(
            SpikeError::IdentityMismatch { identity: process.identity },
        ),
{
}

} // verus!
