//! How a supervisor listens for its peers: on a socket or a pipe that is its
//! own, and only to processes of the same user.

use vstd::prelude::*;

use crate::endpoints::{current_user_sddl, only_user};
use crate::run::Platform;
use crate::paths::{
    below, is_entry_of, is_same_path, join_path, last_name_of, parent_of, same_path,
};
use crate::runtime::{AuthenticatedPeerProcessId, IoFailure};
use crate::text::{encode_utf16, utf16};

verus! {

/// How many connections a socket has at once.
pub const MAX_SOCKET_CONNECTIONS: usize = 16;

/// How many instances a pipe has at once; one of them waits for a peer.
pub const MAX_PIPE_INSTANCES: usize = 16;

/// How many connections a pipe has at once.
pub const MAX_PIPE_CONNECTIONS: usize = 15;

/// How long a handshake may take, in milliseconds.
pub const HANDSHAKE_TIMEOUT_MS: u64 = 5_000;

/// The rights on the socket: for its owner only.
pub const SOCKET_MODE: u32 = 0o600;

/// What can go wrong with the socket of a supervisor.
#[derive(Debug)]
#[allow(inconsistent_fields)]
pub enum MacOsSocketServerError {
    RuntimeRoot(IoFailure),
    RuntimeRootMismatch,
    EndpointOutsideRuntimeRoot,
    InspectStaleEndpoint(IoFailure),
    StaleEndpointSymlink,
    StaleEndpointNotSocket,
    StaleEndpointOwnerMismatch { expected: u32, actual: u32 },
    StaleEndpointChanged,
    RemoveStaleEndpoint(IoFailure),
    Bind(IoFailure),
    InspectBoundEndpoint(IoFailure),
    BoundEndpointNotSocket,
    BoundEndpointOwnerMismatch { expected: u32, actual: u32 },
    RestrictEndpoint(IoFailure),
    BoundEndpointChanged,
    BoundEndpointModeMismatch { mode: u32 },
    Accept(IoFailure),
    PeerInspection(IoFailure),
    PeerProcessInspection(IoFailure),
    InvalidPeerProcessId,
    PeerUserMismatch { expected: u32, actual: u32 },
    HandshakeTimeout,
    Handshake(String),
    GenerationExhausted,
    ConnectionLimitClosed,
}

/// What an error says.
pub open spec fn socket_words(error: MacOsSocketServerError) -> Seq<char> {
    match error {
        MacOsSocketServerError::RuntimeRoot(_) => {
            "resolving the fixed current-user runtime root failed"@
        },
        MacOsSocketServerError::RuntimeRootMismatch => {
            "the instance guard does not own the fixed current-user runtime root"@
        },
        MacOsSocketServerError::EndpointOutsideRuntimeRoot => {
            "the Supervisor socket path is outside the fixed runtime root"@
        },
        MacOsSocketServerError::InspectStaleEndpoint(_) => {
            "inspecting the stale Supervisor socket failed"@
        },
        MacOsSocketServerError::StaleEndpointSymlink => {
            "refusing to remove a stale symbolic link"@
        },
        MacOsSocketServerError::StaleEndpointNotSocket => {
            "refusing to remove a stale path that is not a Unix socket"@
        },
        MacOsSocketServerError::StaleEndpointOwnerMismatch { .. } => {
            "refusing to remove a stale socket owned by another user"@
        },
        MacOsSocketServerError::StaleEndpointChanged => {
            "the stale Supervisor socket changed during inspection"@
        },
        MacOsSocketServerError::RemoveStaleEndpoint(_) => {
            "removing the stale Supervisor socket failed"@
        },
        MacOsSocketServerError::Bind(_) => "binding the Supervisor socket failed"@,
        MacOsSocketServerError::InspectBoundEndpoint(_) => {
            "inspecting the bound Supervisor socket failed"@
        },
        MacOsSocketServerError::BoundEndpointNotSocket => {
            "the bound Supervisor endpoint is not a Unix socket"@
        },
        MacOsSocketServerError::BoundEndpointOwnerMismatch { .. } => {
            "the bound Supervisor socket is owned by another user"@
        },
        MacOsSocketServerError::RestrictEndpoint(_) => {
            "restricting the Supervisor socket to mode 0600 failed"@
        },
        MacOsSocketServerError::BoundEndpointChanged => {
            "the bound Supervisor socket changed while it was being secured"@
        },
        MacOsSocketServerError::BoundEndpointModeMismatch { .. } => {
            "the bound Supervisor socket does not have mode 0600"@
        },
        MacOsSocketServerError::Accept(_) => "accepting a Supervisor socket connection failed"@,
        MacOsSocketServerError::PeerInspection(_) => {
            "the Supervisor socket peer could not be inspected"@
        },
        MacOsSocketServerError::PeerProcessInspection(_) => {
            "the Supervisor socket peer process could not be inspected"@
        },
        MacOsSocketServerError::InvalidPeerProcessId => {
            "the Supervisor socket peer process ID is invalid"@
        },
        MacOsSocketServerError::PeerUserMismatch { .. } => {
            "the Supervisor socket peer belongs to another effective user"@
        },
        MacOsSocketServerError::HandshakeTimeout => "the Supervisor socket handshake timed out"@,
        MacOsSocketServerError::Handshake(_) => "the Supervisor socket handshake failed"@,
        MacOsSocketServerError::GenerationExhausted => {
            "the connection generation counter was exhausted"@
        },
        MacOsSocketServerError::ConnectionLimitClosed => "the connection limit was closed"@,
    }
}

impl MacOsSocketServerError {
    pub fn message(&self) -> (message: &'static str)
        ensures
            message@ == socket_words(*self),
    {
        match self {
            MacOsSocketServerError::RuntimeRoot(_) => {
                "resolving the fixed current-user runtime root failed"
            },
            MacOsSocketServerError::RuntimeRootMismatch => {
                "the instance guard does not own the fixed current-user runtime root"
            },
            MacOsSocketServerError::EndpointOutsideRuntimeRoot => {
                "the Supervisor socket path is outside the fixed runtime root"
            },
            MacOsSocketServerError::InspectStaleEndpoint(_) => {
                "inspecting the stale Supervisor socket failed"
            },
            MacOsSocketServerError::StaleEndpointSymlink => {
                "refusing to remove a stale symbolic link"
            },
            MacOsSocketServerError::StaleEndpointNotSocket => {
                "refusing to remove a stale path that is not a Unix socket"
            },
            MacOsSocketServerError::StaleEndpointOwnerMismatch { .. } => {
                "refusing to remove a stale socket owned by another user"
            },
            MacOsSocketServerError::StaleEndpointChanged => {
                "the stale Supervisor socket changed during inspection"
            },
            MacOsSocketServerError::RemoveStaleEndpoint(_) => {
                "removing the stale Supervisor socket failed"
            },
            MacOsSocketServerError::Bind(_) => "binding the Supervisor socket failed",
            MacOsSocketServerError::InspectBoundEndpoint(_) => {
                "inspecting the bound Supervisor socket failed"
            },
            MacOsSocketServerError::BoundEndpointNotSocket => {
                "the bound Supervisor endpoint is not a Unix socket"
            },
            MacOsSocketServerError::BoundEndpointOwnerMismatch { .. } => {
                "the bound Supervisor socket is owned by another user"
            },
            MacOsSocketServerError::RestrictEndpoint(_) => {
                "restricting the Supervisor socket to mode 0600 failed"
            },
            MacOsSocketServerError::BoundEndpointChanged => {
                "the bound Supervisor socket changed while it was being secured"
            },
            MacOsSocketServerError::BoundEndpointModeMismatch { .. } => {
                "the bound Supervisor socket does not have mode 0600"
            },
            MacOsSocketServerError::Accept(_) => "accepting a Supervisor socket connection failed",
            MacOsSocketServerError::PeerInspection(_) => {
                "the Supervisor socket peer could not be inspected"
            },
            MacOsSocketServerError::PeerProcessInspection(_) => {
                "the Supervisor socket peer process could not be inspected"
            },
            MacOsSocketServerError::InvalidPeerProcessId => {
                "the Supervisor socket peer process ID is invalid"
            },
            MacOsSocketServerError::PeerUserMismatch { .. } => {
                "the Supervisor socket peer belongs to another effective user"
            },
            MacOsSocketServerError::HandshakeTimeout => "the Supervisor socket handshake timed out",
            MacOsSocketServerError::Handshake(_) => "the Supervisor socket handshake failed",
            MacOsSocketServerError::GenerationExhausted => {
                "the connection generation counter was exhausted"
            },
            MacOsSocketServerError::ConnectionLimitClosed => "the connection limit was closed",
        }
    }
}

/// What the operating system says of an entry of a directory.
#[derive(Clone, Copy, Debug, PartialEq, Eq, Structural)]
pub struct EntryFacts {
    pub is_symlink: bool,
    pub is_socket: bool,
    pub device: u64,
    pub inode: u64,
    pub uid: u32,
    pub mode: u32,
}

/// A socket, by where it stands and whose it is.
#[derive(Clone, Copy, Debug, PartialEq, Eq, Structural)]
pub struct SocketIdentity {
    pub device: u64,
    pub inode: u64,
    pub uid: u32,
    pub mode: u32,
}

/// The socket that an entry is.
pub open spec fn identity_of(facts: EntryFacts) -> SocketIdentity {
    SocketIdentity {
        device: facts.device,
        inode: facts.inode,
        uid: facts.uid,
        mode: facts.mode & 0o777,
    }
}

impl SocketIdentity {
    /// Two sockets are one.
    pub open spec fn is_same(self, other: SocketIdentity) -> bool {
        self.device == other.device && self.inode == other.inode && self.uid == other.uid
    }

    /// An entry is this socket.
    pub open spec fn is_entry(self, facts: EntryFacts) -> bool {
        facts.is_socket && self.is_same(identity_of(facts))
    }

    pub fn from_metadata(facts: EntryFacts) -> (identity: Self)
        ensures
            identity == identity_of(facts),
    {
        SocketIdentity {
            device: facts.device,
            inode: facts.inode,
            uid: facts.uid,
            mode: facts.mode & 0o777,
        }
    }

    pub fn same_object(self, other: Self) -> (same: bool)
        ensures
            same == self.is_same(other),
    {
        self.device == other.device && self.inode == other.inode && self.uid == other.uid
    }

    pub fn matches_metadata(self, facts: EntryFacts) -> (matches: bool)
        ensures
            matches == self.is_entry(facts),
    {
        facts.is_socket && facts.device == self.device && facts.inode == self.inode && facts.uid
            == self.uid
    }

    /// Whether a socket that is given up is removed: only where it still stands
    /// there.
    pub fn remove_if_matching(self, facts: Result<EntryFacts, IoFailure>) -> (remove: bool)
        ensures
            remove == (facts is Ok && self.is_entry(facts->Ok_0)),
    {
        match facts {
            Ok(facts) => self.matches_metadata(facts),
            Err(_) => false,
        }
    }
}

/// The socket of a supervisor: below the root that it has locked.
pub fn socket_endpoint(fixed_root: Result<String, IoFailure>, guarded_root: &str) -> (result: Result<
    String,
    MacOsSocketServerError,
>)
    ensures
        match fixed_root {
            Err(failure) => result == Err::<String, MacOsSocketServerError>(
                MacOsSocketServerError::RuntimeRoot(failure),
            ),
            Ok(root) => if is_same_path(Platform::MacOs, guarded_root@, root@) {
                result is Ok && result->Ok_0@ == below(
                    Platform::MacOs,
                    root@,
                    "supervisor.sock"@,
                )
            } else {
                result == Err::<String, MacOsSocketServerError>(
                    MacOsSocketServerError::RuntimeRootMismatch,
                )
            },
        },
{
    let root = match fixed_root {
        Ok(root) => root,
        Err(failure) => return Err(MacOsSocketServerError::RuntimeRoot(failure)),
    };
    if !same_path(Platform::MacOs, guarded_root, root.as_str()) {
        return Err(MacOsSocketServerError::RuntimeRootMismatch);
    }
    Ok(join_path(Platform::MacOs, root.as_str(), "supervisor.sock"))
}

/// Whether an endpoint is the socket directly below a root.
pub open spec fn is_socket_of(root: Seq<char>, endpoint: Seq<char>) -> bool {
    let parent = parent_of(Platform::MacOs, endpoint);
    &&& parent is Some
    &&& is_same_path(Platform::MacOs, parent->0, root)
    &&& last_name_of(Platform::MacOs, endpoint) == Some("supervisor.sock"@)
}

/// An endpoint is the socket below a root.
pub fn validate_endpoint_path(root: &str, endpoint: &str) -> (result: Result<
    (),
    MacOsSocketServerError,
>)
    ensures
        result == if is_socket_of(root@, endpoint@) {
            Ok::<(), MacOsSocketServerError>(())
        } else {
            Err(MacOsSocketServerError::EndpointOutsideRuntimeRoot)
        },
{
    if is_entry_of(Platform::MacOs, endpoint, root, "supervisor.sock") {
        Ok(())
    } else {
        Err(MacOsSocketServerError::EndpointOutsideRuntimeRoot)
    }
}

/// What a look at what stands in the way comes to.
#[derive(Debug)]
pub enum StaleStep {
    /// Nothing stands in the way.
    Absent,
    /// It is a socket of the user: look once more before it is removed.
    LookAgain(SocketIdentity),
    /// It is still the same: remove it.
    Remove,
    Fail(MacOsSocketServerError),
}

/// Looks at what stands where the socket is to be. Only a socket of the user is
/// removed, and no link is followed.
pub fn remove_stale_endpoint(facts: Result<EntryFacts, IoFailure>, expected_uid: u32) -> (step:
    StaleStep)
    ensures
        match facts {
            Err(failure) => if failure.kind@ == "NotFound"@ {
                step is Absent
            } else {
                step == StaleStep::Fail(MacOsSocketServerError::InspectStaleEndpoint(failure))
            },
            Ok(facts) => if facts.is_symlink {
                step == StaleStep::Fail(MacOsSocketServerError::StaleEndpointSymlink)
            } else if !facts.is_socket {
                step == StaleStep::Fail(MacOsSocketServerError::StaleEndpointNotSocket)
            } else if facts.uid != expected_uid {
                step == StaleStep::Fail(
                    MacOsSocketServerError::StaleEndpointOwnerMismatch {
                        expected: expected_uid,
                        actual: facts.uid,
                    },
                )
            } else {
                step == StaleStep::LookAgain(identity_of(facts))
            },
        },
{
    let facts = match facts {
        Ok(facts) => facts,
        Err(failure) => {
            if failure.is("NotFound") {
                return StaleStep::Absent;
            }
            return StaleStep::Fail(MacOsSocketServerError::InspectStaleEndpoint(failure));
        },
    };
    if facts.is_symlink {
        return StaleStep::Fail(MacOsSocketServerError::StaleEndpointSymlink);
    }
    if !facts.is_socket {
        return StaleStep::Fail(MacOsSocketServerError::StaleEndpointNotSocket);
    }
    if facts.uid != expected_uid {
        return StaleStep::Fail(
            MacOsSocketServerError::StaleEndpointOwnerMismatch {
                expected: expected_uid,
                actual: facts.uid,
            },
        );
    }
    StaleStep::LookAgain(SocketIdentity::from_metadata(facts))
}

/// Looks once more before a stale socket is removed: it must be the same.
pub fn confirm_stale_endpoint(
    identity: SocketIdentity,
    current: Result<EntryFacts, IoFailure>,
) -> (step: StaleStep)
    ensures
        match current {
            Err(failure) => step == StaleStep::Fail(
                MacOsSocketServerError::InspectStaleEndpoint(failure),
            ),
            Ok(facts) => if identity.is_entry(facts) {
                step is Remove
            } else {
                step == StaleStep::Fail(MacOsSocketServerError::StaleEndpointChanged)
            },
        },
{
    match current {
        Err(failure) => StaleStep::Fail(MacOsSocketServerError::InspectStaleEndpoint(failure)),
        Ok(facts) => if identity.matches_metadata(facts) {
            StaleStep::Remove
        } else {
            StaleStep::Fail(MacOsSocketServerError::StaleEndpointChanged)
        },
    }
}

/// The socket that was bound: it is a socket, and the user's.
pub fn inspect_bound_endpoint(facts: Result<EntryFacts, IoFailure>, expected_uid: u32) -> (result:
    Result<SocketIdentity, MacOsSocketServerError>)
    ensures
        match facts {
            Err(failure) => result == Err::<SocketIdentity, MacOsSocketServerError>(
                MacOsSocketServerError::InspectBoundEndpoint(failure),
            ),
            Ok(facts) => if !facts.is_socket {
                result == Err::<SocketIdentity, MacOsSocketServerError>(
                    MacOsSocketServerError::BoundEndpointNotSocket,
                )
            } else if facts.uid != expected_uid {
                result == Err::<SocketIdentity, MacOsSocketServerError>(
                    MacOsSocketServerError::BoundEndpointOwnerMismatch {
                        expected: expected_uid,
                        actual: facts.uid,
                    },
                )
            } else {
                result == Ok::<SocketIdentity, MacOsSocketServerError>(identity_of(facts))
            },
        },
{
    let facts = match facts {
        Ok(facts) => facts,
        Err(failure) => return Err(MacOsSocketServerError::InspectBoundEndpoint(failure)),
    };
    if !facts.is_socket {
        return Err(MacOsSocketServerError::BoundEndpointNotSocket);
    }
    if facts.uid != expected_uid {
        return Err(
            MacOsSocketServerError::BoundEndpointOwnerMismatch {
                expected: expected_uid,
                actual: facts.uid,
            },
        );
    }
    Ok(SocketIdentity::from_metadata(facts))
}

/// A socket that cannot be used, and which one to remove where it still stands
/// there.
#[derive(Debug)]
pub struct BindFailure {
    pub error: MacOsSocketServerError,
    pub remove: Option<SocketIdentity>,
}

/// The socket that is listened on, after its rights were set and it was looked
/// at again: it is the one that was bound, and private.
pub fn secure_bound_endpoint(
    initial: SocketIdentity,
    restricted: Result<(), IoFailure>,
    second: Result<SocketIdentity, MacOsSocketServerError>,
) -> (result: Result<SocketIdentity, BindFailure>)
    ensures
        match restricted {
            Err(failure) => result == Err::<SocketIdentity, BindFailure>(
                BindFailure {
                    error: MacOsSocketServerError::RestrictEndpoint(failure),
                    remove: Some(initial),
                },
            ),
            Ok(_) => match second {
                Err(error) => result == Err::<SocketIdentity, BindFailure>(
                    BindFailure { error, remove: Some(initial) },
                ),
                Ok(identity) => if !identity.is_same(initial) {
                    result == Err::<SocketIdentity, BindFailure>(
                        BindFailure {
                            error: MacOsSocketServerError::BoundEndpointChanged,
                            remove: None,
                        },
                    )
                } else if identity.mode != SOCKET_MODE {
                    result == Err::<SocketIdentity, BindFailure>(
                        BindFailure {
                            error: MacOsSocketServerError::BoundEndpointModeMismatch {
                                mode: identity.mode,
                            },
                            remove: Some(identity),
                        },
                    )
                } else {
                    result == Ok::<SocketIdentity, BindFailure>(identity)
                },
            },
        },
        result is Ok ==> result->Ok_0.is_same(initial) && result->Ok_0.mode == SOCKET_MODE,
{
    match restricted {
        Ok(_) => {},
        Err(failure) => return Err(
            BindFailure {
                error: MacOsSocketServerError::RestrictEndpoint(failure),
                remove: Some(initial),
            },
        ),
    }
    let identity = match second {
        Ok(identity) => identity,
        Err(error) => return Err(BindFailure { error, remove: Some(initial) }),
    };
    if !identity.same_object(initial) {
        return Err(
            BindFailure { error: MacOsSocketServerError::BoundEndpointChanged, remove: None },
        );
    }
    if identity.mode != SOCKET_MODE {
        return Err(
            BindFailure {
                error: MacOsSocketServerError::BoundEndpointModeMismatch { mode: identity.mode },
                remove: Some(identity),
            },
        );
    }
    Ok(identity)
}

/// The process of a peer, as the option of the socket gives it.
pub fn peer_pid(
    option: Result<(i32, usize), IoFailure>,
    expected_length: usize,
) -> (result: Result<i32, IoFailure>)
    ensures
        match option {
            Err(failure) => result == Err::<i32, IoFailure>(failure),
            Ok((process_id, length)) => if length == expected_length {
                result == Ok::<i32, IoFailure>(process_id)
            } else {
                result is Err && result->Err_0.kind@ == "InvalidData"@ && result->Err_0.words@
                    == "LOCAL_PEERPID returned an invalid value length"@
            },
        },
{
    let (process_id, length) = match option {
        Ok(option) => option,
        Err(failure) => return Err(failure),
    };
    if length != expected_length {
        return Err(
            IoFailure::new("InvalidData", "LOCAL_PEERPID returned an invalid value length"),
        );
    }
    Ok(process_id)
}

/// What came of a handshake.
#[derive(Debug)]
pub enum HandshakeReply {
    Timeout,
    Failed(String),
    Connected,
}

/// A socket that is listened on: which one it is, and how many connections
/// there have been.
#[derive(Clone, Copy, Debug, PartialEq, Eq, Structural)]
pub struct MacOsUnixSocketListener {
    pub identity: SocketIdentity,
    pub generation: u64,
    pub live: usize,
}

/// Why a peer is not listened to.
pub open spec fn peer_refusal(
    expected_uid: u32,
    peer_uid: Result<u32, IoFailure>,
    process_id: Result<i32, IoFailure>,
    own_process_id: u32,
    generation: u64,
) -> Option<MacOsSocketServerError> {
    match peer_uid {
        Err(failure) => Some(MacOsSocketServerError::PeerInspection(failure)),
        Ok(actual) => if actual != expected_uid {
            Some(MacOsSocketServerError::PeerUserMismatch { expected: expected_uid, actual })
        } else {
            match process_id {
                Err(failure) => Some(MacOsSocketServerError::PeerProcessInspection(failure)),
                Ok(number) => if number <= 0 || number == own_process_id {
                    Some(MacOsSocketServerError::InvalidPeerProcessId)
                } else if generation == u64::MAX {
                    Some(MacOsSocketServerError::GenerationExhausted)
                } else {
                    None
                },
            }
        },
    }
}

impl MacOsUnixSocketListener {
    /// There are never more connections than there may be.
    pub open spec fn wf(self) -> bool {
        self.live <= MAX_SOCKET_CONNECTIONS
    }

    pub fn listen(identity: SocketIdentity) -> (listener: Self)
        ensures
            listener == (MacOsUnixSocketListener { identity, generation: 0, live: 0 }),
            listener.wf(),
    {
        MacOsUnixSocketListener { identity, generation: 0, live: 0 }
    }

    /// Looks at a peer that has connected: it is of the same user and not the
    /// supervisor itself. The number is the one that its connection will have.
    pub fn check_peer(
        &self,
        peer_uid: Result<u32, IoFailure>,
        process_id: Result<i32, IoFailure>,
        own_process_id: u32,
    ) -> (result: Result<(AuthenticatedPeerProcessId, u64), MacOsSocketServerError>)
        ensures
            match peer_refusal(
                self.identity.uid,
                peer_uid,
                process_id,
                own_process_id,
                self.generation,
            ) {
                Some(error) => result is Err && result->Err_0 == error,
                None => {
                    &&& result is Ok
                    &&& result->Ok_0.0.number() == process_id->Ok_0
                    &&& result->Ok_0.1 == self.generation + 1
                },
            },
    {
        let expected: u32 = self.identity.uid;
        let actual: u32 = match peer_uid {
            Ok(actual) => actual,
            Err(failure) => return Err(MacOsSocketServerError::PeerInspection(failure)),
        };
        if actual != expected {
            return Err(MacOsSocketServerError::PeerUserMismatch { expected, actual });
        }
        let number: i32 = match process_id {
            Ok(number) => number,
            Err(failure) => return Err(MacOsSocketServerError::PeerProcessInspection(failure)),
        };
        if number < 0 {
            return Err(MacOsSocketServerError::InvalidPeerProcessId);
        }
        let peer = match AuthenticatedPeerProcessId::from_transport(number as u32, own_process_id) {
            Some(peer) => peer,
            None => return Err(MacOsSocketServerError::InvalidPeerProcessId),
        };
        if self.generation == u64::MAX {
            return Err(MacOsSocketServerError::GenerationExhausted);
        }
        Ok((peer, self.generation + 1))
    }

    /// Takes in what came of the handshake. Only a peer that is known counts.
    pub fn after_handshake(&mut self, reply: HandshakeReply) -> (result: Result<
        u64,
        MacOsSocketServerError,
    >)
        requires
            old(self).generation < u64::MAX,
        ensures
            final(self).identity == old(self).identity,
            final(self).live == old(self).live,
            match reply {
                HandshakeReply::Timeout => result == Err::<u64, MacOsSocketServerError>(
                    MacOsSocketServerError::HandshakeTimeout,
                ) && final(self).generation == old(self).generation,
                HandshakeReply::Failed(source) => result == Err::<u64, MacOsSocketServerError>(
                    MacOsSocketServerError::Handshake(source),
                ) && final(self).generation == old(self).generation,
                HandshakeReply::Connected => {
                    &&& final(self).generation == old(self).generation + 1
                    &&& result == Ok::<u64, MacOsSocketServerError>(final(self).generation)
                },
            },
    {
        match reply {
            HandshakeReply::Timeout => Err(MacOsSocketServerError::HandshakeTimeout),
            HandshakeReply::Failed(source) => Err(MacOsSocketServerError::Handshake(source)),
            HandshakeReply::Connected => {
                self.generation = self.generation + 1;
                Ok(self.generation)
            },
        }
    }
}

/// Nothing of another user is removed: what is removed before a socket is bound
/// was a socket of the user at the first look, and is the same at the second.
pub proof fn lemma_only_own_socket_is_removed(
    first: Result<EntryFacts, IoFailure>,
    second: Result<EntryFacts, IoFailure>,
    expected_uid: u32,
    step: StaleStep,
    confirmed: StaleStep,
)
    requires
        call_ensures(remove_stale_endpoint, (first, expected_uid), step),
        step is LookAgain,
        call_ensures(confirm_stale_endpoint, (step->LookAgain_0, second), confirmed),
        confirmed is Remove,
    ensures
        first is Ok && second is Ok,
        second->Ok_0.is_socket,
        second->Ok_0.uid == expected_uid,
        second->Ok_0.device == first->Ok_0.device,
        second->Ok_0.inode == first->Ok_0.inode,
{
}

/// What can go wrong with the pipe of a supervisor.
#[derive(Debug)]
pub enum WindowsPipeServerError {
    Identity(String),
    EndpointOccupied,
    CreateInstance(IoFailure),
    Accept(IoFailure),
    ClientSessionInspection(String),
    ClientSessionMismatch,
    ClientProcessInspection(String),
    InvalidClientProcessId,
    HandshakeTimeout,
    Handshake(String),
    GenerationExhausted,
    ConnectionLimitClosed,
    PendingInstanceUnavailable,
    SecurityDescriptor(String),
    InvalidSddl,
}

/// What an error says.
pub open spec fn pipe_words(error: WindowsPipeServerError) -> Seq<char> {
    match error {
        WindowsPipeServerError::Identity(words) => words@,
        WindowsPipeServerError::EndpointOccupied => {
            "the Supervisor pipe endpoint is already occupied"@
        },
        WindowsPipeServerError::CreateInstance(_) => {
            "creating a Supervisor pipe instance failed"@
        },
        WindowsPipeServerError::Accept(_) => "accepting a Supervisor pipe connection failed"@,
        WindowsPipeServerError::ClientSessionInspection(_) => {
            "the Named Pipe client session could not be verified"@
        },
        WindowsPipeServerError::ClientSessionMismatch => {
            "the Named Pipe client belongs to another login session"@
        },
        WindowsPipeServerError::ClientProcessInspection(_) => {
            "the Named Pipe client process could not be verified"@
        },
        WindowsPipeServerError::InvalidClientProcessId => {
            "the Named Pipe client process ID is invalid"@
        },
        WindowsPipeServerError::HandshakeTimeout => "the Supervisor pipe handshake timed out"@,
        WindowsPipeServerError::Handshake(_) => "the Supervisor pipe handshake failed"@,
        WindowsPipeServerError::GenerationExhausted => {
            "the connection generation counter was exhausted"@
        },
        WindowsPipeServerError::ConnectionLimitClosed => "the connection limit was closed"@,
        WindowsPipeServerError::PendingInstanceUnavailable => {
            "the pending Named Pipe instance is unavailable"@
        },
        WindowsPipeServerError::SecurityDescriptor(_) => {
            "constructing the current-user pipe DACL failed"@
        },
        WindowsPipeServerError::InvalidSddl => {
            "the current-user SID cannot be represented in SDDL"@
        },
    }
}

impl WindowsPipeServerError {
    pub fn message(&self) -> (message: String)
        ensures
            message@ == pipe_words(*self),
    {
        let words = match self {
            WindowsPipeServerError::Identity(words) => words.as_str(),
            WindowsPipeServerError::EndpointOccupied => {
                "the Supervisor pipe endpoint is already occupied"
            },
            WindowsPipeServerError::CreateInstance(_) => {
                "creating a Supervisor pipe instance failed"
            },
            WindowsPipeServerError::Accept(_) => "accepting a Supervisor pipe connection failed",
            WindowsPipeServerError::ClientSessionInspection(_) => {
                "the Named Pipe client session could not be verified"
            },
            WindowsPipeServerError::ClientSessionMismatch => {
                "the Named Pipe client belongs to another login session"
            },
            WindowsPipeServerError::ClientProcessInspection(_) => {
                "the Named Pipe client process could not be verified"
            },
            WindowsPipeServerError::InvalidClientProcessId => {
                "the Named Pipe client process ID is invalid"
            },
            WindowsPipeServerError::HandshakeTimeout => "the Supervisor pipe handshake timed out",
            WindowsPipeServerError::Handshake(_) => "the Supervisor pipe handshake failed",
            WindowsPipeServerError::GenerationExhausted => {
                "the connection generation counter was exhausted"
            },
            WindowsPipeServerError::ConnectionLimitClosed => "the connection limit was closed",
            WindowsPipeServerError::PendingInstanceUnavailable => {
                "the pending Named Pipe instance is unavailable"
            },
            WindowsPipeServerError::SecurityDescriptor(_) => {
                "constructing the current-user pipe DACL failed"
            },
            WindowsPipeServerError::InvalidSddl => {
                "the current-user SID cannot be represented in SDDL"
            },
        };
        words.to_owned()
    }
}

/// A failure says that another holds the pipe.
pub open spec fn is_occupied(code: Option<i32>) -> bool {
    code == Some(5i32) || code == Some(231i32)
}

pub fn is_occupied_error(code: Option<i32>) -> (occupied: bool)
    ensures
        occupied == is_occupied(code),
{
    match code {
        Some(code) => code == 5 || code == 231,
        None => false,
    }
}

/// The list of rights of a pipe, for the operating system: everything for the
/// user and nothing for others.
pub fn pipe_sddl(sid: &str) -> (result: Result<Vec<u16>, WindowsPipeServerError>)
    ensures
        if utf16(only_user(sid@)).contains(0u16) {
            result == Err::<Vec<u16>, WindowsPipeServerError>(WindowsPipeServerError::InvalidSddl)
        } else {
            result is Ok && result->Ok_0@ == utf16(only_user(sid@)).push(0u16)
        },
{
    let sddl = current_user_sddl(sid);
    match crate::job_object::wide_nul(encode_utf16(sddl.as_str()), "sddl") {
        Ok(units) => Ok(units),
        Err(_) => Err(WindowsPipeServerError::InvalidSddl),
    }
}

/// A pipe that is listened on: the instance that waits for a peer, the session
/// of the user, how many connections there have been, and how many there are.
#[derive(Clone, Copy, Debug, PartialEq, Eq, Structural)]
pub struct WindowsNamedPipeListener {
    pub pending: Option<u64>,
    pub session_id: u32,
    pub generation: u64,
    pub live: usize,
}

/// Why a peer is not listened to.
pub open spec fn client_refusal(
    session_id: u32,
    connected: Result<(), IoFailure>,
    client_session: Result<u32, String>,
    client_process: Result<u32, String>,
    own_process_id: u32,
) -> Option<WindowsPipeServerError> {
    match connected {
        Err(failure) => Some(WindowsPipeServerError::Accept(failure)),
        Ok(_) => match client_session {
            Err(source) => Some(WindowsPipeServerError::ClientSessionInspection(source)),
            Ok(session) => if session != session_id {
                Some(WindowsPipeServerError::ClientSessionMismatch)
            } else {
                match client_process {
                    Err(source) => Some(WindowsPipeServerError::ClientProcessInspection(source)),
                    Ok(process_id) => if process_id == 0 || process_id == own_process_id {
                        Some(WindowsPipeServerError::InvalidClientProcessId)
                    } else {
                        None
                    },
                }
            },
        },
    }
}

impl WindowsNamedPipeListener {
    /// There are never more connections than there may be: one instance is left
    /// for the next peer.
    pub open spec fn wf(self) -> bool {
        self.live <= MAX_PIPE_CONNECTIONS
    }

    /// Begins to listen on the first instance of the pipe.
    pub fn bind(session_id: u32, created: Result<u64, (Option<i32>, IoFailure)>) -> (result: Result<
        Self,
        WindowsPipeServerError,
    >)
        ensures
            match created {
                Ok(instance) => result == Ok::<Self, WindowsPipeServerError>(
                    WindowsNamedPipeListener {
                        pending: Some(instance),
                        session_id,
                        generation: 0,
                        live: 0,
                    },
                ),
                Err((code, failure)) => result == Err::<Self, WindowsPipeServerError>(
                    if is_occupied(code) {
                        WindowsPipeServerError::EndpointOccupied
                    } else {
                        WindowsPipeServerError::CreateInstance(failure)
                    },
                ),
            },
    {
        match created {
            Ok(instance) => Ok(
                WindowsNamedPipeListener {
                    pending: Some(instance),
                    session_id,
                    generation: 0,
                    live: 0,
                },
            ),
            Err((code, failure)) => if is_occupied_error(code) {
                Err(WindowsPipeServerError::EndpointOccupied)
            } else {
                Err(WindowsPipeServerError::CreateInstance(failure))
            },
        }
    }

    /// Whether an instance has to be created: none waits for a peer.
    pub fn needs_instance(&self) -> (needs: bool)
        ensures
            needs == (self.pending is None),
    {
        self.pending.is_none()
    }

    /// Takes in a new instance where none waits for a peer, and does nothing
    /// where one does.
    pub fn ensure_pending_instance(&mut self, created: Result<u64, IoFailure>) -> (result: Result<
        (),
        WindowsPipeServerError,
    >)
        ensures
            if old(self).pending is Some {
                result is Ok && *final(self) == *old(self)
            } else {
                match created {
                    Ok(instance) => result is Ok && *final(self) == (WindowsNamedPipeListener {
                        pending: Some(instance),
                        ..*old(self)
                    }),
                    Err(failure) => result == Err::<(), WindowsPipeServerError>(
                        WindowsPipeServerError::CreateInstance(failure),
                    ) && *final(self) == *old(self),
                }
            },
    {
        if self.pending.is_some() {
            return Ok(());
        }
        match created {
            Ok(instance) => {
                self.pending = Some(instance);
                Ok(())
            },
            Err(failure) => Err(WindowsPipeServerError::CreateInstance(failure)),
        }
    }

    /// Looks at a peer that has connected: it is in the same session and not
    /// the supervisor itself.
    pub fn check_client(
        &self,
        connected: Result<(), IoFailure>,
        client_session: Result<u32, String>,
        client_process: Result<u32, String>,
        own_process_id: u32,
    ) -> (result: Result<AuthenticatedPeerProcessId, WindowsPipeServerError>)
        ensures
            match client_refusal(
                self.session_id,
                connected,
                client_session,
                client_process,
                own_process_id,
            ) {
                Some(error) => result is Err && result->Err_0 == error,
                None => result is Ok && result->Ok_0.number() == client_process->Ok_0,
            },
    {
        match connected {
            Ok(_) => {},
            Err(failure) => return Err(WindowsPipeServerError::Accept(failure)),
        }
        let session: u32 = match client_session {
            Ok(session) => session,
            Err(source) => return Err(WindowsPipeServerError::ClientSessionInspection(source)),
        };
        if session != self.session_id {
            return Err(WindowsPipeServerError::ClientSessionMismatch);
        }
        let process_id: u32 = match client_process {
            Ok(process_id) => process_id,
            Err(source) => return Err(WindowsPipeServerError::ClientProcessInspection(source)),
        };
        match AuthenticatedPeerProcessId::from_transport(process_id, own_process_id) {
            Some(peer) => Ok(peer),
            None => Err(WindowsPipeServerError::InvalidClientProcessId),
        }
    }

    /// Takes the instance with its peer out, and puts a new one in its place.
    pub fn take_connected_and_replenish(&mut self, created: Result<u64, IoFailure>) -> (result:
        Result<u64, WindowsPipeServerError>)
        ensures
            final(self).session_id == old(self).session_id,
            final(self).generation == old(self).generation,
            final(self).live == old(self).live,
            match old(self).pending {
                None => result == Err::<u64, WindowsPipeServerError>(
                    WindowsPipeServerError::PendingInstanceUnavailable,
                ) && final(self).pending is None,
                Some(connected) => match created {
                    Ok(instance) => result == Ok::<u64, WindowsPipeServerError>(connected)
                        && final(self).pending == Some(instance),
                    Err(failure) => result == Err::<u64, WindowsPipeServerError>(
                        WindowsPipeServerError::CreateInstance(failure),
                    ) && final(self).pending is None,
                },
            },
    {
        let connected: u64 = match self.pending {
            Some(connected) => connected,
            None => return Err(WindowsPipeServerError::PendingInstanceUnavailable),
        };
        self.pending = None;
        match created {
            Ok(instance) => {
                self.pending = Some(instance);
                Ok(connected)
            },
            Err(failure) => Err(WindowsPipeServerError::CreateInstance(failure)),
        }
    }

    /// Turns a peer away: its instance is replaced, and what stands in the way
    /// of that is what is answered.
    pub fn reject_connected_instance(
        &mut self,
        created: Result<u64, IoFailure>,
        refusal: WindowsPipeServerError,
    ) -> (error: WindowsPipeServerError)
        ensures
            final(self).session_id == old(self).session_id,
            final(self).generation == old(self).generation,
            final(self).live == old(self).live,
            match old(self).pending {
                None => error == WindowsPipeServerError::PendingInstanceUnavailable && final(self).pending is None,
                Some(connected) => match created {
                    Ok(instance) => error == refusal && final(self).pending == Some(instance),
                    Err(failure) => error == WindowsPipeServerError::CreateInstance(failure)
                        && final(self).pending is None,
                },
            },
    {
        match self.take_connected_and_replenish(created) {
            Ok(_) => refusal,
            Err(error) => error,
        }
    }

    /// The number that the next connection will have.
    pub fn next_generation(&self) -> (result: Result<u64, WindowsPipeServerError>)
        ensures
            if self.generation == u64::MAX {
                result == Err::<u64, WindowsPipeServerError>(
                    WindowsPipeServerError::GenerationExhausted,
                )
            } else {
                result is Ok && result->Ok_0 == self.generation + 1
            },
    {
        if self.generation == u64::MAX {
            Err(WindowsPipeServerError::GenerationExhausted)
        } else {
            Ok(self.generation + 1)
        }
    }

    /// Takes in what came of the handshake. Only a peer that is known counts.
    pub fn after_handshake(&mut self, reply: HandshakeReply) -> (result: Result<
        u64,
        WindowsPipeServerError,
    >)
        requires
            old(self).generation < u64::MAX,
        ensures
            final(self).session_id == old(self).session_id,
            final(self).pending == old(self).pending,
            final(self).live == old(self).live,
            match reply {
                HandshakeReply::Timeout => result == Err::<u64, WindowsPipeServerError>(
                    WindowsPipeServerError::HandshakeTimeout,
                ) && final(self).generation == old(self).generation,
                HandshakeReply::Failed(source) => result == Err::<u64, WindowsPipeServerError>(
                    WindowsPipeServerError::Handshake(source),
                ) && final(self).generation == old(self).generation,
                HandshakeReply::Connected => {
                    &&& final(self).generation == old(self).generation + 1
                    &&& result == Ok::<u64, WindowsPipeServerError>(final(self).generation)
                },
            },
    {
        match reply {
            HandshakeReply::Timeout => Err(WindowsPipeServerError::HandshakeTimeout),
            HandshakeReply::Failed(source) => Err(WindowsPipeServerError::Handshake(source)),
            HandshakeReply::Connected => {
                self.generation = self.generation + 1;
                Ok(self.generation)
            },
        }
    }
}

} // verus!
