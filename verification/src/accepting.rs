//! Taking a peer on: from its connection to the handshake, with no more
//! connections at once than there may be.

use vstd::prelude::*;

use crate::runtime::{AuthenticatedPeerProcessId, IoFailure};
use crate::transport::{
    client_refusal, peer_refusal, HandshakeReply, MacOsSocketServerError,
    MacOsUnixSocketListener, WindowsNamedPipeListener, WindowsPipeServerError,
    MAX_PIPE_CONNECTIONS, MAX_SOCKET_CONNECTIONS,
};

verus! {

/// Where the acceptance of a peer on a pipe stands: what is to be done next.
#[derive(Debug)]
pub enum PipeStep {
    /// Create an instance for the peer to connect to.
    CreateInstance,
    /// Wait for a peer, and see who it is.
    Connect,
    /// Turn the peer away, and create an instance for the next one.
    Reject(WindowsPipeServerError),
    /// Create an instance for the next peer.
    Replenish(AuthenticatedPeerProcessId),
    /// Shake hands with the peer on an instance, for the connection of a number.
    Handshake { instance: u64, peer: AuthenticatedPeerProcessId, generation: u64 },
    Accepted { instance: u64, peer: AuthenticatedPeerProcessId, generation: u64 },
    Refused(WindowsPipeServerError),
}

/// What came of a step.
#[derive(Debug)]
pub enum PipeReply {
    Instance(Result<u64, IoFailure>),
    Peer {
        connected: Result<(), IoFailure>,
        session: Result<u32, String>,
        process: Result<u32, String>,
        own_process_id: u32,
    },
    Handshake(HandshakeReply),
}

impl PipeStep {
    /// An acceptance that is under way takes one of the connections.
    pub open spec fn is_under_way(self) -> bool {
        !(self is Accepted) && !(self is Refused)
    }

    /// A step fits a listener: who is to connect has an instance to do so, and
    /// the number of a connection is the one after the last.
    pub open spec fn fits(self, listener: WindowsNamedPipeListener) -> bool {
        &&& self.is_under_way() ==> listener.live > 0
        &&& match self {
            PipeStep::CreateInstance => listener.pending is None,
            PipeStep::Connect => listener.pending is Some,
            PipeStep::Reject(_) => listener.pending is Some,
            PipeStep::Replenish(_) => listener.pending is Some,
            PipeStep::Handshake { generation, .. } => {
                &&& listener.pending is Some
                &&& generation == listener.generation + 1
            },
            PipeStep::Accepted { generation, .. } => {
                &&& listener.pending is Some
                &&& generation == listener.generation
            },
            PipeStep::Refused(_) => true,
        }
    }

    /// A reply is one to what was asked.
    pub open spec fn asks_for(self, reply: PipeReply) -> bool {
        match self {
            PipeStep::CreateInstance => reply is Instance,
            PipeStep::Connect => reply is Peer,
            PipeStep::Reject(_) => reply is Instance,
            PipeStep::Replenish(_) => reply is Instance,
            PipeStep::Handshake { .. } => reply is Handshake,
            _ => false,
        }
    }
}

/// The acceptance ends with an error: its connection is free again.
pub open spec fn pipe_refused(
    before: WindowsNamedPipeListener,
    pending: Option<u64>,
    error: WindowsPipeServerError,
    after: WindowsNamedPipeListener,
    next: PipeStep,
) -> bool {
    &&& next == PipeStep::Refused(error)
    &&& after == (WindowsNamedPipeListener { pending, live: (before.live - 1) as usize, ..before })
}

/// What follows a step of an acceptance on a pipe.
pub open spec fn pipe_follows(
    before: WindowsNamedPipeListener,
    step: PipeStep,
    reply: PipeReply,
    after: WindowsNamedPipeListener,
    next: PipeStep,
) -> bool {
    match (step, reply) {
        (PipeStep::CreateInstance, PipeReply::Instance(created)) => match created {
            Ok(instance) => next is Connect && after == (WindowsNamedPipeListener {
                pending: Some(instance),
                ..before
            }),
            Err(failure) => pipe_refused(
                before,
                None,
                WindowsPipeServerError::CreateInstance(failure),
                after,
                next,
            ),
        },
        (PipeStep::Connect, PipeReply::Peer { connected, session, process, own_process_id }) => {
            &&& after == before
            &&& match client_refusal(
                before.session_id,
                connected,
                session,
                process,
                own_process_id,
            ) {
                Some(error) => next == PipeStep::Reject(error),
                None => next is Replenish && next->Replenish_0.number() == process->Ok_0,
            }
        },
        (PipeStep::Reject(error), PipeReply::Instance(created)) => match created {
            Ok(instance) => pipe_refused(before, Some(instance), error, after, next),
            Err(failure) => pipe_refused(
                before,
                None,
                WindowsPipeServerError::CreateInstance(failure),
                after,
                next,
            ),
        },
        (PipeStep::Replenish(peer), PipeReply::Instance(created)) => match created {
            Ok(instance) => if before.generation == u64::MAX {
                pipe_refused(
                    before,
                    Some(instance),
                    WindowsPipeServerError::GenerationExhausted,
                    after,
                    next,
                )
            } else {
                &&& next == (PipeStep::Handshake {
                    instance: before.pending->0,
                    peer,
                    generation: (before.generation + 1) as u64,
                })
                &&& after == (WindowsNamedPipeListener { pending: Some(instance), ..before })
            },
            Err(failure) => pipe_refused(
                before,
                None,
                WindowsPipeServerError::CreateInstance(failure),
                after,
                next,
            ),
        },
        (
            PipeStep::Handshake { instance, peer, generation },
            PipeReply::Handshake(reply),
        ) => match reply {
            HandshakeReply::Connected => {
                &&& next == (PipeStep::Accepted { instance, peer, generation })
                &&& after == (WindowsNamedPipeListener { generation, ..before })
            },
            HandshakeReply::Timeout => pipe_refused(
                before,
                before.pending,
                WindowsPipeServerError::HandshakeTimeout,
                after,
                next,
            ),
            HandshakeReply::Failed(source) => pipe_refused(
                before,
                before.pending,
                WindowsPipeServerError::Handshake(source),
                after,
                next,
            ),
        },
        _ => false,
    }
}

impl WindowsNamedPipeListener {
    /// Whether another connection is admitted now; where not, the caller waits
    /// until one has ended.
    pub fn has_room(&self) -> (room: bool)
        ensures
            room == (self.live < MAX_PIPE_CONNECTIONS),
    {
        self.live < MAX_PIPE_CONNECTIONS
    }

    /// Begins the acceptance of a peer, which takes one of the connections.
    pub fn begin_accept(&mut self) -> (step: PipeStep)
        requires
            old(self).wf(),
            old(self).live < MAX_PIPE_CONNECTIONS,
        ensures
            final(self).wf(),
            *final(self) == (WindowsNamedPipeListener {
                live: (old(self).live + 1) as usize,
                ..*old(self)
            }),
            step == (if old(self).pending is Some {
                PipeStep::Connect
            } else {
                PipeStep::CreateInstance
            }),
            step.fits(*final(self)),
    {
        self.live = self.live + 1;
        if self.needs_instance() {
            PipeStep::CreateInstance
        } else {
            PipeStep::Connect
        }
    }

    /// Moves the acceptance of a peer on by one step.
    pub fn accept_authenticated(&mut self, step: PipeStep, reply: PipeReply) -> (next: PipeStep)
        requires
            old(self).wf(),
            step.fits(*old(self)),
            step.asks_for(reply),
        ensures
            final(self).wf(),
            pipe_follows(*old(self), step, reply, *final(self), next),
            next.fits(*final(self)),
    {
        match (step, reply) {
            (PipeStep::CreateInstance, PipeReply::Instance(created)) => {
                match self.ensure_pending_instance(created) {
                    Ok(_) => PipeStep::Connect,
                    Err(error) => {
                        self.live = self.live - 1;
                        PipeStep::Refused(error)
                    },
                }
            },
            (PipeStep::Connect, PipeReply::Peer { connected, session, process, own_process_id }) => {
                match self.check_client(connected, session, process, own_process_id) {
                    Ok(peer) => PipeStep::Replenish(peer),
                    Err(error) => PipeStep::Reject(error),
                }
            },
            (PipeStep::Reject(error), PipeReply::Instance(created)) => {
                let error = self.reject_connected_instance(created, error);
                self.live = self.live - 1;
                PipeStep::Refused(error)
            },
            (PipeStep::Replenish(peer), PipeReply::Instance(created)) => {
                let instance = match self.take_connected_and_replenish(created) {
                    Ok(instance) => instance,
                    Err(error) => {
                        self.live = self.live - 1;
                        return PipeStep::Refused(error);
                    },
                };
                match self.next_generation() {
                    Ok(generation) => PipeStep::Handshake { instance, peer, generation },
                    Err(error) => {
                        self.live = self.live - 1;
                        PipeStep::Refused(error)
                    },
                }
            },
            (PipeStep::Handshake { instance, peer, generation }, PipeReply::Handshake(reply)) => {
                match self.after_handshake(reply) {
                    Ok(_) => PipeStep::Accepted { instance, peer, generation },
                    Err(error) => {
                        self.live = self.live - 1;
                        PipeStep::Refused(error)
                    },
                }
            },
            _ => vstd::pervasive::unreached(),
        }
    }

    /// A connection has ended, and leaves its place to another.
    pub fn release(&mut self)
        requires
            old(self).wf(),
            old(self).live > 0,
        ensures
            final(self).wf(),
            *final(self) == (WindowsNamedPipeListener {
                live: (old(self).live - 1) as usize,
                ..*old(self)
            }),
    {
        self.live = self.live - 1;
    }
}

/// The acceptance of a peer from its beginning to its end: the states of the
/// listener, the steps, and the replies.
pub struct PipeAcceptance {
    pub listeners: Seq<WindowsNamedPipeListener>,
    pub steps: Seq<PipeStep>,
    pub replies: Seq<PipeReply>,
}

impl PipeAcceptance {
    pub open spec fn wf(self) -> bool {
        &&& self.steps.len() == self.listeners.len()
        &&& self.steps.len() == self.replies.len() + 1
        &&& self.listeners[0].wf()
        &&& self.steps[0] is Connect || self.steps[0] is CreateInstance
        &&& self.steps[0].fits(self.listeners[0])
        &&& forall|i: int|
            0 <= i < self.replies.len() ==> {
                &&& self.steps[i].asks_for(#[trigger] self.replies[i])
                &&& pipe_follows(
                    self.listeners[i],
                    self.steps[i],
                    self.replies[i],
                    self.listeners[i + 1],
                    self.steps[i + 1],
                )
            }
    }
}

proof fn lemma_pipe_step(
    before: WindowsNamedPipeListener,
    step: PipeStep,
    reply: PipeReply,
    after: WindowsNamedPipeListener,
    next: PipeStep,
)
    requires
        before.wf(),
        step.fits(before),
        step.asks_for(reply),
        pipe_follows(before, step, reply, after, next),
    ensures
        after.wf(),
        next.fits(after),
        after.session_id == before.session_id,
        next is Accepted ==> after.generation == before.generation + 1 && after.live
            == before.live,
        !(next is Accepted) ==> after.generation == before.generation,
        next is Refused ==> after.live == before.live - 1,
        next.is_under_way() ==> after.live == before.live,
{
}

/// A peer that is accepted gets the number after the last, and an instance
/// waits for the next peer; one that is refused gets none, so that the next
/// that is accepted gets that number. An acceptance keeps a connection only for
/// a peer that was accepted, and there are never more than there may be.
pub proof fn lemma_connections_are_numbered(acceptance: PipeAcceptance, end: int)
    requires
        acceptance.wf(),
        0 <= end < acceptance.steps.len(),
    ensures
        ({
            let first = acceptance.listeners[0];
            let last = acceptance.listeners[end];
            let step = acceptance.steps[end];
            &&& last.wf()
            &&& last.live <= MAX_PIPE_CONNECTIONS
            &&& step.fits(last)
            &&& last.session_id == first.session_id
            &&& match step {
                PipeStep::Accepted { generation, .. } => {
                    &&& generation == first.generation + 1
                    &&& last.generation == generation
                    &&& last.pending is Some
                    &&& last.live == first.live
                },
                PipeStep::Refused(_) => last.generation == first.generation && last.live
                    == first.live - 1,
                _ => last.generation == first.generation && last.live == first.live,
            }
        }),
    decreases end,
{
    if end > 0 {
        lemma_connections_are_numbered(acceptance, end - 1);
        let reply = acceptance.replies[end - 1];
        assert(acceptance.steps[end - 1].asks_for(reply));
        lemma_pipe_step(
            acceptance.listeners[end - 1],
            acceptance.steps[end - 1],
            reply,
            acceptance.listeners[end],
            acceptance.steps[end],
        );
    }
}

/// A peer of another login session, and one that claims to be no process or the
/// supervisor itself, is turned away before any handshake.
pub proof fn lemma_strangers_get_no_handshake(
    listener: WindowsNamedPipeListener,
    session: u32,
    process: u32,
    own_process_id: u32,
    after: WindowsNamedPipeListener,
    next: PipeStep,
)
    requires
        pipe_follows(
            listener,
            PipeStep::Connect,
            (PipeReply::Peer {
                connected: Ok(()),
                session: Ok(session),
                process: Ok(process),
                own_process_id,
            }),
            after,
            next,
        ),
    ensures
        session != listener.session_id ==> next == PipeStep::Reject(
            WindowsPipeServerError::ClientSessionMismatch,
        ),
        session == listener.session_id && (process == 0 || process == own_process_id) ==> next
            == PipeStep::Reject(WindowsPipeServerError::InvalidClientProcessId),
        session == listener.session_id && process != 0 && process != own_process_id ==> next
            is Replenish,
{
}

/// Where the acceptance of a peer on a socket stands: what is to be done next.
#[derive(Debug)]
pub enum SocketAcceptStep {
    /// Wait for a peer, and see who it is.
    Accept,
    /// Shake hands with the peer, for the connection of a number.
    Handshake { peer: AuthenticatedPeerProcessId, generation: u64 },
    Accepted { peer: AuthenticatedPeerProcessId, generation: u64 },
    Refused(MacOsSocketServerError),
}

/// What came of a step.
#[derive(Debug)]
pub enum SocketAcceptReply {
    Peer {
        accepted: Result<(), IoFailure>,
        uid: Result<u32, IoFailure>,
        process: Result<i32, IoFailure>,
        own_process_id: u32,
    },
    Handshake(HandshakeReply),
}

impl SocketAcceptStep {
    /// A step fits a listener.
    pub open spec fn fits(self, listener: MacOsUnixSocketListener) -> bool {
        match self {
            SocketAcceptStep::Accept => listener.live > 0,
            SocketAcceptStep::Handshake { generation, .. } => listener.live > 0 && generation
                == listener.generation + 1,
            SocketAcceptStep::Accepted { generation, .. } => generation == listener.generation,
            SocketAcceptStep::Refused(_) => true,
        }
    }

    /// A reply is one to what was asked.
    pub open spec fn asks_for(self, reply: SocketAcceptReply) -> bool {
        match self {
            SocketAcceptStep::Accept => reply is Peer,
            SocketAcceptStep::Handshake { .. } => reply is Handshake,
            _ => false,
        }
    }
}

/// The acceptance ends with an error: its connection is free again.
pub open spec fn socket_refused(
    before: MacOsUnixSocketListener,
    error: MacOsSocketServerError,
    after: MacOsUnixSocketListener,
    next: SocketAcceptStep,
) -> bool {
    &&& next == SocketAcceptStep::Refused(error)
    &&& after == (MacOsUnixSocketListener { live: (before.live - 1) as usize, ..before })
}

/// What follows a step of an acceptance on a socket.
pub open spec fn socket_accept_follows(
    before: MacOsUnixSocketListener,
    step: SocketAcceptStep,
    reply: SocketAcceptReply,
    after: MacOsUnixSocketListener,
    next: SocketAcceptStep,
) -> bool {
    match (step, reply) {
        (
            SocketAcceptStep::Accept,
            SocketAcceptReply::Peer { accepted, uid, process, own_process_id },
        ) => match accepted {
            Err(failure) => socket_refused(
                before,
                MacOsSocketServerError::Accept(failure),
                after,
                next,
            ),
            Ok(_) => match peer_refusal(
                before.identity.uid,
                uid,
                process,
                own_process_id,
                before.generation,
            ) {
                Some(error) => socket_refused(before, error, after, next),
                None => {
                    &&& after == before
                    &&& match next {
                        SocketAcceptStep::Handshake { peer, generation } => peer.number()
                            == process->Ok_0 && generation == before.generation + 1,
                        _ => false,
                    }
                },
            },
        },
        (
            SocketAcceptStep::Handshake { peer, generation },
            SocketAcceptReply::Handshake(reply),
        ) => match reply {
            HandshakeReply::Connected => {
                &&& next == (SocketAcceptStep::Accepted { peer, generation })
                &&& after == (MacOsUnixSocketListener { generation, ..before })
            },
            HandshakeReply::Timeout => socket_refused(
                before,
                MacOsSocketServerError::HandshakeTimeout,
                after,
                next,
            ),
            HandshakeReply::Failed(source) => socket_refused(
                before,
                MacOsSocketServerError::Handshake(source),
                after,
                next,
            ),
        },
        _ => false,
    }
}

impl MacOsUnixSocketListener {
    /// Whether another connection is admitted now; where not, the caller waits
    /// until one has ended.
    pub fn has_room(&self) -> (room: bool)
        ensures
            room == (self.live < MAX_SOCKET_CONNECTIONS),
    {
        self.live < MAX_SOCKET_CONNECTIONS
    }

    /// Begins the acceptance of a peer, which takes one of the connections.
    pub fn begin_accept(&mut self) -> (step: SocketAcceptStep)
        requires
            old(self).wf(),
            old(self).live < MAX_SOCKET_CONNECTIONS,
        ensures
            final(self).wf(),
            *final(self) == (MacOsUnixSocketListener {
                live: (old(self).live + 1) as usize,
                ..*old(self)
            }),
            step is Accept,
            step.fits(*final(self)),
    {
        self.live = self.live + 1;
        SocketAcceptStep::Accept
    }

    /// Moves the acceptance of a peer on by one step.
    pub fn accept_authenticated(&mut self, step: SocketAcceptStep, reply: SocketAcceptReply) -> (next:
        SocketAcceptStep)
        requires
            old(self).wf(),
            step.fits(*old(self)),
            step.asks_for(reply),
        ensures
            final(self).wf(),
            socket_accept_follows(*old(self), step, reply, *final(self), next),
            next.fits(*final(self)),
    {
        let result: Result<SocketAcceptStep, MacOsSocketServerError> = match (step, reply) {
            (
                SocketAcceptStep::Accept,
                SocketAcceptReply::Peer { accepted, uid, process, own_process_id },
            ) => match accepted {
                Err(failure) => Err(MacOsSocketServerError::Accept(failure)),
                Ok(_) => match self.check_peer(uid, process, own_process_id) {
                    Ok((peer, generation)) => Ok(SocketAcceptStep::Handshake { peer, generation }),
                    Err(error) => Err(error),
                },
            },
            (
                SocketAcceptStep::Handshake { peer, generation },
                SocketAcceptReply::Handshake(reply),
            ) => match self.after_handshake(reply) {
                Ok(_) => Ok(SocketAcceptStep::Accepted { peer, generation }),
                Err(error) => Err(error),
            },
            _ => vstd::pervasive::unreached(),
        };
        match result {
            Ok(next) => next,
            Err(error) => {
                self.live = self.live - 1;
                SocketAcceptStep::Refused(error)
            },
        }
    }

    /// A connection has ended, and leaves its place to another.
    pub fn release(&mut self)
        requires
            old(self).wf(),
            old(self).live > 0,
        ensures
            final(self).wf(),
            *final(self) == (MacOsUnixSocketListener {
                live: (old(self).live - 1) as usize,
                ..*old(self)
            }),
    {
        self.live = self.live - 1;
    }
}

/// A step on a socket raises the number of connections that there have been
/// only where a peer is accepted, and frees a connection only where one is
/// refused; there are never more than there may be.
pub proof fn lemma_socket_connections_are_bounded(
    before: MacOsUnixSocketListener,
    step: SocketAcceptStep,
    reply: SocketAcceptReply,
    after: MacOsUnixSocketListener,
    next: SocketAcceptStep,
)
    requires
        before.wf(),
        step.fits(before),
        step.asks_for(reply),
        socket_accept_follows(before, step, reply, after, next),
    ensures
        after.live <= MAX_SOCKET_CONNECTIONS,
        after.generation == before.generation + (if next is Accepted {
            1int
        } else {
            0int
        }),
        after.live == before.live - (if next is Refused {
            1int
        } else {
            0int
        }),
{
}

} // verus!
