//! The way to a socket that is listened on: nothing but the user's own socket is
//! removed, and nothing is listened on before it is known to be private.

use vstd::prelude::*;

use crate::paths::{below, is_same_path};
use crate::run::Platform;
use crate::runtime::IoFailure;
use crate::transport::{
    confirm_stale_endpoint, identity_of, inspect_bound_endpoint, is_socket_of,
    remove_stale_endpoint, secure_bound_endpoint, socket_endpoint, validate_endpoint_path,
    BindFailure, EntryFacts, MacOsSocketServerError, MacOsUnixSocketListener, SocketIdentity,
    StaleStep, SOCKET_MODE,
};

verus! {

/// What is to be done next for a socket at an endpoint.
#[derive(Debug)]
#[allow(inconsistent_fields)]
pub enum BindStep {
    /// Find where the supervisor of the user lives.
    FindRoot,
    /// Look at what stands where the socket is to be.
    InspectStale { endpoint: String },
    /// Look at it once more.
    InspectAgain { endpoint: String, identity: SocketIdentity },
    /// Remove it.
    RemoveStale { endpoint: String },
    /// Bind the socket.
    Bind { endpoint: String },
    /// Look at the socket that was bound.
    InspectBound { endpoint: String },
    /// Take the rights of others away.
    Restrict { endpoint: String, initial: SocketIdentity },
    /// Look at the socket once more.
    InspectSecured { endpoint: String, initial: SocketIdentity },
    /// The socket cannot be used: see whether it still stands there.
    GiveUp { endpoint: String, identity: SocketIdentity, error: MacOsSocketServerError },
    /// Remove the socket that cannot be used.
    RemoveBound { endpoint: String, error: MacOsSocketServerError },
    Listening { endpoint: String, listener: MacOsUnixSocketListener },
    Fail(MacOsSocketServerError),
}

/// What came of a step.
#[derive(Debug)]
pub enum BindReply {
    Root(Result<String, IoFailure>),
    Entry(Result<EntryFacts, IoFailure>),
    Done(Result<(), IoFailure>),
}

impl BindStep {
    /// A reply is one to what was asked.
    pub open spec fn asks_for(self, reply: BindReply) -> bool {
        match self {
            BindStep::FindRoot => reply is Root,
            BindStep::InspectStale { .. } => reply is Entry,
            BindStep::InspectAgain { .. } => reply is Entry,
            BindStep::RemoveStale { .. } => reply is Done,
            BindStep::Bind { .. } => reply is Done,
            BindStep::InspectBound { .. } => reply is Entry,
            BindStep::Restrict { .. } => reply is Done,
            BindStep::InspectSecured { .. } => reply is Entry,
            BindStep::GiveUp { .. } => reply is Entry,
            BindStep::RemoveBound { .. } => reply is Done,
            BindStep::Listening { .. } | BindStep::Fail(_) => false,
        }
    }
}

/// Why the socket that was bound cannot be used.
pub open spec fn bound_refusal(facts: Result<EntryFacts, IoFailure>, expected_uid: u32) -> Option<
    MacOsSocketServerError,
> {
    match facts {
        Err(failure) => Some(MacOsSocketServerError::InspectBoundEndpoint(failure)),
        Ok(facts) => if !facts.is_socket {
            Some(MacOsSocketServerError::BoundEndpointNotSocket)
        } else if facts.uid != expected_uid {
            Some(
                MacOsSocketServerError::BoundEndpointOwnerMismatch {
                    expected: expected_uid,
                    actual: facts.uid,
                },
            )
        } else {
            None
        },
    }
}

/// What follows the first look at what stands in the way.
pub open spec fn stale_follows(
    endpoint: String,
    facts: Result<EntryFacts, IoFailure>,
    expected_uid: u32,
    next: BindStep,
) -> bool {
    match facts {
        Err(failure) => if failure.kind@ == "NotFound"@ {
            next == BindStep::Bind { endpoint }
        } else {
            next == BindStep::Fail(MacOsSocketServerError::InspectStaleEndpoint(failure))
        },
        Ok(facts) => next == if facts.is_symlink {
            BindStep::Fail(MacOsSocketServerError::StaleEndpointSymlink)
        } else if !facts.is_socket {
            BindStep::Fail(MacOsSocketServerError::StaleEndpointNotSocket)
        } else if facts.uid != expected_uid {
            BindStep::Fail(
                MacOsSocketServerError::StaleEndpointOwnerMismatch {
                    expected: expected_uid,
                    actual: facts.uid,
                },
            )
        } else {
            BindStep::InspectAgain { endpoint, identity: identity_of(facts) }
        },
    }
}

/// What follows the last look at the socket.
pub open spec fn secured_follows(
    endpoint: String,
    initial: SocketIdentity,
    facts: Result<EntryFacts, IoFailure>,
    expected_uid: u32,
    next: BindStep,
) -> bool {
    match bound_refusal(facts, expected_uid) {
        Some(error) => next == BindStep::GiveUp { endpoint, identity: initial, error },
        None => {
            let identity = identity_of(facts->Ok_0);
            next == if !identity.is_same(initial) {
                BindStep::Fail(MacOsSocketServerError::BoundEndpointChanged)
            } else if identity.mode != SOCKET_MODE {
                BindStep::GiveUp {
                    endpoint,
                    identity,
                    error: MacOsSocketServerError::BoundEndpointModeMismatch {
                        mode: identity.mode,
                    },
                }
            } else {
                BindStep::Listening {
                    endpoint,
                    listener: MacOsUnixSocketListener { identity, generation: 0, live: 0 },
                }
            }
        },
    }
}

/// What follows a step on the way to a socket. The root is the one that the
/// supervisor has locked.
pub open spec fn bind_follows(
    guarded_root: Seq<char>,
    expected_uid: u32,
    step: BindStep,
    reply: BindReply,
    next: BindStep,
) -> bool {
    match (step, reply) {
        (BindStep::FindRoot, BindReply::Root(found)) => match found {
            Err(failure) => next == BindStep::Fail(MacOsSocketServerError::RuntimeRoot(failure)),
            Ok(root) => {
                let socket = below(Platform::MacOs, root@, "supervisor.sock"@);
                if !is_same_path(Platform::MacOs, guarded_root, root@) {
                    next == BindStep::Fail(MacOsSocketServerError::RuntimeRootMismatch)
                } else if !is_socket_of(root@, socket) {
                    next == BindStep::Fail(MacOsSocketServerError::EndpointOutsideRuntimeRoot)
                } else {
                    next matches BindStep::InspectStale { endpoint } && endpoint@ == socket
                }
            },
        },
        (BindStep::InspectStale { endpoint }, BindReply::Entry(facts)) => stale_follows(
            endpoint,
            facts,
            expected_uid,
            next,
        ),
        (BindStep::InspectAgain { endpoint, identity }, BindReply::Entry(facts)) => next
            == match facts {
            Err(failure) => BindStep::Fail(MacOsSocketServerError::InspectStaleEndpoint(failure)),
            Ok(facts) => if identity.is_entry(facts) {
                BindStep::RemoveStale { endpoint }
            } else {
                BindStep::Fail(MacOsSocketServerError::StaleEndpointChanged)
            },
        },
        (BindStep::RemoveStale { endpoint }, BindReply::Done(removed)) => next == match removed {
            Ok(_) => BindStep::Bind { endpoint },
            Err(failure) => BindStep::Fail(MacOsSocketServerError::RemoveStaleEndpoint(failure)),
        },
        (BindStep::Bind { endpoint }, BindReply::Done(bound)) => next == match bound {
            Ok(_) => BindStep::InspectBound { endpoint },
            Err(failure) => BindStep::Fail(MacOsSocketServerError::Bind(failure)),
        },
        (BindStep::InspectBound { endpoint }, BindReply::Entry(facts)) => next
            == match bound_refusal(facts, expected_uid) {
            Some(error) => BindStep::Fail(error),
            None => BindStep::Restrict { endpoint, initial: identity_of(facts->Ok_0) },
        },
        (BindStep::Restrict { endpoint, initial }, BindReply::Done(restricted)) => next
            == match restricted {
            Ok(_) => BindStep::InspectSecured { endpoint, initial },
            Err(failure) => BindStep::GiveUp {
                endpoint,
                identity: initial,
                error: MacOsSocketServerError::RestrictEndpoint(failure),
            },
        },
        (BindStep::InspectSecured { endpoint, initial }, BindReply::Entry(facts)) => {
            secured_follows(endpoint, initial, facts, expected_uid, next)
        },
        (BindStep::GiveUp { endpoint, identity, error }, BindReply::Entry(facts)) => next
            == if facts is Ok && identity.is_entry(facts->Ok_0) {
            BindStep::RemoveBound { endpoint, error }
        } else {
            BindStep::Fail(error)
        },
        (BindStep::RemoveBound { error, .. }, BindReply::Done(_)) => next == BindStep::Fail(error),
        _ => false,
    }
}

impl MacOsUnixSocketListener {
    /// Moves the way to a socket on by one step.
    pub fn bind(guarded_root: &str, expected_uid: u32, step: BindStep, reply: BindReply) -> (next:
        BindStep)
        requires
            step.asks_for(reply),
        ensures
            bind_follows(guarded_root@, expected_uid, step, reply, next),
    {
        match (step, reply) {
            (BindStep::FindRoot, BindReply::Root(found)) => {
                let root = match found {
                    Ok(root) => root,
                    Err(failure) => {
                        return BindStep::Fail(MacOsSocketServerError::RuntimeRoot(failure));
                    },
                };
                match socket_endpoint(Ok(root.clone()), guarded_root) {
                    Ok(endpoint) => match validate_endpoint_path(
                        root.as_str(),
                        endpoint.as_str(),
                    ) {
                        Ok(_) => BindStep::InspectStale { endpoint },
                        Err(error) => BindStep::Fail(error),
                    },
                    Err(error) => BindStep::Fail(error),
                }
            },
            (BindStep::InspectStale { endpoint }, BindReply::Entry(facts)) => {
                match remove_stale_endpoint(facts, expected_uid) {
                    StaleStep::Absent => BindStep::Bind { endpoint },
                    StaleStep::LookAgain(identity) => BindStep::InspectAgain {
                        endpoint,
                        identity,
                    },
                    StaleStep::Remove => BindStep::RemoveStale { endpoint },
                    StaleStep::Fail(error) => BindStep::Fail(error),
                }
            },
            (BindStep::InspectAgain { endpoint, identity }, BindReply::Entry(facts)) => {
                match confirm_stale_endpoint(identity, facts) {
                    StaleStep::Fail(error) => BindStep::Fail(error),
                    _ => BindStep::RemoveStale { endpoint },
                }
            },
            (BindStep::RemoveStale { endpoint }, BindReply::Done(removed)) => match removed {
                Ok(_) => BindStep::Bind { endpoint },
                Err(failure) => BindStep::Fail(
                    MacOsSocketServerError::RemoveStaleEndpoint(failure),
                ),
            },
            (BindStep::Bind { endpoint }, BindReply::Done(bound)) => match bound {
                Ok(_) => BindStep::InspectBound { endpoint },
                Err(failure) => BindStep::Fail(MacOsSocketServerError::Bind(failure)),
            },
            (BindStep::InspectBound { endpoint }, BindReply::Entry(facts)) => {
                match inspect_bound_endpoint(facts, expected_uid) {
                    Ok(initial) => BindStep::Restrict { endpoint, initial },
                    Err(error) => BindStep::Fail(error),
                }
            },
            (BindStep::Restrict { endpoint, initial }, BindReply::Done(restricted)) => {
                match restricted {
                    Ok(_) => BindStep::InspectSecured { endpoint, initial },
                    Err(failure) => BindStep::GiveUp {
                        endpoint,
                        identity: initial,
                        error: MacOsSocketServerError::RestrictEndpoint(failure),
                    },
                }
            },
            (BindStep::InspectSecured { endpoint, initial }, BindReply::Entry(facts)) => {
                let second = inspect_bound_endpoint(facts, expected_uid);
                match secure_bound_endpoint(initial, Ok(()), second) {
                    Ok(identity) => BindStep::Listening {
                        endpoint,
                        listener: MacOsUnixSocketListener::listen(identity),
                    },
                    Err(BindFailure { error, remove }) => match remove {
                        Some(identity) => BindStep::GiveUp { endpoint, identity, error },
                        None => BindStep::Fail(error),
                    },
                }
            },
            (BindStep::GiveUp { endpoint, identity, error }, BindReply::Entry(facts)) => {
                if identity.remove_if_matching(facts) {
                    BindStep::RemoveBound { endpoint, error }
                } else {
                    BindStep::Fail(error)
                }
            },
            (BindStep::RemoveBound { endpoint: _, error }, BindReply::Done(_)) => BindStep::Fail(
                error,
            ),
            _ => vstd::pervasive::unreached(),
        }
    }
}

/// The way to a socket as it was gone.
pub struct BindTrace {
    pub guarded_root: Seq<char>,
    pub expected_uid: u32,
    pub steps: Seq<BindStep>,
    pub replies: Seq<BindReply>,
}

impl BindTrace {
    /// It begins at the beginning, and each step follows from the one before.
    pub open spec fn wf(self) -> bool {
        &&& self.steps.len() == self.replies.len() + 1
        &&& self.steps[0] is FindRoot
        &&& forall|i: int|
            0 <= i < self.replies.len() ==> bind_follows(
                self.guarded_root,
                self.expected_uid,
                #[trigger] self.steps[i],
                self.replies[i],
                self.steps[i + 1],
            )
    }
}

/// What is listened on was bound, is the user's own, and was made private: the
/// four steps before are, in this order, the binding, the look at what was bound,
/// the taking away of rights, and a look that shows the same socket with no
/// rights for others.
pub proof fn lemma_only_a_private_socket_is_listened_on(trace: BindTrace, at: int)
    requires
        trace.wf(),
        0 <= at < trace.steps.len(),
        trace.steps[at] is Listening,
    ensures
        at >= 5,
        trace.steps[at - 4] is Bind && trace.replies[at - 4]->Done_0 is Ok,
        trace.steps[at - 3] is InspectBound,
        trace.steps[at - 2] is Restrict && trace.replies[at - 2]->Done_0 is Ok,
        trace.steps[at - 1] is InspectSecured,
        trace.replies[at - 1] matches BindReply::Entry(Ok(facts)) && {
            let identity = trace.steps[at]->listener.identity;
            &&& facts.is_socket
            &&& facts.uid == trace.expected_uid
            &&& identity == identity_of(facts)
            &&& identity.mode == SOCKET_MODE
            &&& trace.replies[at - 3] matches BindReply::Entry(Ok(first)) && identity.is_same(
                identity_of(first),
            )
        },
{
    let secured = trace.steps[at - 1];
    assert(secured is InspectSecured);
    let restricted = trace.steps[at - 2];
    assert(restricted is Restrict);
    let inspected = trace.steps[at - 3];
    assert(inspected is InspectBound);
    let bound = trace.steps[at - 4];
    assert(bound is Bind);
}

} // verus!
