//! What taking peers on is for: only a peer of the same user and session that knows the
//! token is talked to, over an endpoint that nobody else can reach, by the one supervisor
//! that holds the lock.

use vstd::prelude::*;

use crate::accepting::{
    pipe_follows, socket_accept_follows, PipeReply, PipeStep, SocketAcceptReply, SocketAcceptStep,
};
use crate::binding::{bind_follows, BindReply, BindStep};
use crate::endpoints::{
    create_current_user_pipe, is_valid_pipe_name, socket_answers, socket_follows, PipePlan,
    PipeSecurityError, SocketReply, SocketStep,
};
use crate::error::{AppError, ErrorCode};
use crate::ipc::{
    client_hello, decode_frame, encode_frame, frame_of, is_frame, negotiate_version,
    server_challenge, verify_client_proof, verify_server_and_create_client_proof, ClientHello,
    ClientProof, ProtocolError, ServerChallenge,
};
use crate::paths::is_absolute;
use crate::run::Platform;
use crate::runtime::{
    acquire_answers, acquire_follows, current_user_runtime_root, io_app_error, AcquireReply,
    AcquireStep, AuthenticatedPeerProcessId, IoFailure, PathsView, UserFolder,
};
use crate::transport::{
    confirm_stale_endpoint, inspect_bound_endpoint, is_occupied_error, peer_pid,
    remove_stale_endpoint, secure_bound_endpoint, BindFailure, EntryFacts, MacOsSocketServerError,
    MacOsUnixSocketListener, SocketIdentity, StaleStep, WindowsNamedPipeListener,
    WindowsPipeServerError,
};

verus! {

/// Version 1 is spoken and no other: a peer that offers it among at most sixteen is
/// understood, and what is offered to a peer is understood by it.
pub proof fn lemma_version_one_is_spoken(
    offered: &[u16],
    result: Result<u16, ProtocolError>,
    client_nonce: [u8; 32],
    hello: ClientHello,
)
    requires
        call_ensures(negotiate_version, (offered,), result),
        call_ensures(client_hello, (client_nonce,), hello),
    ensures
        result is Ok <==> offered@.len() <= 16 && offered@.contains(1u16),
        result is Ok ==> result->Ok_0 == 1,
        result is Err && result->Err_0 is TooManyVersions <==> offered@.len() > 16,
        hello.supported_versions@.len() == 1 && hello.supported_versions@[0] == 1,
        hello.client_nonce == client_nonce,
{
    if offered@.len() <= 16 && offered@.contains(1u16) {
        assert(crate::ipc::is_common(offered@, 1u16));
    }
}

/// A handshake that both sides did with one token and one transcript succeeds; a server
/// whose challenge does not carry the proof for it gets no answer, and a client whose proof
/// is not the one that was due is not let in.
pub proof fn lemma_proof_is_due_on_both_sides(
    token: crate::ipc::SessionToken,
    hello: ClientHello,
    server_nonce: [u8; 32],
    challenge: Result<ServerChallenge, ProtocolError>,
    answer: Result<ClientProof, ProtocolError>,
    shown: ClientProof,
    verdict: Result<(), ProtocolError>,
)
    requires
        call_ensures(server_challenge, (&token, &hello, server_nonce), challenge),
        challenge is Ok,
        call_ensures(
            verify_server_and_create_client_proof,
            (&token, &hello, &challenge->Ok_0),
            answer,
        ),
        call_ensures(verify_client_proof, (&token, &hello, &challenge->Ok_0, &shown), verdict),
    ensures
        challenge->Ok_0.server_nonce == server_nonce,
        challenge->Ok_0.selected_version == 1,
        answer is Ok,
        verdict is Ok <==> shown.proof@ == answer->Ok_0.proof@,
        verdict is Err ==> verdict->Err_0 is AuthenticationFailed,
{
}

/// A payload comes out of its frame as it went in; it goes in exactly where it has at most
/// 1,048,576 bytes, and nothing else comes out.
pub proof fn lemma_payload_comes_out_as_it_went_in(
    payload: &[u8],
    framed: Result<Vec<u8>, ProtocolError>,
    frame: &[u8],
    decoded: Result<&[u8], ProtocolError>,
)
    requires
        call_ensures(encode_frame, (payload,), framed),
        call_ensures(decode_frame, (frame,), decoded),
        framed is Ok ==> frame@ == framed->Ok_0@,
    ensures
        framed is Ok <==> payload@.len() <= 1_048_576,
        framed is Ok ==> decoded is Ok && decoded->Ok_0@ == payload@ && frame@.len()
            == payload@.len() + 4,
        decoded is Ok ==> decoded->Ok_0@.len() <= 1_048_576 && decoded->Ok_0@ == frame@.subrange(
            4,
            frame@.len() as int,
        ),
        frame@.len() < 4 ==> decoded is Err && decoded->Err_0 is MissingLengthPrefix,
{
    if let Ok(out) = framed {
        assert(is_frame(frame@, payload@));
        crate::ipc::lemma_frame_round_trip(payload@, payload@);
        assert(frame@ == frame_of(payload@));
        if let Ok(given) = decoded {
            crate::ipc::lemma_frame_round_trip(payload@, given@);
        }
    }
    if let Ok(given) = decoded {
        crate::ipc::lemma_frame_round_trip(given@, given@);
        crate::digest::lemma_be_length(given@.len(), 4);
        assert(frame_of(given@).subrange(4, frame@.len() as int) =~= given@);
    }
}

/// A peer of a pipe gets to the handshake exactly where it connected from the same session
/// as a process that is neither none nor the supervisor itself. Every other is rejected,
/// told why, and its place is free again.
pub proof fn lemma_only_a_peer_of_the_session_gets_to_the_handshake(
    before: WindowsNamedPipeListener,
    step: PipeStep,
    reply: PipeReply,
    after: WindowsNamedPipeListener,
    next: PipeStep,
)
    requires
        before.wf(),
        step.fits(before),
        step.asks_for(reply),
        pipe_follows(before, step, reply, after, next),
    ensures
        next is Replenish <==> (step is Connect && (reply matches PipeReply::Peer {
            connected,
            session,
            process,
            own_process_id,
        } && connected is Ok && session == Ok::<u32, String>(before.session_id) && process is Ok
            && process->Ok_0 != 0 && process->Ok_0 != own_process_id)),
        next is Reject <==> step is Connect && next !is Replenish,
        (next matches PipeStep::Replenish(peer) ==> (reply matches PipeReply::Peer { process, .. }
            && peer.number() == process->Ok_0)),
        next is Connect <==> step is CreateInstance && reply->Instance_0 is Ok,
        (next matches PipeStep::Handshake { instance, peer, generation } ==> {
            &&& step == PipeStep::Replenish(peer) && reply->Instance_0 is Ok
            &&& before.pending == Some(instance) && after.pending == Some(reply->Instance_0->Ok_0)
            &&& generation == before.generation + 1
        }),
        (next matches PipeStep::Accepted { instance, peer, generation } ==> step
            == (PipeStep::Handshake { instance, peer, generation }) && reply->Handshake_0
            is Connected && after.generation == generation),
        step is Handshake ==> (next is Accepted <==> reply->Handshake_0 is Connected),
        step is Handshake && reply->Handshake_0 is Timeout ==> next == PipeStep::Refused(
            WindowsPipeServerError::HandshakeTimeout,
        ),
        step is Handshake && reply->Handshake_0 is Failed ==> next is Refused && next->Refused_0
            is Handshake,
        step is Reject ==> next is Refused,
        (step matches PipeStep::Reject(error) ==> (reply->Instance_0 is Ok ==> next
            == PipeStep::Refused(error))),
        next is Refused ==> after.live == before.live - 1 && after.generation == before.generation,
        next !is Refused ==> after.live == before.live,
        after.session_id == before.session_id,
        !(next is CreateInstance),
{
}

/// A peer of a socket gets to the handshake exactly where it is a process of the same user
/// and not the supervisor itself. Every other is refused for its reason, and its place is
/// free again.
pub proof fn lemma_only_a_peer_of_the_user_gets_to_the_handshake(
    before: MacOsUnixSocketListener,
    step: SocketAcceptStep,
    reply: SocketAcceptReply,
    after: MacOsUnixSocketListener,
    next: SocketAcceptStep,
)
    requires
        before.wf(),
        step.fits(before),
        step.asks_for(reply),
        socket_accept_follows(before, step, reply, after, next),
    ensures
        next is Handshake <==> (step is Accept && (reply matches SocketAcceptReply::Peer {
            accepted,
            uid,
            process,
            own_process_id,
        } && accepted is Ok && uid == Ok::<u32, IoFailure>(before.identity.uid) && process is Ok
            && process->Ok_0 > 0 && process->Ok_0 != own_process_id && before.generation
            < 0xffff_ffff_ffff_ffff)),
        (next matches SocketAcceptStep::Handshake { peer, generation } ==> (reply
            matches SocketAcceptReply::Peer { process, .. } && peer.number() == process->Ok_0
            && generation == before.generation + 1)),
        next is Accepted <==> step is Handshake && reply->Handshake_0 is Connected,
        (next matches SocketAcceptStep::Accepted { peer, generation } ==> step
            == (SocketAcceptStep::Handshake { peer, generation }) && after.generation
            == generation),
        step is Handshake && reply->Handshake_0 is Timeout ==> next == SocketAcceptStep::Refused(
            MacOsSocketServerError::HandshakeTimeout,
        ),
        next is Refused ==> after.live == before.live - 1 && after.generation == before.generation,
        next !is Refused ==> after.live == before.live,
        (reply matches SocketAcceptReply::Peer { accepted, uid, .. } && accepted is Ok && uid is Ok
            && uid->Ok_0 != before.identity.uid) ==> next is Refused && next->Refused_0
            is PeerUserMismatch,
        after.identity == before.identity,
        !(next is Accept),
{
}

/// At most fifteen peers of pipes, and sixteen of sockets, are connected at once.
pub proof fn lemma_connections_are_bounded(
    pipes: WindowsNamedPipeListener,
    sockets: MacOsUnixSocketListener,
    pipe_room: bool,
    socket_room: bool,
)
    requires
        call_ensures(WindowsNamedPipeListener::has_room, (&pipes,), pipe_room),
        call_ensures(MacOsUnixSocketListener::has_room, (&sockets,), socket_room),
    ensures
        pipe_room <==> pipes.live < 15,
        socket_room <==> sockets.live < 16,
        pipes.wf() ==> pipes.live <= 15,
        sockets.wf() ==> sockets.live <= 16,
{
}

/// What stands where the socket is to be is removed only where it is a socket of the user
/// twice over, and never a link. What was bound is listened on only where it is the same
/// socket of the user, and only the user can reach it; else it is removed again, where it
/// is still the same.
pub proof fn lemma_only_the_own_socket_is_touched(
    guarded_root: Seq<char>,
    expected_uid: u32,
    step: BindStep,
    reply: BindReply,
    next: BindStep,
)
    requires
        step.asks_for(reply),
        bind_follows(guarded_root, expected_uid, step, reply, next),
    ensures
        next is InspectStale ==> step is FindRoot,
        (next matches BindStep::InspectAgain { endpoint, identity } ==> step
            == (BindStep::InspectStale { endpoint }) && (reply matches BindReply::Entry(Ok(facts))
            && !facts.is_symlink && facts.is_socket && facts.uid == expected_uid && identity.device
            == facts.device && identity.inode == facts.inode && identity.uid == facts.uid)),
        (next matches BindStep::RemoveStale { endpoint } ==> (step matches BindStep::InspectAgain {
            endpoint: seen,
            identity,
        } && seen == endpoint && (reply matches BindReply::Entry(Ok(facts)) && facts.is_socket
            && facts.device == identity.device && facts.inode == identity.inode && facts.uid
            == identity.uid))),
        next is Bind ==> (step is RemoveStale && reply->Done_0 is Ok) || (step is InspectStale
            && reply->Entry_0 is Err && reply->Entry_0->Err_0.kind@ == "NotFound"@),
        next is InspectBound ==> step is Bind && reply->Done_0 is Ok,
        (next matches BindStep::Restrict { initial, .. } ==> step is InspectBound && (reply
            matches BindReply::Entry(Ok(facts)) && facts.is_socket && facts.uid == expected_uid
            && initial.inode == facts.inode && initial.device == facts.device)),
        (next matches BindStep::InspectSecured { initial, .. } ==> (step matches BindStep::Restrict {
            initial: same,
            ..
        } && same == initial && reply->Done_0 is Ok)),
        (next matches BindStep::Listening { listener, .. } ==> (step
            matches BindStep::InspectSecured { initial, .. } && (reply
            matches BindReply::Entry(Ok(facts)) && facts.is_socket && facts.uid == expected_uid
            && facts.device == initial.device && facts.inode == initial.inode && initial.uid
            == expected_uid && listener.identity.mode == 0o600 && listener.identity.mode
            == facts.mode & 0o777 && listener.live == 0 && listener.generation == 0))),
        (next matches BindStep::RemoveBound { .. } ==> (step matches BindStep::GiveUp {
            identity,
            ..
        } && (reply matches BindReply::Entry(Ok(facts)) && facts.is_socket && facts.inode
            == identity.inode && facts.device == identity.device && facts.uid == identity.uid))),
        step is GiveUp ==> next is RemoveBound || next == BindStep::Fail(step->GiveUp_error),
        step is RemoveBound ==> next == BindStep::Fail(step->RemoveBound_error),
        step is Restrict && reply->Done_0 is Err ==> next is GiveUp,
{
}

/// The parts of binding agree with it: a stale socket is looked at twice, a bound one has to
/// be the user's, and one that could not be made private is not kept.
pub proof fn lemma_parts_of_binding_touch_the_own_socket_only(
    facts: Result<EntryFacts, IoFailure>,
    expected_uid: u32,
    stale: StaleStep,
    bound: Result<SocketIdentity, MacOsSocketServerError>,
    initial: SocketIdentity,
    restricted: Result<(), IoFailure>,
    secured: Result<SocketIdentity, BindFailure>,
    confirmed: StaleStep,
)
    requires
        call_ensures(remove_stale_endpoint, (facts, expected_uid), stale),
        call_ensures(inspect_bound_endpoint, (facts, expected_uid), bound),
        call_ensures(secure_bound_endpoint, (initial, restricted, bound), secured),
        call_ensures(confirm_stale_endpoint, (initial, facts), confirmed),
    ensures
        !(stale is Remove),
        stale is LookAgain <==> facts is Ok && !facts->Ok_0.is_symlink && facts->Ok_0.is_socket
            && facts->Ok_0.uid == expected_uid,
        stale is Absent <==> facts is Err && facts->Err_0.kind@ == "NotFound"@,
        bound is Ok <==> facts is Ok && facts->Ok_0.is_socket && facts->Ok_0.uid == expected_uid,
        confirmed is Remove <==> facts is Ok && facts->Ok_0.is_socket && facts->Ok_0.device
            == initial.device && facts->Ok_0.inode == initial.inode && facts->Ok_0.uid
            == initial.uid,
        secured is Ok <==> restricted is Ok && bound is Ok && bound->Ok_0.device == initial.device
            && bound->Ok_0.inode == initial.inode && bound->Ok_0.uid == initial.uid
            && bound->Ok_0.mode == 0o600,
        secured matches Err(failure) ==> (failure.remove is None <==> restricted is Ok && bound
            is Ok && !(bound->Ok_0.device == initial.device && bound->Ok_0.inode == initial.inode
            && bound->Ok_0.uid == initial.uid)),
{
}

/// A private socket is bound in a private directory: neither is taken through a link, only a
/// stale socket is removed for it, and it is listened on only once it was restricted; where
/// that fails it is removed.
pub proof fn lemma_private_socket_is_bound_in_a_private_directory(
    directory: Seq<char>,
    path: Seq<char>,
    socket_name: Seq<u8>,
    step: SocketStep,
    reply: SocketReply,
    next: SocketStep,
)
    requires
        socket_answers(step, reply),
        socket_follows(directory, path, socket_name, step, reply, next),
    ensures
        step is InspectDirectory ==> (next is Fail <==> reply is Symlink),
        next is CreateDirectory ==> step is InspectDirectory && reply !is Symlink,
        next is RestrictDirectory <==> step is CreateDirectory && reply is Done,
        next is InspectStale ==> step is RestrictDirectory && reply is Done,
        next is RemoveStale <==> step is InspectStale && reply is Socket,
        next is Bind <==> (step is InspectStale && reply is Missing) || (step is RemoveStale && reply
            is Done),
        next is RestrictSocket <==> step is Bind && reply is Done,
        next is Listening <==> step is RestrictSocket && reply is Done,
        next is RemoveSocket <==> step is RestrictSocket && reply is Failed,
        reply is Failed && step !is RestrictSocket && step !is InspectDirectory ==> next is Fail,
        step is RemoveSocket ==> next == SocketStep::Fail(step->RemoveSocket_0),
        step is InspectStale && (reply is Symlink || reply is Something) ==> next is Fail,
        !(next is InspectDirectory),
{
}

/// A pipe gets a name of letters, digits, hyphens and underscores only, of 1 to 96 bytes: no
/// name can lead elsewhere.
pub proof fn lemma_pipe_name_leads_nowhere_else(
    suffix: &str,
    valid: bool,
    sid: Result<String, PipeSecurityError>,
    result: Result<PipePlan, PipeSecurityError>,
    i: int,
)
    requires
        call_ensures(is_valid_pipe_name, (suffix,), valid),
        call_ensures(create_current_user_pipe, (suffix, sid), result),
        0 <= i < vstd::utf8::encode_utf8(suffix@).len(),
    ensures
        ({
            let bytes = vstd::utf8::encode_utf8(suffix@);
            &&& valid ==> bytes.len() <= 96 && bytes[i] != '\\' as u8 && bytes[i] != '/' as u8
                && bytes[i] != '.' as u8 && bytes[i] != ':' as u8 && bytes[i] != ' ' as u8
                && bytes[i] < 128
            &&& !valid && bytes.len() <= 96 ==> exists|k: int|
                0 <= k < bytes.len() && !('a' as u8 <= #[trigger] bytes[k] <= 'z' as u8 || 'A' as u8
                    <= bytes[k] <= 'Z' as u8 || '0' as u8 <= bytes[k] <= '9' as u8 || bytes[k]
                    == '-' as u8 || bytes[k] == '_' as u8)
            &&& result is Ok <==> valid && sid is Ok
            &&& valid && sid is Err ==> result == Err::<PipePlan, PipeSecurityError>(sid->Err_0)
        }),
{
}

/// A pipe that is taken is told to be taken, and everything else that kept it from being
/// made as what it was.
pub proof fn lemma_taken_pipe_is_told_to_be_taken(
    session_id: u32,
    created: Result<u64, (Option<i32>, IoFailure)>,
    result: Result<WindowsNamedPipeListener, WindowsPipeServerError>,
    code: Option<i32>,
    occupied: bool,
)
    requires
        call_ensures(WindowsNamedPipeListener::bind, (session_id, created), result),
        call_ensures(is_occupied_error, (code,), occupied),
    ensures
        occupied <==> code is Some && (code->0 == 5 || code->0 == 231),
        result is Ok <==> created is Ok,
        result matches Ok(listener) ==> listener.session_id == session_id && listener.pending
            == Some(created->Ok_0) && listener.live == 0 && listener.generation == 0,
        created matches Err((Some(5), failure)) ==> result->Err_0 is EndpointOccupied,
        created matches Err((Some(231), failure)) ==> result->Err_0 is EndpointOccupied,
        created matches Err((None, failure)) ==> result->Err_0
            == WindowsPipeServerError::CreateInstance(failure),
{
}

/// The process of a peer is known only where the system gave all of it, and is never the
/// supervisor's own.
pub proof fn lemma_peer_is_another_process(
    option: Result<(i32, usize), IoFailure>,
    expected_length: usize,
    given: Result<i32, IoFailure>,
    process_id: u32,
    own_process_id: u32,
    peer: Option<AuthenticatedPeerProcessId>,
)
    requires
        call_ensures(peer_pid, (option, expected_length), given),
        call_ensures(
            AuthenticatedPeerProcessId::from_transport,
            (process_id, own_process_id),
            peer,
        ),
    ensures
        given is Ok <==> option is Ok && option->Ok_0.1 == expected_length,
        given is Ok ==> given->Ok_0 == option->Ok_0.0,
        option is Err ==> given->Err_0 == option->Err_0,
        peer is Some <==> process_id != 0 && process_id != own_process_id,
        peer matches Some(peer) ==> peer.number() == process_id,
{
}

/// The supervisor goes on only once it holds the lock: its token is made anew, written to a
/// file of its own and put in place last, and whatever fails on the way is told and leaves
/// no half a token behind. A lock that another holds is worth another try.
pub proof fn lemma_one_supervisor_holds_the_lock(
    paths: PathsView,
    step: AcquireStep,
    reply: AcquireReply,
    next: AcquireStep,
)
    requires
        acquire_answers(step, reply),
        acquire_follows(paths, step, reply, next),
    ensures
        next is OpenLock <==> step is Prepare && reply is Done,
        next is TryLock <==> step is OpenLock && reply is Done,
        next is GenerateToken <==> step is TryLock && reply is Done,
        next is RemoveStaleTemporary <==> step is GenerateToken && reply is Done,
        next is OpenTemporary <==> step is RemoveStaleTemporary && (reply is Done
            || reply->Failed_0.kind@ == "NotFound"@),
        next is WriteTemporary <==> step is OpenTemporary && reply is Done,
        next is FlushTemporary <==> step is WriteTemporary && reply is Done,
        next is Publish <==> step is FlushTemporary && reply is Done,
        next is Acquired <==> step is Publish && reply is Done,
        next is Discard <==> (step is OpenTemporary || step is WriteTemporary || step
            is FlushTemporary || step is Publish) && reply is Failed,
        step is TryLock && reply is WouldBlock ==> next is Fail && next->Fail_0.code
            == ErrorCode::Conflict && next->Fail_0.retryable,
        step is Discard ==> next == AcquireStep::Fail(step->Discard_0),
        step is GenerateToken && reply is Refused ==> next == AcquireStep::Fail(
            reply->Refused_0,
        ),
        !(next is Prepare),
        (next matches AcquireStep::Discard(error) ==> (error.code == ErrorCode::AccessDenied
            <==> reply->Failed_0.kind@ == "PermissionDenied"@)),
        (step is Prepare || step is OpenLock || step is TryLock) && reply is Failed ==> next is Fail
            && (next->Fail_0.code == ErrorCode::AccessDenied <==> reply->Failed_0.kind@
            == "PermissionDenied"@),
{
    if let AcquireStep::Fail(error) = next {
        assert(error@.code == error.code && error@.retryable == error.retryable);
    }
    if let AcquireStep::Discard(error) = next {
        assert(error@.code == error.code);
    }
}

/// A failure of the system is a lack of rights where it says so, and is worth another try
/// exactly where it was interrupted or would have had to wait.
pub proof fn lemma_failure_of_the_system_is_told_for_what_it_is(
    operation: &str,
    path: Option<&str>,
    failure: IoFailure,
    error: AppError,
)
    requires
        call_ensures(io_app_error, (operation, path, failure), error),
    ensures
        error.code == ErrorCode::AccessDenied <==> failure.kind@ == "PermissionDenied"@,
        error.code != ErrorCode::AccessDenied ==> error.code == ErrorCode::PlatformError,
        error.retryable <==> failure.kind@ == "Interrupted"@ || failure.kind@ == "WouldBlock"@,
        error.operation_id is None,
{
    assert(error@.code == error.code && error@.retryable == error.retryable);
    assert(error@.operation_id == crate::error::optional_text(error.operation_id));
}

/// The supervisor lives below the user's own folder, and only where that is absolute.
pub proof fn lemma_supervisor_lives_below_an_absolute_folder(
    platform: Platform,
    folder: Result<UserFolder, IoFailure>,
    result: Result<String, IoFailure>,
)
    requires
        call_ensures(current_user_runtime_root, (platform, folder), result),
    ensures
        result is Ok <==> folder is Ok && is_absolute(platform, folder->Ok_0.path@),
        folder is Err ==> result->Err_0 == folder->Err_0,
        folder is Ok && result is Err ==> result->Err_0.kind@ == "InvalidData"@,
{
}

} // verus!
