//! How two peers on one machine come to trust each other: a handshake that
//! proves on both sides that the session token is known, and frames.

use vstd::prelude::*;

use crate::digest::{
    be_bytes, lemma_be_is_unique, lemma_be_length, pow256, push_be_bytes, push_bytes, sha256,
    sha256_digest,
};
use crate::random::os_rng_array;

verus! {

pub const PROTOCOL_MIN_VERSION: u16 = 1;

pub const PROTOCOL_MAX_VERSION: u16 = 1;

pub const MAX_FRAME_BYTES: usize = 1024 * 1024;

pub const MAX_NEGOTIATED_VERSIONS: usize = 16;

/// What both peers know and nobody else does.
pub struct SessionToken([u8; 32]);

impl View for SessionToken {
    type V = Seq<u8>;

    closed spec fn view(&self) -> Seq<u8> {
        self.0@
    }
}

/// The first word of a client: what it can speak, and bytes that nobody used
/// before.
#[derive(Clone, Debug)]
pub struct ClientHello {
    pub supported_versions: Vec<u16>,
    pub client_nonce: [u8; 32],
}

/// What a server answers: what it will speak, its own bytes, and the proof that
/// it knows the token.
#[derive(Clone, Copy, Debug)]
pub struct ServerChallenge {
    pub selected_version: u16,
    pub server_nonce: [u8; 32],
    pub server_proof: [u8; 32],
}

/// The proof that a client knows the token.
#[derive(Clone, Copy, Debug)]
pub struct ClientProof {
    pub proof: [u8; 32],
}

/// A request as it is sent.
#[derive(Clone, Debug)]
pub struct RequestEnvelope<T> {
    pub protocol_version: u16,
    pub request_id: String,
    pub operation_id: Option<String>,
    pub timeout_ms: u32,
    pub method: String,
    pub params: T,
}

/// What can go wrong between two peers.
#[derive(Debug)]
pub enum ProtocolError {
    TooManyVersions,
    IncompatibleVersion,
    AuthenticationFailed,
    MissingLengthPrefix,
    FrameTooLarge,
    FrameLengthMismatch,
    InvalidJson(String),
    /// The operating system gives no random bytes.
    RandomnessUnavailable,
}

/// What an error says.
pub open spec fn protocol_message(error: ProtocolError) -> Seq<char> {
    match error {
        ProtocolError::TooManyVersions => "the peer offered too many protocol versions"@,
        ProtocolError::IncompatibleVersion => "no compatible protocol version"@,
        ProtocolError::AuthenticationFailed => "handshake proof did not match"@,
        ProtocolError::MissingLengthPrefix => {
            "frame is shorter than its four-byte length prefix"@
        },
        ProtocolError::FrameTooLarge => "frame payload exceeds the configured limit"@,
        ProtocolError::FrameLengthMismatch => "frame length does not match the encoded payload"@,
        ProtocolError::InvalidJson(reason) => "invalid JSON payload: "@ + reason@,
        ProtocolError::RandomnessUnavailable => "the operating system gives no random bytes"@,
    }
}

impl ProtocolError {
    pub fn message(&self) -> (message: String)
        ensures
            message@ == protocol_message(*self),
    {
        let text = match self {
            ProtocolError::TooManyVersions => "the peer offered too many protocol versions",
            ProtocolError::IncompatibleVersion => "no compatible protocol version",
            ProtocolError::AuthenticationFailed => "handshake proof did not match",
            ProtocolError::MissingLengthPrefix => {
                "frame is shorter than its four-byte length prefix"
            },
            ProtocolError::FrameTooLarge => "frame payload exceeds the configured limit",
            ProtocolError::FrameLengthMismatch => "frame length does not match the encoded payload",
            ProtocolError::InvalidJson(reason) => {
                return crate::text::join("invalid JSON payload: ", reason.as_str());
            },
            ProtocolError::RandomnessUnavailable => "the operating system gives no random bytes",
        };
        text.to_owned()
    }
}

impl SessionToken {
    /// The token of what the operating system drew: the bytes as they are, or
    /// the refusal where it gave none.
    pub fn from_drawn(drawn: Option<[u8; 32]>) -> (result: Result<Self, ProtocolError>)
        ensures
            match drawn {
                Some(bytes) => result is Ok && result->Ok_0@ == bytes@,
                None => result is Err && result->Err_0 is RandomnessUnavailable,
            },
    {
        match drawn {
            Some(bytes) => Ok(SessionToken::from_bytes(bytes)),
            None => Err(ProtocolError::RandomnessUnavailable),
        }
    }

    /// A new token. It fails only where the operating system gives no random
    /// bytes; of the bytes nothing is said but how many they are.
    pub fn generate() -> (result: Result<Self, ProtocolError>)
        ensures
            match result {
                Ok(token) => token@.len() == 32,
                Err(error) => error is RandomnessUnavailable,
            },
    {
        let drawn = os_rng_array::<32>();
        assert(drawn is Some ==> drawn->0@.len() == 32);
        SessionToken::from_drawn(drawn)
    }

    pub fn from_bytes(value: [u8; 32]) -> (token: Self)
        ensures
            token@ == value@,
            token@.len() == 32,
    {
        SessionToken(value)
    }

    pub fn copy(&self) -> (copy: Self)
        ensures
            copy@ == self@,
    {
        SessionToken(self.0)
    }

    /// How a token shows itself: not at all.
    pub fn debug_text(&self) -> (text: &'static str)
        ensures
            text@ == "SessionToken([REDACTED])"@,
    {
        "SessionToken([REDACTED])"
    }
}

/// The key of an HMAC, brought to the length of a block of SHA-256.
pub open spec fn key_block(key: Seq<u8>) -> Seq<u8> {
    let short = if key.len() > 64 {
        sha256(key)
    } else {
        key
    };
    Seq::new(
        64,
        |i: int|
            if i < short.len() {
                short[i]
            } else {
                0u8
            },
    )
}

/// A block with each byte combined with one byte.
pub open spec fn padded_block(block: Seq<u8>, pad: u8) -> Seq<u8> {
    Seq::new(block.len(), |i: int| block[i] ^ pad)
}

/// HMAC with SHA-256.
pub open spec fn hmac(key: Seq<u8>, message: Seq<u8>) -> Seq<u8> {
    sha256(
        padded_block(key_block(key), 0x5c) + sha256(
            padded_block(key_block(key), 0x36) + message,
        ),
    )
}

fn push_padded(out: &mut Vec<u8>, block: &[u8; 64], pad: u8)
    ensures
        final(out)@ == old(out)@ + padded_block(block@, pad),
{
    let mut i: usize = 0;
    assert(out@ =~= old(out)@ + padded_block(block@, pad).subrange(0, 0));
    while i < 64
        invariant
            i <= 64,
            out@ == old(out)@ + padded_block(block@, pad).subrange(0, i as int),
        decreases 64 - i,
    {
        out.push(block[i] ^ pad);
        i += 1;
        assert(out@ =~= old(out)@ + padded_block(block@, pad).subrange(0, i as int));
    }
    assert(padded_block(block@, pad).subrange(0, 64) =~= padded_block(block@, pad));
}

/// HMAC with SHA-256.
pub fn hmac_sha256(key: &[u8], message: &[u8]) -> (proof: [u8; 32])
    ensures
        proof@ == hmac(key@, message@),
{
    let mut block: [u8; 64] = [0u8;64];
    if key.len() > 64 {
        let short = sha256_digest(key);
        let mut i: usize = 0;
        while i < 32
            invariant
                i <= 32,
                forall|k: int| 0 <= k < i ==> #[trigger] block@[k] == short@[k],
                forall|k: int| i <= k < 64 ==> #[trigger] block@[k] == 0,
            decreases 32 - i,
        {
            block[i] = short[i];
            i += 1;
        }
        assert(block@ =~= key_block(key@));
    } else {
        let mut i: usize = 0;
        while i < key.len()
            invariant
                i <= key@.len() <= 64,
                forall|k: int| 0 <= k < i ==> #[trigger] block@[k] == key@[k],
                forall|k: int| i <= k < 64 ==> #[trigger] block@[k] == 0,
            decreases key@.len() - i,
        {
            block[i] = key[i];
            i += 1;
        }
        assert(block@ =~= key_block(key@));
    }
    let mut inner: Vec<u8> = Vec::new();
    push_padded(&mut inner, &block, 0x36);
    push_bytes(&mut inner, message);
    assert(inner@ =~= padded_block(key_block(key@), 0x36) + message@);
    let inner_digest = sha256_digest(inner.as_slice());
    let mut outer: Vec<u8> = Vec::new();
    push_padded(&mut outer, &block, 0x5c);
    push_bytes(&mut outer, inner_digest.as_slice());
    assert(outer@ =~= padded_block(key_block(key@), 0x5c) + sha256(inner@));
    sha256_digest(outer.as_slice())
}

/// Whether two proofs are the same, in a time that does not depend on where
/// they differ.
pub fn constant_time_eq(left: &[u8; 32], right: &[u8; 32]) -> (equal: bool)
    ensures
        equal == (left@ == right@),
{
    let mut difference: u8 = 0;
    let mut index: usize = 0;
    while index < 32
        invariant
            index <= 32,
            difference == 0 <==> forall|k: int| 0 <= k < index ==> #[trigger] left@[k] == right@[k],
        decreases 32 - index,
    {
        let a: u8 = left[index];
        let b: u8 = right[index];
        assert((difference | (a ^ b)) == 0 <==> difference == 0 && a == b) by (bit_vector);
        difference = difference | (a ^ b);
        assert(left@[index as int] == a && right@[index as int] == b);
        index += 1;
    }
    proof {
        if difference == 0 {
            assert(left@ =~= right@);
        }
    }
    difference == 0
}

/// A side of the handshake.
#[derive(Clone, Copy, Debug, PartialEq, Eq, Structural)]
pub enum Role {
    Client,
    Server,
}

pub open spec fn role_name(role: Role) -> Seq<char> {
    match role {
        Role::Client => "client"@,
        Role::Server => "server"@,
    }
}

/// What a side puts its name to: the protocol, who it is, what is spoken, and
/// both peers' bytes.
pub open spec fn transcript(
    role: Role,
    version: u16,
    client_nonce: Seq<u8>,
    server_nonce: Seq<u8>,
) -> Seq<u8> {
    vstd::utf8::encode_utf8("dev-process-manager/ipc/v1\0"@) + vstd::utf8::encode_utf8(
        role_name(role),
    ) + be_bytes(version as nat, 2) + client_nonce + server_nonce
}

/// The proof that a side knows the token.
pub open spec fn proof_of(
    token: Seq<u8>,
    role: Role,
    version: u16,
    client_nonce: Seq<u8>,
    server_nonce: Seq<u8>,
) -> Seq<u8> {
    hmac(token, transcript(role, version, client_nonce, server_nonce))
}

/// The proof that a side knows the token.
pub fn handshake_proof(
    token: &SessionToken,
    role: Role,
    version: u16,
    client_nonce: &[u8; 32],
    server_nonce: &[u8; 32],
) -> (proof: [u8; 32])
    ensures
        proof@ == proof_of(token@, role, version, client_nonce@, server_nonce@),
{
    let mut message: Vec<u8> = Vec::new();
    push_bytes(&mut message, "dev-process-manager/ipc/v1\0".as_bytes());
    let name = match role {
        Role::Client => "client",
        Role::Server => "server",
    };
    push_bytes(&mut message, name.as_bytes());
    push_be_bytes(&mut message, version as u64, 2);
    push_bytes(&mut message, client_nonce.as_slice());
    push_bytes(&mut message, server_nonce.as_slice());
    assert(message@ =~= transcript(role, version, client_nonce@, server_nonce@));
    hmac_sha256(token.0.as_slice(), message.as_slice())
}

/// A version that this side can speak.
pub open spec fn is_spoken(version: u16) -> bool {
    PROTOCOL_MIN_VERSION <= version <= PROTOCOL_MAX_VERSION
}

/// A version is offered and can be spoken.
pub open spec fn is_common(offered: Seq<u16>, version: u16) -> bool {
    offered.contains(version) && is_spoken(version)
}

/// What two peers will speak: the highest version that both can.
pub fn negotiate_version(offered: &[u16]) -> (result: Result<u16, ProtocolError>)
    ensures
        match result {
            Ok(version) => {
                &&& offered@.len() <= MAX_NEGOTIATED_VERSIONS
                &&& is_common(offered@, version)
                &&& forall|other: u16| #[trigger] is_common(offered@, other) ==> other <= version
            },
            Err(error) => if offered@.len() > MAX_NEGOTIATED_VERSIONS {
                error is TooManyVersions
            } else {
                error is IncompatibleVersion && forall|other: u16|
                    !#[trigger] is_common(offered@, other)
            },
        },
{
    if offered.len() > MAX_NEGOTIATED_VERSIONS {
        return Err(ProtocolError::TooManyVersions);
    }
    let mut best: Option<u16> = None;
    let mut i: usize = 0;
    while i < offered.len()
        invariant
            i <= offered@.len() <= MAX_NEGOTIATED_VERSIONS,
            match best {
                Some(version) => is_common(offered@, version) && forall|k: int|
                    0 <= k < i && is_spoken(#[trigger] offered@[k]) ==> offered@[k] <= version,
                None => forall|k: int| 0 <= k < i ==> !is_spoken(#[trigger] offered@[k]),
            },
        decreases offered@.len() - i,
    {
        let version: u16 = offered[i];
        assert(offered@[i as int] == version);
        if PROTOCOL_MIN_VERSION <= version && version <= PROTOCOL_MAX_VERSION {
            best = match best {
                Some(other) => if other < version {
                    Some(version)
                } else {
                    Some(other)
                },
                None => Some(version),
            };
        }
        i += 1;
    }
    match best {
        Some(version) => Ok(version),
        None => Err(ProtocolError::IncompatibleVersion),
    }
}

/// The first word of a client, from its random bytes: it offers every version
/// that it can speak.
pub fn client_hello(client_nonce: [u8; 32]) -> (hello: ClientHello)
    ensures
        hello.client_nonce == client_nonce,
        hello.supported_versions@.len() == PROTOCOL_MAX_VERSION - PROTOCOL_MIN_VERSION + 1,
        forall|i: int|
            0 <= i < hello.supported_versions@.len() ==> #[trigger] hello.supported_versions@[i]
                == PROTOCOL_MIN_VERSION + i,
{
    let mut supported_versions: Vec<u16> = Vec::new();
    let mut version: u16 = PROTOCOL_MIN_VERSION;
    while version <= PROTOCOL_MAX_VERSION
        invariant
            PROTOCOL_MIN_VERSION <= version <= PROTOCOL_MAX_VERSION + 1,
            supported_versions@.len() == version - PROTOCOL_MIN_VERSION,
            forall|i: int|
                0 <= i < supported_versions@.len() ==> #[trigger] supported_versions@[i]
                    == PROTOCOL_MIN_VERSION + i,
        decreases PROTOCOL_MAX_VERSION + 1 - version,
    {
        supported_versions.push(version);
        version = version + 1;
    }
    ClientHello { supported_versions, client_nonce }
}

/// The first word of a client. It fails only where the operating system gives
/// no random bytes.
pub fn new_client_hello() -> (result: Result<ClientHello, ProtocolError>)
    ensures
        match result {
            Ok(hello) => {
                &&& hello.supported_versions@.len() == PROTOCOL_MAX_VERSION - PROTOCOL_MIN_VERSION
                    + 1
                &&& forall|i: int|
                    0 <= i < hello.supported_versions@.len()
                        ==> #[trigger] hello.supported_versions@[i] == PROTOCOL_MIN_VERSION + i
            },
            Err(error) => error is RandomnessUnavailable,
        },
{
    match os_rng_array::<32>() {
        Some(client_nonce) => Ok(client_hello(client_nonce)),
        None => Err(ProtocolError::RandomnessUnavailable),
    }
}

/// A challenge is one that a holder of the token gives to a hello.
pub open spec fn is_challenge(token: Seq<u8>, hello: ClientHello, challenge: ServerChallenge) -> bool {
    &&& hello.supported_versions@.len() <= MAX_NEGOTIATED_VERSIONS
    &&& is_common(hello.supported_versions@, challenge.selected_version)
    &&& forall|other: u16| #[trigger]
        is_common(hello.supported_versions@, other) ==> other <= challenge.selected_version
    &&& challenge.server_proof@ == proof_of(
        token,
        Role::Server,
        challenge.selected_version,
        hello.client_nonce@,
        challenge.server_nonce@,
    )
}

/// Why a hello is not answered.
pub open spec fn hello_refusal(hello: ClientHello, error: ProtocolError) -> bool {
    if hello.supported_versions@.len() > MAX_NEGOTIATED_VERSIONS {
        error is TooManyVersions
    } else {
        error is IncompatibleVersion && forall|other: u16|
            !#[trigger] is_common(hello.supported_versions@, other)
    }
}

/// The answer of a server to a hello, from its random bytes.
pub fn server_challenge(
    token: &SessionToken,
    hello: &ClientHello,
    server_nonce: [u8; 32],
) -> (result: Result<ServerChallenge, ProtocolError>)
    ensures
        match result {
            Ok(challenge) => challenge.server_nonce == server_nonce && is_challenge(
                token@,
                *hello,
                challenge,
            ),
            Err(error) => hello_refusal(*hello, error),
        },
{
    let selected_version: u16 = match negotiate_version(hello.supported_versions.as_slice()) {
        Ok(version) => version,
        Err(error) => return Err(error),
    };
    let server_proof = handshake_proof(
        token,
        Role::Server,
        selected_version,
        &hello.client_nonce,
        &server_nonce,
    );
    Ok(ServerChallenge { selected_version, server_nonce, server_proof })
}

/// The answer of a server to a hello. Where the versions agree, it fails only
/// where the operating system gives no random bytes.
pub fn create_server_challenge(token: &SessionToken, hello: &ClientHello) -> (result: Result<
    ServerChallenge,
    ProtocolError,
>)
    ensures
        match result {
            Ok(challenge) => is_challenge(token@, *hello, challenge),
            Err(error) => hello_refusal(*hello, error) || error is RandomnessUnavailable,
        },
        hello.supported_versions@.len() > MAX_NEGOTIATED_VERSIONS ==> result is Err
            && result->Err_0 is TooManyVersions,
        hello.supported_versions@.len() <= MAX_NEGOTIATED_VERSIONS && (forall|other: u16|
            !#[trigger] is_common(hello.supported_versions@, other)) ==> result is Err
            && result->Err_0 is IncompatibleVersion,
{
    match negotiate_version(hello.supported_versions.as_slice()) {
        Ok(_) => {},
        Err(error) => return Err(error),
    }
    match os_rng_array::<32>() {
        Some(server_nonce) => server_challenge(token, hello, server_nonce),
        None => Err(ProtocolError::RandomnessUnavailable),
    }
}

/// A client takes a challenge: it is in a version that the client offered, and
/// the server knows the token.
pub open spec fn is_acceptable(token: Seq<u8>, hello: ClientHello, challenge: ServerChallenge) -> bool {
    &&& is_common(hello.supported_versions@, challenge.selected_version)
    &&& challenge.server_proof@ == proof_of(
        token,
        Role::Server,
        challenge.selected_version,
        hello.client_nonce@,
        challenge.server_nonce@,
    )
}

fn offers(versions: &Vec<u16>, version: u16) -> (found: bool)
    ensures
        found == versions@.contains(version),
{
    let mut i: usize = 0;
    while i < versions.len()
        invariant
            i <= versions@.len(),
            forall|k: int| 0 <= k < i ==> #[trigger] versions@[k] != version,
        decreases versions@.len() - i,
    {
        if versions[i] == version {
            assert(versions@[i as int] == version);
            return true;
        }
        i += 1;
    }
    false
}

/// The client proves that it knows the token, to a server that has proved it.
pub fn verify_server_and_create_client_proof(
    token: &SessionToken,
    hello: &ClientHello,
    challenge: &ServerChallenge,
) -> (result: Result<ClientProof, ProtocolError>)
    ensures
        match result {
            Ok(client) => is_acceptable(token@, *hello, *challenge) && client.proof@ == proof_of(
                token@,
                Role::Client,
                challenge.selected_version,
                hello.client_nonce@,
                challenge.server_nonce@,
            ),
            Err(error) => if is_common(hello.supported_versions@, challenge.selected_version) {
                error is AuthenticationFailed && !is_acceptable(token@, *hello, *challenge)
            } else {
                error is IncompatibleVersion
            },
        },
{
    let version: u16 = challenge.selected_version;
    if !offers(&hello.supported_versions, version) || version < PROTOCOL_MIN_VERSION || version
        > PROTOCOL_MAX_VERSION {
        return Err(ProtocolError::IncompatibleVersion);
    }
    let expected = handshake_proof(
        token,
        Role::Server,
        version,
        &hello.client_nonce,
        &challenge.server_nonce,
    );
    if !constant_time_eq(&expected, &challenge.server_proof) {
        return Err(ProtocolError::AuthenticationFailed);
    }
    Ok(
        ClientProof {
            proof: handshake_proof(
                token,
                Role::Client,
                version,
                &hello.client_nonce,
                &challenge.server_nonce,
            ),
        },
    )
}

/// The server takes a client that has proved that it knows the token.
pub fn verify_client_proof(
    token: &SessionToken,
    hello: &ClientHello,
    challenge: &ServerChallenge,
    client_proof: &ClientProof,
) -> (result: Result<(), ProtocolError>)
    ensures
        result is Ok <==> client_proof.proof@ == proof_of(
            token@,
            Role::Client,
            challenge.selected_version,
            hello.client_nonce@,
            challenge.server_nonce@,
        ),
        result is Err ==> result->Err_0 is AuthenticationFailed,
{
    let expected = handshake_proof(
        token,
        Role::Client,
        challenge.selected_version,
        &hello.client_nonce,
        &challenge.server_nonce,
    );
    if constant_time_eq(&expected, &client_proof.proof) {
        Ok(())
    } else {
        Err(ProtocolError::AuthenticationFailed)
    }
}

/// A payload behind its length.
pub open spec fn frame_of(payload: Seq<u8>) -> Seq<u8> {
    be_bytes(payload.len(), 4) + payload
}

/// The payload of a frame.
pub open spec fn is_frame(frame: Seq<u8>, payload: Seq<u8>) -> bool {
    payload.len() <= MAX_FRAME_BYTES && frame == frame_of(payload)
}

/// Puts a payload behind its length.
pub fn encode_frame(payload: &[u8]) -> (result: Result<Vec<u8>, ProtocolError>)
    ensures
        match result {
            Ok(frame) => is_frame(frame@, payload@),
            Err(error) => payload@.len() > MAX_FRAME_BYTES && error is FrameTooLarge,
        },
{
    if payload.len() > MAX_FRAME_BYTES {
        return Err(ProtocolError::FrameTooLarge);
    }
    let mut frame: Vec<u8> = Vec::new();
    push_be_bytes(&mut frame, payload.len() as u64, 4);
    push_bytes(&mut frame, payload);
    assert(frame@ =~= frame_of(payload@));
    Ok(frame)
}

/// The number that four bytes stand for, the highest first.
pub open spec fn be_value(bytes: Seq<u8>) -> nat
    decreases bytes.len(),
{
    if bytes.len() == 0 {
        0
    } else {
        256 * be_value(bytes.drop_last()) + bytes.last() as nat
    }
}

proof fn lemma_be_value(bytes: Seq<u8>)
    ensures
        be_bytes(be_value(bytes), bytes.len()) == bytes,
        be_value(bytes) < pow256(bytes.len()),
    decreases bytes.len(),
{
    if bytes.len() > 0 {
        let rest = bytes.drop_last();
        lemma_be_value(rest);
        let n = be_value(bytes);
        assert(n / 256 == be_value(rest));
        assert(n % 256 == bytes.last() as nat);
        assert(be_bytes(n, bytes.len()) =~= rest.push(bytes.last()));
        assert(rest.push(bytes.last()) =~= bytes);
    }
}

proof fn lemma_value_of_bytes(n: nat, width: nat)
    requires
        n < pow256(width),
    ensures
        be_value(be_bytes(n, width)) == n,
{
    lemma_be_length(n, width);
    lemma_be_value(be_bytes(n, width));
    lemma_be_is_unique(be_value(be_bytes(n, width)), n, width);
}

/// The payload of a frame: it is all that follows the length, and as long as
/// the length says.
pub fn decode_frame<'a>(frame: &'a [u8]) -> (result: Result<&'a [u8], ProtocolError>)
    ensures
        match result {
            Ok(payload) => is_frame(frame@, payload@),
            Err(error) => if frame@.len() < 4 {
                error is MissingLengthPrefix
            } else if be_value(frame@.subrange(0, 4)) > MAX_FRAME_BYTES {
                error is FrameTooLarge
            } else {
                error is FrameLengthMismatch && frame@.len() != 4 + be_value(
                    frame@.subrange(0, 4),
                )
            },
        },
        frame@.len() >= 4 && be_value(frame@.subrange(0, 4)) <= MAX_FRAME_BYTES && frame@.len() == 4
            + be_value(frame@.subrange(0, 4)) ==> result is Ok,
{
    if frame.len() < 4 {
        return Err(ProtocolError::MissingLengthPrefix);
    }
    let payload_len: usize = frame[0] as usize * 16_777_216 + frame[1] as usize * 65_536 + frame[2]
        as usize * 256 + frame[3] as usize;
    proof {
        let prefix = frame@.subrange(0, 4);
        reveal_with_fuel(be_value, 5);
        assert(prefix.drop_last().drop_last().drop_last().drop_last().len() == 0);
        assert(payload_len == be_value(prefix));
    }
    if payload_len > MAX_FRAME_BYTES {
        return Err(ProtocolError::FrameTooLarge);
    }
    if frame.len() != 4 + payload_len {
        return Err(ProtocolError::FrameLengthMismatch);
    }
    let payload = vstd::slice::slice_subrange(frame, 4, frame.len());
    proof {
        lemma_be_value(frame@.subrange(0, 4));
        assert(frame@ =~= frame_of(payload@));
    }
    Ok(payload)
}

/// A frame has one payload: what was put into it, and no other.
pub proof fn lemma_frame_round_trip(payload: Seq<u8>, other: Seq<u8>)
    requires
        payload.len() <= MAX_FRAME_BYTES,
    ensures
        is_frame(frame_of(payload), payload),
        is_frame(frame_of(payload), other) ==> other == payload,
        frame_of(payload).len() == 4 + payload.len(),
        be_value(frame_of(payload).subrange(0, 4)) == payload.len(),
{
    lemma_be_length(payload.len(), 4);
    lemma_be_length(other.len(), 4);
    let frame = frame_of(payload);
    reveal_with_fuel(pow256, 5);
    assert(frame.subrange(0, 4) =~= be_bytes(payload.len(), 4));
    lemma_value_of_bytes(payload.len(), 4);
    assert(frame.subrange(4, frame.len() as int) =~= payload);
    if is_frame(frame, other) {
        assert(frame.subrange(4, frame.len() as int) =~= other);
    }
}

/// Two peers with one token trust each other: what the server answers, the
/// client takes, and what the client then answers, the server takes.
pub proof fn lemma_one_token_means_trust(
    token: SessionToken,
    hello: ClientHello,
    challenge: ServerChallenge,
    answer: Result<ClientProof, ProtocolError>,
    verdict: Result<(), ProtocolError>,
)
    requires
        is_challenge(token@, hello, challenge),
        call_ensures(
            verify_server_and_create_client_proof,
            (&token, &hello, &challenge),
            answer,
        ),
        call_ensures(verify_client_proof, (&token, &hello, &challenge, &answer->Ok_0), verdict),
    ensures
        answer is Ok,
        verdict is Ok,
{
}

/// What one side puts its name to, the other never does, nor the same side in
/// another version or with other bytes.
pub proof fn lemma_transcript_is_unique(
    role: Role,
    version: u16,
    client_nonce: Seq<u8>,
    server_nonce: Seq<u8>,
    other_role: Role,
    other_version: u16,
    other_client_nonce: Seq<u8>,
    other_server_nonce: Seq<u8>,
)
    requires
        client_nonce.len() == 32,
        server_nonce.len() == 32,
        other_client_nonce.len() == 32,
        other_server_nonce.len() == 32,
        transcript(role, version, client_nonce, server_nonce) == transcript(
            other_role,
            other_version,
            other_client_nonce,
            other_server_nonce,
        ),
    ensures
        role == other_role,
        version == other_version,
        client_nonce == other_client_nonce,
        server_nonce == other_server_nonce,
{
    let head = vstd::utf8::encode_utf8("dev-process-manager/ipc/v1\0"@);
    let n = head.len() as int;
    let a = vstd::utf8::encode_utf8(role_name(role));
    let b = vstd::utf8::encode_utf8(role_name(other_role));
    reveal_strlit("client");
    reveal_strlit("server");
    vstd::utf8::is_ascii_chars_encode_utf8("client"@);
    vstd::utf8::is_ascii_chars_encode_utf8("server"@);
    assert(a.len() == 6 && b.len() == 6);
    lemma_be_length(version as nat, 2);
    lemma_be_length(other_version as nat, 2);
    reveal_with_fuel(pow256, 3);
    let x = transcript(role, version, client_nonce, server_nonce);
    let y = transcript(other_role, other_version, other_client_nonce, other_server_nonce);
    assert(x.subrange(n, n + 6) =~= a);
    assert(y.subrange(n, n + 6) =~= b);
    assert("client"@[0] == 'c' && "server"@[0] == 's');
    assert(x.subrange(n + 6, n + 8) =~= be_bytes(version as nat, 2));
    assert(y.subrange(n + 6, n + 8) =~= be_bytes(other_version as nat, 2));
    lemma_be_is_unique(version as nat, other_version as nat, 2);
    assert(x.subrange(n + 8, n + 40) =~= client_nonce);
    assert(y.subrange(n + 8, n + 40) =~= other_client_nonce);
    assert(x.subrange(n + 40, n + 72) =~= server_nonce);
    assert(y.subrange(n + 40, n + 72) =~= other_server_nonce);
}

} // verus!
