//! The secrets of launch profiles: the key under which a save is known again,
//! and the clean-up of credentials that nothing refers to.

use vstd::prelude::*;

use crate::error::{plain_error, AppError, ErrorCode, ErrorView};
use crate::random::random_array;
use crate::text::{encode_lower_hex, lower_hex};

verus! {

/// How many credentials one pass of the clean-up takes.
pub const CREDENTIAL_CLEANUP_BATCH_SIZE: u16 = 64;

/// How many passes one clean-up makes before it looks whether more is left.
pub const MAX_CREDENTIAL_CLEANUP_PASSES: usize = 4;

/// What a clean-up of credentials came to.
#[derive(Debug)]
#[allow(inconsistent_fields)]
pub enum CredentialCleanupStatus {
    Complete { acknowledged: u16 },
    Pending { acknowledged: u16 },
    Deferred { acknowledged: u16, error: AppError },
}

/// A clean-up under way: how many passes it has made and how many credentials
/// are gone.
#[derive(Clone, Copy, Debug, PartialEq, Eq, Structural)]
pub struct CleanupDrain {
    pub passes: usize,
    pub acknowledged: u16,
}

/// What to do next in a clean-up.
#[derive(Debug)]
pub enum DrainStep {
    /// Clean up so many credentials at most.
    Drain(u16, CleanupDrain),
    Finished(CredentialCleanupStatus),
}

pub open spec fn saturating_sum(a: u16, b: u16) -> u16 {
    if a + b > u16::MAX {
        u16::MAX
    } else {
        (a + b) as u16
    }
}

/// How many credentials the next pass takes: a batch, and one at last, to see
/// whether any is left.
pub open spec fn pass_size(passes: usize) -> u16 {
    if passes < MAX_CREDENTIAL_CLEANUP_PASSES {
        CREDENTIAL_CLEANUP_BATCH_SIZE
    } else {
        1
    }
}

impl CleanupDrain {
    pub open spec fn wf(self) -> bool {
        self.passes <= MAX_CREDENTIAL_CLEANUP_PASSES
    }
}

/// Begins a clean-up.
pub fn drain_credential_cleanup() -> (step: DrainStep)
    ensures
        step == DrainStep::Drain(
            CREDENTIAL_CLEANUP_BATCH_SIZE,
            CleanupDrain { passes: 0, acknowledged: 0 },
        ),
{
    DrainStep::Drain(
        CREDENTIAL_CLEANUP_BATCH_SIZE,
        CleanupDrain { passes: 0, acknowledged: 0 },
    )
}

/// Takes the answer to a pass in. A pass that takes less than it may ends the
/// clean-up; a failed one puts the rest off.
pub fn after_cleanup_pass(drain: CleanupDrain, reply: Result<u16, AppError>) -> (step: DrainStep)
    requires
        drain.wf(),
    ensures
        match reply {
            Err(error) => step == DrainStep::Finished(
                CredentialCleanupStatus::Deferred { acknowledged: drain.acknowledged, error },
            ),
            Ok(count) => {
                let acknowledged = saturating_sum(drain.acknowledged, count);
                if count < pass_size(drain.passes) {
                    step == DrainStep::Finished(CredentialCleanupStatus::Complete { acknowledged })
                } else if drain.passes == MAX_CREDENTIAL_CLEANUP_PASSES {
                    step == DrainStep::Finished(CredentialCleanupStatus::Pending { acknowledged })
                } else {
                    step == DrainStep::Drain(
                        pass_size((drain.passes + 1) as usize),
                        CleanupDrain { passes: (drain.passes + 1) as usize, acknowledged },
                    )
                }
            },
        },
        match step {
            DrainStep::Drain(size, next) => next.wf() && next.passes == drain.passes + 1,
            _ => true,
        },
{
    let count: u16 = match reply {
        Ok(count) => count,
        Err(error) => return DrainStep::Finished(
            CredentialCleanupStatus::Deferred { acknowledged: drain.acknowledged, error },
        ),
    };
    let acknowledged: u16 = drain.acknowledged.saturating_add(count);
    if drain.passes == MAX_CREDENTIAL_CLEANUP_PASSES {
        if count == 0 {
            return DrainStep::Finished(CredentialCleanupStatus::Complete { acknowledged });
        }
        return DrainStep::Finished(CredentialCleanupStatus::Pending { acknowledged });
    }
    if count < CREDENTIAL_CLEANUP_BATCH_SIZE {
        return DrainStep::Finished(CredentialCleanupStatus::Complete { acknowledged });
    }
    let passes: usize = drain.passes + 1;
    let size: u16 = if passes < MAX_CREDENTIAL_CLEANUP_PASSES {
        CREDENTIAL_CLEANUP_BATCH_SIZE
    } else {
        1
    };
    DrainStep::Drain(size, CleanupDrain { passes, acknowledged })
}

/// What a clean-up came to, in a word.
pub open spec fn cleanup_word(status: CredentialCleanupStatus) -> Seq<char> {
    match status {
        CredentialCleanupStatus::Complete { .. } => "complete"@,
        CredentialCleanupStatus::Pending { .. } => "pending"@,
        CredentialCleanupStatus::Deferred { .. } => "deferred"@,
    }
}

pub fn credential_cleanup_label(status: &CredentialCleanupStatus) -> (label: &'static str)
    ensures
        label@ == cleanup_word(*status),
{
    match status {
        CredentialCleanupStatus::Complete { .. } => "complete",
        CredentialCleanupStatus::Pending { .. } => "pending",
        CredentialCleanupStatus::Deferred { .. } => "deferred",
    }
}

/// A change of a profile that was made, with what the clean-up after it came
/// to.
#[derive(Debug)]
pub struct ProfileMutation<T> {
    value: T,
    credential_cleanup: CredentialCleanupStatus,
}

impl<T> ProfileMutation<T> {
    /// What was made.
    pub closed spec fn made(self) -> T {
        self.value
    }

    /// What the clean-up came to.
    pub closed spec fn cleanup(self) -> CredentialCleanupStatus {
        self.credential_cleanup
    }

    pub fn value(&self) -> (value: &T)
        ensures
            *value == self.made(),
    {
        &self.value
    }

    pub fn credential_cleanup(&self) -> (status: &CredentialCleanupStatus)
        ensures
            *status == self.cleanup(),
    {
        &self.credential_cleanup
    }

    pub fn into_parts(self) -> (parts: (T, CredentialCleanupStatus))
        ensures
            parts == (self.made(), self.cleanup()),
    {
        (self.value, self.credential_cleanup)
    }
}

/// A change of a profile with the clean-up after it: what failed says how far
/// the clean-up came.
pub fn finish_profile_mutation<T>(
    result: Result<T, AppError>,
    cleanup: CredentialCleanupStatus,
) -> (finished: Result<ProfileMutation<T>, AppError>)
    ensures
        match result {
            Ok(value) => finished is Ok && finished->Ok_0.made() == value
                && finished->Ok_0.cleanup() == cleanup,
            Err(error) => finished is Err && finished->Err_0@ == error@.with(
                "credentialCleanup"@,
                cleanup_word(cleanup),
            ),
        },
{
    match result {
        Ok(value) => Ok(ProfileMutation { value, credential_cleanup: cleanup }),
        Err(error) => {
            let label = credential_cleanup_label(&cleanup);
            Err(error.with_detail("credentialCleanup", label))
        },
    }
}

/// A change that could not be committed may be tried again.
pub fn commit_profile_mutation<T>(result: Result<T, AppError>, operation_id: &str) -> (committed:
    Result<T, AppError>)
    ensures
        match result {
            Ok(value) => committed == Ok::<T, AppError>(value),
            Err(error) => committed is Err && committed->Err_0@ == error@.bound_to(
                operation_id@,
            ).retry().with("profileMutationFailurePhase"@, "commit"@),
        },
{
    match result {
        Ok(value) => Ok(value),
        Err(error) => Err(
            error.bind_operation_id(operation_id).as_retryable().with_detail(
                "profileMutationFailurePhase",
                "commit",
            ),
        ),
    }
}

/// The value of a lower-case hexadecimal digit.
pub open spec fn nibble(byte: u8) -> Option<u8> {
    if 48 <= byte <= 57 {
        Some((byte - 48) as u8)
    } else if 97 <= byte <= 102 {
        Some((byte - 87) as u8)
    } else {
        None
    }
}

pub fn decode_lower_hex_nibble(byte: u8) -> (value: Option<u8>)
    ensures
        value == nibble(byte),
{
    if 48 <= byte && byte <= 57 {
        Some(byte - 48)
    } else if 97 <= byte && byte <= 102 {
        Some(byte - 87)
    } else {
        None
    }
}

/// Some bytes are a byte string in lower-case hexadecimal.
pub open spec fn is_hex_of(encoded: Seq<u8>, bytes: Seq<u8>) -> bool {
    &&& encoded.len() == 2 * bytes.len()
    &&& forall|i: int|
        0 <= i < encoded.len() ==> #[trigger] encoded[i] as char == lower_hex(bytes)[i]
}

/// The refusal of a key that was not written by the supervisor.
pub open spec fn invalid_key() -> ErrorView {
    plain_error(
        ErrorCode::PlatformError,
        "profile mutation replay authentication key is invalid"@,
    ).with("state"@, "invalidCredentialMaterial"@)
}

fn invalid_profile_mutation_hmac_key() -> (error: AppError)
    ensures
        error@ == invalid_key(),
{
    AppError::new(
        ErrorCode::PlatformError,
        "profile mutation replay authentication key is invalid",
    ).with_detail("state", "invalidCredentialMaterial")
}

/// Reads a key that was stored in hexadecimal: 32 bytes, in lower case.
pub fn decode_profile_mutation_hmac_key(encoded: &[u8]) -> (result: Result<[u8; 32], AppError>)
    ensures
        match result {
            Ok(key) => is_hex_of(encoded@, key@),
            Err(error) => error@ == invalid_key() && forall|key: Seq<u8>|
                key.len() == 32 ==> !#[trigger] is_hex_of(encoded@, key),
        },
{
    if encoded.len() != 64 {
        return Err(invalid_profile_mutation_hmac_key());
    }
    let mut key: [u8; 32] = [0u8;32];
    let mut i: usize = 0;
    while i < 32
        invariant
            i <= 32,
            encoded@.len() == 64,
            forall|k: int|
                0 <= k < 2 * i ==> #[trigger] encoded@[k] as char == lower_hex(key@)[k],
        decreases 32 - i,
    {
        let high = decode_lower_hex_nibble(encoded[2 * i]);
        let low = decode_lower_hex_nibble(encoded[2 * i + 1]);
        match (high, low) {
            (Some(high), Some(low)) => {
                let ghost before = key@;
                key[i] = high * 16 + low;
                proof {
                    assert forall|k: int| 0 <= k < 2 * (i + 1) implies #[trigger] encoded@[k] as char
                        == lower_hex(key@)[k] by {
                        if k < 2 * i {
                            assert(lower_hex(key@)[k] == lower_hex(before)[k]);
                        }
                    }
                }
            },
            _ => {
                proof {
                    assert forall|key: Seq<u8>| key.len() == 32 implies !#[trigger] is_hex_of(
                        encoded@,
                        key,
                    ) by {
                        let bad = if high is None { 2 * i } else { 2 * i + 1 };
                        assert(nibble(encoded@[bad]) is None);
                        assert(lower_hex(key)[bad] as int != encoded@[bad] as int);
                    }
                }
                return Err(invalid_profile_mutation_hmac_key());
            },
        }
        i += 1;
    }
    Ok(key)
}

/// A key that was written in hexadecimal is read back as it was, and as no
/// other.
pub proof fn lemma_key_round_trip(encoded: Seq<u8>, key: Seq<u8>, other: Seq<u8>)
    requires
        key.len() == 32,
        other.len() == 32,
        encoded.len() == 64,
        forall|i: int| 0 <= i < 64 ==> #[trigger] encoded[i] as char == lower_hex(key)[i],
    ensures
        is_hex_of(encoded, key),
        is_hex_of(encoded, other) ==> other == key,
{
    if is_hex_of(encoded, other) {
        assert forall|i: int| 0 <= i < 32 implies key[i] == other[i] by {
            assert(encoded[2 * i] as char == lower_hex(key)[2 * i]);
            assert(encoded[2 * i] as char == lower_hex(other)[2 * i]);
            assert(encoded[2 * i + 1] as char == lower_hex(key)[2 * i + 1]);
            assert(encoded[2 * i + 1] as char == lower_hex(other)[2 * i + 1]);
            assert((2 * i) / 2 == i && (2 * i + 1) / 2 == i);
        }
        assert(key =~= other);
    }
}

/// A new key as it is stored; the refusal gives the reason where the operating
/// system has no random bytes.
pub fn create_profile_mutation_hmac_key() -> (result: Result<String, AppError>)
    ensures
        match result {
            Ok(encoded) => exists|key: Seq<u8>| key.len() == 32 && encoded@ == #[trigger] lower_hex(key),
            Err(error) => exists|reason: Seq<char>|
                error@ == #[trigger] plain_error(
                    ErrorCode::PlatformError,
                    "failed to generate the profile mutation authentication key"@,
                ).retry().with("reason"@, reason),
        },
{
    match random_array::<32>() {
        Ok(key) => {
            let encoded = encode_lower_hex(key.as_slice());
            assert(encoded@ == lower_hex(key@));
            Ok(encoded)
        },
        Err(reason) => Err(
            AppError::new(
                ErrorCode::PlatformError,
                "failed to generate the profile mutation authentication key",
            ).as_retryable().with_detail("reason", reason.as_str()),
        ),
    }
}

/// The refusal to start without the key under which saves are known.
pub open spec fn missing_key() -> ErrorView {
    plain_error(
        ErrorCode::StorageError,
        "profile mutation replay authentication key is missing"@,
    ).with("state"@, "missingKeyWithExistingLedger"@)
}

/// Where the search for the key stands: what is to be done next.
#[derive(Debug)]
pub enum KeyStep {
    /// Ask whether anything was saved under a key.
    AskLedger,
    /// Read the key.
    Read { has_profile_save_mutations: bool },
    /// There is none, and none was ever used: make one and store it.
    Create,
    /// Read the key that was stored.
    ReadBack,
    Use([u8; 32]),
    Fail(AppError),
}

/// What came of a step.
#[derive(Debug)]
pub enum KeyReply {
    Ledger(Result<bool, AppError>),
    Stored(Result<Vec<u8>, AppError>),
    Created(Result<(), AppError>),
}

impl KeyStep {
    /// A reply is one to what was asked.
    pub open spec fn asks_for(self, reply: KeyReply) -> bool {
        match self {
            KeyStep::AskLedger => reply is Ledger,
            KeyStep::Read { .. } => reply is Stored,
            KeyStep::Create => reply is Created,
            KeyStep::ReadBack => reply is Stored,
            _ => false,
        }
    }
}

/// The key is used as it was written, or refused where it is none.
pub open spec fn is_read(encoded: Seq<u8>, next: KeyStep) -> bool {
    match next {
        KeyStep::Use(key) => is_hex_of(encoded, key@),
        KeyStep::Fail(error) => error@ == invalid_key() && forall|key: Seq<u8>|
            key.len() == 32 ==> !#[trigger] is_hex_of(encoded, key),
        _ => false,
    }
}

/// What follows a step of the search for the key.
pub open spec fn key_follows(step: KeyStep, reply: KeyReply, next: KeyStep) -> bool {
    match (step, reply) {
        (KeyStep::AskLedger, KeyReply::Ledger(reply)) => match reply {
            Ok(has_profile_save_mutations) => next == KeyStep::Read { has_profile_save_mutations },
            Err(error) => next == KeyStep::Fail(error),
        },
        (KeyStep::Read { has_profile_save_mutations }, KeyReply::Stored(reply)) => match reply {
            Ok(encoded) => is_read(encoded@, next),
            Err(error) => if error.code != ErrorCode::NotFound {
                next == KeyStep::Fail(error)
            } else if has_profile_save_mutations {
                next is Fail && next->Fail_0@ == missing_key()
            } else {
                next is Create
            },
        },
        (KeyStep::Create, KeyReply::Created(reply)) => match reply {
            Ok(_) => next is ReadBack,
            Err(error) => next == KeyStep::Fail(error),
        },
        (KeyStep::ReadBack, KeyReply::Stored(reply)) => match reply {
            Ok(encoded) => is_read(encoded@, next),
            Err(error) => next == KeyStep::Fail(error),
        },
        _ => false,
    }
}

fn read_key(encoded: Vec<u8>) -> (next: KeyStep)
    ensures
        is_read(encoded@, next),
{
    match decode_profile_mutation_hmac_key(encoded.as_slice()) {
        Ok(key) => KeyStep::Use(key),
        Err(error) => KeyStep::Fail(error),
    }
}

/// Moves the search for the key on by one step. A key that is gone is made anew
/// only where nothing was saved under it, and one that was made is used only as
/// it is read back.
pub fn initialize_profile_mutation_hmac_key(step: KeyStep, reply: KeyReply) -> (next: KeyStep)
    requires
        step.asks_for(reply),
    ensures
        key_follows(step, reply, next),
{
    match (step, reply) {
        (KeyStep::AskLedger, KeyReply::Ledger(reply)) => match reply {
            Ok(has_profile_save_mutations) => KeyStep::Read { has_profile_save_mutations },
            Err(error) => KeyStep::Fail(error),
        },
        (KeyStep::Read { has_profile_save_mutations }, KeyReply::Stored(reply)) => match reply {
            Ok(encoded) => read_key(encoded),
            Err(error) => if error.code != ErrorCode::NotFound {
                KeyStep::Fail(error)
            } else if has_profile_save_mutations {
                KeyStep::Fail(
                    AppError::new(
                        ErrorCode::StorageError,
                        "profile mutation replay authentication key is missing",
                    ).with_detail("state", "missingKeyWithExistingLedger"),
                )
            } else {
                KeyStep::Create
            },
        },
        (KeyStep::Create, KeyReply::Created(reply)) => match reply {
            Ok(_) => KeyStep::ReadBack,
            Err(error) => KeyStep::Fail(error),
        },
        (KeyStep::ReadBack, KeyReply::Stored(reply)) => match reply {
            Ok(encoded) => read_key(encoded),
            Err(error) => KeyStep::Fail(error),
        },
        _ => vstd::pervasive::unreached(),
    }
}

/// A key is made only where none is found and nothing was saved under one, and a
/// second is never made: what follows the making is the reading back, and what
/// follows that is the end.
pub proof fn lemma_key_is_made_once(step: KeyStep, reply: KeyReply, next: KeyStep)
    requires
        step.asks_for(reply),
        key_follows(step, reply, next),
    ensures
        next is Create ==> step is Read && !step->has_profile_save_mutations
            && reply->Stored_0 is Err && reply->Stored_0->Err_0.code == ErrorCode::NotFound,
        step is Create ==> next is ReadBack || next is Fail,
        step is ReadBack ==> next is Use || next is Fail,
{
}

} // verus!
