//! What saving and deleting launch profiles is for: a profile is what was asked for with
//! its secrets replaced by references, what was carried out is answered again, and
//! credentials that nothing refers to are cleaned up whatever came of the change.

use vstd::prelude::*;

use crate::catalog::SavedFrom;
use crate::credentials::{
    after_cleanup_pass, commit_profile_mutation, decode_lower_hex_nibble, drain_credential_cleanup,
    finish_profile_mutation, key_follows, CleanupDrain, CredentialCleanupStatus, DrainStep,
    KeyReply, KeyStep, ProfileMutation,
};
use crate::error::{AppError, ErrorCode};
use crate::profiles::{
    ensure_initial_input_matches, environment_names_equal, holds_references,
    lemma_secrets_become_references, matches_request, named, names_apart,
    save_launch_profile_with_secrets, secrets_apart, server_profile, with_secrets, EntryView,
    LaunchProfile, SaveLaunchProfileRequest, SecretCredential, ValueView,
};
use crate::saving::{
    profile_delete_follows, profile_save_follows, ProfileDeleteReply, ProfileDeleteStep,
    ProfileSaveReply, ProfileSaveStep,
};
use crate::secrets::{save_follows, SaveAction, SaveReply, SaveStep, SecretSave};
use crate::text::text_before;

verus! {

/// A profile that is to be stored says what was asked for. A new one begins with equal
/// times under its new identifier; a changed one keeps its identifier and its beginning and
/// gets a later time.
pub proof fn lemma_profile_says_what_was_asked_for(
    request: SaveLaunchProfileRequest,
    source: SavedFrom<LaunchProfile>,
    now: Result<String, AppError>,
    result: Result<LaunchProfile, AppError>,
)
    requires
        request is Create <==> source is Allocated,
        call_ensures(server_profile, (&request, source, now), result),
    ensures
        request is Create ==> (result is Ok <==> now is Ok),
        request is Create && now is Err ==> result->Err_0 == now->Err_0,
        result matches Ok(profile) ==> {
            &&& request matches SaveLaunchProfileRequest::Create { input } ==> {
                &&& profile.input@ == input@
                &&& profile.id == source->Allocated_0
                &&& profile.created_at@ == now->Ok_0@ && profile.updated_at@ == now->Ok_0@
            }
            &&& request matches SaveLaunchProfileRequest::Update { input, .. } ==> {
                let current = source->Current_0;
                &&& profile.input@ == input@
                &&& profile.id == current.id && profile.created_at == current.created_at
                &&& text_before(current.updated_at@, profile.updated_at@)
                &&& now is Ok && text_before(current.updated_at@, now->Ok_0@)
                    ==> profile.updated_at@ == now->Ok_0@
            }
        },
{
}

/// A profile fits its request exactly where it says what was asked for and, for a change,
/// is the one that was to be changed.
pub proof fn lemma_profile_fits_its_request(
    request: SaveLaunchProfileRequest,
    profile: LaunchProfile,
    result: Result<(), AppError>,
)
    requires
        call_ensures(ensure_initial_input_matches, (&request, &profile), result),
    ensures
        request matches SaveLaunchProfileRequest::Create { input } ==> (result is Ok <==> input@
            == profile.input@),
        request matches SaveLaunchProfileRequest::Update { profile_id, input, .. } ==> (result
            is Ok <==> input@ == profile.input@ && profile_id@ == profile.id@),
        result matches Err(error) ==> error.code == ErrorCode::Internal,
{
    if let Err(error) = result {
        assert(error@.code == error.code);
    }
}

/// Two names of variables that are equal are one to every system; only on Windows are
/// others one as well.
pub proof fn lemma_equal_names_are_one_everywhere(
    left: &str,
    right: &str,
    windows: bool,
    equal: bool,
    swapped: bool,
)
    requires
        call_ensures(environment_names_equal, (left, right, windows), equal),
        call_ensures(environment_names_equal, (right, left, windows), swapped),
    ensures
        left@ == right@ ==> equal,
        !windows ==> (equal <==> left@ == right@),
        equal == swapped,
{
}

/// Each secret is put in its turn under the reference that was made for it and that was
/// noted before; nothing is persisted before the last was put, and whatever fails ends the
/// save with what failed and without a profile.
pub proof fn lemma_secrets_are_put_one_by_one(
    save: SecretSave,
    reply: SaveReply,
    action: SaveAction,
)
    requires
        save.wf(),
        save.step.asks_for(reply),
        save_follows(save, reply, action),
    ensures
        reply matches SaveReply::Failed(error) ==> action == SaveAction::Fail(error),
        action matches SaveAction::Fail(error) ==> reply == SaveReply::Failed(error) || (save.step
            is CheckRequest && !matches_request(save.request, save.profile) && error.code
            == ErrorCode::Internal),
        action matches SaveAction::Perform(next) ==> {
            &&& next.request == save.request && next.profile == save.profile
            &&& next.names == save.names && next.windows == save.windows
            &&& next.step is CheckProfile <==> save.step is CheckRequest
            &&& next.step is Authenticate <==> save.step is CheckProfile
            &&& next.step is MakeReference <==> save.step is Authenticate || save.step is Put
            &&& next.step is Stage <==> save.step is MakeReference
            &&& next.step is Put <==> save.step is Stage
            &&& !(next.step is CheckRequest)
            &&& next.step matches SaveStep::Stage { reference } ==> reply == SaveReply::Reference(
                reference,
            )
            &&& next.step matches SaveStep::Put { reference } ==> save.step == (SaveStep::Stage {
                reference,
            })
            &&& next.stored@.len() == save.stored@.len() + (if save.step is Put {
                1int
            } else {
                0
            })
            &&& save.step matches SaveStep::Put { reference } ==> {
                &&& next.stored@.last().credential_reference == reference
                &&& next.stored@.last().name@ == save.names@[save.stored@.len() as int]@
            }
            &&& forall|i: int|
                0 <= i < save.stored@.len() ==> #[trigger] next.stored@[i] == save.stored@[i]
            &&& next.step is MakeReference ==> next.stored@.len() < save.names@.len()
        },
        action matches SaveAction::Persist { request, profile, secrets } ==> {
            &&& save.step is Authenticate || save.step is Put
            &&& secrets@.len() == save.names@.len()
            &&& profile.id == save.profile.id && profile.created_at == save.profile.created_at
            &&& profile.updated_at == save.profile.updated_at
            &&& profile.input@.settings == save.profile.input@.settings
            &&& request.says() == profile.input@
            &&& request is Create <==> save.request is Create
            &&& save.step matches SaveStep::Put { reference } ==> secrets@.len() > 0
                && secrets@.last().credential_reference == reference
            &&& forall|i: int|
                0 <= i < save.stored@.len() ==> #[trigger] secrets@[i] == save.stored@[i]
        },
{
    if let SaveAction::Fail(error) = action {
        assert(error@.code == error.code);
    }
}

/// A request is answered at once only where it is bad, was answered before, or cannot be
/// begun; what was carried out before is not carried out again. Once secrets are touched,
/// the save ends by cleaning up. A profile is answered only where it was answered before or
/// was committed.
pub proof fn lemma_save_ends_by_cleaning_up(
    operation_id: Seq<char>,
    windows: bool,
    step: ProfileSaveStep,
    reply: ProfileSaveReply,
    next: ProfileSaveStep,
)
    requires
        step.wf(),
        step.asks_for(reply),
        profile_save_follows(operation_id, windows, step, reply, next),
    ensures
        next is Replay ==> step is CheckRequest && reply->Checked_0 is Ok,
        next is AllocateId || next is LoadCurrent ==> step is Replay && reply->Replayed_0 is Ok
            && reply->Replayed_0->Ok_0 is None,
        next matches ProfileSaveStep::AllocateId { wire } ==> wire.request is Create,
        next matches ProfileSaveStep::LoadCurrent { wire } ==> wire.request is Update,
        next matches ProfileSaveStep::ReadClock { wire, source } ==> {
            &&& step is AllocateId || step is LoadCurrent
            &&& source matches SavedFrom::Allocated(id) ==> reply == ProfileSaveReply::Id(Ok(id))
            &&& source matches SavedFrom::Current(current) ==> reply == ProfileSaveReply::Current(
                Ok(current),
            )
        },
        next matches ProfileSaveStep::Secrets { save } ==> {
            &&& step is ReadClock || step is Secrets
            &&& step matches ProfileSaveStep::ReadClock { wire, source } ==> {
                &&& save.request == wire.request && save.names == wire.names
                &&& save.windows == windows && save.stored@.len() == 0
                &&& save.step is CheckRequest
                &&& save.profile.input@ == wire.request.says()
                &&& source matches SavedFrom::Current(current) ==> save.profile.id == current.id
                    && save.profile.created_at == current.created_at && text_before(
                    current.updated_at@,
                    save.profile.updated_at@,
                )
                &&& source matches SavedFrom::Allocated(id) ==> save.profile.id == id
                    && save.profile.created_at@ == save.profile.updated_at@
            }
        },
        next is Prepare ==> step is Secrets,
        next is Commit <==> step is Prepare && reply->Prepared_0 is Ok,
        next is CleanUp ==> step is Secrets || step is Prepare || step is Commit || step is CleanUp,
        step is Prepare || step is Commit ==> next is Commit || next is CleanUp,
        step is Secrets ==> next is Secrets || next is Prepare || next is CleanUp,
        step is CleanUp ==> next is CleanUp || next is Answered,
        next matches ProfileSaveStep::CleanUp { cleanup } ==> {
            &&& step !is CleanUp ==> (cleanup.result is Ok <==> step is Commit
                && reply->Committed_0 is Ok)
            &&& step !is CleanUp && cleanup.result is Ok ==> cleanup.result == reply->Committed_0
            &&& step matches ProfileSaveStep::CleanUp { cleanup: before } ==> cleanup.result
                == before.result
            &&& step is Commit && cleanup.result is Err ==> cleanup.result->Err_0.retryable
                && cleanup.result->Err_0.code == reply->Committed_0->Err_0.code
            &&& step is Prepare ==> cleanup.result->Err_0 == reply->Prepared_0->Err_0
            &&& step !is CleanUp ==> cleanup.size == 64 && cleanup.drain.passes == 0
                && cleanup.drain.acknowledged == 0
        },
        next matches ProfileSaveStep::Answered { result } ==> {
            &&& step matches ProfileSaveStep::CleanUp { cleanup } ==> (result is Ok
                <==> cleanup.result is Ok) && (result is Ok ==> result == cleanup.result) && (result
                is Err ==> result->Err_0.code == cleanup.result->Err_0.code
                && result->Err_0.retryable == cleanup.result->Err_0.retryable)
            &&& step !is CleanUp && result is Ok ==> reply == ProfileSaveReply::Replayed(
                Ok(Some(result->Ok_0)),
            )
        },
        reply matches ProfileSaveReply::Checked(Err(error)) ==> next == (ProfileSaveStep::Answered {
            result: Err(error),
        }),
        reply matches ProfileSaveReply::Replayed(Err(error)) ==> next
            == (ProfileSaveStep::Answered { result: Err(error) }),
        reply matches ProfileSaveReply::Id(Err(error)) ==> next == (ProfileSaveStep::Answered {
            result: Err(error),
        }),
        reply matches ProfileSaveReply::Current(Err(error)) ==> next
            == (ProfileSaveStep::Answered { result: Err(error) }),
{
    if let ProfileSaveStep::CleanUp { cleanup } = next {
        if let Err(error) = cleanup.result {
            assert(error@.code == error.code && error@.retryable == error.retryable);
        }
    }
    if let ProfileSaveStep::CleanUp { cleanup } = step {
        if let Err(error) = cleanup.result {
            assert(error@.code == error.code && error@.retryable == error.retryable);
        }
    }
    if let ProfileSaveStep::Answered { result: Err(error) } = next {
        assert(error@.code == error.code && error@.retryable == error.retryable);
    }
    if let ProfileSaveReply::Committed(Err(error)) = reply {
        assert(error@.code == error.code);
    }
}

/// A profile is deleted only after the request was checked, was not answered before, and
/// was prepared; whatever came of it, credentials are cleaned up before it is answered, and
/// an answer goes out only once it was checked.
pub proof fn lemma_deletion_ends_by_cleaning_up<T>(
    operation_id: Seq<char>,
    step: ProfileDeleteStep<T>,
    reply: ProfileDeleteReply<T>,
    next: ProfileDeleteStep<T>,
)
    requires
        step.wf(),
        step.asks_for(reply),
        profile_delete_follows(operation_id, step, reply, next),
    ensures
        next is Replay <==> step is CheckRequest && reply->Checked_0 is Ok,
        next is ReadClock <==> step is Replay && reply->Replayed_0 is Ok && reply->Replayed_0->Ok_0
            is None,
        next is Prepare <==> step is ReadClock && reply->Now_0 is Ok,
        next matches ProfileDeleteStep::Prepare { recorded_at } ==> reply
            == ProfileDeleteReply::<T>::Now(Ok(recorded_at)),
        next is Commit <==> step is Prepare && reply->Prepared_0 is Ok,
        step is Commit || (step is Prepare && reply->Prepared_0 is Err) ==> next is CleanUp,
        next matches ProfileDeleteStep::CleanUp { cleanup } ==> {
            &&& step is Commit || step is Prepare || step is CleanUp
            &&& step is Commit ==> (cleanup.result is Ok <==> reply->Committed_0 is Ok)
            &&& step is Commit && cleanup.result is Ok ==> cleanup.result == reply->Committed_0
            &&& step is Commit && cleanup.result is Err ==> cleanup.result->Err_0.retryable
                && cleanup.result->Err_0.code == reply->Committed_0->Err_0.code
            &&& step is Prepare ==> cleanup.result == Err::<T, AppError>(reply->Prepared_0->Err_0)
            &&& step matches ProfileDeleteStep::CleanUp { cleanup: before } ==> cleanup.result
                == before.result
        },
        next matches ProfileDeleteStep::CheckAnswer { answer } ==> (step
            matches ProfileDeleteStep::CleanUp { cleanup } && cleanup.result == Ok::<T, AppError>(
            answer,
        )),
        next matches ProfileDeleteStep::Answered { result: Ok(answer) } ==> reply
            == ProfileDeleteReply::Replayed(Ok(Some(answer))) || (step
            == (ProfileDeleteStep::CheckAnswer { answer }) && reply->Checked_0 is Ok),
        step is CheckAnswer ==> next is Answered,
        step matches ProfileDeleteStep::CleanUp { cleanup } ==> (next
            matches ProfileDeleteStep::Answered { result } ==> cleanup.result is Err && result is Err
            && result->Err_0.code == cleanup.result->Err_0.code),
{
    if let ProfileDeleteStep::CleanUp { cleanup } = next {
        if let Err(error) = cleanup.result {
            assert(error@.code == error.code && error@.retryable == error.retryable);
        }
    }
    if let ProfileDeleteStep::CleanUp { cleanup } = step {
        if let Err(error) = cleanup.result {
            assert(error@.code == error.code);
        }
    }
    if let ProfileDeleteStep::Answered { result: Err(error) } = next {
        assert(error@.code == error.code);
    }
    if let ProfileDeleteReply::Committed(Err(error)) = reply {
        assert(error@.code == error.code);
    }
}

/// Credentials are cleaned up in passes of 64, four of them, and one more that only asks
/// whether any are left: it is complete exactly where a pass found fewer than it asked for,
/// pending where the last pass still found one, and put off where a pass failed. What was
/// cleaned up is counted over all passes.
pub proof fn lemma_clean_up_goes_on_while_there_is_some(
    drain: CleanupDrain,
    reply: Result<u16, AppError>,
    first: DrainStep,
    step: DrainStep,
)
    requires
        drain.wf(),
        call_ensures(drain_credential_cleanup, (), first),
        call_ensures(after_cleanup_pass, (drain, reply), step),
    ensures
        first matches DrainStep::Drain(size, begun) && size == 64 && begun.passes == 0
            && begun.acknowledged == 0,
        step matches DrainStep::Drain(size, next) ==> {
            &&& drain.passes < 4 && next.passes == drain.passes + 1
            &&& reply is Ok && reply->Ok_0 >= 64
            &&& size == (if next.passes < 4 {
                64int
            } else {
                1
            })
            &&& drain.acknowledged + reply->Ok_0 <= 65_535 ==> next.acknowledged
                == drain.acknowledged + reply->Ok_0
        },
        step matches DrainStep::Finished(CredentialCleanupStatus::Deferred { acknowledged, error })
            ==> reply == Err::<u16, AppError>(error) && acknowledged == drain.acknowledged,
        reply is Err ==> step is Finished && step->Finished_0 is Deferred,
        step matches DrainStep::Finished(CredentialCleanupStatus::Complete { acknowledged }) ==> {
            &&& reply is Ok
            &&& drain.passes < 4 ==> reply->Ok_0 < 64
            &&& drain.passes == 4 ==> reply->Ok_0 == 0
            &&& drain.acknowledged + reply->Ok_0 <= 65_535 ==> acknowledged == drain.acknowledged
                + reply->Ok_0
        },
        step matches DrainStep::Finished(CredentialCleanupStatus::Pending { acknowledged })
            ==> drain.passes == 4 && reply is Ok && reply->Ok_0 > 0,
        reply is Ok && drain.passes == 4 && reply->Ok_0 > 0 ==> step is Finished
            && step->Finished_0 is Pending,
{
}

/// What came of a change is told whatever the clean-up gave; a commit that failed is bound
/// to its operation and worth another try.
pub proof fn lemma_clean_up_changes_no_answer<T>(
    result: Result<T, AppError>,
    operation_id: &str,
    status: CredentialCleanupStatus,
    committed: Result<T, AppError>,
    finished: Result<ProfileMutation<T>, AppError>,
)
    requires
        call_ensures(commit_profile_mutation, (result, operation_id), committed),
        call_ensures(finish_profile_mutation, (result, status), finished),
    ensures
        committed is Ok <==> result is Ok,
        finished is Ok <==> result is Ok,
        result matches Ok(value) ==> committed == Ok::<T, AppError>(value)
            && finished->Ok_0.made() == value && finished->Ok_0.cleanup() == status,
        result matches Err(error) ==> {
            &&& committed->Err_0.code == error.code && committed->Err_0.retryable
            &&& committed->Err_0.operation_id is Some && committed->Err_0.operation_id->0@
                == operation_id@
            &&& finished->Err_0.code == error.code && finished->Err_0.retryable == error.retryable
        },
{
    if let Err(error) = result {
        assert(error@.code == error.code && error@.retryable == error.retryable);
        let told = committed->Err_0;
        assert(told@.code == told.code && told@.retryable == told.retryable);
        assert(told@.operation_id == crate::error::optional_text(told.operation_id));
        let ended = finished->Err_0;
        assert(ended@.code == ended.code && ended@.retryable == ended.retryable);
    }
}

/// The key under which saves are known again is read where there is one. A missing one is
/// made only where nothing was saved under one yet, and is used only as it was read back.
pub proof fn lemma_key_is_used_as_it_was_read(step: KeyStep, reply: KeyReply, next: KeyStep)
    requires
        step.asks_for(reply),
        key_follows(step, reply, next),
    ensures
        next is Use ==> (step is Read || step is ReadBack) && reply is Stored && reply->Stored_0
            is Ok && reply->Stored_0->Ok_0@.len() == 64,
        next is Create <==> step is Read && !step->has_profile_save_mutations && reply->Stored_0
            is Err && reply->Stored_0->Err_0.code == ErrorCode::NotFound,
        next is ReadBack <==> step is Create && reply->Created_0 is Ok,
        next is Read <==> step is AskLedger && reply->Ledger_0 is Ok,
        next is Read ==> next->has_profile_save_mutations == reply->Ledger_0->Ok_0,
        !(next is AskLedger),
        step is Read && step->has_profile_save_mutations && reply->Stored_0 is Err ==> next is Fail,
        step is ReadBack && reply->Stored_0 is Err ==> next == KeyStep::Fail(
            reply->Stored_0->Err_0,
        ),
        step is Create && reply->Created_0 is Err ==> next == KeyStep::Fail(
            reply->Created_0->Err_0,
        ),
{
}

/// A digit of a key is read only where it is one of sixteen, and different digits are read
/// differently.
pub proof fn lemma_digit_is_read_once(
    first: u8,
    second: u8,
    one: Option<u8>,
    two: Option<u8>,
)
    requires
        call_ensures(decode_lower_hex_nibble, (first,), one),
        call_ensures(decode_lower_hex_nibble, (second,), two),
    ensures
        one is Some <==> '0' as u8 <= first <= '9' as u8 || 'a' as u8 <= first <= 'f' as u8,
        one is Some ==> one->0 < 16,
        one is Some && two is Some && first < second ==> one->0 < two->0,
        one is Some && two is Some && one == two ==> first == second,
{
}

/// Where no two names are one, a stored profile holds for each secret its reference and
/// nothing else under that name, keeps every other variable as it was, and keeps all its
/// settings; it is stored under the request that asked for it.
pub proof fn lemma_stored_profile_holds_references_for_secrets(
    request: SaveLaunchProfileRequest,
    profile: LaunchProfile,
    secrets: Vec<SecretCredential>,
    windows: bool,
    result: Result<(SaveLaunchProfileRequest, LaunchProfile), AppError>,
    place: int,
)
    requires
        call_ensures(
            save_launch_profile_with_secrets,
            (request, profile, &secrets, windows),
            result,
        ),
        names_apart(profile.input@.environment, windows),
        secrets_apart(secrets@, windows),
        0 <= place < secrets@.len(),
    ensures
        request matches SaveLaunchProfileRequest::Create { input } ==> (result is Ok <==> input@
            == profile.input@),
        result matches Ok((stored_request, stored)) ==> {
            let name = secrets@[place].name@;
            &&& named(stored.input@.environment, name) == seq![
                EntryView {
                    name,
                    value: ValueView::Reference {
                        credential: secrets@[place].credential_reference@,
                    },
                },
            ]
            &&& stored.input@.settings == profile.input@.settings
            &&& stored.id == profile.id && stored.created_at == profile.created_at
            &&& stored.updated_at == profile.updated_at
            &&& stored_request.says() == stored.input@
            &&& stored_request is Create <==> request is Create
        },
        result matches Err(error) ==> error.code == ErrorCode::Internal,
{
    lemma_secrets_become_references(profile.input@.environment, secrets@, windows);
    if let Ok((stored_request, stored)) = result {
        let name = secrets@[place].name@;
        assert(holds_references(profile.input@, stored.input@, secrets@, windows));
        assert(named(stored.input@.environment, name) == named(
            with_secrets(profile.input@.environment, secrets@, windows),
            name,
        ));
    }
    if let Err(error) = result {
        assert(error@.code == error.code);
    }
}

} // verus!
