//! Saving and deleting a launch profile from the request to the answer: what was
//! answered before is answered again, and behind every other change credentials
//! that nothing refers to are cleaned up.

use vstd::prelude::*;

use crate::catalog::{update_time, SavedFrom};
use crate::credentials::{
    after_cleanup_pass, cleanup_word, commit_profile_mutation, drain_credential_cleanup,
    finish_profile_mutation, pass_size, saturating_sum, CleanupDrain, CredentialCleanupStatus,
    DrainStep, CREDENTIAL_CLEANUP_BATCH_SIZE, MAX_CREDENTIAL_CLEANUP_PASSES,
};
use crate::error::{AppError, ErrorView};
use crate::profiles::{server_profile, LaunchProfile, SaveLaunchProfileRequest, SecretCredential};
use crate::secrets::{advance_secret_save, save_follows, SaveAction, SaveReply, SecretSave};
use crate::text::text_before;

verus! {

/// A change that was made or failed, while credentials are cleaned up behind it.
#[derive(Debug)]
pub struct Cleanup<T> {
    pub result: Result<T, AppError>,
    pub size: u16,
    pub drain: CleanupDrain,
}

impl<T> Cleanup<T> {
    pub open spec fn wf(self) -> bool {
        self.drain.wf() && self.size == pass_size(self.drain.passes)
    }
}

/// A clean-up begins behind a change.
pub open spec fn cleanup_begins<T>(cleanup: Cleanup<T>) -> bool {
    &&& cleanup.size == CREDENTIAL_CLEANUP_BATCH_SIZE
    &&& cleanup.drain == (CleanupDrain { passes: 0, acknowledged: 0 })
}

/// What a clean-up comes to with a reply, where it ends with it.
pub open spec fn cleanup_end(drain: CleanupDrain, reply: Result<u16, AppError>) -> Option<
    CredentialCleanupStatus,
> {
    match reply {
        Err(error) => Some(
            CredentialCleanupStatus::Deferred { acknowledged: drain.acknowledged, error },
        ),
        Ok(count) => {
            let acknowledged = saturating_sum(drain.acknowledged, count);
            if count < pass_size(drain.passes) {
                Some(CredentialCleanupStatus::Complete { acknowledged })
            } else if drain.passes == MAX_CREDENTIAL_CLEANUP_PASSES {
                Some(CredentialCleanupStatus::Pending { acknowledged })
            } else {
                None
            }
        },
    }
}

/// What follows a pass of a clean-up: another one, or the change with what the
/// clean-up came to.
#[derive(Debug)]
pub enum AfterCleanup<T> {
    Drain(Cleanup<T>),
    Finished(Result<T, AppError>),
}

/// What follows a pass of a clean-up.
pub open spec fn cleanup_follows<T>(
    cleanup: Cleanup<T>,
    reply: Result<u16, AppError>,
    next: AfterCleanup<T>,
) -> bool {
    match cleanup_end(cleanup.drain, reply) {
        None => next matches AfterCleanup::Drain(again) && {
            let passes = (cleanup.drain.passes + 1) as usize;
            &&& again.result == cleanup.result
            &&& again.size == pass_size(passes)
            &&& again.drain == (CleanupDrain {
                passes,
                acknowledged: saturating_sum(cleanup.drain.acknowledged, reply->Ok_0),
            })
        },
        Some(status) => next matches AfterCleanup::Finished(result) && match cleanup.result {
            Ok(value) => result == Ok::<T, AppError>(value),
            Err(error) => result is Err && result->Err_0@ == error@.with(
                "credentialCleanup"@,
                cleanup_word(status),
            ),
        },
    }
}

fn begin_cleanup<T>(result: Result<T, AppError>) -> (cleanup: Cleanup<T>)
    ensures
        cleanup.wf(),
        cleanup_begins(cleanup),
        cleanup.result == result,
{
    match drain_credential_cleanup() {
        DrainStep::Drain(size, drain) => Cleanup { result, size, drain },
        DrainStep::Finished(_) => vstd::pervasive::unreached(),
    }
}

fn go_on_cleaning<T>(cleanup: Cleanup<T>, reply: Result<u16, AppError>) -> (next: AfterCleanup<T>)
    requires
        cleanup.wf(),
    ensures
        cleanup_follows(cleanup, reply, next),
        next matches AfterCleanup::Drain(again) ==> again.wf(),
{
    match after_cleanup_pass(cleanup.drain, reply) {
        DrainStep::Drain(size, drain) => AfterCleanup::Drain(
            Cleanup { result: cleanup.result, size, drain },
        ),
        DrainStep::Finished(status) => AfterCleanup::Finished(
            match finish_profile_mutation(cleanup.result, status) {
                Ok(mutation) => Ok(mutation.into_parts().0),
                Err(error) => Err(error),
            },
        ),
    }
}

/// A request to save a profile, with the names of the secrets that come with it.
#[derive(Debug)]
pub struct SaveWithSecrets {
    pub request: SaveLaunchProfileRequest,
    pub names: Vec<String>,
}

/// What is to be done next for a profile to be saved.
#[derive(Debug)]
#[allow(inconsistent_fields)]
pub enum ProfileSaveStep {
    /// Check the request.
    CheckRequest { wire: SaveWithSecrets },
    /// Ask whether the operation was answered before.
    Replay { wire: SaveWithSecrets },
    /// Find an ID for a new profile.
    AllocateId { wire: SaveWithSecrets },
    /// Read the profile that is stored.
    LoadCurrent { wire: SaveWithSecrets },
    /// Read the clock.
    ReadClock { wire: SaveWithSecrets, source: SavedFrom<LaunchProfile> },
    /// Do the step that the save of the secrets is at.
    Secrets { save: SecretSave },
    /// Prepare the change in the store.
    Prepare {
        request: SaveLaunchProfileRequest,
        profile: LaunchProfile,
        secrets: Vec<SecretCredential>,
    },
    /// Commit the change.
    Commit,
    /// Clean up so many credentials at most.
    CleanUp { cleanup: Cleanup<LaunchProfile> },
    Answered { result: Result<LaunchProfile, AppError> },
}

/// What came of a step.
#[derive(Debug)]
pub enum ProfileSaveReply {
    Checked(Result<(), AppError>),
    Replayed(Result<Option<LaunchProfile>, AppError>),
    Id(Result<String, AppError>),
    Current(Result<LaunchProfile, AppError>),
    Now(Result<String, AppError>),
    Secret(SaveReply),
    Prepared(Result<(), AppError>),
    Committed(Result<LaunchProfile, AppError>),
    Drained(Result<u16, AppError>),
}

impl ProfileSaveStep {
    pub open spec fn wf(self) -> bool {
        match self {
            ProfileSaveStep::AllocateId { wire } => wire.request is Create,
            ProfileSaveStep::LoadCurrent { wire } => wire.request is Update,
            ProfileSaveStep::ReadClock { wire, source } => wire.request is Create <==> source
                is Allocated,
            ProfileSaveStep::Secrets { save } => save.wf(),
            ProfileSaveStep::CleanUp { cleanup } => cleanup.wf(),
            _ => true,
        }
    }

    /// A reply is one to what was asked.
    pub open spec fn asks_for(self, reply: ProfileSaveReply) -> bool {
        match self {
            ProfileSaveStep::CheckRequest { .. } => reply is Checked,
            ProfileSaveStep::Replay { .. } => reply is Replayed,
            ProfileSaveStep::AllocateId { .. } => reply is Id,
            ProfileSaveStep::LoadCurrent { .. } => reply is Current,
            ProfileSaveStep::ReadClock { .. } => reply is Now,
            ProfileSaveStep::Secrets { save } => reply matches ProfileSaveReply::Secret(reply)
                && save.step.asks_for(reply),
            ProfileSaveStep::Prepare { .. } => reply is Prepared,
            ProfileSaveStep::Commit => reply is Committed,
            ProfileSaveStep::CleanUp { .. } => reply is Drained,
            ProfileSaveStep::Answered { .. } => false,
        }
    }
}

/// The profile that a request is for, as it is worked on.
pub open spec fn is_server_profile(
    request: SaveLaunchProfileRequest,
    source: SavedFrom<LaunchProfile>,
    now: Result<String, AppError>,
    profile: LaunchProfile,
) -> bool {
    &&& profile.input@ == request.says()
    &&& match source {
        SavedFrom::Allocated(id) => {
            &&& now is Ok
            &&& profile.id == id
            &&& profile.created_at@ == now->Ok_0@
            &&& profile.updated_at@ == now->Ok_0@
        },
        SavedFrom::Current(current) => {
            &&& profile.id == current.id
            &&& profile.created_at == current.created_at
            &&& update_time(current.updated_at@, now, Ok(profile.updated_at@))
            &&& text_before(current.updated_at@, profile.updated_at@)
        },
    }
}

/// The refusal where no time can be given to a profile.
pub open spec fn time_refusal(
    source: SavedFrom<LaunchProfile>,
    now: Result<String, AppError>,
    error: ErrorView,
) -> bool {
    match source {
        SavedFrom::Allocated(_) => now is Err && error == now->Err_0@,
        SavedFrom::Current(current) => update_time(current.updated_at@, now, Err(error)),
    }
}

/// The change failed or was made: credentials are cleaned up behind it.
pub open spec fn cleans_up(next: ProfileSaveStep, result: Result<LaunchProfile, AppError>) -> bool {
    next matches ProfileSaveStep::CleanUp { cleanup } && cleanup_begins(cleanup) && cleanup.result
        == result
}

/// What the save of the secrets came to where a step follows it.
pub open spec fn secret_action(next: ProfileSaveStep) -> SaveAction {
    match next {
        ProfileSaveStep::Secrets { save } => SaveAction::Perform(save),
        ProfileSaveStep::Prepare { request, profile, secrets } => SaveAction::Persist {
            request,
            profile,
            secrets,
        },
        ProfileSaveStep::CleanUp { cleanup } => SaveAction::Fail(cleanup.result->Err_0),
        _ => arbitrary(),
    }
}

/// The refusal of a change that could not be committed.
pub open spec fn uncommitted(error: ErrorView, operation_id: Seq<char>) -> ErrorView {
    error.bound_to(operation_id).retry().with("profileMutationFailurePhase"@, "commit"@)
}

/// What follows a step of a save.
pub open spec fn profile_save_follows(
    operation_id: Seq<char>,
    windows: bool,
    step: ProfileSaveStep,
    reply: ProfileSaveReply,
    next: ProfileSaveStep,
) -> bool {
    match (step, reply) {
        (ProfileSaveStep::CheckRequest { wire }, ProfileSaveReply::Checked(checked)) => next
            == match checked {
            Ok(_) => ProfileSaveStep::Replay { wire },
            Err(error) => ProfileSaveStep::Answered { result: Err(error) },
        },
        (ProfileSaveStep::Replay { wire }, ProfileSaveReply::Replayed(replayed)) => next
            == match replayed {
            Err(error) => ProfileSaveStep::Answered { result: Err(error) },
            Ok(Some(profile)) => ProfileSaveStep::Answered { result: Ok(profile) },
            Ok(None) => match wire.request {
                SaveLaunchProfileRequest::Create { .. } => ProfileSaveStep::AllocateId { wire },
                SaveLaunchProfileRequest::Update { .. } => ProfileSaveStep::LoadCurrent { wire },
            },
        },
        (ProfileSaveStep::AllocateId { wire }, ProfileSaveReply::Id(allocated)) => next
            == match allocated {
            Ok(id) => ProfileSaveStep::ReadClock { wire, source: SavedFrom::Allocated(id) },
            Err(error) => ProfileSaveStep::Answered { result: Err(error) },
        },
        (ProfileSaveStep::LoadCurrent { wire }, ProfileSaveReply::Current(loaded)) => next
            == match loaded {
            Ok(current) => ProfileSaveStep::ReadClock {
                wire,
                source: SavedFrom::Current(current),
            },
            Err(error) => ProfileSaveStep::Answered { result: Err(error) },
        },
        (ProfileSaveStep::ReadClock { wire, source }, ProfileSaveReply::Now(now)) => match next {
            ProfileSaveStep::Secrets { save } => {
                &&& is_server_profile(wire.request, source, now, save.profile)
                &&& save.request == wire.request
                &&& save.names == wire.names
                &&& save.windows == windows
                &&& save.stored@.len() == 0
                &&& save.step is CheckRequest
            },
            ProfileSaveStep::Answered { result } => result is Err && time_refusal(
                source,
                now,
                result->Err_0@,
            ),
            _ => false,
        },
        (ProfileSaveStep::Secrets { save }, ProfileSaveReply::Secret(reply)) => {
            &&& save_follows(save, reply, secret_action(next))
            &&& match next {
                ProfileSaveStep::Secrets { .. } => true,
                ProfileSaveStep::Prepare { .. } => true,
                ProfileSaveStep::CleanUp { cleanup } => cleanup.result is Err && cleanup_begins(
                    cleanup,
                ),
                _ => false,
            }
        },
        (ProfileSaveStep::Prepare { .. }, ProfileSaveReply::Prepared(prepared)) => match prepared {
            Ok(_) => next is Commit,
            Err(error) => cleans_up(next, Err(error)),
        },
        (ProfileSaveStep::Commit, ProfileSaveReply::Committed(committed)) => match committed {
            Ok(profile) => cleans_up(next, Ok(profile)),
            Err(error) => next matches ProfileSaveStep::CleanUp { cleanup } && cleanup_begins(
                cleanup,
            ) && cleanup.result is Err && cleanup.result->Err_0@ == uncommitted(
                error@,
                operation_id,
            ),
        },
        (ProfileSaveStep::CleanUp { cleanup }, ProfileSaveReply::Drained(drained)) => match next {
            ProfileSaveStep::CleanUp { cleanup: again } => cleanup_follows(
                cleanup,
                drained,
                AfterCleanup::Drain(again),
            ),
            ProfileSaveStep::Answered { result } => cleanup_follows(
                cleanup,
                drained,
                AfterCleanup::Finished(result),
            ),
            _ => false,
        },
        _ => false,
    }
}

/// Moves the save of a profile on by one step.
pub fn save_profile_from_wire(
    operation_id: &str,
    windows: bool,
    step: ProfileSaveStep,
    reply: ProfileSaveReply,
) -> (next: ProfileSaveStep)
    requires
        step.wf(),
        step.asks_for(reply),
    ensures
        next.wf(),
        profile_save_follows(operation_id@, windows, step, reply, next),
{
    match (step, reply) {
        (ProfileSaveStep::CheckRequest { wire }, ProfileSaveReply::Checked(checked)) => {
            match checked {
                Ok(_) => ProfileSaveStep::Replay { wire },
                Err(error) => ProfileSaveStep::Answered { result: Err(error) },
            }
        },
        (ProfileSaveStep::Replay { wire }, ProfileSaveReply::Replayed(replayed)) => {
            match replayed {
                Err(error) => ProfileSaveStep::Answered { result: Err(error) },
                Ok(Some(profile)) => ProfileSaveStep::Answered { result: Ok(profile) },
                Ok(None) => {
                    let create = match &wire.request {
                        SaveLaunchProfileRequest::Create { input: _ } => true,
                        _ => false,
                    };
                    if create {
                        ProfileSaveStep::AllocateId { wire }
                    } else {
                        ProfileSaveStep::LoadCurrent { wire }
                    }
                },
            }
        },
        (ProfileSaveStep::AllocateId { wire }, ProfileSaveReply::Id(allocated)) => {
            match allocated {
                Ok(id) => ProfileSaveStep::ReadClock { wire, source: SavedFrom::Allocated(id) },
                Err(error) => ProfileSaveStep::Answered { result: Err(error) },
            }
        },
        (ProfileSaveStep::LoadCurrent { wire }, ProfileSaveReply::Current(loaded)) => {
            match loaded {
                Ok(current) => ProfileSaveStep::ReadClock {
                    wire,
                    source: SavedFrom::Current(current),
                },
                Err(error) => ProfileSaveStep::Answered { result: Err(error) },
            }
        },
        (ProfileSaveStep::ReadClock { wire, source }, ProfileSaveReply::Now(now)) => {
            match server_profile(&wire.request, source, now) {
                Ok(profile) => ProfileSaveStep::Secrets {
                    save: SecretSave::begin(wire.request, profile, wire.names, windows),
                },
                Err(error) => ProfileSaveStep::Answered { result: Err(error) },
            }
        },
        (ProfileSaveStep::Secrets { save }, ProfileSaveReply::Secret(reply)) => {
            match advance_secret_save(save, reply) {
                SaveAction::Perform(save) => ProfileSaveStep::Secrets { save },
                SaveAction::Persist { request, profile, secrets } => ProfileSaveStep::Prepare {
                    request,
                    profile,
                    secrets,
                },
                SaveAction::Fail(error) => ProfileSaveStep::CleanUp {
                    cleanup: begin_cleanup(Err(error)),
                },
            }
        },
        (
            ProfileSaveStep::Prepare { request: _, profile: _, secrets: _ },
            ProfileSaveReply::Prepared(prepared),
        ) => match prepared {
            Ok(_) => ProfileSaveStep::Commit,
            Err(error) => ProfileSaveStep::CleanUp { cleanup: begin_cleanup(Err(error)) },
        },
        (ProfileSaveStep::Commit, ProfileSaveReply::Committed(committed)) => {
            let result = commit_profile_mutation(committed, operation_id);
            ProfileSaveStep::CleanUp { cleanup: begin_cleanup(result) }
        },
        (ProfileSaveStep::CleanUp { cleanup }, ProfileSaveReply::Drained(drained)) => {
            match go_on_cleaning(cleanup, drained) {
                AfterCleanup::Drain(cleanup) => ProfileSaveStep::CleanUp { cleanup },
                AfterCleanup::Finished(result) => ProfileSaveStep::Answered { result },
            }
        },
        _ => vstd::pervasive::unreached(),
    }
}

/// What is to be done next for a profile to be deleted, which is answered with
/// something.
#[derive(Debug)]
#[allow(inconsistent_fields)]
pub enum ProfileDeleteStep<T> {
    /// Check the request.
    CheckRequest,
    /// Ask whether the operation was answered before.
    Replay,
    /// Read the clock.
    ReadClock,
    /// Prepare the change in the store, as made at a time.
    Prepare { recorded_at: String },
    /// Commit the change.
    Commit,
    /// Clean up so many credentials at most.
    CleanUp { cleanup: Cleanup<T> },
    /// Check the answer.
    CheckAnswer { answer: T },
    Answered { result: Result<T, AppError> },
}

/// What came of a step.
#[derive(Debug)]
pub enum ProfileDeleteReply<T> {
    Checked(Result<(), AppError>),
    Replayed(Result<Option<T>, AppError>),
    Now(Result<String, AppError>),
    Prepared(Result<(), AppError>),
    Committed(Result<T, AppError>),
    Drained(Result<u16, AppError>),
}

impl<T> ProfileDeleteStep<T> {
    pub open spec fn wf(self) -> bool {
        match self {
            ProfileDeleteStep::CleanUp { cleanup } => cleanup.wf(),
            _ => true,
        }
    }

    /// A reply is one to what was asked.
    pub open spec fn asks_for(self, reply: ProfileDeleteReply<T>) -> bool {
        match self {
            ProfileDeleteStep::CheckRequest => reply is Checked,
            ProfileDeleteStep::Replay => reply is Replayed,
            ProfileDeleteStep::ReadClock => reply is Now,
            ProfileDeleteStep::Prepare { .. } => reply is Prepared,
            ProfileDeleteStep::Commit => reply is Committed,
            ProfileDeleteStep::CleanUp { .. } => reply is Drained,
            ProfileDeleteStep::CheckAnswer { .. } => reply is Checked,
            ProfileDeleteStep::Answered { .. } => false,
        }
    }
}

/// What follows a step of a deletion.
pub open spec fn profile_delete_follows<T>(
    operation_id: Seq<char>,
    step: ProfileDeleteStep<T>,
    reply: ProfileDeleteReply<T>,
    next: ProfileDeleteStep<T>,
) -> bool {
    match (step, reply) {
        (ProfileDeleteStep::CheckRequest, ProfileDeleteReply::Checked(checked)) => match checked {
            Ok(_) => next is Replay,
            Err(error) => next == (ProfileDeleteStep::<T>::Answered { result: Err(error) }),
        },
        (ProfileDeleteStep::Replay, ProfileDeleteReply::Replayed(replayed)) => match replayed {
            Err(error) => next == (ProfileDeleteStep::<T>::Answered { result: Err(error) }),
            Ok(Some(answer)) => next == (ProfileDeleteStep::<T>::Answered { result: Ok(answer) }),
            Ok(None) => next is ReadClock,
        },
        (ProfileDeleteStep::ReadClock, ProfileDeleteReply::Now(now)) => match now {
            Ok(recorded_at) => next == (ProfileDeleteStep::<T>::Prepare { recorded_at }),
            Err(error) => next == (ProfileDeleteStep::<T>::Answered { result: Err(error) }),
        },
        (ProfileDeleteStep::Prepare { .. }, ProfileDeleteReply::Prepared(prepared)) => {
            match prepared {
                Ok(_) => next is Commit,
                Err(error) => next matches ProfileDeleteStep::CleanUp { cleanup }
                    && cleanup_begins(cleanup) && cleanup.result == Err::<T, AppError>(error),
            }
        },
        (ProfileDeleteStep::Commit, ProfileDeleteReply::Committed(committed)) => next
            matches ProfileDeleteStep::CleanUp { cleanup } && cleanup_begins(cleanup)
            && match committed {
            Ok(answer) => cleanup.result == Ok::<T, AppError>(answer),
            Err(error) => cleanup.result is Err && cleanup.result->Err_0@ == uncommitted(
                error@,
                operation_id,
            ),
        },
        (ProfileDeleteStep::CleanUp { cleanup }, ProfileDeleteReply::Drained(drained)) => {
            match next {
                ProfileDeleteStep::CleanUp { cleanup: again } => cleanup_follows(
                    cleanup,
                    drained,
                    AfterCleanup::Drain(again),
                ),
                ProfileDeleteStep::CheckAnswer { answer } => cleanup_follows(
                    cleanup,
                    drained,
                    AfterCleanup::Finished(Ok(answer)),
                ),
                ProfileDeleteStep::Answered { result } => result is Err && cleanup_follows(
                    cleanup,
                    drained,
                    AfterCleanup::Finished(result),
                ),
                _ => false,
            }
        },
        (ProfileDeleteStep::CheckAnswer { answer }, ProfileDeleteReply::Checked(checked)) => next
            == (ProfileDeleteStep::<T>::Answered {
            result: match checked {
                Ok(_) => Ok(answer),
                Err(error) => Err(error),
            },
        }),
        _ => false,
    }
}

/// Moves the deletion of a profile on by one step.
pub fn delete_profile<T>(
    operation_id: &str,
    step: ProfileDeleteStep<T>,
    reply: ProfileDeleteReply<T>,
) -> (next: ProfileDeleteStep<T>)
    requires
        step.wf(),
        step.asks_for(reply),
    ensures
        next.wf(),
        profile_delete_follows(operation_id@, step, reply, next),
{
    match (step, reply) {
        (ProfileDeleteStep::CheckRequest, ProfileDeleteReply::Checked(checked)) => match checked {
            Ok(_) => ProfileDeleteStep::Replay,
            Err(error) => ProfileDeleteStep::Answered { result: Err(error) },
        },
        (ProfileDeleteStep::Replay, ProfileDeleteReply::Replayed(replayed)) => match replayed {
            Err(error) => ProfileDeleteStep::Answered { result: Err(error) },
            Ok(Some(answer)) => ProfileDeleteStep::Answered { result: Ok(answer) },
            Ok(None) => ProfileDeleteStep::ReadClock,
        },
        (ProfileDeleteStep::ReadClock, ProfileDeleteReply::Now(now)) => match now {
            Ok(recorded_at) => ProfileDeleteStep::Prepare { recorded_at },
            Err(error) => ProfileDeleteStep::Answered { result: Err(error) },
        },
        (ProfileDeleteStep::Prepare { recorded_at: _ }, ProfileDeleteReply::Prepared(prepared)) => {
            match prepared {
                Ok(_) => ProfileDeleteStep::Commit,
                Err(error) => ProfileDeleteStep::CleanUp { cleanup: begin_cleanup(Err(error)) },
            }
        },
        (ProfileDeleteStep::Commit, ProfileDeleteReply::Committed(committed)) => {
            let result = commit_profile_mutation(committed, operation_id);
            ProfileDeleteStep::CleanUp { cleanup: begin_cleanup(result) }
        },
        (ProfileDeleteStep::CleanUp { cleanup }, ProfileDeleteReply::Drained(drained)) => {
            match go_on_cleaning(cleanup, drained) {
                AfterCleanup::Drain(cleanup) => ProfileDeleteStep::CleanUp { cleanup },
                AfterCleanup::Finished(result) => match result {
                    Ok(answer) => ProfileDeleteStep::CheckAnswer { answer },
                    Err(error) => ProfileDeleteStep::Answered { result: Err(error) },
                },
            }
        },
        (ProfileDeleteStep::CheckAnswer { answer }, ProfileDeleteReply::Checked(checked)) => {
            ProfileDeleteStep::Answered {
                result: match checked {
                    Ok(_) => Ok(answer),
                    Err(error) => Err(error),
                },
            }
        },
        _ => vstd::pervasive::unreached(),
    }
}

/// A save that was answered before is answered again with the same profile, and
/// nothing else is done: no ID is found, no secret is taken in and nothing is
/// stored. Secrets are taken in only behind that question, and once they are,
/// credentials are cleaned up before anything is answered.
pub proof fn lemma_saved_profile_is_answered_again(
    operation_id: Seq<char>,
    windows: bool,
    step: ProfileSaveStep,
    reply: ProfileSaveReply,
    next: ProfileSaveStep,
)
    requires
        step.asks_for(reply),
        profile_save_follows(operation_id, windows, step, reply, next),
    ensures
        reply matches ProfileSaveReply::Replayed(Ok(Some(profile))) ==> next
            == (ProfileSaveStep::Answered { result: Ok(profile) }),
        next is Secrets && step !is Secrets ==> step is ReadClock,
        next is ReadClock ==> step is AllocateId || step is LoadCurrent,
        next is AllocateId || next is LoadCurrent ==> step is Replay
            && reply->Replayed_0 == Ok::<Option<LaunchProfile>, AppError>(None),
        step is Secrets || step is Prepare || step is Commit ==> next !is Answered,
        next is Answered && next->result is Ok ==> step is Replay || step is CleanUp,
{
}

} // verus!
