//! Saving a launch profile with secrets: everything is checked before a secret
//! is touched, and no secret is stored that could not be cleaned up again.

use vstd::prelude::*;

use crate::error::AppError;
use crate::profiles::{
    ensure_initial_input_matches, holds_references, input_mismatch, is_stored_request,
    matches_request, save_launch_profile_with_secrets, LaunchProfile, SaveLaunchProfileRequest,
    SecretCredential,
};

verus! {

/// The steps of a save.
#[derive(Debug)]
pub enum SaveStep {
    /// Check the request.
    CheckRequest,
    /// Check the profile.
    CheckProfile,
    /// Take the digest by which the request is known again.
    Authenticate,
    /// Make a reference for the next secret.
    MakeReference,
    /// Note that what is stored under a reference may have to be cleaned up.
    Stage { reference: String },
    /// Store the next secret under a reference.
    Put { reference: String },
}

/// A save on its way: the request, the profile, the names of the secrets, and
/// the references of those that have been stored.
#[derive(Debug)]
pub struct SecretSave {
    pub request: SaveLaunchProfileRequest,
    pub profile: LaunchProfile,
    pub names: Vec<String>,
    pub windows: bool,
    pub stored: Vec<SecretCredential>,
    pub step: SaveStep,
}

/// What came of a step.
#[derive(Debug)]
pub enum SaveReply {
    Done,
    Reference(String),
    Failed(AppError),
}

/// What follows.
#[derive(Debug)]
pub enum SaveAction {
    /// Do the step that the save is at.
    Perform(SecretSave),
    /// Store the profile with its references.
    Persist {
        request: SaveLaunchProfileRequest,
        profile: LaunchProfile,
        secrets: Vec<SecretCredential>,
    },
    Fail(AppError),
}

impl SaveStep {
    /// A step that has to do with a secret.
    pub open spec fn is_about_secret(self) -> bool {
        self is MakeReference || self is Stage || self is Put
    }

    /// A reply is one to the step.
    pub open spec fn asks_for(self, reply: SaveReply) -> bool {
        reply is Failed || (reply is Reference <==> self is MakeReference)
    }
}

impl SecretSave {
    /// The references are those of the first names; a secret is worked on only
    /// while one is left and the request was found to be that of the profile.
    pub open spec fn wf(self) -> bool {
        &&& self.stored@.len() <= self.names@.len()
        &&& forall|i: int|
            0 <= i < self.stored@.len() ==> (#[trigger] self.stored@[i]).name@ == self.names@[i]@
        &&& self.step.is_about_secret() ==> self.stored@.len() < self.names@.len()
        &&& self.step.is_about_secret() || self.step is CheckProfile || self.step is Authenticate
            ==> matches_request(self.request, self.profile)
        &&& !self.step.is_about_secret() ==> self.stored@.len() == 0
    }

    pub fn begin(
        request: SaveLaunchProfileRequest,
        profile: LaunchProfile,
        names: Vec<String>,
        windows: bool,
    ) -> (save: Self)
        ensures
            save.wf(),
            save.request == request,
            save.profile == profile,
            save.names == names,
            save.windows == windows,
            save.stored@ == Seq::<SecretCredential>::empty(),
            save.step is CheckRequest,
    {
        SecretSave {
            request,
            profile,
            names,
            windows,
            stored: Vec::new(),
            step: SaveStep::CheckRequest,
        }
    }
}

/// The save goes on at a step, with nothing else changed.
pub open spec fn goes_on(action: SaveAction, save: SecretSave, step: SaveStep) -> bool {
    action == SaveAction::Perform((SecretSave { step, ..save }))
}

/// The save turns to the next secret, with so many stored; where none is left,
/// the profile is stored with a reference for each.
pub open spec fn turns_to_secret(
    action: SaveAction,
    save: SecretSave,
    stored: Seq<SecretCredential>,
) -> bool {
    if stored.len() < save.names@.len() {
        action matches SaveAction::Perform(next) && {
            &&& next == (SecretSave {
                stored: next.stored,
                step: SaveStep::MakeReference,
                ..save
            })
            &&& next.stored@ == stored
        }
    } else {
        action matches SaveAction::Persist { request, profile, secrets } && {
            &&& secrets@ == stored
            &&& profile.id == save.profile.id
            &&& profile.created_at == save.profile.created_at
            &&& profile.updated_at == save.profile.updated_at
            &&& holds_references(save.profile.input@, profile.input@, stored, save.windows)
            &&& is_stored_request(save.request, request, profile)
        }
    }
}

/// What follows a step of a save.
pub open spec fn save_follows(save: SecretSave, reply: SaveReply, action: SaveAction) -> bool {
    match (save.step, reply) {
        (_, SaveReply::Failed(error)) => action == SaveAction::Fail(error),
        (SaveStep::CheckRequest, SaveReply::Done) => if matches_request(
            save.request,
            save.profile,
        ) {
            goes_on(action, save, SaveStep::CheckProfile)
        } else {
            action matches SaveAction::Fail(error) && error@ == input_mismatch()
        },
        (SaveStep::CheckProfile, SaveReply::Done) => goes_on(action, save, SaveStep::Authenticate),
        (SaveStep::Authenticate, SaveReply::Done) => turns_to_secret(action, save, save.stored@),
        (SaveStep::MakeReference, SaveReply::Reference(reference)) => goes_on(
            action,
            save,
            (SaveStep::Stage { reference }),
        ),
        (SaveStep::Stage { reference }, SaveReply::Done) => goes_on(
            action,
            save,
            (SaveStep::Put { reference }),
        ),
        (SaveStep::Put { reference }, SaveReply::Done) => exists|secret: SecretCredential|
            {
                &&& secret.name@ == save.names@[save.stored@.len() as int]@
                &&& secret.credential_reference == reference
                &&& #[trigger] turns_to_secret(action, save, save.stored@.push(secret))
            },
        _ => false,
    }
}

/// Turns to the next secret.
fn turn_to_secret(save: SecretSave) -> (action: SaveAction)
    requires
        save.stored@.len() <= save.names@.len(),
        forall|i: int|
            0 <= i < save.stored@.len() ==> (#[trigger] save.stored@[i]).name@ == save.names@[i]@,
        matches_request(save.request, save.profile),
    ensures
        turns_to_secret(action, save, save.stored@),
        action matches SaveAction::Perform(next) ==> next.wf(),
        !(action is Fail),
{
    if save.stored.len() < save.names.len() {
        let mut save = save;
        save.step = SaveStep::MakeReference;
        return SaveAction::Perform(save);
    }
    let SecretSave { request, profile, names, windows, stored, step } = save;
    match save_launch_profile_with_secrets(request, profile, &stored, windows) {
        Ok((request, profile)) => SaveAction::Persist { request, profile, secrets: stored },
        Err(error) => SaveAction::Fail(error),
    }
}

/// Moves the save of a profile with secrets on by one step.
pub fn advance_secret_save(save: SecretSave, reply: SaveReply) -> (action: SaveAction)
    requires
        save.wf(),
        save.step.asks_for(reply),
    ensures
        save_follows(save, reply, action),
        action matches SaveAction::Perform(next) ==> next.wf(),
{
    let SecretSave { request, profile, names, windows, stored, step } = save;
    let (step, stored): (SaveStep, Vec<SecretCredential>) = match (step, reply) {
        (_, SaveReply::Failed(error)) => return SaveAction::Fail(error),
        (SaveStep::CheckRequest, SaveReply::Done) => {
            match ensure_initial_input_matches(&request, &profile) {
                Ok(_) => (SaveStep::CheckProfile, stored),
                Err(error) => return SaveAction::Fail(error),
            }
        },
        (SaveStep::CheckProfile, SaveReply::Done) => (SaveStep::Authenticate, stored),
        (SaveStep::Authenticate, SaveReply::Done) => {
            return turn_to_secret(
                SecretSave {
                    request,
                    profile,
                    names,
                    windows,
                    stored,
                    step: SaveStep::Authenticate,
                },
            );
        },
        (SaveStep::MakeReference, SaveReply::Reference(reference)) => (
            SaveStep::Stage { reference },
            stored,
        ),
        (SaveStep::Stage { reference }, SaveReply::Done) => (SaveStep::Put { reference }, stored),
        (SaveStep::Put { reference }, SaveReply::Done) => {
            let mut stored = stored;
            let name = names[stored.len()].clone();
            let secret = SecretCredential { name, credential_reference: reference };
            let ghost kept = secret;
            stored.push(secret);
            let ghost full = stored@;
            let action = turn_to_secret(
                SecretSave {
                    request,
                    profile,
                    names,
                    windows,
                    stored,
                    step: SaveStep::MakeReference,
                },
            );
            assert(full == save.stored@.push(kept));
            assert(turns_to_secret(action, save, save.stored@.push(kept)));
            return action;
        },
        _ => vstd::pervasive::unreached(),
    };
    SaveAction::Perform(SecretSave { request, profile, names, windows, stored, step })
}

/// A save as it went on: the save at each step, and what came of it.
pub struct SaveTrace {
    pub saves: Seq<SecretSave>,
    pub replies: Seq<SaveReply>,
    pub actions: Seq<SaveAction>,
}

impl SaveTrace {
    /// It begins with the check of the request, and each step follows from the
    /// one before.
    pub open spec fn wf(self) -> bool {
        &&& self.saves.len() == self.replies.len()
        &&& self.saves.len() == self.actions.len()
        &&& self.saves.len() > 0 ==> self.saves[0].step is CheckRequest
        &&& forall|i: int|
            0 <= i < self.saves.len() ==> {
                &&& (#[trigger] self.saves[i]).wf()
                &&& self.saves[i].step.asks_for(self.replies[i])
                &&& save_follows(self.saves[i], self.replies[i], self.actions[i])
                &&& i + 1 < self.saves.len() ==> self.actions[i] == SaveAction::Perform(
                    self.saves[i + 1],
                )
            }
    }
}

/// A reference was staged, and then its secret was stored.
pub open spec fn was_put(trace: SaveTrace, reference: Seq<char>, at: int) -> bool {
    &&& 0 < at < trace.saves.len()
    &&& trace.saves[at - 1].step matches SaveStep::Stage { reference: staged }
        && staged@ == reference
    &&& trace.replies[at - 1] is Done
    &&& trace.saves[at].step matches SaveStep::Put { reference: put } && put@ == reference
    &&& trace.replies[at] is Done
}

/// No secret is worked on before the request and the profile have been checked.
pub proof fn lemma_checks_come_first(trace: SaveTrace, at: int)
    requires
        trace.wf(),
        0 <= at < trace.saves.len(),
    ensures
        at == 0 ==> trace.saves[at].step is CheckRequest,
        at == 1 ==> trace.saves[at].step is CheckProfile,
        at == 2 ==> trace.saves[at].step is Authenticate,
        trace.saves[at].step.is_about_secret() ==> at >= 3 && trace.saves[0].step is CheckRequest
            && trace.replies[0] is Done && trace.saves[1].step is CheckProfile
            && trace.replies[1] is Done && trace.saves[2].step is Authenticate
            && trace.replies[2] is Done,
        at >= 3 ==> trace.saves[at].step.is_about_secret(),
    decreases at,
{
    if at > 0 {
        lemma_checks_come_first(trace, at - 1);
        assert(trace.saves[at - 1].wf());
        assert(trace.saves[at].wf());
        assert(save_follows(trace.saves[at - 1], trace.replies[at - 1], trace.actions[at - 1]));
        assert(trace.actions[at - 1] == SaveAction::Perform(trace.saves[at]));
        if at >= 3 {
            lemma_checks_come_first(trace, 0);
            lemma_checks_come_first(trace, 1);
            lemma_checks_come_first(trace, 2);
            assert(trace.saves[0].wf() && trace.saves[1].wf() && trace.saves[2].wf());
            assert(trace.actions[0] == SaveAction::Perform(trace.saves[1]));
            assert(trace.actions[1] == SaveAction::Perform(trace.saves[2]));
            assert(trace.actions[2] == SaveAction::Perform(trace.saves[3]));
        }
    }
}

/// A secret is stored only after its reference was staged for clean-up.
pub proof fn lemma_secret_is_staged_before_it_is_put(trace: SaveTrace, at: int)
    requires
        trace.wf(),
        0 <= at < trace.saves.len(),
        trace.saves[at].step is Put,
    ensures
        at > 0,
        trace.saves[at - 1].step is Stage,
        trace.saves[at - 1].step->Stage_reference == trace.saves[at].step->Put_reference,
        trace.replies[at - 1] is Done,
{
    if at > 0 {
        assert(trace.saves[at - 1].wf());
        assert(trace.actions[at - 1] == SaveAction::Perform(trace.saves[at]));
    }
}

/// Each reference that stands for a secret is one under which the secret was
/// stored, after it had been staged.
pub proof fn lemma_references_were_put(trace: SaveTrace, at: int, place: int)
    requires
        trace.wf(),
        0 <= at < trace.saves.len(),
        0 <= place < trace.saves[at].stored@.len(),
    ensures
        exists|k: int| 0 < k < at && #[trigger] was_put(
            trace,
            trace.saves[at].stored@[place].credential_reference@,
            k,
        ),
    decreases at,
{
    let save = trace.saves[at];
    assert(save.wf());
    if at == 0 {
        assert(save.stored@.len() == 0);
    } else {
        let before = trace.saves[at - 1];
        assert(before.wf());
        assert(trace.actions[at - 1] == SaveAction::Perform(save));
        assert(save_follows(before, trace.replies[at - 1], trace.actions[at - 1]));
        if place < before.stored@.len() {
            assert(save.stored@[place] == before.stored@[place]);
            lemma_references_were_put(trace, at - 1, place);
        } else {
            assert(before.step is Put);
            lemma_secret_is_staged_before_it_is_put(trace, at - 1);
            assert(was_put(trace, save.stored@[place].credential_reference@, at - 1));
        }
    }
}

} // verus!
