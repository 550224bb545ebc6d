//! Launch profiles as they are saved: identity and times are the supervisor's
//! own, and in the environment a reference stands for each secret.

use vstd::prelude::*;

use crate::catalog::{update_time, SavedFrom};
use crate::error::{plain_error, AppError, ErrorCode, ErrorView};
use crate::text::{
    lemma_text_order_is_total, lemma_text_order_is_transitive, same_text, text_before, text_less,
};
use crate::timestamp::timestamp_after;

verus! {

/// What a variable of the environment holds.
#[derive(Debug)]
pub enum EnvironmentValue {
    Literal(String),
    CredentialReference(String),
}

/// A variable of the environment.
#[derive(Debug)]
pub struct EnvironmentEntry {
    pub name: String,
    pub value: EnvironmentValue,
}

/// What a variable of the environment holds.
pub enum ValueView {
    Literal { text: Seq<char> },
    Reference { credential: Seq<char> },
}

/// A variable of the environment.
pub struct EntryView {
    pub name: Seq<char>,
    pub value: ValueView,
}

impl View for EnvironmentEntry {
    type V = EntryView;

    open spec fn view(&self) -> EntryView {
        EntryView {
            name: self.name@,
            value: match self.value {
                EnvironmentValue::Literal(text) => ValueView::Literal { text: text@ },
                EnvironmentValue::CredentialReference(credential) => ValueView::Reference {
                    credential: credential@,
                },
            },
        }
    }
}

impl EnvironmentEntry {
    pub fn same(&self, other: &EnvironmentEntry) -> (same: bool)
        ensures
            same == (self@ == other@),
    {
        same_text(self.name.as_str(), other.name.as_str()) && match (&self.value, &other.value) {
            (EnvironmentValue::Literal(a), EnvironmentValue::Literal(b)) => same_text(
                a.as_str(),
                b.as_str(),
            ),
            (
                EnvironmentValue::CredentialReference(a),
                EnvironmentValue::CredentialReference(b),
            ) => same_text(a.as_str(), b.as_str()),
            _ => false,
        }
    }

    pub fn copy(&self) -> (copy: Self)
        ensures
            copy@ == self@,
    {
        let value = match &self.value {
            EnvironmentValue::Literal(text) => EnvironmentValue::Literal(text.clone()),
            EnvironmentValue::CredentialReference(credential) => {
                EnvironmentValue::CredentialReference(credential.clone())
            },
        };
        EnvironmentEntry { name: self.name.clone(), value }
    }
}

/// An environment.
pub open spec fn environment_of(entries: Seq<EnvironmentEntry>) -> Seq<EntryView> {
    Seq::new(entries.len(), |i: int| entries[i]@)
}

/// What a user says of a profile: its environment, and all else as it is
/// written.
#[derive(Debug)]
pub struct LaunchProfileInput {
    pub settings: String,
    pub environment: Vec<EnvironmentEntry>,
}

/// What a user says of a profile.
#[verifier::ext_equal]
pub struct InputView {
    pub settings: Seq<char>,
    pub environment: Seq<EntryView>,
}

impl View for LaunchProfileInput {
    type V = InputView;

    open spec fn view(&self) -> InputView {
        InputView { settings: self.settings@, environment: environment_of(self.environment@) }
    }
}

impl LaunchProfileInput {
    pub fn same(&self, other: &LaunchProfileInput) -> (same: bool)
        ensures
            same == (self@ == other@),
    {
        if !same_text(self.settings.as_str(), other.settings.as_str()) || self.environment.len()
            != other.environment.len() {
            proof {
                assert(self@.environment.len() == self.environment@.len());
                assert(other@.environment.len() == other.environment@.len());
            }
            return false;
        }
        let mut i: usize = 0;
        while i < self.environment.len()
            invariant
                i <= self.environment@.len(),
                self.environment@.len() == other.environment@.len(),
                forall|k: int|
                    0 <= k < i ==> (#[trigger] self.environment@[k])@ == other.environment@[k]@,
            decreases self.environment@.len() - i,
        {
            if !self.environment[i].same(&other.environment[i]) {
                proof {
                    assert(self@.environment[i as int] == self.environment@[i as int]@);
                    assert(other@.environment[i as int] == other.environment@[i as int]@);
                }
                return false;
            }
            i += 1;
        }
        assert(self@.environment =~= other@.environment);
        true
    }

    pub fn copy(&self) -> (copy: Self)
        ensures
            copy@ == self@,
    {
        let mut environment: Vec<EnvironmentEntry> = Vec::new();
        let mut i: usize = 0;
        while i < self.environment.len()
            invariant
                i <= self.environment@.len(),
                environment@.len() == i,
                forall|k: int| 0 <= k < i ==> (#[trigger] environment@[k])@ == self.environment@[k]@,
            decreases self.environment@.len() - i,
        {
            environment.push(self.environment[i].copy());
            i += 1;
        }
        assert(environment_of(environment@) =~= environment_of(self.environment@));
        LaunchProfileInput { settings: self.settings.clone(), environment }
    }
}

/// A profile as it is stored.
#[derive(Debug)]
pub struct LaunchProfile {
    pub id: String,
    pub input: LaunchProfileInput,
    pub created_at: String,
    pub updated_at: String,
}

/// A request to save a profile.
#[derive(Debug)]
pub enum SaveLaunchProfileRequest {
    Create { input: LaunchProfileInput },
    Update { profile_id: String, expected_updated_at: String, input: LaunchProfileInput },
}

impl SaveLaunchProfileRequest {
    /// What the user says of the profile.
    pub open spec fn says(self) -> InputView {
        match self {
            SaveLaunchProfileRequest::Create { input } => input@,
            SaveLaunchProfileRequest::Update { profile_id, expected_updated_at, input } => input@,
        }
    }
}

/// The profile that a request is for: a new one has one time, and one that is
/// stored keeps its name and its first time, and gets a later second one.
pub fn server_profile(
    request: &SaveLaunchProfileRequest,
    source: SavedFrom<LaunchProfile>,
    now: Result<String, AppError>,
) -> (result: Result<LaunchProfile, AppError>)
    requires
        request is Create <==> source is Allocated,
    ensures
        match source {
            SavedFrom::Allocated(id) => match result {
                Ok(profile) => {
                    &&& now is Ok
                    &&& profile.id == id
                    &&& profile.input@ == request.says()
                    &&& profile.created_at@ == now->Ok_0@
                    &&& profile.updated_at@ == now->Ok_0@
                },
                Err(error) => now is Err && error == now->Err_0,
            },
            SavedFrom::Current(current) => match result {
                Ok(profile) => {
                    &&& profile.id == current.id
                    &&& profile.input@ == request.says()
                    &&& profile.created_at == current.created_at
                    &&& update_time(current.updated_at@, now, Ok(profile.updated_at@))
                    &&& text_before(current.updated_at@, profile.updated_at@)
                },
                Err(error) => update_time(current.updated_at@, now, Err(error@)),
            },
        },
{
    match (request, source) {
        (SaveLaunchProfileRequest::Create { input }, SavedFrom::Allocated(id)) => {
            match timestamp_after(None, now) {
                Ok(timestamp) => Ok(
                    LaunchProfile {
                        id,
                        input: input.copy(),
                        created_at: timestamp.clone(),
                        updated_at: timestamp,
                    },
                ),
                Err(error) => Err(error),
            }
        },
        (
            SaveLaunchProfileRequest::Update { profile_id: _, expected_updated_at: _, input },
            SavedFrom::Current(current),
        ) => match timestamp_after(Some(current.updated_at.as_str()), now) {
            Ok(updated_at) => Ok(
                LaunchProfile {
                    id: current.id,
                    input: input.copy(),
                    created_at: current.created_at,
                    updated_at,
                },
            ),
            Err(error) => Err(error),
        },
        _ => vstd::pervasive::unreached(),
    }
}

/// A profile is the one that a request is for.
pub open spec fn matches_request(request: SaveLaunchProfileRequest, profile: LaunchProfile) -> bool {
    &&& request.says() == profile.input@
    &&& match request {
        SaveLaunchProfileRequest::Create { input } => true,
        SaveLaunchProfileRequest::Update { profile_id, expected_updated_at, input } => profile_id@
            == profile.id@,
    }
}

/// Before a secret is taken in, the profile must be the one that was asked for.
pub fn ensure_initial_input_matches(
    request: &SaveLaunchProfileRequest,
    profile: &LaunchProfile,
) -> (result: Result<(), AppError>)
    ensures
        match result {
            Ok(_) => matches_request(*request, *profile),
            Err(error) => !matches_request(*request, *profile) && error@ == input_mismatch(),
        },
{
    let matches = match request {
        SaveLaunchProfileRequest::Create { input } => input.same(&profile.input),
        SaveLaunchProfileRequest::Update { profile_id, expected_updated_at: _, input } => same_text(
            profile_id.as_str(),
            profile.id.as_str(),
        ) && input.same(&profile.input),
    };
    if matches {
        return Ok(());
    }
    Err(
        AppError::new(
            ErrorCode::Internal,
            "server-owned launch profile does not match the secret save request",
        ).with_detail("field", "input"),
    )
}

/// A byte with a capital letter of ASCII made small.
pub open spec fn small(byte: u8) -> u8 {
    if 65 <= byte <= 90 {
        (byte + 32) as u8
    } else {
        byte
    }
}

/// Two names mean the same variable: on Windows the case of ASCII letters does
/// not matter.
pub open spec fn names_equal(left: Seq<char>, right: Seq<char>, windows: bool) -> bool {
    if windows {
        vstd::utf8::encode_utf8(left).map_values(|byte: u8| small(byte))
            == vstd::utf8::encode_utf8(right).map_values(|byte: u8| small(byte))
    } else {
        left == right
    }
}

fn make_small(byte: u8) -> (made: u8)
    ensures
        made == small(byte),
{
    if 65 <= byte && byte <= 90 {
        byte + 32
    } else {
        byte
    }
}

pub fn environment_names_equal(left: &str, right: &str, windows: bool) -> (equal: bool)
    ensures
        equal == names_equal(left@, right@, windows),
{
    if !windows {
        return same_text(left, right);
    }
    let a = left.as_bytes();
    let b = right.as_bytes();
    let ghost x = a@.map_values(|byte: u8| small(byte));
    let ghost y = b@.map_values(|byte: u8| small(byte));
    if a.len() != b.len() {
        assert(x.len() != y.len());
        return false;
    }
    let mut i: usize = 0;
    while i < a.len()
        invariant
            i <= a@.len(),
            a@.len() == b@.len(),
            windows,
            a@ == vstd::utf8::encode_utf8(left@),
            b@ == vstd::utf8::encode_utf8(right@),
            x == a@.map_values(|byte: u8| small(byte)),
            y == b@.map_values(|byte: u8| small(byte)),
            forall|k: int| 0 <= k < i ==> #[trigger] x[k] == y[k],
        decreases a@.len() - i,
    {
        if make_small(a[i]) != make_small(b[i]) {
            assert(x[i as int] != y[i as int]);
            return false;
        }
        i += 1;
    }
    assert(x =~= y);
    true
}

/// A place is the first that holds a variable.
pub open spec fn first_place(
    environment: Seq<EntryView>,
    name: Seq<char>,
    windows: bool,
    place: int,
) -> bool {
    &&& 0 <= place < environment.len()
    &&& names_equal(environment[place].name, name, windows)
    &&& forall|i: int| 0 <= i < place ==> !names_equal((#[trigger] environment[i]).name, name, windows)
}

/// An environment with a reference for a variable: in the place of the
/// variable where it stands there, and otherwise at the end.
pub open spec fn with_secret(
    environment: Seq<EntryView>,
    name: Seq<char>,
    credential: Seq<char>,
    windows: bool,
) -> Seq<EntryView> {
    let entry = EntryView { name, value: ValueView::Reference { credential } };
    if exists|place: int| first_place(environment, name, windows, place) {
        environment.update(
            choose|place: int| first_place(environment, name, windows, place),
            entry,
        )
    } else {
        environment.push(entry)
    }
}

/// Puts a reference in the place of a secret.
pub fn replace_environment_secret(
    input: &mut LaunchProfileInput,
    name: &str,
    credential_reference: &str,
    windows: bool,
)
    ensures
        final(input)@.settings == old(input)@.settings,
        final(input)@.environment == with_secret(
            old(input)@.environment,
            name@,
            credential_reference@,
            windows,
        ),
{
    let ghost before = input@.environment;
    let entry = EnvironmentEntry {
        name: name.to_owned(),
        value: EnvironmentValue::CredentialReference(credential_reference.to_owned()),
    };
    let mut i: usize = 0;
    while i < input.environment.len()
        invariant
            i <= input.environment@.len(),
            *input == *old(input),
            before == environment_of(input.environment@),
            before == old(input)@.environment,
            entry@ == (EntryView {
                name: name@,
                value: ValueView::Reference { credential: credential_reference@ },
            }),
            forall|k: int|
                0 <= k < i ==> !names_equal((#[trigger] before[k]).name, name@, windows),
        decreases input.environment@.len() - i,
    {
        assert(before[i as int] == input.environment@[i as int]@);
        if environment_names_equal(input.environment[i].name.as_str(), name, windows) {
            proof {
                assert(first_place(before, name@, windows, i as int));
                let place = choose|place: int| first_place(before, name@, windows, place);
                assert(first_place(before, name@, windows, place));
                assert(place == i);
            }
            input.environment.set(i, entry);
            assert(input@.environment =~= before.update(i as int, entry@));
            return;
        }
        i += 1;
    }
    proof {
        assert forall|place: int| !first_place(before, name@, windows, place) by {}
    }
    input.environment.push(entry);
    assert(input@.environment =~= before.push(entry@));
}

/// No variable stands twice in an environment.
pub open spec fn names_apart(environment: Seq<EntryView>, windows: bool) -> bool {
    forall|i: int, j: int|
        0 <= i < j < environment.len() ==> !names_equal(
            (#[trigger] environment[i]).name,
            (#[trigger] environment[j]).name,
            windows,
        )
}

/// A reference stands in the place of its secret, every other variable holds
/// what it held, and where no variable stood twice, none does.
pub proof fn lemma_reference_stands_for_secret(
    environment: Seq<EntryView>,
    name: Seq<char>,
    credential: Seq<char>,
    windows: bool,
)
    ensures
        with_secret(environment, name, credential, windows).contains(
            (EntryView { name, value: ValueView::Reference { credential } }),
        ),
        forall|i: int|
            0 <= i < environment.len() && !names_equal(
                (#[trigger] environment[i]).name,
                name,
                windows,
            ) ==> with_secret(environment, name, credential, windows)[i] == environment[i],
        names_apart(environment, windows) ==> names_apart(
            with_secret(environment, name, credential, windows),
            windows,
        ),
{
    let entry = EntryView { name, value: ValueView::Reference { credential } };
    let after = with_secret(environment, name, credential, windows);
    if exists|place: int| first_place(environment, name, windows, place) {
        let place = choose|place: int| first_place(environment, name, windows, place);
        assert(after[place] == entry);
    } else {
        assert(after[environment.len() as int] == entry);
        assert forall|i: int| 0 <= i < environment.len() implies !names_equal(
            (#[trigger] environment[i]).name,
            name,
            windows,
        ) by {
            if names_equal(environment[i].name, name, windows) {
                let place = lemma_first_place(environment, name, windows, i);
            }
        }
    }
}

proof fn lemma_first_place(
    environment: Seq<EntryView>,
    name: Seq<char>,
    windows: bool,
    i: int,
) -> (place: int)
    requires
        0 <= i < environment.len(),
        names_equal(environment[i].name, name, windows),
    ensures
        first_place(environment, name, windows, place),
    decreases i,
{
    if forall|k: int| 0 <= k < i ==> !names_equal((#[trigger] environment[k]).name, name, windows) {
        i
    } else {
        let earlier = choose|k: int|
            0 <= k < i && names_equal((#[trigger] environment[k]).name, name, windows);
        lemma_first_place(environment, name, windows, earlier)
    }
}

/// An environment in the order of its names.
pub open spec fn in_name_order(environment: Seq<EntryView>) -> bool {
    forall|i: int, j: int|
        0 <= i < j < environment.len() ==> !text_before(
            (#[trigger] environment[j]).name,
            (#[trigger] environment[i]).name,
        )
}

/// The variables of one name, in their order.
pub open spec fn named(environment: Seq<EntryView>, name: Seq<char>) -> Seq<EntryView> {
    environment.filter(|entry: EntryView| entry.name == name)
}

proof fn lemma_none_named(environment: Seq<EntryView>, name: Seq<char>)
    requires
        forall|i: int| 0 <= i < environment.len() ==> (#[trigger] environment[i]).name != name,
    ensures
        named(environment, name) == Seq::<EntryView>::empty(),
    decreases environment.len(),
{
    reveal(Seq::filter);
    if environment.len() > 0 {
        lemma_none_named(environment.drop_last(), name);
        assert(environment.last().name != name);
    }
}

proof fn lemma_named_push(environment: Seq<EntryView>, entry: EntryView, name: Seq<char>)
    ensures
        named(environment.push(entry), name) == if entry.name == name {
            named(environment, name).push(entry)
        } else {
            named(environment, name)
        },
{
    reveal(Seq::filter);
    assert(environment.push(entry).drop_last() =~= environment);
}

/// Putting a variable behind all that its name does not stand before keeps the
/// order of those with one name.
proof fn lemma_named_insert(environment: Seq<EntryView>, entry: EntryView, at: int, name: Seq<char>)
    requires
        0 <= at <= environment.len(),
        forall|i: int|
            at <= i < environment.len() ==> (#[trigger] environment[i]).name != entry.name,
    ensures
        named(environment.insert(at, entry), name) == named(environment.push(entry), name),
    decreases environment.len() - at,
{
    if at == environment.len() {
        assert(environment.insert(at, entry) =~= environment.push(entry));
    } else {
        let last = environment.last();
        let shorter = environment.drop_last();
        assert(environment.insert(at, entry) =~= shorter.insert(at, entry).push(last));
        assert(environment =~= shorter.push(last));
        lemma_named_insert(shorter, entry, at, name);
        lemma_named_push(shorter.insert(at, entry), last, name);
        lemma_named_push(shorter, entry, name);
        lemma_named_push(shorter, last, name);
        lemma_named_push(environment, entry, name);
        assert(last.name != entry.name);
    }
}

/// The variables of an environment in the order of their names; those with one
/// name keep their order.
pub fn sorted_environment(environment: &Vec<EnvironmentEntry>) -> (sorted: Vec<EnvironmentEntry>)
    ensures
        in_name_order(environment_of(sorted@)),
        sorted@.len() == environment@.len(),
        forall|name: Seq<char>| #[trigger]
            named(environment_of(sorted@), name) == named(environment_of(environment@), name),
{
    let mut sorted: Vec<EnvironmentEntry> = Vec::new();
    let mut i: usize = 0;
    assert(environment_of(sorted@) =~= environment_of(environment@.subrange(0, 0)));
    while i < environment.len()
        invariant
            i <= environment@.len(),
            sorted@.len() == i,
            in_name_order(environment_of(sorted@)),
            forall|name: Seq<char>| #[trigger]
                named(environment_of(sorted@), name) == named(
                    environment_of(environment@.subrange(0, i as int)),
                    name,
                ),
        decreases environment@.len() - i,
    {
        let entry = environment[i].copy();
        let mut place: usize = 0;
        while place < sorted.len() && !text_less(entry.name.as_str(), sorted[place].name.as_str())
            invariant
                place <= sorted@.len(),
                forall|k: int|
                    0 <= k < place ==> !text_before(
                        entry.name@,
                        (#[trigger] environment_of(sorted@)[k]).name,
                    ),
            decreases sorted@.len() - place,
        {
            place += 1;
        }
        let ghost before = environment_of(sorted@);
        let ghost added = entry@;
        let ghost shorter = environment_of(environment@.subrange(0, i as int));
        let ghost longer = environment_of(environment@.subrange(0, i + 1));
        sorted.insert(place, entry);
        proof {
            let after = environment_of(sorted@);
            let n = place as int;
            assert(after =~= before.insert(n, added));
            assert(longer =~= shorter.push(added));
            assert forall|k: int| n <= k < before.len() implies text_before(
                added.name,
                (#[trigger] before[k]).name,
            ) by {
                if k > n && !text_before(added.name, before[k].name) {
                    lemma_text_order_is_total(added.name, before[k].name);
                    assert(!text_before(before[k].name, before[n].name));
                    if added.name != before[k].name {
                        lemma_text_order_is_transitive(
                            before[k].name,
                            added.name,
                            before[n].name,
                        );
                    }
                }
            }
            assert forall|a: int, b: int| 0 <= a < b < after.len() implies !text_before(
                (#[trigger] after[b]).name,
                (#[trigger] after[a]).name,
            ) by {
                let x = if a < n { a } else { a - 1 };
                let y = if b < n { b } else { b - 1 };
                if a == n {
                    lemma_text_order_is_total(added.name, before[y].name);
                } else if b == n {
                    assert(!text_before(added.name, before[a].name));
                } else {
                    assert(!text_before(before[y].name, before[x].name));
                }
            }
            assert forall|k: int| n <= k < before.len() implies (#[trigger] before[k]).name
                != added.name by {
                lemma_text_order_is_total(added.name, added.name);
            }
            assert forall|name: Seq<char>| #[trigger] named(after, name) == named(longer, name) by {
                lemma_named_insert(before, added, n, name);
                lemma_named_push(before, added, name);
                lemma_named_push(shorter, added, name);
            }
        }
        i += 1;
    }
    assert(environment@.subrange(0, environment@.len() as int) =~= environment@);
    sorted
}

/// A secret that was stored under a reference.
#[derive(Debug)]
pub struct SecretCredential {
    pub name: String,
    pub credential_reference: String,
}

/// An environment with a reference for each secret.
pub open spec fn with_secrets(
    environment: Seq<EntryView>,
    secrets: Seq<SecretCredential>,
    windows: bool,
) -> Seq<EntryView>
    decreases secrets.len(),
{
    if secrets.len() == 0 {
        environment
    } else {
        let secret = secrets.last();
        with_secret(
            with_secrets(environment, secrets.drop_last(), windows),
            secret.name@,
            secret.credential_reference@,
            windows,
        )
    }
}

/// Secrets of different names.
pub open spec fn secrets_apart(secrets: Seq<SecretCredential>, windows: bool) -> bool {
    forall|i: int, j: int|
        0 <= i < j < secrets.len() ==> !names_equal(
            (#[trigger] secrets[i]).name@,
            (#[trigger] secrets[j]).name@,
            windows,
        )
}

/// The variable that stands for a secret.
pub open spec fn reference_entry(secret: SecretCredential) -> EntryView {
    EntryView {
        name: secret.name@,
        value: ValueView::Reference { credential: secret.credential_reference@ },
    }
}

proof fn lemma_only_one_named(environment: Seq<EntryView>, place: int)
    requires
        0 <= place < environment.len(),
        forall|i: int|
            0 <= i < environment.len() && i != place ==> (#[trigger] environment[i]).name
                != environment[place].name,
    ensures
        named(environment, environment[place].name) == seq![environment[place]],
    decreases environment.len(),
{
    let name = environment[place].name;
    let rest = environment.drop_last();
    assert(environment =~= rest.push(environment.last()));
    lemma_named_push(rest, environment.last(), name);
    if place == environment.len() - 1 {
        lemma_none_named(rest, name);
        assert(Seq::<EntryView>::empty().push(environment[place]) =~= seq![environment[place]]);
    } else {
        lemma_only_one_named(rest, place);
    }
}

/// With secrets of different names, each name has one variable: the reference
/// of its secret. Variables of other names hold what they held.
pub proof fn lemma_secrets_become_references(
    environment: Seq<EntryView>,
    secrets: Seq<SecretCredential>,
    windows: bool,
)
    requires
        names_apart(environment, windows),
        secrets_apart(secrets, windows),
    ensures
        names_apart(with_secrets(environment, secrets, windows), windows),
        forall|i: int|
            0 <= i < secrets.len() ==> with_secrets(environment, secrets, windows).contains(
                reference_entry(#[trigger] secrets[i]),
            ),
        forall|i: int|
            0 <= i < secrets.len() ==> named(
                with_secrets(environment, secrets, windows),
                (#[trigger] secrets[i]).name@,
            ) == seq![reference_entry(secrets[i])],
        forall|entry: EntryView|
            environment.contains(entry) && (forall|i: int|
                0 <= i < secrets.len() ==> !names_equal(
                    entry.name,
                    (#[trigger] secrets[i]).name@,
                    windows,
                )) ==> #[trigger] with_secrets(environment, secrets, windows).contains(entry),
    decreases secrets.len(),
{
    let after = with_secrets(environment, secrets, windows);
    if secrets.len() > 0 {
        let rest = secrets.drop_last();
        let last = secrets.last();
        assert forall|i: int, j: int| 0 <= i < j < rest.len() implies !names_equal(
            (#[trigger] rest[i]).name@,
            (#[trigger] rest[j]).name@,
            windows,
        ) by {
            assert(!names_equal(secrets[i].name@, secrets[j].name@, windows));
        }
        lemma_secrets_become_references(environment, rest, windows);
        let before = with_secrets(environment, rest, windows);
        lemma_reference_stands_for_secret(
            before,
            last.name@,
            last.credential_reference@,
            windows,
        );
        assert forall|entry: EntryView|
            before.contains(entry) && !names_equal(entry.name, last.name@, windows) implies
            #[trigger] after.contains(entry) by {
            let k = choose|k: int| 0 <= k < before.len() && before[k] == entry;
            assert(!names_equal(before[k].name, last.name@, windows));
            assert(after[k] == entry);
        }
        assert forall|i: int| 0 <= i < secrets.len() implies after.contains(
            reference_entry(#[trigger] secrets[i]),
        ) by {
            if i < rest.len() {
                assert(rest[i] == secrets[i]);
                assert(before.contains(reference_entry(rest[i])));
                assert(!names_equal(secrets[i].name@, secrets[secrets.len() - 1].name@, windows));
            }
        }
        assert forall|entry: EntryView|
            environment.contains(entry) && (forall|i: int|
                0 <= i < secrets.len() ==> !names_equal(
                    entry.name,
                    (#[trigger] secrets[i]).name@,
                    windows,
                )) implies #[trigger] after.contains(entry) by {
            assert forall|i: int| 0 <= i < rest.len() implies !names_equal(
                entry.name,
                (#[trigger] rest[i]).name@,
                windows,
            ) by {
                assert(!names_equal(entry.name, secrets[i].name@, windows));
            }
            assert(before.contains(entry));
            assert(!names_equal(entry.name, secrets[secrets.len() - 1].name@, windows));
        }
    }
    assert forall|i: int| 0 <= i < secrets.len() implies named(
        after,
        (#[trigger] secrets[i]).name@,
    ) == seq![reference_entry(secrets[i])] by {
        assert(after.contains(reference_entry(secrets[i])));
        let place = choose|k: int| 0 <= k < after.len() && after[k] == reference_entry(secrets[i]);
        assert forall|k: int| 0 <= k < after.len() && k != place implies (#[trigger] after[k]).name
            != after[place].name by {
            if k < place {
                assert(!names_equal(after[k].name, after[place].name, windows));
            } else {
                assert(!names_equal(after[place].name, after[k].name, windows));
            }
        }
        lemma_only_one_named(after, place);
    }
}

/// A profile holds a reference for each of its secrets, in the order of names.
pub open spec fn holds_references(
    before: InputView,
    after: InputView,
    secrets: Seq<SecretCredential>,
    windows: bool,
) -> bool {
    &&& after.settings == before.settings
    &&& in_name_order(after.environment)
    &&& forall|name: Seq<char>| #[trigger]
        named(after.environment, name) == named(
            with_secrets(before.environment, secrets, windows),
            name,
        )
}

/// A request as it is stored: of the same kind and for the same profile, with
/// what the stored profile says.
pub open spec fn is_stored_request(
    request: SaveLaunchProfileRequest,
    stored_request: SaveLaunchProfileRequest,
    stored: LaunchProfile,
) -> bool {
    &&& stored_request.says() == stored.input@
    &&& match (request, stored_request) {
        (
            SaveLaunchProfileRequest::Create { input: a },
            SaveLaunchProfileRequest::Create { input: b },
        ) => true,
        (
            SaveLaunchProfileRequest::Update {
                profile_id: id_a,
                expected_updated_at: at_a,
                input: a,
            },
            SaveLaunchProfileRequest::Update {
                profile_id: id_b,
                expected_updated_at: at_b,
                input: b,
            },
        ) => id_a == id_b && at_a == at_b,
        _ => false,
    }
}

/// The refusal of a profile that is not the one of the request.
pub open spec fn input_mismatch() -> ErrorView {
    plain_error(
        ErrorCode::Internal,
        "server-owned launch profile does not match the secret save request"@,
    ).with("field"@, "input"@)
}

/// The profile and the request as they are stored: references in the place of
/// secrets, and no secret in either.
pub fn save_launch_profile_with_secrets(
    request: SaveLaunchProfileRequest,
    profile: LaunchProfile,
    secrets: &Vec<SecretCredential>,
    windows: bool,
) -> (result: Result<(SaveLaunchProfileRequest, LaunchProfile), AppError>)
    ensures
        match result {
            Ok((stored_request, stored)) => {
                &&& matches_request(request, profile)
                &&& stored.id == profile.id
                &&& stored.created_at == profile.created_at
                &&& stored.updated_at == profile.updated_at
                &&& holds_references(profile.input@, stored.input@, secrets@, windows)
                &&& is_stored_request(request, stored_request, stored)
            },
            Err(error) => !matches_request(request, profile) && error@ == input_mismatch(),
        },
{
    match ensure_initial_input_matches(&request, &profile) {
        Ok(_) => {},
        Err(error) => return Err(error),
    }
    let LaunchProfile { id, input, created_at, updated_at } = profile;
    let mut input = input;
    let ghost before = input@;
    let mut i: usize = 0;
    assert(with_secrets(before.environment, secrets@.subrange(0, 0), windows)
        == before.environment);
    while i < secrets.len()
        invariant
            i <= secrets@.len(),
            input@.settings == before.settings,
            input@.environment == with_secrets(
                before.environment,
                secrets@.subrange(0, i as int),
                windows,
            ),
        decreases secrets@.len() - i,
    {
        replace_environment_secret(
            &mut input,
            secrets[i].name.as_str(),
            secrets[i].credential_reference.as_str(),
            windows,
        );
        proof {
            let longer = secrets@.subrange(0, i + 1);
            assert(longer.drop_last() =~= secrets@.subrange(0, i as int));
        }
        i += 1;
    }
    assert(secrets@.subrange(0, secrets@.len() as int) =~= secrets@);
    let environment = sorted_environment(&input.environment);
    let input = LaunchProfileInput { settings: input.settings, environment };
    let stored_request = match request {
        SaveLaunchProfileRequest::Create { input: _ } => SaveLaunchProfileRequest::Create {
            input: input.copy(),
        },
        SaveLaunchProfileRequest::Update { profile_id, expected_updated_at, input: _ } => {
            SaveLaunchProfileRequest::Update { profile_id, expected_updated_at, input: input.copy() }
        },
    };
    Ok((stored_request, LaunchProfile { id, input, created_at, updated_at }))
}

} // verus!
