//! The catalog of projects and classification rules: saving and deleting under
//! a version check, the context that discovery works with, and the order in
//! which a change is prepared, published and committed.

use vstd::prelude::*;

use crate::error::{plain_error, AppError, ErrorCode, ErrorView};
use crate::text::{
    decimal, decimal_text, in_order, join, same_text, sorted_copy, text_before, texts_of,
};
use crate::timestamp::{
    canonical, civil_of, invalid_previous_timestamp, last_instant, timestamp_after,
};

verus! {

/// What a user says of a project.
#[derive(Debug)]
pub struct ProjectInput {
    pub name: String,
    pub root_directory: String,
}

/// A project of the catalog.
#[derive(Debug)]
pub struct ProjectSummary {
    pub id: String,
    pub input: ProjectInput,
    pub created_at: String,
    pub updated_at: String,
}

/// The root directory of a project as the operating system knows it.
#[derive(Debug)]
pub struct NormalizedRoot {
    pub canonical_root_directory: String,
    pub normalized_path: String,
}

/// A project as discovery works with it.
#[derive(Debug)]
pub struct RegisteredProject {
    pub id: String,
    pub root_directory: String,
    pub normalized_path: String,
}

/// What a rule looks at.
#[derive(Clone, Copy, Debug, PartialEq, Eq, Structural)]
pub enum MatcherKind {
    ExecutableNameExact,
    ExecutablePathExact,
    CommandLineContains,
    WorkingDirectoryPrefix,
}

/// What a rule does with what it matches.
#[derive(Debug)]
pub enum RuleAction {
    Include,
    Exclude,
    AssignProject { project_id: String },
}

/// What a user says of a rule.
#[derive(Debug)]
pub struct RuleInput {
    pub matcher_kind: MatcherKind,
    pub pattern: String,
    pub action: RuleAction,
    pub priority: i32,
    pub enabled: bool,
}

/// A rule of the catalog.
#[derive(Debug)]
pub struct RuleSummary {
    pub id: String,
    pub input: RuleInput,
    pub created_at: String,
    pub updated_at: String,
}

/// A rule as discovery works with it.
#[derive(Debug)]
pub struct DiscoveryRule {
    pub id: String,
    pub matcher: MatcherKind,
    pub pattern: String,
    pub action: RuleAction,
    pub priority: i64,
    pub enabled: bool,
}

/// What discovery works with.
#[derive(Debug)]
pub struct ProjectContext {
    pub projects: Vec<RegisteredProject>,
    pub rules: Vec<DiscoveryRule>,
    pub known_project_ids: Vec<String>,
}

/// The IDs of projects, in their places.
pub open spec fn project_ids(projects: Seq<RegisteredProject>) -> Seq<Seq<char>> {
    Seq::new(projects.len(), |i: int| projects[i].id@)
}

impl ProjectContext {
    /// The rules know exactly the projects of the catalog, in their order.
    pub open spec fn wf(self) -> bool {
        &&& in_order(texts_of(self.known_project_ids@))
        &&& texts_of(self.known_project_ids@).to_multiset() == project_ids(
            self.projects@,
        ).to_multiset()
    }
}

/// The first place of a project.
pub open spec fn project_place(projects: Seq<RegisteredProject>, id: Seq<char>, place: int) -> bool {
    &&& 0 <= place < projects.len()
    &&& projects[place].id@ == id
    &&& forall|k: int| 0 <= k < place ==> (#[trigger] projects[k]).id@ != id
}

/// Whether a project is registered.
pub open spec fn has_project(projects: Seq<RegisteredProject>, id: Seq<char>) -> bool {
    exists|i: int| 0 <= i < projects.len() && (#[trigger] projects[i]).id@ == id
}

/// The projects without those of an ID.
pub open spec fn without_project(projects: Seq<RegisteredProject>, id: Seq<char>) -> Seq<
    RegisteredProject,
>
    decreases projects.len(),
{
    if projects.len() == 0 {
        Seq::empty()
    } else {
        let rest = without_project(projects.drop_last(), id);
        if projects.last().id@ == id {
            rest
        } else {
            rest.push(projects.last())
        }
    }
}

/// The rules know the projects of the catalog again.
fn synchronize_known_project_ids(context: &mut ProjectContext)
    ensures
        final(context).wf(),
        final(context).projects == old(context).projects,
        final(context).rules == old(context).rules,
{
    let mut ids: Vec<String> = Vec::new();
    let mut i: usize = 0;
    while i < context.projects.len()
        invariant
            *context == *old(context),
            i <= context.projects@.len(),
            ids@.len() == i,
            forall|k: int| 0 <= k < i ==> (#[trigger] ids@[k])@ == context.projects@[k].id@,
        decreases context.projects@.len() - i,
    {
        ids.push(context.projects[i].id.clone());
        i += 1;
    }
    assert(texts_of(ids@) =~= project_ids(context.projects@));
    context.known_project_ids = sorted_copy(&ids);
}

/// Puts a project into the context, in the place of one of the same ID.
pub fn replace_project_in_context(
    context: &mut ProjectContext,
    project_id: &str,
    root: &NormalizedRoot,
)
    ensures
        project_is_placed(*old(context), *final(context), project_id@, *root),
{
    let registered = RegisteredProject {
        id: project_id.to_owned(),
        root_directory: root.canonical_root_directory.clone(),
        normalized_path: root.normalized_path.clone(),
    };
    let mut place: usize = 0;
    while place < context.projects.len() && !same_text(
        context.projects[place].id.as_str(),
        project_id,
    )
        invariant
            *context == *old(context),
            place <= context.projects@.len(),
            forall|k: int|
                0 <= k < place ==> (#[trigger] context.projects@[k]).id@ != project_id@,
        decreases context.projects@.len() - place,
    {
        place += 1;
    }
    let ghost before = context.projects@;
    if place < context.projects.len() {
        let _ = context.projects.remove(place);
        context.projects.insert(place, registered);
        proof {
            assert(context.projects@ =~= before.update(place as int, registered));
            assert(project_place(before, project_id@, place as int));
            assert(has_project(before, project_id@));
        }
    } else {
        context.projects.push(registered);
        proof {
            assert(context.projects@ =~= before.push(registered));
        }
    }
    synchronize_known_project_ids(context);
}

/// The refusal where the context does not hold what the store does.
pub open spec fn missing_entity(entity: Seq<char>, id: Seq<char>) -> ErrorView {
    plain_error(
        ErrorCode::Internal,
        "stored catalog entity is missing from the project context"@,
    ).with("entity"@, entity).with("id"@, id)
}

fn missing_catalog_context_entity(entity: &str, id: &str) -> (error: AppError)
    ensures
        error@ == missing_entity(entity@, id@),
{
    AppError::new(
        ErrorCode::Internal,
        "stored catalog entity is missing from the project context",
    ).with_detail("entity", entity).with_detail("id", id)
}

/// A project was to be taken out of the context, and what became of the context.
pub open spec fn project_is_removed(
    before: ProjectContext,
    project_id: Seq<char>,
    result: Result<(), AppError>,
    after: ProjectContext,
) -> bool {
    &&& after.rules == before.rules
    &&& after.projects@ == without_project(before.projects@, project_id)
    &&& match result {
        Ok(_) => has_project(before.projects@, project_id) && after.wf(),
        Err(error) => !has_project(before.projects@, project_id) && error@ == missing_entity(
            "project"@,
            project_id,
        ) && after.known_project_ids == before.known_project_ids && after.projects@
            == before.projects@,
    }
}

/// Takes a project out of the context.
pub fn remove_project_from_context(context: &mut ProjectContext, project_id: &str) -> (result:
    Result<(), AppError>)
    ensures
        project_is_removed(*old(context), project_id@, result, *final(context)),
{
    let mut kept: Vec<RegisteredProject> = Vec::new();
    let mut found = false;
    let total: usize = context.projects.len();
    let ghost all = context.projects@;
    let mut i: usize = 0;
    assert(all.subrange(0, 0) =~= Seq::empty());
    assert(all.subrange(0, all.len() as int) =~= all);
    while i < total
        invariant
            context.rules == old(context).rules,
            context.known_project_ids == old(context).known_project_ids,
            all == old(context).projects@,
            total == all.len(),
            i <= total,
            context.projects@ == all.subrange(i as int, total as int),
            kept@ == without_project(all.subrange(0, i as int), project_id@),
            found == has_project(all.subrange(0, i as int), project_id@),
            !found ==> kept@ == all.subrange(0, i as int),
        decreases total - i,
    {
        let project = context.projects.remove(0);
        proof {
            let shorter = all.subrange(0, i as int);
            let longer = all.subrange(0, i + 1);
            assert(longer.drop_last() =~= shorter);
            assert(longer.last() == project);
            assert(context.projects@ =~= all.subrange(i + 1, total as int));
            assert(has_project(longer, project_id@) == (has_project(shorter, project_id@)
                || project.id@ == project_id@)) by {
                if has_project(shorter, project_id@) {
                    let k = choose|k: int|
                        0 <= k < shorter.len() && (#[trigger] shorter[k]).id@ == project_id@;
                    assert(longer[k].id@ == project_id@);
                }
                if project.id@ == project_id@ {
                    assert(longer[i as int].id@ == project_id@);
                }
                if has_project(longer, project_id@) && project.id@ != project_id@ {
                    let k = choose|k: int|
                        0 <= k < longer.len() && (#[trigger] longer[k]).id@ == project_id@;
                    assert(shorter[k].id@ == project_id@);
                }
            }
            assert(longer =~= shorter.push(project));
        }
        if same_text(project.id.as_str(), project_id) {
            found = true;
        } else {
            kept.push(project);
        }
        i += 1;
    }
    assert(all.subrange(0, total as int) =~= all);
    context.projects = kept;
    if !found {
        return Err(missing_catalog_context_entity("project", project_id));
    }
    synchronize_known_project_ids(context);
    Ok(())
}

/// Whether a rule stands in the context.
pub open spec fn has_rule(rules: Seq<DiscoveryRule>, id: Seq<char>) -> bool {
    exists|i: int| 0 <= i < rules.len() && (#[trigger] rules[i]).id@ == id
}

/// The first place of a rule.
pub open spec fn rule_place(rules: Seq<DiscoveryRule>, id: Seq<char>, place: int) -> bool {
    &&& 0 <= place < rules.len()
    &&& rules[place].id@ == id
    &&& forall|k: int| 0 <= k < place ==> (#[trigger] rules[k]).id@ != id
}

/// The rules without those of an ID.
pub open spec fn without_rule(rules: Seq<DiscoveryRule>, id: Seq<char>) -> Seq<DiscoveryRule>
    decreases rules.len(),
{
    if rules.len() == 0 {
        Seq::empty()
    } else {
        let rest = without_rule(rules.drop_last(), id);
        if rules.last().id@ == id {
            rest
        } else {
            rest.push(rules.last())
        }
    }
}

/// Whether two rules do the same.
pub open spec fn same_action(a: RuleAction, b: RuleAction) -> bool {
    match (a, b) {
        (RuleAction::Include, RuleAction::Include) => true,
        (RuleAction::Exclude, RuleAction::Exclude) => true,
        (
            RuleAction::AssignProject { project_id: x },
            RuleAction::AssignProject { project_id: y },
        ) => x@ == y@,
        _ => false,
    }
}

/// What discovery makes of a rule of the catalog.
pub open spec fn is_rule_of(rule: DiscoveryRule, summary: RuleSummary) -> bool {
    &&& rule.id@ == summary.id@
    &&& rule.matcher == summary.input.matcher_kind
    &&& rule.pattern@ == summary.input.pattern@
    &&& same_action(rule.action, summary.input.action)
    &&& rule.priority == summary.input.priority
    &&& rule.enabled == summary.input.enabled
}

pub fn classification_rule_for_discovery(summary: &RuleSummary) -> (rule: DiscoveryRule)
    ensures
        is_rule_of(rule, *summary),
{
    DiscoveryRule {
        id: summary.id.clone(),
        matcher: summary.input.matcher_kind,
        pattern: summary.input.pattern.clone(),
        action: copy_action(&summary.input.action),
        priority: summary.input.priority as i64,
        enabled: summary.input.enabled,
    }
}

fn copy_action(action: &RuleAction) -> (copy: RuleAction)
    ensures
        copy == *action,
{
    match action {
        RuleAction::Include => RuleAction::Include,
        RuleAction::Exclude => RuleAction::Exclude,
        RuleAction::AssignProject { project_id } => RuleAction::AssignProject {
            project_id: project_id.clone(),
        },
    }
}

/// Puts a rule into the context, in the place of one of the same ID.
pub fn replace_rule_in_context(context: &mut ProjectContext, summary: &RuleSummary)
    ensures
        rule_is_placed(*old(context), *final(context), *summary),
{
    let rule = classification_rule_for_discovery(summary);
    let mut place: usize = 0;
    while place < context.rules.len() && !same_text(
        context.rules[place].id.as_str(),
        summary.id.as_str(),
    )
        invariant
            *context == *old(context),
            place <= context.rules@.len(),
            forall|k: int|
                0 <= k < place ==> (#[trigger] context.rules@[k]).id@ != summary.id@,
        decreases context.rules@.len() - place,
    {
        place += 1;
    }
    let ghost before = context.rules@;
    if place < context.rules.len() {
        let _ = context.rules.remove(place);
        context.rules.insert(place, rule);
        proof {
            assert(context.rules@ =~= before.update(place as int, rule));
            assert(rule_place(before, summary.id@, place as int));
            assert(has_rule(before, summary.id@));
        }
    } else {
        context.rules.push(rule);
        proof {
            assert(context.rules@ =~= before.push(rule));
        }
    }
}

/// A rule was to be taken out of the context, and what became of the context.
pub open spec fn rule_is_removed(
    before: ProjectContext,
    rule_id: Seq<char>,
    result: Result<(), AppError>,
    after: ProjectContext,
) -> bool {
    &&& after.projects == before.projects
    &&& after.known_project_ids == before.known_project_ids
    &&& after.rules@ == without_rule(before.rules@, rule_id)
    &&& match result {
        Ok(_) => has_rule(before.rules@, rule_id),
        Err(error) => !has_rule(before.rules@, rule_id) && error@ == missing_entity(
            "classificationRule"@,
            rule_id,
        ) && after.rules@ == before.rules@,
    }
}

/// Takes a rule out of the context.
pub fn remove_rule_from_context(context: &mut ProjectContext, rule_id: &str) -> (result: Result<
    (),
    AppError,
>)
    ensures
        rule_is_removed(*old(context), rule_id@, result, *final(context)),
{
    let mut kept: Vec<DiscoveryRule> = Vec::new();
    let mut found = false;
    let total: usize = context.rules.len();
    let ghost all = context.rules@;
    let mut i: usize = 0;
    assert(all.subrange(0, 0) =~= Seq::empty());
    assert(all.subrange(0, all.len() as int) =~= all);
    while i < total
        invariant
            context.projects == old(context).projects,
            context.known_project_ids == old(context).known_project_ids,
            all == old(context).rules@,
            total == all.len(),
            i <= total,
            context.rules@ == all.subrange(i as int, total as int),
            kept@ == without_rule(all.subrange(0, i as int), rule_id@),
            found == has_rule(all.subrange(0, i as int), rule_id@),
            !found ==> kept@ == all.subrange(0, i as int),
        decreases total - i,
    {
        let rule = context.rules.remove(0);
        proof {
            let shorter = all.subrange(0, i as int);
            let longer = all.subrange(0, i + 1);
            assert(longer.drop_last() =~= shorter);
            assert(longer.last() == rule);
            assert(context.rules@ =~= all.subrange(i + 1, total as int));
            assert(has_rule(longer, rule_id@) == (has_rule(shorter, rule_id@) || rule.id@
                == rule_id@)) by {
                if has_rule(shorter, rule_id@) {
                    let k = choose|k: int|
                        0 <= k < shorter.len() && (#[trigger] shorter[k]).id@ == rule_id@;
                    assert(longer[k].id@ == rule_id@);
                }
                if rule.id@ == rule_id@ {
                    assert(longer[i as int].id@ == rule_id@);
                }
                if has_rule(longer, rule_id@) && rule.id@ != rule_id@ {
                    let k = choose|k: int|
                        0 <= k < longer.len() && (#[trigger] longer[k]).id@ == rule_id@;
                    assert(shorter[k].id@ == rule_id@);
                }
            }
            assert(longer =~= shorter.push(rule));
        }
        if same_text(rule.id.as_str(), rule_id) {
            found = true;
        } else {
            kept.push(rule);
        }
        i += 1;
    }
    assert(all.subrange(0, total as int) =~= all);
    context.rules = kept;
    if !found {
        return Err(missing_catalog_context_entity("classificationRule", rule_id));
    }
    Ok(())
}

/// Whether two lists hold the same strings in the same places.
fn same_list(first: &Vec<String>, second: &Vec<String>) -> (same: bool)
    ensures
        same == (texts_of(first@) == texts_of(second@)),
{
    if first.len() != second.len() {
        assert(texts_of(first@).len() != texts_of(second@).len());
        return false;
    }
    let mut i: usize = 0;
    while i < first.len()
        invariant
            first@.len() == second@.len(),
            i <= first@.len(),
            forall|k: int| 0 <= k < i ==> (#[trigger] first@[k])@ == second@[k]@,
        decreases first@.len() - i,
    {
        if !same_text(first[i].as_str(), second[i].as_str()) {
            assert(texts_of(first@)[i as int] != texts_of(second@)[i as int]);
            return false;
        }
        i += 1;
    }
    assert(texts_of(first@) =~= texts_of(second@));
    true
}

/// The refusal of a context whose rules know other projects than its catalog.
pub open spec fn mismatched_identities(catalog: nat, known: nat) -> ErrorView {
    plain_error(
        ErrorCode::Internal,
        "prospective project context contains mismatched project identities"@,
    ).with("catalogProjects"@, decimal_text(catalog)).with(
        "classificationProjects"@,
        decimal_text(known),
    )
}

/// The IDs of a catalog are those that the rules know, in order.
pub open spec fn identities_agree(catalog: Seq<Seq<char>>, known: Seq<Seq<char>>) -> bool {
    in_order(catalog) && catalog.to_multiset() == known.to_multiset()
}

/// Whether the rules of a context know exactly the projects of its catalog,
/// whose IDs are given as the catalog lists them.
pub fn validate_project_context(catalog_ids: &Vec<String>, known_project_ids: &Vec<String>) -> (result:
    Result<(), AppError>)
    ensures
        match result {
            Ok(_) => identities_agree(texts_of(catalog_ids@), texts_of(known_project_ids@)),
            Err(error) => !identities_agree(
                texts_of(catalog_ids@),
                texts_of(known_project_ids@),
            ) && error@ == mismatched_identities(catalog_ids@.len(), known_project_ids@.len()),
        },
{
    let known = sorted_copy(known_project_ids);
    if same_list(catalog_ids, &known) {
        return Ok(());
    }
    proof {
        if identities_agree(texts_of(catalog_ids@), texts_of(known_project_ids@)) {
            lemma_order_is_unique(texts_of(catalog_ids@), texts_of(known@));
        }
    }
    Err(
        AppError::new(
            ErrorCode::Internal,
            "prospective project context contains mismatched project identities",
        ).with_detail("catalogProjects", decimal(catalog_ids.len() as u64).as_str()).with_detail(
            "classificationProjects",
            decimal(known_project_ids.len() as u64).as_str(),
        ),
    )
}

/// The same strings have one order only.
proof fn lemma_order_is_unique(a: Seq<Seq<char>>, b: Seq<Seq<char>>)
    requires
        in_order(a),
        in_order(b),
        a.to_multiset() == b.to_multiset(),
    ensures
        a == b,
    decreases a.len(),
{
    broadcast use vstd::seq_lib::group_to_multiset_ensures;

    assert(a.len() == a.to_multiset().len());
    assert(b.len() == b.to_multiset().len());
    if a.len() > 0 {
        let x = a.last();
        let y = b.last();
        assert(a.to_multiset().count(x) > 0);
        assert(b.contains(x));
        let i = b.index_of(x);
        assert(b.to_multiset().count(y) > 0);
        assert(a.contains(y));
        let j = a.index_of(y);
        if x != y {
            assert(!text_before(b[b.len() - 1], b[i]));
            assert(!text_before(a[a.len() - 1], a[j]));
            crate::text::lemma_text_order_is_total(x, y);
        }
        assert(x == y);
        assert(a.drop_last().push(x) =~= a);
        assert(b.drop_last().push(x) =~= b);
        assert(a.drop_last().to_multiset().insert(x) == a.to_multiset());
        assert(b.drop_last().to_multiset().insert(x) == b.to_multiset());
        assert(a.drop_last().to_multiset() =~= a.to_multiset().remove(x));
        assert(b.drop_last().to_multiset() =~= b.to_multiset().remove(x));
        lemma_order_is_unique(a.drop_last(), b.drop_last());
    }
}

/// The refusal of a change that was made to an older version.
pub open spec fn version_conflict(
    entity: Seq<char>,
    id_field: Seq<char>,
    id: Seq<char>,
    expected: Seq<char>,
    actual: Seq<char>,
) -> ErrorView {
    plain_error(
        ErrorCode::Conflict,
        entity + " was modified by another operation"@,
    ).with(id_field, id).with("expectedUpdatedAt"@, expected).with("actualUpdatedAt"@, actual)
}

pub fn require_catalog_version(
    entity: &str,
    id_field: &str,
    id: &str,
    expected_updated_at: &str,
    actual_updated_at: &str,
) -> (result: Result<(), AppError>)
    ensures
        match result {
            Ok(_) => expected_updated_at@ == actual_updated_at@,
            Err(error) => expected_updated_at@ != actual_updated_at@ && error@ == version_conflict(
                entity@,
                id_field@,
                id@,
                expected_updated_at@,
                actual_updated_at@,
            ),
        },
{
    if same_text(expected_updated_at, actual_updated_at) {
        return Ok(());
    }
    Err(
        AppError::new(
            ErrorCode::Conflict,
            join(entity, " was modified by another operation").as_str(),
        ).with_detail(id_field, id).with_detail(
            "expectedUpdatedAt",
            expected_updated_at,
        ).with_detail("actualUpdatedAt", actual_updated_at),
    )
}

/// What a change goes by: the name found for a new entity, or the entity that
/// is stored.
#[derive(Debug)]
pub enum SavedFrom<T> {
    Allocated(String),
    Current(T),
}

/// A request to save a project.
#[derive(Debug)]
pub enum SaveProjectRequest {
    Create { input: ProjectInput },
    Update { project_id: String, expected_updated_at: String, input: ProjectInput },
}

/// A change of an entity that is stored: its version is the expected one, and
/// it gets a later time.
pub open spec fn update_time(
    current_updated_at: Seq<char>,
    now: Result<String, AppError>,
    result: Result<Seq<char>, ErrorView>,
) -> bool {
    if !canonical(current_updated_at) {
        result == Err::<Seq<char>, ErrorView>(invalid_previous_timestamp())
    } else if now is Ok && text_before(current_updated_at, now->Ok_0@) {
        result == Ok::<Seq<char>, ErrorView>(now->Ok_0@)
    } else {
        match result {
            Ok(time) => canonical(time) && civil_of(time).instant() == civil_of(
                current_updated_at,
            ).instant() + 1,
            Err(error) => civil_of(current_updated_at) == last_instant() && error == plain_error(
                ErrorCode::PlatformError,
                "catalog timestamp exceeds the supported range"@,
            ),
        }
    }
}

/// The project as it is to be stored, and the context with it. Identity and
/// times are the supervisor's own; the root directory is the one that the
/// operating system knows.
pub fn save_project(
    context: ProjectContext,
    request: SaveProjectRequest,
    source: SavedFrom<ProjectSummary>,
    root: &NormalizedRoot,
    now: Result<String, AppError>,
) -> (result: Result<(ProjectSummary, ProjectContext), AppError>)
    requires
        request is Create <==> source is Allocated,
    ensures
        match (request, source) {
            (SaveProjectRequest::Create { input }, SavedFrom::Allocated(id)) => match result {
                Ok((project, prospective)) => {
                    &&& now is Ok
                    &&& project.id == id
                    &&& project.input.name@ == input.name@
                    &&& project.input.root_directory@ == root.canonical_root_directory@
                    &&& project.created_at@ == now->Ok_0@
                    &&& project.updated_at@ == now->Ok_0@
                    &&& project_is_placed(context, prospective, project.id@, *root)
                },
                Err(error) => now is Err && error == now->Err_0,
            },
            (
                SaveProjectRequest::Update { project_id, expected_updated_at, input },
                SavedFrom::Current(current),
            ) => match result {
                Ok((project, prospective)) => {
                    &&& expected_updated_at@ == current.updated_at@
                    &&& project.id == current.id
                    &&& project.input.name@ == input.name@
                    &&& project.input.root_directory@ == root.canonical_root_directory@
                    &&& project.created_at == current.created_at
                    &&& update_time(current.updated_at@, now, Ok(project.updated_at@))
                    &&& text_before(current.updated_at@, project.updated_at@)
                    &&& project_is_placed(context, prospective, project.id@, *root)
                },
                Err(error) => if expected_updated_at@ != current.updated_at@ {
                    error@ == version_conflict(
                        "project"@,
                        "projectId"@,
                        project_id@,
                        expected_updated_at@,
                        current.updated_at@,
                    )
                } else {
                    update_time(current.updated_at@, now, Err(error@))
                },
            },
            _ => false,
        },
{
    let project = match (request, source) {
        (SaveProjectRequest::Create { input }, SavedFrom::Allocated(id)) => match timestamp_after(
            None,
            now,
        ) {
            Ok(timestamp) => ProjectSummary {
                id,
                input: ProjectInput {
                    name: input.name,
                    root_directory: root.canonical_root_directory.clone(),
                },
                created_at: timestamp.clone(),
                updated_at: timestamp,
            },
            Err(error) => return Err(error),
        },
        (
            SaveProjectRequest::Update { project_id, expected_updated_at, input },
            SavedFrom::Current(current),
        ) => {
            match require_catalog_version(
                "project",
                "projectId",
                project_id.as_str(),
                expected_updated_at.as_str(),
                current.updated_at.as_str(),
            ) {
                Ok(_) => {},
                Err(error) => return Err(error),
            }
            match timestamp_after(Some(current.updated_at.as_str()), now) {
                Ok(updated_at) => ProjectSummary {
                    id: current.id,
                    input: ProjectInput {
                        name: input.name,
                        root_directory: root.canonical_root_directory.clone(),
                    },
                    created_at: current.created_at,
                    updated_at,
                },
                Err(error) => return Err(error),
            }
        },
        _ => vstd::pervasive::unreached(),
    };
    let mut prospective = context;
    replace_project_in_context(&mut prospective, project.id.as_str(), root);
    Ok((project, prospective))
}

/// A context with a project put into it.
pub open spec fn project_is_placed(
    before: ProjectContext,
    after: ProjectContext,
    project_id: Seq<char>,
    root: NormalizedRoot,
) -> bool {
    let registered = |project: RegisteredProject|
        project.id@ == project_id && project.root_directory@ == root.canonical_root_directory@
            && project.normalized_path@ == root.normalized_path@;
    &&& after.wf()
    &&& after.rules == before.rules
    &&& if has_project(before.projects@, project_id) {
        exists|place: int| #[trigger]
            project_place(before.projects@, project_id, place) && registered(
                after.projects@[place],
            ) && after.projects@ == before.projects@.update(place, after.projects@[place])
    } else {
        after.projects@.len() == before.projects@.len() + 1 && registered(after.projects@.last())
            && after.projects@ == before.projects@.push(after.projects@.last())
    }
}

/// A request to save a rule.
#[derive(Debug)]
pub enum SaveRuleRequest {
    Create { input: RuleInput },
    Update { rule_id: String, expected_updated_at: String, input: RuleInput },
}

/// A context with a rule put into it.
pub open spec fn rule_is_placed(
    before: ProjectContext,
    after: ProjectContext,
    summary: RuleSummary,
) -> bool {
    &&& after.projects == before.projects
    &&& after.known_project_ids == before.known_project_ids
    &&& if has_rule(before.rules@, summary.id@) {
        exists|place: int| #[trigger]
            rule_place(before.rules@, summary.id@, place) && is_rule_of(
                after.rules@[place],
                summary,
            ) && after.rules@ == before.rules@.update(place, after.rules@[place])
    } else {
        after.rules@.len() == before.rules@.len() + 1 && is_rule_of(after.rules@.last(), summary)
            && after.rules@ == before.rules@.push(after.rules@.last())
    }
}

/// The rule as it is to be stored, and the context with it.
pub fn save_classification_rule(
    context: ProjectContext,
    request: SaveRuleRequest,
    source: SavedFrom<RuleSummary>,
    now: Result<String, AppError>,
) -> (result: Result<(RuleSummary, ProjectContext), AppError>)
    requires
        request is Create <==> source is Allocated,
    ensures
        match (request, source) {
            (SaveRuleRequest::Create { input }, SavedFrom::Allocated(id)) => match result {
                Ok((rule, prospective)) => {
                    &&& now is Ok
                    &&& rule.id == id
                    &&& rule.input == input
                    &&& rule.created_at@ == now->Ok_0@
                    &&& rule.updated_at@ == now->Ok_0@
                    &&& rule_is_placed(context, prospective, rule)
                },
                Err(error) => now is Err && error == now->Err_0,
            },
            (
                SaveRuleRequest::Update { rule_id, expected_updated_at, input },
                SavedFrom::Current(current),
            ) => match result {
                Ok((rule, prospective)) => {
                    &&& expected_updated_at@ == current.updated_at@
                    &&& rule.id == current.id
                    &&& rule.input == input
                    &&& rule.created_at == current.created_at
                    &&& update_time(current.updated_at@, now, Ok(rule.updated_at@))
                    &&& text_before(current.updated_at@, rule.updated_at@)
                    &&& rule_is_placed(context, prospective, rule)
                },
                Err(error) => if expected_updated_at@ != current.updated_at@ {
                    error@ == version_conflict(
                        "classificationRule"@,
                        "ruleId"@,
                        rule_id@,
                        expected_updated_at@,
                        current.updated_at@,
                    )
                } else {
                    update_time(current.updated_at@, now, Err(error@))
                },
            },
            _ => false,
        },
{
    let rule = match (request, source) {
        (SaveRuleRequest::Create { input }, SavedFrom::Allocated(id)) => match timestamp_after(
            None,
            now,
        ) {
            Ok(timestamp) => RuleSummary {
                id,
                input,
                created_at: timestamp.clone(),
                updated_at: timestamp,
            },
            Err(error) => return Err(error),
        },
        (
            SaveRuleRequest::Update { rule_id, expected_updated_at, input },
            SavedFrom::Current(current),
        ) => {
            match require_catalog_version(
                "classificationRule",
                "ruleId",
                rule_id.as_str(),
                expected_updated_at.as_str(),
                current.updated_at.as_str(),
            ) {
                Ok(_) => {},
                Err(error) => return Err(error),
            }
            match timestamp_after(Some(current.updated_at.as_str()), now) {
                Ok(updated_at) => RuleSummary {
                    id: current.id,
                    input,
                    created_at: current.created_at,
                    updated_at,
                },
                Err(error) => return Err(error),
            }
        },
        _ => vstd::pervasive::unreached(),
    };
    let mut prospective = context;
    replace_rule_in_context(&mut prospective, &rule);
    Ok((rule, prospective))
}

/// Whether a project may be deleted, in the version that was shown.
pub fn delete_project(
    project_id: &str,
    expected_updated_at: &str,
    current_updated_at: &str,
) -> (result: Result<(), AppError>)
    ensures
        match result {
            Ok(_) => expected_updated_at@ == current_updated_at@,
            Err(error) => expected_updated_at@ != current_updated_at@ && error@
                == version_conflict(
                "project"@,
                "projectId"@,
                project_id@,
                expected_updated_at@,
                current_updated_at@,
            ),
        },
{
    require_catalog_version(
        "project",
        "projectId",
        project_id,
        expected_updated_at,
        current_updated_at,
    )
}

/// Whether a rule may be deleted, in the version that was shown.
pub fn delete_classification_rule(
    rule_id: &str,
    expected_updated_at: &str,
    current_updated_at: &str,
) -> (result: Result<(), AppError>)
    ensures
        match result {
            Ok(_) => expected_updated_at@ == current_updated_at@,
            Err(error) => expected_updated_at@ != current_updated_at@ && error@
                == version_conflict(
                "classificationRule"@,
                "ruleId"@,
                rule_id@,
                expected_updated_at@,
                current_updated_at@,
            ),
        },
{
    require_catalog_version(
        "classificationRule",
        "ruleId",
        rule_id,
        expected_updated_at,
        current_updated_at,
    )
}

/// A change of the catalog.
#[derive(Clone, Copy, Debug, PartialEq, Eq, Structural)]
pub enum MutationKind {
    SaveProject,
    DeleteProject,
    SaveRule,
    DeleteRule,
}

/// The steps of a change of the catalog. What is answered already is answered
/// again; the rest is prepared in a transaction, published to discovery, and
/// then committed.
#[derive(Clone, Copy, Debug, PartialEq, Eq, Structural)]
pub enum MutationStep {
    Replay,
    NormalizeRoot,
    ReplayAgain,
    LoadContext,
    LoadSource,
    Build,
    Prepare,
    Publish,
    Commit,
    Rollback,
    ReadDurable,
    Republish,
}

/// The step that follows a step that was done.
pub open spec fn next_mutation_step(kind: MutationKind, step: MutationStep) -> Option<MutationStep> {
    match step {
        MutationStep::Replay => Some(
            match kind {
                MutationKind::SaveProject => MutationStep::NormalizeRoot,
                MutationKind::SaveRule => MutationStep::LoadContext,
                _ => MutationStep::LoadSource,
            },
        ),
        MutationStep::NormalizeRoot => Some(MutationStep::ReplayAgain),
        MutationStep::ReplayAgain => Some(MutationStep::LoadContext),
        MutationStep::LoadContext => Some(
            match kind {
                MutationKind::SaveProject => MutationStep::LoadSource,
                MutationKind::SaveRule => MutationStep::LoadSource,
                MutationKind::DeleteProject => MutationStep::Prepare,
                MutationKind::DeleteRule => MutationStep::Build,
            },
        ),
        MutationStep::LoadSource => Some(
            match kind {
                MutationKind::SaveProject => MutationStep::Build,
                MutationKind::SaveRule => MutationStep::Build,
                _ => MutationStep::LoadContext,
            },
        ),
        MutationStep::Build => Some(
            if kind == MutationKind::DeleteProject {
                MutationStep::Publish
            } else {
                MutationStep::Prepare
            },
        ),
        MutationStep::Prepare => Some(
            if kind == MutationKind::DeleteProject {
                MutationStep::Build
            } else {
                MutationStep::Publish
            },
        ),
        MutationStep::Publish => Some(MutationStep::Commit),
        MutationStep::Rollback => Some(MutationStep::ReadDurable),
        MutationStep::ReadDurable => Some(MutationStep::Republish),
        MutationStep::Commit => None,
        MutationStep::Republish => None,
    }
}

/// A change of the catalog on its way. Once it has failed behind its
/// preparation, the error waits until the context is settled again.
#[derive(Debug)]
pub struct CatalogMutation {
    pub kind: MutationKind,
    pub step: MutationStep,
    pub error: Option<AppError>,
}

impl CatalogMutation {
    pub open spec fn wf(self) -> bool {
        &&& self.error is Some <==> (self.step == MutationStep::Rollback || self.step
            == MutationStep::ReadDurable || self.step == MutationStep::Republish)
        &&& (self.step == MutationStep::NormalizeRoot || self.step == MutationStep::ReplayAgain)
            ==> self.kind == MutationKind::SaveProject
    }

    pub fn begin(kind: MutationKind) -> (mutation: Self)
        ensures
            mutation.wf(),
            mutation == (CatalogMutation { kind, step: MutationStep::Replay, error: None }),
    {
        CatalogMutation { kind, step: MutationStep::Replay, error: None }
    }
}

/// What came of a step of a change that is answered with something.
#[derive(Debug)]
pub enum MutationEvent<T> {
    Done,
    /// The operation had been answered before, with this.
    Replayed(T),
    /// The change is committed, and answered with this.
    Committed(T),
    Failed(AppError),
}

/// The events that a step can bring.
pub open spec fn mutation_event_fits<T>(step: MutationStep, event: MutationEvent<T>) -> bool {
    match event {
        MutationEvent::Done => step != MutationStep::Commit,
        MutationEvent::Replayed(_) => step == MutationStep::Replay || step
            == MutationStep::ReplayAgain,
        MutationEvent::Committed(_) => step == MutationStep::Commit,
        MutationEvent::Failed(_) => true,
    }
}

/// What follows an event of a change.
#[derive(Debug)]
pub enum MutationAction<T> {
    /// Do the step that the change is at.
    Perform(CatalogMutation),
    /// Answer as the operation was answered before.
    AnswerReplay(T),
    /// Answer with what was committed.
    AnswerCommitted(T),
    Fail(AppError),
}

pub open spec fn code_text(code: ErrorCode) -> Seq<char> {
    match code {
        ErrorCode::AccessDenied => "AccessDenied"@,
        ErrorCode::AlreadyExited => "AlreadyExited"@,
        ErrorCode::Conflict => "Conflict"@,
        ErrorCode::IdentityMismatch => "IdentityMismatch"@,
        ErrorCode::Internal => "Internal"@,
        ErrorCode::InvalidArgument => "InvalidArgument"@,
        ErrorCode::NotFound => "NotFound"@,
        ErrorCode::NotSupported => "NotSupported"@,
        ErrorCode::PlatformError => "PlatformError"@,
        ErrorCode::StorageError => "StorageError"@,
        ErrorCode::SupervisorUnavailable => "SupervisorUnavailable"@,
        ErrorCode::Timeout => "Timeout"@,
    }
}

fn code_name(code: ErrorCode) -> (name: &'static str)
    ensures
        name@ == code_text(code),
{
    match code {
        ErrorCode::AccessDenied => "AccessDenied",
        ErrorCode::AlreadyExited => "AlreadyExited",
        ErrorCode::Conflict => "Conflict",
        ErrorCode::IdentityMismatch => "IdentityMismatch",
        ErrorCode::Internal => "Internal",
        ErrorCode::InvalidArgument => "InvalidArgument",
        ErrorCode::NotFound => "NotFound",
        ErrorCode::NotSupported => "NotSupported",
        ErrorCode::PlatformError => "PlatformError",
        ErrorCode::StorageError => "StorageError",
        ErrorCode::SupervisorUnavailable => "SupervisorUnavailable",
        ErrorCode::Timeout => "Timeout",
    }
}

/// The phase that an error of a change behind its preparation names.
pub open spec fn failure_phase(step: MutationStep) -> Seq<char> {
    if step == MutationStep::Publish {
        "schedulerPublish"@
    } else if step == MutationStep::Commit {
        "commit"@
    } else {
        "prospectiveValidation"@
    }
}

/// What the failure of a change behind its preparation says first.
pub open spec fn phased_error(step: MutationStep, error: ErrorView) -> ErrorView {
    let named = error.with("catalogMutationFailurePhase"@, failure_phase(step));
    if step == MutationStep::Commit {
        named.retry()
    } else {
        named
    }
}

/// What it says of the transaction that was rolled back.
pub open spec fn rolled_back_error(error: ErrorView, failed: Option<ErrorCode>) -> ErrorView {
    match failed {
        None => error.with("catalogTransactionRollback"@, "succeeded"@),
        Some(code) => error.with("catalogTransactionRollback"@, "failed"@).with(
            "catalogTransactionRollbackErrorCode"@,
            code_text(code),
        ).retry(),
    }
}

/// What it says of the context that was read again.
pub open spec fn unsettled_error(error: ErrorView, status: Seq<char>, code: ErrorCode) -> ErrorView {
    error.with("catalogContextReconcileStatus"@, status).with(
        "catalogContextReconcileErrorCode"@,
        code_text(code),
    ).retry()
}

/// A change that fails behind its preparation at a step is settled from another
/// step on, with the error waiting.
pub open spec fn settles<T>(
    action: MutationAction<T>,
    mutation: CatalogMutation,
    step: MutationStep,
    error: ErrorView,
) -> bool {
    match action {
        MutationAction::Perform(next) => next.kind == mutation.kind && next.step == step
            && next.error is Some && next.error->0@ == error,
        _ => false,
    }
}

/// The change ends with an error.
pub open spec fn ends<T>(action: MutationAction<T>, error: ErrorView) -> bool {
    action is Fail && action->Fail_0@ == error
}

/// What follows an event of a change.
pub open spec fn mutation_after<T>(
    mutation: CatalogMutation,
    event: MutationEvent<T>,
    action: MutationAction<T>,
) -> bool {
    let prepared = mutation.step == MutationStep::Build && mutation.kind
        == MutationKind::DeleteProject;
    match event {
        MutationEvent::Replayed(answer) => action == MutationAction::<T>::AnswerReplay(answer),
        MutationEvent::Committed(answer) => action == MutationAction::<T>::AnswerCommitted(answer),
        MutationEvent::Done => match mutation.step {
            MutationStep::Rollback => settles(
                action,
                mutation,
                MutationStep::ReadDurable,
                rolled_back_error(mutation.error->0@, None),
            ),
            MutationStep::Republish => ends(
                action,
                mutation.error->0@.with("catalogContextReconcileStatus"@, "succeeded"@),
            ),
            _ => action == MutationAction::<T>::Perform(
                (CatalogMutation {
                    step: next_mutation_step(mutation.kind, mutation.step)->0,
                    ..mutation
                }),
            ),
        },
        MutationEvent::Failed(error) => match mutation.step {
            MutationStep::Publish => settles(
                action,
                mutation,
                MutationStep::Rollback,
                phased_error(mutation.step, error@),
            ),
            MutationStep::Commit => settles(
                action,
                mutation,
                MutationStep::ReadDurable,
                phased_error(mutation.step, error@),
            ),
            MutationStep::Rollback => settles(
                action,
                mutation,
                MutationStep::ReadDurable,
                rolled_back_error(mutation.error->0@, Some(error.code)),
            ),
            MutationStep::ReadDurable => ends(
                action,
                unsettled_error(mutation.error->0@, "durableReadFailed"@, error.code),
            ),
            MutationStep::Republish => ends(
                action,
                unsettled_error(mutation.error->0@, "schedulerPublishFailed"@, error.code),
            ),
            _ => if prepared {
                settles(
                    action,
                    mutation,
                    MutationStep::Rollback,
                    phased_error(mutation.step, error@),
                )
            } else {
                action == MutationAction::<T>::Fail(error)
            },
        },
    }
}

/// The step that follows a plain step of a change.
fn following_step(kind: MutationKind, step: MutationStep) -> (next: Option<MutationStep>)
    ensures
        next == next_mutation_step(kind, step),
{
    match step {
        MutationStep::Replay => Some(
            match kind {
                MutationKind::SaveProject => MutationStep::NormalizeRoot,
                MutationKind::SaveRule => MutationStep::LoadContext,
                MutationKind::DeleteProject | MutationKind::DeleteRule => MutationStep::LoadSource,
            },
        ),
        MutationStep::NormalizeRoot => Some(MutationStep::ReplayAgain),
        MutationStep::ReplayAgain => Some(MutationStep::LoadContext),
        MutationStep::LoadContext => Some(
            match kind {
                MutationKind::SaveProject | MutationKind::SaveRule => MutationStep::LoadSource,
                MutationKind::DeleteProject => MutationStep::Prepare,
                MutationKind::DeleteRule => MutationStep::Build,
            },
        ),
        MutationStep::LoadSource => Some(
            match kind {
                MutationKind::SaveProject | MutationKind::SaveRule => MutationStep::Build,
                MutationKind::DeleteProject | MutationKind::DeleteRule => MutationStep::LoadContext,
            },
        ),
        MutationStep::Build => Some(
            match kind {
                MutationKind::DeleteProject => MutationStep::Publish,
                _ => MutationStep::Prepare,
            },
        ),
        MutationStep::Prepare => Some(
            match kind {
                MutationKind::DeleteProject => MutationStep::Build,
                _ => MutationStep::Publish,
            },
        ),
        MutationStep::Publish => Some(MutationStep::Commit),
        MutationStep::Rollback => Some(MutationStep::ReadDurable),
        MutationStep::ReadDurable => Some(MutationStep::Republish),
        MutationStep::Commit | MutationStep::Republish => None,
    }
}

fn settle_from<T>(kind: MutationKind, step: MutationStep, error: AppError) -> (action:
    MutationAction<T>)
    ensures
        action == MutationAction::<T>::Perform((CatalogMutation { kind, step, error: Some(error) })),
{
    MutationAction::Perform(CatalogMutation { kind, step, error: Some(error) })
}

/// Takes what came of a step of a change in.
pub fn publish_and_commit_catalog_mutation<T>(
    mutation: CatalogMutation,
    event: MutationEvent<T>,
) -> (action: MutationAction<T>)
    requires
        mutation.wf(),
        mutation_event_fits(mutation.step, event),
    ensures
        mutation_after(mutation, event, action),
        action is Perform ==> action->Perform_0.wf(),
{
    let kind = mutation.kind;
    let step = mutation.step;
    match (event, mutation.error) {
        (MutationEvent::Replayed(answer), _) => MutationAction::AnswerReplay(answer),
        (MutationEvent::Committed(answer), _) => MutationAction::AnswerCommitted(answer),
        (MutationEvent::Done, Some(waiting)) => match step {
            MutationStep::Rollback => settle_from(
                kind,
                MutationStep::ReadDurable,
                waiting.with_detail("catalogTransactionRollback", "succeeded"),
            ),
            MutationStep::Republish => MutationAction::Fail(
                waiting.with_detail("catalogContextReconcileStatus", "succeeded"),
            ),
            _ => settle_from(kind, MutationStep::Republish, waiting),
        },
        (MutationEvent::Done, None) => match following_step(kind, step) {
            Some(next) => MutationAction::Perform(
                CatalogMutation { kind, step: next, error: None },
            ),
            None => vstd::pervasive::unreached(),
        },
        (MutationEvent::Failed(error), Some(waiting)) => match step {
            MutationStep::Rollback => settle_from(
                kind,
                MutationStep::ReadDurable,
                waiting.with_detail("catalogTransactionRollback", "failed").with_detail(
                    "catalogTransactionRollbackErrorCode",
                    code_name(error.code),
                ).as_retryable(),
            ),
            MutationStep::ReadDurable => MutationAction::Fail(
                waiting.with_detail(
                    "catalogContextReconcileStatus",
                    "durableReadFailed",
                ).with_detail(
                    "catalogContextReconcileErrorCode",
                    code_name(error.code),
                ).as_retryable(),
            ),
            _ => MutationAction::Fail(
                waiting.with_detail(
                    "catalogContextReconcileStatus",
                    "schedulerPublishFailed",
                ).with_detail(
                    "catalogContextReconcileErrorCode",
                    code_name(error.code),
                ).as_retryable(),
            ),
        },
        (MutationEvent::Failed(error), None) => match step {
            MutationStep::Publish => settle_from(
                kind,
                MutationStep::Rollback,
                error.with_detail("catalogMutationFailurePhase", "schedulerPublish"),
            ),
            MutationStep::Commit => settle_from(
                kind,
                MutationStep::ReadDurable,
                error.with_detail("catalogMutationFailurePhase", "commit").as_retryable(),
            ),
            MutationStep::Build if kind == MutationKind::DeleteProject => settle_from(
                kind,
                MutationStep::Rollback,
                error.with_detail("catalogMutationFailurePhase", "prospectiveValidation"),
            ),
            _ => MutationAction::Fail(error),
        },
    }
}

/// A change is committed only after discovery has taken it, and once it has
/// failed it is never answered as done.
pub proof fn lemma_commit_follows_publish<T>(
    mutation: CatalogMutation,
    event: MutationEvent<T>,
    action: MutationAction<T>,
)
    requires
        mutation.wf(),
        mutation_event_fits(mutation.step, event),
        mutation_after(mutation, event, action),
    ensures
        action is AnswerCommitted ==> mutation.step == MutationStep::Commit && event is Committed,
        action is Perform && action->Perform_0.step == MutationStep::Commit ==> mutation.step
            == MutationStep::Publish && event is Done,
        mutation.error is Some ==> action is Fail || (action is Perform
            && action->Perform_0.error is Some),
{
}

/// What the store remembers of the operations that were answered: by the
/// operation and the request that it was made with.
#[verifier::reject_recursive_types(R)]
pub struct Ledger<R, T> {
    pub answers: Map<(Seq<char>, R), T>,
}

/// A change of the catalog as it was made: its operation and its request, where
/// it stood, what came of each step, and how it ended.
pub struct MutationTrace<R, T> {
    pub operation_id: Seq<char>,
    pub request: R,
    pub kind: MutationKind,
    pub mutations: Seq<CatalogMutation>,
    pub events: Seq<MutationEvent<T>>,
    pub end: MutationAction<T>,
}

impl<R, T> MutationTrace<R, T> {
    /// It begins at the beginning, each step follows from the one before, and the
    /// last one ends it.
    pub open spec fn wf(self) -> bool {
        &&& self.mutations.len() == self.events.len()
        &&& self.mutations.len() > 0
        &&& self.mutations[0] == (CatalogMutation {
            kind: self.kind,
            step: MutationStep::Replay,
            error: None,
        })
        &&& self.end !is Perform
        &&& forall|i: int| 0 <= i < self.mutations.len() ==> #[trigger] self.goes_at(i)
    }

    /// What followed the step at a place.
    pub open spec fn action_at(self, i: int) -> MutationAction<T> {
        if i + 1 < self.mutations.len() {
            MutationAction::Perform(self.mutations[i + 1])
        } else {
            self.end
        }
    }

    /// The step at a place is followed as it should be.
    pub open spec fn goes_at(self, i: int) -> bool {
        &&& self.mutations[i].wf()
        &&& mutation_event_fits(self.mutations[i].step, self.events[i])
        &&& mutation_after(self.mutations[i], self.events[i], self.action_at(i))
    }

    /// What is asked of a ledger is answered from it: what is there is replayed,
    /// and what is not there is not.
    pub open spec fn asks(self, ledger: Ledger<R, T>) -> bool {
        forall|i: int|
            0 <= i < self.mutations.len() && ((#[trigger] self.mutations[i]).step
                == MutationStep::Replay || self.mutations[i].step == MutationStep::ReplayAgain)
                ==> {
                let key = (self.operation_id, self.request);
                match self.events[i] {
                    MutationEvent::Replayed(answer) => ledger.answers.dom().contains(key)
                        && ledger.answers[key] == answer,
                    MutationEvent::Done => !ledger.answers.dom().contains(key),
                    _ => true,
                }
            }
    }

    /// The ledger after a change: what is committed is remembered with it, and
    /// nothing else is.
    pub open spec fn leaves(self, ledger: Ledger<R, T>) -> Ledger<R, T> {
        match self.end {
            MutationAction::AnswerCommitted(answer) => Ledger {
                answers: ledger.answers.insert((self.operation_id, self.request), answer),
            },
            _ => ledger,
        }
    }

    /// The answer of a change, where it is answered well.
    pub open spec fn answer(self) -> Option<T> {
        answer_of(self.end)
    }

    /// A change that did nothing but ask the ledger.
    pub open spec fn only_asks(self) -> bool {
        forall|i: int|
            0 <= i < self.mutations.len() ==> (#[trigger] self.mutations[i]).step
                == MutationStep::Replay
    }
}

/// The steps at which nothing has been written or handed on yet.
pub open spec fn is_before_preparation(step: MutationStep) -> bool {
    ||| step == MutationStep::Replay
    ||| step == MutationStep::NormalizeRoot
    ||| step == MutationStep::ReplayAgain
    ||| step == MutationStep::LoadContext
    ||| step == MutationStep::LoadSource
    ||| step == MutationStep::Build
}

/// The answer that an action gives.
pub open spec fn answer_of<T>(action: MutationAction<T>) -> Option<T> {
    match action {
        MutationAction::AnswerReplay(answer) => Some(answer),
        MutationAction::AnswerCommitted(answer) => Some(answer),
        _ => None,
    }
}

proof fn lemma_one_step<T>(
    mutation: CatalogMutation,
    event: MutationEvent<T>,
    action: MutationAction<T>,
)
    requires
        mutation.wf(),
        mutation_event_fits(mutation.step, event),
        mutation_after(mutation, event, action),
    ensures
        answer_of(action) is Some ==> event == (if mutation.step == MutationStep::Commit {
            MutationEvent::<T>::Committed(answer_of(action)->0)
        } else {
            MutationEvent::<T>::Replayed(answer_of(action)->0)
        }),
        event is Replayed ==> action == MutationAction::<T>::AnswerReplay(event->Replayed_0),
        event is Committed ==> action == MutationAction::<T>::AnswerCommitted(
            event->Committed_0,
        ),
        mutation.step == MutationStep::Replay && event is Failed ==> action
            == MutationAction::<T>::Fail(event->Failed_0),
        action is Perform ==> {
            let next = action->Perform_0;
            &&& next.kind == mutation.kind
            &&& mutation.kind != MutationKind::DeleteProject && is_before_preparation(next.step)
                ==> is_before_preparation(mutation.step)
        },
        mutation.kind != MutationKind::DeleteProject && is_before_preparation(mutation.step)
            && event is Failed ==> action == MutationAction::<T>::Fail(event->Failed_0),
{
}

/// An operation that was answered well is answered again in the same way, where
/// it is asked for again with an equal request: the second time nothing is done
/// but to ask the ledger, which stays as it is. Where the ledger cannot be read
/// the refusal says so, and nothing is done either. This holds of saves and of
/// deletions.
pub proof fn lemma_repeated_change_is_answered_again<R, T>(
    ledger: Ledger<R, T>,
    first: MutationTrace<R, T>,
    second: MutationTrace<R, T>,
)
    requires
        first.wf(),
        first.asks(ledger),
        first.answer() is Some,
        second.wf(),
        second.operation_id == first.operation_id,
        second.request == first.request,
        second.asks(first.leaves(ledger)),
    ensures
        second.only_asks(),
        second.leaves(first.leaves(ledger)) == first.leaves(ledger),
        match second.events[0] {
            MutationEvent::Failed(error) => second.end == MutationAction::<T>::Fail(error),
            _ => second.answer() == first.answer(),
        },
{
    let key = (first.operation_id, first.request);
    let last = first.mutations.len() - 1;
    assert(first.goes_at(last));
    lemma_one_step(first.mutations[last], first.events[last], first.end);
    let after = first.leaves(ledger);
    assert(after.answers.dom().contains(key) && after.answers[key] == first.answer()->0);
    assert(second.goes_at(0));
    lemma_one_step(second.mutations[0], second.events[0], second.action_at(0));
    assert(second.mutations[0].step == MutationStep::Replay);
    assert(second.events[0] !is Done);
    assert(second.mutations.len() == 1);
}

/// A change that is refused before it is prepared, as one that was made to an
/// older version is, has written nothing and handed nothing on: every step of it
/// lies before that. A deletion of a project is built after it was prepared, and
/// is rolled back where that is refused.
pub proof fn lemma_refused_change_writes_nothing<R, T>(trace: MutationTrace<R, T>, at: int)
    requires
        trace.wf(),
        trace.kind != MutationKind::DeleteProject,
        0 <= at < trace.mutations.len(),
        is_before_preparation(trace.mutations[at].step),
    ensures
        forall|i: int|
            0 <= i <= at ==> is_before_preparation((#[trigger] trace.mutations[i]).step),
        trace.events[at] matches MutationEvent::Failed(error) ==> {
            &&& trace.mutations.len() == at + 1
            &&& trace.end == MutationAction::<T>::Fail(error)
        },
    decreases at,
{
    lemma_kind_stays(trace, at);
    assert(trace.goes_at(at));
    lemma_one_step(trace.mutations[at], trace.events[at], trace.action_at(at));
    if at > 0 {
        lemma_kind_stays(trace, at - 1);
        assert(trace.goes_at(at - 1));
        lemma_one_step(trace.mutations[at - 1], trace.events[at - 1], trace.action_at(at - 1));
        lemma_refused_change_writes_nothing(trace, at - 1);
    }
}

proof fn lemma_kind_stays<R, T>(trace: MutationTrace<R, T>, at: int)
    requires
        trace.wf(),
        0 <= at < trace.mutations.len(),
    ensures
        trace.mutations[at].kind == trace.kind,
    decreases at,
{
    if at > 0 {
        lemma_kind_stays(trace, at - 1);
        assert(trace.goes_at(at - 1));
        lemma_one_step(trace.mutations[at - 1], trace.events[at - 1], trace.action_at(at - 1));
    }
}

/// Taking a project out again that was put into the context anew leaves the
/// projects as they were.
pub proof fn lemma_removal_undoes_addition(
    before: ProjectContext,
    after: ProjectContext,
    project_id: Seq<char>,
    root: NormalizedRoot,
)
    requires
        !has_project(before.projects@, project_id),
        project_is_placed(before, after, project_id, root),
    ensures
        without_project(after.projects@, project_id) == before.projects@,
{
    let last = after.projects@.last();
    assert(after.projects@.drop_last() =~= before.projects@);
    lemma_without_absent_project(before.projects@, project_id);
}

proof fn lemma_without_absent_project(projects: Seq<RegisteredProject>, id: Seq<char>)
    requires
        !has_project(projects, id),
    ensures
        without_project(projects, id) == projects,
    decreases projects.len(),
{
    if projects.len() > 0 {
        let rest = projects.drop_last();
        assert(!has_project(rest, id)) by {
            if has_project(rest, id) {
                let k = choose|k: int| 0 <= k < rest.len() && (#[trigger] rest[k]).id@ == id;
                assert(projects[k].id@ == id);
            }
        }
        lemma_without_absent_project(rest, id);
        assert(projects[projects.len() - 1].id@ != id);
        assert(rest.push(projects.last()) =~= projects);
    } else {
        assert(projects =~= Seq::empty());
    }
}

} // verus!
