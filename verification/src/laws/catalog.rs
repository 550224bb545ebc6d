//! What changing the catalog is for: nothing is lost to another's change, what was saved
//! is what discovery works with, and nothing is committed that was not published.

use vstd::prelude::*;

use crate::catalog::{
    classification_rule_for_discovery, delete_classification_rule, delete_project, has_project,
    has_rule, mutation_after, mutation_event_fits, project_is_placed, project_is_removed,
    project_place, require_catalog_version, rule_is_placed, rule_is_removed, rule_place,
    save_classification_rule, save_project, without_project, without_rule, CatalogMutation,
    DiscoveryRule, MutationAction, MutationEvent, MutationKind, MutationStep, NormalizedRoot,
    ProjectContext, ProjectSummary, RegisteredProject, RuleSummary, SaveProjectRequest,
    SaveRuleRequest, SavedFrom,
};
use crate::error::{AppError, ErrorCode};
use crate::text::text_before;

verus! {

proof fn lemma_without_project(
    projects: Seq<RegisteredProject>,
    id: Seq<char>,
    project: RegisteredProject,
)
    ensures
        without_project(projects, id).contains(project) <==> projects.contains(project)
            && project.id@ != id,
    decreases projects.len(),
{
    if projects.len() > 0 {
        let before = projects.drop_last();
        let rest = without_project(before, id);
        let last = projects.last();
        lemma_without_project(before, id, project);
        assert(projects =~= before.push(last));
        lemma_pushed_has(before, last, project);
        lemma_pushed_has(rest, last, project);
    }
}

proof fn lemma_without_rule(rules: Seq<DiscoveryRule>, id: Seq<char>, rule: DiscoveryRule)
    ensures
        without_rule(rules, id).contains(rule) <==> rules.contains(rule) && rule.id@ != id,
    decreases rules.len(),
{
    if rules.len() > 0 {
        let before = rules.drop_last();
        let rest = without_rule(before, id);
        let last = rules.last();
        lemma_without_rule(before, id, rule);
        assert(rules =~= before.push(last));
        lemma_pushed_has(before, last, rule);
        lemma_pushed_has(rest, last, rule);
    }
}

proof fn lemma_pushed_has<A>(entries: Seq<A>, last: A, entry: A)
    ensures
        entries.push(last).contains(entry) <==> entries.contains(entry) || entry == last,
{
    let pushed = entries.push(last);
    assert(pushed[entries.len() as int] == last);
    if entries.contains(entry) {
        let k = entries.index_of(entry);
        assert(pushed[k] == entry);
    }
    if pushed.contains(entry) && entry != last {
        let k = pushed.index_of(entry);
        assert(entries[k] == entry);
    }
}

/// A project that is taken out is gone, each other project and each rule stays, and a
/// project that is not there is told to be missing.
pub proof fn lemma_removed_project_is_gone(
    before: ProjectContext,
    project_id: Seq<char>,
    result: Result<(), AppError>,
    after: ProjectContext,
    project: RegisteredProject,
)
    requires
        project_is_removed(before, project_id, result, after),
    ensures
        after.projects@.contains(project) <==> before.projects@.contains(project) && project.id@
            != project_id,
        !has_project(after.projects@, project_id),
        after.rules == before.rules,
        result is Ok <==> has_project(before.projects@, project_id),
        result matches Err(error) ==> error.code == ErrorCode::Internal,
{
    lemma_without_project(before.projects@, project_id, project);
    if let Err(error) = result {
        assert(error@.code == error.code);
    }
    if has_project(after.projects@, project_id) {
        let i = choose|i: int|
            0 <= i < after.projects@.len() && (#[trigger] after.projects@[i]).id@ == project_id;
        lemma_without_project(before.projects@, project_id, after.projects@[i]);
        assert(after.projects@.contains(after.projects@[i]));
    }
}

/// A rule that is taken out is gone, each other rule and each project stays, and a rule
/// that is not there is told to be missing.
pub proof fn lemma_removed_rule_is_gone(
    before: ProjectContext,
    rule_id: Seq<char>,
    result: Result<(), AppError>,
    after: ProjectContext,
    rule: DiscoveryRule,
)
    requires
        rule_is_removed(before, rule_id, result, after),
    ensures
        after.rules@.contains(rule) <==> before.rules@.contains(rule) && rule.id@ != rule_id,
        !has_rule(after.rules@, rule_id),
        after.projects == before.projects,
        after.known_project_ids == before.known_project_ids,
        result is Ok <==> has_rule(before.rules@, rule_id),
        result matches Err(error) ==> error.code == ErrorCode::Internal,
{
    lemma_without_rule(before.rules@, rule_id, rule);
    if let Err(error) = result {
        assert(error@.code == error.code);
    }
    if has_rule(after.rules@, rule_id) {
        let i = choose|i: int|
            0 <= i < after.rules@.len() && (#[trigger] after.rules@[i]).id@ == rule_id;
        lemma_without_rule(before.rules@, rule_id, after.rules@[i]);
        assert(after.rules@.contains(after.rules@[i]));
    }
}

/// Discovery works with a project as it was placed: it is found under its identifier with
/// its root, every project under another identifier stays where it was, and no rule
/// changes.
pub proof fn lemma_placed_project_is_found(
    before: ProjectContext,
    after: ProjectContext,
    project_id: Seq<char>,
    root: NormalizedRoot,
    i: int,
)
    requires
        project_is_placed(before, after, project_id, root),
    ensures
        exists|place: int|
            project_place(after.projects@, project_id, place) && (
            #[trigger] after.projects@[place]).root_directory@ == root.canonical_root_directory@
                && after.projects@[place].normalized_path@ == root.normalized_path@,
        0 <= i < before.projects@.len() && before.projects@[i].id@ != project_id
            ==> after.projects@[i] == before.projects@[i],
        after.projects@.len() == before.projects@.len() + (if has_project(
            before.projects@,
            project_id,
        ) {
            0int
        } else {
            1
        }),
        after.rules == before.rules,
{
    if has_project(before.projects@, project_id) {
        let place = choose|place: int| #[trigger]
            project_place(before.projects@, project_id, place) && after.projects@[place].id@
                == project_id && after.projects@[place].root_directory@
                == root.canonical_root_directory@ && after.projects@[place].normalized_path@
                == root.normalized_path@ && after.projects@ == before.projects@.update(
                place,
                after.projects@[place],
            );
        assert(project_place(after.projects@, project_id, place)) by {
            assert forall|k: int| 0 <= k < place implies (#[trigger] after.projects@[k]).id@
                != project_id by {
                assert(after.projects@[k] == before.projects@[k]);
            }
        }
    } else {
        let place = before.projects@.len() as int;
        assert(project_place(after.projects@, project_id, place)) by {
            assert forall|k: int| 0 <= k < place implies (#[trigger] after.projects@[k]).id@
                != project_id by {
                assert(after.projects@[k] == before.projects@[k]);
            }
        }
    }
}

/// Discovery works with a rule as it was placed: it is found under its identifier with
/// what it matches, does and counts for, every rule under another identifier stays where
/// it was, and no project changes.
pub proof fn lemma_placed_rule_is_found(
    before: ProjectContext,
    after: ProjectContext,
    summary: RuleSummary,
    i: int,
)
    requires
        rule_is_placed(before, after, summary),
    ensures
        exists|place: int|
            rule_place(after.rules@, summary.id@, place) && (#[trigger] after.rules@[place]).matcher
                == summary.input.matcher_kind && after.rules@[place].pattern@
                == summary.input.pattern@ && after.rules@[place].priority == summary.input.priority
                && after.rules@[place].enabled == summary.input.enabled,
        0 <= i < before.rules@.len() && before.rules@[i].id@ != summary.id@ ==> after.rules@[i]
            == before.rules@[i],
        after.rules@.len() == before.rules@.len() + (if has_rule(before.rules@, summary.id@) {
            0int
        } else {
            1
        }),
        after.projects == before.projects,
        after.known_project_ids == before.known_project_ids,
{
    if has_rule(before.rules@, summary.id@) {
        let place = choose|place: int| #[trigger]
            rule_place(before.rules@, summary.id@, place) && crate::catalog::is_rule_of(
                after.rules@[place],
                summary,
            ) && after.rules@ == before.rules@.update(place, after.rules@[place]);
        assert(rule_place(after.rules@, summary.id@, place)) by {
            assert forall|k: int| 0 <= k < place implies (#[trigger] after.rules@[k]).id@
                != summary.id@ by {
                assert(after.rules@[k] == before.rules@[k]);
            }
        }
    } else {
        let place = before.rules@.len() as int;
        assert(rule_place(after.rules@, summary.id@, place)) by {
            assert forall|k: int| 0 <= k < place implies (#[trigger] after.rules@[k]).id@
                != summary.id@ by {
                assert(after.rules@[k] == before.rules@[k]);
            }
        }
    }
}

/// A rule works as it was saved.
pub proof fn lemma_rule_works_as_it_was_saved(summary: RuleSummary, rule: DiscoveryRule)
    requires
        call_ensures(classification_rule_for_discovery, (&summary,), rule),
    ensures
        rule.id@ == summary.id@,
        rule.matcher == summary.input.matcher_kind,
        rule.pattern@ == summary.input.pattern@,
        rule.priority == summary.input.priority,
        rule.enabled == summary.input.enabled,
        rule.action is Include <==> summary.input.action is Include,
        rule.action is Exclude <==> summary.input.action is Exclude,
        rule.action is AssignProject <==> summary.input.action is AssignProject,
        rule.action is AssignProject ==> rule.action->project_id@
            == summary.input.action->project_id@,
{
}

/// A change is made only to the version that was seen: with any other version it is
/// refused as a conflict, and deleting goes by the same rule.
pub proof fn lemma_unseen_version_is_not_changed(
    entity: &str,
    id_field: &str,
    id: &str,
    expected: &str,
    actual: &str,
    checked: Result<(), AppError>,
    project: Result<(), AppError>,
    rule: Result<(), AppError>,
)
    requires
        call_ensures(require_catalog_version, (entity, id_field, id, expected, actual), checked),
        call_ensures(delete_project, (id, expected, actual), project),
        call_ensures(delete_classification_rule, (id, expected, actual), rule),
    ensures
        checked is Ok <==> expected@ == actual@,
        project is Ok <==> expected@ == actual@,
        rule is Ok <==> expected@ == actual@,
        checked matches Err(error) ==> error.code == ErrorCode::Conflict && !error.retryable,
        project matches Err(error) ==> error.code == ErrorCode::Conflict && !error.retryable,
        rule matches Err(error) ==> error.code == ErrorCode::Conflict && !error.retryable,
{
    if let Err(error) = checked {
        assert(error@.code == error.code && error@.retryable == error.retryable);
    }
    if let Err(error) = project {
        assert(error@.code == error.code && error@.retryable == error.retryable);
    }
    if let Err(error) = rule {
        assert(error@.code == error.code && error@.retryable == error.retryable);
    }
}

/// A project that was saved is what was asked for, under the directory that its root
/// really is, and is so in the context that is published. A new one begins with equal
/// times; a changed one keeps its identifier and its beginning and gets a later time. A
/// version that was not seen is a conflict, and nothing else is.
pub proof fn lemma_saved_project_is_what_was_asked_for(
    context: ProjectContext,
    request: SaveProjectRequest,
    source: SavedFrom<ProjectSummary>,
    root: NormalizedRoot,
    now: Result<String, AppError>,
    result: Result<(ProjectSummary, ProjectContext), AppError>,
)
    requires
        request is Create <==> source is Allocated,
        call_ensures(save_project, (context, request, source, &root, now), result),
    ensures
        request is Create ==> (result is Ok <==> now is Ok),
        request is Create && now is Err ==> result->Err_0 == now->Err_0,
        request matches SaveProjectRequest::Update { expected_updated_at, .. } ==> {
            let current = source->Current_0;
            &&& expected_updated_at@ != current.updated_at@ <==> (result is Err
                && result->Err_0.code == ErrorCode::Conflict)
        },
        result matches Ok((project, prospective)) ==> {
            &&& project.input.root_directory@ == root.canonical_root_directory@
            &&& project_is_placed(context, prospective, project.id@, root)
            &&& request matches SaveProjectRequest::Create { input } ==> {
                &&& project.input.name@ == input.name@ && project.id == source->Allocated_0
                &&& project.created_at@ == now->Ok_0@ && project.updated_at@ == now->Ok_0@
            }
            &&& request matches SaveProjectRequest::Update { input, .. } ==> {
                let current = source->Current_0;
                &&& project.input.name@ == input.name@ && project.id == current.id
                &&& project.created_at == current.created_at
                &&& text_before(current.updated_at@, project.updated_at@)
                &&& now is Ok && text_before(current.updated_at@, now->Ok_0@)
                    ==> project.updated_at@ == now->Ok_0@
            }
        },
{
    if let Err(error) = result {
        assert(error@.code == error.code);
    }
}

/// A rule that was saved is what was asked for, and is so in the context that is
/// published. A new one begins with equal times; a changed one keeps its identifier and its
/// beginning and gets a later time. A version that was not seen is a conflict, and nothing
/// else is.
pub proof fn lemma_saved_rule_is_what_was_asked_for(
    context: ProjectContext,
    request: SaveRuleRequest,
    source: SavedFrom<RuleSummary>,
    now: Result<String, AppError>,
    result: Result<(RuleSummary, ProjectContext), AppError>,
)
    requires
        request is Create <==> source is Allocated,
        call_ensures(save_classification_rule, (context, request, source, now), result),
    ensures
        request is Create ==> (result is Ok <==> now is Ok),
        request is Create && now is Err ==> result->Err_0 == now->Err_0,
        request matches SaveRuleRequest::Update { expected_updated_at, .. } ==> {
            let current = source->Current_0;
            &&& expected_updated_at@ != current.updated_at@ <==> (result is Err
                && result->Err_0.code == ErrorCode::Conflict)
        },
        result matches Ok((rule, prospective)) ==> {
            &&& rule_is_placed(context, prospective, rule)
            &&& request matches SaveRuleRequest::Create { input } ==> {
                &&& rule.input == input && rule.id == source->Allocated_0
                &&& rule.created_at@ == now->Ok_0@ && rule.updated_at@ == now->Ok_0@
            }
            &&& request matches SaveRuleRequest::Update { input, .. } ==> {
                let current = source->Current_0;
                &&& rule.input == input && rule.id == current.id
                &&& rule.created_at == current.created_at
                &&& text_before(current.updated_at@, rule.updated_at@)
                &&& now is Ok && text_before(current.updated_at@, now->Ok_0@)
                    ==> rule.updated_at@ == now->Ok_0@
            }
        },
{
    if let Err(error) = result {
        assert(error@.code == error.code);
    }
}

/// Before each step of a change comes what it needs: the catalog is read before a change is
/// built, a change is built and prepared before it is published, and published before it is
/// committed. A project is prepared for deletion before its context is built without it.
pub proof fn lemma_change_is_prepared_before_it_is_seen<T>(
    mutation: CatalogMutation,
    event: MutationEvent<T>,
    next: CatalogMutation,
)
    requires
        mutation.wf(),
        mutation_event_fits(mutation.step, event),
        mutation.error is None,
        mutation_after(mutation, event, MutationAction::Perform(next)),
        next.error is None,
    ensures
        event is Done,
        next.kind == mutation.kind,
        next.step != MutationStep::Replay,
        next.step == MutationStep::NormalizeRoot ==> mutation.step == MutationStep::Replay
            && mutation.kind == MutationKind::SaveProject,
        next.step == MutationStep::ReplayAgain ==> mutation.step == MutationStep::NormalizeRoot,
        next.step == MutationStep::LoadContext ==> mutation.step == match mutation.kind {
            MutationKind::SaveProject => MutationStep::ReplayAgain,
            MutationKind::SaveRule => MutationStep::Replay,
            MutationKind::DeleteProject => MutationStep::LoadSource,
            MutationKind::DeleteRule => MutationStep::LoadSource,
        },
        next.step == MutationStep::LoadSource ==> mutation.step == match mutation.kind {
            MutationKind::SaveProject => MutationStep::LoadContext,
            MutationKind::SaveRule => MutationStep::LoadContext,
            MutationKind::DeleteProject => MutationStep::Replay,
            MutationKind::DeleteRule => MutationStep::Replay,
        },
        next.step == MutationStep::Build ==> mutation.step == match mutation.kind {
            MutationKind::SaveProject => MutationStep::LoadSource,
            MutationKind::SaveRule => MutationStep::LoadSource,
            MutationKind::DeleteProject => MutationStep::Prepare,
            MutationKind::DeleteRule => MutationStep::LoadContext,
        },
        next.step == MutationStep::Prepare ==> mutation.step == (if mutation.kind
            == MutationKind::DeleteProject {
            MutationStep::LoadContext
        } else {
            MutationStep::Build
        }),
        next.step == MutationStep::Publish ==> mutation.step == (if mutation.kind
            == MutationKind::DeleteProject {
            MutationStep::Build
        } else {
            MutationStep::Prepare
        }),
        next.step == MutationStep::Commit ==> mutation.step == MutationStep::Publish,
{
}

/// Each step of a change that went well leads on: until the change is committed there is
/// always a next step, and none is taken twice.
pub proof fn lemma_step_of_a_change_leads_on<T>(
    mutation: CatalogMutation,
    event: MutationEvent<T>,
    action: MutationAction<T>,
)
    requires
        mutation.wf(),
        mutation_event_fits(mutation.step, event),
        mutation.error is None,
        mutation_after(mutation, event, action),
    ensures
        event is Done ==> action is Perform && action->Perform_0.error is None
            && action->Perform_0.step != mutation.step,
        event is Replayed ==> action == MutationAction::AnswerReplay(event->Replayed_0),
        event is Committed ==> action == MutationAction::AnswerCommitted(event->Committed_0),
        event is Failed ==> action is Fail || (action is Perform
            && action->Perform_0.error is Some),
{
}

/// Where a change fails after it was prepared, it is not left half done: until it is
/// published it is rolled back; once a commit was tried, it is not, as it may have been
/// made. Either way the durable catalog is then read and published again. What is told in
/// the end is what failed first, and it is worth another try where it is not known what
/// was kept.
pub proof fn lemma_failed_change_is_settled<T>(
    mutation: CatalogMutation,
    event: MutationEvent<T>,
    action: MutationAction<T>,
)
    requires
        mutation.wf(),
        mutation_event_fits(mutation.step, event),
        mutation_after(mutation, event, action),
        mutation.error is Some || event is Failed,
    ensures
        !(action is AnswerCommitted) && !(action is AnswerReplay),
        action is Perform ==> action->Perform_0.error is Some,
        action is Perform && action->Perform_0.step == MutationStep::Rollback <==> event is Failed
            && (mutation.step == MutationStep::Publish || (mutation.step == MutationStep::Build
            && mutation.kind == MutationKind::DeleteProject)),
        action is Perform && action->Perform_0.step == MutationStep::ReadDurable <==> mutation.step
            == MutationStep::Rollback || mutation.step == MutationStep::Commit,
        action is Perform && action->Perform_0.step == MutationStep::Republish <==> mutation.step
            == MutationStep::ReadDurable && event is Done,
        mutation.error is Some && action is Perform ==> action->Perform_0.error->0.code
            == mutation.error->0.code,
        mutation.error is Some && action is Fail ==> action->Fail_0.code
            == mutation.error->0.code,
        mutation.error is Some && action is Fail && event is Failed ==> action->Fail_0.retryable,
        mutation.error is Some && action is Fail && event is Done ==> action->Fail_0.retryable
            == mutation.error->0.retryable,
        mutation.error is None && event is Failed && action is Fail ==> action->Fail_0
            == event->Failed_0,
        mutation.error is None && event is Failed && action is Perform
            ==> action->Perform_0.error->0.code == event->Failed_0.code,
        mutation.step == MutationStep::Commit ==> action->Perform_0.error->0.retryable,
        mutation.step == MutationStep::Publish ==> action->Perform_0.error->0.retryable
            == event->Failed_0.retryable,
        mutation.step == MutationStep::Rollback && event is Failed
            ==> action->Perform_0.error->0.retryable,
        mutation.step == MutationStep::Rollback && event is Done
            ==> action->Perform_0.error->0.retryable == mutation.error->0.retryable,
{
    if let MutationAction::Perform(next) = action {
        assert(next.error->0@.code == next.error->0.code);
        assert(next.error->0@.retryable == next.error->0.retryable);
    }
    if let MutationAction::Fail(error) = action {
        assert(error@.code == error.code && error@.retryable == error.retryable);
    }
    if let Some(error) = mutation.error {
        assert(error@.code == error.code && error@.retryable == error.retryable);
    }
    if let MutationEvent::Failed(error) = event {
        assert(error@.code == error.code && error@.retryable == error.retryable);
    }
}

} // verus!
