//! Leaving the desktop: what every run means for an exit, and stopping all of
//! them under one operation.

use vstd::prelude::*;

use crate::digest::{
    be_bytes, lemma_be_is_unique, lemma_be_length, pow256, push_be_bytes, push_bytes, sha256,
    sha256_digest,
};
use crate::error::{optional_text, plain_error, AppError, ErrorCode, ErrorView};
use crate::random::random_array;
use crate::run::{
    is_key, optional_key, platform_control_matches_record, process_matches, Controls,
    ManagedRunRecord, Platform, RunControl, RunState, StopKind, StopOperation, StopPhase,
    StopStatus,
};
use crate::text::{
    decimal, decimal_text, encode_lower_hex, insert_sorted, is_listed, join, lower_hex, same_text,
    sorted_texts, text_before,
};

verus! {

/// A run that the store shows as active, with its unfinished stop.
#[derive(Debug)]
pub struct ActiveRun {
    pub run: ManagedRunRecord,
    pub active_stop: Option<StopOperation>,
}

/// Why a run stays when the desktop is left.
#[derive(Clone, Copy, Debug, PartialEq, Eq, Structural)]
pub enum RetainedReason {
    Quarantined,
    CleanupPending,
    DurableOnly,
    ControlMismatch,
}

/// What a run means for an exit.
#[derive(Debug)]
pub enum ExitRunImpact {
    Launching { run_id: String },
    Running { run_id: String },
    GracefulStopping { run_id: String, operation_id: String },
    GracefulTimedOut { run_id: String, operation_id: String },
    ForceStopping { run_id: String, operation_id: String },
    Retained { run_id: String, reason: RetainedReason },
}

/// What a run means for an exit, by itself.
pub enum ImpactView {
    Launching,
    Running,
    GracefulStopping { operation_id: Seq<char> },
    GracefulTimedOut { operation_id: Seq<char> },
    ForceStopping { operation_id: Seq<char> },
    Retained { reason: RetainedReason },
}

impl ExitRunImpact {
    /// The run that is meant.
    pub open spec fn id(self) -> Seq<char> {
        match self {
            ExitRunImpact::Launching { run_id } => run_id@,
            ExitRunImpact::Running { run_id } => run_id@,
            ExitRunImpact::GracefulStopping { run_id, .. } => run_id@,
            ExitRunImpact::GracefulTimedOut { run_id, .. } => run_id@,
            ExitRunImpact::ForceStopping { run_id, .. } => run_id@,
            ExitRunImpact::Retained { run_id, .. } => run_id@,
        }
    }

    pub fn copy(&self) -> (copy: Self)
        ensures
            copy == *self,
    {
        match self {
            ExitRunImpact::Launching { run_id } => ExitRunImpact::Launching {
                run_id: run_id.clone(),
            },
            ExitRunImpact::Running { run_id } => ExitRunImpact::Running { run_id: run_id.clone() },
            ExitRunImpact::GracefulStopping {
                run_id,
                operation_id,
            } => ExitRunImpact::GracefulStopping {
                run_id: run_id.clone(),
                operation_id: operation_id.clone(),
            },
            ExitRunImpact::GracefulTimedOut {
                run_id,
                operation_id,
            } => ExitRunImpact::GracefulTimedOut {
                run_id: run_id.clone(),
                operation_id: operation_id.clone(),
            },
            ExitRunImpact::ForceStopping {
                run_id,
                operation_id,
            } => ExitRunImpact::ForceStopping {
                run_id: run_id.clone(),
                operation_id: operation_id.clone(),
            },
            ExitRunImpact::Retained { run_id, reason } => ExitRunImpact::Retained {
                run_id: run_id.clone(),
                reason: *reason,
            },
        }
    }
}

impl View for ExitRunImpact {
    type V = ImpactView;

    open spec fn view(&self) -> ImpactView {
        match *self {
            ExitRunImpact::Launching { .. } => ImpactView::Launching,
            ExitRunImpact::Running { .. } => ImpactView::Running,
            ExitRunImpact::GracefulStopping { operation_id, .. } => ImpactView::GracefulStopping {
                operation_id: operation_id@,
            },
            ExitRunImpact::GracefulTimedOut { operation_id, .. } => ImpactView::GracefulTimedOut {
                operation_id: operation_id@,
            },
            ExitRunImpact::ForceStopping { operation_id, .. } => ImpactView::ForceStopping {
                operation_id: operation_id@,
            },
            ExitRunImpact::Retained { reason, .. } => ImpactView::Retained { reason },
        }
    }
}

pub fn exit_run_impact_id(impact: &ExitRunImpact) -> (run_id: &str)
    ensures
        run_id@ == impact.id(),
{
    match impact {
        ExitRunImpact::Launching { run_id } => run_id.as_str(),
        ExitRunImpact::Running { run_id } => run_id.as_str(),
        ExitRunImpact::GracefulStopping { run_id, .. } => run_id.as_str(),
        ExitRunImpact::GracefulTimedOut { run_id, .. } => run_id.as_str(),
        ExitRunImpact::ForceStopping { run_id, .. } => run_id.as_str(),
        ExitRunImpact::Retained { run_id, .. } => run_id.as_str(),
    }
}

/// Whether the phase in which a stop is held can go with a stored status.
pub open spec fn phase_fits_status(phase: StopPhase, status: StopStatus) -> bool {
    match phase {
        StopPhase::Requested => status == StopStatus::Requested,
        StopPhase::SignalPending => status == StopStatus::SignalPending,
        StopPhase::SignalAttempted => status == StopStatus::SignalPending,
        StopPhase::Monitoring => status == StopStatus::InProgress,
        StopPhase::TimedOut => status == StopStatus::TimedOut,
        StopPhase::CompletionPending(_) => status != StopStatus::Completed && status
            != StopStatus::Superseded,
    }
}

pub fn managed_stop_phase_matches_result(phase: StopPhase, status: StopStatus) -> (matches: bool)
    ensures
        matches == phase_fits_status(phase, status),
{
    match phase {
        StopPhase::Requested => status == StopStatus::Requested,
        StopPhase::SignalPending | StopPhase::SignalAttempted => status
            == StopStatus::SignalPending,
        StopPhase::Monitoring => status == StopStatus::InProgress,
        StopPhase::TimedOut => status == StopStatus::TimedOut,
        StopPhase::CompletionPending(_) => match status {
            StopStatus::Requested | StopStatus::SignalPending | StopStatus::InProgress
            | StopStatus::TimedOut => true,
            StopStatus::Completed | StopStatus::Superseded => false,
        },
    }
}

/// Whether what is held of a run and what is stored of it agree.
pub open spec fn coherent(platform: Platform, control: RunControl, durable: ActiveRun) -> bool {
    let state = durable.run.state;
    let key = optional_key(durable.run.process_instance_key);
    match control {
        RunControl::StartingIntent => state == RunState::Starting && key is None
            && durable.run.process_group_id is None && durable.active_stop is None,
        RunControl::Suspended(process) => state == RunState::Starting && durable.active_stop is None
            && key == Some(process.instance_key@),
        RunControl::RunningUncommitted(process) => (state == RunState::Starting || state
            == RunState::Running) && durable.active_stop is None && key == Some(
            process.instance_key@,
        ),
        RunControl::Running(process) => (state == RunState::Running || state
            == RunState::Recovered) && durable.active_stop is None && process_matches(
            platform,
            process,
            key,
            durable.run.process_group_id,
        ),
        RunControl::Stopping(stop) => match durable.active_stop {
            Some(active) => active.operation_id@ == stop.operation_id@ && active.kind == stop.kind
                && phase_fits_status(stop.phase, active.status) && process_matches(
                platform,
                stop.process,
                key,
                durable.run.process_group_id,
            ),
            None => false,
        },
        RunControl::Quarantined(_) => false,
        RunControl::CleanupPending(_) => false,
    }
}

pub fn exit_control_matches_durable(
    platform: Platform,
    control: &RunControl,
    durable: &ActiveRun,
) -> (matches: bool)
    ensures
        matches == coherent(platform, *control, *durable),
{
    let state = durable.run.state;
    match control {
        RunControl::StartingIntent => state == RunState::Starting
            && durable.run.process_instance_key.is_none() && durable.run.process_group_id.is_none()
            && durable.active_stop.is_none(),
        RunControl::Suspended(process) => state == RunState::Starting
            && durable.active_stop.is_none() && is_key(
            &durable.run.process_instance_key,
            &process.instance_key,
        ),
        RunControl::RunningUncommitted(process) => (state == RunState::Starting || state
            == RunState::Running) && durable.active_stop.is_none() && is_key(
            &durable.run.process_instance_key,
            &process.instance_key,
        ),
        RunControl::Running(process) => (state == RunState::Running || state
            == RunState::Recovered) && durable.active_stop.is_none()
            && platform_control_matches_record(platform, process, &durable.run),
        RunControl::Stopping(stop) => match &durable.active_stop {
            Some(active) => same_text(active.operation_id.as_str(), stop.operation_id.as_str())
                && active.kind == stop.kind && managed_stop_phase_matches_result(
                stop.phase,
                active.status,
            ) && platform_control_matches_record(platform, &stop.process, &durable.run),
            None => false,
        },
        RunControl::Quarantined(_) | RunControl::CleanupPending(_) => false,
    }
}

/// What a run means for an exit where what is held and what is stored agree.
pub open spec fn coherent_impact(control: RunControl, durable: ActiveRun) -> ImpactView {
    match control {
        RunControl::Running(_) => ImpactView::Running,
        RunControl::Stopping(stop) => match stop.kind {
            StopKind::Force => ImpactView::ForceStopping { operation_id: stop.operation_id@ },
            StopKind::Graceful => if durable.active_stop is Some && durable.active_stop->0.status
                == StopStatus::TimedOut {
                ImpactView::GracefulTimedOut { operation_id: stop.operation_id@ }
            } else {
                ImpactView::GracefulStopping { operation_id: stop.operation_id@ }
            },
        },
        _ => ImpactView::Launching,
    }
}

/// What a run means for an exit.
pub open spec fn impact_of(
    platform: Platform,
    control: Option<RunControl>,
    durable: Option<ActiveRun>,
) -> ImpactView {
    match control {
        Some(RunControl::Quarantined(_)) => ImpactView::Retained {
            reason: RetainedReason::Quarantined,
        },
        Some(RunControl::CleanupPending(_)) => ImpactView::Retained {
            reason: RetainedReason::CleanupPending,
        },
        None => ImpactView::Retained { reason: RetainedReason::DurableOnly },
        Some(control) => if durable is Some && coherent(platform, control, durable->0) {
            coherent_impact(control, durable->0)
        } else {
            ImpactView::Retained { reason: RetainedReason::ControlMismatch }
        },
    }
}

fn project_coherent_exit_control(
    run_id: &str,
    control: &RunControl,
    durable: &ActiveRun,
) -> (impact: ExitRunImpact)
    requires
        !(control is Quarantined),
        !(control is CleanupPending),
    ensures
        impact.id() == run_id@,
        impact@ == coherent_impact(*control, *durable),
{
    match control {
        RunControl::Running(_) => ExitRunImpact::Running { run_id: run_id.to_owned() },
        RunControl::Stopping(stop) => {
            let timed_out = match &durable.active_stop {
                Some(active) => active.status == StopStatus::TimedOut,
                None => false,
            };
            match stop.kind {
                StopKind::Graceful => if timed_out {
                    ExitRunImpact::GracefulTimedOut {
                        run_id: run_id.to_owned(),
                        operation_id: stop.operation_id.clone(),
                    }
                } else {
                    ExitRunImpact::GracefulStopping {
                        run_id: run_id.to_owned(),
                        operation_id: stop.operation_id.clone(),
                    }
                },
                StopKind::Force => ExitRunImpact::ForceStopping {
                    run_id: run_id.to_owned(),
                    operation_id: stop.operation_id.clone(),
                },
            }
        },
        _ => ExitRunImpact::Launching { run_id: run_id.to_owned() },
    }
}

/// What is given by a reference that may be missing.
pub open spec fn optional<T>(value: Option<&T>) -> Option<T> {
    match value {
        Some(value) => Some(*value),
        None => None,
    }
}

pub fn project_authoritative_exit_impact(
    platform: Platform,
    run_id: &str,
    control: Option<&RunControl>,
    durable: Option<&ActiveRun>,
) -> (impact: ExitRunImpact)
    ensures
        impact.id() == run_id@,
        impact@ == impact_of(platform, optional(control), optional(durable)),
{
    let reason = match control {
        Some(RunControl::Quarantined(_)) => RetainedReason::Quarantined,
        Some(RunControl::CleanupPending(_)) => RetainedReason::CleanupPending,
        None => RetainedReason::DurableOnly,
        Some(control) => {
            if let Some(durable) = durable {
                if exit_control_matches_durable(platform, control, durable) {
                    return project_coherent_exit_control(run_id, control, durable);
                }
            }
            RetainedReason::ControlMismatch
        },
    };
    ExitRunImpact::Retained { run_id: run_id.to_owned(), reason }
}

/// What the store shows of a run: of two entries the later one counts.
pub open spec fn durable_of(runs: Seq<ActiveRun>, run_id: Seq<char>) -> Option<ActiveRun>
    decreases runs.len(),
{
    if runs.len() == 0 {
        None
    } else if runs.last().run.id@ == run_id {
        Some(runs.last())
    } else {
        durable_of(runs.drop_last(), run_id)
    }
}

fn find_durable<'a>(runs: &'a Vec<ActiveRun>, run_id: &str) -> (found: Option<&'a ActiveRun>)
    ensures
        optional(found) == durable_of(runs@, run_id@),
{
    let mut left: usize = runs.len();
    assert(runs@.subrange(0, left as int) =~= runs@);
    while left > 0
        invariant
            left <= runs@.len(),
            durable_of(runs@, run_id@) == durable_of(runs@.subrange(0, left as int), run_id@),
        decreases left,
    {
        let ghost rest = runs@.subrange(0, left as int);
        left -= 1;
        assert(rest.drop_last() =~= runs@.subrange(0, left as int));
        if same_text(runs[left].run.id.as_str(), run_id) {
            return Some(&runs[left]);
        }
    }
    None
}

/// Whether the store shows a run.
pub open spec fn is_stored(runs: Seq<ActiveRun>, run_id: Seq<char>) -> bool {
    exists|i: int| 0 <= i < runs.len() && (#[trigger] runs[i]).run.id@ == run_id
}

/// What every run means for an exit: each run that is held or stored stands
/// there once, in the order of the run IDs.
pub open spec fn impacts_fit(
    platform: Platform,
    controls: Map<Seq<char>, RunControl>,
    durable_runs: Seq<ActiveRun>,
    impacts: Seq<ExitRunImpact>,
) -> bool {
    &&& forall|i: int, j: int|
        0 <= i < j < impacts.len() ==> text_before(
            (#[trigger] impacts[i]).id(),
            (#[trigger] impacts[j]).id(),
        )
    &&& forall|i: int|
        0 <= i < impacts.len() ==> controls.dom().contains((#[trigger] impacts[i]).id())
            || is_stored(durable_runs, impacts[i].id())
    &&& forall|run_id: Seq<char>|
        #![trigger controls.dom().contains(run_id)]
        #![trigger is_stored(durable_runs, run_id)]
        controls.dom().contains(run_id) || is_stored(durable_runs, run_id) ==> impact_listed(
            impacts,
            run_id,
        )
    &&& forall|i: int|
        0 <= i < impacts.len() ==> (#[trigger] impacts[i])@ == impact_of(
            platform,
            if controls.dom().contains(impacts[i].id()) {
                Some(controls[impacts[i].id()])
            } else {
                None
            },
            durable_of(durable_runs, impacts[i].id()),
        )
}

/// Whether a run stands among the impacts.
pub open spec fn impact_listed(impacts: Seq<ExitRunImpact>, run_id: Seq<char>) -> bool {
    exists|i: int| 0 <= i < impacts.len() && (#[trigger] impacts[i]).id() == run_id
}

/// The refusal of an exit while more runs are active than can be shown.
pub open spec fn exit_capacity_error(maximum: nat, observed: nat) -> ErrorView {
    plain_error(
        ErrorCode::Conflict,
        "managed exit active-run capacity is exhausted"@,
    ).retry().with("maximumActiveRuns"@, decimal_text(maximum)).with(
        "observedActiveRuns"@,
        decimal_text(observed),
    )
}

fn managed_exit_active_capacity_error(maximum: usize, observed: usize) -> (error: AppError)
    ensures
        error@ == exit_capacity_error(maximum as nat, observed as nat),
{
    AppError::new(
        ErrorCode::Conflict,
        "managed exit active-run capacity is exhausted",
    ).as_retryable().with_detail("maximumActiveRuns", decimal(maximum as u64).as_str()).with_detail(
        "observedActiveRuns",
        decimal(observed as u64).as_str(),
    )
}

/// The IDs of the runs that are held or stored, in their order.
fn active_run_ids(controls: &Controls, durable_runs: &Vec<ActiveRun>) -> (ids: Vec<String>)
    requires
        controls.wf(),
        controls@.dom().len() + durable_runs@.len() < usize::MAX,
    ensures
        sorted_texts(ids@),
        forall|run_id: Seq<char>| #[trigger]
            is_listed(ids@, run_id) <==> controls@.dom().contains(run_id) || is_stored(
                durable_runs@,
                run_id,
            ),
{
    let mut ids: Vec<String> = Vec::new();
    let mut i: usize = 0;
    let length: usize = controls.len();
    proof {
        controls.lemma_names();
    }
    while i < length
        invariant
            controls.wf(),
            length == controls@.dom().len(),
            length + durable_runs@.len() < usize::MAX,
            i <= length,
            ids@.len() <= i,
            sorted_texts(ids@),
            forall|run_id: Seq<char>| #[trigger]
                is_listed(ids@, run_id) <==> exists|k: int|
                    0 <= k < i && #[trigger] controls.name_at(k) == run_id,
        decreases length - i,
    {
        let (name, _) = controls.entry(i);
        let ghost before = ids@;
        insert_sorted(&mut ids, name);
        proof {
            assert forall|run_id: Seq<char>| #[trigger]
                is_listed(ids@, run_id) == (exists|k: int|
                    0 <= k < i + 1 && #[trigger] controls.name_at(k) == run_id) by {
                if is_listed(before, run_id) {
                    let k = choose|k: int| 0 <= k < i && #[trigger] controls.name_at(k) == run_id;
                    assert(controls.name_at(k) == run_id);
                }
                assert(controls.name_at(i as int) == name@);
                if exists|k: int| 0 <= k < i + 1 && #[trigger] controls.name_at(k) == run_id {
                    let k = choose|k: int|
                        0 <= k < i + 1 && #[trigger] controls.name_at(k) == run_id;
                    if k < i {
                        assert(is_listed(before, run_id));
                    }
                }
            }
        }
        i += 1;
    }
    proof {
        assert forall|run_id: Seq<char>| #[trigger]
            is_listed(ids@, run_id) == controls@.dom().contains(run_id) by {
            if controls@.dom().contains(run_id) {
                let k = choose|k: int|
                    0 <= k < controls@.dom().len() && #[trigger] controls.name_at(k) == run_id;
                assert(controls.name_at(k) == run_id);
            }
        }
    }
    let mut j: usize = 0;
    while j < durable_runs.len()
        invariant
            length + durable_runs@.len() < usize::MAX,
            j <= durable_runs@.len(),
            ids@.len() <= length + j,
            sorted_texts(ids@),
            forall|run_id: Seq<char>| #[trigger]
                is_listed(ids@, run_id) <==> controls@.dom().contains(run_id) || is_stored(
                    durable_runs@.subrange(0, j as int),
                    run_id,
                ),
        decreases durable_runs@.len() - j,
    {
        let ghost before = durable_runs@.subrange(0, j as int);
        let ghost after = durable_runs@.subrange(0, j + 1);
        insert_sorted(&mut ids, durable_runs[j].run.id.as_str());
        proof {
            assert forall|run_id: Seq<char>| #[trigger]
                is_stored(after, run_id) == (is_stored(before, run_id)
                || durable_runs@[j as int].run.id@ == run_id) by {
                if is_stored(before, run_id) {
                    let k = choose|k: int|
                        0 <= k < before.len() && (#[trigger] before[k]).run.id@ == run_id;
                    assert(after[k].run.id@ == run_id);
                }
                assert(after[j as int] == durable_runs@[j as int]);
                if is_stored(after, run_id) && durable_runs@[j as int].run.id@ != run_id {
                    let k = choose|k: int|
                        0 <= k < after.len() && (#[trigger] after[k]).run.id@ == run_id;
                    assert(before[k].run.id@ == run_id);
                }
            }
        }
        j += 1;
    }
    assert(durable_runs@.subrange(0, durable_runs@.len() as int) =~= durable_runs@);
    ids
}

/// What every run means for an exit; refused where more runs than a limit are
/// active.
pub fn build_authoritative_exit_impact(
    platform: Platform,
    controls: &Controls,
    durable_runs: &Vec<ActiveRun>,
    maximum_runs: usize,
) -> (result: Result<Vec<ExitRunImpact>, AppError>)
    requires
        controls.wf(),
        controls@.dom().len() + durable_runs@.len() < usize::MAX,
    ensures
        match result {
            Ok(impacts) => impacts@.len() <= maximum_runs && impacts_fit(
                platform,
                controls@,
                durable_runs@,
                impacts@,
            ),
            Err(error) => exists|ids: Seq<String>| #[trigger]
                sorted_texts(ids) && (forall|run_id: Seq<char>| #[trigger]
                    is_listed(ids, run_id) <==> controls@.dom().contains(run_id) || is_stored(
                        durable_runs@,
                        run_id,
                    )) && ids.len() > maximum_runs && error@ == exit_capacity_error(
                    maximum_runs as nat,
                    ids.len(),
                ),
        },
{
    let ids = active_run_ids(controls, durable_runs);
    if ids.len() > maximum_runs {
        let error = managed_exit_active_capacity_error(maximum_runs, ids.len());
        assert(sorted_texts(ids@));
        return Err(error);
    }
    let mut impacts: Vec<ExitRunImpact> = Vec::new();
    let mut i: usize = 0;
    while i < ids.len()
        invariant
            controls.wf(),
            i <= ids@.len(),
            impacts@.len() == i,
            forall|k: int| 0 <= k < i ==> (#[trigger] impacts@[k]).id() == ids@[k]@,
            forall|k: int|
                0 <= k < i ==> (#[trigger] impacts@[k])@ == impact_of(
                    platform,
                    if controls@.dom().contains(impacts@[k].id()) {
                        Some(controls@[impacts@[k].id()])
                    } else {
                        None
                    },
                    durable_of(durable_runs@, impacts@[k].id()),
                ),
        decreases ids@.len() - i,
    {
        let run_id = ids[i].as_str();
        let impact = project_authoritative_exit_impact(
            platform,
            run_id,
            controls.get(run_id),
            find_durable(durable_runs, run_id),
        );
        impacts.push(impact);
        i += 1;
    }
    proof {
        assert forall|k: int| 0 <= k < impacts@.len() implies controls@.dom().contains(
            (#[trigger] impacts@[k]).id(),
        ) || is_stored(durable_runs@, impacts@[k].id()) by {
            assert(is_listed(ids@, ids@[k]@));
        }
        assert forall|run_id: Seq<char>|
            controls@.dom().contains(run_id) || is_stored(
                durable_runs@,
                run_id,
            ) implies impact_listed(impacts@, run_id) by {
            assert(is_listed(ids@, run_id));
            let k = choose|k: int| 0 <= k < ids@.len() && (#[trigger] ids@[k])@ == run_id;
            assert(impacts@[k].id() == run_id);
        }
        assert(impacts_fit(platform, controls@, durable_runs@, impacts@));
    }
    Ok(impacts)
}

/// What is done with a run when all runs are stopped for an exit.
#[derive(Clone, Copy, Debug, PartialEq, Eq, Structural)]
pub enum ExitMemberAction {
    NoAction,
    GracefulRequested,
    StopAdopted,
}

/// A run of an exit operation.
#[derive(Debug)]
pub struct ExitMember {
    pub run_id: String,
    pub action: ExitMemberAction,
    pub stop_operation_id: Option<String>,
}

/// The stop of all runs for an exit, with the runs it was made for.
#[derive(Debug)]
pub struct ExitOperation {
    pub operation_id: String,
    pub request_sha256: [u8; 32],
    pub assessment_id: String,
    pub created_at: String,
    pub members: Vec<ExitMember>,
}

impl ExitMember {
    /// A member with an action has the operation that carries it out.
    pub open spec fn wf(self) -> bool {
        self.action != ExitMemberAction::NoAction ==> self.stop_operation_id is Some
    }
}

impl ExitOperation {
    pub open spec fn wf(self) -> bool {
        forall|i: int| 0 <= i < self.members@.len() ==> (#[trigger] self.members@[i]).wf()
    }
}

/// The bytes whose digest names the stop of a run under an exit operation.
pub open spec fn child_stop_message(exit_operation_id: Seq<char>, run_id: Seq<char>) -> Seq<u8> {
    let operation = vstd::utf8::encode_utf8(exit_operation_id);
    let run = vstd::utf8::encode_utf8(run_id);
    vstd::utf8::encode_utf8("magictools.managed-exit-child-stop.v1\0"@) + be_bytes(
        operation.len(),
        8,
    ) + operation + be_bytes(run.len(), 8) + run
}

/// The name of the stop of a run under an exit operation.
pub open spec fn child_stop_id(exit_operation_id: Seq<char>, run_id: Seq<char>) -> Seq<char> {
    "exit-stop:"@ + lower_hex(sha256(child_stop_message(exit_operation_id, run_id)))
}

pub fn managed_exit_child_operation_id(exit_operation_id: &str, run_id: &str) -> (id: String)
    ensures
        id@ == child_stop_id(exit_operation_id@, run_id@),
{
    let mut message: Vec<u8> = Vec::new();
    let operation = exit_operation_id.as_bytes();
    let run = run_id.as_bytes();
    push_bytes(&mut message, "magictools.managed-exit-child-stop.v1\0".as_bytes());
    push_be_bytes(&mut message, operation.len() as u64, 8);
    push_bytes(&mut message, operation);
    push_be_bytes(&mut message, run.len() as u64, 8);
    push_bytes(&mut message, run);
    assert(message@ =~= child_stop_message(exit_operation_id@, run_id@));
    let digest = sha256_digest(message.as_slice());
    join("exit-stop:", encode_lower_hex(digest.as_slice()).as_str())
}

/// The name of an assessment: the service that made it and what it says, as it
/// is written down.
pub open spec fn assessment_id(service_incarnation: Seq<u8>, canonical: Seq<u8>) -> Seq<char> {
    lower_hex(
        sha256(
            vstd::utf8::encode_utf8("magictools.managed-exit-assessment.v1\0"@)
                + service_incarnation + canonical,
        ),
    )
}

pub fn managed_exit_assessment_id(service_incarnation: &[u8; 32], canonical: &[u8]) -> (id: String)
    ensures
        id@ == assessment_id(service_incarnation@, canonical@),
{
    let mut message: Vec<u8> = Vec::new();
    push_bytes(&mut message, "magictools.managed-exit-assessment.v1\0".as_bytes());
    push_bytes(&mut message, service_incarnation.as_slice());
    push_bytes(&mut message, canonical);
    let digest = sha256_digest(message.as_slice());
    encode_lower_hex(digest.as_slice())
}

/// The digest by which a repeated request is known, taken of the request as it
/// is written down.
pub fn managed_exit_request_sha256(canonical: &[u8]) -> (digest: [u8; 32])
    ensures
        digest@ == sha256(canonical@),
{
    sha256_digest(canonical)
}

/// The refusal where the operating system has no random bytes for the number of
/// a service, for a reason.
pub open spec fn incarnation_refusal(source: Seq<char>) -> ErrorView {
    plain_error(
        ErrorCode::PlatformError,
        "failed to generate the Supervisor service incarnation"@,
    ).with("stage"@, "GenerateServiceIncarnation"@).with("source"@, source)
}

/// The number of a service, from what the operating system drew: the bytes as
/// they are, or the reason why there are none.
pub fn service_incarnation(drawn: Result<[u8; 32], String>) -> (result: Result<[u8; 32], AppError>)
    ensures
        match drawn {
            Ok(bytes) => result == Ok::<[u8; 32], AppError>(bytes),
            Err(source) => result is Err && result->Err_0@ == incarnation_refusal(source@),
        },
{
    match drawn {
        Ok(bytes) => Ok(bytes),
        Err(source) => Err(
            AppError::new(
                ErrorCode::PlatformError,
                "failed to generate the Supervisor service incarnation",
            ).with_detail("stage", "GenerateServiceIncarnation").with_detail(
                "source",
                source.as_str(),
            ),
        ),
    }
}

/// A number that no other start of the service is expected to draw. Nothing is
/// said of the bytes; it fails only where the operating system gives none.
pub fn generate_service_incarnation() -> (result: Result<[u8; 32], AppError>)
    ensures
        result is Err ==> exists|source: Seq<char>|
            result->Err_0@ == #[trigger] incarnation_refusal(source),
{
    service_incarnation(random_array::<32>())
}

/// The refusal of a stop of all runs that was confirmed for another state.
pub open spec fn stale_assessment(
    operation_id: Seq<char>,
    expected: Seq<char>,
    current: Seq<char>,
) -> ErrorView {
    plain_error(
        ErrorCode::Conflict,
        "managed exit impact changed before stop confirmation"@,
    ).retry().of_operation(operation_id).with("expectedAssessmentId"@, expected).with(
        "currentAssessmentId"@,
        current,
    )
}

/// What a run that means something for an exit is made of it.
pub open spec fn member_fits(
    member: ExitMember,
    exit_operation_id: Seq<char>,
    impact: ExitRunImpact,
) -> bool {
    &&& member.run_id@ == impact.id()
    &&& match impact@ {
        ImpactView::Launching | ImpactView::Running => member.action
            == ExitMemberAction::GracefulRequested && optional_text(member.stop_operation_id)
            == Some(child_stop_id(exit_operation_id, impact.id())),
        ImpactView::GracefulStopping { operation_id }
        | ImpactView::GracefulTimedOut { operation_id }
        | ImpactView::ForceStopping { operation_id } => member.action
            == ExitMemberAction::StopAdopted && optional_text(member.stop_operation_id) == Some(
            operation_id,
        ),
        ImpactView::Retained { .. } => member.action == ExitMemberAction::NoAction
            && member.stop_operation_id is None,
    }
}

fn managed_exit_operation_member(exit_operation_id: &str, impact: &ExitRunImpact) -> (member:
    ExitMember)
    ensures
        member.wf(),
        member_fits(member, exit_operation_id@, *impact),
{
    let run_id = exit_run_impact_id(impact).to_owned();
    match impact {
        ExitRunImpact::Launching { .. } | ExitRunImpact::Running { .. } => {
            let child = managed_exit_child_operation_id(exit_operation_id, run_id.as_str());
            ExitMember {
                run_id,
                action: ExitMemberAction::GracefulRequested,
                stop_operation_id: Some(child),
            }
        },
        ExitRunImpact::GracefulStopping { operation_id, .. } => ExitMember {
            run_id,
            action: ExitMemberAction::StopAdopted,
            stop_operation_id: Some(operation_id.clone()),
        },
        ExitRunImpact::GracefulTimedOut { operation_id, .. } => ExitMember {
            run_id,
            action: ExitMemberAction::StopAdopted,
            stop_operation_id: Some(operation_id.clone()),
        },
        ExitRunImpact::ForceStopping { operation_id, .. } => ExitMember {
            run_id,
            action: ExitMemberAction::StopAdopted,
            stop_operation_id: Some(operation_id.clone()),
        },
        ExitRunImpact::Retained { .. } => ExitMember {
            run_id,
            action: ExitMemberAction::NoAction,
            stop_operation_id: None,
        },
    }
}

/// What is shown of a run at an exit.
#[derive(Debug)]
pub struct ExitImpactSummary {
    pub assessment_id: String,
    pub runs: Vec<ExitRunImpact>,
}

/// The refusal of an assessment that cannot be written down, for a reason.
pub open spec fn assessment_unwritten(reason: Seq<char>) -> ErrorView {
    plain_error(ErrorCode::Internal, "failed to serialize the managed exit assessment"@).with(
        "reason"@,
        reason,
    )
}

/// What every run means for an exit, under the name of the assessment. What the
/// runs mean is given as it is written down, or why it cannot be; and what the
/// rules for answers say of the assessment.
pub fn authoritative_exit_impact(
    service_incarnation: &[u8; 32],
    runs: Vec<ExitRunImpact>,
    canonical: Result<Vec<u8>, String>,
    checked: Result<(), AppError>,
) -> (result: Result<ExitImpactSummary, AppError>)
    ensures
        match (canonical, checked) {
            (Err(reason), _) => result is Err && result->Err_0@ == assessment_unwritten(reason@),
            (Ok(_), Err(error)) => result is Err && result->Err_0 == error,
            (Ok(canonical), Ok(_)) => {
                &&& result is Ok
                &&& result->Ok_0.assessment_id@ == assessment_id(
                    service_incarnation@,
                    canonical@,
                )
                &&& result->Ok_0.runs == runs
            },
        },
{
    let canonical = match canonical {
        Ok(canonical) => canonical,
        Err(reason) => return Err(
            AppError::new(
                ErrorCode::Internal,
                "failed to serialize the managed exit assessment",
            ).with_detail("reason", reason.as_str()),
        ),
    };
    match checked {
        Ok(_) => {},
        Err(error) => return Err(error),
    }
    let assessment_id = managed_exit_assessment_id(service_incarnation, canonical.as_slice());
    Ok(ExitImpactSummary { assessment_id, runs })
}

/// The exit operation that is worked on.
#[derive(Debug)]
pub enum ExitPreparation {
    /// The one that was stored before.
    Replay(ExitOperation),
    /// A new one, to be stored.
    Store(ExitOperation),
}

/// The exit operation of a request. One that was stored before is worked on
/// again as it was. A new one goes by the assessment that was shown, or is not
/// made at all; the time of its making is given.
pub fn load_or_prepare_managed_exit_operation(
    replay: Option<ExitOperation>,
    operation_id: &str,
    request_sha256: [u8; 32],
    expected_assessment_id: &str,
    impact: &ExitImpactSummary,
    created_at: Result<String, AppError>,
) -> (result: Result<ExitPreparation, AppError>)
    ensures
        match result {
            Ok(ExitPreparation::Replay(operation)) => replay == Some(operation),
            Ok(ExitPreparation::Store(operation)) => {
                &&& replay is None
                &&& expected_assessment_id@ == impact.assessment_id@
                &&& operation.wf()
                &&& operation.operation_id@ == operation_id@
                &&& operation.request_sha256 == request_sha256
                &&& operation.assessment_id@ == impact.assessment_id@
                &&& created_at == Ok::<String, AppError>(operation.created_at)
                &&& operation.members@.len() == impact.runs@.len()
                &&& forall|i: int|
                    0 <= i < operation.members@.len() ==> member_fits(
                        #[trigger] operation.members@[i],
                        operation_id@,
                        impact.runs@[i],
                    )
            },
            Err(error) => {
                &&& replay is None
                &&& if expected_assessment_id@ != impact.assessment_id@ {
                    error@ == stale_assessment(
                        operation_id@,
                        expected_assessment_id@,
                        impact.assessment_id@,
                    )
                } else {
                    created_at == Err::<String, AppError>(error)
                }
            },
        },
{
    if let Some(operation) = replay {
        return Ok(ExitPreparation::Replay(operation));
    }
    let assessment_id = impact.assessment_id.as_str();
    if !same_text(expected_assessment_id, assessment_id) {
        return Err(
            AppError::new(
                ErrorCode::Conflict,
                "managed exit impact changed before stop confirmation",
            ).as_retryable().attach_operation_id(operation_id).with_detail(
                "expectedAssessmentId",
                expected_assessment_id,
            ).with_detail("currentAssessmentId", assessment_id),
        );
    }
    let created_at = match created_at {
        Ok(created_at) => created_at,
        Err(error) => return Err(error),
    };
    let mut members: Vec<ExitMember> = Vec::new();
    let mut i: usize = 0;
    while i < impact.runs.len()
        invariant
            i <= impact.runs@.len(),
            members@.len() == i,
            forall|k: int|
                0 <= k < i ==> (#[trigger] members@[k]).wf() && member_fits(
                    members@[k],
                    operation_id@,
                    impact.runs@[k],
                ),
        decreases impact.runs@.len() - i,
    {
        members.push(managed_exit_operation_member(operation_id, &impact.runs[i]));
        i += 1;
    }
    Ok(
        ExitPreparation::Store(
            ExitOperation {
                operation_id: operation_id.to_owned(),
                request_sha256,
                assessment_id: assessment_id.to_owned(),
                created_at,
                members,
            },
        ),
    )
}

/// What was done with a run, and the stop operation that does it.
#[derive(Debug)]
pub enum StopAllMemberAction {
    NoAction,
    GracefulRequested { operation_id: String },
    StopAdopted { operation_id: String },
}

/// A run of an exit operation, and what it means for the exit by now.
#[derive(Debug)]
pub struct StopAllMemberResult {
    pub run_id: String,
    pub action: StopAllMemberAction,
    pub current_impact: Option<ExitRunImpact>,
}

/// How far the stop of all runs has come.
#[derive(Clone, Copy, Debug, PartialEq, Eq, Structural)]
pub enum StopAllStatus {
    /// No run is left.
    Completed,
    /// A run is left that does not stop by itself.
    Blocked,
    /// Every run that is left is being stopped.
    Draining,
}

/// The answer to the stop of all runs.
#[derive(Debug)]
pub struct StopAllResult {
    pub operation_id: String,
    pub status: StopAllStatus,
    pub members: Vec<StopAllMemberResult>,
}

/// What a run means for an exit: of two entries the later one counts.
pub open spec fn impact_for(impacts: Seq<ExitRunImpact>, run_id: Seq<char>) -> Option<ExitRunImpact>
    decreases impacts.len(),
{
    if impacts.len() == 0 {
        None
    } else if impacts.last().id() == run_id {
        Some(impacts.last())
    } else {
        impact_for(impacts.drop_last(), run_id)
    }
}

fn find_impact(impacts: &Vec<ExitRunImpact>, run_id: &str) -> (found: Option<ExitRunImpact>)
    ensures
        found == impact_for(impacts@, run_id@),
{
    let mut left: usize = impacts.len();
    assert(impacts@.subrange(0, left as int) =~= impacts@);
    while left > 0
        invariant
            left <= impacts@.len(),
            impact_for(impacts@, run_id@) == impact_for(
                impacts@.subrange(0, left as int),
                run_id@,
            ),
        decreases left,
    {
        let ghost rest = impacts@.subrange(0, left as int);
        left -= 1;
        assert(rest.drop_last() =~= impacts@.subrange(0, left as int));
        if same_text(exit_run_impact_id(&impacts[left]), run_id) {
            return Some(impacts[left].copy());
        }
    }
    None
}

proof fn lemma_impact_for(impacts: Seq<ExitRunImpact>, run_id: Seq<char>)
    ensures
        impact_for(impacts, run_id) is Some <==> impact_listed(impacts, run_id),
        impact_for(impacts, run_id) is Some ==> impact_for(impacts, run_id)->0.id() == run_id,
    decreases impacts.len(),
{
    if impacts.len() > 0 {
        let rest = impacts.drop_last();
        lemma_impact_for(rest, run_id);
        if impact_listed(impacts, run_id) && impacts.last().id() != run_id {
            let k = choose|k: int| 0 <= k < impacts.len() && (#[trigger] impacts[k]).id() == run_id;
            assert(rest[k].id() == run_id);
        }
        if impact_listed(rest, run_id) {
            let k = choose|k: int| 0 <= k < rest.len() && (#[trigger] rest[k]).id() == run_id;
            assert(impacts[k].id() == run_id);
        }
        if impacts.last().id() == run_id {
            assert(impacts[impacts.len() - 1].id() == run_id);
        }
    }
}

/// Whether a run belongs to an exit operation.
pub open spec fn is_member(members: Seq<ExitMember>, run_id: Seq<char>) -> bool {
    exists|i: int| 0 <= i < members.len() && (#[trigger] members[i]).run_id@ == run_id
}

/// Whether a run that is left does not stop by itself.
pub open spec fn blocks_exit(impact: ImpactView) -> bool {
    match impact {
        ImpactView::Launching => true,
        ImpactView::Running => true,
        ImpactView::GracefulTimedOut { .. } => true,
        ImpactView::Retained { .. } => true,
        ImpactView::GracefulStopping { .. } => false,
        ImpactView::ForceStopping { .. } => false,
    }
}

fn impact_blocks(impact: &ExitRunImpact) -> (blocks: bool)
    ensures
        blocks == blocks_exit(impact@),
{
    match impact {
        ExitRunImpact::Launching { .. } | ExitRunImpact::Running { .. }
        | ExitRunImpact::GracefulTimedOut { .. } | ExitRunImpact::Retained { .. } => true,
        ExitRunImpact::GracefulStopping { .. } | ExitRunImpact::ForceStopping { .. } => false,
    }
}

/// What is shown of a member of an exit operation.
pub open spec fn member_result_fits(
    result: StopAllMemberResult,
    member: ExitMember,
    current: Seq<ExitRunImpact>,
) -> bool {
    &&& result.run_id@ == member.run_id@
    &&& result.current_impact == impact_for(current, member.run_id@)
    &&& match result.action {
        StopAllMemberAction::NoAction => member.action == ExitMemberAction::NoAction,
        StopAllMemberAction::GracefulRequested { operation_id } => member.action
            == ExitMemberAction::GracefulRequested && optional_text(member.stop_operation_id)
            == Some(operation_id@),
        StopAllMemberAction::StopAdopted { operation_id } => member.action
            == ExitMemberAction::StopAdopted && optional_text(member.stop_operation_id) == Some(
            operation_id@,
        ),
    }
}

/// The refusal of an exit operation to which a run was added.
pub open spec fn membership_changed(
    operation_id: Seq<char>,
    current_assessment_id: Seq<char>,
) -> ErrorView {
    plain_error(
        ErrorCode::Conflict,
        "managed exit impact gained a run outside the fixed stop membership"@,
    ).retry().of_operation(operation_id).with(
        "reason"@,
        "request a fresh exit assessment and use a new operation ID"@,
    ).with("currentAssessmentId"@, current_assessment_id)
}

/// Whether every run that is left belongs to the operation.
fn all_members(members: &Vec<ExitMember>, impacts: &Vec<ExitRunImpact>) -> (all: bool)
    ensures
        all == (forall|i: int|
            0 <= i < impacts@.len() ==> is_member(members@, (#[trigger] impacts@[i]).id())),
{
    let mut i: usize = 0;
    while i < impacts.len()
        invariant
            i <= impacts@.len(),
            forall|k: int| 0 <= k < i ==> is_member(members@, (#[trigger] impacts@[k]).id()),
        decreases impacts@.len() - i,
    {
        let run_id = exit_run_impact_id(&impacts[i]);
        let mut found = false;
        let mut j: usize = 0;
        while j < members.len()
            invariant
                j <= members@.len(),
                i < impacts@.len(),
                run_id@ == impacts@[i as int].id(),
                found == (exists|k: int| 0 <= k < j && (#[trigger] members@[k]).run_id@ == run_id@),
            decreases members@.len() - j,
        {
            if same_text(members[j].run_id.as_str(), run_id) {
                found = true;
            }
            j += 1;
        }
        if !found {
            assert(!is_member(members@, impacts@[i as int].id()));
            return false;
        }
        i += 1;
    }
    true
}

/// Shows how far the stop of all runs has come.
pub fn project_stop_all_for_exit_result(
    operation: &ExitOperation,
    current: &ExitImpactSummary,
) -> (result: Result<StopAllResult, AppError>)
    requires
        operation.wf(),
    ensures
        shows_stop_all(*operation, *current, result),
{
    if !all_members(&operation.members, &current.runs) {
        return Err(
            AppError::new(
                ErrorCode::Conflict,
                "managed exit impact gained a run outside the fixed stop membership",
            ).as_retryable().attach_operation_id(operation.operation_id.as_str()).with_detail(
                "reason",
                "request a fresh exit assessment and use a new operation ID",
            ).with_detail("currentAssessmentId", current.assessment_id.as_str()),
        );
    }
    let mut members: Vec<StopAllMemberResult> = Vec::new();
    let mut i: usize = 0;
    let mut left = false;
    let mut blocked = false;
    while i < operation.members.len()
        invariant
            operation.wf(),
            i <= operation.members@.len(),
            members@.len() == i,
            forall|k: int|
                0 <= k < i ==> member_result_fits(
                    #[trigger] members@[k],
                    operation.members@[k],
                    current.runs@,
                ),
            left == (exists|k: int|
                0 <= k < i && impact_for(
                    current.runs@,
                    (#[trigger] operation.members@[k]).run_id@,
                ) is Some),
            blocked == (exists|k: int|
                0 <= k < i && {
                    let impact = impact_for(
                        current.runs@,
                        (#[trigger] operation.members@[k]).run_id@,
                    );
                    impact is Some && blocks_exit(impact->0@)
                }),
        decreases operation.members@.len() - i,
    {
        let member = &operation.members[i];
        assert(operation.members@[i as int].wf());
        let action = match (member.action, &member.stop_operation_id) {
            (ExitMemberAction::NoAction, _) => StopAllMemberAction::NoAction,
            (
                ExitMemberAction::GracefulRequested,
                Some(operation_id),
            ) => StopAllMemberAction::GracefulRequested { operation_id: operation_id.clone() },
            (
                ExitMemberAction::StopAdopted,
                Some(operation_id),
            ) => StopAllMemberAction::StopAdopted { operation_id: operation_id.clone() },
            _ => vstd::pervasive::unreached(),
        };
        let current_impact = find_impact(&current.runs, member.run_id.as_str());
        if let Some(impact) = &current_impact {
            left = true;
            if impact_blocks(impact) {
                blocked = true;
            }
        }
        members.push(
            StopAllMemberResult { run_id: member.run_id.clone(), action, current_impact },
        );
        i += 1;
    }
    proof {
        let runs = current.runs@;
        if runs.len() > 0 {
            assert(is_member(operation.members@, runs[0].id()));
            let k = choose|k: int|
                0 <= k < operation.members@.len() && (#[trigger] operation.members@[k]).run_id@
                    == runs[0].id();
            lemma_impact_for(runs, operation.members@[k].run_id@);
            assert(impact_listed(runs, runs[0].id()));
        }
        if left {
            let k = choose|k: int|
                0 <= k < operation.members@.len() && impact_for(
                    runs,
                    (#[trigger] operation.members@[k]).run_id@,
                ) is Some;
            lemma_impact_for(runs, operation.members@[k].run_id@);
        }
    }
    let status = if !left {
        StopAllStatus::Completed
    } else if blocked {
        StopAllStatus::Blocked
    } else {
        StopAllStatus::Draining
    };
    Ok(StopAllResult { operation_id: operation.operation_id.clone(), status, members })
}

/// The first entry of a run.
pub open spec fn first_impact(impacts: Seq<ExitRunImpact>, run_id: Seq<char>) -> Option<ExitRunImpact>
    decreases impacts.len(),
{
    if impacts.len() == 0 {
        None
    } else if impacts[0].id() == run_id {
        Some(impacts[0])
    } else {
        first_impact(impacts.drop_first(), run_id)
    }
}

/// Whether the stop that an exit asked for has still to be requested of a run:
/// the run goes on, or it is being stopped by that very operation.
pub open spec fn needs_child_stop(
    impacts: Seq<ExitRunImpact>,
    run_id: Seq<char>,
    child_operation_id: Seq<char>,
) -> bool {
    match first_impact(impacts, run_id) {
        Some(impact) => match impact@ {
            ImpactView::Running => true,
            ImpactView::GracefulStopping { operation_id } => operation_id == child_operation_id,
            ImpactView::GracefulTimedOut { operation_id } => operation_id == child_operation_id,
            _ => false,
        },
        None => false,
    }
}

pub fn exit_impact_needs_child_stop(
    impacts: &Vec<ExitRunImpact>,
    run_id: &str,
    child_operation_id: &str,
) -> (needed: bool)
    ensures
        needed == needs_child_stop(impacts@, run_id@, child_operation_id@),
{
    let mut i: usize = 0;
    assert(impacts@.subrange(0, impacts@.len() as int) =~= impacts@);
    while i < impacts.len()
        invariant
            i <= impacts@.len(),
            first_impact(impacts@, run_id@) == first_impact(
                impacts@.subrange(i as int, impacts@.len() as int),
                run_id@,
            ),
        decreases impacts@.len() - i,
    {
        let ghost rest = impacts@.subrange(i as int, impacts@.len() as int);
        assert(rest[0] == impacts@[i as int]);
        assert(rest.drop_first() =~= impacts@.subrange(i + 1, impacts@.len() as int));
        if same_text(exit_run_impact_id(&impacts[i]), run_id) {
            return match &impacts[i] {
                ExitRunImpact::Running { .. } => true,
                ExitRunImpact::GracefulStopping { operation_id, .. } => same_text(
                    operation_id.as_str(),
                    child_operation_id,
                ),
                ExitRunImpact::GracefulTimedOut { operation_id, .. } => same_text(
                    operation_id.as_str(),
                    child_operation_id,
                ),
                _ => false,
            };
        }
        i += 1;
    }
    false
}

/// Whether a member of an exit operation is one whose stop has to be requested.
pub open spec fn is_due(member: ExitMember, impacts: Seq<ExitRunImpact>) -> bool {
    &&& member.action == ExitMemberAction::GracefulRequested
    &&& member.stop_operation_id is Some
    &&& needs_child_stop(impacts, member.run_id@, member.stop_operation_id->0@)
}

/// The next member whose stop has to be requested.
pub fn next_due_member(
    operation: &ExitOperation,
    impacts: &Vec<ExitRunImpact>,
    from: usize,
) -> (next: Option<usize>)
    ensures
        match next {
            Some(i) => from <= i < operation.members@.len() && is_due(
                operation.members@[i as int],
                impacts@,
            ) && forall|k: int|
                from <= k < i ==> !is_due(#[trigger] operation.members@[k], impacts@),
            None => forall|k: int|
                from <= k < operation.members@.len() ==> !is_due(
                    #[trigger] operation.members@[k],
                    impacts@,
                ),
        },
{
    let mut i: usize = from;
    while i < operation.members.len()
        invariant
            from <= i,
            forall|k: int| from <= k < i ==> !is_due(#[trigger] operation.members@[k], impacts@),
        decreases operation.members@.len() - i,
    {
        let member = &operation.members[i];
        if member.action == ExitMemberAction::GracefulRequested {
            if let Some(child) = &member.stop_operation_id {
                if exit_impact_needs_child_stop(impacts, member.run_id.as_str(), child.as_str()) {
                    return Some(i);
                }
            }
        }
        i += 1;
    }
    None
}

/// What has been learnt last while all runs are stopped.
#[derive(Debug)]
pub enum StopAllEvent {
    /// The operation is stored, and what every run means is known.
    Prepared,
    /// The stop of the member at a place was taken.
    Requested { place: usize },
    /// The stop of the member at a place was refused.
    Refused { place: usize, error: AppError },
    /// What every run means by now, after the stop of the member at a place was
    /// refused for a conflict.
    Reassessed { place: usize, error: AppError, latest: Result<ExitImpactSummary, AppError> },
    /// What every run means once all stops have been asked for.
    Assessed(Result<ExitImpactSummary, AppError>),
    /// What the rules for answers say of what would be shown.
    Checked { shown: StopAllResult, checked: Result<(), AppError> },
}

/// What the stop of all runs does next.
#[derive(Debug)]
pub enum StopAllStep {
    /// Ask for the stop of the member at a place, under its own operation.
    Request { place: usize },
    /// See what every run means by now.
    Reassess { place: usize, error: AppError },
    /// See what is left.
    Assess,
    /// Check what would be shown.
    Check(StopAllResult),
    Answer(Result<StopAllResult, AppError>),
}

/// The step from a place on: the first member whose stop has to be requested,
/// or, where there is none, a look at what is left.
pub open spec fn asks_next(
    members: Seq<ExitMember>,
    impacts: Seq<ExitRunImpact>,
    from: int,
    step: StopAllStep,
) -> bool {
    match step {
        StopAllStep::Request { place } => from <= place < members.len() && is_due(
            members[place as int],
            impacts,
        ) && forall|k: int| from <= k < place ==> !is_due(#[trigger] members[k], impacts),
        StopAllStep::Assess => forall|k: int|
            from <= k < members.len() ==> !is_due(#[trigger] members[k], impacts),
        _ => false,
    }
}

/// How far the stop of all runs has come, as it is answered.
pub open spec fn shows_stop_all(
    operation: ExitOperation,
    current: ExitImpactSummary,
    result: Result<StopAllResult, AppError>,
) -> bool {
    let members = operation.members@;
    let runs = current.runs@;
    let fixed = forall|i: int|
        0 <= i < runs.len() ==> is_member(members, (#[trigger] runs[i]).id());
    match result {
        Ok(shown) => {
            &&& fixed
            &&& shown.operation_id@ == operation.operation_id@
            &&& shown.members@.len() == members.len()
            &&& forall|i: int|
                0 <= i < members.len() ==> member_result_fits(
                    #[trigger] shown.members@[i],
                    members[i],
                    runs,
                )
            &&& shown.status == StopAllStatus::Completed <==> runs.len() == 0
            &&& shown.status == StopAllStatus::Blocked <==> exists|i: int|
                0 <= i < members.len() && {
                    let impact = impact_for(runs, (#[trigger] members[i]).run_id@);
                    impact is Some && blocks_exit(impact->0@)
                }
        },
        Err(error) => !fixed && error@ == membership_changed(
            operation.operation_id@,
            current.assessment_id@,
        ),
    }
}

/// What follows an event while all runs are stopped. Who has to be asked is
/// seen from the assessment that was made before the first stop.
pub open spec fn stop_all_next(
    operation: ExitOperation,
    before: Seq<ExitRunImpact>,
    event: StopAllEvent,
    step: StopAllStep,
) -> bool {
    let members = operation.members@;
    match event {
        StopAllEvent::Prepared => asks_next(members, before, 0, step),
        StopAllEvent::Requested { place } => asks_next(members, before, place + 1, step),
        StopAllEvent::Refused { place, error } => if error@.code == ErrorCode::AlreadyExited {
            asks_next(members, before, place + 1, step)
        } else if error@.code == ErrorCode::Conflict {
            step == (StopAllStep::Reassess { place, error })
        } else {
            step == StopAllStep::Answer(Err(error))
        },
        StopAllEvent::Reassessed { place, error, latest } => match latest {
            Err(failure) => step == StopAllStep::Answer(Err(failure)),
            Ok(latest) => if needs_child_stop(
                latest.runs@,
                members[place as int].run_id@,
                members[place as int].stop_operation_id->0@,
            ) {
                step == StopAllStep::Answer(Err(error))
            } else {
                asks_next(members, before, place + 1, step)
            },
        },
        StopAllEvent::Assessed(current) => match current {
            Err(failure) => step == StopAllStep::Answer(Err(failure)),
            Ok(current) => match step {
                StopAllStep::Check(shown) => shows_stop_all(operation, current, Ok(shown)),
                StopAllStep::Answer(Err(error)) => shows_stop_all(operation, current, Err(error)),
                _ => false,
            },
        },
        StopAllEvent::Checked { shown, checked } => step == StopAllStep::Answer(
            match checked {
                Ok(_) => Ok(shown),
                Err(error) => Err(error),
            },
        ),
    }
}

impl StopAllEvent {
    /// A reply is to a request that was made.
    pub open spec fn fits(self, operation: ExitOperation) -> bool {
        match self {
            StopAllEvent::Requested { place } => place < operation.members@.len(),
            StopAllEvent::Refused { place, .. } => place < operation.members@.len(),
            StopAllEvent::Reassessed { place, .. } => place < operation.members@.len()
                && operation.members@[place as int].stop_operation_id is Some,
            _ => true,
        }
    }
}

/// The steps of the stop of all runs: each member whose stop has to be
/// requested is asked once, in order; a run that has exited, and one that has
/// moved on, is no failure; and in the end it is shown what is left.
pub fn stop_all_for_exit(
    operation: &ExitOperation,
    before: &Vec<ExitRunImpact>,
    event: StopAllEvent,
) -> (step: StopAllStep)
    requires
        operation.wf(),
        event.fits(*operation),
    ensures
        stop_all_next(*operation, before@, event, step),
{
    let total: usize = operation.members.len();
    let from: usize = match event {
        StopAllEvent::Prepared => 0,
        StopAllEvent::Requested { place } => place + 1,
        StopAllEvent::Refused { place, error } => match error.code {
            ErrorCode::AlreadyExited => place + 1,
            ErrorCode::Conflict => return StopAllStep::Reassess { place, error },
            _ => return StopAllStep::Answer(Err(error)),
        },
        StopAllEvent::Reassessed { place, error, latest } => {
            let latest = match latest {
                Ok(latest) => latest,
                Err(failure) => return StopAllStep::Answer(Err(failure)),
            };
            let member = &operation.members[place];
            if let Some(child) = &member.stop_operation_id {
                if exit_impact_needs_child_stop(
                    &latest.runs,
                    member.run_id.as_str(),
                    child.as_str(),
                ) {
                    return StopAllStep::Answer(Err(error));
                }
            }
            place + 1
        },
        StopAllEvent::Assessed(current) => {
            return match current {
                Ok(current) => match project_stop_all_for_exit_result(operation, &current) {
                    Ok(shown) => StopAllStep::Check(shown),
                    Err(error) => StopAllStep::Answer(Err(error)),
                },
                Err(failure) => StopAllStep::Answer(Err(failure)),
            };
        },
        StopAllEvent::Checked { shown, checked } => {
            return StopAllStep::Answer(
                match checked {
                    Ok(_) => Ok(shown),
                    Err(error) => Err(error),
                },
            );
        },
    };
    match next_due_member(operation, before, from) {
        Some(place) => StopAllStep::Request { place },
        None => StopAllStep::Assess,
    }
}

/// A run is asked to stop for an exit at most once: the members are asked in
/// order, and a run that is not due is not asked.
pub proof fn lemma_exit_asks_each_run_once(
    operation: ExitOperation,
    before: Seq<ExitRunImpact>,
    event: StopAllEvent,
    step: StopAllStep,
)
    requires
        stop_all_next(operation, before, event, step),
        step is Request,
    ensures
        is_due(operation.members@[step->Request_place as int], before),
        event matches StopAllEvent::Requested { place } ==> step->Request_place > place,
        event matches StopAllEvent::Refused { place, .. } ==> step->Request_place > place,
        event matches StopAllEvent::Reassessed { place, .. } ==> step->Request_place > place,
{
}

/// The digest that names the stop of a run is taken of bytes that no other pair
/// of an exit operation and a run has.
pub proof fn lemma_child_stop_message_is_unique(
    operation: Seq<char>,
    run: Seq<char>,
    other_operation: Seq<char>,
    other_run: Seq<char>,
)
    requires
        child_stop_message(operation, run) == child_stop_message(other_operation, other_run),
        vstd::utf8::encode_utf8(operation).len() < pow256(8),
        vstd::utf8::encode_utf8(other_operation).len() < pow256(8),
    ensures
        operation == other_operation,
        run == other_run,
{
    let head = vstd::utf8::encode_utf8("magictools.managed-exit-child-stop.v1\0"@);
    let a = vstd::utf8::encode_utf8(operation);
    let b = vstd::utf8::encode_utf8(run);
    let c = vstd::utf8::encode_utf8(other_operation);
    let d = vstd::utf8::encode_utf8(other_run);
    let x = child_stop_message(operation, run);
    let y = child_stop_message(other_operation, other_run);
    let h = head.len() as int;
    lemma_be_length(a.len(), 8);
    lemma_be_length(b.len(), 8);
    lemma_be_length(c.len(), 8);
    lemma_be_length(d.len(), 8);
    assert(x.subrange(h, h + 8) =~= be_bytes(a.len(), 8));
    assert(y.subrange(h, h + 8) =~= be_bytes(c.len(), 8));
    lemma_be_is_unique(a.len(), c.len(), 8);
    assert(x.subrange(h + 8, h + 8 + a.len()) =~= a);
    assert(y.subrange(h + 8, h + 8 + c.len()) =~= c);
    assert(x.subrange(h + 16 + a.len(), x.len() as int) =~= b);
    assert(y.subrange(h + 16 + c.len(), y.len() as int) =~= d);
    vstd::utf8::encode_utf8_decode_utf8(operation);
    vstd::utf8::encode_utf8_decode_utf8(other_operation);
    vstd::utf8::encode_utf8_decode_utf8(run);
    vstd::utf8::encode_utf8_decode_utf8(other_run);
}

/// A run is only ever asked to stop for an exit where the supervisor holds its
/// process and the store agrees: a run that is retained is left alone.
pub proof fn lemma_retained_runs_are_left_alone(
    member: ExitMember,
    exit_operation_id: Seq<char>,
    impact: ExitRunImpact,
)
    requires
        member_fits(member, exit_operation_id, impact),
        impact@ is Retained,
    ensures
        member.action == ExitMemberAction::NoAction,
        member.stop_operation_id is None,
{
}

} // verus!
