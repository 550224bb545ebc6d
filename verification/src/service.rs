//! The service of managed runs: what comes before it is there, and what comes
//! before a run is launched.

use vstd::prelude::*;

use crate::error::{AppError, ErrorView};
use crate::logs::{
    log_root_error, managed_log_retention_error, retention_report, validate_log_root, LogFault,
};
use crate::paths::is_absolute;
use crate::recovery::{
    found_again, lemma_each_unfinished_run_is_reconciled_once, lemma_runs_found_again_are_held,
    listed, reconcile_startup_managed_runs, reconciled, startup_event_fits, startup_follows,
    window_fits, RecoveredStopWorker, StartupAction, StartupEvent, StartupPass, StartupTrace,
};
use crate::run::{Controls, Platform, RunControl};

verus! {

/// The service of managed runs: where its logs lie, and the number by which this
/// start of it is known.
#[derive(Debug)]
pub struct ManagedRunService {
    pub log_root: String,
    pub service_incarnation: [u8; 32],
}

/// What is to be done next for a service to be there.
#[derive(Debug)]
#[allow(inconsistent_fields)]
pub enum ServiceStep {
    /// Open what deletes old logs below the root.
    OpenRetention { log_root: String },
    /// Draw the number of this start.
    DrawIncarnation { log_root: String },
    /// Reconcile the runs that were left unfinished.
    Reconcile { service: ManagedRunService, pass: StartupPass },
    /// Read which projects there are.
    ReadContext { service: ManagedRunService, workers: Vec<RecoveredStopWorker> },
    /// Hand them to discovery.
    PublishContext { service: ManagedRunService, workers: Vec<RecoveredStopWorker> },
    /// Let the workers of the stops go on.
    ScheduleWorkers { service: ManagedRunService, workers: Vec<RecoveredStopWorker> },
    /// Delete old logs, with room for no run more.
    CleanUp { service: ManagedRunService },
    /// The service is there: have old logs deleted from time to time.
    Ready { service: ManagedRunService },
    Fail(AppError),
}

/// What came of a step.
#[derive(Debug)]
#[allow(inconsistent_fields)]
pub enum ServiceReply {
    Opened(Result<(), LogFault>),
    Drawn(Result<[u8; 32], AppError>),
    Startup { event: StartupEvent, now_ms: u64 },
    Done(Result<(), AppError>),
    Scheduled,
    CleanedUp(Result<(), AppError>),
}

impl ServiceStep {
    pub open spec fn wf(self) -> bool {
        match self {
            ServiceStep::Reconcile { pass, .. } => pass.wf(),
            _ => true,
        }
    }

    /// A reply is one to what was asked.
    pub open spec fn asks_for(self, reply: ServiceReply) -> bool {
        match self {
            ServiceStep::OpenRetention { .. } => reply is Opened,
            ServiceStep::DrawIncarnation { .. } => reply is Drawn,
            ServiceStep::Reconcile { pass, .. } => reply matches ServiceReply::Startup {
                event,
                now_ms,
            } && startup_event_fits(pass.step, event) && window_fits(pass.step, now_ms),
            ServiceStep::ReadContext { .. } => reply is Done,
            ServiceStep::PublishContext { .. } => reply is Done,
            ServiceStep::ScheduleWorkers { .. } => reply is Scheduled,
            ServiceStep::CleanUp { .. } => reply is CleanedUp,
            ServiceStep::Ready { .. } | ServiceStep::Fail(_) => false,
        }
    }
}

/// The refusal of a step.
pub open spec fn service_fails(next: ServiceStep, error: ErrorView) -> bool {
    next matches ServiceStep::Fail(refusal) && refusal@ == error
}

/// A pass that has not begun.
pub open spec fn is_new_pass(pass: StartupPass) -> bool {
    &&& pass.wf()
    &&& pass.page@.len() == 0
    &&& pass.next == 0
    &&& pass.cursor is None
    &&& pass.workers@.len() == 0
    &&& pass.step is ReadPage
}

/// What the reconciliation came to where a step follows it.
pub open spec fn startup_action(next: ServiceStep) -> StartupAction {
    match next {
        ServiceStep::Reconcile { pass, .. } => StartupAction::Perform(pass),
        ServiceStep::ReadContext { workers, .. } => StartupAction::Done(workers),
        ServiceStep::Fail(error) => StartupAction::Fail(error),
        _ => arbitrary(),
    }
}

/// The service that a step is for.
pub open spec fn service_of(step: ServiceStep) -> Option<ManagedRunService> {
    match step {
        ServiceStep::Reconcile { service, .. } => Some(service),
        ServiceStep::ReadContext { service, .. } => Some(service),
        ServiceStep::PublishContext { service, .. } => Some(service),
        ServiceStep::ScheduleWorkers { service, .. } => Some(service),
        ServiceStep::CleanUp { service } => Some(service),
        ServiceStep::Ready { service } => Some(service),
        _ => None,
    }
}

/// What follows a step, and what is then held.
pub open spec fn service_follows(
    controls: Map<Seq<char>, RunControl>,
    platform: Platform,
    step: ServiceStep,
    reply: ServiceReply,
    next: ServiceStep,
    after: Map<Seq<char>, RunControl>,
) -> bool {
    match (step, reply) {
        (ServiceStep::OpenRetention { log_root }, ServiceReply::Opened(opened)) => {
            &&& after == controls
            &&& match opened {
                Ok(_) => next == ServiceStep::DrawIncarnation { log_root },
                Err(fault) => service_fails(next, retention_report(fault)),
            }
        },
        (ServiceStep::DrawIncarnation { log_root }, ServiceReply::Drawn(drawn)) => {
            &&& after == controls
            &&& match drawn {
                Ok(service_incarnation) => next matches ServiceStep::Reconcile { service, pass }
                    && service == (ManagedRunService { log_root, service_incarnation })
                    && is_new_pass(pass),
                Err(error) => next == ServiceStep::Fail(error),
            }
        },
        (ServiceStep::Reconcile { service, pass }, ServiceReply::Startup { event, now_ms }) => {
            &&& next is Reconcile || next is ReadContext || next is Fail
            &&& next !is Fail ==> service_of(next) == Some(service)
            &&& startup_follows(
                controls,
                platform,
                pass,
                event,
                now_ms,
                startup_action(next),
                after,
            )
        },
        (ServiceStep::ReadContext { service, workers }, ServiceReply::Done(read)) => {
            &&& after == controls
            &&& next == match read {
                Ok(_) => ServiceStep::PublishContext { service, workers },
                Err(error) => ServiceStep::Fail(error),
            }
        },
        (ServiceStep::PublishContext { service, workers }, ServiceReply::Done(published)) => {
            &&& after == controls
            &&& next == match published {
                Ok(_) => ServiceStep::ScheduleWorkers { service, workers },
                Err(error) => ServiceStep::Fail(error),
            }
        },
        (ServiceStep::ScheduleWorkers { service, .. }, ServiceReply::Scheduled) => after
            == controls && next == ServiceStep::CleanUp { service },
        (ServiceStep::CleanUp { service }, ServiceReply::CleanedUp(_)) => after == controls && next
            == ServiceStep::Ready { service },
        _ => false,
    }
}

impl ManagedRunService {
    /// Begins with the root of the logs; one that is not text is none. Nothing
    /// else is done where it is refused.
    pub fn begin(platform: Platform, log_root: Option<String>) -> (step: ServiceStep)
        ensures
            step.wf(),
            match log_root {
                Some(root) => if is_absolute(platform, root@) {
                    step == ServiceStep::OpenRetention { log_root: root }
                } else {
                    service_fails(step, log_root_error())
                },
                None => service_fails(step, log_root_error()),
            },
    {
        let checked = match &log_root {
            Some(root) => validate_log_root(platform, Some(root.as_str())),
            None => validate_log_root(platform, None),
        };
        match (checked, log_root) {
            (Ok(_), Some(log_root)) => ServiceStep::OpenRetention { log_root },
            (Err(error), _) => ServiceStep::Fail(error),
            _ => vstd::pervasive::unreached(),
        }
    }

    /// Moves on by one step. The service is there only after every run that was
    /// left unfinished has been reconciled; deleting old logs is tried, and what
    /// comes of it is not asked.
    pub fn new(controls: &mut Controls, platform: Platform, step: ServiceStep, reply: ServiceReply) -> (next:
        ServiceStep)
        requires
            old(controls).wf(),
            step.wf(),
            step.asks_for(reply),
        ensures
            final(controls).wf(),
            next.wf(),
            service_follows(old(controls)@, platform, step, reply, next, final(controls)@),
    {
        match (step, reply) {
            (ServiceStep::OpenRetention { log_root }, ServiceReply::Opened(opened)) => {
                match opened {
                    Ok(_) => ServiceStep::DrawIncarnation { log_root },
                    Err(fault) => ServiceStep::Fail(managed_log_retention_error(&fault)),
                }
            },
            (ServiceStep::DrawIncarnation { log_root }, ServiceReply::Drawn(drawn)) => {
                match drawn {
                    Ok(service_incarnation) => ServiceStep::Reconcile {
                        service: ManagedRunService { log_root, service_incarnation },
                        pass: StartupPass::begin(),
                    },
                    Err(error) => ServiceStep::Fail(error),
                }
            },
            (ServiceStep::Reconcile { service, pass }, ServiceReply::Startup { event, now_ms }) => {
                match reconcile_startup_managed_runs(controls, platform, pass, event, now_ms) {
                    StartupAction::Perform(pass) => ServiceStep::Reconcile { service, pass },
                    StartupAction::Done(workers) => ServiceStep::ReadContext { service, workers },
                    StartupAction::Fail(error) => ServiceStep::Fail(error),
                }
            },
            (ServiceStep::ReadContext { service, workers }, ServiceReply::Done(read)) => {
                match read {
                    Ok(_) => ServiceStep::PublishContext { service, workers },
                    Err(error) => ServiceStep::Fail(error),
                }
            },
            (ServiceStep::PublishContext { service, workers }, ServiceReply::Done(published)) => {
                match published {
                    Ok(_) => ServiceStep::ScheduleWorkers { service, workers },
                    Err(error) => ServiceStep::Fail(error),
                }
            },
            (ServiceStep::ScheduleWorkers { service, workers: _ }, ServiceReply::Scheduled) => {
                ServiceStep::CleanUp { service }
            },
            (ServiceStep::CleanUp { service }, ServiceReply::CleanedUp(_)) => ServiceStep::Ready {
                service,
            },
            _ => vstd::pervasive::unreached(),
        }
    }
}

/// The way to a service as it was gone, with what was held at each step.
pub struct ServiceTrace {
    pub platform: Platform,
    pub steps: Seq<ServiceStep>,
    pub replies: Seq<ServiceReply>,
    pub controls: Seq<Map<Seq<char>, RunControl>>,
}

impl ServiceTrace {
    /// It begins with a root that was accepted and nothing held, and each step
    /// follows from the one before.
    pub open spec fn wf(self) -> bool {
        &&& self.steps.len() == self.replies.len() + 1
        &&& self.controls.len() == self.steps.len()
        &&& self.steps[0] matches ServiceStep::OpenRetention { log_root } && is_absolute(
            self.platform,
            log_root@,
        )
        &&& self.controls[0] == Map::<Seq<char>, RunControl>::empty()
        &&& forall|i: int| 0 <= i < self.replies.len() ==> #[trigger] self.goes_at(i)
    }

    /// The step at a place is followed as it should be.
    pub open spec fn goes_at(self, i: int) -> bool {
        &&& self.steps[i].wf()
        &&& service_follows(
            self.controls[i],
            self.platform,
            self.steps[i],
            self.replies[i],
            self.steps[i + 1],
            self.controls[i + 1],
        )
    }

    /// The reconciliation from the third step to a step that follows it.
    pub open spec fn startup(self, end: int) -> StartupTrace {
        let count = (end - 2) as nat;
        StartupTrace {
            platform: self.platform,
            passes: Seq::new(count, |k: int| self.steps[k + 2]->pass),
            events: Seq::new(count, |k: int| self.replies[k + 2]->event),
            actions: Seq::new(count, |k: int| startup_action(self.steps[k + 3])),
            controls: Seq::new(count + 1, |k: int| self.controls[k + 2]),
            times: Seq::new(count, |k: int| self.replies[k + 2]->now_ms),
        }
    }
}

/// The place of a step in the order.
pub open spec fn place_of(step: ServiceStep) -> int {
    match step {
        ServiceStep::OpenRetention { .. } => 0,
        ServiceStep::DrawIncarnation { .. } => 1,
        ServiceStep::Reconcile { .. } => 2,
        ServiceStep::ReadContext { .. } => 3,
        ServiceStep::PublishContext { .. } => 4,
        ServiceStep::ScheduleWorkers { .. } => 5,
        ServiceStep::CleanUp { .. } => 6,
        ServiceStep::Ready { .. } => 7,
        ServiceStep::Fail(_) => 8,
    }
}

proof fn lemma_service_step(
    controls: Map<Seq<char>, RunControl>,
    platform: Platform,
    step: ServiceStep,
    reply: ServiceReply,
    next: ServiceStep,
    after: Map<Seq<char>, RunControl>,
)
    requires
        service_follows(controls, platform, step, reply, next, after),
    ensures
        next !is Fail ==> place_of(next) == place_of(step) + 1 || step is Reconcile && next
            is Reconcile,
        step is CleanUp ==> next is Ready,
        step !is Reconcile ==> after == controls,
        step is DrawIncarnation && next is Reconcile ==> is_new_pass(next->pass),
        step !is Ready && step !is Fail,
{
}

/// The steps before a service is there: two before the reconciliation, and four
/// behind it.
proof fn lemma_service_places(trace: ServiceTrace, at: int)
    requires
        trace.wf(),
        0 <= at < trace.steps.len(),
        trace.steps[at] !is Fail,
    ensures
        at < 2 ==> place_of(trace.steps[at]) == at,
        at >= 2 ==> place_of(trace.steps[at]) >= 2,
        at >= 2 && trace.steps[at] is Reconcile ==> forall|i: int|
            2 <= i <= at ==> #[trigger] trace.steps[i] is Reconcile,
        at >= 2 && place_of(trace.steps[at]) > 2 ==> {
            let behind = place_of(trace.steps[at]) - 2;
            &&& at - behind >= 2
            &&& trace.steps[at - behind] is Reconcile
            &&& trace.steps[at - behind + 1] is ReadContext
            &&& trace.controls[at - behind + 1] == trace.controls[at]
        },
        at < 3 ==> trace.controls[at] == trace.controls[0],
        at >= 2 ==> trace.steps[2] is Reconcile && is_new_pass(trace.steps[2]->pass),
    decreases at,
{
    if at > 0 {
        assert(trace.goes_at(at - 1));
        lemma_service_step(
            trace.controls[at - 1],
            trace.platform,
            trace.steps[at - 1],
            trace.replies[at - 1],
            trace.steps[at],
            trace.controls[at],
        );
        lemma_service_places(trace, at - 1);
        if at >= 2 && trace.steps[at] is Reconcile {
            assert forall|i: int| 2 <= i <= at implies #[trigger] trace.steps[i] is Reconcile by {
                if i < at {
                    assert(trace.steps[i] is Reconcile);
                }
            }
        }
    }
}

/// A service is there only after every run that the store listed as unfinished
/// has been reconciled, once and in the order of the lists, and it holds exactly
/// the runs whose process was found again. The root of the logs was accepted
/// before. Gives the reconciliation that was done.
pub proof fn lemma_service_starts_reconciled(trace: ServiceTrace) -> (startup: StartupTrace)
    requires
        trace.wf(),
        trace.steps.last() is Ready,
    ensures
        startup.wf(),
        startup.events.len() > 0,
        startup.actions.last() is Done,
        startup.controls[0] == Map::<Seq<char>, RunControl>::empty(),
        reconciled(startup, startup.events.len() as int) == listed(
            startup,
            startup.events.len() as int,
        ),
        trace.controls.last().dom() == found_again(startup, startup.events.len() as int),
        is_absolute(trace.platform, trace.steps[0]->OpenRetention_log_root@),
{
    let last = trace.steps.len() - 1;
    lemma_service_places(trace, last);
    let end = last - 4;
    assert(trace.steps[end] is ReadContext);
    assert(trace.steps[end - 1] is Reconcile);
    lemma_service_places(trace, end - 1);
    lemma_service_places(trace, 2);
    let startup = trace.startup(end);
    assert forall|i: int| 0 <= i < startup.events.len() implies {
        &&& (#[trigger] startup.passes[i]).wf()
        &&& startup_follows(
            startup.controls[i],
            startup.platform,
            startup.passes[i],
            startup.events[i],
            startup.times[i],
            startup.actions[i],
            startup.controls[i + 1],
        )
        &&& i + 1 < startup.passes.len() ==> startup.actions[i] == StartupAction::Perform(
            startup.passes[i + 1],
        )
    } by {
        assert(trace.goes_at(i + 2));
        assert(trace.steps[i + 2] is Reconcile);
        if i + 1 < startup.passes.len() {
            assert(trace.steps[i + 3] is Reconcile);
        }
    }
    assert(startup.wf());
    lemma_each_unfinished_run_is_reconciled_once(startup);
    lemma_runs_found_again_are_held(startup, startup.events.len() as int);
    assert(Map::<Seq<char>, RunControl>::empty().dom() =~= Set::empty());
    assert(trace.controls.last().dom() =~= found_again(startup, startup.events.len() as int));
    startup
}

/// A failure of the deletion of old logs is not returned: once a service has
/// come to it, the service is there whatever comes of it.
pub proof fn lemma_clean_up_cannot_fail_the_service(
    controls: Map<Seq<char>, RunControl>,
    platform: Platform,
    service: ManagedRunService,
    outcome: Result<(), AppError>,
    next: ServiceStep,
    after: Map<Seq<char>, RunControl>,
)
    requires
        service_follows(
            controls,
            platform,
            ServiceStep::CleanUp { service },
            ServiceReply::CleanedUp(outcome),
            next,
            after,
        ),
    ensures
        next == (ServiceStep::Ready { service }),
        after == controls,
{
}

/// Nothing is done, and so nothing is reconciled, where the root of the logs is
/// refused.
pub proof fn lemma_refused_root_ends_the_start(
    platform: Platform,
    log_root: Option<String>,
    begun: ServiceStep,
)
    requires
        log_root is None || !is_absolute(platform, log_root->0@),
        call_ensures(ManagedRunService::begin, (platform, log_root), begun),
    ensures
        service_fails(begun, log_root_error()),
        forall|reply: ServiceReply| !#[trigger] begun.asks_for(reply),
{
}

} // verus!
