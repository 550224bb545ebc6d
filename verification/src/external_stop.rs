//! Stopping a process that the supervisor does not manage: one signal for each
//! operation, whatever is asked again, and none for a process of a run.

use vstd::prelude::*;

use crate::error::{plain_error, AppError, ErrorCode, ErrorView};
use crate::run::ProcessInstanceKey;
use crate::table::Table;
use crate::text::{decimal, decimal_text, same_text};

verus! {

/// How many operations are known.
pub const MAX_EXTERNAL_STOP_OPERATIONS: usize = 4_096;

/// A confirmed request to stop a process. The scope is what was confirmed.
#[derive(Debug)]
pub struct ExternalStopRequest {
    pub process_instance_key: ProcessInstanceKey,
    pub scope: String,
}

/// What a request to stop a process says.
pub struct ExternalStopRequestView {
    pub process: crate::run::KeyView,
    pub scope: Seq<char>,
}

impl View for ExternalStopRequest {
    type V = ExternalStopRequestView;

    open spec fn view(&self) -> ExternalStopRequestView {
        ExternalStopRequestView { process: self.process_instance_key@, scope: self.scope@ }
    }
}

impl ExternalStopRequest {
    fn same(&self, other: &ExternalStopRequest) -> (same: bool)
        ensures
            same == (self@ == other@),
    {
        self.process_instance_key.same(&other.process_instance_key) && same_text(
            self.scope.as_str(),
            other.scope.as_str(),
        )
    }

    fn copy(&self) -> (copy: Self)
        ensures
            copy@ == self@,
    {
        ExternalStopRequest {
            process_instance_key: self.process_instance_key.copy(),
            scope: self.scope.clone(),
        }
    }
}

/// A request whose signal was delivered.
#[derive(Debug)]
pub struct ExternalStopResult {
    pub process_instance_key: ProcessInstanceKey,
    pub scope: String,
}

impl View for ExternalStopResult {
    type V = ExternalStopRequestView;

    open spec fn view(&self) -> ExternalStopRequestView {
        ExternalStopRequestView { process: self.process_instance_key@, scope: self.scope@ }
    }
}

/// What an operation came to.
pub open spec fn outcome(result: Result<ExternalStopResult, AppError>) -> Result<
    ExternalStopRequestView,
    ErrorView,
> {
    match result {
        Ok(result) => Ok(result@),
        Err(error) => Err(error@),
    }
}

fn copy_result(result: &Result<ExternalStopResult, AppError>) -> (copy: Result<
    ExternalStopResult,
    AppError,
>)
    ensures
        outcome(copy) == outcome(*result),
{
    match result {
        Ok(result) => Ok(
            ExternalStopResult {
                process_instance_key: result.process_instance_key.copy(),
                scope: result.scope.clone(),
            },
        ),
        Err(error) => Err(error.copy()),
    }
}

/// An operation with what it came to.
#[derive(Debug)]
pub struct ExternalStopOperation {
    pub request: ExternalStopRequest,
    pub result: Result<ExternalStopResult, AppError>,
}

/// The operations that are known.
#[derive(Debug)]
pub struct ExternalStopLedger {
    operations: Table<ExternalStopOperation>,
}

impl View for ExternalStopLedger {
    type V = Map<Seq<char>, ExternalStopOperation>;

    closed spec fn view(&self) -> Map<Seq<char>, ExternalStopOperation> {
        self.operations@
    }
}

/// The refusal of a request that is not one to stop a process.
pub open spec fn invalid_request(
    operation_id: Option<Seq<char>>,
    field: Seq<char>,
    reason: Seq<char>,
) -> ErrorView {
    ErrorView {
        operation_id,
        ..plain_error(ErrorCode::InvalidArgument, "invalid authenticated external stop request"@)
    }.with("field"@, field).with("reason"@, reason)
}

fn invalid_bound_request_error(operation_id: Option<&str>, field: &str, reason: &str) -> (error:
    AppError)
    ensures
        error@ == invalid_request(crate::details::optional_str(operation_id), field@, reason@),
{
    let error = AppError::new(
        ErrorCode::InvalidArgument,
        "invalid authenticated external stop request",
    ).with_detail("field", field).with_detail("reason", reason);
    match operation_id {
        Some(operation_id) => error.bind_operation_id(operation_id),
        None => error,
    }
}

/// Checks that a request is one to stop a process: its method, its operation,
/// and what it holds, in this order.
pub fn bind_external_stop<'a>(
    method: &str,
    operation_id: Option<&'a str>,
    params: Option<ExternalStopRequest>,
) -> (result: Result<(&'a str, ExternalStopRequest), AppError>)
    ensures
        if method@ != "process.stop_external"@ {
            result is Err && result->Err_0@ == invalid_request(
                crate::details::optional_str(operation_id),
                "method"@,
                "must be process.stop_external"@,
            )
        } else if operation_id is None {
            result is Err && result->Err_0@ == invalid_request(
                None,
                "operationId"@,
                "is required for external stop"@,
            )
        } else if params is None {
            result is Err && result->Err_0@ == invalid_request(
                Some(operation_id->0@),
                "params"@,
                "must contain a valid external stop request"@,
            )
        } else {
            result is Ok && result->Ok_0 == (operation_id->0, params->0)
        },
{
    if !same_text(method, "process.stop_external") {
        return Err(
            invalid_bound_request_error(operation_id, "method", "must be process.stop_external"),
        );
    }
    let operation_id = match operation_id {
        Some(operation_id) => operation_id,
        None => {
            return Err(
                invalid_bound_request_error(None, "operationId", "is required for external stop"),
            );
        },
    };
    match params {
        Some(request) => Ok((operation_id, request)),
        None => Err(
            invalid_bound_request_error(
                Some(operation_id),
                "params",
                "must contain a valid external stop request",
            ),
        ),
    }
}

/// The refusal of an operation that was asked for another process.
pub open spec fn input_conflict(operation_id: Seq<char>, existing: u32, requested: u32) -> ErrorView {
    plain_error(
        ErrorCode::Conflict,
        "external stop operation ID is already bound to a different process"@,
    ).bound_to(operation_id).with("operationId"@, operation_id).with(
        "existingPid"@,
        decimal_text(existing as nat),
    ).with("requestedPid"@, decimal_text(requested as nat))
}

/// The refusal of more operations than can be known.
pub open spec fn ledger_full(operation_id: Seq<char>) -> ErrorView {
    plain_error(
        ErrorCode::Conflict,
        "external stop operation capacity is exhausted"@,
    ).bound_to(operation_id).with("operationId"@, operation_id).with(
        "capacity"@,
        decimal_text(MAX_EXTERNAL_STOP_OPERATIONS as nat),
    )
}

/// The refusal to stop a process of a managed run.
pub open spec fn managed_process(operation_id: Seq<char>, pid: u32, run_id: Seq<char>) -> ErrorView {
    plain_error(
        ErrorCode::Conflict,
        "managed process cannot be stopped through the external process boundary"@,
    ).bound_to(operation_id).with("runId"@, run_id).with("pid"@, decimal_text(pid as nat)).with(
        "reason"@,
        "use run.stop or run.force_stop for the associated managed run"@,
    )
}

/// The answer where the process had exited.
pub open spec fn already_exited(pid: u32) -> ErrorView {
    plain_error(
        ErrorCode::AlreadyExited,
        "external process already exited before the stop signal was delivered"@,
    ).with("pid"@, decimal_text(pid as nat))
}

/// What a request to stop a process comes to at first.
#[derive(Debug)]
pub enum ExternalStopStep {
    /// It is answered.
    Answer(Result<ExternalStopResult, AppError>),
    /// It is new: see whether a run manages the process.
    LookUp,
    /// No run manages the process: send the signal.
    Signal,
}

/// What the operating system did with a signal.
#[derive(Debug)]
pub enum SignalReply {
    /// It was delivered; the rules for answers say this of the answer.
    SignalDelivered { checked: Result<(), AppError> },
    AlreadyExited,
}

/// What a request to stop a process comes to: an operation that is known is
/// answered as before, with the same process only.
pub enum ReplayView {
    Answer { outcome: Result<ExternalStopRequestView, ErrorView> },
    New,
}

pub open spec fn replay_of(
    ledger: Map<Seq<char>, ExternalStopOperation>,
    operation_id: Seq<char>,
    request: ExternalStopRequestView,
) -> ReplayView {
    if ledger.dom().contains(operation_id) {
        let known = ledger[operation_id];
        if known.request@ != request {
            ReplayView::Answer {
                outcome: Err(
                    input_conflict(operation_id, known.request@.process.pid, request.process.pid),
                ),
            }
        } else {
            ReplayView::Answer { outcome: outcome(known.result) }
        }
    } else if ledger.dom().len() >= MAX_EXTERNAL_STOP_OPERATIONS {
        ReplayView::Answer { outcome: Err(ledger_full(operation_id)) }
    } else {
        ReplayView::New
    }
}

/// What the search for a managing run comes to; none where there is none.
pub open spec fn lookup_outcome(
    operation_id: Seq<char>,
    pid: u32,
    managed: Result<Option<String>, AppError>,
) -> Option<ErrorView> {
    match managed {
        Ok(Some(run_id)) => Some(managed_process(operation_id, pid, run_id@)),
        Ok(None) => None,
        Err(error) => Some(
            error@.bound_to(operation_id).with("managedControlLookup"@, "failedClosed"@),
        ),
    }
}

/// What a signal comes to.
pub open spec fn signal_outcome(
    operation_id: Seq<char>,
    request: ExternalStopRequestView,
    reply: Result<SignalReply, AppError>,
) -> Result<ExternalStopRequestView, ErrorView> {
    match reply {
        Ok(SignalReply::SignalDelivered { checked }) => match checked {
            Ok(_) => Ok(request),
            Err(error) => Err(error@.bound_to(operation_id)),
        },
        Ok(SignalReply::AlreadyExited) => Err(
            already_exited(request.process.pid).bound_to(operation_id),
        ),
        Err(error) => Err(error@.bound_to(operation_id)),
    }
}

/// An operation stands in the ledger with what it came to, and nothing else
/// changed.
pub open spec fn records(
    before: Map<Seq<char>, ExternalStopOperation>,
    after: Map<Seq<char>, ExternalStopOperation>,
    operation_id: Seq<char>,
    request: ExternalStopRequestView,
    result: Result<ExternalStopRequestView, ErrorView>,
) -> bool {
    &&& after.dom() == before.dom().insert(operation_id)
    &&& after[operation_id].request@ == request
    &&& outcome(after[operation_id].result) == result
    &&& forall|other: Seq<char>|
        other != operation_id && before.dom().contains(other) ==> #[trigger] after[other]
            == before[other]
}

/// What follows where it was looked up whether a run holds the process.
pub open spec fn lookup_follows(
    before: Map<Seq<char>, ExternalStopOperation>,
    operation_id: Seq<char>,
    request: ExternalStopRequestView,
    managed: Result<Option<String>, AppError>,
    step: ExternalStopStep,
    after: Map<Seq<char>, ExternalStopOperation>,
) -> bool {
    match lookup_outcome(operation_id, request.process.pid, managed) {
        Some(error) => {
            &&& step is Answer && outcome(step->Answer_0) == Err::<
                ExternalStopRequestView,
                ErrorView,
            >(error)
            &&& records(before, after, operation_id, request, outcome(step->Answer_0))
        },
        None => step is Signal && after == before,
    }
}

/// What follows where the process was to be sent a signal.
pub open spec fn signal_follows(
    before: Map<Seq<char>, ExternalStopOperation>,
    operation_id: Seq<char>,
    request: ExternalStopRequestView,
    reply: Result<SignalReply, AppError>,
    result: Result<ExternalStopResult, AppError>,
    after: Map<Seq<char>, ExternalStopOperation>,
) -> bool {
    &&& outcome(result) == signal_outcome(operation_id, request, reply)
    &&& records(before, after, operation_id, request, outcome(result))
}

impl ExternalStopLedger {
    pub closed spec fn tables_wf(self) -> bool {
        self.operations.wf()
    }

    /// The ledger does not outgrow its bound.
    pub open spec fn wf(self) -> bool {
        self.tables_wf() && self@.dom().finite() && self@.dom().len()
            <= MAX_EXTERNAL_STOP_OPERATIONS
    }

    pub fn new() -> (ledger: Self)
        ensures
            ledger.wf(),
            ledger@ == Map::<Seq<char>, ExternalStopOperation>::empty(),
    {
        ExternalStopLedger { operations: Table::new() }
    }

    /// Takes a request to stop a process in.
    pub fn stop(&self, operation_id: &str, request: &ExternalStopRequest) -> (step:
        ExternalStopStep)
        requires
            self.wf(),
        ensures
            match replay_of(self@, operation_id@, request@) {
                ReplayView::Answer { outcome: answer } => step is Answer && outcome(
                    step->Answer_0,
                ) == answer,
                ReplayView::New => step is LookUp,
            },
    {
        if let Some(known) = self.operations.get(operation_id) {
            if !known.request.same(request) {
                let error = AppError::new(
                    ErrorCode::Conflict,
                    "external stop operation ID is already bound to a different process",
                ).bind_operation_id(operation_id).with_detail(
                    "operationId",
                    operation_id,
                ).with_detail(
                    "existingPid",
                    decimal(known.request.process_instance_key.pid as u64).as_str(),
                ).with_detail(
                    "requestedPid",
                    decimal(request.process_instance_key.pid as u64).as_str(),
                );
                return ExternalStopStep::Answer(Err(error));
            }
            return ExternalStopStep::Answer(copy_result(&known.result));
        }
        if self.operations.len() >= MAX_EXTERNAL_STOP_OPERATIONS {
            let error = AppError::new(
                ErrorCode::Conflict,
                "external stop operation capacity is exhausted",
            ).bind_operation_id(operation_id).with_detail("operationId", operation_id).with_detail(
                "capacity",
                decimal(MAX_EXTERNAL_STOP_OPERATIONS as u64).as_str(),
            );
            return ExternalStopStep::Answer(Err(error));
        }
        ExternalStopStep::LookUp
    }

    /// Takes an answer into the ledger.
    fn record(
        &mut self,
        operation_id: &str,
        request: &ExternalStopRequest,
        result: &Result<ExternalStopResult, AppError>,
    )
        requires
            old(self).wf(),
            !old(self)@.dom().contains(operation_id@),
            old(self)@.dom().len() < MAX_EXTERNAL_STOP_OPERATIONS,
        ensures
            final(self).wf(),
            records(old(self)@, final(self)@, operation_id@, request@, outcome(*result)),
    {
        let kept = copy_result(result);
        self.operations.insert(
            operation_id,
            ExternalStopOperation { request: request.copy(), result: kept },
        );
        proof {
            assert(self@.dom() =~= old(self)@.dom().insert(operation_id@));
        }
    }

    /// Takes the answer in to whether a run manages the process. Where one does,
    /// or where it could not be found out, no signal is sent.
    pub fn after_lookup(
        &mut self,
        operation_id: &str,
        request: &ExternalStopRequest,
        managed: Result<Option<String>, AppError>,
    ) -> (step: ExternalStopStep)
        requires
            old(self).wf(),
            replay_of(old(self)@, operation_id@, request@) is New,
        ensures
            final(self).wf(),
            lookup_follows(
                old(self)@,
                operation_id@,
                request@,
                managed,
                step,
                final(self)@,
            ),
    {
        let error = match managed {
            Ok(None) => return ExternalStopStep::Signal,
            Ok(Some(run_id)) => AppError::new(
                ErrorCode::Conflict,
                "managed process cannot be stopped through the external process boundary",
            ).bind_operation_id(operation_id).with_detail("runId", run_id.as_str()).with_detail(
                "pid",
                decimal(request.process_instance_key.pid as u64).as_str(),
            ).with_detail(
                "reason",
                "use run.stop or run.force_stop for the associated managed run",
            ),
            Err(error) => error.bind_operation_id(operation_id).with_detail(
                "managedControlLookup",
                "failedClosed",
            ),
        };
        let result: Result<ExternalStopResult, AppError> = Err(error);
        self.record(operation_id, request, &result);
        ExternalStopStep::Answer(result)
    }

    /// Takes what came of the signal in.
    pub fn after_signal(
        &mut self,
        operation_id: &str,
        request: &ExternalStopRequest,
        reply: Result<SignalReply, AppError>,
    ) -> (result: Result<ExternalStopResult, AppError>)
        requires
            old(self).wf(),
            replay_of(old(self)@, operation_id@, request@) is New,
        ensures
            final(self).wf(),
            signal_follows(
                old(self)@,
                operation_id@,
                request@,
                reply,
                result,
                final(self)@,
            ),
    {
        let result: Result<ExternalStopResult, AppError> = match reply {
            Ok(SignalReply::SignalDelivered { checked }) => match checked {
                Ok(_) => Ok(
                    ExternalStopResult {
                        process_instance_key: request.process_instance_key.copy(),
                        scope: request.scope.clone(),
                    },
                ),
                Err(error) => Err(error.bind_operation_id(operation_id)),
            },
            Ok(SignalReply::AlreadyExited) => Err(
                AppError::new(
                    ErrorCode::AlreadyExited,
                    "external process already exited before the stop signal was delivered",
                ).with_detail(
                    "pid",
                    decimal(request.process_instance_key.pid as u64).as_str(),
                ).bind_operation_id(operation_id),
            ),
            Err(error) => Err(error.bind_operation_id(operation_id)),
        };
        self.record(operation_id, request, &result);
        result
    }
}

/// An operation is carried out once: when it stands in the ledger, asking for
/// it again gives the same answer, and asking for another process under it is
/// refused. In neither case is a signal sent.
pub proof fn lemma_operation_is_carried_out_once(
    before: Map<Seq<char>, ExternalStopOperation>,
    after: Map<Seq<char>, ExternalStopOperation>,
    operation_id: Seq<char>,
    request: ExternalStopRequestView,
    result: Result<ExternalStopRequestView, ErrorView>,
    other: ExternalStopRequestView,
)
    requires
        records(before, after, operation_id, request, result),
    ensures
        replay_of(after, operation_id, request) == (ReplayView::Answer { outcome: result }),
        other != request ==> replay_of(after, operation_id, other) == (ReplayView::Answer {
            outcome: Err(input_conflict(operation_id, request.process.pid, other.process.pid)),
        }),
{
}

/// No signal is sent to a process of a managed run, nor where it could not be
/// found out whether it is one.
pub proof fn lemma_managed_process_gets_no_signal(
    operation_id: Seq<char>,
    pid: u32,
    managed: Result<Option<String>, AppError>,
)
    ensures
        lookup_outcome(operation_id, pid, managed) is None <==> managed == Ok::<
            Option<String>,
            AppError,
        >(None),
{
}

} // verus!
