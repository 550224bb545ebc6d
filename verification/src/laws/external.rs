//! What stopping a process that no run holds is for: it gets one signal for each
//! operation, a process of a run gets none, and every operation is answered as it ended.

use vstd::prelude::*;

use crate::error::{AppError, ErrorCode};
use crate::external_stop::{
    bind_external_stop, lookup_follows, outcome, signal_follows, ExternalStopLedger,
    ExternalStopOperation, ExternalStopRequest, ExternalStopRequestView, ExternalStopResult,
    ExternalStopStep, SignalReply,
};

verus! {

/// A stop is carried out exactly where its operation is not known and there is room for it
/// in the ledger. A known operation is answered as it ended before, and to any other
/// request under it only with a conflict.
pub proof fn lemma_known_operation_is_not_carried_out_again(
    ledger: ExternalStopLedger,
    operation_id: &str,
    request: ExternalStopRequest,
    step: ExternalStopStep,
)
    requires
        ledger.wf(),
        call_ensures(ExternalStopLedger::stop, (&ledger, operation_id, &request), step),
    ensures
        step is LookUp <==> !ledger@.dom().contains(operation_id@) && ledger@.dom().len() < 4_096,
        !(step is Signal),
        ledger@.dom().contains(operation_id@) && ledger@[operation_id@].request@ == request@
            ==> step is Answer && outcome(step->Answer_0) == outcome(
            ledger@[operation_id@].result,
        ),
        step is Answer && !(ledger@.dom().contains(operation_id@)
            && ledger@[operation_id@].request@ == request@) ==> (step->Answer_0 matches Err(error)
            && error.code == ErrorCode::Conflict && error.operation_id is Some
            && error.operation_id->0@ == operation_id@),
{
    if let ExternalStopStep::Answer(Err(error)) = step {
        assert(outcome(step->Answer_0) == Err::<
            ExternalStopRequestView,
            crate::error::ErrorView,
        >(error@));
        assert(error@.code == error.code);
        assert(error@.operation_id == crate::error::optional_text(error.operation_id));
    }
}

/// A signal is sent exactly where it is known that no run holds the process: where a run
/// holds it, or where that could not be found out, the stop is refused, and the refusal is
/// what the operation is answered with from then on.
pub proof fn lemma_process_of_a_run_gets_no_signal(
    before: Map<Seq<char>, ExternalStopOperation>,
    operation_id: Seq<char>,
    request: ExternalStopRequestView,
    managed: Result<Option<String>, AppError>,
    step: ExternalStopStep,
    after: Map<Seq<char>, ExternalStopOperation>,
    other: Seq<char>,
)
    requires
        lookup_follows(before, operation_id, request, managed, step, after),
    ensures
        step is Signal <==> managed is Ok && managed->Ok_0 is None,
        !(step is LookUp),
        step is Signal ==> after == before,
        step is Answer ==> {
            &&& step->Answer_0 is Err
            &&& after.dom().contains(operation_id)
            &&& after[operation_id].request@ == request
            &&& outcome(after[operation_id].result) == outcome(step->Answer_0)
            &&& step->Answer_0->Err_0.operation_id is Some
            &&& step->Answer_0->Err_0.operation_id->0@ == operation_id
        },
        managed is Ok && managed->Ok_0 is Some ==> step->Answer_0->Err_0.code
            == ErrorCode::Conflict,
        managed matches Err(error) ==> step->Answer_0->Err_0.code == error.code
            && step->Answer_0->Err_0.retryable == error.retryable,
        other != operation_id ==> (after.dom().contains(other) <==> before.dom().contains(other)),
        other != operation_id && before.dom().contains(other) ==> after[other] == before[other],
{
    if let ExternalStopStep::Answer(Err(error)) = step {
        assert(outcome(step->Answer_0) == Err::<
            ExternalStopRequestView,
            crate::error::ErrorView,
        >(error@));
        assert(error@.code == error.code && error@.retryable == error.retryable);
        assert(error@.operation_id == crate::error::optional_text(error.operation_id));
    }
    if let Err(error) = managed {
        assert(error@.code == error.code && error@.retryable == error.retryable);
    }
}

/// A stop went well exactly where the signal was delivered and that was confirmed, and is
/// then answered with the process and the scope that were asked for. A process that was
/// gone is told to be gone, every failure is told as it came, and the operation is answered
/// so from then on.
pub proof fn lemma_stop_went_well_where_the_signal_was_delivered(
    before: Map<Seq<char>, ExternalStopOperation>,
    operation_id: Seq<char>,
    request: ExternalStopRequestView,
    reply: Result<SignalReply, AppError>,
    result: Result<ExternalStopResult, AppError>,
    after: Map<Seq<char>, ExternalStopOperation>,
    other: Seq<char>,
)
    requires
        signal_follows(before, operation_id, request, reply, result, after),
    ensures
        result is Ok <==> (reply matches Ok(SignalReply::SignalDelivered { checked }) && checked
            is Ok),
        result matches Ok(stopped) ==> stopped.process_instance_key@ == request.process
            && stopped.scope@ == request.scope,
        reply matches Ok(SignalReply::AlreadyExited) ==> result is Err && result->Err_0.code
            == ErrorCode::AlreadyExited,
        reply matches Err(error) ==> result is Err && result->Err_0.code == error.code
            && result->Err_0.retryable == error.retryable,
        (reply matches Ok(SignalReply::SignalDelivered { checked: Err(error) }) ==> result is Err
            && result->Err_0.code == error.code),
        result matches Err(error) ==> error.operation_id is Some && error.operation_id->0@
            == operation_id,
        after.dom().contains(operation_id),
        after[operation_id].request@ == request,
        outcome(after[operation_id].result) == outcome(result),
        other != operation_id ==> (after.dom().contains(other) <==> before.dom().contains(other)),
        other != operation_id && before.dom().contains(other) ==> after[other] == before[other],
{
    match result {
        Ok(stopped) => {
            assert(outcome(result) == Ok::<ExternalStopRequestView, crate::error::ErrorView>(
                stopped@,
            ));
        },
        Err(error) => {
            assert(outcome(result) == Err::<ExternalStopRequestView, crate::error::ErrorView>(
                error@,
            ));
            assert(error@.code == error.code && error@.retryable == error.retryable);
            assert(error@.operation_id == crate::error::optional_text(error.operation_id));
        },
    }
    match reply {
        Err(error) => {
            assert(error@.code == error.code && error@.retryable == error.retryable);
        },
        Ok(SignalReply::SignalDelivered { checked: Err(error) }) => {
            assert(error@.code == error.code);
        },
        _ => {},
    }
}

/// A request is taken for a stop exactly where it comes under the right method, names its
/// operation and says what to stop; it is then taken as it came.
pub proof fn lemma_only_a_whole_request_stops_a_process(
    method: &str,
    operation_id: Option<&str>,
    params: Option<ExternalStopRequest>,
    result: Result<(&str, ExternalStopRequest), AppError>,
)
    requires
        call_ensures(bind_external_stop, (method, operation_id, params), result),
    ensures
        result is Ok <==> method@ == "process.stop_external"@ && operation_id is Some && params
            is Some,
        result matches Ok((operation, request)) ==> Some(operation) == operation_id && Some(request)
            == params,
        result matches Err(error) ==> error.code == ErrorCode::InvalidArgument && !error.retryable,
        result matches Err(error) ==> (error.operation_id is Some <==> operation_id is Some),
{
    if let Err(error) = result {
        assert(error@.code == error.code && error@.retryable == error.retryable);
        assert(error@.operation_id == crate::error::optional_text(error.operation_id));
    }
}

} // verus!
