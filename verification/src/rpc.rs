//! Which requests of a peer are taken by which part of the supervisor, and
//! what is asked of a request before it is carried out.

use vstd::prelude::*;

use crate::error::{optional_text, plain_error, AppError, ErrorCode, ErrorView};

verus! {

/// What a peer may ask for. A method that is in no list stands for every name
/// that is none of the others.
#[derive(Clone, Copy, Debug, PartialEq, Eq, Structural)]
pub enum Method {
    ProjectList,
    ProjectSave,
    ProjectDelete,
    RuleList,
    RuleSave,
    RuleDelete,
    ProfileList,
    ProfileSave,
    ProfileDelete,
    ProfilePreview,
    ProcessGetDetails,
    ProcessStopExternal,
    ProcessRequestEnrichment,
    RunStop,
    RunForceStop,
    RunGetHistory,
    RunGetLogRange,
    RunStopAllForExit,
    SystemGetExitImpact,
    DiagnosticsGetManifest,
    DiagnosticsExport,
    Unlisted,
}

/// The parts that take requests.
#[derive(Clone, Copy, Debug, PartialEq, Eq, Structural)]
pub enum Dispatcher {
    Catalog,
    Profile,
    Stop,
    Exit,
    History,
    Log,
    Diagnostics,
    Enrichment,
}

/// What a method does with the supervisor's state.
#[derive(Clone, Copy, Debug, PartialEq, Eq, Structural)]
pub enum Effect {
    /// It reads, and may name no operation.
    Read,
    /// It reads, and may name an operation.
    TracedRead,
    /// It changes, and must name an operation.
    Mutation,
}

/// A request of a peer: its method, the name by which the peer called it, and
/// the operation that it names.
#[derive(Debug)]
pub struct RequestEnvelope {
    pub method: Method,
    pub method_name: String,
    pub operation_id: Option<String>,
}

/// The part that takes a method.
pub open spec fn dispatcher_of(method: Method) -> Option<Dispatcher> {
    match method {
        Method::ProjectList
        | Method::ProjectSave
        | Method::ProjectDelete
        | Method::RuleList
        | Method::RuleSave
        | Method::RuleDelete => Some(Dispatcher::Catalog),
        Method::ProfileList
        | Method::ProfileSave
        | Method::ProfileDelete
        | Method::ProfilePreview => Some(Dispatcher::Profile),
        Method::ProcessGetDetails
        | Method::ProcessStopExternal
        | Method::RunStop
        | Method::RunForceStop => Some(Dispatcher::Stop),
        Method::RunStopAllForExit | Method::SystemGetExitImpact => Some(Dispatcher::Exit),
        Method::RunGetHistory => Some(Dispatcher::History),
        Method::RunGetLogRange => Some(Dispatcher::Log),
        Method::DiagnosticsGetManifest | Method::DiagnosticsExport => Some(Dispatcher::Diagnostics),
        Method::ProcessRequestEnrichment => Some(Dispatcher::Enrichment),
        Method::Unlisted => None,
    }
}

/// What a method does.
pub open spec fn effect_of(method: Method) -> Effect {
    match method {
        Method::ProjectSave
        | Method::ProjectDelete
        | Method::RuleSave
        | Method::RuleDelete
        | Method::ProfileSave
        | Method::ProfileDelete
        | Method::ProcessStopExternal
        | Method::RunStop
        | Method::RunForceStop
        | Method::RunStopAllForExit
        | Method::DiagnosticsExport => Effect::Mutation,
        Method::ProfileList | Method::ProfilePreview => Effect::TracedRead,
        _ => Effect::Read,
    }
}

fn takes(dispatcher: Dispatcher, method: Method) -> (taken: bool)
    ensures
        taken == (dispatcher_of(method) == Some(dispatcher)),
{
    match method {
        Method::ProjectList
        | Method::ProjectSave
        | Method::ProjectDelete
        | Method::RuleList
        | Method::RuleSave
        | Method::RuleDelete => dispatcher == Dispatcher::Catalog,
        Method::ProfileList
        | Method::ProfileSave
        | Method::ProfileDelete
        | Method::ProfilePreview => dispatcher == Dispatcher::Profile,
        Method::ProcessGetDetails
        | Method::ProcessStopExternal
        | Method::RunStop
        | Method::RunForceStop => dispatcher == Dispatcher::Stop,
        Method::RunStopAllForExit | Method::SystemGetExitImpact => dispatcher == Dispatcher::Exit,
        Method::RunGetHistory => dispatcher == Dispatcher::History,
        Method::RunGetLogRange => dispatcher == Dispatcher::Log,
        Method::DiagnosticsGetManifest | Method::DiagnosticsExport => dispatcher
            == Dispatcher::Diagnostics,
        Method::ProcessRequestEnrichment => dispatcher == Dispatcher::Enrichment,
        Method::Unlisted => false,
    }
}

fn effect(method: Method) -> (effect: Effect)
    ensures
        effect == effect_of(method),
{
    match method {
        Method::ProjectSave
        | Method::ProjectDelete
        | Method::RuleSave
        | Method::RuleDelete
        | Method::ProfileSave
        | Method::ProfileDelete
        | Method::ProcessStopExternal
        | Method::RunStop
        | Method::RunForceStop
        | Method::RunStopAllForExit
        | Method::DiagnosticsExport => Effect::Mutation,
        Method::ProfileList | Method::ProfilePreview => Effect::TracedRead,
        _ => Effect::Read,
    }
}

/// What a part says of a request that it does not understand.
pub open spec fn contract_message(dispatcher: Dispatcher) -> Seq<char> {
    match dispatcher {
        Dispatcher::Catalog => "catalog request does not match the registered method contract"@,
        Dispatcher::Profile => {
            "profile request parameters do not match the registered method contract"@
        },
        Dispatcher::Stop => {
            "process control request does not match the registered method contract"@
        },
        Dispatcher::Exit => "managed exit request does not match the registered method contract"@,
        Dispatcher::History => "run history request does not match the registered method contract"@,
        Dispatcher::Log => "managed log request does not match the registered method contract"@,
        Dispatcher::Diagnostics => {
            "diagnostics request does not match the registered method contract"@
        },
        Dispatcher::Enrichment => {
            "process enrichment request does not match the registered method contract"@
        },
    }
}

/// What a part says of a read that names an operation.
pub open spec fn read_reason(dispatcher: Dispatcher) -> Seq<char> {
    match dispatcher {
        Dispatcher::Catalog => "must be null for catalog reads"@,
        Dispatcher::Stop => "must be absent for process.get_details"@,
        Dispatcher::Exit => "must be absent for system.get_exit_impact"@,
        Dispatcher::History => "must be null for run.get_history"@,
        Dispatcher::Log => "must be null for run.get_log_range"@,
        Dispatcher::Diagnostics => "must be null for diagnostics.get_manifest"@,
        _ => "must be null for process.request_enrichment"@,
    }
}

/// What a part says of a change that names no operation.
pub open spec fn mutation_reason(dispatcher: Dispatcher) -> Seq<char> {
    match dispatcher {
        Dispatcher::Catalog => "is required for catalog mutations"@,
        Dispatcher::Profile => "is required"@,
        Dispatcher::Stop => "is required for process control mutations"@,
        Dispatcher::Exit => "is required for run.stop_all_for_exit"@,
        _ => "is required for diagnostics.export"@,
    }
}

/// What a part says of parameters that it cannot read.
pub open spec fn params_reason(dispatcher: Dispatcher) -> Seq<char> {
    match dispatcher {
        Dispatcher::Profile => "must contain exactly the fields required by this method"@,
        Dispatcher::History => "must contain exactly the fields required by run.get_history"@,
        Dispatcher::Log => "must contain exactly the fields required by run.get_log_range"@,
        Dispatcher::Diagnostics => {
            "must contain exactly the fields required by the diagnostics method"@
        },
        Dispatcher::Enrichment => {
            "must contain exactly the fields required by process.request_enrichment"@
        },
        _ => "must contain exactly the fields required by the registered method"@,
    }
}

/// The refusal of a request that is not as its method asks.
pub open spec fn refusal(
    envelope: RequestEnvelope,
    message: Seq<char>,
    field: Seq<char>,
    reason: Seq<char>,
) -> ErrorView {
    ErrorView {
        operation_id: optional_text(envelope.operation_id),
        ..plain_error(ErrorCode::InvalidArgument, message)
    }.with("field"@, field).with("method"@, envelope.method_name@).with("reason"@, reason)
}

/// Refuses a request that is not as its method asks.
pub fn invalid_request(envelope: &RequestEnvelope, message: &str, field: &str, reason: &str) -> (error:
    AppError)
    ensures
        error@ == refusal(*envelope, message@, field@, reason@),
{
    let error = AppError::new(ErrorCode::InvalidArgument, message).with_detail(
        "field",
        field,
    ).with_detail("method", envelope.method_name.as_str()).with_detail("reason", reason);
    match &envelope.operation_id {
        Some(operation_id) => error.bind_operation_id(operation_id.as_str()),
        None => error,
    }
}

fn contract_text(dispatcher: Dispatcher) -> (text: &'static str)
    ensures
        text@ == contract_message(dispatcher),
{
    match dispatcher {
        Dispatcher::Catalog => "catalog request does not match the registered method contract",
        Dispatcher::Profile => {
            "profile request parameters do not match the registered method contract"
        },
        Dispatcher::Stop => "process control request does not match the registered method contract",
        Dispatcher::Exit => "managed exit request does not match the registered method contract",
        Dispatcher::History => "run history request does not match the registered method contract",
        Dispatcher::Log => "managed log request does not match the registered method contract",
        Dispatcher::Diagnostics => {
            "diagnostics request does not match the registered method contract"
        },
        Dispatcher::Enrichment => {
            "process enrichment request does not match the registered method contract"
        },
    }
}

/// What a part does with a request.
#[derive(Debug)]
pub enum Route {
    /// It is for another part.
    NotHandled,
    /// Carry it out, for the operation that it names.
    Handle(Option<String>),
}

/// The refusal of a change that names no operation.
pub open spec fn missing_operation(dispatcher: Dispatcher, envelope: RequestEnvelope) -> ErrorView {
    refusal(
        envelope,
        if dispatcher == Dispatcher::Profile {
            "profile mutation requires an operation ID"@
        } else {
            contract_message(dispatcher)
        },
        "operationId"@,
        mutation_reason(dispatcher),
    )
}

/// The refusal of a read that names an operation.
pub open spec fn unwanted_operation(dispatcher: Dispatcher, envelope: RequestEnvelope) -> ErrorView {
    refusal(envelope, contract_message(dispatcher), "operationId"@, read_reason(dispatcher))
}

fn require_read_operation(dispatcher: Dispatcher, envelope: &RequestEnvelope) -> (result: Result<
    (),
    AppError,
>)
    requires
        dispatcher != Dispatcher::Profile,
    ensures
        match result {
            Ok(_) => envelope.operation_id is None,
            Err(error) => envelope.operation_id is Some && error@ == unwanted_operation(
                dispatcher,
                *envelope,
            ),
        },
{
    if envelope.operation_id.is_none() {
        return Ok(());
    }
    let reason = match dispatcher {
        Dispatcher::Catalog => "must be null for catalog reads",
        Dispatcher::Stop => "must be absent for process.get_details",
        Dispatcher::Exit => "must be absent for system.get_exit_impact",
        Dispatcher::History => "must be null for run.get_history",
        Dispatcher::Log => "must be null for run.get_log_range",
        Dispatcher::Diagnostics => "must be null for diagnostics.get_manifest",
        _ => "must be null for process.request_enrichment",
    };
    Err(invalid_request(envelope, contract_text(dispatcher), "operationId", reason))
}

fn require_mutation_operation(dispatcher: Dispatcher, envelope: &RequestEnvelope) -> (result:
    Result<String, AppError>)
    ensures
        match result {
            Ok(operation_id) => envelope.operation_id == Some(operation_id),
            Err(error) => envelope.operation_id is None && error@ == missing_operation(
                dispatcher,
                *envelope,
            ),
        },
{
    if let Some(operation_id) = &envelope.operation_id {
        return Ok(operation_id.clone());
    }
    let reason = match dispatcher {
        Dispatcher::Catalog => "is required for catalog mutations",
        Dispatcher::Profile => "is required",
        Dispatcher::Stop => "is required for process control mutations",
        Dispatcher::Exit => "is required for run.stop_all_for_exit",
        _ => "is required for diagnostics.export",
    };
    let message = if dispatcher == Dispatcher::Profile {
        "profile mutation requires an operation ID"
    } else {
        contract_text(dispatcher)
    };
    Err(invalid_request(envelope, message, "operationId", reason))
}

/// Takes a request, or leaves it to another part. A change must name an
/// operation, and a read may not, but for those of profiles.
pub fn dispatch(dispatcher: Dispatcher, envelope: &RequestEnvelope) -> (result: Result<
    Route,
    AppError,
>)
    ensures
        if dispatcher_of(envelope.method) != Some(dispatcher) {
            result is Ok && result->Ok_0 is NotHandled
        } else if effect_of(envelope.method) == Effect::Mutation && envelope.operation_id is None {
            result is Err && result->Err_0@ == missing_operation(dispatcher, *envelope)
        } else if effect_of(envelope.method) == Effect::Read && envelope.operation_id is Some {
            result is Err && result->Err_0@ == unwanted_operation(dispatcher, *envelope)
        } else {
            result is Ok && result->Ok_0 == Route::Handle(envelope.operation_id)
        },
{
    if !takes(dispatcher, envelope.method) {
        return Ok(Route::NotHandled);
    }
    match effect(envelope.method) {
        Effect::Read => match require_read_operation(dispatcher, envelope) {
            Ok(_) => Ok(Route::Handle(None)),
            Err(error) => Err(error),
        },
        Effect::Mutation => match require_mutation_operation(dispatcher, envelope) {
            Ok(operation_id) => Ok(Route::Handle(Some(operation_id))),
            Err(error) => Err(error),
        },
        Effect::TracedRead => Ok(Route::Handle(crate::text::copy_optional(&envelope.operation_id))),
    }
}

/// Parameters that could not be read are refused.
pub fn decode_params<T>(
    dispatcher: Dispatcher,
    envelope: &RequestEnvelope,
    params: Option<T>,
) -> (result: Result<T, AppError>)
    ensures
        match params {
            Some(params) => result == Ok::<T, AppError>(params),
            None => result is Err && result->Err_0@ == refusal(
                *envelope,
                contract_message(dispatcher),
                "params"@,
                params_reason(dispatcher),
            ),
        },
{
    if let Some(params) = params {
        return Ok(params);
    }
    let reason = match dispatcher {
        Dispatcher::Profile => "must contain exactly the fields required by this method",
        Dispatcher::History => "must contain exactly the fields required by run.get_history",
        Dispatcher::Log => "must contain exactly the fields required by run.get_log_range",
        Dispatcher::Diagnostics => {
            "must contain exactly the fields required by the diagnostics method"
        },
        Dispatcher::Enrichment => {
            "must contain exactly the fields required by process.request_enrichment"
        },
        _ => "must contain exactly the fields required by the registered method",
    };
    Err(invalid_request(envelope, contract_text(dispatcher), "params", reason))
}

/// The answer to a request: what failed says for which operation, unless it
/// says so already.
pub fn answer<T>(result: Result<T, AppError>, operation_id: &Option<String>) -> (answered: Result<
    T,
    AppError,
>)
    ensures
        match result {
            Ok(value) => answered == Ok::<T, AppError>(value),
            Err(error) => answered is Err && answered->Err_0@ == match *operation_id {
                Some(operation_id) => error@.of_operation(operation_id@),
                None => error@,
            },
        },
{
    match (result, operation_id) {
        (Err(error), Some(operation_id)) => Err(error.attach_operation_id(operation_id.as_str())),
        (result, _) => result,
    }
}

/// Every method is taken by one part and no other, and a name that is none of
/// them by no part.
pub proof fn lemma_one_part_takes_a_method(method: Method, first: Dispatcher, second: Dispatcher)
    ensures
        dispatcher_of(method) is None <==> method == Method::Unlisted,
        dispatcher_of(method) == Some(first) && dispatcher_of(method) == Some(second) ==> first
            == second,
{
}

/// No change is carried out without an operation by which it is known again.
pub proof fn lemma_change_names_operation(
    dispatcher: Dispatcher,
    envelope: RequestEnvelope,
    result: Result<Route, AppError>,
)
    requires
        call_ensures(dispatch, (dispatcher, &envelope), result),
        effect_of(envelope.method) == Effect::Mutation,
        result is Ok,
        result->Ok_0 is Handle,
    ensures
        result->Ok_0->Handle_0 is Some,
{
}

} // verus!
