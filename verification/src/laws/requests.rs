//! What taking requests is for: every request goes to the one part that is there for it, a
//! change names its operation and a read names none, and everything that is asked of
//! processes is asked once.

use vstd::prelude::*;

use crate::enrichment::{
    after_enrichment_batch, batch_view, batched, decode_params, demands, enrichment_batches,
    has_exact_process_instance_key_shape, has_exact_request_shape, is_fatal, validate_request,
    visible_demands, visible_taken, DemandView, EnrichmentBatchRequest, EnrichmentBatchResult,
    EnrichmentDemand, EnrichmentRequest, EnrichmentResponse, JsonValue,
};
use crate::error::{AppError, ErrorCode};
use crate::rpc::{answer, dispatch, Dispatcher, Method, RequestEnvelope, Route};
use crate::run::{optional_key, KeyView, ProcessInstanceKey};

verus! {

/// A request is taken by the part that is there for it and passed over by every other:
/// projects and rules by the catalog, profiles by the profiles, processes and runs that
/// are to be stopped or shown by the stops, enrichment, exits, history, logs and
/// diagnostics each by its own.
pub proof fn lemma_request_goes_to_its_part(
    dispatcher: Dispatcher,
    envelope: RequestEnvelope,
    result: Result<Route, AppError>,
)
    requires
        call_ensures(dispatch, (dispatcher, &envelope), result),
    ensures
        ({
            let method = envelope.method;
            let taken = !(result is Ok && result->Ok_0 is NotHandled);
            &&& taken && dispatcher == Dispatcher::Catalog <==> dispatcher == Dispatcher::Catalog
                && (method == Method::ProjectList || method == Method::ProjectSave || method
                == Method::ProjectDelete || method == Method::RuleList || method
                == Method::RuleSave || method == Method::RuleDelete)
            &&& taken && dispatcher == Dispatcher::Profile <==> dispatcher == Dispatcher::Profile
                && (method == Method::ProfileList || method == Method::ProfileSave || method
                == Method::ProfileDelete || method == Method::ProfilePreview)
            &&& taken && dispatcher == Dispatcher::Stop <==> dispatcher == Dispatcher::Stop && (
            method == Method::ProcessGetDetails || method == Method::ProcessStopExternal || method
                == Method::RunStop || method == Method::RunForceStop)
            &&& taken && dispatcher == Dispatcher::Exit <==> dispatcher == Dispatcher::Exit && (
            method == Method::RunStopAllForExit || method == Method::SystemGetExitImpact)
            &&& taken && dispatcher == Dispatcher::History <==> dispatcher == Dispatcher::History
                && method == Method::RunGetHistory
            &&& taken && dispatcher == Dispatcher::Log <==> dispatcher == Dispatcher::Log && method
                == Method::RunGetLogRange
            &&& taken && dispatcher == Dispatcher::Diagnostics <==> dispatcher
                == Dispatcher::Diagnostics && (method == Method::DiagnosticsGetManifest || method
                == Method::DiagnosticsExport)
            &&& taken && dispatcher == Dispatcher::Enrichment <==> dispatcher
                == Dispatcher::Enrichment && method == Method::ProcessRequestEnrichment
        }),
{
}

/// A request that is taken is carried out under the operation that it names. What changes
/// something has to name one, what only reads must not; listing and previewing profiles
/// may.
pub proof fn lemma_change_names_its_operation(
    dispatcher: Dispatcher,
    envelope: RequestEnvelope,
    result: Result<Route, AppError>,
)
    requires
        call_ensures(dispatch, (dispatcher, &envelope), result),
        !(result is Ok && result->Ok_0 is NotHandled),
    ensures
        ({
            let method = envelope.method;
            let changes = method == Method::ProjectSave || method == Method::ProjectDelete || method
                == Method::RuleSave || method == Method::RuleDelete || method
                == Method::ProfileSave || method == Method::ProfileDelete || method
                == Method::ProcessStopExternal || method == Method::RunStop || method
                == Method::RunForceStop || method == Method::RunStopAllForExit || method
                == Method::DiagnosticsExport;
            let either = method == Method::ProfileList || method == Method::ProfilePreview;
            &&& changes ==> (result is Ok <==> envelope.operation_id is Some)
            &&& either ==> result is Ok
            &&& !changes && !either ==> (result is Ok <==> envelope.operation_id is None)
            &&& result is Ok ==> result->Ok_0 == Route::Handle(envelope.operation_id)
            &&& result matches Err(error) ==> error.code == ErrorCode::InvalidArgument
                && !error.retryable
        }),
{
    if let Err(error) = result {
        assert(error@.code == error.code && error@.retryable == error.retryable);
    }
}

/// Parameters are taken exactly where they can be read, and as they were read; an answer
/// goes out as it came, and a failure with the operation that met it first.
pub proof fn lemma_answer_goes_out_as_it_came<T>(
    dispatcher: Dispatcher,
    envelope: RequestEnvelope,
    params: Option<T>,
    decoded: Result<T, AppError>,
    result: Result<T, AppError>,
    operation_id: Option<String>,
    answered: Result<T, AppError>,
)
    requires
        call_ensures(crate::rpc::decode_params::<T>, (dispatcher, &envelope, params), decoded),
        call_ensures(answer::<T>, (result, &operation_id), answered),
    ensures
        decoded is Ok <==> params is Some,
        params matches Some(params) ==> decoded == Ok::<T, AppError>(params),
        decoded matches Err(error) ==> error.code == ErrorCode::InvalidArgument,
        answered is Ok <==> result is Ok,
        result is Ok ==> answered == result,
        result matches Err(error) ==> {
            &&& answered->Err_0.code == error.code && answered->Err_0.retryable == error.retryable
            &&& error.operation_id is Some ==> answered->Err_0@ == error@
            &&& error.operation_id is None && operation_id is Some
                ==> answered->Err_0.operation_id is Some && answered->Err_0.operation_id->0@
                == operation_id->0@
        },
{
    if let Err(error) = decoded {
        assert(error@.code == error.code);
    }
    if let Err(error) = result {
        assert(error@.code == error.code && error@.retryable == error.retryable);
        assert(error@.operation_id == crate::error::optional_text(error.operation_id));
        let told = answered->Err_0;
        assert(told@.code == told.code && told@.retryable == told.retryable);
        assert(told@.operation_id == crate::error::optional_text(told.operation_id));
    }
}

/// A request for more of some processes is taken only where it has exactly its fields: three
/// for each process, and two for the request.
pub proof fn lemma_only_an_exact_request_is_taken(
    envelope: RequestEnvelope,
    params: JsonValue,
    exact: bool,
    key_exact: bool,
    decoded: Option<EnrichmentRequest>,
    result: Result<EnrichmentRequest, AppError>,
)
    requires
        call_ensures(has_exact_request_shape, (&params,), exact),
        call_ensures(has_exact_process_instance_key_shape, (&params,), key_exact),
        call_ensures(decode_params, (&envelope, &params, decoded), result),
    ensures
        exact ==> params is Object && params->Object_0@.len() == 2,
        key_exact ==> params is Object && params->Object_0@.len() == 3,
        exact ==> exists|i: int|
            0 <= i < 2 && (#[trigger] params->Object_0@[i]).0@ == "visibleProcessInstanceKeys"@
                && params->Object_0@[i].1 is Array,
        result is Ok <==> exact && decoded is Some,
        result is Ok ==> Some(result->Ok_0) == decoded,
        result matches Err(error) ==> error.code == ErrorCode::InvalidArgument,
{
    if let Err(error) = result {
        assert(error@.code == error.code);
    }
    if exact {
        let fields = params->Object_0@;
        let i = choose|i: int|
            0 <= i < fields.len() && (#[trigger] fields[i]).0@ == "visibleProcessInstanceKeys"@;
        assert(crate::enrichment::field_is_exact(fields[i]));
    }
}

/// A request is carried out exactly where it names at most 64 processes, each of them well
/// and none of them twice, and the selected one well.
pub proof fn lemma_each_process_is_asked_for_once(
    envelope: RequestEnvelope,
    request: EnrichmentRequest,
    verdicts: Vec<Result<(), AppError>>,
    selected: Result<(), AppError>,
    result: Result<(), AppError>,
)
    requires
        verdicts@.len() == request.visible@.len(),
        call_ensures(validate_request, (&envelope, &request, &verdicts, &selected), result),
    ensures
        result is Ok <==> {
            &&& request.visible@.len() <= 64
            &&& forall|i: int| 0 <= i < verdicts@.len() ==> (#[trigger] verdicts@[i]) is Ok
            &&& forall|i: int, j: int|
                0 <= i < j < request.visible@.len() ==> (#[trigger] request.visible@[i])@ != (
                #[trigger] request.visible@[j])@
            &&& request.selected is Some ==> selected is Ok
        },
        result matches Err(error) ==> error.code == ErrorCode::InvalidArgument,
{
    let keys = request.visible@;
    if let Err(error) = result {
        assert(error@.code == error.code);
    } else {
        assert forall|i: int| 0 <= i < verdicts@.len() implies (#[trigger] verdicts@[i]) is Ok by {
            assert(crate::enrichment::key_is_good(keys, verdicts@, i));
        }
        assert forall|i: int, j: int| 0 <= i < j < keys.len() implies (#[trigger] keys[i])@ != (
        #[trigger] keys[j])@ by {
            assert(crate::enrichment::key_is_good(keys, verdicts@, j));
        }
    }
    if keys.len() <= 64 && (forall|i: int|
        0 <= i < verdicts@.len() ==> (#[trigger] verdicts@[i]) is Ok) && (forall|i: int, j: int|
        0 <= i < j < keys.len() ==> (#[trigger] keys[i])@ != (#[trigger] keys[j])@) {
        assert forall|i: int| 0 <= i < keys.len() implies #[trigger] crate::enrichment::key_is_good(
            keys,
            verdicts@,
            i,
        ) by {
            assert(verdicts@[i] is Ok);
        }
    }
}

proof fn lemma_visible_demands(
    keys: Seq<ProcessInstanceKey>,
    selected: Option<KeyView>,
    demand: DemandView,
)
    ensures
        visible_demands(keys, selected).contains(demand) <==> demand.demand
            == EnrichmentDemand::VisibleMetadata && selected != Some(demand.key) && exists|i: int|
            0 <= i < keys.len() && (#[trigger] keys[i])@ == demand.key,
    decreases keys.len(),
{
    if keys.len() > 0 {
        let before = keys.drop_last();
        let rest = visible_demands(before, selected);
        let last = DemandView { key: keys.last()@, demand: EnrichmentDemand::VisibleMetadata };
        lemma_visible_demands(before, selected, demand);
        let pushed = rest.push(last);
        assert(pushed[rest.len() as int] == last);
        if rest.contains(demand) {
            let k = rest.index_of(demand);
            assert(pushed[k] == demand);
        }
        if pushed.contains(demand) && demand != last {
            let k = pushed.index_of(demand);
            assert(rest[k] == demand);
        }
        if exists|i: int| 0 <= i < before.len() && (#[trigger] before[i])@ == demand.key {
            let i = choose|i: int| 0 <= i < before.len() && (#[trigger] before[i])@ == demand.key;
            assert(keys[i]@ == demand.key);
        }
        if exists|i: int| 0 <= i < keys.len() && (#[trigger] keys[i])@ == demand.key {
            let i = choose|i: int| 0 <= i < keys.len() && (#[trigger] keys[i])@ == demand.key;
            if i < before.len() {
                assert(before[i]@ == demand.key);
            }
        }
        if demand.key == keys.last()@ {
            assert(keys[keys.len() - 1]@ == demand.key);
        }
    }
}

proof fn lemma_batched(batches: Seq<Vec<EnrichmentBatchRequest>>, demand: DemandView)
    ensures
        batched(batches).contains(demand) <==> exists|b: int, i: int|
            0 <= b < batches.len() && 0 <= i < batches[b]@.len() && #[trigger] batches[b]@[i]@
                == demand,
    decreases batches.len(),
{
    if batches.len() > 0 {
        let before = batches.drop_last();
        let last = batch_view(batches.last()@);
        let all = batched(before) + last;
        lemma_batched(before, demand);
        if batched(before).contains(demand) {
            let k = batched(before).index_of(demand);
            assert(all[k] == demand);
            let (b, i) = choose|b: int, i: int|
                0 <= b < before.len() && 0 <= i < before[b]@.len() && #[trigger] before[b]@[i]@
                    == demand;
            assert(batches[b]@[i]@ == demand);
        }
        if all.contains(demand) && !batched(before).contains(demand) {
            let k = all.index_of(demand);
            if k < batched(before).len() {
                assert(batched(before)[k] == demand);
            } else {
                let i = k - batched(before).len();
                assert(last[i] == demand);
                assert(batches[batches.len() - 1]@[i]@ == demand);
            }
        }
        if exists|b: int, i: int|
            0 <= b < batches.len() && 0 <= i < batches[b]@.len() && #[trigger] batches[b]@[i]@
                == demand {
            let (b, i) = choose|b: int, i: int|
                0 <= b < batches.len() && 0 <= i < batches[b]@.len() && #[trigger] batches[b]@[i]@
                    == demand;
            if b < before.len() {
                assert(before[b]@[i]@ == demand);
            } else {
                assert(last[i] == demand);
                assert(all[batched(before).len() + i] == demand);
            }
        }
    }
}

/// Every process that was named is asked for in some batch, and no other is: the selected
/// one for its ports as well, each visible one for what is shown of it. No batch holds more
/// than 64, and the selected process comes first.
pub proof fn lemma_named_processes_are_asked_for(
    request: EnrichmentRequest,
    batches: Vec<Vec<EnrichmentBatchRequest>>,
    demand: DemandView,
)
    requires
        call_ensures(enrichment_batches, (&request,), batches),
    ensures
        (exists|b: int, i: int|
            0 <= b < batches@.len() && 0 <= i < batches@[b]@.len() && #[trigger] batches@[b]@[i]@
                == demand) <==> {
            ||| demand.demand == EnrichmentDemand::SelectedMetadataAndPorts && optional_key(
                request.selected,
            ) == Some(demand.key)
            ||| demand.demand == EnrichmentDemand::VisibleMetadata && optional_key(request.selected)
                != Some(demand.key) && exists|i: int|
                0 <= i < request.visible@.len() && (#[trigger] request.visible@[i])@ == demand.key
        },
        forall|b: int| 0 <= b < batches@.len() ==> 1 <= (#[trigger] batches@[b])@.len() <= 64,
{
    let selected = optional_key(request.selected);
    let visible = visible_demands(request.visible@, selected);
    lemma_batched(batches@, demand);
    lemma_visible_demands(request.visible@, selected, demand);
    if let Some(key) = selected {
        let first = DemandView { key, demand: EnrichmentDemand::SelectedMetadataAndPorts };
        let all = seq![first] + visible;
        assert(demands(request) == all);
        assert(all[0] == first);
        if visible.contains(demand) {
            let k = visible.index_of(demand);
            assert(all[k + 1] == demand);
        }
        if all.contains(demand) && demand != first {
            let k = all.index_of(demand);
            assert(visible[k - 1] == demand);
        }
    }
}

proof fn lemma_taken(results: Seq<EnrichmentBatchResult>, selected: Option<KeyView>)
    ensures
        visible_taken(results, selected) <= results.len(),
        (forall|i: int|
            0 <= i < results.len() ==> (#[trigger] results[i]).result is Err || selected == Some(
                results[i].instance_key@,
            )) ==> visible_taken(results, selected) == 0,
        (forall|i: int|
            0 <= i < results.len() ==> (#[trigger] results[i]).result is Ok && selected != Some(
                results[i].instance_key@,
            )) ==> visible_taken(results, selected) == results.len(),
    decreases results.len(),
{
    if results.len() > 0 {
        let before = results.drop_last();
        lemma_taken(before, selected);
        assert forall|i: int| 0 <= i < before.len() implies before[i] == #[trigger] results[i] by {}
        assert(results.last() == results[results.len() - 1]);
    }
}

/// A batch that met nothing worse than processes that are gone is counted: the selected
/// process is taken where it was taken in any batch, and the count of the others never
/// falls. Anything worse ends the request with it.
pub proof fn lemma_gone_process_ends_no_request(
    response: EnrichmentResponse,
    selected: Option<ProcessInstanceKey>,
    results: Vec<EnrichmentBatchResult>,
    result: Result<EnrichmentResponse, AppError>,
)
    requires
        response.visible_accepted + results@.len() <= u32::MAX,
        call_ensures(after_enrichment_batch, (response, &selected, results), result),
    ensures
        result is Ok <==> (forall|i: int|
            0 <= i < results@.len() ==> (#[trigger] results@[i]).result is Ok
                || results@[i].result->Err_0.code == ErrorCode::NotFound),
        result matches Ok(next) ==> {
            &&& next.selected_accepted <==> response.selected_accepted || exists|i: int|
                0 <= i < results@.len() && (#[trigger] results@[i]).result is Ok && optional_key(
                    selected,
                ) == Some(results@[i].instance_key@)
            &&& response.visible_accepted <= next.visible_accepted <= response.visible_accepted
                + results@.len()
            &&& (forall|i: int|
                0 <= i < results@.len() ==> (#[trigger] results@[i]).result is Err || optional_key(
                    selected,
                ) == Some(results@[i].instance_key@)) ==> next.visible_accepted
                == response.visible_accepted
            &&& (forall|i: int|
                0 <= i < results@.len() ==> (#[trigger] results@[i]).result is Ok && optional_key(
                    selected,
                ) != Some(results@[i].instance_key@)) ==> next.visible_accepted
                == response.visible_accepted + results@.len()
        },
{
    if result is Ok {
        assert forall|i: int| 0 <= i < results@.len() implies (#[trigger] results@[i]).result is Ok
            || results@[i].result->Err_0.code == ErrorCode::NotFound by {
            assert(!is_fatal(results@[i]));
        }
        lemma_taken(results@, optional_key(selected));
    } else {
        let i = choose|i: int| 0 <= i < results@.len() && is_fatal(#[trigger] results@[i]);
        assert(is_fatal(results@[i]));
    }
}

} // verus!
