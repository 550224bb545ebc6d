//! Requests to learn more of some processes: their shape, their limits, and
//! the batches in which they are handed on.

use vstd::prelude::*;

use crate::error::{AppError, ErrorCode, ErrorView};
use crate::rpc::{contract_message, invalid_request, refusal, Dispatcher, RequestEnvelope};
use crate::run::{is_key, optional_key, KeyView, ProcessInstanceKey};
use crate::text::{decimal, decimal_text, join, same_text};

verus! {

/// How many processes one batch may hold.
pub const MAX_ENRICHMENT_BATCH_SIZE: usize = 64;

/// A JSON value, as far as its shape matters: the fields of an object have
/// different names.
#[derive(Debug)]
pub enum JsonValue {
    Null,
    Scalar,
    Array(Vec<JsonValue>),
    Object(Vec<(String, JsonValue)>),
}

/// An object has a field.
pub open spec fn has_field(fields: Seq<(String, JsonValue)>, name: Seq<char>) -> bool {
    exists|i: int| 0 <= i < fields.len() && (#[trigger] fields[i]).0@ == name
}

/// A value names a process: with its three fields and no other.
pub open spec fn exact_key_shape(value: JsonValue) -> bool {
    match value {
        JsonValue::Object(fields) => {
            &&& fields@.len() == 3
            &&& has_field(fields@, "bootId"@)
            &&& has_field(fields@, "pid"@)
            &&& has_field(fields@, "nativeStartTime"@)
        },
        _ => false,
    }
}

/// A value is a list of processes.
pub open spec fn exact_list_shape(value: JsonValue) -> bool {
    match value {
        JsonValue::Array(items) => forall|i: int|
            0 <= i < items@.len() ==> exact_key_shape(#[trigger] items@[i]),
        _ => false,
    }
}

/// A value is a request to learn more: with its two fields and no other.
pub open spec fn exact_request_shape(value: JsonValue) -> bool {
    match value {
        JsonValue::Object(fields) => {
            &&& fields@.len() == 2
            &&& has_field(fields@, "visibleProcessInstanceKeys"@)
            &&& has_field(fields@, "selectedProcessInstanceKey"@)
            &&& forall|i: int|
                0 <= i < fields@.len() ==> field_is_exact(#[trigger] fields@[i])
        },
        _ => false,
    }
}

pub open spec fn field_is_exact(field: (String, JsonValue)) -> bool {
    &&& field.0@ == "visibleProcessInstanceKeys"@ ==> exact_list_shape(field.1)
    &&& field.0@ == "selectedProcessInstanceKey"@ ==> field.1 is Null || exact_key_shape(field.1)
}

fn contains_key(fields: &Vec<(String, JsonValue)>, name: &str) -> (found: bool)
    ensures
        found == has_field(fields@, name@),
{
    let mut i: usize = 0;
    while i < fields.len()
        invariant
            i <= fields@.len(),
            forall|k: int| 0 <= k < i ==> (#[trigger] fields@[k]).0@ != name@,
        decreases fields@.len() - i,
    {
        if same_text(fields[i].0.as_str(), name) {
            assert(fields@[i as int].0@ == name@);
            return true;
        }
        i += 1;
    }
    false
}

pub fn has_exact_process_instance_key_shape(value: &JsonValue) -> (exact: bool)
    ensures
        exact == exact_key_shape(*value),
{
    match value {
        JsonValue::Object(fields) => fields.len() == 3 && contains_key(fields, "bootId")
            && contains_key(fields, "pid") && contains_key(fields, "nativeStartTime"),
        _ => false,
    }
}

fn has_exact_list_shape(value: &JsonValue) -> (exact: bool)
    ensures
        exact == exact_list_shape(*value),
{
    let items = match value {
        JsonValue::Array(items) => items,
        _ => return false,
    };
    let mut i: usize = 0;
    while i < items.len()
        invariant
            i <= items@.len(),
            *value == JsonValue::Array(*items),
            forall|k: int| 0 <= k < i ==> exact_key_shape(#[trigger] items@[k]),
        decreases items@.len() - i,
    {
        if !has_exact_process_instance_key_shape(&items[i]) {
            assert(!exact_key_shape(value->Array_0@[i as int]));
            return false;
        }
        i += 1;
    }
    true
}

/// Whether a value has the shape of a request to learn more, before it is read
/// as one.
pub fn has_exact_request_shape(value: &JsonValue) -> (exact: bool)
    ensures
        exact == exact_request_shape(*value),
{
    let fields = match value {
        JsonValue::Object(fields) => fields,
        _ => return false,
    };
    if fields.len() != 2 || !contains_key(fields, "visibleProcessInstanceKeys") || !contains_key(
        fields,
        "selectedProcessInstanceKey",
    ) {
        return false;
    }
    let mut i: usize = 0;
    while i < fields.len()
        invariant
            i <= fields@.len(),
            *value == JsonValue::Object(*fields),
            fields@.len() == 2,
            has_field(fields@, "visibleProcessInstanceKeys"@),
            has_field(fields@, "selectedProcessInstanceKey"@),
            forall|k: int| 0 <= k < i ==> field_is_exact(#[trigger] fields@[k]),
        decreases fields@.len() - i,
    {
        let field = &fields[i];
        if same_text(field.0.as_str(), "visibleProcessInstanceKeys") && !has_exact_list_shape(
            &field.1,
        ) {
            assert(!field_is_exact(fields@[i as int]));
            return false;
        }
        if same_text(field.0.as_str(), "selectedProcessInstanceKey") {
            let null = match &field.1 {
                JsonValue::Null => true,
                _ => false,
            };
            if !null && !has_exact_process_instance_key_shape(&field.1) {
                assert(!field_is_exact(fields@[i as int]));
                return false;
            }
        }
        i += 1;
    }
    true
}

/// A request to learn more of the processes that are shown, and of the one that
/// is chosen.
#[derive(Debug)]
pub struct EnrichmentRequest {
    pub visible: Vec<ProcessInstanceKey>,
    pub selected: Option<ProcessInstanceKey>,
}

/// Reads a request to learn more, where its shape is exact.
pub fn decode_params(
    envelope: &RequestEnvelope,
    params: &JsonValue,
    decoded: Option<EnrichmentRequest>,
) -> (result: Result<EnrichmentRequest, AppError>)
    ensures
        if exact_request_shape(*params) && decoded is Some {
            result is Ok && result->Ok_0 == decoded->0
        } else {
            result is Err && result->Err_0@ == refusal(
                *envelope,
                contract_message(Dispatcher::Enrichment),
                "params"@,
                "must contain exactly the fields required by process.request_enrichment"@,
            )
        },
{
    let decoded = if has_exact_request_shape(params) {
        decoded
    } else {
        None
    };
    crate::rpc::decode_params(Dispatcher::Enrichment, envelope, decoded)
}

/// The reason that a refusal of a process gives.
pub open spec fn refusal_reason(error: AppError) -> Seq<char> {
    if error@.details.dom().contains("reason"@) {
        error@.details["reason"@]
    } else {
        "must be a complete canonical process identity"@
    }
}

fn validate_instance_key(
    envelope: &RequestEnvelope,
    verdict: &Result<(), AppError>,
    field: &str,
) -> (result: Result<(), AppError>)
    ensures
        match *verdict {
            Ok(_) => result is Ok,
            Err(error) => result is Err && result->Err_0@ == refusal(
                *envelope,
                contract_message(Dispatcher::Enrichment),
                field@,
                refusal_reason(error),
            ),
        },
{
    match verdict {
        Ok(_) => Ok(()),
        Err(error) => {
            let reason = match error.details.get("reason") {
                Some(reason) => reason,
                None => "must be a complete canonical process identity",
            };
            Err(
                invalid_request(
                    envelope,
                    "process enrichment request does not match the registered method contract",
                    field,
                    reason,
                ),
            )
        },
    }
}

/// A process stands among the first of a list.
pub open spec fn seen_before(keys: Seq<ProcessInstanceKey>, end: int, key: KeyView) -> bool {
    exists|k: int| 0 <= k < end && (#[trigger] keys[k])@ == key
}

/// The process at a place is in order: well formed, and there for the first
/// time.
pub open spec fn key_is_good(
    keys: Seq<ProcessInstanceKey>,
    verdicts: Seq<Result<(), AppError>>,
    i: int,
) -> bool {
    verdicts[i] is Ok && !seen_before(keys, i, keys[i]@)
}

/// The field that holds a process of a list.
pub open spec fn visible_field(i: nat) -> Seq<char> {
    "visibleProcessInstanceKeys["@ + decimal_text(i) + "]"@
}

/// What is wrong with the process at a place.
pub open spec fn key_refusal(
    envelope: RequestEnvelope,
    verdicts: Seq<Result<(), AppError>>,
    i: int,
) -> ErrorView {
    match verdicts[i] {
        Err(error) => refusal(
            envelope,
            contract_message(Dispatcher::Enrichment),
            visible_field(i as nat),
            refusal_reason(error),
        ),
        Ok(_) => refusal(
            envelope,
            contract_message(Dispatcher::Enrichment),
            "visibleProcessInstanceKeys"@,
            "must contain unique process identities"@,
        ),
    }
}

fn stands_before(keys: &Vec<ProcessInstanceKey>, end: usize, key: &ProcessInstanceKey) -> (found:
    bool)
    requires
        end <= keys@.len(),
    ensures
        found == seen_before(keys@, end as int, key@),
{
    let mut i: usize = 0;
    while i < end
        invariant
            i <= end <= keys@.len(),
            forall|k: int| 0 <= k < i ==> (#[trigger] keys@[k])@ != key@,
        decreases end - i,
    {
        if keys[i].same(key) {
            assert(keys@[i as int]@ == key@);
            return true;
        }
        i += 1;
    }
    false
}

/// Checks a request to learn more: not too many processes, each well formed
/// and none twice. The verdicts say of each process whether it is well formed;
/// what is wrong first is what is answered.
pub fn validate_request(
    envelope: &RequestEnvelope,
    request: &EnrichmentRequest,
    visible_verdicts: &Vec<Result<(), AppError>>,
    selected_verdict: &Result<(), AppError>,
) -> (result: Result<(), AppError>)
    requires
        visible_verdicts@.len() == request.visible@.len(),
    ensures
        if request.visible@.len() > MAX_ENRICHMENT_BATCH_SIZE {
            result is Err && result->Err_0@ == refusal(
                *envelope,
                contract_message(Dispatcher::Enrichment),
                "visibleProcessInstanceKeys"@,
                "must contain at most 64 process identities"@,
            )
        } else if forall|i: int|
            0 <= i < request.visible@.len() ==> #[trigger] key_is_good(
                request.visible@,
                visible_verdicts@,
                i,
            ) {
            if request.selected is Some && selected_verdict is Err {
                result is Err && result->Err_0@ == refusal(
                    *envelope,
                    contract_message(Dispatcher::Enrichment),
                    "selectedProcessInstanceKey"@,
                    refusal_reason(selected_verdict->Err_0),
                )
            } else {
                result is Ok
            }
        } else {
            exists|i: int|
                {
                    &&& 0 <= i < request.visible@.len()
                    &&& !#[trigger] key_is_good(request.visible@, visible_verdicts@, i)
                    &&& forall|k: int|
                        0 <= k < i ==> #[trigger] key_is_good(
                            request.visible@,
                            visible_verdicts@,
                            k,
                        )
                    &&& result is Err
                    &&& result->Err_0@ == key_refusal(*envelope, visible_verdicts@, i)
                }
        },
{
    let message = "process enrichment request does not match the registered method contract";
    if request.visible.len() > MAX_ENRICHMENT_BATCH_SIZE {
        return Err(
            invalid_request(
                envelope,
                message,
                "visibleProcessInstanceKeys",
                "must contain at most 64 process identities",
            ),
        );
    }
    let mut i: usize = 0;
    while i < request.visible.len()
        invariant
            i <= request.visible@.len() <= MAX_ENRICHMENT_BATCH_SIZE,
            visible_verdicts@.len() == request.visible@.len(),
            message@ == contract_message(Dispatcher::Enrichment),
            forall|k: int|
                0 <= k < i ==> #[trigger] key_is_good(request.visible@, visible_verdicts@, k),
        decreases request.visible@.len() - i,
    {
        let field = join(
            join("visibleProcessInstanceKeys[", decimal(i as u64).as_str()).as_str(),
            "]",
        );
        match validate_instance_key(envelope, &visible_verdicts[i], field.as_str()) {
            Ok(_) => {},
            Err(error) => {
                assert(!key_is_good(request.visible@, visible_verdicts@, i as int));
                return Err(error);
            },
        }
        if stands_before(&request.visible, i, &request.visible[i]) {
            assert(!key_is_good(request.visible@, visible_verdicts@, i as int));
            return Err(
                invalid_request(
                    envelope,
                    message,
                    "visibleProcessInstanceKeys",
                    "must contain unique process identities",
                ),
            );
        }
        assert(key_is_good(request.visible@, visible_verdicts@, i as int));
        i += 1;
    }
    if request.selected.is_some() {
        return validate_instance_key(envelope, selected_verdict, "selectedProcessInstanceKey");
    }
    Ok(())
}

/// How much is to be learnt of a process, and how soon.
#[derive(Clone, Copy, Debug, PartialEq, Eq, Structural)]
pub enum EnrichmentDemand {
    /// Of the chosen one: at once, with its ports.
    SelectedMetadataAndPorts,
    /// Of one that is shown.
    VisibleMetadata,
}

/// One process of a batch.
#[derive(Debug)]
pub struct EnrichmentBatchRequest {
    pub instance_key: ProcessInstanceKey,
    pub demand: EnrichmentDemand,
}

/// One process of a batch.
pub struct DemandView {
    pub key: KeyView,
    pub demand: EnrichmentDemand,
}

impl View for EnrichmentBatchRequest {
    type V = DemandView;

    open spec fn view(&self) -> DemandView {
        DemandView { key: self.instance_key@, demand: self.demand }
    }
}

/// The processes that are shown, but for the chosen one.
pub open spec fn visible_demands(
    keys: Seq<ProcessInstanceKey>,
    selected: Option<KeyView>,
) -> Seq<DemandView>
    decreases keys.len(),
{
    if keys.len() == 0 {
        Seq::empty()
    } else {
        let rest = visible_demands(keys.drop_last(), selected);
        if selected == Some(keys.last()@) {
            rest
        } else {
            rest.push(
                DemandView { key: keys.last()@, demand: EnrichmentDemand::VisibleMetadata },
            )
        }
    }
}

/// What a request asks for: the chosen process first, and each once.
pub open spec fn demands(request: EnrichmentRequest) -> Seq<DemandView> {
    let selected = optional_key(request.selected);
    let visible = visible_demands(request.visible@, selected);
    match selected {
        Some(key) => seq![
            DemandView { key, demand: EnrichmentDemand::SelectedMetadataAndPorts },
        ] + visible,
        None => visible,
    }
}

/// What the batches hold, one behind the other.
pub open spec fn batched(batches: Seq<Vec<EnrichmentBatchRequest>>) -> Seq<DemandView>
    decreases batches.len(),
{
    if batches.len() == 0 {
        Seq::empty()
    } else {
        batched(batches.drop_last()) + batch_view(batches.last()@)
    }
}

pub open spec fn batch_view(batch: Seq<EnrichmentBatchRequest>) -> Seq<DemandView> {
    Seq::new(batch.len(), |i: int| batch[i]@)
}

/// The batches are as few as can be: all but the last are full.
pub open spec fn batches_are_full(batches: Seq<Vec<EnrichmentBatchRequest>>) -> bool {
    forall|i: int|
        0 <= i < batches.len() ==> 1 <= (#[trigger] batches[i])@.len() <= MAX_ENRICHMENT_BATCH_SIZE
            && (i < batches.len() - 1 ==> batches[i]@.len() == MAX_ENRICHMENT_BATCH_SIZE)
}

fn add_to_batches(
    batches: &mut Vec<Vec<EnrichmentBatchRequest>>,
    batch: &mut Vec<EnrichmentBatchRequest>,
    request: EnrichmentBatchRequest,
)
    requires
        old(batch)@.len() < MAX_ENRICHMENT_BATCH_SIZE,
        forall|i: int|
            0 <= i < old(batches)@.len() ==> (#[trigger] old(batches)@[i])@.len()
                == MAX_ENRICHMENT_BATCH_SIZE,
    ensures
        final(batch)@.len() < MAX_ENRICHMENT_BATCH_SIZE,
        forall|i: int|
            0 <= i < final(batches)@.len() ==> (#[trigger] final(batches)@[i])@.len()
                == MAX_ENRICHMENT_BATCH_SIZE,
        batched(final(batches)@) + batch_view(final(batch)@) == (batched(old(batches)@)
            + batch_view(old(batch)@)).push(request@),
{
    let ghost before = batch_view(batch@);
    batch.push(request);
    assert(batch_view(batch@) =~= before.push(request@));
    if batch.len() == MAX_ENRICHMENT_BATCH_SIZE {
        let mut full: Vec<EnrichmentBatchRequest> = Vec::new();
        std::mem::swap(&mut full, batch);
        batches.push(full);
        proof {
            assert(batches@.drop_last() =~= old(batches)@);
            assert(batch_view(batch@) =~= Seq::<DemandView>::empty());
        }
    }
    assert(batched(batches@) + batch_view(batch@) =~= (batched(old(batches)@) + batch_view(
        old(batch)@,
    )).push(request@));
}

/// The batches in which a request is handed on.
pub fn enrichment_batches(request: &EnrichmentRequest) -> (batches: Vec<
    Vec<EnrichmentBatchRequest>,
>)
    ensures
        batched(batches@) == demands(*request),
        batches_are_full(batches@),
{
    let mut batches: Vec<Vec<EnrichmentBatchRequest>> = Vec::new();
    let mut batch: Vec<EnrichmentBatchRequest> = Vec::new();
    let ghost selected = optional_key(request.selected);
    let ghost mut first: Seq<DemandView> = Seq::empty();
    assert(batched(batches@) + batch_view(batch@) =~= first);
    if let Some(key) = &request.selected {
        proof {
            first = seq![
                DemandView { key: key@, demand: EnrichmentDemand::SelectedMetadataAndPorts },
            ];
        }
        add_to_batches(
            &mut batches,
            &mut batch,
            EnrichmentBatchRequest {
                instance_key: key.copy(),
                demand: EnrichmentDemand::SelectedMetadataAndPorts,
            },
        );
        assert(batched(batches@) + batch_view(batch@) =~= first);
    }
    let mut i: usize = 0;
    assert(first + visible_demands(request.visible@.subrange(0, 0), selected) =~= first);
    while i < request.visible.len()
        invariant
            i <= request.visible@.len(),
            selected == optional_key(request.selected),
            batch@.len() < MAX_ENRICHMENT_BATCH_SIZE,
            forall|k: int|
                0 <= k < batches@.len() ==> (#[trigger] batches@[k])@.len()
                    == MAX_ENRICHMENT_BATCH_SIZE,
            batched(batches@) + batch_view(batch@) == first + visible_demands(
                request.visible@.subrange(0, i as int),
                selected,
            ),
        decreases request.visible@.len() - i,
    {
        let key = &request.visible[i];
        let ghost shorter = request.visible@.subrange(0, i as int);
        let ghost longer = request.visible@.subrange(0, i + 1);
        assert(longer.drop_last() =~= shorter);
        if !is_key(&request.selected, key) {
            add_to_batches(
                &mut batches,
                &mut batch,
                EnrichmentBatchRequest {
                    instance_key: key.copy(),
                    demand: EnrichmentDemand::VisibleMetadata,
                },
            );
            assert(batched(batches@) + batch_view(batch@) =~= first + visible_demands(
                longer,
                selected,
            ));
        }
        i += 1;
    }
    assert(request.visible@.subrange(0, request.visible@.len() as int) =~= request.visible@);
    let ghost whole = batches@;
    let ghost rest = batch_view(batch@);
    assert(demands(*request) =~= first + visible_demands(request.visible@, selected));
    if batch.len() > 0 {
        batches.push(batch);
        assert(batches@.drop_last() =~= whole);
    } else {
        assert(batched(whole) + rest =~= batched(whole));
    }
    batches
}

/// How many processes were taken on.
#[derive(Clone, Copy, Debug, PartialEq, Eq, Structural)]
pub struct EnrichmentResponse {
    pub visible_accepted: u32,
    pub selected_accepted: bool,
}

/// The answer for one process of a batch.
#[derive(Debug)]
pub struct EnrichmentBatchResult {
    pub instance_key: ProcessInstanceKey,
    pub result: Result<(), AppError>,
}

/// An answer that ends the request: it failed for another reason than that the
/// process is gone.
pub open spec fn is_fatal(result: EnrichmentBatchResult) -> bool {
    result.result is Err && result.result->Err_0.code != ErrorCode::NotFound
}

/// The chosen process was taken on.
pub open spec fn takes_selected(
    results: Seq<EnrichmentBatchResult>,
    selected: Option<KeyView>,
) -> bool {
    exists|i: int|
        0 <= i < results.len() && (#[trigger] results[i]).result is Ok && selected == Some(
            results[i].instance_key@,
        )
}

/// How many other processes were taken on.
pub open spec fn visible_taken(
    results: Seq<EnrichmentBatchResult>,
    selected: Option<KeyView>,
) -> nat
    decreases results.len(),
{
    if results.len() == 0 {
        0
    } else {
        let last = results.last();
        visible_taken(results.drop_last(), selected) + (if last.result is Ok && selected != Some(
            last.instance_key@,
        ) {
            1nat
        } else {
            0
        })
    }
}

proof fn lemma_visible_taken(results: Seq<EnrichmentBatchResult>, selected: Option<KeyView>)
    ensures
        visible_taken(results, selected) <= results.len(),
    decreases results.len(),
{
    if results.len() > 0 {
        lemma_visible_taken(results.drop_last(), selected);
    }
}

/// Takes the answers for a batch in. A process that is gone is passed over; the
/// first other failure is the answer to the whole request.
pub fn after_enrichment_batch(
    response: EnrichmentResponse,
    selected: &Option<ProcessInstanceKey>,
    results: Vec<EnrichmentBatchResult>,
) -> (answer: Result<EnrichmentResponse, AppError>)
    requires
        response.visible_accepted + results@.len() <= u32::MAX,
    ensures
        match answer {
            Ok(next) => {
                &&& forall|i: int| 0 <= i < results@.len() ==> !is_fatal(#[trigger] results@[i])
                &&& next.visible_accepted == response.visible_accepted + visible_taken(
                    results@,
                    optional_key(*selected),
                )
                &&& next.selected_accepted == (response.selected_accepted || takes_selected(
                    results@,
                    optional_key(*selected),
                ))
            },
            Err(error) => exists|i: int|
                {
                    &&& 0 <= i < results@.len()
                    &&& is_fatal(#[trigger] results@[i])
                    &&& forall|k: int| 0 <= k < i ==> !is_fatal(#[trigger] results@[k])
                    &&& error@ == results@[i].result->Err_0@
                },
        },
{
    let ghost chosen = optional_key(*selected);
    let mut next = response;
    let mut i: usize = 0;
    while i < results.len()
        invariant
            i <= results@.len(),
            response.visible_accepted + results@.len() <= u32::MAX,
            chosen == optional_key(*selected),
            forall|k: int| 0 <= k < i ==> !is_fatal(#[trigger] results@[k]),
            next.visible_accepted == response.visible_accepted + visible_taken(
                results@.subrange(0, i as int),
                chosen,
            ),
            next.selected_accepted == (response.selected_accepted || takes_selected(
                results@.subrange(0, i as int),
                chosen,
            )),
        decreases results@.len() - i,
    {
        let ghost shorter = results@.subrange(0, i as int);
        let ghost longer = results@.subrange(0, i + 1);
        proof {
            assert(longer.drop_last() =~= shorter);
            lemma_visible_taken(shorter, chosen);
            assert(longer.last() == results@[i as int]);
            if takes_selected(shorter, chosen) {
                let k = choose|k: int|
                    0 <= k < shorter.len() && (#[trigger] shorter[k]).result is Ok && chosen
                        == Some(shorter[k].instance_key@);
                assert(longer[k] == shorter[k]);
            }
            if takes_selected(longer, chosen) && !takes_selected(shorter, chosen) {
                let k = choose|k: int|
                    0 <= k < longer.len() && (#[trigger] longer[k]).result is Ok && chosen == Some(
                        longer[k].instance_key@,
                    );
                if k < i {
                    assert(shorter[k] == longer[k]);
                }
            }
        }
        let result = &results[i];
        match &result.result {
            Ok(_) => {
                if is_key(selected, &result.instance_key) {
                    assert(longer[i as int] == results@[i as int]);
                    next.selected_accepted = true;
                } else {
                    next.visible_accepted = next.visible_accepted + 1;
                }
            },
            Err(error) => {
                if error.code != ErrorCode::NotFound {
                    assert(is_fatal(results@[i as int]));
                    return Err(error.copy());
                }
            },
        }
        i += 1;
    }
    assert(results@.subrange(0, results@.len() as int) =~= results@);
    Ok(next)
}

/// A process is asked for once: the chosen one is not asked for again among
/// those that are shown.
pub proof fn lemma_selected_is_asked_once(
    keys: Seq<ProcessInstanceKey>,
    selected: KeyView,
    i: int,
)
    requires
        0 <= i < visible_demands(keys, Some(selected)).len(),
    ensures
        visible_demands(keys, Some(selected))[i].key != selected,
    decreases keys.len(),
{
    let rest = visible_demands(keys.drop_last(), Some(selected));
    if i < rest.len() {
        lemma_selected_is_asked_once(keys.drop_last(), selected, i);
    }
}

} // verus!
