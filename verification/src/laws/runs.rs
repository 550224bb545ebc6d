//! What is known of runs and processes: a run is shown as it is stored, a process is under
//! the control of one run at most, and new things get names that nothing has.

use vstd::prelude::*;

use crate::details::{
    claims, is_live_run, live_run, managed_run_id, resolve_process_details, DetailsReplies,
    GetProcessDetailsResponse, ProcessControl,
};
use crate::error::{optional_text, AppError, ErrorCode};
use crate::ids::{after_id_lookup, id_from_bytes, CatalogEntity, IdStep};
use crate::keys::{
    compare_optional_process_keys, compare_port_bindings, compare_process_keys, AddressFamily,
    PortBindingKey, PortProtocol,
};
use crate::run::{
    cleanup_pending_count, control_instance_key, control_log_range_reader, count_where,
    managed_instance_key, optional_key, persisted_platform_control_is_valid,
    platform_control_matches_record, platform_control_matches_summary,
    projected_managed_run_summary, projected_running_result, running_count,
    stop_summary_matches_record, summary_process_group_id, Controls, ManagedProcess,
    ManagedRunRecord, ManagedRunSummary, Platform, ProcessInstanceKey, RunControl, RunState,
};
use crate::text::{lemma_text_order_is_total, text_before};

verus! {

/// A run is shown as it is stored: under its identifier and its profile's, with its
/// process, its times and its state; and what is shown so is known again as the run's. A
/// run that runs is shown as running and without an end, at the time that was given.
pub proof fn lemma_run_is_shown_as_it_is_stored(
    platform: Platform,
    record: ManagedRunRecord,
    shown: Result<ManagedRunSummary, AppError>,
    updated_at: &str,
    running: Result<ManagedRunSummary, AppError>,
    known: bool,
    group: Result<Option<u32>, AppError>,
)
    requires
        call_ensures(projected_managed_run_summary, (platform, &record), shown),
        call_ensures(projected_running_result, (platform, &record, updated_at), running),
        call_ensures(summary_process_group_id, (platform, record.process_group_id), group),
        shown is Ok ==> call_ensures(stop_summary_matches_record, (&shown->Ok_0, &record), known),
    ensures
        shown is Ok <==> (platform == Platform::MacOs <==> record.process_group_id is Some),
        group is Ok <==> shown is Ok,
        group is Ok ==> group->Ok_0 == record.process_group_id,
        running is Ok <==> shown is Ok && record.profile_id is Some,
        shown matches Ok(run) ==> {
            &&& run.run_id@ == record.id@ && run.profile_id@ == record.profile_snapshot.id@
            &&& run.profile_updated_at@ == record.profile_snapshot.updated_at@
            &&& run.state == record.state && run.process_group_id == record.process_group_id
            &&& optional_key(run.process_instance_key) == optional_key(record.process_instance_key)
            &&& run.started_at@ == record.started_at@ && run.updated_at@ == record.updated_at@
            &&& optional_text(run.ended_at) == optional_text(record.ended_at)
            &&& known
        },
        running matches Ok(run) ==> {
            &&& run.run_id@ == record.id@ && run.profile_id@ == record.profile_id->0@
            &&& run.state == RunState::Running && run.ended_at is None
            &&& run.updated_at@ == updated_at@ && run.started_at@ == record.started_at@
            &&& optional_key(run.process_instance_key) == optional_key(record.process_instance_key)
        },
        shown matches Err(error) ==> error.code == ErrorCode::Internal,
        running matches Err(error) ==> error.code == ErrorCode::Internal,
{
    if let Err(error) = shown {
        assert(error@.code == error.code);
    }
    if let Err(error) = running {
        assert(error@.code == error.code);
    }
}

/// A summary that differs from the stored run in any one thing is not taken for it.
pub proof fn lemma_other_summary_is_not_taken_for_the_run(
    summary: ManagedRunSummary,
    record: ManagedRunRecord,
    known: bool,
)
    requires
        call_ensures(stop_summary_matches_record, (&summary, &record), known),
    ensures
        known ==> summary.run_id@ == record.id@,
        known ==> summary.state == record.state,
        known ==> summary.profile_id@ == record.profile_snapshot.id@,
        known ==> summary.updated_at@ == record.updated_at@,
        known ==> summary.started_at@ == record.started_at@,
        known ==> optional_text(summary.ended_at) == optional_text(record.ended_at),
        known ==> optional_key(summary.process_instance_key) == optional_key(
            record.process_instance_key,
        ),
        known ==> summary.process_group_id == record.process_group_id,
        known ==> summary.profile_updated_at@ == record.profile_snapshot.updated_at@,
{
}

/// A held process fits what is stored exactly where it is the same process and, on macOS,
/// in the same group; on Windows no group is stored. A stored group is the process's own.
pub proof fn lemma_held_process_fits_what_is_stored(
    platform: Platform,
    process: ManagedProcess,
    record: ManagedRunRecord,
    summary: ManagedRunSummary,
    fits_record: bool,
    fits_summary: bool,
    key: ProcessInstanceKey,
    group: Option<u32>,
    valid: bool,
)
    requires
        call_ensures(platform_control_matches_record, (platform, &process, &record), fits_record),
        call_ensures(
            platform_control_matches_summary,
            (platform, &process, &summary),
            fits_summary,
        ),
        call_ensures(persisted_platform_control_is_valid, (platform, &key, group), valid),
    ensures
        platform == Platform::MacOs ==> (fits_record <==> optional_key(record.process_instance_key)
            == Some(process.instance_key@) && record.process_group_id == Some(
            process.process_group_id,
        )),
        platform == Platform::Windows ==> (fits_record <==> optional_key(
            record.process_instance_key,
        ) == Some(process.instance_key@) && record.process_group_id is None),
        platform == Platform::MacOs ==> (fits_summary <==> optional_key(
            summary.process_instance_key,
        ) == Some(process.instance_key@) && summary.process_group_id == Some(
            process.process_group_id,
        )),
        platform == Platform::Windows ==> (fits_summary <==> optional_key(
            summary.process_instance_key,
        ) == Some(process.instance_key@) && summary.process_group_id is None),
        platform == Platform::MacOs ==> (valid <==> group == Some(key.pid)),
        platform == Platform::Windows ==> (valid <==> group is None),
{
}

/// The process of a run is told exactly where the run owns one that runs: while it runs, is
/// stopped or is quarantined. Its log is read through the control then, and at no other
/// time.
pub proof fn lemma_owned_process_is_told(
    controls: Controls,
    run_id: &str,
    key: Option<ProcessInstanceKey>,
    control: RunControl,
    reader: Option<u64>,
    own: Option<&ProcessInstanceKey>,
)
    requires
        controls.wf(),
        call_ensures(managed_instance_key, (&controls, run_id), key),
        call_ensures(control_log_range_reader, (&control,), reader),
        call_ensures(control_instance_key, (&control,), own),
    ensures
        key is Some <==> controls@.dom().contains(run_id@) && (controls@[run_id@] is Running
            || controls@[run_id@] is Stopping || controls@[run_id@] is Quarantined),
        (controls@[run_id@] matches RunControl::Running(process) ==> (key is Some ==> key->0@
            == process.instance_key@)),
        (controls@[run_id@] matches RunControl::Stopping(stop) ==> (key is Some ==> key->0@
            == stop.process.instance_key@)),
        reader is Some ==> control is Running || control is Stopping || control is Quarantined,
        control matches RunControl::Running(process) ==> reader == process.log_reader,
        control matches RunControl::Stopping(stop) ==> reader == stop.process.log_reader,
        control matches RunControl::Quarantined(process) ==> reader == process.log_reader,
        own is None <==> control is StartingIntent || (control matches RunControl::CleanupPending(
            pending,
        ) && pending.process_instance_key is None),
        control matches RunControl::Suspended(process) ==> own->0@ == process.instance_key@,
        control matches RunControl::RunningUncommitted(process) ==> own->0@
            == process.instance_key@,
{
}

/// No run is counted as running exactly where none owns a running process, and none as
/// waiting to be cleaned up exactly where none does.
pub proof fn lemma_nothing_is_counted_where_nothing_is(
    controls: Controls,
    running: usize,
    pending: usize,
    name: Seq<char>,
)
    requires
        controls.wf(),
        controls@.dom().finite(),
        call_ensures(running_count, (&controls,), running),
        call_ensures(cleanup_pending_count, (&controls,), pending),
    ensures
        controls@.dom().contains(name) && (controls@[name] is Running || controls@[name] is Stopping
            || controls@[name] is Quarantined) ==> running > 0,
        controls@.dom().contains(name) && controls@[name] is CleanupPending ==> pending > 0,
        running + pending <= controls@.dom().len(),
{
    let owned = |control: RunControl| control.owns_running_process();
    let waiting = |control: RunControl| control is CleanupPending;
    let owners = controls@.dom().filter(|n: Seq<char>| owned(controls@[n]));
    let waiters = controls@.dom().filter(|n: Seq<char>| waiting(controls@[n]));
    assert(running == count_where(controls@, owned));
    assert(pending == count_where(controls@, waiting));
    vstd::set_lib::lemma_set_subset_finite(controls@.dom(), owners);
    vstd::set_lib::lemma_set_subset_finite(controls@.dom(), waiters);
    assert(owners.disjoint(waiters));
    vstd::set_lib::lemma_set_disjoint_lens(owners, waiters);
    let both = owners + waiters;
    assert(both.subset_of(controls@.dom()));
    vstd::set_lib::lemma_len_subset(both, controls@.dom());
    if owners.contains(name) && owners.len() == 0 {
        assert(owners =~= Set::empty());
    }
    if waiters.contains(name) && waiters.len() == 0 {
        assert(waiters =~= Set::empty());
    }
}

/// The run of a process is told exactly where one run holds it: where none does there is
/// none, and two that hold one process are a conflict.
pub proof fn lemma_process_belongs_to_one_run(
    controls: Controls,
    key: ProcessInstanceKey,
    result: Result<Option<String>, AppError>,
    first: Seq<char>,
    second: Seq<char>,
)
    requires
        controls.wf(),
        call_ensures(live_run, (&controls, &key), result),
    ensures
        claims(controls@, first, key@) && claims(controls@, second, key@) && first != second
            ==> result is Err && result->Err_0.code == ErrorCode::Conflict,
        claims(controls@, first, key@) && result is Ok ==> result->Ok_0 is Some
            && result->Ok_0->0@ == first,
        result is Ok && result->Ok_0 is Some ==> controls@.dom().contains(result->Ok_0->0@)
            && controls@[result->Ok_0->0@].key() == Some(key@),
{
    assert(is_live_run(controls@, key@, result));
    if let Err(error) = result {
        assert(error@.code == error.code);
    }
}

/// A process is shown as managed exactly where it is stored for a run and no other run
/// holds it, and as somebody else's exactly where no run holds it and none is stored for
/// it. What is held and stored in different ways is a conflict, and never shown.
pub proof fn lemma_process_is_shown_under_its_run(
    platform: Platform,
    key: ProcessInstanceKey,
    live: Option<&str>,
    durable: Option<&ManagedRunRecord>,
    replies: DetailsReplies,
    result: Result<GetProcessDetailsResponse, AppError>,
    run_id: Option<String>,
)
    requires
        call_ensures(resolve_process_details, (platform, &key, live, durable, replies), result),
        result is Ok ==> call_ensures(managed_run_id, (result->Ok_0.control,), run_id),
    ensures
        result matches Ok(response) ==> {
            &&& response.process_instance_key == key
            &&& response.control is External <==> live is None && durable is None
            &&& response.control is Managed <==> durable is Some
            &&& response.control matches ProcessControl::Managed { run, active_stop } ==> {
                &&& run.run_id@ == durable->0.id@ && run.state == durable->0.state
                &&& live is Some ==> live->0@ == run.run_id@
                &&& Ok::<Option<crate::run::StopOperation>, AppError>(active_stop)
                    == replies.active_stop
                &&& run_id == Some(run.run_id)
            }
            &&& response.control is External ==> run_id is None
            &&& replies.response_checked is Ok
        },
        live is Some && durable is None ==> result is Err && result->Err_0.code
            == ErrorCode::Conflict,
        live is Some && durable is Some && live->0@ != durable->0.id@ ==> result is Err
            && result->Err_0.code == ErrorCode::Conflict,
        live is None && durable is None ==> (result is Ok <==> replies.response_checked is Ok),
        durable is Some && (live is None || live->0@ == durable->0.id@) && (platform
            == Platform::MacOs <==> durable->0.process_group_id is Some) ==> (result is Ok
            <==> replies.summary_checked is Ok && replies.active_stop is Ok
            && replies.response_checked is Ok),
{
    if let Err(error) = result {
        assert(error@.code == error.code);
    }
}

/// Processes are ordered by their boot, then by their number, then by their start; no two
/// different ones stand at the same place.
pub proof fn lemma_processes_are_ordered(
    left: ProcessInstanceKey,
    right: ProcessInstanceKey,
    before: bool,
    after: bool,
)
    requires
        call_ensures(compare_process_keys, (&left, &right), before),
        call_ensures(compare_process_keys, (&right, &left), after),
    ensures
        !(before && after),
        !before && !after <==> left@ == right@,
        text_before(left.boot_id@, right.boot_id@) ==> before,
        left.boot_id@ == right.boot_id@ && left.pid < right.pid ==> before,
        left.boot_id@ == right.boot_id@ && left.pid == right.pid ==> (before
            <==> left@.native_start_time < right@.native_start_time),
{
    lemma_text_order_is_total(left.boot_id@, right.boot_id@);
    lemma_text_order_is_total(left.boot_id@, left.boot_id@);
}

/// Ports are ordered by their protocol, TCP first, then by their family, IPv4 first, then by
/// their address, their number and their process, where none comes first.
pub proof fn lemma_ports_are_ordered(
    left: PortBindingKey,
    right: PortBindingKey,
    before: bool,
    after: bool,
    keys: bool,
)
    requires
        call_ensures(compare_port_bindings, (&left, &right), before),
        call_ensures(compare_port_bindings, (&right, &left), after),
        call_ensures(
            compare_optional_process_keys,
            (&left.process_instance_key, &right.process_instance_key),
            keys,
        ),
    ensures
        left.protocol == PortProtocol::Tcp && right.protocol == PortProtocol::Udp ==> before
            && !after,
        left.protocol == right.protocol && left.address_family == AddressFamily::Ipv4
            && right.address_family == AddressFamily::Ipv6 ==> before && !after,
        left.protocol == right.protocol && left.address_family == right.address_family
            && text_before(left.local_address@, right.local_address@) ==> before && !after,
        left.protocol == right.protocol && left.address_family == right.address_family
            && left.local_address@ == right.local_address@ && left.local_port < right.local_port
            ==> before && !after,
        left.protocol == right.protocol && left.address_family == right.address_family
            && left.local_address@ == right.local_address@ && left.local_port == right.local_port
            ==> before == keys,
        left.process_instance_key is None && right.process_instance_key is Some ==> keys,
        right.process_instance_key is None ==> !keys,
{
    lemma_text_order_is_total(left.local_address@, right.local_address@);
    lemma_text_order_is_total(left.local_address@, left.local_address@);
}

/// A new name is used exactly where nothing is found under it; one that is taken is drawn
/// anew while there are attempts left, and everything else ends the search.
pub proof fn lemma_new_name_is_used_where_it_is_free(
    entity: CatalogEntity,
    attempts_left: usize,
    lookup: Result<(), AppError>,
    step: IdStep,
)
    requires
        call_ensures(after_id_lookup, (entity, attempts_left, lookup), step),
    ensures
        step is Use <==> lookup is Err && lookup->Err_0.code == ErrorCode::NotFound,
        step is Retry <==> lookup is Ok && attempts_left > 0,
        lookup is Ok && attempts_left == 0 ==> step is Fail && step->Fail_0.retryable
            && step->Fail_0.code == ErrorCode::Internal,
        lookup is Err && lookup->Err_0.code != ErrorCode::NotFound ==> step == IdStep::Fail(
            lookup->Err_0,
        ),
{
    if let IdStep::Fail(error) = step {
        assert(error@.code == error.code && error@.retryable == error.retryable);
    }
}

/// A name begins with its prefix and has 32 digits behind it.
pub proof fn lemma_name_begins_with_its_prefix(prefix: &str, bytes: [u8; 16], id: String)
    requires
        call_ensures(id_from_bytes, (prefix, &bytes), id),
    ensures
        id@.len() == prefix@.len() + 32,
        id@.subrange(0, prefix@.len() as int) == prefix@,
{
    assert(id@.subrange(0, prefix@.len() as int) =~= prefix@);
}

} // verus!
