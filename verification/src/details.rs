//! Who controls a process: what is held and what is stored of it must agree,
//! and a disagreement is refused rather than shown.

use vstd::prelude::*;

use crate::error::{optional_text, plain_error, AppError, ErrorCode, ErrorView};
use crate::run::{
    control_instance_key, group_error, group_is_stored, projected_managed_run_summary, shows,
    Controls, KeyView, ManagedRunRecord, ManagedRunSummary, Platform, ProcessInstanceKey,
    RunControl, StopOperation,
};
use crate::text::{decimal, decimal_text, same_text};

verus! {

/// Who controls a process.
#[derive(Debug)]
pub enum ProcessControl {
    External,
    Managed { run: ManagedRunSummary, active_stop: Option<StopOperation> },
}

/// The answer to the question who controls a process, with the process that was
/// asked for.
#[derive(Debug)]
pub struct GetProcessDetailsResponse {
    pub process_instance_key: ProcessInstanceKey,
    pub control: ProcessControl,
}

/// What the rules for answers and the store say while an answer is made, in this
/// order: of the run that would be shown, of its active stop, and of the answer.
#[derive(Debug)]
pub struct DetailsReplies {
    pub summary_checked: Result<(), AppError>,
    pub active_stop: Result<Option<StopOperation>, AppError>,
    pub response_checked: Result<(), AppError>,
}

/// Whether a run holds a process.
pub open spec fn claims(
    controls: Map<Seq<char>, RunControl>,
    run_id: Seq<char>,
    key: KeyView,
) -> bool {
    controls.dom().contains(run_id) && controls[run_id].key() == Some(key)
}

/// The refusal where the evidence of who controls a process disagrees.
pub open spec fn control_conflict(
    pid: u32,
    live_run_id: Option<Seq<char>>,
    durable_run_id: Option<Seq<char>>,
    reason: Seq<char>,
) -> ErrorView {
    let error = plain_error(
        ErrorCode::Conflict,
        "managed process control evidence is inconsistent"@,
    ).with("pid"@, decimal_text(pid as nat));
    let error = match live_run_id {
        Some(run_id) => error.with("liveRunId"@, run_id),
        None => error,
    };
    let error = match durable_run_id {
        Some(run_id) => error.with("durableRunId"@, run_id),
        None => error,
    };
    error.with("reason"@, reason)
}

/// The characters of an optional string.
pub open spec fn optional_str(value: Option<&str>) -> Option<Seq<char>> {
    match value {
        Some(text) => Some(text@),
        None => None,
    }
}

fn process_control_conflict(
    key: &ProcessInstanceKey,
    live_run_id: Option<&str>,
    durable_run_id: Option<&str>,
    reason: &str,
) -> (error: AppError)
    ensures
        error@ == control_conflict(
            key.pid,
            optional_str(live_run_id),
            optional_str(durable_run_id),
            reason@,
        ),
{
    let mut error = AppError::new(
        ErrorCode::Conflict,
        "managed process control evidence is inconsistent",
    ).with_detail("pid", decimal(key.pid as u64).as_str());
    if let Some(run_id) = live_run_id {
        error = error.with_detail("liveRunId", run_id);
    }
    if let Some(run_id) = durable_run_id {
        error = error.with_detail("durableRunId", run_id);
    }
    error.with_detail("reason", reason)
}

/// Which run holds a process, or which two do.
pub open spec fn is_live_run(
    controls: Map<Seq<char>, RunControl>,
    key: KeyView,
    result: Result<Option<String>, AppError>,
) -> bool {
    match result {
        Ok(Some(run_id)) => claims(controls, run_id@, key) && forall|other: Seq<char>| #[trigger]
            claims(controls, other, key) ==> other == run_id@,
        Ok(None) => forall|other: Seq<char>| !#[trigger] claims(controls, other, key),
        Err(error) => exists|first: Seq<char>, second: Seq<char>|
            #![trigger claims(controls, first, key), claims(controls, second, key)]
            claims(controls, first, key) && claims(controls, second, key) && first != second
                && error@ == control_conflict(
                key.pid,
                Some(first),
                Some(second),
                "multiple live controls claim the same process identity"@,
            ),
    }
}

/// The run that holds a process. Two runs that hold the same process are
/// refused; which of the two is named first is left open.
pub fn live_run(controls: &Controls, key: &ProcessInstanceKey) -> (result: Result<
    Option<String>,
    AppError,
>)
    requires
        controls.wf(),
    ensures
        is_live_run(controls@, key@, result),
{
    let mut found: Option<String> = None;
    let mut i: usize = 0;
    let length: usize = controls.len();
    proof {
        controls.lemma_names();
    }
    while i < length
        invariant
            controls.wf(),
            length == controls@.dom().len(),
            i <= length,
            match found {
                Some(run_id) => claims(controls@, run_id@, key@) && (exists|k: int|
                    0 <= k < i && #[trigger] controls.name_at(k) == run_id@) && forall|k: int|
                    0 <= k < i && claims(controls@, #[trigger] controls.name_at(k), key@)
                        ==> controls.name_at(k) == run_id@,
                None => forall|k: int|
                    0 <= k < i ==> !claims(controls@, #[trigger] controls.name_at(k), key@),
            },
        decreases length - i,
    {
        let (run_id, control) = controls.entry(i);
        let same = match control_instance_key(control) {
            Some(held) => held.same(key),
            None => false,
        };
        if same {
            assert(claims(controls@, run_id@, key@));
            if let Some(existing) = &found {
                proof {
                    controls.lemma_names();
                    let k = choose|k: int| 0 <= k < i && #[trigger] controls.name_at(k) == existing@;
                    assert(controls.name_at(k) != controls.name_at(i as int));
                }
                return Err(
                    process_control_conflict(
                        key,
                        Some(existing.as_str()),
                        Some(run_id),
                        "multiple live controls claim the same process identity",
                    ),
                );
            }
            assert(controls.name_at(i as int) == run_id@);
            found = Some(run_id.to_owned());
        }
        i += 1;
    }
    proof {
        controls.lemma_names();
        assert forall|other: Seq<char>| #[trigger] claims(controls@, other, key@) implies found
            is Some && other == found->0@ by {
            let k = choose|k: int|
                0 <= k < controls@.dom().len() && #[trigger] controls.name_at(k) == other;
            assert(claims(controls@, controls.name_at(k), key@));
        }
    }
    Ok(found)
}

/// Why the run that is stored for a process is not shown.
pub open spec fn managed_refusal(
    platform: Platform,
    record: ManagedRunRecord,
    replies: DetailsReplies,
) -> Option<ErrorView> {
    if !group_is_stored(platform, record.process_group_id) {
        Some(group_error(platform))
    } else {
        match (replies.summary_checked, replies.active_stop, replies.response_checked) {
            (Err(error), _, _) => Some(error@),
            (Ok(_), Err(error), _) => Some(error@),
            (Ok(_), Ok(_), Err(error)) => Some(error@),
            _ => None,
        }
    }
}

/// Decides who controls a process from the run that holds it and the run that
/// is stored for it.
pub fn resolve_process_details(
    platform: Platform,
    key: &ProcessInstanceKey,
    live_run_id: Option<&str>,
    durable: Option<&ManagedRunRecord>,
    replies: DetailsReplies,
) -> (result: Result<GetProcessDetailsResponse, AppError>)
    ensures
        result is Ok ==> result->Ok_0.process_instance_key == *key,
        match (live_run_id, durable) {
            (None, None) => match replies.response_checked {
                Ok(_) => result is Ok && result->Ok_0.control is External,
                Err(error) => result is Err && result->Err_0 == error,
            },
            (Some(live), None) => result is Err && result->Err_0@ == control_conflict(
                key.pid,
                Some(live@),
                None,
                "live control has no durable run identity"@,
            ),
            (live, Some(record)) => if live is Some && live->0@ != record.id@ {
                result is Err && result->Err_0@ == control_conflict(
                    key.pid,
                    Some(live->0@),
                    Some(record.id@),
                    "live and durable run identities disagree"@,
                )
            } else {
                let refusal = managed_refusal(platform, *record, replies);
                match result {
                    Ok(response) => match response.control {
                        ProcessControl::Managed { run, active_stop } => {
                            &&& refusal is None
                            &&& active_stop == replies.active_stop->Ok_0
                            &&& shows(
                                run,
                                *record,
                                record.profile_snapshot.id@,
                                record.state,
                                record.updated_at@,
                                optional_text(record.ended_at),
                            )
                        },
                        ProcessControl::External => false,
                    },
                    Err(error) => refusal == Some(error@),
                }
            },
        },
{
    let control = match (live_run_id, durable) {
        (None, None) => ProcessControl::External,
        (Some(live), None) => {
            return Err(
                process_control_conflict(
                    key,
                    Some(live),
                    None,
                    "live control has no durable run identity",
                ),
            );
        },
        (live, Some(record)) => {
            if let Some(live) = live {
                if !same_text(live, record.id.as_str()) {
                    return Err(
                        process_control_conflict(
                            key,
                            Some(live),
                            Some(record.id.as_str()),
                            "live and durable run identities disagree",
                        ),
                    );
                }
            }
            let run = match projected_managed_run_summary(platform, record) {
                Ok(run) => run,
                Err(error) => return Err(error),
            };
            match (replies.summary_checked, replies.active_stop) {
                (Err(error), _) => return Err(error),
                (Ok(_), Err(error)) => return Err(error),
                (Ok(_), Ok(active_stop)) => ProcessControl::Managed { run, active_stop },
            }
        },
    };
    match replies.response_checked {
        Ok(_) => Ok(GetProcessDetailsResponse { process_instance_key: key.copy(), control }),
        Err(error) => Err(error),
    }
}

/// The run that controls a process, where one does.
pub fn managed_run_id(control: ProcessControl) -> (run_id: Option<String>)
    ensures
        run_id == (match control {
            ProcessControl::External => None,
            ProcessControl::Managed { run, .. } => Some(run.run_id),
        }),
{
    match control {
        ProcessControl::External => None,
        ProcessControl::Managed { run, .. } => Some(run.run_id),
    }
}

} // verus!
