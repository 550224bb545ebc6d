//! The making of a diagnostic export: what is summed up, bounded, written down
//! and written out, in this order, and where it ends when it was cancelled.

use vstd::prelude::*;

use crate::diagnostics::{
    all_known, are_inputs, build_manifest, cancelled_error, check_content_bytes,
    check_export_cancelled, content_limit_error, manifest_error, manifest_inputs, sha256_hex,
    shows_contents, BoundedContents, ContentInput, DiagnosticLimits, DiagnosticsManifest,
    ExportRequest, ExportResult,
};
use crate::digest::sha256;
use crate::error::{plain_error, AppError, ErrorCode, ErrorView};
use crate::text::lower_hex;

verus! {

/// Where an export stands: what is to be done next, with what has been found out
/// for it.
#[derive(Debug)]
#[allow(inconsistent_fields)]
pub enum BundleStep {
    /// Sum the system up.
    SumUpSystem,
    /// Read the application's own log, or only what is known of it.
    ReadLogs { system_bytes: u64 },
    /// Write the summary of the database down, where there is one.
    SumUpDatabase { system_bytes: u64, logs: ContentInput },
    /// Bound the parts together.
    BoundContents { inputs: Vec<ContentInput> },
    /// Check the manifest.
    CheckManifest { manifest: DiagnosticsManifest },
    /// Read the clock.
    ReadClock { manifest: DiagnosticsManifest },
    /// Write the whole down, as made at a time.
    Serialize { manifest: DiagnosticsManifest, generated_at_unix_millis: u64 },
    /// Take the bytes out of the budget.
    SpendBudget { manifest: DiagnosticsManifest, contents: Vec<u8> },
    /// Write the file.
    Write { manifest: DiagnosticsManifest, contents: Vec<u8> },
    /// Check the answer.
    CheckResult { result: ExportResult },
}

/// An export that is being made: what it is to hold, and where it goes.
#[derive(Debug)]
pub struct Bundle {
    pub request: ExportRequest,
    pub file_name: String,
    pub step: BundleStep,
}

/// What came of a step. Where bytes are none, they could not be written down.
#[derive(Debug)]
#[allow(inconsistent_fields)]
pub enum BundleEvent {
    /// Whether the export was cancelled, and the bytes of the summary.
    System { cancelled: bool, bytes: Option<u64> },
    Logs(Result<ContentInput, AppError>),
    /// Whether the export was cancelled, and the bytes of the summary; without a
    /// summary they say nothing.
    Database { cancelled: bool, bytes: Option<u64> },
    Bounded(Result<BoundedContents, AppError>),
    Checked(Result<(), AppError>),
    /// The milliseconds of the machine's clock.
    Clock(Result<u64, AppError>),
    Contents(Option<Vec<u8>>),
    /// Whether the budget had room, and whether the export was cancelled.
    Budget { spent: Result<(), AppError>, cancelled: bool },
    /// The bytes that were written.
    Written(Result<u64, AppError>),
}

/// What follows.
#[derive(Debug)]
pub enum BundleAction {
    /// Do the step that the export is at.
    Perform(Bundle),
    Answer(Result<ExportResult, AppError>),
}

impl Bundle {
    pub fn begin(request: ExportRequest, file_name: String) -> (bundle: Self)
        ensures
            bundle == (Bundle { request, file_name, step: BundleStep::SumUpSystem }),
    {
        Bundle { request, file_name, step: BundleStep::SumUpSystem }
    }
}

impl BundleStep {
    /// An event is one of the step.
    pub open spec fn asks_for(self, event: BundleEvent) -> bool {
        match self {
            BundleStep::SumUpSystem => event is System,
            BundleStep::ReadLogs { .. } => event is Logs,
            BundleStep::SumUpDatabase { .. } => event is Database,
            BundleStep::BoundContents { .. } => event is Bounded,
            BundleStep::CheckManifest { .. } => event is Checked,
            BundleStep::ReadClock { .. } => event is Clock,
            BundleStep::Serialize { .. } => event is Contents,
            BundleStep::SpendBudget { .. } => event is Budget,
            BundleStep::Write { .. } => event is Written,
            BundleStep::CheckResult { .. } => event is Checked,
        }
    }
}

/// The refusal of an export that cannot be written down.
pub open spec fn serialization_error() -> ErrorView {
    plain_error(ErrorCode::Internal, "diagnostic bundle serialization failed"@)
}

fn diagnostic_serialization_error() -> (error: AppError)
    ensures
        error@ == serialization_error(),
{
    AppError::new(ErrorCode::Internal, "diagnostic bundle serialization failed")
}

/// The export goes on at a step.
pub open spec fn goes_on(action: BundleAction, bundle: Bundle, step: BundleStep) -> bool {
    action == BundleAction::Perform((Bundle { step, ..bundle }))
}

/// The export ends with an error.
pub open spec fn fails(action: BundleAction, error: ErrorView) -> bool {
    action matches BundleAction::Answer(Err(answer)) && answer@ == error
}

/// The step that an export goes on at, with what it is to hold and where it goes
/// unchanged.
pub open spec fn step_after(action: BundleAction, bundle: Bundle) -> Option<BundleStep> {
    match action {
        BundleAction::Perform(next) => if next == (Bundle { step: next.step, ..bundle }) {
            Some(next.step)
        } else {
            None
        },
        BundleAction::Answer(_) => None,
    }
}

/// The bytes that the summary of the database counts for: as many as it may have
/// where there is none.
pub open spec fn database_bytes(
    request: ExportRequest,
    limits: DiagnosticLimits,
    bytes: Option<u64>,
) -> Option<u64> {
    if request.include_database_summary {
        bytes
    } else {
        Some(limits.maximum_database_summary_bytes)
    }
}

/// What follows an event of an export that is being made.
pub open spec fn bundle_follows(
    limits: DiagnosticLimits,
    bundle: Bundle,
    event: BundleEvent,
    action: BundleAction,
) -> bool {
    match (bundle.step, event) {
        (BundleStep::SumUpSystem, BundleEvent::System { cancelled, bytes }) => if cancelled {
            fails(action, cancelled_error())
        } else {
            match bytes {
                None => fails(action, serialization_error()),
                Some(system_bytes) => if system_bytes > limits.maximum_system_summary_bytes {
                    fails(action, content_limit_error("systemSummary"@))
                } else {
                    goes_on(action, bundle, BundleStep::ReadLogs { system_bytes })
                },
            }
        },
        (BundleStep::ReadLogs { system_bytes }, BundleEvent::Logs(read)) => match read {
            Ok(logs) => goes_on(
                action,
                bundle,
                BundleStep::SumUpDatabase { system_bytes, logs },
            ),
            Err(error) => fails(action, error@),
        },
        (
            BundleStep::SumUpDatabase { system_bytes, logs },
            BundleEvent::Database { cancelled, bytes },
        ) => if cancelled {
            fails(action, cancelled_error())
        } else {
            match database_bytes(bundle.request, limits, bytes) {
                None => fails(action, serialization_error()),
                Some(database) => if database > limits.maximum_database_summary_bytes {
                    fails(action, content_limit_error("databaseSummary"@))
                } else {
                    match step_after(action, bundle) {
                        Some(BundleStep::BoundContents { inputs }) => are_inputs(
                            inputs@,
                            limits,
                            bundle.request.include_database_summary,
                            logs,
                            Some((system_bytes, database)),
                        ),
                        _ => false,
                    }
                },
            }
        },
        (BundleStep::BoundContents { .. }, BundleEvent::Bounded(bounded)) => match bounded {
            Err(error) => fails(action, error@),
            Ok(contents) => if !all_known(contents.items@, limits.application_log_content_id@) {
                fails(action, manifest_error())
            } else {
                match step_after(action, bundle) {
                    Some(BundleStep::CheckManifest { manifest }) => shows_contents(
                        manifest,
                        limits,
                        contents,
                    ),
                    _ => false,
                }
            },
        },
        (BundleStep::CheckManifest { manifest }, BundleEvent::Checked(checked)) => match checked {
            Ok(_) => goes_on(action, bundle, BundleStep::ReadClock { manifest }),
            Err(error) => fails(action, error@),
        },
        (BundleStep::ReadClock { manifest }, BundleEvent::Clock(read)) => match read {
            Ok(generated_at_unix_millis) => goes_on(
                action,
                bundle,
                BundleStep::Serialize { manifest, generated_at_unix_millis },
            ),
            Err(error) => fails(action, error@),
        },
        (BundleStep::Serialize { manifest, .. }, BundleEvent::Contents(written)) => match written {
            Some(contents) => goes_on(
                action,
                bundle,
                BundleStep::SpendBudget { manifest, contents },
            ),
            None => fails(action, serialization_error()),
        },
        (
            BundleStep::SpendBudget { manifest, contents },
            BundleEvent::Budget { spent, cancelled },
        ) => match spent {
            Err(error) => fails(action, error@),
            Ok(_) => if cancelled {
                fails(action, cancelled_error())
            } else {
                goes_on(action, bundle, BundleStep::Write { manifest, contents })
            },
        },
        (BundleStep::Write { manifest, contents }, BundleEvent::Written(written)) => match written {
            Err(error) => fails(action, error@),
            Ok(total_bytes) => match step_after(action, bundle) {
                Some(BundleStep::CheckResult { result }) => {
                    &&& result.file_name@ == bundle.file_name@
                    &&& result.total_bytes == total_bytes
                    &&& result.sha256@ == lower_hex(sha256(contents@))
                    &&& result.manifest == manifest
                },
                _ => false,
            },
        },
        (BundleStep::CheckResult { result }, BundleEvent::Checked(checked)) => match checked {
            Ok(_) => action == BundleAction::Answer(Ok(result)),
            Err(error) => fails(action, error@),
        },
        _ => false,
    }
}

/// The next step, or the end of the export.
spec fn action_of(bundle: Bundle, result: Result<BundleStep, AppError>) -> BundleAction {
    match result {
        Ok(step) => BundleAction::Perform((Bundle { step, ..bundle })),
        Err(error) => BundleAction::Answer(Err(error)),
    }
}

/// What a step of an export gives: the next one, or why there is none.
fn next_step(
    limits: &DiagnosticLimits,
    request: ExportRequest,
    file_name: &str,
    step: BundleStep,
    event: BundleEvent,
) -> (result: Result<BundleStep, AppError>)
    requires
        step.asks_for(event),
        step !is CheckResult,
    ensures
        forall|bundle: Bundle|
            bundle.request == request && bundle.file_name@ == file_name@ && bundle.step == step
                ==> bundle_follows(*limits, bundle, event, #[trigger] action_of(bundle, result)),
{
    match (step, event) {
        (BundleStep::SumUpSystem, BundleEvent::System { cancelled, bytes }) => {
            match check_export_cancelled(cancelled) {
                Ok(_) => {},
                Err(error) => return Err(error),
            }
            let system_bytes: u64 = match bytes {
                Some(bytes) => bytes,
                None => return Err(diagnostic_serialization_error()),
            };
            match check_content_bytes(
                "systemSummary",
                system_bytes,
                limits.maximum_system_summary_bytes,
            ) {
                Ok(_) => Ok(BundleStep::ReadLogs { system_bytes }),
                Err(error) => Err(error),
            }
        },
        (BundleStep::ReadLogs { system_bytes }, BundleEvent::Logs(read)) => match read {
            Ok(logs) => Ok(BundleStep::SumUpDatabase { system_bytes, logs }),
            Err(error) => Err(error),
        },
        (
            BundleStep::SumUpDatabase { system_bytes, logs },
            BundleEvent::Database { cancelled, bytes },
        ) => {
            match check_export_cancelled(cancelled) {
                Ok(_) => {},
                Err(error) => return Err(error),
            }
            let database: u64 = if request.include_database_summary {
                match bytes {
                    Some(bytes) => bytes,
                    None => return Err(diagnostic_serialization_error()),
                }
            } else {
                limits.maximum_database_summary_bytes
            };
            match check_content_bytes(
                "databaseSummary",
                database,
                limits.maximum_database_summary_bytes,
            ) {
                Ok(_) => {},
                Err(error) => return Err(error),
            }
            let inputs = manifest_inputs(
                limits,
                request.include_database_summary,
                logs,
                Some((system_bytes, database)),
            );
            Ok(BundleStep::BoundContents { inputs })
        },
        (BundleStep::BoundContents { inputs: _ }, BundleEvent::Bounded(bounded)) => match bounded {
            Ok(contents) => match build_manifest(limits, &contents) {
                Ok(manifest) => Ok(BundleStep::CheckManifest { manifest }),
                Err(error) => Err(error),
            },
            Err(error) => Err(error),
        },
        (BundleStep::CheckManifest { manifest }, BundleEvent::Checked(checked)) => match checked {
            Ok(_) => Ok(BundleStep::ReadClock { manifest }),
            Err(error) => Err(error),
        },
        (BundleStep::ReadClock { manifest }, BundleEvent::Clock(read)) => match read {
            Ok(generated_at_unix_millis) => Ok(
                BundleStep::Serialize { manifest, generated_at_unix_millis },
            ),
            Err(error) => Err(error),
        },
        (
            BundleStep::Serialize { manifest, generated_at_unix_millis: _ },
            BundleEvent::Contents(written),
        ) => match written {
            Some(contents) => Ok(BundleStep::SpendBudget { manifest, contents }),
            None => Err(diagnostic_serialization_error()),
        },
        (
            BundleStep::SpendBudget { manifest, contents },
            BundleEvent::Budget { spent, cancelled },
        ) => match spent {
            Ok(_) => match check_export_cancelled(cancelled) {
                Ok(_) => Ok(BundleStep::Write { manifest, contents }),
                Err(error) => Err(error),
            },
            Err(error) => Err(error),
        },
        (BundleStep::Write { manifest, contents }, BundleEvent::Written(written)) => match written {
            Ok(total_bytes) => Ok(
                BundleStep::CheckResult {
                    result: ExportResult {
                        file_name: file_name.to_owned(),
                        total_bytes,
                        sha256: sha256_hex(contents.as_slice()),
                        manifest,
                    },
                },
            ),
            Err(error) => Err(error),
        },
        _ => vstd::pervasive::unreached(),
    }
}

/// Moves the making of an export on by one step.
pub fn build_and_export_bundle(limits: &DiagnosticLimits, bundle: Bundle, event: BundleEvent) -> (action:
    BundleAction)
    requires
        bundle.step.asks_for(event),
    ensures
        bundle_follows(*limits, bundle, event, action),
{
    let Bundle { request, file_name, step } = bundle;
    match (step, event) {
        (BundleStep::CheckResult { result }, BundleEvent::Checked(checked)) => match checked {
            Ok(_) => BundleAction::Answer(Ok(result)),
            Err(error) => BundleAction::Answer(Err(error)),
        },
        (step, event) => {
            let result = next_step(limits, request, file_name.as_str(), step, event);
            assert(bundle_follows(*limits, bundle, event, action_of(bundle, result)));
            match result {
                Ok(step) => BundleAction::Perform(Bundle { request, file_name, step }),
                Err(error) => BundleAction::Answer(Err(error)),
            }
        },
    }
}

/// An export as it was made: where it stood, and what came of each step.
pub struct BundleTrace {
    pub limits: DiagnosticLimits,
    pub bundles: Seq<Bundle>,
    pub events: Seq<BundleEvent>,
    pub answer: Result<ExportResult, AppError>,
}

impl BundleTrace {
    /// It begins at the beginning, each step follows from the one before, and the
    /// last one gives the answer.
    pub open spec fn wf(self) -> bool {
        &&& self.bundles.len() == self.events.len()
        &&& self.bundles.len() > 0
        &&& self.bundles[0].step is SumUpSystem
        &&& forall|i: int|
            0 <= i < self.bundles.len() ==> bundle_follows(
                self.limits,
                #[trigger] self.bundles[i],
                self.events[i],
                if i + 1 < self.bundles.len() {
                    BundleAction::Perform(self.bundles[i + 1])
                } else {
                    BundleAction::Answer(self.answer)
                },
            )
    }
}

/// The place of a step in the order.
pub open spec fn place_of(step: BundleStep) -> int {
    match step {
        BundleStep::SumUpSystem => 0,
        BundleStep::ReadLogs { .. } => 1,
        BundleStep::SumUpDatabase { .. } => 2,
        BundleStep::BoundContents { .. } => 3,
        BundleStep::CheckManifest { .. } => 4,
        BundleStep::ReadClock { .. } => 5,
        BundleStep::Serialize { .. } => 6,
        BundleStep::SpendBudget { .. } => 7,
        BundleStep::Write { .. } => 8,
        BundleStep::CheckResult { .. } => 9,
    }
}

/// The steps of an export come in their order, each once: the step at a place of
/// a trace is the one of that place.
pub proof fn lemma_steps_come_in_order(trace: BundleTrace, at: int)
    requires
        trace.wf(),
        0 <= at < trace.bundles.len(),
    ensures
        place_of(trace.bundles[at].step) == at,
        trace.bundles[at].request == trace.bundles[0].request,
        trace.bundles[at].file_name == trace.bundles[0].file_name,
    decreases at,
{
    if at > 0 {
        lemma_steps_come_in_order(trace, at - 1);
        let before = trace.bundles[at - 1];
        assert(bundle_follows(
            trace.limits,
            before,
            trace.events[at - 1],
            BundleAction::Perform(trace.bundles[at]),
        ));
    }
}

/// An export that is answered with a result was written once, under its file
/// name, with the bytes whose digest is given; the budget had room for them, and
/// at none of the three looks before that it had been cancelled. Nothing is
/// written of an export that ends before.
pub proof fn lemma_export_is_written_last(trace: BundleTrace)
    requires
        trace.wf(),
    ensures
        trace.bundles.len() <= 10,
        trace.answer is Ok <==> trace.bundles.len() == 10 && trace.events[9]->Checked_0 is Ok,
        trace.answer matches Ok(result) ==> {
            &&& trace.events[0] matches BundleEvent::System { cancelled, .. } && !cancelled
            &&& trace.events[2] matches BundleEvent::Database { cancelled, .. } && !cancelled
            &&& trace.events[7] matches BundleEvent::Budget { spent, cancelled } && !cancelled
                && spent is Ok
            &&& trace.bundles[8].step matches BundleStep::Write { contents, .. } && result.sha256@
                == lower_hex(sha256(contents@))
            &&& result.file_name@ == trace.bundles[0].file_name@
            &&& trace.events[8] == BundleEvent::Written(Ok(result.total_bytes))
        },
{
    let last = trace.bundles.len() - 1;
    lemma_steps_come_in_order(trace, last);
    assert(bundle_follows(
        trace.limits,
        trace.bundles[last],
        trace.events[last],
        BundleAction::Answer(trace.answer),
    ));
    if last == 9 {
        lemma_steps_come_in_order(trace, 0);
        lemma_steps_come_in_order(trace, 2);
        lemma_steps_come_in_order(trace, 7);
        lemma_steps_come_in_order(trace, 8);
        assert(bundle_follows(
            trace.limits,
            trace.bundles[0],
            trace.events[0],
            BundleAction::Perform(trace.bundles[1]),
        ));
        assert(bundle_follows(
            trace.limits,
            trace.bundles[2],
            trace.events[2],
            BundleAction::Perform(trace.bundles[3]),
        ));
        assert(bundle_follows(
            trace.limits,
            trace.bundles[7],
            trace.events[7],
            BundleAction::Perform(trace.bundles[8]),
        ));
        assert(bundle_follows(
            trace.limits,
            trace.bundles[8],
            trace.events[8],
            BundleAction::Perform(trace.bundles[9]),
        ));
    }
}

} // verus!
