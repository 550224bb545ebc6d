//! The beginning of the capture of a run's log: its reader is taken in first,
//! and is let go again where a worker cannot be started.

use vstd::prelude::*;

use crate::error::{plain_error, AppError, ErrorCode, ErrorView};
use crate::logs::{io_passes, managed_log_background_error, managed_log_io_error};
use crate::registry::{
    reader_capacity_error, without, ManagedLogReaderRegistry, ReaderEntry, RegistryView,
};
use crate::runtime::IoFailure;

verus! {

/// The worker of a capture that is to be started next.
#[derive(Clone, Copy, Debug, PartialEq, Eq, Structural)]
pub enum CaptureWorker {
    Stdout,
    Stderr,
    Events,
}

/// Where the beginning of a capture stands.
#[derive(Debug)]
pub enum CaptureStart {
    /// Start a worker.
    Spawn(CaptureWorker),
    Capturing,
    Fail(AppError),
}

/// The names of the two streams in reports.
#[derive(Clone, Copy, Debug)]
pub struct StreamNames<'a> {
    pub stdout: &'a str,
    pub stderr: &'a str,
}

/// The report of a worker that could not be started.
pub open spec fn spawn_error(
    worker: CaptureWorker,
    stdout: Seq<char>,
    stderr: Seq<char>,
    failure: IoFailure,
) -> ErrorView {
    let pipe = ErrorView {
        retryable: io_passes(failure),
        ..plain_error(ErrorCode::PlatformError, "managed run log pipe setup failed"@)
    };
    match worker {
        CaptureWorker::Stdout => pipe.with("stage"@, "SpawnCaptureWorker"@).with(
            "logStream"@,
            stdout,
        ).with("ioKind"@, failure.kind@),
        CaptureWorker::Stderr => pipe.with("stage"@, "SpawnCaptureWorker"@).with(
            "logStream"@,
            stderr,
        ).with("ioKind"@, failure.kind@),
        CaptureWorker::Events => (ErrorView {
            retryable: io_passes(failure),
            ..plain_error(
                ErrorCode::PlatformError,
                "managed run log worker could not be started"@,
            )
        }).with("stage"@, "SpawnEventWorker"@).with("ioKind"@, failure.kind@),
    }
}

/// The worker that follows another.
pub open spec fn next_worker(worker: CaptureWorker) -> Option<CaptureWorker> {
    match worker {
        CaptureWorker::Stdout => Some(CaptureWorker::Stderr),
        CaptureWorker::Stderr => Some(CaptureWorker::Events),
        CaptureWorker::Events => None,
    }
}

/// The readers without the one of a run.
pub open spec fn let_go(registry: RegistryView, run_id: Seq<char>) -> RegistryView {
    RegistryView {
        entries: registry.entries.remove(run_id),
        completed: without(registry.completed, run_id),
    }
}

/// What follows where a capture is to begin, and what becomes of the readers.
pub open spec fn capture_begun(
    before: RegistryView,
    run_id: Seq<char>,
    reader: u64,
    step: CaptureStart,
    after: RegistryView,
) -> bool {
    if before.entries.dom().contains(run_id) {
        &&& after == before
        &&& step matches CaptureStart::Fail(error) && error@ == plain_error(
            ErrorCode::Conflict,
            "managed run log reader is already registered"@,
        )
    } else if before.is_exhausted() {
        &&& after == before
        &&& step matches CaptureStart::Fail(error) && error@ == reader_capacity_error()
    } else {
        &&& step == CaptureStart::Spawn(CaptureWorker::Stdout)
        &&& after == (RegistryView {
            entries: before.with_room().entries.insert(
                run_id,
                (ReaderEntry { reader, active: true, historical: false }),
            ),
            completed: before.with_room().completed,
        })
    }
}

/// Begins a capture: its reader is taken in.
pub fn reserve_capture(registry: &mut ManagedLogReaderRegistry, run_id: &str, reader: u64) -> (step:
    CaptureStart)
    requires
        old(registry).wf(),
    ensures
        final(registry).wf(),
        capture_begun(old(registry)@, run_id@, reader, step, final(registry)@),
{
    match registry.reserve_active(run_id, reader) {
        Ok(_) => CaptureStart::Spawn(CaptureWorker::Stdout),
        Err(error) => CaptureStart::Fail(error),
    }
}

/// What follows where a worker of a capture was to be started, and what becomes of the
/// readers.
pub open spec fn capture_follows(
    before: RegistryView,
    run_id: Seq<char>,
    stdout: Seq<char>,
    stderr: Seq<char>,
    worker: CaptureWorker,
    spawned: Result<(), IoFailure>,
    step: CaptureStart,
    after: RegistryView,
) -> bool {
    match spawned {
        Ok(_) => after == before && step == match next_worker(worker) {
            Some(next) => CaptureStart::Spawn(next),
            None => CaptureStart::Capturing,
        },
        Err(failure) => {
            &&& after == let_go(before, run_id)
            &&& step matches CaptureStart::Fail(error) && error@ == spawn_error(
                worker,
                stdout,
                stderr,
                failure,
            )
        },
    }
}

/// Takes in whether a worker was started: the next one follows, and behind the
/// last one the capture goes on. Where one was not, the reader is let go.
pub fn start_managed_log_capture(
    registry: &mut ManagedLogReaderRegistry,
    run_id: &str,
    names: StreamNames<'_>,
    worker: CaptureWorker,
    spawned: Result<(), IoFailure>,
) -> (step: CaptureStart)
    requires
        old(registry).wf(),
    ensures
        final(registry).wf(),
        capture_follows(
            old(registry)@,
            run_id@,
            names.stdout@,
            names.stderr@,
            worker,
            spawned,
            step,
            final(registry)@,
        ),
{
    match spawned {
        Ok(_) => match worker {
            CaptureWorker::Stdout => CaptureStart::Spawn(CaptureWorker::Stderr),
            CaptureWorker::Stderr => CaptureStart::Spawn(CaptureWorker::Events),
            CaptureWorker::Events => CaptureStart::Capturing,
        },
        Err(failure) => {
            registry.remove(run_id);
            CaptureStart::Fail(
                match worker {
                    CaptureWorker::Stdout => managed_log_io_error(
                        names.stdout,
                        "SpawnCaptureWorker",
                        &failure,
                    ),
                    CaptureWorker::Stderr => managed_log_io_error(
                        names.stderr,
                        "SpawnCaptureWorker",
                        &failure,
                    ),
                    CaptureWorker::Events => managed_log_background_error(
                        "SpawnEventWorker",
                        &failure,
                    ),
                },
            )
        },
    }
}

/// A capture that could not begin leaves no reader behind: where one of its
/// workers could not be started the readers are those that were there before,
/// but for one that made room.
pub proof fn lemma_failed_capture_leaves_no_reader(
    before: RegistryView,
    reserved: RegistryView,
    after: RegistryView,
    run_id: Seq<char>,
    reader: u64,
)
    requires
        before.wf(),
        !before.entries.dom().contains(run_id),
        !before.is_exhausted(),
        reserved == (RegistryView {
            entries: before.with_room().entries.insert(
                run_id,
                (ReaderEntry { reader, active: true, historical: false }),
            ),
            completed: before.with_room().completed,
        }),
        after == let_go(reserved, run_id),
    ensures
        after.entries == before.with_room().entries,
        after.completed == before.with_room().completed,
{
    let room = before.with_room();
    if before.completed.len() > 0 {
        assert(before.completed.contains(before.completed[0]));
    }
    assert(!room.completed.contains(run_id)) by {
        if room.completed.contains(run_id) {
            let k = room.completed.index_of(run_id);
            if room == before {
                assert(before.completed.contains(run_id));
            } else {
                assert(before.completed[k + 1] == run_id);
                assert(before.completed.contains(run_id));
            }
        }
    }
    assert(after.entries =~= room.entries);
}

} // verus!
