//! Decision logic of one device's I/O thread.  The thread owns the open
//! serial handle; its loop only performs what these functions decide: open
//! the device once (failure is fatal for the whole session's startup),
//! then, while the cancellation flag reads alive, forward read bytes to the
//! read-side line assembler, and on an idle read drain the outbound queue
//! to the wire.  Once the flag reads dead the very next decision stops the
//! worker, so shutdown latency is bounded by one read timeout.

use vstd::prelude::*;

verus! {

/// One message for the wire, or the order to finish.
pub enum WriteBuf {
    Buf(Vec<u8>),
    Exit,
}

/// Lifecycle of a device worker.
#[derive(Debug, PartialEq, Eq, Structural)]
pub enum WorkerPhase {
    Starting,
    Running,
    Stopped,
}

/// What the worker's loop must do next: forward the bytes it read to the
/// line assembler, drain the outbound queue to the wire, or stop.
#[derive(Debug, PartialEq, Eq, Structural)]
pub enum WorkerAction {
    Forward,
    DrainQueue,
    Stop,
}

/// The startup decision: an opened device starts the loop; one that could
/// not be opened is fatal for this device, to be reported, and the session
/// aborts its startup.  The boolean says whether to report the failure.
pub fn worker_start(opened: bool) -> (r: (WorkerPhase, bool))
    ensures
        opened ==> r.0 is Running && !r.1,
        !opened ==> r.0 is Stopped && r.1,
{
    if opened {
        (WorkerPhase::Running, false)
    } else {
        (WorkerPhase::Stopped, true)
    }
}

/// One loop decision of a running worker.  A dead cancellation flag stops
/// the worker at once, whatever the read returned; otherwise bytes that
/// arrived are forwarded, and an idle read gives the outbound queue its
/// turn.  Read errors on an open handle count as idle reads: they are
/// transient and the next iteration retries by construction.
pub fn worker_step(alive: bool, got_data: bool) -> (r: (WorkerPhase, WorkerAction))
    ensures
        !alive ==> r.0 is Stopped && r.1 is Stop,
        alive && got_data ==> r.0 is Running && r.1 is Forward,
        alive && !got_data ==> r.0 is Running && r.1 is DrainQueue,
{
    if !alive {
        (WorkerPhase::Stopped, WorkerAction::Stop)
    } else if got_data {
        (WorkerPhase::Running, WorkerAction::Forward)
    } else {
        (WorkerPhase::Running, WorkerAction::DrainQueue)
    }
}

} // verus!
