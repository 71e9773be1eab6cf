//! Cooperative cancellation flag: one shared atomic boolean with two kinds of
//! handles.  A `SyncFlagVictim` is polled by worker loops; a
//! `SyncFlagAssassin` flips the flag to request shutdown.  The transition is
//! monotone: once any assassin has fired, every later poll of any victim of
//! the same flag observes `false`.  The flag is shared between threads, so no
//! per-value contract can pin the polled value down; the loops built on it
//! take the polled boolean as an input instead (see the worker and logger
//! state machines).

use vstd::prelude::*;

verus! {

use core::sync::atomic::AtomicBool;
use core::sync::atomic::Ordering;
use std::sync::Arc;

/// Read-only handle: worker loops poll it at a bounded interval.
pub struct SyncFlagVictim {
    inner: Arc<AtomicBool>,
}

/// Trigger handle: firing it is idempotent and may happen from any thread.
#[derive(Clone)]
pub struct SyncFlagAssassin {
    inner: Arc<AtomicBool>,
}

/// Creates a linked pair of handles over one fresh flag that starts alive.
pub fn new_sync_flag() -> (r: (SyncFlagVictim, SyncFlagAssassin)) {
    let inner = Arc::new(AtomicBool::new(true));
    let inner2 = inner.clone();
    (SyncFlagVictim { inner }, SyncFlagAssassin { inner: inner2 })
}

impl SyncFlagVictim {
    /// Non-blocking poll.  Returns the flag's current value: `true` until
    /// some assassin of the same flag has fired, `false` from then on.
    pub fn is_alive(&self) -> bool {
        self.inner.load(Ordering::Relaxed)
    }
}

impl SyncFlagAssassin {
    /// Fires the flag: every later `is_alive` poll on the linked victim
    /// returns `false`.
    pub fn kill_victim(self) {
        self.inner.store(false, Ordering::Relaxed);
    }
}

impl Drop for SyncFlagAssassin {
    /// Fail-safe: releasing a trigger handle also fires the flag, so a
    /// thread that dies with the handle still shuts the others down.
    /// Relies on `AtomicBool::store`, which does not unwind.
    #[verifier::external_body]
    fn drop(&mut self)
        opens_invariants none
        no_unwind
    {
        self.inner.store(false, Ordering::Relaxed);
    }
}

} // verus!
