//! Whether the operator has asked the tool to stop.
use std::sync::atomic::{AtomicBool, Ordering};
use std::sync::Arc;
use vstd::prelude::*;

verus! {

/// A flag, shared with the interrupt handler, that is cleared once the
/// operator asks the tool to stop.
pub struct Signal {
    running: Arc<AtomicBool>,
}

impl Signal {
    /// A flag that is set: the tool runs.
    pub fn new() -> (r: Signal) {
        Signal { running: Arc::new(AtomicBool::new(true)) }
    }

    /// The shared flag, for the interrupt handler to clear.
    pub fn handle(&self) -> (r: Arc<AtomicBool>) {
        self.running.clone()
    }

    /// Whether the operator has not yet asked the tool to stop. What it
    /// returns depends on the interrupt handler, another thread.
    pub fn is_running(&self) -> (r: bool) {
        self.running.load(Ordering::SeqCst)
    }
}

} // verus!
