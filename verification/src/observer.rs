//! The observer: the sink of the throttled progress events of a run.

use crate::coordinator::ProgressEvent;
use vstd::prelude::*;

verus! {

/// A sink for progress events. The coordinator hands it at most one event
/// per [`crate::coordinator::FORWARD_INTERVAL_MS`] besides completions, and
/// one last event when the run ends. An observer has to be cheap and must
/// not block.
pub trait DownloadObserver {
    /// `bytes_since_last` bytes have arrived since the last event, the
    /// latest of them from worker `worker_id`, and `active_workers` parts
    /// are still live.
    fn on_progress(&self, worker_id: u8, bytes_since_last: u64, active_workers: usize);
}

/// Hands an event to an observer, if there is an event.
pub fn notify<O: DownloadObserver>(observer: &O, event: Option<ProgressEvent>) {
    match event {
        Some(event) => observer.on_progress(event.worker_id, event.bytes, event.active_workers),
        None => {},
    }
}

} // verus!
