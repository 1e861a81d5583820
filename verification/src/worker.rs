use crate::api::{WorkerCmd, WorkerMsg};
use std::sync::atomic::{AtomicBool, Ordering};
use std::sync::mpsc::{Receiver, SyncSender};
use std::sync::Arc;
use vstd::prelude::*;

verus! {

/// `std::sync::mpsc::SyncSender`, carried as an opaque value.
#[verifier::external_type_specification]
#[verifier::external_body]
#[verifier::reject_recursive_types(T)]
pub struct ExSyncSender<T>(SyncSender<T>);

/// `std::sync::mpsc::Receiver`, carried as an opaque value.
#[verifier::external_type_specification]
#[verifier::external_body]
#[verifier::reject_recursive_types(T)]
pub struct ExReceiver<T>(Receiver<T>);

/// The application's handle on the background writer thread: a bounded
/// command queue, the queue of its reports, and a shared stop flag that the
/// writer checks while streaming.
pub struct ApiWorker {
    pub tx_cmd: SyncSender<WorkerCmd>,
    pub rx_msg: Receiver<WorkerMsg>,
    pub stop_flag: Arc<AtomicBool>,
}

/// `SyncSender::try_send`: queues `cmd` for the writer when the queue has
/// room and the writer is alive; otherwise the command is dropped. Which of
/// the two happens depends on the other thread, so nothing is stated.
#[verifier::external_body]
fn offer(tx: &SyncSender<WorkerCmd>, cmd: WorkerCmd) {
    tx.try_send(cmd).ok();
}

impl ApiWorker {
    /// Queues a command for the writer (dropped when the queue is full).
    pub fn send(&self, cmd: WorkerCmd) {
        offer(&self.tx_cmd, cmd);
    }

    /// Raises the stop flag and queues a stop command.
    pub fn stop(&self) {
        self.stop_flag.store(true, Ordering::SeqCst);
        offer(&self.tx_cmd, WorkerCmd::Stop);
    }

    /// Lowers the stop flag.
    pub fn reset_stop(&self) {
        self.stop_flag.store(false, Ordering::SeqCst);
    }
}

} // verus!
