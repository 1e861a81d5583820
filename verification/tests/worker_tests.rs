use novelai::api::WorkerCmd;
use novelai::worker::ApiWorker;
use std::sync::atomic::{AtomicBool, Ordering};
use std::sync::{mpsc, Arc};

#[test]
fn worker_handle_queues_and_flags() {
    let (tx_cmd, rx_cmd) = mpsc::sync_channel::<WorkerCmd>(8);
    let (_tx_msg, rx_msg) = mpsc::sync_channel(8);
    let w = ApiWorker { tx_cmd, rx_msg, stop_flag: Arc::new(AtomicBool::new(false)) };
    w.send(WorkerCmd::OptimizeOutline { outline: "纲".to_string(), template_name: String::new() });
    w.stop();
    assert!(w.stop_flag.load(Ordering::SeqCst));
    w.reset_stop();
    assert!(!w.stop_flag.load(Ordering::SeqCst));
    assert!(matches!(rx_cmd.try_recv(), Ok(WorkerCmd::OptimizeOutline { .. })));
    assert!(matches!(rx_cmd.try_recv(), Ok(WorkerCmd::Stop)));
}
