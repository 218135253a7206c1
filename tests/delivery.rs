use journaldeliver::checkpoint::Checkpointer;
use journaldeliver::config::{History, RunType};
use journaldeliver::seek::{start_plan, Anchor};
use journaldeliver::pipeline::{echo_style, produce, recycle_due, Echo, WORKER_RECORD_LIMIT};
use journaldeliver::queue::{BoundedQueue, DELIVERY_CAPACITY};
use journaldeliver::shipper::{ShipAction, ShipEvent, Shipper, RECONNECT_DELAY_MS};
use journaldeliver::supervisor::{
    worker_end_of, Phase, Supervisor, SupervisorAction, SupervisorEvent, WorkerEnd,
    EXIT_FATAL, EXIT_SOURCE_UNAVAILABLE, RESTART_DELAY_MS,
};

#[test]
fn full_queue_hands_item_back() {
    let mut q: BoundedQueue<u32> = BoundedQueue::new(3);
    let mut returned = vec![];
    for i in 0..5u32 {
        if let Err(x) = q.try_push(i) {
            returned.push(x);
        }
    }
    assert!(q.is_full());
    assert_eq!(q.len(), 3);
    assert_eq!(returned, vec![3, 4]);
    assert_eq!(q.pop(), Some(0));
    assert_eq!(q.try_push(3), Ok(()));
    assert_eq!(q.pop(), Some(1));
    assert_eq!(q.pop(), Some(2));
    assert_eq!(q.pop(), Some(3));
    assert_eq!(q.pop(), None);
    assert!(q.is_empty());
}

#[test]
fn stalled_shipper_blocks_producer_without_loss() {
    let mut q: BoundedQueue<u32> = BoundedQueue::new(DELIVERY_CAPACITY);
    assert_eq!(q.capacity(), DELIVERY_CAPACITY);
    let mut blocked_at = None;
    for i in 0..(DELIVERY_CAPACITY as u32 + 10) {
        if q.try_push(i).is_err() {
            blocked_at = Some(i);
            break;
        }
    }
    assert_eq!(blocked_at, Some(DELIVERY_CAPACITY as u32));
    let mut out = vec![];
    while let Some(x) = q.pop() {
        out.push(x);
    }
    assert_eq!(out, (0..DELIVERY_CAPACITY as u32).collect::<Vec<_>>());
}

#[test]
fn shipper_acknowledges_only_after_write() {
    let mut s = Shipper::new();
    assert_eq!(s.step(ShipEvent::Start), ShipAction::Connect);
    assert_eq!(s.step(ShipEvent::Connected), ShipAction::Receive);
    assert_eq!(s.step(ShipEvent::ReceiveTimedOut), ShipAction::Receive);
    let a = s.step(ShipEvent::Received("{}\n".to_string(), "c1".to_string()));
    assert_eq!(a, ShipAction::Send("{}\n".to_string()));
    assert_eq!(s.step(ShipEvent::Written), ShipAction::Acknowledge("c1".to_string()));
    assert_eq!(s.step(ShipEvent::Acknowledged), ShipAction::Receive);
    assert!(s.pending.is_none());
}

#[test]
fn failed_write_resends_same_record_after_reconnect() {
    let mut s = Shipper::new();
    s.step(ShipEvent::Start);
    s.step(ShipEvent::Connected);
    s.step(ShipEvent::Received("L1\n".to_string(), "c1".to_string()));
    assert_eq!(s.step(ShipEvent::WriteFailed), ShipAction::ConnectAfter(RECONNECT_DELAY_MS));
    assert!(!s.connected);
    assert_eq!(s.step(ShipEvent::ConnectFailed), ShipAction::ConnectAfter(RECONNECT_DELAY_MS));
    assert_eq!(s.step(ShipEvent::Connected), ShipAction::Send("L1\n".to_string()));
    assert_eq!(s.step(ShipEvent::Written), ShipAction::Acknowledge("c1".to_string()));
}

#[test]
fn shipper_refuses_out_of_order_events() {
    let s = Shipper::new();
    assert!(!s.accepts(&ShipEvent::Written));
    assert!(!s.accepts(&ShipEvent::Acknowledged));
    assert!(s.accepts(&ShipEvent::Received("x".to_string(), "c".to_string())));
}

#[test]
fn supervisor_restarts_worker_after_any_end() {
    let mut s = Supervisor::new();
    assert_eq!(s.step(SupervisorEvent::Begin), SupervisorAction::Spawn);
    assert_eq!(s.step(SupervisorEvent::Spawned), SupervisorAction::AwaitWorker);
    assert_eq!(
        s.step(SupervisorEvent::WorkerEnded(WorkerEnd::Recycled)),
        SupervisorAction::Spawn
    );
    assert_eq!(s.phase, Phase::Exited);
    assert_eq!(s.step(SupervisorEvent::Spawned), SupervisorAction::AwaitWorker);
    assert_eq!(
        s.step(SupervisorEvent::WorkerEnded(WorkerEnd::Crashed)),
        SupervisorAction::Spawn
    );
    assert_eq!(s.phase, Phase::Crashed);
    s.step(SupervisorEvent::Spawned);
    assert_eq!(
        s.step(SupervisorEvent::WorkerEnded(WorkerEnd::SourceUnavailable)),
        SupervisorAction::SpawnAfter(RESTART_DELAY_MS)
    );
}

#[test]
fn supervisor_stops_on_shutdown_and_fatal_end() {
    let mut s = Supervisor::new();
    s.step(SupervisorEvent::Begin);
    s.step(SupervisorEvent::Spawned);
    assert_eq!(s.step(SupervisorEvent::WorkerEnded(WorkerEnd::Fatal)), SupervisorAction::Stop);
    assert_eq!(s.step(SupervisorEvent::Begin), SupervisorAction::Stop);
    let mut t = Supervisor::new();
    assert_eq!(t.step(SupervisorEvent::Shutdown), SupervisorAction::Stop);
    assert_eq!(t.phase, Phase::Stopped);
    let mut u = Supervisor::new();
    u.step(SupervisorEvent::Begin);
    assert_eq!(u.step(SupervisorEvent::SpawnFailed), SupervisorAction::Stop);
    assert_eq!(Supervisor::new().step(SupervisorEvent::Spawned), SupervisorAction::Ignore);
}

#[test]
fn exit_status_maps_to_worker_end() {
    assert_eq!(worker_end_of(Some(0)), WorkerEnd::Recycled);
    assert_eq!(worker_end_of(Some(EXIT_FATAL)), WorkerEnd::Fatal);
    assert_eq!(worker_end_of(Some(EXIT_SOURCE_UNAVAILABLE)), WorkerEnd::SourceUnavailable);
    assert_eq!(worker_end_of(Some(101)), WorkerEnd::Crashed);
    assert_eq!(worker_end_of(None), WorkerEnd::Crashed);
}

#[test]
fn produce_skips_records_without_cursor() {
    let f = vec![("MESSAGE".to_string(), "m".to_string())];
    assert_eq!(produce(&f, "", Some(0), 0), None);
    let (line, cursor) = produce(&f, "c7", Some(0), 0).unwrap();
    assert_eq!(cursor, "c7");
    assert!(line.ends_with("}\n"));
    assert!(line.contains("\"message\":\"m\""));
}

#[test]
fn echo_depends_on_mode_and_verbosity() {
    assert_eq!(echo_style(RunType::Foreground, 4), Echo::Compact);
    assert_eq!(echo_style(RunType::Foreground, 6), Echo::Compact);
    assert_eq!(echo_style(RunType::Foreground, 7), Echo::Pretty);
    assert_eq!(echo_style(RunType::Foreground, 9), Echo::Pretty);
    assert_eq!(echo_style(RunType::Foreground, 3), Echo::Quiet);
    assert_eq!(echo_style(RunType::Daemon, 5), Echo::Quiet);
}

#[test]
fn worker_recycles_at_limit() {
    assert!(!recycle_due(WORKER_RECORD_LIMIT - 1));
    assert!(recycle_due(WORKER_RECORD_LIMIT));
}

#[test]
fn crash_before_acknowledgment_resumes_from_last_acknowledged() {
    let mut shipper = Shipper::new();
    let mut store = Checkpointer::new("", 0, 0);
    shipper.step(ShipEvent::Start);
    shipper.step(ShipEvent::Connected);
    shipper.step(ShipEvent::Received("L1\n".to_string(), "c1".to_string()));
    if let ShipAction::Acknowledge(c) = shipper.step(ShipEvent::Written) {
        store.acknowledge(c);
    }
    shipper.step(ShipEvent::Acknowledged);
    if let Some(c) = store.poll(1) {
        store.confirm(&c);
    }
    shipper.step(ShipEvent::Received("L2\n".to_string(), "c2".to_string()));
    assert!(matches!(shipper.step(ShipEvent::Written), ShipAction::Acknowledge(_)));
    // The worker dies here: c2 was written but never acknowledged.
    let persisted = store.written.clone();
    assert_eq!(persisted, "c1");
    let plan = start_plan(&persisted, &History::Count(5), 0).unwrap();
    assert_eq!(plan.anchor, Anchor::Cursor("c1".to_string()));
}
