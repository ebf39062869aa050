use miden_tx_prover::registry::{Registry, RegistryError, WorkerStatus};

fn addrs(n: usize) -> Vec<String> {
    (0..n).map(|i| format!("127.0.0.1:{}", 50051 + i)).collect()
}

#[test]
fn new_registry_is_idle_in_order() {
    let r = Registry::new(&addrs(3)).unwrap();
    assert_eq!(r.len(), 3);
    assert_eq!(r.cursor(), 0);
    for i in 0..3 {
        let h = r.worker(i);
        assert_eq!(h.address(), &format!("127.0.0.1:{}", 50051 + i));
        assert_eq!(h.status(), WorkerStatus::Idle);
        assert_eq!(h.in_flight(), 0);
        assert_eq!(h.dispatch_count(), 0);
    }
}

#[test]
fn duplicate_addresses_are_refused() {
    let a = vec!["a:1".to_string(), "b:2".to_string(), "a:1".to_string()];
    assert_eq!(Registry::new(&a).unwrap_err(), RegistryError::DuplicateAddress);
    let mut r = Registry::new(&addrs(2)).unwrap();
    assert_eq!(r.register("127.0.0.1:50051".to_string()), Err(RegistryError::DuplicateAddress));
    assert_eq!(r.register("10.0.0.1:1".to_string()), Ok(2));
    assert_eq!(r.position(&"10.0.0.1:1".to_string()), Some(2));
    assert_eq!(r.position(&"nowhere".to_string()), None);
}

#[test]
fn select_is_round_robin_and_claims() {
    let mut r = Registry::new(&addrs(3)).unwrap();
    assert_eq!(r.select(), Some(0));
    assert_eq!(r.worker(0).status(), WorkerStatus::Busy);
    assert_eq!(r.worker(0).in_flight(), 1);
    assert_eq!(r.select(), Some(1));
    assert_eq!(r.select(), Some(2));
    assert_eq!(r.select(), None);
    assert!(!r.has_idle());
    r.complete(1);
    assert_eq!(r.worker(1).status(), WorkerStatus::Idle);
    assert_eq!(r.select(), Some(1));
}

#[test]
fn sequential_dispatches_are_fair() {
    let mut r = Registry::new(&addrs(3)).unwrap();
    for _ in 0..7 {
        let i = r.select().unwrap();
        r.complete(i);
    }
    assert_eq!(r.worker(0).dispatch_count(), 3);
    assert_eq!(r.worker(1).dispatch_count(), 2);
    assert_eq!(r.worker(2).dispatch_count(), 2);
    assert_eq!(r.cursor(), 1);
}

#[test]
fn missed_heartbeats_make_unreachable_and_one_success_recovers() {
    let mut r = Registry::new(&addrs(2)).unwrap();
    r.heartbeat(0, false, 10, 2);
    assert_eq!(r.worker(0).status(), WorkerStatus::Idle);
    assert_eq!(r.worker(0).missed_heartbeats(), 1);
    r.heartbeat(0, false, 20, 2);
    assert_eq!(r.worker(0).status(), WorkerStatus::Unreachable);
    assert_eq!(r.select(), Some(1));
    r.complete(1);
    assert_eq!(r.select(), Some(1));
    r.complete(1);
    r.heartbeat(0, true, 30, 2);
    assert_eq!(r.worker(0).status(), WorkerStatus::Idle);
    assert_eq!(r.worker(0).missed_heartbeats(), 0);
    assert_eq!(r.worker(0).last_heartbeat(), 30);
    assert_eq!(r.select(), Some(0));
}

#[test]
fn heartbeat_leaves_in_flight_worker_alone() {
    let mut r = Registry::new(&addrs(2)).unwrap();
    assert_eq!(r.select(), Some(0));
    r.heartbeat(0, false, 10, 1);
    assert_eq!(r.worker(0).status(), WorkerStatus::Busy);
    assert_eq!(r.probe_targets(), vec![1]);
}

#[test]
fn dispatch_failures_update_status() {
    let mut r = Registry::new(&addrs(2)).unwrap();
    assert_eq!(r.select(), Some(0));
    r.transport_failure(0);
    assert_eq!(r.worker(0).status(), WorkerStatus::Unreachable);
    assert_eq!(r.worker(0).in_flight(), 0);
    assert_eq!(r.select(), Some(1));
    r.busy_race(1);
    assert_eq!(r.worker(1).status(), WorkerStatus::Busy);
    assert_eq!(r.worker(1).in_flight(), 0);
    assert_eq!(r.select(), None);
    assert_eq!(r.probe_targets(), vec![0]);
}

#[test]
fn heartbeat_leaves_busy_worker_alone() {
    let mut r = Registry::new(&addrs(2)).unwrap();
    assert_eq!(r.select(), Some(0));
    r.busy_race(0);
    r.heartbeat(0, true, 10, 1);
    assert_eq!(r.worker(0).status(), WorkerStatus::Busy);
    assert_eq!(r.worker(0).last_heartbeat(), 0);
    r.heartbeat(0, false, 20, 1);
    assert_eq!(r.worker(0).status(), WorkerStatus::Busy);
    assert_eq!(r.worker(0).missed_heartbeats(), 0);
    assert_eq!(r.worker(0).dispatch_count(), 1);
}
