use miden_tx_prover::error::ProverError;
use miden_tx_prover::proxy::{Action, ConfigError, DispatchOutcome, Proxy, ProxyConfig, RequestState};
use miden_tx_prover::registry::WorkerStatus;

fn config(workers: usize, max_retries: u64, max_queue_depth: usize) -> ProxyConfig {
    ProxyConfig {
        worker_addresses: (0..workers).map(|i| format!("10.0.0.{}:50051", i)).collect(),
        request_timeout_ms: 100,
        max_retries,
        health_check_interval_ms: 1000,
        max_queue_depth,
        heartbeat_threshold: 3,
    }
}

fn is_exhausted(a: &Action) -> bool {
    matches!(a, Action::Reply(Err(ProverError::ProxyExhausted)))
}

#[test]
fn config_errors() {
    assert_eq!(config(0, 1, 0).validate(), Err(ConfigError::NoWorkers));
    let mut c = config(2, 1, 0);
    c.worker_addresses[1] = c.worker_addresses[0].clone();
    assert_eq!(c.validate(), Err(ConfigError::DuplicateAddress));
    let mut c = config(2, 1, 0);
    c.request_timeout_ms = 0;
    assert_eq!(c.validate(), Err(ConfigError::ZeroTimeout));
    let mut c = config(2, 1, 0);
    c.health_check_interval_ms = 0;
    assert_eq!(c.validate(), Err(ConfigError::ZeroHealthCheckInterval));
    let mut c = config(2, 1, 0);
    c.heartbeat_threshold = 0;
    assert_eq!(c.validate(), Err(ConfigError::ZeroHeartbeatThreshold));
    assert_eq!(config(2, 1, 0).validate(), Ok(()));
    assert!(Proxy::new(&config(0, 1, 0)).is_err());
}

#[test]
fn saturated_fleet_without_queue_rejects_at_once() {
    let mut p = Proxy::new(&config(3, 2, 0)).unwrap();
    let mut reqs = vec![RequestState::new(), RequestState::new(), RequestState::new()];
    for (i, rq) in reqs.iter_mut().enumerate() {
        assert!(matches!(p.route(rq), Action::Dispatch(w) if w == i));
    }
    let mut extra = RequestState::new();
    assert!(is_exhausted(&p.route(&mut extra)));
    assert_eq!(p.waiting(), 0);
    assert!(!extra.queued);
}

#[test]
fn saturated_fleet_with_queue_waits_then_dispatches() {
    let mut p = Proxy::new(&config(1, 2, 1)).unwrap();
    let mut a = RequestState::new();
    assert!(matches!(p.route(&mut a), Action::Dispatch(0)));
    let mut b = RequestState::new();
    assert!(matches!(p.route(&mut b), Action::Wait));
    assert!(b.queued);
    assert_eq!(p.waiting(), 1);
    let mut c = RequestState::new();
    assert!(is_exhausted(&p.route(&mut c)));
    let done = p.on_outcome(&mut a, 0, DispatchOutcome::Answer(Ok(vec![9])));
    assert!(matches!(done, Action::Reply(Ok(ref v)) if v == &vec![9u8]));
    assert!(matches!(p.route(&mut b), Action::Dispatch(0)));
    assert_eq!(p.waiting(), 0);
    assert!(!b.queued);
}

#[test]
fn waiting_request_expires() {
    let mut p = Proxy::new(&config(1, 0, 2)).unwrap();
    let mut a = RequestState::new();
    assert!(matches!(p.route(&mut a), Action::Dispatch(0)));
    let mut b = RequestState::new();
    assert!(matches!(p.route(&mut b), Action::Wait));
    assert!(is_exhausted(&p.expire(&mut b)));
    assert_eq!(p.waiting(), 0);
}

#[test]
fn transport_failures_retry_up_to_the_bound() {
    let mut p = Proxy::new(&config(5, 2, 0)).unwrap();
    let mut rq = RequestState::new();
    let mut action = p.route(&mut rq);
    let mut dispatches = 0;
    while let Action::Dispatch(w) = action {
        dispatches += 1;
        action = p.on_outcome(&mut rq, w, DispatchOutcome::TransportFailure);
    }
    assert_eq!(dispatches, 3);
    assert!(is_exhausted(&action));
    assert_eq!(rq.attempts, 3);
    for i in 0..3 {
        assert_eq!(p.registry().worker(i).status(), WorkerStatus::Unreachable);
    }
    assert_eq!(p.registry().worker(3).status(), WorkerStatus::Idle);
}

#[test]
fn transport_failures_on_a_small_fleet() {
    let mut p = Proxy::new(&config(2, 5, 0)).unwrap();
    let mut rq = RequestState::new();
    let mut action = p.route(&mut rq);
    let mut dispatches = 0;
    while let Action::Dispatch(w) = action {
        dispatches += 1;
        action = p.on_outcome(&mut rq, w, DispatchOutcome::Answer(Err(ProverError::Unreachable)));
    }
    assert_eq!(dispatches, 2);
    assert!(is_exhausted(&action));
}

#[test]
fn application_errors_pass_through_unchanged() {
    let mut p = Proxy::new(&config(2, 3, 0)).unwrap();
    let mut rq = RequestState::new();
    assert!(matches!(p.route(&mut rq), Action::Dispatch(0)));
    let a = p.on_outcome(&mut rq, 0, DispatchOutcome::Answer(Err(ProverError::InvalidWitness)));
    assert!(matches!(a, Action::Reply(Err(ProverError::InvalidWitness))));
    assert_eq!(p.registry().worker(0).status(), WorkerStatus::Idle);
    let mut rq = RequestState::new();
    assert!(matches!(p.route(&mut rq), Action::Dispatch(1)));
    let a = p.on_outcome(&mut rq, 1, DispatchOutcome::Answer(Err(ProverError::ProvingFailure)));
    assert!(matches!(a, Action::Reply(Err(ProverError::ProvingFailure))));
}

#[test]
fn busy_worker_is_skipped_for_another() {
    let mut p = Proxy::new(&config(2, 3, 0)).unwrap();
    let mut rq = RequestState::new();
    assert!(matches!(p.route(&mut rq), Action::Dispatch(0)));
    let a = p.on_outcome(&mut rq, 0, DispatchOutcome::Answer(Err(ProverError::Busy)));
    assert!(matches!(a, Action::Dispatch(1)));
    assert_eq!(p.registry().worker(0).status(), WorkerStatus::Idle);
    assert_eq!(p.registry().worker(1).status(), WorkerStatus::Busy);
    assert_eq!(rq.attempts, 2);
    let mut other = RequestState::new();
    assert!(matches!(p.route(&mut other), Action::Dispatch(0)));
}

#[test]
fn heartbeats_through_the_proxy() {
    let mut p = Proxy::new(&config(1, 0, 0)).unwrap();
    for t in 0..3 {
        p.heartbeat(0, false, t);
    }
    assert_eq!(p.registry().worker(0).status(), WorkerStatus::Unreachable);
    let mut rq = RequestState::new();
    assert!(is_exhausted(&p.route(&mut rq)));
    p.heartbeat(0, true, 5);
    let mut rq = RequestState::new();
    assert!(matches!(p.route(&mut rq), Action::Dispatch(0)));
}

#[test]
fn transport_failures_with_a_wait_list_end_exhausted() {
    let mut p = Proxy::new(&config(2, 5, 3)).unwrap();
    let mut rq = RequestState::new();
    let mut action = p.route(&mut rq);
    let mut seen = Vec::new();
    while let Action::Dispatch(w) = action {
        assert!(!seen.contains(&w));
        seen.push(w);
        action = p.on_outcome(&mut rq, w, DispatchOutcome::TransportFailure);
    }
    assert_eq!(seen, vec![0, 1]);
    assert!(matches!(action, Action::Wait));
    assert_eq!(p.waiting(), 1);
    assert!(is_exhausted(&p.expire(&mut rq)));
    assert_eq!(p.waiting(), 0);
}
