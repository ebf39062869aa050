use miden_tx_prover::error::ProverError;
use miden_tx_prover::worker::{ProvingOutcome, Worker};

#[test]
fn concurrent_requests_exactly_one_proceeds() {
    let mut w = Worker::new();
    let first = w.try_begin();
    let second = w.try_begin();
    assert!(first.is_ok() || second.is_ok());
    assert!(first.is_err() || second.is_err());
    assert_eq!(second, Err(ProverError::Busy));
    let r = w.finish(ProvingOutcome::Proved(vec![1, 2, 3]));
    assert_eq!(r, Ok(vec![1, 2, 3]));
    assert!(!w.is_proving());
}

#[test]
fn many_concurrent_requests_one_success() {
    let mut w = Worker::new();
    let results: Vec<Result<(), ProverError>> = (0..5).map(|_| w.try_begin()).collect();
    assert_eq!(results.iter().filter(|r| r.is_ok()).count(), 1);
    assert_eq!(results.iter().filter(|r| **r == Err(ProverError::Busy)).count(), 4);
}

#[test]
fn sequential_resubmission_succeeds_twice() {
    let mut w = Worker::new();
    assert_eq!(w.try_begin(), Ok(()));
    assert_eq!(w.finish(ProvingOutcome::Proved(vec![7])), Ok(vec![7]));
    assert_eq!(w.try_begin(), Ok(()));
    assert_eq!(w.finish(ProvingOutcome::Proved(vec![8])), Ok(vec![8]));
    assert!(!w.is_proving());
}

#[test]
fn malformed_witness_is_invalid_and_releases_guard() {
    let mut w = Worker::new();
    assert_eq!(w.try_begin(), Ok(()));
    assert_eq!(w.finish(ProvingOutcome::MalformedWitness), Err(ProverError::InvalidWitness));
    assert!(!w.is_proving());
    assert_eq!(w.try_begin(), Ok(()));
}

#[test]
fn proving_failure_is_surfaced_and_releases_guard() {
    let mut w = Worker::new();
    assert_eq!(w.try_begin(), Ok(()));
    assert_eq!(w.finish(ProvingOutcome::Failed), Err(ProverError::ProvingFailure));
    assert!(!w.is_proving());
}

#[test]
fn retryable_errors() {
    assert!(ProverError::Busy.is_retryable());
    assert!(ProverError::Unreachable.is_retryable());
    assert!(!ProverError::InvalidWitness.is_retryable());
    assert!(!ProverError::ProvingFailure.is_retryable());
    assert!(!ProverError::ProxyExhausted.is_retryable());
    assert!(!ProverError::ProxyExhausted.message().is_empty());
}

#[test]
fn test_prove_transaction() {
    // Two requests for the same witness reach one worker together.
    let mut w = Worker::new();
    let witness = vec![100u8; 4];
    let response_1 = w.try_begin();
    let response_2 = w.try_begin();
    assert!(response_1.is_ok() || response_2.is_ok());
    assert!(response_1.is_err() || response_2.is_err());
    let proof = w.finish(ProvingOutcome::Proved(witness.clone())).expect("Failed to convert response");
    assert_eq!(proof, witness);
}
