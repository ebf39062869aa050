//! The errors of the proving service.

use vstd::prelude::*;

verus! {

/// Why a proof request did not produce a proof.
#[derive(Clone, Copy, Debug, PartialEq, Eq, Structural)]
pub enum ProverError {
    /// The witness bytes could not be deserialized; not retried.
    InvalidWitness,
    /// The worker was already computing a proof; retried on another worker.
    Busy,
    /// The proving engine failed on the witness; not retried.
    ProvingFailure,
    /// The worker could not be reached or did not answer in time; retried on another worker.
    Unreachable,
    /// The proxy found no worker to take the request, or ran out of attempts.
    ProxyExhausted,
}

impl ProverError {
    /// Whether the proxy retries a request that met this error on another worker.
    pub fn is_retryable(&self) -> (r: bool)
        ensures
            r == (*self == ProverError::Busy || *self == ProverError::Unreachable),
    {
        match self {
            ProverError::Busy => true,
            ProverError::Unreachable => true,
            _ => false,
        }
    }

    /// A short description of the error.
    pub fn message(&self) -> (r: String) {
        let s = match self {
            ProverError::InvalidWitness => "invalid transaction witness",
            ProverError::Busy => "the worker is busy proving another transaction",
            ProverError::ProvingFailure => "the transaction could not be proven",
            ProverError::Unreachable => "the worker could not be reached",
            ProverError::ProxyExhausted => "no worker is available; retry later",
        };
        s.to_string()
    }
}

} // verus!
