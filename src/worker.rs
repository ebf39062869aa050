//! The worker's single-flight guard: at most one proof is computed at a time, and
//! a request that arrives while one is in progress is rejected, never queued.

use vstd::prelude::*;
use crate::error::ProverError;

verus! {

/// What became of a witness once the guard was acquired.
#[derive(Debug)]
pub enum ProvingOutcome {
    /// The witness bytes did not deserialize.
    MalformedWitness,
    /// The proving engine failed on the witness.
    Failed,
    /// The proving engine produced this serialized proof.
    Proved(Vec<u8>),
}

/// The guard state and the result of one attempt to start a proof, given whether
/// a proof was already in progress.
pub open spec fn begin_spec(in_progress: bool) -> (bool, Result<(), ProverError>) {
    if in_progress {
        (true, Err(ProverError::Busy))
    } else {
        (true, Ok(()))
    }
}

/// The guard state and the answer of a worker after a proof attempt that ended
/// with `outcome`: the guard is released whatever the outcome.
pub open spec fn finish_spec(outcome: ProvingOutcome) -> (bool, Result<Vec<u8>, ProverError>) {
    (
        false,
        match outcome {
            ProvingOutcome::MalformedWitness => Err(ProverError::InvalidWitness),
            ProvingOutcome::Failed => Err(ProverError::ProvingFailure),
            ProvingOutcome::Proved(p) => Ok(p),
        },
    )
}

/// A worker's single-flight guard.
#[derive(Debug)]
pub struct Worker {
    in_progress: bool,
}

impl View for Worker {
    /// Whether a proof is in progress.
    type V = bool;

    closed spec fn view(&self) -> bool {
        self.in_progress
    }
}

impl Worker {
    /// A worker with no proof in progress.
    pub fn new() -> (r: Worker)
        ensures
            !r@,
    {
        Worker { in_progress: false }
    }

    /// Whether a proof is in progress.
    pub fn is_proving(&self) -> (r: bool)
        ensures
            r == self@,
    {
        self.in_progress
    }

    /// Tries to acquire the guard without waiting: fails with `Busy` while a proof
    /// is in progress, and otherwise marks one as started.
    pub fn try_begin(&mut self) -> (r: Result<(), ProverError>)
        ensures
            (final(self)@, r) == begin_spec(old(self)@),
    {
        if self.in_progress {
            Err(ProverError::Busy)
        } else {
            self.in_progress = true;
            Ok(())
        }
    }

    /// Ends the proof in progress, releasing the guard on every outcome, and gives
    /// the answer for it: the proof, `InvalidWitness` or `ProvingFailure`.
    pub fn finish(&mut self, outcome: ProvingOutcome) -> (r: Result<Vec<u8>, ProverError>)
        requires
            old(self)@,
        ensures
            (final(self)@, r) == finish_spec(outcome),
    {
        self.in_progress = false;
        match outcome {
            ProvingOutcome::MalformedWitness => Err(ProverError::InvalidWitness),
            ProvingOutcome::Failed => Err(ProverError::ProvingFailure),
            ProvingOutcome::Proved(p) => Ok(p),
        }
    }
}

/// The answers to `n` attempts to start a proof that arrive together, none
/// finishing before the last has arrived, from a guard in state `in_progress`.
pub open spec fn concurrent_begins(in_progress: bool, n: nat) -> Seq<Result<(), ProverError>>
    decreases n,
{
    if n == 0 {
        Seq::empty()
    } else {
        let (next, r) = begin_spec(in_progress);
        seq![r] + concurrent_begins(next, (n - 1) as nat)
    }
}

/// The number of successes among attempts' answers.
pub open spec fn count_ok(rs: Seq<Result<(), ProverError>>) -> nat
    decreases rs.len(),
{
    if rs.len() == 0 {
        0
    } else {
        (if rs[0] is Ok { 1nat } else { 0nat }) + count_ok(rs.subrange(1, rs.len() as int))
    }
}

proof fn lemma_busy_begins(n: nat)
    ensures
        concurrent_begins(true, n).len() == n,
        forall|i: int| 0 <= i < n ==> concurrent_begins(true, n)[i] == Err::<(), ProverError>(ProverError::Busy),
        count_ok(concurrent_begins(true, n)) == 0,
    decreases n,
{
    if n > 0 {
        lemma_busy_begins((n - 1) as nat);
        let rs = concurrent_begins(true, n);
        let rest = concurrent_begins(true, (n - 1) as nat);
        assert(rs =~= seq![Err::<(), ProverError>(ProverError::Busy)] + rest);
        assert(rs.subrange(1, rs.len() as int) =~= rest);
    }
}

/// Of `n >= 1` attempts that reach a worker with no proof in progress together,
/// exactly one acquires the guard and every other fails with `Busy`.
pub proof fn lemma_single_flight(n: nat)
    requires
        n >= 1,
    ensures
        concurrent_begins(false, n).len() == n,
        count_ok(concurrent_begins(false, n)) == 1,
        forall|i: int| 0 <= i < n && concurrent_begins(false, n)[i] != Ok::<(), ProverError>(()) ==>
            concurrent_begins(false, n)[i] == Err::<(), ProverError>(ProverError::Busy),
{
    let rs = concurrent_begins(false, n);
    let rest = concurrent_begins(true, (n - 1) as nat);
    lemma_busy_begins((n - 1) as nat);
    assert(rs =~= seq![Ok::<(), ProverError>(())] + rest);
    assert(rs.subrange(1, rs.len() as int) =~= rest);
}

/// Submitting the same witness twice in sequence to an idle worker succeeds both
/// times: the first attempt acquires the guard, its end releases it, and the
/// second attempt, made in the state the first left, acquires it again.
pub proof fn lemma_sequential_resubmission(first: Vec<u8>, second: Vec<u8>)
    ensures
        ({
            let (held1, begin1) = begin_spec(false);
            let (free1, answer1) = finish_spec(ProvingOutcome::Proved(first));
            let (held2, begin2) = begin_spec(free1);
            let (free2, answer2) = finish_spec(ProvingOutcome::Proved(second));
            &&& begin1 is Ok && held1
            &&& answer1 == Ok::<Vec<u8>, ProverError>(first)
            &&& begin2 is Ok && held2
            &&& answer2 == Ok::<Vec<u8>, ProverError>(second)
            &&& !free2
        }),
{
}

/// A malformed witness sent to a worker with no proof in progress always gets
/// `InvalidWitness`, never `Busy` or `Unreachable`.
pub proof fn lemma_malformed_witness_at_worker()
    ensures
        begin_spec(false).1 is Ok,
        finish_spec(ProvingOutcome::MalformedWitness) == (false, Err::<Vec<u8>, ProverError>(ProverError::InvalidWitness)),
{
}

} // verus!
