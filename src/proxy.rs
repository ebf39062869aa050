//! The load-balancing proxy: routes each proof request to an idle worker,
//! retries transport failures and busy rejections on other workers, and applies
//! backpressure when the fleet is saturated.
//!
//! The proxy only decides. The caller performs each `Action` (dispatching the
//! witness to a worker, holding the request in the wait list, or replying) and
//! hands the outcome back.

use vstd::prelude::*;
use crate::error::ProverError;
use crate::registry::{
    Registry,
    RegistryView,
    registry_wf,
    select_spec,
    sat_inc,
    complete_spec,
    transport_failure_spec,
    busy_race_spec,
    heartbeat_spec,
    WorkerStatus,
    lemma_select_picks_idle,
    lemma_select_wf,
    lemma_set_status_wf,
    fresh_fleet,
    idle_set,
    lemma_idle_set_finite,
    lemma_select_idle_set,
    first_idle_from,
};

verus! {

/// Why a proxy configuration was refused.
#[derive(Clone, Copy, Debug, PartialEq, Eq, Structural)]
pub enum ConfigError {
    /// No worker address was given.
    NoWorkers,
    /// Two worker addresses are equal.
    DuplicateAddress,
    /// The request timeout is zero.
    ZeroTimeout,
    /// The health-check interval is zero.
    ZeroHealthCheckInterval,
    /// The number of missed heartbeats that makes a worker unreachable is zero.
    ZeroHeartbeatThreshold,
}

/// The proxy's configuration.
#[derive(Clone, Debug)]
pub struct ProxyConfig {
    /// The workers' network addresses.
    pub worker_addresses: Vec<String>,
    /// How long a dispatch may take, in milliseconds.
    pub request_timeout_ms: u64,
    /// How many times a request is retried on another worker after its first attempt.
    pub max_retries: u64,
    /// How often workers are probed, in milliseconds.
    pub health_check_interval_ms: u64,
    /// How many requests may wait for an idle worker; zero rejects at once.
    pub max_queue_depth: usize,
    /// How many heartbeats in a row a worker may miss before it is unreachable.
    pub heartbeat_threshold: u64,
}

/// The first problem of a configuration, checked in the order of `ConfigError`'s
/// variants; `None` when it is valid.
pub open spec fn config_problem(c: ProxyConfig) -> Option<ConfigError> {
    if c.worker_addresses@.len() == 0 {
        Some(ConfigError::NoWorkers)
    } else if exists|i: int, j: int|
        0 <= i < j < c.worker_addresses@.len() && c.worker_addresses@[i]@ == c.worker_addresses@[j]@ {
        Some(ConfigError::DuplicateAddress)
    } else if c.request_timeout_ms == 0 {
        Some(ConfigError::ZeroTimeout)
    } else if c.health_check_interval_ms == 0 {
        Some(ConfigError::ZeroHealthCheckInterval)
    } else if c.heartbeat_threshold == 0 {
        Some(ConfigError::ZeroHeartbeatThreshold)
    } else {
        None
    }
}

/// A request's progress through the proxy.
#[derive(Clone, Copy, Debug, PartialEq, Eq, Structural)]
pub struct RequestState {
    /// The dispatches made for it so far.
    pub attempts: u64,
    /// Whether it holds a place in the wait list.
    pub queued: bool,
}

impl RequestState {
    /// A request that has not been routed yet.
    pub fn new() -> (r: RequestState)
        ensures
            r == (RequestState { attempts: 0, queued: false }),
    {
        RequestState { attempts: 0, queued: false }
    }
}

/// What the proxy tells its caller to do next with a request.
#[derive(Debug)]
pub enum Action {
    /// Send the witness to the worker at this position, with the request timeout.
    Dispatch(usize),
    /// Hold the request until a worker becomes idle or its deadline passes.
    Wait,
    /// Answer the client with this result.
    Reply(Result<Vec<u8>, ProverError>),
}

/// What came of a dispatch.
#[derive(Debug)]
pub enum DispatchOutcome {
    /// The worker answered with this result.
    Answer(Result<Vec<u8>, ProverError>),
    /// The worker could not be reached, or did not answer before the timeout.
    TransportFailure,
}

/// What the proxy holds, as plain values.
pub ghost struct ProxyView {
    pub registry: RegistryView,
    pub waiting: nat,
    pub max_retries: u64,
    pub max_queue_depth: nat,
    pub heartbeat_threshold: u64,
}

/// The proxy's invariant: a well-formed registry and a wait list within its bound.
pub open spec fn proxy_wf(p: ProxyView) -> bool {
    registry_wf(p.registry) && p.waiting <= p.max_queue_depth
}

/// The reply to a request that can be placed nowhere.
pub open spec fn exhausted() -> Action {
    Action::Reply(Err(ProverError::ProxyExhausted))
}

/// The wait list after a request leaves it, if it held a place there.
pub open spec fn leave_queue(p: ProxyView, rq: RequestState) -> ProxyView {
    if rq.queued && p.waiting > 0 {
        ProxyView { waiting: (p.waiting - 1) as nat, ..p }
    } else {
        p
    }
}

/// Routing a request: once it has had `max_retries + 1` attempts it is
/// exhausted; otherwise an idle worker, picked round-robin, gets it; with none
/// idle it waits if it already holds a place in the wait list or one is free,
/// and is exhausted otherwise.
pub open spec fn route_spec(p: ProxyView, rq: RequestState) -> (ProxyView, RequestState, Action) {
    if rq.attempts > p.max_retries {
        (leave_queue(p, rq), RequestState { queued: false, ..rq }, exhausted())
    } else {
        let (reg, sel) = select_spec(p.registry);
        match sel {
            Some(i) => (
                ProxyView { registry: reg, ..leave_queue(p, rq) },
                RequestState { attempts: sat_inc(rq.attempts), queued: false },
                Action::Dispatch(i as usize),
            ),
            None => if rq.queued {
                (p, rq, Action::Wait)
            } else if p.waiting < p.max_queue_depth {
                (ProxyView { waiting: p.waiting + 1, ..p }, RequestState { queued: true, ..rq }, Action::Wait)
            } else {
                (p, rq, exhausted())
            },
        }
    }
}

/// Whether an answer of a worker means the request should go to another worker
/// because that one was reached but busy.
pub open spec fn is_busy_answer(o: DispatchOutcome) -> bool {
    o == DispatchOutcome::Answer(Err(ProverError::Busy))
}

/// Whether an outcome means the worker could not be reached.
pub open spec fn is_transport_failure(o: DispatchOutcome) -> bool {
    o == DispatchOutcome::TransportFailure || o == DispatchOutcome::Answer(Err(ProverError::Unreachable))
}

/// Handling the outcome of dispatching a request to worker `i`: a busy worker
/// is held `Busy` while the request is routed again, so that another worker
/// gets it, and is then idle again; an unreachable one is marked so
/// and the request is routed again; any other answer frees the worker and goes
/// back to the client unchanged.
pub open spec fn outcome_spec(p: ProxyView, rq: RequestState, i: nat, o: DispatchOutcome) -> (
    ProxyView,
    RequestState,
    Action,
) {
    if is_busy_answer(o) {
        let (p1, rq1, a1) = route_spec(ProxyView { registry: busy_race_spec(p.registry, i), ..p }, rq);
        (ProxyView { registry: complete_spec(p1.registry, i), ..p1 }, rq1, a1)
    } else if is_transport_failure(o) {
        route_spec(ProxyView { registry: transport_failure_spec(p.registry, i), ..p }, rq)
    } else {
        (
            ProxyView { registry: complete_spec(p.registry, i), ..p },
            rq,
            match o {
                DispatchOutcome::Answer(r) => Action::Reply(r),
                DispatchOutcome::TransportFailure => exhausted(),
            },
        )
    }
}

/// A request whose deadline passed in the wait list leaves it, exhausted.
pub open spec fn expire_spec(p: ProxyView, rq: RequestState) -> (ProxyView, RequestState, Action) {
    (leave_queue(p, rq), RequestState { queued: false, ..rq }, exhausted())
}

/// The routing state of a proxy.
#[derive(Debug)]
pub struct Proxy {
    registry: Registry,
    waiting: usize,
    max_retries: u64,
    max_queue_depth: usize,
    heartbeat_threshold: u64,
}

impl View for Proxy {
    type V = ProxyView;

    closed spec fn view(&self) -> ProxyView {
        ProxyView {
            registry: self.registry@,
            waiting: self.waiting as nat,
            max_retries: self.max_retries,
            max_queue_depth: self.max_queue_depth as nat,
            heartbeat_threshold: self.heartbeat_threshold,
        }
    }
}

impl ProxyConfig {
    /// Checks the configuration: at least one worker, distinct addresses, and a
    /// non-zero timeout, health-check interval and heartbeat threshold.
    pub fn validate(&self) -> (r: Result<(), ConfigError>)
        ensures
            r.is_ok() <==> config_problem(*self).is_none(),
            r.is_err() ==> r == Err::<(), ConfigError>(config_problem(*self).unwrap()),
    {
        if self.worker_addresses.len() == 0 {
            return Err(ConfigError::NoWorkers);
        }
        match Registry::new(&self.worker_addresses) {
            Err(_) => {
                return Err(ConfigError::DuplicateAddress);
            },
            Ok(_) => {},
        }
        if self.request_timeout_ms == 0 {
            Err(ConfigError::ZeroTimeout)
        } else if self.health_check_interval_ms == 0 {
            Err(ConfigError::ZeroHealthCheckInterval)
        } else if self.heartbeat_threshold == 0 {
            Err(ConfigError::ZeroHeartbeatThreshold)
        } else {
            Ok(())
        }
    }
}

impl Proxy {
    /// A proxy over idle workers at the configured addresses, with an empty wait
    /// list, or the configuration's first problem.
    pub fn new(config: &ProxyConfig) -> (r: Result<Proxy, ConfigError>)
        ensures
            r.is_ok() <==> config_problem(*config).is_none(),
            r.is_err() ==> r == Err::<Proxy, ConfigError>(config_problem(*config).unwrap()),
            r.is_ok() ==> proxy_wf(r.unwrap()@) && r.unwrap()@ == (ProxyView {
                registry: RegistryView {
                    workers: config.worker_addresses@.map_values(
                        |a: String| crate::registry::initial_handle(a@),
                    ),
                    cursor: 0,
                },
                waiting: 0,
                max_retries: config.max_retries,
                max_queue_depth: config.max_queue_depth as nat,
                heartbeat_threshold: config.heartbeat_threshold,
            }),
    {
        match config.validate() {
            Err(e) => Err(e),
            Ok(()) => match Registry::new(&config.worker_addresses) {
                Err(_) => Err(ConfigError::DuplicateAddress),
                Ok(registry) => Ok(
                    Proxy {
                        registry,
                        waiting: 0,
                        max_retries: config.max_retries,
                        max_queue_depth: config.max_queue_depth,
                        heartbeat_threshold: config.heartbeat_threshold,
                    },
                ),
            },
        }
    }

    /// The worker registry.
    pub fn registry(&self) -> (r: &Registry)
        ensures
            r@ == self@.registry,
    {
        &self.registry
    }

    /// The number of requests in the wait list.
    pub fn waiting(&self) -> (r: usize)
        ensures
            r == self@.waiting,
    {
        self.waiting
    }

    fn leave_queue(&mut self, rq: &mut RequestState)
        ensures
            final(self)@ == leave_queue(old(self)@, *old(rq)),
            *final(rq) == (RequestState { queued: false, ..*old(rq) }),
    {
        if rq.queued && self.waiting > 0 {
            self.waiting = self.waiting - 1;
        }
        rq.queued = false;
    }

    /// Decides where a request goes next (see `route_spec`).
    pub fn route(&mut self, rq: &mut RequestState) -> (r: Action)
        requires
            proxy_wf(old(self)@),
        ensures
            proxy_wf(final(self)@),
            (final(self)@, *final(rq), r) == route_spec(old(self)@, *old(rq)),
    {
        if rq.attempts > self.max_retries {
            self.leave_queue(rq);
            return Action::Reply(Err(ProverError::ProxyExhausted));
        }
        match self.registry.select() {
            Some(i) => {
                self.leave_queue(rq);
                rq.attempts = if rq.attempts < u64::MAX { rq.attempts + 1 } else { rq.attempts };
                Action::Dispatch(i)
            },
            None => {
                if rq.queued {
                    Action::Wait
                } else if self.waiting < self.max_queue_depth {
                    self.waiting = self.waiting + 1;
                    rq.queued = true;
                    Action::Wait
                } else {
                    Action::Reply(Err(ProverError::ProxyExhausted))
                }
            },
        }
    }

    /// Handles what came of dispatching a request to worker `worker` (see
    /// `outcome_spec`).
    pub fn on_outcome(&mut self, rq: &mut RequestState, worker: usize, outcome: DispatchOutcome) -> (r: Action)
        requires
            proxy_wf(old(self)@),
            worker < old(self)@.registry.workers.len(),
        ensures
            proxy_wf(final(self)@),
            (final(self)@, *final(rq), r) == outcome_spec(old(self)@, *old(rq), worker as nat, outcome),
    {
        match outcome {
            DispatchOutcome::Answer(Err(ProverError::Busy)) => {
                self.registry.busy_race(worker);
                proof {
                    lemma_select_wf(self@.registry);
                }
                let next = self.route(rq);
                self.registry.complete(worker);
                next
            },
            DispatchOutcome::Answer(Err(ProverError::Unreachable)) => {
                self.registry.transport_failure(worker);
                self.route(rq)
            },
            DispatchOutcome::TransportFailure => {
                self.registry.transport_failure(worker);
                self.route(rq)
            },
            DispatchOutcome::Answer(r) => {
                self.registry.complete(worker);
                Action::Reply(r)
            },
        }
    }

    /// Gives up on a request whose deadline passed while it waited.
    pub fn expire(&mut self, rq: &mut RequestState) -> (r: Action)
        requires
            proxy_wf(old(self)@),
        ensures
            proxy_wf(final(self)@),
            (final(self)@, *final(rq), r) == expire_spec(old(self)@, *old(rq)),
    {
        self.leave_queue(rq);
        Action::Reply(Err(ProverError::ProxyExhausted))
    }

    /// Records the result of a heartbeat probe of worker `worker` at time `now`,
    /// with the configured threshold of missed heartbeats.
    pub fn heartbeat(&mut self, worker: usize, ok: bool, now: u64)
        requires
            proxy_wf(old(self)@),
            worker < old(self)@.registry.workers.len(),
        ensures
            proxy_wf(final(self)@),
            final(self)@ == (ProxyView {
                registry: heartbeat_spec(old(self)@.registry, worker as nat, ok, now, old(self)@.heartbeat_threshold),
                ..old(self)@
            }),
    {
        let t = self.heartbeat_threshold;
        self.registry.heartbeat(worker, ok, now, t);
    }
}

/// A request that has not been routed yet.
pub open spec fn fresh_request() -> RequestState {
    RequestState { attempts: 0, queued: false }
}

/// With no wait list and no idle worker, a request that holds no place in the
/// wait list is answered `ProxyExhausted` at once, and nothing changes.
pub proof fn lemma_saturated_fleet_rejects(p: ProxyView, rq: RequestState)
    requires
        proxy_wf(p),
        p.max_queue_depth == 0,
        !rq.queued,
        forall|j: int| 0 <= j < p.registry.workers.len() ==> p.registry.workers[j].status != WorkerStatus::Idle,
    ensures
        route_spec(p, rq) == (p, rq, exhausted()),
{
    lemma_select_picks_idle(p.registry);
    assert(RequestState { queued: false, ..rq } == rq);
}

/// A malformed witness is answered `InvalidWitness` by the worker that took it,
/// and the proxy hands that answer to the client unchanged, never `Busy` or
/// `Unreachable`, and frees the worker.
pub proof fn lemma_invalid_witness_passes_through(p: ProxyView, rq: RequestState, i: nat)
    ensures
        outcome_spec(p, rq, i, DispatchOutcome::Answer(Err(ProverError::InvalidWitness))).2
            == Action::Reply(Err(ProverError::InvalidWitness)),
        outcome_spec(p, rq, i, DispatchOutcome::Answer(Err(ProverError::InvalidWitness))).0.registry
            == complete_spec(p.registry, i),
{
}

/// Following a request from the action `a`, where every dispatch fails at the
/// transport level and a request that waits stays there until its deadline, for
/// at most `fuel` failed dispatches: the last action, and the workers dispatched
/// to, in order.
pub open spec fn failing_run(p: ProxyView, rq: RequestState, a: Action, fuel: nat) -> (Action, Seq<nat>)
    decreases fuel,
{
    match a {
        Action::Dispatch(i) => if fuel == 0 {
            (a, seq![i as nat])
        } else {
            let (p1, rq1, a1) = outcome_spec(p, rq, i as nat, DispatchOutcome::TransportFailure);
            let (last, rest) = failing_run(p1, rq1, a1, (fuel - 1) as nat);
            (last, seq![i as nat] + rest)
        },
        Action::Wait => (expire_spec(p, rq).2, Seq::empty()),
        Action::Reply(_) => (a, Seq::empty()),
    }
}

/// The smaller of two integers.
pub open spec fn min_int(a: int, b: int) -> int {
    if a <= b {
        a
    } else {
        b
    }
}

proof fn lemma_failing_run(p: ProxyView, rq: RequestState, i: usize, fuel: nat)
    requires
        proxy_wf(p),
        !rq.queued,
        p.registry.workers.len() <= usize::MAX,
        i < p.registry.workers.len(),
        p.registry.workers[i as int].status == WorkerStatus::Busy,
        1 <= rq.attempts <= p.max_retries + 1,
        rq.attempts + idle_set(p.registry.workers).len() < u64::MAX,
        fuel >= idle_set(p.registry.workers).len() + 1,
    ensures
        failing_run(p, rq, Action::Dispatch(i), fuel).0 == exhausted(),
        failing_run(p, rq, Action::Dispatch(i), fuel).1.len() == 1 + min_int(
            p.max_retries + 1 - rq.attempts,
            idle_set(p.registry.workers).len() as int,
        ),
        failing_run(p, rq, Action::Dispatch(i), fuel).1[0] == i,
        forall|k: int|
            1 <= k < failing_run(p, rq, Action::Dispatch(i), fuel).1.len() ==> idle_set(p.registry.workers).contains(
                #[trigger] failing_run(p, rq, Action::Dispatch(i), fuel).1[k] as int,
            ),
        failing_run(p, rq, Action::Dispatch(i), fuel).1.no_duplicates(),
    decreases fuel,
{
    let ws = p.registry.workers;
    lemma_idle_set_finite(ws);
    let reg1 = transport_failure_spec(p.registry, i as nat);
    lemma_set_status_wf(p.registry, i as nat, WorkerStatus::Unreachable);
    assert(idle_set(reg1.workers) =~= idle_set(ws));
    let p1 = ProxyView { registry: reg1, ..p };
    lemma_select_picks_idle(reg1);
    lemma_select_wf(reg1);
    lemma_select_idle_set(reg1);
    let (p2, rq2, a2) = route_spec(p1, rq);
    assert(outcome_spec(p, rq, i as nat, DispatchOutcome::TransportFailure) == (p2, rq2, a2));
    let ds = failing_run(p, rq, Action::Dispatch(i), fuel).1;
    let rest = failing_run(p2, rq2, a2, (fuel - 1) as nat).1;
    assert(ds == seq![i as nat] + rest);
    if let Action::Dispatch(j) = a2 {
        let sel = select_spec(reg1);
        assert(sel.1 == Some(j as nat));
        vstd::set::axiom_set_remove_len(idle_set(ws), j as int);
        lemma_failing_run(p2, rq2, j, (fuel - 1) as nat);
        assert forall|k: int| 1 <= k < ds.len() implies idle_set(ws).contains(#[trigger] ds[k] as int) by {
            assert(ds[k] == rest[k - 1]);
        };
        assert forall|a: int, b: int| 0 <= a < b < ds.len() implies ds[a] != ds[b] by {
            assert(ds[b] == rest[b - 1]);
            if a > 0 {
                assert(ds[a] == rest[a - 1]);
            }
        };
    } else {
        if rq.attempts <= p.max_retries {
            assert(select_spec(reg1).1 is None);
            assert(idle_set(ws).len() == 0);
        }
    }
}

/// A request against a fleet where every dispatch fails at the transport level
/// is dispatched to no worker twice, to `min(max_retries + 1, I)` workers in
/// all, where `I` is the number of idle workers when it arrives, and is then
/// answered `ProxyExhausted`, at once or, where it waits, when its deadline
/// passes; the transport failure itself never reaches the client.
pub proof fn lemma_retries_bounded(p: ProxyView)
    requires
        proxy_wf(p),
        p.registry.workers.len() <= usize::MAX,
        p.registry.workers.len() < u64::MAX,
    ensures
        ({
            let (p1, rq1, a1) = route_spec(p, fresh_request());
            let (last, ds) = failing_run(p1, rq1, a1, p.registry.workers.len());
            &&& last == exhausted()
            &&& ds.len() == min_int(p.max_retries + 1, idle_set(p.registry.workers).len() as int)
            &&& ds.len() <= p.max_retries + 1
            &&& ds.no_duplicates()
            &&& forall|k: int| 0 <= k < ds.len() ==> idle_set(p.registry.workers).contains(#[trigger] ds[k] as int)
        }),
{
    let ws = p.registry.workers;
    lemma_idle_set_finite(ws);
    lemma_select_picks_idle(p.registry);
    lemma_select_wf(p.registry);
    lemma_select_idle_set(p.registry);
    let (p1, rq1, a1) = route_spec(p, fresh_request());
    if let Action::Dispatch(i) = a1 {
        vstd::set::axiom_set_remove_len(idle_set(ws), i as int);
        lemma_failing_run(p1, rq1, i, ws.len());
        let ds = failing_run(p1, rq1, a1, ws.len()).1;
        assert forall|k: int| 0 <= k < ds.len() implies idle_set(ws).contains(#[trigger] ds[k] as int) by {
            if k > 0 {
                assert(idle_set(p1.registry.workers).contains(ds[k] as int));
            }
        };
    } else {
        assert(idle_set(ws).len() == 0);
    }
}

/// `j` fresh requests routed one after another, none answered yet.
pub open spec fn fresh_routes(p: ProxyView, j: nat) -> ProxyView
    decreases j,
{
    if j == 0 {
        p
    } else {
        route_spec(fresh_routes(p, (j - 1) as nat), fresh_request()).0
    }
}

proof fn lemma_fresh_routes(p: ProxyView, j: nat)
    requires
        proxy_wf(p),
        fresh_fleet(p.registry),
        p.max_queue_depth == 0,
        j <= p.registry.workers.len(),
    ensures
        proxy_wf(fresh_routes(p, j)),
        fresh_routes(p, j).max_queue_depth == 0,
        fresh_routes(p, j).registry.workers.len() == p.registry.workers.len(),
        fresh_routes(p, j).registry.cursor == if j < p.registry.workers.len() { j } else { 0 },
        forall|k: int|
            0 <= k < p.registry.workers.len() ==> (k < j ==> (#[trigger] fresh_routes(p, j).registry.workers[k]).status
                == WorkerStatus::Busy) && (k >= j ==> fresh_routes(p, j).registry.workers[k]
                == p.registry.workers[k]),
    decreases j,
{
    if j > 0 {
        let n = p.registry.workers.len();
        lemma_fresh_routes(p, (j - 1) as nat);
        let u = fresh_routes(p, (j - 1) as nat);
        assert(first_idle_from(u.registry.workers, u.registry.cursor, 0) == Some((j - 1) as nat));
        lemma_select_wf(u.registry);
        let w = fresh_routes(p, j);
        assert(w == route_spec(u, fresh_request()).0);
        assert forall|k: int| 0 <= k < n implies (k < j ==> (#[trigger] w.registry.workers[k]).status
            == WorkerStatus::Busy) && (k >= j ==> w.registry.workers[k] == p.registry.workers[k]) by {
            if k != j - 1 {
                assert(w.registry.workers[k] == u.registry.workers[k]);
            }
        };
    }
}

/// With no wait list, `K` fresh requests to a fresh fleet of `K` idle workers
/// go one to each worker in turn and leave every worker busy; the next one is
/// answered `ProxyExhausted` at once, and nothing changes.
pub proof fn lemma_fleet_saturates(p: ProxyView)
    requires
        proxy_wf(p),
        fresh_fleet(p.registry),
        p.max_queue_depth == 0,
    ensures
        forall|j: nat|
            j < p.registry.workers.len() ==> #[trigger] route_spec(fresh_routes(p, j), fresh_request()).2
                == Action::Dispatch(j as usize),
        forall|k: int|
            0 <= k < p.registry.workers.len() ==> (#[trigger] fresh_routes(p, p.registry.workers.len()).registry.workers[k]).status
                == WorkerStatus::Busy,
        route_spec(fresh_routes(p, p.registry.workers.len()), fresh_request()) == (
            fresh_routes(p, p.registry.workers.len()),
            fresh_request(),
            exhausted(),
        ),
{
    let n = p.registry.workers.len();
    assert forall|j: nat| j < n implies #[trigger] route_spec(fresh_routes(p, j), fresh_request()).2
        == Action::Dispatch(j as usize) by {
        lemma_fresh_routes(p, j);
        let u = fresh_routes(p, j);
        assert(first_idle_from(u.registry.workers, u.registry.cursor, 0) == Some(j));
    };
    lemma_fresh_routes(p, n);
    lemma_saturated_fleet_rejects(fresh_routes(p, n), fresh_request());
}

} // verus!
