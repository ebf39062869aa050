//! The worker registry: each known worker's status, load and health, and the
//! transitions that dispatches and heartbeats make on it.

use vstd::prelude::*;
use vstd::arithmetic::div_mod::lemma_fundamental_div_mod_converse;

verus! {

/// Where a worker stands, as far as the proxy knows.
#[derive(Clone, Copy, Debug, PartialEq, Eq, Structural)]
pub enum WorkerStatus {
    /// Reachable and free: eligible for dispatch.
    Idle,
    /// Computing a proof.
    Busy,
    /// Failed a dispatch at the transport level or missed its heartbeats.
    Unreachable,
}

/// What a worker handle holds, as plain values.
pub ghost struct HandleView {
    pub address: Seq<char>,
    pub status: WorkerStatus,
    pub in_flight: u8,
    pub last_heartbeat: u64,
    pub missed_heartbeats: u64,
    pub dispatch_count: u64,
}

/// One more, unless already at the largest `u64`.
pub open spec fn sat_inc(x: u64) -> u64 {
    if x < u64::MAX {
        (x + 1) as u64
    } else {
        x
    }
}

/// A freshly registered worker.
pub open spec fn initial_handle(address: Seq<char>) -> HandleView {
    HandleView {
        address,
        status: WorkerStatus::Idle,
        in_flight: 0,
        last_heartbeat: 0,
        missed_heartbeats: 0,
        dispatch_count: 0,
    }
}

/// The proxy's record of one worker.
#[derive(Debug)]
pub struct WorkerHandle {
    address: String,
    status: WorkerStatus,
    in_flight: u8,
    last_heartbeat: u64,
    missed_heartbeats: u64,
    dispatch_count: u64,
}

impl View for WorkerHandle {
    type V = HandleView;

    closed spec fn view(&self) -> HandleView {
        HandleView {
            address: self.address@,
            status: self.status,
            in_flight: self.in_flight,
            last_heartbeat: self.last_heartbeat,
            missed_heartbeats: self.missed_heartbeats,
            dispatch_count: self.dispatch_count,
        }
    }
}

impl WorkerHandle {
    /// The worker's network address.
    pub fn address(&self) -> (r: &String)
        ensures
            r@ == self@.address,
    {
        &self.address
    }

    /// The worker's status.
    pub fn status(&self) -> (r: WorkerStatus)
        ensures
            r == self@.status,
    {
        self.status
    }

    /// The number of proofs the proxy has dispatched to the worker and not yet seen end.
    pub fn in_flight(&self) -> (r: u8)
        ensures
            r == self@.in_flight,
    {
        self.in_flight
    }

    /// The time of the worker's last successful heartbeat.
    pub fn last_heartbeat(&self) -> (r: u64)
        ensures
            r == self@.last_heartbeat,
    {
        self.last_heartbeat
    }

    /// The number of heartbeats the worker has missed in a row.
    pub fn missed_heartbeats(&self) -> (r: u64)
        ensures
            r == self@.missed_heartbeats,
    {
        self.missed_heartbeats
    }

    /// The number of requests dispatched to the worker so far.
    pub fn dispatch_count(&self) -> (r: u64)
        ensures
            r == self@.dispatch_count,
    {
        self.dispatch_count
    }
}

/// What a registry holds: its workers in order of registration, and the
/// round-robin cursor, where the next search for an idle worker starts.
pub ghost struct RegistryView {
    pub workers: Seq<HandleView>,
    pub cursor: nat,
}

/// No two workers share an address.
pub open spec fn addresses_unique(ws: Seq<HandleView>) -> bool {
    forall|i: int, j: int| 0 <= i < j < ws.len() ==> ws[i].address != ws[j].address
}

/// The registry's invariant: unique addresses, a cursor on a worker (or zero when
/// there is none), at most one dispatch in flight per worker, and a worker with one
/// in flight marked `Busy`.
pub open spec fn registry_wf(v: RegistryView) -> bool {
    &&& addresses_unique(v.workers)
    &&& (if v.workers.len() == 0 { v.cursor == 0 } else { v.cursor < v.workers.len() })
    &&& forall|i: int| 0 <= i < v.workers.len() ==> #[trigger] v.workers[i].in_flight <= 1
    &&& forall|i: int|
        0 <= i < v.workers.len() && #[trigger] v.workers[i].in_flight == 1 ==> v.workers[i].status
            == WorkerStatus::Busy
}

/// The position `k` steps after `start`, going round `n` positions.
pub open spec fn wrap(start: nat, k: nat, n: nat) -> nat {
    if start + k < n {
        start + k
    } else {
        (start + k - n) as nat
    }
}

/// The first idle worker met going round from `start`, skipping the first `k` steps.
pub open spec fn first_idle_from(ws: Seq<HandleView>, start: nat, k: nat) -> Option<nat>
    decreases ws.len() - k,
{
    if k >= ws.len() {
        None
    } else if ws[wrap(start, k, ws.len()) as int].status == WorkerStatus::Idle {
        Some(wrap(start, k, ws.len()))
    } else {
        first_idle_from(ws, start, k + 1)
    }
}

/// A worker claimed for a dispatch.
pub open spec fn claimed(h: HandleView) -> HandleView {
    HandleView {
        status: WorkerStatus::Busy,
        in_flight: 1,
        dispatch_count: sat_inc(h.dispatch_count),
        ..h
    }
}

/// Round-robin selection: the first idle worker from the cursor on is claimed and
/// the cursor moves just past it; with no idle worker nothing changes.
pub open spec fn select_spec(v: RegistryView) -> (RegistryView, Option<nat>) {
    match first_idle_from(v.workers, v.cursor, 0) {
        Some(i) => (
            RegistryView {
                workers: v.workers.update(i as int, claimed(v.workers[i as int])),
                cursor: if i + 1 < v.workers.len() { (i + 1) as nat } else { 0 },
            },
            Some(i),
        ),
        None => (v, None),
    }
}

/// A selected position as a natural number.
pub open spec fn as_index(r: Option<usize>) -> Option<nat> {
    match r {
        Some(i) => Some(i as nat),
        None => None,
    }
}

/// Worker `i` with the given status and nothing in flight.
pub open spec fn set_status(v: RegistryView, i: nat, status: WorkerStatus) -> RegistryView {
    RegistryView {
        workers: v.workers.update(i as int, HandleView { status, in_flight: 0, ..v.workers[i as int] }),
        ..v
    }
}

/// A dispatch to worker `i` ended with an answer from the worker: it is idle again.
pub open spec fn complete_spec(v: RegistryView, i: nat) -> RegistryView {
    set_status(v, i, WorkerStatus::Idle)
}

/// A dispatch to worker `i` failed at the transport level: it is unreachable.
pub open spec fn transport_failure_spec(v: RegistryView, i: nat) -> RegistryView {
    set_status(v, i, WorkerStatus::Unreachable)
}

/// A dispatch to worker `i` met a worker busy with a request from elsewhere: it
/// is held `Busy`, without a dispatch of the proxy in flight, while the request
/// is routed again.
pub open spec fn busy_race_spec(v: RegistryView, i: nat) -> RegistryView {
    set_status(v, i, WorkerStatus::Busy)
}

/// A heartbeat probe of worker `i` at time `now`: a `Busy` worker is left
/// alone; otherwise a success makes the worker idle; a failure counts a miss, and at
/// `threshold` misses in a row makes it unreachable.
pub open spec fn heartbeat_spec(v: RegistryView, i: nat, ok: bool, now: u64, threshold: u64) -> RegistryView {
    let h = v.workers[i as int];
    if h.status == WorkerStatus::Busy {
        v
    } else if ok {
        RegistryView {
            workers: v.workers.update(
                i as int,
                HandleView { status: WorkerStatus::Idle, last_heartbeat: now, missed_heartbeats: 0, ..h },
            ),
            ..v
        }
    } else {
        let missed = sat_inc(h.missed_heartbeats);
        RegistryView {
            workers: v.workers.update(
                i as int,
                HandleView {
                    status: if missed >= threshold { WorkerStatus::Unreachable } else { h.status },
                    missed_heartbeats: missed,
                    ..h
                },
            ),
            ..v
        }
    }
}

/// The positions below `k` of workers that are not `Busy`, in order: the ones a
/// health check probes.
pub open spec fn probe_list(ws: Seq<HandleView>, k: nat) -> Seq<usize>
    decreases k,
{
    if k == 0 {
        Seq::empty()
    } else {
        probe_list(ws, (k - 1) as nat) + if ws[k - 1].status != WorkerStatus::Busy {
            seq![(k - 1) as usize]
        } else {
            Seq::empty()
        }
    }
}

/// Why a worker could not be registered.
#[derive(Clone, Copy, Debug, PartialEq, Eq, Structural)]
pub enum RegistryError {
    /// A worker with this address is already registered.
    DuplicateAddress,
}

/// The table of known workers.
#[derive(Debug)]
pub struct Registry {
    workers: Vec<WorkerHandle>,
    cursor: usize,
}

impl View for Registry {
    type V = RegistryView;

    closed spec fn view(&self) -> RegistryView {
        RegistryView { workers: self.workers@.map_values(|h: WorkerHandle| h@), cursor: self.cursor as nat }
    }
}

impl Registry {
    /// A registry with no workers.
    pub fn empty() -> (r: Registry)
        ensures
            r@.workers.len() == 0,
            r@.cursor == 0,
            registry_wf(r@),
    {
        Registry { workers: Vec::new(), cursor: 0 }
    }

    /// The number of registered workers.
    pub fn len(&self) -> (r: usize)
        ensures
            r == self@.workers.len(),
    {
        self.workers.len()
    }

    /// The round-robin cursor.
    pub fn cursor(&self) -> (r: usize)
        ensures
            r == self@.cursor,
    {
        self.cursor
    }

    /// The handle of worker `i`.
    pub fn worker(&self, i: usize) -> (r: &WorkerHandle)
        requires
            i < self@.workers.len(),
        ensures
            r@ == self@.workers[i as int],
    {
        &self.workers[i]
    }

    /// The position of the worker with this address, if one is registered.
    pub fn position(&self, address: &String) -> (r: Option<usize>)
        ensures
            r.is_none() <==> (forall|j: int| 0 <= j < self@.workers.len() ==> self@.workers[j].address != address@),
            r.is_some() ==> r.unwrap() < self@.workers.len() && self@.workers[r.unwrap() as int].address == address@,
    {
        let mut j: usize = 0;
        while j < self.workers.len()
            invariant
                0 <= j <= self.workers@.len(),
                forall|k: int| 0 <= k < j ==> self@.workers[k].address != address@,
            decreases self.workers@.len() - j,
        {
            if self.workers[j].address == *address {
                return Some(j);
            }
            j = j + 1;
        }
        None
    }

    /// Adds an idle worker with this address at the end, unless one with the same
    /// address is registered already.
    pub fn register(&mut self, address: String) -> (r: Result<usize, RegistryError>)
        requires
            registry_wf(old(self)@),
        ensures
            registry_wf(final(self)@),
            r.is_err() <==> (exists|j: int| 0 <= j < old(self)@.workers.len() && old(self)@.workers[j].address == address@),
            r.is_err() ==> r == Err::<usize, RegistryError>(RegistryError::DuplicateAddress) && final(self)@ == old(self)@,
            r.is_ok() ==> r == Ok::<usize, RegistryError>(old(self)@.workers.len() as usize)
                && final(self)@ == (RegistryView {
                    workers: old(self)@.workers.push(initial_handle(address@)),
                    cursor: old(self)@.cursor,
                }),
    {
        match self.position(&address) {
            Some(j) => {
                Err(RegistryError::DuplicateAddress)
            },
            None => {
                let n = self.workers.len();
                let h = WorkerHandle {
                    address,
                    status: WorkerStatus::Idle,
                    in_flight: 0,
                    last_heartbeat: 0,
                    missed_heartbeats: 0,
                    dispatch_count: 0,
                };
                self.workers.push(h);
                assert(self@.workers =~= old(self)@.workers.push(initial_handle(address@)));
                Ok(n)
            },
        }
    }

    /// A registry of idle workers with these addresses, in order, or
    /// `DuplicateAddress` where two of them are equal.
    pub fn new(addresses: &Vec<String>) -> (r: Result<Registry, RegistryError>)
        ensures
            r.is_ok() <==> (forall|i: int, j: int| 0 <= i < j < addresses@.len() ==> addresses@[i]@ != addresses@[j]@),
            r.is_err() ==> r == Err::<Registry, RegistryError>(RegistryError::DuplicateAddress),
            r.is_ok() ==> registry_wf(r.unwrap()@) && r.unwrap()@ == (RegistryView {
                workers: addresses@.map_values(|a: String| initial_handle(a@)),
                cursor: 0,
            }),
    {
        let mut reg = Registry::empty();
        let mut i: usize = 0;
        while i < addresses.len()
            invariant
                0 <= i <= addresses@.len(),
                registry_wf(reg@),
                reg@.cursor == 0,
                reg@.workers =~= addresses@.subrange(0, i as int).map_values(|a: String| initial_handle(a@)),
                forall|k: int, j: int| 0 <= k < j < i ==> addresses@[k]@ != addresses@[j]@,
            decreases addresses@.len() - i,
        {
            let ghost before = reg@;
            match reg.register(addresses[i].clone()) {
                Ok(_) => {
                    assert forall|k: int| 0 <= k < i implies addresses@[k]@ != addresses@[i as int]@ by {
                        assert(before.workers[k].address == addresses@[k]@);
                    };
                    assert(addresses@.subrange(0, i + 1) =~= addresses@.subrange(0, i as int).push(addresses@[i as int]));
                },
                Err(e) => {
                    let ghost j = choose|j: int| 0 <= j < reg@.workers.len() && reg@.workers[j].address == addresses@[i as int]@;
                    assert(addresses@.subrange(0, i as int)[j] == addresses@[j]);
                    return Err(e);
                },
            }
            i = i + 1;
        }
        assert(addresses@.subrange(0, addresses@.len() as int) =~= addresses@);
        Ok(reg)
    }

    /// Replaces everything but the address of worker `i`.
    fn set_handle(
        &mut self,
        i: usize,
        status: WorkerStatus,
        in_flight: u8,
        last_heartbeat: u64,
        missed_heartbeats: u64,
        dispatch_count: u64,
    )
        requires
            i < old(self)@.workers.len(),
        ensures
            final(self)@ == (RegistryView {
                workers: old(self)@.workers.update(
                    i as int,
                    HandleView {
                        address: old(self)@.workers[i as int].address,
                        status,
                        in_flight,
                        last_heartbeat,
                        missed_heartbeats,
                        dispatch_count,
                    },
                ),
                cursor: old(self)@.cursor,
            }),
    {
        let address = self.workers[i].address.clone();
        let h = WorkerHandle { address, status, in_flight, last_heartbeat, missed_heartbeats, dispatch_count };
        self.workers.set(i, h);
        assert(self@.workers =~= old(self)@.workers.update(i as int, h@));
    }

    /// Selects the next idle worker round-robin from the cursor, marks it busy
    /// with one dispatch in flight, counts the dispatch and moves the cursor past
    /// it, in one step; `None`, with nothing changed, when no worker is idle.
    pub fn select(&mut self) -> (r: Option<usize>)
        requires
            registry_wf(old(self)@),
        ensures
            registry_wf(final(self)@),
            (final(self)@, as_index(r)) == select_spec(old(self)@),
    {
        let n = self.workers.len();
        let c = self.cursor;
        let mut k: usize = 0;
        while k < n
            invariant
                n == self@.workers.len(),
                c == self@.cursor,
                self@ == old(self)@,
                registry_wf(self@),
                0 <= k <= n,
                first_idle_from(self@.workers, c as nat, 0) == first_idle_from(self@.workers, c as nat, k as nat),
            decreases n - k,
        {
            let i: usize = if k < n - c { c + k } else { k - (n - c) };
            assert(i as nat == wrap(c as nat, k as nat, n as nat));
            if self.workers[i].status == WorkerStatus::Idle {
                let count = self.workers[i].dispatch_count;
                let count = if count < u64::MAX { count + 1 } else { count };
                let hb = self.workers[i].last_heartbeat;
                let missed = self.workers[i].missed_heartbeats;
                self.set_handle(i, WorkerStatus::Busy, 1, hb, missed, count);
                self.cursor = if i + 1 < n { i + 1 } else { 0 };
                assert(self@.workers =~= old(self)@.workers.update(i as int, claimed(old(self)@.workers[i as int])));
                return Some(i);
            }
            k = k + 1;
        }
        None
    }

    /// Sets worker `i` to `status` with nothing in flight.
    fn settle(&mut self, i: usize, status: WorkerStatus)
        requires
            registry_wf(old(self)@),
            i < old(self)@.workers.len(),
        ensures
            registry_wf(final(self)@),
            final(self)@ == set_status(old(self)@, i as nat, status),
    {
        let hb = self.workers[i].last_heartbeat;
        let missed = self.workers[i].missed_heartbeats;
        let count = self.workers[i].dispatch_count;
        self.set_handle(i, status, 0, hb, missed, count);
    }

    /// Records that worker `i` answered a dispatch (a proof or an application
    /// error): it is idle again.
    pub fn complete(&mut self, i: usize)
        requires
            registry_wf(old(self)@),
            i < old(self)@.workers.len(),
        ensures
            registry_wf(final(self)@),
            final(self)@ == complete_spec(old(self)@, i as nat),
    {
        self.settle(i, WorkerStatus::Idle);
    }

    /// Records that a dispatch to worker `i` failed at the transport level or
    /// timed out: it is unreachable until a heartbeat succeeds.
    pub fn transport_failure(&mut self, i: usize)
        requires
            registry_wf(old(self)@),
            i < old(self)@.workers.len(),
        ensures
            registry_wf(final(self)@),
            final(self)@ == transport_failure_spec(old(self)@, i as nat),
    {
        self.settle(i, WorkerStatus::Unreachable);
    }

    /// Records that worker `i` turned a dispatch away as busy: it is held `Busy`,
    /// with no dispatch of the proxy in flight, so that routing passes it over.
    pub fn busy_race(&mut self, i: usize)
        requires
            registry_wf(old(self)@),
            i < old(self)@.workers.len(),
        ensures
            registry_wf(final(self)@),
            final(self)@ == busy_race_spec(old(self)@, i as nat),
    {
        self.settle(i, WorkerStatus::Busy);
    }

    /// Records the result of a heartbeat probe of worker `i` at time `now` (see
    /// `heartbeat_spec`).
    pub fn heartbeat(&mut self, i: usize, ok: bool, now: u64, threshold: u64)
        requires
            registry_wf(old(self)@),
            i < old(self)@.workers.len(),
        ensures
            registry_wf(final(self)@),
            final(self)@ == heartbeat_spec(old(self)@, i as nat, ok, now, threshold),
    {
        let h = &self.workers[i];
        if h.status == WorkerStatus::Busy {
            return;
        }
        let status = h.status;
        let count = h.dispatch_count;
        let hb = h.last_heartbeat;
        let missed = h.missed_heartbeats;
        if ok {
            self.set_handle(i, WorkerStatus::Idle, 0, now, 0, count);
        } else {
            let missed = if missed < u64::MAX { missed + 1 } else { missed };
            let status = if missed >= threshold { WorkerStatus::Unreachable } else { status };
            self.set_handle(i, status, 0, hb, missed, count);
        }
    }

    /// The positions of the workers a health check probes: those that are not
    /// `Busy`, in order of registration.
    pub fn probe_targets(&self) -> (r: Vec<usize>)
        ensures
            r@ == probe_list(self@.workers, self@.workers.len()),
    {
        let mut out: Vec<usize> = Vec::new();
        let mut i: usize = 0;
        while i < self.workers.len()
            invariant
                0 <= i <= self@.workers.len(),
                out@ == probe_list(self@.workers, i as nat),
            decreases self@.workers.len() - i,
        {
            if self.workers[i].status != WorkerStatus::Busy {
                out.push(i);
            }
            i = i + 1;
            assert(out@ =~= probe_list(self@.workers, i as nat));
        }
        out
    }

    /// Whether any worker is idle.
    pub fn has_idle(&self) -> (r: bool)
        requires
            registry_wf(self@),
        ensures
            r == first_idle_from(self@.workers, self@.cursor, 0).is_some(),
    {
        let n = self.workers.len();
        let c = self.cursor;
        let mut k: usize = 0;
        while k < n
            invariant
                n == self@.workers.len(),
                c == self@.cursor,
                0 <= k <= n,
                c <= n,
                first_idle_from(self@.workers, c as nat, 0) == first_idle_from(self@.workers, c as nat, k as nat),
            decreases n - k,
        {
            let i: usize = if k < n - c { c + k } else { k - (n - c) };
            if self.workers[i].status == WorkerStatus::Idle {
                return true;
            }
            k = k + 1;
        }
        false
    }
}

/// Setting a worker's status with nothing in flight keeps the registry well formed.
pub proof fn lemma_set_status_wf(v: RegistryView, i: nat, status: WorkerStatus)
    requires
        registry_wf(v),
        i < v.workers.len(),
    ensures
        registry_wf(set_status(v, i, status)),
        set_status(v, i, status).workers.len() == v.workers.len(),
{
    let w = set_status(v, i, status);
    assert forall|a: int, b: int| 0 <= a < b < w.workers.len() implies w.workers[a].address != w.workers[b].address by {
        assert(w.workers[a].address == v.workers[a].address);
        assert(w.workers[b].address == v.workers[b].address);
    };
}

/// Selection keeps the registry well formed and its size.
pub proof fn lemma_select_wf(v: RegistryView)
    requires
        registry_wf(v),
    ensures
        registry_wf(select_spec(v).0),
        select_spec(v).0.workers.len() == v.workers.len(),
{
    lemma_select_picks_idle(v);
    let w = select_spec(v).0;
    assert forall|a: int, b: int| 0 <= a < b < w.workers.len() implies w.workers[a].address != w.workers[b].address by {
        assert(w.workers[a].address == v.workers[a].address);
        assert(w.workers[b].address == v.workers[b].address);
    };
}

/// The positions of the idle workers.
pub open spec fn idle_set(ws: Seq<HandleView>) -> Set<int> {
    Set::new(|j: int| 0 <= j < ws.len() && ws[j].status == WorkerStatus::Idle)
}

/// There are finitely many idle workers, no more than workers.
pub proof fn lemma_idle_set_finite(ws: Seq<HandleView>)
    ensures
        idle_set(ws).finite(),
        idle_set(ws).len() <= ws.len(),
{
    vstd::set_lib::lemma_int_range(0, ws.len() as int);
    vstd::set_lib::lemma_len_subset(idle_set(ws), vstd::set_lib::set_int_range(0, ws.len() as int));
}

/// Selection claims one idle worker, which leaves the idle set, or finds none.
pub proof fn lemma_select_idle_set(v: RegistryView)
    requires
        registry_wf(v),
    ensures
        select_spec(v).1 matches Some(i) ==> idle_set(select_spec(v).0.workers) == idle_set(v.workers).remove(
            i as int,
        ) && idle_set(v.workers).contains(i as int),
        select_spec(v).1 is None ==> idle_set(v.workers) == Set::<int>::empty(),
{
    lemma_select_picks_idle(v);
    if let Some(i) = select_spec(v).1 {
        assert(idle_set(select_spec(v).0.workers) =~= idle_set(v.workers).remove(i as int));
    } else {
        assert(idle_set(v.workers) =~= Set::<int>::empty());
    }
}

proof fn lemma_first_idle(ws: Seq<HandleView>, start: nat, k: nat)
    requires
        start < ws.len(),
    ensures
        first_idle_from(ws, start, k) matches Some(i) ==> i < ws.len() && ws[i as int].status
            == WorkerStatus::Idle,
        first_idle_from(ws, start, k) is None ==> forall|j: nat|
            k <= j < ws.len() ==> ws[wrap(start, j, ws.len()) as int].status != WorkerStatus::Idle,
    decreases ws.len() - k,
{
    if k < ws.len() {
        lemma_first_idle(ws, start, k + 1);
    }
}

/// Selection only ever picks an idle worker, and picks one whenever some
/// worker is idle.
pub proof fn lemma_select_picks_idle(v: RegistryView)
    requires
        registry_wf(v),
    ensures
        select_spec(v).1 matches Some(i) ==> i < v.workers.len() && v.workers[i as int].status
            == WorkerStatus::Idle,
        (exists|j: int| 0 <= j < v.workers.len() && v.workers[j].status == WorkerStatus::Idle)
            ==> select_spec(v).1.is_some(),
{
    let n = v.workers.len();
    if n > 0 {
        lemma_first_idle(v.workers, v.cursor, 0);
        if exists|j: int| 0 <= j < n && v.workers[j].status == WorkerStatus::Idle {
            let j = choose|j: int| 0 <= j < n && v.workers[j].status == WorkerStatus::Idle;
            let k: nat = if j >= v.cursor { (j - v.cursor) as nat } else { (j + n - v.cursor) as nat };
            assert(wrap(v.cursor, k, n) == j);
        }
    }
}

/// `k` failed heartbeat probes of worker `i` in a row.
pub open spec fn failed_heartbeats(v: RegistryView, i: nat, now: u64, threshold: u64, k: nat) -> RegistryView
    decreases k,
{
    if k == 0 {
        v
    } else {
        heartbeat_spec(failed_heartbeats(v, i, now, threshold, (k - 1) as nat), i, false, now, threshold)
    }
}

proof fn lemma_failed_heartbeats(v: RegistryView, i: nat, now: u64, threshold: u64, k: nat)
    requires
        registry_wf(v),
        i < v.workers.len(),
        v.workers[i as int].status != WorkerStatus::Busy,
        k <= u64::MAX,
    ensures
        registry_wf(failed_heartbeats(v, i, now, threshold, k)),
        failed_heartbeats(v, i, now, threshold, k).workers.len() == v.workers.len(),
        failed_heartbeats(v, i, now, threshold, k).workers[i as int].status != WorkerStatus::Busy,
        failed_heartbeats(v, i, now, threshold, k).workers[i as int].missed_heartbeats >= k,
        k >= 1 && k >= threshold ==> failed_heartbeats(v, i, now, threshold, k).workers[i as int].status
            == WorkerStatus::Unreachable,
    decreases k,
{
    if k > 0 {
        lemma_failed_heartbeats(v, i, now, threshold, (k - 1) as nat);
        let u = failed_heartbeats(v, i, now, threshold, (k - 1) as nat);
        let w = failed_heartbeats(v, i, now, threshold, k);
        assert(w.workers[i as int].address == u.workers[i as int].address);
        assert forall|a: int, b: int| 0 <= a < b < w.workers.len() implies w.workers[a].address != w.workers[b].address by {
            assert(w.workers[a].address == u.workers[a].address);
            assert(w.workers[b].address == u.workers[b].address);
        };
    }
}

/// A worker that is not `Busy` and misses `threshold` heartbeats in a row becomes unreachable and is not selected; one successful heartbeat after
/// that makes it idle, and eligible, again.
pub proof fn lemma_heartbeat_recovery(v: RegistryView, i: nat, now: u64, threshold: u64)
    requires
        registry_wf(v),
        i < v.workers.len(),
        v.workers[i as int].status != WorkerStatus::Busy,
        threshold >= 1,
    ensures
        failed_heartbeats(v, i, now, threshold, threshold as nat).workers[i as int].status
            == WorkerStatus::Unreachable,
        select_spec(failed_heartbeats(v, i, now, threshold, threshold as nat)).1 != Some(i),
        heartbeat_spec(failed_heartbeats(v, i, now, threshold, threshold as nat), i, true, now, threshold).workers[i as int].status
            == WorkerStatus::Idle,
        select_spec(heartbeat_spec(failed_heartbeats(v, i, now, threshold, threshold as nat), i, true, now, threshold)).1.is_some(),
{
    let u = failed_heartbeats(v, i, now, threshold, threshold as nat);
    lemma_failed_heartbeats(v, i, now, threshold, threshold as nat);
    lemma_select_picks_idle(u);
    let w = heartbeat_spec(u, i, true, now, threshold);
    assert forall|a: int, b: int| 0 <= a < b < w.workers.len() implies w.workers[a].address != w.workers[b].address by {
        assert(w.workers[a].address == u.workers[a].address);
        assert(w.workers[b].address == u.workers[b].address);
    };
    lemma_select_picks_idle(w);
}

/// One request dispatched and answered: the next worker is selected, then
/// answers.
pub open spec fn dispatch_round(v: RegistryView) -> RegistryView {
    let (u, sel) = select_spec(v);
    match sel {
        Some(i) => complete_spec(u, i),
        None => u,
    }
}

/// `m` requests dispatched one after another, each answered before the next.
pub open spec fn dispatch_rounds(v: RegistryView, m: nat) -> RegistryView
    decreases m,
{
    if m == 0 {
        v
    } else {
        dispatch_round(dispatch_rounds(v, (m - 1) as nat))
    }
}

/// At least one worker, all idle with nothing in flight and no dispatch
/// counted, and the cursor at the first.
pub open spec fn fresh_fleet(v: RegistryView) -> bool {
    &&& v.workers.len() >= 1
    &&& v.cursor == 0
    &&& forall|j: int|
        0 <= j < v.workers.len() ==> (#[trigger] v.workers[j]).status == WorkerStatus::Idle
            && v.workers[j].in_flight == 0 && v.workers[j].dispatch_count == 0
}

/// How many steps from `start` position `j` lies, going round `n` positions.
pub open spec fn offset(j: int, start: nat, n: nat) -> nat {
    if j >= start {
        (j - start) as nat
    } else {
        (j + n - start) as nat
    }
}

/// At least one worker, all idle with nothing in flight, and a well-formed registry.
pub open spec fn idle_fleet(v: RegistryView) -> bool {
    &&& registry_wf(v)
    &&& v.workers.len() >= 1
    &&& forall|j: int|
        0 <= j < v.workers.len() ==> (#[trigger] v.workers[j]).status == WorkerStatus::Idle
            && v.workers[j].in_flight == 0
}

proof fn lemma_rounds(v: RegistryView, m: nat, q: nat, c: nat)
    requires
        idle_fleet(v),
        m == q * v.workers.len() + c,
        c < v.workers.len(),
        forall|j: int| 0 <= j < v.workers.len() ==> #[trigger] v.workers[j].dispatch_count + m < u64::MAX,
    ensures
        dispatch_rounds(v, m).workers.len() == v.workers.len(),
        dispatch_rounds(v, m).cursor == wrap(v.cursor, c, v.workers.len()),
        forall|j: int|
            0 <= j < v.workers.len() ==> (#[trigger] dispatch_rounds(v, m).workers[j]).status
                == WorkerStatus::Idle && dispatch_rounds(v, m).workers[j].in_flight == 0
                && dispatch_rounds(v, m).workers[j].dispatch_count == v.workers[j].dispatch_count + q + (if offset(
                j,
                v.cursor,
                v.workers.len(),
            ) < c { 1nat } else { 0nat }),
    decreases m,
{
    let n = v.workers.len();
    let s = v.cursor;
    if m == 0 {
        assert(q == 0 && c == 0) by (nonlinear_arith)
            requires
                0 == q * n + c,
                n >= 1,
        ;
        assert(dispatch_rounds(v, 0) == v);
    } else {
        let (q1, c1) = if c > 0 {
            (q, (c - 1) as nat)
        } else {
            assert(q >= 1) by (nonlinear_arith)
                requires
                    m == q * n + c,
                    c == 0,
                    m > 0,
            ;
            ((q - 1) as nat, (n - 1) as nat)
        };
        assert(m - 1 == q1 * n + c1) by (nonlinear_arith)
            requires
                m == q * n + c,
                c > 0 ==> q1 == q && c1 == c - 1,
                c == 0 ==> q1 == q - 1 && c1 == n - 1 && q >= 1,
        ;
        assert(q1 <= m - 1) by (nonlinear_arith)
            requires
                m - 1 == q1 * n + c1,
                n >= 1,
        ;
        lemma_rounds(v, (m - 1) as nat, q1, c1);
        let u = dispatch_rounds(v, (m - 1) as nat);
        let cur = wrap(s, c1, n);
        assert(offset(cur as int, s, n) == c1);
        assert(first_idle_from(u.workers, u.cursor, 0) == Some(cur));
        let w = dispatch_rounds(v, m);
        assert(w == dispatch_round(u));
        assert(w.workers.len() == n);
        assert(w.cursor == wrap(s, c, n));
        assert forall|j: int| 0 <= j < n implies (#[trigger] w.workers[j]).status == WorkerStatus::Idle
            && w.workers[j].in_flight == 0 && w.workers[j].dispatch_count == v.workers[j].dispatch_count + q
            + (if offset(j, s, n) < c { 1nat } else { 0nat }) by {
            if j == cur {
            } else {
                assert(w.workers[j] == u.workers[j]);
                assert(offset(j, s, n) != c1);
            }
        };
    }
}

/// Round-robin fairness: `m` requests dispatched one after another to a fleet
/// of `K` idle workers, each answered before the next, add to every worker's
/// count of dispatches between `floor(m / K)` and `ceil(m / K)`, wherever the
/// cursor stood and whatever the counts were before.
pub proof fn lemma_round_robin_fair(v: RegistryView, m: nat)
    requires
        idle_fleet(v),
        forall|j: int| 0 <= j < v.workers.len() ==> #[trigger] v.workers[j].dispatch_count + m < u64::MAX,
    ensures
        forall|j: int|
            0 <= j < v.workers.len() ==> m / v.workers.len() <= (#[trigger] dispatch_rounds(v, m).workers[j]).dispatch_count
                - v.workers[j].dispatch_count <= (m + v.workers.len() - 1) / (v.workers.len() as int),
{
    let n = v.workers.len();
    let q = m / n;
    let c = m % n;
    vstd::arithmetic::div_mod::lemma_fundamental_div_mod(m as int, n as int);
    vstd::arithmetic::mul::lemma_mul_is_commutative(n as int, q as int);
    assert(m == q * n + c);
    lemma_rounds(v, m, q, c);
    if c > 0 {
        assert((m + n - 1) as int == (q + 1) * n + (c - 1)) by (nonlinear_arith)
            requires
                m == q * n + c,
                c > 0,
        ;
        lemma_fundamental_div_mod_converse((m + n - 1) as int, n as int, (q + 1) as int, (c - 1) as int);
    } else {
        lemma_fundamental_div_mod_converse((m + n - 1) as int, n as int, q as int, (n - 1) as int);
    }
}

} // verus!
