//! The client pool: a bounded set of checkers serving a request queue.
//!
//! The pool's accounting is a small state machine: a check may start
//! only while fewer than `capacity` are in flight, and every check
//! that starts later finishes. Its invariant bounds the number of
//! in-flight checks and balances the books between what entered and
//! what left. `listen` drains a whole batch of requests, answering
//! each with exactly one response.

use vstd::prelude::*;

use crate::checker::{Checker, Response};
use crate::excludes::spec_excluded;
use crate::uri::Uri;

verus! {

/// The accounting of a bounded pool.
pub struct PoolState {
    /// How many checks may run at once.
    pub capacity: nat,
    /// How many checks run right now.
    pub in_flight: nat,
    /// How many URIs have entered the pool.
    pub submitted: nat,
    /// How many responses have left the pool.
    pub completed: nat,
}

/// A fresh pool: nothing in flight, nothing entered or left.
pub open spec fn pool_init(capacity: nat) -> PoolState {
    PoolState { capacity, in_flight: 0, submitted: 0, completed: 0 }
}

/// A check may start only while the pool is not saturated.
pub open spec fn can_start(s: PoolState) -> bool {
    s.in_flight < s.capacity
}

/// A check starts: one more in flight, one more submitted.
pub open spec fn start_check(s: PoolState) -> PoolState {
    PoolState {
        capacity: s.capacity,
        in_flight: s.in_flight + 1,
        submitted: s.submitted + 1,
        completed: s.completed,
    }
}

/// A check finishes: one fewer in flight, one more response out.
pub open spec fn finish_check(s: PoolState) -> PoolState {
    PoolState {
        capacity: s.capacity,
        in_flight: (s.in_flight - 1) as nat,
        submitted: s.submitted,
        completed: s.completed + 1,
    }
}

/// The pool's invariant: never more checks in flight than the
/// capacity, and every submitted URI is either in flight or answered.
pub open spec fn pool_inv(s: PoolState) -> bool {
    &&& s.in_flight <= s.capacity
    &&& s.submitted == s.completed + s.in_flight
}

/// Law: a fresh pool satisfies the invariant.
pub proof fn lemma_pool_init(capacity: nat)
    ensures
        pool_inv(pool_init(capacity)),
{
}

/// Law: the number of in-flight checks never exceeds the capacity —
/// starting a check demands a free slot and keeps the invariant, and
/// finishing one keeps it too.
pub proof fn lemma_pool_bounded(s: PoolState)
    ensures
        pool_inv(s) && can_start(s) ==> pool_inv(start_check(s)) && start_check(s).in_flight
            <= s.capacity,
        pool_inv(s) && s.in_flight > 0 ==> pool_inv(finish_check(s)),
{
}

/// Law: a drained pool has answered exactly what was submitted.
pub proof fn lemma_pool_drained(s: PoolState)
    requires
        pool_inv(s),
        s.in_flight == 0,
    ensures
        s.completed == s.submitted,
{
}

/// A pool of checker clients serving requests.
pub struct ClientPool {
    /// The checkers; one request runs on one of them.
    pub clients: Vec<Checker>,
}

impl ClientPool {
    /// Builds a pool over exactly the given checkers.
    pub fn new(clients: Vec<Checker>) -> (r: ClientPool)
        ensures
            r.clients@ == clients@,
    {
        ClientPool { clients }
    }

    /// Answers every request: the URI at position `i` of the batch is
    /// checked on client `i % clients.len()` and yields exactly one
    /// response, which carries that URI; a URI that client excludes,
    /// and every mail address, is answered `Excluded` with no network
    /// traffic.
    pub fn listen(&self, requests: Vec<Uri>) -> (r: Vec<Response>)
        requires
            self.clients@.len() >= 1,
        ensures
            r@.len() == requests@.len(),
            forall|i: int| 0 <= i < r@.len() ==> (#[trigger] r@[i])@.uri == requests@[i]@,
            forall|i: int|
                0 <= i < r@.len() ==> (spec_excluded(
                    self.clients@[i % self.clients@.len() as int].excludes@,
                    requests@[i]@,
                ) ==> (#[trigger] r@[i])@.status is Excluded),
            forall|i: int|
                0 <= i < r@.len() ==> (requests@[i]@ is Mail ==> (#[trigger] r@[i])@.status
                    is Excluded),
    {
        let ghost greq = requests@;
        let mut remaining = requests;
        let mut out: Vec<Response> = Vec::new();
        let n_clients = self.clients.len();
        while remaining.len() > 0
            invariant
                n_clients == self.clients@.len(),
                n_clients >= 1,
                out@.len() + remaining@.len() == greq.len(),
                remaining@ == greq.skip(out@.len() as int),
                forall|j: int| 0 <= j < out@.len() ==> (#[trigger] out@[j])@.uri == greq[j]@,
                forall|j: int|
                    0 <= j < out@.len() ==> (spec_excluded(
                        self.clients@[j % n_clients as int].excludes@,
                        greq[j]@,
                    ) ==> (#[trigger] out@[j])@.status is Excluded),
                forall|j: int|
                    0 <= j < out@.len() ==> (greq[j]@ is Mail ==> (#[trigger] out@[j])@.status
                        is Excluded),
            decreases remaining@.len(),
        {
            let ghost k = out@.len() as int;
            proof {
                assert(remaining@[0] == greq[k]);
            }
            let uri = remaining.remove(0);
            proof {
                assert(remaining@ =~= greq.skip(k + 1));
            }
            let client = &self.clients[out.len() % n_clients];
            let response = client.check(uri);
            out.push(response);
        }
        out
    }
}

} // verus!
