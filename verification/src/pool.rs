//! A bounded pool of reusable logical connections.
//!
//! The pool owns every connection it ever created. `acquire` hands out the
//! first idle connection, or creates a new one while the pool is under its
//! bound, and reports exhaustion otherwise; `release` marks a connection idle
//! again. Callers supply the current time; the pool itself never reads a
//! clock.

use vstd::prelude::*;

use crate::errors::ResourceError;

verus! {

/// One logical connection, owned by the pool.
#[derive(Clone, Copy, Debug, PartialEq, Eq, Structural)]
pub struct Connection {
    /// Identifier of the connection; the pool numbers connections in the
    /// order it created them.
    pub id: u64,
    /// The time the pool created this connection.
    pub created_at: u64,
    /// Whether the connection is currently checked out.
    pub in_use: bool,
}

/// The mathematical content of a pool: its connections in creation order and
/// its bound.
#[verifier::ext_equal]
pub ghost struct PoolView {
    pub connections: Seq<Connection>,
    pub max_connections: nat,
}

/// How many connections of `s` are checked out.
pub open spec fn count_in_use(s: Seq<Connection>) -> nat
    decreases s.len(),
{
    if s.len() == 0 {
        0
    } else {
        count_in_use(s.drop_last()) + if s.last().in_use {
            1nat
        } else {
            0nat
        }
    }
}

/// The least index at or after `i` holding an idle connection, or the length
/// of `s` when every connection from `i` on is in use.
pub open spec fn first_idle_from(s: Seq<Connection>, i: int) -> int
    decreases s.len() - i,
{
    if i < 0 || i >= s.len() {
        s.len() as int
    } else if !s[i].in_use {
        i
    } else {
        first_idle_from(s, i + 1)
    }
}

impl PoolView {
    /// The pool holds at most `max_connections` connections, numbered in
    /// creation order.
    pub open spec fn wf(self) -> bool {
        &&& self.connections.len() <= self.max_connections
        &&& forall|i: int|
            0 <= i < self.connections.len() ==> (#[trigger] self.connections[i]).id == i as u64
    }

    pub open spec fn in_use_count(self) -> nat {
        count_in_use(self.connections)
    }

    /// Whether some connection is idle.
    pub open spec fn has_idle(self) -> bool {
        first_idle_from(self.connections, 0) < self.connections.len()
    }

    /// What one `acquire` at time `now` does: the pool afterwards, and what
    /// the caller gets. The first idle connection is reused; failing that a
    /// new one is created while the pool is under its bound; otherwise the
    /// pool is left unchanged and the caller is told it is exhausted.
    pub open spec fn spec_acquire(self, now: u64) -> (PoolView, Result<u64, ResourceError>) {
        let k = first_idle_from(self.connections, 0);
        if k < self.connections.len() {
            (
                PoolView {
                    connections: self.connections.update(
                        k,
                        Connection { id: self.connections[k].id, created_at: self.connections[k].created_at, in_use: true },
                    ),
                    max_connections: self.max_connections,
                },
                Ok(self.connections[k].id),
            )
        } else if self.connections.len() < self.max_connections {
            (
                PoolView {
                    connections: self.connections.push(
                        Connection { id: self.connections.len() as u64, created_at: now, in_use: true },
                    ),
                    max_connections: self.max_connections,
                },
                Ok(self.connections.len() as u64),
            )
        } else {
            (self, Err(ResourceError::ResourceExhausted))
        }
    }

    /// What one `release` does: the connection with identifier `id`, if any,
    /// is marked idle; nothing else changes.
    pub open spec fn spec_release(self, id: u64) -> PoolView {
        if id < self.connections.len() {
            PoolView {
                connections: self.connections.update(
                    id as int,
                    Connection { id: self.connections[id as int].id, created_at: self.connections[id as int].created_at, in_use: false },
                ),
                max_connections: self.max_connections,
            }
        } else {
            self
        }
    }
}

/// A bounded set of reusable logical connections.
pub struct ConnectionPool {
    connections: Vec<Connection>,
    max_connections: usize,
}

impl View for ConnectionPool {
    type V = PoolView;

    closed spec fn view(&self) -> PoolView {
        PoolView {
            connections: self.connections@,
            max_connections: self.max_connections as nat,
        }
    }
}

impl ConnectionPool {
    /// An empty pool that will never hold more than `max_connections`
    /// connections.
    pub fn new(max_connections: usize) -> (r: ConnectionPool)
        ensures
            r@.wf(),
            r@.connections.len() == 0,
            r@.max_connections == max_connections,
    {
        ConnectionPool { connections: Vec::new(), max_connections }
    }

    /// How many connections exist, idle and checked out together.
    pub fn connection_count(&self) -> (r: usize)
        ensures
            r == self@.connections.len(),
    {
        self.connections.len()
    }

    pub fn max_connections(&self) -> (r: usize)
        ensures
            r == self@.max_connections,
    {
        self.max_connections
    }

    /// How many connections are checked out.
    pub fn in_use_count(&self) -> (r: usize)
        ensures
            r == self@.in_use_count(),
    {
        let n = self.connections.len();
        let mut count: usize = 0;
        let mut i: usize = 0;
        while i < n
            invariant
                0 <= i <= n,
                n == self.connections@.len(),
                count == count_in_use(self.connections@.subrange(0, i as int)),
                count <= i,
            decreases n - i,
        {
            proof {
                assert(self.connections@.subrange(0, i + 1).drop_last() =~= self.connections@.subrange(
                    0,
                    i as int,
                ));
            }
            if self.connections[i].in_use {
                count = count + 1;
            }
            i = i + 1;
        }
        proof {
            assert(self.connections@.subrange(0, n as int) =~= self.connections@);
        }
        count
    }

    /// The connection with identifier `id`, if the pool has created one.
    pub fn get(&self, id: u64) -> (r: Option<Connection>)
        requires
            self@.wf(),
        ensures
            id < self@.connections.len() ==> r == Some(self@.connections[id as int]),
            id >= self@.connections.len() ==> r is None,
    {
        if id < self.connections.len() as u64 {
            Some(self.connections[id as usize])
        } else {
            None
        }
    }

    /// Checks out a connection: the first idle one if any exists, a newly
    /// created one while the pool is under its bound, and an exhaustion
    /// error otherwise.
    pub fn acquire(&mut self, now: u64) -> (r: Result<u64, ResourceError>)
        requires
            old(self)@.wf(),
        ensures
            final(self)@.wf(),
            final(self)@ == old(self)@.spec_acquire(now).0,
            r == old(self)@.spec_acquire(now).1,
    {
        let n = self.connections.len();
        let mut i: usize = 0;
        while i < n
            invariant
                0 <= i <= n,
                n == self.connections@.len(),
                self == old(self),
                old(self)@.wf(),
                forall|j: int| 0 <= j < i ==> (#[trigger] self.connections@[j]).in_use,
            decreases n - i,
        {
            if !self.connections[i].in_use {
                proof {
                    lemma_first_idle_scan(self.connections@, i as int);
                }
                let c = self.connections[i];
                self.connections[i] = Connection { id: c.id, created_at: c.created_at, in_use: true };
                proof {
                    assert(self@ =~= old(self)@.spec_acquire(now).0);
                    lemma_acquire_bounded(old(self)@, now);
                }
                return Ok(c.id);
            }
            i = i + 1;
        }
        proof {
            lemma_first_idle_scan(self.connections@, n as int);
        }
        if self.connections.len() < self.max_connections {
            let id = self.connections.len() as u64;
            self.connections.push(Connection { id, created_at: now, in_use: true });
            proof {
                assert(self@ =~= old(self)@.spec_acquire(now).0);
            }
            Ok(id)
        } else {
            Err(ResourceError::ResourceExhausted)
        }
    }

    /// Scoped acquisition: checks a connection out, runs `work` on its
    /// identifier, and releases it again — exactly once, whether or not
    /// the work succeeded. When the pool is exhausted the work never
    /// runs.
    pub fn with_connection<T, F: FnOnce(u64) -> Result<T, ResourceError>>(
        &mut self,
        now: u64,
        work: F,
    ) -> (r: Result<T, ResourceError>)
        requires
            old(self)@.wf(),
            forall|id: u64| call_requires(work, (id,)),
        ensures
            final(self)@.wf(),
            old(self)@.spec_acquire(now).1 matches Err(e) ==> r == Err::<T, ResourceError>(e)
                && final(self)@ == old(self)@,
            old(self)@.spec_acquire(now).1 matches Ok(id) ==> call_ensures(work, (id,), r)
                && final(self)@ == old(self)@.spec_acquire(now).0.spec_release(id),
    {
        match self.acquire(now) {
            Ok(id) => {
                let outcome = work(id);
                self.release(id);
                proof {
                    lemma_release_after_acquire_wf(old(self)@, now, self@);
                }
                outcome
            },
            Err(e) => Err(e),
        }
    }

    /// Returns the connection with identifier `id` to the pool, marking it
    /// idle. A connection the pool never created is ignored.
    pub fn release(&mut self, id: u64)
        requires
            old(self)@.wf(),
        ensures
            final(self)@.wf(),
            final(self)@ == old(self)@.spec_release(id),
    {
        if id < self.connections.len() as u64 {
            let i = id as usize;
            let c = self.connections[i];
            self.connections[i] = Connection { id: c.id, created_at: c.created_at, in_use: false };
            proof {
                assert(self@ =~= old(self)@.spec_release(id));
            }
        }
    }
}

/// Releasing right after acquiring keeps the pool well-formed; a helper
/// for the scoped acquisition.
proof fn lemma_release_after_acquire_wf(v: PoolView, now: u64, post: PoolView)
    requires
        v.wf(),
        v.spec_acquire(now).1 matches Ok(id) && post == v.spec_acquire(now).0.spec_release(id),
    ensures
        post.wf(),
{
    lemma_acquire_bounded(v, now);
}

/// Scanning the first `i` connections and finding them all in use means the
/// first idle index is the first idle index at or after `i`.
proof fn lemma_first_idle_scan(s: Seq<Connection>, i: int)
    requires
        0 <= i <= s.len(),
        forall|j: int| 0 <= j < i ==> (#[trigger] s[j]).in_use,
    ensures
        first_idle_from(s, 0) == first_idle_from(s, i),
    decreases i,
{
    if i > 0 {
        lemma_first_idle_scan(s.subrange(0, i), i - 1);
        assert(first_idle_from(s, i - 1) == first_idle_from(s, i));
        lemma_first_idle_scan_step(s, 0, i - 1);
    }
}

/// Helper for `lemma_first_idle_scan`: pushing the scan start one step past
/// an in-use connection changes nothing.
proof fn lemma_first_idle_scan_step(s: Seq<Connection>, lo: int, i: int)
    requires
        0 <= lo <= i < s.len(),
        forall|j: int| lo <= j < i + 1 ==> (#[trigger] s[j]).in_use,
    ensures
        first_idle_from(s, lo) == first_idle_from(s, i + 1),
    decreases i - lo,
{
    if lo < i {
        lemma_first_idle_scan_step(s, lo + 1, i);
    }
}

/// No more connections are in use than exist.
pub proof fn lemma_in_use_at_most_len(s: Seq<Connection>)
    ensures
        count_in_use(s) <= s.len(),
    decreases s.len(),
{
    if s.len() > 0 {
        lemma_in_use_at_most_len(s.drop_last());
    }
}

/// Every connection of `s` is in use exactly when the in-use count reaches
/// the length.
pub proof fn lemma_all_in_use(s: Seq<Connection>)
    ensures
        count_in_use(s) == s.len() <==> forall|i: int| 0 <= i < s.len() ==> (#[trigger] s[i]).in_use,
    decreases s.len(),
{
    if s.len() > 0 {
        lemma_all_in_use(s.drop_last());
        lemma_in_use_at_most_len(s.drop_last());
        if count_in_use(s) == s.len() {
            assert forall|i: int| 0 <= i < s.len() implies (#[trigger] s[i]).in_use by {
                if i < s.len() - 1 {
                    assert(s.drop_last()[i] == s[i]);
                }
            }
        }
        if forall|i: int| 0 <= i < s.len() ==> (#[trigger] s[i]).in_use {
            assert forall|i: int| 0 <= i < s.drop_last().len() implies (#[trigger] s.drop_last()[i]).in_use by {
                assert(s.drop_last()[i] == s[i]);
            }
        }
    }
}

/// Acquiring checks out at most one more connection, never pushes the pool
/// over its bound, and fails exactly when every one of `max_connections`
/// connections is already in use — in which case the pool is unchanged.
pub proof fn lemma_acquire_bounded(v: PoolView, now: u64)
    requires
        v.wf(),
    ensures
        v.spec_acquire(now).0.wf(),
        v.spec_acquire(now).0.max_connections == v.max_connections,
        v.spec_acquire(now).0.in_use_count() <= v.max_connections,
        v.spec_acquire(now).0.in_use_count() <= v.in_use_count() + 1,
        v.spec_acquire(now).1 is Err <==> v.in_use_count() == v.max_connections,
        v.spec_acquire(now).1 is Err ==> v.spec_acquire(now).0 == v,
{
    let k = first_idle_from(v.connections, 0);
    lemma_first_idle_bounds(v.connections, 0);
    let (v2, r) = v.spec_acquire(now);
    lemma_in_use_at_most_len(v.connections);
    lemma_all_in_use(v.connections);
    if k < v.connections.len() {
        lemma_count_update_in_use(v.connections, k);
        lemma_in_use_at_most_len(v2.connections);
        assert(v2.wf());
    } else if v.connections.len() < v.max_connections {
        assert(v2.connections.drop_last() =~= v.connections);
        lemma_in_use_at_most_len(v.connections);
        assert(v2.wf());
    } else {
        // every connection is in use and the pool is full
        assert(forall|i: int| 0 <= i < v.connections.len() ==> (#[trigger] v.connections[i]).in_use);
    }
}

/// The first idle index lies between the scan start and the length.
proof fn lemma_first_idle_bounds(s: Seq<Connection>, i: int)
    requires
        0 <= i <= s.len(),
    ensures
        i <= first_idle_from(s, i) <= s.len(),
        first_idle_from(s, i) < s.len() ==> !s[first_idle_from(s, i)].in_use,
        first_idle_from(s, i) == s.len() ==> forall|j: int|
            i <= j < s.len() ==> (#[trigger] s[j]).in_use,
    decreases s.len() - i,
{
    if i < s.len() && s[i].in_use {
        lemma_first_idle_bounds(s, i + 1);
    }
}

/// Marking an idle connection in use raises the in-use count by one.
proof fn lemma_count_update_in_use(s: Seq<Connection>, k: int)
    requires
        0 <= k < s.len(),
        !s[k].in_use,
    ensures
        count_in_use(
            s.update(k, Connection { id: s[k].id, created_at: s[k].created_at, in_use: true }),
        ) == count_in_use(s) + 1,
    decreases s.len(),
{
    let s2 = s.update(k, Connection { id: s[k].id, created_at: s[k].created_at, in_use: true });
    if k == s.len() - 1 {
        assert(s2.drop_last() =~= s.drop_last());
    } else {
        lemma_count_update_in_use(s.drop_last(), k);
        assert(s2.drop_last() =~= s.drop_last().update(
            k,
            Connection { id: s[k].id, created_at: s[k].created_at, in_use: true },
        ));
        assert(s2.last() == s.last());
    }
}

/// Against any sequence of acquire calls with no releases in between, a
/// well-formed pool never has more than its bound of connections in use, and
/// an acquire finding every connection of a full pool in use is refused.
pub proof fn lemma_acquire_sequence_bounded(states: Seq<PoolView>, times: Seq<u64>)
    requires
        states.len() == times.len() + 1,
        states[0].wf(),
        forall|i: int|
            0 <= i < times.len() ==> states[i + 1] == (#[trigger] states[i].spec_acquire(
                times[i],
            )).0,
    ensures
        forall|i: int|
            0 <= i < states.len() ==> (#[trigger] states[i]).wf() && states[i].in_use_count()
                <= states[0].max_connections,
    decreases states.len(),
{
    lemma_in_use_at_most_len(states[0].connections);
    if states.len() > 1 {
        lemma_acquire_bounded(states[0], times[0]);
        lemma_acquire_sequence_bounded(states.drop_first(), times.drop_first());
        assert forall|i: int|
            0 <= i < states.len() implies (#[trigger] states[i]).wf() && states[i].in_use_count()
            <= states[0].max_connections by {
            if i > 0 {
                assert(states.drop_first()[i - 1] == states[i]);
                assert(states.drop_first()[0].max_connections == states[0].max_connections);
            }
        }
    }
}

/// When some connection is idle, acquiring reuses it: the answer is the
/// identifier of an existing idle connection and no connection is created.
pub proof fn lemma_acquire_reuses_idle(v: PoolView, now: u64)
    requires
        v.wf(),
        v.has_idle(),
    ensures
        v.spec_acquire(now).0.connections.len() == v.connections.len(),
        v.spec_acquire(now).1 matches Ok(id) && {
            let k = first_idle_from(v.connections, 0);
            id == v.connections[k].id && !v.connections[k].in_use
        },
{
    lemma_first_idle_bounds(v.connections, 0);
}

} // verus!
