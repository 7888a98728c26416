//! The port allocator: a pool of host ports over a fixed range
//! `[min, max]`, split between a `free` pool (kept in ascending order, so
//! reservation is deterministic smallest-first) and an `in_use` pool that
//! records an absolute expiry timestamp per reserved port.
//!
//! The allocator's well-formedness is the partition law: every port of the
//! range sits in exactly one of the two pools, and each operation preserves
//! that.

use vstd::prelude::*;
use vstd::pervasive::VecAdditionalExecFns;

verus! {

/// Why an allocator operation failed.
#[derive(Clone, Copy, PartialEq, Eq, Structural, Debug)]
pub enum PortError {
    /// `reserve` found the free pool empty.
    OutOfPorts,
    /// `extend` named a port that is not currently in use.
    InvalidPort,
}

/// The allocator state. `free` is strictly ascending; `in_use` pairs each
/// reserved port with its absolute expiry in seconds.
pub struct PortManager {
    pub free: Vec<u16>,
    pub in_use: Vec<(u16, u64)>,
    pub min: u16,
    pub max: u16,
    pub default_ttl: u64,
}

impl PortManager {
    /// Whether `p` lies in the configured range.
    pub open spec fn in_range(&self, p: u16) -> bool {
        self.min <= p <= self.max
    }

    /// Whether `p` is in the free pool.
    pub open spec fn is_free(&self, p: u16) -> bool {
        self.free@.contains(p)
    }

    /// Whether `p` is in the in-use pool.
    pub open spec fn is_in_use(&self, p: u16) -> bool {
        exists|i: int| 0 <= i < self.in_use@.len() && (#[trigger] self.in_use@[i]).0 == p
    }

    /// The index of `p` in the in-use pool (meaningful when `is_in_use(p)`).
    pub open spec fn in_use_index(&self, p: u16) -> int {
        choose|i: int| 0 <= i < self.in_use@.len() && (#[trigger] self.in_use@[i]).0 == p
    }

    /// The expiry recorded for an in-use port `p`.
    pub open spec fn expiry_of(&self, p: u16) -> u64 {
        self.in_use@[self.in_use_index(p)].1
    }

    /// The configuration fields of `other` agree with `self`'s.
    pub open spec fn same_config(&self, other: &PortManager) -> bool {
        self.min == other.min && self.max == other.max && self.default_ttl == other.default_ttl
    }

    /// Well-formedness: pools hold only in-range ports, without duplicates,
    /// `free` strictly ascending, and the two pools partition the range.
    pub open spec fn wf(&self) -> bool {
        &&& self.min <= self.max
        &&& forall|i: int, j: int|
            0 <= i < j < self.free@.len() ==> #[trigger] self.free@[i] < #[trigger] self.free@[j]
        &&& forall|i: int| 0 <= i < self.free@.len() ==> self.min <= #[trigger] self.free@[i] <= self.max
        &&& forall|i: int|
            0 <= i < self.in_use@.len() ==> self.min <= (#[trigger] self.in_use@[i]).0 <= self.max
        &&& forall|i: int, j: int|
            0 <= i < j < self.in_use@.len() ==> (#[trigger] self.in_use@[i]).0 != (
            #[trigger] self.in_use@[j]).0
        &&& forall|p: u16| !(#[trigger] self.is_free(p) && self.is_in_use(p))
        &&& forall|p: u16| self.min <= p <= self.max ==> #[trigger] self.is_free(p) || self.is_in_use(p)
    }

    /// An allocator over `[min, max]` with every port free.
    pub fn new(min: u16, max: u16, default_ttl: u64) -> (r: PortManager)
        requires
            min <= max,
        ensures
            r.wf(),
            r.min == min,
            r.max == max,
            r.default_ttl == default_ttl,
            r.in_use@.len() == 0,
            r.free@.len() == max - min + 1,
            forall|p: u16| min <= p <= max ==> r.is_free(p),
            forall|i: int| 0 <= i < r.free@.len() ==> #[trigger] r.free@[i] == min + i,
    {
        let mut pm = PortManager { free: Vec::new(), in_use: Vec::new(), min, max, default_ttl };
        pm.initialize();
        pm
    }

    /// If both pools are empty, populate `free` with the whole range;
    /// otherwise leave the allocator untouched. Idempotent, so it is safe
    /// to run at every process start.
    pub fn initialize(&mut self)
        requires
            old(self).min <= old(self).max,
        ensures
            final(self).same_config(old(self)),
            old(self).free@.len() == 0 && old(self).in_use@.len() == 0 ==> {
                &&& final(self).wf()
                &&& final(self).in_use@.len() == 0
                &&& final(self).free@.len() == old(self).max - old(self).min + 1
                &&& forall|p: u16| old(self).min <= p <= old(self).max ==> final(self).is_free(p)
                &&& forall|i: int|
                    0 <= i < final(self).free@.len() ==> #[trigger] final(self).free@[i] == old(
                        self,
                    ).min + i
            },
            !(old(self).free@.len() == 0 && old(self).in_use@.len() == 0) ==> *final(self) == *old(
                self,
            ),
    {
        let ghost pre = *old(self);
        if self.free.len() == 0 && self.in_use.len() == 0 {
            let count: usize = (self.max as usize) - (self.min as usize) + 1;
            let mut i: usize = 0;
            while i < count
                invariant
                    self.min == pre.min,
                    self.max == pre.max,
                    self.default_ttl == pre.default_ttl,
                    self.min <= self.max,
                    count == self.max - self.min + 1,
                    i <= count,
                    self.in_use@.len() == 0,
                    self.free@.len() == i,
                    forall|k: int| 0 <= k < i ==> #[trigger] self.free@[k] == self.min + k,
                decreases count - i,
            {
                self.free.push(self.min + (i as u16));
                i = i + 1;
            }
            proof {
                assert forall|p: u16| self.min <= p <= self.max implies #[trigger] self.is_free(p)
                    || self.is_in_use(p) by {
                    assert(self.free@[p - self.min] == p);
                }
                assert forall|p: u16| !(#[trigger] self.is_free(p) && self.is_in_use(p)) by {}
            }
        }
    }

    /// The TTL an optional override resolves to.
    pub open spec fn effective_ttl(&self, ttl_secs: Option<u64>) -> u64 {
        match ttl_secs {
            Some(t) => t,
            None => self.default_ttl,
        }
    }

    /// Atomically pop the smallest free port and mark it in use until
    /// `now + ttl`. Fails with `OutOfPorts` exactly when the free pool is
    /// empty.
    pub fn reserve_port(&mut self, ttl_secs: Option<u64>, now: u64) -> (r: Result<u16, PortError>)
        requires
            old(self).wf(),
            now + old(self).effective_ttl(ttl_secs) <= u64::MAX,
        ensures
            final(self).wf(),
            final(self).same_config(old(self)),
            old(self).free@.len() == 0 ==> r == Err::<u16, PortError>(PortError::OutOfPorts)
                && *final(self) == *old(self),
            old(self).free@.len() > 0 ==> {
                &&& r == Ok::<u16, PortError>(old(self).free@[0])
                &&& final(self).free@ == old(self).free@.subrange(1, old(self).free@.len() as int)
                &&& final(self).in_use@ == old(self).in_use@.push(
                    (old(self).free@[0], (now + old(self).effective_ttl(ttl_secs)) as u64),
                )
                &&& forall|q: u16| old(self).is_free(q) ==> old(self).free@[0] <= q
            },
    {
        let ttl: u64 = match ttl_secs {
            Some(t) => t,
            None => self.default_ttl,
        };
        if self.free.len() == 0 {
            return Err(PortError::OutOfPorts);
        }
        let p = self.free.remove(0);
        let expiry = now + ttl;
        self.in_use.push((p, expiry));
        proof {
            let pre = *old(self);
            assert(pre.free@.remove(0) =~= pre.free@.subrange(1, pre.free@.len() as int));
            // the popped minimum is below every other free port
            assert forall|q: u16| pre.is_free(q) implies p <= q by {
                let i = choose|i: int| 0 <= i < pre.free@.len() && pre.free@[i] == q;
                if i > 0 {
                    assert(pre.free@[0] < pre.free@[i]);
                }
            }
            // p was free, so it was not in use before
            assert(pre.is_free(p));
            // membership in the shrunk free pool implies old membership away from p
            assert forall|q: u16| #[trigger] self.is_free(q) implies pre.is_free(q) && q != p by {
                let i = choose|i: int| 0 <= i < self.free@.len() && self.free@[i] == q;
                assert(pre.free@[i + 1] == q);
                assert(pre.free@[0] < pre.free@[i + 1]);
            }
            // membership in the grown in-use pool
            assert forall|q: u16| #[trigger] self.is_in_use(q) implies pre.is_in_use(q) || q == p by {
                let i = choose|i: int| 0 <= i < self.in_use@.len() && self.in_use@[i].0 == q;
                if i < pre.in_use@.len() {
                    assert(pre.in_use@[i].0 == q);
                }
            }
            assert(self.is_in_use(p)) by {
                assert(self.in_use@[self.in_use@.len() - 1].0 == p);
            }
            // disjointness and completeness carry over
            assert forall|q: u16| !(#[trigger] self.is_free(q) && self.is_in_use(q)) by {
                if self.is_free(q) {
                    assert(pre.is_free(q) && q != p);
                    if self.is_in_use(q) {
                        assert(pre.is_in_use(q));
                    }
                }
            }
            assert forall|q: u16| self.min <= q <= self.max implies #[trigger] self.is_free(q)
                || self.is_in_use(q) by {
                assert(pre.is_free(q) || pre.is_in_use(q));
                if pre.is_free(q) {
                    if q != p {
                        let i = choose|i: int| 0 <= i < pre.free@.len() && pre.free@[i] == q;
                        assert(pre.free@[0] <= q);
                        assert(i != 0);
                        assert(self.free@[i - 1] == q);
                        assert(self.is_free(q));
                    }
                } else {
                    let i = choose|i: int| 0 <= i < pre.in_use@.len() && pre.in_use@[i].0 == q;
                    assert(self.in_use@[i].0 == q);
                }
            }
        }
        Ok(p)
    }

    /// Return `port` to the free pool, removing it from the in-use pool.
    /// Out-of-range ports are ignored; releasing a port that is already
    /// free changes nothing, so the operation is idempotent.
    pub fn release_port(&mut self, port: u16)
        requires
            old(self).wf(),
        ensures
            final(self).wf(),
            final(self).same_config(old(self)),
            !old(self).in_range(port) ==> *final(self) == *old(self),
            old(self).in_range(port) ==> {
                &&& final(self).is_free(port)
                &&& !final(self).is_in_use(port)
                &&& forall|q: u16| q != port ==> (final(self).is_free(q) <==> old(self).is_free(q))
                &&& forall|q: u16|
                    q != port ==> (final(self).is_in_use(q) <==> old(self).is_in_use(q))
                &&& forall|q: u16|
                    q != port && old(self).is_in_use(q) ==> final(self).expiry_of(q) == old(
                        self,
                    ).expiry_of(q)
            },
            old(self).in_range(port) && old(self).is_in_use(port) ==> final(self).free@.len() == old(
                self,
            ).free@.len() + 1 && final(self).in_use@.len() == old(self).in_use@.len() - 1,
            old(self).in_range(port) && old(self).is_free(port) ==> *final(self) == *old(self),
    {
        if port < self.min || port > self.max {
            return ;
        }
        // remove from the in-use pool if present
        let ghost pre = *old(self);
        let mut i: usize = 0;
        let mut removed = false;
        while i < self.in_use.len()
            invariant
                pre.wf(),
                self.min == pre.min,
                self.max == pre.max,
                self.default_ttl == pre.default_ttl,
                self.free == pre.free,
                i <= self.in_use@.len(),
                !removed ==> *self == pre && forall|k: int|
                    0 <= k < i ==> (#[trigger] pre.in_use@[k]).0 != port,
                removed ==> pre.is_in_use(port) && exists|k: int|
                    0 <= k < pre.in_use@.len() && pre.in_use@[k].0 == port && self.in_use@
                        =~= #[trigger] pre.in_use@.remove(k),
            decreases self.in_use@.len() - i,
        {
            if !removed && self.in_use[i].0 == port {
                let ghost k = i as int;
                self.in_use.remove(i);
                removed = true;
                proof {
                    assert(pre.in_use@[k].0 == port);
                    assert(self.in_use@ =~= pre.in_use@.remove(k));
                }
            } else {
                i = i + 1;
            }
        }
        if !removed {
            // the partition law says an in-range port missing from the
            // in-use pool is already free
            proof {
                assert(!pre.is_in_use(port));
                assert(pre.is_free(port));
            }
            return ;
        }
        // insert into the free pool at its sorted position
        let ghost mid = *self;
        let mut j: usize = 0;
        while j < self.free.len() && self.free[j] < port
            invariant
                self.free == mid.free,
                j <= self.free@.len(),
                forall|k: int| 0 <= k < j ==> #[trigger] self.free@[k] < port,
                forall|i0: int, j0: int|
                    0 <= i0 < j0 < self.free@.len() ==> #[trigger] self.free@[i0]
                        < #[trigger] self.free@[j0],
            decreases self.free@.len() - j,
        {
            j = j + 1;
        }
        self.free.insert(j, port);
        proof {
            let jj = j as int;
            let newfree = self.free@;
            let oldfree = mid.free@;
            assert(newfree =~= oldfree.insert(jj, port));
            // port was in use before, so it was not free
            assert(!pre.is_free(port));
            // sortedness of the new free pool
            assert forall|a: int, b: int|
                0 <= a < b < newfree.len() implies #[trigger] newfree[a] < #[trigger] newfree[b] by {
                if a < jj && b > jj {
                    assert(newfree[a] == oldfree[a] && newfree[b] == oldfree[b - 1]);
                    if b - 1 == jj {
                        assert(oldfree[jj] >= port);
                        assert(oldfree[jj] != port) by {
                            if oldfree[jj] == port {
                                assert(pre.is_free(port));
                            }
                        }
                    } else {
                        assert(oldfree[a] < oldfree[b - 1]);
                    }
                } else if a == jj && b > jj {
                    assert(newfree[b] == oldfree[b - 1]);
                    assert(oldfree[b - 1] >= oldfree[jj]) by {
                        if b - 1 > jj {
                            assert(oldfree[jj] < oldfree[b - 1]);
                        }
                    }
                    assert(oldfree[jj] >= port);
                    assert(oldfree[jj] != port) by {
                        if oldfree[jj] == port {
                            assert(pre.is_free(port));
                        }
                    }
                } else if b == jj {
                    assert(newfree[a] == oldfree[a] && oldfree[a] < port);
                }
            }
            // membership facts
            assert(self.is_free(port)) by {
                assert(newfree[jj] == port);
            }
            assert forall|q: u16| q != port implies (#[trigger] self.is_free(q) <==> pre.is_free(q)) by {
                if self.is_free(q) {
                    let a = choose|a: int| 0 <= a < newfree.len() && newfree[a] == q;
                    if a < jj {
                        assert(oldfree[a] == q);
                    } else {
                        assert(a != jj);
                        assert(oldfree[a - 1] == q);
                    }
                }
                if pre.is_free(q) {
                    let a = choose|a: int| 0 <= a < oldfree.len() && oldfree[a] == q;
                    if a < jj {
                        assert(newfree[a] == q);
                    } else {
                        assert(newfree[a + 1] == q);
                    }
                }
            }
            let ghost k = choose|k: int|
                0 <= k < pre.in_use@.len() && pre.in_use@[k].0 == port && self.in_use@
                    =~= pre.in_use@.remove(k);
            assert forall|q: u16| q != port implies (#[trigger] self.is_in_use(q)
                <==> pre.is_in_use(q)) by {
                if self.is_in_use(q) {
                    let a = choose|a: int| 0 <= a < self.in_use@.len() && self.in_use@[a].0 == q;
                    if a < k {
                        assert(pre.in_use@[a].0 == q);
                    } else {
                        assert(pre.in_use@[a + 1].0 == q);
                    }
                }
                if pre.is_in_use(q) {
                    let a = choose|a: int| 0 <= a < pre.in_use@.len() && pre.in_use@[a].0 == q;
                    assert(a != k);
                    if a < k {
                        assert(self.in_use@[a].0 == q);
                    } else {
                        assert(self.in_use@[a - 1].0 == q);
                    }
                }
            }
            assert(!self.is_in_use(port)) by {
                if self.is_in_use(port) {
                    let a = choose|a: int| 0 <= a < self.in_use@.len() && self.in_use@[a].0 == port;
                    if a < k {
                        assert(pre.in_use@[a].0 == port);
                        assert(pre.in_use@[a].0 != pre.in_use@[k].0);
                    } else {
                        assert(pre.in_use@[a + 1].0 == port);
                        assert(pre.in_use@[k].0 != pre.in_use@[a + 1].0);
                    }
                }
            }
            // expiries of other in-use ports are unchanged
            lemma_remove_indexing(pre.in_use@, self.in_use@, k);
            assert forall|q: u16| q != port && pre.is_in_use(q) implies self.expiry_of(q)
                == pre.expiry_of(q) by {
                let b = pre.in_use_index(q);
                assert(0 <= b < pre.in_use@.len() && pre.in_use@[b].0 == q);
                assert(b != k);
                let a = if b < k {
                    b
                } else {
                    b - 1
                };
                assert(self.in_use@[a] == pre.in_use@[b]);
                assert(self.is_in_use(q));
                let a2 = self.in_use_index(q);
                assert(0 <= a2 < self.in_use@.len() && self.in_use@[a2].0 == q);
                assert(a2 == a) by {
                    if a2 != a {
                        let c = if a2 < k {
                            a2
                        } else {
                            a2 + 1
                        };
                        assert(self.in_use@[a2] == pre.in_use@[c]);
                        assert(pre.in_use@[c].0 == q);
                        if c != b {
                            lemma_unique_distinct(pre.in_use@, c, b);
                        }
                    }
                }
            }
            // well-formedness of the result
            assert forall|q: u16| !(#[trigger] self.is_free(q) && self.is_in_use(q)) by {
                if q != port && self.is_free(q) && self.is_in_use(q) {
                    assert(pre.is_free(q) && pre.is_in_use(q));
                }
            }
            assert forall|q: u16| self.min <= q <= self.max implies #[trigger] self.is_free(q)
                || self.is_in_use(q) by {
                if q != port {
                    assert(pre.is_free(q) || pre.is_in_use(q));
                }
            }
            assert forall|a: int|
                0 <= a < self.in_use@.len() implies self.min <= (#[trigger] self.in_use@[a]).0
                <= self.max by {
                if a < k {
                    assert(self.in_use@[a] == pre.in_use@[a]);
                } else {
                    assert(self.in_use@[a] == pre.in_use@[a + 1]);
                }
            }
            assert forall|a: int, b: int|
                0 <= a < b < self.in_use@.len() implies (#[trigger] self.in_use@[a]).0 != (
            #[trigger] self.in_use@[b]).0 by {
                let a0 = if a < k { a } else { a + 1 };
                let b0 = if b < k { b } else { b + 1 };
                assert(self.in_use@[a] == pre.in_use@[a0]);
                assert(self.in_use@[b] == pre.in_use@[b0]);
            }
        }
    }

    /// Add `extra_secs` to the expiry of an in-use port, saturating at the
    /// largest representable timestamp. Fails with `InvalidPort` exactly
    /// when the port is not currently in use.
    pub fn extend_port(&mut self, port: u16, extra_secs: u64) -> (r: Result<(), PortError>)
        requires
            old(self).wf(),
        ensures
            final(self).wf(),
            final(self).same_config(old(self)),
            !old(self).is_in_use(port) ==> r == Err::<(), PortError>(PortError::InvalidPort)
                && *final(self) == *old(self),
            old(self).is_in_use(port) ==> {
                &&& r == Ok::<(), PortError>(())
                &&& final(self).free@ == old(self).free@
                &&& final(self).in_use@.len() == old(self).in_use@.len()
                &&& final(self).is_in_use(port)
                &&& final(self).expiry_of(port) == saturating_add(
                    old(self).expiry_of(port) as nat,
                    extra_secs as nat,
                )
                &&& forall|q: u16| #[trigger] final(self).is_in_use(q) <==> old(self).is_in_use(q)
                &&& forall|q: u16|
                    q != port && old(self).is_in_use(q) ==> final(self).expiry_of(q) == old(
                        self,
                    ).expiry_of(q)
            },
    {
        let ghost pre = *old(self);
        let mut i: usize = 0;
        while i < self.in_use.len()
            invariant
                pre == *old(self),
                pre.wf(),
                *self == pre,
                i <= self.in_use@.len(),
                forall|k: int| 0 <= k < i ==> (#[trigger] pre.in_use@[k]).0 != port,
            decreases self.in_use@.len() - i,
        {
            if self.in_use[i].0 == port {
                let current = self.in_use[i].1;
                let next = if u64::MAX - current >= extra_secs {
                    current + extra_secs
                } else {
                    u64::MAX
                };
                self.in_use.set(i, (port, next));
                proof {
                    let k = i as int;
                    assert(pre.in_use@[k].0 == port);
                    assert(pre.is_in_use(port));
                    assert(self.is_in_use(port)) by {
                        assert(self.in_use@[k].0 == port);
                    }
                    assert(pre.in_use_index(port) == k) by {
                        let b = pre.in_use_index(port);
                        assert(0 <= b < pre.in_use@.len() && pre.in_use@[b].0 == port);
                        if b != k {
                            lemma_unique_distinct(pre.in_use@, b, k);
                        }
                    }
                    assert(next as nat == saturating_add(
                        pre.expiry_of(port) as nat,
                        extra_secs as nat,
                    ));
                    assert forall|q: u16| #[trigger] self.is_in_use(q) <==> pre.is_in_use(q) by {
                        if self.is_in_use(q) {
                            let a = choose|a: int|
                                0 <= a < self.in_use@.len() && (#[trigger] self.in_use@[a]).0 == q;
                            if a == k {
                                assert(pre.in_use@[k].0 == q);
                            } else {
                                assert(pre.in_use@[a].0 == q);
                            }
                        }
                        if pre.is_in_use(q) {
                            let a = choose|a: int|
                                0 <= a < pre.in_use@.len() && (#[trigger] pre.in_use@[a]).0 == q;
                            if a == k {
                                assert(self.in_use@[k].0 == port);
                            } else {
                                assert(self.in_use@[a].0 == q);
                            }
                        }
                    }
                    assert(self.in_use_index(port) == k) by {
                        let b = self.in_use_index(port);
                        assert(0 <= b < self.in_use@.len() && self.in_use@[b].0 == port);
                        if b != k {
                            assert(pre.in_use@[b].0 == port);
                            lemma_unique_distinct(pre.in_use@, b, k);
                        }
                    }
                    assert forall|q: u16| q != port && pre.is_in_use(q) implies self.expiry_of(q)
                        == pre.expiry_of(q) by {
                        let b = pre.in_use_index(q);
                        assert(0 <= b < pre.in_use@.len() && pre.in_use@[b].0 == q);
                        assert(b != k);
                        assert(self.in_use@[b].0 == q);
                        assert(self.is_in_use(q));
                        let a = self.in_use_index(q);
                        assert(0 <= a < self.in_use@.len() && self.in_use@[a].0 == q);
                        assert(a == b) by {
                            if a != b {
                                if a == k {
                                    assert(self.in_use@[a].0 == port);
                                } else {
                                    assert(pre.in_use@[a].0 == q);
                                    lemma_unique_distinct(pre.in_use@, a, b);
                                }
                            }
                        }
                        assert(self.in_use@[b].1 == pre.in_use@[b].1);
                    }
                    assert forall|q: u16| !(#[trigger] self.is_free(q) && self.is_in_use(q)) by {
                        if self.is_free(q) && self.is_in_use(q) {
                            assert(pre.is_free(q) && pre.is_in_use(q));
                        }
                    }
                    assert forall|a: int|
                        0 <= a < self.in_use@.len() implies self.min <= (
                    #[trigger] self.in_use@[a]).0 <= self.max by {
                        if a != k {
                            assert(self.in_use@[a] == pre.in_use@[a]);
                        }
                    }
                    assert forall|a: int, b: int|
                        0 <= a < b < self.in_use@.len() implies (#[trigger] self.in_use@[a]).0 != (
                    #[trigger] self.in_use@[b]).0 by {
                        let a0 = pre.in_use@[a].0;
                        let b0 = pre.in_use@[b].0;
                        assert(a0 != b0);
                        if a != k && b != k {
                            assert(self.in_use@[a].0 == a0 && self.in_use@[b].0 == b0);
                        } else if a == k {
                            assert(self.in_use@[a].0 == port && a0 == port);
                            assert(self.in_use@[b].0 == b0);
                        } else {
                            assert(self.in_use@[b].0 == port && b0 == port);
                            assert(self.in_use@[a].0 == a0);
                        }
                    }
                    assert forall|q: u16| self.min <= q <= self.max implies #[trigger] self.is_free(
                        q,
                    ) || self.is_in_use(q) by {
                        assert(pre.is_free(q) || pre.is_in_use(q));
                        if pre.is_in_use(q) {
                            assert(self.is_in_use(q));
                        }
                    }
                }
                return Ok(());
            }
            i = i + 1;
        }
        proof {
            assert(!pre.is_in_use(port));
        }
        Err(PortError::InvalidPort)
    }

    /// Whether `p` is currently in the in-use pool.
    pub fn contains_in_use(&self, p: u16) -> (r: bool)
        ensures
            r == self.is_in_use(p),
    {
        let mut i: usize = 0;
        while i < self.in_use.len()
            invariant
                i <= self.in_use@.len(),
                forall|k: int| 0 <= k < i ==> (#[trigger] self.in_use@[k]).0 != p,
            decreases self.in_use@.len() - i,
        {
            if self.in_use[i].0 == p {
                return true;
            }
            i = i + 1;
        }
        false
    }

    /// Every in-use port whose expiry is at or before `now`, in pool order.
    pub fn get_expired(&self, now: u64) -> (r: Vec<u16>)
        ensures
            r@ == expired_ports(self.in_use@, now),
    {
        let mut r: Vec<u16> = Vec::new();
        let mut i: usize = 0;
        while i < self.in_use.len()
            invariant
                i <= self.in_use@.len(),
                r@ == expired_ports(self.in_use@.subrange(0, i as int), now),
            decreases self.in_use@.len() - i,
        {
            proof {
                let s = self.in_use@.subrange(0, i as int + 1);
                assert(s.drop_last() =~= self.in_use@.subrange(0, i as int));
                assert(s.last() == self.in_use@[i as int]);
            }
            if self.in_use[i].1 <= now {
                r.push(self.in_use[i].0);
            }
            i = i + 1;
        }
        proof {
            assert(self.in_use@.subrange(0, self.in_use@.len() as int) =~= self.in_use@);
        }
        r
    }
}

/// Pairwise distinct ports in an in-use pool.
pub open spec fn unique_ports(s: Seq<(u16, u64)>) -> bool {
    forall|i: int, j: int| 0 <= i < j < s.len() ==> (#[trigger] s[i]).0 != (#[trigger] s[j]).0
}

/// Addition on timestamps that stops at the largest representable value.
pub open spec fn saturating_add(a: nat, b: nat) -> nat {
    if a + b <= u64::MAX {
        a + b
    } else {
        u64::MAX as nat
    }
}

/// The ports of `s` whose expiry is at or before `now`, in order.
pub open spec fn expired_ports(s: Seq<(u16, u64)>, now: u64) -> Seq<u16>
    decreases s.len(),
{
    if s.len() == 0 {
        Seq::empty()
    } else {
        let rest = expired_ports(s.drop_last(), now);
        if s.last().1 <= now {
            rest.push(s.last().0)
        } else {
            rest
        }
    }
}

proof fn lemma_remove_indexing(pre: Seq<(u16, u64)>, post: Seq<(u16, u64)>, k: int)
    requires
        0 <= k < pre.len(),
        post =~= pre.remove(k),
    ensures
        forall|a: int| 0 <= a < k ==> post[a] == pre[a],
        forall|a: int| k <= a < post.len() ==> post[a] == pre[a + 1],
{
}

proof fn lemma_unique_distinct(s: Seq<(u16, u64)>, a: int, b: int)
    requires
        forall|i: int, j: int| 0 <= i < j < s.len() ==> (#[trigger] s[i]).0 != (#[trigger] s[j]).0,
        0 <= a < s.len(),
        0 <= b < s.len(),
        a != b,
    ensures
        s[a].0 != s[b].0,
{
    if a < b {
        assert(s[a].0 != s[b].0);
    } else {
        assert(s[b].0 != s[a].0);
    }
}

/// Law: the allocator partitions its range. In a well-formed allocator a
/// port of `[min, max]` is free exactly when it is not in use, so it sits
/// in exactly one of the two pools; each operation keeps the allocator
/// well-formed, so this holds after any sequence of reserve, release and
/// extend.
pub proof fn lemma_port_partition(pm: PortManager, p: u16)
    requires
        pm.wf(),
        pm.min <= p <= pm.max,
    ensures
        pm.is_free(p) <==> !pm.is_in_use(p),
{
}

/// Law: a reserve immediately followed by a release of the reserved port
/// returns both pools to their pre-reserve sizes, and every port to the
/// pool it started in, with its recorded expiry intact.
pub proof fn lemma_reserve_release_roundtrip(
    pre: PortManager,
    mid: PortManager,
    post: PortManager,
    p: u16,
    expiry: u64,
)
    requires
        pre.wf(),
        mid.wf(),
        post.wf(),
        pre.same_config(&mid),
        mid.same_config(&post),
        // the reserve step: p was the smallest free port
        pre.free@.len() > 0,
        p == pre.free@[0],
        mid.free@ == pre.free@.subrange(1, pre.free@.len() as int),
        mid.in_use@ == pre.in_use@.push((p, expiry)),
        // the release step, as `release_port` ensures it
        post.is_free(p),
        !post.is_in_use(p),
        forall|q: u16| q != p ==> (post.is_free(q) <==> mid.is_free(q)),
        forall|q: u16| q != p ==> (post.is_in_use(q) <==> mid.is_in_use(q)),
        forall|q: u16| q != p && mid.is_in_use(q) ==> post.expiry_of(q) == mid.expiry_of(q),
        post.free@.len() == mid.free@.len() + 1,
        post.in_use@.len() == mid.in_use@.len() - 1,
    ensures
        post.free@.len() == pre.free@.len(),
        post.in_use@.len() == pre.in_use@.len(),
        forall|q: u16| post.is_free(q) <==> pre.is_free(q),
        forall|q: u16| post.is_in_use(q) <==> pre.is_in_use(q),
        forall|q: u16| q != p && pre.is_in_use(q) ==> post.expiry_of(q) == pre.expiry_of(q),
        !pre.is_in_use(p) && !post.is_in_use(p),
{
    assert(pre.is_free(p));
    assert(!pre.is_in_use(p));
    assert forall|q: u16| post.is_free(q) <==> pre.is_free(q) by {
        if q != p {
            assert(post.is_free(q) <==> mid.is_free(q));
            assert(mid.is_free(q) <==> pre.is_free(q)) by {
                if mid.is_free(q) {
                    let a = choose|a: int| 0 <= a < mid.free@.len() && mid.free@[a] == q;
                    assert(pre.free@[a + 1] == q);
                }
                if pre.is_free(q) {
                    let a = choose|a: int| 0 <= a < pre.free@.len() && pre.free@[a] == q;
                    if a == 0 {
                        assert(q == p);
                    } else {
                        assert(mid.free@[a - 1] == q);
                    }
                }
            }
        }
    }
    assert forall|q: u16| post.is_in_use(q) <==> pre.is_in_use(q) by {
        if q != p {
            assert(mid.is_in_use(q) <==> pre.is_in_use(q)) by {
                if mid.is_in_use(q) {
                    let a = choose|a: int| 0 <= a < mid.in_use@.len() && mid.in_use@[a].0 == q;
                    if a < pre.in_use@.len() {
                        assert(pre.in_use@[a].0 == q);
                    }
                }
                if pre.is_in_use(q) {
                    let a = choose|a: int| 0 <= a < pre.in_use@.len() && pre.in_use@[a].0 == q;
                    assert(mid.in_use@[a].0 == q);
                }
            }
        }
    }
    assert forall|q: u16| q != p && pre.is_in_use(q) implies post.expiry_of(q) == pre.expiry_of(q) by {
        assert(mid.is_in_use(q)) by {
            let a = choose|a: int| 0 <= a < pre.in_use@.len() && pre.in_use@[a].0 == q;
            assert(mid.in_use@[a].0 == q);
        }
        assert(mid.expiry_of(q) == pre.expiry_of(q)) by {
            let a = pre.in_use_index(q);
            assert(pre.in_use@[a].0 == q);
            assert(mid.in_use@[a].0 == q && mid.in_use@[a].1 == pre.in_use@[a].1);
            let b = mid.in_use_index(q);
            assert(mid.in_use@[b].0 == q);
            assert(a == b) by {
                if a != b {
                    if b < mid.in_use@.len() - 1 {
                        assert(pre.in_use@[b].0 == q);
                        assert(pre.in_use@[a].0 != pre.in_use@[b].0);
                    } else {
                        assert(mid.in_use@[b].0 == p);
                    }
                }
            }
        }
    }
}

} // verus!
