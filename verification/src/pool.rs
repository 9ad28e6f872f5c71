//! Object pooling: reusable objects handed out and taken back without a
//! fresh allocation each time.

use vstd::prelude::*;

verus! {

/// Statistics for pool usage.  Counters wrap around on overflow.
#[derive(Debug, Default, Clone, Copy, PartialEq, Eq, Structural)]
pub struct PoolStats {
    /// Number of items currently in the pool.
    pub available: usize,
    /// Total allocations served.
    pub allocations: usize,
    /// Hits (reused from the pool).
    pub hits: usize,
    /// Misses (new allocation).
    pub misses: usize,
    /// Items returned to the pool.
    pub returns: usize,
}

/// `v + 1`, wrapping around at `usize::MAX`.
pub open spec fn wrap_inc(v: usize) -> usize {
    if v == usize::MAX {
        0
    } else {
        (v + 1) as usize
    }
}

impl PoolStats {
    pub fn new() -> (s: Self)
        ensures
            s == (PoolStats { available: 0, allocations: 0, hits: 0, misses: 0, returns: 0 }),
    {
        PoolStats { available: 0, allocations: 0, hits: 0, misses: 0, returns: 0 }
    }

    /// Record one allocation, counted as a hit or a miss.
    pub fn record_allocation(&mut self, hit: bool)
        ensures
            final(self).allocations == wrap_inc(old(self).allocations),
            final(self).hits == (if hit {
                wrap_inc(old(self).hits)
            } else {
                old(self).hits
            }),
            final(self).misses == (if hit {
                old(self).misses
            } else {
                wrap_inc(old(self).misses)
            }),
            final(self).available == old(self).available,
            final(self).returns == old(self).returns,
    {
        self.allocations = self.allocations.wrapping_add(1);
        if hit {
            self.hits = self.hits.wrapping_add(1);
        } else {
            self.misses = self.misses.wrapping_add(1);
        }
    }

    /// Record one object returned to the pool.
    pub fn record_return(&mut self)
        ensures
            *final(self) == (PoolStats { returns: wrap_inc(old(self).returns), ..*old(self) }),
    {
        self.returns = self.returns.wrapping_add(1);
    }

    /// Reset every counter to zero.
    pub fn reset(&mut self)
        ensures
            *final(self) == (PoolStats {
                available: 0,
                allocations: 0,
                hits: 0,
                misses: 0,
                returns: 0,
            }),
    {
        self.available = 0;
        self.allocations = 0;
        self.hits = 0;
        self.misses = 0;
        self.returns = 0;
    }

    /// `(available, allocations, hits, misses, returns)`.
    pub fn snapshot(&self) -> (t: (usize, usize, usize, usize, usize))
        ensures
            t == (self.available, self.allocations, self.hits, self.misses, self.returns),
    {
        (self.available, self.allocations, self.hits, self.misses, self.returns)
    }
}

/// Objects that can be reset to their initial state for reuse; implemented
/// by users of the pool.
pub trait Resettable {
    /// Reset the object to its initial state.
    fn reset(&mut self);
}

/// A pool of reusable objects.
pub struct ObjectPool<T: Resettable + Default> {
    available: Vec<T>,
    max_size: usize,
    stats: PoolStats,
}

impl<T: Resettable + Default> ObjectPool<T> {
    /// The objects waiting in the pool; the last one is handed out next.
    pub closed spec fn items(&self) -> Seq<T> {
        self.available@
    }

    /// The most objects the pool keeps.
    pub closed spec fn capacity(&self) -> usize {
        self.max_size
    }

    /// The pool's statistics.
    pub closed spec fn spec_stats(&self) -> PoolStats {
        self.stats
    }

    /// The pool never holds more than its maximum size, and its statistics
    /// report how many objects it holds.
    pub closed spec fn wf(&self) -> bool {
        &&& self.available@.len() <= self.max_size
        &&& self.stats.available == self.available@.len()
    }

    /// An empty pool that keeps at most `max_size` objects.
    pub fn new(max_size: usize) -> (p: Self)
        ensures
            p.wf(),
            p.items() == Seq::<T>::empty(),
            p.capacity() == max_size,
            p.spec_stats() == PoolStats::new_spec(),
    {
        let cap = if max_size < 16 { max_size } else { 16 };
        ObjectPool { available: Vec::with_capacity(cap), max_size, stats: PoolStats::new() }
    }

    /// A pool pre-filled with `min(initial, max_size)` default objects.
    pub fn with_preallocated(max_size: usize, initial: usize) -> (p: Self)
        ensures
            p.wf(),
            p.items().len() == (if initial < max_size {
                initial
            } else {
                max_size
            }),
            p.capacity() == max_size,
            p.spec_stats() == (PoolStats { available: p.items().len() as usize, ..PoolStats::new_spec() }),
            forall|i: int| 0 <= i < p.items().len() ==> call_ensures(T::default, (), #[trigger] p.items()[i]),
    {
        let mut pool = Self::new(max_size);
        let n = if initial < max_size { initial } else { max_size };
        let mut i: usize = 0;
        while i < n
            invariant
                0 <= i <= n <= max_size,
                pool.available@.len() == i,
                pool.max_size == max_size,
                pool.stats == PoolStats::new_spec(),
                forall|k: int| 0 <= k < pool.available@.len() ==> call_ensures(T::default, (), #[trigger] pool.available@[k]),
            decreases n - i,
        {
            pool.available.push(T::default());
            i = i + 1;
        }
        pool.stats.available = pool.available.len();
        pool
    }

    /// Hand out the most recently returned object, or a fresh default one
    /// when the pool is empty; the allocation is recorded as a hit or a
    /// miss.
    pub fn acquire(&mut self) -> (obj: T)
        requires
            old(self).wf(),
        ensures
            final(self).wf(),
            final(self).capacity() == old(self).capacity(),
            old(self).items().len() > 0 ==> obj == old(self).items().last() && final(self).items()
                == old(self).items().drop_last(),
            old(self).items().len() == 0 ==> final(self).items() == old(self).items() && call_ensures(
                T::default,
                (),
                obj,
            ),
            final(self).spec_stats().allocations == wrap_inc(old(self).spec_stats().allocations),
            final(self).spec_stats().hits == (if old(self).items().len() > 0 {
                wrap_inc(old(self).spec_stats().hits)
            } else {
                old(self).spec_stats().hits
            }),
            final(self).spec_stats().misses == (if old(self).items().len() > 0 {
                old(self).spec_stats().misses
            } else {
                wrap_inc(old(self).spec_stats().misses)
            }),
            final(self).spec_stats().returns == old(self).spec_stats().returns,
            final(self).spec_stats().available == final(self).items().len(),
    {
        let obj = self.available.pop();
        let hit = obj.is_some();
        self.stats.record_allocation(hit);
        self.stats.available = self.available.len();
        match obj {
            Some(o) => o,
            None => T::default(),
        }
    }

    /// Take an object back: below the maximum size it is reset and kept,
    /// otherwise it is dropped.
    pub fn release(&mut self, obj: T)
        requires
            old(self).wf(),
        ensures
            final(self).wf(),
            final(self).capacity() == old(self).capacity(),
            old(self).items().len() < old(self).capacity() ==> {
                &&& final(self).items().len() == old(self).items().len() + 1
                &&& final(self).items().drop_last() == old(self).items()
                &&& final(self).spec_stats() == (PoolStats {
                    returns: wrap_inc(old(self).spec_stats().returns),
                    available: final(self).items().len() as usize,
                    ..old(self).spec_stats()
                })
            },
            old(self).items().len() >= old(self).capacity() ==> final(self).items() == old(
                self,
            ).items() && final(self).spec_stats() == old(self).spec_stats(),
    {
        if self.available.len() < self.max_size {
            let mut obj = obj;
            obj.reset();
            self.available.push(obj);
            self.stats.record_return();
            self.stats.available = self.available.len();
            proof {
                assert(self.available@.drop_last() =~= old(self).available@);
            }
        }
    }

    /// The pool's statistics.
    pub fn stats(&self) -> (s: &PoolStats)
        ensures
            *s == self.spec_stats(),
    {
        &self.stats
    }

    /// Number of objects waiting in the pool.
    pub fn available(&self) -> (n: usize)
        ensures
            n == self.items().len(),
    {
        self.available.len()
    }

    /// Drop every pooled object.
    pub fn clear(&mut self)
        requires
            old(self).wf(),
        ensures
            final(self).wf(),
            final(self).items() == Seq::<T>::empty(),
            final(self).capacity() == old(self).capacity(),
            final(self).spec_stats() == (PoolStats { available: 0, ..old(self).spec_stats() }),
    {
        self.available.clear();
        self.stats.available = 0;
    }

    /// Drop pooled objects until at most `target` remain; the oldest ones
    /// are kept.
    pub fn shrink_to(&mut self, target: usize)
        requires
            old(self).wf(),
        ensures
            final(self).wf(),
            final(self).capacity() == old(self).capacity(),
            final(self).items() == (if old(self).items().len() > target {
                old(self).items().take(target as int)
            } else {
                old(self).items()
            }),
            final(self).spec_stats() == (PoolStats {
                available: final(self).items().len() as usize,
                ..old(self).spec_stats()
            }),
    {
        while self.available.len() > target
            invariant
                self.available@.len() <= old(self).available@.len(),
                self.available@ == old(self).available@.take(self.available@.len() as int),
                old(self).available@.len() > target ==> self.available@.len() >= target,
                old(self).available@.len() <= target ==> self.available@ == old(self).available@,
                self.max_size == old(self).max_size,
                self.stats == old(self).stats,
                old(self).wf(),
            decreases self.available@.len(),
        {
            self.available.pop();
        }
        self.stats.available = self.available.len();
    }
}

impl PoolStats {
    /// Statistics with every counter zero.
    pub open spec fn new_spec() -> PoolStats {
        PoolStats { available: 0, allocations: 0, hits: 0, misses: 0, returns: 0 }
    }
}

/// Every allocation is either a hit or a miss: starting from zeroed
/// statistics, one `acquire` adds one allocation and exactly one of a hit or
/// a miss.
pub proof fn law_allocation_is_hit_or_miss(before: PoolStats, after: PoolStats, hit: bool)
    requires
        before.allocations < usize::MAX && before.hits < usize::MAX && before.misses < usize::MAX,
        after.allocations == wrap_inc(before.allocations),
        after.hits == (if hit {
            wrap_inc(before.hits)
        } else {
            before.hits
        }),
        after.misses == (if hit {
            before.misses
        } else {
            wrap_inc(before.misses)
        }),
    ensures
        after.allocations - before.allocations == 1,
        (after.hits - before.hits) + (after.misses - before.misses) == 1,
{
}

} // verus!
