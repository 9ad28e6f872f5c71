//! Reuse of GL vertex and index buffers.
//!
//! Released buffers wait in a list kept sorted by capacity; a request takes
//! the first buffer that is large enough, which is the smallest one. The
//! GL calls themselves (creating a buffer when none fits, deleting one the
//! pool does not keep) are made by the caller: buffers are handled here by
//! their GL names.

use crate::pool::{wrap_inc, PoolStats};
use vstd::prelude::*;

verus! {

/// `GL_ARRAY_BUFFER`.
pub const GL_ARRAY_BUFFER: u32 = 0x8892;

/// `GL_ELEMENT_ARRAY_BUFFER`.
pub const GL_ELEMENT_ARRAY_BUFFER: u32 = 0x8893;

/// Default number of buffers kept per kind.
pub const DEFAULT_SIZE: usize = 16;

/// A buffer waiting in the pool.
#[derive(Debug, Clone, Copy, PartialEq, Eq, Structural)]
pub struct BufferEntry {
    /// GL buffer name.
    pub buffer: u32,
    /// Capacity in bytes.
    pub capacity: usize,
    /// Target the buffer was used with.
    pub target: u32,
}

/// The entries are in order of capacity.
pub open spec fn sorted_by_capacity(s: Seq<BufferEntry>) -> bool {
    forall|i: int, j: int| 0 <= i < j < s.len() ==> s[i].capacity <= s[j].capacity
}

/// Entry `k` is the first with at least `min` bytes.
pub open spec fn is_first_fit(s: Seq<BufferEntry>, min: usize, k: int) -> bool {
    &&& 0 <= k < s.len()
    &&& s[k].capacity >= min
    &&& forall|j: int| 0 <= j < k ==> s[j].capacity < min
}

/// Position `k` comes after every entry of at most `capacity` bytes and
/// before every larger one.
pub open spec fn is_insert_point(s: Seq<BufferEntry>, capacity: usize, k: int) -> bool {
    &&& 0 <= k <= s.len()
    &&& forall|j: int| 0 <= j < k ==> s[j].capacity <= capacity
    &&& forall|j: int| k <= j < s.len() ==> s[j].capacity > capacity
}

/// Take the first entry of `list` with at least `min` bytes.
fn take_first_fit(list: &mut Vec<BufferEntry>, min: usize) -> (r: Option<u32>)
    ensures
        match r {
            Some(b) => exists|k: int|
                is_first_fit(old(list)@, min, k) && b == old(list)@[k].buffer && final(list)@
                    == old(list)@.remove(k),
            None => (forall|j: int| 0 <= j < old(list)@.len() ==> old(list)@[j].capacity < min)
                && final(list)@ == old(list)@,
        },
{
    let mut i: usize = 0;
    while i < list.len()
        invariant
            i <= list@.len(),
            list@ == old(list)@,
            forall|j: int| 0 <= j < i ==> list@[j].capacity < min,
        decreases list@.len() - i,
    {
        if list[i].capacity >= min {
            let entry = list.remove(i);
            proof {
                assert(is_first_fit(old(list)@, min, i as int));
            }
            return Some(entry.buffer);
        }
        i = i + 1;
    }
    None
}

/// Put `entry` into the sorted `list` after every entry of at most its
/// capacity.
fn insert_sorted(list: &mut Vec<BufferEntry>, entry: BufferEntry)
    requires
        sorted_by_capacity(old(list)@),
    ensures
        sorted_by_capacity(final(list)@),
        exists|k: int|
            is_insert_point(old(list)@, entry.capacity, k) && final(list)@ == old(list)@.insert(
                k,
                entry,
            ),
{
    let mut k: usize = 0;
    while k < list.len() && list[k].capacity <= entry.capacity
        invariant
            k <= list@.len(),
            list@ == old(list)@,
            forall|j: int| 0 <= j < k ==> list@[j].capacity <= entry.capacity,
        decreases list@.len() - k,
    {
        k = k + 1;
    }
    proof {
        assert(is_insert_point(old(list)@, entry.capacity, k as int)) by {
            if k < list@.len() {
                assert(list@[k as int].capacity > entry.capacity);
            }
        }
    }
    list.insert(k, entry);
    proof {
        let s = old(list)@;
        let t = list@;
        assert forall|i: int, j: int| 0 <= i < j < t.len() implies t[i].capacity
            <= t[j].capacity by {
            if j < k {
                assert(t[i] == s[i] && t[j] == s[j]);
            } else if j == k {
                assert(t[i] == s[i]);
            } else if i < k {
                assert(t[i] == s[i] && t[j] == s[j - 1]);
            } else if i == k {
                assert(t[j] == s[j - 1]);
            } else {
                assert(t[i] == s[i - 1] && t[j] == s[j - 1]);
            }
        }
    }
}

/// Pool of vertex and index buffers.
pub struct BufferPool {
    vertex_buffers: Vec<BufferEntry>,
    index_buffers: Vec<BufferEntry>,
    max_size: usize,
    stats: PoolStats,
}

impl BufferPool {
    /// The vertex buffers waiting, smallest first.
    pub closed spec fn vertex_entries(&self) -> Seq<BufferEntry> {
        self.vertex_buffers@
    }

    /// The index buffers waiting, smallest first.
    pub closed spec fn index_entries(&self) -> Seq<BufferEntry> {
        self.index_buffers@
    }

    /// Most buffers kept per kind.
    pub closed spec fn spec_max_size(&self) -> usize {
        self.max_size
    }

    /// The statistics.
    pub closed spec fn spec_stats(&self) -> PoolStats {
        self.stats
    }

    /// Both lists are sorted by capacity and no longer than the limit.
    pub closed spec fn wf(&self) -> bool {
        &&& sorted_by_capacity(self.vertex_buffers@)
        &&& sorted_by_capacity(self.index_buffers@)
        &&& self.vertex_buffers@.len() <= self.max_size
        &&& self.index_buffers@.len() <= self.max_size
        &&& self.vertex_buffers@.len() + self.index_buffers@.len() <= usize::MAX
    }

    /// An empty pool keeping at most `max_size` buffers of each kind.
    pub fn new(max_size: usize) -> (p: Self)
        ensures
            p.wf(),
            p.vertex_entries() == Seq::<BufferEntry>::empty(),
            p.index_entries() == Seq::<BufferEntry>::empty(),
            p.spec_max_size() == max_size,
            p.spec_stats() == (PoolStats {
                available: 0,
                allocations: 0,
                hits: 0,
                misses: 0,
                returns: 0,
            }),
    {
        BufferPool {
            vertex_buffers: Vec::new(),
            index_buffers: Vec::new(),
            max_size,
            stats: PoolStats::new(),
        }
    }

    /// Take a pooled vertex buffer of at least `min_capacity` bytes: the
    /// smallest that fits, counted as a hit. `None` when none fits; the
    /// caller then creates a buffer and reports it with `record_new_buffer`.
    pub fn acquire_vertex_buffer(&mut self, min_capacity: usize) -> (r: Option<u32>)
        requires
            old(self).wf(),
        ensures
            final(self).wf(),
            final(self).index_entries() == old(self).index_entries(),
            final(self).spec_max_size() == old(self).spec_max_size(),
            match r {
                Some(b) => {
                    &&& exists|k: int|
                        is_first_fit(old(self).vertex_entries(), min_capacity, k) && b == old(
                            self).vertex_entries()[k].buffer && final(self).vertex_entries() == old(
                            self).vertex_entries().remove(k)
                    &&& final(self).spec_stats().hits == wrap_inc(old(self).spec_stats().hits)
                    &&& final(self).spec_stats().allocations == wrap_inc(
                        old(self).spec_stats().allocations,
                    )
                    &&& final(self).spec_stats().misses == old(self).spec_stats().misses
                    &&& final(self).spec_stats().returns == old(self).spec_stats().returns
                    &&& final(self).spec_stats().available == final(self).vertex_entries().len()
                        + final(self).index_entries().len()
                },
                None => {
                    &&& forall|j: int|
                        0 <= j < old(self).vertex_entries().len() ==> old(
                            self).vertex_entries()[j].capacity < min_capacity
                    &&& final(self).vertex_entries() == old(self).vertex_entries()
                    &&& final(self).spec_stats() == old(self).spec_stats()
                },
            },
    {
        let ghost v0 = self.vertex_buffers@;
        let r = take_first_fit(&mut self.vertex_buffers, min_capacity);
        if r.is_some() {
            self.stats.record_allocation(true);
            self.stats.available = self.vertex_buffers.len() + self.index_buffers.len();
            proof {
                let b = r->0;
                let k = choose|k: int|
                    is_first_fit(v0, min_capacity, k) && b == v0[k].buffer && self.vertex_buffers@ == v0.remove(k);
                assert(is_first_fit(v0, min_capacity, k) && b == v0[k].buffer && self.vertex_buffers@ == v0.remove(k));
                assert(v0 == old(self).vertex_entries());
                assert(self.vertex_buffers@ == self.vertex_entries());
                assert(is_first_fit(old(self).vertex_entries(), min_capacity, k));
                assert(self.vertex_entries() == old(self).vertex_entries().remove(k));
            }
        }
        r
    }

    /// Take a pooled index buffer of at least `min_capacity` bytes, as for
    /// vertex buffers.
    pub fn acquire_index_buffer(&mut self, min_capacity: usize) -> (r: Option<u32>)
        requires
            old(self).wf(),
        ensures
            final(self).wf(),
            final(self).vertex_entries() == old(self).vertex_entries(),
            final(self).spec_max_size() == old(self).spec_max_size(),
            match r {
                Some(b) => {
                    &&& exists|k: int|
                        is_first_fit(old(self).index_entries(), min_capacity, k) && b == old(
                            self).index_entries()[k].buffer && final(self).index_entries() == old(
                            self).index_entries().remove(k)
                    &&& final(self).spec_stats().hits == wrap_inc(old(self).spec_stats().hits)
                    &&& final(self).spec_stats().allocations == wrap_inc(
                        old(self).spec_stats().allocations,
                    )
                    &&& final(self).spec_stats().misses == old(self).spec_stats().misses
                    &&& final(self).spec_stats().returns == old(self).spec_stats().returns
                    &&& final(self).spec_stats().available == final(self).vertex_entries().len()
                        + final(self).index_entries().len()
                },
                None => {
                    &&& forall|j: int|
                        0 <= j < old(self).index_entries().len() ==> old(
                            self).index_entries()[j].capacity < min_capacity
                    &&& final(self).index_entries() == old(self).index_entries()
                    &&& final(self).spec_stats() == old(self).spec_stats()
                },
            },
    {
        let ghost v0 = self.index_buffers@;
        let r = take_first_fit(&mut self.index_buffers, min_capacity);
        if r.is_some() {
            self.stats.record_allocation(true);
            self.stats.available = self.vertex_buffers.len() + self.index_buffers.len();
            proof {
                let b = r->0;
                let k = choose|k: int|
                    is_first_fit(v0, min_capacity, k) && b == v0[k].buffer && self.index_buffers@ == v0.remove(k);
                assert(is_first_fit(v0, min_capacity, k) && b == v0[k].buffer && self.index_buffers@ == v0.remove(k));
                assert(v0 == old(self).index_entries());
                assert(self.index_buffers@ == self.index_entries());
                assert(is_first_fit(old(self).index_entries(), min_capacity, k));
                assert(self.index_entries() == old(self).index_entries().remove(k));
            }
        }
        r
    }

    /// Count a buffer the caller created because none fitted (a miss).
    pub fn record_new_buffer(&mut self)
        requires
            old(self).wf(),
        ensures
            final(self).wf(),
            final(self).vertex_entries() == old(self).vertex_entries(),
            final(self).index_entries() == old(self).index_entries(),
            final(self).spec_max_size() == old(self).spec_max_size(),
            final(self).spec_stats().allocations == wrap_inc(old(self).spec_stats().allocations),
            final(self).spec_stats().misses == wrap_inc(old(self).spec_stats().misses),
            final(self).spec_stats().hits == old(self).spec_stats().hits,
            final(self).spec_stats().returns == old(self).spec_stats().returns,
            final(self).spec_stats().available == old(self).spec_stats().available,
    {
        self.stats.record_allocation(false);
    }

    /// Give a vertex buffer of `capacity` bytes back. It is kept (and `true`
    /// returned) while fewer than the limit wait; otherwise the caller
    /// deletes it.
    pub fn release_vertex_buffer(&mut self, buffer: u32, capacity: usize) -> (kept: bool)
        requires
            old(self).wf(),
            old(self).vertex_entries().len() + old(self).index_entries().len() < usize::MAX,
        ensures
            final(self).wf(),
            kept == (old(self).vertex_entries().len() < old(self).spec_max_size()),
            final(self).index_entries() == old(self).index_entries(),
            final(self).spec_max_size() == old(self).spec_max_size(),
            kept ==> exists|k: int|
                is_insert_point(old(self).vertex_entries(), capacity, k) && final(
                    self).vertex_entries() == old(self).vertex_entries().insert(
                    k,
                    BufferEntry { buffer, capacity, target: GL_ARRAY_BUFFER },
                ),
            kept ==> final(self).spec_stats() == (PoolStats {
                returns: wrap_inc(old(self).spec_stats().returns),
                available: (final(self).vertex_entries().len() + final(
                    self).index_entries().len()) as usize,
                ..old(self).spec_stats()
            }),
            !kept ==> final(self).vertex_entries() == old(self).vertex_entries()
                && final(self).spec_stats() == old(self).spec_stats(),
    {
        if self.vertex_buffers.len() < self.max_size {
            insert_sorted(
                &mut self.vertex_buffers,
                BufferEntry { buffer, capacity, target: GL_ARRAY_BUFFER },
            );
            self.stats.record_return();
            self.stats.available = self.vertex_buffers.len() + self.index_buffers.len();
            true
        } else {
            false
        }
    }

    /// Give an index buffer back, as for vertex buffers.
    pub fn release_index_buffer(&mut self, buffer: u32, capacity: usize) -> (kept: bool)
        requires
            old(self).wf(),
            old(self).vertex_entries().len() + old(self).index_entries().len() < usize::MAX,
        ensures
            final(self).wf(),
            kept == (old(self).index_entries().len() < old(self).spec_max_size()),
            final(self).vertex_entries() == old(self).vertex_entries(),
            final(self).spec_max_size() == old(self).spec_max_size(),
            kept ==> exists|k: int|
                is_insert_point(old(self).index_entries(), capacity, k) && final(
                    self).index_entries() == old(self).index_entries().insert(
                    k,
                    BufferEntry { buffer, capacity, target: GL_ELEMENT_ARRAY_BUFFER },
                ),
            kept ==> final(self).spec_stats() == (PoolStats {
                returns: wrap_inc(old(self).spec_stats().returns),
                available: (final(self).vertex_entries().len() + final(
                    self).index_entries().len()) as usize,
                ..old(self).spec_stats()
            }),
            !kept ==> final(self).index_entries() == old(self).index_entries()
                && final(self).spec_stats() == old(self).spec_stats(),
    {
        if self.index_buffers.len() < self.max_size {
            insert_sorted(
                &mut self.index_buffers,
                BufferEntry { buffer, capacity, target: GL_ELEMENT_ARRAY_BUFFER },
            );
            self.stats.record_return();
            self.stats.available = self.vertex_buffers.len() + self.index_buffers.len();
            true
        } else {
            false
        }
    }

    /// The statistics.
    pub fn stats(&self) -> (s: &PoolStats)
        ensures
            *s == self.spec_stats(),
    {
        &self.stats
    }

    /// Buffers waiting, both kinds together.
    pub fn available(&self) -> (n: usize)
        requires
            self.wf(),
        ensures
            n == self.vertex_entries().len() + self.index_entries().len(),
    {
        self.vertex_buffers.len() + self.index_buffers.len()
    }

    /// Empty the pool, handing back the GL names of every buffer it held
    /// (vertex buffers first) for the caller to delete.
    pub fn clear(&mut self) -> (names: Vec<u32>)
        requires
            old(self).wf(),
        ensures
            final(self).wf(),
            final(self).vertex_entries() == Seq::<BufferEntry>::empty(),
            final(self).index_entries() == Seq::<BufferEntry>::empty(),
            final(self).spec_max_size() == old(self).spec_max_size(),
            final(self).spec_stats() == (PoolStats { available: 0, ..old(self).spec_stats() }),
            names@ == (old(self).vertex_entries() + old(self).index_entries()).map_values(
                |e: BufferEntry| e.buffer,
            ),
    {
        let mut names: Vec<u32> = Vec::new();
        let ghost all = self.vertex_buffers@ + self.index_buffers@;
        let n = self.vertex_buffers.len();
        for i in 0..n
            invariant
                n == self.vertex_buffers@.len(),
                all == self.vertex_buffers@ + self.index_buffers@,
                names@ == all.take(i as int).map_values(|e: BufferEntry| e.buffer),
        {
            names.push(self.vertex_buffers[i].buffer);
            proof {
                assert(all[i as int] == self.vertex_buffers@[i as int]);
                assert(names@ =~= all.take(i + 1).map_values(|e: BufferEntry| e.buffer));
            }
        }
        let m = self.index_buffers.len();
        for i in 0..m
            invariant
                n == self.vertex_buffers@.len(),
                m == self.index_buffers@.len(),
                all == self.vertex_buffers@ + self.index_buffers@,
                names@ == all.take(n + i).map_values(|e: BufferEntry| e.buffer),
        {
            names.push(self.index_buffers[i].buffer);
            proof {
                assert(all[n + i] == self.index_buffers@[i as int]);
                assert(names@ =~= all.take(n + i + 1).map_values(|e: BufferEntry| e.buffer));
            }
        }
        proof {
            assert(all.take(n + m) =~= all);
        }
        self.vertex_buffers = Vec::new();
        self.index_buffers = Vec::new();
        self.stats.available = 0;
        names
    }
}

impl Default for BufferPool {
    fn default() -> (p: Self)
        ensures
            p.wf(),
            p.vertex_entries() == Seq::<BufferEntry>::empty(),
            p.index_entries() == Seq::<BufferEntry>::empty(),
            p.spec_max_size() == DEFAULT_SIZE,
    {
        BufferPool::new(DEFAULT_SIZE)
    }
}

/// A request is served by the smallest waiting buffer that is large
/// enough: no entry that fits is smaller than the one taken.
pub proof fn law_first_fit_is_smallest(s: Seq<BufferEntry>, min: usize, k: int)
    requires
        sorted_by_capacity(s),
        is_first_fit(s, min, k),
    ensures
        forall|j: int| 0 <= j < s.len() && s[j].capacity >= min ==> s[k].capacity <= s[j].capacity,
{
}

} // verus!
