//! Reuse of pixel buffer objects for texture uploads.
//!
//! Returned PBOs wait sorted by size, each with the fence of the upload
//! that last used it; a request takes the first (smallest) one that is
//! large enough. Waiting on fences and creating or deleting buffers are GL
//! calls made by the caller.

use vstd::prelude::*;

verus! {

/// Default number of PBOs kept.
pub const DEFAULT_POOL_SIZE: usize = 4;

/// A PBO waiting in the pool.
#[derive(Debug, Clone, Copy, PartialEq, Eq)]
pub struct PboEntry<F> {
    /// GL buffer name.
    pub buffer: u32,
    /// Size in bytes.
    pub size: usize,
    /// Fence of the last upload through this buffer, if fences are used.
    pub fence: Option<F>,
}

/// The entries are in order of size.
pub open spec fn sorted_by_size<F>(s: Seq<PboEntry<F>>) -> bool {
    forall|i: int, j: int| 0 <= i < j < s.len() ==> s[i].size <= s[j].size
}

/// Entry `k` is the first of at least `size` bytes.
pub open spec fn is_first_fit<F>(s: Seq<PboEntry<F>>, size: usize, k: int) -> bool {
    &&& 0 <= k < s.len()
    &&& s[k].size >= size
    &&& forall|j: int| 0 <= j < k ==> s[j].size < size
}

/// Position `k` comes after every entry of at most `size` bytes and before
/// every larger one.
pub open spec fn is_insert_point<F>(s: Seq<PboEntry<F>>, size: usize, k: int) -> bool {
    &&& 0 <= k <= s.len()
    &&& forall|j: int| 0 <= j < k ==> s[j].size <= size
    &&& forall|j: int| k <= j < s.len() ==> s[j].size > size
}

/// The pool size actually used for a requested one: between 1 and twice
/// the default.
pub open spec fn clamp_pool_size(requested: usize) -> usize {
    if requested < 1 {
        1
    } else if requested > DEFAULT_POOL_SIZE * 2 {
        (DEFAULT_POOL_SIZE * 2) as usize
    } else {
        requested
    }
}

/// Pool of pixel buffer objects.
pub struct PboPool<F> {
    available: Vec<PboEntry<F>>,
    max_pool_size: usize,
    pbo_supported: bool,
    fence_supported: bool,
}

impl<F> PboPool<F> {
    /// The PBOs waiting, smallest first.
    pub closed spec fn entries(&self) -> Seq<PboEntry<F>> {
        self.available@
    }

    /// Most PBOs kept.
    pub closed spec fn spec_max(&self) -> usize {
        self.max_pool_size
    }

    /// Whether the context has PBOs.
    pub closed spec fn spec_pbo_supported(&self) -> bool {
        self.pbo_supported
    }

    /// Whether released PBOs get a fence.
    pub closed spec fn spec_fence_supported(&self) -> bool {
        self.fence_supported
    }

    /// Sorted and within the limit.
    pub closed spec fn wf(&self) -> bool {
        &&& sorted_by_size(self.available@)
        &&& self.available@.len() <= self.max_pool_size
    }

    /// An empty pool for a context with (or without) PBO support; fences
    /// come with the same context version as PBOs.
    pub fn new(max_pool_size: usize, pbo_supported: bool) -> (p: Self)
        ensures
            p.wf(),
            p.entries() == Seq::<PboEntry<F>>::empty(),
            p.spec_max() == clamp_pool_size(max_pool_size),
            p.spec_pbo_supported() == pbo_supported,
            p.spec_fence_supported() == pbo_supported,
    {
        let m = if max_pool_size < 1 {
            1
        } else if max_pool_size > DEFAULT_POOL_SIZE * 2 {
            DEFAULT_POOL_SIZE * 2
        } else {
            max_pool_size
        };
        PboPool {
            available: Vec::new(),
            max_pool_size: m,
            pbo_supported,
            fence_supported: pbo_supported,
        }
    }

    /// Whether PBOs are supported.
    pub fn is_pbo_supported(&self) -> (b: bool)
        ensures
            b == self.spec_pbo_supported(),
    {
        self.pbo_supported
    }

    /// Whether released PBOs should get a fence.
    pub fn uses_fences(&self) -> (b: bool)
        ensures
            b == self.spec_fence_supported(),
    {
        self.fence_supported
    }

    /// Take the smallest waiting PBO of at least `size` bytes, with its
    /// fence (the caller waits on it before reuse). `None`, changing
    /// nothing, without PBO support or when none fits; the caller then
    /// creates a buffer.
    pub fn take(&mut self, size: usize) -> (r: Option<(u32, Option<F>)>)
        requires
            old(self).wf(),
        ensures
            final(self).wf(),
            final(self).spec_max() == old(self).spec_max(),
            final(self).spec_pbo_supported() == old(self).spec_pbo_supported(),
            final(self).spec_fence_supported() == old(self).spec_fence_supported(),
            match r {
                Some((b, f)) => {
                    &&& old(self).spec_pbo_supported()
                    &&& exists|k: int|
                        is_first_fit(old(self).entries(), size, k) && b == old(self).entries()[k].buffer
                            && f == old(self).entries()[k].fence && final(self).entries() == old(
                            self).entries().remove(k)
                },
                None => final(self).entries() == old(self).entries() && (!old(
                    self).spec_pbo_supported() || forall|j: int|
                    0 <= j < old(self).entries().len() ==> old(self).entries()[j].size < size),
            },
    {
        if !self.pbo_supported {
            return None;
        }
        let ghost s0 = self.available@;
        let mut i: usize = 0;
        while i < self.available.len()
            invariant
                i <= self.available@.len(),
                self.available@ == s0,
                s0 == old(self).available@,
                forall|j: int| 0 <= j < i ==> self.available@[j].size < size,
                self.pbo_supported,
                self.max_pool_size == old(self).max_pool_size,
                self.pbo_supported == old(self).pbo_supported,
                self.fence_supported == old(self).fence_supported,
                sorted_by_size(s0),
                s0.len() <= self.max_pool_size,
            decreases self.available@.len() - i,
        {
            if self.available[i].size >= size {
                let entry = self.available.remove(i);
                proof {
                    assert(is_first_fit(s0, size, i as int));
                    assert(self.available@ == s0.remove(i as int));
                    assert(sorted_by_size(self.available@)) by {
                        assert forall|a: int, b: int|
                            0 <= a < b < self.available@.len() implies self.available@[a].size
                            <= self.available@[b].size by {
                            if a < i {
                                if b < i {
                                    assert(self.available@[b] == s0[b]);
                                } else {
                                    assert(self.available@[b] == s0[b + 1]);
                                }
                                assert(self.available@[a] == s0[a]);
                            } else {
                                assert(self.available@[a] == s0[a + 1]);
                                assert(self.available@[b] == s0[b + 1]);
                            }
                        }
                    }
                }
                proof {
                    assert(s0 == old(self).entries());
                    assert(self.available@ == self.entries());
                    assert(is_first_fit(old(self).entries(), size, i as int)
                        && entry.buffer == old(self).entries()[i as int].buffer
                        && entry.fence == old(self).entries()[i as int].fence
                        && self.entries() == old(self).entries().remove(i as int));
                }
                return Some((entry.buffer, entry.fence));
            }
            i = i + 1;
        }
        None
    }

    /// Whether a released PBO would be kept.
    pub fn has_room(&self) -> (b: bool)
        ensures
            b == (self.entries().len() < self.spec_max()),
    {
        self.available.len() < self.max_pool_size
    }

    /// Keep a released PBO of `size` bytes with the fence of its upload,
    /// after every waiting PBO of at most its size.
    pub fn keep(&mut self, buffer: u32, size: usize, fence: Option<F>)
        requires
            old(self).wf(),
            old(self).entries().len() < old(self).spec_max(),
        ensures
            final(self).wf(),
            final(self).spec_max() == old(self).spec_max(),
            final(self).spec_pbo_supported() == old(self).spec_pbo_supported(),
            final(self).spec_fence_supported() == old(self).spec_fence_supported(),
            exists|k: int|
                is_insert_point(old(self).entries(), size, k) && final(self).entries() == old(
                    self).entries().insert(k, PboEntry { buffer, size, fence }),
    {
        let ghost s0 = self.available@;
        let mut k: usize = 0;
        while k < self.available.len() && self.available[k].size <= size
            invariant
                k <= self.available@.len(),
                self.available@ == s0,
                s0 == old(self).available@,
                forall|j: int| 0 <= j < k ==> self.available@[j].size <= size,
                self.max_pool_size == old(self).max_pool_size,
                self.pbo_supported == old(self).pbo_supported,
                self.fence_supported == old(self).fence_supported,
                sorted_by_size(s0),
                s0.len() <= self.max_pool_size,
            decreases self.available@.len() - k,
        {
            k = k + 1;
        }
        proof {
            assert(is_insert_point(s0, size, k as int)) by {
                assert forall|j: int| k <= j < s0.len() implies s0[j].size > size by {
                    assert(s0[k as int].size > size);
                }
            }
        }
        let entry = PboEntry { buffer, size, fence };
        self.available.insert(k, entry);
        proof {
            let t = self.available@;
            assert(t == s0.insert(k as int, entry));
            assert forall|i: int, j: int| 0 <= i < j < t.len() implies t[i].size <= t[j].size by {
                if j < k {
                    assert(t[i] == s0[i] && t[j] == s0[j]);
                } else if j == k {
                    assert(t[i] == s0[i]);
                } else if i < k {
                    assert(t[i] == s0[i] && t[j] == s0[j - 1]);
                } else if i == k {
                    assert(t[j] == s0[j - 1]);
                } else {
                    assert(t[i] == s0[i - 1] && t[j] == s0[j - 1]);
                }
            }
        }
    }

    /// Empty the pool, handing back every PBO with its fence (smallest
    /// first) for the caller to delete.
    pub fn drain(&mut self) -> (all: Vec<PboEntry<F>>)
        requires
            old(self).wf(),
        ensures
            final(self).wf(),
            all@ == old(self).entries(),
            final(self).entries() == Seq::<PboEntry<F>>::empty(),
            final(self).spec_max() == old(self).spec_max(),
            final(self).spec_pbo_supported() == old(self).spec_pbo_supported(),
            final(self).spec_fence_supported() == old(self).spec_fence_supported(),
    {
        let mut all: Vec<PboEntry<F>> = Vec::new();
        std::mem::swap(&mut all, &mut self.available);
        all
    }

    /// Number of PBOs waiting.
    pub fn len(&self) -> (n: usize)
        ensures
            n == self.entries().len(),
    {
        self.available.len()
    }
}

} // verus!
