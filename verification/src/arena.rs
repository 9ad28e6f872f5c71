//! Bump allocator for frame-scoped byte buffers.

use vstd::prelude::*;

verus! {

/// The first multiple of `align` at or after `off`.
pub open spec fn align_up(off: int, align: int) -> int {
    off + (align - off % align) % align
}

/// `align_up` is a multiple of `align` less than `align` past `off`.
proof fn lemma_align_up(off: int, align: int)
    requires
        off >= 0,
        align > 0,
    ensures
        align_up(off, align) % align == 0,
        off <= align_up(off, align) < off + align,
        0 <= (align - off % align) % align < align,
{
    let m = off % align;
    let pad = (align - m) % align;
    assert(0 <= m < align) by (nonlinear_arith)
        requires
            align > 0,
            m == off % align,
    ;
    assert(0 <= pad < align) by (nonlinear_arith)
        requires
            align > 0,
            pad == (align - m) % align,
    ;
    assert((off + pad) % align == 0) by (nonlinear_arith)
        requires
            align > 0,
            off >= 0,
            m == off % align,
            0 <= m < align,
            pad == (align - m) % align,
    ;
}

/// A bump allocator: allocations are handed out in order and all freed at
/// once by `reset`.
pub struct Arena {
    buffer: Vec<u8>,
    offset: usize,
}

impl Arena {
    /// Bytes handed out since the last reset.
    pub closed spec fn spec_used(&self) -> usize {
        self.offset
    }

    /// Total capacity in bytes.
    pub closed spec fn spec_capacity(&self) -> nat {
        self.buffer@.len()
    }

    /// The arena's bytes.
    pub closed spec fn bytes(&self) -> Seq<u8> {
        self.buffer@
    }

    /// The offset never passes the end of the buffer.
    pub closed spec fn wf(&self) -> bool {
        self.offset <= self.buffer@.len()
    }

    /// An arena of `capacity` zeroed bytes.
    pub fn new(capacity: usize) -> (a: Self)
        ensures
            a.wf(),
            a.spec_used() == 0,
            a.spec_capacity() == capacity,
            a.bytes() == Seq::new(capacity as nat, |i: int| 0u8),
    {
        let mut buffer: Vec<u8> = Vec::new();
        let mut i: usize = 0;
        while i < capacity
            invariant
                0 <= i <= capacity,
                buffer@ == Seq::new(i as nat, |k: int| 0u8),
            decreases capacity - i,
        {
            buffer.push(0u8);
            i = i + 1;
            assert(buffer@ =~= Seq::new(i as nat, |k: int| 0u8));
        }
        Arena { buffer, offset: 0 }
    }

    /// Hand out the next `size` bytes, or `None` when fewer remain.
    pub fn alloc_bytes(&mut self, size: usize) -> (r: Option<&mut [u8]>)
        requires
            old(self).wf(),
        ensures
            final(self).wf(),
            final(self).spec_capacity() == old(self).spec_capacity(),
            r is Some == (old(self).spec_used() + size <= old(self).spec_capacity()),
            r is Some ==> final(self).spec_used() == old(self).spec_used() + size,
            r is Some ==> r->0@.len() == size,
            r is None ==> final(self).spec_used() == old(self).spec_used(),
            r is None ==> final(self).bytes() == old(self).bytes(),
            r matches Some(s) ==> {
                &&& s@ == old(self).bytes().subrange(
                    old(self).spec_used() as int,
                    old(self).spec_used() + size,
                )
                &&& final(self).bytes() == old(self).bytes().subrange(0, old(self).spec_used() as int)
                    + final(s)@ + old(self).bytes().subrange(
                    old(self).spec_used() + size,
                    old(self).bytes().len() as int,
                )
            },
    {
        if size > self.buffer.len() - self.offset {
            return None;
        }
        let start = self.offset;
        self.offset = self.offset + size;
        let end = self.offset;
        Some(slice_range_mut(&mut self.buffer, start, end))
    }

    /// Reserve `size` bytes at the next offset that is a multiple of
    /// `align` (the room for one value of a type with that size and
    /// alignment) and give back that offset, or `None` when the rest of
    /// the buffer is too small.
    pub fn alloc_aligned(&mut self, size: usize, align: usize) -> (r: Option<usize>)
        requires
            old(self).wf(),
            align > 0,
        ensures
            final(self).wf(),
            final(self).spec_capacity() == old(self).spec_capacity(),
            r is Some == (align_up(old(self).spec_used() as int, align as int) + size
                <= old(self).spec_capacity()),
            r matches Some(off) ==> {
                &&& off == align_up(old(self).spec_used() as int, align as int)
                &&& off % align == 0
                &&& old(self).spec_used() <= off < old(self).spec_used() + align
                &&& final(self).spec_used() == off + size
            },
            r is None ==> final(self).spec_used() == old(self).spec_used(),
            final(self).bytes() == old(self).bytes(),
    {
        let pad = (align - self.offset % align) % align;
        proof {
            lemma_align_up(self.offset as int, align as int);
        }
        if pad > self.buffer.len() - self.offset {
            return None;
        }
        let aligned = self.offset + pad;
        if size > self.buffer.len() - aligned {
            return None;
        }
        self.offset = aligned + size;
        Some(aligned)
    }

    /// Free every allocation at once.
    pub fn reset(&mut self)
        requires
            old(self).wf(),
        ensures
            final(self).wf(),
            final(self).spec_used() == 0,
            final(self).spec_capacity() == old(self).spec_capacity(),
            final(self).bytes() == old(self).bytes(),
    {
        self.offset = 0;
    }

    /// Bytes handed out since the last reset.
    pub fn used(&self) -> (n: usize)
        ensures
            n == self.spec_used(),
    {
        self.offset
    }

    /// Total capacity in bytes.
    pub fn capacity(&self) -> (n: usize)
        ensures
            n == self.spec_capacity(),
    {
        self.buffer.len()
    }
}

/// `&mut v[start..end]` (`IndexMut` with a range): the bytes in that range,
/// which stay those of `v`.
#[verifier::external_body]
fn slice_range_mut(v: &mut Vec<u8>, start: usize, end: usize) -> (s: &mut [u8])
    requires
        start <= end <= old(v)@.len(),
    ensures
        s@ == old(v)@.subrange(start as int, end as int),
        final(v)@ == old(v)@.subrange(0, start as int) + final(s)@ + old(v)@.subrange(
            end as int,
            old(v)@.len() as int,
        ),
        final(s)@.len() == end - start,
{
    &mut v[start..end]
}

/// What `alloc_bytes` states of the arena's bytes after an allocation of
/// `size` bytes at offset `used` whose slice ends up holding `written`:
/// the slice is exactly the bytes `used .. used + size`, so everything
/// handed out before (below `used`) and everything after it is unchanged.
/// Allocations between two resets therefore never overlap.
pub proof fn law_allocation_touches_only_its_range(before: Seq<u8>, used: int, size: int, written: Seq<u8>)
    requires
        0 <= used,
        0 <= size,
        used + size <= before.len(),
        written.len() == size,
    ensures
        ({
            let after = before.subrange(0, used) + written + before.subrange(used + size, before.len() as int);
            &&& after.len() == before.len()
            &&& after.subrange(0, used) == before.subrange(0, used)
            &&& after.subrange(used, used + size) == written
            &&& after.subrange(used + size, before.len() as int) == before.subrange(used + size, before.len() as int)
        }),
{
    let after = before.subrange(0, used) + written + before.subrange(used + size, before.len() as int);
    assert(after.subrange(0, used) =~= before.subrange(0, used));
    assert(after.subrange(used, used + size) =~= written);
    assert(after.subrange(used + size, before.len() as int) =~= before.subrange(used + size, before.len() as int));
}

} // verus!
