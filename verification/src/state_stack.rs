//! The `save()` / `restore()` stack of a 2D context: snapshots of the
//! drawing state, last in, first out, at most `MAX_STATE_STACK_DEPTH` deep.

use vstd::prelude::*;

verus! {

/// Most snapshots kept; deeper saves are dropped.
pub const MAX_STATE_STACK_DEPTH: usize = 32;

/// Saved drawing states, most recent last.
#[derive(Debug)]
pub struct StateStack<S> {
    saved: Vec<S>,
}

impl<S: Clone> StateStack<S> {
    /// The snapshots, oldest first.
    pub closed spec fn snapshots(&self) -> Seq<S> {
        self.saved@
    }

    /// No more snapshots than the limit.
    pub closed spec fn wf(&self) -> bool {
        self.saved@.len() <= MAX_STATE_STACK_DEPTH
    }

    /// An empty stack.
    pub fn new() -> (s: Self)
        ensures
            s.wf(),
            s.snapshots() == Seq::<S>::empty(),
    {
        StateStack { saved: Vec::new() }
    }

    /// Number of snapshots: `save()` calls without a matching `restore()`.
    pub fn depth(&self) -> (n: usize)
        ensures
            n == self.snapshots().len(),
    {
        self.saved.len()
    }

    /// Push a copy of `state`. Returns `false`, keeping nothing, when the
    /// stack is already at its depth limit.
    pub fn push(&mut self, state: &S) -> (pushed: bool)
        requires
            old(self).wf(),
        ensures
            final(self).wf(),
            pushed == (old(self).snapshots().len() < MAX_STATE_STACK_DEPTH),
            !pushed ==> final(self).snapshots() == old(self).snapshots(),
            pushed ==> final(self).snapshots().len() == old(self).snapshots().len() + 1
                && final(self).snapshots().drop_last() == old(self).snapshots() && cloned(
                *state,
                final(self).snapshots().last(),
            ),
    {
        if self.saved.len() >= MAX_STATE_STACK_DEPTH {
            return false;
        }
        let copy = state.clone();
        self.saved.push(copy);
        proof {
            assert(self.saved@.drop_last() =~= old(self).saved@);
        }
        true
    }

    /// Pop the most recent snapshot into `state`. Returns `false`, leaving
    /// `state` alone, when the stack is empty (a `restore()` without a
    /// `save()`).
    pub fn pop(&mut self, state: &mut S) -> (popped: bool)
        requires
            old(self).wf(),
        ensures
            final(self).wf(),
            popped == (old(self).snapshots().len() > 0),
            !popped ==> final(self).snapshots() == old(self).snapshots() && *final(state) == *old(
                state),
            popped ==> final(self).snapshots() == old(self).snapshots().drop_last() && *final(state)
                == old(self).snapshots().last(),
    {
        match self.saved.pop() {
            Some(snapshot) => {
                *state = snapshot;
                true
            },
            None => false,
        }
    }
}

/// Restores come back in reverse order of the saves: after saving `a` and
/// then `b` on top of `base`, the first restore yields `b`, the second `a`,
/// and the stack is back to `base`.
pub proof fn law_restores_reverse_saves<S>(base: Seq<S>, a: S, b: S)
    ensures
        base.push(a).push(b).last() == b,
        base.push(a).push(b).drop_last().last() == a,
        base.push(a).push(b).drop_last().drop_last() == base,
{
    assert(base.push(a).push(b).drop_last() =~= base.push(a));
    assert(base.push(a).drop_last() =~= base);
}

} // verus!
