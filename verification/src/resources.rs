//! GPU resource bookkeeping across lifecycle transitions: which resources
//! are loaded, released or waiting to be restored, and how much memory the
//! loaded ones take.

use std::collections::HashMap;
use vstd::prelude::*;

verus! {

broadcast use vstd::std_specs::hash::group_hash_axioms;

/// Resource state across lifecycle transitions.
#[derive(Debug, Clone, Copy, PartialEq, Eq, Structural)]
pub enum ResourceState {
    /// Loaded and ready.
    Loaded,
    /// Released (GPU memory freed).
    Released,
    /// Has to be restored.
    NeedsRestore,
}

/// Types of managed resources.
#[derive(Debug, Clone, Copy, PartialEq, Eq, Structural)]
pub enum ResourceType {
    Texture,
    Buffer,
    Shader,
    Framebuffer,
    RenderTarget,
}

/// Information about a managed resource.
#[derive(Debug)]
pub struct ResourceInfo {
    /// Resource type.
    pub resource_type: ResourceType,
    /// Current state.
    pub state: ResourceState,
    /// Size in bytes, for memory accounting.
    pub size_bytes: usize,
    /// Priority (higher is kept longer).
    pub priority: u8,
}

/// Bytes a resource counts towards the loaded total.
pub open spec fn loaded_size(info: ResourceInfo) -> int {
    if info.state == ResourceState::Loaded {
        info.size_bytes as int
    } else {
        0
    }
}

/// The summing step over the keys of `m`.
pub open spec fn add_loaded(m: Map<u64, ResourceInfo>) -> spec_fn(int, u64) -> int {
    |acc: int, k: u64| acc + loaded_size(m[k])
}

/// Total bytes of the loaded resources among `keys`.
pub open spec fn loaded_sum_of(keys: Set<u64>, m: Map<u64, ResourceInfo>) -> int {
    keys.fold(0int, add_loaded(m))
}

/// Total bytes of the loaded resources of `m`.
pub open spec fn loaded_sum(m: Map<u64, ResourceInfo>) -> int {
    loaded_sum_of(m.dom(), m)
}

/// Total size of the resources named by `ids`.
pub open spec fn seq_size_sum(ids: Seq<u64>, m: Map<u64, ResourceInfo>) -> int
    decreases ids.len(),
{
    if ids.len() == 0 {
        0
    } else {
        seq_size_sum(ids.drop_last(), m) + m[ids.last()].size_bytes
    }
}

proof fn lemma_add_loaded_commutative(m: Map<u64, ResourceInfo>)
    ensures
        vstd::set::fold::is_fun_commutative(add_loaded(m)),
{
}

proof fn lemma_sum_insert(keys: Set<u64>, m: Map<u64, ResourceInfo>, k: u64)
    requires
        keys.finite(),
        !keys.contains(k),
    ensures
        loaded_sum_of(keys.insert(k), m) == loaded_sum_of(keys, m) + loaded_size(m[k]),
{
    lemma_add_loaded_commutative(m);
    vstd::set::fold::lemma_fold_insert(keys, 0int, add_loaded(m), k);
}

proof fn lemma_sum_remove(keys: Set<u64>, m: Map<u64, ResourceInfo>, k: u64)
    requires
        keys.finite(),
        keys.contains(k),
    ensures
        loaded_sum_of(keys, m) == loaded_sum_of(keys.remove(k), m) + loaded_size(m[k]),
{
    lemma_sum_insert(keys.remove(k), m, k);
    assert(keys.remove(k).insert(k) =~= keys);
}

/// The sum is monotone in every summand.
proof fn lemma_sum_mono(keys: Set<u64>, m1: Map<u64, ResourceInfo>, m2: Map<u64, ResourceInfo>)
    requires
        keys.finite(),
        forall|k: u64| keys.contains(k) ==> loaded_size(#[trigger] m1[k]) <= loaded_size(m2[k]),
    ensures
        loaded_sum_of(keys, m1) <= loaded_sum_of(keys, m2),
    decreases keys.len(),
{
    if keys.len() == 0 {
        assert(keys =~= Set::<u64>::empty());
        lemma_add_loaded_commutative(m1);
        lemma_add_loaded_commutative(m2);
        vstd::set::fold::lemma_fold_empty::<u64, int>(0int, add_loaded(m1));
        vstd::set::fold::lemma_fold_empty::<u64, int>(0int, add_loaded(m2));
    } else {
        let k = keys.choose();
        lemma_sum_remove(keys, m1, k);
        lemma_sum_remove(keys, m2, k);
        lemma_sum_mono(keys.remove(k), m1, m2);
    }
}

/// Summands are never negative, so neither is the sum.
proof fn lemma_sum_nonneg(keys: Set<u64>, m: Map<u64, ResourceInfo>)
    requires
        keys.finite(),
    ensures
        loaded_sum_of(keys, m) >= 0,
    decreases keys.len(),
{
    if keys.len() == 0 {
        assert(keys =~= Set::<u64>::empty());
        lemma_add_loaded_commutative(m);
        vstd::set::fold::lemma_fold_empty::<u64, int>(0int, add_loaded(m));
    } else {
        let k = keys.choose();
        lemma_sum_remove(keys, m, k);
        lemma_sum_nonneg(keys.remove(k), m);
    }
}

/// A sequence of distinct loaded resources weighs no more than all loaded
/// resources together.
proof fn lemma_seq_sum_le(ids: Seq<u64>, keys: Set<u64>, m: Map<u64, ResourceInfo>)
    requires
        keys.finite(),
        ids.no_duplicates(),
        forall|i: int|
            0 <= i < ids.len() ==> keys.contains(#[trigger] ids[i]) && m[ids[i]].state
                == ResourceState::Loaded,
    ensures
        seq_size_sum(ids, m) <= loaded_sum_of(keys, m),
    decreases ids.len(),
{
    if ids.len() == 0 {
        lemma_sum_nonneg(keys, m);
    } else {
        let k = ids.last();
        assert(ids[ids.len() - 1] == k);
        lemma_sum_remove(keys, m, k);
        let rest = ids.drop_last();
        assert forall|i: int| 0 <= i < rest.len() implies keys.remove(k).contains(#[trigger] rest[i])
            && m[rest[i]].state == ResourceState::Loaded by {
            assert(rest[i] == ids[i]);
            assert(ids[i] != ids[ids.len() - 1]);
        }
        lemma_seq_sum_le(rest, keys.remove(k), m);
    }
}

/// The ids of `m` in state `st`.
pub open spec fn ids_with_state(m: Map<u64, ResourceInfo>, st: ResourceState) -> Set<u64> {
    Set::new(|k: u64| m.contains_key(k) && m[k].state == st)
}

/// `m` with the resources named in `ids` put in state `st`.
pub open spec fn with_state(m: Map<u64, ResourceInfo>, ids: Set<u64>, st: ResourceState) -> Map<
    u64,
    ResourceInfo,
> {
    Map::new(
        |k: u64| m.contains_key(k),
        |k: u64|
            if ids.contains(k) {
                ResourceInfo { state: st, ..m[k] }
            } else {
                m[k]
            },
    )
}

/// `r` is what the reduced-mode pass may pick from `m` when `total` bytes
/// are accounted against `limit`: distinct loaded resources, taken in order
/// of increasing priority, none passed over for a higher one, taken only
/// while the remaining total is over the limit, and stopping once it fits
/// or nothing loaded is left.
pub open spec fn is_release_selection(
    m: Map<u64, ResourceInfo>,
    total: int,
    limit: int,
    r: Seq<u64>,
) -> bool {
    let loaded = ids_with_state(m, ResourceState::Loaded);
    &&& r.no_duplicates()
    &&& forall|i: int| 0 <= i < r.len() ==> loaded.contains(#[trigger] r[i])
    &&& forall|i: int, j: int|
        0 <= i < j < r.len() ==> #[trigger] m[r[i]].priority <= #[trigger] m[r[j]].priority
    &&& forall|k: u64, i: int|
        loaded.contains(k) && !r.contains(k) && 0 <= i < r.len() ==> #[trigger] m[r[i]].priority
            <= #[trigger] m[k].priority
    &&& forall|n: int| 0 <= n < r.len() ==> total - #[trigger] seq_size_sum(r.take(n), m) > limit
    &&& (total - seq_size_sum(r, m) <= limit || r.to_set() == loaded)
}

/// Summands that are all zero sum to zero.
proof fn lemma_sum_zero(keys: Set<u64>, m: Map<u64, ResourceInfo>)
    requires
        keys.finite(),
        forall|k: u64| keys.contains(k) ==> loaded_size(#[trigger] m[k]) == 0,
    ensures
        loaded_sum_of(keys, m) == 0,
    decreases keys.len(),
{
    if keys.len() == 0 {
        assert(keys =~= Set::<u64>::empty());
        lemma_add_loaded_commutative(m);
        vstd::set::fold::lemma_fold_empty::<u64, int>(0int, add_loaded(m));
    } else {
        let k = keys.choose();
        lemma_sum_remove(keys, m, k);
        lemma_sum_zero(keys.remove(k), m);
    }
}

/// Putting resources in a state other than loaded never adds to the
/// loaded total, and keeps the set of tracked ids.
proof fn lemma_with_state_unloads(m: Map<u64, ResourceInfo>, ids: Set<u64>, st: ResourceState)
    requires
        m.dom().finite(),
        st != ResourceState::Loaded,
    ensures
        with_state(m, ids, st).dom() == m.dom(),
        loaded_sum(with_state(m, ids, st)) <= loaded_sum(m),
{
    let w = with_state(m, ids, st);
    assert(w.dom() =~= m.dom());
    lemma_sum_mono(m.dom(), w, m);
}

/// Marking distinct loaded resources takes exactly their sizes off the
/// loaded total.
proof fn lemma_sum_with_state(m: Map<u64, ResourceInfo>, r: Seq<u64>)
    requires
        m.dom().finite(),
        r.no_duplicates(),
        forall|i: int|
            0 <= i < r.len() ==> m.contains_key(#[trigger] r[i]) && m[r[i]].state
                == ResourceState::Loaded,
    ensures
        loaded_sum(with_state(m, r.to_set(), ResourceState::NeedsRestore)) == loaded_sum(m)
            - seq_size_sum(r, m),
    decreases r.len(),
{
    let st = ResourceState::NeedsRestore;
    if r.len() == 0 {
        assert(with_state(m, r.to_set(), st) =~= m);
    } else {
        let x = r.last();
        let rest = r.drop_last();
        assert(r[r.len() - 1] == x);
        assert forall|i: int| 0 <= i < rest.len() implies m.contains_key(#[trigger] rest[i])
            && m[rest[i]].state == ResourceState::Loaded by {
            assert(rest[i] == r[i]);
        }
        assert(rest.no_duplicates()) by {
            assert forall|a: int, b: int| 0 <= a < b < rest.len() implies rest[a] != rest[b] by {
                assert(rest[a] == r[a] && rest[b] == r[b]);
            }
        }
        lemma_sum_with_state(m, rest);
        assert(!rest.to_set().contains(x)) by {
            if rest.to_set().contains(x) {
                let j = choose|j: int| 0 <= j < rest.len() && rest[j] == x;
                assert(r[j] == r[r.len() - 1]);
            }
        }
        assert(r.to_set() =~= rest.to_set().insert(x)) by {
            assert(r =~= rest.push(x));
            assert forall|k: u64| r.to_set().contains(k) <==> rest.to_set().insert(x).contains(k) by {
                if r.to_set().contains(k) {
                    let j = choose|j: int| 0 <= j < r.len() && r[j] == k;
                    if j < rest.len() {
                        assert(rest[j] == k);
                    }
                }
                if rest.to_set().contains(k) {
                    let j = choose|j: int| 0 <= j < rest.len() && rest[j] == k;
                    assert(r[j] == k);
                }
            }
        }
        let w0 = with_state(m, rest.to_set(), st);
        let w1 = with_state(m, r.to_set(), st);
        assert(w0.dom() =~= m.dom());
        assert(w1.dom() =~= m.dom());
        lemma_sum_remove(m.dom(), w0, x);
        lemma_sum_remove(m.dom(), w1, x);
        lemma_sum_mono(m.dom().remove(x), w0, w1);
        lemma_sum_mono(m.dom().remove(x), w1, w0);
    }
}

/// Entering reduced mode leaves loaded no more than the background limit:
/// the resources it marks for restoring take the loaded total down to the
/// limit, or every loaded resource is marked.
pub proof fn law_reduced_mode_fits_limit(m: Map<u64, ResourceInfo>, total: int, limit: int, r: Seq<u64>)
    requires
        m.dom().finite(),
        0 <= limit,
        loaded_sum(m) <= total,
        is_release_selection(m, total, limit, r),
    ensures
        loaded_sum(with_state(m, r.to_set(), ResourceState::NeedsRestore)) <= limit,
{
    let loaded = ids_with_state(m, ResourceState::Loaded);
    assert forall|i: int| 0 <= i < r.len() implies m.contains_key(#[trigger] r[i])
        && m[r[i]].state == ResourceState::Loaded by {
        assert(loaded.contains(r[i]));
    }
    lemma_sum_with_state(m, r);
    if total - seq_size_sum(r, m) > limit {
        let w = with_state(m, r.to_set(), ResourceState::NeedsRestore);
        assert forall|k: u64| m.dom().contains(k) implies loaded_size(#[trigger] w[k]) == 0 by {
            if m[k].state == ResourceState::Loaded {
                assert(loaded.contains(k));
            }
        }
        lemma_sum_mono(m.dom(), m, m);
        lemma_sum_zero(m.dom(), w);
        assert(w.dom() =~= m.dom());
    }
}

/// What leaving reduced mode hands back after entering it: every resource
/// that entering marked, together with those that were already waiting.
pub proof fn law_marked_resources_await_restore(m: Map<u64, ResourceInfo>, r: Seq<u64>)
    requires
        forall|i: int| 0 <= i < r.len() ==> m.contains_key(#[trigger] r[i]),
    ensures
        ids_with_state(with_state(m, r.to_set(), ResourceState::NeedsRestore), ResourceState::NeedsRestore)
            == ids_with_state(m, ResourceState::NeedsRestore).union(r.to_set()),
{
    let w = with_state(m, r.to_set(), ResourceState::NeedsRestore);
    assert forall|k: u64| ids_with_state(w, ResourceState::NeedsRestore).contains(k) <==> ids_with_state(
        m,
        ResourceState::NeedsRestore,
    ).union(r.to_set()).contains(k) by {
        if r.to_set().contains(k) {
            let j = choose|j: int| 0 <= j < r.len() && r[j] == k;
            assert(m.contains_key(r[j]));
        }
    }
    assert(ids_with_state(w, ResourceState::NeedsRestore) =~= ids_with_state(
        m,
        ResourceState::NeedsRestore,
    ).union(r.to_set()));
}

/// Registering a resource and then unregistering the id it received gives
/// back the tracked resources and the accounted total from before.
pub proof fn law_register_then_unregister(
    m: Map<u64, ResourceInfo>,
    total: usize,
    id: u64,
    info: ResourceInfo,
)
    requires
        !m.contains_key(id),
        info.state == ResourceState::Loaded,
        total + info.size_bytes <= usize::MAX,
    ensures
        m.insert(id, info).remove(id) == m,
        m.insert(id, info)[id].state == ResourceState::Loaded,
        ((total + info.size_bytes) as usize).saturating_sub(m.insert(id, info)[id].size_bytes)
            == total,
{
    assert(m.insert(id, info).remove(id) =~= m);
}

/// The resource manager.
pub struct LifecycleResourceManager {
    resources: HashMap<u64, ResourceInfo>,
    next_id: u64,
    total_memory: usize,
    background_memory_limit: usize,
    reduced_mode: bool,
    issued: Ghost<Set<u64>>,
}

/// Default background memory limit (32 MiB).
pub const DEFAULT_BACKGROUND_LIMIT: usize = 32 * 1024 * 1024;

impl LifecycleResourceManager {
    /// The tracked resources by id.
    pub closed spec fn entries(&self) -> Map<u64, ResourceInfo> {
        self.resources@
    }

    /// The id the next registration receives.
    pub closed spec fn spec_next_id(&self) -> u64 {
        self.next_id
    }

    /// The memory total the manager accounts.
    pub closed spec fn spec_total_memory(&self) -> usize {
        self.total_memory
    }

    /// The memory limit in reduced mode.
    pub closed spec fn spec_limit(&self) -> usize {
        self.background_memory_limit
    }

    /// Whether the manager is in reduced mode.
    pub closed spec fn spec_reduced(&self) -> bool {
        self.reduced_mode
    }

    /// Every id `register` has returned so far.
    pub closed spec fn issued_ids(&self) -> Set<u64> {
        self.issued@
    }

    /// Every tracked id and every id handed out lies before `next_id`, and
    /// the accounted total covers every loaded resource.
    pub closed spec fn wf(&self) -> bool {
        &&& forall|k: u64| #[trigger] self.resources@.contains_key(k) ==> k < self.next_id
        &&& forall|k: u64| #[trigger] self.issued@.contains(k) ==> k < self.next_id
        &&& loaded_sum(self.resources@) <= self.total_memory
    }

    pub fn new() -> (m: Self)
        ensures
            m.wf(),
            m.entries() == Map::<u64, ResourceInfo>::empty(),
            m.spec_next_id() == 1,
            m.issued_ids() == Set::<u64>::empty(),
            m.spec_total_memory() == 0,
            m.spec_limit() == DEFAULT_BACKGROUND_LIMIT,
            !m.spec_reduced(),
    {
        let m = LifecycleResourceManager {
            resources: HashMap::with_capacity(128),
            next_id: 1,
            total_memory: 0,
            background_memory_limit: DEFAULT_BACKGROUND_LIMIT,
            reduced_mode: false,
            issued: Ghost(Set::empty()),
        };
        proof {
            assert(m.resources@.dom() =~= Set::<u64>::empty());
            lemma_add_loaded_commutative(m.resources@);
            vstd::set::fold::lemma_fold_empty::<u64, int>(0int, add_loaded(m.resources@));
        }
        m
    }

    /// Set the memory limit used in reduced mode.
    pub fn set_background_memory_limit(&mut self, limit: usize)
        requires
            old(self).wf(),
        ensures
            final(self).wf(),
            final(self).spec_limit() == limit,
            final(self).entries() == old(self).entries(),
            final(self).spec_next_id() == old(self).spec_next_id(),
            final(self).issued_ids() == old(self).issued_ids(),
            final(self).spec_total_memory() == old(self).spec_total_memory(),
            final(self).spec_reduced() == old(self).spec_reduced(),
    {
        self.background_memory_limit = limit;
    }

    /// Register a new loaded resource and return its id.
    pub fn register(&mut self, resource_type: ResourceType, size_bytes: usize, priority: u8) -> (id: u64)
        requires
            old(self).wf(),
            old(self).spec_next_id() < u64::MAX,
            old(self).spec_total_memory() + size_bytes <= usize::MAX,
        ensures
            final(self).wf(),
            final(self).entries().dom().finite(),
            id == old(self).spec_next_id(),
            !old(self).entries().contains_key(id),
            !old(self).issued_ids().contains(id),
            final(self).issued_ids() == old(self).issued_ids().insert(id),
            final(self).entries() == old(self).entries().insert(
                id,
                ResourceInfo { resource_type, state: ResourceState::Loaded, size_bytes, priority },
            ),
            final(self).spec_next_id() == old(self).spec_next_id() + 1,
            final(self).spec_total_memory() == old(self).spec_total_memory() + size_bytes,
            final(self).spec_limit() == old(self).spec_limit(),
            final(self).spec_reduced() == old(self).spec_reduced(),
    {
        let id = self.next_id;
        self.next_id = self.next_id + 1;
        proof {
            self.issued@ = self.issued@.insert(id);
        }
        let ghost m0 = self.resources@;
        self.resources.insert(
            id,
            ResourceInfo { resource_type, state: ResourceState::Loaded, size_bytes, priority },
        );
        self.total_memory = self.total_memory + size_bytes;
        proof {
            let m1 = self.resources@;
            assert(!m0.contains_key(id));
            assert(m1.dom() =~= m0.dom().insert(id));
            lemma_sum_insert(m0.dom(), m1, id);
            lemma_sum_mono(m0.dom(), m1, m0);
            lemma_sum_mono(m0.dom(), m0, m1);
        }
        id
    }

    /// Stop tracking a resource; a loaded one gives its bytes back.
    pub fn unregister(&mut self, id: u64)
        requires
            old(self).wf(),
        ensures
            final(self).wf(),
            final(self).entries().dom().finite(),
            final(self).entries() == old(self).entries().remove(id),
            final(self).spec_total_memory() == (if old(self).entries().contains_key(id)
                && old(self).entries()[id].state == ResourceState::Loaded {
                old(self).spec_total_memory().saturating_sub(old(self).entries()[id].size_bytes)
            } else {
                old(self).spec_total_memory()
            }),
            final(self).spec_next_id() == old(self).spec_next_id(),
            final(self).issued_ids() == old(self).issued_ids(),
            final(self).spec_limit() == old(self).spec_limit(),
            final(self).spec_reduced() == old(self).spec_reduced(),
    {
        let ghost m0 = self.resources@;
        match self.resources.remove(&id) {
            Some(info) => {
                if info.state == ResourceState::Loaded {
                    self.total_memory = self.total_memory.saturating_sub(info.size_bytes);
                }
                proof {
                    let m1 = self.resources@;
                    assert(m1.dom() =~= m0.dom().remove(id));
                    lemma_sum_remove(m0.dom(), m0, id);
                    lemma_sum_mono(m1.dom(), m1, m0);
                }
            },
            None => {
                proof {
                    assert(self.resources@ =~= m0);
                }
            },
        }
    }

    /// Replace the state of a tracked resource, keeping its other fields.
    fn set_state(&mut self, id: u64, state: ResourceState)
        requires
            old(self).entries().contains_key(id),
        ensures
            final(self).entries() == old(self).entries().insert(
                id,
                ResourceInfo { state, ..old(self).entries()[id] },
            ),
            final(self).spec_next_id() == old(self).spec_next_id(),
            final(self).issued_ids() == old(self).issued_ids(),
            final(self).spec_total_memory() == old(self).spec_total_memory(),
            final(self).spec_limit() == old(self).spec_limit(),
            final(self).spec_reduced() == old(self).spec_reduced(),
    {
        let (resource_type, size_bytes, priority) = match self.resources.get(&id) {
            Some(info) => (info.resource_type, info.size_bytes, info.priority),
            None => {
                return ;
            },
        };
        self.resources.insert(id, ResourceInfo { resource_type, state, size_bytes, priority });
    }

    /// Mark a resource as released; a loaded one gives its bytes back.
    pub fn mark_released(&mut self, id: u64)
        requires
            old(self).wf(),
        ensures
            final(self).wf(),
            old(self).entries().contains_key(id) ==> final(self).entries() == old(
                self,
            ).entries().insert(
                id,
                ResourceInfo { state: ResourceState::Released, ..old(self).entries()[id] },
            ),
            !old(self).entries().contains_key(id) ==> final(self).entries() == old(
                self,
            ).entries(),
            final(self).spec_total_memory() == (if old(self).entries().contains_key(id)
                && old(self).entries()[id].state == ResourceState::Loaded {
                old(self).spec_total_memory().saturating_sub(old(self).entries()[id].size_bytes)
            } else {
                old(self).spec_total_memory()
            }),
            final(self).spec_next_id() == old(self).spec_next_id(),
            final(self).issued_ids() == old(self).issued_ids(),
            final(self).spec_limit() == old(self).spec_limit(),
            final(self).spec_reduced() == old(self).spec_reduced(),
    {
        let ghost m0 = self.resources@;
        let (state, size) = match self.resources.get(&id) {
            Some(info) => (info.state, info.size_bytes),
            None => {
                return ;
            },
        };
        if state == ResourceState::Loaded {
            self.total_memory = self.total_memory.saturating_sub(size);
        }
        self.set_state(id, ResourceState::Released);
        proof {
            let m1 = self.resources@;
            assert(m1.dom() =~= m0.dom());
            lemma_sum_remove(m0.dom(), m0, id);
            lemma_sum_remove(m0.dom(), m1, id);
            lemma_sum_mono(m0.dom().remove(id), m1, m0);
        }
    }

    /// Mark a resource as loaded; one that was not loaded adds its bytes.
    pub fn mark_loaded(&mut self, id: u64)
        requires
            old(self).wf(),
            old(self).entries().contains_key(id) && old(self).entries()[id].state
                != ResourceState::Loaded ==> old(self).spec_total_memory() + old(
                self,
            ).entries()[id].size_bytes <= usize::MAX,
        ensures
            final(self).wf(),
            old(self).entries().contains_key(id) ==> final(self).entries() == old(
                self,
            ).entries().insert(id, ResourceInfo { state: ResourceState::Loaded, ..old(self).entries()[id] }),
            !old(self).entries().contains_key(id) ==> final(self).entries() == old(
                self,
            ).entries(),
            final(self).spec_total_memory() == (if old(self).entries().contains_key(id)
                && old(self).entries()[id].state != ResourceState::Loaded {
                (old(self).spec_total_memory() + old(self).entries()[id].size_bytes) as usize
            } else {
                old(self).spec_total_memory()
            }),
            final(self).spec_next_id() == old(self).spec_next_id(),
            final(self).issued_ids() == old(self).issued_ids(),
            final(self).spec_limit() == old(self).spec_limit(),
            final(self).spec_reduced() == old(self).spec_reduced(),
    {
        let ghost m0 = self.resources@;
        let (state, size) = match self.resources.get(&id) {
            Some(info) => (info.state, info.size_bytes),
            None => {
                return ;
            },
        };
        if state != ResourceState::Loaded {
            self.total_memory = self.total_memory + size;
        }
        self.set_state(id, ResourceState::Loaded);
        proof {
            let m1 = self.resources@;
            assert(m1.dom() =~= m0.dom());
            lemma_sum_remove(m0.dom(), m0, id);
            lemma_sum_remove(m0.dom(), m1, id);
            lemma_sum_mono(m0.dom().remove(id), m1, m0);
        }
    }

    /// Ids of the resources in state `st`, each once, in map order.
    fn ids_in_state(&self, st: ResourceState) -> (r: Vec<u64>)
        ensures
            r@.no_duplicates(),
            r@.to_set() == ids_with_state(self.resources@, st),
    {
        let mut r: Vec<u64> = Vec::new();
        let ghost m = self.resources@;
        let ghost mut seen: Seq<u64> = Seq::empty();
        for k in it: self.resources.keys()
            invariant
                m == self.resources@,
                it.seq().unref().to_set() == m.dom(),
                it.seq().unref().no_duplicates(),
                seen == it.seq().unref().take(it.index()),
                seen.len() == it.seq().len() ==> seen.to_set() == m.dom(),
                r@.no_duplicates(),
                forall|x: u64| #[trigger] r@.contains(x) <==> (seen.contains(x) && m[x].state == st),
        {
            let ghost prev = r@;
            let ghost seen0 = seen;
            proof {
                assert(it.seq().unref()[it.index() as int] == *k);
                seen = seen.push(*k);
                assert(seen =~= it.seq().unref().take(it.index() + 1));
                assert(!seen0.contains(*k)) by {
                    if seen0.contains(*k) {
                        let i = choose|i: int| 0 <= i < seen0.len() && seen0[i] == *k;
                        assert(it.seq().unref()[i] == it.seq().unref()[it.index() as int]);
                    }
                }
            }
            proof {
                assert(m.contains_key(*k)) by {
                    assert(it.seq().unref().contains(*k));
                }
                assert(!prev.contains(*k));
            }
            let keep = match self.resources.get(k) {
                Some(info) => info.state == st,
                None => false,
            };
            if keep {
                r.push(*k);
            }
            proof {
                assert(keep == (m[*k].state == st));
                assert forall|x: u64| #[trigger] r@.contains(x) <==> (seen.contains(x) && m[x].state == st) by {
                    if x == *k {
                        assert(seen[seen.len() - 1] == x);
                        if keep {
                            assert(r@[r@.len() - 1] == x);
                        } else {
                            assert(r@ == prev);
                        }
                    } else {
                        assert(keep ==> r@ == prev.push(*k));
                        assert(!keep ==> r@ == prev);
                        if r@.contains(x) {
                            let j = choose|j: int| 0 <= j < r@.len() && r@[j] == x;
                            assert(j < prev.len());
                            assert(prev[j] == x);
                            assert(prev.contains(x));
                            let i = choose|i: int| 0 <= i < seen0.len() && seen0[i] == x;
                            assert(seen[i] == x);
                        }
                        if seen.contains(x) {
                            let i = choose|i: int| 0 <= i < seen.len() && seen[i] == x;
                            assert(i < seen0.len());
                            assert(seen0[i] == x);
                            if m[x].state == st {
                                assert(prev.contains(x));
                                let j = choose|j: int| 0 <= j < prev.len() && prev[j] == x;
                                assert(r@[j] == x);
                            }
                        }
                    }
                }
                assert(it.seq().unref().take(it.seq().len() as int) =~= it.seq().unref());
            }
        }
        proof {
            assert forall|x: u64| r@.to_set().contains(x) <==> ids_with_state(m, st).contains(x) by {
                assert(seen.to_set().contains(x) <==> m.dom().contains(x));
            }
            assert(r@.to_set() =~= ids_with_state(m, st));
        }
        r
    }

    /// The loaded resources to release, lowest priority first (ties in
    /// map order), until the accounted total fits under the limit.
    fn select_for_release(&self) -> (r: Vec<u64>)
        requires
            self.wf(),
        ensures
            is_release_selection(
                self.resources@,
                self.total_memory as int,
                self.background_memory_limit as int,
                r@,
            ),
    {
        let ghost m = self.resources@;
        let ghost loaded = ids_with_state(m, ResourceState::Loaded);
        let total = self.total_memory;
        let limit = self.background_memory_limit;
        let mut r: Vec<u64> = Vec::new();
        if total <= limit {
            proof {
                assert(r@.take(0) =~= r@);
            }
            return r;
        }
        let ids = self.ids_in_state(ResourceState::Loaded);
        let mut prios: Vec<u8> = Vec::new();
        let mut sizes: Vec<usize> = Vec::new();
        for i in 0..ids.len()
            invariant
                m == self.resources@,
                loaded == ids_with_state(m, ResourceState::Loaded),
                ids@.to_set() == loaded,
                prios@.len() == i,
                sizes@.len() == i,
                forall|j: int|
                    0 <= j < i ==> prios@[j] == m[ids@[j]].priority && sizes@[j]
                        == m[ids@[j]].size_bytes,
        {
            proof {
                assert(ids@.to_set().contains(ids@[i as int]));
            }
            let (pr, sz) = match self.resources.get(&ids[i]) {
                Some(info) => (info.priority, info.size_bytes),
                None => (0, 0),
            };
            prios.push(pr);
            sizes.push(sz);
        }
        proof {
            assert(loaded_sum(m) <= total);
        }
        let mut current = total;
        let mut done = false;
        let mut p: u16 = 0;
        while p < 256 && !done
            invariant
                m == self.resources@,
                loaded == ids_with_state(m, ResourceState::Loaded),
                ids@.no_duplicates(),
                ids@.to_set() == loaded,
                prios@.len() == ids@.len(),
                sizes@.len() == ids@.len(),
                forall|j: int|
                    0 <= j < ids@.len() ==> prios@[j] == m[ids@[j]].priority && sizes@[j]
                        == m[ids@[j]].size_bytes,
                loaded_sum(m) <= total,
                total > limit,
                p <= 256,
                r@.no_duplicates(),
                forall|j: int| 0 <= j < r@.len() ==> loaded.contains(#[trigger] r@[j]),
                forall|a: int, b: int|
                    0 <= a < b < r@.len() ==> #[trigger] m[r@[a]].priority
                        <= #[trigger] m[r@[b]].priority,
                forall|j: int| 0 <= j < r@.len() ==> #[trigger] m[r@[j]].priority < p,
                !done ==> forall|k: u64|
                    loaded.contains(k) && #[trigger] m[k].priority < p ==> r@.contains(k),
                forall|k: u64, j: int|
                    loaded.contains(k) && !r@.contains(k) && 0 <= j < r@.len()
                        ==> #[trigger] m[r@[j]].priority <= #[trigger] m[k].priority,
                current == total - seq_size_sum(r@, m),
                forall|n: int|
                    0 <= n < r@.len() ==> total - #[trigger] seq_size_sum(r@.take(n), m) > limit,
                done ==> current <= limit,
            decreases 256 - p,
        {
            let mut i: usize = 0;
            while i < ids.len() && !done
                invariant
                    m == self.resources@,
                    loaded == ids_with_state(m, ResourceState::Loaded),
                    ids@.no_duplicates(),
                    ids@.to_set() == loaded,
                    prios@.len() == ids@.len(),
                    sizes@.len() == ids@.len(),
                    forall|j: int|
                        0 <= j < ids@.len() ==> prios@[j] == m[ids@[j]].priority && sizes@[j]
                            == m[ids@[j]].size_bytes,
                    loaded_sum(m) <= total,
                    total > limit,
                    p < 256,
                    i <= ids@.len(),
                    r@.no_duplicates(),
                    forall|j: int| 0 <= j < r@.len() ==> loaded.contains(#[trigger] r@[j]),
                    forall|a: int, b: int|
                        0 <= a < b < r@.len() ==> #[trigger] m[r@[a]].priority
                            <= #[trigger] m[r@[b]].priority,
                    forall|j: int| 0 <= j < r@.len() ==> #[trigger] m[r@[j]].priority <= p,
                    forall|j: int|
                        0 <= j < r@.len() && #[trigger] m[r@[j]].priority == p ==> ids@.subrange(
                            0,
                            i as int,
                        ).contains(r@[j]),
                    forall|k: u64| loaded.contains(k) && #[trigger] m[k].priority < p ==> r@.contains(k),
                    !done ==> forall|j: int|
                        0 <= j < i && #[trigger] prios@[j] == p ==> r@.contains(ids@[j]),
                    forall|k: u64, j: int|
                        loaded.contains(k) && !r@.contains(k) && 0 <= j < r@.len()
                            ==> #[trigger] m[r@[j]].priority <= #[trigger] m[k].priority,
                    current == total - seq_size_sum(r@, m),
                    forall|n: int|
                        0 <= n < r@.len() ==> total - #[trigger] seq_size_sum(r@.take(n), m) > limit,
                    done ==> current <= limit,
                decreases ids.len() - i,
            {
                if prios[i] as u16 == p {
                    if current <= limit {
                        done = true;
                    } else {
                        let id = ids[i];
                        let ghost r0 = r@;
                        proof {
                            assert(ids@.to_set().contains(id));
                            assert(!r0.contains(id)) by {
                                if r0.contains(id) {
                                    let j = choose|j: int| 0 <= j < r0.len() && r0[j] == id;
                                    assert(m[r0[j]].priority == p);
                                    assert(ids@.subrange(0, i as int).contains(id));
                                    let jj = choose|jj: int|
                                        0 <= jj < i && ids@.subrange(0, i as int)[jj] == id;
                                    assert(ids@[jj] == ids@[i as int]);
                                }
                            }
                            let r1 = r0.push(id);
                            assert(r1.drop_last() =~= r0);
                            assert(seq_size_sum(r1, m) == seq_size_sum(r0, m) + m[id].size_bytes);
                            assert forall|j: int| 0 <= j < r1.len() implies loaded.contains(#[trigger] r1[j])
                                && m.contains_key(r1[j]) && m[r1[j]].state == ResourceState::Loaded by {
                                if j < r0.len() {
                                    assert(r1[j] == r0[j]);
                                }
                            }
                            assert(r1.no_duplicates()) by {
                                assert forall|a: int, b: int| 0 <= a < b < r1.len() implies r1[a] != r1[b] by {
                                    if b == r0.len() {
                                        assert(r0.contains(r1[a]));
                                    } else {
                                        assert(r1[a] == r0[a] && r1[b] == r0[b]);
                                    }
                                }
                            }
                            assert forall|j: int| 0 <= j < r1.len() implies m.dom().contains(#[trigger] r1[j])
                                && m[r1[j]].state == ResourceState::Loaded by {
                                assert(loaded.contains(r1[j]));
                            }
                            lemma_seq_sum_le(r1, m.dom(), m);
                        }
                        r.push(id);
                        current = current - sizes[i];
                        proof {
                            let r1 = r@;
                            assert forall|n: int| 0 <= n < r1.len() implies total
                                - #[trigger] seq_size_sum(r1.take(n), m) > limit by {
                                if n < r0.len() {
                                    assert(r1.take(n) =~= r0.take(n));
                                } else {
                                    assert(r1.take(n) =~= r0);
                                }
                            }
                            assert forall|a: int, b: int| 0 <= a < b < r1.len() implies #[trigger] m[r1[a]].priority
                                <= #[trigger] m[r1[b]].priority by {
                                if b < r0.len() {
                                    assert(r1[a] == r0[a] && r1[b] == r0[b]);
                                } else {
                                    assert(r1[a] == r0[a]);
                                }
                            }
                            assert forall|k: u64, j: int|
                                loaded.contains(k) && !r1.contains(k) && 0 <= j < r1.len()
                                    implies #[trigger] m[r1[j]].priority <= #[trigger] m[k].priority by {
                                assert(!r0.contains(k)) by {
                                    if r0.contains(k) {
                                        let jj = choose|jj: int| 0 <= jj < r0.len() && r0[jj] == k;
                                        assert(r1[jj] == k);
                                    }
                                }
                                if j < r0.len() {
                                    assert(r1[j] == r0[j]);
                                } else {
                                    if m[k].priority < p {
                                        assert(r0.contains(k));
                                    }
                                }
                            }
                            assert forall|j: int|
                                0 <= j < r1.len() && #[trigger] m[r1[j]].priority == p implies ids@.subrange(
                                    0,
                                    i + 1,
                                ).contains(r1[j]) by {
                                if j < r0.len() {
                                    assert(r1[j] == r0[j]);
                                    let jj = choose|jj: int|
                                        0 <= jj < i && ids@.subrange(0, i as int)[jj] == r0[j];
                                    assert(ids@.subrange(0, i + 1)[jj] == r0[j]);
                                } else {
                                    assert(ids@.subrange(0, i + 1)[i as int] == id);
                                }
                            }
                            assert forall|k: u64| loaded.contains(k) && #[trigger] m[k].priority < p implies r1.contains(k) by {
                                assert(r0.contains(k));
                                let jj = choose|jj: int| 0 <= jj < r0.len() && r0[jj] == k;
                                assert(r1[jj] == k);
                            }
                            assert forall|j: int| 0 <= j < i + 1 && #[trigger] prios@[j] == p implies r1.contains(ids@[j]) by {
                                if j < i {
                                    assert(r0.contains(ids@[j]));
                                    let jj = choose|jj: int| 0 <= jj < r0.len() && r0[jj] == ids@[j];
                                    assert(r1[jj] == ids@[j]);
                                } else {
                                    assert(r1[r0.len() as int] == id);
                                }
                            }
                            assert forall|j: int| 0 <= j < r1.len() implies #[trigger] m[r1[j]].priority <= p by {
                                if j < r0.len() {
                                    assert(r1[j] == r0[j]);
                                }
                            }
                        }
                    }
                } else {
                    proof {
                        assert forall|j: int|
                            0 <= j < r@.len() && #[trigger] m[r@[j]].priority == p implies ids@.subrange(
                                0,
                                i + 1,
                            ).contains(r@[j]) by {
                            let jj = choose|jj: int|
                                0 <= jj < i && ids@.subrange(0, i as int)[jj] == r@[j];
                            assert(ids@.subrange(0, i + 1)[jj] == r@[j]);
                        }
                    }
                }
                i = i + 1;
            }
            proof {
                if !done {
                    assert forall|k: u64| loaded.contains(k) && #[trigger] m[k].priority < p + 1 implies r@.contains(k) by {
                        if m[k].priority == p {
                            assert(ids@.to_set().contains(k));
                            let j = choose|j: int| 0 <= j < ids@.len() && ids@[j] == k;
                            assert(prios@[j] == p);
                        }
                    }
                }
            }
            p = p + 1;
        }
        proof {
            if !done {
                assert forall|k: u64| r@.to_set().contains(k) <==> loaded.contains(k) by {
                    if loaded.contains(k) {
                        assert(m[k].priority < 256);
                        assert(r@.contains(k));
                    }
                    if r@.to_set().contains(k) {
                        let j = choose|j: int| 0 <= j < r@.len() && r@[j] == k;
                        assert(loaded.contains(r@[j]));
                    }
                }
                assert(r@.to_set() =~= loaded);
            }
        }
        r
    }

    /// Put each listed resource in state `NeedsRestore`.
    fn mark_needs_restore(&mut self, ids: &Vec<u64>)
        requires
            forall|i: int| 0 <= i < ids@.len() ==> old(self).entries().contains_key(#[trigger] ids@[i]),
        ensures
            final(self).entries() == with_state(
                old(self).entries(),
                ids@.to_set(),
                ResourceState::NeedsRestore,
            ),
            final(self).spec_next_id() == old(self).spec_next_id(),
            final(self).issued_ids() == old(self).issued_ids(),
            final(self).spec_total_memory() == old(self).spec_total_memory(),
            final(self).spec_limit() == old(self).spec_limit(),
            final(self).spec_reduced() == old(self).spec_reduced(),
    {
        let ghost m0 = self.resources@;
        let st = ResourceState::NeedsRestore;
        proof {
            assert(with_state(m0, ids@.take(0).to_set(), st) =~= m0);
        }
        for j in 0..ids.len()
            invariant
                self.resources@ == with_state(m0, ids@.take(j as int).to_set(), st),
                m0 == old(self).resources@,
                forall|i: int| 0 <= i < ids@.len() ==> m0.contains_key(#[trigger] ids@[i]),
                self.next_id == old(self).next_id,
                self.issued == old(self).issued,
                self.total_memory == old(self).total_memory,
                self.background_memory_limit == old(self).background_memory_limit,
                self.reduced_mode == old(self).reduced_mode,
        {
            let ghost before = self.resources@;
            proof {
                assert(m0.contains_key(ids@[j as int]));
            }
            self.set_state(ids[j], st);
            proof {
                let t0 = ids@.take(j as int);
                let t1 = ids@.take(j + 1);
                assert forall|k: u64| t1.to_set().contains(k) <==> (t0.to_set().contains(k) || k
                    == ids@[j as int]) by {
                    if t1.to_set().contains(k) {
                        let i = choose|i: int| 0 <= i < t1.len() && t1[i] == k;
                        if i < j {
                            assert(t0[i] == k);
                        }
                    }
                    if t0.to_set().contains(k) {
                        let i = choose|i: int| 0 <= i < t0.len() && t0[i] == k;
                        assert(t1[i] == k);
                    }
                    if k == ids@[j as int] {
                        assert(t1[j as int] == k);
                    }
                }
                assert(self.resources@ =~= with_state(m0, t1.to_set(), st));
            }
        }
        proof {
            assert(ids@.take(ids@.len() as int) =~= ids@);
        }
    }

    /// Enter reduced memory mode (background): mark the loaded resources
    /// to give up, lowest priority first, until the accounted total fits
    /// the background limit, and return their ids. Does nothing when
    /// already in reduced mode.
    pub fn enter_reduced_mode(&mut self) -> (r: Vec<u64>)
        requires
            old(self).wf(),
        ensures
            final(self).wf(),
            final(self).spec_reduced(),
            old(self).spec_reduced() ==> r@ == Seq::<u64>::empty() && final(self).entries() == old(
                self,
            ).entries(),
            !old(self).spec_reduced() ==> is_release_selection(
                old(self).entries(),
                old(self).spec_total_memory() as int,
                old(self).spec_limit() as int,
                r@,
            ) && final(self).entries() == with_state(
                old(self).entries(),
                r@.to_set(),
                ResourceState::NeedsRestore,
            ),
            final(self).spec_next_id() == old(self).spec_next_id(),
            final(self).issued_ids() == old(self).issued_ids(),
            final(self).spec_total_memory() == old(self).spec_total_memory(),
            final(self).spec_limit() == old(self).spec_limit(),
    {
        if self.reduced_mode {
            return Vec::new();
        }
        self.reduced_mode = true;
        let to_release = self.select_for_release();
        proof {
            let m = self.resources@;
            assert forall|i: int| 0 <= i < to_release@.len() implies m.contains_key(
                #[trigger] to_release@[i],
            ) by {
                assert(ids_with_state(m, ResourceState::Loaded).contains(to_release@[i]));
            }
        }
        let ghost m0 = self.resources@;
        self.mark_needs_restore(&to_release);
        proof {
            lemma_with_state_unloads(m0, to_release@.to_set(), ResourceState::NeedsRestore);
        }
        to_release
    }

    /// Leave reduced memory mode (back to the foreground) and return the
    /// ids of the resources waiting to be restored. Does nothing when not
    /// in reduced mode.
    pub fn exit_reduced_mode(&mut self) -> (r: Vec<u64>)
        requires
            old(self).wf(),
        ensures
            final(self).wf(),
            !final(self).spec_reduced(),
            !old(self).spec_reduced() ==> r@ == Seq::<u64>::empty(),
            old(self).spec_reduced() ==> r@.no_duplicates() && r@.to_set() == ids_with_state(
                old(self).entries(),
                ResourceState::NeedsRestore,
            ),
            final(self).entries() == old(self).entries(),
            final(self).spec_next_id() == old(self).spec_next_id(),
            final(self).issued_ids() == old(self).issued_ids(),
            final(self).spec_total_memory() == old(self).spec_total_memory(),
            final(self).spec_limit() == old(self).spec_limit(),
    {
        if !self.reduced_mode {
            return Vec::new();
        }
        self.reduced_mode = false;
        self.ids_in_state(ResourceState::NeedsRestore)
    }

    /// Release every loaded resource (entering the suspended state): each
    /// becomes `NeedsRestore`, the accounted total drops to zero, and their
    /// ids are returned.
    pub fn release_all(&mut self) -> (r: Vec<u64>)
        requires
            old(self).wf(),
        ensures
            final(self).wf(),
            r@.no_duplicates(),
            r@.to_set() == ids_with_state(old(self).entries(), ResourceState::Loaded),
            final(self).entries() == with_state(
                old(self).entries(),
                r@.to_set(),
                ResourceState::NeedsRestore,
            ),
            ids_with_state(final(self).entries(), ResourceState::Loaded) == Set::<u64>::empty(),
            final(self).spec_total_memory() == 0,
            final(self).spec_next_id() == old(self).spec_next_id(),
            final(self).issued_ids() == old(self).issued_ids(),
            final(self).spec_limit() == old(self).spec_limit(),
            final(self).spec_reduced() == old(self).spec_reduced(),
    {
        let to_release = self.ids_in_state(ResourceState::Loaded);
        let ghost m0 = self.resources@;
        proof {
            assert forall|i: int| 0 <= i < to_release@.len() implies m0.contains_key(
                #[trigger] to_release@[i],
            ) by {
                assert(to_release@.to_set().contains(to_release@[i]));
            }
        }
        self.mark_needs_restore(&to_release);
        self.total_memory = 0;
        proof {
            let m1 = self.resources@;
            assert(m1.dom() =~= m0.dom());
            assert forall|k: u64| m1.dom().contains(k) implies loaded_size(#[trigger] m1[k]) == 0 by {
                if m0[k].state == ResourceState::Loaded {
                    assert(ids_with_state(m0, ResourceState::Loaded).contains(k));
                }
            }
            lemma_sum_zero(m1.dom(), m1);
            assert forall|k: u64| !ids_with_state(m1, ResourceState::Loaded).contains(k) by {
                if m1.contains_key(k) {
                    assert(loaded_size(m1[k]) == 0);
                }
            }
            assert(ids_with_state(m1, ResourceState::Loaded) =~= Set::<u64>::empty());
        }
        to_release
    }

    /// Ids of all resources that wait to be restored.
    pub fn get_needs_restore(&self) -> (r: Vec<u64>)
        ensures
            r@.no_duplicates(),
            r@.to_set() == ids_with_state(self.entries(), ResourceState::NeedsRestore),
    {
        self.ids_in_state(ResourceState::NeedsRestore)
    }

    /// The accounted total of loaded bytes.
    pub fn total_memory(&self) -> (t: usize)
        ensures
            t == self.spec_total_memory(),
    {
        self.total_memory
    }

    /// The number of tracked resources.
    pub fn resource_count(&self) -> (n: usize)
        ensures
            n == self.entries().len(),
            self.entries().dom().finite(),
    {
        self.resources.len()
    }

    /// The information tracked for `id`, if any.
    pub fn get_resource(&self, id: u64) -> (r: Option<&ResourceInfo>)
        ensures
            match r {
                Some(info) => self.entries().contains_key(id) && *info == self.entries()[id],
                None => !self.entries().contains_key(id),
            },
    {
        self.resources.get(&id)
    }

    /// Forget every resource and leave reduced mode.
    pub fn clear(&mut self)
        requires
            old(self).wf(),
        ensures
            final(self).wf(),
            final(self).entries() == Map::<u64, ResourceInfo>::empty(),
            final(self).spec_total_memory() == 0,
            !final(self).spec_reduced(),
            final(self).spec_next_id() == old(self).spec_next_id(),
            final(self).issued_ids() == old(self).issued_ids(),
            final(self).spec_limit() == old(self).spec_limit(),
    {
        self.resources.clear();
        self.total_memory = 0;
        self.reduced_mode = false;
        proof {
            let m = self.resources@;
            assert(m.dom() =~= Set::<u64>::empty());
            lemma_sum_zero(m.dom(), m);
        }
    }
}



impl Default for LifecycleResourceManager {
    fn default() -> (m: Self)
        ensures
            m.wf(),
            m.entries() == Map::<u64, ResourceInfo>::empty(),
            m.spec_next_id() == 1,
            m.issued_ids() == Set::<u64>::empty(),
            m.spec_total_memory() == 0,
            m.spec_limit() == DEFAULT_BACKGROUND_LIMIT,
            !m.spec_reduced(),
    {
        Self::new()
    }
}

/// A loaded resource never accounts for more than the manager's total: so
/// releasing it takes exactly its size off the total, and loading it back
/// afterwards restores the total.
pub proof fn law_loaded_size_within_total(m: LifecycleResourceManager, id: u64)
    requires
        m.wf(),
        m.entries().contains_key(id),
        m.entries()[id].state == ResourceState::Loaded,
    ensures
        m.entries()[id].size_bytes <= m.spec_total_memory(),
        m.spec_total_memory().saturating_sub(m.entries()[id].size_bytes) + m.entries()[id].size_bytes
            == m.spec_total_memory(),
{
    let e = m.entries();
    assert(e.dom().finite());
    lemma_sum_remove(e.dom(), e, id);
    lemma_sum_nonneg(e.dom().remove(id), e);
}

/// Ids are never reused: an id `register` returns was never returned
/// before, by that manager, across every operation in between (`clear`
/// included), and no tracked resource holds the id it returns next.
pub proof fn law_ids_never_reused(m: LifecycleResourceManager)
    requires
        m.wf(),
    ensures
        !m.issued_ids().contains(m.spec_next_id()),
        !m.entries().contains_key(m.spec_next_id()),
        forall|k: u64| #[trigger] m.issued_ids().contains(k) ==> k < m.spec_next_id(),
{
}

} // verus!
