//! Deduplication of redundant WebGL calls.
//!
//! [`CanvasGLState`] is a per-canvas shadow of the GL state the canvas last
//! set. Each `update_*` helper compares the requested value with the shadow
//! and returns `true` when the driver call has to be issued (the value
//! differs, or nothing is known yet), recording the new value; it returns
//! `false` when the call is redundant.
//!
//! Floating-point arguments (blend colour, depth range, line width, polygon
//! offset) are handed over as their IEEE-754 bit patterns (`f32::to_bits`)
//! and compared with the semantics of `f32` equality.

use std::collections::HashMap;
use std::collections::HashSet;
use vstd::prelude::*;

verus! {

broadcast use vstd::std_specs::hash::group_hash_axioms;

/// Id of a linked program.
pub type ProgramId = u32;

/// Id of a buffer object.
pub type BufferId = u32;

/// Id of a vertex array object.
pub type VaoId = u32;

/// Most uniform values remembered per canvas.
pub const MAX_UNIFORM_CACHE: usize = 256;

/// `GL_ARRAY_BUFFER`.
pub const GL_ARRAY_BUFFER: u32 = 0x8892;

/// `GL_ELEMENT_ARRAY_BUFFER`.
pub const GL_ELEMENT_ARRAY_BUFFER: u32 = 0x8893;

/// `GL_FRONT`.
pub const GL_FRONT: u32 = 0x0404;

/// `GL_BACK`.
pub const GL_BACK: u32 = 0x0405;

/// `GL_FRONT_AND_BACK`.
pub const GL_FRONT_AND_BACK: u32 = 0x0408;

/// Scissor test state, as far as damage tracking needs it.
#[derive(Clone, Copy, Debug, PartialEq, Eq, Structural)]
pub enum ScissorState {
    /// `GL_SCISSOR_TEST` is disabled: the scissor rect has no effect.
    Disabled,
    /// `GL_SCISSOR_TEST` is enabled with a rect set by an explicit `glScissor`.
    Enabled { x: i32, y: i32, width: i32, height: i32 },
    /// `GL_SCISSOR_TEST` is enabled but no `glScissor` was seen yet, so the
    /// box is the whole drawable, whose size is not known here.
    EnabledUnknownRect,
}

/// Arguments of `glBlendFuncSeparate`.
#[derive(Clone, Copy, Debug, PartialEq, Eq, Structural)]
pub struct BlendFactors {
    pub src_rgb: u32,
    pub dst_rgb: u32,
    pub src_alpha: u32,
    pub dst_alpha: u32,
}

/// Arguments of `glBlendEquationSeparate`.
#[derive(Clone, Copy, Debug, PartialEq, Eq, Structural)]
pub struct BlendEquation {
    pub mode_rgb: u32,
    pub mode_alpha: u32,
}

/// Everything a `glVertexAttribPointer` call captures: its arguments, the
/// bound vertex array object and the bound `ARRAY_BUFFER`.
#[derive(Clone, Copy, Debug, PartialEq, Eq, Structural)]
pub struct VertexAttribPointerFp {
    pub size: i32,
    pub type_: u32,
    pub normalized: bool,
    pub stride: i32,
    pub offset: i32,
    pub vao: u32,
    pub array_buffer: Option<u32>,
}

/// The GL state a canvas last set, kept to skip redundant calls.
///
/// `None` (or a missing map entry) means "not known": the next call is
/// always issued.
#[derive(Debug)]
pub struct CanvasGLState {
    pub current_program: Option<ProgramId>,
    /// Last uploaded bytes per uniform, keyed by [`uniform_key`].
    pub uniform_cache: HashMap<u64, Vec<u8>>,
    pub viewport: Option<(i32, i32, i32, i32)>,
    /// TEXTURE_2D binding per texture unit (key: `GL_TEXTUREn`).
    pub bound_texture_2d: HashMap<u32, Option<u32>>,
    pub bound_array_buffer: Option<Option<BufferId>>,
    pub bound_element_array_buffer: Option<Option<BufferId>>,
    pub bound_vao: Option<VaoId>,
    pub active_texture_unit: Option<u32>,
    pub blend_factors: Option<BlendFactors>,
    pub blend_equation: Option<BlendEquation>,
    /// Bit patterns of the blend colour components.
    pub blend_color: Option<(u32, u32, u32, u32)>,
    pub depth_func: Option<u32>,
    pub depth_mask: Option<bool>,
    /// Bit patterns of the depth range bounds.
    pub depth_range: Option<(u32, u32)>,
    /// `(func, ref, mask)` per face (`GL_FRONT` / `GL_BACK`).
    pub stencil_func: HashMap<u32, (u32, i32, u32)>,
    /// `(sfail, dpfail, dppass)` per face.
    pub stencil_op: HashMap<u32, (u32, u32, u32)>,
    pub stencil_mask: HashMap<u32, u32>,
    pub pixel_store_i32: HashMap<u32, i32>,
    pub cull_face: Option<u32>,
    pub front_face: Option<u32>,
    /// Bit pattern of the line width.
    pub line_width: Option<u32>,
    /// Bit patterns of the polygon offset factor and units.
    pub polygon_offset: Option<(u32, u32)>,
    pub unpack_alignment: Option<i32>,
    pub pack_alignment: Option<i32>,
    pub enabled_caps: HashSet<u32>,
    pub disabled_caps: HashSet<u32>,
    pub bound_framebuffer: HashMap<u32, Option<u32>>,
    pub bound_renderbuffer: Option<Option<u32>>,
    pub color_mask: (bool, bool, bool, bool),
    pub enabled_vertex_attribs: HashSet<u32>,
    /// Fingerprint per attribute slot, keyed by [`attrib_key`].
    pub vertex_attrib_pointer_fp: HashMap<u64, VertexAttribPointerFp>,
    pub vertex_attrib_divisor: HashMap<u32, u32>,
    /// Whether draws go to the default framebuffer (the onscreen surface).
    pub draws_to_default_fbo: bool,
    pub scissor: ScissorState,
    /// Last rect given to an explicit `glScissor`, kept across enable and
    /// disable.
    pub last_scissor_rect: Option<(i32, i32, i32, i32)>,
}

/// The shadow knows nothing that a fresh GL context would not: every
/// dedup slot is unknown, the colour mask is all-true, the default
/// framebuffer is bound and the scissor test is off.
pub open spec fn is_fresh(s: &CanvasGLState) -> bool {
    &&& s.current_program is None
    &&& s.uniform_cache@ == Map::<u64, Vec<u8>>::empty()
    &&& s.color_mask == (true, true, true, true)
    &&& s.draws_to_default_fbo
    &&& s.scissor == ScissorState::Disabled
    &&& s.last_scissor_rect is None
    &&& shadow_unknown(s)
}

/// Every dedup slot other than the program, the uniform cache and the
/// colour mask is unknown.
pub open spec fn shadow_unknown(s: &CanvasGLState) -> bool {
    &&& s.viewport is None
    &&& s.bound_texture_2d@ == Map::<u32, Option<u32>>::empty()
    &&& s.bound_array_buffer is None
    &&& s.bound_element_array_buffer is None
    &&& s.bound_vao is None
    &&& s.active_texture_unit is None
    &&& s.blend_factors is None
    &&& s.blend_equation is None
    &&& s.blend_color is None
    &&& s.depth_func is None
    &&& s.depth_mask is None
    &&& s.depth_range is None
    &&& s.stencil_func@ == Map::<u32, (u32, i32, u32)>::empty()
    &&& s.stencil_op@ == Map::<u32, (u32, u32, u32)>::empty()
    &&& s.stencil_mask@ == Map::<u32, u32>::empty()
    &&& s.pixel_store_i32@ == Map::<u32, i32>::empty()
    &&& s.cull_face is None
    &&& s.front_face is None
    &&& s.line_width is None
    &&& s.polygon_offset is None
    &&& s.unpack_alignment is None
    &&& s.pack_alignment is None
    &&& s.enabled_caps@ == Set::<u32>::empty()
    &&& s.disabled_caps@ == Set::<u32>::empty()
    &&& s.bound_framebuffer@ == Map::<u32, Option<u32>>::empty()
    &&& s.bound_renderbuffer is None
    &&& s.enabled_vertex_attribs@ == Set::<u32>::empty()
    &&& s.vertex_attrib_pointer_fp@ == Map::<u64, VertexAttribPointerFp>::empty()
    &&& s.vertex_attrib_divisor@ == Map::<u32, u32>::empty()
}

impl Default for CanvasGLState {
    fn default() -> (s: Self)
        ensures
            is_fresh(&s),
    {
        CanvasGLState {
            current_program: None,
            uniform_cache: HashMap::new(),
            viewport: None,
            bound_texture_2d: HashMap::new(),
            bound_array_buffer: None,
            bound_element_array_buffer: None,
            bound_vao: None,
            active_texture_unit: None,
            blend_factors: None,
            blend_equation: None,
            blend_color: None,
            depth_func: None,
            depth_mask: None,
            depth_range: None,
            stencil_func: HashMap::new(),
            stencil_op: HashMap::new(),
            stencil_mask: HashMap::new(),
            pixel_store_i32: HashMap::new(),
            cull_face: None,
            front_face: None,
            line_width: None,
            polygon_offset: None,
            unpack_alignment: None,
            pack_alignment: None,
            enabled_caps: HashSet::new(),
            disabled_caps: HashSet::new(),
            bound_framebuffer: HashMap::new(),
            bound_renderbuffer: None,
            color_mask: (true, true, true, true),
            enabled_vertex_attribs: HashSet::new(),
            vertex_attrib_pointer_fp: HashMap::new(),
            vertex_attrib_divisor: HashMap::new(),
            draws_to_default_fbo: true,
            scissor: ScissorState::Disabled,
            last_scissor_rect: None,
        }
    }
}

impl CanvasGLState {
    /// Forget what external GL users (a Skia batch sharing the context)
    /// may have changed: every dedup slot that can be unknown becomes
    /// unknown, so the next call of each setter is issued. The uniform
    /// cache stays, since uniforms live on program objects that such users
    /// do not touch; so do the colour mask and the damage-tracking fields,
    /// which have no unknown value.
    pub fn invalidate_after_external_gl_use(&mut self)
        ensures
            shadow_unknown(final(self)),
            final(self).current_program is None,
            final(self).uniform_cache == old(self).uniform_cache,
            final(self).color_mask == old(self).color_mask,
            final(self).draws_to_default_fbo == old(self).draws_to_default_fbo,
            final(self).scissor == old(self).scissor,
            final(self).last_scissor_rect == old(self).last_scissor_rect,
    {
        self.current_program = None;
        self.viewport = None;
        self.bound_texture_2d = HashMap::new();
        self.bound_array_buffer = None;
        self.bound_element_array_buffer = None;
        self.bound_vao = None;
        self.active_texture_unit = None;
        self.blend_factors = None;
        self.blend_equation = None;
        self.blend_color = None;
        self.depth_func = None;
        self.depth_mask = None;
        self.depth_range = None;
        self.stencil_func = HashMap::new();
        self.stencil_op = HashMap::new();
        self.stencil_mask = HashMap::new();
        self.pixel_store_i32 = HashMap::new();
        self.cull_face = None;
        self.front_face = None;
        self.line_width = None;
        self.polygon_offset = None;
        self.unpack_alignment = None;
        self.pack_alignment = None;
        self.enabled_caps = HashSet::new();
        self.disabled_caps = HashSet::new();
        self.bound_framebuffer = HashMap::new();
        self.bound_renderbuffer = None;
        self.enabled_vertex_attribs = HashSet::new();
        self.vertex_attrib_pointer_fp = HashMap::new();
        self.vertex_attrib_divisor = HashMap::new();
    }
}

/// A fresh shadow, as for a newly created context.
pub fn fresh_state() -> (s: CanvasGLState)
    ensures
        is_fresh(&s),
{
    CanvasGLState::default()
}

// ---------------------------------------------------------------------------
// f32 equality on bit patterns
// ---------------------------------------------------------------------------

/// The `f32` with bit pattern `b` is a NaN.
pub open spec fn f32_bits_is_nan(b: u32) -> bool {
    (b & 0x7F80_0000u32) == 0x7F80_0000u32 && (b & 0x007F_FFFFu32) != 0
}

/// The `f32` with bit pattern `b` is `+0.0` or `-0.0`.
pub open spec fn f32_bits_is_zero(b: u32) -> bool {
    (b & 0x7FFF_FFFFu32) == 0
}

/// `==` on the two `f32` with bit patterns `a` and `b`: a NaN equals
/// nothing, the two zeros are equal, any other value equals only itself.
pub open spec fn f32_bits_eq_spec(a: u32, b: u32) -> bool {
    !f32_bits_is_nan(a) && !f32_bits_is_nan(b) && (a == b || (f32_bits_is_zero(a)
        && f32_bits_is_zero(b)))
}

/// `==` on two `f32` given by their bit patterns.
pub fn f32_bits_eq(a: u32, b: u32) -> (r: bool)
    ensures
        r == f32_bits_eq_spec(a, b),
{
    let a_nan = (a & 0x7F80_0000u32) == 0x7F80_0000u32 && (a & 0x007F_FFFFu32) != 0;
    let b_nan = (b & 0x7F80_0000u32) == 0x7F80_0000u32 && (b & 0x007F_FFFFu32) != 0;
    let both_zero = (a & 0x7FFF_FFFFu32) == 0 && (b & 0x7FFF_FFFFu32) == 0;
    !a_nan && !b_nan && (a == b || both_zero)
}

// ---------------------------------------------------------------------------
// Program / uniforms
// ---------------------------------------------------------------------------

/// Key of the uniform at `location` of `program` in the uniform cache.
pub open spec fn uniform_key(program: ProgramId, location: u32) -> u64 {
    (program as int * 0x1_0000_0000 + location as int) as u64
}

/// The program a uniform cache key belongs to.
pub open spec fn key_program(k: u64) -> u32 {
    (k as int / 0x1_0000_0000) as u32
}

/// The entries of `cache` that belong to `program`.
pub open spec fn retain_program(cache: Map<u64, Vec<u8>>, program: ProgramId) -> Map<u64, Vec<u8>> {
    Map::new(|k: u64| cache.contains_key(k) && key_program(k) == program, |k: u64| cache[k])
}

fn uniform_key_of(program: ProgramId, location: u32) -> (k: u64)
    ensures
        k == uniform_key(program, location),
{
    proof {
        assert(program as int * 0x1_0000_0000 <= 0xFFFF_FFFF * 0x1_0000_0000) by (nonlinear_arith)
            requires
                program <= 0xFFFF_FFFF,
        ;
    }
    (program as u64) * 0x1_0000_0000u64 + (location as u64)
}

fn key_program_of(k: u64) -> (p: u32)
    ensures
        p == key_program(k),
{
    (k / 0x1_0000_0000u64) as u32
}

/// Returns `true` when `glUseProgram(new)` has to be issued: the program in
/// use is another one or unknown. Switching keeps only the cached uniforms
/// of `new`.
pub fn update_use_program(state: &mut CanvasGLState, new: ProgramId) -> (issue: bool)
    ensures
        issue == (old(state).current_program != Some(new)),
        !issue ==> *final(state) == *old(state),
        issue ==> final(state).uniform_cache@ == retain_program(old(state).uniform_cache@, new),
        issue ==> (CanvasGLState {
            current_program: Some(new),
            uniform_cache: final(state).uniform_cache,
            ..*old(state)
        }) == *final(state),
{
    if state.current_program == Some(new) {
        return false;
    }
    state.current_program = Some(new);
    let stale = uniform_keys_not_of(&state.uniform_cache, new);
    let ghost c0 = state.uniform_cache@;
    let ghost s1 = *state;
    proof {
        assert(c0.remove_keys(stale@.take(0).to_set()) =~= c0);
    }
    for i in 0..stale.len()
        invariant
            state.uniform_cache@ == c0.remove_keys(stale@.take(i as int).to_set()),
            (CanvasGLState { uniform_cache: state.uniform_cache, ..s1 }) == *state,
    {
        state.uniform_cache.remove(&stale[i]);
        proof {
            let t0 = stale@.take(i as int);
            let t1 = stale@.take(i + 1);
            assert forall|k: u64| t1.to_set().contains(k) <==> (t0.to_set().contains(k) || k
                == stale@[i as int]) by {
                if t1.to_set().contains(k) {
                    let j = choose|j: int| 0 <= j < t1.len() && t1[j] == k;
                    if j < i {
                        assert(t0[j] == k);
                    }
                }
                if t0.to_set().contains(k) {
                    let j = choose|j: int| 0 <= j < t0.len() && t0[j] == k;
                    assert(t1[j] == k);
                }
                if k == stale@[i as int] {
                    assert(t1[i as int] == k);
                }
            }
            assert(state.uniform_cache@ =~= c0.remove_keys(t1.to_set()));
        }
    }
    proof {
        assert(stale@.take(stale@.len() as int) =~= stale@);
        assert(state.uniform_cache@ =~= retain_program(c0, new));
    }
    true
}

/// The keys of `cache` that belong to another program than `p`.
fn uniform_keys_not_of(cache: &HashMap<u64, Vec<u8>>, p: ProgramId) -> (r: Vec<u64>)
    ensures
        r@.to_set() == Set::new(|k: u64| cache@.contains_key(k) && key_program(k) != p),
{
    let mut r: Vec<u64> = Vec::new();
    let ghost m = cache@;
    let ghost mut seen: Seq<u64> = Seq::empty();
    for k in it: cache.keys()
        invariant
            m == cache@,
            it.seq().unref().to_set() == m.dom(),
            seen == it.seq().unref().take(it.index()),
            seen.len() == it.seq().len() ==> seen.to_set() == m.dom(),
            forall|x: u64| #[trigger] r@.contains(x) <==> (seen.contains(x) && key_program(x) != p),
    {
        let ghost prev = r@;
        let ghost seen0 = seen;
        proof {
            assert(it.seq().unref()[it.index() as int] == *k);
            seen = seen.push(*k);
            assert(seen =~= it.seq().unref().take(it.index() + 1));
        }
        let keep = key_program_of(*k) != p;
        if keep {
            r.push(*k);
        }
        proof {
            assert forall|x: u64| #[trigger] r@.contains(x) <==> (seen.contains(x) && key_program(x)
                != p) by {
                if x == *k {
                    assert(seen[seen.len() - 1] == x);
                    if keep {
                        assert(r@[r@.len() - 1] == x);
                    }
                } else {
                    assert(keep ==> r@ == prev.push(*k));
                    assert(!keep ==> r@ == prev);
                    if r@.contains(x) {
                        let j = choose|j: int| 0 <= j < r@.len() && r@[j] == x;
                        assert(j < prev.len());
                        assert(prev[j] == x);
                        assert(prev.contains(x));
                        assert(seen0.contains(x));
                        let i = choose|i: int| 0 <= i < seen0.len() && seen0[i] == x;
                        assert(seen[i] == x);
                    }
                    if seen.contains(x) {
                        let i = choose|i: int| 0 <= i < seen.len() && seen[i] == x;
                        assert(i < seen0.len());
                        assert(seen0[i] == x);
                        if key_program(x) != p {
                            assert(prev.contains(x));
                            let j = choose|j: int| 0 <= j < prev.len() && prev[j] == x;
                            assert(r@[j] == x);
                        }
                    }
                }
            }
            assert(it.seq().unref().take(it.seq().len() as int) =~= it.seq().unref());
        }
    }
    proof {
        assert forall|x: u64| r@.to_set().contains(x) <==> (m.contains_key(x) && key_program(x)
            != p) by {
            assert(seen.to_set().contains(x) <==> m.dom().contains(x));
        }
        assert(r@.to_set() =~= Set::new(|k: u64| m.contains_key(k) && key_program(k) != p));
    }
    r
}


/// Bytewise equality of two slices.
fn bytes_eq(a: &[u8], b: &[u8]) -> (r: bool)
    ensures
        r == (a@ == b@),
{
    if a.len() != b.len() {
        return false;
    }
    let mut i: usize = 0;
    while i < a.len()
        invariant
            a@.len() == b@.len(),
            i <= a@.len(),
            forall|j: int| 0 <= j < i ==> a@[j] == b@[j],
        decreases a@.len() - i,
    {
        if a[i] != b[i] {
            return false;
        }
        i = i + 1;
    }
    proof {
        assert(a@ =~= b@);
    }
    true
}

/// The entry dropped to make room is some other cached uniform.
pub open spec fn evicts_other(before: Map<u64, Vec<u8>>, key: u64, victim: u64) -> bool {
    before.contains_key(victim) && victim != key
}

/// Returns `true` when the upload of `value_bytes` to the uniform at
/// `location` of `program` has to be issued: the cache holds other bytes
/// for it, or none. On `true` the bytes are cached; when the cache is full
/// and the uniform is new to it, some other entry is dropped first.
pub fn update_uniform(
    state: &mut CanvasGLState,
    program: ProgramId,
    location: u32,
    value_bytes: &[u8],
) -> (issue: bool)
    ensures
        ({
            let key = uniform_key(program, location);
            let before = old(state).uniform_cache@;
            let after = final(state).uniform_cache@;
            &&& issue == !(before.contains_key(key) && before[key]@ == value_bytes@)
            &&& !issue ==> *final(state) == *old(state)
            &&& issue ==> after.contains_key(key) && after[key]@ == value_bytes@
            &&& issue ==> forall|k: u64|
                k != key && #[trigger] after.contains_key(k) ==> before.contains_key(k) && after[k]
                    == before[k]
            &&& issue ==> if before.len() >= MAX_UNIFORM_CACHE && !before.contains_key(key) {
                exists|victim: u64|
                    evicts_other(before, key, victim) && #[trigger] after.dom() == before.dom().remove(
                        victim,
                    ).insert(key)
            } else {
                after.dom() == before.dom().insert(key)
            }
            &&& issue ==> (CanvasGLState { uniform_cache: final(state).uniform_cache, ..*old(state) })
                == *final(state)
            &&& before.len() <= MAX_UNIFORM_CACHE ==> after.len() <= MAX_UNIFORM_CACHE
        }),
{
    let key = uniform_key_of(program, location);
    let same = match state.uniform_cache.get(&key) {
        Some(prev) => bytes_eq(prev.as_slice(), value_bytes),
        None => false,
    };
    if same {
        return false;
    }
    let ghost before = state.uniform_cache@;
    let ghost s0 = *state;
    if state.uniform_cache.len() >= MAX_UNIFORM_CACHE && !state.uniform_cache.contains_key(&key) {
        let mut victim: Option<u64> = None;
        let ghost mut seen: Seq<u64> = Seq::empty();
        for k in it: state.uniform_cache.keys()
            invariant
                before == state.uniform_cache@,
                it.seq().unref().to_set() == before.dom(),
                seen == it.seq().unref().take(it.index()),
                seen.len() == it.seq().len() ==> seen.to_set() == before.dom(),
                victim is None <==> seen.len() == 0,
                victim is Some ==> before.dom().contains(victim->0),
        {
            proof {
                assert(it.seq().unref()[it.index() as int] == *k);
                assert(it.seq().unref().contains(*k));
                seen = seen.push(*k);
                assert(seen =~= it.seq().unref().take(it.index() + 1));
                assert(it.seq().unref().take(it.seq().len() as int) =~= it.seq().unref());
            }
            if victim.is_none() {
                victim = Some(*k);
            }
        }
        proof {
            assert(before.dom().len() > 0);
            if seen.len() == 0 {
                assert(seen.to_set() =~= Set::<u64>::empty());
            }
            assert(victim is Some);
        }
        if let Some(v) = victim {
            proof {
                assert(before.dom().contains(v));
            }
            state.uniform_cache.remove(&v);
        }
        proof {
            let v = victim->0;
            assert(evicts_other(before, key, v));
            assert(state.uniform_cache@.dom() =~= before.dom().remove(v));
        }
    }
    let ghost mid = state.uniform_cache@;
    state.uniform_cache.insert(key, vstd::slice::slice_to_vec(value_bytes));
    proof {
        let after = state.uniform_cache@;
        if before.len() >= MAX_UNIFORM_CACHE && !before.contains_key(key) {
            let v = choose|v: u64| evicts_other(before, key, v) && mid.dom() == before.dom().remove(v);
            assert(after.dom() =~= before.dom().remove(v).insert(key));
            assert(before.dom().remove(v).len() == before.len() - 1);
        } else {
            assert(after.dom() =~= before.dom().insert(key));
        }
    }
    true
}

// ---------------------------------------------------------------------------
// Buffers and vertex arrays
// ---------------------------------------------------------------------------

/// Returns `true` when `glBindBuffer(target, new)` has to be issued.
/// `ARRAY_BUFFER` and `ELEMENT_ARRAY_BUFFER` are deduplicated; other
/// targets are not tracked and always issue.
pub fn update_bind_buffer(state: &mut CanvasGLState, target: u32, new: Option<BufferId>) -> (issue:
    bool)
    ensures
        target == GL_ARRAY_BUFFER ==> issue == (old(state).bound_array_buffer != Some(new)) && (
        CanvasGLState { bound_array_buffer: Some(new), ..*old(state) }) == *final(state),
        target == GL_ELEMENT_ARRAY_BUFFER ==> issue == (old(state).bound_element_array_buffer
            != Some(new)) && (CanvasGLState {
            bound_element_array_buffer: Some(new),
            ..*old(state)
        }) == *final(state),
        target != GL_ARRAY_BUFFER && target != GL_ELEMENT_ARRAY_BUFFER ==> issue && *final(state)
            == *old(state),
{
    if target == GL_ARRAY_BUFFER {
        if state.bound_array_buffer == Some(new) {
            return false;
        }
        state.bound_array_buffer = Some(new);
        true
    } else if target == GL_ELEMENT_ARRAY_BUFFER {
        if state.bound_element_array_buffer == Some(new) {
            return false;
        }
        state.bound_element_array_buffer = Some(new);
        true
    } else {
        true
    }
}

/// Returns `true` when `glBindVertexArray(new)` has to be issued (`None`
/// is the default array, 0). A new vertex array forgets both buffer
/// bindings, which it holds itself.
pub fn update_bind_vertex_array(state: &mut CanvasGLState, new: Option<VaoId>) -> (issue: bool)
    ensures
        ({
            let v = match new {
                Some(v) => v,
                None => 0,
            };
            &&& issue == (old(state).bound_vao != Some(v))
            &&& !issue ==> *final(state) == *old(state)
            &&& issue ==> (CanvasGLState {
                bound_vao: Some(v),
                bound_array_buffer: None,
                bound_element_array_buffer: None,
                ..*old(state)
            }) == *final(state)
        }),
{
    let new = match new {
        Some(v) => v,
        None => 0,
    };
    if state.bound_vao == Some(new) {
        return false;
    }
    state.bound_vao = Some(new);
    state.bound_array_buffer = None;
    state.bound_element_array_buffer = None;
    true
}

// ---------------------------------------------------------------------------
// Textures
// ---------------------------------------------------------------------------

/// Returns `true` when `glActiveTexture(unit)` has to be issued.
pub fn update_active_texture(state: &mut CanvasGLState, unit: u32) -> (issue: bool)
    ensures
        issue == (old(state).active_texture_unit != Some(unit)),
        (CanvasGLState { active_texture_unit: Some(unit), ..*old(state) }) == *final(state),
{
    if state.active_texture_unit == Some(unit) {
        return false;
    }
    state.active_texture_unit = Some(unit);
    true
}

/// The texture bound to `unit`, unbound when nothing is known.
pub open spec fn texture_on(state: &CanvasGLState, unit: u32) -> Option<u32> {
    if state.bound_texture_2d@.contains_key(unit) {
        state.bound_texture_2d@[unit]
    } else {
        None
    }
}

/// Returns `true` when `glBindTexture(TEXTURE_2D, tex)` has to be issued,
/// judged against the active texture unit. Without a known active unit
/// nothing can be judged and the call always issues.
pub fn update_bind_texture_2d(state: &mut CanvasGLState, tex: Option<u32>) -> (issue: bool)
    ensures
        match old(state).active_texture_unit {
            None => issue && *final(state) == *old(state),
            Some(unit) => {
                &&& issue == (texture_on(old(state), unit) != tex)
                &&& final(state).bound_texture_2d@ == old(state).bound_texture_2d@.insert(unit, tex)
                &&& (CanvasGLState {
                    bound_texture_2d: final(state).bound_texture_2d,
                    ..*old(state)
                }) == *final(state)
            },
        },
{
    let unit = match state.active_texture_unit {
        Some(u) => u,
        None => {
            return true;
        },
    };
    let current = match state.bound_texture_2d.get(&unit) {
        Some(t) => *t,
        None => None,
    };
    state.bound_texture_2d.insert(unit, tex);
    current != tex
}

// ---------------------------------------------------------------------------
// Viewport
// ---------------------------------------------------------------------------

/// Returns `true` when `glViewport(x, y, width, height)` has to be issued.
pub fn update_viewport(state: &mut CanvasGLState, x: i32, y: i32, width: i32, height: i32) -> (issue:
    bool)
    ensures
        issue == (old(state).viewport != Some((x, y, width, height))),
        (CanvasGLState { viewport: Some((x, y, width, height)), ..*old(state) }) == *final(state),
{
    let same = match state.viewport {
        Some(v) => v.0 == x && v.1 == y && v.2 == width && v.3 == height,
        None => false,
    };
    if same {
        return false;
    }
    state.viewport = Some((x, y, width, height));
    true
}

// ---------------------------------------------------------------------------
// Blend state
// ---------------------------------------------------------------------------

/// Returns `true` when `glBlendFunc(src, dst)` has to be issued; it is
/// `glBlendFuncSeparate(src, dst, src, dst)`.
pub fn update_blend_func(state: &mut CanvasGLState, src: u32, dst: u32) -> (issue: bool)
    ensures
        ({
            let f = BlendFactors { src_rgb: src, dst_rgb: dst, src_alpha: src, dst_alpha: dst };
            &&& issue == (old(state).blend_factors != Some(f))
            &&& (CanvasGLState { blend_factors: Some(f), ..*old(state) }) == *final(state)
        }),
{
    update_blend_func_separate(state, src, dst, src, dst)
}

/// Returns `true` when `glBlendFuncSeparate` with these factors has to be
/// issued.
pub fn update_blend_func_separate(
    state: &mut CanvasGLState,
    src_rgb: u32,
    dst_rgb: u32,
    src_alpha: u32,
    dst_alpha: u32,
) -> (issue: bool)
    ensures
        ({
            let f = BlendFactors { src_rgb, dst_rgb, src_alpha, dst_alpha };
            &&& issue == (old(state).blend_factors != Some(f))
            &&& (CanvasGLState { blend_factors: Some(f), ..*old(state) }) == *final(state)
        }),
{
    let new = BlendFactors { src_rgb, dst_rgb, src_alpha, dst_alpha };
    let same = match state.blend_factors {
        Some(f) => f == new,
        None => false,
    };
    if same {
        return false;
    }
    state.blend_factors = Some(new);
    true
}

/// Returns `true` when `glBlendEquation(mode)` has to be issued; it is
/// `glBlendEquationSeparate(mode, mode)`.
pub fn update_blend_equation(state: &mut CanvasGLState, mode: u32) -> (issue: bool)
    ensures
        ({
            let e = BlendEquation { mode_rgb: mode, mode_alpha: mode };
            &&& issue == (old(state).blend_equation != Some(e))
            &&& (CanvasGLState { blend_equation: Some(e), ..*old(state) }) == *final(state)
        }),
{
    update_blend_equation_separate(state, mode, mode)
}

/// Returns `true` when `glBlendEquationSeparate(mode_rgb, mode_alpha)` has
/// to be issued.
pub fn update_blend_equation_separate(state: &mut CanvasGLState, mode_rgb: u32, mode_alpha: u32) -> (issue:
    bool)
    ensures
        ({
            let e = BlendEquation { mode_rgb, mode_alpha };
            &&& issue == (old(state).blend_equation != Some(e))
            &&& (CanvasGLState { blend_equation: Some(e), ..*old(state) }) == *final(state)
        }),
{
    let new = BlendEquation { mode_rgb, mode_alpha };
    let same = match state.blend_equation {
        Some(e) => e == new,
        None => false,
    };
    if same {
        return false;
    }
    state.blend_equation = Some(new);
    true
}

/// Returns `true` when `glBlendColor` has to be issued; the components are
/// `f32` bit patterns, compared as `f32` values.
pub fn update_blend_color(state: &mut CanvasGLState, r: u32, g: u32, b: u32, a: u32) -> (issue:
    bool)
    ensures
        issue == !(match old(state).blend_color {
            Some(c) => f32_bits_eq_spec(c.0, r) && f32_bits_eq_spec(c.1, g) && f32_bits_eq_spec(
                c.2,
                b,
            ) && f32_bits_eq_spec(c.3, a),
            None => false,
        }),
        !issue ==> *final(state) == *old(state),
        issue ==> (CanvasGLState { blend_color: Some((r, g, b, a)), ..*old(state) })
            == *final(state),
{
    let same = match state.blend_color {
        Some(c) => f32_bits_eq(c.0, r) && f32_bits_eq(c.1, g) && f32_bits_eq(c.2, b)
            && f32_bits_eq(c.3, a),
        None => false,
    };
    if same {
        return false;
    }
    state.blend_color = Some((r, g, b, a));
    true
}

// ---------------------------------------------------------------------------
// Depth / cull / front face / scalars
// ---------------------------------------------------------------------------

/// Returns `true` when `glDepthFunc(func)` has to be issued.
pub fn update_depth_func(state: &mut CanvasGLState, func: u32) -> (issue: bool)
    ensures
        issue == (old(state).depth_func != Some(func)),
        (CanvasGLState { depth_func: Some(func), ..*old(state) }) == *final(state),
{
    if state.depth_func == Some(func) {
        return false;
    }
    state.depth_func = Some(func);
    true
}

/// Returns `true` when `glDepthMask(flag)` has to be issued.
pub fn update_depth_mask(state: &mut CanvasGLState, flag: bool) -> (issue: bool)
    ensures
        issue == (old(state).depth_mask != Some(flag)),
        (CanvasGLState { depth_mask: Some(flag), ..*old(state) }) == *final(state),
{
    if state.depth_mask == Some(flag) {
        return false;
    }
    state.depth_mask = Some(flag);
    true
}

/// Returns `true` when `glDepthRangef(near, far)` has to be issued; the
/// bounds are `f32` bit patterns, compared as `f32` values.
pub fn update_depth_range(state: &mut CanvasGLState, near: u32, far: u32) -> (issue: bool)
    ensures
        issue == !(match old(state).depth_range {
            Some(d) => f32_bits_eq_spec(d.0, near) && f32_bits_eq_spec(d.1, far),
            None => false,
        }),
        !issue ==> *final(state) == *old(state),
        issue ==> (CanvasGLState { depth_range: Some((near, far)), ..*old(state) }) == *final(state),
{
    let same = match state.depth_range {
        Some(d) => f32_bits_eq(d.0, near) && f32_bits_eq(d.1, far),
        None => false,
    };
    if same {
        return false;
    }
    state.depth_range = Some((near, far));
    true
}

/// Returns `true` when `glCullFace(mode)` has to be issued.
pub fn update_cull_face(state: &mut CanvasGLState, mode: u32) -> (issue: bool)
    ensures
        issue == (old(state).cull_face != Some(mode)),
        (CanvasGLState { cull_face: Some(mode), ..*old(state) }) == *final(state),
{
    if state.cull_face == Some(mode) {
        return false;
    }
    state.cull_face = Some(mode);
    true
}

/// Returns `true` when `glFrontFace(mode)` has to be issued.
pub fn update_front_face(state: &mut CanvasGLState, mode: u32) -> (issue: bool)
    ensures
        issue == (old(state).front_face != Some(mode)),
        (CanvasGLState { front_face: Some(mode), ..*old(state) }) == *final(state),
{
    if state.front_face == Some(mode) {
        return false;
    }
    state.front_face = Some(mode);
    true
}

/// Returns `true` when `glLineWidth(width)` has to be issued; the width is
/// an `f32` bit pattern, compared as an `f32` value.
pub fn update_line_width(state: &mut CanvasGLState, width: u32) -> (issue: bool)
    ensures
        issue == !(match old(state).line_width {
            Some(w) => f32_bits_eq_spec(w, width),
            None => false,
        }),
        !issue ==> *final(state) == *old(state),
        issue ==> (CanvasGLState { line_width: Some(width), ..*old(state) }) == *final(state),
{
    let same = match state.line_width {
        Some(w) => f32_bits_eq(w, width),
        None => false,
    };
    if same {
        return false;
    }
    state.line_width = Some(width);
    true
}

/// Returns `true` when `glPolygonOffset(factor, units)` has to be issued;
/// both are `f32` bit patterns, compared as `f32` values.
pub fn update_polygon_offset(state: &mut CanvasGLState, factor: u32, units: u32) -> (issue: bool)
    ensures
        issue == !(match old(state).polygon_offset {
            Some(o) => f32_bits_eq_spec(o.0, factor) && f32_bits_eq_spec(o.1, units),
            None => false,
        }),
        !issue ==> *final(state) == *old(state),
        issue ==> (CanvasGLState { polygon_offset: Some((factor, units)), ..*old(state) })
            == *final(state),
{
    let same = match state.polygon_offset {
        Some(o) => f32_bits_eq(o.0, factor) && f32_bits_eq(o.1, units),
        None => false,
    };
    if same {
        return false;
    }
    state.polygon_offset = Some((factor, units));
    true
}

/// Returns `true` when `glPixelStorei(UNPACK_ALIGNMENT, alignment)` has to
/// be issued.
pub fn update_unpack_alignment(state: &mut CanvasGLState, alignment: i32) -> (issue: bool)
    ensures
        issue == (old(state).unpack_alignment != Some(alignment)),
        (CanvasGLState { unpack_alignment: Some(alignment), ..*old(state) }) == *final(state),
{
    if state.unpack_alignment == Some(alignment) {
        return false;
    }
    state.unpack_alignment = Some(alignment);
    true
}

/// Returns `true` when `glPixelStorei(PACK_ALIGNMENT, alignment)` has to be
/// issued.
pub fn update_pack_alignment(state: &mut CanvasGLState, alignment: i32) -> (issue: bool)
    ensures
        issue == (old(state).pack_alignment != Some(alignment)),
        (CanvasGLState { pack_alignment: Some(alignment), ..*old(state) }) == *final(state),
{
    if state.pack_alignment == Some(alignment) {
        return false;
    }
    state.pack_alignment = Some(alignment);
    true
}

// ---------------------------------------------------------------------------
// Per-face stencil state and pixel-store parameters
// ---------------------------------------------------------------------------

/// `m` holds `v` for `k`.
pub open spec fn holds<T>(m: Map<u32, T>, k: u32, v: T) -> bool {
    m.contains_key(k) && m[k] == v
}

/// Every face that `face` names already holds `v` (`GL_FRONT_AND_BACK`
/// names both faces).
pub open spec fn faces_hold<T>(m: Map<u32, T>, face: u32, v: T) -> bool {
    if face == GL_FRONT_AND_BACK {
        holds(m, GL_FRONT, v) && holds(m, GL_BACK, v)
    } else {
        holds(m, face, v)
    }
}

/// `m` with `v` recorded for every face that `face` names.
pub open spec fn faces_written<T>(m: Map<u32, T>, face: u32, v: T) -> Map<u32, T> {
    if face == GL_FRONT_AND_BACK {
        m.insert(GL_FRONT, v).insert(GL_BACK, v)
    } else {
        m.insert(face, v)
    }
}

fn stencil_func_holds(m: &HashMap<u32, (u32, i32, u32)>, face: u32, fp: (u32, i32, u32)) -> (r:
    bool)
    ensures
        r == holds(m@, face, fp),
{
    match m.get(&face) {
        Some(cur) => cur.0 == fp.0 && cur.1 == fp.1 && cur.2 == fp.2,
        None => false,
    }
}

/// Returns `true` when `glStencilFuncSeparate(face, func, ref_, mask)` has
/// to be issued, judged per face; `GL_FRONT_AND_BACK` is redundant only
/// when both faces already hold the values.
pub fn update_stencil_func(state: &mut CanvasGLState, face: u32, func: u32, ref_: i32, mask: u32) -> (issue:
    bool)
    ensures
        issue == !faces_hold(old(state).stencil_func@, face, (func, ref_, mask)),
        !issue ==> *final(state) == *old(state),
        issue ==> final(state).stencil_func@ == faces_written(
            old(state).stencil_func@,
            face,
            (func, ref_, mask),
        ),
        issue ==> (CanvasGLState { stencil_func: final(state).stencil_func, ..*old(state) })
            == *final(state),
{
    let fp = (func, ref_, mask);
    if face == GL_FRONT_AND_BACK {
        if stencil_func_holds(&state.stencil_func, GL_FRONT, fp) && stencil_func_holds(
            &state.stencil_func,
            GL_BACK,
            fp,
        ) {
            return false;
        }
        state.stencil_func.insert(GL_FRONT, fp);
        state.stencil_func.insert(GL_BACK, fp);
    } else {
        if stencil_func_holds(&state.stencil_func, face, fp) {
            return false;
        }
        state.stencil_func.insert(face, fp);
    }
    true
}

fn stencil_op_holds(m: &HashMap<u32, (u32, u32, u32)>, face: u32, fp: (u32, u32, u32)) -> (r: bool)
    ensures
        r == holds(m@, face, fp),
{
    match m.get(&face) {
        Some(cur) => cur.0 == fp.0 && cur.1 == fp.1 && cur.2 == fp.2,
        None => false,
    }
}

/// Returns `true` when `glStencilOpSeparate(face, sfail, dpfail, dppass)`
/// has to be issued, judged per face as for [`update_stencil_func`].
pub fn update_stencil_op(state: &mut CanvasGLState, face: u32, sfail: u32, dpfail: u32, dppass: u32) -> (issue:
    bool)
    ensures
        issue == !faces_hold(old(state).stencil_op@, face, (sfail, dpfail, dppass)),
        !issue ==> *final(state) == *old(state),
        issue ==> final(state).stencil_op@ == faces_written(
            old(state).stencil_op@,
            face,
            (sfail, dpfail, dppass),
        ),
        issue ==> (CanvasGLState { stencil_op: final(state).stencil_op, ..*old(state) })
            == *final(state),
{
    let fp = (sfail, dpfail, dppass);
    if face == GL_FRONT_AND_BACK {
        if stencil_op_holds(&state.stencil_op, GL_FRONT, fp) && stencil_op_holds(
            &state.stencil_op,
            GL_BACK,
            fp,
        ) {
            return false;
        }
        state.stencil_op.insert(GL_FRONT, fp);
        state.stencil_op.insert(GL_BACK, fp);
    } else {
        if stencil_op_holds(&state.stencil_op, face, fp) {
            return false;
        }
        state.stencil_op.insert(face, fp);
    }
    true
}

fn u32_holds(m: &HashMap<u32, u32>, k: u32, v: u32) -> (r: bool)
    ensures
        r == holds(m@, k, v),
{
    match m.get(&k) {
        Some(cur) => *cur == v,
        None => false,
    }
}

/// Returns `true` when `glStencilMaskSeparate(face, mask)` has to be
/// issued, judged per face as for [`update_stencil_func`].
pub fn update_stencil_mask(state: &mut CanvasGLState, face: u32, mask: u32) -> (issue: bool)
    ensures
        issue == !faces_hold(old(state).stencil_mask@, face, mask),
        !issue ==> *final(state) == *old(state),
        issue ==> final(state).stencil_mask@ == faces_written(old(state).stencil_mask@, face, mask),
        issue ==> (CanvasGLState { stencil_mask: final(state).stencil_mask, ..*old(state) })
            == *final(state),
{
    if face == GL_FRONT_AND_BACK {
        if u32_holds(&state.stencil_mask, GL_FRONT, mask) && u32_holds(
            &state.stencil_mask,
            GL_BACK,
            mask,
        ) {
            return false;
        }
        state.stencil_mask.insert(GL_FRONT, mask);
        state.stencil_mask.insert(GL_BACK, mask);
    } else {
        if u32_holds(&state.stencil_mask, face, mask) {
            return false;
        }
        state.stencil_mask.insert(face, mask);
    }
    true
}

/// Returns `true` when `glPixelStorei(pname, param)` has to be issued,
/// judged per `pname`.
pub fn update_pixel_store_i32(state: &mut CanvasGLState, pname: u32, param: i32) -> (issue: bool)
    ensures
        issue == !holds(old(state).pixel_store_i32@, pname, param),
        !issue ==> *final(state) == *old(state),
        issue ==> final(state).pixel_store_i32@ == old(state).pixel_store_i32@.insert(pname, param),
        issue ==> (CanvasGLState { pixel_store_i32: final(state).pixel_store_i32, ..*old(state) })
            == *final(state),
{
    let same = match state.pixel_store_i32.get(&pname) {
        Some(cur) => *cur == param,
        None => false,
    };
    if same {
        return false;
    }
    state.pixel_store_i32.insert(pname, param);
    true
}

// ---------------------------------------------------------------------------
// Enable / disable
// ---------------------------------------------------------------------------

/// Returns `true` when `glEnable(cap)` has to be issued: `cap` is not known
/// to be enabled.
pub fn update_enable(state: &mut CanvasGLState, cap: u32) -> (issue: bool)
    ensures
        issue == !old(state).enabled_caps@.contains(cap),
        !issue ==> *final(state) == *old(state),
        issue ==> final(state).enabled_caps@ == old(state).enabled_caps@.insert(cap),
        issue ==> final(state).disabled_caps@ == old(state).disabled_caps@.remove(cap),
        issue ==> (CanvasGLState {
            enabled_caps: final(state).enabled_caps,
            disabled_caps: final(state).disabled_caps,
            ..*old(state)
        }) == *final(state),
{
    if state.enabled_caps.contains(&cap) {
        return false;
    }
    state.enabled_caps.insert(cap);
    state.disabled_caps.remove(&cap);
    true
}

/// Returns `true` when `glDisable(cap)` has to be issued: `cap` is not
/// known to be disabled.
pub fn update_disable(state: &mut CanvasGLState, cap: u32) -> (issue: bool)
    ensures
        issue == !old(state).disabled_caps@.contains(cap),
        !issue ==> *final(state) == *old(state),
        issue ==> final(state).disabled_caps@ == old(state).disabled_caps@.insert(cap),
        issue ==> final(state).enabled_caps@ == old(state).enabled_caps@.remove(cap),
        issue ==> (CanvasGLState {
            enabled_caps: final(state).enabled_caps,
            disabled_caps: final(state).disabled_caps,
            ..*old(state)
        }) == *final(state),
{
    if state.disabled_caps.contains(&cap) {
        return false;
    }
    state.disabled_caps.insert(cap);
    state.enabled_caps.remove(&cap);
    true
}

// ---------------------------------------------------------------------------
// Framebuffer / renderbuffer / colour mask
// ---------------------------------------------------------------------------

/// Returns `true` when `glBindFramebuffer(target, fb)` has to be issued,
/// judged per target (`None` is the default framebuffer).
pub fn update_bind_framebuffer(state: &mut CanvasGLState, target: u32, fb: Option<u32>) -> (issue:
    bool)
    ensures
        issue == !holds(old(state).bound_framebuffer@, target, fb),
        !issue ==> *final(state) == *old(state),
        issue ==> final(state).bound_framebuffer@ == old(state).bound_framebuffer@.insert(target, fb),
        issue ==> (CanvasGLState {
            bound_framebuffer: final(state).bound_framebuffer,
            ..*old(state)
        }) == *final(state),
{
    let same = match state.bound_framebuffer.get(&target) {
        Some(shadow) => *shadow == fb,
        None => false,
    };
    if same {
        return false;
    }
    state.bound_framebuffer.insert(target, fb);
    true
}

/// Returns `true` when `glBindRenderbuffer(RENDERBUFFER, rb)` has to be
/// issued.
pub fn update_bind_renderbuffer(state: &mut CanvasGLState, rb: Option<u32>) -> (issue: bool)
    ensures
        issue == (old(state).bound_renderbuffer != Some(rb)),
        (CanvasGLState { bound_renderbuffer: Some(rb), ..*old(state) }) == *final(state),
{
    if state.bound_renderbuffer == Some(rb) {
        return false;
    }
    state.bound_renderbuffer = Some(rb);
    true
}

/// Returns `true` when `glColorMask(r, g, b, a)` has to be issued.
pub fn update_color_mask(state: &mut CanvasGLState, r: bool, g: bool, b: bool, a: bool) -> (issue:
    bool)
    ensures
        issue == (old(state).color_mask != (r, g, b, a)),
        (CanvasGLState { color_mask: (r, g, b, a), ..*old(state) }) == *final(state),
{
    let cur = state.color_mask;
    if cur.0 == r && cur.1 == g && cur.2 == b && cur.3 == a {
        return false;
    }
    state.color_mask = (r, g, b, a);
    true
}

// ---------------------------------------------------------------------------
// Vertex attribute arrays
// ---------------------------------------------------------------------------

/// Returns `true` when `glEnableVertexAttribArray(index)` has to be issued.
pub fn update_enable_vertex_attrib(state: &mut CanvasGLState, index: u32) -> (issue: bool)
    ensures
        issue == !old(state).enabled_vertex_attribs@.contains(index),
        !issue ==> *final(state) == *old(state),
        issue ==> final(state).enabled_vertex_attribs@ == old(state).enabled_vertex_attribs@.insert(
            index,
        ),
        issue ==> (CanvasGLState {
            enabled_vertex_attribs: final(state).enabled_vertex_attribs,
            ..*old(state)
        }) == *final(state),
{
    if state.enabled_vertex_attribs.contains(&index) {
        return false;
    }
    state.enabled_vertex_attribs.insert(index);
    true
}

/// Returns `true` when `glDisableVertexAttribArray(index)` has to be
/// issued: the index is known to be enabled.
pub fn update_disable_vertex_attrib(state: &mut CanvasGLState, index: u32) -> (issue: bool)
    ensures
        issue == old(state).enabled_vertex_attribs@.contains(index),
        !issue ==> *final(state) == *old(state),
        issue ==> final(state).enabled_vertex_attribs@ == old(state).enabled_vertex_attribs@.remove(
            index,
        ),
        issue ==> (CanvasGLState {
            enabled_vertex_attribs: final(state).enabled_vertex_attribs,
            ..*old(state)
        }) == *final(state),
{
    if !state.enabled_vertex_attribs.contains(&index) {
        return false;
    }
    state.enabled_vertex_attribs.remove(&index);
    true
}

/// Key of attribute slot `index` of vertex array `vao`.
pub open spec fn attrib_key(vao: u32, index: u32) -> u64 {
    (vao as int * 0x1_0000_0000 + index as int) as u64
}

fn attrib_key_of(vao: u32, index: u32) -> (k: u64)
    ensures
        k == attrib_key(vao, index),
{
    proof {
        assert(vao as int * 0x1_0000_0000 <= 0xFFFF_FFFF * 0x1_0000_0000) by (nonlinear_arith)
            requires
                vao <= 0xFFFF_FFFF,
        ;
    }
    (vao as u64) * 0x1_0000_0000u64 + (index as u64)
}

/// The vertex array a `glVertexAttribPointer` call applies to (0 when
/// none is known).
pub open spec fn current_vao(state: &CanvasGLState) -> u32 {
    match state.bound_vao {
        Some(v) => v,
        None => 0,
    }
}

/// The `ARRAY_BUFFER` such a call captures, `None` when unbound or unknown.
pub open spec fn current_array_buffer(state: &CanvasGLState) -> Option<u32> {
    match state.bound_array_buffer {
        Some(b) => b,
        None => None,
    }
}

/// What `glVertexAttribPointer` with these arguments captures in `state`.
pub open spec fn attrib_fp(
    state: &CanvasGLState,
    size: i32,
    type_: u32,
    normalized: bool,
    stride: i32,
    offset: i32,
) -> VertexAttribPointerFp {
    VertexAttribPointerFp {
        size,
        type_,
        normalized,
        stride,
        offset,
        vao: current_vao(state),
        array_buffer: current_array_buffer(state),
    }
}

/// Returns `true` when `glVertexAttribPointer(index, ..)` has to be issued:
/// the slot `index` of the bound vertex array holds another fingerprint
/// (arguments, vertex array and `ARRAY_BUFFER`), or none.
pub fn update_vertex_attrib_pointer(
    state: &mut CanvasGLState,
    index: u32,
    size: i32,
    type_: u32,
    normalized: bool,
    stride: i32,
    offset: i32,
) -> (issue: bool)
    ensures
        ({
            let key = attrib_key(current_vao(old(state)), index);
            let fp = attrib_fp(old(state), size, type_, normalized, stride, offset);
            &&& issue == !(old(state).vertex_attrib_pointer_fp@.contains_key(key)
                && old(state).vertex_attrib_pointer_fp@[key] == fp)
            &&& !issue ==> *final(state) == *old(state)
            &&& issue ==> final(state).vertex_attrib_pointer_fp@
                == old(state).vertex_attrib_pointer_fp@.insert(key, fp)
            &&& issue ==> (CanvasGLState {
                vertex_attrib_pointer_fp: final(state).vertex_attrib_pointer_fp,
                ..*old(state)
            }) == *final(state)
        }),
{
    let vao = match state.bound_vao {
        Some(v) => v,
        None => 0,
    };
    let array_buffer = match state.bound_array_buffer {
        Some(b) => b,
        None => None,
    };
    let fp = VertexAttribPointerFp { size, type_, normalized, stride, offset, vao, array_buffer };
    let key = attrib_key_of(vao, index);
    let same = match state.vertex_attrib_pointer_fp.get(&key) {
        Some(cur) => *cur == fp,
        None => false,
    };
    if same {
        return false;
    }
    state.vertex_attrib_pointer_fp.insert(key, fp);
    true
}

/// Returns `true` when `glVertexAttribDivisor(index, divisor)` has to be
/// issued, judged per index.
pub fn update_vertex_attrib_divisor(state: &mut CanvasGLState, index: u32, divisor: u32) -> (issue:
    bool)
    ensures
        issue == !holds(old(state).vertex_attrib_divisor@, index, divisor),
        !issue ==> *final(state) == *old(state),
        issue ==> final(state).vertex_attrib_divisor@ == old(state).vertex_attrib_divisor@.insert(
            index,
            divisor,
        ),
        issue ==> (CanvasGLState {
            vertex_attrib_divisor: final(state).vertex_attrib_divisor,
            ..*old(state)
        }) == *final(state),
{
    if u32_holds(&state.vertex_attrib_divisor, index, divisor) {
        return false;
    }
    state.vertex_attrib_divisor.insert(index, divisor);
    true
}

// ---------------------------------------------------------------------------
// Laws
// ---------------------------------------------------------------------------

/// Distinct `(program, location)` pairs have distinct uniform cache keys,
/// so uniforms of different programs or locations are tracked apart, and
/// every key names its program.
pub proof fn law_uniform_keys_distinct(p1: ProgramId, l1: u32, p2: ProgramId, l2: u32)
    ensures
        uniform_key(p1, l1) == uniform_key(p2, l2) ==> p1 == p2 && l1 == l2,
        key_program(uniform_key(p1, l1)) == p1,
{
    lemma_split_key(p1, l1);
    lemma_split_key(p2, l2);
}

/// Distinct `(vertex array, index)` pairs have distinct attribute slots.
pub proof fn law_attrib_keys_distinct(v1: u32, i1: u32, v2: u32, i2: u32)
    ensures
        attrib_key(v1, i1) == attrib_key(v2, i2) ==> v1 == v2 && i1 == i2,
{
    lemma_split_key(v1, i1);
    lemma_split_key(v2, i2);
}

proof fn lemma_split_key(hi: u32, lo: u32)
    ensures
        (hi as int * 0x1_0000_0000 + lo as int) as u64 as int == hi as int * 0x1_0000_0000
            + lo as int,
        (hi as int * 0x1_0000_0000 + lo as int) / 0x1_0000_0000 == hi as int,
        (hi as int * 0x1_0000_0000 + lo as int) % 0x1_0000_0000 == lo as int,
{
    assert(0 <= hi as int * 0x1_0000_0000 + lo as int <= 0xFFFF_FFFF * 0x1_0000_0000
        + 0xFFFF_FFFF) by (nonlinear_arith)
        requires
            hi <= 0xFFFF_FFFF,
            lo <= 0xFFFF_FFFF,
    ;
    vstd::arithmetic::div_mod::lemma_fundamental_div_mod_converse(
        hi as int * 0x1_0000_0000 + lo as int,
        0x1_0000_0000,
        hi as int,
        lo as int,
    );
}

/// Switching to a program keeps every cached uniform of that program and
/// drops every other one.
pub proof fn law_switch_keeps_only_new_program(cache: Map<u64, Vec<u8>>, p: ProgramId, l: u32, q: ProgramId, m: u32)
    requires
        q != p,
    ensures
        cache.contains_key(uniform_key(p, l)) ==> retain_program(cache, p).contains_key(
            uniform_key(p, l),
        ) && retain_program(cache, p)[uniform_key(p, l)] == cache[uniform_key(p, l)],
        !retain_program(cache, p).contains_key(uniform_key(q, m)),
{
    law_uniform_keys_distinct(p, l, p, l);
    law_uniform_keys_distinct(q, m, q, m);
}

/// A value just recorded for a face makes the same call redundant: after a
/// stencil setter wrote `v` for `face`, the faces it names hold `v`.
pub proof fn law_written_faces_hold<T>(m: Map<u32, T>, face: u32, v: T)
    ensures
        faces_hold(faces_written(m, face, v), face, v),
{
}

/// `GL_FRONT_AND_BACK` writes exactly what a `GL_FRONT` call followed by a
/// `GL_BACK` call writes.
pub proof fn law_front_and_back_is_both_faces<T>(m: Map<u32, T>, v: T)
    ensures
        faces_written(m, GL_FRONT_AND_BACK, v) == faces_written(
            faces_written(m, GL_FRONT, v),
            GL_BACK,
            v,
        ),
{
}

/// No capability is ever tracked as both enabled and disabled:
/// `glEnable` and `glDisable` keep the two sets apart.
pub proof fn law_caps_stay_disjoint(enabled: Set<u32>, disabled: Set<u32>, cap: u32)
    requires
        enabled.disjoint(disabled),
    ensures
        enabled.insert(cap).disjoint(disabled.remove(cap)),
        enabled.remove(cap).disjoint(disabled.insert(cap)),
{
}

/// `f32` equality on bit patterns is symmetric, and every value other
/// than a NaN equals itself.
pub proof fn law_f32_bits_eq(a: u32, b: u32)
    ensures
        f32_bits_eq_spec(a, b) == f32_bits_eq_spec(b, a),
        !f32_bits_is_nan(a) ==> f32_bits_eq_spec(a, a),
        f32_bits_is_nan(a) ==> !f32_bits_eq_spec(a, b),
{
}

} // verus!
