//! Draw batching keys, batching statistics, and the GL state shadow that
//! drops redundant state changes.

use crate::text::{has_substring, str_contains};
use vstd::prelude::*;

verus! {

/// Type of a draw operation.
#[derive(Debug, Clone, Copy, PartialEq, Eq, PartialOrd, Ord, Hash, Structural)]
pub enum DrawType {
    SolidRect,
    TexturedRect,
    Text,
    Path,
}

/// Key for sorting and batching draw operations.
#[derive(Debug, Clone, Copy, PartialEq, Eq, PartialOrd, Ord, Hash, Structural)]
pub struct BatchKey {
    /// Draw type (rect, image, text, path).
    pub draw_type: DrawType,
    /// Texture id (0 for solid colours).
    pub texture_id: u32,
    /// Blend mode.
    pub blend_mode: u8,
}

/// Statistics for batching performance.
#[derive(Debug, Clone, Copy, Default, PartialEq, Eq, Structural)]
pub struct BatchStats {
    /// Total draw operations submitted.
    pub total_ops: u32,
    /// Number of batches after optimization.
    pub batch_count: u32,
    /// Number of draw calls issued.
    pub draw_calls: u32,
    /// Number of state changes.
    pub state_changes: u32,
    /// Texture switches.
    pub texture_switches: u32,
}

impl BatchStats {
    /// Reset every counter to zero.
    pub fn reset(&mut self)
        ensures
            *final(self) == (BatchStats {
                total_ops: 0,
                batch_count: 0,
                draw_calls: 0,
                state_changes: 0,
                texture_switches: 0,
            }),
    {
        *self = BatchStats {
            total_ops: 0,
            batch_count: 0,
            draw_calls: 0,
            state_changes: 0,
            texture_switches: 0,
        };
    }
}

/// Statistics for GL state changes.
#[derive(Debug, Clone, Copy, Default, PartialEq, Eq, Structural)]
pub struct StateChangeStats {
    pub texture_binds: u32,
    pub program_switches: u32,
    pub buffer_binds: u32,
    pub state_changes: u32,
}

impl StateChangeStats {
    /// Reset every counter to zero.
    pub fn reset(&mut self)
        ensures
            *final(self) == (StateChangeStats {
                texture_binds: 0,
                program_switches: 0,
                buffer_binds: 0,
                state_changes: 0,
            }),
    {
        *self = StateChangeStats {
            texture_binds: 0,
            program_switches: 0,
            buffer_binds: 0,
            state_changes: 0,
        };
    }
}

/// `GL_ONE`
pub const GL_ONE: u32 = 1;

/// `GL_ZERO`
pub const GL_ZERO: u32 = 0;

/// `GL_SRC_ALPHA`
pub const GL_SRC_ALPHA: u32 = 0x0302;

/// `GL_ONE_MINUS_SRC_ALPHA`
pub const GL_ONE_MINUS_SRC_ALPHA: u32 = 0x0303;

/// The GL calls a scissor request needs.
#[derive(Debug, Clone, Copy, PartialEq, Eq, Structural)]
pub struct ScissorCalls {
    /// `glEnable(GL_SCISSOR_TEST)`.
    pub enable: bool,
    /// `glScissor(x, y, w, h)` with the requested rectangle.
    pub set_rect: bool,
    /// `glDisable(GL_SCISSOR_TEST)`.
    pub disable: bool,
}

/// Shadow of the GL state last sent to the driver.  Each setter records the
/// requested value and returns whether the GL call must actually be issued
/// (the value differs from the shadow).
#[derive(Debug, Clone, Copy)]
pub struct GLState {
    bound_texture: Option<u32>,
    bound_program: Option<u32>,
    bound_vbo: Option<u32>,
    bound_ibo: Option<u32>,
    bound_vao: Option<u32>,
    viewport: (i32, i32, i32, i32),
    scissor: Option<(i32, i32, i32, i32)>,
    scissor_enabled: bool,
    blend_enabled: bool,
    blend_func: (u32, u32),
    depth_test_enabled: bool,
}

/// The values a `GLState` shadows.
#[derive(Debug, Clone, Copy, PartialEq, Eq)]
pub struct GLStateView {
    pub bound_texture: Option<u32>,
    pub bound_program: Option<u32>,
    pub bound_vbo: Option<u32>,
    pub bound_ibo: Option<u32>,
    pub bound_vao: Option<u32>,
    pub viewport: (i32, i32, i32, i32),
    pub scissor: Option<(i32, i32, i32, i32)>,
    pub scissor_enabled: bool,
    pub blend_enabled: bool,
    pub blend_func: (u32, u32),
    pub depth_test_enabled: bool,
}

impl View for GLState {
    type V = GLStateView;

    closed spec fn view(&self) -> GLStateView {
        GLStateView {
            bound_texture: self.bound_texture,
            bound_program: self.bound_program,
            bound_vbo: self.bound_vbo,
            bound_ibo: self.bound_ibo,
            bound_vao: self.bound_vao,
            viewport: self.viewport,
            scissor: self.scissor,
            scissor_enabled: self.scissor_enabled,
            blend_enabled: self.blend_enabled,
            blend_func: self.blend_func,
            depth_test_enabled: self.depth_test_enabled,
        }
    }
}

/// The shadow of a fresh context.
pub open spec fn fresh_gl_state() -> GLStateView {
    GLStateView {
        bound_texture: None,
        bound_program: None,
        bound_vbo: None,
        bound_ibo: None,
        bound_vao: None,
        viewport: (0, 0, 0, 0),
        scissor: None,
        scissor_enabled: false,
        blend_enabled: false,
        blend_func: (GL_ONE, GL_ZERO),
        depth_test_enabled: false,
    }
}

impl GLState {
    pub fn new() -> (s: Self)
        ensures
            s@ == fresh_gl_state(),
    {
        GLState {
            bound_texture: None,
            bound_program: None,
            bound_vbo: None,
            bound_ibo: None,
            bound_vao: None,
            viewport: (0, 0, 0, 0),
            scissor: None,
            scissor_enabled: false,
            blend_enabled: false,
            blend_func: (GL_ONE, GL_ZERO),
            depth_test_enabled: false,
        }
    }

    /// Bind `texture` to unit 0; the call is needed when it differs.
    pub fn bind_texture(&mut self, texture: Option<u32>) -> (issue: bool)
        ensures
            issue == (old(self)@.bound_texture != texture),
            final(self)@ == (GLStateView { bound_texture: texture, ..old(self)@ }),
    {
        let issue = self.bound_texture != texture;
        self.bound_texture = texture;
        issue
    }

    /// Use `program`; the call is needed when it differs.
    pub fn use_program(&mut self, program: Option<u32>) -> (issue: bool)
        ensures
            issue == (old(self)@.bound_program != program),
            final(self)@ == (GLStateView { bound_program: program, ..old(self)@ }),
    {
        let issue = self.bound_program != program;
        self.bound_program = program;
        issue
    }

    /// Bind the vertex buffer; the call is needed when it differs.
    pub fn bind_array_buffer(&mut self, buffer: Option<u32>) -> (issue: bool)
        ensures
            issue == (old(self)@.bound_vbo != buffer),
            final(self)@ == (GLStateView { bound_vbo: buffer, ..old(self)@ }),
    {
        let issue = self.bound_vbo != buffer;
        self.bound_vbo = buffer;
        issue
    }

    /// Bind the index buffer; the call is needed when it differs.
    pub fn bind_element_buffer(&mut self, buffer: Option<u32>) -> (issue: bool)
        ensures
            issue == (old(self)@.bound_ibo != buffer),
            final(self)@ == (GLStateView { bound_ibo: buffer, ..old(self)@ }),
    {
        let issue = self.bound_ibo != buffer;
        self.bound_ibo = buffer;
        issue
    }

    /// Bind the vertex array; the call is needed when it differs.
    pub fn bind_vertex_array(&mut self, vao: Option<u32>) -> (issue: bool)
        ensures
            issue == (old(self)@.bound_vao != vao),
            final(self)@ == (GLStateView { bound_vao: vao, ..old(self)@ }),
    {
        let issue = self.bound_vao != vao;
        self.bound_vao = vao;
        issue
    }

    /// Set the viewport; the call is needed when it differs.
    pub fn set_viewport(&mut self, x: i32, y: i32, w: i32, h: i32) -> (issue: bool)
        ensures
            issue == (old(self)@.viewport != (x, y, w, h)),
            final(self)@ == (GLStateView { viewport: (x, y, w, h), ..old(self)@ }),
    {
        let (vx, vy, vw, vh) = self.viewport;
        let issue = !(vx == x && vy == y && vw == w && vh == h);
        self.viewport = (x, y, w, h);
        issue
    }

    /// Set or clear the scissor rectangle.  A rectangle turns the scissor
    /// test on (if off) and sets the rectangle (if it changed); `None`
    /// turns the test off (if on) and forgets the rectangle.
    pub fn set_scissor(&mut self, scissor: Option<(i32, i32, i32, i32)>) -> (calls: ScissorCalls)
        ensures
            scissor is Some ==> {
                &&& calls == (ScissorCalls {
                    enable: !old(self)@.scissor_enabled,
                    set_rect: old(self)@.scissor != scissor,
                    disable: false,
                })
                &&& final(self)@ == (GLStateView {
                    scissor_enabled: true,
                    scissor: scissor,
                    ..old(self)@
                })
            },
            scissor is None ==> {
                &&& calls == (ScissorCalls {
                    enable: false,
                    set_rect: false,
                    disable: old(self)@.scissor_enabled,
                })
                &&& final(self)@ == (if old(self)@.scissor_enabled {
                    GLStateView { scissor_enabled: false, scissor: None, ..old(self)@ }
                } else {
                    old(self)@
                })
            },
    {
        match scissor {
            Some(rect) => {
                let enable = !self.scissor_enabled;
                self.scissor_enabled = true;
                let set_rect = match self.scissor {
                    Some(cur) => !(cur.0 == rect.0 && cur.1 == rect.1 && cur.2 == rect.2 && cur.3
                        == rect.3),
                    None => true,
                };
                self.scissor = scissor;
                ScissorCalls { enable, set_rect, disable: false }
            },
            None => {
                let disable = self.scissor_enabled;
                if self.scissor_enabled {
                    self.scissor_enabled = false;
                    self.scissor = None;
                }
                ScissorCalls { enable: false, set_rect: false, disable }
            },
        }
    }

    /// Turn blending on or off; the call is needed when it differs.
    pub fn set_blend_enabled(&mut self, enabled: bool) -> (issue: bool)
        ensures
            issue == (old(self)@.blend_enabled != enabled),
            final(self)@ == (GLStateView { blend_enabled: enabled, ..old(self)@ }),
    {
        let issue = self.blend_enabled != enabled;
        self.blend_enabled = enabled;
        issue
    }

    /// Set the blend function; the call is needed when it differs.
    pub fn set_blend_func(&mut self, src: u32, dst: u32) -> (issue: bool)
        ensures
            issue == (old(self)@.blend_func != (src, dst)),
            final(self)@ == (GLStateView { blend_func: (src, dst), ..old(self)@ }),
    {
        let issue = !(self.blend_func.0 == src && self.blend_func.1 == dst);
        self.blend_func = (src, dst);
        issue
    }

    /// Standard alpha blending: blending on with `(SRC_ALPHA,
    /// ONE_MINUS_SRC_ALPHA)`.  Returns whether the enable and the blend
    /// function calls are needed.
    pub fn set_alpha_blend(&mut self) -> (issue: (bool, bool))
        ensures
            issue == (
                !old(self)@.blend_enabled,
                old(self)@.blend_func != (GL_SRC_ALPHA, GL_ONE_MINUS_SRC_ALPHA),
            ),
            final(self)@ == (GLStateView {
                blend_enabled: true,
                blend_func: (GL_SRC_ALPHA, GL_ONE_MINUS_SRC_ALPHA),
                ..old(self)@
            }),
    {
        let a = self.set_blend_enabled(true);
        let b = self.set_blend_func(GL_SRC_ALPHA, GL_ONE_MINUS_SRC_ALPHA);
        (a, b)
    }

    /// Turn the depth test on or off; the call is needed when it differs.
    pub fn set_depth_test_enabled(&mut self, enabled: bool) -> (issue: bool)
        ensures
            issue == (old(self)@.depth_test_enabled != enabled),
            final(self)@ == (GLStateView { depth_test_enabled: enabled, ..old(self)@ }),
    {
        let issue = self.depth_test_enabled != enabled;
        self.depth_test_enabled = enabled;
        issue
    }

    /// Forget every tracked value (after a context loss).
    pub fn invalidate(&mut self)
        ensures
            final(self)@ == fresh_gl_state(),
    {
        *self = GLState::new();
    }

    /// Texture bound to unit 0.
    pub fn current_texture(&self) -> (t: Option<u32>)
        ensures
            t == self@.bound_texture,
    {
        self.bound_texture
    }

    /// Current viewport.
    pub fn current_viewport(&self) -> (v: (i32, i32, i32, i32))
        ensures
            v == self@.viewport,
    {
        self.viewport
    }
}

impl Default for GLState {
    /// Every field at its zero value (no bindings, zero viewport, blend
    /// function `(0, 0)`).
    fn default() -> (s: Self)
        ensures
            s@ == (GLStateView { blend_func: (0u32, 0u32), ..fresh_gl_state() }),
    {
        GLState {
            bound_texture: None,
            bound_program: None,
            bound_vbo: None,
            bound_ibo: None,
            bound_vao: None,
            viewport: (0, 0, 0, 0),
            scissor: None,
            scissor_enabled: false,
            blend_enabled: false,
            blend_func: (0, 0),
            depth_test_enabled: false,
        }
    }
}

/// GPU Canvas2D rendering tier.
#[derive(Debug, Clone, Copy, PartialEq, Eq, Structural)]
pub enum GpuCanvas2DTier {
    /// No compute shader support (GLES 2.0 / 3.0).
    Unsupported,
    /// GLES 3.1+ with compute shaders.
    Compute,
    /// GLES 3.1+ with compute shaders and storage buffers.
    ComputeWithSsbo,
}

/// Whether a `GL_VERSION` string names a context with compute shaders:
/// OpenGL ES 3.1, 3.2, or a version containing `4.`.
pub fn compute_capable_version(version: &str) -> (b: bool)
    ensures
        b == (has_substring(version@, "OpenGL ES 3.1"@) || has_substring(
            version@,
            "OpenGL ES 3.2"@,
        ) || has_substring(version@, "4."@)),
{
    str_contains(version, "OpenGL ES 3.1") || str_contains(version, "OpenGL ES 3.2")
        || str_contains(version, "4.")
}

impl GpuCanvas2DTier {
    /// The tier of a compute-capable context from its limits: no compute
    /// work groups means unsupported; four or more storage-buffer bindings
    /// give the storage-buffer path.
    pub fn from_limits(max_compute_work_group: i32, max_ssbo: i32) -> (t: Self)
        ensures
            t == (if max_compute_work_group <= 0 {
                GpuCanvas2DTier::Unsupported
            } else if max_ssbo >= 4 {
                GpuCanvas2DTier::ComputeWithSsbo
            } else {
                GpuCanvas2DTier::Compute
            }),
    {
        if max_compute_work_group <= 0 {
            return GpuCanvas2DTier::Unsupported;
        }
        if max_ssbo >= 4 {
            GpuCanvas2DTier::ComputeWithSsbo
        } else {
            GpuCanvas2DTier::Compute
        }
    }
}

} // verus!
