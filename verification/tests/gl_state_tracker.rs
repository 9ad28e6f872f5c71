use migo_graphics::state_tracker::{
    fresh_state, update_active_texture, update_bind_buffer, update_bind_framebuffer,
    update_bind_renderbuffer, update_bind_texture_2d, update_bind_vertex_array,
    update_blend_color, update_blend_equation, update_blend_func, update_blend_func_separate,
    update_color_mask, update_cull_face, update_depth_func, update_depth_mask,
    update_depth_range, update_disable, update_disable_vertex_attrib, update_enable,
    update_enable_vertex_attrib, update_front_face, update_line_width, update_pack_alignment,
    update_pixel_store_i32, update_polygon_offset, update_stencil_func, update_stencil_mask,
    update_stencil_op, update_uniform, update_unpack_alignment, update_use_program,
    update_vertex_attrib_divisor, update_vertex_attrib_pointer, update_viewport, f32_bits_eq, CanvasGLState,
    ProgramId, ScissorState, MAX_UNIFORM_CACHE,
};

// ---------------------------------------------------------------------
// Program dedup
// ---------------------------------------------------------------------
#[test]
fn use_program_first_call_issues() {
    let mut s = fresh_state();
    assert!(update_use_program(&mut s, 7));
}

#[test]
fn use_program_same_id_deduped() {
    let mut s = fresh_state();
    assert!(update_use_program(&mut s, 7));
    assert!(!update_use_program(&mut s, 7));
    assert!(!update_use_program(&mut s, 7));
}

#[test]
fn use_program_different_id_reissues() {
    let mut s = fresh_state();
    assert!(update_use_program(&mut s, 1));
    assert!(update_use_program(&mut s, 2));
    assert!(!update_use_program(&mut s, 2));
    assert!(update_use_program(&mut s, 1));
}

#[test]
fn use_program_flushes_other_programs_uniforms() {
    // Only entries for the new program should survive.
    let mut s = fresh_state();
    update_use_program(&mut s, 1);
    update_uniform(&mut s, 1, 10, &[1u8, 2, 3]);
    update_uniform(&mut s, 1, 20, &[4u8, 5]);
    update_use_program(&mut s, 2);
    update_uniform(&mut s, 2, 10, &[7u8]);
    // Switch back to 1; its uniform cache is now gone.
    update_use_program(&mut s, 1);
    // (1, 10) is gone ⇒ next upload must re-issue.
    assert!(update_uniform(&mut s, 1, 10, &[1u8, 2, 3]));
}

// ---------------------------------------------------------------------
// Uniform dedup
// ---------------------------------------------------------------------
#[test]
fn uniform_identical_bytes_dedup() {
    let mut s = fresh_state();
    let data = [0u8, 1, 2, 3];
    assert!(update_uniform(&mut s, 1, 5, &data));
    assert!(!update_uniform(&mut s, 1, 5, &data));
}

#[test]
fn uniform_different_bytes_reissue() {
    let mut s = fresh_state();
    assert!(update_uniform(&mut s, 1, 5, &[1u8, 2]));
    assert!(update_uniform(&mut s, 1, 5, &[1u8, 3]));
}

#[test]
fn uniform_different_locations_tracked_independently() {
    let mut s = fresh_state();
    assert!(update_uniform(&mut s, 1, 5, &[1u8]));
    assert!(update_uniform(&mut s, 1, 6, &[1u8]));
    assert!(!update_uniform(&mut s, 1, 5, &[1u8]));
    assert!(!update_uniform(&mut s, 1, 6, &[1u8]));
}

#[test]
fn uniform_different_programs_tracked_independently() {
    let mut s = fresh_state();
    assert!(update_uniform(&mut s, 1, 5, &[9u8]));
    assert!(update_uniform(&mut s, 2, 5, &[9u8]));
    assert!(!update_uniform(&mut s, 1, 5, &[9u8]));
}

#[test]
fn uniform_cache_bounded_by_max_entries() {
    let mut s = fresh_state();
    for i in 0..(MAX_UNIFORM_CACHE * 2) {
        update_uniform(&mut s, 1, i as u32, &[0u8]);
    }
    assert!(s.uniform_cache.len() <= MAX_UNIFORM_CACHE);
}

// ---------------------------------------------------------------------
// Buffers
// ---------------------------------------------------------------------
#[test]
fn bind_buffer_array_dedup() {
    let mut s = fresh_state();
    assert!(update_bind_buffer(&mut s, 0x8892, Some(1)));
    assert!(!update_bind_buffer(&mut s, 0x8892, Some(1)));
    assert!(update_bind_buffer(&mut s, 0x8892, Some(2)));
}

#[test]
fn bind_buffer_unbind_tracked() {
    let mut s = fresh_state();
    update_bind_buffer(&mut s, 0x8892, Some(1));
    assert!(update_bind_buffer(&mut s, 0x8892, None));
    assert!(!update_bind_buffer(&mut s, 0x8892, None));
}

#[test]
fn bind_buffer_other_targets_not_deduped() {
    // UNIFORM_BUFFER (0x8A11) not tracked yet → always issue.
    let mut s = fresh_state();
    assert!(update_bind_buffer(&mut s, 0x8A11, Some(1)));
    assert!(update_bind_buffer(&mut s, 0x8A11, Some(1)));
}

#[test]
fn bind_vertex_array_forgets_buffer_bindings() {
    let mut s = fresh_state();
    update_bind_buffer(&mut s, 0x8892, Some(1));
    assert!(update_bind_vertex_array(&mut s, Some(5)));
    // After VAO change, ARRAY_BUFFER is unknown; next bind must issue.
    assert!(update_bind_buffer(&mut s, 0x8892, Some(1)));
}

// ---------------------------------------------------------------------
// Textures
// ---------------------------------------------------------------------
#[test]
fn active_texture_dedup() {
    let mut s = fresh_state();
    assert!(update_active_texture(&mut s, 0x84C0));
    assert!(!update_active_texture(&mut s, 0x84C0));
}

#[test]
fn bind_texture_scoped_to_active_unit() {
    let mut s = fresh_state();
    update_active_texture(&mut s, 0x84C0);
    assert!(update_bind_texture_2d(&mut s, Some(1)));
    assert!(!update_bind_texture_2d(&mut s, Some(1)));
    // Switch unit; now binding 1 on a different unit must still issue.
    update_active_texture(&mut s, 0x84C1);
    assert!(update_bind_texture_2d(&mut s, Some(1)));
}

#[test]
fn bind_texture_without_active_unit_pessimistic() {
    // If we never tracked an active unit, we can't safely dedup.
    let mut s = fresh_state();
    assert!(update_bind_texture_2d(&mut s, Some(1)));
    assert!(update_bind_texture_2d(&mut s, Some(1)));
}

// ---------------------------------------------------------------------
// Blend / depth / cull / …
// ---------------------------------------------------------------------
#[test]
fn blend_func_dedup() {
    let mut s = fresh_state();
    assert!(update_blend_func(&mut s, 1, 2));
    assert!(!update_blend_func(&mut s, 1, 2));
    assert!(update_blend_func(&mut s, 1, 3));
}

#[test]
fn blend_func_separate_differs_from_plain_blend_func() {
    let mut s = fresh_state();
    update_blend_func(&mut s, 1, 2);
    // separate(1,2,1,2) matches plain blend_func; separate(1,2,3,4) doesn't.
    assert!(!update_blend_func_separate(&mut s, 1, 2, 1, 2));
    assert!(update_blend_func_separate(&mut s, 1, 2, 3, 4));
}

#[test]
fn blend_equation_dedup() {
    let mut s = fresh_state();
    assert!(update_blend_equation(&mut s, 0x8006));
    assert!(!update_blend_equation(&mut s, 0x8006));
}

#[test]
fn depth_func_dedup() {
    let mut s = fresh_state();
    assert!(update_depth_func(&mut s, 0x0203));
    assert!(!update_depth_func(&mut s, 0x0203));
    assert!(update_depth_func(&mut s, 0x0201));
}

#[test]
fn depth_mask_boolean_round_trip() {
    let mut s = fresh_state();
    assert!(update_depth_mask(&mut s, true));
    assert!(!update_depth_mask(&mut s, true));
    assert!(update_depth_mask(&mut s, false));
}

#[test]
fn cull_and_front_face_tracked_separately() {
    let mut s = fresh_state();
    assert!(update_cull_face(&mut s, 0x0405));
    assert!(!update_cull_face(&mut s, 0x0405));
    // front_face change must not affect cull_face cache.
    assert!(update_front_face(&mut s, 0x0900));
    assert!(!update_cull_face(&mut s, 0x0405));
}

// ---------------------------------------------------------------------
// Enable / disable
// ---------------------------------------------------------------------
#[test]
fn enable_then_enable_deduped() {
    let mut s = fresh_state();
    assert!(update_enable(&mut s, 0x0B71));
    assert!(!update_enable(&mut s, 0x0B71));
}

#[test]
fn disable_after_enable_emits_once() {
    let mut s = fresh_state();
    update_enable(&mut s, 0x0B71);
    assert!(update_disable(&mut s, 0x0B71));
    assert!(!update_disable(&mut s, 0x0B71));
}

#[test]
fn re_enable_after_disable_emits() {
    let mut s = fresh_state();
    update_enable(&mut s, 0x0B71);
    update_disable(&mut s, 0x0B71);
    assert!(update_enable(&mut s, 0x0B71));
}

// ---------------------------------------------------------------------
// Cocos-shaped workload: simulate N draw calls that only differ in one
// uniform, asserting the dedup ratio is >= 90%.
// ---------------------------------------------------------------------
#[test]
fn cocos_like_workload_deduplicates_most_calls() {
    let mut s = fresh_state();
    let mut issued = 0u32;

    // Typical Cocos 2.x inner loop over 100 sprites sharing one program:
    //   useProgram, bindBuffer(VBO), bindBuffer(EBO),
    //   bindTexture, activeTexture, uniform4f(u_color), drawElements.
    for i in 0..100 {
        if update_use_program(&mut s, 1) {
            issued += 1;
        }
        if update_bind_buffer(&mut s, 0x8892, Some(10)) {
            issued += 1;
        }
        if update_bind_buffer(&mut s, 0x8893, Some(11)) {
            issued += 1;
        }
        if update_active_texture(&mut s, 0x84C0) {
            issued += 1;
        }
        if update_bind_texture_2d(&mut s, Some(42)) {
            issued += 1;
        }
        // One uniform changes per iteration (e.g. the sprite's tint).
        let tint = [i as u8, 0, 0, 255];
        if update_uniform(&mut s, 1, 5, &tint) {
            issued += 1;
        }
    }

    // Of 600 possible redundant calls, only the very first iteration's
    // five state-setup calls are "real", plus 100 uniform uploads → 105.
    assert_eq!(
        issued, 105,
        "expected 105 real GL calls for the 600 logical calls, \
         got {issued} (dedup is broken)"
    );
}

// ---------------------------------------------------------------------
// Sanity: fresh_state's extended dedup fields are all "unknown", so
// every first setter call goes through.
// ---------------------------------------------------------------------
#[test]
fn fresh_state_emits_first_call_for_every_setter() {
    let mut s = fresh_state();
    assert!(update_blend_func(&mut s, 1, 2));
    assert!(update_blend_equation(&mut s, 0x8006));
    assert!(update_blend_color(&mut s, 0.5f32.to_bits(), 0.5f32.to_bits(), 0.5f32.to_bits(), 1.0f32.to_bits()));
    assert!(update_depth_func(&mut s, 0x0203));
    assert!(update_depth_mask(&mut s, true));
    assert!(update_depth_range(&mut s, 0.0f32.to_bits(), 1.0f32.to_bits()));
    assert!(update_cull_face(&mut s, 0x0405));
    assert!(update_front_face(&mut s, 0x0900));
    assert!(update_line_width(&mut s, 1.0f32.to_bits()));
    assert!(update_polygon_offset(&mut s, 0.0f32.to_bits(), 0.0f32.to_bits()));
    assert!(update_unpack_alignment(&mut s, 4));
    assert!(update_pack_alignment(&mut s, 4));
}

// ---------------------------------------------------------------------
// Per-target framebuffer / renderbuffer, vertex-attribute
// enable/pointer/divisor, and color mask.
// ---------------------------------------------------------------------

#[test]
fn bind_framebuffer_first_call_issues_then_deduped() {
    let mut s = fresh_state();
    assert!(update_bind_framebuffer(&mut s, glow::FRAMEBUFFER, Some(7)));
    assert!(!update_bind_framebuffer(&mut s, glow::FRAMEBUFFER, Some(7)));
    // Different target is tracked independently — WebGL 2
    // separates DRAW / READ framebuffers, so this MUST reissue.
    assert!(update_bind_framebuffer(&mut s, glow::DRAW_FRAMEBUFFER, Some(7)));
    // Rebinding default FBO (0 / None) is a real call after a
    // named FBO was bound.
    assert!(update_bind_framebuffer(&mut s, glow::FRAMEBUFFER, None));
}

#[test]
fn bind_renderbuffer_dedups_repeated_binds() {
    let mut s = fresh_state();
    assert!(update_bind_renderbuffer(&mut s, Some(3)));
    assert!(!update_bind_renderbuffer(&mut s, Some(3)));
    assert!(update_bind_renderbuffer(&mut s, Some(4)));
    assert!(update_bind_renderbuffer(&mut s, None));
}

#[test]
fn color_mask_dedups_identical_tuples() {
    let mut s = fresh_state();
    // Initial state is (true,true,true,true); an identical call
    // must dedup on first touch.
    assert!(!update_color_mask(&mut s, true, true, true, true));
    assert!(update_color_mask(&mut s, false, false, false, false));
    assert!(!update_color_mask(&mut s, false, false, false, false));
}

#[test]
fn enable_and_disable_vertex_attrib_are_idempotent() {
    let mut s = fresh_state();
    assert!(update_enable_vertex_attrib(&mut s, 0));
    assert!(!update_enable_vertex_attrib(&mut s, 0));
    assert!(update_disable_vertex_attrib(&mut s, 0));
    assert!(!update_disable_vertex_attrib(&mut s, 0));
    // Different index.
    assert!(update_enable_vertex_attrib(&mut s, 1));
    assert!(!update_enable_vertex_attrib(&mut s, 1));
}

#[test]
fn vertex_attrib_pointer_dedups_identical_layout() {
    let mut s = fresh_state();
    // First call always issues.
    assert!(update_vertex_attrib_pointer(&mut s, 0, 4, glow::FLOAT, false, 32, 0));
    // Identical repeat — deduped.
    assert!(!update_vertex_attrib_pointer(&mut s, 0, 4, glow::FLOAT, false, 32, 0));
    // Different offset → re-issue.
    assert!(update_vertex_attrib_pointer(&mut s, 0, 4, glow::FLOAT, false, 32, 16));
    // Different index → re-issue (tracked per-index).
    assert!(update_vertex_attrib_pointer(&mut s, 1, 4, glow::FLOAT, false, 32, 0));
}

#[test]
fn vertex_attrib_pointer_reissues_after_vao_change() {
    // VAO capture semantics: the same (index, layout) after a
    // `bindVertexArray(2)` MUST hit the driver, even though the
    // layout tuple matches what was set for VAO 0.  If we ever
    // forget the VAO key, sprite batches switching VAOs silently
    // lose their vertex layout.
    let mut s = fresh_state();
    // Bind an ARRAY_BUFFER so the fingerprint has a concrete
    // buffer component — otherwise the two calls below also
    // differ in `array_buffer`, which would hide the VAO bug
    // behind the new buffer fingerprint.
    s.bound_array_buffer = Some(Some(99));
    assert!(update_vertex_attrib_pointer(&mut s, 0, 4, glow::FLOAT, false, 32, 0));
    s.bound_vao = Some(2);
    assert!(update_vertex_attrib_pointer(&mut s, 0, 4, glow::FLOAT, false, 32, 0));
    assert!(!update_vertex_attrib_pointer(&mut s, 0, 4, glow::FLOAT, false, 32, 0));
}

// ---- ARRAY_BUFFER fingerprint -----------------
//
// WebGL spec: `vertexAttribPointer` captures the currently-bound
// `ARRAY_BUFFER`.  Two calls with identical (size, type, stride,
// offset) but different bound buffers must both reach the driver
// — otherwise the next draw reads from the wrong vertex stream
// and the game paints corrupted geometry.
//
// These tests pin the fingerprint down so nobody accidentally
// drops `array_buffer` again.

#[test]
fn vertex_attrib_pointer_reissues_when_array_buffer_changes() {
    let mut s = fresh_state();
    // Establish baseline with buffer A.
    s.bound_array_buffer = Some(Some(42));
    assert!(update_vertex_attrib_pointer(&mut s, 0, 4, glow::FLOAT, false, 32, 0));
    // Switch ARRAY_BUFFER to buffer B — same layout args, but
    // a different buffer must force the driver call.
    s.bound_array_buffer = Some(Some(43));
    assert!(
        update_vertex_attrib_pointer(&mut s, 0, 4, glow::FLOAT, false, 32, 0),
        "switching ARRAY_BUFFER with identical pointer args MUST re-issue"
    );
    // Same buffer, same args — NOW the dedup should fire.
    assert!(!update_vertex_attrib_pointer(&mut s, 0, 4, glow::FLOAT, false, 32, 0));
}

#[test]
fn vertex_attrib_pointer_reissues_when_buffer_goes_back_and_forth() {
    // Real Cocos 2.x workload: ping-pong between two VBOs
    // (positions vs. UVs) on the same attribute index across
    // sprite batches.  Each ping-pong must re-issue even
    // though the layout tuple is identical.
    let mut s = fresh_state();
    s.bound_array_buffer = Some(Some(1));
    assert!(update_vertex_attrib_pointer(&mut s, 0, 2, glow::FLOAT, false, 8, 0));
    s.bound_array_buffer = Some(Some(2));
    assert!(update_vertex_attrib_pointer(&mut s, 0, 2, glow::FLOAT, false, 8, 0));
    s.bound_array_buffer = Some(Some(1));
    assert!(update_vertex_attrib_pointer(&mut s, 0, 2, glow::FLOAT, false, 8, 0));
    s.bound_array_buffer = Some(Some(1));
    assert!(!update_vertex_attrib_pointer(&mut s, 0, 2, glow::FLOAT, false, 8, 0));
}

#[test]
fn vertex_attrib_pointer_keys_by_vao_scope_across_buffer_switches() {
    // Four distinct (VAO, ARRAY_BUFFER) combinations.  VAOs get
    // independent slots in the shadow; the `array_buffer`
    // component inside the fingerprint forces re-issue whenever
    // the bound buffer changes.  Re-visiting a *prior* buffer
    // on the same (VAO, index) re-issues — we don't retain
    // per-(VAO, index, buffer) history because Cocos-style
    // workloads overwhelmingly set the buffer once per VAO
    // scope and keep it, and the storage cost of retaining N
    // buffers per slot would dwarf the saved calls.
    //
    // Cross-VAO isolation IS preserved: switching to VAO=2 and
    // back to VAO=1 with the originally-bound buffer DOES
    // dedup, because VAO=1's slot was never touched while
    // VAO=2 was active.
    let mut s = fresh_state();
    s.bound_vao = Some(1);
    s.bound_array_buffer = Some(Some(10));
    assert!(update_vertex_attrib_pointer(&mut s, 0, 4, glow::FLOAT, false, 16, 0));
    // Same VAO, different buffer → overwrites VAO 1's slot.
    s.bound_array_buffer = Some(Some(11));
    assert!(update_vertex_attrib_pointer(&mut s, 0, 4, glow::FLOAT, false, 16, 0));
    // Switch to VAO 2, buffer 10.
    s.bound_vao = Some(2);
    s.bound_array_buffer = Some(Some(10));
    assert!(update_vertex_attrib_pointer(&mut s, 0, 4, glow::FLOAT, false, 16, 0));
    // Switch back to VAO 1 WITHOUT touching its slot — the
    // previous (vao=1, buffer=11) fp is still cached, so
    // re-applying with buffer=11 dedups.
    s.bound_vao = Some(1);
    s.bound_array_buffer = Some(Some(11));
    assert!(!update_vertex_attrib_pointer(&mut s, 0, 4, glow::FLOAT, false, 16, 0));
    // But buffer=10 on VAO 1 was overwritten by the earlier
    // buffer=11 set, so it must re-issue now.
    s.bound_array_buffer = Some(Some(10));
    assert!(update_vertex_attrib_pointer(&mut s, 0, 4, glow::FLOAT, false, 16, 0));
}

#[test]
fn vertex_attrib_divisor_dedups_per_index() {
    let mut s = fresh_state();
    assert!(update_vertex_attrib_divisor(&mut s, 0, 1));
    assert!(!update_vertex_attrib_divisor(&mut s, 0, 1));
    assert!(update_vertex_attrib_divisor(&mut s, 0, 0));
    assert!(update_vertex_attrib_divisor(&mut s, 1, 1));
}

#[test]
fn stencil_func_dedup_per_face() {
    let mut s = fresh_state();
    assert!(update_stencil_func(
        &mut s,
        glow::FRONT,
        glow::EQUAL,
        0,
        0xFF
    ));
    assert!(!update_stencil_func(
        &mut s,
        glow::FRONT,
        glow::EQUAL,
        0,
        0xFF
    ));
    // BACK face has no fingerprint yet — must re-issue.
    assert!(update_stencil_func(
        &mut s,
        glow::BACK,
        glow::EQUAL,
        0,
        0xFF
    ));
    // FRONT_AND_BACK dedups only when BOTH faces already match.
    assert!(!update_stencil_func(
        &mut s,
        glow::FRONT_AND_BACK,
        glow::EQUAL,
        0,
        0xFF
    ));
}

#[test]
fn stencil_op_front_and_back_dedup() {
    let mut s = fresh_state();
    assert!(update_stencil_op(
        &mut s,
        glow::FRONT_AND_BACK,
        glow::KEEP,
        glow::KEEP,
        glow::REPLACE
    ));
    // Identical FRONT_AND_BACK dedups.
    assert!(!update_stencil_op(
        &mut s,
        glow::FRONT_AND_BACK,
        glow::KEEP,
        glow::KEEP,
        glow::REPLACE
    ));
    // Single-face with identical fp dedups too.
    assert!(!update_stencil_op(
        &mut s,
        glow::FRONT,
        glow::KEEP,
        glow::KEEP,
        glow::REPLACE
    ));
}

#[test]
fn stencil_mask_separate_front_back_tracked_independently() {
    let mut s = fresh_state();
    assert!(update_stencil_mask(&mut s, glow::FRONT, 0x0F));
    assert!(!update_stencil_mask(&mut s, glow::FRONT, 0x0F));
    assert!(update_stencil_mask(&mut s, glow::BACK, 0x0F));
    // FRONT_AND_BACK with matching values on both — dedups.
    assert!(!update_stencil_mask(&mut s, glow::FRONT_AND_BACK, 0x0F));
    // FRONT_AND_BACK with a new value — re-issues.
    assert!(update_stencil_mask(&mut s, glow::FRONT_AND_BACK, 0xF0));
}

#[test]
fn pixel_store_i32_dedups_per_pname() {
    let mut s = fresh_state();
    assert!(update_pixel_store_i32(
        &mut s,
        glow::UNPACK_ALIGNMENT,
        4
    ));
    assert!(!update_pixel_store_i32(
        &mut s,
        glow::UNPACK_ALIGNMENT,
        4
    ));
    assert!(update_pixel_store_i32(
        &mut s,
        glow::UNPACK_ALIGNMENT,
        1
    ));
    // Different pname does not collide.
    assert!(update_pixel_store_i32(
        &mut s,
        glow::PACK_ALIGNMENT,
        1
    ));
}

#[test]
fn depth_range_dedups_and_reissues_after_external() {
    let mut s = fresh_state();
    assert!(update_depth_range(&mut s, 0.0f32.to_bits(), 1.0f32.to_bits()));
    assert!(!update_depth_range(&mut s, 0.0f32.to_bits(), 1.0f32.to_bits()));
    assert!(update_depth_range(&mut s, 0.1f32.to_bits(), 0.9f32.to_bits()));
    s.invalidate_after_external_gl_use();
    assert!(update_depth_range(&mut s, 0.1f32.to_bits(), 0.9f32.to_bits()));
}

#[test]
fn stencil_state_is_cleared_on_external_gl_use() {
    let mut s = fresh_state();
    let _ = update_stencil_func(&mut s, glow::FRONT, glow::EQUAL, 0, 0xFF);
    let _ = update_stencil_op(&mut s, glow::FRONT, glow::KEEP, glow::KEEP, glow::REPLACE);
    let _ = update_stencil_mask(&mut s, glow::FRONT, 0xFF);
    let _ = update_pixel_store_i32(&mut s, glow::UNPACK_ALIGNMENT, 4);
    s.invalidate_after_external_gl_use();
    // All four families re-issue on next call.
    assert!(update_stencil_func(&mut s, glow::FRONT, glow::EQUAL, 0, 0xFF));
    assert!(update_stencil_op(
        &mut s,
        glow::FRONT,
        glow::KEEP,
        glow::KEEP,
        glow::REPLACE
    ));
    assert!(update_stencil_mask(&mut s, glow::FRONT, 0xFF));
    assert!(update_pixel_store_i32(&mut s, glow::UNPACK_ALIGNMENT, 4));
}

#[test]
fn viewport_dedups_identical_values() {
    let mut s = fresh_state();
    assert!(
        update_viewport(&mut s, 0, 0, 800, 600),
        "first call with unknown previous state must issue"
    );
    assert!(
        !update_viewport(&mut s, 0, 0, 800, 600),
        "identical viewport must dedup"
    );
    assert!(
        update_viewport(&mut s, 0, 0, 1024, 600),
        "width change must re-issue"
    );
    assert!(
        update_viewport(&mut s, 10, 0, 1024, 600),
        "origin change must re-issue"
    );
}

#[test]
fn viewport_reissues_after_external_gl_use() {
    let mut s = fresh_state();
    let _ = update_viewport(&mut s, 0, 0, 800, 600);
    s.invalidate_after_external_gl_use();
    // After the Skia boundary, viewport may have been mutated
    // by Ganesh; the shadow is cleared so the next call
    // re-issues.
    assert!(update_viewport(&mut s, 0, 0, 800, 600));
}

#[test]
fn invalidate_after_external_gl_use_preserves_uniform_cache() {
    // Uniforms live on GL program objects, not on the shared
    // context state Skia touches, so the cache MUST survive.
    let mut s = fresh_state();
    let prog: ProgramId = 7;
    let loc: u32 = 3;
    let bytes = [1u8, 2, 3, 4];
    assert!(update_uniform(&mut s, prog, loc, &bytes));
    // Second call with identical bytes — dedup must fire.
    assert!(!update_uniform(&mut s, prog, loc, &bytes));

    s.invalidate_after_external_gl_use();

    // After invalidation the uniform dedup entry MUST remain,
    // so the next identical call still dedups.
    assert!(
        !update_uniform(&mut s, prog, loc, &bytes),
        "uniform_cache was wiped by invalidate_after_external_gl_use"
    );
}

#[test]
fn invalidate_after_external_gl_use_clears_p11_shadow() {
    let mut s = fresh_state();
    let _ = update_bind_framebuffer(&mut s, glow::FRAMEBUFFER, Some(7));
    let _ = update_enable_vertex_attrib(&mut s, 3);
    let _ = update_vertex_attrib_pointer(&mut s, 3, 4, glow::FLOAT, false, 32, 0);
    let _ = update_vertex_attrib_divisor(&mut s, 3, 1);

    s.invalidate_after_external_gl_use();

    // Every setter must re-issue after invalidation — that's the
    // whole point of marking state stale around a Skia batch.
    assert!(update_bind_framebuffer(&mut s, glow::FRAMEBUFFER, Some(7)));
    assert!(update_enable_vertex_attrib(&mut s, 3));
    assert!(update_vertex_attrib_pointer(&mut s, 3, 4, glow::FLOAT, false, 32, 0));
    assert!(update_vertex_attrib_divisor(&mut s, 3, 1));
}

#[test]
fn gl_state_defaults_correctly() {
    let state = CanvasGLState::default();
    assert!(state.draws_to_default_fbo);
    assert_eq!(state.scissor, ScissorState::Disabled);
    assert_eq!(state.last_scissor_rect, None);
}

#[test]
fn gl_state_tracks_fbo_and_scissor() {
    let mut state = CanvasGLState::default();

    // Bind user FBO
    state.draws_to_default_fbo = false;
    assert!(!state.draws_to_default_fbo);

    // Set scissor rect + enable
    state.last_scissor_rect = Some((10, 20, 100, 50));
    state.scissor = ScissorState::Enabled { x: 10, y: 20, width: 100, height: 50 };
    assert!(matches!(state.scissor, ScissorState::Enabled { .. }));

    // Disable scissor
    state.scissor = ScissorState::Disabled;
    assert_eq!(state.scissor, ScissorState::Disabled);
    // last_scissor_rect retained
    assert_eq!(state.last_scissor_rect, Some((10, 20, 100, 50)));
}

#[test]
fn f32_bits_eq_agrees_with_f32_equality() {
    let values = [
        0.0f32,
        -0.0,
        1.0,
        -1.0,
        0.5,
        f32::NAN,
        -f32::NAN,
        f32::INFINITY,
        f32::NEG_INFINITY,
        f32::MIN_POSITIVE,
        1.0e-40,
    ];
    for a in values {
        for b in values {
            assert_eq!(f32_bits_eq(a.to_bits(), b.to_bits()), a == b, "{a} vs {b}");
        }
    }
}

#[test]
fn signed_zeros_dedup_and_nan_always_reissues() {
    let mut s = fresh_state();
    assert!(update_line_width(&mut s, 0.0f32.to_bits()));
    assert!(!update_line_width(&mut s, (-0.0f32).to_bits()));
    assert!(update_line_width(&mut s, f32::NAN.to_bits()));
    assert!(update_line_width(&mut s, f32::NAN.to_bits()));
}

#[test]
fn uniform_key_separates_program_and_location() {
    let mut s = fresh_state();
    assert!(update_uniform(&mut s, 1, 0, &[1u8]));
    assert!(update_uniform(&mut s, 0, 1, &[1u8]));
    assert!(update_uniform(&mut s, u32::MAX, u32::MAX, &[1u8]));
    assert_eq!(s.uniform_cache.len(), 3);
    // Switching to program 0 keeps only its entry.
    assert!(update_use_program(&mut s, 0));
    assert_eq!(s.uniform_cache.len(), 1);
    assert!(!update_uniform(&mut s, 0, 1, &[1u8]));
}

#[test]
fn full_uniform_cache_evicts_exactly_one_entry() {
    let mut s = fresh_state();
    for i in 0..MAX_UNIFORM_CACHE {
        assert!(update_uniform(&mut s, 1, i as u32, &[0u8]));
    }
    assert_eq!(s.uniform_cache.len(), MAX_UNIFORM_CACHE);
    // An entry already cached is replaced in place.
    assert!(update_uniform(&mut s, 1, 0, &[9u8]));
    assert_eq!(s.uniform_cache.len(), MAX_UNIFORM_CACHE);
    // A new one makes room by dropping another.
    assert!(update_uniform(&mut s, 1, 10_000, &[0u8]));
    assert_eq!(s.uniform_cache.len(), MAX_UNIFORM_CACHE);
    assert!(!update_uniform(&mut s, 1, 10_000, &[0u8]));
}

#[test]
fn enable_and_disable_keep_caps_apart() {
    let mut s = fresh_state();
    assert!(update_disable(&mut s, 0x0B71));
    assert!(update_enable(&mut s, 0x0B71));
    assert!(s.enabled_caps.contains(&0x0B71));
    assert!(!s.disabled_caps.contains(&0x0B71));
    assert!(update_disable(&mut s, 0x0B71));
    assert!(!s.enabled_caps.contains(&0x0B71));
    assert!(s.disabled_caps.contains(&0x0B71));
}

#[test]
fn front_and_back_matches_two_single_face_calls() {
    let mut a = fresh_state();
    let mut b = fresh_state();
    assert!(update_stencil_mask(&mut a, glow::FRONT_AND_BACK, 0x3C));
    assert!(update_stencil_mask(&mut b, glow::FRONT, 0x3C));
    assert!(update_stencil_mask(&mut b, glow::BACK, 0x3C));
    assert_eq!(a.stencil_mask, b.stencil_mask);
    assert!(!update_stencil_mask(&mut b, glow::FRONT_AND_BACK, 0x3C));
}

#[test]
fn invalidate_forgets_bindings_but_keeps_colour_mask() {
    let mut s = fresh_state();
    update_use_program(&mut s, 4);
    update_color_mask(&mut s, false, true, true, true);
    update_bind_buffer(&mut s, 0x8892, Some(3));
    s.invalidate_after_external_gl_use();
    assert!(update_use_program(&mut s, 4));
    assert!(update_bind_buffer(&mut s, 0x8892, Some(3)));
    assert!(!update_color_mask(&mut s, false, true, true, true));
}
