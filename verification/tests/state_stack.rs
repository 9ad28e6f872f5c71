use migo_graphics::state_stack::{StateStack, MAX_STATE_STACK_DEPTH};

/// A drawing state with the fields the save/restore tests touch.
#[derive(Debug, Clone, PartialEq)]
struct DrawState {
    line_width: f32,
    global_alpha: f32,
    blend_mode: u8,
    fill: (u8, u8, u8),
    text_size: f32,
}

impl Default for DrawState {
    fn default() -> Self {
        DrawState { line_width: 1.0, global_alpha: 1.0, blend_mode: 0, fill: (0, 0, 0), text_size: 10.0 }
    }
}

#[test]
fn restore_without_save_is_noop() {
    let mut stack = StateStack::new();
    let mut state = DrawState::default();
    let before = state.clone();
    assert!(!stack.pop(&mut state));
    assert_eq!(state, before);
}

#[test]
fn save_restore_roundtrip_preserves_state() {
    let mut stack = StateStack::new();
    let mut state = DrawState::default();

    assert!(stack.push(&state));
    assert_eq!(stack.depth(), 1);

    state.line_width = 5.5;
    state.global_alpha = 0.25;
    state.blend_mode = 12;
    state.fill = (10, 20, 30);
    state.text_size = 42.0;

    assert!(stack.pop(&mut state));
    assert_eq!(stack.depth(), 0);
    assert_eq!(state, DrawState::default());
}

#[test]
fn save_captures_independent_snapshot() {
    let mut stack = StateStack::new();
    let mut state = DrawState::default();

    state.line_width = 3.0;
    stack.push(&state);

    state.line_width = 7.0;
    assert_eq!(state.line_width, 7.0);

    stack.pop(&mut state);
    assert_eq!(state.line_width, 3.0);
}

#[test]
fn stack_caps_depth_and_signals_overflow() {
    let mut stack = StateStack::new();
    let state = DrawState::default();

    for _ in 0..MAX_STATE_STACK_DEPTH {
        assert!(stack.push(&state));
    }
    assert_eq!(stack.depth(), MAX_STATE_STACK_DEPTH);

    assert!(!stack.push(&state));
    assert_eq!(stack.depth(), MAX_STATE_STACK_DEPTH);
}

#[test]
fn deep_save_restore_preserves_order() {
    let mut stack = StateStack::new();
    let mut state = DrawState::default();

    for i in 1..=4 {
        state.line_width = i as f32;
        stack.push(&state);
    }

    state.line_width = 99.0;
    stack.pop(&mut state);
    assert_eq!(state.line_width, 4.0);

    stack.pop(&mut state);
    assert_eq!(state.line_width, 3.0);

    stack.pop(&mut state);
    assert_eq!(state.line_width, 2.0);

    stack.pop(&mut state);
    assert_eq!(state.line_width, 1.0);

    assert_eq!(stack.depth(), 0);
}

#[test]
fn depth_limit_is_thirty_two() {
    assert_eq!(MAX_STATE_STACK_DEPTH, 32);
}
