use migo_graphics::resources::{
    LifecycleResourceManager, ResourceState, ResourceType, DEFAULT_BACKGROUND_LIMIT,
};

fn sorted(mut v: Vec<u64>) -> Vec<u64> {
    v.sort();
    v
}

#[test]
fn new_manager_is_empty() {
    let m = LifecycleResourceManager::new();
    assert_eq!(m.total_memory(), 0);
    assert_eq!(m.resource_count(), 0);
    assert!(m.get_resource(1).is_none());
    assert_eq!(DEFAULT_BACKGROUND_LIMIT, 32 * 1024 * 1024);
    let d = LifecycleResourceManager::default();
    assert_eq!(d.resource_count(), 0);
}

#[test]
fn register_hands_out_increasing_ids_and_counts_memory() {
    let mut m = LifecycleResourceManager::new();
    let a = m.register(ResourceType::Texture, 100, 1);
    let b = m.register(ResourceType::Buffer, 50, 2);
    assert_eq!(a, 1);
    assert_eq!(b, 2);
    assert_eq!(m.total_memory(), 150);
    assert_eq!(m.resource_count(), 2);
    let info = m.get_resource(b).unwrap();
    assert_eq!(info.resource_type, ResourceType::Buffer);
    assert_eq!(info.state, ResourceState::Loaded);
    assert_eq!(info.size_bytes, 50);
    assert_eq!(info.priority, 2);
}

#[test]
fn register_then_unregister_restores_totals() {
    let mut m = LifecycleResourceManager::new();
    let a = m.register(ResourceType::Texture, 100, 1);
    let b = m.register(ResourceType::Shader, 7, 1);
    m.unregister(b);
    assert_eq!(m.total_memory(), 100);
    assert_eq!(m.resource_count(), 1);
    assert!(m.get_resource(b).is_none());
    // Unknown ids are ignored.
    m.unregister(99);
    assert_eq!(m.total_memory(), 100);
    assert!(m.get_resource(a).is_some());
}

#[test]
fn unregistering_a_released_resource_keeps_the_total() {
    let mut m = LifecycleResourceManager::new();
    let a = m.register(ResourceType::Texture, 100, 1);
    let _b = m.register(ResourceType::Texture, 40, 1);
    m.mark_released(a);
    assert_eq!(m.total_memory(), 40);
    m.unregister(a);
    assert_eq!(m.total_memory(), 40);
}

#[test]
fn mark_released_and_loaded_move_bytes_once() {
    let mut m = LifecycleResourceManager::new();
    let a = m.register(ResourceType::Framebuffer, 64, 3);
    m.mark_released(a);
    assert_eq!(m.total_memory(), 0);
    assert_eq!(m.get_resource(a).unwrap().state, ResourceState::Released);
    m.mark_released(a);
    assert_eq!(m.total_memory(), 0);
    m.mark_loaded(a);
    assert_eq!(m.total_memory(), 64);
    m.mark_loaded(a);
    assert_eq!(m.total_memory(), 64);
    assert_eq!(m.get_resource(a).unwrap().state, ResourceState::Loaded);
    // Unknown ids are ignored.
    m.mark_loaded(77);
    m.mark_released(77);
    assert_eq!(m.total_memory(), 64);
}

#[test]
fn reduced_mode_releases_lowest_priority_first_until_under_limit() {
    let mut m = LifecycleResourceManager::new();
    m.set_background_memory_limit(100);
    let high = m.register(ResourceType::Texture, 80, 9);
    let low = m.register(ResourceType::Texture, 60, 1);
    let mid = m.register(ResourceType::Buffer, 30, 5);
    // 170 bytes against a limit of 100: dropping the lowest priority (60)
    // leaves 110, dropping the next (30) leaves 80.
    let released = m.enter_reduced_mode();
    assert_eq!(released, vec![low, mid]);
    assert_eq!(m.get_resource(low).unwrap().state, ResourceState::NeedsRestore);
    assert_eq!(m.get_resource(mid).unwrap().state, ResourceState::NeedsRestore);
    assert_eq!(m.get_resource(high).unwrap().state, ResourceState::Loaded);
    // The accounted total is left to the caller's mark_released calls.
    assert_eq!(m.total_memory(), 170);
    assert_eq!(sorted(m.get_needs_restore()), sorted(vec![low, mid]));
}

#[test]
fn reduced_mode_under_limit_releases_nothing() {
    let mut m = LifecycleResourceManager::new();
    m.register(ResourceType::Texture, 10, 0);
    assert!(m.enter_reduced_mode().is_empty());
    assert!(m.get_needs_restore().is_empty());
}

#[test]
fn reduced_mode_is_entered_once() {
    let mut m = LifecycleResourceManager::new();
    m.set_background_memory_limit(0);
    let a = m.register(ResourceType::Texture, 10, 0);
    assert_eq!(m.enter_reduced_mode(), vec![a]);
    m.mark_loaded(a);
    assert!(m.enter_reduced_mode().is_empty());
    assert_eq!(m.get_resource(a).unwrap().state, ResourceState::Loaded);
}

#[test]
fn reduced_mode_with_zero_limit_releases_everything_loaded() {
    let mut m = LifecycleResourceManager::new();
    m.set_background_memory_limit(0);
    let a = m.register(ResourceType::Texture, 10, 3);
    let b = m.register(ResourceType::Texture, 20, 3);
    let c = m.register(ResourceType::Texture, 30, 2);
    m.mark_released(b);
    let released = m.enter_reduced_mode();
    assert_eq!(released.len(), 2);
    assert_eq!(released[0], c);
    assert_eq!(released[1], a);
    assert_eq!(m.get_resource(b).unwrap().state, ResourceState::Released);
}

#[test]
fn exit_reduced_mode_returns_what_waits_for_restore() {
    let mut m = LifecycleResourceManager::new();
    assert!(m.exit_reduced_mode().is_empty());
    m.set_background_memory_limit(50);
    let a = m.register(ResourceType::Texture, 40, 0);
    let b = m.register(ResourceType::Texture, 40, 1);
    let released = m.enter_reduced_mode();
    assert_eq!(released, vec![a]);
    let restore = m.exit_reduced_mode();
    assert_eq!(restore, vec![a]);
    assert!(m.exit_reduced_mode().is_empty());
    assert_eq!(m.get_resource(b).unwrap().state, ResourceState::Loaded);
}

#[test]
fn release_all_marks_every_loaded_resource_and_zeroes_the_total() {
    let mut m = LifecycleResourceManager::new();
    let a = m.register(ResourceType::Texture, 10, 0);
    let b = m.register(ResourceType::RenderTarget, 20, 0);
    let c = m.register(ResourceType::Shader, 30, 0);
    m.mark_released(c);
    let released = m.release_all();
    assert_eq!(sorted(released), vec![a, b]);
    assert_eq!(m.total_memory(), 0);
    assert_eq!(m.get_resource(a).unwrap().state, ResourceState::NeedsRestore);
    assert_eq!(m.get_resource(b).unwrap().state, ResourceState::NeedsRestore);
    assert_eq!(m.get_resource(c).unwrap().state, ResourceState::Released);
    assert_eq!(sorted(m.get_needs_restore()), vec![a, b]);
}

#[test]
fn clear_forgets_everything_but_keeps_ids_fresh() {
    let mut m = LifecycleResourceManager::new();
    let a = m.register(ResourceType::Texture, 10, 0);
    m.set_background_memory_limit(0);
    m.enter_reduced_mode();
    m.clear();
    assert_eq!(m.resource_count(), 0);
    assert_eq!(m.total_memory(), 0);
    assert!(m.exit_reduced_mode().is_empty());
    let b = m.register(ResourceType::Texture, 5, 0);
    assert!(b > a);
}
