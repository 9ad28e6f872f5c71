use migo_graphics::pbo_pool::{PboEntry, PboPool, DEFAULT_POOL_SIZE};

#[test]
fn pool_size_is_clamped() {
    let a: PboPool<u8> = PboPool::new(0, true);
    let b: PboPool<u8> = PboPool::new(100, true);
    let mut c: PboPool<u8> = PboPool::new(3, true);
    assert!(a.has_room());
    assert_eq!(DEFAULT_POOL_SIZE, 4);
    let mut a = a;
    a.keep(1, 10, None);
    assert!(!a.has_room());
    let mut b = b;
    for i in 0..8 {
        assert!(b.has_room());
        b.keep(i, 10, None);
    }
    assert!(!b.has_room());
    for i in 0..3 {
        c.keep(i, 1, None);
    }
    assert!(!c.has_room());
}

#[test]
fn take_returns_smallest_fitting_pbo_with_its_fence() {
    let mut pool: PboPool<&'static str> = PboPool::new(4, true);
    assert!(pool.uses_fences());
    pool.keep(1, 4096, Some("f1"));
    pool.keep(2, 1024, None);
    pool.keep(3, 2048, Some("f3"));
    assert_eq!(pool.take(1500), Some((3, Some("f3"))));
    assert_eq!(pool.take(5000), None);
    assert_eq!(pool.len(), 2);
    assert_eq!(
        pool.drain(),
        vec![PboEntry { buffer: 2, size: 1024, fence: None }, PboEntry { buffer: 1, size: 4096, fence: Some("f1") }]
    );
    assert_eq!(pool.len(), 0);
}

#[test]
fn without_pbo_support_nothing_is_handed_out() {
    let mut pool: PboPool<u8> = PboPool::new(4, false);
    assert!(!pool.is_pbo_supported());
    assert!(!pool.uses_fences());
    pool.keep(9, 100, None);
    assert_eq!(pool.take(1), None);
    assert_eq!(pool.len(), 1);
}
