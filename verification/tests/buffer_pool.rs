use migo_graphics::buffer_pool::{BufferPool, DEFAULT_SIZE};

#[test]
fn acquire_takes_the_smallest_buffer_that_fits() {
    let mut pool = BufferPool::new(4);
    assert!(pool.release_vertex_buffer(10, 4096));
    assert!(pool.release_vertex_buffer(11, 1024));
    assert!(pool.release_vertex_buffer(12, 2048));
    assert_eq!(pool.available(), 3);
    assert_eq!(pool.acquire_vertex_buffer(1500), Some(12));
    assert_eq!(pool.acquire_vertex_buffer(1500), Some(10));
    assert_eq!(pool.acquire_vertex_buffer(1500), None);
    assert_eq!(pool.acquire_vertex_buffer(0), Some(11));
    let s = *pool.stats();
    assert_eq!((s.hits, s.misses, s.allocations, s.returns), (3, 0, 3, 3));
    assert_eq!(s.available, 0);
}

#[test]
fn equal_capacities_are_served_first_in_first_out() {
    let mut pool = BufferPool::new(4);
    assert!(pool.release_index_buffer(1, 256));
    assert!(pool.release_index_buffer(2, 256));
    assert_eq!(pool.acquire_index_buffer(256), Some(1));
    assert_eq!(pool.acquire_index_buffer(256), Some(2));
}

#[test]
fn release_beyond_the_limit_is_refused() {
    let mut pool = BufferPool::new(1);
    assert!(pool.release_vertex_buffer(1, 64));
    assert!(!pool.release_vertex_buffer(2, 64));
    // The limit is per kind.
    assert!(pool.release_index_buffer(3, 64));
    assert_eq!(pool.available(), 2);
    assert_eq!(pool.stats().returns, 2);
}

#[test]
fn misses_are_counted_when_the_caller_creates() {
    let mut pool = BufferPool::default();
    assert_eq!(DEFAULT_SIZE, 16);
    assert_eq!(pool.acquire_vertex_buffer(1), None);
    pool.record_new_buffer();
    let s = *pool.stats();
    assert_eq!((s.allocations, s.misses, s.hits), (1, 1, 0));
}

#[test]
fn clear_hands_back_every_name() {
    let mut pool = BufferPool::new(8);
    pool.release_vertex_buffer(5, 300);
    pool.release_vertex_buffer(6, 100);
    pool.release_index_buffer(7, 50);
    assert_eq!(pool.clear(), vec![6, 5, 7]);
    assert_eq!(pool.available(), 0);
    assert_eq!(pool.stats().available, 0);
    assert_eq!(pool.acquire_index_buffer(0), None);
}
