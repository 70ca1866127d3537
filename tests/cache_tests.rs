use std::cell::Cell;

use social_preview::cache::{RenderCache, OG_CACHE_CAPACITY};

#[test]
fn second_call_is_a_hit() {
    let mut cache = RenderCache::new(OG_CACHE_CAPACITY);
    let calls = Cell::new(0);
    let render = || {
        calls.set(calls.get() + 1);
        vec![1u8, 2, 3]
    };
    let first = cache.get_or_render(42, render);
    let second = cache.get_or_render(42, || {
        calls.set(calls.get() + 1);
        vec![9u8]
    });
    assert_eq!(first, vec![1, 2, 3]);
    assert_eq!(second, first);
    assert_eq!(calls.get(), 1);
}

#[test]
fn full_cache_evicts_least_recently_used() {
    let mut cache = RenderCache::new(100);
    for k in 0..101u64 {
        cache.put(k, vec![k as u8]);
    }
    assert_eq!(cache.get(0), None);
    for k in 1..101u64 {
        assert_eq!(cache.get(k), Some(vec![k as u8]));
    }
}

#[test]
fn touched_entry_survives_eviction() {
    let mut cache = RenderCache::new(2);
    cache.put(1, vec![1]);
    cache.put(2, vec![2]);
    assert_eq!(cache.get(1), Some(vec![1]));
    cache.put(3, vec![3]);
    assert_eq!(cache.get(2), None);
    assert_eq!(cache.get(1), Some(vec![1]));
    assert_eq!(cache.get(3), Some(vec![3]));
}

#[test]
fn put_replaces_an_entry() {
    let mut cache = RenderCache::new(2);
    cache.put(7, vec![1]);
    cache.put(7, vec![2]);
    cache.put(8, vec![3]);
    assert_eq!(cache.get(7), Some(vec![2]));
    assert_eq!(cache.get(8), Some(vec![3]));
}
