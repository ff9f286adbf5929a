use koala_desktop::memory_cache::{MemorizedChannel, MemoryCache};

fn entry(id: &str, b: u32) -> MemorizedChannel<u32> {
    MemorizedChannel { channel_id: id.to_string(), backup: b }
}

#[test]
fn push_then_take_returns_the_backup() {
    let mut c: MemoryCache<u32> = MemoryCache::new(2);
    c.push(entry("a", 1));
    let got = c.take("a").unwrap();
    assert_eq!(got.backup, 1);
    assert_eq!(c.len(), 0);
    assert!(c.take("a").is_none());
}

#[test]
fn lru_order_and_eviction() {
    let mut c: MemoryCache<u32> = MemoryCache::new(2);
    c.push(entry("a", 1));
    c.push(entry("b", 2));
    c.push(entry("c", 3));
    assert_eq!(c.channel_ids(), vec!["c".to_string(), "b".to_string()]);
    assert!(!c.contains("a"));
    c.push(entry("b", 4));
    assert_eq!(c.channel_ids(), vec!["b".to_string(), "c".to_string()]);
    assert_eq!(c.take("b").unwrap().backup, 4);
}

#[test]
fn capacity_changes() {
    let mut c: MemoryCache<u32> = MemoryCache::new(3);
    c.push(entry("a", 1));
    c.push(entry("b", 2));
    c.push(entry("c", 3));
    c.set_capacity(1);
    assert_eq!(c.channel_ids(), vec!["c".to_string()]);
    assert_eq!(c.capacity(), 1);
    c.clear();
    assert_eq!(c.len(), 0);
    let mut z: MemoryCache<u32> = MemoryCache::new(0);
    z.push(entry("a", 1));
    assert_eq!(z.len(), 0);
}
