use desktop_gremlin::gremlin::{AnimationProperties, Animator};
use desktop_gremlin::utils::{TextureCache, CACHE_CAPACITY};

fn animator(name: &str) -> Animator {
    Animator::from_dimensions(AnimationProperties::new(name.to_string(), 4), 40, 10)
}

fn names(c: &TextureCache) -> Vec<String> {
    c.data.iter().map(|e| e.0.clone()).collect()
}

fn filled(n: usize) -> TextureCache {
    let mut c = TextureCache::new();
    for i in 0..n {
        let name = format!("A{}", i);
        assert!(c.cache(name.clone(), (animator(&name), i as u64)).is_none());
    }
    c
}

#[test]
fn lookup_finds_most_recent_entry() {
    let mut c = filled(3);
    c.cache("A0".to_string(), (animator("A0"), 99));
    assert_eq!(c.lookup(&"A0".to_string()), Some(3));
    assert_eq!(c.lookup(&"A1".to_string()), Some(1));
    assert_eq!(c.lookup(&"B".to_string()), None);
}

#[test]
fn rearrange_moves_entry_to_the_back() {
    let mut c = filled(4);
    c.rearrange(1);
    assert_eq!(names(&c), vec!["A0", "A2", "A3", "A1"]);
    c.rearrange(10);
    assert_eq!(names(&c), vec!["A0", "A2", "A3", "A1"]);
}

#[test]
fn full_cache_evicts_least_recently_inserted_without_access() {
    let mut c = filled(CACHE_CAPACITY);
    let evicted = c.cache("NEW".to_string(), (animator("NEW"), 50));
    assert_eq!(evicted.map(|e| (e.0, e.1 .1)), Some(("A0".to_string(), 0)));
    assert_eq!(c.data.len(), CACHE_CAPACITY);
    assert_eq!(c.lookup(&"A0".to_string()), None);
    assert_eq!(c.lookup(&"NEW".to_string()), Some(CACHE_CAPACITY - 1));
}

#[test]
fn full_cache_evicts_least_recently_accessed() {
    let mut c = filled(CACHE_CAPACITY);
    let i = c.lookup(&"A0".to_string()).unwrap();
    c.rearrange(i);
    let evicted = c.cache("NEW".to_string(), (animator("NEW"), 50));
    assert_eq!(evicted.map(|e| e.0), Some("A1".to_string()));
    assert!(c.lookup(&"A0".to_string()).is_some());
    assert_eq!(c.data.len(), CACHE_CAPACITY);
}

#[test]
fn repeated_access_keeps_size_and_one_entry() {
    let mut c = filled(5);
    for _ in 0..7 {
        let i = c.lookup(&"A2".to_string()).unwrap();
        c.rearrange(i);
        assert_eq!(c.data.len(), 5);
        assert_eq!(names(&c).iter().filter(|n| n.as_str() == "A2").count(), 1);
        assert_eq!(c.lookup(&"A2".to_string()), Some(4));
    }
    assert_eq!(names(&c), vec!["A0", "A1", "A3", "A4", "A2"]);
}
