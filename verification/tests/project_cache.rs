use ai_memory::ids::{ProjectId, WorkspaceId};
use ai_memory::project_cache::{
    ProjectCacheKey, ProjectCacheStore, DEFAULT_HOOK_INGEST_MAX_IN_FLIGHT,
    DEFAULT_PROJECT_CACHE_MAX_ENTRIES,
};

fn key(cwd: &str) -> ProjectCacheKey {
    (cwd.to_string(), String::new(), String::new(), "basename".to_string())
}

fn ids(n: u128) -> (WorkspaceId, ProjectId) {
    (WorkspaceId(n), ProjectId(n + 1000))
}

#[test]
fn project_cache_store_evicts_oldest_untouched_entry() {
    let mut cache = ProjectCacheStore::new(2);
    let key_a: ProjectCacheKey = ("/a".into(), String::new(), String::new(), "basename".into());
    let key_b: ProjectCacheKey = ("/b".into(), String::new(), String::new(), "basename".into());
    let key_c: ProjectCacheKey = ("/c".into(), String::new(), String::new(), "basename".into());

    cache.insert(key_a.clone(), ids(1));
    cache.insert(key_b.clone(), ids(2));
    assert!(
        cache.get(&key_a).is_some(),
        "touch key_a so key_b is oldest"
    );
    cache.insert(key_c.clone(), ids(3));

    assert!(cache.contains_key(&key_a));
    assert!(!cache.contains_key(&key_b));
    assert!(cache.contains_key(&key_c));
    assert_eq!(cache.len(), 2);
}

#[test]
fn what_was_inserted_is_found() {
    let mut cache = ProjectCacheStore::default();
    assert_eq!(cache.get(&key("/a")), None);
    cache.insert(key("/a"), ids(1));
    assert_eq!(cache.get(&key("/a")), Some(ids(1)));
    cache.insert(key("/a"), ids(2));
    assert_eq!(cache.get(&key("/a")), Some(ids(2)));
    assert_eq!(cache.len(), 1);
}

#[test]
fn what_was_removed_is_gone() {
    let mut cache = ProjectCacheStore::new(8);
    cache.insert(key("/a"), ids(1));
    cache.insert(key("/b"), ids(2));
    cache.remove(&key("/a"));
    cache.remove(&key("/none"));
    assert_eq!(cache.get(&key("/a")), None);
    assert_eq!(cache.get(&key("/b")), Some(ids(2)));
}

#[test]
fn a_cache_for_nothing_holds_one_entry() {
    let mut cache = ProjectCacheStore::new(0);
    cache.insert(key("/a"), ids(1));
    cache.insert(key("/b"), ids(2));
    assert_eq!(cache.len(), 1);
    assert!(cache.contains_key(&key("/b")));
}

#[test]
fn every_part_of_the_key_counts() {
    let mut cache = ProjectCacheStore::new(8);
    cache.insert(key("/a"), ids(1));
    let other: [ProjectCacheKey; 3] = [
        ("/a".into(), "w".into(), String::new(), "basename".into()),
        ("/a".into(), String::new(), "p".into(), "basename".into()),
        ("/a".into(), String::new(), String::new(), "repo-root".into()),
    ];
    for k in &other {
        assert!(!cache.contains_key(k));
    }
}

#[test]
fn retaining_keeps_matches_in_their_order() {
    let mut cache = ProjectCacheStore::new(3);
    cache.insert(key("/a"), ids(1));
    cache.insert(key("/b"), ids(2));
    cache.insert(key("/c"), ids(3));
    cache.retain(|k, v| k.0 != "/b" && *v != ids(9));
    assert_eq!(cache.values(), vec![ids(1), ids(3)]);
    cache.insert(key("/d"), ids(4));
    cache.insert(key("/e"), ids(5));
    assert_eq!(cache.values(), vec![ids(3), ids(4), ids(5)]);
}

#[test]
fn defaults_are_as_documented() {
    assert_eq!(DEFAULT_HOOK_INGEST_MAX_IN_FLIGHT, 1024);
    assert_eq!(DEFAULT_PROJECT_CACHE_MAX_ENTRIES, 4096);
}
