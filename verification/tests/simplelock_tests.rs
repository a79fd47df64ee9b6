use containers::simplelock::{DockerfileLock, SimpleLockfile};

fn snapshot(hash: &str, mtime: u64, size: u64) -> DockerfileLock {
    DockerfileLock { content_hash: hash.to_string(), modified_time: mtime, size }
}

#[test]
fn simple_store_starts_empty() {
    let store = SimpleLockfile::new();
    assert_eq!(store.version, 1);
    assert!(store.get("/p/Dockerfile").is_none());
    assert!(store.changed("/p/Dockerfile", "abc"));
    assert!(!store.quick_match("/p/Dockerfile", 10, 20));
}

#[test]
fn quick_match_needs_time_and_size() {
    let store = SimpleLockfile {
        version: 1,
        dockerfiles: vec![("/p/Dockerfile".to_string(), snapshot("abc", 10, 20))],
    };
    assert!(store.quick_match("/p/Dockerfile", 10, 20));
    assert!(!store.quick_match("/p/Dockerfile", 11, 20));
    assert!(!store.quick_match("/p/Dockerfile", 10, 21));
    assert!(!store.quick_match("/q/Dockerfile", 10, 20));
}

#[test]
fn hash_mismatch_is_authoritative() {
    let store = SimpleLockfile {
        version: 1,
        dockerfiles: vec![("/p/Dockerfile".to_string(), snapshot("abc", 10, 20))],
    };
    assert!(!store.changed("/p/Dockerfile", "abc"));
    assert!(store.changed("/p/Dockerfile", "abd"));
    assert!(store.changed("/q/Dockerfile", "abc"));
}
