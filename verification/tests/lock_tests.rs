//! The lock store: merge semantics, ordering, lookup and the selector.

use uptix::deps::DependencyMetadata;
use uptix::deps::LockEntry;
use uptix::deps::LockValue;
use uptix::lock::filter_matching;
use uptix::lock::LockFile;

fn docker_entry(repo: &str, tag: &str, digest: &str) -> LockEntry {
    LockEntry {
        metadata: DependencyMetadata {
            name: format!("{}:{}", repo, tag),
            selected_version: Some(tag.to_string()),
            resolved_version: Some(digest.to_string()),
            timestamp: None,
            dep_type: "docker".to_string(),
            description: format!("Docker image {}:{}", repo, tag),
        },
        lock: LockValue::Text(digest.to_string()),
    }
}

#[test]
fn test_discover_new_dependency_detection() {
    // Test the logic for identifying new dependencies
    let mut lock_file = LockFile::new();

    // Add a fake entry
    let metadata = DependencyMetadata {
        name: "postgres".to_string(),
        selected_version: Some("15".to_string()),
        resolved_version: Some("sha256:somehash".to_string()),
        timestamp: None,
        dep_type: "docker".to_string(),
        description: "Docker image postgres:15".to_string(),
    };

    let entry = LockEntry {
        metadata,
        lock: LockValue::Text("sha256:somehash".to_string()),
    };

    lock_file.insert("postgres:15".to_string(), entry);

    // Verify it contains the dependency
    assert!(lock_file.contains_key("postgres:15"));
    assert!(!lock_file.contains_key("redis:latest"));
}

#[test]
fn test_update_preserves_existing_entries() {
    let mut lock_file = LockFile::new();
    let postgres_old = docker_entry("postgres", "15", "sha256:oldhash");
    let redis = docker_entry("redis", "latest", "sha256:redis");
    lock_file.insert("postgres:15".to_string(), postgres_old);
    lock_file.insert("redis:latest".to_string(), redis.clone());

    // A selective update touches only the entry it addresses
    let postgres_new = docker_entry("postgres", "15", "sha256:newhash");
    lock_file.insert("postgres:15".to_string(), postgres_new.clone());

    assert_eq!(lock_file.get("redis:latest"), Some(&redis));
    assert_eq!(lock_file.get("postgres:15"), Some(&postgres_new));
    assert_eq!(lock_file.len(), 2);
}

#[test]
fn entries_stay_sorted_by_key() {
    let mut lock_file = LockFile::new();
    lock_file.insert("redis:latest".to_string(), docker_entry("redis", "latest", "r"));
    lock_file.insert("postgres:15".to_string(), docker_entry("postgres", "15", "p"));
    lock_file.insert("alpine:3".to_string(), docker_entry("alpine", "3", "a"));
    let keys: Vec<&String> = lock_file.entries().iter().map(|(k, _)| k).collect();
    assert_eq!(keys, vec!["alpine:3", "postgres:15", "redis:latest"]);
}

#[test]
fn lookup_and_emptiness() {
    let mut lock_file = LockFile::new();
    assert!(lock_file.is_empty());
    assert_eq!(lock_file.get("postgres:15"), None);
    lock_file.insert("postgres:15".to_string(), docker_entry("postgres", "15", "p"));
    assert!(!lock_file.is_empty());
    assert!(lock_file.get("postgres:15").is_some());
}

#[test]
fn show_pattern_finds_exact_key_first() {
    let mut lock_file = LockFile::new();
    lock_file.insert("postgres:15".to_string(), docker_entry("postgres", "15", "p"));
    lock_file.insert("postgres:15-alpine".to_string(), docker_entry("postgres", "15-alpine", "q"));
    let i = lock_file.find_entry_index("postgres:15").unwrap();
    assert_eq!(lock_file.entries()[i].0, "postgres:15");
}

#[test]
fn show_pattern_falls_back_to_substring() {
    let mut lock_file = LockFile::new();
    lock_file.insert("postgres:15".to_string(), docker_entry("postgres", "15", "p"));
    lock_file.insert("redis:latest".to_string(), docker_entry("redis", "latest", "r"));
    let i = lock_file.find_entry_index("redis").unwrap();
    assert_eq!(lock_file.entries()[i].0, "redis:latest");
    assert_eq!(lock_file.find_entry_index("nonexistent:dep"), None);
}

#[test]
fn selector_filters_declared_dependencies() {
    let deps = vec![
        uptix::deps::Dependency::Docker(
            uptix::deps::docker::Docker::from("postgres:15").unwrap(),
        ),
        uptix::deps::Dependency::Docker(uptix::deps::docker::Docker::from("redis:7").unwrap()),
    ];
    let picked = filter_matching(&deps, "postgres");
    assert_eq!(picked.len(), 1);
    assert_eq!(picked[0].key(), "postgres:15");
    let none = filter_matching(&deps, "mysql:8");
    assert_eq!(none.len(), 0);
}

#[test]
fn selector_falls_back_to_stored_entries() {
    let mut lock_file = LockFile::new();
    lock_file.insert("postgres:15".to_string(), docker_entry("postgres", "15", "sha256:p"));
    lock_file.insert("redis:latest".to_string(), docker_entry("redis", "latest", "sha256:r"));
    let matched = lock_file.matching_from_lock("postgres");
    assert_eq!(matched.len(), 1);
    assert_eq!(matched[0].key(), "postgres:15");
    assert_eq!(lock_file.matching_from_lock("mysql").len(), 0);
}
