use apicurio_sync::config::{Config, PullArtifactRef};
use apicurio_sync::context::Auth;
use apicurio_sync::error::Error;
use apicurio_sync::lockfile::{lock_path_for, LockFile, PullArtifactRef as LockedPullRef};
use apicurio_sync::memory::{MemoryProvider, RegistryEntry};
use apicurio_sync::provider::ArtifactType;

fn pull_spec(group: &str, artifact: &str, version: Option<&str>, path: &str) -> PullArtifactRef {
    PullArtifactRef {
        group: group.to_string(),
        artifact: artifact.to_string(),
        version: version.map(|v| v.to_string()),
        path: path.to_string(),
    }
}

fn config_with_pulls(pulls: Vec<PullArtifactRef>) -> Config {
    Config {
        push: Vec::new(),
        pull: pulls,
        path: "apicurio-sync.yaml".to_string(),
    }
}

fn registry_with_a1_latest() -> MemoryProvider {
    let mut provider = MemoryProvider::new();
    provider.add_entry(RegistryEntry {
        group: "g1".to_string(),
        artifact: "a1".to_string(),
        version: "3".to_string(),
        artifact_type: ArtifactType::Avro,
        global_id: 42,
        content: b"avro schema".to_vec(),
        latest: true,
    });
    provider
}

#[test]
fn update_records_latest_resolution() {
    let config = config_with_pulls(vec![pull_spec("g1", "a1", None, "schemas/a1.avsc")]);
    let provider = registry_with_a1_latest();
    let lockfile =
        LockFile::try_load_for_config(None, &config, &provider, &Auth::Anonymous).unwrap();

    assert_eq!(lockfile.pull.len(), 1);
    let entry = lockfile.pull.get(&"schemas/a1.avsc".to_string()).unwrap();
    assert_eq!(entry.group, "g1");
    assert_eq!(entry.artifact, "a1");
    assert_eq!(entry.version, "3");
    assert_eq!(entry.global_id, 42);
    assert!(matches!(entry.artifact_type, ArtifactType::Avro));
    assert_eq!(lockfile.path, "apicurio-sync.lock");
}

#[test]
fn update_removes_stale_entries() {
    let config = config_with_pulls(vec![pull_spec("g1", "a1", None, "schemas/a1.avsc")]);
    let provider = registry_with_a1_latest();
    let mut lockfile =
        LockFile::try_load_for_config(None, &config, &provider, &Auth::Anonymous).unwrap();
    assert_eq!(lockfile.pull.len(), 1);

    // The same pull spec is removed from the configuration: the next
    // update must remove its entry entirely.
    let empty_config = config_with_pulls(Vec::new());
    lockfile
        .update(&empty_config, &provider, &Auth::Anonymous)
        .unwrap();
    assert_eq!(lockfile.pull.len(), 0);
    assert!(lockfile
        .pull
        .get(&"schemas/a1.avsc".to_string())
        .is_none());
}

#[test]
fn locked_paths_are_kept_without_forcing() {
    // The lockfile already pins the path; the registry now answers
    // something different. A non-forcing load must keep the old entry.
    let config = config_with_pulls(vec![pull_spec("g1", "a1", None, "schemas/a1.avsc")]);
    let mut existing = LockFile::empty("apicurio-sync.lock".to_string());
    existing.pull.insert(
        "schemas/a1.avsc".to_string(),
        LockedPullRef {
            group: "g1".to_string(),
            artifact: "a1".to_string(),
            version: "1".to_string(),
            global_id: 7,
            artifact_type: ArtifactType::Avro,
        },
    );

    let provider = registry_with_a1_latest();
    let lockfile =
        LockFile::try_load_for_config(Some(existing), &config, &provider, &Auth::Anonymous)
            .unwrap();
    let entry = lockfile.pull.get(&"schemas/a1.avsc".to_string()).unwrap();
    assert_eq!(entry.version, "1");
    assert_eq!(entry.global_id, 7);
}

#[test]
fn update_pins_requested_version() {
    // The lockfile held "3"; the configuration pins "2". A forced update
    // must record exactly the pinned version, not the latest.
    let mut provider = registry_with_a1_latest();
    provider.add_entry(RegistryEntry {
        group: "g1".to_string(),
        artifact: "a1".to_string(),
        version: "2".to_string(),
        artifact_type: ArtifactType::Avro,
        global_id: 5,
        content: b"older schema".to_vec(),
        latest: false,
    });

    let config = config_with_pulls(vec![pull_spec("g1", "a1", Some("2"), "schemas/a1.avsc")]);
    let mut lockfile = LockFile::empty("apicurio-sync.lock".to_string());
    lockfile.pull.insert(
        "schemas/a1.avsc".to_string(),
        LockedPullRef {
            group: "g1".to_string(),
            artifact: "a1".to_string(),
            version: "3".to_string(),
            global_id: 42,
            artifact_type: ArtifactType::Avro,
        },
    );

    lockfile
        .update(&config, &provider, &Auth::Anonymous)
        .unwrap();
    let entry = lockfile.pull.get(&"schemas/a1.avsc".to_string()).unwrap();
    assert_eq!(entry.version, "2");
    assert_eq!(entry.global_id, 5);
}

#[test]
fn reconcile_locks_exactly_the_configured_paths() {
    let mut provider = registry_with_a1_latest();
    provider.add_entry(RegistryEntry {
        group: "g1".to_string(),
        artifact: "a2".to_string(),
        version: "1".to_string(),
        artifact_type: ArtifactType::Json,
        global_id: 43,
        content: b"{}".to_vec(),
        latest: true,
    });

    let config = config_with_pulls(vec![
        pull_spec("g1", "a1", None, "schemas/a1.avsc"),
        pull_spec("g1", "a2", None, "schemas/a2.json"),
    ]);
    let mut lockfile = LockFile::empty("apicurio-sync.lock".to_string());
    lockfile.pull.insert(
        "stale/path.avsc".to_string(),
        LockedPullRef {
            group: "g0".to_string(),
            artifact: "a0".to_string(),
            version: "1".to_string(),
            global_id: 1,
            artifact_type: ArtifactType::Avro,
        },
    );

    lockfile
        .update(&config, &provider, &Auth::Anonymous)
        .unwrap();
    assert_eq!(lockfile.pull.len(), 2);
    assert!(lockfile.pull.get(&"schemas/a1.avsc".to_string()).is_some());
    assert!(lockfile.pull.get(&"schemas/a2.json".to_string()).is_some());
    assert!(lockfile.pull.get(&"stale/path.avsc".to_string()).is_none());
}

#[test]
fn reconcile_fails_when_the_registry_lacks_the_artifact() {
    let config = config_with_pulls(vec![pull_spec("g1", "missing", None, "schemas/m.avsc")]);
    let provider = registry_with_a1_latest();
    let result = LockFile::try_load_for_config(None, &config, &provider, &Auth::Anonymous);
    assert!(matches!(result, Err(Error::Http(_))));
}

#[test]
fn lock_path_replaces_the_extension() {
    assert_eq!(
        lock_path_for(&"apicurio-sync.yaml".to_string()),
        "apicurio-sync.lock"
    );
    assert_eq!(
        lock_path_for(&"project/config.yml".to_string()),
        "project/config.lock"
    );
}

#[test]
fn lock_path_appends_when_there_is_no_extension() {
    assert_eq!(lock_path_for(&"config".to_string()), "config.lock");
    assert_eq!(lock_path_for(&"dir.d/config".to_string()), "dir.d/config.lock");
    assert_eq!(lock_path_for(&".hidden".to_string()), ".hidden.lock");
}
