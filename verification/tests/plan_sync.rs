use apicurio_sync::config::{Config, PullArtifactRef, PushArtifactRef};
use apicurio_sync::context::{Auth, Context};
use apicurio_sync::error::Error;
use apicurio_sync::lockfile::{LockFile, PullArtifactRef as LockedPullRef};
use apicurio_sync::memory::{MemoryProvider, RegistryEntry};
use apicurio_sync::plan::Plan;
use apicurio_sync::provider::{ArtifactType, NoopProvider};
use apicurio_sync::string_map::StringMap;
use apicurio_sync::sync::{pull_artifacts, push_artifacts, sync_artifacts};

fn test_context() -> Context {
    Context::new("test".to_string(), "http://localhost:8080/".to_string())
}

fn a1_lockfile() -> LockFile {
    let mut lockfile = LockFile::empty("apicurio-sync.lock".to_string());
    lockfile.pull.insert(
        "schemas/a1.avsc".to_string(),
        LockedPullRef {
            group: "g1".to_string(),
            artifact: "a1".to_string(),
            version: "3".to_string(),
            global_id: 42,
            artifact_type: ArtifactType::Avro,
        },
    );
    lockfile
}

fn a1_pull_config(version: Option<&str>) -> Config {
    Config {
        push: Vec::new(),
        pull: vec![PullArtifactRef {
            group: "g1".to_string(),
            artifact: "a1".to_string(),
            version: version.map(|v| v.to_string()),
            path: "schemas/a1.avsc".to_string(),
        }],
        path: "apicurio-sync.yaml".to_string(),
    }
}

fn registry_with_content() -> MemoryProvider {
    let mut provider = MemoryProvider::new();
    provider.add_entry(RegistryEntry {
        group: "g1".to_string(),
        artifact: "a1".to_string(),
        version: "3".to_string(),
        artifact_type: ArtifactType::Avro,
        global_id: 42,
        content: b"{\"type\": \"record\"}".to_vec(),
        latest: true,
    });
    provider
}

#[test]
fn config_version_wins_over_lockfile() {
    // The path stands in both the configuration (pinned to "2") and the
    // lockfile (resolved to "3"): the plan must carry the configuration's
    // version.
    let config = a1_pull_config(Some("2"));
    let lockfile = a1_lockfile();
    let plan = Plan::new(test_context())
        .merge_with_config(&config)
        .merge_with_lockfile(&lockfile);

    let entry = plan.pull.get(&"schemas/a1.avsc".to_string()).unwrap();
    assert_eq!(entry.version.as_deref(), Some("2"));
    assert_eq!(entry.group.as_deref(), Some("g1"));
    assert_eq!(entry.artifact.as_deref(), Some("a1"));
}

#[test]
fn lockfile_supplies_what_config_leaves_unset() {
    let config = a1_pull_config(None);
    let lockfile = a1_lockfile();
    let plan = Plan::new(test_context())
        .merge_with_config(&config)
        .merge_with_lockfile(&lockfile);

    let entry = plan.pull.get(&"schemas/a1.avsc".to_string()).unwrap();
    assert_eq!(entry.version.as_deref(), Some("3"));
    assert_eq!(entry.global_id, Some(42));
    assert!(matches!(entry.artifact_type, Some(ArtifactType::Avro)));
}

#[test]
fn sync_fetches_by_global_id_and_writes_verbatim() {
    let config = a1_pull_config(None);
    let lockfile = a1_lockfile();
    let provider = registry_with_content();
    let plan = Plan::new(test_context())
        .merge_with_config(&config)
        .merge_with_lockfile(&lockfile);

    let mut workdir: StringMap<Vec<u8>> = StringMap::new();
    sync_artifacts(&provider, &plan, &mut workdir, &Auth::Anonymous).unwrap();

    let written = workdir.get(&"schemas/a1.avsc".to_string()).unwrap();
    assert_eq!(written.as_slice(), b"{\"type\": \"record\"}");
}

#[test]
fn sync_twice_writes_the_same_files() {
    let config = a1_pull_config(None);
    let lockfile = a1_lockfile();
    let provider = registry_with_content();
    let plan = Plan::new(test_context())
        .merge_with_config(&config)
        .merge_with_lockfile(&lockfile);

    let mut workdir: StringMap<Vec<u8>> = StringMap::new();
    sync_artifacts(&provider, &plan, &mut workdir, &Auth::Anonymous).unwrap();
    let first = workdir.get(&"schemas/a1.avsc".to_string()).unwrap().clone();

    sync_artifacts(&provider, &plan, &mut workdir, &Auth::Anonymous).unwrap();
    assert_eq!(workdir.len(), 1);
    let second = workdir.get(&"schemas/a1.avsc".to_string()).unwrap();
    assert_eq!(second, &first);
}

#[test]
fn pull_overwrites_an_existing_file() {
    let config = a1_pull_config(None);
    let lockfile = a1_lockfile();
    let provider = registry_with_content();
    let plan = Plan::new(test_context())
        .merge_with_config(&config)
        .merge_with_lockfile(&lockfile);

    let mut workdir: StringMap<Vec<u8>> = StringMap::new();
    workdir.insert("schemas/a1.avsc".to_string(), b"stale".to_vec());
    pull_artifacts(&provider, &plan, &mut workdir, &Auth::Anonymous).unwrap();
    let written = workdir.get(&"schemas/a1.avsc".to_string()).unwrap();
    assert_eq!(written.as_slice(), b"{\"type\": \"record\"}");
}

#[test]
fn pull_fails_fast_on_an_unresolved_entry() {
    // The path stands in the configuration but was never resolved: the
    // executor must treat the missing fields as fatal.
    let config = a1_pull_config(None);
    let provider = registry_with_content();
    let plan = Plan::new(test_context()).merge_with_config(&config);

    let mut workdir: StringMap<Vec<u8>> = StringMap::new();
    let result = pull_artifacts(&provider, &plan, &mut workdir, &Auth::Anonymous);
    assert!(matches!(result, Err(Error::Setup(_))));
}

#[test]
fn push_uploads_the_configured_files() {
    let config = Config {
        push: vec![PushArtifactRef {
            group: "g1".to_string(),
            artifact: "a1".to_string(),
            path: "schemas/a1.avsc".to_string(),
            artifact_type: Some(ArtifactType::Avro),
            name: Some("A1".to_string()),
            description: None,
            labels: Some(vec!["events".to_string()]),
            properties: Some(vec![("team".to_string(), "data".to_string())]),
        }],
        pull: Vec::new(),
        path: "apicurio-sync.yaml".to_string(),
    };
    let provider = registry_with_content();
    let plan = Plan::new(test_context()).merge_with_config(&config);

    let mut workdir: StringMap<Vec<u8>> = StringMap::new();
    workdir.insert("schemas/a1.avsc".to_string(), b"{}".to_vec());
    push_artifacts(&provider, &plan, &workdir, &Auth::Anonymous).unwrap();
}

#[test]
fn push_fails_when_the_file_is_missing() {
    let config = Config {
        push: vec![PushArtifactRef {
            group: "g1".to_string(),
            artifact: "a1".to_string(),
            path: "schemas/a1.avsc".to_string(),
            artifact_type: None,
            name: None,
            description: None,
            labels: None,
            properties: None,
        }],
        pull: Vec::new(),
        path: "apicurio-sync.yaml".to_string(),
    };
    let provider = registry_with_content();
    let plan = Plan::new(test_context()).merge_with_config(&config);

    let workdir: StringMap<Vec<u8>> = StringMap::new();
    let result = push_artifacts(&provider, &plan, &workdir, &Auth::Anonymous);
    assert!(matches!(result, Err(Error::Io(_))));
}

#[test]
fn empty_plan_sync_succeeds_without_a_registry() {
    // With nothing to pull or push, the run is owed success even against
    // a provider that can answer nothing.
    let plan = Plan::new(test_context());
    let mut workdir: StringMap<Vec<u8>> = StringMap::new();
    sync_artifacts(&NoopProvider, &plan, &mut workdir, &Auth::Anonymous).unwrap();
    assert_eq!(workdir.len(), 0);
}

#[test]
fn failed_pull_keeps_earlier_writes_and_touches_nothing_else() {
    // Two planned entries; the registry can serve only the first. The
    // pass aborts: the first file is written, the second is not, and an
    // unrelated file is untouched.
    let mut lockfile = LockFile::empty("apicurio-sync.lock".to_string());
    lockfile.pull.insert(
        "schemas/a1.avsc".to_string(),
        LockedPullRef {
            group: "g1".to_string(),
            artifact: "a1".to_string(),
            version: "3".to_string(),
            global_id: 42,
            artifact_type: ArtifactType::Avro,
        },
    );
    lockfile.pull.insert(
        "schemas/missing.avsc".to_string(),
        LockedPullRef {
            group: "g1".to_string(),
            artifact: "a2".to_string(),
            version: "1".to_string(),
            global_id: 77,
            artifact_type: ArtifactType::Avro,
        },
    );
    let provider = registry_with_content();
    let plan = Plan::new(test_context()).merge_with_lockfile(&lockfile);

    let mut workdir: StringMap<Vec<u8>> = StringMap::new();
    workdir.insert("unrelated.txt".to_string(), b"keep me".to_vec());
    let result = pull_artifacts(&provider, &plan, &mut workdir, &Auth::Anonymous);
    assert!(result.is_err());
    assert_eq!(
        workdir
            .get(&"schemas/a1.avsc".to_string())
            .unwrap()
            .as_slice(),
        b"{\"type\": \"record\"}"
    );
    assert!(workdir.get(&"schemas/missing.avsc".to_string()).is_none());
    assert_eq!(
        workdir.get(&"unrelated.txt".to_string()).unwrap().as_slice(),
        b"keep me"
    );
}
