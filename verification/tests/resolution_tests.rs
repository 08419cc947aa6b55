//! The pure decision steps of resolution, exercised end to end on the same
//! values a live registry or source host would produce.

use uptix::deps::docker::digest_resolution;
use uptix::deps::docker::dockerhub_credentials;
use uptix::deps::docker::manifest_metadata_step;
use uptix::deps::docker::pick_credentials;
use uptix::deps::docker::select_friendly_version;
use uptix::deps::docker::Docker;
use uptix::deps::docker::FetchOutcome;
use uptix::deps::docker::ManifestKind;
use uptix::deps::docker::MetadataStep;
use uptix::deps::release::GitHubRelease;
use uptix::deps::branch::GitHubBranch;
use uptix::deps::Dependency;
use uptix::deps::LockValue;
use uptix::deps::Resolution;
use uptix::error::Error;

#[test]
fn a_public_image_resolves_from_the_unauthenticated_attempt() {
    // a source declaring postgres:15, a registry answering the first
    // manifest request with a digest
    let dep = Dependency::Docker(Docker::from("postgres:15").unwrap());
    let digest = digest_resolution(
        FetchOutcome::Found("sha256:abc123".to_string()),
        None,
    )
    .unwrap();
    let entry = dep
        .lock_with_metadata_from(Resolution::Container {
            digest,
            friendly: None,
            timestamp: None,
        })
        .unwrap();
    assert_eq!(entry.metadata.name, "postgres:15");
    assert_eq!(entry.metadata.selected_version, Some("15".to_string()));
    assert_eq!(entry.metadata.resolved_version, Some("sha256:abc123".to_string()));
    assert_eq!(entry.metadata.dep_type, "docker");
    assert_eq!(
        entry.metadata.description,
        "Docker image postgres:15 from registry-1.docker.io"
    );
    assert_eq!(entry.lock, LockValue::Text("sha256:abc123".to_string()));
}

#[test]
fn enrichment_prefers_the_version_label() {
    let labels = vec![
        ("org.opencontainers.image.version".to_string(), "2024.11.3".to_string()),
        ("maintainer".to_string(), "Home Assistant".to_string()),
    ];
    let created = Some("2024-11-03T10:23:45Z".to_string());
    assert_eq!(select_friendly_version(&labels, &created), Some("2024.11.3".to_string()));

    let dep = Docker::from("homeassistant/home-assistant:stable").unwrap();
    let entry = dep
        .lock_with_metadata_from(
            Some("sha256:actualdigest456".to_string()),
            select_friendly_version(&labels, &created),
            created,
        )
        .unwrap();
    assert_eq!(entry.metadata.resolved_version, Some("2024.11.3".to_string()));
    assert_eq!(entry.metadata.timestamp, Some("2024-11-03T10:23:45Z".to_string()));
    assert_eq!(entry.lock, LockValue::Text("sha256:actualdigest456".to_string()));
}

#[test]
fn enrichment_falls_back_to_the_creation_date() {
    let labels = vec![("maintainer".to_string(), "My Company".to_string())];
    let created = Some("2024-11-01T14:32:10Z".to_string());
    assert_eq!(select_friendly_version(&labels, &created), Some("2024-11-01".to_string()));

    let secondary = vec![("version".to_string(), "15.2".to_string())];
    assert_eq!(select_friendly_version(&secondary, &created), Some("15.2".to_string()));

    assert_eq!(select_friendly_version(&labels, &None), None);
}

#[test]
fn the_digest_is_required_for_a_lock_entry() {
    let dep = Docker::from("postgres:15").unwrap();
    match dep.lock_with_metadata_from(None, None, None) {
        Err(Error::StringError(msg)) => {
            assert_eq!(msg, "Could not find digest for image postgres:15 on registry");
        }
        _ => assert!(false),
    }
    // an empty digest is no digest: a successful entry never carries an
    // empty payload
    match dep.lock_with_metadata_from(Some(String::new()), None, None) {
        Err(Error::StringError(msg)) => {
            assert_eq!(msg, "Could not find digest for image postgres:15 on registry");
        }
        _ => assert!(false),
    }
}

#[test]
fn the_authenticated_attempt_decides_after_a_failure() {
    let r = digest_resolution(
        FetchOutcome::Failed("unauthorized".to_string()),
        Some(FetchOutcome::Found("sha256:def".to_string())),
    );
    assert_eq!(r.unwrap(), Some("sha256:def".to_string()));

    let r = digest_resolution(
        FetchOutcome::Failed("unauthorized".to_string()),
        Some(FetchOutcome::NotFound),
    );
    assert_eq!(r.unwrap(), None);

    let r = digest_resolution(
        FetchOutcome::Failed("unauthorized".to_string()),
        Some(FetchOutcome::Failed("still unauthorized".to_string())),
    );
    match r {
        Err(Error::RegistryError(msg)) => assert_eq!(msg, "still unauthorized"),
        _ => assert!(false),
    }
}

#[test]
fn multi_platform_manifests_redirect_to_their_first_platform() {
    let step = manifest_metadata_step(ManifestKind::SinglePlatform {
        config_digest: "sha256:cfg".to_string(),
    });
    assert!(matches!(step, MetadataStep::UseConfigDigest(d) if d == "sha256:cfg"));

    let step = manifest_metadata_step(ManifestKind::MultiPlatform {
        first_platform_digest: Some("sha256:platform".to_string()),
    });
    assert!(matches!(step, MetadataStep::NeedPlatformManifest(d) if d == "sha256:platform"));

    let step = manifest_metadata_step(ManifestKind::MultiPlatform {
        first_platform_digest: None,
    });
    assert!(matches!(step, MetadataStep::GiveUp));

    let step = manifest_metadata_step(ManifestKind::Unsupported);
    assert!(matches!(step, MetadataStep::GiveUp));
}

#[test]
fn a_release_with_a_hash_override_skips_external_hashing() {
    // a release dependency with a pre-supplied content hash and a mocked
    // "latest release" answer of v1.2.0
    let release = GitHubRelease {
        owner: "owner".to_string(),
        repo: "repo".to_string(),
        override_nix_sha256: Some("1vxzg4wdjvfnc7fjqr9flza5y7gh69w0bpf7mhyf06ddcvq3p00j".to_string()),
        ..Default::default()
    };
    assert!(!release.needs_external_hash());
    let dep = Dependency::GitHubRelease(release);
    let entry = dep
        .lock_with_metadata_from(Resolution::SourceRef {
            rev: "v1.2.0".to_string(),
            hash: None,
        })
        .unwrap();
    assert_eq!(entry.metadata.name, "owner/repo");
    assert_eq!(entry.metadata.selected_version, Some("latest".to_string()));
    assert_eq!(entry.metadata.resolved_version, Some("v1.2.0".to_string()));
    assert_eq!(entry.metadata.dep_type, "github-release");
    match &entry.lock {
        LockValue::GitHub(g) => {
            assert_eq!(g.owner, "owner");
            assert_eq!(g.repo, "repo");
            assert_eq!(g.rev, "v1.2.0");
            assert_eq!(g.sha256, "1vxzg4wdjvfnc7fjqr9flza5y7gh69w0bpf7mhyf06ddcvq3p00j");
            assert!(!g.fetchSubmodules);
            assert!(!g.deepClone);
            assert!(!g.leaveDotGit);
        }
        _ => assert!(false),
    }
}

#[test]
fn a_branch_locks_its_head_commit() {
    let branch = GitHubBranch {
        owner: "luizribeiro".to_string(),
        repo: "uptix".to_string(),
        branch: "main".to_string(),
        override_nix_sha256: Some("1vxzg4wdjvfnc7fjqr9flza5y7gh69w0bpf7mhyf06ddcvq3p00j".to_string()),
        ..Default::default()
    };
    let entry = branch.lock_with_metadata_from(
        "b28012d8b7f8ef54492c66f3a77074391e9818b9".to_string(),
        None,
    );
    assert_eq!(entry.metadata.selected_version, Some("main".to_string()));
    assert_eq!(entry.metadata.dep_type, "github-branch");
    match &entry.lock {
        LockValue::GitHub(g) => {
            assert_eq!(g.rev, "b28012d8b7f8ef54492c66f3a77074391e9818b9");
            assert_eq!(g.sha256, "1vxzg4wdjvfnc7fjqr9flza5y7gh69w0bpf7mhyf06ddcvq3p00j");
        }
        _ => assert!(false),
    }
}

#[test]
fn reconstruction_round_trips_the_key() {
    // container image, explicit tag on the default registry
    let docker = Docker::from("postgres:15").unwrap();
    let dep = Dependency::Docker(docker);
    let entry = dep
        .lock_with_metadata_from(Resolution::Container {
            digest: Some("sha256:abc".to_string()),
            friendly: None,
            timestamp: None,
        })
        .unwrap();
    let back = Dependency::from_lock_entry(&entry).unwrap();
    assert_eq!(back.key(), dep.key());

    // source branch
    let branch = GitHubBranch {
        owner: "o".to_string(),
        repo: "r".to_string(),
        branch: "main".to_string(),
        override_nix_sha256: Some("h".to_string()),
        ..Default::default()
    };
    let dep = Dependency::GitHubBranch(branch);
    let entry = dep
        .lock_with_metadata_from(Resolution::SourceRef { rev: "sha".to_string(), hash: None })
        .unwrap();
    let back = Dependency::from_lock_entry(&entry).unwrap();
    assert_eq!(back.key(), dep.key());

    // source release, with a flag contributing to the key
    let release = GitHubRelease {
        owner: "o".to_string(),
        repo: "r".to_string(),
        fetchSubmodules: Some(true),
        override_nix_sha256: Some("h".to_string()),
        ..Default::default()
    };
    let dep = Dependency::GitHubRelease(release);
    let entry = dep
        .lock_with_metadata_from(Resolution::SourceRef { rev: "v1".to_string(), hash: None })
        .unwrap();
    let back = Dependency::from_lock_entry(&entry).unwrap();
    assert_eq!(back.key(), dep.key());
    assert_eq!(back.key(), "$GITHUB_RELEASE$:o/r$f");
}

#[test]
fn unknown_kind_tags_are_rejected() {
    let mut entry = Dependency::GitHubRelease(GitHubRelease {
        owner: "o".to_string(),
        repo: "r".to_string(),
        override_nix_sha256: Some("h".to_string()),
        ..Default::default()
    })
    .lock_with_metadata_from(Resolution::SourceRef { rev: "v1".to_string(), hash: None })
    .unwrap();
    entry.metadata.dep_type = "mystery".to_string();
    match Dependency::from_lock_entry(&entry) {
        Err(Error::StringError(msg)) => assert_eq!(msg, "Unknown dependency type: mystery"),
        _ => assert!(false),
    }
}

#[test]
fn credentials_decode_from_the_store() {
    // dXNlcjpwYXNz is the standard base64 spelling of user:pass
    let auths = vec![
        ("index.docker.io".to_string(), "dXNlcjpwYXNz".to_string()),
    ];
    assert_eq!(
        dockerhub_credentials(&auths),
        Some(("user".to_string(), "pass".to_string()))
    );

    // the primary alias wins over later ones
    let auths = vec![
        ("docker.io".to_string(), "dXNlcjpwYXNz".to_string()),
        ("https://index.docker.io/v1/".to_string(), "b3RoZXI6c2VjcmV0".to_string()),
    ];
    assert_eq!(
        dockerhub_credentials(&auths),
        Some(("other".to_string(), "secret".to_string()))
    );

    // entries that do not decode to user:pass are passed over
    let auths = vec![
        ("index.docker.io".to_string(), "!!!notbase64!!!".to_string()),
        ("docker.io".to_string(), "dXNlcjpwYXNz".to_string()),
    ];
    assert_eq!(
        dockerhub_credentials(&auths),
        Some(("user".to_string(), "pass".to_string()))
    );

    // unrelated registries supply nothing
    let auths = vec![("ghcr.io".to_string(), "dXNlcjpwYXNz".to_string())];
    assert_eq!(dockerhub_credentials(&auths), None);

    // environment credentials take priority
    let env = Some(("envuser".to_string(), "envtoken".to_string()));
    let store = Some(("user".to_string(), "pass".to_string()));
    assert_eq!(pick_credentials(env.clone(), store.clone()), env);
    assert_eq!(pick_credentials(None, store.clone()), store);
}

#[test]
fn display_helpers_read_the_entry() {
    let dep = Dependency::Docker(Docker::from("postgres:15").unwrap());
    let entry = dep
        .lock_with_metadata_from(Resolution::Container {
            digest: Some(
                "sha256:bc51cf4f1fe02cce7ed2370b20128a9b00b4eb804573a77d2a0d877aaa9c82b1"
                    .to_string(),
            ),
            friendly: None,
            timestamp: None,
        })
        .unwrap();
    assert_eq!(entry.metadata.type_display(&entry).unwrap(), "docker-image (15)");
    assert_eq!(
        entry.metadata.friendly_version_display(&entry).unwrap(),
        "sha256:bc51cf4f1fe0"
    );
}

#[test]
fn reconstruction_preserves_every_reference_shape() {
    // tagless, namespaced and registry-hosted references all round-trip,
    // because the entry stores the raw reference itself
    for reference in ["redis", "postgres:15", "homeassistant/home-assistant:stable",
        "gcr.io/my-project/my-image:latest", "foo.io/baz/bar"]
    {
        let dep = Dependency::Docker(Docker::from(reference).unwrap());
        assert_eq!(dep.key(), reference);
        let entry = dep
            .lock_with_metadata_from(Resolution::Container {
                digest: Some("sha256:abc".to_string()),
                friendly: None,
                timestamp: None,
            })
            .unwrap();
        assert_eq!(entry.metadata.name, reference);
        let back = Dependency::from_lock_entry(&entry).unwrap();
        assert_eq!(back.key(), reference);
    }
}
