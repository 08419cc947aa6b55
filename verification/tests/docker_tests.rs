//! The container-image reference grammar and match predicate.

use uptix::deps::docker::Docker;
use uptix::error::Error;

#[test]
fn test_docker_matches() {
    let docker = Docker {
        registry: "registry-1.docker.io".to_string(),
        image: "postgres".to_string(),
        tag: "15".to_string(),
        name: "postgres:15".to_string(),
        use_https: true,
    };

    // Should match full name with tag
    assert!(docker.matches("postgres:15"));

    // Should match just the image name without tag
    assert!(docker.matches("postgres"));

    // Should not match different image
    assert!(!docker.matches("mysql:8"));
    assert!(!docker.matches("mysql"));

    // Should not match partial names
    assert!(!docker.matches("post"));
}

#[test]
fn test_docker_with_registry_matches() {
    let docker = Docker {
        registry: "gcr.io".to_string(),
        image: "my-project/my-image".to_string(),
        tag: "latest".to_string(),
        name: "gcr.io/my-project/my-image:latest".to_string(),
        use_https: true,
    };

    assert!(docker.matches("gcr.io/my-project/my-image:latest"));
    assert!(!docker.matches("my-project/my-image:latest"));
    assert!(!docker.matches("my-project/my-image"));
}

#[test]
fn it_adds_library_prefix_for_official_images() {
    // An official image on the default registry
    let docker = Docker {
        name: "postgres:15".to_string(),
        registry: "registry-1.docker.io".to_string(),
        image: "postgres".to_string(),
        tag: "15".to_string(),
        use_https: true,
    };

    let image_name = docker.resolved_image_name();

    // Verify that the library/ prefix is added
    assert_eq!(image_name, "library/postgres");

    // Test with a custom registry (should not add library/)
    let docker = Docker {
        name: "postgres:15".to_string(),
        registry: "custom.registry.io".to_string(),
        image: "postgres".to_string(),
        tag: "15".to_string(),
        use_https: true,
    };

    let image_name = docker.resolved_image_name();

    // Verify that the library/ prefix is NOT added for custom registries
    assert_eq!(image_name, "postgres");

    // Test with a namespaced image (should not add library/)
    let docker = Docker {
        name: "bitnami/postgresql:15".to_string(),
        registry: "registry-1.docker.io".to_string(),
        image: "bitnami/postgresql".to_string(),
        tag: "15".to_string(),
        use_https: true,
    };

    let image_name = docker.resolved_image_name();

    // Verify that the library/ prefix is NOT added for namespaced images
    assert_eq!(image_name, "bitnami/postgresql");
}

#[test]
fn it_parses_simple_images() {
    let image = Docker::from("postgres:15").unwrap();
    assert_eq!(image.registry, "registry-1.docker.io");
    assert_eq!(image.image, "postgres");
    assert_eq!(image.tag, "15");

    let image = Docker::from("redis").unwrap();
    assert_eq!(image.registry, "registry-1.docker.io");
    assert_eq!(image.image, "redis");
    assert_eq!(image.tag, "latest");
}

#[test]
fn it_parses_namespaced_images() {
    let image = Docker::from("homeassistant/home-assistant:stable").unwrap();
    assert_eq!(image.registry, "registry-1.docker.io");
    assert_eq!(image.image, "homeassistant/home-assistant");
    assert_eq!(image.tag, "stable");
}

#[test]
fn it_parses_registry_images() {
    let image = Docker::from("ghcr.io/user/app:v1").unwrap();
    assert_eq!(image.registry, "ghcr.io");
    assert_eq!(image.image, "user/app");
    assert_eq!(image.tag, "v1");

    let image = Docker::from("my-registry.example.com/team/project:latest").unwrap();
    assert_eq!(image.registry, "my-registry.example.com");
    assert_eq!(image.image, "team/project");
    assert_eq!(image.tag, "latest");
}

#[test]
fn it_keeps_the_raw_name_and_defaults() {
    let image = Docker::from("foo.io/baz/bar").unwrap();
    assert_eq!(image.name, "foo.io/baz/bar");
    assert_eq!(image.registry, "foo.io");
    assert_eq!(image.image, "baz/bar");
    assert_eq!(image.tag, "latest");
    assert!(image.use_https);
    assert_eq!(image.key(), "foo.io/baz/bar");
}

#[test]
fn it_rejects_malformed_references() {
    for bad in ["", "UPPER", "a//b", "a:b:c", "foo.bar", "a/", "/a", "postgres:"] {
        match Docker::from(bad) {
            Err(Error::StringError(msg)) => assert_eq!(msg, "Malformatted Docker image"),
            _ => panic!("expected {} to be rejected", bad),
        }
    }
}

#[test]
fn it_shortens_digests_for_display() {
    let docker = Docker::from("postgres:15").unwrap();
    assert_eq!(
        docker.friendly_version(
            "sha256:bc51cf4f1fe02cce7ed2370b20128a9b00b4eb804573a77d2a0d877aaa9c82b1"
        ),
        "sha256:bc51cf4f1fe0"
    );
    assert_eq!(docker.friendly_version("sha256:abc"), "sha256:abc");
    assert_eq!(docker.friendly_version("15.2"), "15.2");
}

#[test]
fn it_displays_its_type_with_the_tag() {
    let docker = Docker::from("postgres:15").unwrap();
    assert_eq!(docker.type_display(), "docker-image (15)");
}

#[test]
fn it_computes_the_pull_scope() {
    let docker = Docker::from("postgres:15").unwrap();
    assert_eq!(docker.login_scope(), "repository:library/postgres:pull");
    let docker = Docker::from("ghcr.io/user/app:v1").unwrap();
    assert_eq!(docker.login_scope(), "repository:user/app:pull");
}
