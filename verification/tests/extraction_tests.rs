//! Declaration extraction exercised on real parsed sources.

use uptix::deps::collect_ast_dependencies;
use uptix::deps::Dependency;
use uptix::error::Error;
use uptix::nix::Node;
use uptix::nix::NodeKind;
use uptix::nix::ParsingContext;

fn convert(n: &rnix::SyntaxNode) -> Node {
    let kind = match n.kind() {
        rnix::SyntaxKind::NODE_SELECT => NodeKind::Select,
        rnix::SyntaxKind::NODE_STRING => NodeKind::Str,
        rnix::SyntaxKind::NODE_ATTR_SET => NodeKind::AttrSet,
        rnix::SyntaxKind::NODE_KEY_VALUE => NodeKind::KeyValue,
        rnix::SyntaxKind::NODE_LITERAL => match n.first_token() {
            Some(t) if t.kind() == rnix::SyntaxKind::TOKEN_INTEGER => NodeKind::Integer,
            Some(t) if t.kind() == rnix::SyntaxKind::TOKEN_FLOAT => NodeKind::Float,
            _ => NodeKind::Other,
        },
        _ => NodeKind::Other,
    };
    Node {
        kind,
        text: n.text().to_string(),
        start: usize::from(n.text_range().start()),
        len: usize::from(n.text_range().len()),
        children: n.children().map(|c| convert(&c)).collect(),
    }
}

fn deps(source: &str) -> Result<Vec<Dependency>, Error> {
    let ast = rnix::parse(source);
    let root = convert(&ast.node());
    let context = ParsingContext::new("./test.nix", source);
    collect_ast_dependencies(&context, &root)
}

#[test]
fn docker_it_parses() {
    let dependencies: Vec<_> = deps(
        r#"{
            hass = uptix.dockerImage "homeassistant/home-assistant:stable";
            customRepo = uptix.dockerImage "foo.io/baz/bar";
            postgres = uptix.dockerImage "postgres:15";
            redis = uptix.dockerImage "redis:7-alpine";
            clickhouse = uptix.dockerImage "clickhouse/clickhouse-server:23.11";
        }"#,
    )
    .unwrap()
    .iter()
    .map(|d| d.as_docker().unwrap().clone())
    .collect();
    let expected_dependencies = vec![
        uptix::deps::docker::Docker {
            name: "homeassistant/home-assistant:stable".to_string(),
            registry: "registry-1.docker.io".to_string(),
            image: "homeassistant/home-assistant".to_string(),
            tag: "stable".to_string(),
            use_https: true,
        },
        uptix::deps::docker::Docker {
            name: "foo.io/baz/bar".to_string(),
            registry: "foo.io".to_string(),
            image: "baz/bar".to_string(),
            tag: "latest".to_string(),
            use_https: true,
        },
        uptix::deps::docker::Docker {
            name: "postgres:15".to_string(),
            registry: "registry-1.docker.io".to_string(),
            image: "postgres".to_string(),
            tag: "15".to_string(),
            use_https: true,
        },
        uptix::deps::docker::Docker {
            name: "redis:7-alpine".to_string(),
            registry: "registry-1.docker.io".to_string(),
            image: "redis".to_string(),
            tag: "7-alpine".to_string(),
            use_https: true,
        },
        uptix::deps::docker::Docker {
            name: "clickhouse/clickhouse-server:23.11".to_string(),
            registry: "registry-1.docker.io".to_string(),
            image: "clickhouse/clickhouse-server".to_string(),
            tag: "23.11".to_string(),
            use_https: true,
        },
    ];
    assert_eq!(dependencies, expected_dependencies);
}

#[test]
fn docker_it_provides_helpful_errors() {
    let result = deps("{ hass = uptix.dockerImage 42; }");
    assert!(result.is_err());
    match result {
        Err(Error::UnexpectedArgument {
            function,
            src: _,
            argument_pos,
            expected_type,
            help: _,
        }) => {
            assert_eq!(function, "uptix.dockerImage");
            assert_eq!(expected_type, "NODE_STRING");
            assert_eq!(argument_pos.start, 27);
            assert_eq!(argument_pos.len, 2);
        }
        _ => assert!(false),
    }
}

#[test]
fn release_it_provides_helpful_errors() {
    let result = deps("{ hass = uptix.githubRelease 42; }");
    assert!(result.is_err());
    match result {
        Err(Error::UnexpectedArgument {
            function,
            src: _,
            argument_pos,
            expected_type,
            help: _,
        }) => {
            assert_eq!(function, "uptix.githubRelease");
            assert_eq!(expected_type, "NODE_ATTR_SET");
            assert_eq!(argument_pos.start, 29);
            assert_eq!(argument_pos.len, 2);
        }
        _ => assert!(false),
    }
}

#[test]
fn invalid_uptix_function() {
    let dependencies: Vec<_> = deps(
        r#"{
                uptixModule = uptix.nixosModules.uptix ./uptix.lock;
                version = uptix.version release;
            }"#,
    )
    .unwrap();
    assert_eq!(dependencies.len(), 0);
}

#[test]
fn branch_it_parses() {
    let ast = rnix::parse(
        r#"{
                uptix = fetchFromGitHub (uptix.githubBranch {
                    owner = "luizribeiro";
                    repo = "uptix";
                    branch = "main";
                });
            }"#,
    );
    let root = convert(&ast.node());
    let context = ParsingContext::new("./test.nix", "");
    let dependencies: Vec<_> = collect_ast_dependencies(&context, &root)
        .unwrap()
        .iter()
        .map(|d| d.as_git_hub_branch().unwrap().clone())
        .collect();
    let expected_dependencies = vec![uptix::deps::branch::GitHubBranch {
        owner: "luizribeiro".to_string(),
        repo: "uptix".to_string(),
        branch: "main".to_string(),
        ..Default::default()
    }];
    assert_eq!(dependencies, expected_dependencies);
}

#[test]
fn release_it_parses() {
    let dependencies: Vec<_> = deps(
        r#"{
                uptix = fetchFromGitHub (uptix.githubRelease {
                    owner = "luizribeiro";
                    repo = "uptix";
                });
            }"#,
    )
    .unwrap()
    .iter()
    .map(|d| d.as_git_hub_release().unwrap().clone())
    .collect();
    let expected_dependencies = vec![uptix::deps::release::GitHubRelease {
        owner: "luizribeiro".to_string(),
        repo: "uptix".to_string(),
        ..Default::default()
    }];
    assert_eq!(dependencies, expected_dependencies);
}

#[test]
fn extraction_without_call_sites_is_empty() {
    let dependencies = deps(
        r#"{
            a = "plain";
            b = { c = 42; };
            d = someFunction "argument";
        }"#,
    )
    .unwrap();
    assert_eq!(dependencies.len(), 0);
}

#[test]
fn nested_declarations_are_found_in_source_order() {
    let dependencies = deps(
        r#"{
            outer = {
                one = uptix.dockerImage "postgres:15";
            };
            two = uptix.dockerImage "redis:7";
        }"#,
    )
    .unwrap();
    let keys: Vec<String> = dependencies.iter().map(|d| d.key()).collect();
    assert_eq!(keys, vec!["postgres:15".to_string(), "redis:7".to_string()]);
}

#[test]
fn malformed_image_reference_fails_extraction() {
    let result = deps(r#"{ bad = uptix.dockerImage "Not_An_Image"; }"#);
    match result {
        Err(Error::StringError(msg)) => assert_eq!(msg, "Malformatted Docker image"),
        _ => assert!(false),
    }
}

#[test]
fn missing_attribute_fails_extraction() {
    let result = deps(r#"{ dep = uptix.githubRelease { owner = "luizribeiro"; }; }"#);
    match result {
        Err(Error::NixParsingError(msg)) => assert_eq!(msg, "missing attribute: repo"),
        _ => assert!(false),
    }
}

#[test]
fn float_bindings_under_unread_keys_are_tolerated() {
    let dependencies = deps(
        r#"{
                uptix = fetchFromGitHub (uptix.githubRelease {
                    owner = "luizribeiro";
                    repo = "uptix";
                    weight = 3.14;
                });
            }"#,
    )
    .unwrap();
    assert_eq!(dependencies.len(), 1);
    assert_eq!(dependencies[0].key(), "$GITHUB_RELEASE$:luizribeiro/uptix$");
}

#[test]
fn float_bindings_under_read_keys_are_rejected() {
    let result = deps(r#"{ dep = uptix.githubRelease { owner = 3.14; repo = "uptix"; }; }"#);
    match result {
        Err(Error::NixParsingError(msg)) => assert_eq!(msg, "attribute is not a string: owner"),
        _ => assert!(false),
    }
}
