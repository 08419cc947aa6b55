//! Keys, flag suffixes and match predicates of the source-host variants.

use uptix::deps::branch::GitHubBranch;
use uptix::deps::github::flags;
use uptix::deps::github::prefetch_args;
use uptix::deps::release::GitHubRelease;
use uptix::util::user_agent;

#[test]
fn branch_it_has_a_key() {
    let dependency = GitHubBranch {
        owner: "luizribeiro".to_string(),
        repo: "uptix".to_string(),
        branch: "main".to_string(),
        ..Default::default()
    };
    assert_eq!(dependency.key(), "$GITHUB_BRANCH$:luizribeiro/uptix:main");
}

#[test]
fn release_it_has_a_key() {
    let dependency = GitHubRelease {
        owner: "luizribeiro".to_string(),
        repo: "uptix".to_string(),
        ..Default::default()
    };
    assert_eq!(dependency.key(), "$GITHUB_RELEASE$:luizribeiro/uptix$");
}

#[test]
fn test_github_release_matches() {
    let release = GitHubRelease {
        owner: "luizribeiro".to_string(),
        repo: "uptix".to_string(),
        ..Default::default()
    };

    // Should match the internal key format
    assert!(release.matches("$GITHUB_RELEASE$:luizribeiro/uptix$"));

    // Should match owner/repo format (for releases)
    assert!(release.matches("luizribeiro/uptix"));

    // Should not match with branch format
    assert!(!release.matches("luizribeiro/uptix:main"));

    // Should not match different repos
    assert!(!release.matches("other/repo"));
    assert!(!release.matches("luizribeiro/other"));

    // Should not match partial names
    assert!(!release.matches("luizribeiro"));
    assert!(!release.matches("uptix"));
}

#[test]
fn test_github_release_with_flags_matches() {
    let release = GitHubRelease {
        owner: "luizribeiro".to_string(),
        repo: "uptix".to_string(),
        fetchSubmodules: Some(true),
        ..Default::default()
    };

    // Should match the internal key format with flags
    assert!(release.matches("$GITHUB_RELEASE$:luizribeiro/uptix$f"));

    // Should still match the simple format
    assert!(release.matches("luizribeiro/uptix"));
}

#[test]
fn branch_matches_exact_key_only() {
    let branch = GitHubBranch {
        owner: "luizribeiro".to_string(),
        repo: "uptix".to_string(),
        branch: "main".to_string(),
        ..Default::default()
    };
    assert!(branch.matches("$GITHUB_BRANCH$:luizribeiro/uptix:main"));
    assert!(!branch.matches("luizribeiro/uptix"));
    assert!(!branch.matches("luizribeiro/uptix:main"));
    assert!(!branch.matches("main"));
}

#[test]
fn flag_suffixes_are_distinct() {
    let mut seen: Vec<String> = Vec::new();
    for fs in [None, Some(false), Some(true)] {
        for dc in [None, Some(true)] {
            for ldg in [None, Some(true)] {
                seen.push(flags(fs, dc, ldg));
            }
        }
    }
    assert_eq!(seen[0], "");
    assert_eq!(seen[1], "l");
    assert_eq!(seen[2], "d");
    assert_eq!(seen[3], "dl");
    // `Some(false)` spells the same suffix as `None`
    assert_eq!(seen[4], "");
    assert_eq!(flags(Some(true), None, None), "f");
    assert_eq!(flags(Some(true), Some(true), Some(true)), "fdl");
    assert_eq!(flags(None, None, Some(true)), "l");
    assert_eq!(flags(Some(true), None, Some(true)), "fl");
}

#[test]
fn prefetch_switches_follow_the_flags() {
    assert_eq!(prefetch_args(None, None, None), vec!["--no-deepClone".to_string()]);
    assert_eq!(
        prefetch_args(Some(true), None, None),
        vec!["--no-deepClone".to_string(), "--fetch-submodules".to_string()]
    );
    // a deep clone implies keeping the source-control metadata
    assert_eq!(
        prefetch_args(None, Some(true), None),
        vec!["--deepClone".to_string(), "--leave-dotGit".to_string()]
    );
    assert_eq!(
        prefetch_args(None, None, Some(true)),
        vec!["--no-deepClone".to_string(), "--leave-dotGit".to_string()]
    );
}

#[test]
fn api_urls_use_defaults_and_overrides() {
    let branch = GitHubBranch {
        owner: "luizribeiro".to_string(),
        repo: "uptix".to_string(),
        branch: "main".to_string(),
        ..Default::default()
    };
    assert_eq!(
        branch.api_url(),
        "https://api.github.com/repos/luizribeiro/uptix/branches/main"
    );

    let release = GitHubRelease {
        owner: "luizribeiro".to_string(),
        repo: "uptix".to_string(),
        override_scheme: Some("http".to_string()),
        override_domain: Some("127.0.0.1:4444".to_string()),
        ..Default::default()
    };
    assert_eq!(
        release.api_url(),
        "http://127.0.0.1:4444/repos/luizribeiro/uptix/releases/latest"
    );
}

#[test]
fn the_user_agent_names_the_tool() {
    assert_eq!(user_agent(), "uptix/0.1.0");
}

#[test]
fn repo_url_for_hashing() {
    assert_eq!(
        uptix::deps::github::github_repo_url("luizribeiro", "uptix"),
        "https://github.com/luizribeiro/uptix/"
    );
}
