//! Source-release dependencies: a declaration naming an owner and a
//! repository, resolved to the latest release's tag plus a content hash.

use vstd::prelude::*;

verus! {

use crate::deps::github::attrs_value_of;
use crate::deps::github::flag_on;
use crate::deps::github::flags;
use crate::deps::github::opt_string;
use crate::deps::github::req_string;
use crate::deps::github::absent;
use crate::deps::github::spec_absent;
use crate::deps::github::spec_flags;
use crate::deps::github::spec_opt_string;
use crate::deps::github::spec_req_string;
use crate::deps::github::GitHubLock;
use crate::deps::github::GitHubLockV;
use crate::deps::DependencyMetadata;
use crate::deps::DependencyMetadataV;
use crate::deps::LockEntry;
use crate::deps::LockEntryV;
use crate::deps::LockValue;
use crate::deps::LockValueV;
use crate::deps::opt_view;
use crate::deps::docker::first_ix;
use crate::deps::docker::lemma_first_ix_is;
use crate::error::Error;
use crate::error::ErrorV;
use crate::nix::assert_kind;
use crate::nix::spec_unexpected_argument;
use crate::nix::spec_value_from_node;
use crate::nix::NixValueV;
use crate::nix::Node;
use crate::nix::NodeKind;
use crate::nix::ParsingContext;
use crate::strutil::cat;
use crate::strutil::contains_char;
use crate::strutil::find_char;
use crate::strutil::str_eq;
use vstd::string::StrSliceExecFns;

/// A declared source-release dependency: like a branch dependency minus the
/// ref, resolved against the latest published release instead. The three
/// optional flags parameterize the content hashing.
#[derive(Debug, PartialEq, Default)]
#[allow(non_snake_case)]
pub struct GitHubRelease {
    pub owner: String,
    pub repo: String,
    pub fetchSubmodules: Option<bool>,
    pub deepClone: Option<bool>,
    pub leaveDotGit: Option<bool>,
    pub override_scheme: Option<String>,
    pub override_domain: Option<String>,
    pub override_nix_sha256: Option<String>,
}

/// Mathematical image of a `GitHubRelease`.
pub struct GitHubReleaseV {
    pub owner: Seq<char>,
    pub repo: Seq<char>,
    pub fetch_submodules: Option<bool>,
    pub deep_clone: Option<bool>,
    pub leave_dot_git: Option<bool>,
    pub override_scheme: Option<Seq<char>>,
    pub override_domain: Option<Seq<char>>,
    pub override_nix_sha256: Option<Seq<char>>,
}

impl Clone for GitHubRelease {
    fn clone(&self) -> (res: Self)
        ensures
            res == *self,
    {
        GitHubRelease {
            owner: self.owner.clone(),
            repo: self.repo.clone(),
            fetchSubmodules: self.fetchSubmodules,
            deepClone: self.deepClone,
            leaveDotGit: self.leaveDotGit,
            override_scheme: crate::strutil::clone_opt_string(&self.override_scheme),
            override_domain: crate::strutil::clone_opt_string(&self.override_domain),
            override_nix_sha256: crate::strutil::clone_opt_string(&self.override_nix_sha256),
        }
    }
}

impl View for GitHubRelease {
    type V = GitHubReleaseV;

    open spec fn view(&self) -> GitHubReleaseV {
        GitHubReleaseV {
            owner: self.owner@,
            repo: self.repo@,
            fetch_submodules: self.fetchSubmodules,
            deep_clone: self.deepClone,
            leave_dot_git: self.leaveDotGit,
            override_scheme: opt_view(self.override_scheme),
            override_domain: opt_view(self.override_domain),
            override_nix_sha256: opt_view(self.override_nix_sha256),
        }
    }
}

/// The fields a release declaration must and may carry. The hashing flags
/// have no readable spelling in a declaration, so their presence is
/// rejected and they stay unset; a stored lock entry is what sets them.
pub open spec fn spec_release_from_attrs(ps: Seq<(Seq<char>, NixValueV)>) -> Result<
    GitHubReleaseV,
    ErrorV,
> {
    match spec_req_string(ps, "owner"@) {
        Err(e) => Err(e),
        Ok(owner) => match spec_req_string(ps, "repo"@) {
            Err(e) => Err(e),
            Ok(repo) => match spec_absent(ps, "fetchSubmodules"@) {
                Err(e) => Err(e),
                Ok(_) => match spec_absent(ps, "deepClone"@) {
                    Err(e) => Err(e),
                    Ok(_) => match spec_absent(ps, "leaveDotGit"@) {
                        Err(e) => Err(e),
                        Ok(_) => match spec_opt_string(ps, "override_scheme"@) {
                            Err(e) => Err(e),
                            Ok(os) => match spec_opt_string(ps, "override_domain"@) {
                                Err(e) => Err(e),
                                Ok(od) => match spec_opt_string(ps, "override_nix_sha256"@) {
                                    Err(e) => Err(e),
                                    Ok(oh) => Ok(
                                        GitHubReleaseV {
                                            owner,
                                            repo,
                                            fetch_submodules: None,
                                            deep_clone: None,
                                            leave_dot_git: None,
                                            override_scheme: os,
                                            override_domain: od,
                                            override_nix_sha256: oh,
                                        },
                                    ),
                                },
                            },
                        },
                    },
                },
            },
        },
    }
}

/// What building a release dependency from one call-site argument yields.
pub open spec fn spec_release_new(ctx: ParsingContext, node: Node) -> Result<
    GitHubReleaseV,
    ErrorV,
> {
    if node.kind != NodeKind::AttrSet {
        Err(
            spec_unexpected_argument(
                ctx,
                "uptix.githubRelease"@,
                node,
                NodeKind::AttrSet,
                release_help_text_spec(),
            ),
        )
    } else {
        match spec_value_from_node(node) {
            Err(e) => Err(e),
            Ok(v) => match v {
                NixValueV::Attrs(ps) => spec_release_from_attrs(ps),
                _ => Err(ErrorV::NixParsingError("Unexpected node"@)),
            },
        }
    }
}

/// The guidance shown when a `githubRelease` declaration has the wrong
/// shape.
pub fn release_help_text() -> (r: &'static str)
    ensures
        r@ == release_help_text_spec(),
{
    "here is an example of valid usage:\n\n  uptix.githubRelease {\n    owner = \"luizribeiro\";\n    repo = \"uptix\";\n  }"
}

pub open spec fn release_help_text_spec() -> Seq<char> {
    "here is an example of valid usage:\n\n  uptix.githubRelease {\n    owner = \"luizribeiro\";\n    repo = \"uptix\";\n  }"@
}

/// The lock entry a resolved release is persisted as.
pub open spec fn spec_release_lock_entry(g: GitHubReleaseV, rev: Seq<char>, sha256: Seq<char>) -> LockEntryV {
    LockEntryV {
        metadata: DependencyMetadataV {
            name: g.owner + "/"@ + g.repo,
            selected_version: Some("latest"@),
            resolved_version: Some(rev),
            timestamp: None,
            dep_type: "github-release"@,
            description: "GitHub release from "@ + g.owner + "/"@ + g.repo,
        },
        lock: LockValueV::GitHub(
            GitHubLockV {
                owner: g.owner,
                repo: g.repo,
                rev,
                sha256,
                fetch_submodules: flag_on(g.fetch_submodules),
                deep_clone: flag_on(g.deep_clone),
                leave_dot_git: flag_on(g.leave_dot_git),
            },
        ),
    }
}

impl GitHubRelease {
    /// Builds the dependency declared by one `githubRelease` call-site: the
    /// argument must be an attribute set naming owner and repo.
    pub fn new(context: &ParsingContext, node: &Node) -> (r: Result<GitHubRelease, Error>)
        ensures
            match r {
                Ok(g) => spec_release_new(*context, *node) == Ok::<GitHubReleaseV, ErrorV>(g@),
                Err(e) => spec_release_new(*context, *node) == Err::<GitHubReleaseV, ErrorV>(e@),
            },
    {
        let set_node = match assert_kind(
            context,
            "uptix.githubRelease",
            node,
            NodeKind::AttrSet,
            release_help_text(),
        ) {
            Ok(m) => m,
            Err(e) => {
                return Err(e);
            },
        };
        let pairs = match attrs_value_of(set_node) {
            Ok(ps) => ps,
            Err(e) => {
                return Err(e);
            },
        };
        let owner = match req_string(&pairs, "owner") {
            Ok(s) => s,
            Err(e) => {
                return Err(e);
            },
        };
        let repo = match req_string(&pairs, "repo") {
            Ok(s) => s,
            Err(e) => {
                return Err(e);
            },
        };
        match absent(&pairs, "fetchSubmodules") {
            Ok(_) => {},
            Err(e) => {
                return Err(e);
            },
        };
        match absent(&pairs, "deepClone") {
            Ok(_) => {},
            Err(e) => {
                return Err(e);
            },
        };
        match absent(&pairs, "leaveDotGit") {
            Ok(_) => {},
            Err(e) => {
                return Err(e);
            },
        };
        let override_scheme = match opt_string(&pairs, "override_scheme") {
            Ok(s) => s,
            Err(e) => {
                return Err(e);
            },
        };
        let override_domain = match opt_string(&pairs, "override_domain") {
            Ok(s) => s,
            Err(e) => {
                return Err(e);
            },
        };
        let override_nix_sha256 = match opt_string(&pairs, "override_nix_sha256") {
            Ok(s) => s,
            Err(e) => {
                return Err(e);
            },
        };
        Ok(
            GitHubRelease {
                owner,
                repo,
                fetchSubmodules: None,
                deepClone: None,
                leaveDotGit: None,
                override_scheme,
                override_domain,
                override_nix_sha256,
            },
        )
    }

    /// The stable key of a release dependency: a type tag, the repository
    /// coordinates, and the compact flag suffix.
    pub open spec fn spec_key(&self) -> Seq<char> {
        "$GITHUB_RELEASE$:"@ + self.owner@ + "/"@ + self.repo@ + "$"@ + spec_flags(
            self.fetchSubmodules,
            self.deepClone,
            self.leaveDotGit,
        )
    }

    pub fn key(&self) -> (r: String)
        ensures
            r@ == self.spec_key(),
    {
        let s = cat("$GITHUB_RELEASE$:", self.owner.as_str());
        let s = cat(s.as_str(), "/");
        let s = cat(s.as_str(), self.repo.as_str());
        let s = cat(s.as_str(), "$");
        let f = flags(self.fetchSubmodules, self.deepClone, self.leaveDotGit);
        cat(s.as_str(), f.as_str())
    }

    /// The ergonomic match predicate: the exact internal key, or the bare
    /// `owner/repo` form when the pattern carries no branch qualifier.
    pub open spec fn spec_matches(&self, p: Seq<char>) -> bool {
        p == self.spec_key() || (!p.contains(':') && p.contains('/') && !p.skip(
            first_ix(p, '/') + 1,
        ).contains('/') && p.take(first_ix(p, '/')) == self.owner@ && p.skip(first_ix(p, '/') + 1)
            == self.repo@)
    }

    pub fn matches(&self, pattern: &str) -> (r: bool)
        ensures
            r == self.spec_matches(pattern@),
    {
        let key = self.key();
        if str_eq(pattern, key.as_str()) {
            return true;
        }
        if contains_char(pattern, ':') {
            return false;
        }
        let slash = find_char(pattern, '/');
        match slash {
            Some(si) => {
                proof {
                    lemma_first_ix_is(pattern@, '/', si as int);
                }
                let n = pattern.unicode_len();
                let first = pattern.substring_char(0, si);
                let rest = pattern.substring_char(si + 1, n);
                proof {
                    assert(first@ =~= pattern@.take(si as int));
                    assert(rest@ =~= pattern@.skip(si as int + 1));
                }
                if contains_char(rest, '/') {
                    return false;
                }
                str_eq(first, self.owner.as_str()) && str_eq(rest, self.repo.as_str())
            },
            None => {
                proof {
                    assert(!pattern@.contains('/')) by {
                        if pattern@.contains('/') {
                            let w = choose|w: int|
                                0 <= w < pattern@.len() && pattern@[w] == '/';
                            assert(pattern@[w] != '/');
                        }
                    }
                }
                false
            },
        }
    }

    /// The API address the latest release is fetched from; the defaults can
    /// be overridden for tests or alternate hosts.
    pub fn api_url(&self) -> (r: String)
        ensures
            r@ == (match self@.override_scheme {
                Some(s) => s,
                None => "https"@,
            }) + "://"@ + (match self@.override_domain {
                Some(d) => d,
                None => "api.github.com"@,
            }) + "/repos/"@ + self.owner@ + "/"@ + self.repo@ + "/releases/latest"@,
    {
        let scheme: &str = match &self.override_scheme {
            Some(s) => s.as_str(),
            None => "https",
        };
        let domain: &str = match &self.override_domain {
            Some(d) => d.as_str(),
            None => "api.github.com",
        };
        let s = cat(scheme, "://");
        let s = cat(s.as_str(), domain);
        let s = cat(s.as_str(), "/repos/");
        let s = cat(s.as_str(), self.owner.as_str());
        let s = cat(s.as_str(), "/");
        let s = cat(s.as_str(), self.repo.as_str());
        cat(s.as_str(), "/releases/latest")
    }

    /// Whether resolving must invoke the external hashing tool, or the
    /// declaration supplied the content hash itself.
    pub fn needs_external_hash(&self) -> (r: bool)
        ensures
            r == (self@.override_nix_sha256 is None),
    {
        self.override_nix_sha256.is_none()
    }

    /// Packages a resolved release tag and content hash into the persisted
    /// lock entry; a hash override from the declaration wins over one
    /// computed outside, and the stored hash is never empty.
    pub fn lock_with_metadata_from(&self, rev: String, external_hash: Option<String>) -> (r:
        LockEntry)
        requires
            match self@.override_nix_sha256 {
                Some(h) => h.len() > 0,
                None => external_hash matches Some(h2) && h2@.len() > 0,
            },
        ensures
            r@ == spec_release_lock_entry(
                self@,
                rev@,
                match self@.override_nix_sha256 {
                    Some(h) => h,
                    None => external_hash->Some_0@,
                },
            ),
    {
        let sha256 = match &self.override_nix_sha256 {
            Some(h) => h.clone(),
            None => external_hash.unwrap(),
        };
        let name = cat(cat(self.owner.as_str(), "/").as_str(), self.repo.as_str());
        let description = cat("GitHub release from ", name.as_str());
        proof {
            assert(description@ =~= "GitHub release from "@ + self.owner@ + "/"@ + self.repo@);
        }
        let metadata = DependencyMetadata {
            name,
            selected_version: Some("latest".to_owned()),
            resolved_version: Some(rev.clone()),
            timestamp: None,
            dep_type: "github-release".to_owned(),
            description,
        };
        LockEntry {
            metadata,
            lock: LockValue::GitHub(
                GitHubLock {
                    owner: self.owner.clone(),
                    repo: self.repo.clone(),
                    rev,
                    sha256,
                    fetchSubmodules: self.fetchSubmodules.unwrap_or(false),
                    deepClone: self.deepClone.unwrap_or(false),
                    leaveDotGit: self.leaveDotGit.unwrap_or(false),
                },
            ),
        }
    }

    /// Reconstructs a release dependency from a lock entry, purely from the
    /// stored payload.
    pub fn from_lock_entry(entry: &LockEntry) -> (r: Option<GitHubRelease>)
        ensures
            match r {
                Some(g) => entry.lock matches LockValue::GitHub(gl) && g@ == (GitHubReleaseV {
                    owner: gl.owner@,
                    repo: gl.repo@,
                    fetch_submodules: Some(gl.fetchSubmodules),
                    deep_clone: Some(gl.deepClone),
                    leave_dot_git: Some(gl.leaveDotGit),
                    override_scheme: None,
                    override_domain: None,
                    override_nix_sha256: None,
                }),
                None => !(entry.lock is GitHub),
            },
    {
        let gl = match &entry.lock {
            LockValue::GitHub(g) => g,
            LockValue::Text(_) => {
                return None;
            },
        };
        Some(
            GitHubRelease {
                owner: gl.owner.clone(),
                repo: gl.repo.clone(),
                fetchSubmodules: Some(gl.fetchSubmodules),
                deepClone: Some(gl.deepClone),
                leaveDotGit: Some(gl.leaveDotGit),
                override_scheme: None,
                override_domain: None,
                override_nix_sha256: None,
            },
        )
    }

    /// The human label of this dependency kind; the implied `latest`
    /// selector adds nothing and is omitted.
    pub fn type_display(&self) -> (r: String)
        ensures
            r@ == "github-release"@,
    {
        "github-release".to_owned()
    }

    /// Release tags are already human-readable and pass through unchanged.
    pub fn friendly_version(&self, resolved_version: &str) -> (r: String)
        ensures
            r@ == resolved_version@,
    {
        resolved_version.to_owned()
    }
}

} // verus!
