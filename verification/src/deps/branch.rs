//! Source-branch dependencies: a declaration naming an owner, a repository
//! and a branch, resolved to the branch's head commit plus a content hash.

use vstd::prelude::*;

verus! {

use crate::deps::github::attrs_value_of;
use crate::deps::github::spec_req_string;
use crate::deps::github::spec_opt_string;
use crate::deps::github::req_string;
use crate::deps::github::opt_string;
use crate::deps::github::GitHubLock;
use crate::deps::github::GitHubLockV;
use crate::deps::DependencyMetadata;
use crate::deps::DependencyMetadataV;
use crate::deps::LockEntry;
use crate::deps::LockEntryV;
use crate::deps::LockValue;
use crate::deps::LockValueV;
use crate::deps::opt_view;
use crate::error::Error;
use crate::error::ErrorV;
use crate::nix::assert_kind;
use crate::nix::spec_unexpected_argument;
use crate::nix::spec_value_from_node;
use crate::nix::Node;
use crate::nix::NodeKind;
use crate::nix::NixValueV;
use crate::nix::ParsingContext;
use crate::strutil::cat;
use crate::strutil::str_eq;
use vstd::string::StrSliceExecFns;

/// A declared source-branch dependency. The endpoint overrides serve tests
/// and alternate hosts; a pre-supplied content hash bypasses the external
/// hashing tool.
#[derive(Debug, PartialEq, Default)]
pub struct GitHubBranch {
    pub owner: String,
    pub repo: String,
    pub branch: String,
    pub override_scheme: Option<String>,
    pub override_domain: Option<String>,
    pub override_nix_sha256: Option<String>,
}

/// Mathematical image of a `GitHubBranch`.
pub struct GitHubBranchV {
    pub owner: Seq<char>,
    pub repo: Seq<char>,
    pub branch: Seq<char>,
    pub override_scheme: Option<Seq<char>>,
    pub override_domain: Option<Seq<char>>,
    pub override_nix_sha256: Option<Seq<char>>,
}

impl Clone for GitHubBranch {
    fn clone(&self) -> (res: Self)
        ensures
            res == *self,
    {
        GitHubBranch {
            owner: self.owner.clone(),
            repo: self.repo.clone(),
            branch: self.branch.clone(),
            override_scheme: crate::strutil::clone_opt_string(&self.override_scheme),
            override_domain: crate::strutil::clone_opt_string(&self.override_domain),
            override_nix_sha256: crate::strutil::clone_opt_string(&self.override_nix_sha256),
        }
    }
}

impl View for GitHubBranch {
    type V = GitHubBranchV;

    open spec fn view(&self) -> GitHubBranchV {
        GitHubBranchV {
            owner: self.owner@,
            repo: self.repo@,
            branch: self.branch@,
            override_scheme: opt_view(self.override_scheme),
            override_domain: opt_view(self.override_domain),
            override_nix_sha256: opt_view(self.override_nix_sha256),
        }
    }
}

/// The fields a branch declaration must and may carry.
pub open spec fn spec_branch_from_attrs(ps: Seq<(Seq<char>, NixValueV)>) -> Result<
    GitHubBranchV,
    ErrorV,
> {
    match spec_req_string(ps, "owner"@) {
        Err(e) => Err(e),
        Ok(owner) => match spec_req_string(ps, "repo"@) {
            Err(e) => Err(e),
            Ok(repo) => match spec_req_string(ps, "branch"@) {
                Err(e) => Err(e),
                Ok(branch) => match spec_opt_string(ps, "override_scheme"@) {
                    Err(e) => Err(e),
                    Ok(os) => match spec_opt_string(ps, "override_domain"@) {
                        Err(e) => Err(e),
                        Ok(od) => match spec_opt_string(ps, "override_nix_sha256"@) {
                            Err(e) => Err(e),
                            Ok(oh) => Ok(
                                GitHubBranchV {
                                    owner,
                                    repo,
                                    branch,
                                    override_scheme: os,
                                    override_domain: od,
                                    override_nix_sha256: oh,
                                },
                            ),
                        },
                    },
                },
            },
        },
    }
}

/// What building a branch dependency from one call-site argument yields.
pub open spec fn spec_branch_new(ctx: ParsingContext, node: Node) -> Result<
    GitHubBranchV,
    ErrorV,
> {
    if node.kind != NodeKind::AttrSet {
        Err(
            spec_unexpected_argument(
                ctx,
                "uptix.githubBranch"@,
                node,
                NodeKind::AttrSet,
                branch_help_text_spec(),
            ),
        )
    } else {
        match spec_value_from_node(node) {
            Err(e) => Err(e),
            Ok(v) => match v {
                NixValueV::Attrs(ps) => spec_branch_from_attrs(ps),
                _ => Err(ErrorV::NixParsingError("Unexpected node"@)),
            },
        }
    }
}

/// The guidance shown when a `githubBranch` declaration has the wrong shape.
pub fn branch_help_text() -> (r: &'static str)
    ensures
        r@ == branch_help_text_spec(),
{
    "here is an example of valid usage:\n\n  uptix.githubBranch {\n    owner = \"luizribeiro\";\n    repo = \"uptix\";\n    branch = \"main\";\n  }"
}

pub open spec fn branch_help_text_spec() -> Seq<char> {
    "here is an example of valid usage:\n\n  uptix.githubBranch {\n    owner = \"luizribeiro\";\n    repo = \"uptix\";\n    branch = \"main\";\n  }"@
}

/// The lock entry a resolved branch is persisted as.
pub open spec fn spec_branch_lock_entry(b: GitHubBranchV, rev: Seq<char>, sha256: Seq<char>) -> LockEntryV {
    LockEntryV {
        metadata: DependencyMetadataV {
            name: b.owner + "/"@ + b.repo,
            selected_version: Some(b.branch),
            resolved_version: Some(rev),
            timestamp: None,
            dep_type: "github-branch"@,
            description: "GitHub branch "@ + b.branch + " from "@ + b.owner + "/"@ + b.repo,
        },
        lock: LockValueV::GitHub(
            GitHubLockV {
                owner: b.owner,
                repo: b.repo,
                rev,
                sha256,
                fetch_submodules: false,
                deep_clone: false,
                leave_dot_git: false,
            },
        ),
    }
}

impl GitHubBranch {
    /// Builds the dependency declared by one `githubBranch` call-site: the
    /// argument must be an attribute set naming owner, repo and branch.
    pub fn new(context: &ParsingContext, node: &Node) -> (r: Result<GitHubBranch, Error>)
        ensures
            match r {
                Ok(b) => spec_branch_new(*context, *node) == Ok::<GitHubBranchV, ErrorV>(b@),
                Err(e) => spec_branch_new(*context, *node) == Err::<GitHubBranchV, ErrorV>(e@),
            },
    {
        let set_node = match assert_kind(
            context,
            "uptix.githubBranch",
            node,
            NodeKind::AttrSet,
            branch_help_text(),
        ) {
            Ok(m) => m,
            Err(e) => {
                return Err(e);
            },
        };
        let pairs = match attrs_value_of(set_node) {
            Ok(ps) => ps,
            Err(e) => {
                return Err(e);
            },
        };
        let owner = match req_string(&pairs, "owner") {
            Ok(s) => s,
            Err(e) => {
                return Err(e);
            },
        };
        let repo = match req_string(&pairs, "repo") {
            Ok(s) => s,
            Err(e) => {
                return Err(e);
            },
        };
        let branch = match req_string(&pairs, "branch") {
            Ok(s) => s,
            Err(e) => {
                return Err(e);
            },
        };
        let override_scheme = match opt_string(&pairs, "override_scheme") {
            Ok(s) => s,
            Err(e) => {
                return Err(e);
            },
        };
        let override_domain = match opt_string(&pairs, "override_domain") {
            Ok(s) => s,
            Err(e) => {
                return Err(e);
            },
        };
        let override_nix_sha256 = match opt_string(&pairs, "override_nix_sha256") {
            Ok(s) => s,
            Err(e) => {
                return Err(e);
            },
        };
        Ok(GitHubBranch { owner, repo, branch, override_scheme, override_domain, override_nix_sha256 })
    }

    /// The stable key of a branch dependency: a type tag, the repository
    /// coordinates, and the branch name.
    pub open spec fn spec_key(&self) -> Seq<char> {
        "$GITHUB_BRANCH$:"@ + self.owner@ + "/"@ + self.repo@ + ":"@ + self.branch@
    }

    pub fn key(&self) -> (r: String)
        ensures
            r@ == self.spec_key(),
    {
        let s = cat("$GITHUB_BRANCH$:", self.owner.as_str());
        let s = cat(s.as_str(), "/");
        let s = cat(s.as_str(), self.repo.as_str());
        let s = cat(s.as_str(), ":");
        cat(s.as_str(), self.branch.as_str())
    }

    /// Branch dependencies are addressed by their exact internal key only.
    pub open spec fn spec_matches(&self, p: Seq<char>) -> bool {
        p == self.spec_key()
    }

    pub fn matches(&self, pattern: &str) -> (r: bool)
        ensures
            r == self.spec_matches(pattern@),
    {
        let key = self.key();
        str_eq(pattern, key.as_str())
    }

    /// The API address the branch's head commit is fetched from; the
    /// defaults can be overridden for tests or alternate hosts.
    pub fn api_url(&self) -> (r: String)
        ensures
            r@ == (match self@.override_scheme {
                Some(s) => s,
                None => "https"@,
            }) + "://"@ + (match self@.override_domain {
                Some(d) => d,
                None => "api.github.com"@,
            }) + "/repos/"@ + self.owner@ + "/"@ + self.repo@ + "/branches/"@ + self.branch@,
    {
        let scheme: &str = match &self.override_scheme {
            Some(s) => s.as_str(),
            None => "https",
        };
        let domain: &str = match &self.override_domain {
            Some(d) => d.as_str(),
            None => "api.github.com",
        };
        let s = cat(scheme, "://");
        let s = cat(s.as_str(), domain);
        let s = cat(s.as_str(), "/repos/");
        let s = cat(s.as_str(), self.owner.as_str());
        let s = cat(s.as_str(), "/");
        let s = cat(s.as_str(), self.repo.as_str());
        let s = cat(s.as_str(), "/branches/");
        cat(s.as_str(), self.branch.as_str())
    }

    /// Whether resolving must invoke the external hashing tool, or the
    /// declaration supplied the content hash itself.
    pub fn needs_external_hash(&self) -> (r: bool)
        ensures
            r == (self@.override_nix_sha256 is None),
    {
        self.override_nix_sha256.is_none()
    }

    /// Packages a resolved head commit and content hash into the persisted
    /// lock entry; a hash override from the declaration wins over one
    /// computed outside, and the stored hash is never empty.
    pub fn lock_with_metadata_from(&self, rev: String, external_hash: Option<String>) -> (r:
        LockEntry)
        requires
            match self@.override_nix_sha256 {
                Some(h) => h.len() > 0,
                None => external_hash matches Some(h2) && h2@.len() > 0,
            },
        ensures
            r@ == spec_branch_lock_entry(
                self@,
                rev@,
                match self@.override_nix_sha256 {
                    Some(h) => h,
                    None => external_hash->Some_0@,
                },
            ),
    {
        let sha256 = match &self.override_nix_sha256 {
            Some(h) => h.clone(),
            None => external_hash.unwrap(),
        };
        let name = cat(cat(self.owner.as_str(), "/").as_str(), self.repo.as_str());
        let description = cat("GitHub branch ", self.branch.as_str());
        let description = cat(description.as_str(), " from ");
        let description = cat(description.as_str(), name.as_str());
        proof {
            assert(description@ =~= "GitHub branch "@ + self.branch@ + " from "@ + self.owner@
                + "/"@ + self.repo@);
        }
        let metadata = DependencyMetadata {
            name,
            selected_version: Some(self.branch.clone()),
            resolved_version: Some(rev.clone()),
            timestamp: None,
            dep_type: "github-branch".to_owned(),
            description,
        };
        LockEntry {
            metadata,
            lock: LockValue::GitHub(
                GitHubLock {
                    owner: self.owner.clone(),
                    repo: self.repo.clone(),
                    rev,
                    sha256,
                    fetchSubmodules: false,
                    deepClone: false,
                    leaveDotGit: false,
                },
            ),
        }
    }

    /// Reconstructs a branch dependency from a lock entry, purely from the
    /// stored payload and the selected branch name.
    pub fn from_lock_entry(entry: &LockEntry) -> (r: Option<GitHubBranch>)
        ensures
            match r {
                Some(b) => entry.lock matches LockValue::GitHub(g)
                    && entry.metadata.selected_version matches Some(br) && b@ == (GitHubBranchV {
                    owner: g.owner@,
                    repo: g.repo@,
                    branch: br@,
                    override_scheme: None,
                    override_domain: None,
                    override_nix_sha256: None,
                }),
                None => !(entry.lock is GitHub) || entry.metadata.selected_version is None,
            },
    {
        let g = match &entry.lock {
            LockValue::GitHub(g) => g,
            LockValue::Text(_) => {
                return None;
            },
        };
        let branch = match &entry.metadata.selected_version {
            Some(b) => b.clone(),
            None => {
                return None;
            },
        };
        Some(
            GitHubBranch {
                owner: g.owner.clone(),
                repo: g.repo.clone(),
                branch,
                override_scheme: None,
                override_domain: None,
                override_nix_sha256: None,
            },
        )
    }

    /// The human label of this dependency kind, qualified by the branch.
    pub fn type_display(&self) -> (r: String)
        ensures
            r@ == "github-branch ("@ + self.branch@ + ")"@,
    {
        cat(cat("github-branch (", self.branch.as_str()).as_str(), ")")
    }

    /// The human rendering of a resolved revision: long commit hashes are
    /// truncated to their first twelve characters.
    pub open spec fn spec_friendly_version(rv: Seq<char>) -> Seq<char> {
        if rv.len() > 12 {
            rv.take(12)
        } else {
            rv
        }
    }

    pub fn friendly_version(&self, resolved_version: &str) -> (r: String)
        ensures
            r@ == GitHubBranch::spec_friendly_version(resolved_version@),
    {
        let n = resolved_version.unicode_len();
        if n > 12 {
            resolved_version.substring_char(0, 12).to_owned()
        } else {
            resolved_version.to_owned()
        }
    }
}

} // verus!
