//! The dependency model: the tagged union over the supported declaration
//! kinds, the lock-entry record each of them resolves to, and the
//! declaration extractor that walks a parsed syntax tree.

pub mod branch;
pub mod docker;
pub mod github;
pub mod release;

use vstd::prelude::*;

verus! {

use crate::deps::branch::spec_branch_lock_entry;
use crate::deps::branch::spec_branch_new;
use crate::deps::branch::GitHubBranch;
use crate::deps::branch::GitHubBranchV;
use crate::deps::docker::spec_docker_from_lock_entry;
use crate::deps::docker::spec_docker_lock_entry;
use crate::deps::docker::spec_docker_new;
use crate::deps::docker::Docker;
use crate::deps::docker::DockerV;
use crate::deps::github::GitHubLock;
use crate::deps::github::GitHubLockV;
use crate::deps::release::spec_release_lock_entry;
use crate::deps::release::spec_release_new;
use crate::deps::release::GitHubRelease;
use crate::deps::release::GitHubReleaseV;
use crate::error::Error;
use crate::error::ErrorV;
use crate::nix::Node;
use crate::nix::NodeKind;
use crate::nix::ParsingContext;
use crate::strutil::cat;
use crate::strutil::spec_starts_with;
use crate::strutil::starts_with;
use crate::strutil::str_eq;

/// Kind-agnostic descriptive data stored with every lock entry.
#[derive(Debug, PartialEq)]
pub struct DependencyMetadata {
    /// Display name of the dependency.
    pub name: String,
    /// What the user selected: a tag, a branch name, or `latest`.
    pub selected_version: Option<String>,
    /// The resolved technical or human-readable version.
    pub resolved_version: Option<String>,
    /// Creation timestamp of the resolved artifact, when one was found.
    pub timestamp: Option<String>,
    /// Which variant's reconstruction logic applies to the lock payload.
    pub dep_type: String,
    /// Free-text description for listings.
    pub description: String,
}

impl Clone for DependencyMetadata {
    fn clone(&self) -> (res: Self)
        ensures
            res == *self,
    {
        DependencyMetadata {
            name: self.name.clone(),
            selected_version: crate::strutil::clone_opt_string(&self.selected_version),
            resolved_version: crate::strutil::clone_opt_string(&self.resolved_version),
            timestamp: crate::strutil::clone_opt_string(&self.timestamp),
            dep_type: self.dep_type.clone(),
            description: self.description.clone(),
        }
    }
}

/// Mathematical image of a `DependencyMetadata`.
pub struct DependencyMetadataV {
    pub name: Seq<char>,
    pub selected_version: Option<Seq<char>>,
    pub resolved_version: Option<Seq<char>>,
    pub timestamp: Option<Seq<char>>,
    pub dep_type: Seq<char>,
    pub description: Seq<char>,
}

pub open spec fn opt_view(o: Option<String>) -> Option<Seq<char>> {
    match o {
        Some(s) => Some(s@),
        None => None,
    }
}

impl View for DependencyMetadata {
    type V = DependencyMetadataV;

    open spec fn view(&self) -> DependencyMetadataV {
        DependencyMetadataV {
            name: self.name@,
            selected_version: opt_view(self.selected_version),
            resolved_version: opt_view(self.resolved_version),
            timestamp: opt_view(self.timestamp),
            dep_type: self.dep_type@,
            description: self.description@,
        }
    }
}

/// The kind-specific resolved payload of a lock entry: a plain identifier
/// for a container image, a structured record for a source-host dependency.
#[derive(Debug, PartialEq)]
pub enum LockValue {
    Text(String),
    GitHub(GitHubLock),
}

impl Clone for LockValue {
    fn clone(&self) -> (res: Self)
        ensures
            res == *self,
    {
        match self {
            LockValue::Text(s) => LockValue::Text(s.clone()),
            LockValue::GitHub(g) => LockValue::GitHub(g.clone()),
        }
    }
}

/// Mathematical image of a `LockValue`.
pub enum LockValueV {
    Text(Seq<char>),
    GitHub(GitHubLockV),
}

impl View for LockValue {
    type V = LockValueV;

    open spec fn view(&self) -> LockValueV {
        match self {
            LockValue::Text(s) => LockValueV::Text(s@),
            LockValue::GitHub(g) => LockValueV::GitHub(g@),
        }
    }
}

/// One persisted record of the lock store: descriptive metadata plus the
/// kind-specific payload that reconstructs and pins the dependency.
#[derive(Debug, PartialEq)]
pub struct LockEntry {
    pub metadata: DependencyMetadata,
    pub lock: LockValue,
}

impl Clone for LockEntry {
    fn clone(&self) -> (res: Self)
        ensures
            res == *self,
    {
        LockEntry { metadata: self.metadata.clone(), lock: self.lock.clone() }
    }
}

/// Mathematical image of a `LockEntry`.
pub struct LockEntryV {
    pub metadata: DependencyMetadataV,
    pub lock: LockValueV,
}

impl View for LockEntry {
    type V = LockEntryV;

    open spec fn view(&self) -> LockEntryV {
        LockEntryV { metadata: self.metadata@, lock: self.lock@ }
    }
}

/// A declared dependency: the closed tagged union over the supported kinds.
#[derive(Debug, PartialEq)]
pub enum Dependency {
    Docker(Docker),
    GitHubBranch(GitHubBranch),
    GitHubRelease(GitHubRelease),
}

impl Clone for Dependency {
    fn clone(&self) -> (res: Self)
        ensures
            res == *self,
    {
        match self {
            Dependency::Docker(d) => Dependency::Docker(d.clone()),
            Dependency::GitHubBranch(b) => Dependency::GitHubBranch(b.clone()),
            Dependency::GitHubRelease(g) => Dependency::GitHubRelease(g.clone()),
        }
    }
}

/// Mathematical image of a `Dependency`.
pub enum DependencyV {
    Docker(DockerV),
    GitHubBranch(GitHubBranchV),
    GitHubRelease(GitHubReleaseV),
}

impl View for Dependency {
    type V = DependencyV;

    open spec fn view(&self) -> DependencyV {
        match self {
            Dependency::Docker(d) => DependencyV::Docker(d@),
            Dependency::GitHubBranch(b) => DependencyV::GitHubBranch(b@),
            Dependency::GitHubRelease(g) => DependencyV::GitHubRelease(g@),
        }
    }
}

impl DeepView for Dependency {
    type V = DependencyV;

    open spec fn deep_view(&self) -> DependencyV {
        self.view()
    }
}

/// The stable key identifying a dependency across runs.
pub open spec fn spec_dep_key(d: DependencyV) -> Seq<char> {
    match d {
        DependencyV::Docker(dd) => dd.name,
        DependencyV::GitHubBranch(b) => "$GITHUB_BRANCH$:"@ + b.owner + "/"@ + b.repo + ":"@
            + b.branch,
        DependencyV::GitHubRelease(g) => "$GITHUB_RELEASE$:"@ + g.owner + "/"@ + g.repo + "$"@
            + crate::deps::github::spec_flags(g.fetch_submodules, g.deep_clone, g.leave_dot_git),
    }
}

/// The per-kind ergonomic match predicate of the selector layer.
pub open spec fn spec_dep_matches(d: Dependency, p: Seq<char>) -> bool {
    match d {
        Dependency::Docker(dd) => dd.spec_matches(p),
        Dependency::GitHubBranch(b) => b.spec_matches(p),
        Dependency::GitHubRelease(g) => g.spec_matches(p),
    }
}

/// The match predicate, stated over the mathematical image of a dependency.
pub open spec fn spec_dep_matches_v(d: DependencyV, p: Seq<char>) -> bool {
    match d {
        DependencyV::Docker(dd) => dd.name == p || (dd.registry == "registry-1.docker.io"@
            && dd.image == p && !p.contains(':')),
        DependencyV::GitHubBranch(b) => p == "$GITHUB_BRANCH$:"@ + b.owner + "/"@ + b.repo + ":"@
            + b.branch,
        DependencyV::GitHubRelease(g) => p == "$GITHUB_RELEASE$:"@ + g.owner + "/"@ + g.repo + "$"@
            + crate::deps::github::spec_flags(g.fetch_submodules, g.deep_clone, g.leave_dot_git)
            || (!p.contains(':') && p.contains('/') && !p.skip(
            crate::deps::docker::first_ix(p, '/') + 1,
        ).contains('/') && p.take(crate::deps::docker::first_ix(p, '/')) == g.owner && p.skip(
            crate::deps::docker::first_ix(p, '/') + 1,
        ) == g.repo),
    }
}

/// The two spellings of the match predicate agree.
pub proof fn lemma_dep_matches_agree(d: Dependency, p: Seq<char>)
    ensures
        spec_dep_matches(d, p) == spec_dep_matches_v(d@, p),
{
}

/// The short human label of a dependency's kind, qualified by its selector
/// where that adds information.
pub open spec fn spec_type_display(d: DependencyV) -> Seq<char> {
    match d {
        DependencyV::Docker(dd) => "docker-image ("@ + dd.tag + ")"@,
        DependencyV::GitHubBranch(b) => "github-branch ("@ + b.branch + ")"@,
        DependencyV::GitHubRelease(_) => "github-release"@,
    }
}

/// The human rendering of a resolved version, per kind.
pub open spec fn spec_friendly_version(d: DependencyV, rv: Seq<char>) -> Seq<char> {
    match d {
        DependencyV::Docker(_) => Docker::spec_friendly_version(rv),
        DependencyV::GitHubBranch(_) => GitHubBranch::spec_friendly_version(rv),
        DependencyV::GitHubRelease(_) => rv,
    }
}

/// What building a dependency from one recognized call-site yields: the
/// variant for the three declaration functions of the reserved namespace,
/// nothing for any other member of it.
pub open spec fn spec_new_dep(ctx: ParsingContext, func: Seq<char>, node: Node) -> Result<
    Option<DependencyV>,
    ErrorV,
> {
    if func == "uptix.dockerImage"@ {
        match spec_docker_new(ctx, node) {
            Ok(d) => Ok(Some(DependencyV::Docker(d))),
            Err(e) => Err(e),
        }
    } else if func == "uptix.githubBranch"@ {
        match spec_branch_new(ctx, node) {
            Ok(b) => Ok(Some(DependencyV::GitHubBranch(b))),
            Err(e) => Err(e),
        }
    } else if func == "uptix.githubRelease"@ {
        match spec_release_new(ctx, node) {
            Ok(g) => Ok(Some(DependencyV::GitHubRelease(g))),
            Err(e) => Err(e),
        }
    } else {
        Ok(None)
    }
}

/// What reconstructing a dependency from a lock entry yields, dispatching
/// on the stored kind tag.
pub open spec fn spec_dep_from_lock_entry(entry: LockEntry) -> Result<DependencyV, ErrorV> {
    if entry.metadata.dep_type@ == "docker"@ {
        match spec_docker_from_lock_entry(entry) {
            Some(d) => Ok(DependencyV::Docker(d)),
            None => Err(
                ErrorV::StringError("Failed to reconstruct Docker dependency from lock entry"@),
            ),
        }
    } else if entry.metadata.dep_type@ == "github-branch"@ {
        if entry.lock matches LockValue::GitHub(g) && entry.metadata.selected_version matches Some(
            br,
        ) {
            Ok(
                DependencyV::GitHubBranch(
                    GitHubBranchV {
                        owner: entry.lock->GitHub_0.owner@,
                        repo: entry.lock->GitHub_0.repo@,
                        branch: entry.metadata.selected_version->Some_0@,
                        override_scheme: None,
                        override_domain: None,
                        override_nix_sha256: None,
                    },
                ),
            )
        } else {
            Err(
                ErrorV::StringError(
                    "Failed to reconstruct GitHubBranch dependency from lock entry"@,
                ),
            )
        }
    } else if entry.metadata.dep_type@ == "github-release"@ {
        if entry.lock is GitHub {
            Ok(
                DependencyV::GitHubRelease(
                    GitHubReleaseV {
                        owner: entry.lock->GitHub_0.owner@,
                        repo: entry.lock->GitHub_0.repo@,
                        fetch_submodules: Some(entry.lock->GitHub_0.fetchSubmodules),
                        deep_clone: Some(entry.lock->GitHub_0.deepClone),
                        leave_dot_git: Some(entry.lock->GitHub_0.leaveDotGit),
                        override_scheme: None,
                        override_domain: None,
                        override_nix_sha256: None,
                    },
                ),
            )
        } else {
            Err(
                ErrorV::StringError(
                    "Failed to reconstruct GitHubRelease dependency from lock entry"@,
                ),
            )
        }
    } else {
        Err(ErrorV::StringError("Unknown dependency type: "@ + entry.metadata.dep_type@))
    }
}

/// The outcome a host program hands back after performing the kind-specific
/// protocol work of one resolution.
pub enum Resolution {
    /// For a container image: the digest the registry reported, if any, and
    /// the best-effort enrichment data.
    Container { digest: Option<String>, friendly: Option<String>, timestamp: Option<String> },
    /// For a source-host dependency: the resolved revision, and the content
    /// hash computed by the external tool when one was needed.
    SourceRef { rev: String, hash: Option<String> },
}

impl Dependency {
    /// Builds the dependency declared by one call-site of the reserved
    /// namespace, or nothing for an unrecognized namespace member.
    pub fn new(context: &ParsingContext, func: &str, node: &Node) -> (r: Result<
        Option<Dependency>,
        Error,
    >)
        ensures
            match r {
                Ok(d) => spec_new_dep(*context, func@, *node) == Ok::<Option<DependencyV>, ErrorV>(
                    match d {
                        Some(dep) => Some(dep@),
                        None => None,
                    },
                ),
                Err(e) => spec_new_dep(*context, func@, *node) == Err::<
                    Option<DependencyV>,
                    ErrorV,
                >(e@),
            },
    {
        if str_eq(func, "uptix.dockerImage") {
            match Docker::new(context, node) {
                Ok(d) => Ok(Some(Dependency::Docker(d))),
                Err(e) => Err(e),
            }
        } else if str_eq(func, "uptix.githubBranch") {
            match GitHubBranch::new(context, node) {
                Ok(b) => Ok(Some(Dependency::GitHubBranch(b))),
                Err(e) => Err(e),
            }
        } else if str_eq(func, "uptix.githubRelease") {
            match GitHubRelease::new(context, node) {
                Ok(g) => Ok(Some(Dependency::GitHubRelease(g))),
                Err(e) => Err(e),
            }
        } else {
            Ok(None)
        }
    }

    /// Reconstructs a dependency from a previously stored lock entry,
    /// without any network access.
    pub fn from_lock_entry(entry: &LockEntry) -> (r: Result<Dependency, Error>)
        ensures
            match r {
                Ok(d) => spec_dep_from_lock_entry(*entry) == Ok::<DependencyV, ErrorV>(d@),
                Err(e) => spec_dep_from_lock_entry(*entry) == Err::<DependencyV, ErrorV>(e@),
            },
    {
        if str_eq(entry.metadata.dep_type.as_str(), "docker") {
            match Docker::from_lock_entry(entry) {
                Some(d) => Ok(Dependency::Docker(d)),
                None => Err(
                    Error::StringError(
                        "Failed to reconstruct Docker dependency from lock entry".to_owned(),
                    ),
                ),
            }
        } else if str_eq(entry.metadata.dep_type.as_str(), "github-branch") {
            match GitHubBranch::from_lock_entry(entry) {
                Some(b) => Ok(Dependency::GitHubBranch(b)),
                None => Err(
                    Error::StringError(
                        "Failed to reconstruct GitHubBranch dependency from lock entry".to_owned(),
                    ),
                ),
            }
        } else if str_eq(entry.metadata.dep_type.as_str(), "github-release") {
            match GitHubRelease::from_lock_entry(entry) {
                Some(g) => Ok(Dependency::GitHubRelease(g)),
                None => Err(
                    Error::StringError(
                        "Failed to reconstruct GitHubRelease dependency from lock entry".to_owned(),
                    ),
                ),
            }
        } else {
            Err(
                Error::StringError(
                    cat("Unknown dependency type: ", entry.metadata.dep_type.as_str()),
                ),
            )
        }
    }

    /// The stable key identifying this declaration across runs.
    pub fn key(&self) -> (r: String)
        ensures
            r@ == spec_dep_key(self@),
    {
        match self {
            Dependency::Docker(d) => d.key(),
            Dependency::GitHubBranch(b) => b.key(),
            Dependency::GitHubRelease(g) => g.key(),
        }
    }

    /// Whether a human-friendly pattern addresses this dependency.
    pub fn matches(&self, pattern: &str) -> (r: bool)
        ensures
            r == spec_dep_matches(*self, pattern@),
    {
        match self {
            Dependency::Docker(d) => d.matches(pattern),
            Dependency::GitHubBranch(b) => b.matches(pattern),
            Dependency::GitHubRelease(g) => g.matches(pattern),
        }
    }

    /// The short human label of this dependency's kind.
    pub fn type_display(&self) -> (r: String)
        ensures
            r@ == spec_type_display(self@),
    {
        match self {
            Dependency::Docker(d) => d.type_display(),
            Dependency::GitHubBranch(b) => b.type_display(),
            Dependency::GitHubRelease(g) => g.type_display(),
        }
    }

    /// The human rendering of a resolved version for this dependency.
    pub fn friendly_version(&self, resolved_version: &str) -> (r: String)
        ensures
            r@ == spec_friendly_version(self@, resolved_version@),
    {
        match self {
            Dependency::Docker(d) => d.friendly_version(resolved_version),
            Dependency::GitHubBranch(b) => b.friendly_version(resolved_version),
            Dependency::GitHubRelease(g) => g.friendly_version(resolved_version),
        }
    }

    /// The container-image payload, when this is one.
    pub fn as_docker(&self) -> (r: Option<&Docker>)
        ensures
            match r {
                Some(d) => *self == Dependency::Docker(*d),
                None => !(self is Docker),
            },
    {
        match self {
            Dependency::Docker(d) => Some(d),
            _ => None,
        }
    }

    /// The source-branch payload, when this is one.
    pub fn as_git_hub_branch(&self) -> (r: Option<&GitHubBranch>)
        ensures
            match r {
                Some(b) => *self == Dependency::GitHubBranch(*b),
                None => !(self is GitHubBranch),
            },
    {
        match self {
            Dependency::GitHubBranch(b) => Some(b),
            _ => None,
        }
    }

    /// The source-release payload, when this is one.
    pub fn as_git_hub_release(&self) -> (r: Option<&GitHubRelease>)
        ensures
            match r {
                Some(g) => *self == Dependency::GitHubRelease(*g),
                None => !(self is GitHubRelease),
            },
    {
        match self {
            Dependency::GitHubRelease(g) => Some(g),
            _ => None,
        }
    }

    /// Packages a completed resolution into this dependency's lock entry.
    /// The host program performs the protocol work and hands the outcome
    /// in; what is persisted for each outcome is fixed here.
    pub fn lock_with_metadata_from(&self, resolution: Resolution) -> (r: Result<LockEntry, Error>)
        requires
            self is Docker <==> resolution is Container,
            self matches Dependency::GitHubBranch(b) ==> (match b@.override_nix_sha256 {
                Some(h) => h.len() > 0,
                None => resolution matches Resolution::SourceRef { hash: Some(h2), .. } && h2@.len()
                    > 0,
            }),
            self matches Dependency::GitHubRelease(g) ==> (match g@.override_nix_sha256 {
                Some(h) => h.len() > 0,
                None => resolution matches Resolution::SourceRef { hash: Some(h2), .. } && h2@.len()
                    > 0,
            }),
        ensures
            match self {
                Dependency::Docker(d) => match resolution {
                    Resolution::Container { digest, friendly, timestamp } => match r {
                        Ok(entry) => digest matches Some(dg) && dg@.len() > 0 && entry@
                            == spec_docker_lock_entry(
                            d@,
                            dg@,
                            opt_view(friendly),
                            opt_view(timestamp),
                        ),
                        Err(e) => (match digest {
                            Some(dg) => dg@.len() == 0,
                            None => true,
                        }) && e@ == ErrorV::StringError(
                            "Could not find digest for image "@ + d.name@ + " on registry"@,
                        ),
                    },
                    _ => false,
                },
                Dependency::GitHubBranch(b) => match resolution {
                    Resolution::SourceRef { rev, hash } => r matches Ok(entry) && entry@
                        == spec_branch_lock_entry(
                        b@,
                        rev@,
                        match b@.override_nix_sha256 {
                            Some(h) => h,
                            None => hash->Some_0@,
                        },
                    ),
                    _ => false,
                },
                Dependency::GitHubRelease(g) => match resolution {
                    Resolution::SourceRef { rev, hash } => r matches Ok(entry) && entry@
                        == spec_release_lock_entry(
                        g@,
                        rev@,
                        match g@.override_nix_sha256 {
                            Some(h) => h,
                            None => hash->Some_0@,
                        },
                    ),
                    _ => false,
                },
            },
    {
        match self {
            Dependency::Docker(d) => match resolution {
                Resolution::Container { digest, friendly, timestamp } => d.lock_with_metadata_from(
                    digest,
                    friendly,
                    timestamp,
                ),
                Resolution::SourceRef { .. } => {
                    proof {
                        assert(false);
                    }
                    Err(Error::StringError("mismatched resolution".to_owned()))
                },
            },
            Dependency::GitHubBranch(b) => match resolution {
                Resolution::SourceRef { rev, hash } => Ok(b.lock_with_metadata_from(rev, hash)),
                Resolution::Container { .. } => {
                    proof {
                        assert(false);
                    }
                    Err(Error::StringError("mismatched resolution".to_owned()))
                },
            },
            Dependency::GitHubRelease(g) => match resolution {
                Resolution::SourceRef { rev, hash } => Ok(g.lock_with_metadata_from(rev, hash)),
                Resolution::Container { .. } => {
                    proof {
                        assert(false);
                    }
                    Err(Error::StringError("mismatched resolution".to_owned()))
                },
            },
        }
    }
}

impl DependencyMetadata {
    /// The human label of the entry's kind, reconstructed on demand from
    /// the entry rather than stored.
    pub fn type_display(&self, lock_entry: &LockEntry) -> (r: Result<String, Error>)
        ensures
            match r {
                Ok(s) => spec_dep_from_lock_entry(*lock_entry) matches Ok(d) && s@
                    == spec_type_display(d),
                Err(e) => spec_dep_from_lock_entry(*lock_entry) == Err::<DependencyV, ErrorV>(e@),
            },
    {
        match Dependency::from_lock_entry(lock_entry) {
            Ok(dep) => Ok(dep.type_display()),
            Err(e) => Err(e),
        }
    }

    /// The human rendering of the entry's resolved version, `pending` when
    /// none has been stored yet.
    pub fn friendly_version_display(&self, lock_entry: &LockEntry) -> (r: Result<String, Error>)
        ensures
            match r {
                Ok(s) => spec_dep_from_lock_entry(*lock_entry) matches Ok(d) && s@
                    == spec_friendly_version(
                    d,
                    match self@.resolved_version {
                        Some(rv) => rv,
                        None => "pending"@,
                    },
                ),
                Err(e) => spec_dep_from_lock_entry(*lock_entry) == Err::<DependencyV, ErrorV>(e@),
            },
    {
        let resolved: &str = match &self.resolved_version {
            Some(rv) => rv.as_str(),
            None => "pending",
        };
        match Dependency::from_lock_entry(lock_entry) {
            Ok(dep) => Ok(dep.friendly_version(resolved)),
            Err(e) => Err(e),
        }
    }
}

/// What extraction yields for one node, given its following sibling: a
/// member selection of the reserved namespace consumes that sibling as its
/// argument; any other node contributes what its children contribute, in
/// source order; extraction stops at the first malformed declaration.
pub open spec fn spec_collect(ctx: ParsingContext, node: Node, sib: Option<Node>) -> Result<
    Seq<DependencyV>,
    ErrorV,
>
    decreases node, 0int,
{
    if node.kind != NodeKind::Select {
        spec_collect_children(ctx, node.children@, 0)
    } else if !spec_starts_with(node.text@, "uptix."@) {
        Ok(Seq::empty())
    } else {
        match sib {
            None => Ok(Seq::empty()),
            Some(arg) => match spec_new_dep(ctx, node.text@, arg) {
                Ok(Some(d)) => Ok(seq![d]),
                Ok(None) => Ok(Seq::empty()),
                Err(e) => Err(e),
            },
        }
    }
}

pub open spec fn spec_collect_children(ctx: ParsingContext, cs: Seq<Node>, i: int) -> Result<
    Seq<DependencyV>,
    ErrorV,
>
    decreases cs, cs.len() - i,
{
    if i < 0 || i >= cs.len() {
        Ok(Seq::empty())
    } else {
        let sib = if i + 1 < cs.len() {
            Some(cs[i + 1])
        } else {
            None
        };
        match spec_collect(ctx, cs[i], sib) {
            Err(e) => Err(e),
            Ok(ds) => match spec_collect_children(ctx, cs, i + 1) {
                Err(e) => Err(e),
                Ok(rest) => Ok(ds + rest),
            },
        }
    }
}

/// Walks one node of the tree; the host program hands the root in with no
/// sibling.
fn collect_from(context: &ParsingContext, node: &Node, sibling: Option<&Node>) -> (r: Result<
    Vec<Dependency>,
    Error,
>)
    ensures
        match r {
            Ok(ds) => spec_collect(
                *context,
                *node,
                match sibling {
                    Some(s) => Some(*s),
                    None => None,
                },
            ) == Ok::<Seq<DependencyV>, ErrorV>(ds.deep_view()),
            Err(e) => spec_collect(
                *context,
                *node,
                match sibling {
                    Some(s) => Some(*s),
                    None => None,
                },
            ) == Err::<Seq<DependencyV>, ErrorV>(e@),
        },
    decreases *node,
{
    let ghost gsib = match sibling {
        Some(s) => Some(*s),
        None => None,
    };
    if !matches!(node.kind, NodeKind::Select) {
        let mut out: Vec<Dependency> = Vec::new();
        let mut i: usize = 0;
        proof {
            assert(out.deep_view() =~= Seq::<DependencyV>::empty());
        }
        loop
            invariant
                node.kind != NodeKind::Select,
                i <= node.children@.len(),
                match spec_collect_children(*context, node.children@, i as int) {
                    Ok(rest) => spec_collect_children(*context, node.children@, 0) == Ok::<
                        Seq<DependencyV>,
                        ErrorV,
                    >(out.deep_view() + rest),
                    Err(e) => spec_collect_children(*context, node.children@, 0) == Err::<
                        Seq<DependencyV>,
                        ErrorV,
                    >(e),
                },
            decreases node.children@.len() - i,
        {
            if i == node.children.len() {
                proof {
                    assert(out.deep_view() + Seq::<DependencyV>::empty() =~= out.deep_view());
                }
                return Ok(out);
            }
            let child_sibling: Option<&Node> = if i + 1 < node.children.len() {
                Some(&node.children[i + 1])
            } else {
                None
            };
            proof {
                assert(decreases_to!(*node => node.children@[i as int]));
            }
            let mut found = match collect_from(context, &node.children[i], child_sibling) {
                Ok(ds) => ds,
                Err(e) => {
                    return Err(e);
                },
            };
            let ghost old_out = out.deep_view();
            let ghost found_v = found.deep_view();
            out.append(&mut found);
            proof {
                assert(out.deep_view() =~= old_out + found_v);
                match spec_collect_children(*context, node.children@, i as int + 1) {
                    Ok(rest2) => {
                        assert(old_out + (found_v + rest2) =~= out.deep_view() + rest2);
                    },
                    Err(e) => {},
                }
            }
            i = i + 1;
        }
    } else if !starts_with(node.text.as_str(), "uptix.") {
        let out: Vec<Dependency> = Vec::new();
        proof {
            assert(out.deep_view() =~= Seq::<DependencyV>::empty());
        }
        Ok(out)
    } else {
        match sibling {
            None => {
                let out: Vec<Dependency> = Vec::new();
                proof {
                    assert(out.deep_view() =~= Seq::<DependencyV>::empty());
                }
                Ok(out)
            },
            Some(arg) => match Dependency::new(context, node.text.as_str(), arg) {
                Ok(Some(d)) => {
                    let mut out: Vec<Dependency> = Vec::new();
                    let ghost dv = d.deep_view();
                    out.push(d);
                    proof {
                        assert(out.deep_view() =~= seq![dv]);
                    }
                    Ok(out)
                },
                Ok(None) => {
                    let out: Vec<Dependency> = Vec::new();
                    proof {
                        assert(out.deep_view() =~= Seq::<DependencyV>::empty());
                    }
                    Ok(out)
                },
                Err(e) => Err(e),
            },
        }
    }
}

/// Walks a parsed syntax tree and returns every dependency it declares, in
/// depth-first source order, or the first declaration-shape error found.
pub fn collect_ast_dependencies(context: &ParsingContext, root: &Node) -> (r: Result<
    Vec<Dependency>,
    Error,
>)
    ensures
        match r {
            Ok(ds) => spec_collect(*context, *root, None) == Ok::<Seq<DependencyV>, ErrorV>(
                ds.deep_view(),
            ),
            Err(e) => spec_collect(*context, *root, None) == Err::<Seq<DependencyV>, ErrorV>(e@),
        },
{
    collect_from(context, root, None)
}

/// A reserved-namespace call-site: a member selection whose rendered text
/// begins with the reserved prefix.
pub open spec fn spec_has_call_site(node: Node) -> bool
    decreases node, 0int,
{
    (node.kind == NodeKind::Select && spec_starts_with(node.text@, "uptix."@))
        || spec_children_have_call_site(node.children@, 0)
}

pub open spec fn spec_children_have_call_site(cs: Seq<Node>, i: int) -> bool
    decreases cs, cs.len() - i,
{
    if i < 0 || i >= cs.len() {
        false
    } else {
        spec_has_call_site(cs[i]) || spec_children_have_call_site(cs, i + 1)
    }
}

/// On a tree with no reserved-namespace call-site, extraction returns the
/// empty list, whatever sibling the walk hands alongside.
pub proof fn lemma_no_call_sites_extracts_nothing(ctx: ParsingContext, node: Node, sib: Option<Node>)
    requires
        !spec_has_call_site(node),
    ensures
        spec_collect(ctx, node, sib) == Ok::<Seq<DependencyV>, ErrorV>(Seq::empty()),
    decreases node, 0int,
{
    if node.kind != NodeKind::Select {
        lemma_no_call_sites_children(ctx, node.children@, 0);
    }
}

proof fn lemma_no_call_sites_children(ctx: ParsingContext, cs: Seq<Node>, i: int)
    requires
        !spec_children_have_call_site(cs, i),
        0 <= i,
    ensures
        spec_collect_children(ctx, cs, i) == Ok::<Seq<DependencyV>, ErrorV>(Seq::empty()),
    decreases cs, cs.len() - i,
{
    if i < cs.len() {
        let sib = if i + 1 < cs.len() {
            Some(cs[i + 1])
        } else {
            None
        };
        lemma_no_call_sites_extracts_nothing(ctx, cs[i], sib);
        lemma_no_call_sites_children(ctx, cs, i + 1);
        assert(Seq::<DependencyV>::empty() + Seq::<DependencyV>::empty() =~= Seq::<
            DependencyV,
        >::empty());
    }
}

} // verus!
