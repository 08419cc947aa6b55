//! Container-image dependencies: the reference grammar that decomposes a
//! user-supplied image string into registry, repository and tag, the
//! ergonomic match predicate, and the pure decision steps of the two-phase
//! digest resolution protocol.

use vstd::prelude::*;

verus! {

use crate::deps::DependencyMetadata;
use crate::deps::LockEntry;
use crate::deps::LockValue;
use crate::error::Error;
use crate::error::ErrorV;
use crate::nix::assert_kind;
use crate::nix::Node;
use crate::nix::NodeKind;
use crate::nix::ParsingContext;
use crate::nix::spec_unexpected_argument;
use crate::strutil::cat;
use crate::strutil::contains_char;
use crate::strutil::find_char;
use crate::strutil::spec_starts_with;
use crate::strutil::spec_strip_quotes;
use crate::strutil::starts_with;
use crate::strutil::str_eq;
use crate::strutil::strip_quotes;
use vstd::string::StrSliceExecFns;

/// A declared container-image dependency, decomposed from the raw
/// user-supplied reference string.
#[derive(Debug, PartialEq)]
pub struct Docker {
    /// The raw user-supplied name, used for display and matching.
    pub name: String,
    /// The registry host the image is pulled from.
    pub registry: String,
    /// The repository path, without any default-registry prefixing.
    pub image: String,
    /// The tag, `latest` when none was given.
    pub tag: String,
    /// Whether the registry is spoken to over a secure transport.
    pub use_https: bool,
}

/// Mathematical image of a `Docker`.
pub struct DockerV {
    pub name: Seq<char>,
    pub registry: Seq<char>,
    pub image: Seq<char>,
    pub tag: Seq<char>,
    pub use_https: bool,
}

impl Clone for Docker {
    fn clone(&self) -> (res: Self)
        ensures
            res == *self,
    {
        Docker {
            name: self.name.clone(),
            registry: self.registry.clone(),
            image: self.image.clone(),
            tag: self.tag.clone(),
            use_https: self.use_https,
        }
    }
}

impl View for Docker {
    type V = DockerV;

    open spec fn view(&self) -> DockerV {
        DockerV {
            name: self.name@,
            registry: self.registry@,
            image: self.image@,
            tag: self.tag@,
            use_https: self.use_https,
        }
    }
}

/// Characters allowed in a repository path segment.
pub open spec fn is_repo_char(c: char) -> bool {
    ('a' <= c && c <= 'z') || ('0' <= c && c <= '9') || c == '-'
}

/// Characters allowed in a registry host or a tag.
pub open spec fn is_host_char(c: char) -> bool {
    is_repo_char(c) || c == '.'
}

/// A repository path: one or more nonempty slash-separated segments of
/// repository characters.
pub open spec fn valid_repo(s: Seq<char>) -> bool {
    &&& s.len() > 0
    &&& s[0] != '/'
    &&& s[s.len() - 1] != '/'
    &&& forall|i: int| 0 <= i < s.len() ==> is_repo_char(#[trigger] s[i]) || s[i] == '/'
    &&& forall|i: int| 0 <= i < s.len() - 1 ==> !(#[trigger] s[i] == '/' && s[i + 1] == '/')
}

/// A registry host: nonempty, host characters only. Only a dotted first
/// segment is ever taken for a host, so a host always contains a dot.
pub open spec fn valid_host(s: Seq<char>) -> bool {
    s.len() > 0 && (forall|i: int| 0 <= i < s.len() ==> is_host_char(#[trigger] s[i]))
        && s.contains('.')
}

/// A tag: nonempty, host characters only.
pub open spec fn valid_tag(s: Seq<char>) -> bool {
    s.len() > 0 && forall|i: int| 0 <= i < s.len() ==> is_host_char(#[trigger] s[i])
}

/// `i` is the first occurrence of `c` in `s`.
pub open spec fn is_first_ix(s: Seq<char>, c: char, i: int) -> bool {
    0 <= i < s.len() && s[i] == c && (forall|j: int| 0 <= j < i ==> s[j] != c)
}

/// The first occurrence of `c` in `s`; meaningful when `s` contains `c`.
pub open spec fn first_ix(s: Seq<char>, c: char) -> int {
    choose|i: int| is_first_ix(s, c, i)
}

proof fn lemma_first_exists(s: Seq<char>, c: char)
    requires
        s.contains(c),
    ensures
        exists|i: int| is_first_ix(s, c, i),
    decreases s.len(),
{
    if s[0] == c {
        assert(is_first_ix(s, c, 0));
    } else {
        let w = choose|w: int| 0 <= w < s.len() && s[w] == c;
        assert(s.skip(1)[w - 1] == c);
        assert(s.skip(1).contains(c));
        lemma_first_exists(s.skip(1), c);
        let i = choose|i: int| is_first_ix(s.skip(1), c, i);
        assert(s[i + 1] == s.skip(1)[i]);
        assert(forall|j: int| 1 <= j < i + 1 ==> s[j] == s.skip(1)[j - 1] && s[j] != c);
        assert(is_first_ix(s, c, i + 1));
    }
}

/// Pins `first_ix` down to a concretely found first occurrence.
pub proof fn lemma_first_ix_is(s: Seq<char>, c: char, i: int)
    requires
        is_first_ix(s, c, i),
    ensures
        s.contains(c),
        first_ix(s, c) == i,
{
    assert(s.contains(c));
    lemma_first_exists(s, c);
    let j = first_ix(s, c);
    assert(is_first_ix(s, c, j));
    if j < i {
        assert(s[j] != c);
    } else if i < j {
        assert(s[i] != c);
    }
}

/// The fixed grammar of an image reference: an optional dotted registry
/// host, a repository path, and an optional tag after a colon, defaulting
/// to the public registry and the `latest` tag.
pub open spec fn spec_split_image(s: Seq<char>) -> Option<(Seq<char>, Seq<char>, Seq<char>)> {
    let head = if s.contains(':') {
        s.take(first_ix(s, ':'))
    } else {
        s
    };
    let tag = if s.contains(':') {
        s.skip(first_ix(s, ':') + 1)
    } else {
        "latest"@
    };
    if s.contains(':') && !valid_tag(s.skip(first_ix(s, ':') + 1)) {
        None
    } else if head.contains('/') && head.take(first_ix(head, '/')).contains('.') {
        let first = head.take(first_ix(head, '/'));
        let rest = head.skip(first_ix(head, '/') + 1);
        if valid_host(first) && valid_repo(rest) {
            Some((first, rest, tag))
        } else {
            None
        }
    } else {
        if valid_repo(head) {
            Some(("registry-1.docker.io"@, head, tag))
        } else {
            None
        }
    }
}

/// Whether every character of `s` may appear in a registry host or tag.
fn all_host_chars(s: &str) -> (r: bool)
    ensures
        r == forall|i: int| 0 <= i < s@.len() ==> is_host_char(#[trigger] s@[i]),
{
    let n = s.unicode_len();
    let mut i: usize = 0;
    while i < n
        invariant
            n == s@.len(),
            i <= n,
            forall|j: int| 0 <= j < i ==> is_host_char(#[trigger] s@[j]),
        decreases n - i,
    {
        let c = s.get_char(i);
        if !(('a' <= c && c <= 'z') || ('0' <= c && c <= '9') || c == '-' || c == '.') {
            return false;
        }
        i = i + 1;
    }
    true
}

fn valid_tag_exec(s: &str) -> (r: bool)
    ensures
        r == valid_tag(s@),
{
    if s.unicode_len() == 0 {
        return false;
    }
    all_host_chars(s)
}

fn valid_repo_exec(s: &str) -> (r: bool)
    ensures
        r == valid_repo(s@),
{
    let n = s.unicode_len();
    if n == 0 {
        return false;
    }
    if s.get_char(0) == '/' {
        return false;
    }
    if s.get_char(n - 1) == '/' {
        return false;
    }
    let mut i: usize = 0;
    while i < n
        invariant
            n == s@.len(),
            i <= n,
            forall|j: int| 0 <= j < i ==> is_repo_char(#[trigger] s@[j]) || s@[j] == '/',
            forall|j: int|
                0 <= j < i && j + 1 < n ==> !(#[trigger] s@[j] == '/' && s@[j + 1] == '/'),
        decreases n - i,
    {
        let c = s.get_char(i);
        if !(('a' <= c && c <= 'z') || ('0' <= c && c <= '9') || c == '-' || c == '/') {
            return false;
        }
        if c == '/' && i + 1 < n && s.get_char(i + 1) == '/' {
            return false;
        }
        i = i + 1;
    }
    true
}

fn valid_host_exec(s: &str) -> (r: bool)
    ensures
        r == valid_host(s@),
{
    if s.unicode_len() == 0 {
        return false;
    }
    if !all_host_chars(s) {
        return false;
    }
    contains_char(s, '.')
}

/// What building a container-image dependency from one call-site argument
/// yields.
pub open spec fn spec_docker_new(ctx: ParsingContext, node: Node) -> Result<DockerV, ErrorV> {
    if node.kind != NodeKind::Str {
        Err(
            spec_unexpected_argument(
                ctx,
                "uptix.dockerImage"@,
                node,
                NodeKind::Str,
                docker_help_text_spec(),
            ),
        )
    } else {
        let text = spec_strip_quotes(node.text@);
        match spec_split_image(text) {
            Some(parts) => Ok(
                DockerV {
                    name: text,
                    registry: parts.0,
                    image: parts.1,
                    tag: parts.2,
                    use_https: true,
                },
            ),
            None => Err(ErrorV::StringError("Malformatted Docker image"@)),
        }
    }
}

/// What reconstructing a container-image dependency from a lock entry
/// yields: the stored display name is the raw declared reference, and
/// reparsing it alone recovers the declaration, key included.
pub open spec fn spec_docker_from_lock_entry(entry: LockEntry) -> Option<DockerV> {
    match spec_split_image(entry.metadata.name@) {
        Some(parts) => Some(
            DockerV {
                name: entry.metadata.name@,
                registry: parts.0,
                image: parts.1,
                tag: parts.2,
                use_https: true,
            },
        ),
        None => None,
    }
}

impl Docker {
    /// Decomposes a raw image reference by the fixed grammar, or reports it
    /// as malformed when no decomposition exists.
    pub fn from(text: &str) -> (r: Result<Docker, Error>)
        ensures
            match r {
                Ok(d) => spec_split_image(text@) == Some((d.registry@, d.image@, d.tag@))
                    && d.name@ == text@ && d.use_https,
                Err(e) => spec_split_image(text@) is None && e@ == ErrorV::StringError(
                    "Malformatted Docker image"@,
                ),
            },
    {
        let n = text.unicode_len();
        let colon = find_char(text, ':');
        proof {
            match colon {
                Some(ci) => lemma_first_ix_is(text@, ':', ci as int),
                None => {
                    assert(!text@.contains(':')) by {
                        if text@.contains(':') {
                            let w = choose|w: int| 0 <= w < text@.len() && text@[w] == ':';
                            assert(text@[w] != ':');
                        }
                    }
                },
            }
        }
        let head: &str = match colon {
            Some(ci) => text.substring_char(0, ci),
            None => text,
        };
        proof {
            match colon {
                Some(ci) => {
                    assert(head@ =~= text@.take(ci as int));
                },
                None => {},
            }
        }
        let tag: String = match colon {
            Some(ci) => {
                let tagpart = text.substring_char(ci + 1, n);
                proof {
                    assert(tagpart@ =~= text@.skip(ci as int + 1));
                }
                if !valid_tag_exec(tagpart) {
                    return Err(Error::StringError("Malformatted Docker image".to_owned()));
                }
                tagpart.to_owned()
            },
            None => "latest".to_owned(),
        };
        let hn = head.unicode_len();
        let slash = find_char(head, '/');
        proof {
            match slash {
                Some(si) => lemma_first_ix_is(head@, '/', si as int),
                None => {
                    assert(!head@.contains('/')) by {
                        if head@.contains('/') {
                            let w = choose|w: int| 0 <= w < head@.len() && head@[w] == '/';
                            assert(head@[w] != '/');
                        }
                    }
                },
            }
        }
        match slash {
            Some(si) => {
                let first = head.substring_char(0, si);
                proof {
                    assert(first@ =~= head@.take(si as int));
                }
                if contains_char(first, '.') {
                    let rest = head.substring_char(si + 1, hn);
                    proof {
                        assert(rest@ =~= head@.skip(si as int + 1));
                    }
                    if valid_host_exec(first) && valid_repo_exec(rest) {
                        Ok(
                            Docker {
                                name: text.to_owned(),
                                registry: first.to_owned(),
                                image: rest.to_owned(),
                                tag,
                                use_https: true,
                            },
                        )
                    } else {
                        Err(Error::StringError("Malformatted Docker image".to_owned()))
                    }
                } else {
                    if valid_repo_exec(head) {
                        Ok(
                            Docker {
                                name: text.to_owned(),
                                registry: "registry-1.docker.io".to_owned(),
                                image: head.to_owned(),
                                tag,
                                use_https: true,
                            },
                        )
                    } else {
                        Err(Error::StringError("Malformatted Docker image".to_owned()))
                    }
                }
            },
            None => {
                if valid_repo_exec(head) {
                    Ok(
                        Docker {
                            name: text.to_owned(),
                            registry: "registry-1.docker.io".to_owned(),
                            image: head.to_owned(),
                            tag,
                            use_https: true,
                        },
                    )
                } else {
                    Err(Error::StringError("Malformatted Docker image".to_owned()))
                }
            },
        }
    }

    /// Builds the dependency declared by one `dockerImage` call-site: the
    /// argument must be a string literal holding a well-formed reference.
    pub fn new(context: &ParsingContext, node: &Node) -> (r: Result<Docker, Error>)
        ensures
            match r {
                Ok(d) => spec_docker_new(*context, *node) == Ok::<DockerV, ErrorV>(d@),
                Err(e) => spec_docker_new(*context, *node) == Err::<DockerV, ErrorV>(e@),
            },
    {
        let string_node = match assert_kind(
            context,
            "uptix.dockerImage",
            node,
            NodeKind::Str,
            docker_help_text(),
        ) {
            Ok(m) => m,
            Err(e) => {
                return Err(e);
            },
        };
        let text = strip_quotes(string_node.text.as_str());
        Docker::from(text.as_str())
    }

    /// Reconstructs a container-image dependency from a lock entry, purely
    /// from the stored raw reference.
    pub fn from_lock_entry(entry: &LockEntry) -> (r: Option<Docker>)
        ensures
            match r {
                Some(d) => spec_docker_from_lock_entry(*entry) == Some(d@),
                None => spec_docker_from_lock_entry(*entry) is None,
            },
    {
        match Docker::from(entry.metadata.name.as_str()) {
            Ok(d) => Some(d),
            Err(_) => None,
        }
    }

    /// The stable key of a container-image dependency: its raw name.
    pub open spec fn spec_key(&self) -> Seq<char> {
        self.name@
    }

    pub fn key(&self) -> (r: String)
        ensures
            r@ == self.spec_key(),
    {
        self.name.clone()
    }

    /// The ergonomic match predicate: the full raw name, or the bare
    /// repository path for an image on the default registry when the
    /// pattern carries no tag.
    pub open spec fn spec_matches(&self, p: Seq<char>) -> bool {
        self.name@ == p || (self.registry@ == "registry-1.docker.io"@ && self.image@ == p
            && !p.contains(':'))
    }

    pub fn matches(&self, pattern: &str) -> (r: bool)
        ensures
            r == self.spec_matches(pattern@),
    {
        if str_eq(self.name.as_str(), pattern) {
            return true;
        }
        str_eq(self.registry.as_str(), "registry-1.docker.io") && str_eq(
            self.image.as_str(),
            pattern,
        ) && !contains_char(pattern, ':')
    }

    /// The repository path used on the wire: unqualified single-segment
    /// repositories on the default registry get the official-image prefix,
    /// at resolution time only.
    pub open spec fn spec_resolved_image_name(&self) -> Seq<char> {
        if self.registry@ == "registry-1.docker.io"@ && !self.image@.contains('/') {
            "library/"@ + self.image@
        } else {
            self.image@
        }
    }

    pub fn resolved_image_name(&self) -> (r: String)
        ensures
            r@ == self.spec_resolved_image_name(),
    {
        if str_eq(self.registry.as_str(), "registry-1.docker.io") && !contains_char(
            self.image.as_str(),
            '/',
        ) {
            cat("library/", self.image.as_str())
        } else {
            self.image.clone()
        }
    }

    /// The pull scope requested when authenticating against the registry.
    pub fn login_scope(&self) -> (r: String)
        ensures
            r@ == "repository:"@ + self.spec_resolved_image_name() + ":pull"@,
    {
        let image_name = self.resolved_image_name();
        cat(cat("repository:", image_name.as_str()).as_str(), ":pull")
    }

    /// The human label of this dependency kind, qualified by the tag.
    pub fn type_display(&self) -> (r: String)
        ensures
            r@ == "docker-image ("@ + self.tag@ + ")"@,
    {
        cat(cat("docker-image (", self.tag.as_str()).as_str(), ")")
    }

    /// The human rendering of a resolved version: content digests are
    /// shortened to their first twelve digits, everything else passes
    /// through unchanged.
    pub open spec fn spec_friendly_version(rv: Seq<char>) -> Seq<char> {
        if spec_starts_with(rv, "sha256:"@) {
        "sha256:"@ + rv.skip(7).take(if rv.len() - 7 < 12 { rv.len() - 7 } else { 12 })
        } else {
            rv
        }
    }

    pub fn friendly_version(&self, resolved_version: &str) -> (r: String)
        ensures
            r@ == Docker::spec_friendly_version(resolved_version@),
    {
        proof {
            reveal_strlit("sha256:");
        }
        if starts_with(resolved_version, "sha256:") {
            let n = resolved_version.unicode_len();
            let end: usize = if n - 7 < 12 {
                n
            } else {
                7 + 12
            };
            let hash = resolved_version.substring_char(7, end);
            proof {
                assert(hash@ =~= resolved_version@.skip(7).take(
                    if resolved_version@.len() - 7 < 12 {
                        resolved_version@.len() - 7
                    } else {
                        12
                    },
                ));
            }
            cat("sha256:", hash)
        } else {
            resolved_version.to_owned()
        }
    }
}

/// The lock entry a resolved container image is persisted as.
pub open spec fn spec_docker_lock_entry(
    d: DockerV,
    digest: Seq<char>,
    friendly: Option<Seq<char>>,
    timestamp: Option<Seq<char>>,
) -> crate::deps::LockEntryV {
    crate::deps::LockEntryV {
        metadata: crate::deps::DependencyMetadataV {
            name: d.name,
            selected_version: Some(d.tag),
            resolved_version: Some(
                match friendly {
                    Some(f) => f,
                    None => digest,
                },
            ),
            timestamp,
            dep_type: "docker"@,
            description: "Docker image "@ + d.image + ":"@ + d.tag + " from "@ + d.registry,
        },
        lock: crate::deps::LockValueV::Text(digest),
    }
}

/// What one manifest request of the digest lookup came back with.
pub enum FetchOutcome {
    /// The registry answered with this digest.
    Found(String),
    /// The registry answered, but without a digest for this reference.
    NotFound,
    /// The request failed, with this cause.
    Failed(String),
}

/// What the enrichment pass learned about the manifest it fetched.
pub enum ManifestKind {
    /// A single-platform manifest pointing at its configuration blob.
    SinglePlatform { config_digest: String },
    /// A multi-platform list; the first listed platform entry, if any.
    MultiPlatform { first_platform_digest: Option<String> },
    /// A manifest shape the enrichment pass does not read.
    Unsupported,
}

/// The next move of the enrichment pass for one fetched manifest.
pub enum MetadataStep {
    /// Fetch this configuration blob.
    UseConfigDigest(String),
    /// Follow the list to this platform's own manifest first.
    NeedPlatformManifest(String),
    /// Degrade gracefully to no enrichment data.
    GiveUp,
}

impl Docker {
    /// Packages a completed resolution into the persisted lock entry; a
    /// resolution that found no digest, or an empty one, is an explicit
    /// failure, never an entry with an empty payload.
    pub fn lock_with_metadata_from(
        &self,
        digest: Option<String>,
        friendly: Option<String>,
        timestamp: Option<String>,
    ) -> (r: Result<LockEntry, Error>)
        ensures
            match r {
                Ok(entry) => digest matches Some(dg) && dg@.len() > 0 && entry@
                    == spec_docker_lock_entry(
                    self@,
                    dg@,
                    crate::deps::opt_view(friendly),
                    crate::deps::opt_view(timestamp),
                ),
                Err(e) => (match digest {
                    Some(dg) => dg@.len() == 0,
                    None => true,
                }) && e@ == ErrorV::StringError(
                    "Could not find digest for image "@ + self.name@ + " on registry"@,
                ),
            },
    {
        let dg = match digest {
            Some(d) => d,
            None => {
                let msg = cat(
                    cat("Could not find digest for image ", self.name.as_str()).as_str(),
                    " on registry",
                );
                return Err(Error::StringError(msg));
            },
        };
        if dg.as_str().is_empty() {
            let msg = cat(
                cat("Could not find digest for image ", self.name.as_str()).as_str(),
                " on registry",
            );
            return Err(Error::StringError(msg));
        }
        let resolved_version = match friendly {
            Some(f) => f,
            None => dg.clone(),
        };
        let description = cat(
            cat(
                cat(cat("Docker image ", self.image.as_str()).as_str(), ":").as_str(),
                self.tag.as_str(),
            ).as_str(),
            " from ",
        );
        let description = cat(description.as_str(), self.registry.as_str());
        let metadata = DependencyMetadata {
            name: self.name.clone(),
            selected_version: Some(self.tag.clone()),
            resolved_version: Some(resolved_version),
            timestamp,
            dep_type: "docker".to_owned(),
            description,
        };
        Ok(LockEntry { metadata, lock: LockValue::Text(dg) })
    }
}

/// Combines the two phases of the digest lookup: the unauthenticated
/// attempt decides alone when it succeeds; only when it failed is the
/// authenticated attempt consulted, and its failure is the reported one.
pub fn digest_resolution(direct: FetchOutcome, authenticated: Option<FetchOutcome>) -> (r: Result<
    Option<String>,
    Error,
>)
    requires
        direct is Failed ==> authenticated is Some,
    ensures
        (direct matches FetchOutcome::Found(d) ==> r == Ok::<Option<String>, Error>(Some(d))),
        (direct is NotFound ==> r == Ok::<Option<String>, Error>(None::<String>)),
        (direct is Failed ==> match authenticated->Some_0 {
            FetchOutcome::Found(d2) => r == Ok::<Option<String>, Error>(Some(d2)),
            FetchOutcome::NotFound => r == Ok::<Option<String>, Error>(None::<String>),
            FetchOutcome::Failed(m) => r matches Err(e) && e@ == ErrorV::RegistryError(m@),
        }),
{
    match direct {
        FetchOutcome::Found(d) => Ok(Some(d)),
        FetchOutcome::NotFound => Ok(None),
        FetchOutcome::Failed(_) => match authenticated {
            Some(FetchOutcome::Found(d2)) => Ok(Some(d2)),
            Some(FetchOutcome::NotFound) => Ok(None),
            Some(FetchOutcome::Failed(m)) => Err(Error::RegistryError(m)),
            None => {
                proof {
                    assert(false);
                }
                Ok(None)
            },
        },
    }
}

/// Where the enrichment pass goes after fetching one manifest: a
/// single-platform manifest hands over its configuration blob, a
/// multi-platform list redirects to its first platform, everything else
/// ends the pass without data.
pub fn manifest_metadata_step(m: ManifestKind) -> (r: MetadataStep)
    ensures
        match m {
            ManifestKind::SinglePlatform { config_digest } => r
                == MetadataStep::UseConfigDigest(config_digest),
            ManifestKind::MultiPlatform { first_platform_digest } => match first_platform_digest {
                Some(d) => r == MetadataStep::NeedPlatformManifest(d),
                None => r == MetadataStep::GiveUp,
            },
            ManifestKind::Unsupported => r == MetadataStep::GiveUp,
        },
{
    match m {
        ManifestKind::SinglePlatform { config_digest } => MetadataStep::UseConfigDigest(
            config_digest,
        ),
        ManifestKind::MultiPlatform { first_platform_digest } => match first_platform_digest {
            Some(d) => MetadataStep::NeedPlatformManifest(d),
            None => MetadataStep::GiveUp,
        },
        ManifestKind::Unsupported => MetadataStep::GiveUp,
    }
}

/// First value stored under `key` in a label list, if any.
pub open spec fn spec_label_lookup(ls: Seq<(Seq<char>, Seq<char>)>, key: Seq<char>) -> Option<
    Seq<char>,
>
    decreases ls.len(),
{
    if ls.len() == 0 {
        None
    } else if ls[0].0 == key {
        Some(ls[0].1)
    } else {
        spec_label_lookup(ls.skip(1), key)
    }
}

proof fn lemma_label_lookup_skip(ls: Seq<(Seq<char>, Seq<char>)>, key: Seq<char>, i: int)
    requires
        0 <= i <= ls.len(),
        forall|j: int| 0 <= j < i ==> (#[trigger] ls[j]).0 != key,
    ensures
        spec_label_lookup(ls, key) == spec_label_lookup(ls.skip(i), key),
    decreases i,
{
    if i > 0 {
        assert(forall|j: int| 0 <= j < i - 1 ==> (#[trigger] ls.skip(1)[j]).0 == ls[j + 1].0);
        assert(forall|j: int| 0 <= j < i - 1 ==> (#[trigger] ls.skip(1)[j]).0 != key);
        lemma_label_lookup_skip(ls.skip(1), key, i - 1);
        assert(ls.skip(1).skip(i - 1) =~= ls.skip(i));
        assert(ls[0].0 != key);
    } else {
        assert(ls.skip(0) =~= ls);
    }
}

fn label_lookup(labels: &Vec<(String, String)>, key: &str) -> (r: Option<String>)
    ensures
        crate::deps::opt_view(r) == spec_label_lookup(
            Seq::new(labels@.len(), |i: int| (labels@[i].0@, labels@[i].1@)),
            key@,
        ),
{
    let ghost ls = Seq::new(labels@.len(), |i: int| (labels@[i].0@, labels@[i].1@));
    let mut i: usize = 0;
    while i < labels.len()
        invariant
            ls == Seq::new(labels@.len(), |i: int| (labels@[i].0@, labels@[i].1@)),
            i <= labels@.len(),
            forall|j: int| 0 <= j < i ==> (#[trigger] ls[j]).0 != key@,
        decreases labels@.len() - i,
    {
        if str_eq(labels[i].0.as_str(), key) {
            proof {
                lemma_label_lookup_skip(ls, key@, i as int);
                assert(ls.skip(i as int)[0] == ls[i as int]);
            }
            return Some(labels[i].1.clone());
        }
        i = i + 1;
    }
    proof {
        lemma_label_lookup_skip(ls, key@, i as int);
        assert(ls.skip(i as int).len() == 0);
    }
    None
}

/// The friendly version selected from a fetched configuration blob: an
/// explicit version label under either conventional key, else the date
/// portion of the creation timestamp, else nothing.
pub open spec fn spec_friendly_from_config(
    ls: Seq<(Seq<char>, Seq<char>)>,
    created: Option<Seq<char>>,
) -> Option<Seq<char>> {
    match spec_label_lookup(ls, "org.opencontainers.image.version"@) {
        Some(v) => Some(v),
        None => match spec_label_lookup(ls, "version"@) {
            Some(v) => Some(v),
            None => match created {
                Some(ts) => Some(
                    if ts.contains('T') {
                        ts.take(first_ix(ts, 'T'))
                    } else {
                        ts
                    },
                ),
                None => None,
            },
        },
    }
}

/// Selects the friendly version from the parsed configuration blob fields:
/// the conventional version labels take precedence, then the date part of
/// the creation timestamp, and with neither present there is none.
pub fn select_friendly_version(labels: &Vec<(String, String)>, created: &Option<String>) -> (r:
    Option<String>)
    ensures
        crate::deps::opt_view(r) == spec_friendly_from_config(
            Seq::new(labels@.len(), |i: int| (labels@[i].0@, labels@[i].1@)),
            crate::deps::opt_view(*created),
        ),
{
    if let Some(v) = label_lookup(labels, "org.opencontainers.image.version") {
        return Some(v);
    }
    if let Some(v) = label_lookup(labels, "version") {
        return Some(v);
    }
    match created {
        Some(ts) => {
            let t = find_char(ts.as_str(), 'T');
            match t {
                Some(ti) => {
                    proof {
                        lemma_first_ix_is(ts@, 'T', ti as int);
                    }
                    let date = ts.as_str().substring_char(0, ti);
                    proof {
                        assert(date@ =~= ts@.take(ti as int));
                    }
                    Some(date.to_owned())
                },
                None => {
                    proof {
                        assert(!ts@.contains('T')) by {
                            if ts@.contains('T') {
                                let w = choose|w: int| 0 <= w < ts@.len() && ts@[w] == 'T';
                                assert(ts@[w] != 'T');
                            }
                        }
                    }
                    Some(ts.clone())
                },
            }
        },
        None => None,
    }
}

/// An ASCII whitespace character, as found around values in a credential
/// store file.
pub open spec fn is_ascii_ws(c: char) -> bool {
    c == ' ' || c == '\t' || c == '\n' || c == '\r'
}

pub open spec fn drop_leading_ws(s: Seq<char>) -> Seq<char>
    decreases s.len(),
{
    if s.len() > 0 && is_ascii_ws(s[0]) {
        drop_leading_ws(s.skip(1))
    } else {
        s
    }
}

pub open spec fn drop_trailing_ws(s: Seq<char>) -> Seq<char>
    decreases s.len(),
{
    if s.len() > 0 && is_ascii_ws(s.last()) {
        drop_trailing_ws(s.take(s.len() - 1))
    } else {
        s
    }
}

/// A string with surrounding ASCII whitespace removed.
pub open spec fn spec_trim_ws(s: Seq<char>) -> Seq<char> {
    drop_trailing_ws(drop_leading_ws(s))
}

proof fn lemma_drop_leading_ws_at(s: Seq<char>, k: int)
    requires
        0 <= k <= s.len(),
        forall|j: int| 0 <= j < k ==> is_ascii_ws(#[trigger] s[j]),
        k == s.len() || !is_ascii_ws(s[k]),
    ensures
        drop_leading_ws(s) == s.skip(k),
    decreases k,
{
    if k == 0 {
        assert(s.skip(0) =~= s);
    } else {
        lemma_drop_leading_ws_at(s.skip(1), k - 1);
        assert(s.skip(1).skip(k - 1) =~= s.skip(k));
    }
}

proof fn lemma_drop_trailing_ws_at(s: Seq<char>, h: int)
    requires
        0 <= h <= s.len(),
        forall|j: int| h <= j < s.len() ==> is_ascii_ws(#[trigger] s[j]),
        h == 0 || !is_ascii_ws(s[h - 1]),
    ensures
        drop_trailing_ws(s) == s.subrange(0, h),
    decreases s.len() - h,
{
    if h == s.len() {
        assert(s.subrange(0, h) =~= s);
    } else {
        lemma_drop_trailing_ws_at(s.take(s.len() - 1), h);
        assert(s.take(s.len() - 1).subrange(0, h) =~= s.subrange(0, h));
    }
}

/// Removes surrounding ASCII whitespace, as stray spacing in a credential
/// store should not defeat decoding.
fn trim_ascii_ws(s: &str) -> (r: String)
    ensures
        r@ == spec_trim_ws(s@),
{
    let n = s.unicode_len();
    let mut lo: usize = 0;
    loop
        invariant
            n == s@.len(),
            lo <= n,
            forall|j: int| 0 <= j < lo ==> is_ascii_ws(#[trigger] s@[j]),
        ensures
            lo <= n,
            forall|j: int| 0 <= j < lo ==> is_ascii_ws(#[trigger] s@[j]),
            lo == n || !is_ascii_ws(s@[lo as int]),
        decreases n - lo,
    {
        if lo == n {
            break;
        }
        let c = s.get_char(lo);
        if !(c == ' ' || c == '\t' || c == '\n' || c == '\r') {
            break;
        }
        lo = lo + 1;
    }
    let mut hi: usize = n;
    loop
        invariant
            n == s@.len(),
            lo <= hi <= n,
            forall|j: int| hi <= j < n ==> is_ascii_ws(#[trigger] s@[j]),
        ensures
            lo <= hi <= n,
            forall|j: int| hi <= j < n ==> is_ascii_ws(#[trigger] s@[j]),
            hi == lo || !is_ascii_ws(s@[hi - 1]),
        decreases hi,
    {
        if hi == lo {
            break;
        }
        let c = s.get_char(hi - 1);
        if !(c == ' ' || c == '\t' || c == '\n' || c == '\r') {
            break;
        }
        hi = hi - 1;
    }
    let out = s.substring_char(lo, hi).to_owned();
    proof {
        lemma_drop_leading_ws_at(s@, lo as int);
        let t = s@.skip(lo as int);
        assert(forall|j: int| hi - lo <= j < t.len() ==> is_ascii_ws(#[trigger] t[j]));
        if hi > lo {
            assert(t[hi - lo - 1] == s@[hi - 1]);
        }
        lemma_drop_trailing_ws_at(t, hi - lo);
        assert(t.subrange(0, hi - lo) =~= s@.subrange(lo as int, hi as int));
    }
    out
}

/// The byte sequence the standard base64 alphabet decodes a string to, when
/// the string is valid base64. Naming the result states only that it is a
/// function of the input.
pub uninterp spec fn base64_decoded(s: Seq<char>) -> Option<Seq<u8>>;

/// Relies on the base64 crate's standard-alphabet engine: whether a string
/// decodes, and to which bytes, depends on the string alone.
#[verifier::external_body]
fn b64_decode(s: &str) -> (r: Option<Vec<u8>>)
    ensures
        match r {
            Some(v) => base64_decoded(s@) == Some(v@),
            None => base64_decoded(s@) is None,
        },
{
    base64::Engine::decode(&base64::engine::general_purpose::STANDARD, s).ok()
}

/// Relies on String::from_utf8: it succeeds exactly on valid UTF-8 input
/// and yields the decoded characters.
#[verifier::external_body]
fn utf8_string(v: Vec<u8>) -> (r: Option<String>)
    ensures
        match r {
            Some(s) => vstd::utf8::valid_utf8(v@) && s@ == vstd::utf8::decode_utf8(v@),
            None => !vstd::utf8::valid_utf8(v@),
        },
{
    String::from_utf8(v).ok()
}

/// What one stored auth value yields: trimmed, base64-decoded, read as
/// UTF-8 and split at the first colon into user and password.
pub open spec fn spec_decoded_creds(b64: Seq<char>) -> Option<(Seq<char>, Seq<char>)> {
    match base64_decoded(spec_trim_ws(b64)) {
        Some(bytes) => if vstd::utf8::valid_utf8(bytes) {
            let chars = vstd::utf8::decode_utf8(bytes);
            if chars.contains(':') {
                Some((chars.take(first_ix(chars, ':')), chars.skip(first_ix(chars, ':') + 1)))
            } else {
                None
            }
        } else {
            None
        },
        None => None,
    }
}

fn decoded_creds(b64: &str) -> (r: Option<(String, String)>)
    ensures
        match r {
            Some(c) => spec_decoded_creds(b64@) == Some((c.0@, c.1@)),
            None => spec_decoded_creds(b64@) is None,
        },
{
    let trimmed = trim_ascii_ws(b64);
    let bytes = match b64_decode(trimmed.as_str()) {
        Some(v) => v,
        None => {
            return None;
        },
    };
    let s = match utf8_string(bytes) {
        Some(s) => s,
        None => {
            return None;
        },
    };
    let n = s.as_str().unicode_len();
    match find_char(s.as_str(), ':') {
        Some(i) => {
            proof {
                lemma_first_ix_is(s@, ':', i as int);
            }
            let user = s.as_str().substring_char(0, i).to_owned();
            let pass = s.as_str().substring_char(i + 1, n).to_owned();
            proof {
                assert(user@ =~= s@.take(i as int));
                assert(pass@ =~= s@.skip(i as int + 1));
            }
            Some((user, pass))
        },
        None => {
            proof {
                assert(!s@.contains(':')) by {
                    if s@.contains(':') {
                        let w = choose|w: int| 0 <= w < s@.len() && s@[w] == ':';
                        assert(s@[w] != ':');
                    }
                }
            }
            None
        },
    }
}

/// What one registry alias yields from the credential pairs of a store.
pub open spec fn spec_try_alias(auths: Seq<(Seq<char>, Seq<char>)>, alias: Seq<char>) -> Option<
    (Seq<char>, Seq<char>),
> {
    match spec_label_lookup(auths, alias) {
        Some(b64) => spec_decoded_creds(b64),
        None => None,
    }
}

fn try_alias(auths: &Vec<(String, String)>, alias: &str) -> (r: Option<(String, String)>)
    ensures
        match r {
            Some(c) => spec_try_alias(
                Seq::new(auths@.len(), |i: int| (auths@[i].0@, auths@[i].1@)),
                alias@,
            ) == Some((c.0@, c.1@)),
            None => spec_try_alias(
                Seq::new(auths@.len(), |i: int| (auths@[i].0@, auths@[i].1@)),
                alias@,
            ) is None,
        },
{
    match label_lookup(auths, alias) {
        Some(b64) => decoded_creds(b64.as_str()),
        None => None,
    }
}

/// The default-registry credentials a credential store supplies: the known
/// registry aliases are tried in priority order, and the first whose auth
/// value decodes to a `user:password` pair wins.
pub open spec fn spec_hub_credentials(auths: Seq<(Seq<char>, Seq<char>)>) -> Option<
    (Seq<char>, Seq<char>),
> {
    match spec_try_alias(auths, "https://index.docker.io/v1/"@) {
        Some(c) => Some(c),
        None => match spec_try_alias(auths, "index.docker.io"@) {
            Some(c) => Some(c),
            None => spec_try_alias(auths, "docker.io"@),
        },
    }
}

/// Picks the default-registry credentials out of the parsed auth pairs of a
/// local credential-store file.
pub fn dockerhub_credentials(auths: &Vec<(String, String)>) -> (r: Option<(String, String)>)
    ensures
        match r {
            Some(c) => spec_hub_credentials(
                Seq::new(auths@.len(), |i: int| (auths@[i].0@, auths@[i].1@)),
            ) == Some((c.0@, c.1@)),
            None => spec_hub_credentials(
                Seq::new(auths@.len(), |i: int| (auths@[i].0@, auths@[i].1@)),
            ) is None,
        },
{
    if let Some(c) = try_alias(auths, "https://index.docker.io/v1/") {
        return Some(c);
    }
    if let Some(c) = try_alias(auths, "index.docker.io") {
        return Some(c);
    }
    try_alias(auths, "docker.io")
}

/// Credentials from the environment take priority over a credential store.
pub fn pick_credentials(env: Option<(String, String)>, store: Option<(String, String)>) -> (r:
    Option<(String, String)>)
    ensures
        env is Some ==> r == env,
        env is None ==> r == store,
{
    match env {
        Some(c) => Some(c),
        None => store,
    }
}

/// The guidance shown when a `dockerImage` declaration has the wrong shape.
pub fn docker_help_text() -> (r: &'static str)
    ensures
        r@ == docker_help_text_spec(),
{
    "here are some examples of allowed parameters:\n - homeassistant/home-assistant:stable\n - grafana/grafana\n - postgres:15\n - redis:7-alpine\n - custom.registry.io/foo/bar:tag"
}

pub open spec fn docker_help_text_spec() -> Seq<char> {
    "here are some examples of allowed parameters:\n - homeassistant/home-assistant:stable\n - grafana/grafana\n - postgres:15\n - redis:7-alpine\n - custom.registry.io/foo/bar:tag"@
}

} // verus!
