//! The laws the dependency model obeys, stated and proved once: keys are
//! injective over the declarations one run can produce, reconstruction from
//! a freshly produced lock entry preserves the key, and the container-image
//! match predicate rejects bare prefixes of a repository name.

use vstd::prelude::*;

verus! {

use crate::deps::branch::spec_branch_lock_entry;
use crate::deps::branch::GitHubBranch;
use crate::deps::docker::spec_docker_from_lock_entry;
use crate::deps::docker::spec_docker_lock_entry;
use crate::deps::docker::spec_split_image;
use crate::deps::docker::valid_tag;
use crate::deps::docker::Docker;
use crate::deps::github::flag_on;
use crate::deps::github::lemma_flags_injective;
use crate::deps::github::spec_flags;
use crate::deps::release::spec_release_lock_entry;
use crate::deps::release::GitHubRelease;
use crate::deps::spec_dep_from_lock_entry;
use crate::deps::spec_dep_key;
use crate::deps::LockEntry;
use crate::strutil::lemma_cancel_prefix;
use crate::strutil::lemma_concat_not_contains;
use crate::strutil::lemma_split_unique;

/// Key injectivity for source-branch dependencies: within the well-formed
/// coordinates a source host admits (no slash in owner or repository, no
/// colon in the repository), equal keys mean equal declarations.
pub proof fn lemma_branch_key_injective(b1: GitHubBranch, b2: GitHubBranch)
    requires
        b1.spec_key() == b2.spec_key(),
        !b1.owner@.contains('/'),
        !b2.owner@.contains('/'),
        !b1.repo@.contains('/'),
        !b2.repo@.contains('/'),
        !b1.repo@.contains(':'),
        !b2.repo@.contains(':'),
    ensures
        b1.owner@ == b2.owner@,
        b1.repo@ == b2.repo@,
        b1.branch@ == b2.branch@,
{
    reveal_strlit("/");
    reveal_strlit(":");
    let pre = "$GITHUB_BRANCH$:"@;
    let tail1 = b1.owner@ + "/"@ + (b1.repo@ + ":"@ + b1.branch@);
    let tail2 = b2.owner@ + "/"@ + (b2.repo@ + ":"@ + b2.branch@);
    assert(pre + tail1 =~= b1.spec_key());
    assert(pre + tail2 =~= b2.spec_key());
    lemma_cancel_prefix(pre, tail1, tail2);
    assert("/"@ =~= seq!['/']);
    assert(":"@ =~= seq![':']);
    assert(b1.owner@ + seq!['/'] + (b1.repo@ + ":"@ + b1.branch@) =~= tail1);
    assert(b2.owner@ + seq!['/'] + (b2.repo@ + ":"@ + b2.branch@) =~= tail2);
    lemma_split_unique(
        b1.owner@,
        b1.repo@ + ":"@ + b1.branch@,
        b2.owner@,
        b2.repo@ + ":"@ + b2.branch@,
        '/',
    );
    assert(b1.repo@ + seq![':'] + b1.branch@ =~= b1.repo@ + ":"@ + b1.branch@);
    assert(b2.repo@ + seq![':'] + b2.branch@ =~= b2.repo@ + ":"@ + b2.branch@);
    lemma_split_unique(b1.repo@, b1.branch@, b2.repo@, b2.branch@, ':');
}

/// Key injectivity for source-release dependencies: within well-formed
/// coordinates, equal keys mean equal owner, repository, and flags, the
/// flags compared as set-or-not whatever their spelling.
pub proof fn lemma_release_key_injective(g1: GitHubRelease, g2: GitHubRelease)
    requires
        g1.spec_key() == g2.spec_key(),
        !g1.owner@.contains('/'),
        !g2.owner@.contains('/'),
        !g1.repo@.contains('/'),
        !g2.repo@.contains('/'),
        !g1.owner@.contains('$'),
        !g2.owner@.contains('$'),
        !g1.repo@.contains('$'),
        !g2.repo@.contains('$'),
    ensures
        g1.owner@ == g2.owner@,
        g1.repo@ == g2.repo@,
        flag_on(g1.fetchSubmodules) == flag_on(g2.fetchSubmodules),
        flag_on(g1.deepClone) == flag_on(g2.deepClone),
        flag_on(g1.leaveDotGit) == flag_on(g2.leaveDotGit),
{
    reveal_strlit("/");
    reveal_strlit("$");
    let pre = "$GITHUB_RELEASE$:"@;
    let f1 = spec_flags(g1.fetchSubmodules, g1.deepClone, g1.leaveDotGit);
    let f2 = spec_flags(g2.fetchSubmodules, g2.deepClone, g2.leaveDotGit);
    let mid1 = g1.owner@ + "/"@ + g1.repo@;
    let mid2 = g2.owner@ + "/"@ + g2.repo@;
    let tail1 = mid1 + "$"@ + f1;
    let tail2 = mid2 + "$"@ + f2;
    assert(pre + (mid1 + seq!['$'] + f1) =~= g1.spec_key()) by {
        assert("$"@ =~= seq!['$']);
    }
    assert(pre + (mid2 + seq!['$'] + f2) =~= g2.spec_key()) by {
        assert("$"@ =~= seq!['$']);
    }
    lemma_cancel_prefix(pre, mid1 + seq!['$'] + f1, mid2 + seq!['$'] + f2);
    assert(!mid1.contains('$')) by {
        assert(!"/"@.contains('$')) by {
            if "/"@.contains('$') {
                let w = choose|w: int| 0 <= w < "/"@.len() && "/"@[w] == '$';
            }
        }
        lemma_concat_not_contains(g1.owner@, "/"@, '$');
        lemma_concat_not_contains(g1.owner@ + "/"@, g1.repo@, '$');
    }
    assert(!mid2.contains('$')) by {
        assert(!"/"@.contains('$')) by {
            if "/"@.contains('$') {
                let w = choose|w: int| 0 <= w < "/"@.len() && "/"@[w] == '$';
            }
        }
        lemma_concat_not_contains(g2.owner@, "/"@, '$');
        lemma_concat_not_contains(g2.owner@ + "/"@, g2.repo@, '$');
    }
    lemma_split_unique(mid1, f1, mid2, f2, '$');
    assert(g1.owner@ + seq!['/'] + g1.repo@ =~= mid1);
    assert(g2.owner@ + seq!['/'] + g2.repo@ =~= mid2);
    lemma_split_unique(g1.owner@, g1.repo@, g2.owner@, g2.repo@, '/');
    lemma_flags_injective(
        g1.fetchSubmodules,
        g1.deepClone,
        g1.leaveDotGit,
        g2.fetchSubmodules,
        g2.deepClone,
        g2.leaveDotGit,
    );
}

/// Key injectivity for container-image dependencies: the key is the raw
/// declared reference, and for parsed instances the reference determines
/// every field, so equal keys mean equal declarations outright.
pub proof fn lemma_docker_key_injective(d1: Docker, d2: Docker)
    requires
        d1.spec_key() == d2.spec_key(),
        spec_split_image(d1.name@) == Some((d1.registry@, d1.image@, d1.tag@)),
        spec_split_image(d2.name@) == Some((d2.registry@, d2.image@, d2.tag@)),
        d1.use_https,
        d2.use_https,
    ensures
        d1@ == d2@,
{
    assert(d1.name@ == d2.name@);
    assert(d1.registry@ == d2.registry@);
    assert(d1.image@ == d2.image@);
    assert(d1.tag@ == d2.tag@);
}

/// Round trip for source-release dependencies: rebuilding a dependency from
/// the lock entry it just produced yields one with the same key.
pub proof fn lemma_release_round_trip(
    g: GitHubRelease,
    entry: LockEntry,
    rev: Seq<char>,
    sha: Seq<char>,
)
    requires
        entry@ == spec_release_lock_entry(g@, rev, sha),
    ensures
        spec_dep_from_lock_entry(entry) matches Ok(d2) && spec_dep_key(d2) == g.spec_key(),
{
    reveal_strlit("docker");
    reveal_strlit("github-branch");
    reveal_strlit("github-release");
    assert(entry.metadata.dep_type@ == "github-release"@);
    assert(entry.metadata.dep_type@ != "docker"@);
    assert(entry.metadata.dep_type@ != "github-branch"@);
    assert(entry.lock is GitHub) by {
        if entry.lock is Text {
            assert(entry.lock@ is Text);
        }
    }
}

/// Round trip for source-branch dependencies: rebuilding a dependency from
/// the lock entry it just produced yields one with the same key.
pub proof fn lemma_branch_round_trip(
    b: GitHubBranch,
    entry: LockEntry,
    rev: Seq<char>,
    sha: Seq<char>,
)
    requires
        entry@ == spec_branch_lock_entry(b@, rev, sha),
    ensures
        spec_dep_from_lock_entry(entry) matches Ok(d2) && spec_dep_key(d2) == b.spec_key(),
{
    reveal_strlit("docker");
    reveal_strlit("github-branch");
    reveal_strlit("github-release");
    assert(entry.metadata.dep_type@ == "github-branch"@);
    assert(entry.metadata.dep_type@ != "docker"@);
    assert(entry.lock is GitHub) by {
        if entry.lock is Text {
            assert(entry.lock@ is Text);
        }
    }
    assert(entry.metadata.selected_version is Some) by {
        if entry.metadata.selected_version is None {
            assert(entry@.metadata.selected_version is None);
        }
    }
}

/// Round trip for container-image dependencies: the entry stores the raw
/// declared reference as its display name, so rebuilding a dependency from
/// the lock entry it just produced reparses that reference and yields one
/// with the same key, for every reference the grammar admits.
pub proof fn lemma_docker_round_trip(
    d: Docker,
    entry: LockEntry,
    digest: Seq<char>,
    friendly: Option<Seq<char>>,
    timestamp: Option<Seq<char>>,
)
    requires
        entry@ == spec_docker_lock_entry(d@, digest, friendly, timestamp),
        spec_split_image(d.name@) == Some((d.registry@, d.image@, d.tag@)),
    ensures
        spec_dep_from_lock_entry(entry) matches Ok(d2) && spec_dep_key(d2) == d.spec_key(),
{
    reveal_strlit("docker");
    assert(entry.metadata.dep_type@ == "docker"@);
    assert(entry.metadata.name@ == d.name@);
    assert(spec_docker_from_lock_entry(entry) is Some);
}

/// The bare-repository match rule never fires on a strict prefix of the
/// repository name: a pattern must name the whole repository, or the full
/// `name:tag`, to address a container image declared as `repository:tag`.
pub proof fn lemma_docker_prefix_no_match(d: Docker, p: Seq<char>)
    requires
        d.name@ == d.image@ + ":"@ + d.tag@,
        valid_tag(d.tag@),
        p.len() < d.image@.len(),
        p == d.image@.subrange(0, p.len() as int),
    ensures
        !d.spec_matches(p),
{
    reveal_strlit(":");
    assert(d.name@.len() == d.image@.len() + 1 + d.tag@.len());
    assert(p != d.name@);
    assert(p != d.image@);
}

} // verus!
