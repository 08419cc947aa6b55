//! Pieces shared by the source-host resolvers: the stored lock payload, the
//! compact flag suffix used in keys, and the arguments handed to the
//! external content-hashing tool.

use vstd::prelude::*;

verus! {

use crate::error::Error;
use crate::error::ErrorV;
use crate::nix::nix_attrs_view_from;
use crate::nix::nix_value_view;
use crate::nix::spec_value_from_node;
use crate::nix::value_from_node;
use crate::nix::NixValue;
use crate::nix::NixValueV;
use crate::nix::Node;
use crate::nix::NodeKind;
use crate::strutil::cat;
use crate::strutil::str_eq;

/// The kind-specific lock payload persisted for a source-host dependency:
/// enough to reconstruct the declaration and to fetch the exact revision.
#[derive(Debug, PartialEq)]
#[allow(non_snake_case)]
pub struct GitHubLock {
    pub owner: String,
    pub repo: String,
    pub rev: String,
    pub sha256: String,
    pub fetchSubmodules: bool,
    pub deepClone: bool,
    pub leaveDotGit: bool,
}

impl Clone for GitHubLock {
    fn clone(&self) -> (res: Self)
        ensures
            res == *self,
    {
        GitHubLock {
            owner: self.owner.clone(),
            repo: self.repo.clone(),
            rev: self.rev.clone(),
            sha256: self.sha256.clone(),
            fetchSubmodules: self.fetchSubmodules,
            deepClone: self.deepClone,
            leaveDotGit: self.leaveDotGit,
        }
    }
}

/// Mathematical image of a `GitHubLock`.
pub struct GitHubLockV {
    pub owner: Seq<char>,
    pub repo: Seq<char>,
    pub rev: Seq<char>,
    pub sha256: Seq<char>,
    pub fetch_submodules: bool,
    pub deep_clone: bool,
    pub leave_dot_git: bool,
}

impl View for GitHubLock {
    type V = GitHubLockV;

    open spec fn view(&self) -> GitHubLockV {
        GitHubLockV {
            owner: self.owner@,
            repo: self.repo@,
            rev: self.rev@,
            sha256: self.sha256@,
            fetch_submodules: self.fetchSubmodules,
            deep_clone: self.deepClone,
            leave_dot_git: self.leaveDotGit,
        }
    }
}

/// Whether an optional flag counts as set.
pub open spec fn flag_on(o: Option<bool>) -> bool {
    match o {
        Some(b) => b,
        None => false,
    }
}

/// The compact flag suffix of a key: one reserved letter per set flag, in a
/// fixed order, empty when no flag is set.
pub open spec fn spec_flags(
    fetch_submodules: Option<bool>,
    deep_clone: Option<bool>,
    leave_dot_git: Option<bool>,
) -> Seq<char> {
    (if flag_on(fetch_submodules) {
        "f"@
    } else {
        ""@
    }) + (if flag_on(deep_clone) {
        "d"@
    } else {
        ""@
    }) + (if flag_on(leave_dot_git) {
        "l"@
    } else {
        ""@
    })
}

pub fn flags(
    fetch_submodules: Option<bool>,
    deep_clone: Option<bool>,
    leave_dot_git: Option<bool>,
) -> (r: String)
    ensures
        r@ == spec_flags(fetch_submodules, deep_clone, leave_dot_git),
{
    let a: &str = if fetch_submodules.unwrap_or(false) {
        "f"
    } else {
        ""
    };
    let b: &str = if deep_clone.unwrap_or(false) {
        "d"
    } else {
        ""
    };
    let c: &str = if leave_dot_git.unwrap_or(false) {
        "l"
    } else {
        ""
    };
    cat(cat(a, b).as_str(), c)
}

/// Each of the three flags can be read back off the suffix: its reserved
/// letter appears exactly when the flag is set.
pub proof fn lemma_flags_chars(
    fetch_submodules: Option<bool>,
    deep_clone: Option<bool>,
    leave_dot_git: Option<bool>,
)
    ensures
        spec_flags(fetch_submodules, deep_clone, leave_dot_git).contains('f') == flag_on(
            fetch_submodules,
        ),
        spec_flags(fetch_submodules, deep_clone, leave_dot_git).contains('d') == flag_on(
            deep_clone,
        ),
        spec_flags(fetch_submodules, deep_clone, leave_dot_git).contains('l') == flag_on(
            leave_dot_git,
        ),
{
    reveal_strlit("f");
    reveal_strlit("d");
    reveal_strlit("l");
    reveal_strlit("");
    let s = spec_flags(fetch_submodules, deep_clone, leave_dot_git);
    let a: Seq<char> = if flag_on(fetch_submodules) {
        "f"@
    } else {
        ""@
    };
    let b: Seq<char> = if flag_on(deep_clone) {
        "d"@
    } else {
        ""@
    };
    let c: Seq<char> = if flag_on(leave_dot_git) {
        "l"@
    } else {
        ""@
    };
    assert(s == a + b + c);
    if flag_on(fetch_submodules) {
        assert(s[0] == 'f');
        assert(s.contains('f'));
    } else {
        assert(forall|i: int| 0 <= i < s.len() ==> s[i] != 'f') by {
            assert(forall|i: int| 0 <= i < b.len() ==> b[i] != 'f');
            assert(forall|i: int| 0 <= i < c.len() ==> c[i] != 'f');
        }
        assert(!s.contains('f'));
    }
    if flag_on(deep_clone) {
        assert(s[a.len() as int] == 'd');
        assert(s.contains('d'));
    } else {
        assert(forall|i: int| 0 <= i < s.len() ==> s[i] != 'd');
        assert(!s.contains('d'));
    }
    if flag_on(leave_dot_git) {
        assert(s[a.len() as int + b.len() as int] == 'l');
        assert(s.contains('l'));
    } else {
        assert(forall|i: int| 0 <= i < s.len() ==> s[i] != 'l');
        assert(!s.contains('l'));
    }
}

/// The flag suffix is injective: equal suffixes mean equal flags, flags set
/// in any spelling (`None` and `Some(false)` both count as unset).
pub proof fn lemma_flags_injective(
    f1: Option<bool>,
    d1: Option<bool>,
    l1: Option<bool>,
    f2: Option<bool>,
    d2: Option<bool>,
    l2: Option<bool>,
)
    requires
        spec_flags(f1, d1, l1) == spec_flags(f2, d2, l2),
    ensures
        flag_on(f1) == flag_on(f2),
        flag_on(d1) == flag_on(d2),
        flag_on(l1) == flag_on(l2),
{
    lemma_flags_chars(f1, d1, l1);
    lemma_flags_chars(f2, d2, l2);
}

/// The command-line switches handed to the external content-hashing tool for
/// a given flag combination; retaining source-control metadata is forced on
/// by a deep clone, which the tool's own documentation requires.
pub open spec fn spec_prefetch_args(
    fetch_submodules: Option<bool>,
    deep_clone: Option<bool>,
    leave_dot_git: Option<bool>,
) -> Seq<Seq<char>> {
    (if flag_on(deep_clone) {
        seq!["--deepClone"@]
    } else {
        seq!["--no-deepClone"@]
    }) + (if flag_on(fetch_submodules) {
        seq!["--fetch-submodules"@]
    } else {
        Seq::empty()
    }) + (if flag_on(leave_dot_git) || flag_on(deep_clone) {
        seq!["--leave-dotGit"@]
    } else {
        Seq::empty()
    })
}

pub fn prefetch_args(
    fetch_submodules: Option<bool>,
    deep_clone: Option<bool>,
    leave_dot_git: Option<bool>,
) -> (r: Vec<String>)
    ensures
        r.deep_view() == spec_prefetch_args(fetch_submodules, deep_clone, leave_dot_git),
{
    let mut out: Vec<String> = Vec::new();
    if deep_clone.unwrap_or(false) {
        out.push("--deepClone".to_owned());
    } else {
        out.push("--no-deepClone".to_owned());
    }
    if fetch_submodules.unwrap_or(false) {
        out.push("--fetch-submodules".to_owned());
    }
    if leave_dot_git.unwrap_or(false) || deep_clone.unwrap_or(false) {
        out.push("--leave-dotGit".to_owned());
    }
    proof {
        assert(out.deep_view() =~= spec_prefetch_args(fetch_submodules, deep_clone, leave_dot_git));
    }
    out
}

/// How many pairs the attribute view holds, and what each one is.
pub proof fn lemma_attrs_view_index(ps: Seq<(String, NixValue)>, i: int, j: int)
    requires
        0 <= i <= ps.len(),
        i <= j < ps.len(),
    ensures
        nix_attrs_view_from(ps, i).len() == ps.len() - i,
        nix_attrs_view_from(ps, i)[j - i] == (ps[j].0@, nix_value_view(ps[j].1)),
    decreases j - i,
{
    lemma_attrs_view_len(ps, i);
    if i < j {
        lemma_attrs_view_index(ps, i + 1, j);
    }
}

pub proof fn lemma_attrs_view_len(ps: Seq<(String, NixValue)>, i: int)
    requires
        0 <= i <= ps.len(),
    ensures
        nix_attrs_view_from(ps, i).len() == ps.len() - i,
    decreases ps.len() - i,
{
    if i < ps.len() {
        lemma_attrs_view_len(ps, i + 1);
    }
}

/// The value bound to `key`, later bindings shadowing earlier ones, as a
/// map built by insertion would hold it.
pub open spec fn spec_attr_last(ps: Seq<(Seq<char>, NixValueV)>, key: Seq<char>) -> Option<
    NixValueV,
>
    decreases ps.len(),
{
    if ps.len() == 0 {
        None
    } else if ps.last().0 == key {
        Some(ps.last().1)
    } else {
        spec_attr_last(ps.drop_last(), key)
    }
}

proof fn lemma_attr_last_take(ps: Seq<(Seq<char>, NixValueV)>, key: Seq<char>, h: int)
    requires
        0 <= h <= ps.len(),
        forall|j: int| h <= j < ps.len() ==> (#[trigger] ps[j]).0 != key,
    ensures
        spec_attr_last(ps, key) == spec_attr_last(ps.take(h), key),
    decreases ps.len() - h,
{
    if h == ps.len() {
        assert(ps.take(h) =~= ps);
    } else {
        assert(ps.last().0 != key);
        lemma_attr_last_take(ps.drop_last(), key, h);
        assert(ps.drop_last().take(h) =~= ps.take(h));
    }
}

/// Index of the binding that decides `key`, if any: the last one so named.
fn attr_find_last(pairs: &Vec<(String, NixValue)>, key: &str) -> (r: Option<usize>)
    ensures
        match r {
            Some(i) => i < pairs@.len() && pairs@[i as int].0@ == key@ && spec_attr_last(
                nix_attrs_view_from(pairs@, 0),
                key@,
            ) == Some(nix_value_view(pairs@[i as int].1)),
            None => spec_attr_last(nix_attrs_view_from(pairs@, 0), key@) is None,
        },
{
    let ghost vps = nix_attrs_view_from(pairs@, 0);
    proof {
        lemma_attrs_view_len(pairs@, 0);
    }
    let mut h: usize = pairs.len();
    while h > 0
        invariant
            vps == nix_attrs_view_from(pairs@, 0),
            vps.len() == pairs@.len(),
            h <= pairs@.len(),
            forall|j: int| h <= j < vps.len() ==> (#[trigger] vps[j]).0 != key@,
        decreases h,
    {
        let i = h - 1;
        proof {
            lemma_attrs_view_index(pairs@, 0, i as int);
        }
        if str_eq(pairs[i].0.as_str(), key) {
            proof {
                lemma_attr_last_take(vps, key@, h as int);
                assert(vps.take(h as int).last() == vps[i as int]);
                assert(vps.take(h as int).drop_last() =~= vps.take(i as int));
            }
            return Some(i);
        }
        h = i;
    }
    proof {
        lemma_attr_last_take(vps, key@, 0);
        assert(vps.take(0).len() == 0);
    }
    None
}

/// A binding the declaration must carry, as a string.
pub open spec fn spec_req_string(ps: Seq<(Seq<char>, NixValueV)>, key: Seq<char>) -> Result<
    Seq<char>,
    ErrorV,
> {
    match spec_attr_last(ps, key) {
        Some(v) => match v {
            NixValueV::Str(s) => Ok(s),
            _ => Err(ErrorV::NixParsingError("attribute is not a string: "@ + key)),
        },
        None => Err(ErrorV::NixParsingError("missing attribute: "@ + key)),
    }
}

/// A binding the declaration may carry; when it does, it must be a string.
pub open spec fn spec_opt_string(ps: Seq<(Seq<char>, NixValueV)>, key: Seq<char>) -> Result<
    Option<Seq<char>>,
    ErrorV,
> {
    match spec_attr_last(ps, key) {
        Some(v) => match v {
            NixValueV::Str(s) => Ok(Some(s)),
            _ => Err(ErrorV::NixParsingError("attribute is not a string: "@ + key)),
        },
        None => Ok(None),
    }
}

/// A binding no declaration can supply in a readable form.
pub open spec fn spec_absent(ps: Seq<(Seq<char>, NixValueV)>, key: Seq<char>) -> Result<
    (),
    ErrorV,
> {
    match spec_attr_last(ps, key) {
        Some(_) => Err(ErrorV::NixParsingError("unsupported attribute: "@ + key)),
        None => Ok(()),
    }
}

pub fn req_string(pairs: &Vec<(String, NixValue)>, key: &str) -> (r: Result<String, Error>)
    ensures
        match r {
            Ok(s) => spec_req_string(nix_attrs_view_from(pairs@, 0), key@) == Ok::<
                Seq<char>,
                ErrorV,
            >(s@),
            Err(e) => spec_req_string(nix_attrs_view_from(pairs@, 0), key@) == Err::<
                Seq<char>,
                ErrorV,
            >(e@),
        },
{
    match attr_find_last(pairs, key) {
        Some(i) => match &pairs[i].1 {
            NixValue::Str(s) => Ok(s.clone()),
            NixValue::Int(_) => Err(
                Error::NixParsingError(cat("attribute is not a string: ", key)),
            ),
            NixValue::Float(_) => Err(
                Error::NixParsingError(cat("attribute is not a string: ", key)),
            ),
            NixValue::Attrs(_) => Err(
                Error::NixParsingError(cat("attribute is not a string: ", key)),
            ),
        },
        None => Err(Error::NixParsingError(cat("missing attribute: ", key))),
    }
}

pub fn opt_string(pairs: &Vec<(String, NixValue)>, key: &str) -> (r: Result<Option<String>, Error>)
    ensures
        match r {
            Ok(s) => spec_opt_string(nix_attrs_view_from(pairs@, 0), key@) == Ok::<
                Option<Seq<char>>,
                ErrorV,
            >(crate::deps::opt_view(s)),
            Err(e) => spec_opt_string(nix_attrs_view_from(pairs@, 0), key@) == Err::<
                Option<Seq<char>>,
                ErrorV,
            >(e@),
        },
{
    match attr_find_last(pairs, key) {
        Some(i) => match &pairs[i].1 {
            NixValue::Str(s) => Ok(Some(s.clone())),
            NixValue::Int(_) => Err(
                Error::NixParsingError(cat("attribute is not a string: ", key)),
            ),
            NixValue::Float(_) => Err(
                Error::NixParsingError(cat("attribute is not a string: ", key)),
            ),
            NixValue::Attrs(_) => Err(
                Error::NixParsingError(cat("attribute is not a string: ", key)),
            ),
        },
        None => Ok(None),
    }
}

pub fn absent(pairs: &Vec<(String, NixValue)>, key: &str) -> (r: Result<(), Error>)
    ensures
        match r {
            Ok(_) => spec_absent(nix_attrs_view_from(pairs@, 0), key@) is Ok,
            Err(e) => spec_absent(nix_attrs_view_from(pairs@, 0), key@) == Err::<(), ErrorV>(e@),
        },
{
    match attr_find_last(pairs, key) {
        Some(_) => Err(Error::NixParsingError(cat("unsupported attribute: ", key))),
        None => Ok(()),
    }
}

/// Reads the bindings of an attribute-set node.
pub fn attrs_value_of(node: &Node) -> (r: Result<Vec<(String, NixValue)>, Error>)
    requires
        node.kind == NodeKind::AttrSet,
    ensures
        match r {
            Ok(ps) => spec_value_from_node(*node) == Ok::<NixValueV, ErrorV>(
                NixValueV::Attrs(nix_attrs_view_from(ps@, 0)),
            ),
            Err(e) => spec_value_from_node(*node) == Err::<NixValueV, ErrorV>(e@),
        },
{
    match value_from_node(node) {
        Ok(v) => match v {
            NixValue::Attrs(ps) => Ok(ps),
            NixValue::Str(_) => {
                proof {
                    assert(false);
                }
                Err(Error::NixParsingError("Unexpected node".to_owned()))
            },
            NixValue::Int(_) => {
                proof {
                    assert(false);
                }
                Err(Error::NixParsingError("Unexpected node".to_owned()))
            },
            NixValue::Float(_) => {
                proof {
                    assert(false);
                }
                Err(Error::NixParsingError("Unexpected node".to_owned()))
            },
        },
        Err(e) => Err(e),
    }
}

/// The address of a repository as handed to the content-hashing tool.
pub fn github_repo_url(owner: &str, repo: &str) -> (r: String)
    ensures
        r@ == "https://github.com/"@ + owner@ + "/"@ + repo@ + "/"@,
{
    let s = cat("https://github.com/", owner);
    let s = cat(s.as_str(), "/");
    let s = cat(s.as_str(), repo);
    cat(s.as_str(), "/")
}

} // verus!
