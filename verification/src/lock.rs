//! The lock store: an ordered mapping from dependency key to lock entry,
//! kept sorted by key for deterministic serialization, with last-write-wins
//! merge and the selector used for partial updates.

use vstd::prelude::*;

verus! {

use crate::deps::Dependency;
use crate::deps::LockEntry;
use crate::strutil::lemma_seq_lt_irrefl;
use crate::strutil::lemma_seq_lt_trans;
use crate::strutil::seq_lt;
use crate::strutil::spec_contains_seq;
use crate::strutil::contains_substr;
use crate::strutil::str_eq;
use crate::strutil::str_compare;
use crate::strutil::StrOrd;

/// The value stored under `k` in an association list, first match deciding.
pub open spec fn seq_get(s: Seq<(String, LockEntry)>, k: Seq<char>) -> Option<LockEntry>
    decreases s.len(),
{
    if s.len() == 0 {
        None
    } else if s[0].0@ == k {
        Some(s[0].1)
    } else {
        seq_get(s.skip(1), k)
    }
}

/// The persisted lock store: entries sorted strictly by key.
#[derive(Clone, Debug, PartialEq)]
pub struct LockFile {
    pub entries: Vec<(String, LockEntry)>,
}

impl LockFile {
    /// The entries, in storage order.
    pub open spec fn entries_seq(&self) -> Seq<(String, LockEntry)> {
        self.entries@
    }

    /// Keys strictly increase, so every key occurs once and serialization
    /// order is determined.
    pub open spec fn well_formed(&self) -> bool {
        forall|i: int, j: int|
            0 <= i < j < self.entries@.len() ==> seq_lt(
                (#[trigger] self.entries@[i]).0@,
                (#[trigger] self.entries@[j]).0@,
            )
    }

    /// The entry stored under a key.
    pub open spec fn spec_get(&self, k: Seq<char>) -> Option<LockEntry> {
        seq_get(self.entries@, k)
    }

    /// An empty store.
    pub fn new() -> (r: LockFile)
        ensures
            r.well_formed(),
            r.entries_seq().len() == 0,
            forall|k: Seq<char>| #[trigger] r.spec_get(k) is None,
    {
        LockFile { entries: Vec::new() }
    }

    pub fn len(&self) -> (r: usize)
        ensures
            r == self.entries_seq().len(),
    {
        self.entries.len()
    }

    pub fn is_empty(&self) -> (r: bool)
        ensures
            r == (self.entries_seq().len() == 0),
    {
        self.entries.len() == 0
    }

    /// The entries in storage order, for rendering and serialization.
    pub fn entries(&self) -> (r: &Vec<(String, LockEntry)>)
        ensures
            r@ == self.entries_seq(),
    {
        &self.entries
    }

    /// The entry stored under `key`, if any.
    pub fn get(&self, key: &str) -> (r: Option<&LockEntry>)
        requires
            self.well_formed(),
        ensures
            match r {
                Some(e) => self.spec_get(key@) == Some(*e),
                None => self.spec_get(key@) is None,
            },
    {
        let mut i: usize = 0;
        proof {
            assert(self.entries@.skip(0) =~= self.entries@);
        }
        while i < self.entries.len()
            invariant
                i <= self.entries@.len(),
                seq_get(self.entries@, key@) == seq_get(self.entries@.skip(i as int), key@),
                forall|j: int| 0 <= j < i ==> (#[trigger] self.entries@[j]).0@ != key@,
            decreases self.entries@.len() - i,
        {
            if str_eq(self.entries[i].0.as_str(), key) {
                proof {
                    assert(self.entries@.skip(i as int)[0] == self.entries@[i as int]);
                }
                return Some(&self.entries[i].1);
            }
            proof {
                assert(self.entries@.skip(i as int).skip(1) =~= self.entries@.skip(i as int + 1));
                assert(self.entries@.skip(i as int)[0] == self.entries@[i as int]);
            }
            i = i + 1;
        }
        proof {
            assert(self.entries@.skip(i as int).len() == 0);
        }
        None
    }

    pub fn contains_key(&self, key: &str) -> (r: bool)
        requires
            self.well_formed(),
        ensures
            r == (self.spec_get(key@) is Some),
    {
        self.get(key).is_some()
    }

    /// Inserts or overwrites the entry under `key`: a pure last-write-wins
    /// merge. Every other key's entry is untouched, which is what makes a
    /// selective update safe for the entries it does not address.
    pub fn insert(&mut self, key: String, entry: LockEntry)
        requires
            old(self).well_formed(),
        ensures
            final(self).well_formed(),
            final(self).spec_get(key@) == Some(entry),
            forall|k: Seq<char>| k != key@ ==> #[trigger] final(self).spec_get(k) == old(
                self,
            ).spec_get(k),
    {
        let ghost old_entries = self.entries@;
        let mut i: usize = 0;
        loop
            invariant_except_break
                old_entries == old(self).entries@,
                self.entries@ == old_entries,
                old(self).well_formed(),
                i <= self.entries@.len(),
                forall|j: int| 0 <= j < i ==> seq_lt((#[trigger] self.entries@[j]).0@, key@),
            ensures
                old_entries == old(self).entries@,
                self.entries@ == old_entries,
                old(self).well_formed(),
                i <= old_entries.len(),
                forall|j: int| 0 <= j < i ==> seq_lt((#[trigger] old_entries[j]).0@, key@),
                i < old_entries.len() ==> seq_lt(key@, old_entries[i as int].0@),
            decreases self.entries@.len() - i,
        {
            if i == self.entries.len() {
                break;
            }
            match str_compare(self.entries[i].0.as_str(), key.as_str()) {
                StrOrd::Less => {
                    i = i + 1;
                },
                StrOrd::Equal => {
                    self.entries.remove(i);
                    self.entries.insert(i, (key, entry));
                    proof {
                        let k = key@;
                        let new_entries = self.entries@;
                        assert(forall|j: int|
                            0 <= j < new_entries.len() && j != i ==> new_entries[j]
                                == old_entries[j]);
                        assert(new_entries[i as int].0@ == old_entries[i as int].0@);
                        assert(self.well_formed()) by {
                            assert forall|a: int, b: int|
                                0 <= a < b < new_entries.len() implies seq_lt(
                                (#[trigger] new_entries[a]).0@,
                                (#[trigger] new_entries[b]).0@,
                            ) by {
                                assert(seq_lt(
                                    (old(self).entries@[a]).0@,
                                    (old(self).entries@[b]).0@,
                                ));
                                assert(new_entries[a].0@ == old_entries[a].0@);
                                assert(new_entries[b].0@ == old_entries[b].0@);
                            }
                        }
                        assert forall|j: int| 0 <= j < i implies (#[trigger] old_entries[j]).0@
                            != k by {
                            lemma_seq_lt_irrefl(k);
                            if old_entries[j].0@ == k {
                                assert(seq_lt(k, k));
                            }
                        }
                        lemma_insert_at(old_entries, new_entries, i as int, k);
                        assert(new_entries[i as int].1 == entry);
                        assert(self.spec_get(key@) == Some(entry));
                        assert forall|k2: Seq<char>| k2 != key@ implies #[trigger] self.spec_get(
                            k2,
                        ) == old(self).spec_get(k2) by {
                            assert(seq_get(new_entries, k2) == seq_get(old_entries, k2));
                        }
                    }
                    return;
                },
                StrOrd::Greater => {
                    break;
                },
            }
        }
        self.entries.insert(i, (key, entry));
        proof {
            let k = self.entries@[i as int].0@;
            let new_entries = self.entries@;
            assert(k == key@);
            assert(forall|j: int| 0 <= j < i ==> new_entries[j] == old_entries[j]);
            assert(forall|j: int|
                i < j < new_entries.len() ==> new_entries[j] == old_entries[j - 1]);
            assert forall|j: int| i <= j < old_entries.len() implies seq_lt(
                k,
                (#[trigger] old_entries[j]).0@,
            ) by {
                if j == i {
                } else {
                    assert(seq_lt((old(self).entries@[i as int]).0@, (old(self).entries@[j]).0@));
                    lemma_seq_lt_trans(k, old_entries[i as int].0@, old_entries[j].0@);
                }
            }
            assert forall|j: int| 0 <= j < i implies (#[trigger] old_entries[j]).0@ != k by {
                lemma_seq_lt_irrefl(k);
                if old_entries[j].0@ == k {
                    assert(seq_lt(k, k));
                }
            }
            assert(self.well_formed()) by {
                assert forall|a: int, b: int|
                    0 <= a < b < new_entries.len() implies seq_lt(
                    (#[trigger] new_entries[a]).0@,
                    (#[trigger] new_entries[b]).0@,
                ) by {
                    if b < i {
                        assert(seq_lt((old(self).entries@[a]).0@, (old(self).entries@[b]).0@));
                    } else if a < i && b == i {
                        assert(seq_lt(old_entries[a].0@, k));
                    } else if a < i && b > i {
                        assert(seq_lt(old_entries[a].0@, k));
                        assert(seq_lt(k, old_entries[b - 1].0@));
                        lemma_seq_lt_trans(old_entries[a].0@, k, old_entries[b - 1].0@);
                    } else if a == i {
                        assert(seq_lt(k, old_entries[b - 1].0@));
                    } else {
                        assert(seq_lt(
                            (old(self).entries@[a - 1]).0@,
                            (old(self).entries@[b - 1]).0@,
                        ));
                    }
                }
            }
            lemma_insert_fresh(old_entries, new_entries, i as int, k);
        }
    }
}

/// After overwriting position `i`, whose key is `k`, lookups of `k` find
/// the new entry and every other lookup is unchanged.
proof fn lemma_insert_at(
    old_s: Seq<(String, LockEntry)>,
    new_s: Seq<(String, LockEntry)>,
    i: int,
    k: Seq<char>,
)
    requires
        0 <= i < new_s.len(),
        new_s.len() == old_s.len(),
        forall|j: int| 0 <= j < new_s.len() && j != i ==> new_s[j] == old_s[j],
        new_s[i].0@ == k,
        old_s[i].0@ == k,
        forall|j: int| 0 <= j < i ==> (#[trigger] old_s[j]).0@ != k,
    ensures
        seq_get(new_s, k) == Some(new_s[i].1),
        forall|k2: Seq<char>| k2 != k ==> #[trigger] seq_get(new_s, k2) == seq_get(old_s, k2),
    decreases i,
{
    if i == 0 {
        assert(seq_get(new_s, k) == Some(new_s[0].1));
        assert forall|k2: Seq<char>| k2 != k implies #[trigger] seq_get(new_s, k2) == seq_get(
            old_s,
            k2,
        ) by {
            assert(new_s.skip(1) =~= old_s.skip(1));
        }
    } else {
        assert(new_s.skip(1)[i - 1] == new_s[i]);
        assert(forall|j: int|
            0 <= j < new_s.skip(1).len() && j != i - 1 ==> new_s.skip(1)[j] == old_s.skip(1)[j]);
        assert(forall|j: int| 0 <= j < i - 1 ==> (#[trigger] old_s.skip(1)[j]).0@ != k);
        assert(old_s.skip(1)[i - 1] == old_s[i]);
        lemma_insert_at(old_s.skip(1), new_s.skip(1), i - 1, k);
        assert(new_s[0] == old_s[0]);
        assert(new_s[0].0@ != k);
        assert forall|k2: Seq<char>| k2 != k implies #[trigger] seq_get(new_s, k2) == seq_get(
            old_s,
            k2,
        ) by {
            if new_s[0].0@ == k2 {
            } else {
                assert(seq_get(new_s.skip(1), k2) == seq_get(old_s.skip(1), k2));
            }
        }
    }
}

/// After inserting a fresh key `k` at position `i` of a list that does not
/// hold it anywhere, lookups of `k` find the new entry and every other
/// lookup is unchanged.
proof fn lemma_insert_fresh(
    old_s: Seq<(String, LockEntry)>,
    new_s: Seq<(String, LockEntry)>,
    i: int,
    k: Seq<char>,
)
    requires
        0 <= i < new_s.len(),
        new_s.len() == old_s.len() + 1,
        forall|j: int| 0 <= j < i ==> new_s[j] == old_s[j],
        forall|j: int| i < j < new_s.len() ==> new_s[j] == old_s[j - 1],
        new_s[i].0@ == k,
        forall|j: int| 0 <= j < i ==> (#[trigger] old_s[j]).0@ != k,
        forall|j: int| i <= j < old_s.len() ==> seq_lt(k, (#[trigger] old_s[j]).0@),
    ensures
        seq_get(new_s, k) == Some(new_s[i].1),
        forall|k2: Seq<char>| k2 != k ==> #[trigger] seq_get(new_s, k2) == seq_get(old_s, k2),
    decreases i,
{
    assert forall|j: int| i <= j < old_s.len() implies (#[trigger] old_s[j]).0@ != k by {
        lemma_seq_lt_irrefl(k);
        if old_s[j].0@ == k {
            assert(seq_lt(k, k));
        }
    }
    if i == 0 {
        assert(seq_get(new_s, k) == Some(new_s[0].1));
        assert forall|k2: Seq<char>| k2 != k implies #[trigger] seq_get(new_s, k2) == seq_get(
            old_s,
            k2,
        ) by {
            assert(new_s.skip(1) =~= old_s);
        }
    } else {
        assert(new_s.skip(1)[i - 1] == new_s[i]);
        assert(forall|j: int| 0 <= j < i - 1 ==> new_s.skip(1)[j] == old_s.skip(1)[j]);
        assert(forall|j: int|
            i - 1 < j < new_s.skip(1).len() ==> new_s.skip(1)[j] == old_s.skip(1)[j - 1]);
        assert(forall|j: int| 0 <= j < i - 1 ==> (#[trigger] old_s.skip(1)[j]).0@ != k);
        assert(forall|j: int|
            i - 1 <= j < old_s.skip(1).len() ==> seq_lt(k, (#[trigger] old_s.skip(1)[j]).0@));
        lemma_insert_fresh(old_s.skip(1), new_s.skip(1), i - 1, k);
        assert(new_s[0] == old_s[0]);
        assert(new_s[0].0@ != k);
        assert forall|k2: Seq<char>| k2 != k implies #[trigger] seq_get(new_s, k2) == seq_get(
            old_s,
            k2,
        ) by {
            if new_s[0].0@ == k2 {
            } else {
                assert(seq_get(new_s.skip(1), k2) == seq_get(old_s.skip(1), k2));
            }
        }
    }
}

/// The declared dependencies a pattern addresses, in source order: the
/// selector of a partial update.
pub fn filter_matching(deps: &Vec<Dependency>, pattern: &str) -> (r: Vec<Dependency>)
    ensures
        r@ == deps@.filter((|d: Dependency| crate::deps::spec_dep_matches(d, pattern@))),
{
    let ghost pred = (|d: Dependency| crate::deps::spec_dep_matches(d, pattern@));
    let mut out: Vec<Dependency> = Vec::new();
    let mut i: usize = 0;
    proof {
        reveal(Seq::filter);
        assert(deps@.subrange(0, 0).filter(pred) =~= Seq::<Dependency>::empty());
    }
    while i < deps.len()
        invariant
            i <= deps@.len(),
            out@ == deps@.subrange(0, i as int).filter(
                (|d: Dependency| crate::deps::spec_dep_matches(d, pattern@)),
            ),
        decreases deps@.len() - i,
    {
        proof {
            reveal(Seq::filter);
            assert(deps@.subrange(0, i as int + 1).drop_last() =~= deps@.subrange(0, i as int));
            assert(deps@.subrange(0, i as int + 1).last() == deps@[i as int]);
        }
        if deps[i].matches(pattern) {
            out.push(deps[i].clone());
        }
        i = i + 1;
    }
    proof {
        assert(deps@.subrange(0, deps@.len() as int) =~= deps@);
    }
    out
}

impl LockFile {
    /// Position of the entry a `show` pattern addresses: the exact key when
    /// it is stored, else the first key containing the pattern as a
    /// substring.
    pub fn find_entry_index(&self, pattern: &str) -> (r: Option<usize>)
        requires
            self.well_formed(),
        ensures
            self.spec_get(pattern@) is Some ==> (r matches Some(i) && self.entries_seq()[
                i as int
            ].0@ == pattern@),
            self.spec_get(pattern@) is None ==> match r {
                Some(i) => i < self.entries_seq().len() && spec_contains_seq(
                    self.entries_seq()[i as int].0@,
                    pattern@,
                ) && (forall|j: int|
                    0 <= j < i ==> !spec_contains_seq(
                        (#[trigger] self.entries_seq()[j]).0@,
                        pattern@,
                    )),
                None => forall|j: int|
                    0 <= j < self.entries_seq().len() ==> !spec_contains_seq(
                        (#[trigger] self.entries_seq()[j]).0@,
                        pattern@,
                    ),
            },
    {
        let n = self.entries.len();
        let mut i: usize = 0;
        while i < n
            invariant
                n == self.entries_seq().len(),
                i <= n,
                forall|j: int| 0 <= j < i ==> (#[trigger] self.entries_seq()[j]).0@ != pattern@,
            decreases n - i,
        {
            if str_eq(self.entries[i].0.as_str(), pattern) {
                proof {
                    lemma_seq_get_found(self.entries@, pattern@, i as int);
                }
                return Some(i);
            }
            i = i + 1;
        }
        proof {
            lemma_seq_get_not_found(self.entries@, pattern@);
        }
        let mut i: usize = 0;
        while i < n
            invariant
                n == self.entries_seq().len(),
                self.spec_get(pattern@) is None,
                i <= n,
                forall|j: int|
                    0 <= j < i ==> !spec_contains_seq(
                        (#[trigger] self.entries_seq()[j]).0@,
                        pattern@,
                    ),
            decreases n - i,
        {
            if contains_substr(self.entries[i].0.as_str(), pattern) {
                return Some(i);
            }
            i = i + 1;
        }
        None
    }
}

/// The dependencies reconstructible from stored entries that a pattern
/// addresses, in storage order: the fallback of a selective update when no
/// declaration is discoverable for the pattern. Entries whose payload does
/// not reconstruct are passed over.
pub open spec fn spec_lock_matches_from(
    s: Seq<(String, LockEntry)>,
    p: Seq<char>,
    i: int,
) -> Seq<crate::deps::DependencyV>
    decreases s.len() - i,
{
    if i < 0 || i >= s.len() {
        Seq::empty()
    } else {
        let rest = spec_lock_matches_from(s, p, i + 1);
        match crate::deps::spec_dep_from_lock_entry(s[i].1) {
            Ok(d) => if crate::deps::spec_dep_matches_v(d, p) {
                seq![d] + rest
            } else {
                rest
            },
            Err(_) => rest,
        }
    }
}

impl LockFile {
    /// Reconstructs every stored dependency the pattern addresses.
    pub fn matching_from_lock(&self, pattern: &str) -> (r: Vec<Dependency>)
        ensures
            r.deep_view() == spec_lock_matches_from(self.entries_seq(), pattern@, 0),
    {
        let ghost s = self.entries@;
        let ghost p = pattern@;
        let mut out: Vec<Dependency> = Vec::new();
        let mut i: usize = 0;
        proof {
            assert(out.deep_view() + spec_lock_matches_from(s, p, 0) =~= spec_lock_matches_from(
                s,
                p,
                0,
            ));
        }
        while i < self.entries.len()
            invariant
                s == self.entries@,
                p == pattern@,
                i <= s.len(),
                spec_lock_matches_from(s, p, 0) == out.deep_view() + spec_lock_matches_from(
                    s,
                    p,
                    i as int,
                ),
            decreases s.len() - i,
        {
            match Dependency::from_lock_entry(&self.entries[i].1) {
                Ok(d) => {
                    proof {
                        crate::deps::lemma_dep_matches_agree(d, p);
                    }
                    if d.matches(pattern) {
                        let ghost dv = d.deep_view();
                        out.push(d);
                        proof {
                            assert(out.deep_view() =~= out.deep_view().drop_last().push(dv));
                            assert(out.deep_view().drop_last() + (seq![dv]
                                + spec_lock_matches_from(s, p, i as int + 1)) =~= out.deep_view()
                                + spec_lock_matches_from(s, p, i as int + 1));
                        }
                    }
                },
                Err(_) => {},
            }
            i = i + 1;
        }
        proof {
            assert(out.deep_view() + spec_lock_matches_from(s, p, i as int) =~= out.deep_view());
        }
        out
    }
}

/// A stored key is at some position.
proof fn lemma_seq_get_some_has_index(s: Seq<(String, LockEntry)>, k: Seq<char>)
    requires
        seq_get(s, k) is Some,
    ensures
        exists|j: int| 0 <= j < s.len() && (#[trigger] s[j]).0@ == k,
    decreases s.len(),
{
    if s.len() > 0 {
        if s[0].0@ == k {
            assert(s[0].0@ == k);
        } else {
            lemma_seq_get_some_has_index(s.skip(1), k);
            let j = choose|j: int| 0 <= j < s.skip(1).len() && (#[trigger] s.skip(1)[j]).0@ == k;
            assert(s[j + 1].0@ == k);
        }
    }
}

/// Strictly sorted keys, as the store invariant asks pairwise.
pub open spec fn sorted_strict(s: Seq<(String, LockEntry)>) -> bool {
    forall|i: int, j: int|
        0 <= i < j < s.len() ==> seq_lt((#[trigger] s[i]).0@, (#[trigger] s[j]).0@)
}

/// The sorted store is a canonical form: two well-formed stores that answer
/// every lookup alike hold the same keys and entries in the same positions.
/// Merging resolutions in any order therefore produces one representation,
/// and with it one serialization.
pub proof fn lemma_sorted_store_canonical(a: Seq<(String, LockEntry)>, b: Seq<(String, LockEntry)>)
    requires
        sorted_strict(a),
        sorted_strict(b),
        forall|k: Seq<char>| #[trigger] seq_get(a, k) == seq_get(b, k),
    ensures
        a.len() == b.len(),
        forall|i: int| 0 <= i < a.len() ==> (#[trigger] a[i]).0@ == b[i].0@ && a[i].1 == b[i].1,
    decreases a.len(),
{
    if a.len() == 0 {
        if b.len() > 0 {
            let k0 = b[0].0@;
            assert(seq_get(b, k0) == Some(b[0].1));
            assert(seq_get(a, k0) is None);
        }
    } else if b.len() == 0 {
        let k0 = a[0].0@;
        assert(seq_get(a, k0) == Some(a[0].1));
        assert(seq_get(b, k0) is None);
    } else {
        let ka = a[0].0@;
        let kb = b[0].0@;
        assert(seq_get(a, ka) == Some(a[0].1));
        assert(seq_get(b, kb) == Some(b[0].1));
        assert(ka == kb) by {
            if ka != kb {
                assert(seq_get(b, ka) is Some);
                lemma_seq_get_some_has_index(b, ka);
                let j = choose|j: int| 0 <= j < b.len() && (#[trigger] b[j]).0@ == ka;
                assert(j != 0);
                assert(seq_lt(kb, ka));
                assert(seq_get(a, kb) is Some);
                lemma_seq_get_some_has_index(a, kb);
                let j2 = choose|j2: int| 0 <= j2 < a.len() && (#[trigger] a[j2]).0@ == kb;
                assert(j2 != 0);
                assert(seq_lt(ka, kb));
                lemma_seq_lt_trans(ka, kb, ka);
                lemma_seq_lt_irrefl(ka);
            }
        }
        assert(a[0].1 == b[0].1);
        let ta = a.skip(1);
        let tb = b.skip(1);
        assert(forall|i: int, j: int|
            0 <= i < j < ta.len() ==> #[trigger] ta[i] == a[i + 1] && #[trigger] ta[j] == a[j
                + 1]);
        assert(forall|i: int, j: int|
            0 <= i < j < tb.len() ==> #[trigger] tb[i] == b[i + 1] && #[trigger] tb[j] == b[j
                + 1]);
        assert forall|k: Seq<char>| #[trigger] seq_get(ta, k) == seq_get(tb, k) by {
            if k == ka {
                assert forall|j: int| 0 <= j < ta.len() implies (#[trigger] ta[j]).0@ != ka by {
                    assert(ta[j] == a[j + 1]);
                    assert(seq_lt(ka, a[j + 1].0@));
                    if a[j + 1].0@ == ka {
                        lemma_seq_lt_irrefl(ka);
                    }
                }
                lemma_seq_get_not_found(ta, ka);
                assert forall|j: int| 0 <= j < tb.len() implies (#[trigger] tb[j]).0@ != ka by {
                    assert(tb[j] == b[j + 1]);
                    assert(seq_lt(kb, b[j + 1].0@));
                    if b[j + 1].0@ == ka {
                        lemma_seq_lt_irrefl(ka);
                    }
                }
                lemma_seq_get_not_found(tb, ka);
            } else {
                assert(seq_get(a, k) == seq_get(ta, k));
                assert(seq_get(b, k) == seq_get(tb, k));
            }
        }
        lemma_sorted_store_canonical(ta, tb);
        assert forall|i: int| 0 <= i < a.len() implies (#[trigger] a[i]).0@ == b[i].0@ && a[i].1
            == b[i].1 by {
            if i > 0 {
                assert(ta[i - 1] == a[i]);
                assert(tb[i - 1] == b[i]);
                assert(ta[i - 1].0@ == tb[i - 1].0@ && ta[i - 1].1 == tb[i - 1].1);
            }
        }
    }
}

/// A concretely located key is what lookup returns.
proof fn lemma_seq_get_found(s: Seq<(String, LockEntry)>, k: Seq<char>, i: int)
    requires
        0 <= i < s.len(),
        s[i].0@ == k,
        forall|j: int| 0 <= j < i ==> (#[trigger] s[j]).0@ != k,
    ensures
        seq_get(s, k) == Some(s[i].1),
    decreases i,
{
    if i == 0 {
    } else {
        lemma_seq_get_found(s.skip(1), k, i - 1);
        assert(s.skip(1)[i - 1] == s[i]);
        assert(forall|j: int| 0 <= j < i - 1 ==> (#[trigger] s.skip(1)[j]).0@ == s[j + 1].0@);
    }
}

/// A key no position holds is absent.
proof fn lemma_seq_get_not_found(s: Seq<(String, LockEntry)>, k: Seq<char>)
    requires
        forall|j: int| 0 <= j < s.len() ==> (#[trigger] s[j]).0@ != k,
    ensures
        seq_get(s, k) is None,
    decreases s.len(),
{
    if s.len() > 0 {
        assert(forall|j: int| 0 <= j < s.len() - 1 ==> (#[trigger] s.skip(1)[j]).0@ == s[j + 1].0@);
        lemma_seq_get_not_found(s.skip(1), k);
    }
}

} // verus!
