//! Verified helpers over strings viewed as sequences of characters:
//! equality, prefix and substring tests, single-character search, and a
//! lexicographic order used to keep the lock store sorted.

use vstd::prelude::*;

verus! {

use vstd::string::StrSliceExecFns;
use vstd::string::StringExecFns;

/// Character-for-character equality of two string slices.
pub fn str_eq(a: &str, b: &str) -> (r: bool)
    ensures
        r == (a@ == b@),
{
    let sa = a.to_owned();
    let sb = b.to_owned();
    sa.eq(&sb)
}

/// Concatenation of two string slices into an owned string.
pub fn cat(a: &str, b: &str) -> (r: String)
    ensures
        r@ == a@ + b@,
{
    a.to_owned().concat(b)
}

/// Index of the first occurrence of `c` in `s`, if any.
pub fn find_char(s: &str, c: char) -> (r: Option<usize>)
    ensures
        match r {
            Some(i) => i < s@.len() && s@[i as int] == c && (forall|j: int|
                0 <= j < i ==> s@[j] != c),
            None => forall|j: int| 0 <= j < s@.len() ==> s@[j] != c,
        },
{
    let n = s.unicode_len();
    let mut i: usize = 0;
    while i < n
        invariant
            n == s@.len(),
            i <= n,
            forall|j: int| 0 <= j < i ==> s@[j] != c,
        decreases n - i,
    {
        if s.get_char(i) == c {
            return Some(i);
        }
        i = i + 1;
    }
    None
}

/// Whether `c` occurs anywhere in `s`.
pub fn contains_char(s: &str, c: char) -> (r: bool)
    ensures
        r == s@.contains(c),
{
    let found = find_char(s, c);
    match found {
        Some(i) => {
            proof {
                assert(s@[i as int] == c);
            }
            true
        },
        None => {
            proof {
                assert(!s@.contains(c)) by {
                    if s@.contains(c) {
                        let w = choose|j: int| 0 <= j < s@.len() && s@[j] == c;
                        assert(s@[w] != c);
                    }
                }
            }
            false
        },
    }
}

/// Whether `p` is a prefix of `s`.
pub open spec fn spec_starts_with(s: Seq<char>, p: Seq<char>) -> bool {
    p.len() <= s.len() && s.subrange(0, p.len() as int) == p
}

pub fn starts_with(s: &str, p: &str) -> (r: bool)
    ensures
        r == spec_starts_with(s@, p@),
{
    let sl = s.unicode_len();
    let pl = p.unicode_len();
    if pl > sl {
        return false;
    }
    let pre = s.substring_char(0, pl);
    str_eq(pre, p)
}

/// Whether `sub` occurs contiguously inside `s`.
pub open spec fn spec_contains_seq(s: Seq<char>, sub: Seq<char>) -> bool {
    exists|i: int|
        0 <= i && i + sub.len() <= s.len() && #[trigger] s.subrange(i, i + sub.len() as int) == sub
}

pub fn contains_substr(s: &str, sub: &str) -> (r: bool)
    ensures
        r == spec_contains_seq(s@, sub@),
{
    let n = s.unicode_len();
    let m = sub.unicode_len();
    if m == 0 {
        proof {
            assert(s@.subrange(0, 0) =~= sub@);
            assert(spec_contains_seq(s@, sub@)) by {
                assert(0 <= 0 && 0 + sub@.len() <= s@.len() && s@.subrange(
                    0,
                    0 + sub@.len() as int,
                ) == sub@);
            }
        }
        return true;
    }
    if m > n {
        proof {
            assert(!spec_contains_seq(s@, sub@)) by {
                if spec_contains_seq(s@, sub@) {
                    let i = choose|i: int|
                        0 <= i && i + sub@.len() <= s@.len() && #[trigger] s@.subrange(
                            i,
                            i + sub@.len() as int,
                        ) == sub@;
                    assert(i + sub@.len() <= s@.len());
                    assert(false);
                }
            }
        }
        return false;
    }
    let mut i: usize = 0;
    loop
        invariant
            n == s@.len(),
            m == sub@.len(),
            0 < m <= n,
            i <= n - m + 1,
            forall|k: int| 0 <= k < i ==> #[trigger] s@.subrange(k, k + m as int) != sub@,
        decreases n - m + 1 - i,
    {
        if i > n - m {
            proof {
                assert(!spec_contains_seq(s@, sub@)) by {
                    if spec_contains_seq(s@, sub@) {
                        let k = choose|k: int|
                            0 <= k && k + sub@.len() <= s@.len() && #[trigger] s@.subrange(
                                k,
                                k + sub@.len() as int,
                            ) == sub@;
                        assert(k < i);
                        assert(false);
                    }
                }
            }
            return false;
        }
        let cand = s.substring_char(i, i + m);
        if str_eq(cand, sub) {
            proof {
                assert(s@.subrange(i as int, i as int + m as int) == sub@);
            }
            return true;
        }
        i = i + 1;
    }
}

/// Lexicographic order on character sequences, by code point.
pub open spec fn seq_lt(a: Seq<char>, b: Seq<char>) -> bool
    decreases a.len(),
{
    if b.len() == 0 {
        false
    } else if a.len() == 0 {
        true
    } else if a[0] < b[0] {
        true
    } else if a[0] == b[0] {
        seq_lt(a.skip(1), b.skip(1))
    } else {
        false
    }
}

pub proof fn lemma_seq_lt_trans(a: Seq<char>, b: Seq<char>, c: Seq<char>)
    requires
        seq_lt(a, b),
        seq_lt(b, c),
    ensures
        seq_lt(a, c),
    decreases a.len(),
{
    if c.len() == 0 {
    } else if b.len() == 0 {
    } else if a.len() == 0 {
    } else {
        if a[0] == b[0] && b[0] == c[0] {
            lemma_seq_lt_trans(a.skip(1), b.skip(1), c.skip(1));
        }
    }
}

pub proof fn lemma_seq_lt_irrefl(a: Seq<char>)
    ensures
        !seq_lt(a, a),
    decreases a.len(),
{
    if a.len() > 0 {
        lemma_seq_lt_irrefl(a.skip(1));
    }
}

/// A copy of an optional string, equal to its source.
pub fn clone_opt_string(o: &Option<String>) -> (r: Option<String>)
    ensures
        r == *o,
{
    match o {
        Some(s) => Some(s.clone()),
        None => None,
    }
}

/// Decimal digits and integer literals.
pub open spec fn is_digit(c: char) -> bool {
    '0' <= c && c <= '9'
}

pub open spec fn digit_val(c: char) -> int {
    c as int - '0' as int
}

/// Value of a nonempty digit string read in base ten.
pub open spec fn digits_val(s: Seq<char>) -> int
    decreases s.len(),
{
    if s.len() == 0 {
        0
    } else {
        digits_val(s.drop_last()) * 10 + digit_val(s.last())
    }
}

pub open spec fn all_digits(s: Seq<char>) -> bool {
    s.len() > 0 && forall|i: int| 0 <= i < s.len() ==> is_digit(#[trigger] s[i])
}

/// The integer a string denotes: an optional minus sign followed by digits.
pub open spec fn spec_parse_int(s: Seq<char>) -> Option<int> {
    if s.len() > 0 && s[0] == '-' {
        if all_digits(s.skip(1)) {
            Some(-digits_val(s.skip(1)))
        } else {
            None
        }
    } else if all_digits(s) {
        Some(digits_val(s))
    } else {
        None
    }
}

proof fn lemma_digits_val_nonneg(s: Seq<char>)
    requires
        forall|i: int| 0 <= i < s.len() ==> is_digit(#[trigger] s[i]),
    ensures
        digits_val(s) >= 0,
    decreases s.len(),
{
    if s.len() > 0 {
        lemma_digits_val_nonneg(s.drop_last());
    }
}

proof fn lemma_digits_val_prefix_le(s: Seq<char>, i: int)
    requires
        forall|k: int| 0 <= k < s.len() ==> is_digit(#[trigger] s[k]),
        0 <= i <= s.len(),
    ensures
        digits_val(s.subrange(0, i)) <= digits_val(s),
    decreases s.len() - i,
{
    if i == s.len() {
        assert(s.subrange(0, i) =~= s);
    } else {
        lemma_digits_val_prefix_le(s, i + 1);
        let p = s.subrange(0, i);
        let q = s.subrange(0, i + 1);
        assert(q.drop_last() =~= p);
        lemma_digits_val_nonneg(p);
        assert(digits_val(q) == digits_val(p) * 10 + digit_val(q.last()));
        assert(digits_val(p) * 10 >= digits_val(p));
        assert(digit_val(q.last()) >= 0);
    }
}

/// Parses a decimal integer, returning `None` when the string is not an
/// optionally signed digit string or its value does not fit in an `i64`.
pub fn parse_i64(s: &str) -> (r: Option<i64>)
    ensures
        match r {
            Some(v) => spec_parse_int(s@) == Some(v as int),
            None => match spec_parse_int(s@) {
                Some(x) => !(i64::MIN <= x <= i64::MAX),
                None => true,
            },
        },
{
    let n = s.unicode_len();
    if n == 0 {
        return None;
    }
    let neg = s.get_char(0) == '-';
    let start: usize = if neg {
        1
    } else {
        0
    };
    if start == n {
        // a bare minus sign has no digits
        return None;
    }
    let ghost digits = s@.skip(start as int);
    proof {
        assert(s@.skip(0) =~= s@);
    }
    let mut i: usize = start;
    let mut mag: u64 = 0;
    // magnitudes up to 2^63 are representable and cover every i64
    let limit: u64 = 9223372036854775808u64;
    while i < n
        invariant
            n == s@.len(),
            start <= i <= n,
            start < n,
            start == 0 || start == 1,
            neg ==> start == 1 && s@[0] == '-',
            !neg ==> start == 0 && (n > 0 ==> s@[0] != '-'),
            digits == s@.skip(start as int),
            forall|k: int| 0 <= k < i - start ==> is_digit(#[trigger] digits[k]),
            mag <= limit,
            mag as int == digits_val(digits.subrange(0, i - start)),
            limit == 9223372036854775808u64,
        decreases n - i,
    {
        let c = s.get_char(i);
        if !(c >= '0' && c <= '9') {
            proof {
                assert(digits[i - start] == s@[i as int]);
                assert(!all_digits(digits));
            }
            return None;
        }
        let d: u64 = (c as u32 as u64) - 48;
        proof {
            assert(digits[i - start] == s@[i as int]);
            assert(is_digit(digits[i - start]));
            assert(d as int == digit_val(s@[i as int]));
        }
        if mag > (limit - d) / 10 {
            // the value exceeds every i64 magnitude; show the full string does too
            proof {
                let pre = digits.subrange(0, i - start + 1);
                assert(pre.drop_last() =~= digits.subrange(0, i - start));
                assert(pre.last() == digits[i - start]);
                assert(digits_val(pre) == mag as int * 10 + d);
                assert(mag as int * 10 + d > limit) by {
                    assert(mag > (limit - d) / 10);
                    assert(mag as int >= (limit - d) as int / 10 + 1);
                    assert((((limit - d) as int / 10) + 1) * 10 > (limit - d) as int) by (nonlinear_arith);
                    assert(mag as int * 10 >= (((limit - d) as int / 10) + 1) * 10) by (nonlinear_arith)
                        requires
                            mag as int >= ((limit - d) as int / 10) + 1,
                    ;
                }
                if all_digits(digits) {
                    lemma_digits_val_prefix_le(digits, i - start + 1);
                    assert(digits_val(digits) >= digits_val(pre));
                    assert(digits_val(digits) > limit as int);
                }
                assert(match spec_parse_int(s@) {
                    Some(x) => !(i64::MIN <= x <= i64::MAX),
                    None => true,
                }) by {
                    if neg {
                        if all_digits(digits) {
                            assert(spec_parse_int(s@) == Some(-digits_val(digits)));
                            assert(-digits_val(digits) < i64::MIN as int);
                        } else {
                            assert(spec_parse_int(s@) is None);
                        }
                    } else {
                        assert(digits == s@);
                        if all_digits(digits) {
                            assert(spec_parse_int(s@) == Some(digits_val(s@)));
                            assert(digits_val(s@) > i64::MAX as int);
                        } else {
                            assert(spec_parse_int(s@) is None);
                        }
                    }
                }
            }
            return None;
        }
        mag = mag * 10 + d;
        proof {
            let pre = digits.subrange(0, i - start + 1);
            assert(pre.drop_last() =~= digits.subrange(0, i - start));
            assert(pre.last() == digits[i - start]);
        }
        i = i + 1;
    }
    proof {
        assert(digits.subrange(0, n - start) =~= digits);
        assert(all_digits(digits));
        assert(mag as int == digits_val(digits));
    }
    if neg {
        if mag == limit {
            proof {
                assert(i64::MIN as int == -(limit as int));
            }
            return Some(i64::MIN);
        }
        let v: i64 = -(mag as i64);
        return Some(v);
    }
    if mag == limit {
        return None;
    }
    Some(mag as i64)
}

/// A string with every leading quote character removed.
pub open spec fn drop_leading_quotes(s: Seq<char>) -> Seq<char>
    decreases s.len(),
{
    if s.len() > 0 && s[0] == '"' {
        drop_leading_quotes(s.skip(1))
    } else {
        s
    }
}

/// A string with every trailing quote character removed.
pub open spec fn drop_trailing_quotes(s: Seq<char>) -> Seq<char>
    decreases s.len(),
{
    if s.len() > 0 && s.last() == '"' {
        drop_trailing_quotes(s.take(s.len() - 1))
    } else {
        s
    }
}

/// A string stripped of all leading and trailing quote characters.
pub open spec fn spec_strip_quotes(s: Seq<char>) -> Seq<char> {
    drop_trailing_quotes(drop_leading_quotes(s))
}

proof fn lemma_drop_leading_quotes_at(s: Seq<char>, k: int)
    requires
        0 <= k <= s.len(),
        forall|j: int| 0 <= j < k ==> s[j] == '"',
        k == s.len() || s[k] != '"',
    ensures
        drop_leading_quotes(s) == s.skip(k),
    decreases k,
{
    if k == 0 {
        assert(s.skip(0) =~= s);
    } else {
        assert(s[0] == '"');
        lemma_drop_leading_quotes_at(s.skip(1), k - 1);
        assert(s.skip(1).skip(k - 1) =~= s.skip(k));
    }
}

proof fn lemma_drop_trailing_quotes_at(s: Seq<char>, h: int)
    requires
        0 <= h <= s.len(),
        forall|j: int| h <= j < s.len() ==> s[j] == '"',
        h == 0 || s[h - 1] != '"',
    ensures
        drop_trailing_quotes(s) == s.subrange(0, h),
    decreases s.len() - h,
{
    if h == s.len() {
        assert(s.subrange(0, h) =~= s);
    } else {
        assert(s.last() == '"');
        lemma_drop_trailing_quotes_at(s.take(s.len() - 1), h);
        assert(s.take(s.len() - 1).subrange(0, h) =~= s.subrange(0, h));
    }
}

/// Removes every leading and trailing quote character, as the source text of
/// a string literal is unquoted.
pub fn strip_quotes(s: &str) -> (r: String)
    ensures
        r@ == spec_strip_quotes(s@),
{
    let n = s.unicode_len();
    let mut lo: usize = 0;
    while lo < n && s.get_char(lo) == '"'
        invariant
            n == s@.len(),
            lo <= n,
            forall|j: int| 0 <= j < lo ==> s@[j] == '"',
        decreases n - lo,
    {
        lo = lo + 1;
    }
    let mut hi: usize = n;
    while hi > lo && s.get_char(hi - 1) == '"'
        invariant
            n == s@.len(),
            lo <= hi <= n,
            forall|j: int| hi <= j < n ==> s@[j] == '"',
        decreases hi,
    {
        hi = hi - 1;
    }
    let out = s.substring_char(lo, hi).to_owned();
    proof {
        lemma_drop_leading_quotes_at(s@, lo as int);
        let t = s@.skip(lo as int);
        assert(forall|j: int| hi - lo <= j < t.len() ==> t[j] == '"');
        if hi > lo {
            assert(t[hi - lo - 1] == s@[hi - 1]);
        }
        lemma_drop_trailing_quotes_at(t, hi - lo);
        assert(t.subrange(0, hi - lo) =~= s@.subrange(lo as int, hi as int));
    }
    out
}

/// A common prefix cancels on both sides of a concatenation equality.
pub proof fn lemma_cancel_prefix(p: Seq<char>, a: Seq<char>, b: Seq<char>)
    requires
        p + a == p + b,
    ensures
        a == b,
{
    assert((p + a).len() == (p + b).len());
    assert((p + a).len() == p.len() + a.len());
    assert((p + b).len() == p.len() + b.len());
    assert(a.len() == b.len());
    assert forall|i: int| 0 <= i < a.len() implies a[i] == b[i] by {
        assert((p + a)[p.len() + i] == a[i]);
        assert((p + b)[p.len() + i] == b[i]);
    }
    assert(a =~= b);
}

/// Splitting at a separator character that neither left part contains is
/// unambiguous.
pub proof fn lemma_split_unique(x1: Seq<char>, y1: Seq<char>, x2: Seq<char>, y2: Seq<char>, c: char)
    requires
        x1 + seq![c] + y1 == x2 + seq![c] + y2,
        !x1.contains(c),
        !x2.contains(c),
    ensures
        x1 == x2,
        y1 == y2,
{
    let s = x1 + seq![c] + y1;
    assert(s[x1.len() as int] == c);
    assert(s[x2.len() as int] == c);
    if x1.len() < x2.len() {
        assert(s[x1.len() as int] == x2[x1.len() as int]);
        assert(x2.contains(c));
        assert(false);
    }
    if x2.len() < x1.len() {
        assert(s[x2.len() as int] == x1[x2.len() as int]);
        assert(x1.contains(c));
        assert(false);
    }
    assert forall|i: int| 0 <= i < x1.len() implies x1[i] == x2[i] by {
        assert(s[i] == x1[i]);
        assert((x2 + seq![c] + y2)[i] == x2[i]);
    }
    assert(x1 =~= x2);
    lemma_cancel_prefix(x1 + seq![c], y1, y2);
}

/// A concatenation contains a character only where one part does.
pub proof fn lemma_concat_not_contains(a: Seq<char>, b: Seq<char>, c: char)
    requires
        !a.contains(c),
        !b.contains(c),
    ensures
        !(a + b).contains(c),
{
    assert forall|i: int| 0 <= i < (a + b).len() implies (a + b)[i] != c by {
        if i < a.len() {
            assert((a + b)[i] == a[i]);
        } else {
            assert((a + b)[i] == b[i - a.len()]);
        }
    }
    if (a + b).contains(c) {
        let w = choose|w: int| 0 <= w < (a + b).len() && (a + b)[w] == c;
        assert((a + b)[w] != c);
    }
}

/// Three-way comparison result for string ordering.
pub enum StrOrd {
    Less,
    Equal,
    Greater,
}

/// Lexicographic three-way comparison of two strings by character.
pub fn str_compare(a: &str, b: &str) -> (r: StrOrd)
    ensures
        match r {
            StrOrd::Less => seq_lt(a@, b@),
            StrOrd::Equal => a@ == b@,
            StrOrd::Greater => seq_lt(b@, a@),
        },
{
    let na = a.unicode_len();
    let nb = b.unicode_len();
    let mut i: usize = 0;
    proof {
        assert(a@.skip(0) =~= a@);
        assert(b@.skip(0) =~= b@);
        assert(a@.subrange(0, 0) =~= b@.subrange(0, 0));
    }
    loop
        invariant
            na == a@.len(),
            nb == b@.len(),
            i <= na,
            i <= nb,
            seq_lt(a@, b@) == seq_lt(a@.skip(i as int), b@.skip(i as int)),
            seq_lt(b@, a@) == seq_lt(b@.skip(i as int), a@.skip(i as int)),
            a@.subrange(0, i as int) == b@.subrange(0, i as int),
        decreases na - i,
    {
        if i == na && i == nb {
            proof {
                assert(a@ =~= a@.subrange(0, i as int));
                assert(b@ =~= b@.subrange(0, i as int));
                assert(a@ =~= b@);
            }
            return StrOrd::Equal;
        }
        if i == na {
            // a exhausted, b longer
            proof {
                assert(a@.skip(i as int).len() == 0);
                assert(b@.skip(i as int).len() > 0);
            }
            return StrOrd::Less;
        }
        if i == nb {
            proof {
                assert(b@.skip(i as int).len() == 0);
                assert(a@.skip(i as int).len() > 0);
            }
            return StrOrd::Greater;
        }
        let ca = a.get_char(i);
        let cb = b.get_char(i);
        proof {
            assert(a@.skip(i as int)[0] == a@[i as int]);
            assert(b@.skip(i as int)[0] == b@[i as int]);
        }
        if ca < cb {
            return StrOrd::Less;
        }
        if cb < ca {
            return StrOrd::Greater;
        }
        proof {
            assert(ca == cb);
            assert(a@.skip(i as int).skip(1) =~= a@.skip(i as int + 1));
            assert(b@.skip(i as int).skip(1) =~= b@.skip(i as int + 1));
            assert(a@.subrange(0, i as int + 1) =~= b@.subrange(0, i as int + 1));
        }
        i = i + 1;
    }
}

} // verus!
