//! The parsed form of a release version: the three numeric components and
//! the pre-release text, with the precedence order the resolver selects by.
//!
//! Precedence follows the numeric components first. On equal numbers a
//! version without pre-release text ranks above one with it, and two
//! pre-release texts are compared identifier by identifier, split at the
//! dots: numeric identifiers by value (shorter before longer, since valid
//! numeric identifiers carry no leading zeros), numeric before
//! alphanumeric, and alphanumeric ones in byte order; when all compared
//! identifiers agree, fewer identifiers rank below more.

use vstd::prelude::*;
use crate::bytes_order::{
    bytes_cmp, lex_lt, lex_lt_asymmetric, lex_lt_irreflexive, lex_lt_transitive,
    lex_lt_trichotomy, Cmp,
};

verus! {

/// A parsed semantic version. `pre` holds the pre-release text as bytes;
/// empty `pre` means a full release. Build metadata is not kept: precedence
/// ignores it.
#[derive(Debug, Clone, PartialEq, Eq)]
pub struct Version {
    pub major: u64,
    pub minor: u64,
    pub patch: u64,
    pub pre: Vec<u8>,
}

/// The mathematical value of a `Version`.
#[verifier::ext_equal]
pub ghost struct VersionView {
    pub major: u64,
    pub minor: u64,
    pub patch: u64,
    pub pre: Seq<u8>,
}

impl View for Version {
    type V = VersionView;

    open spec fn view(&self) -> VersionView {
        VersionView { major: self.major, minor: self.minor, patch: self.patch, pre: self.pre@ }
    }
}

/// The pre-release text split at the dots (byte 46). The empty text splits
/// into one empty identifier.
pub open spec fn split_idents(s: Seq<u8>) -> Seq<Seq<u8>>
    decreases s.len(),
{
    if s.len() == 0 {
        seq![Seq::<u8>::empty()]
    } else if s[0] == 46 {
        seq![Seq::<u8>::empty()] + split_idents(s.skip(1))
    } else {
        let rest = split_idents(s.skip(1));
        seq![seq![s[0]] + rest[0]] + rest.skip(1)
    }
}

proof fn split_idents_len(s: Seq<u8>)
    ensures
        split_idents(s).len() >= 1,
    decreases s.len(),
{
    if s.len() > 0 {
        split_idents_len(s.skip(1));
    }
}

/// Distinct texts split into distinct identifier lists.
proof fn split_idents_injective(a: Seq<u8>, b: Seq<u8>)
    requires
        split_idents(a) == split_idents(b),
    ensures
        a =~= b,
    decreases a.len(),
{
    split_idents_len(a);
    split_idents_len(b);
    if a.len() == 0 && b.len() == 0 {
    } else if a.len() == 0 || b.len() == 0 {
        let (e, n) = if a.len() == 0 {
            (a, b)
        } else {
            (b, a)
        };
        // split(e) is one empty identifier; split(n) starts otherwise.
        if n[0] == 46 {
            split_idents_len(n.skip(1));
            assert(split_idents(n).len() >= 2);
        } else {
            assert(split_idents(n)[0].len() >= 1);
            assert(split_idents(e)[0].len() == 0);
        }
    } else if a[0] == 46 && b[0] == 46 {
        assert(split_idents(a.skip(1)) =~~= split_idents(b.skip(1))) by {
            assert forall|i: int| 0 <= i < split_idents(a.skip(1)).len() implies split_idents(
                a.skip(1),
            )[i] =~= split_idents(b.skip(1))[i] by {
                assert(split_idents(a)[i + 1] == split_idents(a.skip(1))[i]);
                assert(split_idents(b)[i + 1] == split_idents(b.skip(1))[i]);
            }
        }
        split_idents_injective(a.skip(1), b.skip(1));
        assert(a =~= b) by {
            assert(a.skip(1) =~= b.skip(1));
            assert forall|i: int| 0 <= i < a.len() implies a[i] == b[i] by {
                if i > 0 {
                    assert(a[i] == a.skip(1)[i - 1]);
                    assert(b[i] == b.skip(1)[i - 1]);
                }
            }
        }
    } else if a[0] != 46 && b[0] != 46 {
        let ra = split_idents(a.skip(1));
        let rb = split_idents(b.skip(1));
        split_idents_len(a.skip(1));
        split_idents_len(b.skip(1));
        assert(split_idents(a)[0] == seq![a[0]] + ra[0]);
        assert(split_idents(b)[0] == seq![b[0]] + rb[0]);
        assert(a[0] == b[0]) by {
            assert((seq![a[0]] + ra[0])[0] == a[0]);
            assert((seq![b[0]] + rb[0])[0] == b[0]);
        }
        assert(ra =~~= rb) by {
            assert(ra[0] =~= rb[0]) by {
                assert forall|i: int| 0 <= i < ra[0].len() implies ra[0][i] == rb[0][i] by {
                    assert((seq![a[0]] + ra[0])[i + 1] == ra[0][i]);
                    assert((seq![b[0]] + rb[0])[i + 1] == rb[0][i]);
                }
            }
            assert forall|i: int| 1 <= i < ra.len() implies ra[i] =~= rb[i] by {
                assert(split_idents(a)[i] == ra.skip(1)[i - 1]);
                assert(split_idents(b)[i] == rb.skip(1)[i - 1]);
                assert(ra.skip(1)[i - 1] == ra[i]);
                assert(rb.skip(1)[i - 1] == rb[i]);
            }
        }
        split_idents_injective(a.skip(1), b.skip(1));
        assert(a =~= b) by {
            assert(a.skip(1) =~= b.skip(1));
            assert forall|i: int| 0 <= i < a.len() implies a[i] == b[i] by {
                if i > 0 {
                    assert(a[i] == a.skip(1)[i - 1]);
                    assert(b[i] == b.skip(1)[i - 1]);
                }
            }
        }
    } else {
        // one starts with a dot, the other not: the first identifiers differ
        let (d, n) = if a[0] == 46 {
            (a, b)
        } else {
            (b, a)
        };
        assert(split_idents(d)[0].len() == 0);
        assert(split_idents(n)[0] == seq![n[0]] + split_idents(n.skip(1))[0]);
        assert(split_idents(n)[0].len() >= 1);
    }
}

/// A numeric identifier: non-empty, digits only.
pub open spec fn is_numeric_ident(s: Seq<u8>) -> bool {
    s.len() > 0 && forall|i: int| 0 <= i < s.len() ==> 48 <= #[trigger] s[i] <= 57
}

/// Strict semver order on single identifiers: numeric ones by value —
/// shorter before longer, equal lengths byte-wise, sound because valid
/// numeric identifiers have no leading zeros — numeric below alphanumeric,
/// and alphanumeric ones in byte order.
pub open spec fn ident_lt(a: Seq<u8>, b: Seq<u8>) -> bool {
    if is_numeric_ident(a) && is_numeric_ident(b) {
        a.len() < b.len() || (a.len() == b.len() && lex_lt(a, b))
    } else if is_numeric_ident(a) {
        true
    } else if is_numeric_ident(b) {
        false
    } else {
        lex_lt(a, b)
    }
}

proof fn ident_lt_irreflexive(a: Seq<u8>)
    ensures
        !ident_lt(a, a),
{
    lex_lt_irreflexive(a);
}

proof fn ident_lt_asymmetric(a: Seq<u8>, b: Seq<u8>)
    requires
        ident_lt(a, b),
    ensures
        !ident_lt(b, a),
{
    if lex_lt(a, b) && lex_lt(b, a) {
        lex_lt_asymmetric(a, b);
    }
}

proof fn ident_lt_transitive(a: Seq<u8>, b: Seq<u8>, c: Seq<u8>)
    requires
        ident_lt(a, b),
        ident_lt(b, c),
    ensures
        ident_lt(a, c),
{
    if lex_lt(a, b) && lex_lt(b, c) {
        lex_lt_transitive(a, b, c);
    }
}

proof fn ident_lt_total(a: Seq<u8>, b: Seq<u8>)
    requires
        !(a =~= b),
    ensures
        ident_lt(a, b) || ident_lt(b, a),
{
    lex_lt_trichotomy(a, b);
}

/// Strict order on identifier lists: the first differing identifier
/// decides, a proper prefix ranks below its extensions.
pub open spec fn idents_lt(a: Seq<Seq<u8>>, b: Seq<Seq<u8>>) -> bool
    decreases a.len(),
{
    b.len() > 0 && (a.len() == 0 || ident_lt(a[0], b[0]) || (a[0] == b[0] && idents_lt(
        a.skip(1),
        b.skip(1),
    )))
}

proof fn idents_lt_irreflexive(a: Seq<Seq<u8>>)
    ensures
        !idents_lt(a, a),
    decreases a.len(),
{
    if a.len() > 0 {
        ident_lt_irreflexive(a[0]);
        idents_lt_irreflexive(a.skip(1));
    }
}

proof fn idents_lt_asymmetric(a: Seq<Seq<u8>>, b: Seq<Seq<u8>>)
    requires
        idents_lt(a, b),
    ensures
        !idents_lt(b, a),
    decreases a.len(),
{
    if a.len() > 0 && b.len() > 0 {
        ident_lt_irreflexive(a[0]);
        if ident_lt(a[0], b[0]) {
            ident_lt_asymmetric(a[0], b[0]);
        } else {
            idents_lt_asymmetric(a.skip(1), b.skip(1));
        }
    }
}

proof fn idents_lt_transitive(a: Seq<Seq<u8>>, b: Seq<Seq<u8>>, c: Seq<Seq<u8>>)
    requires
        idents_lt(a, b),
        idents_lt(b, c),
    ensures
        idents_lt(a, c),
    decreases a.len(),
{
    if a.len() > 0 && b.len() > 0 && c.len() > 0 {
        if ident_lt(a[0], b[0]) && ident_lt(b[0], c[0]) {
            ident_lt_transitive(a[0], b[0], c[0]);
        } else if a[0] == b[0] && b[0] == c[0] {
            idents_lt_transitive(a.skip(1), b.skip(1), c.skip(1));
        }
    }
}

/// Strict order on pre-release texts: the empty text (a full release)
/// ranks above every pre-release, and pre-releases follow their
/// identifier lists.
pub open spec fn pre_lt(a: Seq<u8>, b: Seq<u8>) -> bool {
    a.len() > 0 && (b.len() == 0 || idents_lt(split_idents(a), split_idents(b)))
}

/// Strict precedence order on versions.
pub open spec fn version_lt(a: VersionView, b: VersionView) -> bool {
    ||| a.major < b.major
    ||| (a.major == b.major && a.minor < b.minor)
    ||| (a.major == b.major && a.minor == b.minor && a.patch < b.patch)
    ||| (a.major == b.major && a.minor == b.minor && a.patch == b.patch && pre_lt(a.pre, b.pre))
}

pub proof fn version_lt_irreflexive(a: VersionView)
    ensures
        !version_lt(a, a),
{
    idents_lt_irreflexive(split_idents(a.pre));
}

pub proof fn version_lt_asymmetric(a: VersionView, b: VersionView)
    requires
        version_lt(a, b),
    ensures
        !version_lt(b, a),
{
    if pre_lt(a.pre, b.pre) && pre_lt(b.pre, a.pre) {
        idents_lt_asymmetric(split_idents(a.pre), split_idents(b.pre));
    }
}

pub proof fn version_lt_transitive(a: VersionView, b: VersionView, c: VersionView)
    requires
        version_lt(a, b),
        version_lt(b, c),
    ensures
        version_lt(a, c),
{
    if pre_lt(a.pre, b.pre) && pre_lt(b.pre, c.pre) && b.pre.len() > 0 && c.pre.len() > 0 {
        idents_lt_transitive(split_idents(a.pre), split_idents(b.pre), split_idents(c.pre));
    }
}

/// Splits the tail of `s` from `from` on at the dots.
fn split_idents_exec(s: &[u8], from: usize) -> (out: Vec<Vec<u8>>)
    requires
        from <= s@.len(),
    ensures
        out.deep_view() == split_idents(s@.skip(from as int)),
        out@.len() >= 1,
    decreases s@.len() - from,
{
    let ghost tail: Seq<u8> = s@.skip(from as int);
    if from == s.len() {
        let mut out: Vec<Vec<u8>> = Vec::new();
        out.push(Vec::new());
        proof {
            assert(tail.len() == 0);
            assert(out.deep_view() =~~= split_idents(tail));
        }
        out
    } else if s[from] == 46 {
        let mut out = split_idents_exec(s, from + 1);
        out.insert(0, Vec::new());
        proof {
            assert(tail[0] == 46);
            assert(tail.skip(1) =~= s@.skip(from + 1));
            assert(out.deep_view() =~~= split_idents(tail));
        }
        out
    } else {
        let mut out = split_idents_exec(s, from + 1);
        let mut head = out.remove(0);
        head.insert(0, s[from]);
        out.insert(0, head);
        proof {
            let rest = split_idents(s@.skip(from + 1));
            assert(tail[0] != 46);
            assert(tail.skip(1) =~= s@.skip(from + 1));
            assert(split_idents(tail) == seq![seq![tail[0]] + rest[0]] + rest.skip(1));
            assert(out.deep_view() =~~= split_idents(tail));
        }
        out
    }
}

/// Whether the identifier is numeric, against `is_numeric_ident`.
fn is_numeric_exec(s: &Vec<u8>) -> (r: bool)
    ensures
        r == is_numeric_ident(s@),
{
    if s.len() == 0 {
        return false;
    }
    let mut i: usize = 0;
    while i < s.len()
        invariant
            0 <= i <= s@.len(),
            forall|k: int| 0 <= k < i ==> 48 <= #[trigger] s@[k] <= 57,
        decreases s@.len() - i,
    {
        if s[i] < 48 || s[i] > 57 {
            return false;
        }
        i += 1;
    }
    true
}

/// Compares two identifiers in the order that `ident_lt` describes.
fn ident_cmp(a: &Vec<u8>, b: &Vec<u8>) -> (r: Cmp)
    ensures
        r is Lt ==> ident_lt(a@, b@),
        r is Gt ==> ident_lt(b@, a@),
        r is Eq ==> a@ == b@,
{
    let a_num = is_numeric_exec(a);
    let b_num = is_numeric_exec(b);
    if a_num && b_num {
        if a.len() < b.len() {
            Cmp::Lt
        } else if b.len() < a.len() {
            Cmp::Gt
        } else {
            bytes_cmp(a.as_slice(), b.as_slice())
        }
    } else if a_num {
        Cmp::Lt
    } else if b_num {
        Cmp::Gt
    } else {
        bytes_cmp(a.as_slice(), b.as_slice())
    }
}

proof fn lemma_idents_from_diff(a: Seq<Seq<u8>>, b: Seq<Seq<u8>>, j: int)
    requires
        0 <= j < a.len(),
        j < b.len(),
        forall|k: int| 0 <= k < j ==> a[k] == b[k],
        ident_lt(a[j], b[j]),
    ensures
        idents_lt(a, b),
    decreases j,
{
    if j > 0 {
        assert forall|k: int| 0 <= k < j - 1 implies a.skip(1)[k] == b.skip(1)[k] by {
            assert(a[k + 1] == b[k + 1]);
        }
        assert(a.skip(1)[j - 1] == a[j]);
        assert(b.skip(1)[j - 1] == b[j]);
        lemma_idents_from_diff(a.skip(1), b.skip(1), j - 1);
    }
}

proof fn lemma_idents_from_proper_prefix(a: Seq<Seq<u8>>, b: Seq<Seq<u8>>)
    requires
        a.len() < b.len(),
        forall|k: int| 0 <= k < a.len() ==> a[k] == b[k],
    ensures
        idents_lt(a, b),
    decreases a.len(),
{
    if a.len() > 0 {
        assert forall|k: int| 0 <= k < a.len() - 1 implies a.skip(1)[k] == b.skip(1)[k] by {
            assert(a[k + 1] == b[k + 1]);
        }
        lemma_idents_from_proper_prefix(a.skip(1), b.skip(1));
    }
}

/// Compares two identifier lists in the order that `idents_lt` describes.
fn idents_cmp(a: &Vec<Vec<u8>>, b: &Vec<Vec<u8>>) -> (r: Cmp)
    ensures
        r is Lt ==> idents_lt(a.deep_view(), b.deep_view()),
        r is Gt ==> idents_lt(b.deep_view(), a.deep_view()),
        r is Eq ==> a.deep_view() == b.deep_view(),
{
    let alen: usize = a.len();
    let blen: usize = b.len();
    let n: usize = if alen < blen {
        alen
    } else {
        blen
    };
    let mut i: usize = 0;
    while i < n
        invariant
            0 <= i <= n,
            n <= a@.len(),
            n <= b@.len(),
            forall|k: int| 0 <= k < i ==> a.deep_view()[k] == b.deep_view()[k],
        decreases n - i,
    {
        proof {
            assert(a.deep_view()[i as int] == a@[i as int]@);
            assert(b.deep_view()[i as int] == b@[i as int]@);
        }
        match ident_cmp(&a[i], &b[i]) {
            Cmp::Lt => {
                proof {
                    lemma_idents_from_diff(a.deep_view(), b.deep_view(), i as int);
                }
                return Cmp::Lt;
            },
            Cmp::Gt => {
                proof {
                    lemma_idents_from_diff(b.deep_view(), a.deep_view(), i as int);
                }
                return Cmp::Gt;
            },
            Cmp::Eq => {
                i += 1;
            },
        }
    }
    if alen == blen {
        proof {
            assert(a.deep_view() =~~= b.deep_view());
        }
        Cmp::Eq
    } else if alen < blen {
        proof {
            lemma_idents_from_proper_prefix(a.deep_view(), b.deep_view());
        }
        Cmp::Lt
    } else {
        proof {
            lemma_idents_from_proper_prefix(b.deep_view(), a.deep_view());
        }
        Cmp::Gt
    }
}

/// Compares two versions in precedence order.
pub fn version_cmp(a: &Version, b: &Version) -> (r: Cmp)
    ensures
        r is Lt ==> version_lt(a@, b@),
        r is Gt ==> version_lt(b@, a@),
        r is Eq ==> a@ == b@,
{
    if a.major < b.major {
        return Cmp::Lt;
    }
    if b.major < a.major {
        return Cmp::Gt;
    }
    if a.minor < b.minor {
        return Cmp::Lt;
    }
    if b.minor < a.minor {
        return Cmp::Gt;
    }
    if a.patch < b.patch {
        return Cmp::Lt;
    }
    if b.patch < a.patch {
        return Cmp::Gt;
    }
    let a_empty = a.pre.len() == 0;
    let b_empty = b.pre.len() == 0;
    if a_empty && b_empty {
        proof {
            assert(a@ =~= b@);
        }
        Cmp::Eq
    } else if a_empty {
        Cmp::Gt
    } else if b_empty {
        Cmp::Lt
    } else {
        let sa = split_idents_exec(a.pre.as_slice(), 0);
        let sb = split_idents_exec(b.pre.as_slice(), 0);
        proof {
            assert(a.pre@.skip(0) =~= a.pre@);
            assert(b.pre@.skip(0) =~= b.pre@);
        }
        let r = idents_cmp(&sa, &sb);
        proof {
            if r is Eq {
                split_idents_injective(a.pre@, b.pre@);
                assert(a@ =~= b@);
            }
        }
        r
    }
}

} // verus!
