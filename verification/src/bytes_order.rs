//! Lexicographic order on byte strings, with the comparison routine and the
//! order's laws (irreflexivity, asymmetry, transitivity, trichotomy) that
//! the version order and the resolver's selection proof rest on, and the
//! byte-string searches the resolver strips prefixes and matches asset
//! names with.

use vstd::prelude::*;

verus! {

/// Strict lexicographic order on byte sequences: a proper prefix precedes
/// its extensions, otherwise the first differing byte decides.
pub open spec fn lex_lt(a: Seq<u8>, b: Seq<u8>) -> bool
    decreases a.len(),
{
    b.len() > 0 && (a.len() == 0 || a[0] < b[0] || (a[0] == b[0] && lex_lt(a.skip(1), b.skip(1))))
}

pub proof fn lex_lt_asymmetric(a: Seq<u8>, b: Seq<u8>)
    requires
        lex_lt(a, b),
    ensures
        !lex_lt(b, a),
    decreases a.len(),
{
    if a.len() > 0 && b.len() > 0 && a[0] == b[0] {
        lex_lt_asymmetric(a.skip(1), b.skip(1));
    }
}

pub proof fn lex_lt_irreflexive(a: Seq<u8>)
    ensures
        !lex_lt(a, a),
    decreases a.len(),
{
    if a.len() > 0 {
        lex_lt_irreflexive(a.skip(1));
    }
}

pub proof fn lex_lt_transitive(a: Seq<u8>, b: Seq<u8>, c: Seq<u8>)
    requires
        lex_lt(a, b),
        lex_lt(b, c),
    ensures
        lex_lt(a, c),
    decreases a.len(),
{
    if a.len() > 0 && b.len() > 0 && c.len() > 0 && a[0] == b[0] && b[0] == c[0] {
        lex_lt_transitive(a.skip(1), b.skip(1), c.skip(1));
    }
}

pub proof fn lex_lt_trichotomy(a: Seq<u8>, b: Seq<u8>)
    ensures
        lex_lt(a, b) || lex_lt(b, a) || a =~= b,
    decreases a.len(),
{
    if a.len() > 0 && b.len() > 0 && a[0] == b[0] {
        lex_lt_trichotomy(a.skip(1), b.skip(1));
        if !lex_lt(a.skip(1), b.skip(1)) && !lex_lt(b.skip(1), a.skip(1)) {
            assert(a.skip(1) =~= b.skip(1));
            assert forall|i: int| 0 <= i < a.len() implies a[i] == b[i] by {
                if i > 0 {
                    assert(a[i] == a.skip(1)[i - 1]);
                    assert(b[i] == b.skip(1)[i - 1]);
                }
            }
        }
    }
}

proof fn lemma_lex_from_diff(a: Seq<u8>, b: Seq<u8>, j: int)
    requires
        0 <= j < a.len(),
        j < b.len(),
        forall|k: int| 0 <= k < j ==> a[k] == b[k],
        a[j] < b[j],
    ensures
        lex_lt(a, b),
    decreases j,
{
    if j > 0 {
        assert forall|k: int| 0 <= k < j - 1 implies a.skip(1)[k] == b.skip(1)[k] by {
            assert(a[k + 1] == b[k + 1]);
        }
        assert(a.skip(1)[j - 1] == a[j]);
        assert(b.skip(1)[j - 1] == b[j]);
        lemma_lex_from_diff(a.skip(1), b.skip(1), j - 1);
    }
}

proof fn lemma_lex_from_proper_prefix(a: Seq<u8>, b: Seq<u8>)
    requires
        a.len() < b.len(),
        forall|k: int| 0 <= k < a.len() ==> a[k] == b[k],
    ensures
        lex_lt(a, b),
    decreases a.len(),
{
    if a.len() > 0 {
        assert forall|k: int| 0 <= k < a.len() - 1 implies a.skip(1)[k] == b.skip(1)[k] by {
            assert(a[k + 1] == b[k + 1]);
        }
        lemma_lex_from_proper_prefix(a.skip(1), b.skip(1));
    }
}

/// Three-way outcome of a comparison.
#[derive(Clone, Copy, Debug, PartialEq, Eq, Structural)]
pub enum Cmp {
    Lt,
    Eq,
    Gt,
}

/// Compares two byte strings in the order that `lex_lt` describes.
pub fn bytes_cmp(a: &[u8], b: &[u8]) -> (r: Cmp)
    ensures
        r is Lt ==> lex_lt(a@, b@),
        r is Gt ==> lex_lt(b@, a@),
        r is Eq ==> a@ == b@,
{
    let alen: usize = a.len();
    let blen: usize = b.len();
    let n: usize = if alen < blen {
        alen
    } else {
        blen
    };
    let mut i: usize = 0;
    while i < n
        invariant
            0 <= i <= n,
            n <= a@.len(),
            n <= b@.len(),
            forall|k: int| 0 <= k < i ==> a@[k] == b@[k],
        decreases n - i,
    {
        if a[i] < b[i] {
            proof {
                lemma_lex_from_diff(a@, b@, i as int);
            }
            return Cmp::Lt;
        }
        if b[i] < a[i] {
            proof {
                lemma_lex_from_diff(b@, a@, i as int);
            }
            return Cmp::Gt;
        }
        i += 1;
    }
    if alen == blen {
        proof {
            assert(a@ =~= b@);
        }
        Cmp::Eq
    } else if alen < blen {
        proof {
            lemma_lex_from_proper_prefix(a@, b@);
        }
        Cmp::Lt
    } else {
        proof {
            lemma_lex_from_proper_prefix(b@, a@);
        }
        Cmp::Gt
    }
}

/// True exactly when `pre` is a prefix of `s`.
pub fn has_prefix(s: &[u8], pre: &[u8]) -> (r: bool)
    ensures
        r == pre@.is_prefix_of(s@),
{
    if pre.len() > s.len() {
        return false;
    }
    let mut i: usize = 0;
    while i < pre.len()
        invariant
            0 <= i <= pre@.len(),
            pre@.len() <= s@.len(),
            forall|k: int| 0 <= k < i ==> pre@[k] == s@[k],
        decreases pre@.len() - i,
    {
        if s[i] != pre[i] {
            proof {
                assert(!(pre@ =~= s@.subrange(0, pre@.len() as int)));
            }
            return false;
        }
        i += 1;
    }
    proof {
        assert(pre@ =~= s@.subrange(0, pre@.len() as int));
    }
    true
}

/// Copies the tail of `s` that starts at `start` into a fresh vector.
pub fn copy_suffix(s: &[u8], start: usize) -> (out: Vec<u8>)
    requires
        start <= s@.len(),
    ensures
        out@ == s@.skip(start as int),
{
    let mut out: Vec<u8> = Vec::new();
    let mut i: usize = start;
    while i < s.len()
        invariant
            start <= i <= s@.len(),
            out@ =~= s@.subrange(start as int, i as int),
        decreases s@.len() - i,
    {
        out.push(s[i]);
        i += 1;
    }
    proof {
        assert(out@ =~= s@.skip(start as int));
    }
    out
}

/// True exactly when `needle` occurs in `hay` as a contiguous run.
pub open spec fn contains_bytes(hay: Seq<u8>, needle: Seq<u8>) -> bool {
    exists|i: int|
        0 <= i && i + needle.len() <= hay.len() && needle =~= #[trigger] hay.subrange(
            i,
            i + needle.len(),
        )
}

/// Substring search, against `contains_bytes`.
pub fn find_bytes(hay: &[u8], needle: &[u8]) -> (r: bool)
    ensures
        r == contains_bytes(hay@, needle@),
{
    if needle.len() > hay.len() {
        proof {
            assert(!contains_bytes(hay@, needle@));
        }
        return false;
    }
    let mut i: usize = 0;
    let last: usize = hay.len() - needle.len();
    loop
        invariant
            0 <= i <= last,
            last == hay@.len() - needle@.len(),
            needle@.len() <= hay@.len(),
            hay@.len() <= usize::MAX,
            forall|p: int|
                0 <= p < i ==> needle@ != #[trigger] hay@.subrange(p, p + needle@.len()),
        ensures
            forall|p: int|
                0 <= p && p + needle@.len() <= hay@.len() ==> needle@ != #[trigger] hay@.subrange(
                    p,
                    p + needle@.len(),
                ),
        decreases last - i,
    {
        let mut j: usize = 0;
        let mut same: bool = true;
        while j < needle.len()
            invariant
                0 <= j <= needle@.len(),
                i + needle@.len() <= hay@.len(),
                hay@.len() <= usize::MAX,
                same ==> forall|k: int| 0 <= k < j ==> needle@[k] == hay@[i + k],
                !same ==> needle@ != hay@.subrange(i as int, i + needle@.len()),
            decreases needle@.len() - j,
        {
            if hay[i + j] != needle[j] {
                proof {
                    assert(hay@.subrange(i as int, i + needle@.len())[j as int] == hay@[i + j]);
                }
                same = false;
                j = needle.len();
            } else {
                j += 1;
            }
        }
        if same {
            proof {
                assert(needle@ =~= hay@.subrange(i as int, i + needle@.len()));
            }
            return true;
        }
        if i == last {
            proof {
                assert forall|p: int| 0 <= p && p + needle@.len() <= hay@.len() implies needle@
                    != #[trigger] hay@.subrange(p, p + needle@.len()) by {
                    assert(p <= last);
                }
            }
            break;
        }
        i += 1;
    }
    false
}

} // verus!
