//! Lexicographic ordering of paths (by character code), the three-way string
//! comparison the merge relies on, and the path-sort a scan ends with.

use vstd::multiset::Multiset;
use vstd::prelude::*;

use crate::record::FileData;

verus! {

/// Strict lexicographic order on character sequences, by character code.
pub open spec fn lex_lt(a: Seq<char>, b: Seq<char>) -> bool
    decreases a.len(),
{
    if b.len() == 0 {
        false
    } else if a.len() == 0 {
        true
    } else if a[0] < b[0] {
        true
    } else if a[0] > b[0] {
        false
    } else {
        lex_lt(a.drop_first(), b.drop_first())
    }
}

/// Reflexive closure of `lex_lt`.
pub open spec fn lex_le(a: Seq<char>, b: Seq<char>) -> bool {
    lex_lt(a, b) || a == b
}

/// Of two character sequences, exactly one of `a < b`, `b < a`, `a == b` holds.
pub proof fn lemma_lex_trichotomy(a: Seq<char>, b: Seq<char>)
    ensures
        lex_lt(a, b) || lex_lt(b, a) || a == b,
        lex_lt(a, b) ==> !lex_lt(b, a) && a != b,
        lex_lt(b, a) ==> !lex_lt(a, b) && a != b,
    decreases a.len(),
{
    if a.len() == 0 && b.len() == 0 {
        assert(a =~= b);
    } else if a.len() > 0 && b.len() > 0 {
        if a[0] == b[0] {
            lemma_lex_trichotomy(a.drop_first(), b.drop_first());
            if a.drop_first() == b.drop_first() {
                assert(a =~= b) by {
                    assert forall|k: int| 0 <= k < a.len() implies a[k] == b[k] by {
                        if k > 0 {
                            assert(a.drop_first()[k - 1] == b.drop_first()[k - 1]);
                        }
                    }
                }
            }
            if a == b {
                assert(a.drop_first() =~= b.drop_first());
            }
        }
    }
}

/// `lex_lt` is transitive.
pub proof fn lemma_lex_lt_trans(a: Seq<char>, b: Seq<char>, c: Seq<char>)
    requires
        lex_lt(a, b),
        lex_lt(b, c),
    ensures
        lex_lt(a, c),
    decreases a.len(),
{
    if a.len() > 0 && b.len() > 0 && c.len() > 0 {
        if a[0] == b[0] && b[0] == c[0] {
            lemma_lex_lt_trans(a.drop_first(), b.drop_first(), c.drop_first());
        }
    }
}

/// A shared proper prefix decides nothing; the first difference (or one side
/// ending first) decides the order.
pub proof fn lemma_lex_lt_at(a: Seq<char>, b: Seq<char>, i: int)
    requires
        0 <= i <= a.len(),
        i <= b.len(),
        a.subrange(0, i) =~= b.subrange(0, i),
        (i < a.len() && i < b.len() && a[i] < b[i]) || (i == a.len() && i
            < b.len()),
    ensures
        lex_lt(a, b),
    decreases i,
{
    if i == 0 {
    } else {
        assert(a[0] == a.subrange(0, i)[0]);
        assert(b[0] == b.subrange(0, i)[0]);
        assert(a.drop_first().subrange(0, i - 1) =~= b.drop_first().subrange(0, i - 1)) by {
            assert forall|k: int| 0 <= k < i - 1 implies a.drop_first()[k] == b.drop_first()[k] by {
                assert(a.subrange(0, i)[k + 1] == b.subrange(0, i)[k + 1]);
            }
        }
        if i < a.len() && i < b.len() {
            assert(a.drop_first()[i - 1] == a[i]);
            assert(b.drop_first()[i - 1] == b[i]);
        }
        lemma_lex_lt_at(a.drop_first(), b.drop_first(), i - 1);
    }
}

/// Outcome of a three-way path comparison.
#[derive(PartialEq, Eq, Structural, Clone, Copy, Debug)]
pub enum PathOrder {
    Lt,
    Eq,
    Gt,
}

/// Three-way comparison of two strings in lexicographic character order.
pub fn str_cmp(a: &str, b: &str) -> (r: PathOrder)
    ensures
        r == PathOrder::Lt <==> lex_lt(a@, b@),
        r == PathOrder::Eq <==> a@ == b@,
        r == PathOrder::Gt <==> lex_lt(b@, a@),
{
    let alen = a.unicode_len();
    let blen = b.unicode_len();
    let mut i: usize = 0;
    while i < alen && i < blen
        invariant
            alen == a@.len(),
            blen == b@.len(),
            i <= alen,
            i <= blen,
            a@.subrange(0, i as int) =~= b@.subrange(0, i as int),
        decreases alen - i,
    {
        let ca = a.get_char(i);
        let cb = b.get_char(i);
        if ca < cb {
            proof {
                lemma_lex_lt_at(a@, b@, i as int);
                lemma_lex_trichotomy(a@, b@);
            }
            return PathOrder::Lt;
        }
        if ca > cb {
            proof {
                lemma_lex_lt_at(b@, a@, i as int);
                lemma_lex_trichotomy(a@, b@);
            }
            return PathOrder::Gt;
        }
        proof {
            assert(ca == cb);
            assert(a@.subrange(0, i + 1) =~= b@.subrange(0, i + 1)) by {
                assert forall|k: int| 0 <= k < i + 1 implies #[trigger] a@.subrange(0, i + 1)[k]
                    == b@.subrange(0, i + 1)[k] by {
                    if k < i {
                        assert(a@.subrange(0, i as int)[k] == b@.subrange(0, i as int)[k]);
                    }
                }
            }
        }
        i = i + 1;
    }
    if alen == blen {
        proof {
            assert(a@ =~= b@) by {
                assert(a@.subrange(0, alen as int) =~= a@);
                assert(b@.subrange(0, blen as int) =~= b@);
            }
            lemma_lex_trichotomy(a@, b@);
        }
        PathOrder::Eq
    } else if alen < blen {
        proof {
            lemma_lex_lt_at(a@, b@, alen as int);
            lemma_lex_trichotomy(a@, b@);
        }
        PathOrder::Lt
    } else {
        proof {
            lemma_lex_lt_at(b@, a@, blen as int);
            lemma_lex_trichotomy(a@, b@);
        }
        PathOrder::Gt
    }
}

/// One record precedes another when its path does (or the paths are equal).
pub open spec fn path_le(a: FileData, b: FileData) -> bool {
    lex_le(a.path@, b.path@)
}

/// Ascending path order over a whole record sequence.
pub open spec fn sorted_by_path(s: Seq<FileData>) -> bool {
    forall|i: int, j: int| 0 <= i < j < s.len() ==> path_le(s[i], s[j])
}

/// Sorts the records of a scan ascending by path: the result is a
/// path-ordered permutation of the input.
pub fn sort_by_path(files: &mut Vec<FileData>)
    ensures
        sorted_by_path(final(files)@),
        final(files)@.to_multiset() == old(files)@.to_multiset(),
{
    broadcast use vstd::seq_lib::group_to_multiset_ensures;

    let mut out: Vec<FileData> = Vec::new();
    while files.len() > 0
        invariant
            out@.to_multiset().add(files@.to_multiset()) =~= old(files)@.to_multiset(),
            sorted_by_path(out@),
            forall|i: int, j: int|
                0 <= i < out@.len() && 0 <= j < files@.len() ==> path_le(out@[i], files@[j]),
        decreases files.len(),
    {
        let mut m: usize = 0;
        let mut k: usize = 1;
        while k < files.len()
            invariant
                m < k,
                k <= files@.len(),
                forall|t: int| 0 <= t < k ==> path_le(files@[m as int], files@[t]),
            decreases files@.len() - k,
        {
            let c = str_cmp(files[k].path.as_str(), files[m].path.as_str());
            proof {
                lemma_lex_trichotomy(files@[k as int].path@, files@[m as int].path@);
            }
            if matches!(c, PathOrder::Lt) {
                proof {
                    assert forall|t: int| 0 <= t < k + 1 implies path_le(
                        files@[k as int],
                        files@[t],
                    ) by {
                        if t < k {
                            if lex_lt(files@[m as int].path@, files@[t].path@) {
                                lemma_lex_lt_trans(
                                    files@[k as int].path@,
                                    files@[m as int].path@,
                                    files@[t].path@,
                                );
                            }
                        }
                    }
                }
                m = k;
            }
            k = k + 1;
        }
        let ghost pre = files@;
        let ghost out_pre = out@;
        let x = files.remove(m);
        out.push(x);
        proof {
            broadcast use vstd::multiset::group_multiset_axioms;

            assert(pre.contains(pre[m as int]));
            assert(out@ == out_pre.push(x));
            assert(files@ == pre.remove(m as int));
            vstd::seq_lib::to_multiset_build(out_pre, x);
            vstd::seq_lib::to_multiset_remove(pre, m as int);
            assert(out@.to_multiset() =~= out_pre.to_multiset().insert(x));
            assert(files@.to_multiset() =~= pre.to_multiset().remove(x));
            assert(out@.to_multiset().add(files@.to_multiset()) =~= old(
                files,
            )@.to_multiset()) by {
                vstd::seq_lib::to_multiset_contains(pre, x);
                assert(pre.to_multiset().count(x) > 0);
                assert forall|e: FileData|
                    out@.to_multiset().add(files@.to_multiset()).count(e) == old(
                        files,
                    )@.to_multiset().count(e) by {
                    assert(out_pre.to_multiset().add(pre.to_multiset()).count(e) == old(
                        files,
                    )@.to_multiset().count(e));
                }
            }
            assert forall|i: int, j: int|
                0 <= i < out@.len() && 0 <= j < files@.len() implies path_le(
                out@[i],
                files@[j],
            ) by {
                assert(files@[j] == if j < m { pre[j] } else { pre[j + 1] });
            }
        }
    }
    proof {
        assert(files@.to_multiset() =~= Multiset::<FileData>::empty()) by {
            assert(files@ =~= Seq::<FileData>::empty());
        }
        assert(out@.to_multiset().add(Multiset::<FileData>::empty()) =~= out@.to_multiset());
    }
    *files = out;
}

} // verus!
