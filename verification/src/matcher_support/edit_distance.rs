//! Line-level edit distance: how many line insertions, deletions and
//! replacements separate two texts. The diff summary uses it to decide
//! whether a comparison view is still worth showing.

use crate::internal::description_renderer::{frag_views, Fragment};
use vstd::prelude::*;

verus! {

/// Controls the termination condition of the edit-list search.
#[derive(Clone, Copy)]
pub enum Mode {
    /// Indicates that the two compared texts are intended to be equal, so
    /// the entire edit list transforming one into the other is of interest.
    Exact,
}

/// The least of three values.
pub open spec fn min3(x: nat, y: nat, z: nat) -> nat {
    if x <= y && x <= z {
        x
    } else if y <= z {
        y
    } else {
        z
    }
}

/// The edit distance between two sequences of lines: the least number of
/// line insertions, deletions and replacements that turns one into the
/// other.
pub open spec fn edit_distance(a: Seq<Seq<char>>, b: Seq<Seq<char>>) -> nat
    decreases a.len() + b.len(),
{
    if a.len() == 0 {
        b.len()
    } else if b.len() == 0 {
        a.len()
    } else {
        let rest = edit_distance(a.drop_last(), b.drop_last());
        if a.last() == b.last() {
            rest
        } else {
            1 + min3(edit_distance(a.drop_last(), b), edit_distance(a, b.drop_last()), rest)
        }
    }
}

/// The edit distance never exceeds the longer of the two line counts.
pub proof fn lemma_edit_distance_bound(a: Seq<Seq<char>>, b: Seq<Seq<char>>)
    ensures
        edit_distance(a, b) <= a.len() || edit_distance(a, b) <= b.len(),
        edit_distance(a, b) <= a.len() + b.len(),
    decreases a.len() + b.len(),
{
    if a.len() == 0 {
    } else if b.len() == 0 {
    } else {
        lemma_edit_distance_bound(a.drop_last(), b.drop_last());
        lemma_edit_distance_bound(a.drop_last(), b);
        lemma_edit_distance_bound(a, b.drop_last());
    }
}

/// Compares two lines by their characters.
fn line_eq(a: &Fragment, b: &Fragment) -> (r: bool)
    ensures
        r == (a@ == b@),
{
    crate::matcher_support::summarize_diff::str_eq(a.text(), b.text())
}

/// The edit distance between the line sequences `a` and `b`, computed by
/// dynamic programming over prefixes.
pub(crate) fn lines_edit_distance(a: &Vec<Fragment>, b: &Vec<Fragment>) -> (r: usize)
    ensures
        r == edit_distance(frag_views(a@), frag_views(b@)),
{
    let m = a.len();
    let n = b.len();
    let ghost av = frag_views(a@);
    let ghost bv = frag_views(b@);

    // Row 0: the distance from the empty prefix of `a` to each prefix of `b`.
    let mut prev: Vec<usize> = Vec::new();
    let mut j: usize = 0;
    while j < n
        invariant
            j <= n,
            prev@.len() == j,
            forall|t: int| 0 <= t < j ==> prev@[t] == t,
        decreases n - j,
    {
        prev.push(j);
        j += 1;
    }
    prev.push(n);
    proof {
        assert forall|t: int| 0 <= t <= n implies prev@[t] == edit_distance(
            av.take(0),
            bv.take(t),
        ) by {
            assert(av.take(0) =~= Seq::<Seq<char>>::empty());
            assert(bv.take(t).len() == t);
        }
    }

    let mut i: usize = 0;
    while i < m
        invariant
            i <= m,
            m == av.len(),
            n == bv.len(),
            av == frag_views(a@),
            bv == frag_views(b@),
            prev@.len() == n + 1,
            forall|t: int|
                0 <= t <= n ==> prev@[t] == edit_distance(av.take(i as int), bv.take(t)),
        decreases m - i,
    {
        i += 1;
        let mut cur: Vec<usize> = Vec::new();
        cur.push(i);
        proof {
            assert(bv.take(0) =~= Seq::<Seq<char>>::empty());
            assert(av.take(i as int).len() == i);
            assert(cur@[0] == edit_distance(av.take(i as int), bv.take(0)));
        }
        let mut j: usize = 0;
        while j < n
            invariant
                j <= n,
                1 <= i <= m,
                m == av.len(),
                n == bv.len(),
                av == frag_views(a@),
                bv == frag_views(b@),
                prev@.len() == n + 1,
                forall|t: int|
                    0 <= t <= n ==> prev@[t] == edit_distance(av.take(i - 1), bv.take(t)),
                cur@.len() == j + 1,
                forall|t: int|
                    0 <= t <= j ==> cur@[t] == edit_distance(av.take(i as int), bv.take(t)),
            decreases n - j,
        {
            j += 1;
            let ghost ap = av.take(i as int);
            let ghost bp = bv.take(j as int);
            proof {
                assert(ap.last() == av[i - 1]);
                assert(bp.last() == bv[j - 1]);
                assert(ap.drop_last() =~= av.take(i - 1));
                assert(bp.drop_last() =~= bv.take(j - 1));
                assert(frag_views(a@)[i - 1] == a@[i - 1]@);
                assert(frag_views(b@)[j - 1] == b@[j - 1]@);
            }
            let c: usize = if line_eq(&a[i - 1], &b[j - 1]) {
                prev[j - 1]
            } else {
                let del: usize = prev[j];
                let ins: usize = cur[j - 1];
                let rest: usize = prev[j - 1];
                let least: usize = if del <= ins && del <= rest {
                    del
                } else if ins <= rest {
                    ins
                } else {
                    rest
                };
                proof {
                    lemma_edit_distance_bound(av.take(i - 1), bv.take(j - 1));
                    assert(rest <= (i - 1) + (j - 1));
                    assert(least <= rest);
                }
                1 + least
            };
            cur.push(c);
            proof {
                assert(cur@[j as int] == edit_distance(ap, bp));
            }
        }
        prev = cur;
    }
    proof {
        assert(av.take(m as int) =~= av);
        assert(bv.take(n as int) =~= bv);
    }
    prev[n]
}

} // verus!
