//! Ranking of scores: the positions of a score vector from the highest
//! score to the lowest.
use vstd::prelude::*;

verus! {

/// Position `a` comes before position `b` in the ranking of `v`: its score is
/// higher, or the scores are equal and `a` is the earlier position.
pub open spec fn ranks_before(v: Seq<i64>, a: int, b: int) -> bool {
    v[a] > v[b] || (v[a] == v[b] && a < b)
}

/// `r` lists positions of `v` in ranking order, each one before the next.
pub open spec fn is_ranked(v: Seq<i64>, r: Seq<usize>) -> bool {
    forall|p: int, q: int|
        0 <= p < q < r.len() ==> #[trigger] ranks_before(v, r[p] as int, r[q] as int)
}

/// `r` holds every position of `v` exactly once.
pub open spec fn is_permutation_of_positions(r: Seq<usize>, n: nat) -> bool {
    &&& r.len() == n
    &&& forall|p: int| 0 <= p < r.len() ==> #[trigger] r[p] < n
    &&& forall|p: int, q: int| 0 <= p < q < r.len() ==> #[trigger] r[p] != #[trigger] r[q]
    &&& forall|i: int| 0 <= i < n ==> #[trigger] r.contains(i as usize)
}

/// `r` holds exactly the positions `lo..hi`, each once.
pub open spec fn holds_range(r: Seq<usize>, lo: int, hi: int) -> bool {
    &&& r.len() == hi - lo
    &&& forall|x: usize| r.contains(x) <==> lo <= x < hi
}

/// Merges two rankings of `v` whose positions are all smaller in `left`
/// than in `right` into one ranking of their positions.
fn merge_rankings(v: &[i64], left: Vec<usize>, right: Vec<usize>) -> (r: Vec<usize>)
    requires
        is_ranked(v@, left@),
        is_ranked(v@, right@),
        forall|p: int| 0 <= p < left@.len() ==> #[trigger] left@[p] < v@.len(),
        forall|q: int| 0 <= q < right@.len() ==> #[trigger] right@[q] < v@.len(),
        forall|p: int, q: int| 0 <= p < left@.len() && 0 <= q < right@.len() ==> #[trigger] left@[p] < #[trigger] right@[q],
    ensures
        is_ranked(v@, r@),
        r@.len() == left@.len() + right@.len(),
        forall|x: usize| r@.contains(x) <==> (left@.contains(x) || right@.contains(x)),
{
    let nl = left.len();
    let nr = right.len();
    let mut out: Vec<usize> = Vec::new();
    let mut i: usize = 0;
    let mut j: usize = 0;
    while i < nl || j < nr
        invariant
            nl == left@.len(),
            nr == right@.len(),
            i <= nl,
            j <= nr,
            is_ranked(v@, left@),
            is_ranked(v@, right@),
            forall|p: int| 0 <= p < left@.len() ==> #[trigger] left@[p] < v@.len(),
            forall|q: int| 0 <= q < right@.len() ==> #[trigger] right@[q] < v@.len(),
            forall|p: int, q: int| 0 <= p < left@.len() && 0 <= q < right@.len() ==> #[trigger] left@[p] < #[trigger] right@[q],
            out@.len() == i + j,
            is_ranked(v@, out@),
            forall|x: usize| out@.contains(x) <==> (left@.take(i as int).contains(x) || right@.take(j as int).contains(x)),
            forall|p: int, q: int| 0 <= p < out@.len() && i <= q < nl ==> #[trigger] ranks_before(v@, out@[p] as int, left@[q] as int),
            forall|p: int, q: int| 0 <= p < out@.len() && j <= q < nr ==> #[trigger] ranks_before(v@, out@[p] as int, right@[q] as int),
        decreases nl + nr - i - j,
    {
        let ghost before = out@;
        let take_left = if i < nl && j < nr { v[left[i]] >= v[right[j]] } else { i < nl };
        let x = if take_left { left[i] } else { right[j] };
        proof {
            if take_left {
                assert forall|q: int| j <= q < nr implies #[trigger] ranks_before(v@, x as int, right@[q] as int) by {
                    assert(x < right@[q]);
                    if q > j {
                        assert(ranks_before(v@, right@[j as int] as int, right@[q] as int));
                        assert(x < right@[j as int]);
                    }
                }
                assert forall|q: int| i + 1 <= q < nl implies #[trigger] ranks_before(v@, x as int, left@[q] as int) by {
                    assert(ranks_before(v@, left@[i as int] as int, left@[q] as int));
                }
                assert(left@.take(i + 1) =~= left@.take(i as int).push(x));
            } else {
                assert forall|q: int| i <= q < nl implies #[trigger] ranks_before(v@, x as int, left@[q] as int) by {
                    if q > i {
                        assert(ranks_before(v@, left@[i as int] as int, left@[q] as int));
                    }
                }
                assert forall|q: int| j + 1 <= q < nr implies #[trigger] ranks_before(v@, x as int, right@[q] as int) by {
                    assert(ranks_before(v@, right@[j as int] as int, right@[q] as int));
                }
                assert(right@.take(j + 1) =~= right@.take(j as int).push(x));
            }
        }
        out.push(x);
        proof {
            broadcast use vstd::seq_lib::group_seq_properties;
            assert(out@ == before.push(x));
            assert forall|p: int, q: int| 0 <= p < q < out@.len() implies #[trigger] ranks_before(v@, out@[p] as int, out@[q] as int) by {
                if q < out@.len() - 1 {
                    assert(ranks_before(v@, before[p] as int, before[q] as int));
                }
            }
        }
        if take_left {
            i = i + 1;
        } else {
            j = j + 1;
        }
    }
    proof {
        assert(left@.take(nl as int) =~= left@);
        assert(right@.take(nr as int) =~= right@);
    }
    out
}

/// Ranks the positions `lo..hi` of `v`.
fn rank_range(v: &[i64], lo: usize, hi: usize) -> (r: Vec<usize>)
    requires
        lo <= hi <= v@.len(),
    ensures
        is_ranked(v@, r@),
        holds_range(r@, lo as int, hi as int),
    decreases hi - lo,
{
    if hi - lo <= 1 {
        let mut r: Vec<usize> = Vec::new();
        if hi > lo {
            r.push(lo);
        }
        proof {
            assert forall|x: usize| r@.contains(x) <==> lo <= x < hi by {
                if lo <= x < hi {
                    assert(r@[0] == x);
                }
            }
        }
        r
    } else {
        let mid = lo + (hi - lo) / 2;
        let left = rank_range(v, lo, mid);
        let right = rank_range(v, mid, hi);
        proof {
            assert forall|p: int| 0 <= p < left@.len() implies #[trigger] left@[p] < v@.len() by {
                assert(left@.contains(left@[p]));
            }
            assert forall|q: int| 0 <= q < right@.len() implies #[trigger] right@[q] < v@.len() by {
                assert(right@.contains(right@[q]));
            }
            assert forall|p: int, q: int| 0 <= p < left@.len() && 0 <= q < right@.len() implies #[trigger] left@[p] < #[trigger] right@[q] by {
                assert(left@.contains(left@[p]));
                assert(right@.contains(right@[q]));
            }
        }
        merge_rankings(v, left, right)
    }
}

/// The positions of `v` from the highest score to the lowest; equal scores
/// keep their order of position.
pub fn argmax(v: &[i64]) -> (r: Vec<usize>)
    ensures
        is_permutation_of_positions(r@, v@.len()),
        is_ranked(v@, r@),
        r@.len() == v@.len(),
        forall|p: int| 0 <= p < r@.len() ==> #[trigger] r@[p] < v@.len(),
        forall|i: int| 0 <= i < v@.len() ==> #[trigger] r@.contains(i as usize),
        forall|p: int, q: int| 0 <= p < q < r@.len() ==> v@[#[trigger] r@[p] as int] >= v@[#[trigger] r@[q] as int],
        forall|p: int, q: int| 0 <= p < q < r@.len() && v@[r@[p] as int] == v@[r@[q] as int]
            ==> #[trigger] r@[p] < #[trigger] r@[q],
{
    let r = rank_range(v, 0, v.len());
    proof {
        assert forall|p: int| 0 <= p < r@.len() implies #[trigger] r@[p] < v@.len() by {
            assert(r@.contains(r@[p]));
        }
        assert forall|p: int, q: int| 0 <= p < q < r@.len() implies #[trigger] r@[p] != #[trigger] r@[q] by {
            assert(ranks_before(v@, r@[p] as int, r@[q] as int));
        }
        assert forall|i: int| 0 <= i < v@.len() implies #[trigger] r@.contains(i as usize) by {
            assert(0 <= (i as usize) < v@.len());
        }
        assert forall|p: int, q: int| 0 <= p < q < r@.len() implies v@[#[trigger] r@[p] as int] >= v@[#[trigger] r@[q] as int] by {
            assert(ranks_before(v@, r@[p] as int, r@[q] as int));
        }
        assert forall|p: int, q: int| 0 <= p < q < r@.len() && v@[r@[p] as int] == v@[r@[q] as int]
            implies #[trigger] r@[p] < #[trigger] r@[q] by {
            assert(ranks_before(v@, r@[p] as int, r@[q] as int));
        }
    }
    r
}

/// Every position listed in `r1` is listed in `r2` and the other way round.
pub open spec fn same_positions(r1: Seq<usize>, r2: Seq<usize>) -> bool {
    &&& forall|p: int| 0 <= p < r1.len() ==> r2.contains(#[trigger] r1[p])
    &&& forall|p: int| 0 <= p < r2.len() ==> r1.contains(#[trigger] r2[p])
}

/// No position is listed twice in `r`.
pub open spec fn no_repeats(r: Seq<usize>) -> bool {
    forall|p: int, q: int| 0 <= p < q < r.len() ==> #[trigger] r[p] != #[trigger] r[q]
}

proof fn lemma_rankings_agree(v: Seq<i64>, r1: Seq<usize>, r2: Seq<usize>)
    requires
        r1.len() == r2.len(),
        no_repeats(r1),
        no_repeats(r2),
        same_positions(r1, r2),
        is_ranked(v, r1),
        is_ranked(v, r2),
    ensures
        r1 == r2,
    decreases r1.len(),
{
    if r1.len() == 0 {
        assert(r1 =~= r2);
    } else {
        if r1[0] != r2[0] {
            assert(r1.contains(r2[0]));
            let k = choose|k: int| 0 <= k < r1.len() && r1[k] == r2[0];
            assert(r2.contains(r1[0]));
            let m = choose|m: int| 0 <= m < r2.len() && r2[m] == r1[0];
            assert(ranks_before(v, r1[0] as int, r1[k] as int));
            assert(ranks_before(v, r2[0] as int, r2[m] as int));
        }
        let s1 = r1.drop_first();
        let s2 = r2.drop_first();
        assert forall|p: int| 0 <= p < s1.len() implies s2.contains(#[trigger] s1[p]) by {
            assert(r2.contains(r1[p + 1]));
            let m = choose|m: int| 0 <= m < r2.len() && r2[m] == r1[p + 1];
            assert(r1[0] != r1[p + 1]);
            assert(s2[m - 1] == s1[p]);
        }
        assert forall|p: int| 0 <= p < s2.len() implies s1.contains(#[trigger] s2[p]) by {
            assert(r1.contains(r2[p + 1]));
            let m = choose|m: int| 0 <= m < r1.len() && r1[m] == r2[p + 1];
            assert(r2[0] != r2[p + 1]);
            assert(s1[m - 1] == s2[p]);
        }
        assert forall|p: int, q: int| 0 <= p < q < s1.len() implies #[trigger] ranks_before(v, s1[p] as int, s1[q] as int) by {
            assert(ranks_before(v, r1[p + 1] as int, r1[q + 1] as int));
        }
        assert forall|p: int, q: int| 0 <= p < q < s2.len() implies #[trigger] ranks_before(v, s2[p] as int, s2[q] as int) by {
            assert(ranks_before(v, r2[p + 1] as int, r2[q + 1] as int));
        }
        assert forall|p: int, q: int| 0 <= p < q < s1.len() implies #[trigger] s1[p] != #[trigger] s1[q] by {
            assert(r1[p + 1] != r1[q + 1]);
        }
        assert forall|p: int, q: int| 0 <= p < q < s2.len() implies #[trigger] s2[p] != #[trigger] s2[q] by {
            assert(r2[p + 1] != r2[q + 1]);
        }
        lemma_rankings_agree(v, s1, s2);
        assert(r1 =~= r2) by {
            assert forall|p: int| 0 <= p < r1.len() implies r1[p] == r2[p] by {
                if p > 0 {
                    assert(r1[p] == s1[p - 1]);
                }
            }
        }
    }
}

/// The ranking of a score vector is determined by the scores: any two lists
/// that meet the contract of `argmax` for `v` are the same list.
pub proof fn lemma_ranking_is_unique(v: Seq<i64>, r1: Seq<usize>, r2: Seq<usize>)
    requires
        is_permutation_of_positions(r1, v.len()),
        is_ranked(v, r1),
        is_permutation_of_positions(r2, v.len()),
        is_ranked(v, r2),
    ensures
        r1 == r2,
{
    assert forall|p: int| 0 <= p < r1.len() implies r2.contains(#[trigger] r1[p]) by {
        assert(r2.contains(r1[p] as int as usize));
    }
    assert forall|p: int| 0 <= p < r2.len() implies r1.contains(#[trigger] r2[p]) by {
        assert(r1.contains(r2[p] as int as usize));
    }
    lemma_rankings_agree(v, r1, r2);
}

/// The first position of a ranking holds a highest score, and no earlier
/// position holds a score as high.
pub proof fn lemma_ranking_head_is_maximum(v: Seq<i64>, r: Seq<usize>)
    requires
        0 < v.len() <= usize::MAX,
        is_permutation_of_positions(r, v.len()),
        is_ranked(v, r),
    ensures
        forall|i: int| 0 <= i < v.len() ==> v[r[0] as int] >= #[trigger] v[i],
        forall|i: int| 0 <= i < r[0] ==> v[r[0] as int] > #[trigger] v[i],
{
    assert forall|i: int| 0 <= i < v.len() implies v[r[0] as int] >= #[trigger] v[i] by {
        assert(r.contains(i as usize));
        let p = choose|p: int| 0 <= p < r.len() && r[p] == i as usize;
        if p > 0 {
            assert(ranks_before(v, r[0] as int, r[p] as int));
        }
    }
    assert forall|i: int| 0 <= i < r[0] implies v[r[0] as int] > #[trigger] v[i] by {
        assert(r.contains(i as usize));
        let p = choose|p: int| 0 <= p < r.len() && r[p] == i as usize;
        assert(p != 0);
        assert(ranks_before(v, r[0] as int, r[p] as int));
    }
}

} // verus!
