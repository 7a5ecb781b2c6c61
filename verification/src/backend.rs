//! What a backend needs to know before it touches an array: the order in
//! which reductions are applied, and how often each axis is repeated.

use crate::operation::Operation;
use vstd::prelude::*;
use vstd::seq_lib::to_multiset_build;
use vstd::seq_lib::to_multiset_insert;

verus! {

/// The number of entries from `p` on, up to the first whose axis is not
/// above `axis`, added to `p`.
pub open spec fn first_not_above(sorted: Seq<(usize, Operation)>, axis: usize, p: int) -> int
    decreases sorted.len() - p,
{
    if 0 <= p < sorted.len() && sorted[p].0 > axis {
        first_not_above(sorted, axis, p + 1)
    } else {
        p
    }
}

/// The first `n` reductions in the order in which they are applied: the
/// highest axis first, and of two reductions of one axis the later first.
pub open spec fn reduce_order_upto(reductions: Seq<(usize, Operation)>, n: int) -> Seq<(usize, Operation)>
    decreases n,
{
    if n <= 0 {
        Seq::empty()
    } else {
        let before = reduce_order_upto(reductions, n - 1);
        before.insert(first_not_above(before, reductions[n - 1].0, 0), reductions[n - 1])
    }
}

/// The reductions in the order in which they are applied.
pub open spec fn spec_reduce_order(reductions: Seq<(usize, Operation)>) -> Seq<(usize, Operation)> {
    reduce_order_upto(reductions, reductions.len() as int)
}

/// Whether the axes of the reductions never rise.
pub open spec fn descending(reductions: Seq<(usize, Operation)>) -> bool {
    forall|i: int, j: int|
        0 <= i < j < reductions.len() ==> (#[trigger] reductions[i]).0 >= (#[trigger] reductions[j]).0
}

/// Puts reductions into the order in which they are applied.
///
/// A reduction removes its axis, so the axes above it move down by one; the
/// reductions are therefore applied from the highest axis down, which leaves
/// the axes of the reductions still to come in place. The result holds the
/// same reductions, the highest axis first; of two reductions of one axis
/// the later one comes first.
pub fn reduce_order(reductions: &Vec<(usize, Operation)>) -> (r: Vec<(usize, Operation)>)
    ensures
        r@ == spec_reduce_order(reductions@),
        descending(r@),
        r@.to_multiset() == reductions@.to_multiset(),
        r@.len() == reductions@.len(),
{
    let mut out: Vec<(usize, Operation)> = Vec::new();
    let mut i: usize = 0;
    assert(reductions@.take(0) =~= Seq::<(usize, Operation)>::empty());
    while i < reductions.len()
        invariant
            i <= reductions.len(),
            out@ == reduce_order_upto(reductions@, i as int),
            descending(out@),
            out@.to_multiset() == reductions@.take(i as int).to_multiset(),
            out@.len() == i,
        decreases reductions.len() - i,
    {
        let entry: (usize, Operation) = reductions[i];
        let mut p: usize = 0;
        while p < out.len() && out[p].0 > entry.0
            invariant
                p <= out.len(),
                forall|k: int| 0 <= k < p ==> (#[trigger] out@[k]).0 > entry.0,
                first_not_above(out@, entry.0, 0) == first_not_above(out@, entry.0, p as int),
            decreases out.len() - p,
        {
            p = p + 1;
        }
        let ghost before = out@;
        out.insert(p, entry);
        proof {
            assert forall|a: int, b: int| 0 <= a < b < out@.len() implies (#[trigger] out@[a]).0 >= (
            #[trigger] out@[b]).0 by {
                if a < p && b > p {
                    assert(out@[a] == before[a]);
                    assert(out@[b] == before[b - 1]);
                    if p < before.len() {
                        assert(before[p as int].0 >= before[b - 1].0 || b - 1 == p);
                    }
                } else if a < p && b == p {
                    assert(out@[a] == before[a]);
                } else if a < p && b < p {
                    assert(out@[a] == before[a] && out@[b] == before[b]);
                } else if a == p {
                    assert(out@[b] == before[b - 1]);
                    assert(before[p as int].0 >= before[b - 1].0 || b - 1 == p);
                } else {
                    assert(out@[a] == before[a - 1] && out@[b] == before[b - 1]);
                }
            }
            to_multiset_insert(before, p as int, entry);
            assert(reductions@.take(i + 1) =~= reductions@.take(i as int).push(entry));
            to_multiset_build(reductions@.take(i as int), entry);
        }
        i = i + 1;
    }
    assert(reductions@.take(i as int) =~= reductions@);
    out
}

/// How often each of `naxes` axes is repeated after the first `n` entries of
/// `pos2len`: once, unless an entry names the axis; then as often as the last
/// such entry says.
pub open spec fn counts_upto(naxes: nat, pos2len: Seq<(usize, usize)>, n: int) -> Seq<usize>
    decreases n,
{
    if n <= 0 {
        Seq::new(naxes, |i: int| 1usize)
    } else {
        counts_upto(naxes, pos2len, n - 1).update(pos2len[n - 1].0 as int, pos2len[n - 1].1)
    }
}

/// Whether every entry names one of `naxes` axes.
pub open spec fn positions_inside(naxes: nat, pos2len: Seq<(usize, usize)>) -> bool {
    forall|k: int| 0 <= k < pos2len.len() ==> (#[trigger] pos2len[k]).0 < naxes
}

/// Says how often an array of `naxes` axes is repeated along each axis, where
/// `pos2len` gives the axes that were inserted with length 1 and the length
/// that each is to get.
///
/// Returns one count for each axis: 1 for an axis that no entry names, and
/// else the length of the last entry that names it. Returns `None` where an
/// entry names an axis that the array does not have.
pub fn repeat_counts(naxes: usize, pos2len: &Vec<(usize, usize)>) -> (r: Option<Vec<usize>>)
    ensures
        r is Some <==> positions_inside(naxes as nat, pos2len@),
        r matches Some(counts) ==> counts@ == counts_upto(naxes as nat, pos2len@, pos2len@.len() as int)
            && counts@.len() == naxes,
{
    let mut counts: Vec<usize> = Vec::new();
    let mut i: usize = 0;
    while i < naxes
        invariant
            i <= naxes,
            counts@.len() == i,
            forall|k: int| 0 <= k < i ==> counts@[k] == 1,
        decreases naxes - i,
    {
        counts.push(1);
        i = i + 1;
    }
    assert(counts@ =~= counts_upto(naxes as nat, pos2len@, 0));
    let mut k: usize = 0;
    while k < pos2len.len()
        invariant
            k <= pos2len.len(),
            counts@.len() == naxes,
            counts@ == counts_upto(naxes as nat, pos2len@, k as int),
            forall|j: int| 0 <= j < k ==> (#[trigger] pos2len@[j]).0 < naxes,
        decreases pos2len.len() - k,
    {
        let (axis, len) = pos2len[k];
        if axis >= naxes {
            assert(!((pos2len@[k as int]).0 < naxes));
            return None;
        }
        counts.set(axis, len);
        k = k + 1;
    }
    Some(counts)
}

} // verus!
