//! The reductions that the left side of a pattern asks for.

use crate::axis::axis_views;
use crate::axis::Axis;
use crate::axis::Decomposition;
use crate::index::Index;
use crate::operation::Operation;
use vstd::prelude::*;

verus! {

/// The reduction that the axis in place `i` asks for: the axis is written
/// with its name, carries an operation, and is not the ellipsis. Its position
/// is `i`, with the provenance of the axis.
pub open spec fn reduction_at(axes: Seq<Axis>, i: int) -> Option<(Index, Operation)>
    recommends
        0 <= i < axes.len(),
{
    match axes[i] {
        Axis::Named { index: Index::Known(_), operation: Some(operation), .. } => Some(
            (Index::Known(i as usize), operation),
        ),
        Axis::Named { index: Index::Unknown(_), operation: Some(operation), .. } => Some(
            (Index::Unknown(i as usize), operation),
        ),
        _ => None,
    }
}

/// The reductions of the first `n` axes, in the order of the axes.
pub open spec fn reductions_upto(axes: Seq<Axis>, n: int) -> Seq<(Index, Operation)>
    decreases n,
{
    if n <= 0 {
        Seq::empty()
    } else {
        match reduction_at(axes, n - 1) {
            Some(entry) => reductions_upto(axes, n - 1).push(entry),
            None => reductions_upto(axes, n - 1),
        }
    }
}

/// The reductions of all the axes, in the order of the axes.
pub open spec fn spec_parse_reduce(axes: Seq<Axis>) -> Seq<(Index, Operation)> {
    reductions_upto(axes, axes.len() as int)
}

/// Every reduction found among the first `n` axes belongs to one of them, and
/// the reductions stand in ascending order of position.
pub proof fn lemma_reductions_upto(axes: Seq<Axis>, n: int)
    requires
        0 <= n <= axes.len() <= usize::MAX,
    ensures
        reductions_upto(axes, n).len() <= n,
        forall|k: int|
            0 <= k < reductions_upto(axes, n).len() ==> {
                let entry = #[trigger] reductions_upto(axes, n)[k];
                &&& 0 <= entry.0.position() < n
                &&& reduction_at(axes, entry.0.position() as int) == Some(entry)
            },
        forall|j: int, k: int|
            0 <= j < k < reductions_upto(axes, n).len() ==> (#[trigger] reductions_upto(
                axes,
                n,
            )[j]).0.position() < (#[trigger] reductions_upto(axes, n)[k]).0.position(),
    decreases n,
{
    if n > 0 {
        lemma_reductions_upto(axes, n - 1);
    }
}

/// Collects the reductions of a decomposition.
///
/// Returns, in the order of the axes, one entry for every axis that is
/// written with its name, carries an operation and has a `Known` or `Unknown`
/// index: the place of the axis in `decomposition`, under the provenance of
/// its index, and the operation. The entries stand in ascending order of
/// position.
pub fn parse_reduce(decomposition: &Vec<Decomposition>) -> (r: Vec<(Index, Operation)>)
    ensures
        r@ == spec_parse_reduce(axis_views(decomposition@)),
        r@.len() <= decomposition@.len(),
        forall|k: int|
            0 <= k < r@.len() ==> {
                &&& 0 <= (#[trigger] r@[k]).0.position() < decomposition@.len()
                &&& reduction_at(axis_views(decomposition@), r@[k].0.position() as int) == Some(
                    r@[k],
                )
            },
        forall|j: int, k: int|
            0 <= j < k < r@.len() ==> (#[trigger] r@[j]).0.position() < (#[trigger] r@[k]).0.position(),
{
    let ghost axes = axis_views(decomposition@);
    let mut out: Vec<(Index, Operation)> = Vec::new();
    let mut i: usize = 0;
    while i < decomposition.len()
        invariant
            axes == axis_views(decomposition@),
            i <= decomposition.len(),
            out@ == reductions_upto(axes, i as int),
        decreases decomposition.len() - i,
    {
        match &decomposition[i] {
            Decomposition::Named { index: Index::Known(_), operation: Some(operation), .. } => {
                out.push((Index::Known(i), *operation));
            },
            Decomposition::Named { index: Index::Unknown(_), operation: Some(operation), .. } => {
                out.push((Index::Unknown(i), *operation));
            },
            _ => {},
        }
        i = i + 1;
    }
    proof {
        lemma_reductions_upto(axes, axes.len() as int);
    }
    out
}

} // verus!
