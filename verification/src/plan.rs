//! The plan: the operations that realize a pattern on inputs of given shapes.
//!
//! The operations of a plan are applied in this order: each input is reshaped
//! to the sizes of its axes; the inputs are taken together, their axes in one
//! row; the reductions are applied, the highest axis first; the remaining axes
//! are permuted; the new axes are inserted, the lowest first; the groups of
//! the output are merged, the highest first.

use crate::axis::Composition;
use crate::error::PatternError;
use crate::index::Index;
use crate::layout::list_views;
use crate::layout::Layout;
use crate::layout::LayoutState;
use crate::operation::Operation;
use vstd::prelude::*;

verus! {

/// The sum of the first `n` widths.
pub open spec fn prefix_sum(widths: Seq<usize>, n: int) -> int
    decreases n,
{
    if n <= 0 {
        0
    } else {
        prefix_sum(widths, n - 1) + widths[n - 1]
    }
}

/// The sum of widths grows with their number.
pub proof fn lemma_prefix_sum_monotone(widths: Seq<usize>, i: int, j: int)
    requires
        0 <= i <= j,
    ensures
        0 <= prefix_sum(widths, i) <= prefix_sum(widths, j),
    decreases j,
{
    if i < j {
        lemma_prefix_sum_monotone(widths, i, j - 1);
    } else if i > 0 {
        lemma_prefix_sum_monotone(widths, i - 1, i - 1);
    }
}

/// Whether the positions name each of the `n` entries of the name table
/// exactly once.
pub open spec fn is_arrangement(permute: Seq<Index>, n: int) -> bool {
    &&& permute.len() == n
    &&& forall|i: int| 0 <= i < permute.len() ==> (#[trigger] permute[i]).position() < n
    &&& forall|i: int, j: int|
        0 <= i < j < permute.len() ==> (#[trigger] permute[i]).position() != (
        #[trigger] permute[j]).position()
}

/// The numbers from `start` on, `len` of them.
pub open spec fn range_seq(start: int, len: nat) -> Seq<usize> {
    Seq::new(len, |k: int| (start + k) as usize)
}

/// The product of the sizes from `a` up to `b`, taken from the left; `None`
/// once it no longer fits `usize`.
pub open spec fn range_product(sizes: Seq<usize>, a: int, b: int) -> Option<usize>
    decreases b - a,
{
    if b <= a {
        Some(1)
    } else {
        match range_product(sizes, a, b - 1) {
            None => None,
            Some(product) => if product * sizes[b - 1] > usize::MAX {
                None
            } else {
                Some((product * sizes[b - 1]) as usize)
            },
        }
    }
}

/// The members of the right side, placed.
pub struct Placed {
    /// For each axis behind the permutation, the axis before it that it is.
    pub permutation: Seq<usize>,
    /// For each new axis, the place where it is inserted and its length.
    pub repeats: Seq<(usize, usize)>,
    /// The sizes of the axes once the new ones are inserted.
    pub sizes: Seq<usize>,
    /// For each member, the place of its first axis; at last, the number of axes.
    pub starts: Seq<usize>,
}

impl Placed {
    /// No member placed yet.
    pub open spec fn start() -> Placed {
        Placed { permutation: Seq::empty(), repeats: Seq::empty(), sizes: Seq::empty(), starts: Seq::empty() }
    }

    /// One more member: a new axis of the given length.
    pub open spec fn add_repeat(self, size: usize) -> Placed {
        Placed {
            permutation: self.permutation,
            repeats: self.repeats.push((self.sizes.len() as usize, size)),
            sizes: self.sizes.push(size),
            starts: self.starts.push(self.sizes.len() as usize),
        }
    }

    /// One more member: the `width` axes from `start` on of those that remain
    /// after the reductions, whose sizes are `kept`.
    pub open spec fn add_source(self, start: int, width: nat, kept: Seq<usize>) -> Placed {
        Placed {
            permutation: self.permutation + range_seq(start, width),
            repeats: self.repeats,
            sizes: self.sizes + kept.subrange(start, start + width),
            starts: self.starts.push(self.sizes.len() as usize),
        }
    }

    /// All members placed.
    pub open spec fn close(self) -> Placed {
        Placed {
            permutation: self.permutation,
            repeats: self.repeats,
            sizes: self.sizes,
            starts: self.starts.push(self.sizes.len() as usize),
        }
    }
}

/// The members of the right side from the one on that follows `pi` members
/// that name an axis and `ri` new ones.
///
/// The member in place `pi + ri` is new if the next entry of `repeat` has
/// that position, and else stands for the next entry of `permute`. An entry
/// of `repeat` whose position never comes makes the lists inconsistent.
pub open spec fn place_from(
    permute: Seq<Index>,
    repeat: Seq<(Index, usize)>,
    widths: Seq<usize>,
    kept: Seq<usize>,
    pi: int,
    ri: int,
    acc: Placed,
) -> Result<Placed, PatternError>
    decreases (permute.len() - pi) + (repeat.len() - ri),
{
    if pi < 0 || ri < 0 || pi > permute.len() || ri > repeat.len() || (pi == permute.len() && ri
        == repeat.len()) {
        Ok(acc.close())
    } else if ri < repeat.len() && repeat[ri].0.position() == pi + ri {
        place_from(permute, repeat, widths, kept, pi, ri + 1, acc.add_repeat(repeat[ri].1))
    } else if pi < permute.len() {
        place_from(
            permute,
            repeat,
            widths,
            kept,
            pi + 1,
            ri,
            acc.add_source(
                prefix_sum(widths, permute[pi].position() as int),
                widths[permute[pi].position() as int] as nat,
                kept,
            ),
        )
    } else {
        Err(PatternError::PlanInconsistent)
    }
}

/// The first and the last member of an axis of the output.
pub open spec fn composition_ends(c: Composition) -> (usize, usize) {
    match c {
        Composition::Individual(index) => (index.position(), index.position()),
        Composition::Combined { from, to: None } => (from.position(), from.position()),
        Composition::Combined { from, to: Some(to) } => (from.position(), to.position()),
    }
}

/// The output, merged.
pub struct Merged {
    /// For each group, the place of its first axis and the number of its axes.
    pub merges: Seq<(usize, usize)>,
    /// The sizes of the axes of the output.
    pub shape: Seq<usize>,
}

/// The output from its axis `k` on, which must begin with member `expected`.
///
/// The axes of the output must take the members in order, each member once.
/// A member that stands alone keeps its axes; a group becomes one axis, whose
/// size is the product of the sizes of its axes.
pub open spec fn merge_from(
    composition: Seq<Composition>,
    starts: Seq<usize>,
    sizes: Seq<usize>,
    k: int,
    expected: int,
    acc: Merged,
) -> Result<Merged, PatternError>
    decreases composition.len() - k,
{
    if k < 0 || k >= composition.len() {
        if expected == starts.len() - 1 {
            Ok(acc)
        } else {
            Err(PatternError::PlanInconsistent)
        }
    } else {
        let (lo, hi) = composition_ends(composition[k]);
        if lo != expected || hi < lo || hi >= starts.len() - 1 {
            Err(PatternError::PlanInconsistent)
        } else {
            let a = starts[lo as int] as int;
            let b = starts[hi + 1] as int;
            match composition[k] {
                Composition::Individual(_) => merge_from(
                    composition,
                    starts,
                    sizes,
                    k + 1,
                    hi + 1,
                    Merged { merges: acc.merges, shape: acc.shape + sizes.subrange(a, b) },
                ),
                Composition::Combined { .. } => match range_product(sizes, a, b) {
                    None => Err(PatternError::SizeOverflow),
                    Some(product) => merge_from(
                        composition,
                        starts,
                        sizes,
                        k + 1,
                        hi + 1,
                        Merged {
                            merges: acc.merges.push((a as usize, (b - a) as usize)),
                            shape: acc.shape.push(product),
                        },
                    ),
                },
            }
        }
    }
}

/// A plan as sequences.
pub struct PlanView {
    pub splits: Seq<Seq<usize>>,
    pub reductions: Seq<(usize, Operation)>,
    pub permutation: Seq<usize>,
    pub repeats: Seq<(usize, usize)>,
    pub merges: Seq<(usize, usize)>,
    pub shape: Seq<usize>,
}

/// The operations that realize a pattern.
#[derive(Clone, Debug, PartialEq, Eq)]
pub struct Plan {
    /// For each input, the sizes that it is reshaped to: one for each of its axes.
    pub splits: Vec<Vec<usize>>,
    /// The reductions: the axis, counted over the axes of all inputs, and the
    /// operation. They stand in descending order of axis.
    pub reductions: Vec<(usize, Operation)>,
    /// The permutation: for each axis behind it, the axis before it that it is.
    pub permutation: Vec<usize>,
    /// The new axes: the place where the axis is inserted, and its length.
    /// They stand in ascending order of place.
    pub repeats: Vec<(usize, usize)>,
    /// The merges: the first axis of the group and the number of its axes,
    /// counted before any merge. They stand in descending order of axis.
    pub merges: Vec<(usize, usize)>,
    /// The shape of the output.
    pub shape: Vec<usize>,
}

impl View for Plan {
    type V = PlanView;

    open spec fn view(&self) -> PlanView {
        PlanView {
            splits: list_views(self.splits@),
            reductions: self.reductions@,
            permutation: self.permutation@,
            repeats: self.repeats@,
            merges: self.merges@,
            shape: self.shape@,
        }
    }
}

/// The plan for inputs laid out as `layout` and a right side that stands for
/// the three lists.
///
/// Fails with `PlanInconsistent` where the right side does not name each
/// entry of the name table exactly once, where a new axis has a position that
/// no member has, or where the axes of the output do not take the members in
/// order; with `SizeOverflow` where the size of a merged axis does not fit
/// `usize`.
pub open spec fn spec_assemble(
    layout: LayoutState,
    composition: Seq<Composition>,
    permute: Seq<Index>,
    repeat: Seq<(Index, usize)>,
) -> Result<PlanView, PatternError> {
    let n = layout.slot_widths.len() as int;
    if prefix_sum(layout.slot_widths, n) != layout.kept.len() || !is_arrangement(permute, n) {
        Err(PatternError::PlanInconsistent)
    } else {
        match place_from(permute, repeat, layout.slot_widths, layout.kept, 0, 0, Placed::start()) {
            Err(e) => Err(e),
            Ok(placed) => match merge_from(
                composition,
                placed.starts,
                placed.sizes,
                0,
                0,
                Merged { merges: Seq::empty(), shape: Seq::empty() },
            ) {
                Err(e) => Err(e),
                Ok(merged) => Ok(
                    PlanView {
                        splits: layout.splits,
                        reductions: layout.reductions.reverse(),
                        permutation: placed.permutation,
                        repeats: placed.repeats,
                        merges: merged.merges.reverse(),
                        shape: merged.shape,
                    },
                ),
            },
        }
    }
}

/// The entries of a list in reverse order.
fn reversed<T: Copy>(v: &Vec<T>) -> (r: Vec<T>)
    ensures
        r@ == v@.reverse(),
{
    let mut r: Vec<T> = Vec::new();
    let mut i: usize = v.len();
    while i > 0
        invariant
            i <= v.len(),
            r@.len() == v.len() - i,
            forall|k: int| 0 <= k < r@.len() ==> r@[k] == v@[v.len() - 1 - k],
        decreases i,
    {
        i = i - 1;
        r.push(v[i]);
    }
    assert(r@ =~= v@.reverse());
    r
}

/// Says whether the positions name each of `n` entries exactly once.
pub fn check_arrangement(permute: &Vec<Index>, n: usize) -> (r: bool)
    ensures
        r == is_arrangement(permute@, n as int),
{
    if permute.len() != n {
        return false;
    }
    let mut seen: Vec<bool> = Vec::new();
    let mut k: usize = 0;
    while k < n
        invariant
            k <= n,
            seen@.len() == k,
            forall|v: int| 0 <= v < k ==> !seen@[v],
        decreases n - k,
    {
        seen.push(false);
        k = k + 1;
    }
    let mut i: usize = 0;
    while i < permute.len()
        invariant
            i <= permute.len(),
            permute.len() == n,
            seen@.len() == n,
            forall|j: int| 0 <= j < i ==> (#[trigger] permute@[j]).position() < n,
            forall|j: int, k: int|
                0 <= j < k < i ==> (#[trigger] permute@[j]).position() != (#[trigger] permute@[k]).position(),
            forall|v: int|
                0 <= v < n ==> (seen@[v] <==> exists|j: int|
                    0 <= j < i && (#[trigger] permute@[j]).position() == v),
        decreases permute.len() - i,
    {
        let p: usize = permute[i].value();
        if p >= n {
            assert(!(permute@[i as int].position() < n));
            return false;
        }
        if seen[p] {
            let ghost j = choose|j: int| 0 <= j < i && (#[trigger] permute@[j]).position() == p;
            assert(permute@[j].position() == permute@[i as int].position());
            return false;
        }
        let ghost before = seen@;
        seen.set(p, true);
        proof {
            assert forall|v: int| 0 <= v < n implies (seen@[v] <==> exists|j: int|
                0 <= j < i + 1 && (#[trigger] permute@[j]).position() == v) by {
                if v == p {
                    assert(permute@[i as int].position() == v);
                } else {
                    if before[v] {
                        let j = choose|j: int| 0 <= j < i && (#[trigger] permute@[j]).position() == v;
                        assert(0 <= j < i + 1 && permute@[j].position() == v);
                    }
                    if exists|j: int| 0 <= j < i + 1 && (#[trigger] permute@[j]).position() == v {
                        let j = choose|j: int| 0 <= j < i + 1 && (#[trigger] permute@[j]).position() == v;
                        assert(j != i);
                        assert(0 <= j < i && permute@[j].position() == v);
                    }
                }
            }
        }
        i = i + 1;
    }
    true
}

/// The place of the first axis of each entry of the name table, and behind
/// them the number of axes; `None` where that number is not `total`.
fn slot_starts(widths: &Vec<usize>, total: usize) -> (r: Option<Vec<usize>>)
    ensures
        r is Some <==> prefix_sum(widths@, widths@.len() as int) == total,
        r matches Some(starts) ==> {
            &&& starts@.len() == widths@.len() + 1
            &&& forall|q: int| 0 <= q <= widths@.len() ==> #[trigger] starts@[q] == prefix_sum(widths@, q)
        },
{
    let mut starts: Vec<usize> = Vec::new();
    let mut sum: usize = 0;
    let mut q: usize = 0;
    starts.push(0);
    while q < widths.len()
        invariant
            q <= widths.len(),
            starts@.len() == q + 1,
            sum == prefix_sum(widths@, q as int),
            forall|k: int| 0 <= k <= q ==> #[trigger] starts@[k] == prefix_sum(widths@, k),
        decreases widths.len() - q,
    {
        match sum.checked_add(widths[q]) {
            None => {
                proof {
                    lemma_prefix_sum_monotone(widths@, q + 1, widths@.len() as int);
                }
                return None;
            },
            Some(next) => {
                sum = next;
            },
        }
        starts.push(sum);
        q = q + 1;
    }
    if sum != total {
        return None;
    }
    Some(starts)
}

/// Whether the starts of the members are in order and inside the sizes.
pub open spec fn starts_in_order(starts: Seq<usize>, len: nat) -> bool {
    &&& forall|i: int| 0 <= i < starts.len() ==> #[trigger] starts[i] <= len
    &&& forall|i: int, j: int| 0 <= i <= j < starts.len() ==> #[trigger] starts[i] <= #[trigger] starts[j]
}

/// Places the members of the right side.
fn place_members(
    permute: &Vec<Index>,
    repeat: &Vec<(Index, usize)>,
    widths: &Vec<usize>,
    kept: &Vec<usize>,
    slots: &Vec<usize>,
) -> (r: Result<(Vec<usize>, Vec<(usize, usize)>, Vec<usize>, Vec<usize>), PatternError>)
    requires
        is_arrangement(permute@, widths@.len() as int),
        slots@.len() == widths@.len() + 1,
        forall|q: int| 0 <= q <= widths@.len() ==> #[trigger] slots@[q] == prefix_sum(widths@, q),
        prefix_sum(widths@, widths@.len() as int) == kept@.len(),
    ensures
        match r {
            Ok((permutation, repeats, sizes, starts)) => {
                &&& place_from(permute@, repeat@, widths@, kept@, 0, 0, Placed::start()) == Ok::<
                    _,
                    PatternError,
                >(Placed { permutation: permutation@, repeats: repeats@, sizes: sizes@, starts: starts@ })
                &&& starts@.len() > 0
                &&& starts_in_order(starts@, sizes@.len())
            },
            Err(e) => place_from(permute@, repeat@, widths@, kept@, 0, 0, Placed::start()) == Err::<
                Placed,
                _,
            >(e),
        },
{
    let mut permutation: Vec<usize> = Vec::new();
    let mut repeats: Vec<(usize, usize)> = Vec::new();
    let mut sizes: Vec<usize> = Vec::new();
    let mut starts: Vec<usize> = Vec::new();
    let mut pi: usize = 0;
    let mut ri: usize = 0;
    while pi < permute.len() || ri < repeat.len()
        invariant
            pi <= permute.len(),
            ri <= repeat.len(),
            is_arrangement(permute@, widths@.len() as int),
            slots@.len() == widths@.len() + 1,
            forall|q: int| 0 <= q <= widths@.len() ==> #[trigger] slots@[q] == prefix_sum(widths@, q),
            prefix_sum(widths@, widths@.len() as int) == kept@.len(),
            starts_in_order(starts@, sizes@.len()),
            place_from(permute@, repeat@, widths@, kept@, 0, 0, Placed::start()) == place_from(
                permute@,
                repeat@,
                widths@,
                kept@,
                pi as int,
                ri as int,
                Placed { permutation: permutation@, repeats: repeats@, sizes: sizes@, starts: starts@ },
            ),
        decreases (permute.len() - pi) + (repeat.len() - ri),
    {
        let is_new: bool = ri < repeat.len() && repeat[ri].0.value() >= ri && repeat[ri].0.value() - ri
            == pi;
        if is_new {
            let size: usize = repeat[ri].1;
            repeats.push((sizes.len(), size));
            starts.push(sizes.len());
            sizes.push(size);
            ri = ri + 1;
        } else if pi < permute.len() {
            let q: usize = permute[pi].value();
            assert(permute@[pi as int].position() < widths@.len());
            let from: usize = slots[q];
            let to: usize = slots[q + 1];
            proof {
                lemma_prefix_sum_monotone(widths@, q + 1, widths@.len() as int);
                assert(slots@[q as int] == prefix_sum(widths@, q as int));
                assert(slots@[q + 1] == prefix_sum(widths@, q + 1));
                assert(to - from == widths@[q as int]);
            }
            let ghost old_permutation = permutation@;
            let ghost old_sizes = sizes@;
            starts.push(sizes.len());
            let mut y: usize = from;
            assert(range_seq(from as int, 0) =~= Seq::<usize>::empty());
            assert(kept@.subrange(from as int, from as int) =~= Seq::<usize>::empty());
            assert(permutation@ =~= old_permutation + range_seq(from as int, 0));
            assert(sizes@ =~= old_sizes + kept@.subrange(from as int, from as int));
            while y < to
                invariant
                    from <= y <= to <= kept@.len(),
                    permutation@ == old_permutation + range_seq(from as int, (y - from) as nat),
                    sizes@ == old_sizes + kept@.subrange(from as int, y as int),
                    starts_in_order(starts@, old_sizes.len()),
                decreases to - y,
            {
                proof {
                    assert(range_seq(from as int, (y + 1 - from) as nat) =~= range_seq(
                        from as int,
                        (y - from) as nat,
                    ).push(y));
                    assert(kept@.subrange(from as int, y + 1) =~= kept@.subrange(from as int, y as int).push(
                        kept@[y as int],
                    ));
                }
                permutation.push(y);
                sizes.push(kept[y]);
                y = y + 1;
                assert(permutation@ =~= old_permutation + range_seq(from as int, (y - from) as nat));
                assert(sizes@ =~= old_sizes + kept@.subrange(from as int, y as int));
            }
            pi = pi + 1;
        } else {
            return Err(PatternError::PlanInconsistent);
        }
    }
    starts.push(sizes.len());
    Ok((permutation, repeats, sizes, starts))
}

/// The first and the last member of an axis of the output.
fn ends_of(c: &Composition) -> (r: (usize, usize))
    ensures
        r == composition_ends(*c),
{
    match c {
        Composition::Individual(index) => (index.value(), index.value()),
        Composition::Combined { from, to: None } => (from.value(), from.value()),
        Composition::Combined { from, to: Some(to) } => (from.value(), to.value()),
    }
}

/// Merges the groups of the output.
fn merge_groups(composition: &Vec<Composition>, starts: &Vec<usize>, sizes: &Vec<usize>) -> (r: Result<
    (Vec<(usize, usize)>, Vec<usize>),
    PatternError,
>)
    requires
        starts@.len() > 0,
        starts_in_order(starts@, sizes@.len()),
    ensures
        match r {
            Ok((merges, shape)) => merge_from(
                composition@,
                starts@,
                sizes@,
                0,
                0,
                Merged { merges: Seq::empty(), shape: Seq::empty() },
            ) == Ok::<_, PatternError>(Merged { merges: merges@, shape: shape@ }),
            Err(e) => merge_from(
                composition@,
                starts@,
                sizes@,
                0,
                0,
                Merged { merges: Seq::empty(), shape: Seq::empty() },
            ) == Err::<Merged, _>(e),
        },
{
    let mut merges: Vec<(usize, usize)> = Vec::new();
    let mut shape: Vec<usize> = Vec::new();
    let members: usize = starts.len() - 1;
    let mut expected: usize = 0;
    let mut k: usize = 0;
    while k < composition.len()
        invariant
            k <= composition.len(),
            expected <= members,
            members == starts@.len() - 1,
            starts_in_order(starts@, sizes@.len()),
            merge_from(
                composition@,
                starts@,
                sizes@,
                0,
                0,
                Merged { merges: Seq::empty(), shape: Seq::empty() },
            ) == merge_from(
                composition@,
                starts@,
                sizes@,
                k as int,
                expected as int,
                Merged { merges: merges@, shape: shape@ },
            ),
        decreases composition.len() - k,
    {
        let (lo, hi) = ends_of(&composition[k]);
        if lo != expected || hi < lo || hi >= members {
            return Err(PatternError::PlanInconsistent);
        }
        let a: usize = starts[lo];
        let b: usize = starts[hi + 1];
        assert(starts@[lo as int] <= starts@[hi + 1]);
        assert(starts@[hi + 1] <= sizes@.len());
        let ghost old_shape = shape@;
        match &composition[k] {
            Composition::Individual(_) => {
                let mut y: usize = a;
                assert(shape@ =~= old_shape + sizes@.subrange(a as int, a as int));
                while y < b
                    invariant
                        a <= y <= b <= sizes@.len(),
                        shape@ == old_shape + sizes@.subrange(a as int, y as int),
                    decreases b - y,
                {
                    shape.push(sizes[y]);
                    y = y + 1;
                    assert(shape@ =~= old_shape + sizes@.subrange(a as int, y as int));
                }
            },
            Composition::Combined { .. } => {
                let mut product: Option<usize> = Some(1);
                let mut y: usize = a;
                while y < b
                    invariant
                        a <= y <= b <= sizes@.len(),
                        product == range_product(sizes@, a as int, y as int),
                    decreases b - y,
                {
                    product =
                    match product {
                        None => None,
                        Some(p) => p.checked_mul(sizes[y]),
                    };
                    y = y + 1;
                }
                match product {
                    None => {
                        return Err(PatternError::SizeOverflow);
                    },
                    Some(p) => {
                        merges.push((a, b - a));
                        shape.push(p);
                    },
                }
            },
        }
        expected = hi + 1;
        k = k + 1;
    }
    if expected != members {
        return Err(PatternError::PlanInconsistent);
    }
    Ok((merges, shape))
}

/// The outcome of assembling, as a view.
pub open spec fn plan_result(r: Result<Plan, PatternError>) -> Result<PlanView, PatternError> {
    match r {
        Ok(plan) => Ok(plan@),
        Err(e) => Err(e),
    }
}

/// Turns inputs that are laid out, and the three lists of the right side,
/// into a plan.
///
/// `permute` names entries of the name table of the left side; the member of
/// the right side in a place that an entry of `repeat` has is a new axis, each
/// other member stands, in order, for an entry of `permute`; `composition`
/// says which members are merged.
///
/// The plan reshapes each input to the sizes of its axes, reduces the reduced
/// axes from the highest down, permutes what remains so that the axes come in
/// the order of the right side (the ellipsis as all the axes that it stands
/// for), inserts the new axes from the lowest up, and merges each group into
/// one axis, from the highest down. `shape` is the shape of the output.
///
/// Fails with `PlanInconsistent` where `permute` does not name each entry of
/// the name table exactly once, where `layout` does not hold one size for
/// each axis of each entry, where an entry of `repeat` has a position that no
/// member has, or where `composition` does not take the members in order, each
/// once; with `SizeOverflow` where the size of a merged axis does not fit
/// `usize`.
pub fn assemble(
    layout: Layout,
    composition: &Vec<Composition>,
    permute: &Vec<Index>,
    repeat: &Vec<(Index, usize)>,
) -> (r: Result<Plan, PatternError>)
    ensures
        plan_result(r) == spec_assemble(layout@, composition@, permute@, repeat@),
{
    let slots: Vec<usize> = match slot_starts(&layout.slot_widths, layout.kept.len()) {
        None => {
            return Err(PatternError::PlanInconsistent);
        },
        Some(slots) => slots,
    };
    if !check_arrangement(permute, layout.slot_widths.len()) {
        return Err(PatternError::PlanInconsistent);
    }
    let (permutation, repeats, sizes, starts) = match place_members(
        permute,
        repeat,
        &layout.slot_widths,
        &layout.kept,
        &slots,
    ) {
        Err(e) => {
            return Err(e);
        },
        Ok(placed) => placed,
    };
    let (merges, shape) = match merge_groups(composition, &starts, &sizes) {
        Err(e) => {
            return Err(e);
        },
        Ok(merged) => merged,
    };
    let reductions = reversed(&layout.reductions);
    let merges = reversed(&merges);
    Ok(
        Plan {
            splits: layout.splits,
            reductions: reductions,
            permutation: permutation,
            repeats: repeats,
            merges: merges,
            shape: shape,
        },
    )
}

} // verus!
