//! The left side laid out against the shapes of the inputs.
//!
//! The axes of one input are read item by item. An item is the ellipsis, or
//! a run of neighbouring axes that share the position of their index: a
//! parenthesized group, or one axis that stands alone. An item takes one
//! dimension of the input; the ellipsis takes all the dimensions that the
//! other items leave over.

use crate::axis::axis_views;
use crate::axis::Axis;
use crate::axis::Decomposition;
use crate::error::PatternError;
use crate::index::Index;
use crate::operation::Operation;
use vstd::prelude::*;

verus! {

impl Axis {
    /// Whether the axis is the ellipsis: it is written as a name, its index is
    /// a `Range`, and it carries no operation.
    pub open spec fn is_ellipsis(self) -> bool {
        self matches Axis::Named { index: Index::Range(_), operation: None, .. }
    }

    /// The size of the axis, where `derived` is the size of an axis that
    /// declares none.
    pub open spec fn size_or(self, derived: usize) -> usize {
        match self.declared() {
            Some(size) => size,
            None => derived,
        }
    }
}

impl Decomposition {
    /// Whether the axis is the ellipsis.
    pub fn is_ellipsis(&self) -> (r: bool)
        ensures
            r == self@.is_ellipsis(),
    {
        match self {
            Decomposition::Named { index: Index::Range(_), operation: None, .. } => true,
            _ => false,
        }
    }
}

/// Whether two axes belong to one item: neither is the ellipsis, and their
/// indices have the same position.
pub open spec fn same_item(x: Axis, y: Axis) -> bool {
    !x.is_ellipsis() && !y.is_ellipsis() && x.index().position() == y.index().position()
}

/// The end of the item that starts at `a`, given that it reaches up to `b`.
pub open spec fn item_end_from(axes: Seq<Axis>, a: int, b: int) -> int
    decreases axes.len() - b,
{
    if 0 <= a < b < axes.len() && same_item(axes[a], axes[b]) {
        item_end_from(axes, a, b + 1)
    } else {
        b
    }
}

/// The place behind the item that starts at `a`.
pub open spec fn item_end(axes: Seq<Axis>, a: int) -> int {
    item_end_from(axes, a, a + 1)
}

/// An item ends behind its start and inside the axes.
pub proof fn lemma_item_end(axes: Seq<Axis>, a: int, b: int)
    requires
        0 <= a < b <= axes.len(),
    ensures
        b <= item_end_from(axes, a, b) <= axes.len(),
    decreases axes.len() - b,
{
    if b < axes.len() && same_item(axes[a], axes[b]) {
        lemma_item_end(axes, a, b + 1);
    }
}

/// The number of items from `a` on that are not the ellipsis.
pub open spec fn plain_items(axes: Seq<Axis>, a: int) -> nat
    decreases axes.len() - a,
{
    if a < 0 || a >= axes.len() {
        0
    } else if axes[a].is_ellipsis() {
        plain_items(axes, a + 1)
    } else {
        proof {
            lemma_item_end(axes, a, a + 1);
        }
        1 + plain_items(axes, item_end(axes, a))
    }
}

/// The number of ellipses from `a` on.
pub open spec fn ellipses(axes: Seq<Axis>, a: int) -> nat
    decreases axes.len() - a,
{
    if a < 0 || a >= axes.len() {
        0
    } else if axes[a].is_ellipsis() {
        1 + ellipses(axes, a + 1)
    } else {
        proof {
            lemma_item_end(axes, a, a + 1);
        }
        ellipses(axes, item_end(axes, a))
    }
}

/// The number of dimensions that the items from `a` on take, where an
/// ellipsis takes `width` of them.
pub open spec fn dims_needed(axes: Seq<Axis>, a: int, width: nat) -> nat
    decreases axes.len() - a,
{
    if a < 0 || a >= axes.len() {
        0
    } else if axes[a].is_ellipsis() {
        width + dims_needed(axes, a + 1, width)
    } else {
        proof {
            lemma_item_end(axes, a, a + 1);
        }
        1 + dims_needed(axes, item_end(axes, a), width)
    }
}

/// The items take one dimension each, and each ellipsis `width` more.
pub proof fn lemma_dims_needed(axes: Seq<Axis>, a: int, width: nat)
    ensures
        dims_needed(axes, a, width) == plain_items(axes, a) + ellipses(axes, a) * width,
    decreases axes.len() - a,
{
    if 0 <= a < axes.len() {
        if axes[a].is_ellipsis() {
            lemma_dims_needed(axes, a + 1, width);
            assert((1 + ellipses(axes, a + 1)) * width == width + ellipses(axes, a + 1) * width)
                by (nonlinear_arith);
        } else {
            lemma_item_end(axes, a, a + 1);
            lemma_dims_needed(axes, item_end(axes, a), width);
            assert(ellipses(axes, a) == ellipses(axes, item_end(axes, a)));
        }
    } else {
        assert(ellipses(axes, a) == 0);
        assert(ellipses(axes, a) * width == 0) by (nonlinear_arith)
            requires
                ellipses(axes, a) == 0,
        ;
    }
}

/// The product of the sizes declared by the axes from `a` up to `b`, taken
/// from the left; `None` once it no longer fits `usize`.
pub open spec fn checked_product(axes: Seq<Axis>, a: int, b: int) -> Option<usize>
    decreases b - a,
{
    if b <= a {
        Some(1)
    } else {
        match checked_product(axes, a, b - 1) {
            None => None,
            Some(product) => match axes[b - 1].declared() {
                None => Some(product),
                Some(size) => if product * size > usize::MAX {
                    None
                } else {
                    Some((product * size) as usize)
                },
            },
        }
    }
}

/// The number of axes from `a` up to `b` that declare no size.
pub open spec fn open_count(axes: Seq<Axis>, a: int, b: int) -> nat
    decreases b - a,
{
    if b <= a {
        0
    } else if axes[b - 1].declared() is None {
        open_count(axes, a, b - 1) + 1
    } else {
        open_count(axes, a, b - 1)
    }
}

/// The size of the axis of an item that declares none, for an input
/// dimension `dim` and the product of the declared sizes of the item.
///
/// Without such an axis the declared sizes must account for the dimension
/// themselves, and 1 is returned.
pub open spec fn spec_solve_derived(open: nat, product: Option<usize>, dim: usize) -> Result<
    usize,
    PatternError,
> {
    if open >= 2 {
        Err(PatternError::AmbiguousDerivedSize)
    } else {
        match product {
            None => Err(PatternError::SizeOverflow),
            Some(product) => {
                if open == 1 {
                    if product == 0 || dim % product != 0 {
                        Err(PatternError::ShapeNotDivisible)
                    } else {
                        Ok(dim / product)
                    }
                } else if product != dim {
                    Err(PatternError::ShapeMismatch)
                } else {
                    Ok(1)
                }
            },
        }
    }
}

/// The size of the axis without a declared size in the item from `a` up to
/// `b`, which takes the dimension `dim`.
pub open spec fn derived_size(axes: Seq<Axis>, a: int, b: int, dim: usize) -> Result<usize, PatternError> {
    spec_solve_derived(open_count(axes, a, b), checked_product(axes, a, b), dim)
}

/// The inputs laid out so far.
pub struct LayoutState {
    /// For each input that is done, the sizes of its axes.
    pub splits: Seq<Seq<usize>>,
    /// The sizes of the axes of the input that is being read.
    pub split: Seq<usize>,
    /// The sizes of the axes of all inputs, in order.
    pub all: Seq<usize>,
    /// For each axis that a reduction removes, its place in `all` and the operation.
    pub reductions: Seq<(usize, Operation)>,
    /// The sizes of the axes that no reduction removes.
    pub kept: Seq<usize>,
    /// For each entry of the name table, the number of axes that it stands for.
    pub slot_widths: Seq<usize>,
}

impl LayoutState {
    /// Nothing laid out yet.
    pub open spec fn start() -> LayoutState {
        LayoutState {
            splits: Seq::empty(),
            split: Seq::empty(),
            all: Seq::empty(),
            reductions: Seq::empty(),
            kept: Seq::empty(),
            slot_widths: Seq::empty(),
        }
    }

    /// The state with one more axis of the given size.
    pub open spec fn add_axis(self, axis: Axis, size: usize) -> LayoutState {
        LayoutState {
            splits: self.splits,
            split: self.split.push(size),
            all: self.all.push(size),
            reductions: match axis {
                Axis::Named { operation: Some(operation), .. } => self.reductions.push(
                    (self.all.len() as usize, operation),
                ),
                _ => self.reductions,
            },
            kept: if axis.is_reduced() {
                self.kept
            } else {
                self.kept.push(size)
            },
            slot_widths: if axis.is_reduced() {
                self.slot_widths
            } else {
                self.slot_widths.push(1)
            },
        }
    }

    /// The state with the axes from `a` up to `b`, where `derived` is the
    /// size of an axis that declares none.
    pub open spec fn add_item(self, axes: Seq<Axis>, a: int, b: int, derived: usize) -> LayoutState
        decreases b - a,
    {
        if b <= a {
            self
        } else {
            self.add_item(axes, a, b - 1, derived).add_axis(axes[b - 1], axes[b - 1].size_or(derived))
        }
    }

    /// The state with an ellipsis that stands for the dimensions `dims`.
    pub open spec fn add_ellipsis(self, dims: Seq<usize>) -> LayoutState {
        LayoutState {
            splits: self.splits,
            split: self.split + dims,
            all: self.all + dims,
            reductions: self.reductions,
            kept: self.kept + dims,
            slot_widths: self.slot_widths.push(dims.len() as usize),
        }
    }

    /// The state when the input that was being read is done.
    pub open spec fn close_input(self) -> LayoutState {
        LayoutState {
            splits: self.splits.push(self.split),
            split: Seq::empty(),
            all: self.all,
            reductions: self.reductions,
            kept: self.kept,
            slot_widths: self.slot_widths,
        }
    }
}

/// The state after the items from `a` on, which take the dimensions from `d`
/// on, the ellipsis `width` of them.
pub open spec fn layout_from(
    axes: Seq<Axis>,
    shape: Seq<usize>,
    width: nat,
    a: int,
    d: int,
    state: LayoutState,
) -> Result<LayoutState, PatternError>
    decreases axes.len() - a,
{
    if a < 0 || a >= axes.len() {
        Ok(state)
    } else if axes[a].is_ellipsis() {
        layout_from(axes, shape, width, a + 1, d + width, state.add_ellipsis(shape.subrange(d, d + width)))
    } else {
        proof {
            lemma_item_end(axes, a, a + 1);
        }
        match derived_size(axes, a, item_end(axes, a), shape[d]) {
            Err(e) => Err(e),
            Ok(derived) => layout_from(
                axes,
                shape,
                width,
                item_end(axes, a),
                d + 1,
                state.add_item(axes, a, item_end(axes, a), derived),
            ),
        }
    }
}

/// Whether an input with `rank` dimensions fits the axes: without an ellipsis
/// it has one dimension for each item, with one ellipsis at least one for
/// each other item. More than one ellipsis fits no input.
pub open spec fn rank_fits(axes: Seq<Axis>, rank: nat) -> bool {
    if ellipses(axes, 0) == 0 {
        rank == plain_items(axes, 0)
    } else {
        ellipses(axes, 0) == 1 && rank >= plain_items(axes, 0)
    }
}

/// The number of dimensions that the ellipsis of the axes stands for in an
/// input with `rank` dimensions.
pub open spec fn ellipsis_width(axes: Seq<Axis>, rank: nat) -> nat {
    if ellipses(axes, 0) == 1 && rank >= plain_items(axes, 0) {
        (rank - plain_items(axes, 0)) as nat
    } else {
        0
    }
}

/// The state after one more input with the given axes and shape.
///
/// Fails with `RankMismatch` where the shape does not fit the axes, and else
/// with the error of the first item from the left whose sizes do not fit its
/// dimension: `AmbiguousDerivedSize` where more than one of its axes declares
/// no size, `SizeOverflow` where the product of its declared sizes does not
/// fit `usize`, `ShapeNotDivisible` where one axis declares no size and the
/// dimension is no multiple of that product, `ShapeMismatch` where every axis
/// declares a size and the product differs from the dimension.
pub open spec fn spec_layout_input(axes: Seq<Axis>, shape: Seq<usize>, state: LayoutState) -> Result<
    LayoutState,
    PatternError,
> {
    if !rank_fits(axes, shape.len()) {
        Err(PatternError::RankMismatch)
    } else {
        match layout_from(axes, shape, ellipsis_width(axes, shape.len()), 0, 0, state) {
            Err(e) => Err(e),
            Ok(done) => Ok(done.close_input()),
        }
    }
}

/// The inputs while they are laid out.
pub struct Layout {
    /// For each input that is done, the sizes of its axes.
    pub splits: Vec<Vec<usize>>,
    /// The sizes of the axes of the input that is being read.
    pub split: Vec<usize>,
    /// The sizes of the axes of all inputs, in order.
    pub all: Vec<usize>,
    /// For each axis that a reduction removes, its place in `all` and the operation.
    pub reductions: Vec<(usize, Operation)>,
    /// The sizes of the axes that no reduction removes.
    pub kept: Vec<usize>,
    /// For each entry of the name table, the number of axes that it stands for.
    pub slot_widths: Vec<usize>,
}

/// The views of a run of lists, in order.
pub open spec fn list_views(lists: Seq<Vec<usize>>) -> Seq<Seq<usize>> {
    lists.map_values(|l: Vec<usize>| l@)
}

impl View for Layout {
    type V = LayoutState;

    open spec fn view(&self) -> LayoutState {
        LayoutState {
            splits: list_views(self.splits@),
            split: self.split@,
            all: self.all@,
            reductions: self.reductions@,
            kept: self.kept@,
            slot_widths: self.slot_widths@,
        }
    }
}

impl Layout {
    /// A layout without inputs.
    pub fn new() -> (r: Layout)
        ensures
            r@ == LayoutState::start(),
    {
        let r = Layout {
            splits: Vec::new(),
            split: Vec::new(),
            all: Vec::new(),
            reductions: Vec::new(),
            kept: Vec::new(),
            slot_widths: Vec::new(),
        };
        assert(list_views(r.splits@) =~= Seq::<Seq<usize>>::empty());
        r
    }

    /// Adds one axis of the given size.
    fn add_axis(&mut self, axis: &Decomposition, size: usize)
        ensures
            final(self)@ == old(self)@.add_axis(axis@, size),
    {
        match axis {
            Decomposition::Named { operation: Some(operation), .. } => {
                self.reductions.push((self.all.len(), *operation));
            },
            _ => {
                self.kept.push(size);
                self.slot_widths.push(1);
            },
        }
        self.split.push(size);
        self.all.push(size);
    }

    /// Adds an ellipsis that stands for the dimensions from `d` up to `d + width`.
    fn add_ellipsis(&mut self, shape: &Vec<usize>, d: usize, width: usize)
        requires
            d + width <= shape.len(),
        ensures
            final(self)@ == old(self)@.add_ellipsis(shape@.subrange(d as int, d + width)),
    {
        let mut j: usize = 0;
        assert(shape@.subrange(d as int, d + 0) =~= Seq::<usize>::empty());
        assert(self.split@ + Seq::<usize>::empty() =~= self.split@);
        assert(self.all@ + Seq::<usize>::empty() =~= self.all@);
        assert(self.kept@ + Seq::<usize>::empty() =~= self.kept@);
        while j < width
            invariant
                j <= width,
                d + width <= shape.len(),
                self.splits == old(self).splits,
                self.reductions == old(self).reductions,
                self.slot_widths == old(self).slot_widths,
                self.split@ == old(self).split@ + shape@.subrange(d as int, d + j),
                self.all@ == old(self).all@ + shape@.subrange(d as int, d + j),
                self.kept@ == old(self).kept@ + shape@.subrange(d as int, d + j),
            decreases width - j,
        {
            let size: usize = shape[d + j];
            proof {
                assert(shape@.subrange(d as int, d + j + 1) =~= shape@.subrange(d as int, d + j).push(
                    size,
                ));
            }
            self.split.push(size);
            self.all.push(size);
            self.kept.push(size);
            j = j + 1;
            assert(self.split@ =~= old(self).split@ + shape@.subrange(d as int, d + j));
            assert(self.all@ =~= old(self).all@ + shape@.subrange(d as int, d + j));
            assert(self.kept@ =~= old(self).kept@ + shape@.subrange(d as int, d + j));
        }
        self.slot_widths.push(width);
    }

    /// Ends the input that was being read.
    fn close_input(&mut self)
        ensures
            final(self)@ == old(self)@.close_input(),
    {
        let mut done: Vec<usize> = Vec::new();
        std::mem::swap(&mut done, &mut self.split);
        let ghost before = self.splits@;
        self.splits.push(done);
        assert(list_views(self.splits@) =~= list_views(before).push(done@));
    }
}

/// Finds the place behind the item that starts at `a`.
fn find_item_end(decomposition: &Vec<Decomposition>, a: usize) -> (b: usize)
    requires
        a < decomposition.len(),
    ensures
        b == item_end(axis_views(decomposition@), a as int),
        a < b <= decomposition.len(),
{
    let ghost axes = axis_views(decomposition@);
    let mut b: usize = a + 1;
    if decomposition[a].is_ellipsis() {
        return b;
    }
    let position: usize = decomposition[a].index().value();
    while b < decomposition.len() && !decomposition[b].is_ellipsis() && decomposition[b].index().value()
        == position
        invariant
            axes == axis_views(decomposition@),
            a < b <= decomposition.len(),
            !axes[a as int].is_ellipsis(),
            position == axes[a as int].index().position(),
            item_end(axes, a as int) == item_end_from(axes, a as int, b as int),
        decreases decomposition.len() - b,
    {
        b = b + 1;
    }
    b
}

/// Solves the size of the one axis of an item that declares none.
///
/// `open` is the number of axes of the item that declare no size, `product`
/// the product of the sizes that the others declare (`None` where it does not
/// fit `usize`), `dim` the input dimension that the item takes. With one
/// open axis its size is `dim / product`; with none, 1 is returned.
///
/// Fails with `AmbiguousDerivedSize` for more than one open axis, else
/// `SizeOverflow` for a product that does not fit, else `ShapeNotDivisible`
/// where one axis is open and `dim` is no multiple of the product (a product
/// of 0 has no multiples here), else `ShapeMismatch` where no axis is open
/// and the product differs from `dim`.
pub fn solve_derived(open: usize, product: Option<usize>, dim: usize) -> (r: Result<usize, PatternError>)
    ensures
        r == spec_solve_derived(open as nat, product, dim),
        r matches Ok(size) ==> product matches Some(p) && (if open == 1 {
            size * p == dim
        } else {
            p == dim
        }),
{
    if open >= 2 {
        return Err(PatternError::AmbiguousDerivedSize);
    }
    match product {
        None => Err(PatternError::SizeOverflow),
        Some(product) => {
            if open == 1 {
                if product == 0 || dim % product != 0 {
                    Err(PatternError::ShapeNotDivisible)
                } else {
                    assert((dim / product) * product == dim) by (nonlinear_arith)
                        requires
                            product > 0,
                            dim % product == 0,
                    ;
                    Ok(dim / product)
                }
            } else if product != dim {
                Err(PatternError::ShapeMismatch)
            } else {
                Ok(1)
            }
        },
    }
}

/// The size of the axis without a declared size in the item from `a` up to `b`.
fn item_derived_size(decomposition: &Vec<Decomposition>, a: usize, b: usize, dim: usize) -> (r: Result<
    usize,
    PatternError,
>)
    requires
        a <= b <= decomposition.len(),
    ensures
        r == derived_size(axis_views(decomposition@), a as int, b as int, dim),
{
    let ghost axes = axis_views(decomposition@);
    let mut open: usize = 0;
    let mut product: Option<usize> = Some(1);
    let mut k: usize = a;
    while k < b
        invariant
            axes == axis_views(decomposition@),
            a <= k <= b <= decomposition.len(),
            open == open_count(axes, a as int, k as int),
            open <= k - a,
            product == checked_product(axes, a as int, k as int),
        decreases b - k,
    {
        match decomposition[k].declared() {
            None => {
                open = open + 1;
            },
            Some(size) => {
                product =
                match product {
                    None => None,
                    Some(p) => p.checked_mul(size),
                };
            },
        }
        k = k + 1;
    }
    solve_derived(open, product, dim)
}

/// Lays out one more input.
///
/// `layout` gets, behind what it holds: the sizes of the axes of the input,
/// as one more entry of `splits` and at the end of `all`; for each axis that
/// a reduction removes, its place in `all` with the operation; for each other
/// axis its size, and the number of dimensions that it stands for (1, or for
/// the ellipsis as many as the input leaves over).
///
/// An axis that declares a size gets that size; the one axis of an item that
/// declares none gets the dimension of the item divided by the product of the
/// declared sizes.
///
/// Fails with `RankMismatch` where the input has not one dimension for each
/// item (with an ellipsis: at least one for each other item; with more than
/// one ellipsis always), and else with the error of the first item whose
/// sizes do not fit its dimension, as `solve_derived` reports it. After a
/// failure `layout` holds what was laid out before it.
pub fn lay_out_input(decomposition: &Vec<Decomposition>, shape: &Vec<usize>, layout: &mut Layout) -> (r:
    Result<(), PatternError>)
    ensures
        match r {
            Ok(()) => spec_layout_input(axis_views(decomposition@), shape@, old(layout)@) == Ok::<
                _,
                PatternError,
            >(final(layout)@),
            Err(e) => spec_layout_input(axis_views(decomposition@), shape@, old(layout)@) == Err::<
                LayoutState,
                _,
            >(e),
        },
{
    let ghost axes = axis_views(decomposition@);
    let mut plain: usize = 0;
    let mut dots: usize = 0;
    let mut a: usize = 0;
    while a < decomposition.len()
        invariant
            axes == axis_views(decomposition@),
            a <= decomposition.len(),
            plain + dots <= a,
            plain_items(axes, 0) == plain + plain_items(axes, a as int),
            ellipses(axes, 0) == dots + ellipses(axes, a as int),
        decreases decomposition.len() - a,
    {
        if decomposition[a].is_ellipsis() {
            dots = dots + 1;
            a = a + 1;
        } else {
            plain = plain + 1;
            a = find_item_end(decomposition, a);
        }
    }
    let rank: usize = shape.len();
    if dots == 0 {
        if rank != plain {
            return Err(PatternError::RankMismatch);
        }
    } else if dots != 1 || rank < plain {
        return Err(PatternError::RankMismatch);
    }
    let width: usize = if dots == 1 {
        rank - plain
    } else {
        0
    };
    proof {
        lemma_dims_needed(axes, 0, width as nat);
        assert(ellipses(axes, 0) * width == (if dots == 1 {
            width as int
        } else {
            0
        })) by (nonlinear_arith)
            requires
                ellipses(axes, 0) == dots,
                dots <= 1,
        ;
    }
    let mut a: usize = 0;
    let mut d: usize = 0;
    while a < decomposition.len()
        invariant
            axes == axis_views(decomposition@),
            a <= decomposition.len(),
            d + dims_needed(axes, a as int, width as nat) == shape.len(),
            layout_from(axes, shape@, width as nat, 0, 0, old(layout)@) == layout_from(
                axes,
                shape@,
                width as nat,
                a as int,
                d as int,
                layout@,
            ),
            rank_fits(axes, shape@.len()),
            width == ellipsis_width(axes, shape@.len()),
        decreases decomposition.len() - a,
    {
        if decomposition[a].is_ellipsis() {
            layout.add_ellipsis(shape, d, width);
            d = d + width;
            a = a + 1;
        } else {
            let b: usize = find_item_end(decomposition, a);
            let dim: usize = shape[d];
            match item_derived_size(decomposition, a, b, dim) {
                Err(e) => {
                    return Err(e);
                },
                Ok(derived) => {
                    let ghost before = layout@;
                    let mut k: usize = a;
                    while k < b
                        invariant
                            axes == axis_views(decomposition@),
                            a <= k <= b <= decomposition.len(),
                            layout@ == before.add_item(axes, a as int, k as int, derived),
                        decreases b - k,
                    {
                        let size: usize = match decomposition[k].declared() {
                            Some(size) => size,
                            None => derived,
                        };
                        layout.add_axis(&decomposition[k], size);
                        k = k + 1;
                    }
                    d = d + 1;
                    a = b;
                },
            }
        }
    }
    layout.close_input();
    Ok(())
}

} // verus!
