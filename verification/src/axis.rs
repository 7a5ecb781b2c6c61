//! Axes as the two sides of a pattern describe them.

use crate::index::Index;
use crate::operation::Operation;
use vstd::prelude::*;

verus! {

/// One axis of the left side of a pattern.
///
/// `index` is the place, among the items of its input, of the input dimension
/// that the axis is taken from: the members of a parenthesized group share it.
/// The ellipsis is a `Named` axis called `..` whose index is a `Range`.
#[derive(Clone, Debug, PartialEq, Eq)]
pub enum Decomposition {
    /// The one member of a group that has no declared size. `shape_calc` is
    /// the product of the declared sizes of the other members: the size of
    /// the axis is the input dimension divided by it.
    Derived { name: String, index: Index, operation: Option<Operation>, shape_calc: usize },
    /// An axis written with its name, with the size declared for it, if any,
    /// and the reduction that collapses it, if any.
    Named { name: String, index: Index, operation: Option<Operation>, shape: Option<usize> },
}

/// A left-side axis with its name as a sequence of characters.
pub enum Axis {
    Derived { name: Seq<char>, index: Index, operation: Option<Operation>, shape_calc: usize },
    Named { name: Seq<char>, index: Index, operation: Option<Operation>, shape: Option<usize> },
}

impl Axis {
    /// The name of the axis.
    pub open spec fn name(self) -> Seq<char> {
        match self {
            Axis::Derived { name, .. } => name,
            Axis::Named { name, .. } => name,
        }
    }

    /// The index of the axis.
    pub open spec fn index(self) -> Index {
        match self {
            Axis::Derived { index, .. } => index,
            Axis::Named { index, .. } => index,
        }
    }

    /// Whether a reduction removes the axis: it is written with its name and
    /// carries an operation.
    pub open spec fn is_reduced(self) -> bool {
        self matches Axis::Named { operation: Some(_), .. }
    }

    /// The size declared for the axis, if any.
    pub open spec fn declared(self) -> Option<usize> {
        match self {
            Axis::Derived { .. } => None,
            Axis::Named { shape, .. } => shape,
        }
    }
}

impl View for Decomposition {
    type V = Axis;

    open spec fn view(&self) -> Axis {
        match self {
            Decomposition::Derived { name, index, operation, shape_calc } => Axis::Derived {
                name: name@,
                index: *index,
                operation: *operation,
                shape_calc: *shape_calc,
            },
            Decomposition::Named { name, index, operation, shape } => Axis::Named {
                name: name@,
                index: *index,
                operation: *operation,
                shape: *shape,
            },
        }
    }
}

/// The views of a run of axes, in order.
pub open spec fn axis_views(axes: Seq<Decomposition>) -> Seq<Axis> {
    axes.map_values(|a: Decomposition| a@)
}

/// The name under which the ellipsis is recorded.
pub open spec fn ellipsis_name() -> Seq<char> {
    seq!['.', '.']
}

impl Decomposition {
    /// A copy of the axis.
    pub fn duplicate(&self) -> (r: Decomposition)
        ensures
            r@ == self@,
    {
        match self {
            Decomposition::Derived { name, index, operation, shape_calc } => Decomposition::Derived {
                name: name.clone(),
                index: *index,
                operation: *operation,
                shape_calc: *shape_calc,
            },
            Decomposition::Named { name, index, operation, shape } => Decomposition::Named {
                name: name.clone(),
                index: *index,
                operation: *operation,
                shape: *shape,
            },
        }
    }

    /// The index of the axis.
    pub fn index(&self) -> (r: Index)
        ensures
            r == self@.index(),
    {
        match self {
            Decomposition::Derived { index, .. } => *index,
            Decomposition::Named { index, .. } => *index,
        }
    }

    /// Whether a reduction removes the axis.
    pub fn is_reduced(&self) -> (r: bool)
        ensures
            r == self@.is_reduced(),
    {
        match self {
            Decomposition::Named { operation: Some(_), .. } => true,
            _ => false,
        }
    }

    /// The size declared for the axis, if any.
    pub fn declared(&self) -> (r: Option<usize>)
        ensures
            r == self@.declared(),
    {
        match self {
            Decomposition::Derived { .. } => None,
            Decomposition::Named { shape, .. } => *shape,
        }
    }

    /// The name of the axis.
    pub fn name(&self) -> (r: &String)
        ensures
            r@ == self@.name(),
    {
        match self {
            Decomposition::Derived { name, .. } => name,
            Decomposition::Named { name, .. } => name,
        }
    }
}

/// One axis of the output.
///
/// Positions count the members of the right side from the left, the members
/// of a group one by one.
#[derive(Clone, Copy, Debug, PartialEq, Eq)]
pub enum Composition {
    /// One member that stands alone.
    Individual(Index),
    /// A parenthesized group, merged into one axis: its first member, and its
    /// last member where it has more than one.
    Combined { from: Index, to: Option<Index> },
}

} // verus!
