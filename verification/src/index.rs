//! Positions of axes, tagged by how they were counted.

use std::cmp::Ordering;
use vstd::prelude::*;
use vstd::std_specs::cmp::PartialEqSpecImpl;
use vstd::std_specs::cmp::PartialOrdSpecImpl;

verus! {

/// The position of an axis, tagged by provenance.
///
/// `Known` positions were counted before any ellipsis was seen, `Unknown`
/// positions were counted after one, and `Range` is the slot of the ellipsis
/// itself. Equality and ordering look at the number only.
#[derive(Clone, Copy, Debug, Eq)]
pub enum Index {
    Known(usize),
    Unknown(usize),
    Range(usize),
}

impl Index {
    /// The number carried by the index, whatever its provenance.
    pub open spec fn position(self) -> usize {
        match self {
            Index::Known(i) => i,
            Index::Unknown(i) => i,
            Index::Range(i) => i,
        }
    }

    /// How two indices are ordered: by position alone.
    pub open spec fn ordering(self, other: Index) -> Ordering {
        if self.position() < other.position() {
            Ordering::Less
        } else if self.position() == other.position() {
            Ordering::Equal
        } else {
            Ordering::Greater
        }
    }

    /// The number carried by the index, whatever its provenance.
    pub fn value(&self) -> (r: usize)
        ensures
            r == self.position(),
    {
        match self {
            Index::Known(i) => *i,
            Index::Unknown(i) => *i,
            Index::Range(i) => *i,
        }
    }

    /// The same provenance with another position.
    pub fn with_position(&self, position: usize) -> (r: Index)
        ensures
            r == self.spec_with_position(position),
    {
        match self {
            Index::Known(_) => Index::Known(position),
            Index::Unknown(_) => Index::Unknown(position),
            Index::Range(_) => Index::Range(position),
        }
    }

    /// The same provenance with another position.
    pub open spec fn spec_with_position(self, position: usize) -> Index {
        match self {
            Index::Known(_) => Index::Known(position),
            Index::Unknown(_) => Index::Unknown(position),
            Index::Range(_) => Index::Range(position),
        }
    }

    /// Orders two indices by position, ignoring provenance.
    pub fn cmp(&self, other: &Index) -> (r: Ordering)
        ensures
            r == self.ordering(*other),
    {
        let a: usize = self.value();
        let b: usize = other.value();
        if a < b {
            Ordering::Less
        } else if a == b {
            Ordering::Equal
        } else {
            Ordering::Greater
        }
    }
}

impl PartialEq for Index {
    fn eq(&self, other: &Self) -> (r: bool) {
        self.value() == other.value()
    }
}

impl PartialEqSpecImpl for Index {
    open spec fn obeys_eq_spec() -> bool {
        true
    }

    open spec fn eq_spec(&self, other: &Self) -> bool {
        self.position() == other.position()
    }
}

impl PartialOrd for Index {
    fn partial_cmp(&self, other: &Self) -> (r: Option<Ordering>) {
        Some(self.cmp(other))
    }
}

impl PartialOrdSpecImpl for Index {
    open spec fn obeys_partial_cmp_spec() -> bool {
        true
    }

    open spec fn partial_cmp_spec(&self, other: &Self) -> Option<Ordering> {
        Some(self.ordering(*other))
    }
}

} // verus!
