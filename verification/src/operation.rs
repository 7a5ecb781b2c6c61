//! The reductions that a pattern may ask for.

use vstd::prelude::*;

verus! {

/// The operation that collapses an axis marked with a reduction keyword.
#[derive(Clone, Copy, Debug, PartialEq, Eq, Structural)]
pub enum Operation {
    /// Keep the smallest element along the axis.
    Min,
    /// Keep the largest element along the axis.
    Max,
    /// Add the elements along the axis.
    Sum,
    /// Average the elements along the axis.
    Mean,
    /// Multiply the elements along the axis.
    Prod,
}

impl Operation {
    /// The keyword that selects this operation in a pattern.
    pub open spec fn keyword(self) -> Seq<char> {
        match self {
            Operation::Min => seq!['m', 'i', 'n'],
            Operation::Max => seq!['m', 'a', 'x'],
            Operation::Sum => seq!['s', 'u', 'm'],
            Operation::Mean => seq!['m', 'e', 'a', 'n'],
            Operation::Prod => seq!['p', 'r', 'o', 'd'],
        }
    }

    /// The operation that a word selects, if the word is a reduction keyword.
    pub open spec fn from_keyword(word: Seq<char>) -> Option<Operation> {
        if word == Operation::Min.keyword() {
            Some(Operation::Min)
        } else if word == Operation::Max.keyword() {
            Some(Operation::Max)
        } else if word == Operation::Sum.keyword() {
            Some(Operation::Sum)
        } else if word == Operation::Mean.keyword() {
            Some(Operation::Mean)
        } else if word == Operation::Prod.keyword() {
            Some(Operation::Prod)
        } else {
            None
        }
    }
}

} // verus!
