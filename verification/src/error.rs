//! Why a pattern was rejected.

use vstd::prelude::*;
use vstd::string::StringExecFns;

verus! {

/// The family that an error belongs to.
#[derive(Clone, Copy, Debug, PartialEq, Eq, Structural)]
pub enum ErrorKind {
    /// The pattern is not written in the notation.
    Grammar,
    /// The pattern describes another number of inputs than were supplied.
    Arity,
    /// An axis name is used in a way that the pattern does not allow.
    Naming,
    /// The pattern does not fit the shapes of the inputs.
    Shape,
    /// The parts of the plan do not fit each other.
    Consistency,
}

/// The first violation found while compiling a pattern.
#[derive(Clone, Copy, Debug, PartialEq, Eq, Structural)]
pub enum PatternError {
    /// A character that starts no token, or a letter directly after a number.
    UnexpectedCharacter,
    /// A number, or a product of declared sizes, that does not fit the machine word.
    SizeOverflow,
    /// The pattern has no `->`.
    MissingArrow,
    /// The pattern has more than one `->`.
    RepeatedArrow,
    /// A token stands where the notation does not allow it.
    UnexpectedToken,
    /// An opening and a closing parenthesis do not pair up.
    UnbalancedGroup,
    /// A parenthesized group without members.
    EmptyGroup,
    /// An ellipsis inside a parenthesized group on the left.
    EllipsisInGroupNotAllowed,
    /// A bare number on the left, where it can name no axis.
    AnonymousSizeNotAllowed,
    /// The number of comma-separated groups on the left differs from the number of inputs.
    ArityMismatch,
    /// Two nameable axes on the left share a name.
    DuplicateAxisName,
    /// The right side names an axis that a reduction removed.
    ReferenceToReducedAxis,
    /// The right side introduces an axis without saying how long it is.
    UnresolvedAxisNeedsSize,
    /// More than one member of a group on the left has no declared size.
    AmbiguousDerivedSize,
    /// An input dimension is not a multiple of the declared sizes of its group.
    ShapeNotDivisible,
    /// An input dimension differs from the size declared for it.
    ShapeMismatch,
    /// An input has another number of dimensions than its group describes.
    RankMismatch,
    /// The ellipsis does not stand exactly once on each side, or on neither.
    EllipsisSideMismatch,
    /// The output description does not account for every remaining axis exactly once.
    PlanInconsistent,
}

impl PatternError {
    /// The family of the error.
    pub open spec fn spec_kind(self) -> ErrorKind {
        match self {
            PatternError::UnexpectedCharacter
            | PatternError::SizeOverflow
            | PatternError::MissingArrow
            | PatternError::RepeatedArrow
            | PatternError::UnexpectedToken
            | PatternError::UnbalancedGroup
            | PatternError::EmptyGroup
            | PatternError::EllipsisInGroupNotAllowed
            | PatternError::AnonymousSizeNotAllowed => ErrorKind::Grammar,
            PatternError::ArityMismatch => ErrorKind::Arity,
            PatternError::DuplicateAxisName
            | PatternError::ReferenceToReducedAxis
            | PatternError::UnresolvedAxisNeedsSize => ErrorKind::Naming,
            PatternError::AmbiguousDerivedSize
            | PatternError::ShapeNotDivisible
            | PatternError::ShapeMismatch
            | PatternError::RankMismatch
            | PatternError::EllipsisSideMismatch => ErrorKind::Shape,
            PatternError::PlanInconsistent => ErrorKind::Consistency,
        }
    }

    /// The family of the error.
    pub fn kind(&self) -> (r: ErrorKind)
        ensures
            r == self.spec_kind(),
    {
        match self {
            PatternError::UnexpectedCharacter
            | PatternError::SizeOverflow
            | PatternError::MissingArrow
            | PatternError::RepeatedArrow
            | PatternError::UnexpectedToken
            | PatternError::UnbalancedGroup
            | PatternError::EmptyGroup
            | PatternError::EllipsisInGroupNotAllowed
            | PatternError::AnonymousSizeNotAllowed => ErrorKind::Grammar,
            PatternError::ArityMismatch => ErrorKind::Arity,
            PatternError::DuplicateAxisName
            | PatternError::ReferenceToReducedAxis
            | PatternError::UnresolvedAxisNeedsSize => ErrorKind::Naming,
            PatternError::AmbiguousDerivedSize
            | PatternError::ShapeNotDivisible
            | PatternError::ShapeMismatch
            | PatternError::RankMismatch
            | PatternError::EllipsisSideMismatch => ErrorKind::Shape,
            PatternError::PlanInconsistent => ErrorKind::Consistency,
        }
    }

    /// The text shown to the user for the error.
    pub open spec fn spec_message(self) -> Seq<char> {
        match self {
            PatternError::UnexpectedCharacter => "unexpected character in the pattern"@,
            PatternError::SizeOverflow => "a size in the pattern is too large"@,
            PatternError::MissingArrow => "expected the pattern to contain ->"@,
            PatternError::RepeatedArrow => "expected the pattern to contain -> only once"@,
            PatternError::UnexpectedToken => "unexpected token in the pattern"@,
            PatternError::UnbalancedGroup => "unbalanced parentheses in the pattern"@,
            PatternError::EmptyGroup => "a parenthesized group has no members"@,
            PatternError::EllipsisInGroupNotAllowed => "'..' is not allowed inside parentheses on the left"@,
            PatternError::AnonymousSizeNotAllowed => "a bare number is not allowed on the left"@,
            PatternError::ArityMismatch => "the number of inputs differs from the number of groups on the left"@,
            PatternError::DuplicateAxisName => "names are not unique on the left"@,
            PatternError::ReferenceToReducedAxis => "the right side names a reduced axis"@,
            PatternError::UnresolvedAxisNeedsSize => "a new axis on the right needs a size"@,
            PatternError::AmbiguousDerivedSize => "more than one axis of a group has no size"@,
            PatternError::ShapeNotDivisible => "an input dimension is not divisible by the sizes of its group"@,
            PatternError::ShapeMismatch => "an input dimension differs from its declared size"@,
            PatternError::RankMismatch => "an input has another rank than its group describes"@,
            PatternError::EllipsisSideMismatch => "'..' should be on both sides of the pattern"@,
            PatternError::PlanInconsistent => "the right side does not use every remaining axis exactly once"@,
        }
    }

    /// The text shown to the user for the error.
    pub fn message(&self) -> (r: String)
        ensures
            r@ == self.spec_message(),
    {
        match self {
            PatternError::UnexpectedCharacter => String::from_str("unexpected character in the pattern"),
            PatternError::SizeOverflow => String::from_str("a size in the pattern is too large"),
            PatternError::MissingArrow => String::from_str("expected the pattern to contain ->"),
            PatternError::RepeatedArrow => String::from_str("expected the pattern to contain -> only once"),
            PatternError::UnexpectedToken => String::from_str("unexpected token in the pattern"),
            PatternError::UnbalancedGroup => String::from_str("unbalanced parentheses in the pattern"),
            PatternError::EmptyGroup => String::from_str("a parenthesized group has no members"),
            PatternError::EllipsisInGroupNotAllowed => String::from_str("'..' is not allowed inside parentheses on the left"),
            PatternError::AnonymousSizeNotAllowed => String::from_str("a bare number is not allowed on the left"),
            PatternError::ArityMismatch => String::from_str("the number of inputs differs from the number of groups on the left"),
            PatternError::DuplicateAxisName => String::from_str("names are not unique on the left"),
            PatternError::ReferenceToReducedAxis => String::from_str("the right side names a reduced axis"),
            PatternError::UnresolvedAxisNeedsSize => String::from_str("a new axis on the right needs a size"),
            PatternError::AmbiguousDerivedSize => String::from_str("more than one axis of a group has no size"),
            PatternError::ShapeNotDivisible => String::from_str("an input dimension is not divisible by the sizes of its group"),
            PatternError::ShapeMismatch => String::from_str("an input dimension differs from its declared size"),
            PatternError::RankMismatch => String::from_str("an input has another rank than its group describes"),
            PatternError::EllipsisSideMismatch => String::from_str("'..' should be on both sides of the pattern"),
            PatternError::PlanInconsistent => String::from_str("the right side does not use every remaining axis exactly once"),
        }
    }
}

} // verus!
