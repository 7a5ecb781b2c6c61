use candle_einops::ErrorKind;
use candle_einops::Index;
use candle_einops::PatternError;
use std::cmp::Ordering;

#[test]
fn indices_are_equal_by_position_alone() {
    assert!(Index::Known(3) == Index::Unknown(3));
    assert!(Index::Range(3) == Index::Known(3));
    assert!(Index::Known(3) != Index::Known(4));
}

#[test]
fn indices_are_ordered_by_position_alone() {
    assert_eq!(Index::Range(1).cmp(&Index::Known(2)), Ordering::Less);
    assert_eq!(Index::Unknown(2).cmp(&Index::Known(2)), Ordering::Equal);
    assert_eq!(Index::Known(3).cmp(&Index::Range(2)), Ordering::Greater);
    assert_eq!(Index::Unknown(0).partial_cmp(&Index::Known(1)), Some(Ordering::Less));
    assert!(Index::Range(1) < Index::Known(2));
    assert!(Index::Unknown(5) >= Index::Known(5));
}

#[test]
fn index_gives_its_parts() {
    assert_eq!(Index::Unknown(7).value(), 7);
    assert!(matches!(Index::Unknown(1).with_position(9), Index::Unknown(9)));
    assert!(matches!(Index::Range(1).with_position(2), Index::Range(2)));
}

#[test]
fn every_error_has_its_family_and_message() {
    let all = [
        (PatternError::UnexpectedCharacter, ErrorKind::Grammar, "unexpected character in the pattern"),
        (PatternError::SizeOverflow, ErrorKind::Grammar, "a size in the pattern is too large"),
        (PatternError::MissingArrow, ErrorKind::Grammar, "expected the pattern to contain ->"),
        (PatternError::RepeatedArrow, ErrorKind::Grammar, "expected the pattern to contain -> only once"),
        (PatternError::UnexpectedToken, ErrorKind::Grammar, "unexpected token in the pattern"),
        (PatternError::UnbalancedGroup, ErrorKind::Grammar, "unbalanced parentheses in the pattern"),
        (PatternError::EmptyGroup, ErrorKind::Grammar, "a parenthesized group has no members"),
        (
            PatternError::EllipsisInGroupNotAllowed,
            ErrorKind::Grammar,
            "'..' is not allowed inside parentheses on the left",
        ),
        (PatternError::AnonymousSizeNotAllowed, ErrorKind::Grammar, "a bare number is not allowed on the left"),
        (
            PatternError::ArityMismatch,
            ErrorKind::Arity,
            "the number of inputs differs from the number of groups on the left",
        ),
        (PatternError::DuplicateAxisName, ErrorKind::Naming, "names are not unique on the left"),
        (PatternError::ReferenceToReducedAxis, ErrorKind::Naming, "the right side names a reduced axis"),
        (PatternError::UnresolvedAxisNeedsSize, ErrorKind::Naming, "a new axis on the right needs a size"),
        (PatternError::AmbiguousDerivedSize, ErrorKind::Shape, "more than one axis of a group has no size"),
        (
            PatternError::ShapeNotDivisible,
            ErrorKind::Shape,
            "an input dimension is not divisible by the sizes of its group",
        ),
        (PatternError::ShapeMismatch, ErrorKind::Shape, "an input dimension differs from its declared size"),
        (PatternError::RankMismatch, ErrorKind::Shape, "an input has another rank than its group describes"),
        (PatternError::EllipsisSideMismatch, ErrorKind::Shape, "'..' should be on both sides of the pattern"),
        (
            PatternError::PlanInconsistent,
            ErrorKind::Consistency,
            "the right side does not use every remaining axis exactly once",
        ),
    ];
    for (error, kind, message) in all {
        assert_eq!(error.kind(), kind);
        assert_eq!(error.message(), message);
    }
}
