use candle_einops::left::parse_identifier;
use candle_einops::left::parse_left_parenthesized;
use candle_einops::left::parse_reduce_fn;
use candle_einops::left::parse_usize;
use candle_einops::left::peek_reduce_kw;
use candle_einops::parse_decomposition;
use candle_einops::parse_reduce;
use candle_einops::token::tokenize;
use candle_einops::Decomposition;
use candle_einops::Index;
use candle_einops::Operation;
use candle_einops::PatternError;

fn left(text: &str) -> Result<Vec<Decomposition>, PatternError> {
    parse_decomposition(&tokenize(text).unwrap())
}

fn same_axes(found: &Vec<Decomposition>, expected: &Vec<Decomposition>) -> bool {
    found.len() == expected.len()
        && found.iter().zip(expected.iter()).all(|(f, e)| match (f, e) {
            (
                Decomposition::Named { name: n1, index: i1, operation: o1, shape: s1 },
                Decomposition::Named { name: n2, index: i2, operation: o2, shape: s2 },
            ) => n1 == n2 && same_index(i1, i2) && o1 == o2 && s1 == s2,
            (
                Decomposition::Derived { name: n1, index: i1, operation: o1, shape_calc: s1 },
                Decomposition::Derived { name: n2, index: i2, operation: o2, shape_calc: s2 },
            ) => n1 == n2 && same_index(i1, i2) && o1 == o2 && s1 == s2,
            _ => false,
        })
}

fn same_index(a: &Index, b: &Index) -> bool {
    match (a, b) {
        (Index::Known(i), Index::Known(j)) => i == j,
        (Index::Unknown(i), Index::Unknown(j)) => i == j,
        (Index::Range(i), Index::Range(j)) => i == j,
        _ => false,
    }
}

fn named(name: &str, index: Index, operation: Option<Operation>, shape: Option<usize>) -> Decomposition {
    Decomposition::Named { name: name.to_string(), index, operation, shape }
}

#[test]
fn plain_names_are_numbered_from_zero() {
    let axes = left("a b c").unwrap();
    let expected = vec![
        named("a", Index::Known(0), None, None),
        named("b", Index::Known(1), None, None),
        named("c", Index::Known(2), None, None),
    ];
    assert!(same_axes(&axes, &expected));
}

#[test]
fn empty_left_side_has_no_axes() {
    assert!(left("").unwrap().is_empty());
}

#[test]
fn declared_sizes_and_reductions_are_recorded() {
    let axes = left("a:2 max(b) mean(c:4)").unwrap();
    let expected = vec![
        named("a", Index::Known(0), None, Some(2)),
        named("b", Index::Known(1), Some(Operation::Max), None),
        named("c", Index::Known(2), Some(Operation::Mean), Some(4)),
    ];
    assert!(same_axes(&axes, &expected));
}

#[test]
fn positions_behind_the_ellipsis_are_unknown() {
    let axes = left("a .. b (c:2 d)").unwrap();
    let expected = vec![
        named("a", Index::Known(0), None, None),
        named("..", Index::Range(1), None, None),
        named("b", Index::Unknown(2), None, None),
        named("c", Index::Unknown(3), None, Some(2)),
        Decomposition::Derived { name: "d".to_string(), index: Index::Unknown(3), operation: None, shape_calc: 2 },
    ];
    assert!(same_axes(&axes, &expected));
}

#[test]
fn group_members_share_the_index_and_keep_their_order() {
    let axes = left("(a:2 b c:3) d").unwrap();
    let expected = vec![
        named("a", Index::Known(0), None, Some(2)),
        Decomposition::Derived { name: "b".to_string(), index: Index::Known(0), operation: None, shape_calc: 6 },
        named("c", Index::Known(0), None, Some(3)),
        named("d", Index::Known(1), None, None),
    ];
    assert!(same_axes(&axes, &expected));
}

#[test]
fn derived_member_may_stand_first_or_last() {
    let first = left("(b a:2)").unwrap();
    assert!(same_axes(
        &first,
        &vec![
            Decomposition::Derived { name: "b".to_string(), index: Index::Known(0), operation: None, shape_calc: 2 },
            named("a", Index::Known(0), None, Some(2)),
        ]
    ));
    let alone = left("(b)").unwrap();
    assert!(same_axes(
        &alone,
        &vec![Decomposition::Derived { name: "b".to_string(), index: Index::Known(0), operation: None, shape_calc: 1 }]
    ));
}

#[test]
fn group_without_derived_member_holds_named_axes_only() {
    let axes = left("(a:2 sum(b:3))").unwrap();
    let expected = vec![
        named("a", Index::Known(0), None, Some(2)),
        named("b", Index::Known(0), Some(Operation::Sum), Some(3)),
    ];
    assert!(same_axes(&axes, &expected));
}

#[test]
fn reduction_on_the_derived_member_is_not_recorded() {
    let axes = left("(a:2 sum(b))").unwrap();
    let expected = vec![
        named("a", Index::Known(0), None, Some(2)),
        Decomposition::Derived { name: "b".to_string(), index: Index::Known(0), operation: None, shape_calc: 2 },
    ];
    assert!(same_axes(&axes, &expected));
}

#[test]
fn bare_number_on_the_left_is_rejected() {
    assert_eq!(left("a 2"), Err(PatternError::AnonymousSizeNotAllowed));
    assert_eq!(left("(a 2)"), Err(PatternError::AnonymousSizeNotAllowed));
}

#[test]
fn ellipsis_in_a_left_group_is_rejected() {
    assert_eq!(left("(a:2 ..)"), Err(PatternError::EllipsisInGroupNotAllowed));
}

#[test]
fn second_member_without_size_is_rejected() {
    assert_eq!(left("(a b)"), Err(PatternError::AmbiguousDerivedSize));
    assert_eq!(left("(a b:2 c)"), Err(PatternError::AmbiguousDerivedSize));
}

#[test]
fn empty_group_on_the_left_is_rejected() {
    assert_eq!(left("a ()"), Err(PatternError::EmptyGroup));
}

#[test]
fn unbalanced_groups_on_the_left_are_rejected() {
    assert_eq!(left("(a:2 b"), Err(PatternError::UnbalancedGroup));
    assert_eq!(left("("), Err(PatternError::UnbalancedGroup));
    assert_eq!(left("a )"), Err(PatternError::UnbalancedGroup));
    assert_eq!(left("sum(a"), Err(PatternError::UnbalancedGroup));
    assert_eq!(left("sum(a b)"), Err(PatternError::UnbalancedGroup));
}

#[test]
fn misplaced_tokens_on_the_left_are_rejected() {
    assert_eq!(left(": a"), Err(PatternError::UnexpectedToken));
    assert_eq!(left("a:"), Err(PatternError::UnexpectedToken));
    assert_eq!(left("a:b"), Err(PatternError::UnexpectedToken));
    assert_eq!(left("a , b"), Err(PatternError::UnexpectedToken));
    assert_eq!(left("a -> b"), Err(PatternError::UnexpectedToken));
    assert_eq!(left("((a))"), Err(PatternError::UnexpectedToken));
    assert_eq!(left("sum a"), Err(PatternError::UnexpectedToken));
    assert_eq!(left("sum(2)"), Err(PatternError::UnexpectedToken));
    assert_eq!(left("sum()"), Err(PatternError::UnexpectedToken));
}

#[test]
fn product_of_declared_sizes_must_fit() {
    let big = (usize::MAX / 2 + 1).to_string();
    assert_eq!(left(&format!("(a:{} b:2)", big)), Err(PatternError::SizeOverflow));
    let axes = left(&format!("(a:{} b:1 c)", big)).unwrap();
    assert!(matches!(&axes[2], Decomposition::Derived { shape_calc, .. } if *shape_calc == usize::MAX / 2 + 1));
}

#[test]
fn first_error_on_the_left_wins() {
    assert_eq!(left("2 (a b)"), Err(PatternError::AnonymousSizeNotAllowed));
    assert_eq!(left("(a b) 2"), Err(PatternError::AmbiguousDerivedSize));
}

#[test]
fn primitives_read_at_a_position() {
    let tokens = tokenize("a:3 min(b) 7").unwrap();
    assert!(!peek_reduce_kw(&tokens, 0));
    assert!(peek_reduce_kw(&tokens, 3));
    assert!(!peek_reduce_kw(&tokens, 100));
    assert_eq!(parse_usize(&tokens, 2), Ok(3));
    assert_eq!(parse_usize(&tokens, 0), Err(PatternError::UnexpectedToken));
    assert_eq!(parse_usize(&tokens, 100), Err(PatternError::UnexpectedToken));
    assert_eq!(parse_identifier(&tokens, 0), Ok(("a".to_string(), Some(3), 3)));
    assert_eq!(parse_identifier(&tokens, 5), Ok(("b".to_string(), None, 6)));
    assert_eq!(parse_identifier(&tokens, 2), Err(PatternError::UnexpectedToken));
    assert_eq!(parse_reduce_fn(&tokens, 3), Ok(("b".to_string(), None, Operation::Min, 7)));
    assert_eq!(parse_reduce_fn(&tokens, 0), Err(PatternError::UnexpectedToken));
}

#[test]
fn group_is_read_from_behind_its_parenthesis() {
    let tokens = tokenize("x (a:2 b) y").unwrap();
    let (members, next) = parse_left_parenthesized(&tokens, 2, Index::Unknown(9)).unwrap();
    assert_eq!(next, 7);
    assert!(same_axes(
        &members,
        &vec![
            named("a", Index::Unknown(9), None, Some(2)),
            Decomposition::Derived { name: "b".to_string(), index: Index::Unknown(9), operation: None, shape_calc: 2 },
        ]
    ));
}

#[test]
fn reductions_are_listed_in_order_with_their_places() {
    let axes = left("a sum(b) .. max(c) (d:2 min(e:3))").unwrap();
    let found = parse_reduce(&axes);
    assert_eq!(found.len(), 3);
    assert!(matches!(found[0], (Index::Known(1), Operation::Sum)));
    assert!(matches!(found[1], (Index::Unknown(3), Operation::Max)));
    assert!(matches!(found[2], (Index::Unknown(5), Operation::Min)));
}

#[test]
fn axes_without_operation_give_no_reduction() {
    assert!(parse_reduce(&left("a (b:2 c) ..").unwrap()).is_empty());
    assert!(parse_reduce(&vec![]).is_empty());
    let odd = vec![
        named("r", Index::Range(0), Some(Operation::Sum), None),
        Decomposition::Derived { name: "d".to_string(), index: Index::Known(1), operation: Some(Operation::Sum), shape_calc: 1 },
    ];
    assert!(parse_reduce(&odd).is_empty());
}
