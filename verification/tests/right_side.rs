use candle_einops::names::find_name;
use candle_einops::names::name_table;
use candle_einops::names::names_reduced_axis;
use candle_einops::parse_composition_permute_repeat;
use candle_einops::parse_decomposition;
use candle_einops::token::tokenize;
use candle_einops::Composition;
use candle_einops::Index;
use candle_einops::PatternError;

type Lists = (Vec<Composition>, Vec<Index>, Vec<(Index, usize)>);

fn sides(left: &str, right: &str) -> Result<Lists, PatternError> {
    let axes = parse_decomposition(&tokenize(left).unwrap()).unwrap();
    parse_composition_permute_repeat(&tokenize(right).unwrap(), &axes)
}

fn show(index: &Index) -> String {
    format!("{:?}", index)
}

fn show_all(indices: &Vec<Index>) -> Vec<String> {
    indices.iter().map(show).collect()
}

fn show_composition(composition: &Vec<Composition>) -> Vec<String> {
    composition.iter().map(|c| format!("{:?}", c)).collect()
}

#[test]
fn permutation_lists_the_sources_in_output_order() {
    let (composition, permute, repeat) = sides("a b c", "c a b").unwrap();
    assert_eq!(show_all(&permute), vec!["Known(2)", "Known(0)", "Known(1)"]);
    assert_eq!(
        show_composition(&composition),
        vec!["Individual(Known(0))", "Individual(Known(1))", "Individual(Known(2))"]
    );
    assert!(repeat.is_empty());
}

#[test]
fn reduced_axes_are_not_counted_in_the_table() {
    let (_, permute, _) = sides("sum(a) b max(c) d", "d b").unwrap();
    assert_eq!(show_all(&permute), vec!["Known(1)", "Known(0)"]);
}

#[test]
fn new_axes_go_to_the_repeat_list() {
    let (composition, permute, repeat) = sides("a b", "a 4 b c:5").unwrap();
    assert_eq!(show_all(&permute), vec!["Known(0)", "Known(1)"]);
    assert_eq!(repeat.len(), 2);
    assert!(matches!(repeat[0], (Index::Known(1), 4)));
    assert!(matches!(repeat[1], (Index::Known(3), 5)));
    assert_eq!(composition.len(), 4);
}

#[test]
fn size_behind_a_known_name_is_ignored() {
    let (_, permute, repeat) = sides("a b", "b:7 a").unwrap();
    assert_eq!(show_all(&permute), vec!["Known(1)", "Known(0)"]);
    assert!(repeat.is_empty());
}

#[test]
fn ellipsis_switches_the_provenance_on_the_right() {
    let (composition, permute, repeat) = sides("a .. b", ".. b 3 a").unwrap();
    assert_eq!(show_all(&permute), vec!["Range(1)", "Unknown(2)", "Known(0)"]);
    assert_eq!(
        show_composition(&composition),
        vec![
            "Individual(Range(0))",
            "Individual(Unknown(1))",
            "Individual(Unknown(2))",
            "Individual(Unknown(3))"
        ]
    );
    assert!(matches!(repeat[0], (Index::Unknown(2), 3)));
}

#[test]
fn group_runs_from_its_first_member_to_its_last() {
    let (composition, permute, _) = sides("a b c d", "(a b c) (d)").unwrap();
    assert_eq!(
        show_composition(&composition),
        vec![
            "Combined { from: Known(0), to: Some(Known(2)) }",
            "Combined { from: Known(3), to: None }"
        ]
    );
    assert_eq!(show_all(&permute), vec!["Known(0)", "Known(1)", "Known(2)", "Known(3)"]);
}

#[test]
fn group_may_hold_the_ellipsis_and_new_axes() {
    let (composition, permute, repeat) = sides("a ..", "(.. 2 a)").unwrap();
    assert_eq!(
        show_composition(&composition),
        vec!["Combined { from: Range(0), to: Some(Unknown(2)) }"]
    );
    assert_eq!(show_all(&permute), vec!["Range(1)", "Known(0)"]);
    assert!(matches!(repeat[0], (Index::Unknown(1), 2)));
}

#[test]
fn members_behind_a_group_count_on() {
    let (composition, _, _) = sides("a b c", "(a b) c").unwrap();
    assert_eq!(
        show_composition(&composition),
        vec!["Combined { from: Known(0), to: Some(Known(1)) }", "Individual(Known(2))"]
    );
}

#[test]
fn duplicate_name_on_the_left_is_rejected_first() {
    assert_eq!(sides("a a", "a"), Err(PatternError::DuplicateAxisName));
    assert_eq!(sides("a (b:2 a)", "a"), Err(PatternError::DuplicateAxisName));
    assert_eq!(sides(".. a ..", ".. a"), Err(PatternError::DuplicateAxisName));
    assert_eq!(sides("a a", "("), Err(PatternError::DuplicateAxisName));
}

#[test]
fn name_of_a_reduced_axis_may_be_used_again_on_the_left() {
    let (_, permute, _) = sides("sum(a) a", "a").unwrap();
    assert_eq!(show_all(&permute), vec!["Known(0)"]);
}

#[test]
fn reference_to_a_reduced_axis_is_rejected() {
    assert_eq!(sides("a sum(b)", "a b"), Err(PatternError::ReferenceToReducedAxis));
    assert_eq!(sides("a sum(b)", "a b:3"), Err(PatternError::ReferenceToReducedAxis));
    assert_eq!(sides("a sum(b)", "(a b)"), Err(PatternError::ReferenceToReducedAxis));
}

#[test]
fn new_name_without_size_is_rejected() {
    assert_eq!(sides("a", "a c"), Err(PatternError::UnresolvedAxisNeedsSize));
    assert_eq!(sides("a", "(a c)"), Err(PatternError::UnresolvedAxisNeedsSize));
}

#[test]
fn ellipsis_must_stand_on_both_sides_once() {
    assert_eq!(sides("a ..", "a"), Err(PatternError::EllipsisSideMismatch));
    assert_eq!(sides("a", "a .."), Err(PatternError::EllipsisSideMismatch));
    assert_eq!(sides("a ..", ".. a .."), Err(PatternError::EllipsisSideMismatch));
    assert_eq!(sides("a ..", "(.. a) .."), Err(PatternError::EllipsisSideMismatch));
}

#[test]
fn groups_on_the_right_must_be_balanced_and_filled() {
    assert_eq!(sides("a b", "(a b"), Err(PatternError::UnbalancedGroup));
    assert_eq!(sides("a b", "a b)"), Err(PatternError::UnbalancedGroup));
    assert_eq!(sides("a b", "a () b"), Err(PatternError::EmptyGroup));
    assert_eq!(sides("a b", "((a) b)"), Err(PatternError::UnexpectedToken));
}

#[test]
fn misplaced_tokens_on_the_right_are_rejected() {
    assert_eq!(sides("a b", "sum(a) b"), Err(PatternError::UnexpectedToken));
    assert_eq!(sides("a b", "a , b"), Err(PatternError::UnexpectedToken));
    assert_eq!(sides("a b", "a : b"), Err(PatternError::UnexpectedToken));
    assert_eq!(sides("a b", "a: b"), Err(PatternError::UnexpectedToken));
    assert_eq!(sides("a b", "a -> b"), Err(PatternError::UnexpectedToken));
    assert_eq!(sides("a b", "(a max b)"), Err(PatternError::UnexpectedToken));
}

#[test]
fn first_error_on_the_right_wins() {
    assert_eq!(sides("a sum(b)", "c b"), Err(PatternError::UnresolvedAxisNeedsSize));
    assert_eq!(sides("a sum(b)", "b c"), Err(PatternError::ReferenceToReducedAxis));
    assert_eq!(sides("a ..", "c"), Err(PatternError::UnresolvedAxisNeedsSize));
}

#[test]
fn table_numbers_the_axes_that_remain() {
    let axes = parse_decomposition(&tokenize("a sum(b) .. (c:2 d)").unwrap()).unwrap();
    let table = name_table(&axes).unwrap();
    let names: Vec<&str> = table.iter().map(|e| e.0.as_str()).collect();
    assert_eq!(names, vec!["a", "..", "c", "d"]);
    let indices: Vec<String> = table.iter().map(|e| show(&e.1)).collect();
    assert_eq!(indices, vec!["Known(0)", "Range(1)", "Unknown(2)", "Unknown(3)"]);
    assert!(matches!(find_name(&table, &"c".to_string()), Some(Index::Unknown(2))));
    assert!(find_name(&table, &"b".to_string()).is_none());
    assert!(names_reduced_axis(&axes, &"b".to_string()));
    assert!(!names_reduced_axis(&axes, &"a".to_string()));
}
