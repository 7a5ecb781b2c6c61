use candle_einops::layout::lay_out_input;
use candle_einops::layout::solve_derived;
use candle_einops::layout::Layout;
use candle_einops::parse_decomposition;
use candle_einops::plan::assemble;
use candle_einops::plan::check_arrangement;
use candle_einops::token::tokenize;
use candle_einops::Composition;
use candle_einops::Decomposition;
use candle_einops::Index;
use candle_einops::Operation;
use candle_einops::PatternError;

fn axes(text: &str) -> Vec<Decomposition> {
    parse_decomposition(&tokenize(text).unwrap()).unwrap()
}

fn laid_out(text: &str, shape: &[usize]) -> Layout {
    let mut layout = Layout::new();
    lay_out_input(&axes(text), &shape.to_vec(), &mut layout).unwrap();
    layout
}

#[test]
fn derived_size_is_the_quotient() {
    assert_eq!(solve_derived(1, Some(2), 6), Ok(3));
    assert_eq!(solve_derived(1, Some(1), 7), Ok(7));
    assert_eq!(solve_derived(1, Some(7), 0), Ok(0));
    assert_eq!(solve_derived(0, Some(6), 6), Ok(1));
}

#[test]
fn derived_size_fails_in_a_fixed_order() {
    assert_eq!(solve_derived(2, None, 5), Err(PatternError::AmbiguousDerivedSize));
    assert_eq!(solve_derived(1, None, 5), Err(PatternError::SizeOverflow));
    assert_eq!(solve_derived(0, None, 5), Err(PatternError::SizeOverflow));
    assert_eq!(solve_derived(1, Some(2), 5), Err(PatternError::ShapeNotDivisible));
    assert_eq!(solve_derived(1, Some(0), 0), Err(PatternError::ShapeNotDivisible));
    assert_eq!(solve_derived(0, Some(5), 6), Err(PatternError::ShapeMismatch));
}

#[test]
fn layout_records_sizes_reductions_and_widths() {
    let layout = laid_out("a sum(b) .. (c:2 d)", &[3, 4, 5, 6, 14]);
    assert_eq!(layout.splits, vec![vec![3, 4, 5, 6, 2, 7]]);
    assert_eq!(layout.all, vec![3, 4, 5, 6, 2, 7]);
    assert_eq!(layout.reductions, vec![(1, Operation::Sum)]);
    assert_eq!(layout.kept, vec![3, 5, 6, 2, 7]);
    assert_eq!(layout.slot_widths, vec![1, 2, 1, 1]);
    assert!(layout.split.is_empty());
}

#[test]
fn layout_counts_on_over_the_inputs() {
    let mut layout = laid_out("a max(b)", &[2, 3]);
    lay_out_input(&axes("min(c) .."), &vec![4], &mut layout).unwrap();
    assert_eq!(layout.splits, vec![vec![2, 3], vec![4]]);
    assert_eq!(layout.reductions, vec![(1, Operation::Max), (2, Operation::Min)]);
    assert_eq!(layout.kept, vec![2]);
    assert_eq!(layout.slot_widths, vec![1, 0]);
}

#[test]
fn layout_rejects_more_than_one_ellipsis() {
    let mut layout = Layout::new();
    let found = lay_out_input(&axes(".. a .."), &vec![2, 3, 4], &mut layout);
    assert_eq!(found, Err(PatternError::RankMismatch));
}

#[test]
fn layout_groups_neighbours_with_the_same_position() {
    let hand_made = vec![
        Decomposition::Named { name: "a".to_string(), index: Index::Known(5), operation: None, shape: Some(2) },
        Decomposition::Named { name: "b".to_string(), index: Index::Unknown(5), operation: None, shape: None },
        Decomposition::Named { name: "c".to_string(), index: Index::Known(0), operation: None, shape: None },
    ];
    let mut layout = Layout::new();
    lay_out_input(&hand_made, &vec![6, 4], &mut layout).unwrap();
    assert_eq!(layout.splits, vec![vec![2, 3, 4]]);
    let mut two_open = Layout::new();
    let twice = vec![hand_made[1].clone(), hand_made[1].clone()];
    assert_eq!(lay_out_input(&twice, &vec![6], &mut two_open), Err(PatternError::AmbiguousDerivedSize));
}

#[test]
fn arrangement_names_each_entry_once() {
    assert!(check_arrangement(&vec![], 0));
    assert!(check_arrangement(&vec![Index::Known(1), Index::Range(0), Index::Unknown(2)], 3));
    assert!(!check_arrangement(&vec![Index::Known(1), Index::Known(0)], 3));
    assert!(!check_arrangement(&vec![Index::Known(1), Index::Unknown(1)], 2));
    assert!(!check_arrangement(&vec![Index::Known(0), Index::Known(2)], 2));
}

#[test]
fn assemble_builds_the_plan_from_the_lists() {
    let layout = laid_out("a b", &[2, 3]);
    let composition = vec![Composition::Combined { from: Index::Known(0), to: Some(Index::Known(2)) }];
    let permute = vec![Index::Known(1), Index::Known(0)];
    let repeat = vec![(Index::Known(1), 7)];
    let plan = assemble(layout, &composition, &permute, &repeat).unwrap();
    assert_eq!(plan.splits, vec![vec![2, 3]]);
    assert_eq!(plan.permutation, vec![1, 0]);
    assert_eq!(plan.repeats, vec![(1, 7)]);
    assert_eq!(plan.merges, vec![(0, 3)]);
    assert_eq!(plan.shape, vec![42]);
}

#[test]
fn assemble_rejects_lists_that_do_not_fit() {
    let individual = |i: usize| Composition::Individual(Index::Known(i));
    let both = vec![Index::Known(0), Index::Known(1)];
    let found = assemble(laid_out("a b", &[2, 3]), &vec![individual(0)], &both, &vec![]);
    assert_eq!(found, Err(PatternError::PlanInconsistent));
    let found = assemble(laid_out("a b", &[2, 3]), &vec![individual(0), individual(0)], &both, &vec![]);
    assert_eq!(found, Err(PatternError::PlanInconsistent));
    let found = assemble(laid_out("a b", &[2, 3]), &vec![individual(0), individual(1), individual(2)], &both, &vec![]);
    assert_eq!(found, Err(PatternError::PlanInconsistent));
    let late = vec![(Index::Known(9), 4)];
    let three = vec![individual(0), individual(1), individual(2)];
    let found = assemble(laid_out("a b", &[2, 3]), &three, &both, &late);
    assert_eq!(found, Err(PatternError::PlanInconsistent));
    let mut broken = laid_out("a b", &[2, 3]);
    broken.kept.push(1);
    let found = assemble(broken, &vec![individual(0), individual(1)], &both, &vec![]);
    assert_eq!(found, Err(PatternError::PlanInconsistent));
}
