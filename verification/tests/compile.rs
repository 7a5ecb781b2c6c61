use candle_einops::compile;
use candle_einops::compile::compile_tokens;
use candle_einops::compile::split_pattern;
use candle_einops::token::tokenize;
use candle_einops::ErrorKind;
use candle_einops::Operation;
use candle_einops::PatternError;
use candle_einops::Plan;

fn plan(pattern: &str, shapes: &[&[usize]]) -> Result<Plan, PatternError> {
    let shapes: Vec<Vec<usize>> = shapes.iter().map(|s| s.to_vec()).collect();
    compile(pattern, &shapes)
}

/// Numbers an array of the given shape in row-major order and applies the
/// permutation of a plan to it.
fn permuted(data: &[u32], shape: &[usize], permutation: &[usize]) -> (Vec<u32>, Vec<usize>) {
    let rank = shape.len();
    let out_shape: Vec<usize> = permutation.iter().map(|&p| shape[p]).collect();
    let total: usize = shape.iter().product();
    let mut out = Vec::with_capacity(total);
    for flat in 0..total {
        let mut rest = flat;
        let mut out_index = vec![0usize; rank];
        for axis in (0..rank).rev() {
            out_index[axis] = rest % out_shape[axis];
            rest /= out_shape[axis];
        }
        let mut in_index = vec![0usize; rank];
        for axis in 0..rank {
            in_index[permutation[axis]] = out_index[axis];
        }
        let mut in_flat = 0;
        for axis in 0..rank {
            in_flat = in_flat * shape[axis] + in_index[axis];
        }
        out.push(data[in_flat]);
    }
    (out, out_shape)
}

/// Inserts an axis of the given length at `axis` by repeating the data.
fn repeated(data: &[u32], shape: &[usize], axis: usize, count: usize) -> (Vec<u32>, Vec<usize>) {
    let outer: usize = shape[..axis].iter().product();
    let inner: usize = shape[axis..].iter().product();
    let mut out = Vec::new();
    for o in 0..outer {
        for _ in 0..count {
            out.extend_from_slice(&data[o * inner..(o + 1) * inner]);
        }
    }
    let mut out_shape = shape.to_vec();
    out_shape.insert(axis, count);
    (out, out_shape)
}

#[test]
fn arity_is_checked_against_the_number_of_groups() {
    let pattern = "a b, c d -> a b c d";
    assert_eq!(plan(pattern, &[&[2, 3]]), Err(PatternError::ArityMismatch));
    assert_eq!(plan(pattern, &[]), Err(PatternError::ArityMismatch));
    assert_eq!(plan(pattern, &[&[2, 3], &[4, 5], &[6]]), Err(PatternError::ArityMismatch));
    let built = plan(pattern, &[&[2, 3], &[4, 5]]).unwrap();
    assert_eq!(built.splits, vec![vec![2, 3], vec![4, 5]]);
    assert_eq!(built.permutation, vec![0, 1, 2, 3]);
    assert_eq!(built.shape, vec![2, 3, 4, 5]);
}

#[test]
fn arity_comes_before_the_errors_of_the_groups() {
    assert_eq!(plan("(a b), 2 -> a", &[&[2]]), Err(PatternError::ArityMismatch));
    assert_eq!(plan("a a -> c", &[]), Err(PatternError::ArityMismatch));
    assert_eq!(plan("-> ", &[]), Err(PatternError::ArityMismatch));
    assert_eq!(plan("-> ", &[&[]]).unwrap().shape, Vec::<usize>::new());
}

#[test]
fn derived_size_is_solved_from_the_input() {
    let built = plan("(a:2 b) -> a b", &[&[6]]).unwrap();
    assert_eq!(built.splits, vec![vec![2, 3]]);
    assert_eq!(built.shape, vec![2, 3]);
    let failed = plan("(a:2 b) -> a b", &[&[5]]);
    assert_eq!(failed, Err(PatternError::ShapeNotDivisible));
    assert_eq!(failed.unwrap_err().kind(), ErrorKind::Shape);
}

#[test]
fn same_name_twice_on_the_left_is_rejected() {
    assert_eq!(plan("a a -> a", &[&[2, 2]]), Err(PatternError::DuplicateAxisName));
    assert_eq!(plan("a, a -> a", &[&[2], &[2]]), Err(PatternError::DuplicateAxisName));
    assert_eq!(PatternError::DuplicateAxisName.kind(), ErrorKind::Naming);
}

#[test]
fn reduction_removes_the_axis() {
    assert!(plan("a b, c d -> sum(b) d", &[&[2, 3], &[4, 5]]).is_err());
    assert_eq!(plan("a sum(b) -> a b", &[&[2, 3]]), Err(PatternError::ReferenceToReducedAxis));
    let built = plan("a min(b) -> a", &[&[2, 3]]).unwrap();
    assert_eq!(built.reductions, vec![(1, Operation::Min)]);
    assert_eq!(built.permutation, vec![0]);
    assert_eq!(built.shape, vec![2]);
}

#[test]
fn ellipsis_must_be_balanced() {
    let built = plan("a .. -> .. a", &[&[2, 3, 4]]).unwrap();
    assert_eq!(built.splits, vec![vec![2, 3, 4]]);
    assert_eq!(built.permutation, vec![1, 2, 0]);
    assert_eq!(built.shape, vec![3, 4, 2]);
    assert_eq!(plan("a .. -> a", &[&[2, 3, 4]]), Err(PatternError::EllipsisSideMismatch));
    assert_eq!(plan("a -> a ..", &[&[2]]), Err(PatternError::EllipsisSideMismatch));
}

#[test]
fn pure_permutation_is_undone_by_the_opposite_pattern() {
    let forth = plan("a b c -> c a b", &[&[2, 3, 4]]).unwrap();
    assert_eq!(forth.permutation, vec![2, 0, 1]);
    assert_eq!(forth.shape, vec![4, 2, 3]);
    assert!(forth.reductions.is_empty() && forth.repeats.is_empty() && forth.merges.is_empty());
    let back = plan("c a b -> a b c", &[&[4, 2, 3]]).unwrap();
    assert_eq!(back.permutation, vec![1, 2, 0]);
    assert_eq!(back.shape, vec![2, 3, 4]);
    let data: Vec<u32> = (0..24).collect();
    let (moved, moved_shape) = permuted(&data, &[2, 3, 4], &forth.permutation);
    assert_eq!(moved_shape, forth.shape);
    assert_eq!(&moved[..6], &[0, 4, 8, 12, 16, 20]);
    let (restored, restored_shape) = permuted(&moved, &moved_shape, &back.permutation);
    assert_eq!(restored_shape, vec![2, 3, 4]);
    assert_eq!(restored, data);
}

#[test]
fn new_axis_repeats_the_input() {
    let built = plan("a b -> a b c:5", &[&[2, 3]]).unwrap();
    assert_eq!(built.permutation, vec![0, 1]);
    assert_eq!(built.repeats, vec![(2, 5)]);
    assert_eq!(built.shape, vec![2, 3, 5]);
    let data: Vec<u32> = (0..6).collect();
    let (out, out_shape) = repeated(&data, &[2, 3], built.repeats[0].0, built.repeats[0].1);
    assert_eq!(out_shape, built.shape);
    for slice in 0..5 {
        let picked: Vec<u32> = (0..6).map(|i| out[i * 5 + slice]).collect();
        assert_eq!(picked, data);
    }
}

#[test]
fn split_then_permute() {
    let built = plan("(a:2 b) c -> c a b", &[&[6, 4]]).unwrap();
    assert_eq!(built.splits, vec![vec![2, 3, 4]]);
    assert!(built.reductions.is_empty());
    assert_eq!(built.permutation, vec![2, 0, 1]);
    assert!(built.repeats.is_empty());
    assert!(built.merges.is_empty());
    assert_eq!(built.shape, vec![4, 2, 3]);
}

#[test]
fn reductions_come_highest_axis_first() {
    let built = plan("sum(a) b max(c) -> b", &[&[2, 3, 4]]).unwrap();
    assert_eq!(built.reductions, vec![(2, Operation::Max), (0, Operation::Sum)]);
    assert_eq!(built.permutation, vec![0]);
    assert_eq!(built.shape, vec![3]);
}

#[test]
fn reductions_are_counted_over_all_inputs() {
    let built = plan("a prod(b), mean(c) d -> d a", &[&[2, 3], &[4, 5]]).unwrap();
    assert_eq!(built.reductions, vec![(2, Operation::Mean), (1, Operation::Prod)]);
    assert_eq!(built.permutation, vec![1, 0]);
    assert_eq!(built.shape, vec![5, 2]);
}

#[test]
fn groups_on_the_right_are_merged_highest_first() {
    let built = plan("a b c d -> (a b) (d c)", &[&[2, 3, 4, 5]]).unwrap();
    assert_eq!(built.permutation, vec![0, 1, 3, 2]);
    assert_eq!(built.merges, vec![(2, 2), (0, 2)]);
    assert_eq!(built.shape, vec![6, 20]);
}

#[test]
fn new_axes_are_inserted_lowest_first() {
    let built = plan("a b -> 2 a 3 b (4 5)", &[&[6, 7]]).unwrap();
    assert_eq!(built.repeats, vec![(0, 2), (2, 3), (4, 4), (5, 5)]);
    assert_eq!(built.permutation, vec![0, 1]);
    assert_eq!(built.merges, vec![(4, 2)]);
    assert_eq!(built.shape, vec![2, 6, 3, 7, 20]);
}

#[test]
fn ellipsis_stands_for_the_dimensions_left_over() {
    let built = plan("a .. b -> b (..) a", &[&[2, 3, 4, 5]]).unwrap();
    assert_eq!(built.permutation, vec![3, 1, 2, 0]);
    assert_eq!(built.merges, vec![(1, 2)]);
    assert_eq!(built.shape, vec![5, 12, 2]);
    let none = plan("a .. b -> b .. a", &[&[2, 5]]).unwrap();
    assert_eq!(none.permutation, vec![1, 0]);
    assert_eq!(none.shape, vec![5, 2]);
    let unit = plan("a .. b -> b (..) a", &[&[2, 5]]).unwrap();
    assert_eq!(unit.merges, vec![(1, 0)]);
    assert_eq!(unit.shape, vec![5, 1, 2]);
}

#[test]
fn rank_must_fit_the_group() {
    assert_eq!(plan("a b -> a b", &[&[2]]), Err(PatternError::RankMismatch));
    assert_eq!(plan("a b -> a b", &[&[2, 3, 4]]), Err(PatternError::RankMismatch));
    assert_eq!(plan("a .. b -> a .. b", &[&[2]]), Err(PatternError::RankMismatch));
    assert_eq!(plan("(a:2 b) -> a b", &[&[]]), Err(PatternError::RankMismatch));
}

#[test]
fn declared_sizes_must_fit_the_input() {
    assert_eq!(plan("a:3 b -> a b", &[&[2, 3]]), Err(PatternError::ShapeMismatch));
    assert_eq!(plan("(a:2 b:3) -> a b", &[&[5]]), Err(PatternError::ShapeMismatch));
    assert_eq!(plan("(a:2 b:3) -> a b", &[&[6]]).unwrap().splits, vec![vec![2, 3]]);
    assert_eq!(plan("(a:0 b) -> a b", &[&[0]]), Err(PatternError::ShapeNotDivisible));
    assert_eq!(plan("(a:2 b) -> a b", &[&[0]]).unwrap().splits, vec![vec![2, 0]]);
}

#[test]
fn every_remaining_axis_must_be_used_once() {
    assert_eq!(plan("a b -> a", &[&[2, 3]]), Err(PatternError::PlanInconsistent));
    assert_eq!(plan("a b -> a b a", &[&[2, 3]]), Err(PatternError::PlanInconsistent));
    assert_eq!(plan("a b -> a a", &[&[2, 3]]), Err(PatternError::PlanInconsistent));
    assert_eq!(PatternError::PlanInconsistent.kind(), ErrorKind::Consistency);
}

#[test]
fn merged_size_must_fit() {
    let half = usize::MAX / 2 + 1;
    let pattern = format!("a -> (a {})", half);
    assert_eq!(plan(&pattern, &[&[2]]), Err(PatternError::SizeOverflow));
    assert_eq!(plan(&pattern, &[&[1]]).unwrap().shape, vec![half]);
}

#[test]
fn arrow_must_stand_once() {
    assert_eq!(plan("a b", &[&[2, 3]]), Err(PatternError::MissingArrow));
    assert_eq!(plan("", &[]), Err(PatternError::MissingArrow));
    assert_eq!(plan("a -> b -> c", &[&[2]]), Err(PatternError::RepeatedArrow));
    assert_eq!(PatternError::MissingArrow.kind(), ErrorKind::Grammar);
}

#[test]
fn errors_come_in_the_order_of_the_stages() {
    assert_eq!(plan("a # -> -> b", &[]), Err(PatternError::UnexpectedCharacter));
    assert_eq!(plan("2 -> -> b", &[]), Err(PatternError::RepeatedArrow));
    assert_eq!(plan("2 -> b", &[]), Err(PatternError::ArityMismatch));
    assert_eq!(plan("2, (a b) -> b", &[&[1], &[2]]), Err(PatternError::AnonymousSizeNotAllowed));
    assert_eq!(plan("a a -> (", &[&[1]]), Err(PatternError::DuplicateAxisName));
    assert_eq!(plan("a b -> c", &[&[1]]), Err(PatternError::UnresolvedAxisNeedsSize));
    assert_eq!(plan("a b -> a", &[&[1]]), Err(PatternError::RankMismatch));
    assert_eq!(plan("a:2, b -> a", &[&[3], &[1, 1]]), Err(PatternError::ShapeMismatch));
}

#[test]
fn pattern_is_parted_at_the_arrow_and_the_commas() {
    let tokens = tokenize("a b, , (c, d) -> e , f").unwrap();
    let (groups, right) = split_pattern(&tokens).unwrap();
    assert_eq!(groups.len(), 4);
    assert_eq!(groups[0], tokenize("a b").unwrap());
    assert!(groups[1].is_empty());
    assert_eq!(groups[2], tokenize("(c").unwrap());
    assert_eq!(groups[3], tokenize("d)").unwrap());
    assert_eq!(right, tokenize("e , f").unwrap());
    let (one, nothing) = split_pattern(&tokenize("->").unwrap()).unwrap();
    assert_eq!(one, vec![vec![]]);
    assert!(nothing.is_empty());
}

#[test]
fn compile_tokens_agrees_with_compile() {
    let shapes = vec![vec![6usize, 4]];
    let tokens = tokenize("(a:2 b) c -> c a b").unwrap();
    assert_eq!(compile_tokens(&tokens, &shapes), compile("(a:2 b) c -> c a b", &shapes));
}
