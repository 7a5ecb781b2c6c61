use candle_einops::backend::reduce_order;
use candle_einops::backend::repeat_counts;
use candle_einops::compile;
use candle_einops::Operation;
use candle_einops::Step;

#[test]
fn reductions_are_ordered_from_the_highest_axis_down() {
    let given = vec![(1, Operation::Sum), (3, Operation::Min), (0, Operation::Max), (2, Operation::Mean)];
    let found = reduce_order(&given);
    assert_eq!(
        found,
        vec![(3, Operation::Min), (2, Operation::Mean), (1, Operation::Sum), (0, Operation::Max)]
    );
}

#[test]
fn of_two_reductions_of_one_axis_the_later_comes_first() {
    let given = vec![(1, Operation::Sum), (1, Operation::Min), (2, Operation::Max), (1, Operation::Prod)];
    let found = reduce_order(&given);
    assert_eq!(
        found,
        vec![(2, Operation::Max), (1, Operation::Prod), (1, Operation::Min), (1, Operation::Sum)]
    );
}

#[test]
fn reduce_order_keeps_short_lists() {
    assert_eq!(reduce_order(&vec![]), vec![]);
    assert_eq!(reduce_order(&vec![(0, Operation::Min)]), vec![(0, Operation::Min)]);
}

#[test]
fn repeat_counts_are_one_but_for_the_named_axes() {
    assert_eq!(repeat_counts(5, &vec![(0, 5), (3, 3)]), Some(vec![5, 1, 1, 3, 1]));
    assert_eq!(repeat_counts(3, &vec![]), Some(vec![1, 1, 1]));
    assert_eq!(repeat_counts(0, &vec![]), Some(vec![]));
    assert_eq!(repeat_counts(2, &vec![(1, 4), (1, 6)]), Some(vec![1, 6]));
}

#[test]
fn repeat_counts_refuse_an_axis_outside() {
    assert_eq!(repeat_counts(3, &vec![(3, 2)]), None);
    assert_eq!(repeat_counts(0, &vec![(0, 2)]), None);
    assert_eq!(repeat_counts(2, &vec![(0, 2), (5, 2)]), None);
}

#[test]
fn steps_come_in_the_order_in_which_they_are_run() {
    let shapes = vec![vec![6usize, 4, 5], vec![7usize]];
    let plan = compile("(a:2 b) sum(c) d, max(e) -> (d 3 b) a", &shapes).unwrap();
    assert_eq!(
        plan.steps(),
        vec![
            Step::ReshapeSplit { tensor: 0, dims: vec![2, 3, 4, 5] },
            Step::ReshapeSplit { tensor: 1, dims: vec![7] },
            Step::Reduce { axis: 4, operation: Operation::Max },
            Step::Reduce { axis: 2, operation: Operation::Sum },
            Step::Permute { order: vec![2, 1, 0] },
            Step::Repeat { axis: 1, count: 3 },
            Step::ReshapeMerge { axis: 0, len: 3 },
        ]
    );
    assert_eq!(plan.shape, vec![45, 2]);
}

#[test]
fn plan_without_work_still_permutes() {
    let plan = compile("-> ", &vec![vec![]]).unwrap();
    assert_eq!(
        plan.steps(),
        vec![Step::ReshapeSplit { tensor: 0, dims: vec![] }, Step::Permute { order: vec![] }]
    );
}
