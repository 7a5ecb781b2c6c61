//! A plan as the sequence of operations that a backend runs.

use crate::layout::list_views;
use crate::operation::Operation;
use crate::plan::Plan;
use crate::plan::PlanView;
use vstd::prelude::*;

verus! {

/// One operation on arrays.
#[derive(Clone, Debug, PartialEq, Eq)]
pub enum Step {
    /// Reshape input `tensor` to `dims`.
    ReshapeSplit { tensor: usize, dims: Vec<usize> },
    /// Collapse `axis` with `operation`; the axis disappears.
    Reduce { axis: usize, operation: Operation },
    /// Reorder the axes: axis `i` of the result is axis `order[i]` of the argument.
    Permute { order: Vec<usize> },
    /// Insert a new axis at `axis` and repeat the array `count` times along it.
    Repeat { axis: usize, count: usize },
    /// Merge the `len` axes from `axis` on into one; for `len` 0 insert an axis of size 1.
    ReshapeMerge { axis: usize, len: usize },
}

/// A step as sequences.
pub enum StepView {
    ReshapeSplit { tensor: usize, dims: Seq<usize> },
    Reduce { axis: usize, operation: Operation },
    Permute { order: Seq<usize> },
    Repeat { axis: usize, count: usize },
    ReshapeMerge { axis: usize, len: usize },
}

impl View for Step {
    type V = StepView;

    open spec fn view(&self) -> StepView {
        match self {
            Step::ReshapeSplit { tensor, dims } => StepView::ReshapeSplit { tensor: *tensor, dims: dims@ },
            Step::Reduce { axis, operation } => StepView::Reduce { axis: *axis, operation: *operation },
            Step::Permute { order } => StepView::Permute { order: order@ },
            Step::Repeat { axis, count } => StepView::Repeat { axis: *axis, count: *count },
            Step::ReshapeMerge { axis, len } => StepView::ReshapeMerge { axis: *axis, len: *len },
        }
    }
}

/// The views of a run of steps, in order.
pub open spec fn step_views(steps: Seq<Step>) -> Seq<StepView> {
    steps.map_values(|s: Step| s@)
}

impl PlanView {
    /// The reshapes of the first `n` inputs.
    pub open spec fn split_steps(self, n: int) -> Seq<StepView> {
        Seq::new(n as nat, |t: int| StepView::ReshapeSplit { tensor: t as usize, dims: self.splits[t] })
    }

    /// The first `n` reductions.
    pub open spec fn reduce_steps(self, n: int) -> Seq<StepView> {
        Seq::new(
            n as nat,
            |k: int| StepView::Reduce { axis: self.reductions[k].0, operation: self.reductions[k].1 },
        )
    }

    /// The first `n` insertions.
    pub open spec fn repeat_steps(self, n: int) -> Seq<StepView> {
        Seq::new(n as nat, |k: int| StepView::Repeat { axis: self.repeats[k].0, count: self.repeats[k].1 })
    }

    /// The first `n` merges.
    pub open spec fn merge_steps(self, n: int) -> Seq<StepView> {
        Seq::new(n as nat, |k: int| StepView::ReshapeMerge { axis: self.merges[k].0, len: self.merges[k].1 })
    }

    /// The operations of the plan in the order in which they are run: the
    /// reshapes of the inputs, the reductions, the permutation, the
    /// insertions, the merges.
    pub open spec fn steps(self) -> Seq<StepView> {
        self.split_steps(self.splits.len() as int) + self.reduce_steps(self.reductions.len() as int)
            + seq![StepView::Permute { order: self.permutation }] + self.repeat_steps(
            self.repeats.len() as int,
        ) + self.merge_steps(self.merges.len() as int)
    }
}

/// A copy of a list.
fn copy_list(list: &Vec<usize>) -> (r: Vec<usize>)
    ensures
        r@ == list@,
{
    let mut r: Vec<usize> = Vec::new();
    let mut i: usize = 0;
    while i < list.len()
        invariant
            i <= list.len(),
            r@ == list@.subrange(0, i as int),
        decreases list.len() - i,
    {
        r.push(list[i]);
        i = i + 1;
        assert(r@ =~= list@.subrange(0, i as int));
    }
    assert(list@.subrange(0, i as int) =~= list@);
    r
}

impl Plan {
    /// The operations of the plan in the order in which a backend runs them.
    ///
    /// First one `ReshapeSplit` for each input, in the order of the inputs;
    /// then one `Reduce` for each reduction, the highest axis first; then one
    /// `Permute`; then one `Repeat` for each new axis, the lowest first; then
    /// one `ReshapeMerge` for each group of the output, the highest first.
    pub fn steps(&self) -> (r: Vec<Step>)
        ensures
            step_views(r@) == self@.steps(),
    {
        let ghost plan = self@;
        let mut out: Vec<Step> = Vec::new();
        let mut t: usize = 0;
        assert(step_views(out@) =~= plan.split_steps(0));
        while t < self.splits.len()
            invariant
                plan == self@,
                t <= self.splits.len(),
                step_views(out@) == plan.split_steps(t as int),
            decreases self.splits.len() - t,
        {
            let ghost before = out@;
            let step = Step::ReshapeSplit { tensor: t, dims: copy_list(&self.splits[t]) };
            let ghost sv = step@;
            out.push(step);
            t = t + 1;
            assert(step_views(out@) =~= step_views(before).push(sv));
            assert(step_views(out@) =~= plan.split_steps(t as int));
        }
        let ghost first = step_views(out@);
        let mut k: usize = 0;
        assert(step_views(out@) =~= first + plan.reduce_steps(0));
        while k < self.reductions.len()
            invariant
                plan == self@,
                k <= self.reductions.len(),
                step_views(out@) == first + plan.reduce_steps(k as int),
            decreases self.reductions.len() - k,
        {
            let ghost before = out@;
            let step = Step::Reduce { axis: self.reductions[k].0, operation: self.reductions[k].1 };
            let ghost sv = step@;
            out.push(step);
            k = k + 1;
            assert(step_views(out@) =~= step_views(before).push(sv));
            assert(step_views(out@) =~= first + plan.reduce_steps(k as int));
        }
        let ghost before = out@;
        let step = Step::Permute { order: copy_list(&self.permutation) };
        let ghost sv = step@;
        out.push(step);
        assert(step_views(out@) =~= step_views(before).push(sv));
        let ghost second = step_views(out@);
        assert(second =~= first + plan.reduce_steps(plan.reductions.len() as int)
            + seq![StepView::Permute { order: plan.permutation }]);
        let mut k: usize = 0;
        assert(step_views(out@) =~= second + plan.repeat_steps(0));
        while k < self.repeats.len()
            invariant
                plan == self@,
                k <= self.repeats.len(),
                step_views(out@) == second + plan.repeat_steps(k as int),
            decreases self.repeats.len() - k,
        {
            let ghost before = out@;
            let step = Step::Repeat { axis: self.repeats[k].0, count: self.repeats[k].1 };
            let ghost sv = step@;
            out.push(step);
            k = k + 1;
            assert(step_views(out@) =~= step_views(before).push(sv));
            assert(step_views(out@) =~= second + plan.repeat_steps(k as int));
        }
        let ghost third = step_views(out@);
        let mut k: usize = 0;
        assert(step_views(out@) =~= third + plan.merge_steps(0));
        while k < self.merges.len()
            invariant
                plan == self@,
                k <= self.merges.len(),
                step_views(out@) == third + plan.merge_steps(k as int),
            decreases self.merges.len() - k,
        {
            let ghost before = out@;
            let step = Step::ReshapeMerge { axis: self.merges[k].0, len: self.merges[k].1 };
            let ghost sv = step@;
            out.push(step);
            k = k + 1;
            assert(step_views(out@) =~= step_views(before).push(sv));
            assert(step_views(out@) =~= third + plan.merge_steps(k as int));
        }
        out
    }
}

} // verus!
