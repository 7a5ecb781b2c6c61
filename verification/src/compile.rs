//! From a pattern and the shapes of the inputs to a plan.

use crate::axis::axis_views;
use crate::axis::Axis;
use crate::axis::Composition;
use crate::axis::Decomposition;
use crate::error::PatternError;
use crate::index::Index;
use crate::layout::lay_out_input;
use crate::layout::list_views;
use crate::layout::spec_layout_input;
use crate::layout::Layout;
use crate::layout::LayoutState;
use crate::left::parse_decomposition;
use crate::left::spec_parse_decomposition;
use crate::plan::assemble;
use crate::plan::plan_result;
use crate::plan::spec_assemble;
use crate::plan::Plan;
use crate::plan::PlanView;
use crate::right::parse_composition_permute_repeat;
use crate::right::spec_parse_composition_permute_repeat;
use crate::token::spec_tokenize;
use crate::token::tokenize;
use crate::token::views;
use crate::token::Token;
use crate::token::TokenView;
use vstd::prelude::*;

verus! {

/// The place of the first `->` at or behind `i`; the number of tokens where
/// there is none.
pub open spec fn first_arrow(ts: Seq<TokenView>, i: int) -> int
    decreases ts.len() - i,
{
    if i < 0 || i >= ts.len() {
        ts.len() as int
    } else if ts[i] is Arrow {
        i
    } else {
        first_arrow(ts, i + 1)
    }
}

/// The first `->` stands at or behind `i`, no `->` stands between, and one
/// stands there if it is inside the tokens.
pub proof fn lemma_first_arrow(ts: Seq<TokenView>, i: int)
    requires
        0 <= i <= ts.len(),
    ensures
        i <= first_arrow(ts, i) <= ts.len(),
        forall|k: int| i <= k < first_arrow(ts, i) ==> !(#[trigger] ts[k] is Arrow),
        first_arrow(ts, i) < ts.len() ==> ts[first_arrow(ts, i)] is Arrow,
    decreases ts.len() - i,
{
    if i < ts.len() && !(ts[i] is Arrow) {
        lemma_first_arrow(ts, i + 1);
    }
}

/// The groups that the commas part the tokens from `i` on into, behind the
/// groups `done` and the tokens `current` of the group that is being read.
pub open spec fn groups_from(
    ts: Seq<TokenView>,
    i: int,
    done: Seq<Seq<TokenView>>,
    current: Seq<TokenView>,
) -> Seq<Seq<TokenView>>
    decreases ts.len() - i,
{
    if i < 0 || i >= ts.len() {
        done.push(current)
    } else if ts[i] is Comma {
        groups_from(ts, i + 1, done.push(current), Seq::empty())
    } else {
        groups_from(ts, i + 1, done, current.push(ts[i]))
    }
}

/// The groups of the left side: the tokens between its commas.
pub open spec fn spec_groups(left: Seq<TokenView>) -> Seq<Seq<TokenView>> {
    groups_from(left, 0, Seq::empty(), Seq::empty())
}

/// The groups of the left side and the tokens of the right side.
///
/// Fails with `MissingArrow` where the tokens hold no `->`, and with
/// `RepeatedArrow` where they hold more than one.
pub open spec fn spec_split(ts: Seq<TokenView>) -> Result<(Seq<Seq<TokenView>>, Seq<TokenView>), PatternError> {
    let arrow = first_arrow(ts, 0);
    if arrow >= ts.len() {
        Err(PatternError::MissingArrow)
    } else if first_arrow(ts, arrow + 1) < ts.len() {
        Err(PatternError::RepeatedArrow)
    } else {
        Ok((spec_groups(ts.subrange(0, arrow)), ts.subrange(arrow + 1, ts.len() as int)))
    }
}

/// The views of a run of groups of tokens.
pub open spec fn group_views(groups: Seq<Vec<Token>>) -> Seq<Seq<TokenView>> {
    groups.map_values(|g: Vec<Token>| views(g@))
}

/// The views of a run of decompositions.
pub open spec fn decomposition_views(decompositions: Seq<Vec<Decomposition>>) -> Seq<Seq<Axis>> {
    decompositions.map_values(|d: Vec<Decomposition>| axis_views(d@))
}

/// The axes of the groups from group `t` on, behind those of the groups
/// before; or the error of the first group that is not written in the notation.
pub open spec fn parse_groups_from(groups: Seq<Seq<TokenView>>, t: int, acc: Seq<Seq<Axis>>) -> Result<
    Seq<Seq<Axis>>,
    PatternError,
>
    decreases groups.len() - t,
{
    if t < 0 || t >= groups.len() {
        Ok(acc)
    } else {
        match spec_parse_decomposition(groups[t]) {
            Err(e) => Err(e),
            Ok(axes) => parse_groups_from(groups, t + 1, acc.push(axes)),
        }
    }
}

/// The axes of the first `n` inputs in one row.
pub open spec fn all_axes(decompositions: Seq<Seq<Axis>>, n: int) -> Seq<Axis>
    decreases n,
{
    if n <= 0 {
        Seq::empty()
    } else {
        all_axes(decompositions, n - 1) + decompositions[n - 1]
    }
}

/// The inputs from input `t` on laid out, behind those before.
pub open spec fn layout_from_input(
    decompositions: Seq<Seq<Axis>>,
    shapes: Seq<Seq<usize>>,
    t: int,
    state: LayoutState,
) -> Result<LayoutState, PatternError>
    decreases decompositions.len() - t,
{
    if t < 0 || t >= decompositions.len() {
        Ok(state)
    } else {
        match spec_layout_input(decompositions[t], shapes[t], state) {
            Err(e) => Err(e),
            Ok(next) => layout_from_input(decompositions, shapes, t + 1, next),
        }
    }
}

/// The plan for tokens and shapes; or the first error met, in this order:
/// the arrow, the number of inputs, the groups of the left side from the
/// first on, the names and the right side, the shapes from the first input
/// on, the plan.
pub open spec fn spec_compile_tokens(ts: Seq<TokenView>, shapes: Seq<Seq<usize>>) -> Result<
    PlanView,
    PatternError,
> {
    match spec_split(ts) {
        Err(e) => Err(e),
        Ok((groups, right)) => {
            if groups.len() != shapes.len() {
                Err(PatternError::ArityMismatch)
            } else {
                match parse_groups_from(groups, 0, Seq::empty()) {
                    Err(e) => Err(e),
                    Ok(decompositions) => {
                        match spec_parse_composition_permute_repeat(
                            right,
                            all_axes(decompositions, decompositions.len() as int),
                        ) {
                            Err(e) => Err(e),
                            Ok((composition, permute, repeat)) => {
                                match layout_from_input(decompositions, shapes, 0, LayoutState::start()) {
                                    Err(e) => Err(e),
                                    Ok(layout) => spec_assemble(layout, composition, permute, repeat),
                                }
                            },
                        }
                    },
                }
            }
        },
    }
}

/// The plan for a pattern and shapes; or the first error met, an error of
/// the tokens first.
pub open spec fn spec_compile(pattern: Seq<char>, shapes: Seq<Seq<usize>>) -> Result<PlanView, PatternError> {
    match spec_tokenize(pattern) {
        Err(e) => Err(e),
        Ok(ts) => spec_compile_tokens(ts, shapes),
    }
}

/// Parts the tokens of a pattern into the groups of the left side and the
/// right side.
///
/// The left side is what stands before `->`; its groups are what stands
/// between its commas, so that a left side with `k - 1` commas has `k`
/// groups. Fails with `MissingArrow` where the tokens hold no `->`, and with
/// `RepeatedArrow` where they hold more than one.
pub fn split_pattern(tokens: &Vec<Token>) -> (r: Result<(Vec<Vec<Token>>, Vec<Token>), PatternError>)
    ensures
        match r {
            Ok((groups, right)) => spec_split(views(tokens@)) == Ok::<_, PatternError>(
                (group_views(groups@), views(right@)),
            ),
            Err(e) => spec_split(views(tokens@)) == Err::<(Seq<Seq<TokenView>>, Seq<TokenView>), _>(e),
        },
{
    let ghost ts = views(tokens@);
    let n: usize = tokens.len();
    let mut arrow: usize = 0;
    while arrow < n && !matches!(tokens[arrow], Token::Arrow)
        invariant
            ts == views(tokens@),
            n == tokens.len(),
            arrow <= n,
            first_arrow(ts, 0) == first_arrow(ts, arrow as int),
        decreases n - arrow,
    {
        arrow = arrow + 1;
    }
    if arrow >= n {
        return Err(PatternError::MissingArrow);
    }
    let mut right: Vec<Token> = Vec::new();
    let mut i: usize = arrow + 1;
    assert(views(right@) =~= ts.subrange(arrow + 1, i as int));
    while i < n
        invariant
            ts == views(tokens@),
            n == tokens.len(),
            arrow < i <= n,
            first_arrow(ts, arrow + 1) == first_arrow(ts, i as int),
            views(right@) == ts.subrange(arrow + 1, i as int),
            first_arrow(ts, 0) == arrow,
        decreases n - i,
    {
        if matches!(tokens[i], Token::Arrow) {
            return Err(PatternError::RepeatedArrow);
        }
        let ghost before = right@;
        let t = tokens[i].duplicate();
        let ghost tv = t@;
        right.push(t);
        i = i + 1;
        assert(views(right@) =~= views(before).push(tv));
        assert(ts.subrange(arrow + 1, i as int) =~= ts.subrange(arrow + 1, i - 1).push(tv));
    }
    let ghost left = ts.subrange(0, arrow as int);
    let mut groups: Vec<Vec<Token>> = Vec::new();
    let mut current: Vec<Token> = Vec::new();
    let mut i: usize = 0;
    assert(group_views(groups@) =~= Seq::<Seq<TokenView>>::empty());
    assert(views(current@) =~= Seq::<TokenView>::empty());
    while i < arrow
        invariant
            ts == views(tokens@),
            left == ts.subrange(0, arrow as int),
            i <= arrow < tokens.len(),
            groups_from(left, 0, Seq::empty(), Seq::empty()) == groups_from(
                left,
                i as int,
                group_views(groups@),
                views(current@),
            ),
        decreases arrow - i,
    {
        assert(left[i as int] == ts[i as int]);
        if matches!(tokens[i], Token::Comma) {
            let mut done: Vec<Token> = Vec::new();
            std::mem::swap(&mut done, &mut current);
            let ghost before = groups@;
            let ghost dv = views(done@);
            groups.push(done);
            assert(group_views(groups@) =~= group_views(before).push(dv));
            assert(views(current@) =~= Seq::<TokenView>::empty());
        } else {
            let ghost before = current@;
            let t = tokens[i].duplicate();
            let ghost tv = t@;
            current.push(t);
            assert(views(current@) =~= views(before).push(tv));
        }
        i = i + 1;
    }
    let ghost before = groups@;
    let ghost cv = views(current@);
    groups.push(current);
    assert(group_views(groups@) =~= group_views(before).push(cv));
    Ok((groups, right))
}

/// The axes of all decompositions in one row.
fn concat_axes(decompositions: &Vec<Vec<Decomposition>>) -> (r: Vec<Decomposition>)
    ensures
        axis_views(r@) == all_axes(decomposition_views(decompositions@), decompositions@.len() as int),
{
    let ghost dv = decomposition_views(decompositions@);
    let mut out: Vec<Decomposition> = Vec::new();
    let mut t: usize = 0;
    assert(axis_views(out@) =~= Seq::<Axis>::empty());
    while t < decompositions.len()
        invariant
            dv == decomposition_views(decompositions@),
            t <= decompositions.len(),
            axis_views(out@) == all_axes(dv, t as int),
        decreases decompositions.len() - t,
    {
        let ghost start = out@;
        let mut k: usize = 0;
        assert(axis_views(out@) =~= axis_views(start) + dv[t as int].subrange(0, 0));
        while k < decompositions[t].len()
            invariant
                dv == decomposition_views(decompositions@),
                t < decompositions.len(),
                k <= decompositions@[t as int]@.len(),
                axis_views(out@) == axis_views(start) + dv[t as int].subrange(0, k as int),
            decreases decompositions@[t as int]@.len() - k,
        {
            let ghost before = out@;
            let a = decompositions[t][k].duplicate();
            let ghost av = a@;
            out.push(a);
            k = k + 1;
            assert(axis_views(out@) =~= axis_views(before).push(av));
            assert(dv[t as int].subrange(0, k as int) =~= dv[t as int].subrange(0, k - 1).push(av));
            assert(axis_views(out@) =~= axis_views(start) + dv[t as int].subrange(0, k as int));
        }
        assert(dv[t as int].subrange(0, k as int) =~= dv[t as int]);
        t = t + 1;
    }
    out
}

/// Compiles the tokens of a pattern for inputs of the given shapes.
///
/// The number of groups on the left must be the number of shapes; group `t`
/// describes the input with shape `shapes[t]`. See `compile` for the plan,
/// and for the errors and their order.
pub fn compile_tokens(tokens: &Vec<Token>, shapes: &Vec<Vec<usize>>) -> (r: Result<Plan, PatternError>)
    ensures
        plan_result(r) == spec_compile_tokens(views(tokens@), list_views(shapes@)),
{
    let ghost ts = views(tokens@);
    let ghost sv = list_views(shapes@);
    let (groups, right) = match split_pattern(tokens) {
        Err(e) => {
            return Err(e);
        },
        Ok(parts) => parts,
    };
    let ghost gv = group_views(groups@);
    if groups.len() != shapes.len() {
        return Err(PatternError::ArityMismatch);
    }
    let mut decompositions: Vec<Vec<Decomposition>> = Vec::new();
    let mut t: usize = 0;
    assert(decomposition_views(decompositions@) =~= Seq::<Seq<Axis>>::empty());
    while t < groups.len()
        invariant
            gv == group_views(groups@),
            t <= groups.len(),
            decompositions@.len() == t,
            parse_groups_from(gv, 0, Seq::empty()) == parse_groups_from(
                gv,
                t as int,
                decomposition_views(decompositions@),
            ),
            spec_split(ts) == Ok::<_, PatternError>((gv, views(right@))),
            groups.len() == sv.len(),
            ts == views(tokens@),
            sv == list_views(shapes@),
        decreases groups.len() - t,
    {
        match parse_decomposition(&groups[t]) {
            Err(e) => {
                return Err(e);
            },
            Ok(axes) => {
                let ghost before = decompositions@;
                let ghost av = axis_views(axes@);
                decompositions.push(axes);
                assert(decomposition_views(decompositions@) =~= decomposition_views(before).push(av));
            },
        }
        t = t + 1;
    }
    let ghost dv = decomposition_views(decompositions@);
    let flat = concat_axes(&decompositions);
    let (composition, permute, repeat) = match parse_composition_permute_repeat(&right, &flat) {
        Err(e) => {
            return Err(e);
        },
        Ok(lists) => lists,
    };
    let mut layout = Layout::new();
    let mut t: usize = 0;
    while t < decompositions.len()
        invariant
            dv == decomposition_views(decompositions@),
            sv == list_views(shapes@),
            ts == views(tokens@),
            t <= decompositions.len() == shapes.len(),
            layout_from_input(dv, sv, 0, LayoutState::start()) == layout_from_input(
                dv,
                sv,
                t as int,
                layout@,
            ),
            spec_split(ts) == Ok::<_, PatternError>((gv, views(right@))),
            gv.len() == sv.len(),
            parse_groups_from(gv, 0, Seq::empty()) == Ok::<_, PatternError>(dv),
            spec_parse_composition_permute_repeat(views(right@), all_axes(dv, dv.len() as int)) == Ok::<
                _,
                PatternError,
            >((composition@, permute@, repeat@)),
        decreases decompositions.len() - t,
    {
        match lay_out_input(&decompositions[t], &shapes[t], &mut layout) {
            Err(e) => {
                return Err(e);
            },
            Ok(()) => {},
        }
        t = t + 1;
    }
    assemble(layout, &composition, &permute, &repeat)
}

/// Compiles a pattern for inputs of the given shapes.
///
/// The pattern has the form `left -> right`. The left side holds one group
/// of axes for each input, the groups parted by commas; the right side
/// describes the output. The plan that is returned reshapes each input to the
/// sizes of its axes, reduces the axes marked with a reduction, permutes the
/// remaining axes into the order of the right side, inserts the axes that the
/// right side adds, and merges the groups of the right side; its `shape` is
/// the shape of the output.
///
/// Fails with the first error met, in this order: an error of the tokens
/// (`UnexpectedCharacter`, `SizeOverflow`); `MissingArrow` or
/// `RepeatedArrow`; `ArityMismatch` where the number of groups on the left
/// is not the number of shapes; the error of the first group on the left
/// that is not written in the notation; `DuplicateAxisName`; the first error
/// of the right side; the error of the first input whose shape does not fit
/// its group; `PlanInconsistent` or `SizeOverflow` from putting the plan
/// together.
pub fn compile(pattern: &str, shapes: &Vec<Vec<usize>>) -> (r: Result<Plan, PatternError>)
    ensures
        plan_result(r) == spec_compile(pattern@, list_views(shapes@)),
        spec_tokenize(pattern@) matches Ok(ts) ==> (spec_split(ts) matches Ok((groups, _)) ==> (
        groups.len() != shapes@.len() ==> r == Err::<Plan, _>(PatternError::ArityMismatch))),
{
    match tokenize(pattern) {
        Err(e) => Err(e),
        Ok(tokens) => compile_tokens(&tokens, shapes),
    }
}

} // verus!
