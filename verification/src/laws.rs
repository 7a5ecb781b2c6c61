//! What holds of every pattern: which errors each stage can report, when the
//! number of inputs is at fault, and what a plan that was built is like.

use crate::axis::Axis;
use crate::axis::Composition;
use crate::compile::first_arrow;
use crate::compile::groups_from;
use crate::compile::layout_from_input;
use crate::compile::lemma_first_arrow;
use crate::compile::parse_groups_from;
use crate::compile::spec_compile;
use crate::compile::spec_compile_tokens;
use crate::compile::spec_groups;
use crate::compile::spec_split;
use crate::error::ErrorKind;
use crate::error::PatternError;
use crate::index::Index;
use crate::layout::derived_size;
use crate::layout::item_end;
use crate::layout::layout_from;
use crate::layout::lemma_item_end;
use crate::layout::spec_layout_input;
use crate::layout::LayoutState;
use crate::left::left_group;
use crate::left::left_items;
use crate::left::lemma_group_advances;
use crate::left::lemma_member_advances;
use crate::left::slot_index;
use crate::left::spec_parse_decomposition;
use crate::left::spec_parse_member;
use crate::left::GroupState;
use crate::left::LeftState;
use crate::left::ellipsis_axis;
use crate::axis::ellipsis_name;
use crate::names::is_reduced_name;
use crate::names::lookup;
use crate::names::spec_name_table;
use crate::names::table_from;
use crate::names::Table;
use crate::plan::composition_ends;
use crate::plan::is_arrangement;
use crate::plan::merge_from;
use crate::plan::place_from;
use crate::plan::range_product;
use crate::plan::spec_assemble;
use crate::plan::Merged;
use crate::plan::Placed;
use crate::right::extend_ends;
use crate::right::lemma_right_group_advances;
use crate::right::lemma_right_member_advances;
use crate::right::right_group;
use crate::right::right_items;
use crate::right::spec_parse_composition_permute_repeat;
use crate::right::spec_right_member;
use crate::right::RightState;
use crate::token::spec_tokenize;
use crate::token::TokenView;
use vstd::prelude::*;

verus! {

/// The number of commas among the first `n` tokens.
pub open spec fn comma_count(ts: Seq<TokenView>, n: int) -> nat
    decreases n,
{
    if n <= 0 {
        0
    } else if ts[n - 1] is Comma {
        comma_count(ts, n - 1) + 1
    } else {
        comma_count(ts, n - 1)
    }
}

/// The commas from `i` on each close one group.
proof fn lemma_groups_from_len(ts: Seq<TokenView>, i: int, done: Seq<Seq<TokenView>>, current: Seq<TokenView>)
    requires
        0 <= i <= ts.len(),
    ensures
        groups_from(ts, i, done, current).len() + comma_count(ts, i) == done.len() + 1 + comma_count(
            ts,
            ts.len() as int,
        ),
    decreases ts.len() - i,
{
    if i < ts.len() {
        if ts[i] is Comma {
            lemma_groups_from_len(ts, i + 1, done.push(current), Seq::empty());
        } else {
            lemma_groups_from_len(ts, i + 1, done, current.push(ts[i]));
        }
    }
}

/// A left side has one group more than it has commas.
pub proof fn law_group_count(left: Seq<TokenView>)
    ensures
        spec_groups(left).len() == comma_count(left, left.len() as int) + 1,
{
    lemma_groups_from_len(left, 0, Seq::empty(), Seq::empty());
}

/// The errors that reading the left side can report.
pub open spec fn is_left_error(e: PatternError) -> bool {
    e == PatternError::UnexpectedToken || e == PatternError::UnbalancedGroup || e
        == PatternError::EmptyGroup || e == PatternError::EllipsisInGroupNotAllowed || e
        == PatternError::AnonymousSizeNotAllowed || e == PatternError::AmbiguousDerivedSize || e
        == PatternError::SizeOverflow
}

/// The errors that reading the right side can report.
pub open spec fn is_right_error(e: PatternError) -> bool {
    e == PatternError::DuplicateAxisName || e == PatternError::UnexpectedToken || e
        == PatternError::UnbalancedGroup || e == PatternError::EmptyGroup || e
        == PatternError::EllipsisSideMismatch || e == PatternError::ReferenceToReducedAxis || e
        == PatternError::UnresolvedAxisNeedsSize
}

/// The errors that laying out an input can report.
pub open spec fn is_layout_error(e: PatternError) -> bool {
    e == PatternError::RankMismatch || e == PatternError::AmbiguousDerivedSize || e
        == PatternError::SizeOverflow || e == PatternError::ShapeNotDivisible || e
        == PatternError::ShapeMismatch
}

/// The errors that putting the plan together can report.
pub open spec fn is_assemble_error(e: PatternError) -> bool {
    e == PatternError::PlanInconsistent || e == PatternError::SizeOverflow
}

proof fn lemma_left_group_errors(ts: Seq<TokenView>, at: int, index: Index, state: GroupState)
    ensures
        left_group(ts, at, index, state) matches Err(e) ==> is_left_error(e),
    decreases ts.len() - at,
{
    if 0 <= at < ts.len() && (ts[at] is Ident || ts[at] is Reduce) {
        lemma_member_advances(ts, at);
        match spec_parse_member(ts, at) {
            Err(e) => {},
            Ok((name, shape, operation, next)) => {
                match shape {
                    Some(size) => {
                        if state.product * size <= usize::MAX {
                            lemma_left_group_errors(
                                ts,
                                next,
                                index,
                                GroupState {
                                    named: state.named.push(
                                        Axis::Named { name, index, operation, shape: Some(size) },
                                    ),
                                    derived: state.derived,
                                    product: (state.product * size) as usize,
                                },
                            );
                        }
                    },
                    None => {
                        if state.derived is None {
                            lemma_left_group_errors(
                                ts,
                                next,
                                index,
                                GroupState {
                                    named: state.named,
                                    derived: Some((name, state.named.len() as int)),
                                    product: state.product,
                                },
                            );
                        }
                    },
                }
            },
        }
    }
}

proof fn lemma_left_items_errors(ts: Seq<TokenView>, at: int, state: LeftState)
    ensures
        left_items(ts, at, state) matches Err(e) ==> is_left_error(e),
    decreases ts.len() - at,
{
    if 0 <= at < ts.len() {
        let index = slot_index(state.slot, state.past_ellipsis);
        match ts[at] {
            TokenView::Open => {
                lemma_left_group_errors(ts, at + 1, index, GroupState::start());
                lemma_group_advances(ts, at + 1, index, GroupState::start());
                match left_group(ts, at + 1, index, GroupState::start()) {
                    Err(e) => {},
                    Ok((members, next)) => {
                        lemma_left_items_errors(ts, next, state.after(members, false));
                    },
                }
            },
            TokenView::Ident(_) | TokenView::Reduce(_) => {
                lemma_member_advances(ts, at);
                match spec_parse_member(ts, at) {
                    Err(e) => {},
                    Ok((name, shape, operation, next)) => {
                        lemma_left_items_errors(
                            ts,
                            next,
                            state.after(seq![Axis::Named { name, index, operation, shape }], false),
                        );
                    },
                }
            },
            TokenView::Ellipsis => {
                lemma_left_items_errors(ts, at + 1, state.after(seq![ellipsis_axis(state.slot)], true));
            },
            _ => {},
        }
    }
}

/// Reading the left side of one input fails only with an error of the
/// notation, with `AmbiguousDerivedSize` or with `SizeOverflow`.
pub proof fn law_left_errors(ts: Seq<TokenView>)
    ensures
        spec_parse_decomposition(ts) matches Err(e) ==> is_left_error(e),
{
    lemma_left_items_errors(ts, 0, LeftState::start());
}

proof fn lemma_parse_groups_errors(groups: Seq<Seq<TokenView>>, t: int, acc: Seq<Seq<Axis>>)
    ensures
        parse_groups_from(groups, t, acc) matches Err(e) ==> is_left_error(e),
    decreases groups.len() - t,
{
    if 0 <= t < groups.len() {
        law_left_errors(groups[t]);
        match spec_parse_decomposition(groups[t]) {
            Err(e) => {},
            Ok(axes) => {
                lemma_parse_groups_errors(groups, t + 1, acc.push(axes));
            },
        }
    }
}

proof fn lemma_table_errors(axes: Seq<Axis>, at: int, acc: Table)
    ensures
        table_from(axes, at, acc) matches Err(e) ==> e == PatternError::DuplicateAxisName,
    decreases axes.len() - at,
{
    if 0 <= at < axes.len() {
        if axes[at].is_reduced() {
            lemma_table_errors(axes, at + 1, acc);
        } else {
            lemma_table_errors(
                axes,
                at + 1,
                acc.push((axes[at].name(), axes[at].index().spec_with_position(acc.len() as usize))),
            );
        }
    }
}

proof fn lemma_right_group_errors(
    ts: Seq<TokenView>,
    at: int,
    table: Table,
    axes: Seq<Axis>,
    state: RightState,
    ends: Option<(Index, Option<Index>)>,
)
    ensures
        right_group(ts, at, table, axes, state, ends) matches Err(e) ==> is_right_error(e),
    decreases ts.len() - at,
{
    if 0 <= at < ts.len() && (ts[at] is Ident || ts[at] is Size || ts[at] is Ellipsis) {
        lemma_right_member_advances(ts, at, table, axes, state.past_ellipsis);
        match spec_right_member(ts, at, table, axes, state.past_ellipsis) {
            Err(e) => {},
            Ok((placement, ellipsis, next)) => {
                lemma_right_group_errors(
                    ts,
                    next,
                    table,
                    axes,
                    state.place(placement, ellipsis),
                    extend_ends(ends, state.here(ellipsis)),
                );
            },
        }
    }
}

proof fn lemma_right_items_errors(
    ts: Seq<TokenView>,
    at: int,
    table: Table,
    axes: Seq<Axis>,
    state: RightState,
)
    ensures
        right_items(ts, at, table, axes, state) matches Err(e) ==> is_right_error(e),
    decreases ts.len() - at,
{
    if 0 <= at < ts.len() {
        match ts[at] {
            TokenView::Open => {
                lemma_right_group_errors(ts, at + 1, table, axes, state, None);
                lemma_right_group_advances(ts, at + 1, table, axes, state, None);
                match right_group(ts, at + 1, table, axes, state, None) {
                    Err(e) => {},
                    Ok((behind, next)) => {
                        lemma_right_items_errors(ts, next, table, axes, behind);
                    },
                }
            },
            TokenView::Ident(_) | TokenView::Size(_) | TokenView::Ellipsis => {
                lemma_right_member_advances(ts, at, table, axes, state.past_ellipsis);
                match spec_right_member(ts, at, table, axes, state.past_ellipsis) {
                    Err(e) => {},
                    Ok((placement, ellipsis, next)) => {
                        lemma_right_items_errors(
                            ts,
                            next,
                            table,
                            axes,
                            state.place(placement, ellipsis).compose(
                                Composition::Individual(state.here(ellipsis)),
                            ),
                        );
                    },
                }
            },
            _ => {},
        }
    }
}

/// Reading the right side fails only with an error of the names, of the
/// ellipsis or of the notation.
pub proof fn law_right_errors(ts: Seq<TokenView>, axes: Seq<Axis>)
    ensures
        spec_parse_composition_permute_repeat(ts, axes) matches Err(e) ==> is_right_error(e),
{
    lemma_table_errors(axes, 0, Seq::empty());
    match spec_name_table(axes) {
        Err(e) => {},
        Ok(table) => {
            lemma_right_items_errors(ts, 0, table, axes, RightState::start());
        },
    }
}

proof fn lemma_layout_from_errors(
    axes: Seq<Axis>,
    shape: Seq<usize>,
    width: nat,
    a: int,
    d: int,
    state: LayoutState,
)
    ensures
        layout_from(axes, shape, width, a, d, state) matches Err(e) ==> is_layout_error(e),
    decreases axes.len() - a,
{
    if 0 <= a < axes.len() {
        if axes[a].is_ellipsis() {
            lemma_layout_from_errors(
                axes,
                shape,
                width,
                a + 1,
                d + width,
                state.add_ellipsis(shape.subrange(d, d + width)),
            );
        } else {
            lemma_item_end(axes, a, a + 1);
            match derived_size(axes, a, item_end(axes, a), shape[d]) {
                Err(e) => {},
                Ok(derived) => {
                    lemma_layout_from_errors(
                        axes,
                        shape,
                        width,
                        item_end(axes, a),
                        d + 1,
                        state.add_item(axes, a, item_end(axes, a), derived),
                    );
                },
            }
        }
    }
}

/// Laying out an input fails only with an error of its shape or with
/// `SizeOverflow`.
pub proof fn law_layout_errors(axes: Seq<Axis>, shape: Seq<usize>, state: LayoutState)
    ensures
        spec_layout_input(axes, shape, state) matches Err(e) ==> is_layout_error(e),
{
    lemma_layout_from_errors(axes, shape, crate::layout::ellipsis_width(axes, shape.len()), 0, 0, state);
}

proof fn lemma_layout_inputs_errors(
    decompositions: Seq<Seq<Axis>>,
    shapes: Seq<Seq<usize>>,
    t: int,
    state: LayoutState,
)
    ensures
        layout_from_input(decompositions, shapes, t, state) matches Err(e) ==> is_layout_error(e),
    decreases decompositions.len() - t,
{
    if 0 <= t < decompositions.len() {
        law_layout_errors(decompositions[t], shapes[t], state);
        match spec_layout_input(decompositions[t], shapes[t], state) {
            Err(e) => {},
            Ok(next) => {
                lemma_layout_inputs_errors(decompositions, shapes, t + 1, next);
            },
        }
    }
}

proof fn lemma_place_errors(
    permute: Seq<Index>,
    repeat: Seq<(Index, usize)>,
    widths: Seq<usize>,
    kept: Seq<usize>,
    pi: int,
    ri: int,
    acc: Placed,
)
    ensures
        place_from(permute, repeat, widths, kept, pi, ri, acc) matches Err(e) ==> e
            == PatternError::PlanInconsistent,
    decreases (permute.len() - pi) + (repeat.len() - ri),
{
    if pi < 0 || ri < 0 || pi > permute.len() || ri > repeat.len() || (pi == permute.len() && ri
        == repeat.len()) {
    } else if ri < repeat.len() && repeat[ri].0.position() == pi + ri {
        lemma_place_errors(permute, repeat, widths, kept, pi, ri + 1, acc.add_repeat(repeat[ri].1));
    } else if pi < permute.len() {
        lemma_place_errors(
            permute,
            repeat,
            widths,
            kept,
            pi + 1,
            ri,
            acc.add_source(
                crate::plan::prefix_sum(widths, permute[pi].position() as int),
                widths[permute[pi].position() as int] as nat,
                kept,
            ),
        );
    }
}

proof fn lemma_merge_errors(
    composition: Seq<Composition>,
    starts: Seq<usize>,
    sizes: Seq<usize>,
    k: int,
    expected: int,
    acc: Merged,
)
    ensures
        merge_from(composition, starts, sizes, k, expected, acc) matches Err(e) ==> is_assemble_error(e),
    decreases composition.len() - k,
{
    if 0 <= k < composition.len() {
        let (lo, hi) = composition_ends(composition[k]);
        if !(lo != expected || hi < lo || hi >= starts.len() - 1) {
            let a = starts[lo as int] as int;
            let b = starts[hi + 1] as int;
            match composition[k] {
                Composition::Individual(_) => {
                    lemma_merge_errors(
                        composition,
                        starts,
                        sizes,
                        k + 1,
                        hi + 1,
                        Merged { merges: acc.merges, shape: acc.shape + sizes.subrange(a, b) },
                    );
                },
                Composition::Combined { .. } => {
                    match range_product(sizes, a, b) {
                        None => {},
                        Some(product) => {
                            lemma_merge_errors(
                                composition,
                                starts,
                                sizes,
                                k + 1,
                                hi + 1,
                                Merged {
                                    merges: acc.merges.push((a as usize, (b - a) as usize)),
                                    shape: acc.shape.push(product),
                                },
                            );
                        },
                    }
                },
            }
        }
    }
}

/// Putting a plan together fails only with `PlanInconsistent` or
/// `SizeOverflow`.
pub proof fn law_assemble_errors(
    layout: LayoutState,
    composition: Seq<Composition>,
    permute: Seq<Index>,
    repeat: Seq<(Index, usize)>,
)
    ensures
        spec_assemble(layout, composition, permute, repeat) matches Err(e) ==> is_assemble_error(e),
{
    lemma_place_errors(permute, repeat, layout.slot_widths, layout.kept, 0, 0, Placed::start());
    match place_from(permute, repeat, layout.slot_widths, layout.kept, 0, 0, Placed::start()) {
        Err(e) => {},
        Ok(placed) => {
            lemma_merge_errors(
                composition,
                placed.starts,
                placed.sizes,
                0,
                0,
                Merged { merges: Seq::empty(), shape: Seq::empty() },
            );
        },
    }
}

/// Tokens that hold one `->` are compiled with an arity error exactly if the
/// number of shapes is not the number of groups on the left, which is the
/// number of commas before the `->` and one: no other fault of the pattern
/// or of the shapes is reported as an arity error, and none hides one.
pub proof fn law_arity(ts: Seq<TokenView>, shapes: Seq<Seq<usize>>)
    requires
        spec_split(ts) is Ok,
    ensures
        spec_compile_tokens(ts, shapes) == Err::<crate::plan::PlanView, _>(PatternError::ArityMismatch)
            <==> spec_split(ts)->Ok_0.0.len() != shapes.len(),
        spec_split(ts)->Ok_0.0.len() == comma_count(ts, first_arrow(ts, 0)) + 1,
{
    let (groups, right) = spec_split(ts)->Ok_0;
    let arrow = first_arrow(ts, 0);
    lemma_first_arrow(ts, 0);
    law_group_count(ts.subrange(0, arrow));
    lemma_comma_count_prefix(ts, arrow, arrow);
    if groups.len() == shapes.len() {
        lemma_parse_groups_errors(groups, 0, Seq::empty());
        match parse_groups_from(groups, 0, Seq::empty()) {
            Err(e) => {},
            Ok(decompositions) => {
                let axes = crate::compile::all_axes(decompositions, decompositions.len() as int);
                law_right_errors(right, axes);
                match spec_parse_composition_permute_repeat(right, axes) {
                    Err(e) => {},
                    Ok((composition, permute, repeat)) => {
                        lemma_layout_inputs_errors(decompositions, shapes, 0, LayoutState::start());
                        match layout_from_input(decompositions, shapes, 0, LayoutState::start()) {
                            Err(e) => {},
                            Ok(layout) => {
                                law_assemble_errors(layout, composition, permute, repeat);
                            },
                        }
                    },
                }
            },
        }
    }
}

/// The commas of a prefix are those of the whole up to its end.
proof fn lemma_comma_count_prefix(ts: Seq<TokenView>, end: int, n: int)
    requires
        0 <= n <= end <= ts.len(),
    ensures
        comma_count(ts.subrange(0, end), n) == comma_count(ts, n),
    decreases n,
{
    if n > 0 {
        lemma_comma_count_prefix(ts, end, n - 1);
    }
}

/// A pattern is compiled with an arity error exactly if its text is made of
/// tokens, holds one `->`, and has another number of groups on the left than
/// there are shapes.
pub proof fn law_arity_of_patterns(pattern: Seq<char>, shapes: Seq<Seq<usize>>)
    ensures
        spec_compile(pattern, shapes) == Err::<crate::plan::PlanView, _>(PatternError::ArityMismatch) <==> (
        spec_tokenize(pattern) matches Ok(ts) && (spec_split(ts) matches Ok((groups, _)) && groups.len()
            != shapes.len())),
{
    match spec_tokenize(pattern) {
        Err(e) => {
            crate::token::lemma_tokenize_errors(pattern);
        },
        Ok(ts) => {
            if spec_split(ts) is Ok {
                law_arity(ts, shapes);
            }
        },
    }
}

/// Whether an axis that no reduction removes is called `name`.
pub open spec fn is_nameable_name(axes: Seq<Axis>, name: Seq<char>) -> bool {
    exists|k: int| 0 <= k < axes.len() && !(#[trigger] axes[k]).is_reduced() && axes[k].name() == name
}

proof fn lemma_lookup_names(table: Table, axes: Seq<Axis>, name: Seq<char>)
    requires
        forall|j: int| 0 <= j < table.len() ==> is_nameable_name(axes, (#[trigger] table[j]).0),
    ensures
        lookup(table, name) is Some ==> is_nameable_name(axes, name),
    decreases table.len(),
{
    if table.len() > 0 && table.last().0 != name {
        assert forall|j: int| 0 <= j < table.drop_last().len() implies is_nameable_name(
            axes,
            (#[trigger] table.drop_last()[j]).0,
        ) by {
            assert(table.drop_last()[j] == table[j]);
        }
        lemma_lookup_names(table.drop_last(), axes, name);
    } else if table.len() > 0 {
        assert(is_nameable_name(axes, table[table.len() - 1].0));
    }
}

proof fn lemma_table_names(axes: Seq<Axis>, at: int, acc: Table)
    requires
        forall|j: int| 0 <= j < acc.len() ==> is_nameable_name(axes, (#[trigger] acc[j]).0),
    ensures
        table_from(axes, at, acc) matches Ok(table) ==> forall|j: int|
            0 <= j < table.len() ==> is_nameable_name(axes, (#[trigger] table[j]).0),
    decreases axes.len() - at,
{
    if 0 <= at < axes.len() {
        if axes[at].is_reduced() {
            lemma_table_names(axes, at + 1, acc);
        } else if lookup(acc, axes[at].name()) is None {
            let entry = (axes[at].name(), axes[at].index().spec_with_position(acc.len() as usize));
            let next = acc.push(entry);
            assert forall|j: int| 0 <= j < next.len() implies is_nameable_name(axes, (#[trigger] next[j]).0) by {
                if j < acc.len() {
                    assert(next[j] == acc[j]);
                } else {
                    assert(!axes[at].is_reduced() && axes[at].name() == next[j].0);
                }
            }
            lemma_table_names(axes, at + 1, next);
        }
    }
}

/// The name table holds only names of axes that no reduction removes.
pub proof fn law_table_names(axes: Seq<Axis>, name: Seq<char>)
    ensures
        spec_name_table(axes) matches Ok(table) ==> (lookup(table, name) is Some ==> is_nameable_name(
            axes,
            name,
        )),
{
    lemma_table_names(axes, 0, Seq::empty());
    match spec_name_table(axes) {
        Err(e) => {},
        Ok(table) => {
            lemma_lookup_names(table, axes, name);
        },
    }
}

/// Whether the token in place `i` is a name that the table does not hold and
/// that a reduced axis carries.
pub open spec fn names_reduced_only(ts: Seq<TokenView>, i: int, table: Table, axes: Seq<Axis>) -> bool {
    0 <= i < ts.len() && (ts[i] matches TokenView::Ident(name) && lookup(table, name) is None
        && is_reduced_name(axes, name))
}

proof fn lemma_group_meets_reduced(
    ts: Seq<TokenView>,
    at: int,
    table: Table,
    axes: Seq<Axis>,
    state: RightState,
    ends: Option<(Index, Option<Index>)>,
    i: int,
)
    requires
        0 <= at <= i,
        names_reduced_only(ts, i, table, axes),
    ensures
        right_group(ts, at, table, axes, state, ends) matches Ok((_, next)) ==> next <= i,
    decreases ts.len() - at,
{
    if at < i && (ts[at] is Ident || ts[at] is Size || ts[at] is Ellipsis) {
        lemma_right_member_advances(ts, at, table, axes, state.past_ellipsis);
        match spec_right_member(ts, at, table, axes, state.past_ellipsis) {
            Err(e) => {},
            Ok((placement, ellipsis, next)) => {
                assert(next <= i);
                lemma_group_meets_reduced(
                    ts,
                    next,
                    table,
                    axes,
                    state.place(placement, ellipsis),
                    extend_ends(ends, state.here(ellipsis)),
                    i,
                );
            },
        }
    }
}

proof fn lemma_items_meet_reduced(
    ts: Seq<TokenView>,
    at: int,
    table: Table,
    axes: Seq<Axis>,
    state: RightState,
    i: int,
)
    requires
        0 <= at <= i,
        names_reduced_only(ts, i, table, axes),
    ensures
        right_items(ts, at, table, axes, state) is Err,
    decreases ts.len() - at,
{
    if at < i {
        match ts[at] {
            TokenView::Open => {
                lemma_group_meets_reduced(ts, at + 1, table, axes, state, None, i);
                lemma_right_group_advances(ts, at + 1, table, axes, state, None);
                match right_group(ts, at + 1, table, axes, state, None) {
                    Err(e) => {},
                    Ok((behind, next)) => {
                        lemma_items_meet_reduced(ts, next, table, axes, behind, i);
                    },
                }
            },
            TokenView::Ident(_) | TokenView::Size(_) | TokenView::Ellipsis => {
                lemma_right_member_advances(ts, at, table, axes, state.past_ellipsis);
                match spec_right_member(ts, at, table, axes, state.past_ellipsis) {
                    Err(e) => {},
                    Ok((placement, ellipsis, next)) => {
                        assert(next <= i);
                        lemma_items_meet_reduced(
                            ts,
                            next,
                            table,
                            axes,
                            state.place(placement, ellipsis).compose(
                                Composition::Individual(state.here(ellipsis)),
                            ),
                            i,
                        );
                    },
                }
            },
            _ => {},
        }
    }
}

/// A right side that names an axis which a reduction removed, and which no
/// remaining axis is called like, is rejected.
pub proof fn law_reduced_reference_fails(ts: Seq<TokenView>, axes: Seq<Axis>, i: int)
    requires
        0 <= i < ts.len(),
        ts[i] matches TokenView::Ident(name) && is_reduced_name(axes, name) && !is_nameable_name(
            axes,
            name,
        ),
    ensures
        spec_parse_composition_permute_repeat(ts, axes) is Err,
{
    match spec_name_table(axes) {
        Err(e) => {},
        Ok(table) => {
            law_table_names(axes, ts[i]->Ident_0);
            lemma_items_meet_reduced(ts, 0, table, axes, RightState::start(), i);
        },
    }
}

/// Whether an ellipsis stands among the tokens from `a` up to `b`.
pub open spec fn ellipsis_between(ts: Seq<TokenView>, a: int, b: int) -> bool {
    exists|j: int| a <= j < b && 0 <= j < ts.len() && #[trigger] ts[j] is Ellipsis
}

proof fn lemma_member_ellipsis(
    ts: Seq<TokenView>,
    at: int,
    table: Table,
    axes: Seq<Axis>,
    past_ellipsis: bool,
)
    requires
        0 <= at < ts.len(),
    ensures
        spec_right_member(ts, at, table, axes, past_ellipsis) matches Ok((_, ellipsis, next)) ==> (ellipsis
            <==> ellipsis_between(ts, at, next)) && (ellipsis ==> lookup(table, ellipsis_name()) is Some),
{
    match spec_right_member(ts, at, table, axes, past_ellipsis) {
        Err(e) => {},
        Ok((placement, ellipsis, next)) => {
            if ellipsis {
                assert(ts[at] is Ellipsis);
            } else {
                assert forall|j: int| at <= j < next && 0 <= j < ts.len() implies !(#[trigger] ts[j]
                    is Ellipsis) by {
                    if j == at + 1 {
                        assert(ts[at + 1] is Colon);
                    } else if j == at + 2 {
                        assert(ts[at + 2] is Size);
                    }
                }
            }
        },
    }
}

proof fn lemma_group_ellipsis(
    ts: Seq<TokenView>,
    at: int,
    table: Table,
    axes: Seq<Axis>,
    state: RightState,
    ends: Option<(Index, Option<Index>)>,
)
    requires
        0 <= at,
        state.past_ellipsis ==> lookup(table, ellipsis_name()) is Some,
    ensures
        right_group(ts, at, table, axes, state, ends) matches Ok((behind, next)) ==> (behind.past_ellipsis
            <==> state.past_ellipsis || ellipsis_between(ts, at, next)) && (behind.past_ellipsis
            ==> lookup(table, ellipsis_name()) is Some),
    decreases ts.len() - at,
{
    if at < ts.len() && (ts[at] is Ident || ts[at] is Size || ts[at] is Ellipsis) {
        lemma_right_member_advances(ts, at, table, axes, state.past_ellipsis);
        lemma_member_ellipsis(ts, at, table, axes, state.past_ellipsis);
        match spec_right_member(ts, at, table, axes, state.past_ellipsis) {
            Err(e) => {},
            Ok((placement, ellipsis, next)) => {
                let after = state.place(placement, ellipsis);
                let ends2 = extend_ends(ends, state.here(ellipsis));
                lemma_group_ellipsis(ts, next, table, axes, after, ends2);
                match right_group(ts, next, table, axes, after, ends2) {
                    Err(e) => {},
                    Ok((behind, last)) => {
                        lemma_right_group_advances(ts, next, table, axes, after, ends2);
                        lemma_ellipsis_between_join(ts, at, next, last);
                    },
                }
            },
        }
    } else if at < ts.len() && ts[at] is Close {
        assert(!ellipsis_between(ts, at, at + 1));
    }
}

/// An ellipsis stands in a run exactly if it stands in one of its two parts.
proof fn lemma_ellipsis_between_join(ts: Seq<TokenView>, a: int, b: int, c: int)
    requires
        a <= b <= c,
    ensures
        ellipsis_between(ts, a, c) <==> ellipsis_between(ts, a, b) || ellipsis_between(ts, b, c),
{
    if ellipsis_between(ts, a, c) {
        let j = choose|j: int| a <= j < c && 0 <= j < ts.len() && #[trigger] ts[j] is Ellipsis;
        if j < b {
            assert(ellipsis_between(ts, a, b));
        } else {
            assert(ellipsis_between(ts, b, c));
        }
    }
    if ellipsis_between(ts, a, b) {
        let j = choose|j: int| a <= j < b && 0 <= j < ts.len() && #[trigger] ts[j] is Ellipsis;
        assert(a <= j < c && ts[j] is Ellipsis);
    }
    if ellipsis_between(ts, b, c) {
        let j = choose|j: int| b <= j < c && 0 <= j < ts.len() && #[trigger] ts[j] is Ellipsis;
        assert(a <= j < c && ts[j] is Ellipsis);
    }
}

proof fn lemma_items_ellipsis(ts: Seq<TokenView>, at: int, table: Table, axes: Seq<Axis>, state: RightState)
    requires
        0 <= at,
        state.past_ellipsis ==> lookup(table, ellipsis_name()) is Some,
    ensures
        right_items(ts, at, table, axes, state) is Ok ==> (lookup(table, ellipsis_name()) is Some
            <==> state.past_ellipsis || ellipsis_between(ts, at, ts.len() as int)),
    decreases ts.len() - at,
{
    if at < ts.len() {
        match ts[at] {
            TokenView::Open => {
                lemma_group_ellipsis(ts, at + 1, table, axes, state, None);
                lemma_right_group_advances(ts, at + 1, table, axes, state, None);
                match right_group(ts, at + 1, table, axes, state, None) {
                    Err(e) => {},
                    Ok((behind, next)) => {
                        lemma_items_ellipsis(ts, next, table, axes, behind);
                        assert(!ellipsis_between(ts, at, at + 1));
                        lemma_ellipsis_between_join(ts, at, at + 1, next);
                        lemma_ellipsis_between_join(ts, at, next, ts.len() as int);
                    },
                }
            },
            TokenView::Ident(_) | TokenView::Size(_) | TokenView::Ellipsis => {
                lemma_right_member_advances(ts, at, table, axes, state.past_ellipsis);
                lemma_member_ellipsis(ts, at, table, axes, state.past_ellipsis);
                match spec_right_member(ts, at, table, axes, state.past_ellipsis) {
                    Err(e) => {},
                    Ok((placement, ellipsis, next)) => {
                        lemma_items_ellipsis(
                            ts,
                            next,
                            table,
                            axes,
                            state.place(placement, ellipsis).compose(
                                Composition::Individual(state.here(ellipsis)),
                            ),
                        );
                        lemma_ellipsis_between_join(ts, at, next, ts.len() as int);
                    },
                }
            },
            _ => {},
        }
    } else {
        assert(!ellipsis_between(ts, at, ts.len() as int));
    }
}

/// Where the right side is accepted, it holds an ellipsis exactly if the
/// name table of the left side does.
pub proof fn law_ellipsis_balance(ts: Seq<TokenView>, axes: Seq<Axis>)
    requires
        spec_parse_composition_permute_repeat(ts, axes) is Ok,
    ensures
        lookup(spec_name_table(axes)->Ok_0, ellipsis_name()) is Some <==> ellipsis_between(
            ts,
            0,
            ts.len() as int,
        ),
{
    lemma_items_ellipsis(ts, 0, spec_name_table(axes)->Ok_0, axes, RightState::start());
}

/// Every error belongs to the family under which it is listed.
pub proof fn law_error_families(e: PatternError)
    ensures
        is_left_error(e) ==> e.spec_kind() == ErrorKind::Grammar || e == PatternError::AmbiguousDerivedSize,
        is_right_error(e) ==> e.spec_kind() == ErrorKind::Grammar || e.spec_kind() == ErrorKind::Naming
            || e == PatternError::EllipsisSideMismatch,
        is_layout_error(e) ==> e.spec_kind() == ErrorKind::Shape || e == PatternError::SizeOverflow,
        is_assemble_error(e) ==> e.spec_kind() == ErrorKind::Consistency || e == PatternError::SizeOverflow,
{
}

} // verus!
