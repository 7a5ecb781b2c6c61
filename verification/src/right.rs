//! The right side of a pattern: the axes of the output.

use crate::axis::axis_views;
use crate::axis::ellipsis_name;
use crate::axis::Axis;
use crate::axis::Composition;
use crate::axis::Decomposition;
use crate::error::PatternError;
use crate::index::Index;
use crate::left::index_at;
use crate::left::lemma_member_advances;
use crate::left::parse_identifier;
use crate::left::slot_index;
use crate::left::spec_parse_identifier;
use crate::names::find_name;
use crate::names::is_reduced_name;
use crate::names::lookup;
use crate::names::name_table;
use crate::names::names_reduced_axis;
use crate::names::spec_name_table;
use crate::names::table_view;
use crate::names::Table;
use crate::token::views;
use crate::token::Token;
use crate::token::TokenView;
use vstd::prelude::*;
use vstd::string::StringExecFns;

verus! {

/// Where a member of the right side gets its data from.
#[derive(Clone, Copy, Debug, PartialEq, Eq)]
pub enum Placement {
    /// From the axis of the left side in this position.
    Source(Index),
    /// From nowhere: the member is a new axis of this length.
    Repeat(usize),
}

/// The member written at `at`: where its data comes from, whether it is the
/// ellipsis, and the position behind it.
///
/// A name that the table holds stands for that axis, whatever size is written
/// behind it. A bare number, and a name that the left side does not use and
/// that comes with a size, is a new axis.
pub open spec fn spec_right_member(
    ts: Seq<TokenView>,
    at: int,
    table: Table,
    axes: Seq<Axis>,
    past_ellipsis: bool,
) -> Result<(Placement, bool, int), PatternError>
    recommends
        0 <= at < ts.len(),
{
    match ts[at] {
        TokenView::Ellipsis => {
            match lookup(table, ellipsis_name()) {
                Some(source) => {
                    if past_ellipsis {
                        Err(PatternError::EllipsisSideMismatch)
                    } else {
                        Ok((Placement::Source(source), true, at + 1))
                    }
                },
                None => Err(PatternError::EllipsisSideMismatch),
            }
        },
        TokenView::Size(size) => Ok((Placement::Repeat(size), false, at + 1)),
        TokenView::Ident(_) => {
            match spec_parse_identifier(ts, at) {
                Err(e) => Err(e),
                Ok((name, shape, next)) => {
                    match lookup(table, name) {
                        Some(source) => Ok((Placement::Source(source), false, next)),
                        None => {
                            if is_reduced_name(axes, name) {
                                Err(PatternError::ReferenceToReducedAxis)
                            } else {
                                match shape {
                                    Some(size) => Ok((Placement::Repeat(size), false, next)),
                                    None => Err(PatternError::UnresolvedAxisNeedsSize),
                                }
                            }
                        },
                    }
                },
            }
        },
        _ => Err(PatternError::UnexpectedToken),
    }
}

/// A member ends behind its start and inside the tokens.
pub proof fn lemma_right_member_advances(
    ts: Seq<TokenView>,
    at: int,
    table: Table,
    axes: Seq<Axis>,
    past_ellipsis: bool,
)
    requires
        0 <= at < ts.len(),
    ensures
        spec_right_member(ts, at, table, axes, past_ellipsis) matches Ok((_, _, next)) ==> at < next
            <= ts.len(),
{
    lemma_member_advances(ts, at);
}

/// What has been read of the right side.
pub struct RightState {
    /// The axes of the output read so far.
    pub composition: Seq<Composition>,
    /// For each member that stands for an axis of the left side, that axis.
    pub permute: Seq<Index>,
    /// For each member that is a new axis, its position and its length.
    pub repeat: Seq<(Index, usize)>,
    /// The number of members read.
    pub slot: usize,
    /// Whether the ellipsis is among them.
    pub past_ellipsis: bool,
}

impl RightState {
    /// Nothing read yet.
    pub open spec fn start() -> RightState {
        RightState {
            composition: Seq::empty(),
            permute: Seq::empty(),
            repeat: Seq::empty(),
            slot: 0,
            past_ellipsis: false,
        }
    }

    /// The index of the member that is read next.
    pub open spec fn here(self, ellipsis: bool) -> Index {
        if ellipsis {
            Index::Range(self.slot)
        } else {
            slot_index(self.slot, self.past_ellipsis)
        }
    }

    /// The state after a member.
    pub open spec fn place(self, placement: Placement, ellipsis: bool) -> RightState {
        RightState {
            composition: self.composition,
            permute: match placement {
                Placement::Source(source) => self.permute.push(source),
                Placement::Repeat(_) => self.permute,
            },
            repeat: match placement {
                Placement::Source(_) => self.repeat,
                Placement::Repeat(size) => self.repeat.push((self.here(ellipsis), size)),
            },
            slot: (self.slot + 1) as usize,
            past_ellipsis: self.past_ellipsis || ellipsis,
        }
    }

    /// The state after an axis of the output is complete.
    pub open spec fn compose(self, axis: Composition) -> RightState {
        RightState {
            composition: self.composition.push(axis),
            permute: self.permute,
            repeat: self.repeat,
            slot: self.slot,
            past_ellipsis: self.past_ellipsis,
        }
    }
}

/// The ends of a group after one more member.
pub open spec fn extend_ends(ends: Option<(Index, Option<Index>)>, here: Index) -> Option<
    (Index, Option<Index>),
> {
    match ends {
        None => Some((here, None)),
        Some((from, _)) => Some((from, Some(here))),
    }
}

/// The state behind the group whose opening parenthesis stands before `at`,
/// given the state before its next member and the ends of the members read,
/// and the position behind its closing parenthesis.
pub open spec fn right_group(
    ts: Seq<TokenView>,
    at: int,
    table: Table,
    axes: Seq<Axis>,
    state: RightState,
    ends: Option<(Index, Option<Index>)>,
) -> Result<(RightState, int), PatternError>
    decreases ts.len() - at,
{
    if at < 0 || at >= ts.len() {
        Err(PatternError::UnbalancedGroup)
    } else {
        match ts[at] {
            TokenView::Close => {
                match ends {
                    None => Err(PatternError::EmptyGroup),
                    Some((from, to)) => Ok((state.compose(Composition::Combined { from, to }), at + 1)),
                }
            },
            TokenView::Ident(_) | TokenView::Size(_) | TokenView::Ellipsis => {
                match spec_right_member(ts, at, table, axes, state.past_ellipsis) {
                    Err(e) => Err(e),
                    Ok((placement, ellipsis, next)) => {
                        proof {
                            lemma_right_member_advances(ts, at, table, axes, state.past_ellipsis);
                        }
                        right_group(
                            ts,
                            next,
                            table,
                            axes,
                            state.place(placement, ellipsis),
                            extend_ends(ends, state.here(ellipsis)),
                        )
                    },
                }
            },
            _ => Err(PatternError::UnexpectedToken),
        }
    }
}

/// A group ends behind its start and inside the tokens.
pub proof fn lemma_right_group_advances(
    ts: Seq<TokenView>,
    at: int,
    table: Table,
    axes: Seq<Axis>,
    state: RightState,
    ends: Option<(Index, Option<Index>)>,
)
    ensures
        right_group(ts, at, table, axes, state, ends) matches Ok((_, next)) ==> at < next <= ts.len(),
    decreases ts.len() - at,
{
    if 0 <= at < ts.len() {
        if ts[at] is Ident || ts[at] is Size || ts[at] is Ellipsis {
            lemma_right_member_advances(ts, at, table, axes, state.past_ellipsis);
            match spec_right_member(ts, at, table, axes, state.past_ellipsis) {
                Err(e) => {},
                Ok((placement, ellipsis, next)) => {
                    lemma_right_group_advances(
                        ts,
                        next,
                        table,
                        axes,
                        state.place(placement, ellipsis),
                        extend_ends(ends, state.here(ellipsis)),
                    );
                },
            }
        }
    }
}

/// The three lists that the right side stands for, from the item at `at` on,
/// given the state before it; or the first error met.
pub open spec fn right_items(
    ts: Seq<TokenView>,
    at: int,
    table: Table,
    axes: Seq<Axis>,
    state: RightState,
) -> Result<(Seq<Composition>, Seq<Index>, Seq<(Index, usize)>), PatternError>
    decreases ts.len() - at,
{
    if at < 0 || at >= ts.len() {
        if lookup(table, ellipsis_name()) is Some && !state.past_ellipsis {
            Err(PatternError::EllipsisSideMismatch)
        } else {
            Ok((state.composition, state.permute, state.repeat))
        }
    } else {
        match ts[at] {
            TokenView::Open => {
                match right_group(ts, at + 1, table, axes, state, None) {
                    Err(e) => Err(e),
                    Ok((behind, next)) => {
                        proof {
                            lemma_right_group_advances(ts, at + 1, table, axes, state, None);
                        }
                        right_items(ts, next, table, axes, behind)
                    },
                }
            },
            TokenView::Ident(_) | TokenView::Size(_) | TokenView::Ellipsis => {
                match spec_right_member(ts, at, table, axes, state.past_ellipsis) {
                    Err(e) => Err(e),
                    Ok((placement, ellipsis, next)) => {
                        proof {
                            lemma_right_member_advances(ts, at, table, axes, state.past_ellipsis);
                        }
                        right_items(
                            ts,
                            next,
                            table,
                            axes,
                            state.place(placement, ellipsis).compose(
                                Composition::Individual(state.here(ellipsis)),
                            ),
                        )
                    },
                }
            },
            TokenView::Close => Err(PatternError::UnbalancedGroup),
            _ => Err(PatternError::UnexpectedToken),
        }
    }
}

/// The three lists that the right side stands for, against the axes of the
/// left side; or the first error met, a duplicate name on the left first.
pub open spec fn spec_parse_composition_permute_repeat(ts: Seq<TokenView>, axes: Seq<Axis>) -> Result<
    (Seq<Composition>, Seq<Index>, Seq<(Index, usize)>),
    PatternError,
> {
    match spec_name_table(axes) {
        Err(e) => Err(e),
        Ok(table) => right_items(ts, 0, table, axes, RightState::start()),
    }
}

/// The right side while it is read.
pub struct RightParser {
    /// The axes of the output read so far.
    pub composition: Vec<Composition>,
    /// For each member that stands for an axis of the left side, that axis.
    pub permute: Vec<Index>,
    /// For each member that is a new axis, its position and its length.
    pub repeat: Vec<(Index, usize)>,
    /// The number of members read.
    pub slot: usize,
    /// Whether the ellipsis is among them.
    pub past_ellipsis: bool,
}

impl View for RightParser {
    type V = RightState;

    open spec fn view(&self) -> RightState {
        RightState {
            composition: self.composition@,
            permute: self.permute@,
            repeat: self.repeat@,
            slot: self.slot,
            past_ellipsis: self.past_ellipsis,
        }
    }
}

impl RightParser {
    /// A parser that has read nothing.
    pub fn new() -> (r: RightParser)
        ensures
            r@ == RightState::start(),
    {
        RightParser {
            composition: Vec::new(),
            permute: Vec::new(),
            repeat: Vec::new(),
            slot: 0,
            past_ellipsis: false,
        }
    }

    /// The index of the member that is read next.
    pub fn here(&self, ellipsis: bool) -> (r: Index)
        ensures
            r == self@.here(ellipsis),
    {
        if ellipsis {
            Index::Range(self.slot)
        } else {
            index_at(self.slot, self.past_ellipsis)
        }
    }

    /// Records a member.
    pub fn place(&mut self, placement: Placement, ellipsis: bool)
        requires
            old(self).slot < usize::MAX,
        ensures
            final(self)@ == old(self)@.place(placement, ellipsis),
    {
        let here = self.here(ellipsis);
        match placement {
            Placement::Source(source) => {
                self.permute.push(source);
            },
            Placement::Repeat(size) => {
                self.repeat.push((here, size));
            },
        }
        self.slot = self.slot + 1;
        self.past_ellipsis = self.past_ellipsis || ellipsis;
    }

    /// Records that an axis of the output is complete.
    pub fn compose(&mut self, axis: Composition)
        ensures
            final(self)@ == old(self)@.compose(axis),
    {
        self.composition.push(axis);
    }
}

/// Reads the member at `at`, where a name, a number or the ellipsis stands.
fn right_member(
    tokens: &Vec<Token>,
    at: usize,
    table: &Vec<(String, Index)>,
    decomposition: &Vec<Decomposition>,
    past_ellipsis: bool,
) -> (r: Result<(Placement, bool, usize), PatternError>)
    requires
        at < tokens.len(),
    ensures
        match r {
            Ok((placement, ellipsis, next)) => spec_right_member(
                views(tokens@),
                at as int,
                table_view(table@),
                axis_views(decomposition@),
                past_ellipsis,
            ) == Ok::<_, PatternError>((placement, ellipsis, next as int)),
            Err(e) => spec_right_member(
                views(tokens@),
                at as int,
                table_view(table@),
                axis_views(decomposition@),
                past_ellipsis,
            ) == Err::<(Placement, bool, int), _>(e),
        },
{
    match &tokens[at] {
        Token::Ellipsis => {
            let name: String = String::from_str("..");
            proof {
                reveal_strlit("..");
                assert(name@ =~= ellipsis_name());
            }
            match find_name(table, &name) {
                Some(source) => {
                    if past_ellipsis {
                        Err(PatternError::EllipsisSideMismatch)
                    } else {
                        Ok((Placement::Source(source), true, at + 1))
                    }
                },
                None => Err(PatternError::EllipsisSideMismatch),
            }
        },
        Token::Size(size) => Ok((Placement::Repeat(*size), false, at + 1)),
        Token::Ident(_) => {
            match parse_identifier(tokens, at) {
                Err(e) => Err(e),
                Ok((name, shape, next)) => {
                    match find_name(table, &name) {
                        Some(source) => Ok((Placement::Source(source), false, next)),
                        None => {
                            if names_reduced_axis(decomposition, &name) {
                                Err(PatternError::ReferenceToReducedAxis)
                            } else {
                                match shape {
                                    Some(size) => Ok((Placement::Repeat(size), false, next)),
                                    None => Err(PatternError::UnresolvedAxisNeedsSize),
                                }
                            }
                        },
                    }
                },
            }
        },
        _ => Err(PatternError::UnexpectedToken),
    }
}

/// Reads the members of a parenthesized group on the right, from the token
/// behind its opening parenthesis on, and records them in `state`.
///
/// On success `state` holds, behind what it held, the members of the group
/// and one `Combined` axis for the group, from its first member to its last;
/// the position behind the closing parenthesis is returned. On failure
/// `state` holds what was read before the error.
///
/// Fails with `UnbalancedGroup` where the tokens end before the group does,
/// `EmptyGroup` for `()`, `UnexpectedToken` for a token that starts no
/// member, and whatever reading a member fails with.
pub fn parse_right_parenthesized(
    tokens: &Vec<Token>,
    at: usize,
    table: &Vec<(String, Index)>,
    decomposition: &Vec<Decomposition>,
    state: &mut RightParser,
) -> (r: Result<usize, PatternError>)
    requires
        old(state).slot <= at,
    ensures
        match r {
            Ok(next) => right_group(
                views(tokens@),
                at as int,
                table_view(table@),
                axis_views(decomposition@),
                old(state)@,
                None,
            ) == Ok::<_, PatternError>((final(state)@, next as int)) && final(state).slot <= next,
            Err(e) => right_group(
                views(tokens@),
                at as int,
                table_view(table@),
                axis_views(decomposition@),
                old(state)@,
                None,
            ) == Err::<(RightState, int), _>(e),
        },
{
    let ghost ts = views(tokens@);
    let ghost tv = table_view(table@);
    let ghost axes = axis_views(decomposition@);
    let mut ends: Option<(Index, Option<Index>)> = None;
    let mut i: usize = at;
    loop
        invariant
            ts == views(tokens@),
            tv == table_view(table@),
            axes == axis_views(decomposition@),
            at <= i,
            state.slot <= i,
            right_group(ts, at as int, tv, axes, old(state)@, None) == right_group(
                ts,
                i as int,
                tv,
                axes,
                state@,
                ends,
            ),
        decreases tokens.len() + 1 - i,
    {
        if i >= tokens.len() {
            return Err(PatternError::UnbalancedGroup);
        }
        match &tokens[i] {
            Token::Close => {
                match ends {
                    None => {
                        return Err(PatternError::EmptyGroup);
                    },
                    Some((from, to)) => {
                        state.compose(Composition::Combined { from: from, to: to });
                        return Ok(i + 1);
                    },
                }
            },
            Token::Ident(_) | Token::Size(_) | Token::Ellipsis => {
                proof {
                    lemma_right_member_advances(ts, i as int, tv, axes, state.past_ellipsis);
                }
                match right_member(tokens, i, table, decomposition, state.past_ellipsis) {
                    Err(e) => {
                        return Err(e);
                    },
                    Ok((placement, ellipsis, next)) => {
                        let here = state.here(ellipsis);
                        ends =
                        match ends {
                            None => Some((here, None)),
                            Some((from, _)) => Some((from, Some(here))),
                        };
                        state.place(placement, ellipsis);
                        i = next;
                    },
                }
            },
            _ => {
                return Err(PatternError::UnexpectedToken);
            },
        }
    }
}

/// Reads the right side of a pattern against the axes of the left side.
///
/// The members of the right side are numbered from 0, those of a group one by
/// one; a member before the ellipsis has a `Known` index, the ellipsis a
/// `Range` and a member behind it an `Unknown` one. Returns three lists:
/// - the axes of the output in order: `Individual` for a member that stands
///   alone, `Combined` for a group, from its first member to its last;
/// - for each member that names an axis of the left side, in order, the
///   position of that axis in the name table of `decomposition`;
/// - for each member that is a new axis, in order, its index and its length.
///
/// Fails with the first of: `DuplicateAxisName` where the left side uses a
/// name twice; then, from the left of the right side,
/// `EllipsisSideMismatch` for an ellipsis that the left side does not have or
/// that the right side has had already, `ReferenceToReducedAxis` for the name
/// of an axis that a reduction removed, `UnresolvedAxisNeedsSize` for a new
/// name without a size, `UnbalancedGroup`, `EmptyGroup` and `UnexpectedToken`
/// for what is not written in the notation; and at last
/// `EllipsisSideMismatch` where the left side has an ellipsis and the right
/// side has none.
pub fn parse_composition_permute_repeat(tokens: &Vec<Token>, decomposition: &Vec<Decomposition>) -> (r:
    Result<(Vec<Composition>, Vec<Index>, Vec<(Index, usize)>), PatternError>)
    ensures
        match r {
            Ok((composition, permute, repeat)) => spec_parse_composition_permute_repeat(
                views(tokens@),
                axis_views(decomposition@),
            ) == Ok::<_, PatternError>((composition@, permute@, repeat@)),
            Err(e) => spec_parse_composition_permute_repeat(
                views(tokens@),
                axis_views(decomposition@),
            ) == Err::<(Seq<Composition>, Seq<Index>, Seq<(Index, usize)>), _>(e),
        },
{
    let ghost ts = views(tokens@);
    let ghost axes = axis_views(decomposition@);
    let table: Vec<(String, Index)> = match name_table(decomposition) {
        Err(e) => {
            return Err(e);
        },
        Ok(table) => table,
    };
    let ghost tv = table_view(table@);
    let mut state = RightParser::new();
    let mut i: usize = 0;
    while i < tokens.len()
        invariant
            ts == views(tokens@),
            tv == table_view(table@),
            axes == axis_views(decomposition@),
            state.slot <= i <= tokens.len(),
            spec_name_table(axes) == Ok::<Table, PatternError>(tv),
            right_items(ts, 0, tv, axes, RightState::start()) == right_items(ts, i as int, tv, axes, state@),
        decreases tokens.len() - i,
    {
        match &tokens[i] {
            Token::Open => {
                proof {
                    lemma_right_group_advances(ts, i + 1, tv, axes, state@, None);
                }
                match parse_right_parenthesized(tokens, i + 1, &table, decomposition, &mut state) {
                    Err(e) => {
                        return Err(e);
                    },
                    Ok(next) => {
                        i = next;
                    },
                }
            },
            Token::Ident(_) | Token::Size(_) | Token::Ellipsis => {
                proof {
                    lemma_right_member_advances(ts, i as int, tv, axes, state.past_ellipsis);
                }
                match right_member(tokens, i, &table, decomposition, state.past_ellipsis) {
                    Err(e) => {
                        return Err(e);
                    },
                    Ok((placement, ellipsis, next)) => {
                        let here = state.here(ellipsis);
                        state.place(placement, ellipsis);
                        state.compose(Composition::Individual(here));
                        i = next;
                    },
                }
            },
            Token::Close => {
                return Err(PatternError::UnbalancedGroup);
            },
            _ => {
                return Err(PatternError::UnexpectedToken);
            },
        }
    }
    let name: String = String::from_str("..");
    proof {
        reveal_strlit("..");
        assert(name@ =~= ellipsis_name());
    }
    if find_name(&table, &name).is_some() && !state.past_ellipsis {
        return Err(PatternError::EllipsisSideMismatch);
    }
    Ok((state.composition, state.permute, state.repeat))
}

} // verus!
