//! The left side of a pattern: the axes of one input.

use crate::axis::axis_views;
use crate::axis::ellipsis_name;
use crate::axis::Axis;
use crate::axis::Decomposition;
use crate::error::PatternError;
use crate::index::Index;
use crate::operation::Operation;
use crate::token::views;
use crate::token::Token;
use crate::token::TokenView;
use vstd::prelude::*;
use vstd::string::StringExecFns;

verus! {

/// The index of the item in place `slot`: `Unknown` once an ellipsis has been passed.
pub open spec fn slot_index(slot: usize, past_ellipsis: bool) -> Index {
    if past_ellipsis {
        Index::Unknown(slot)
    } else {
        Index::Known(slot)
    }
}

/// The index of the item in place `slot`.
pub fn index_at(slot: usize, past_ellipsis: bool) -> (r: Index)
    ensures
        r == slot_index(slot, past_ellipsis),
{
    if past_ellipsis {
        Index::Unknown(slot)
    } else {
        Index::Known(slot)
    }
}

/// Whether the token at `at` is a reduction keyword.
pub open spec fn spec_peek_reduce_kw(ts: Seq<TokenView>, at: int) -> bool {
    0 <= at < ts.len() && ts[at] is Reduce
}

/// The number at `at`, where a number must stand.
pub open spec fn spec_parse_usize(ts: Seq<TokenView>, at: int) -> Result<usize, PatternError> {
    if 0 <= at < ts.len() {
        match ts[at] {
            TokenView::Size(size) => Ok(size),
            _ => Err(PatternError::UnexpectedToken),
        }
    } else {
        Err(PatternError::UnexpectedToken)
    }
}

/// The name at `at` with the size declared behind it, if any, and the
/// position behind both.
pub open spec fn spec_parse_identifier(ts: Seq<TokenView>, at: int) -> Result<
    (Seq<char>, Option<usize>, int),
    PatternError,
> {
    if 0 <= at < ts.len() {
        match ts[at] {
            TokenView::Ident(name) => {
                if at + 1 < ts.len() && ts[at + 1] is Colon {
                    match spec_parse_usize(ts, at + 2) {
                        Ok(size) => Ok((name, Some(size), at + 3)),
                        Err(e) => Err(e),
                    }
                } else {
                    Ok((name, None, at + 1))
                }
            },
            _ => Err(PatternError::UnexpectedToken),
        }
    } else {
        Err(PatternError::UnexpectedToken)
    }
}

/// The reduced axis at `at`: a keyword, then a name with its optional size in
/// parentheses; and the position behind it.
pub open spec fn spec_parse_reduce_fn(ts: Seq<TokenView>, at: int) -> Result<
    (Seq<char>, Option<usize>, Operation, int),
    PatternError,
> {
    if 0 <= at < ts.len() {
        match ts[at] {
            TokenView::Reduce(operation) => {
                if at + 1 < ts.len() && ts[at + 1] is Open {
                    match spec_parse_identifier(ts, at + 2) {
                        Ok((name, shape, next)) => {
                            if next < ts.len() && ts[next] is Close {
                                Ok((name, shape, operation, next + 1))
                            } else {
                                Err(PatternError::UnbalancedGroup)
                            }
                        },
                        Err(e) => Err(e),
                    }
                } else {
                    Err(PatternError::UnexpectedToken)
                }
            },
            _ => Err(PatternError::UnexpectedToken),
        }
    } else {
        Err(PatternError::UnexpectedToken)
    }
}

/// The axis written at `at`, with or without a reduction keyword.
pub open spec fn spec_parse_member(ts: Seq<TokenView>, at: int) -> Result<
    (Seq<char>, Option<usize>, Option<Operation>, int),
    PatternError,
> {
    if spec_peek_reduce_kw(ts, at) {
        match spec_parse_reduce_fn(ts, at) {
            Ok((name, shape, operation, next)) => Ok((name, shape, Some(operation), next)),
            Err(e) => Err(e),
        }
    } else {
        match spec_parse_identifier(ts, at) {
            Ok((name, shape, next)) => Ok((name, shape, None, next)),
            Err(e) => Err(e),
        }
    }
}

/// An axis written at `at` ends behind `at` and inside the tokens.
pub proof fn lemma_member_advances(ts: Seq<TokenView>, at: int)
    ensures
        spec_parse_identifier(ts, at) matches Ok((_, _, next)) ==> at < next <= ts.len(),
        spec_parse_reduce_fn(ts, at) matches Ok((_, _, _, next)) ==> at < next <= ts.len(),
        spec_parse_member(ts, at) matches Ok((_, _, _, next)) ==> at < next <= ts.len(),
{
}

/// What has been read of a parenthesized group on the left.
pub struct GroupState {
    /// The members with a declared size, in order.
    pub named: Seq<Axis>,
    /// The member without a declared size, with the number of members before it.
    pub derived: Option<(Seq<char>, int)>,
    /// The product of the declared sizes.
    pub product: usize,
}

impl GroupState {
    /// Nothing read yet.
    pub open spec fn start() -> GroupState {
        GroupState { named: Seq::empty(), derived: None, product: 1 }
    }

    /// The members of the group, the derived one in its place.
    pub open spec fn members(self, index: Index) -> Seq<Axis> {
        match self.derived {
            Some((name, before)) => self.named.insert(
                before,
                Axis::Derived { name, index, operation: None, shape_calc: self.product },
            ),
            None => self.named,
        }
    }
}

/// The members of the group whose opening parenthesis stands before `at`,
/// given what `state` holds of it already, and the position behind its
/// closing parenthesis.
///
/// A member without a declared size becomes the derived member; a reduction
/// keyword on it is not recorded.
pub open spec fn left_group(ts: Seq<TokenView>, at: int, index: Index, state: GroupState) -> Result<
    (Seq<Axis>, int),
    PatternError,
>
    decreases ts.len() - at,
{
    if at < 0 || at >= ts.len() {
        Err(PatternError::UnbalancedGroup)
    } else {
        match ts[at] {
            TokenView::Close => {
                if state.named.len() == 0 && state.derived is None {
                    Err(PatternError::EmptyGroup)
                } else {
                    Ok((state.members(index), at + 1))
                }
            },
            TokenView::Ellipsis => Err(PatternError::EllipsisInGroupNotAllowed),
            TokenView::Size(_) => Err(PatternError::AnonymousSizeNotAllowed),
            TokenView::Ident(_) | TokenView::Reduce(_) => {
                match spec_parse_member(ts, at) {
                    Err(e) => Err(e),
                    Ok((name, shape, operation, next)) => {
                        proof {
                            lemma_member_advances(ts, at);
                        }
                        match shape {
                            Some(size) => {
                                if state.product * size > usize::MAX {
                                    Err(PatternError::SizeOverflow)
                                } else {
                                    left_group(
                                        ts,
                                        next,
                                        index,
                                        GroupState {
                                            named: state.named.push(
                                                Axis::Named { name, index, operation, shape: Some(size) },
                                            ),
                                            derived: state.derived,
                                            product: (state.product * size) as usize,
                                        },
                                    )
                                }
                            },
                            None => {
                                if state.derived is Some {
                                    Err(PatternError::AmbiguousDerivedSize)
                                } else {
                                    left_group(
                                        ts,
                                        next,
                                        index,
                                        GroupState {
                                            named: state.named,
                                            derived: Some((name, state.named.len() as int)),
                                            product: state.product,
                                        },
                                    )
                                }
                            },
                        }
                    },
                }
            },
            _ => Err(PatternError::UnexpectedToken),
        }
    }
}

/// A group ends behind its start and inside the tokens.
pub proof fn lemma_group_advances(ts: Seq<TokenView>, at: int, index: Index, state: GroupState)
    ensures
        left_group(ts, at, index, state) matches Ok((_, next)) ==> at < next <= ts.len(),
    decreases ts.len() - at,
{
    if 0 <= at < ts.len() {
        if ts[at] is Ident || ts[at] is Reduce {
            lemma_member_advances(ts, at);
            match spec_parse_member(ts, at) {
                Err(e) => {},
                Ok((name, shape, operation, next)) => {
                    match shape {
                        Some(size) => {
                            if state.product * size <= usize::MAX {
                                lemma_group_advances(
                                    ts,
                                    next,
                                    index,
                                    GroupState {
                                        named: state.named.push(
                                            Axis::Named { name, index, operation, shape: Some(size) },
                                        ),
                                        derived: state.derived,
                                        product: (state.product * size) as usize,
                                    },
                                );
                            }
                        },
                        None => {
                            if state.derived is None {
                                lemma_group_advances(
                                    ts,
                                    next,
                                    index,
                                    GroupState {
                                        named: state.named,
                                        derived: Some((name, state.named.len() as int)),
                                        product: state.product,
                                    },
                                );
                            }
                        },
                    }
                },
            }
        }
    }
}

/// What has been read of the left side of one input.
pub struct LeftState {
    /// The axes read, in order.
    pub axes: Seq<Axis>,
    /// The number of items read.
    pub slot: usize,
    /// Whether an ellipsis is among them.
    pub past_ellipsis: bool,
}

impl LeftState {
    /// Nothing read yet.
    pub open spec fn start() -> LeftState {
        LeftState { axes: Seq::empty(), slot: 0, past_ellipsis: false }
    }

    /// The state after an item that stands for the axes `more`.
    pub open spec fn after(self, more: Seq<Axis>, ellipsis: bool) -> LeftState {
        LeftState {
            axes: self.axes + more,
            slot: (self.slot + 1) as usize,
            past_ellipsis: self.past_ellipsis || ellipsis,
        }
    }
}

/// The ellipsis as an axis in place `slot`.
pub open spec fn ellipsis_axis(slot: usize) -> Axis {
    Axis::Named { name: ellipsis_name(), index: Index::Range(slot), operation: None, shape: None }
}

/// The axes of one input from the item at `at` on, behind those that `state`
/// holds already; or the first error met.
pub open spec fn left_items(ts: Seq<TokenView>, at: int, state: LeftState) -> Result<Seq<Axis>, PatternError>
    decreases ts.len() - at,
{
    if at < 0 || at >= ts.len() {
        Ok(state.axes)
    } else {
        let index = slot_index(state.slot, state.past_ellipsis);
        match ts[at] {
            TokenView::Open => {
                match left_group(ts, at + 1, index, GroupState::start()) {
                    Err(e) => Err(e),
                    Ok((members, next)) => {
                        proof {
                            lemma_group_advances(ts, at + 1, index, GroupState::start());
                        }
                        left_items(ts, next, state.after(members, false))
                    },
                }
            },
            TokenView::Ident(_) | TokenView::Reduce(_) => {
                match spec_parse_member(ts, at) {
                    Err(e) => Err(e),
                    Ok((name, shape, operation, next)) => {
                        proof {
                            lemma_member_advances(ts, at);
                        }
                        left_items(
                            ts,
                            next,
                            state.after(seq![Axis::Named { name, index, operation, shape }], false),
                        )
                    },
                }
            },
            TokenView::Size(_) => Err(PatternError::AnonymousSizeNotAllowed),
            TokenView::Ellipsis => left_items(
                ts,
                at + 1,
                state.after(seq![ellipsis_axis(state.slot)], true),
            ),
            TokenView::Close => Err(PatternError::UnbalancedGroup),
            _ => Err(PatternError::UnexpectedToken),
        }
    }
}

/// The axes that the tokens describe for one input; or the first error met.
pub open spec fn spec_parse_decomposition(ts: Seq<TokenView>) -> Result<Seq<Axis>, PatternError> {
    left_items(ts, 0, LeftState::start())
}

/// The outcome of the left-side parser, with each axis replaced by its view.
pub open spec fn axes_result(r: Result<Vec<Decomposition>, PatternError>) -> Result<Seq<Axis>, PatternError> {
    match r {
        Ok(axes) => Ok(axis_views(axes@)),
        Err(e) => Err(e),
    }
}

/// Whether the token at `at` is a reduction keyword.
pub fn peek_reduce_kw(tokens: &Vec<Token>, at: usize) -> (r: bool)
    ensures
        r == spec_peek_reduce_kw(views(tokens@), at as int),
{
    if at < tokens.len() {
        match &tokens[at] {
            Token::Reduce(_) => true,
            _ => false,
        }
    } else {
        false
    }
}

/// Reads the number at `at`; anything else there is an `UnexpectedToken`.
pub fn parse_usize(tokens: &Vec<Token>, at: usize) -> (r: Result<usize, PatternError>)
    ensures
        r == spec_parse_usize(views(tokens@), at as int),
{
    if at < tokens.len() {
        match &tokens[at] {
            Token::Size(size) => Ok(*size),
            _ => Err(PatternError::UnexpectedToken),
        }
    } else {
        Err(PatternError::UnexpectedToken)
    }
}

/// Reads `name` or `name:size` at `at`.
///
/// Returns the name, the size if one is declared, and the position behind
/// them. Fails with `UnexpectedToken` where no name stands at `at`, or where
/// a colon follows the name and no number follows the colon.
pub fn parse_identifier(tokens: &Vec<Token>, at: usize) -> (r: Result<
    (String, Option<usize>, usize),
    PatternError,
>)
    ensures
        match r {
            Ok((name, shape, next)) => spec_parse_identifier(views(tokens@), at as int) == Ok::<
                _,
                PatternError,
            >((name@, shape, next as int)),
            Err(e) => spec_parse_identifier(views(tokens@), at as int) == Err::<
                (Seq<char>, Option<usize>, int),
                _,
            >(e),
        },
{
    if at >= tokens.len() {
        return Err(PatternError::UnexpectedToken);
    }
    match &tokens[at] {
        Token::Ident(name) => {
            let colon: bool = at + 1 < tokens.len() && match &tokens[at + 1] {
                Token::Colon => true,
                _ => false,
            };
            if colon {
                if at + 2 >= tokens.len() {
                    return Err(PatternError::UnexpectedToken);
                }
                match parse_usize(tokens, at + 2) {
                    Ok(size) => Ok((name.clone(), Some(size), at + 3)),
                    Err(e) => Err(e),
                }
            } else {
                Ok((name.clone(), None, at + 1))
            }
        },
        _ => Err(PatternError::UnexpectedToken),
    }
}

/// Reads a reduced axis at `at`: a reduction keyword, then `(name)` or
/// `(name:size)`.
///
/// Returns the name, the size if one is declared, the operation, and the
/// position behind the closing parenthesis. Fails with `UnexpectedToken`
/// where no keyword stands at `at`, where no parenthesis follows it or where
/// no name follows that; with `UnbalancedGroup` where the parenthesis is not
/// closed behind the name.
pub fn parse_reduce_fn(tokens: &Vec<Token>, at: usize) -> (r: Result<
    (String, Option<usize>, Operation, usize),
    PatternError,
>)
    ensures
        match r {
            Ok((name, shape, operation, next)) => spec_parse_reduce_fn(views(tokens@), at as int)
                == Ok::<_, PatternError>((name@, shape, operation, next as int)),
            Err(e) => spec_parse_reduce_fn(views(tokens@), at as int) == Err::<
                (Seq<char>, Option<usize>, Operation, int),
                _,
            >(e),
        },
{
    if at >= tokens.len() {
        return Err(PatternError::UnexpectedToken);
    }
    match &tokens[at] {
        Token::Reduce(operation) => {
            let open: bool = at + 1 < tokens.len() && match &tokens[at + 1] {
                Token::Open => true,
                _ => false,
            };
            if !open {
                return Err(PatternError::UnexpectedToken);
            }
            match parse_identifier(tokens, at + 2) {
                Ok((name, shape, next)) => {
                    proof {
                        lemma_member_advances(views(tokens@), at + 2);
                    }
                    let close: bool = next < tokens.len() && match &tokens[next] {
                        Token::Close => true,
                        _ => false,
                    };
                    if close {
                        Ok((name, shape, *operation, next + 1))
                    } else {
                        Err(PatternError::UnbalancedGroup)
                    }
                },
                Err(e) => Err(e),
            }
        },
        _ => Err(PatternError::UnexpectedToken),
    }
}

/// Reads the axis at `at`, with or without a reduction keyword.
fn parse_member(tokens: &Vec<Token>, at: usize) -> (r: Result<
    (String, Option<usize>, Option<Operation>, usize),
    PatternError,
>)
    ensures
        match r {
            Ok((name, shape, operation, next)) => spec_parse_member(views(tokens@), at as int)
                == Ok::<_, PatternError>((name@, shape, operation, next as int)),
            Err(e) => spec_parse_member(views(tokens@), at as int) == Err::<
                (Seq<char>, Option<usize>, Option<Operation>, int),
                _,
            >(e),
        },
{
    if peek_reduce_kw(tokens, at) {
        match parse_reduce_fn(tokens, at) {
            Ok((name, shape, operation, next)) => Ok((name, shape, Some(operation), next)),
            Err(e) => Err(e),
        }
    } else {
        match parse_identifier(tokens, at) {
            Ok((name, shape, next)) => Ok((name, shape, None, next)),
            Err(e) => Err(e),
        }
    }
}

/// Reads the members of a parenthesized group on the left, from the token
/// behind its opening parenthesis on.
///
/// Every member gets `index`. Returns the members in the order in which they
/// are written, and the position behind the closing parenthesis. The one
/// member without a declared size, if there is one, becomes `Derived`, with
/// the product of the declared sizes as `shape_calc`.
///
/// Fails with `UnbalancedGroup` where the tokens end before the group does,
/// `EmptyGroup` for `()`, `EllipsisInGroupNotAllowed` for `..`,
/// `AnonymousSizeNotAllowed` for a bare number, `AmbiguousDerivedSize` for a
/// second member without a declared size, `SizeOverflow` where the product of
/// the declared sizes does not fit `usize`, and `UnexpectedToken` for any
/// other token that starts no member.
pub fn parse_left_parenthesized(tokens: &Vec<Token>, at: usize, index: Index) -> (r: Result<
    (Vec<Decomposition>, usize),
    PatternError,
>)
    ensures
        match r {
            Ok((members, next)) => left_group(views(tokens@), at as int, index, GroupState::start())
                == Ok::<_, PatternError>((axis_views(members@), next as int)),
            Err(e) => left_group(views(tokens@), at as int, index, GroupState::start()) == Err::<
                (Seq<Axis>, int),
                _,
            >(e),
        },
{
    let ghost ts = views(tokens@);
    let mut named: Vec<Decomposition> = Vec::new();
    let mut derived: Option<(String, usize)> = None;
    let mut product: usize = 1;
    let mut i: usize = at;
    assert(axis_views(named@) =~= Seq::<Axis>::empty());
    loop
        invariant
            ts == views(tokens@),
            at <= i,
            named@.len() <= i - at,
            left_group(ts, at as int, index, GroupState::start()) == left_group(
                ts,
                i as int,
                index,
                GroupState {
                    named: axis_views(named@),
                    derived: match derived {
                        Some((name, before)) => Some((name@, before as int)),
                        None => None,
                    },
                    product: product,
                },
            ),
            derived matches Some((_, before)) ==> before <= named@.len(),
        decreases tokens.len() + 1 - i,
    {
        if i >= tokens.len() {
            return Err(PatternError::UnbalancedGroup);
        }
        match &tokens[i] {
            Token::Close => {
                if named.len() == 0 && derived.is_none() {
                    return Err(PatternError::EmptyGroup);
                }
                let ghost before_insert = named@;
                match derived {
                    Some((name, before)) => {
                        let d = Decomposition::Derived {
                            name: name,
                            index: index,
                            operation: None,
                            shape_calc: product,
                        };
                        let ghost dv = d@;
                        named.insert(before, d);
                        assert(axis_views(named@) =~= axis_views(before_insert).insert(
                            before as int,
                            dv,
                        ));
                    },
                    None => {},
                }
                return Ok((named, i + 1));
            },
            Token::Ellipsis => {
                return Err(PatternError::EllipsisInGroupNotAllowed);
            },
            Token::Size(_) => {
                return Err(PatternError::AnonymousSizeNotAllowed);
            },
            Token::Ident(_) | Token::Reduce(_) => {
                proof {
                    lemma_member_advances(ts, i as int);
                }
                match parse_member(tokens, i) {
                    Err(e) => {
                        return Err(e);
                    },
                    Ok((name, shape, operation, next)) => {
                        match shape {
                            Some(size) => {
                                match product.checked_mul(size) {
                                    None => {
                                        return Err(PatternError::SizeOverflow);
                                    },
                                    Some(p) => {
                                        let ghost before_push = named@;
                                        let a = Decomposition::Named {
                                            name: name,
                                            index: index,
                                            operation: operation,
                                            shape: Some(size),
                                        };
                                        let ghost av = a@;
                                        named.push(a);
                                        assert(axis_views(named@) =~= axis_views(before_push).push(av));
                                        product = p;
                                    },
                                }
                            },
                            None => {
                                if derived.is_some() {
                                    return Err(PatternError::AmbiguousDerivedSize);
                                }
                                derived = Some((name, named.len()));
                            },
                        }
                        i = next;
                    },
                }
            },
            _ => {
                return Err(PatternError::UnexpectedToken);
            },
        }
    }
}

/// Reads the left side of a pattern for one input.
///
/// The tokens are those of one comma-separated group. Returns the axes in the
/// order in which they are written. The items are numbered from 0; an item
/// before the ellipsis gives its axes a `Known` index, the ellipsis a `Range`
/// and an item behind it an `Unknown` one.
///
/// Fails with the first error met from the left: `AnonymousSizeNotAllowed`
/// for a bare number, `UnbalancedGroup` for a `)` that closes nothing,
/// `UnexpectedToken` for `:`, `,` or `->` where an item should start, and
/// whatever reading an axis or a group fails with.
pub fn parse_decomposition(tokens: &Vec<Token>) -> (r: Result<Vec<Decomposition>, PatternError>)
    ensures
        axes_result(r) == spec_parse_decomposition(views(tokens@)),
{
    let ghost ts = views(tokens@);
    let mut axes: Vec<Decomposition> = Vec::new();
    let mut slot: usize = 0;
    let mut past_ellipsis: bool = false;
    let mut i: usize = 0;
    assert(axis_views(axes@) =~= Seq::<Axis>::empty());
    while i < tokens.len()
        invariant
            ts == views(tokens@),
            slot <= i <= tokens.len(),
            left_items(ts, 0, LeftState::start()) == left_items(
                ts,
                i as int,
                LeftState { axes: axis_views(axes@), slot: slot, past_ellipsis: past_ellipsis },
            ),
        decreases tokens.len() - i,
    {
        let index = index_at(slot, past_ellipsis);
        let ghost before = axes@;
        match &tokens[i] {
            Token::Open => {
                proof {
                    lemma_group_advances(ts, i + 1, index, GroupState::start());
                }
                match parse_left_parenthesized(tokens, i + 1, index) {
                    Err(e) => {
                        return Err(e);
                    },
                    Ok((members, next)) => {
                        let mut members = members;
                        let ghost added = members@;
                        axes.append(&mut members);
                        assert(axis_views(axes@) =~= axis_views(before) + axis_views(added));
                        i = next;
                    },
                }
            },
            Token::Ident(_) | Token::Reduce(_) => {
                proof {
                    lemma_member_advances(ts, i as int);
                }
                match parse_member(tokens, i) {
                    Err(e) => {
                        return Err(e);
                    },
                    Ok((name, shape, operation, next)) => {
                        let a = Decomposition::Named {
                            name: name,
                            index: index,
                            operation: operation,
                            shape: shape,
                        };
                        let ghost av = a@;
                        axes.push(a);
                        assert(axis_views(axes@) =~= axis_views(before) + seq![av]);
                        i = next;
                    },
                }
            },
            Token::Size(_) => {
                return Err(PatternError::AnonymousSizeNotAllowed);
            },
            Token::Ellipsis => {
                let name: String = String::from_str("..");
                proof {
                    reveal_strlit("..");
                    assert(name@ =~= ellipsis_name());
                }
                let a = Decomposition::Named {
                    name: name,
                    index: Index::Range(slot),
                    operation: None,
                    shape: None,
                };
                let ghost av = a@;
                axes.push(a);
                assert(axis_views(axes@) =~= axis_views(before) + seq![av]);
                past_ellipsis = true;
                i = i + 1;
            },
            Token::Close => {
                return Err(PatternError::UnbalancedGroup);
            },
            _ => {
                return Err(PatternError::UnexpectedToken);
            },
        }
        slot = slot + 1;
    }
    Ok(axes)
}

} // verus!
