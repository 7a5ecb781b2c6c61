//! The table that resolves axis names to positions.

use crate::axis::axis_views;
use crate::axis::Axis;
use crate::axis::Decomposition;
use crate::error::PatternError;
use crate::index::Index;
use vstd::prelude::*;

verus! {

/// A name table as a sequence of names with their positions.
pub type Table = Seq<(Seq<char>, Index)>;

/// The view of a name table.
pub open spec fn table_view(table: Seq<(String, Index)>) -> Table {
    table.map_values(|e: (String, Index)| (e.0@, e.1))
}

/// The position recorded for `name`, if the table holds the name.
pub open spec fn lookup(table: Table, name: Seq<char>) -> Option<Index>
    decreases table.len(),
{
    if table.len() == 0 {
        None
    } else if table.last().0 == name {
        Some(table.last().1)
    } else {
        lookup(table.drop_last(), name)
    }
}

/// Whether a reduction removes an axis called `name`.
pub open spec fn is_reduced_name(axes: Seq<Axis>, name: Seq<char>) -> bool {
    exists|i: int| 0 <= i < axes.len() && (#[trigger] axes[i]).is_reduced() && axes[i].name() == name
}

/// The table of the axes from place `at` on, behind the entries that `acc`
/// holds already.
///
/// An axis that a reduction removes gets no entry. Every other axis is
/// entered under its name, with the number of entries before it as position
/// and the provenance of its own index.
pub open spec fn table_from(axes: Seq<Axis>, at: int, acc: Table) -> Result<Table, PatternError>
    decreases axes.len() - at,
{
    if at < 0 || at >= axes.len() {
        Ok(acc)
    } else if axes[at].is_reduced() {
        table_from(axes, at + 1, acc)
    } else if lookup(acc, axes[at].name()) is Some {
        Err(PatternError::DuplicateAxisName)
    } else {
        table_from(
            axes,
            at + 1,
            acc.push((axes[at].name(), axes[at].index().spec_with_position(acc.len() as usize))),
        )
    }
}

/// The name table of a decomposition, or `DuplicateAxisName`.
pub open spec fn spec_name_table(axes: Seq<Axis>) -> Result<Table, PatternError> {
    table_from(axes, 0, Seq::empty())
}

/// Looks a name up in a table.
pub fn find_name(table: &Vec<(String, Index)>, name: &String) -> (r: Option<Index>)
    ensures
        r == lookup(table_view(table@), name@),
{
    let ghost tv = table_view(table@);
    let mut i: usize = table.len();
    assert(tv.take(i as int) =~= tv);
    while i > 0
        invariant
            tv == table_view(table@),
            i <= table.len(),
            lookup(tv, name@) == lookup(tv.take(i as int), name@),
        decreases i,
    {
        proof {
            assert(tv.take(i as int).drop_last() =~= tv.take(i - 1));
            assert(tv.take(i as int).last() == tv[i - 1]);
        }
        i = i - 1;
        if table[i].0 == *name {
            return Some(table[i].1);
        }
    }
    None
}

/// Whether a reduction removes an axis of the decomposition called `name`.
pub fn names_reduced_axis(decomposition: &Vec<Decomposition>, name: &String) -> (r: bool)
    ensures
        r == is_reduced_name(axis_views(decomposition@), name@),
{
    let ghost axes = axis_views(decomposition@);
    let mut i: usize = 0;
    while i < decomposition.len()
        invariant
            axes == axis_views(decomposition@),
            i <= decomposition.len(),
            forall|j: int| 0 <= j < i ==> !((#[trigger] axes[j]).is_reduced() && axes[j].name() == name@),
        decreases decomposition.len() - i,
    {
        if decomposition[i].is_reduced() && *decomposition[i].name() == *name {
            assert(axes[i as int].is_reduced() && axes[i as int].name() == name@);
            return true;
        }
        i = i + 1;
    }
    false
}

/// The outcome of building a table, as a view.
pub open spec fn table_result(r: Result<Vec<(String, Index)>, PatternError>) -> Result<Table, PatternError> {
    match r {
        Ok(table) => Ok(table_view(table@)),
        Err(e) => Err(e),
    }
}

/// Builds the name table of a decomposition.
///
/// The axes that no reduction removes are numbered from 0 in their order; the
/// table maps the name of each to its number, under the provenance of the
/// index of the axis. Fails with `DuplicateAxisName` where two of them share
/// a name; the ellipsis counts, under the name `..`.
pub fn name_table(decomposition: &Vec<Decomposition>) -> (r: Result<Vec<(String, Index)>, PatternError>)
    ensures
        table_result(r) == spec_name_table(axis_views(decomposition@)),
{
    let ghost axes = axis_views(decomposition@);
    let mut table: Vec<(String, Index)> = Vec::new();
    let mut i: usize = 0;
    assert(table_view(table@) =~= Seq::<(Seq<char>, Index)>::empty());
    while i < decomposition.len()
        invariant
            axes == axis_views(decomposition@),
            i <= decomposition.len(),
            table@.len() <= i,
            table_from(axes, 0, Seq::empty()) == table_from(axes, i as int, table_view(table@)),
        decreases decomposition.len() - i,
    {
        if !decomposition[i].is_reduced() {
            let name: &String = decomposition[i].name();
            if find_name(&table, name).is_some() {
                return Err(PatternError::DuplicateAxisName);
            }
            let ghost before = table@;
            let entry: (String, Index) = (name.clone(), decomposition[i].index().with_position(table.len()));
            let ghost ev = (entry.0@, entry.1);
            table.push(entry);
            assert(table_view(table@) =~= table_view(before).push(ev));
        }
        i = i + 1;
    }
    Ok(table)
}

} // verus!
