//! Binding a field reference to a column, and to the value that a row holds
//! there.

use vstd::prelude::*;
use crate::query::{QueryField, QueryFieldView};
use crate::table::{indices, Row};
use crate::value::{Value, ValueView};
use crate::{outcome, views, QueryError, QueryErrorView};

verus! {

/// The columns whose field `reference` matches, in ascending order.
pub open spec fn matching_columns(fields: Seq<QueryFieldView>, reference: QueryFieldView) -> Seq<
    int,
>
    decreases fields.len(),
{
    if fields.len() == 0 {
        Seq::empty()
    } else {
        let earlier = matching_columns(fields.drop_last(), reference);
        if fields.last().matched_by(reference) {
            earlier.push(fields.len() - 1)
        } else {
            earlier
        }
    }
}

/// The one column that `reference` matches. A reference that matches no column
/// names no such field; one that matches several is ambiguous.
pub open spec fn column_of(fields: Seq<QueryFieldView>, reference: QueryFieldView) -> Result<
    int,
    QueryErrorView,
> {
    let matching = matching_columns(fields, reference);
    if matching.len() == 0 {
        Err(QueryErrorView::NoSuchField(reference))
    } else if matching.len() > 1 {
        Err(QueryErrorView::AmbiguousField(reference))
    } else {
        Ok(matching[0])
    }
}

/// The matching columns are exactly the columns whose field the reference
/// matches, each listed once and in ascending order.
pub proof fn lemma_matching_columns(fields: Seq<QueryFieldView>, reference: QueryFieldView)
    ensures
        forall|k: int|
            0 <= k < matching_columns(fields, reference).len() ==> {
                let column = #[trigger] matching_columns(fields, reference)[k];
                0 <= column < fields.len() && fields[column].matched_by(reference)
            },
        forall|k: int, l: int|
            0 <= k < l < matching_columns(fields, reference).len() ==> matching_columns(
                fields,
                reference,
            )[k] < matching_columns(fields, reference)[l],
        forall|column: int|
            0 <= column < fields.len() && (#[trigger] fields[column]).matched_by(reference)
                ==> matching_columns(fields, reference).contains(column),
    decreases fields.len(),
{
    if fields.len() > 0 {
        let init = fields.drop_last();
        let earlier = matching_columns(init, reference);
        let all = matching_columns(fields, reference);
        lemma_matching_columns(init, reference);
        assert(forall|j: int| 0 <= j < init.len() ==> init[j] == fields[j]);
        assert forall|column: int|
            0 <= column < fields.len() && (#[trigger] fields[column]).matched_by(
                reference,
            ) implies all.contains(column) by {
            if column < init.len() {
                assert(init[column].matched_by(reference));
                let k = choose|k: int| 0 <= k < earlier.len() && earlier[k] == column;
                assert(all[k] == column);
            } else {
                assert(all[all.len() - 1] == column);
            }
        }
    }
}

/// A reference that is bound to a column is bound to one that lies within the
/// fields and that it matches.
pub proof fn lemma_column_of(fields: Seq<QueryFieldView>, reference: QueryFieldView)
    ensures
        match column_of(fields, reference) {
            Ok(column) => 0 <= column < fields.len() && fields[column].matched_by(reference),
            Err(error) => error == QueryErrorView::NoSuchField(reference) || error
                == QueryErrorView::AmbiguousField(reference),
        },
{
    lemma_matching_columns(fields, reference);
}

/// The columns whose field `reference` matches, in ascending order.
pub fn matching_fields(fields: &Vec<QueryField>, reference: &QueryField) -> (columns: Vec<usize>)
    ensures
        indices(columns@) == matching_columns(views(fields@), reference@),
        forall|k: int| 0 <= k < columns@.len() ==> columns@[k] < fields@.len(),
{
    let mut result: Vec<usize> = Vec::new();
    let mut i: usize = 0;
    while i < fields.len()
        invariant
            i <= fields.len(),
            indices(result@) == matching_columns(views(fields@).take(i as int), reference@),
            forall|k: int| 0 <= k < result@.len() ==> result@[k] < i,
        decreases fields.len() - i,
    {
        let ghost before = indices(result@);
        assert(views(fields@).take(i + 1).drop_last() =~= views(fields@).take(i as int));
        assert(views(fields@).take(i + 1).last() == fields@[i as int]@);
        if fields[i].matches(reference) {
            result.push(i);
            assert(indices(result@) =~= before.push(i as int));
        }
        i += 1;
    }
    assert(views(fields@).take(fields@.len() as int) =~= views(fields@));
    result
}

/// Binds a reference to the one column that it matches.
pub fn resolve_column(fields: &Vec<QueryField>, reference: &QueryField) -> (column: Result<
    usize,
    QueryError,
>)
    ensures
        match column {
            Ok(c) => column_of(views(fields@), reference@) == Ok::<int, QueryErrorView>(c as int)
                && c < fields@.len(),
            Err(e) => column_of(views(fields@), reference@) == Err::<int, QueryErrorView>(e@),
        },
{
    let matching = matching_fields(fields, reference);
    if matching.is_empty() {
        return Err(QueryError::NoSuchField(reference.clone()));
    }
    if matching.len() > 1 {
        return Err(QueryError::AmbiguousField(reference.clone()));
    }
    assert(indices(matching@)[0] == matching@[0]);
    Ok(matching[0])
}

/// The context in which the field references of a call or of a condition are
/// bound to values: none, or one row of a result.
pub enum Resolver<'a> {
    /// No row is at hand: every field reference fails.
    NoRow,
    /// The fields of a result and one of its rows.
    Row(&'a Vec<QueryField>, &'a Row),
}

/// What a [`Resolver`] stands for.
pub enum ResolverView {
    NoRow,
    Row(Seq<QueryFieldView>, Seq<ValueView>),
}

impl<'a> View for Resolver<'a> {
    type V = ResolverView;

    open spec fn view(&self) -> ResolverView {
        match self {
            Resolver::NoRow => ResolverView::NoRow,
            Resolver::Row(fields, row) => ResolverView::Row(views(fields@), row@),
        }
    }
}

impl ResolverView {
    /// The row holds one value for each field.
    pub open spec fn well_formed(self) -> bool {
        match self {
            ResolverView::NoRow => true,
            ResolverView::Row(fields, row) => row.len() == fields.len(),
        }
    }

    /// The value that the reference stands for: with no row, none, the
    /// reference naming no field that exists; within a row, the value at the
    /// one column that the reference matches.
    pub open spec fn resolve(self, reference: QueryFieldView) -> Result<ValueView, QueryErrorView> {
        match self {
            ResolverView::NoRow => Err(QueryErrorView::NoSuchField(reference)),
            ResolverView::Row(fields, row) => match column_of(fields, reference) {
                Ok(column) => Ok(row[column]),
                Err(error) => Err(error),
            },
        }
    }
}

impl<'a> Resolver<'a> {
    /// Binds a field reference to its value.
    pub fn resolve(&self, reference: &QueryField) -> (value: Result<Value, QueryError>)
        requires
            self@.well_formed(),
        ensures
            outcome(value) == self@.resolve(reference@),
    {
        match self {
            Resolver::NoRow => Err(QueryError::NoSuchField(reference.clone())),
            Resolver::Row(fields, row) => {
                match resolve_column(fields, reference) {
                    Ok(column) => {
                        let values = row.values();
                        assert(views(values@)[column as int] == values@[column as int]@);
                        Ok(values[column].clone())
                    },
                    Err(error) => Err(error),
                }
            },
        }
    }
}

} // verus!
