//! What holds of the algebra as a whole: statements that relate several
//! operations, proved from their specifications.

use vstd::prelude::*;
use crate::database::DataDBView;
use crate::function::FunctionView;
use crate::query::{
    common_rows, contains_row, distinct_rows, lemma_distinct_rows_contain,
    lemma_requested_columns, lemma_requested_columns_fail, lemma_selected_rows_fail,
    remaining_rows, requested_columns, selected_rows, ConditionView, QueryFieldView,
    QueryResultView, QueryView,
};
use crate::resolve::{
    column_of, lemma_column_of, lemma_matching_columns, matching_columns, ResolverView,
};
use crate::table::rows_equal;
use crate::value::{ValueKind, ValueView};
use crate::{lemma_position, QueryErrorView};

verus! {

/// Unification does not depend on the order of the two kinds.
pub proof fn lemma_unified_commutes(a: ValueKind, b: ValueKind)
    ensures
        a.unified(b) == b.unified(a),
{
}

/// Two values whose kinds unify can both be cast to the unified kind without
/// their types being found incompatible, and neither is their sum; two values
/// whose kinds do not unify have no sum, their types being incompatible.
pub proof fn lemma_sum_of_unifiable(a: ValueView, b: ValueView)
    ensures
        match a.kind().unified(b.kind()) {
            Some(kind) => {
                &&& a.cast(kind) != Err::<ValueView, QueryErrorView>(
                    QueryErrorView::IncompatibleTypes,
                )
                &&& b.cast(kind) != Err::<ValueView, QueryErrorView>(
                    QueryErrorView::IncompatibleTypes,
                )
                &&& a.sum(b) != Err::<ValueView, QueryErrorView>(QueryErrorView::IncompatibleTypes)
            },
            None => a.sum(b) == Err::<ValueView, QueryErrorView>(QueryErrorView::IncompatibleTypes),
        },
{
}

/// Two values whose kinds unify to a kind other than binary64 have a sum, and
/// it is of the unified kind; two whose kinds unify to binary64 have none for
/// want of arithmetic on such numbers.
pub proof fn lemma_sum_is_of_unified_kind(a: ValueView, b: ValueView, kind: ValueKind)
    requires
        a.kind().unified(b.kind()) == Some(kind),
    ensures
        kind != ValueKind::Real ==> a.sum(b).is_ok() && a.sum(b)->Ok_0.kind() == kind,
        kind == ValueKind::Real ==> a.sum(b) == Err::<ValueView, QueryErrorView>(
            QueryErrorView::RealArithmetic,
        ),
{
}

/// A value is cast to every kind that its kind unifies to with some other
/// kind, and the cast is of that kind, unless the value is an integer and the
/// kind is binary64: that cast is left undone for want of arithmetic on such
/// numbers.
pub proof fn lemma_cast_to_unified_kind(value: ValueView, other: ValueKind, kind: ValueKind)
    requires
        value.kind().unified(other) == Some(kind),
    ensures
        kind != ValueKind::Real || value.kind() == ValueKind::Real ==> value.cast(kind).is_ok()
            && value.cast(kind)->Ok_0.kind() == kind,
        kind == ValueKind::Real && value.kind() != ValueKind::Real ==> value.cast(kind) == Err::<
            ValueView,
            QueryErrorView,
        >(QueryErrorView::RealArithmetic),
{
}

/// A cast that succeeds gives a value of the kind asked for, and a cast
/// succeeds only to the kind that the value has or from one kind of integer to
/// the other.
pub proof fn lemma_cast_succeeds(value: ValueView, to: ValueKind)
    ensures
        value.cast(to) matches Ok(cast) ==> cast.kind() == to,
        value.cast(to).is_ok() <==> value.kind() == to || (value.kind() == ValueKind::Unsigned
            && to == ValueKind::Signed) || (value.kind() == ValueKind::Signed && to
            == ValueKind::Unsigned),
        value.cast(to) == Err::<ValueView, QueryErrorView>(QueryErrorView::RealArithmetic) <==> to
            == ValueKind::Real && (value.kind() == ValueKind::Unsigned || value.kind()
            == ValueKind::Signed),
{
}

/// A sum fails only for incompatible types or for want of arithmetic on
/// binary64 numbers, and for the latter only where one of the two values is
/// such a number.
pub proof fn lemma_sum_errors(a: ValueView, b: ValueView)
    ensures
        match a.sum(b) {
            Ok(sum) => Some(sum.kind()) == a.kind().unified(b.kind()),
            Err(error) => {
                ||| error == QueryErrorView::IncompatibleTypes
                ||| error == QueryErrorView::RealArithmetic && (a.kind() == ValueKind::Real
                    || b.kind() == ValueKind::Real)
            },
        },
{
}

/// The largest unsigned integer stays what it is when any unsigned integer is
/// added to it, on either side.
pub proof fn lemma_unsigned_sum_saturates(added: u128)
    ensures
        ValueView::Unsigned(u128::MAX).sum(ValueView::Unsigned(added)) == Ok::<
            ValueView,
            QueryErrorView,
        >(ValueView::Unsigned(u128::MAX)),
        ValueView::Unsigned(added).sum(ValueView::Unsigned(u128::MAX)) == Ok::<
            ValueView,
            QueryErrorView,
        >(ValueView::Unsigned(u128::MAX)),
{
}

/// The largest signed integer stays what it is when a signed integer that is
/// not negative is added to it, on either side; and the smallest one when one
/// that is not positive is added.
pub proof fn lemma_signed_sum_saturates(added: i128)
    ensures
        added >= 0 ==> ValueView::Signed(i128::MAX).sum(ValueView::Signed(added)) == Ok::<
            ValueView,
            QueryErrorView,
        >(ValueView::Signed(i128::MAX)),
        added >= 0 ==> ValueView::Signed(added).sum(ValueView::Signed(i128::MAX)) == Ok::<
            ValueView,
            QueryErrorView,
        >(ValueView::Signed(i128::MAX)),
        added <= 0 ==> ValueView::Signed(i128::MIN).sum(ValueView::Signed(added)) == Ok::<
            ValueView,
            QueryErrorView,
        >(ValueView::Signed(i128::MIN)),
        added <= 0 ==> ValueView::Signed(added).sum(ValueView::Signed(i128::MIN)) == Ok::<
            ValueView,
            QueryErrorView,
        >(ValueView::Signed(i128::MIN)),
{
}

/// Whether every value of every row equals itself.
pub open spec fn rows_comparable(rows: Seq<Seq<ValueView>>) -> bool {
    forall|i: int, k: int|
        0 <= i < rows.len() && 0 <= k < rows[i].len() ==> (#[trigger] rows[i][k]).is_comparable()
}

/// A row whose values all equal themselves equals itself.
pub proof fn lemma_rows_equal_reflexive(row: Seq<ValueView>)
    requires
        forall|k: int| 0 <= k < row.len() ==> (#[trigger] row[k]).is_comparable(),
    ensures
        rows_equal(row, row),
{
}

/// The union of two queries whose results name their fields alike holds the
/// rows of the first result followed by those of the second, under the fields
/// of the first; where the results name their fields differently, there is no
/// union.
pub proof fn lemma_union_concatenates(
    a: QueryView,
    b: QueryView,
    db: DataDBView,
    left: QueryResultView,
    right: QueryResultView,
)
    requires
        a.executed(db) == Ok::<QueryResultView, QueryErrorView>(left),
        b.executed(db) == Ok::<QueryResultView, QueryErrorView>(right),
    ensures
        left.field_names() == right.field_names() ==> QueryView::Union(
            Box::new(a),
            Box::new(b),
        ).executed(db) == Ok::<QueryResultView, QueryErrorView>(
            QueryResultView { fields: left.fields, rows: left.rows + right.rows },
        ),
        left.field_names() != right.field_names() ==> QueryView::Union(
            Box::new(a),
            Box::new(b),
        ).executed(db) == Err::<QueryResultView, QueryErrorView>(QueryErrorView::DifferentFields),
{
}

/// The union of a result with one that has the same field names and no rows
/// holds the rows of the first and no others.
pub proof fn lemma_union_with_empty(result: QueryResultView, empty: QueryResultView)
    requires
        result.field_names() == empty.field_names(),
        empty.rows.len() == 0,
    ensures
        result.union(empty) == Ok::<QueryResultView, QueryErrorView>(result),
{
    assert(result.rows + empty.rows =~= result.rows);
}

/// The rows of a sequence that equal one of its own rows are all of its rows,
/// provided that every value equals itself.
pub proof fn lemma_common_rows_with_self(rows: Seq<Seq<ValueView>>, upto: int)
    requires
        rows_comparable(rows),
        0 <= upto <= rows.len(),
    ensures
        common_rows(rows.take(upto), rows) == rows.take(upto),
        remaining_rows(rows.take(upto), rows) == Seq::<Seq<ValueView>>::empty(),
    decreases upto,
{
    if upto == 0 {
        assert(rows.take(0) =~= Seq::<Seq<ValueView>>::empty());
    } else {
        lemma_common_rows_with_self(rows, upto - 1);
        assert(rows.take(upto).drop_last() =~= rows.take(upto - 1));
        let last = rows.take(upto).last();
        assert(last == rows[upto - 1]);
        lemma_rows_equal_reflexive(rows[upto - 1]);
        assert(contains_row(rows, last));
        assert(rows.take(upto - 1).push(last) =~= rows.take(upto));
    }
}

/// No row equals a row of a sequence without rows.
pub proof fn lemma_common_rows_with_none(rows: Seq<Seq<ValueView>>, others: Seq<Seq<ValueView>>)
    requires
        others.len() == 0,
    ensures
        common_rows(rows, others) == Seq::<Seq<ValueView>>::empty(),
        remaining_rows(rows, others) == rows,
    decreases rows.len(),
{
    if rows.len() > 0 {
        lemma_common_rows_with_none(rows.drop_last(), others);
        assert(rows.drop_last().push(rows.last()) =~= rows);
    } else {
        assert(rows =~= Seq::<Seq<ValueView>>::empty());
    }
}

/// The intersection of a result with itself is the result, and the difference
/// of a result and itself has no rows, provided that every value of the result
/// equals itself: a row that holds a binary64 that is not a number equals no
/// row, itself included.
pub proof fn lemma_set_operations_on_self(result: QueryResultView)
    requires
        rows_comparable(result.rows),
    ensures
        result.intersection(result) == Ok::<QueryResultView, QueryErrorView>(result),
        result.difference(result) == Ok::<QueryResultView, QueryErrorView>(
            QueryResultView { fields: result.fields, rows: Seq::empty() },
        ),
{
    lemma_common_rows_with_self(result.rows, result.rows.len() as int);
    assert(result.rows.take(result.rows.len() as int) =~= result.rows);
}

/// The intersection of a query with itself has the rows of the query, and
/// their difference has none, provided that every value of the result equals
/// itself.
pub proof fn lemma_query_with_itself(query: QueryView, db: DataDBView, result: QueryResultView)
    requires
        query.executed(db) == Ok::<QueryResultView, QueryErrorView>(result),
        rows_comparable(result.rows),
    ensures
        QueryView::Intersection(Box::new(query), Box::new(query)).executed(db) == Ok::<
            QueryResultView,
            QueryErrorView,
        >(result),
        QueryView::Difference(Box::new(query), Box::new(query)).executed(db) == Ok::<
            QueryResultView,
            QueryErrorView,
        >(QueryResultView { fields: result.fields, rows: Seq::empty() }),
{
    lemma_set_operations_on_self(result);
}

/// The intersection of a result with one that has the same field names and no
/// rows has no rows, and their difference has all rows of the first.
pub proof fn lemma_set_operations_with_empty(result: QueryResultView, empty: QueryResultView)
    requires
        result.field_names() == empty.field_names(),
        empty.rows.len() == 0,
    ensures
        result.intersection(empty) == Ok::<QueryResultView, QueryErrorView>(
            QueryResultView { fields: result.fields, rows: Seq::empty() },
        ),
        result.difference(empty) == Ok::<QueryResultView, QueryErrorView>(result),
{
    lemma_common_rows_with_none(result.rows, empty.rows);
}

/// The intersection of a query with the empty query of the same field names
/// has no rows.
pub proof fn lemma_intersection_with_empty_query(
    query: QueryView,
    db: DataDBView,
    result: QueryResultView,
)
    requires
        query.executed(db) == Ok::<QueryResultView, QueryErrorView>(result),
    ensures
        QueryView::Intersection(
            Box::new(query),
            Box::new(QueryView::Empty(result.field_names())),
        ).executed(db) == Ok::<QueryResultView, QueryErrorView>(
            QueryResultView { fields: result.fields, rows: Seq::empty() },
        ),
{
    let empty = QueryResultView::empty(result.field_names());
    assert(empty.field_names() =~= result.field_names());
    assert(QueryView::Empty(result.field_names()).executed(db) == Ok::<
        QueryResultView,
        QueryErrorView,
    >(empty));
    lemma_set_operations_with_empty(result, empty);
}

/// The intersection keeps exactly the rows that equal some row of the other
/// side, and the difference exactly those that equal none, both in the order
/// in which the rows stand.
pub proof fn lemma_set_operations_filter(rows: Seq<Seq<ValueView>>, others: Seq<Seq<ValueView>>)
    ensures
        common_rows(rows, others) == rows.filter(
            |row: Seq<ValueView>| contains_row(others, row),
        ),
        remaining_rows(rows, others) == rows.filter(
            |row: Seq<ValueView>| !contains_row(others, row),
        ),
    decreases rows.len(),
{
    reveal(Seq::filter);
    if rows.len() > 0 {
        lemma_set_operations_filter(rows.drop_last(), others);
    }
}

/// Where the condition can be decided for every row, selecting keeps exactly
/// the rows for which it holds, in the order in which they stand.
pub proof fn lemma_select_filters(
    fields: Seq<QueryFieldView>,
    rows: Seq<Seq<ValueView>>,
    functions: Map<Seq<char>, FunctionView>,
    condition: ConditionView,
)
    requires
        forall|i: int|
            0 <= i < rows.len() ==> condition.holds(
                functions,
                ResolverView::Row(fields, #[trigger] rows[i]),
            ).is_ok(),
    ensures
        selected_rows(fields, rows, functions, condition) == Ok::<
            Seq<Seq<ValueView>>,
            QueryErrorView,
        >(
            rows.filter(
                |row: Seq<ValueView>|
                    condition.holds(functions, ResolverView::Row(fields, row)) == Ok::<
                        bool,
                        QueryErrorView,
                    >(true),
            ),
        ),
    decreases rows.len(),
{
    reveal(Seq::filter);
    if rows.len() > 0 {
        let init = rows.drop_last();
        assert forall|i: int| 0 <= i < init.len() implies condition.holds(
            functions,
            ResolverView::Row(fields, #[trigger] init[i]),
        ).is_ok() by {
            assert(init[i] == rows[i]);
        }
        lemma_select_filters(fields, init, functions, condition);
        assert(rows.last() == rows[rows.len() - 1]);
    }
}

/// Where the condition can be decided for the rows before a row, and not for
/// that row, selecting fails as the condition does for that row.
pub proof fn lemma_select_fails_with_first_error(
    fields: Seq<QueryFieldView>,
    rows: Seq<Seq<ValueView>>,
    functions: Map<Seq<char>, FunctionView>,
    condition: ConditionView,
    failing: int,
)
    requires
        0 <= failing < rows.len(),
        forall|i: int|
            0 <= i < failing ==> condition.holds(
                functions,
                ResolverView::Row(fields, #[trigger] rows[i]),
            ).is_ok(),
        condition.holds(functions, ResolverView::Row(fields, rows[failing])).is_err(),
    ensures
        selected_rows(fields, rows, functions, condition) == Err::<
            Seq<Seq<ValueView>>,
            QueryErrorView,
        >(condition.holds(functions, ResolverView::Row(fields, rows[failing]))->Err_0),
{
    let before = rows.take(failing);
    assert forall|i: int| 0 <= i < before.len() implies condition.holds(
        functions,
        ResolverView::Row(fields, #[trigger] before[i]),
    ).is_ok() by {
        assert(before[i] == rows[i]);
    }
    lemma_select_filters(fields, before, functions, condition);
    assert(rows.take(failing + 1).drop_last() =~= before);
    assert(rows.take(failing + 1).last() == rows[failing]);
    lemma_selected_rows_fail(fields, rows, functions, condition, failing + 1);
}

/// Removing duplicates from rows that have none leaves them as they are:
/// removing duplicates twice is removing them once.
pub proof fn lemma_distinct_rows_idempotent(rows: Seq<Seq<ValueView>>)
    ensures
        distinct_rows(distinct_rows(rows)) == distinct_rows(rows),
    decreases rows.len(),
{
    if rows.len() > 0 {
        let init = rows.drop_last();
        let last = rows.last();
        lemma_distinct_rows_idempotent(init);
        lemma_distinct_rows_contain(init, last);
        if !contains_row(init, last) {
            let kept = distinct_rows(init);
            assert(kept.push(last).drop_last() =~= kept);
            assert(kept.push(last).last() == last);
        }
    }
}

/// `Distinct` over `Distinct` gives what `Distinct` gives.
pub proof fn lemma_distinct_idempotent(query: QueryView, db: DataDBView)
    ensures
        QueryView::Distinct(Box::new(QueryView::Distinct(Box::new(query)))).executed(db)
            == QueryView::Distinct(Box::new(query)).executed(db),
{
    match query.executed(db) {
        Ok(result) => {
            lemma_distinct_rows_idempotent(result.rows);
        },
        Err(_) => {},
    }
}

/// The places of the rows that equal no earlier row, in ascending order.
pub open spec fn first_occurrences(rows: Seq<Seq<ValueView>>) -> Seq<int>
    decreases rows.len(),
{
    if rows.len() == 0 {
        Seq::empty()
    } else {
        let earlier = first_occurrences(rows.drop_last());
        if contains_row(rows.drop_last(), rows.last()) {
            earlier
        } else {
            earlier.push(rows.len() - 1)
        }
    }
}

/// Removing duplicates keeps the first occurrence of every row, and keeps
/// the rows in their order: the rows that are left are those at the places
/// where a row equals no earlier row, and these places ascend.
pub proof fn lemma_distinct_keeps_first_occurrences(rows: Seq<Seq<ValueView>>)
    ensures
        distinct_rows(rows).len() == first_occurrences(rows).len(),
        forall|k: int|
            0 <= k < first_occurrences(rows).len() ==> {
                let place = #[trigger] first_occurrences(rows)[k];
                &&& 0 <= place < rows.len()
                &&& distinct_rows(rows)[k] == rows[place]
                &&& !contains_row(rows.take(place), rows[place])
            },
        forall|k: int, l: int|
            0 <= k < l < first_occurrences(rows).len() ==> first_occurrences(rows)[k]
                < first_occurrences(rows)[l],
        forall|place: int|
            0 <= place < rows.len() && !contains_row(rows.take(place), #[trigger] rows[place])
                ==> first_occurrences(rows).contains(place),
    decreases rows.len(),
{
    if rows.len() > 0 {
        let init = rows.drop_last();
        let last = rows.last();
        let places = first_occurrences(rows);
        let earlier = first_occurrences(init);
        lemma_distinct_keeps_first_occurrences(init);
        assert(rows.take(rows.len() - 1) =~= init);
        assert forall|k: int| 0 <= k < places.len() implies {
            let place = #[trigger] places[k];
            &&& 0 <= place < rows.len()
            &&& distinct_rows(rows)[k] == rows[place]
            &&& !contains_row(rows.take(place), rows[place])
        } by {
            if k < earlier.len() {
                let place = earlier[k];
                assert(places[k] == place);
                assert(init.take(place) =~= rows.take(place));
                assert(init[place] == rows[place]);
            }
        }
        assert forall|place: int|
            0 <= place < rows.len() && !contains_row(
                rows.take(place),
                #[trigger] rows[place],
            ) implies places.contains(place) by {
            if place < init.len() {
                assert(init.take(place) =~= rows.take(place));
                assert(init[place] == rows[place]);
                let k = choose|k: int| 0 <= k < earlier.len() && earlier[k] == place;
                assert(places[k] == place);
            } else {
                assert(places[places.len() - 1] == place);
            }
        }
    }
}

/// A requested field that stands behind fields which are each bound to one
/// column, and which itself matches no column, makes the projection fail for
/// want of such a field; one that matches two columns makes it fail as
/// ambiguous.
pub proof fn lemma_project_fails(
    result: QueryResultView,
    requested: Seq<QueryFieldView>,
    failing: int,
)
    requires
        0 <= failing < requested.len(),
        forall|k: int| 0 <= k < failing ==> column_of(result.fields, #[trigger] requested[k]).is_ok(),
    ensures
        (forall|column: int|
            0 <= column < result.fields.len() ==> !(#[trigger] result.fields[column]).matched_by(
                requested[failing],
            )) ==> result.project(requested) == Err::<QueryResultView, QueryErrorView>(
            QueryErrorView::NoSuchField(requested[failing]),
        ),
        (exists|first: int, second: int|
            0 <= first < second < result.fields.len() && (#[trigger] result.fields[first]).matched_by(
                requested[failing],
            ) && (#[trigger] result.fields[second]).matched_by(requested[failing]))
            ==> result.project(requested) == Err::<QueryResultView, QueryErrorView>(
            QueryErrorView::AmbiguousField(requested[failing]),
        ),
{
    lemma_requested_prefix(result.fields, requested, failing);
    lemma_matching_columns(result.fields, requested[failing]);
    let matching = matching_columns(result.fields, requested[failing]);
    assert(requested.take(failing + 1).drop_last() =~= requested.take(failing));
    assert(requested.take(failing + 1).last() == requested[failing]);
    if forall|column: int|
        0 <= column < result.fields.len() ==> !(#[trigger] result.fields[column]).matched_by(
            requested[failing],
        ) {
        if matching.len() > 0 {
            let column = matching[0];
            assert(result.fields[column].matched_by(requested[failing]));
        }
        assert(matching.len() == 0);
        lemma_requested_columns_fail(result.fields, requested, failing + 1);
    }
    if exists|first: int, second: int|
        0 <= first < second < result.fields.len() && (#[trigger] result.fields[first]).matched_by(
            requested[failing],
        ) && (#[trigger] result.fields[second]).matched_by(requested[failing]) {
        let (first, second) = choose|first: int, second: int|
            0 <= first < second < result.fields.len() && (
            #[trigger] result.fields[first]).matched_by(requested[failing]) && (
            #[trigger] result.fields[second]).matched_by(requested[failing]);
        assert(matching.contains(first));
        assert(matching.contains(second));
        assert(matching.len() > 1);
        lemma_requested_columns_fail(result.fields, requested, failing + 1);
    }
}

/// Fields that are each bound to one column are bound together.
pub proof fn lemma_requested_prefix(
    fields: Seq<QueryFieldView>,
    requested: Seq<QueryFieldView>,
    upto: int,
)
    requires
        0 <= upto <= requested.len(),
        forall|k: int| 0 <= k < upto ==> column_of(fields, #[trigger] requested[k]).is_ok(),
    ensures
        requested_columns(fields, requested.take(upto)).is_ok(),
    decreases upto,
{
    if upto > 0 {
        lemma_requested_prefix(fields, requested, upto - 1);
        assert(requested.take(upto).drop_last() =~= requested.take(upto - 1));
        assert(requested.take(upto).last() == requested[upto - 1]);
    }
}

/// Renaming changes one field of the schema, the one that the reference is
/// bound to, into a field of no table with the new name; it leaves the other
/// fields where they are and as they are, and the rows as they are. Where the
/// reference is bound to no column, nothing is renamed.
pub proof fn lemma_rename_changes_one_field(
    result: QueryResultView,
    from: QueryFieldView,
    to: Seq<char>,
)
    ensures
        match column_of(result.fields, from) {
            Ok(column) => {
                &&& 0 <= column < result.fields.len()
                &&& result.fields[column].matched_by(from)
                &&& result.rename(from, to).is_ok()
                &&& result.rename(from, to)->Ok_0.rows == result.rows
                &&& result.rename(from, to)->Ok_0.fields.len() == result.fields.len()
                &&& result.rename(from, to)->Ok_0.fields[column] == QueryFieldView::local(to)
                &&& forall|other: int|
                    0 <= other < result.fields.len() && other != column ==> result.rename(
                        from,
                        to,
                    )->Ok_0.fields[other] == result.fields[other]
            },
            Err(error) => {
                &&& result.rename(from, to) == Err::<QueryResultView, QueryErrorView>(error)
                &&& error == QueryErrorView::NoSuchField(from) || error
                    == QueryErrorView::AmbiguousField(from)
            },
        },
{
    lemma_column_of(result.fields, from);
}

/// Whether every row holds the given number of values.
pub open spec fn rows_fit(rows: Seq<Seq<ValueView>>, width: nat) -> bool {
    forall|i: int| 0 <= i < rows.len() ==> (#[trigger] rows[i]).len() == width
}

/// The rows that are kept by a set operator, or by removing duplicates, are
/// as wide as the rows from which they are taken.
pub proof fn lemma_kept_rows_fit(
    rows: Seq<Seq<ValueView>>,
    others: Seq<Seq<ValueView>>,
    width: nat,
)
    requires
        rows_fit(rows, width),
    ensures
        rows_fit(common_rows(rows, others), width),
        rows_fit(remaining_rows(rows, others), width),
        rows_fit(distinct_rows(rows), width),
    decreases rows.len(),
{
    if rows.len() > 0 {
        let init = rows.drop_last();
        assert(forall|j: int| 0 <= j < init.len() ==> init[j] == rows[j]);
        lemma_kept_rows_fit(init, others, width);
        assert(rows.last() == rows[rows.len() - 1]);
    }
}

/// The rows that a condition selects are as wide as the rows from which they
/// are taken.
pub proof fn lemma_selected_rows_fit(
    fields: Seq<QueryFieldView>,
    rows: Seq<Seq<ValueView>>,
    functions: Map<Seq<char>, FunctionView>,
    condition: ConditionView,
    width: nat,
)
    requires
        rows_fit(rows, width),
    ensures
        match selected_rows(fields, rows, functions, condition) {
            Ok(kept) => rows_fit(kept, width),
            Err(_) => true,
        },
    decreases rows.len(),
{
    if rows.len() > 0 {
        let init = rows.drop_last();
        assert(forall|j: int| 0 <= j < init.len() ==> init[j] == rows[j]);
        lemma_selected_rows_fit(fields, init, functions, condition, width);
        assert(rows.last() == rows[rows.len() - 1]);
    }
}

/// The set operators, and removing duplicates, give, for results in which
/// every row holds one value for each field, a result of which the same is
/// true.
pub proof fn lemma_set_operators_keep_rows_fitting(result: QueryResultView, other: QueryResultView)
    requires
        result.well_formed(),
        other.well_formed(),
    ensures
        result.union(other) matches Ok(r) ==> r.well_formed(),
        result.intersection(other) matches Ok(r) ==> r.well_formed(),
        result.difference(other) matches Ok(r) ==> r.well_formed(),
        result.distinct().well_formed(),
{
    let width = result.fields.len();
    assert(rows_fit(result.rows, width));
    lemma_kept_rows_fit(result.rows, other.rows, width);
    if result.field_names() == other.field_names() {
        assert(result.field_names().len() == other.field_names().len());
        assert(rows_fit(other.rows, width));
    }
}

/// Projecting gives, for a result in which every row holds one value for each
/// field, a result of which the same is true.
pub proof fn lemma_project_keeps_rows_fitting(
    result: QueryResultView,
    requested: Seq<QueryFieldView>,
)
    requires
        result.well_formed(),
    ensures
        result.project(requested) matches Ok(r) ==> r.well_formed(),
{
    lemma_requested_columns(result.fields, requested);
}

/// Selecting gives, for a result in which every row holds one value for each
/// field, a result of which the same is true.
pub proof fn lemma_select_keeps_rows_fitting(
    result: QueryResultView,
    functions: Map<Seq<char>, FunctionView>,
    condition: ConditionView,
)
    requires
        result.well_formed(),
    ensures
        result.select(functions, condition) matches Ok(r) ==> r.well_formed(),
{
    let width = result.fields.len();
    assert(rows_fit(result.rows, width));
    lemma_selected_rows_fit(result.fields, result.rows, functions, condition, width);
}

/// Renaming gives, for a result in which every row holds one value for each
/// field, a result of which the same is true.
pub proof fn lemma_rename_keeps_rows_fitting(
    result: QueryResultView,
    from: QueryFieldView,
    to: Seq<char>,
)
    requires
        result.well_formed(),
    ensures
        result.rename(from, to) matches Ok(r) ==> r.well_formed(),
{
    lemma_column_of(result.fields, from);
}

/// Over a store in which every row holds one value for each field of its
/// table, every query that has a result has one in which every row holds one
/// value for each field.
pub proof fn lemma_executed_rows_fit(query: QueryView, db: DataDBView)
    requires
        db.well_formed(),
    ensures
        query.executed(db) matches Ok(result) ==> result.well_formed(),
    decreases query,
{
    match query {
        QueryView::Empty(_) => {},
        QueryView::Table(name) => {
            lemma_position(db.table_names(), name);
        },
        QueryView::FromValue(_, _) => {},
        QueryView::FromFunctionCall(_, _) => {},
        QueryView::Union(a, b) | QueryView::Intersection(a, b) | QueryView::Difference(a, b) => {
            lemma_executed_rows_fit(*a, db);
            lemma_executed_rows_fit(*b, db);
            if a.executed(db) is Ok && b.executed(db) is Ok {
                lemma_set_operators_keep_rows_fitting(a.executed(db)->Ok_0, b.executed(db)->Ok_0);
            }
        },
        QueryView::Distinct(q) => {
            lemma_executed_rows_fit(*q, db);
            if q.executed(db) is Ok {
                lemma_set_operators_keep_rows_fitting(q.executed(db)->Ok_0, q.executed(db)->Ok_0);
            }
        },
        QueryView::Project(fields, q) => {
            lemma_executed_rows_fit(*q, db);
            if q.executed(db) is Ok {
                lemma_project_keeps_rows_fitting(q.executed(db)->Ok_0, fields);
            }
        },
        QueryView::Select(condition, q) => {
            lemma_executed_rows_fit(*q, db);
            if q.executed(db) is Ok {
                lemma_select_keeps_rows_fitting(q.executed(db)->Ok_0, db.functions, condition);
            }
        },
        QueryView::Rename(from, to, q) => {
            lemma_executed_rows_fit(*q, db);
            if q.executed(db) is Ok {
                lemma_rename_keeps_rows_fitting(q.executed(db)->Ok_0, from, to);
            }
        },
    }
}

} // verus!
