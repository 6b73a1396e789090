//! Field references, query results and the operator tree.

use vstd::prelude::*;
use vstd::string::StringExecFns;
use crate::database::{DataDB, DataDBView};
use crate::function::{FunctionCall, FunctionCallView, FunctionDict, FunctionView};
use crate::resolve::{
    column_of, lemma_column_of, matching_columns, matching_fields, resolve_column, Resolver,
    ResolverView,
};
use crate::table::{
    clone_rows, indices, picked, rows_equal, Row, TableField, TableFieldView,
};
use crate::value::{Value, ValueView};
use crate::{
    lemma_position, outcome, views, FieldName, QueryError, QueryErrorView, TableName, TypeError,
};

verus! {

/// Reference to a field: its name, and the table it belongs to where the
/// reference is bound to one.
#[derive(Debug)]
pub struct QueryField {
    pub table: Option<TableName>,
    pub field: FieldName,
}

/// What a [`QueryField`] stands for.
pub struct QueryFieldView {
    pub table: Option<Seq<char>>,
    pub field: Seq<char>,
}

impl QueryFieldView {
    /// The reference that names `field` and no table.
    pub open spec fn local(field: Seq<char>) -> QueryFieldView {
        QueryFieldView { table: None, field }
    }

    /// Whether this stored field is one that `reference` speaks of: the names
    /// are equal, and the reference either names no table or names this field's.
    pub open spec fn matched_by(self, reference: QueryFieldView) -> bool {
        self.field == reference.field && (reference.table.is_none() || self.table
            == reference.table)
    }

    /// How the reference is written: the field's name, behind the table's name
    /// and a dot where it has one.
    pub open spec fn text(self) -> Seq<char> {
        match self.table {
            Some(table) => table + seq!['.'] + self.field,
            None => self.field,
        }
    }
}

impl View for QueryField {
    type V = QueryFieldView;

    open spec fn view(&self) -> QueryFieldView {
        QueryFieldView {
            table: match self.table {
                Some(table) => Some(table@),
                None => None,
            },
            field: self.field@,
        }
    }
}

impl Clone for QueryField {
    fn clone(&self) -> (copy: Self)
        ensures
            copy@ == self@,
    {
        QueryField {
            table: match &self.table {
                Some(table) => Some(table.clone()),
                None => None,
            },
            field: self.field.clone(),
        }
    }
}

impl QueryField {
    /// The reference to the field of the given name, bound to no table.
    pub fn new(field: FieldName) -> (reference: Self)
        ensures
            reference@ == QueryFieldView::local(field@),
    {
        Self { table: None, field }
    }

    /// The reference to the same field, bound to the given table.
    pub fn from_table(self, table: TableName) -> (reference: Self)
        ensures
            reference@ == (QueryFieldView { table: Some(table@), field: self@.field }),
    {
        Self { table: Some(table), field: self.field }
    }

    /// Is local to the current query
    pub fn is_local(&self) -> (local: bool)
        ensures
            local == self@.table.is_none(),
    {
        self.table.is_none()
    }

    /// Whether the stored field `self` is one that `reference` speaks of.
    pub fn matches(&self, reference: &QueryField) -> (matched: bool)
        ensures
            matched == self@.matched_by(reference@),
    {
        if self.field != reference.field {
            return false;
        }
        match &reference.table {
            None => true,
            Some(wanted) => match &self.table {
                Some(own) => *own == *wanted,
                None => false,
            },
        }
    }

    /// The reference as text.
    pub fn to_string(&self) -> (text: String)
        ensures
            text@ == self@.text(),
    {
        match &self.table {
            Some(table) => {
                proof {
                    reveal_strlit(".");
                    assert("."@ =~= seq!['.']);
                }
                table.clone().concat(".").concat(self.field.as_str())
            },
            None => self.field.clone(),
        }
    }
}

/// Whether some row of `rows` equals `row`.
pub open spec fn contains_row(rows: Seq<Seq<ValueView>>, row: Seq<ValueView>) -> bool {
    exists|i: int| 0 <= i < rows.len() && rows_equal(#[trigger] rows[i], row)
}

/// The rows that equal some row of `others`, in their order.
pub open spec fn common_rows(rows: Seq<Seq<ValueView>>, others: Seq<Seq<ValueView>>) -> Seq<
    Seq<ValueView>,
>
    decreases rows.len(),
{
    if rows.len() == 0 {
        rows
    } else {
        let earlier = common_rows(rows.drop_last(), others);
        if contains_row(others, rows.last()) {
            earlier.push(rows.last())
        } else {
            earlier
        }
    }
}

/// The rows that equal no row of `others`, in their order.
pub open spec fn remaining_rows(rows: Seq<Seq<ValueView>>, others: Seq<Seq<ValueView>>) -> Seq<
    Seq<ValueView>,
>
    decreases rows.len(),
{
    if rows.len() == 0 {
        rows
    } else {
        let earlier = remaining_rows(rows.drop_last(), others);
        if contains_row(others, rows.last()) {
            earlier
        } else {
            earlier.push(rows.last())
        }
    }
}

/// The rows without those that equal an earlier row, in their order.
pub open spec fn distinct_rows(rows: Seq<Seq<ValueView>>) -> Seq<Seq<ValueView>>
    decreases rows.len(),
{
    if rows.len() == 0 {
        rows
    } else {
        let earlier = distinct_rows(rows.drop_last());
        if contains_row(rows.drop_last(), rows.last()) {
            earlier
        } else {
            earlier.push(rows.last())
        }
    }
}

/// The columns that the requested fields are bound to, in the order of the
/// request; the first field that cannot be bound decides the error.
pub open spec fn requested_columns(
    fields: Seq<QueryFieldView>,
    requested: Seq<QueryFieldView>,
) -> Result<Seq<int>, QueryErrorView>
    decreases requested.len(),
{
    if requested.len() == 0 {
        Ok(Seq::empty())
    } else {
        match requested_columns(fields, requested.drop_last()) {
            Err(error) => Err(error),
            Ok(columns) => match column_of(fields, requested.last()) {
                Err(error) => Err(error),
                Ok(column) => Ok(columns.push(column)),
            },
        }
    }
}

/// Equality of rows is transitive.
pub proof fn lemma_rows_equal_transitive(a: Seq<ValueView>, b: Seq<ValueView>, c: Seq<ValueView>)
    requires
        rows_equal(a, b),
        rows_equal(b, c),
    ensures
        rows_equal(a, c),
{
    assert forall|i: int| 0 <= i < a.len() implies (#[trigger] a[i]).equals(c[i]) by {
        assert(a[i].equals(b[i]));
        assert(b[i].equals(c[i]));
    }
}

/// The distinct rows are among the rows, and hold a row equal to each row that
/// equals one of the rows.
pub proof fn lemma_distinct_rows_contain(rows: Seq<Seq<ValueView>>, row: Seq<ValueView>)
    ensures
        contains_row(distinct_rows(rows), row) <==> contains_row(rows, row),
    decreases rows.len(),
{
    if rows.len() > 0 {
        let init = rows.drop_last();
        let last = rows.last();
        let kept = distinct_rows(init);
        lemma_distinct_rows_contain(init, row);
        lemma_distinct_rows_contain(init, last);
        assert(forall|j: int| 0 <= j < init.len() ==> init[j] == rows[j]);
        if contains_row(distinct_rows(rows), row) {
            let i = choose|i: int|
                0 <= i < distinct_rows(rows).len() && rows_equal(
                    #[trigger] distinct_rows(rows)[i],
                    row,
                );
            if i < kept.len() {
                assert(rows_equal(kept[i], row));
                assert(contains_row(init, row));
                let j = choose|j: int| 0 <= j < init.len() && rows_equal(#[trigger] init[j], row);
                assert(rows_equal(rows[j], row));
            } else {
                assert(rows_equal(rows[rows.len() - 1], row));
            }
        }
        if contains_row(rows, row) {
            let j = choose|j: int| 0 <= j < rows.len() && rows_equal(#[trigger] rows[j], row);
            if j < init.len() {
                assert(rows_equal(init[j], row));
                let i = choose|i: int| 0 <= i < kept.len() && rows_equal(#[trigger] kept[i], row);
                assert(rows_equal(distinct_rows(rows)[i], row));
            } else {
                if contains_row(init, last) {
                    let k = choose|k: int|
                        0 <= k < init.len() && rows_equal(#[trigger] init[k], last);
                    lemma_rows_equal_transitive(init[k], last, row);
                    assert(contains_row(init, row));
                    let i = choose|i: int|
                        0 <= i < kept.len() && rows_equal(#[trigger] kept[i], row);
                    assert(rows_equal(distinct_rows(rows)[i], row));
                } else {
                    assert(rows_equal(distinct_rows(rows)[kept.len() as int], row));
                }
            }
        }
    }
}

/// Once binding the first requested fields fails, binding all of them fails
/// in the same way.
pub proof fn lemma_requested_columns_fail(
    fields: Seq<QueryFieldView>,
    requested: Seq<QueryFieldView>,
    upto: int,
)
    requires
        0 <= upto <= requested.len(),
        requested_columns(fields, requested.take(upto)).is_err(),
    ensures
        requested_columns(fields, requested) == requested_columns(fields, requested.take(upto)),
    decreases requested.len() - upto,
{
    if upto == requested.len() {
        assert(requested.take(upto) =~= requested);
    } else {
        assert(requested.take(upto + 1).drop_last() =~= requested.take(upto));
        lemma_requested_columns_fail(fields, requested, upto + 1);
    }
}

/// The columns that requested fields are bound to lie within the fields.
pub proof fn lemma_requested_columns(fields: Seq<QueryFieldView>, requested: Seq<QueryFieldView>)
    ensures
        match requested_columns(fields, requested) {
            Ok(columns) => {
                &&& columns.len() == requested.len()
                &&& forall|k: int|
                    0 <= k < columns.len() ==> 0 <= #[trigger] columns[k] < fields.len()
                &&& forall|k: int|
                    0 <= k < columns.len() ==> column_of(fields, requested[k]) == Ok::<
                        int,
                        QueryErrorView,
                    >(#[trigger] columns[k])
            },
            Err(_) => true,
        },
    decreases requested.len(),
{
    if requested.len() > 0 {
        lemma_requested_columns(fields, requested.drop_last());
        lemma_column_of(fields, requested.last());
    }
}

/// What a value says as a condition: a boolean says itself, and no other value
/// is a condition.
pub open spec fn truth_of(value: ValueView) -> Result<bool, QueryErrorView> {
    match value {
        ValueView::Boolean(b) => Ok(b),
        _ => Err(QueryErrorView::TypeError(TypeError::NotBoolean)),
    }
}

/// What a [`Condition`] stands for.
pub enum ConditionView {
    Value(ValueView),
    QueryField(QueryFieldView),
    FunctionCall(FunctionCallView),
}

impl ConditionView {
    /// Whether the condition holds: a value by itself, a field reference by
    /// the value that it is bound to, a call by the value that it returns once
    /// its field references are bound.
    pub open spec fn holds(
        self,
        functions: Map<Seq<char>, FunctionView>,
        resolver: ResolverView,
    ) -> Result<bool, QueryErrorView> {
        match self {
            ConditionView::Value(value) => truth_of(value),
            ConditionView::QueryField(field) => match resolver.resolve(field) {
                Ok(value) => truth_of(value),
                Err(error) => Err(error),
            },
            ConditionView::FunctionCall(call) => match call.resolved(resolver) {
                Err(error) => Err(error),
                Ok(resolved) => match resolved.applied(functions) {
                    Ok(value) => truth_of(value),
                    Err(error) => Err(error),
                },
            },
        }
    }
}

/// The rows for which the condition holds, in their order; the first row for
/// which the condition cannot be decided decides the error.
pub open spec fn selected_rows(
    fields: Seq<QueryFieldView>,
    rows: Seq<Seq<ValueView>>,
    functions: Map<Seq<char>, FunctionView>,
    condition: ConditionView,
) -> Result<Seq<Seq<ValueView>>, QueryErrorView>
    decreases rows.len(),
{
    if rows.len() == 0 {
        Ok(rows)
    } else {
        match selected_rows(fields, rows.drop_last(), functions, condition) {
            Err(error) => Err(error),
            Ok(earlier) => match condition.holds(functions, ResolverView::Row(fields, rows.last())) {
                Err(error) => Err(error),
                Ok(true) => Ok(earlier.push(rows.last())),
                Ok(false) => Ok(earlier),
            },
        }
    }
}

/// Once selecting among the first rows fails, selecting among all of them
/// fails in the same way.
pub proof fn lemma_selected_rows_fail(
    fields: Seq<QueryFieldView>,
    rows: Seq<Seq<ValueView>>,
    functions: Map<Seq<char>, FunctionView>,
    condition: ConditionView,
    upto: int,
)
    requires
        0 <= upto <= rows.len(),
        selected_rows(fields, rows.take(upto), functions, condition).is_err(),
    ensures
        selected_rows(fields, rows, functions, condition) == selected_rows(
            fields,
            rows.take(upto),
            functions,
            condition,
        ),
    decreases rows.len() - upto,
{
    if upto == rows.len() {
        assert(rows.take(upto) =~= rows);
    } else {
        assert(rows.take(upto + 1).drop_last() =~= rows.take(upto));
        lemma_selected_rows_fail(fields, rows, functions, condition, upto + 1);
    }
}

/// A materialized relation: the fields of its schema, in order, and its rows,
/// in the order in which the operators produced them. Rows may repeat.
#[derive(Debug)]
pub struct QueryResult {
    fields: Vec<QueryField>,
    rows: Vec<Row>,
}

/// What a [`QueryResult`] stands for.
pub struct QueryResultView {
    pub fields: Seq<QueryFieldView>,
    pub rows: Seq<Seq<ValueView>>,
}

impl QueryResultView {
    /// Every row holds one value for each field.
    pub open spec fn well_formed(self) -> bool {
        forall|i: int| 0 <= i < self.rows.len() ==> (#[trigger] self.rows[i]).len() == self.fields.len()
    }

    /// The names of the fields, in order.
    pub open spec fn field_names(self) -> Seq<Seq<char>> {
        Seq::new(self.fields.len(), |i: int| self.fields[i].field)
    }

    /// The rows of this result followed by those of the other, under the
    /// fields of this one.
    pub open spec fn union(self, other: QueryResultView) -> Result<
        QueryResultView,
        QueryErrorView,
    > {
        if self.field_names() != other.field_names() {
            Err(QueryErrorView::DifferentFields)
        } else {
            Ok(QueryResultView { fields: self.fields, rows: self.rows + other.rows })
        }
    }

    /// The rows of this result that equal some row of the other. Each row is
    /// tested by itself, however often it occurs on either side.
    pub open spec fn intersection(self, other: QueryResultView) -> Result<
        QueryResultView,
        QueryErrorView,
    > {
        if self.field_names() != other.field_names() {
            Err(QueryErrorView::DifferentFields)
        } else {
            Ok(
                QueryResultView {
                    fields: self.fields,
                    rows: common_rows(self.rows, other.rows),
                },
            )
        }
    }

    /// The rows of this result that equal no row of the other.
    pub open spec fn difference(self, other: QueryResultView) -> Result<
        QueryResultView,
        QueryErrorView,
    > {
        if self.field_names() != other.field_names() {
            Err(QueryErrorView::DifferentFields)
        } else {
            Ok(
                QueryResultView {
                    fields: self.fields,
                    rows: remaining_rows(self.rows, other.rows),
                },
            )
        }
    }

    /// The result without the rows that equal an earlier row.
    pub open spec fn distinct(self) -> QueryResultView {
        QueryResultView { fields: self.fields, rows: distinct_rows(self.rows) }
    }

    /// The result with the requested fields as its schema and, in each row,
    /// the values of the columns that they are bound to.
    pub open spec fn project(self, requested: Seq<QueryFieldView>) -> Result<
        QueryResultView,
        QueryErrorView,
    > {
        match requested_columns(self.fields, requested) {
            Err(error) => Err(error),
            Ok(columns) => Ok(
                QueryResultView {
                    fields: requested,
                    rows: Seq::new(self.rows.len(), |i: int| picked(self.rows[i], columns)),
                },
            ),
        }
    }

    /// The result with the rows for which the condition holds.
    pub open spec fn select(
        self,
        functions: Map<Seq<char>, FunctionView>,
        condition: ConditionView,
    ) -> Result<QueryResultView, QueryErrorView> {
        match selected_rows(self.fields, self.rows, functions, condition) {
            Err(error) => Err(error),
            Ok(rows) => Ok(QueryResultView { fields: self.fields, rows }),
        }
    }

    /// The result of one field of no table, with one row that holds one value.
    pub open spec fn single(field: Seq<char>, value: ValueView) -> QueryResultView {
        QueryResultView { fields: seq![QueryFieldView::local(field)], rows: seq![seq![value]] }
    }

    /// The result without rows whose fields, of no table, bear the given names.
    pub open spec fn empty(names: Seq<Seq<char>>) -> QueryResultView {
        QueryResultView {
            fields: Seq::new(names.len(), |i: int| QueryFieldView::local(names[i])),
            rows: Seq::empty(),
        }
    }

    /// The result in which the field that `from` is bound to is a field of no
    /// table named `to`.
    pub open spec fn rename(self, from: QueryFieldView, to: Seq<char>) -> Result<
        QueryResultView,
        QueryErrorView,
    > {
        match column_of(self.fields, from) {
            Err(error) => Err(error),
            Ok(column) => Ok(
                QueryResultView {
                    fields: self.fields.update(column, QueryFieldView::local(to)),
                    rows: self.rows,
                },
            ),
        }
    }
}

impl View for QueryResult {
    type V = QueryResultView;

    closed spec fn view(&self) -> QueryResultView {
        QueryResultView { fields: views(self.fields@), rows: views(self.rows@) }
    }
}

/// Whether some row of `rows` equals `row`.
pub fn contains(rows: &Vec<Row>, row: &Row) -> (found: bool)
    ensures
        found == contains_row(views(rows@), row@),
{
    let mut i: usize = 0;
    while i < rows.len()
        invariant
            i <= rows.len(),
            forall|j: int| 0 <= j < i ==> !rows_equal(#[trigger] views(rows@)[j], row@),
        decreases rows.len() - i,
    {
        if rows[i] == *row {
            assert(rows_equal(views(rows@)[i as int], row@));
            return true;
        }
        i += 1;
    }
    false
}

fn clone_fields(fields: &Vec<QueryField>) -> (copy: Vec<QueryField>)
    ensures
        views(copy@) == views(fields@),
        copy@.len() == fields@.len(),
{
    let mut copy: Vec<QueryField> = Vec::new();
    let mut i: usize = 0;
    while i < fields.len()
        invariant
            i <= fields.len(),
            copy@.len() == i,
            forall|j: int| 0 <= j < i ==> copy@[j]@ == fields@[j]@,
        decreases fields.len() - i,
    {
        copy.push(fields[i].clone());
        i += 1;
    }
    assert(views(copy@) =~= views(fields@));
    copy
}

impl QueryResult {
    #[verifier::type_invariant]
    spec fn rows_fit_fields(&self) -> bool {
        forall|i: int|
            0 <= i < self.rows@.len() ==> (#[trigger] self.rows@[i])@.len() == self.fields@.len()
    }

    /// A result with the given schema and rows. Every row must hold one value
    /// for each field.
    pub fn new(fields: Vec<QueryField>, rows: Vec<Row>) -> (result: Self)
        requires
            forall|i: int| 0 <= i < rows@.len() ==> (#[trigger] rows@[i])@.len() == fields@.len(),
        ensures
            result@.fields == views(fields@),
            result@.rows == views(rows@),
            result@.well_formed(),
    {
        Self { fields, rows }
    }

    /// The names of the fields, in order.
    pub fn field_names(&self) -> (names: Vec<FieldName>)
        ensures
            views(names@) == self@.field_names(),
    {
        let mut names: Vec<FieldName> = Vec::new();
        let mut i: usize = 0;
        while i < self.fields.len()
            invariant
                i <= self.fields.len(),
                names@.len() == i,
                forall|j: int| 0 <= j < i ==> names@[j]@ == self.fields@[j]@.field,
            decreases self.fields.len() - i,
        {
            names.push(self.fields[i].field.clone());
            i += 1;
        }
        assert(views(names@) =~= self@.field_names());
        names
    }

    /// The rows, in order.
    pub fn rows(&self) -> (rows: Vec<Row>)
        ensures
            views(rows@) == self@.rows,
            self@.well_formed(),
    {
        proof {
            use_type_invariant(self);
        }
        clone_rows(&self.rows)
    }

    /// The fields of the schema, in order.
    pub fn fields(&self) -> (fields: Vec<QueryField>)
        ensures
            views(fields@) == self@.fields,
    {
        clone_fields(&self.fields)
    }

    /// Whether the two results name their fields alike, in the same order.
    pub fn same_field_names(&self, other: &QueryResult) -> (same: bool)
        ensures
            same == (self@.field_names() == other@.field_names()),
    {
        if self.fields.len() != other.fields.len() {
            assert(self@.field_names().len() != other@.field_names().len());
            return false;
        }
        let mut i: usize = 0;
        while i < self.fields.len()
            invariant
                i <= self.fields.len(),
                self.fields.len() == other.fields.len(),
                forall|j: int| 0 <= j < i ==> self.fields@[j]@.field == other.fields@[j]@.field,
            decreases self.fields.len() - i,
        {
            if self.fields[i].field != other.fields[i].field {
                assert(self@.field_names()[i as int] != other@.field_names()[i as int]);
                return false;
            }
            i += 1;
        }
        assert(self@.field_names() =~= other@.field_names());
        true
    }

    /// The rows of this result followed by those of the other.
    pub fn union(&self, other: &QueryResult) -> (result: Result<QueryResult, QueryError>)
        ensures
            outcome(result) == self@.union(other@),
    {
        proof {
            use_type_invariant(self);
            use_type_invariant(other);
        }
        if !self.same_field_names(other) {
            return Err(QueryError::DifferentFields);
        }
        assert(self@.field_names().len() == other@.field_names().len());
        let mut rows: Vec<Row> = clone_rows(&self.rows);
        let ghost own = views(self.rows@);
        let mut i: usize = 0;
        assert(views(rows@) =~= own + views(other.rows@).take(0));
        while i < other.rows.len()
            invariant
                i <= other.rows.len(),
                own == views(self.rows@),
                self.fields@.len() == other.fields@.len(),
                views(rows@) == own + views(other.rows@).take(i as int),
                rows@.len() == own.len() + i,
                forall|j: int|
                    0 <= j < other.rows@.len() ==> (#[trigger] other.rows@[j])@.len()
                        == other.fields@.len(),
                forall|j: int|
                    0 <= j < rows@.len() ==> (#[trigger] rows@[j])@.len() == self.fields@.len(),
            decreases other.rows.len() - i,
        {
            let ghost before = views(rows@);
            rows.push(other.rows[i].clone());
            assert(views(rows@) =~= before.push(other.rows@[i as int]@));
            assert(views(other.rows@).take(i + 1) =~= views(other.rows@).take(i as int).push(
                other.rows@[i as int]@,
            ));
            assert(views(rows@) =~= own + views(other.rows@).take(i + 1));
            i += 1;
        }
        assert(views(other.rows@).take(other.rows@.len() as int) =~= views(other.rows@));
        Ok(QueryResult::new(clone_fields(&self.fields), rows))
    }

    /// The rows of this result that equal some row of the other.
    pub fn intersection(&self, other: &QueryResult) -> (result: Result<QueryResult, QueryError>)
        ensures
            outcome(result) == self@.intersection(other@),
    {
        proof {
            use_type_invariant(self);
        }
        if !self.same_field_names(other) {
            return Err(QueryError::DifferentFields);
        }
        let ghost own = views(self.rows@);
        let mut rows: Vec<Row> = Vec::new();
        let mut i: usize = 0;
        assert(common_rows(own.take(0), other@.rows) =~= views(rows@));
        while i < self.rows.len()
            invariant
                i <= self.rows.len(),
                own == views(self.rows@),
                views(rows@) == common_rows(own.take(i as int), other@.rows),
                forall|j: int|
                    0 <= j < self.rows@.len() ==> (#[trigger] self.rows@[j])@.len()
                        == self.fields@.len(),
                forall|j: int|
                    0 <= j < rows@.len() ==> (#[trigger] rows@[j])@.len() == self.fields@.len(),
            decreases self.rows.len() - i,
        {
            let ghost before = views(rows@);
            assert(own.take(i + 1).drop_last() =~= own.take(i as int));
            assert(own.take(i + 1).last() == self.rows@[i as int]@);
            if contains(&other.rows, &self.rows[i]) {
                rows.push(self.rows[i].clone());
                assert(views(rows@) =~= before.push(self.rows@[i as int]@));
            }
            i += 1;
        }
        assert(own.take(self.rows@.len() as int) =~= own);
        Ok(QueryResult::new(clone_fields(&self.fields), rows))
    }

    /// The rows of this result that equal no row of the other.
    pub fn difference(&self, other: &QueryResult) -> (result: Result<QueryResult, QueryError>)
        ensures
            outcome(result) == self@.difference(other@),
    {
        proof {
            use_type_invariant(self);
        }
        if !self.same_field_names(other) {
            return Err(QueryError::DifferentFields);
        }
        let ghost own = views(self.rows@);
        let mut rows: Vec<Row> = Vec::new();
        let mut i: usize = 0;
        assert(remaining_rows(own.take(0), other@.rows) =~= views(rows@));
        while i < self.rows.len()
            invariant
                i <= self.rows.len(),
                own == views(self.rows@),
                views(rows@) == remaining_rows(own.take(i as int), other@.rows),
                forall|j: int|
                    0 <= j < self.rows@.len() ==> (#[trigger] self.rows@[j])@.len()
                        == self.fields@.len(),
                forall|j: int|
                    0 <= j < rows@.len() ==> (#[trigger] rows@[j])@.len() == self.fields@.len(),
            decreases self.rows.len() - i,
        {
            let ghost before = views(rows@);
            assert(own.take(i + 1).drop_last() =~= own.take(i as int));
            assert(own.take(i + 1).last() == self.rows@[i as int]@);
            if !contains(&other.rows, &self.rows[i]) {
                rows.push(self.rows[i].clone());
                assert(views(rows@) =~= before.push(self.rows@[i as int]@));
            }
            i += 1;
        }
        assert(own.take(self.rows@.len() as int) =~= own);
        Ok(QueryResult::new(clone_fields(&self.fields), rows))
    }

    /// The result without the rows that equal an earlier row.
    pub fn distinct(&self) -> (result: Result<QueryResult, QueryError>)
        ensures
            outcome(result) == Ok::<QueryResultView, QueryErrorView>(self@.distinct()),
    {
        proof {
            use_type_invariant(self);
        }
        let ghost own = views(self.rows@);
        let mut rows: Vec<Row> = Vec::new();
        let mut i: usize = 0;
        assert(distinct_rows(own.take(0)) =~= views(rows@));
        while i < self.rows.len()
            invariant
                i <= self.rows.len(),
                own == views(self.rows@),
                views(rows@) == distinct_rows(own.take(i as int)),
                forall|j: int|
                    0 <= j < self.rows@.len() ==> (#[trigger] self.rows@[j])@.len()
                        == self.fields@.len(),
                forall|j: int|
                    0 <= j < rows@.len() ==> (#[trigger] rows@[j])@.len() == self.fields@.len(),
            decreases self.rows.len() - i,
        {
            let ghost before = views(rows@);
            assert(own.take(i + 1).drop_last() =~= own.take(i as int));
            assert(own.take(i + 1).last() == self.rows@[i as int]@);
            proof {
                lemma_distinct_rows_contain(own.take(i as int), self.rows@[i as int]@);
            }
            if !contains(&rows, &self.rows[i]) {
                rows.push(self.rows[i].clone());
                assert(views(rows@) =~= before.push(self.rows@[i as int]@));
            }
            i += 1;
        }
        assert(own.take(self.rows@.len() as int) =~= own);
        Ok(QueryResult::new(clone_fields(&self.fields), rows))
    }

    /// The columns whose field the reference matches, in ascending order.
    pub fn match_field(&self, qf: &QueryField) -> (columns: Vec<usize>)
        ensures
            indices(columns@) == matching_columns(self@.fields, qf@),
    {
        matching_fields(&self.fields, qf)
    }

    /// The result made of the requested fields, in the order of the request.
    pub fn project(&self, fields: &Vec<QueryField>) -> (result: Result<QueryResult, QueryError>)
        ensures
            outcome(result) == self@.project(views(fields@)),
    {
        proof {
            use_type_invariant(self);
        }
        let ghost requested = views(fields@);
        let mut result_fields: Vec<QueryField> = Vec::new();
        let mut result_columns: Vec<usize> = Vec::new();
        let mut k: usize = 0;
        assert(indices(result_columns@) =~= Seq::<int>::empty());
        assert(requested.take(0).len() == 0);
        while k < fields.len()
            invariant
                k <= fields.len(),
                requested == views(fields@),
                requested_columns(views(self.fields@), requested.take(k as int)) == Ok::<
                    Seq<int>,
                    QueryErrorView,
                >(indices(result_columns@)),
                result_fields@.len() == k,
                result_columns@.len() == k,
                forall|j: int| 0 <= j < k ==> result_fields@[j]@ == fields@[j]@,
                forall|j: int| 0 <= j < k ==> result_columns@[j] < self.fields@.len(),
            decreases fields.len() - k,
        {
            let ghost before = indices(result_columns@);
            assert(requested.take(k + 1).drop_last() =~= requested.take(k as int));
            assert(requested.take(k + 1).last() == fields@[k as int]@);
            match resolve_column(&self.fields, &fields[k]) {
                Ok(column) => {
                    result_fields.push(fields[k].clone());
                    result_columns.push(column);
                    assert(indices(result_columns@) =~= before.push(column as int));
                },
                Err(error) => {
                    proof {
                        lemma_requested_columns_fail(views(self.fields@), requested, k + 1);
                    }
                    return Err(error);
                },
            }
            k += 1;
        }
        assert(requested.take(fields@.len() as int) =~= requested);
        assert(views(result_fields@) =~= requested);
        let mut rows: Vec<Row> = Vec::new();
        let mut i: usize = 0;
        while i < self.rows.len()
            invariant
                i <= self.rows.len(),
                rows@.len() == i,
                result_columns@.len() == result_fields@.len(),
                forall|j: int|
                    0 <= j < result_columns@.len() ==> result_columns@[j] < self.fields@.len(),
                forall|j: int|
                    0 <= j < self.rows@.len() ==> (#[trigger] self.rows@[j])@.len()
                        == self.fields@.len(),
                forall|j: int|
                    0 <= j < i ==> (#[trigger] rows@[j])@ == picked(
                        self.rows@[j]@,
                        indices(result_columns@),
                    ),
            decreases self.rows.len() - i,
        {
            rows.push(self.rows[i].pick_columns(&result_columns));
            i += 1;
        }
        assert(views(rows@) =~= Seq::new(
            views(self.rows@).len(),
            |i: int| picked(views(self.rows@)[i], indices(result_columns@)),
        ));
        Ok(QueryResult::new(result_fields, rows))
    }

    /// The result in which the field that `from` is bound to bears the name
    /// `to`, and belongs to no table.
    pub fn rename(&self, from: &QueryField, to: &FieldName) -> (result: Result<
        QueryResult,
        QueryError,
    >)
        ensures
            outcome(result) == self@.rename(from@, to@),
    {
        proof {
            use_type_invariant(self);
        }
        let column = match resolve_column(&self.fields, from) {
            Ok(column) => column,
            Err(error) => {
                return Err(error);
            },
        };
        let mut fields = clone_fields(&self.fields);
        let ghost before = views(fields@);
        fields.set(column, QueryField::new(to.clone()));
        assert(views(fields@) =~= before.update(column as int, QueryFieldView::local(to@)));
        Ok(QueryResult::new(fields, clone_rows(&self.rows)))
    }
}

impl QueryResult {
    /// The rows of a table of the store, under the table's fields.
    pub fn from_db_table(db: &DataDB, table_name: TableName) -> (result: Result<
        QueryResult,
        QueryError,
    >)
        requires
            db@.well_formed(),
        ensures
            outcome(result) == db@.table_result(table_name@),
    {
        if let Some(table) = db.table(table_name.clone()) {
            let table_fields = table.fields();
            let mut fields: Vec<QueryField> = Vec::new();
            let mut k: usize = 0;
            while k < table_fields.len()
                invariant
                    k <= table_fields.len(),
                    fields@.len() == k,
                    forall|j: int|
                        0 <= j < k ==> fields@[j]@ == (QueryFieldView {
                            table: Some(table_name@),
                            field: table_fields@[j]@.name,
                        }),
                decreases table_fields.len() - k,
            {
                fields.push(QueryField::new(table_fields[k].name()).from_table(table_name.clone()));
                k += 1;
            }
            let rows = db.all_rows(table_name).unwrap();
            let ghost i = db@.table_index(table_name@)->Some_0;
            proof {
                lemma_position(db@.table_names(), table_name@);
                assert(views(table_fields@).len() == table_fields@.len());
                assert forall|j: int| 0 <= j < rows@.len() implies (#[trigger] rows@[j])@.len()
                    == fields@.len() by {
                    assert(views(rows@)[j] == rows@[j]@);
                    assert(db@.table_rows[i][j].len() == db@.tables[i].fields.len());
                }
            }
            let result = QueryResult::new(fields, rows);
            assert(result@.fields =~= db@.table_result(table_name@)->Ok_0.fields) by {
                assert forall|j: int| 0 <= j < fields@.len() implies views(fields@)[j]
                    == db@.table_result(table_name@)->Ok_0.fields[j] by {
                    assert(views(table_fields@)[j] == table_fields@[j]@);
                }
            }
            Ok(result)
        } else {
            Err(QueryError::NoSuchTable(table_name))
        }
    }

    /// The rows for which the condition holds.
    pub fn filter(&self, function_dict: &FunctionDict, condition: &Condition) -> (result: Result<
        QueryResult,
        QueryError,
    >)
        ensures
            outcome(result) == self@.select(function_dict@, condition@),
    {
        proof {
            use_type_invariant(self);
        }
        let ghost own = views(self.rows@);
        let ghost fields = views(self.fields@);
        let mut rows: Vec<Row> = Vec::new();
        let mut i: usize = 0;
        assert(own.take(0) =~= views(rows@));
        while i < self.rows.len()
            invariant
                i <= self.rows.len(),
                own == views(self.rows@),
                fields == views(self.fields@),
                selected_rows(fields, own.take(i as int), function_dict@, condition@) == Ok::<
                    Seq<Seq<ValueView>>,
                    QueryErrorView,
                >(views(rows@)),
                forall|j: int|
                    0 <= j < self.rows@.len() ==> (#[trigger] self.rows@[j])@.len()
                        == self.fields@.len(),
                forall|j: int|
                    0 <= j < rows@.len() ==> (#[trigger] rows@[j])@.len() == self.fields@.len(),
            decreases self.rows.len() - i,
        {
            let ghost before = views(rows@);
            assert(own.take(i + 1).drop_last() =~= own.take(i as int));
            assert(own.take(i + 1).last() == self.rows@[i as int]@);
            let resolver = Resolver::Row(&self.fields, &self.rows[i]);
            match condition.test(function_dict, &resolver) {
                Ok(ok) => {
                    if ok {
                        rows.push(self.rows[i].clone());
                        assert(views(rows@) =~= before.push(self.rows@[i as int]@));
                    }
                },
                Err(error) => {
                    proof {
                        lemma_selected_rows_fail(fields, own, function_dict@, condition@, i + 1);
                    }
                    return Err(error);
                },
            }
            i += 1;
        }
        assert(own.take(self.rows@.len() as int) =~= own);
        Ok(QueryResult::new(clone_fields(&self.fields), rows))
    }
}

/// An expression that a row either meets or does not.
#[derive(Debug)]
pub enum Condition {
    Value(Value),
    QueryField(QueryField),
    FunctionCall(FunctionCall),
}

impl View for Condition {
    type V = ConditionView;

    open spec fn view(&self) -> ConditionView {
        match self {
            Condition::Value(value) => ConditionView::Value(value@),
            Condition::QueryField(field) => ConditionView::QueryField(field@),
            Condition::FunctionCall(call) => ConditionView::FunctionCall(call@),
        }
    }
}

impl Clone for Condition {
    fn clone(&self) -> (copy: Self)
        ensures
            copy@ == self@,
    {
        match self {
            Condition::Value(value) => Condition::Value(value.clone()),
            Condition::QueryField(field) => Condition::QueryField(field.clone()),
            Condition::FunctionCall(call) => Condition::FunctionCall(call.clone()),
        }
    }
}

/// Reads a value as a condition.
pub fn test_value(value: &Value) -> (truth: Result<bool, QueryError>)
    ensures
        outcome(truth) == truth_of(value@),
{
    match value {
        Value::Boolean(b) => Ok(*b),
        _ => Err(QueryError::TypeError(TypeError::NotBoolean)),
    }
}

impl Condition {
    /// Decides the condition, with the field references bound by the resolver.
    pub fn test(&self, function_dict: &FunctionDict, resolver: &Resolver) -> (truth: Result<
        bool,
        QueryError,
    >)
        requires
            resolver@.well_formed(),
        ensures
            outcome(truth) == self@.holds(function_dict@, resolver@),
    {
        match self {
            Condition::Value(value) => test_value(value),
            Condition::QueryField(field) => match resolver.resolve(field) {
                Ok(value) => test_value(&value),
                Err(error) => Err(error),
            },
            Condition::FunctionCall(call) => match call.resolve_args(resolver) {
                Err(error) => Err(error),
                Ok(resolved) => match resolved.apply(function_dict) {
                    Ok(value) => test_value(&value),
                    Err(error) => Err(error),
                },
            },
        }
    }
}

/// A tree of relational operators.
#[derive(Debug)]
pub enum Query {
    /// Zero-row "Table" from field names
    Empty(Vec<FieldName>),
    /// Table from db
    Table(TableName),
    /// Single column, single row "Table" from a single value
    FromValue(TableField, Value),
    /// Single column, single row "Table" from a function call
    FromFunctionCall(TableField, FunctionCall),
    /// Multiset Union
    Union(Box<Query>, Box<Query>),
    /// Multiset Intersection
    Intersection(Box<Query>, Box<Query>),
    /// Multiset Difference
    Difference(Box<Query>, Box<Query>),
    /// Remove duplicates
    Distinct(Box<Query>),
    /// Pick fields $0 in $1
    Project(Vec<QueryField>, Box<Query>),
    /// Select (filter) the result set of query
    Select(Condition, Box<Query>),
    /// Rename $0 to $1 in $2
    Rename(QueryField, FieldName, Box<Query>),
}

/// What a [`Query`] stands for.
pub enum QueryView {
    Empty(Seq<Seq<char>>),
    Table(Seq<char>),
    FromValue(TableFieldView, ValueView),
    FromFunctionCall(TableFieldView, FunctionCallView),
    Union(Box<QueryView>, Box<QueryView>),
    Intersection(Box<QueryView>, Box<QueryView>),
    Difference(Box<QueryView>, Box<QueryView>),
    Distinct(Box<QueryView>),
    Project(Seq<QueryFieldView>, Box<QueryView>),
    Select(ConditionView, Box<QueryView>),
    Rename(QueryFieldView, Seq<char>, Box<QueryView>),
}

impl Query {
    /// What the query stands for.
    pub open spec fn model(self) -> QueryView
        decreases self,
    {
        match self {
            Query::Empty(names) => QueryView::Empty(views(names@)),
            Query::Table(name) => QueryView::Table(name@),
            Query::FromValue(field, value) => QueryView::FromValue(field@, value@),
            Query::FromFunctionCall(field, call) => QueryView::FromFunctionCall(field@, call@),
            Query::Union(a, b) => QueryView::Union(Box::new((*a).model()), Box::new((*b).model())),
            Query::Intersection(a, b) => QueryView::Intersection(
                Box::new((*a).model()),
                Box::new((*b).model()),
            ),
            Query::Difference(a, b) => QueryView::Difference(
                Box::new((*a).model()),
                Box::new((*b).model()),
            ),
            Query::Distinct(q) => QueryView::Distinct(Box::new((*q).model())),
            Query::Project(fields, q) => QueryView::Project(
                views(fields@),
                Box::new((*q).model()),
            ),
            Query::Select(condition, q) => QueryView::Select(condition@, Box::new((*q).model())),
            Query::Rename(from, to, q) => QueryView::Rename(from@, to@, Box::new((*q).model())),
        }
    }
}

impl View for Query {
    type V = QueryView;

    open spec fn view(&self) -> QueryView {
        self.model()
    }
}

impl QueryView {
    /// The result of the query over the given store. Every operator evaluates
    /// the queries below it first, the left one before the right one, and
    /// fails with the first error among them.
    pub open spec fn executed(self, db: DataDBView) -> Result<QueryResultView, QueryErrorView>
        decreases self,
    {
        match self {
            QueryView::Empty(names) => Ok(QueryResultView::empty(names)),
            QueryView::Table(name) => db.table_result(name),
            QueryView::FromValue(field, value) => Ok(QueryResultView::single(field.name, value)),
            QueryView::FromFunctionCall(field, call) => match call.resolved(ResolverView::NoRow) {
                Err(error) => Err(error),
                Ok(resolved) => match resolved.applied(db.functions) {
                    Err(error) => Err(error),
                    Ok(value) => Ok(QueryResultView::single(field.name, value)),
                },
            },
            QueryView::Union(a, b) => match a.executed(db) {
                Err(error) => Err(error),
                Ok(left) => match b.executed(db) {
                    Err(error) => Err(error),
                    Ok(right) => left.union(right),
                },
            },
            QueryView::Intersection(a, b) => match a.executed(db) {
                Err(error) => Err(error),
                Ok(left) => match b.executed(db) {
                    Err(error) => Err(error),
                    Ok(right) => left.intersection(right),
                },
            },
            QueryView::Difference(a, b) => match a.executed(db) {
                Err(error) => Err(error),
                Ok(left) => match b.executed(db) {
                    Err(error) => Err(error),
                    Ok(right) => left.difference(right),
                },
            },
            QueryView::Distinct(q) => match q.executed(db) {
                Err(error) => Err(error),
                Ok(result) => Ok(result.distinct()),
            },
            QueryView::Project(fields, q) => match q.executed(db) {
                Err(error) => Err(error),
                Ok(result) => result.project(fields),
            },
            QueryView::Select(condition, q) => match q.executed(db) {
                Err(error) => Err(error),
                Ok(result) => result.select(db.functions, condition),
            },
            QueryView::Rename(from, to, q) => match q.executed(db) {
                Err(error) => Err(error),
                Ok(result) => result.rename(from, to),
            },
        }
    }
}

fn single_row(field: &TableField, value: Value) -> (result: QueryResult)
    ensures
        result@ == QueryResultView::single(field@.name, value@),
{
    let mut fields: Vec<QueryField> = Vec::new();
    fields.push(QueryField::new(field.name()));
    let mut values: Vec<Value> = Vec::new();
    values.push(value);
    let row = Row::new(values);
    assert(row@ =~= seq![value@]);
    let mut rows: Vec<Row> = Vec::new();
    rows.push(row);
    let result = QueryResult::new(fields, rows);
    assert(result@.fields =~= seq![QueryFieldView::local(field@.name)]);
    assert(result@.rows =~= seq![seq![value@]]);
    result
}

impl Clone for Query {
    fn clone(&self) -> (copy: Self)
        ensures
            copy@ == self@,
    {
        self.duplicate()
    }
}

impl Query {
    /// A copy of the query.
    pub fn duplicate(&self) -> (copy: Self)
        ensures
            copy@ == self@,
        decreases self,
    {
        match self {
            Query::Empty(names) => {
                let mut copy: Vec<FieldName> = Vec::new();
                let mut i: usize = 0;
                while i < names.len()
                    invariant
                        i <= names.len(),
                        copy@.len() == i,
                        forall|j: int| 0 <= j < i ==> copy@[j]@ == names@[j]@,
                    decreases names.len() - i,
                {
                    copy.push(names[i].clone());
                    i += 1;
                }
                assert(views(copy@) =~= views(names@));
                Query::Empty(copy)
            },
            Query::Table(name) => Query::Table(name.clone()),
            Query::FromValue(field, value) => Query::FromValue(field.clone(), value.clone()),
            Query::FromFunctionCall(field, call) => Query::FromFunctionCall(
                field.clone(),
                call.clone(),
            ),
            Query::Union(a, b) => Query::Union(Box::new(a.duplicate()), Box::new(b.duplicate())),
            Query::Intersection(a, b) => Query::Intersection(
                Box::new(a.duplicate()),
                Box::new(b.duplicate()),
            ),
            Query::Difference(a, b) => Query::Difference(
                Box::new(a.duplicate()),
                Box::new(b.duplicate()),
            ),
            Query::Distinct(q) => Query::Distinct(Box::new(q.duplicate())),
            Query::Project(fields, q) => Query::Project(
                clone_fields(fields),
                Box::new(q.duplicate()),
            ),
            Query::Select(condition, q) => Query::Select(
                condition.clone(),
                Box::new(q.duplicate()),
            ),
            Query::Rename(from, to, q) => Query::Rename(
                from.clone(),
                to.clone(),
                Box::new(q.duplicate()),
            ),
        }
    }

    /// Evaluates the query over the store.
    pub fn execute(&self, db: &DataDB) -> (result: Result<QueryResult, QueryError>)
        requires
            db@.well_formed(),
        ensures
            outcome(result) == self@.executed(db@),
        decreases self,
    {
        match self {
            Query::Empty(names) => {
                let mut fields: Vec<QueryField> = Vec::new();
                let mut i: usize = 0;
                while i < names.len()
                    invariant
                        i <= names.len(),
                        fields@.len() == i,
                        forall|j: int|
                            0 <= j < i ==> fields@[j]@ == QueryFieldView::local(names@[j]@),
                    decreases names.len() - i,
                {
                    fields.push(QueryField::new(names[i].clone()));
                    i += 1;
                }
                let result = QueryResult::new(fields, Vec::new());
                assert(result@.fields =~= QueryResultView::empty(views(names@)).fields);
                assert(result@.rows =~= Seq::empty());
                Ok(result)
            },
            Query::Table(name) => QueryResult::from_db_table(db, name.clone()),
            Query::FromValue(field, value) => Ok(single_row(field, value.clone())),
            Query::FromFunctionCall(field, call) => {
                let fd = db.function_dict();
                let resolved = match call.resolve_args(&Resolver::NoRow) {
                    Ok(resolved) => resolved,
                    Err(error) => {
                        return Err(error);
                    },
                };
                match resolved.apply(&fd) {
                    Ok(value) => Ok(single_row(field, value)),
                    Err(error) => Err(error),
                }
            },
            Query::Union(q1, q2) => {
                let v1 = match q1.execute(db) {
                    Ok(result) => result,
                    Err(error) => {
                        return Err(error);
                    },
                };
                let v2 = match q2.execute(db) {
                    Ok(result) => result,
                    Err(error) => {
                        return Err(error);
                    },
                };
                v1.union(&v2)
            },
            Query::Intersection(q1, q2) => {
                let v1 = match q1.execute(db) {
                    Ok(result) => result,
                    Err(error) => {
                        return Err(error);
                    },
                };
                let v2 = match q2.execute(db) {
                    Ok(result) => result,
                    Err(error) => {
                        return Err(error);
                    },
                };
                v1.intersection(&v2)
            },
            Query::Difference(q1, q2) => {
                let v1 = match q1.execute(db) {
                    Ok(result) => result,
                    Err(error) => {
                        return Err(error);
                    },
                };
                let v2 = match q2.execute(db) {
                    Ok(result) => result,
                    Err(error) => {
                        return Err(error);
                    },
                };
                v1.difference(&v2)
            },
            Query::Distinct(subquery) => match subquery.execute(db) {
                Ok(result) => result.distinct(),
                Err(error) => Err(error),
            },
            Query::Project(fields, subquery) => match subquery.execute(db) {
                Ok(result) => result.project(fields),
                Err(error) => Err(error),
            },
            Query::Select(condition, subquery) => {
                let fd = db.function_dict();
                match subquery.execute(db) {
                    Ok(result) => result.filter(&fd, condition),
                    Err(error) => Err(error),
                }
            },
            Query::Rename(from, to, subquery) => match subquery.execute(db) {
                Ok(result) => result.rename(from, to),
                Err(error) => Err(error),
            },
        }
    }
}

} // verus!
