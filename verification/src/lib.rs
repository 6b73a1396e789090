//! An embedded relational-algebra query engine over an in-memory, schema-typed
//! table store.
//!
//! Every function of this crate is verified against a contract stated over the
//! views of its arguments: rows are sequences of scalar values, results are a
//! sequence of fields and a sequence of rows, and the evaluator of the operator
//! tree is held to a recursive definition of what each operator returns.
//!
//! Binary64 numbers are values like any other: they are stored, moved and
//! compared, as numbers, by their bit patterns. This crate holds no
//! floating-point code, so what takes arithmetic on them (their sum, their
//! conversion from and to integers, their rendering as text) ends in
//! [`QueryError::RealArithmetic`], on which a host can do the arithmetic itself.

use vstd::prelude::*;

pub mod builtin_functions;
pub mod database;
pub mod field;
pub mod function;
pub mod laws;
pub mod query;
pub mod resolve;
pub mod table;
pub mod value;

pub use database::{ApplyError, ApplyErrorView, DataDB, DataDBView, Delta, DeltaView, SrimDB};
pub use field::{Field, FieldKind, FieldKindView, IntSize};
pub use function::{Argument, FunctionCall};
pub use query::{Query, QueryField, QueryFieldView, QueryResult, QueryResultView};
pub use table::{Row, Table, TableField, TableFieldView, TableView};
pub use value::{Value, ValueKind, ValueView};

verus! {

/// The name of a table.
pub type TableName = String;

/// The name of a field.
pub type FieldName = String;

/// The name of a function.
pub type FunctionName = String;

/// A value of the wrong kind where a particular kind is called for.
#[derive(Debug, Clone, Copy, PartialEq, Eq, Structural)]
pub enum TypeError {
    /// A condition reduced to a value that is not a boolean.
    NotBoolean,
}

/// Why a query, or an operation on values, failed.
#[derive(Debug)]
pub enum QueryError {
    /// The kinds of two values do not unify, or a value cannot be cast.
    IncompatibleTypes,
    /// The operands of a set operator name their fields differently.
    DifferentFields,
    TypeError(TypeError),
    /// A function got fewer arguments than the given minimum.
    NotEnoughArguments(usize),
    NoSuchTable(TableName),
    /// A field reference matches no column.
    NoSuchField(QueryField),
    /// A field reference matches more than one column.
    AmbiguousField(QueryField),
    /// A call names a function that the registry does not hold.
    NoSuchFunction(FunctionName),
    /// The function is of a kind that cannot be applied.
    UnsupportedFunctionKind,
    /// A call was applied while it still held a field reference.
    UnresolvedField(QueryField),
    /// The operation needs arithmetic on binary64 numbers, which this crate
    /// moves and compares as bit patterns but does not compute with.
    RealArithmetic,
}

/// What a [`QueryError`] stands for.
pub enum QueryErrorView {
    IncompatibleTypes,
    DifferentFields,
    TypeError(TypeError),
    NotEnoughArguments(usize),
    NoSuchTable(Seq<char>),
    NoSuchField(QueryFieldView),
    AmbiguousField(QueryFieldView),
    NoSuchFunction(Seq<char>),
    UnsupportedFunctionKind,
    UnresolvedField(QueryFieldView),
    RealArithmetic,
}

impl View for QueryError {
    type V = QueryErrorView;

    open spec fn view(&self) -> QueryErrorView {
        match self {
            QueryError::IncompatibleTypes => QueryErrorView::IncompatibleTypes,
            QueryError::DifferentFields => QueryErrorView::DifferentFields,
            QueryError::TypeError(e) => QueryErrorView::TypeError(*e),
            QueryError::NotEnoughArguments(n) => QueryErrorView::NotEnoughArguments(*n),
            QueryError::NoSuchTable(name) => QueryErrorView::NoSuchTable(name@),
            QueryError::NoSuchField(field) => QueryErrorView::NoSuchField(field@),
            QueryError::AmbiguousField(field) => QueryErrorView::AmbiguousField(field@),
            QueryError::NoSuchFunction(name) => QueryErrorView::NoSuchFunction(name@),
            QueryError::UnsupportedFunctionKind => QueryErrorView::UnsupportedFunctionKind,
            QueryError::UnresolvedField(field) => QueryErrorView::UnresolvedField(field@),
            QueryError::RealArithmetic => QueryErrorView::RealArithmetic,
        }
    }
}

impl Clone for QueryError {
    fn clone(&self) -> (copy: Self)
        ensures
            copy@ == self@,
    {
        match self {
            QueryError::IncompatibleTypes => QueryError::IncompatibleTypes,
            QueryError::DifferentFields => QueryError::DifferentFields,
            QueryError::TypeError(e) => QueryError::TypeError(*e),
            QueryError::NotEnoughArguments(n) => QueryError::NotEnoughArguments(*n),
            QueryError::NoSuchTable(name) => QueryError::NoSuchTable(name.clone()),
            QueryError::NoSuchField(field) => QueryError::NoSuchField(field.clone()),
            QueryError::AmbiguousField(field) => QueryError::AmbiguousField(field.clone()),
            QueryError::NoSuchFunction(name) => QueryError::NoSuchFunction(name.clone()),
            QueryError::UnsupportedFunctionKind => QueryError::UnsupportedFunctionKind,
            QueryError::UnresolvedField(field) => QueryError::UnresolvedField(field.clone()),
            QueryError::RealArithmetic => QueryError::RealArithmetic,
        }
    }
}

/// The views of the items of a sequence, in the same order.
pub open spec fn views<T: View>(items: Seq<T>) -> Seq<T::V> {
    Seq::new(items.len(), |i: int| items[i]@)
}

/// The first place at which `name` stands in `names`, if it stands there at all.
pub open spec fn position(names: Seq<Seq<char>>, name: Seq<char>) -> Option<int>
    decreases names.len(),
{
    if names.len() == 0 {
        None
    } else {
        match position(names.drop_last(), name) {
            Some(i) => Some(i),
            None => if names.last() == name {
                Some(names.len() - 1)
            } else {
                None
            },
        }
    }
}

/// `position` finds the least index that holds the name, and finds none only
/// where no index holds it.
pub proof fn lemma_position(names: Seq<Seq<char>>, name: Seq<char>)
    ensures
        match position(names, name) {
            Some(i) => {
                &&& 0 <= i < names.len()
                &&& names[i] == name
                &&& forall|j: int| 0 <= j < i ==> names[j] != name
            },
            None => forall|j: int| 0 <= j < names.len() ==> names[j] != name,
        },
    decreases names.len(),
{
    if names.len() > 0 {
        let init = names.drop_last();
        lemma_position(init, name);
        assert(forall|j: int| 0 <= j < init.len() ==> init[j] == names[j]);
    }
}

/// An index that holds the name, with no earlier one that does, is the one that
/// `position` finds; where no index holds the name it finds none.
pub proof fn lemma_position_is(names: Seq<Seq<char>>, name: Seq<char>, found: Option<int>)
    requires
        match found {
            Some(i) => {
                &&& 0 <= i < names.len()
                &&& names[i] == name
                &&& forall|j: int| 0 <= j < i ==> names[j] != name
            },
            None => forall|j: int| 0 <= j < names.len() ==> names[j] != name,
        },
    ensures
        position(names, name) == found,
{
    lemma_position(names, name);
}

/// The view of what a fallible operation returned: the view of its value, or the
/// view of its error.
pub open spec fn outcome<T: View>(result: Result<T, QueryError>) -> Result<T::V, QueryErrorView> {
    match result {
        Ok(value) => Ok(value@),
        Err(error) => Err(error@),
    }
}

} // verus!
