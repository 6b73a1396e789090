//! The functions that every registry holds from the start.

use vstd::prelude::*;
use vstd::string::StringExecFns;
use crate::function::{FunctionView, NativeFunction};
use crate::value::{Value, ValueView};
use crate::{outcome, views, FunctionName, QueryError, QueryErrorView};

verus! {

/// A function that the engine itself provides.
#[derive(Debug, Clone, Copy, PartialEq, Eq, Structural)]
pub enum Builtin {
    /// Whether all arguments are equal, in kind and in value.
    StrictEq,
    /// The sum of the arguments.
    Add,
}

/// Whether every value equals the first one. No value is coerced: values of
/// different kinds are not equal. Fewer than two values are all equal.
pub open spec fn all_equal(values: Seq<ValueView>) -> bool {
    forall|i: int| 1 <= i < values.len() ==> (#[trigger] values[i]).equals(values[0])
}

/// The values added up from left to right. There must be at least one; the
/// first pair that cannot be added decides the error.
pub open spec fn sum_of(values: Seq<ValueView>) -> Result<ValueView, QueryErrorView>
    decreases values.len(),
{
    if values.len() == 0 {
        Err(QueryErrorView::NotEnoughArguments(1))
    } else if values.len() == 1 {
        Ok(values[0])
    } else {
        match sum_of(values.drop_last()) {
            Ok(sum) => sum.sum(values.last()),
            Err(error) => Err(error),
        }
    }
}

impl Builtin {
    /// The name under which the function is registered.
    pub open spec fn name(self) -> Seq<char> {
        match self {
            Builtin::StrictEq => "strict_eq"@,
            Builtin::Add => "add"@,
        }
    }

    /// What the function returns for the given arguments.
    pub open spec fn result(self, values: Seq<ValueView>) -> Result<ValueView, QueryErrorView> {
        match self {
            Builtin::StrictEq => Ok(ValueView::Boolean(all_equal(values))),
            Builtin::Add => sum_of(values),
        }
    }
}

/// The registry that holds the functions that the engine provides, each under
/// its name.
pub open spec fn builtin_registry() -> Map<Seq<char>, FunctionView> {
    Map::empty().insert(
        Builtin::StrictEq.name(),
        FunctionView::Native(Builtin::StrictEq),
    ).insert(Builtin::Add.name(), FunctionView::Native(Builtin::Add))
}

/// Whether all values are equal to the first, in kind and in value.
pub fn f_strict_eq(values: Vec<Value>) -> (result: Result<Value, QueryError>)
    ensures
        outcome(result) == Builtin::StrictEq.result(views(values@)),
{
    if values.len() < 2 {
        return Ok(Value::Boolean(true));
    }
    let mut i: usize = 1;
    while i < values.len()
        invariant
            1 <= i <= values.len(),
            forall|j: int| 1 <= j < i ==> (#[trigger] views(values@)[j]).equals(views(values@)[0]),
        decreases values.len() - i,
    {
        if values[i] != values[0] {
            assert(!views(values@)[i as int].equals(views(values@)[0]));
            return Ok(Value::Boolean(false));
        }
        i += 1;
    }
    Ok(Value::Boolean(true))
}

/// The sum of the values, added up from left to right.
pub fn f_add(values: Vec<Value>) -> (result: Result<Value, QueryError>)
    ensures
        outcome(result) == Builtin::Add.result(views(values@)),
{
    if values.len() < 1 {
        return Err(QueryError::NotEnoughArguments(1));
    }
    let mut acc = values[0].clone();
    let mut i: usize = 1;
    assert(views(values@).take(1) =~= seq![values@[0]@]);
    while i < values.len()
        invariant
            1 <= i <= values.len(),
            sum_of(views(values@).take(i as int)) == Ok::<ValueView, QueryErrorView>(acc@),
        decreases values.len() - i,
    {
        assert(views(values@).take(i + 1).drop_last() =~= views(values@).take(i as int));
        assert(views(values@).take(i + 1).last() == values@[i as int]@);
        match acc.binop_add(values[i].clone()) {
            Ok(sum) => {
                acc = sum;
            },
            Err(error) => {
                proof {
                    lemma_sum_of_fails(views(values@), i + 1);
                }
                return Err(error);
            },
        }
        i += 1;
    }
    assert(views(values@).take(values@.len() as int) =~= views(values@));
    Ok(acc)
}

/// Once the sum of the first values fails, the sum of all of them fails in the
/// same way.
pub proof fn lemma_sum_of_fails(values: Seq<ValueView>, upto: int)
    requires
        1 <= upto <= values.len(),
        sum_of(values.take(upto)).is_err(),
    ensures
        sum_of(values) == sum_of(values.take(upto)),
    decreases values.len() - upto,
{
    if upto == values.len() {
        assert(values.take(upto) =~= values);
    } else {
        assert(values.take(upto + 1).drop_last() =~= values.take(upto));
        lemma_sum_of_fails(values, upto + 1);
    }
}

/// A sum fails only for want of values, which is when there is none, for
/// incompatible types, or for want of arithmetic on binary64 numbers.
pub proof fn lemma_sum_of_errors(values: Seq<ValueView>)
    ensures
        match sum_of(values) {
            Ok(_) => values.len() > 0,
            Err(error) => {
                ||| error == QueryErrorView::NotEnoughArguments(1) && values.len() == 0
                ||| error == QueryErrorView::IncompatibleTypes && values.len() > 1
                ||| error == QueryErrorView::RealArithmetic && values.len() > 1
            },
        },
    decreases values.len(),
{
    if values.len() > 1 {
        lemma_sum_of_errors(values.drop_last());
    }
}

impl Builtin {
    /// Calls the function.
    pub fn call(self, arguments: Vec<Value>) -> (result: Result<Value, QueryError>)
        ensures
            outcome(result) == self.result(views(arguments@)),
    {
        match self {
            Builtin::StrictEq => f_strict_eq(arguments),
            Builtin::Add => f_add(arguments),
        }
    }

    /// The name under which the function is registered.
    pub fn registered_name(self) -> (name: FunctionName)
        ensures
            name@ == self.name(),
    {
        match self {
            Builtin::StrictEq => String::from_str("strict_eq"),
            Builtin::Add => String::from_str("add"),
        }
    }
}

/// The functions that the engine provides, each with its name.
pub fn functions() -> (table: Vec<(FunctionName, NativeFunction)>)
    ensures
        table@.len() == 2,
        table@[0].0@ == Builtin::StrictEq.name(),
        table@[0].1.builtin() == Builtin::StrictEq,
        table@[1].0@ == Builtin::Add.name(),
        table@[1].1.builtin() == Builtin::Add,
{
    let mut table: Vec<(FunctionName, NativeFunction)> = Vec::new();
    table.push((Builtin::StrictEq.registered_name(), NativeFunction::new(Builtin::StrictEq)));
    table.push((Builtin::Add.registered_name(), NativeFunction::new(Builtin::Add)));
    table
}

} // verus!
