//! Functions, the registry that holds them, and calls.

use vstd::prelude::*;
use crate::builtin_functions::{lemma_sum_of_errors, Builtin};
use crate::query::{QueryField, QueryFieldView};
use crate::resolve::{Resolver, ResolverView};
use crate::value::{Value, ValueView};
use crate::{outcome, views, FunctionName, QueryError, QueryErrorView};

verus! {

/// A function that the engine itself provides.
#[derive(Debug, Clone, Copy)]
pub struct NativeFunction {
    function: Builtin,
}

impl NativeFunction {
    /// Which of the engine's functions this is.
    pub closed spec fn builtin(self) -> Builtin {
        self.function
    }

    /// The given function of the engine.
    pub fn new(function: Builtin) -> (native: Self)
        ensures
            native.builtin() == function,
    {
        Self { function }
    }

    /// Calls the function.
    pub fn call(&self, arguments: Vec<Value>) -> (result: Result<Value, QueryError>)
        ensures
            outcome(result) == self.builtin().result(views(arguments@)),
    {
        self.function.call(arguments)
    }
}

/// An argument of a call.
#[derive(Debug)]
pub enum Argument {
    /// The result of another call.
    FunctionCall(FunctionCall),
    /// A value.
    Value(Value),
    /// The value of a field, not yet bound.
    QueryField(QueryField),
}

/// A call: the name of a function and the arguments to apply it to.
#[derive(Debug)]
pub struct FunctionCall {
    pub target: String,
    pub arguments: Vec<Argument>,
}

/// What an [`Argument`] stands for.
pub enum ArgumentView {
    FunctionCall(FunctionCallView),
    Value(ValueView),
    QueryField(QueryFieldView),
}

/// What a [`FunctionCall`] stands for.
pub struct FunctionCallView {
    pub target: Seq<char>,
    pub arguments: Seq<ArgumentView>,
}

impl View for Argument {
    type V = ArgumentView;

    open spec fn view(&self) -> ArgumentView
        decreases self,
    {
        match self {
            Argument::FunctionCall(call) => ArgumentView::FunctionCall(call.view()),
            Argument::Value(value) => ArgumentView::Value(value@),
            Argument::QueryField(field) => ArgumentView::QueryField(field@),
        }
    }
}

impl View for FunctionCall {
    type V = FunctionCallView;

    open spec fn view(&self) -> FunctionCallView
        decreases self,
    {
        FunctionCallView {
            target: self.target@,
            arguments: Seq::new(
                self.arguments@.len(),
                |i: int|
                    if 0 <= i < self.arguments@.len() {
                        self.arguments@[i].view()
                    } else {
                        arbitrary()
                    },
            ),
        }
    }
}

/// A function: one that the engine provides, or one that is defined by a call
/// of other functions.
#[derive(Debug)]
pub enum Function {
    Native(NativeFunction),
    Composed(FunctionCall),
}

/// What a [`Function`] stands for.
pub enum FunctionView {
    Native(Builtin),
    Composed(FunctionCallView),
}

impl View for Function {
    type V = FunctionView;

    open spec fn view(&self) -> FunctionView {
        match self {
            Function::Native(native) => FunctionView::Native(native.builtin()),
            Function::Composed(call) => FunctionView::Composed(call@),
        }
    }
}

impl FunctionView {
    /// What the function returns for the given arguments. A function defined
    /// by a call cannot be applied.
    pub open spec fn call(self, values: Seq<ValueView>) -> Result<ValueView, QueryErrorView> {
        match self {
            FunctionView::Native(builtin) => builtin.result(values),
            FunctionView::Composed(_) => Err(QueryErrorView::UnsupportedFunctionKind),
        }
    }
}

/// The first `upto` arguments with their field references bound, or the error
/// of the first among them that cannot be bound.
pub open spec fn resolved_arguments(
    arguments: Seq<ArgumentView>,
    upto: nat,
    resolver: ResolverView,
) -> Result<Seq<ArgumentView>, QueryErrorView>
    decreases arguments, upto,
{
    if upto == 0 || upto > arguments.len() {
        Ok(Seq::empty())
    } else {
        match resolved_arguments(arguments, (upto - 1) as nat, resolver) {
            Err(error) => Err(error),
            Ok(done) => match arguments[upto - 1].resolved(resolver) {
                Err(error) => Err(error),
                Ok(argument) => Ok(done.push(argument)),
            },
        }
    }
}

/// The values of the first `upto` arguments, or the error of the first among
/// them that has no value.
pub open spec fn applied_arguments(
    arguments: Seq<ArgumentView>,
    upto: nat,
    functions: Map<Seq<char>, FunctionView>,
) -> Result<Seq<ValueView>, QueryErrorView>
    decreases arguments, upto,
{
    if upto == 0 || upto > arguments.len() {
        Ok(Seq::empty())
    } else {
        match applied_arguments(arguments, (upto - 1) as nat, functions) {
            Err(error) => Err(error),
            Ok(done) => match arguments[upto - 1].applied(functions) {
                Err(error) => Err(error),
                Ok(value) => Ok(done.push(value)),
            },
        }
    }
}

/// Whether none of the arguments holds a field reference, at any depth.
pub open spec fn arguments_resolved(arguments: Seq<ArgumentView>) -> bool
    decreases arguments,
{
    forall|i: int| 0 <= i < arguments.len() ==> (#[trigger] arguments[i]).is_resolved()
}

impl ArgumentView {
    /// The argument with its field references bound: a field reference becomes
    /// the value that the resolver gives for it, a call has its own arguments
    /// bound, a value stays.
    pub open spec fn resolved(self, resolver: ResolverView) -> Result<ArgumentView, QueryErrorView>
        decreases self,
    {
        match self {
            ArgumentView::FunctionCall(call) => match call.resolved(resolver) {
                Ok(resolved) => Ok(ArgumentView::FunctionCall(resolved)),
                Err(error) => Err(error),
            },
            ArgumentView::Value(_) => Ok(self),
            ArgumentView::QueryField(field) => match resolver.resolve(field) {
                Ok(value) => Ok(ArgumentView::Value(value)),
                Err(error) => Err(error),
            },
        }
    }

    /// The value of the argument: a value is its own, a call has the value
    /// that it returns, and a field reference has none.
    pub open spec fn applied(self, functions: Map<Seq<char>, FunctionView>) -> Result<
        ValueView,
        QueryErrorView,
    >
        decreases self,
    {
        match self {
            ArgumentView::FunctionCall(call) => call.applied(functions),
            ArgumentView::Value(value) => Ok(value),
            ArgumentView::QueryField(field) => Err(QueryErrorView::UnresolvedField(field)),
        }
    }

    /// Whether the argument holds no field reference, at any depth.
    pub open spec fn is_resolved(self) -> bool
        decreases self,
    {
        match self {
            ArgumentView::FunctionCall(call) => call.is_resolved(),
            ArgumentView::Value(_) => true,
            ArgumentView::QueryField(_) => false,
        }
    }
}

impl FunctionCallView {
    /// The call with every field reference among its arguments bound by the
    /// resolver, left to right and depth first; the first reference that cannot
    /// be bound decides the error.
    pub open spec fn resolved(self, resolver: ResolverView) -> Result<
        FunctionCallView,
        QueryErrorView,
    >
        decreases self,
    {
        match resolved_arguments(self.arguments, self.arguments.len(), resolver) {
            Ok(arguments) => Ok(FunctionCallView { target: self.target, arguments }),
            Err(error) => Err(error),
        }
    }

    /// What the call returns: its arguments are evaluated left to right, the
    /// first that has no value deciding the error; then the function is looked
    /// up by its name, and called.
    pub open spec fn applied(self, functions: Map<Seq<char>, FunctionView>) -> Result<
        ValueView,
        QueryErrorView,
    >
        decreases self,
    {
        match applied_arguments(self.arguments, self.arguments.len(), functions) {
            Err(error) => Err(error),
            Ok(values) => if functions.contains_key(self.target) {
                functions[self.target].call(values)
            } else {
                Err(QueryErrorView::NoSuchFunction(self.target))
            },
        }
    }

    /// Whether the call holds no field reference, at any depth.
    pub open spec fn is_resolved(self) -> bool
        decreases self,
    {
        arguments_resolved(self.arguments)
    }
}

/// Once binding the first arguments fails, binding all of them fails in the
/// same way.
pub proof fn lemma_resolved_arguments_fail(
    arguments: Seq<ArgumentView>,
    upto: nat,
    resolver: ResolverView,
)
    requires
        upto <= arguments.len(),
        resolved_arguments(arguments, upto, resolver).is_err(),
    ensures
        resolved_arguments(arguments, arguments.len(), resolver) == resolved_arguments(
            arguments,
            upto,
            resolver,
        ),
    decreases arguments.len() - upto,
{
    if upto < arguments.len() {
        lemma_resolved_arguments_fail(arguments, upto + 1, resolver);
    }
}

/// Once evaluating the first arguments fails, evaluating all of them fails in
/// the same way.
pub proof fn lemma_applied_arguments_fail(
    arguments: Seq<ArgumentView>,
    upto: nat,
    functions: Map<Seq<char>, FunctionView>,
)
    requires
        upto <= arguments.len(),
        applied_arguments(arguments, upto, functions).is_err(),
    ensures
        applied_arguments(arguments, arguments.len(), functions) == applied_arguments(
            arguments,
            upto,
            functions,
        ),
    decreases arguments.len() - upto,
{
    if upto < arguments.len() {
        lemma_applied_arguments_fail(arguments, upto + 1, functions);
    }
}

/// The first arguments, once bound, are as many as before and hold no field
/// reference.
pub proof fn lemma_resolved_arguments_hold_no_reference(
    arguments: Seq<ArgumentView>,
    upto: nat,
    resolver: ResolverView,
)
    requires
        upto <= arguments.len(),
    ensures
        match resolved_arguments(arguments, upto, resolver) {
            Ok(done) => done.len() == upto && arguments_resolved(done),
            Err(_) => true,
        },
    decreases arguments, upto,
{
    if upto > 0 {
        lemma_resolved_arguments_hold_no_reference(arguments, (upto - 1) as nat, resolver);
        let argument = arguments[upto - 1];
        match argument {
            ArgumentView::FunctionCall(call) => {
                lemma_resolved_holds_no_reference(call, resolver);
            },
            _ => {},
        }
        match resolved_arguments(arguments, (upto - 1) as nat, resolver) {
            Ok(done) => match argument.resolved(resolver) {
                Ok(bound) => {
                    assert(bound.is_resolved());
                    let all = done.push(bound);
                    assert forall|i: int| 0 <= i < all.len() implies (
                    #[trigger] all[i]).is_resolved() by {
                        if i < done.len() {
                            assert(done[i].is_resolved());
                        }
                    }
                },
                Err(_) => {},
            },
            Err(_) => {},
        }
    } else {
        assert(arguments_resolved(Seq::<ArgumentView>::empty()));
    }
}

/// A call whose field references were bound holds none, and names the same
/// function with as many arguments as before.
pub proof fn lemma_resolved_holds_no_reference(call: FunctionCallView, resolver: ResolverView)
    ensures
        match call.resolved(resolver) {
            Ok(resolved) => {
                &&& resolved.is_resolved()
                &&& resolved.target == call.target
                &&& resolved.arguments.len() == call.arguments.len()
            },
            Err(_) => true,
        },
    decreases call,
{
    lemma_resolved_arguments_hold_no_reference(call.arguments, call.arguments.len(), resolver);
}

/// Binding the field references of arguments that hold none leaves them as
/// they are.
pub proof fn lemma_resolved_arguments_unchanged(
    arguments: Seq<ArgumentView>,
    upto: nat,
    resolver: ResolverView,
)
    requires
        upto <= arguments.len(),
        arguments_resolved(arguments),
    ensures
        resolved_arguments(arguments, upto, resolver) == Ok::<Seq<ArgumentView>, QueryErrorView>(
            arguments.take(upto as int),
        ),
    decreases arguments, upto,
{
    if upto > 0 {
        lemma_resolved_arguments_unchanged(arguments, (upto - 1) as nat, resolver);
        let argument = arguments[upto - 1];
        assert(argument.is_resolved());
        match argument {
            ArgumentView::FunctionCall(call) => {
                lemma_resolved_unchanged(call, resolver);
            },
            _ => {},
        }
        assert(argument.resolved(resolver) == Ok::<ArgumentView, QueryErrorView>(argument));
        assert(arguments.take(upto - 1).push(argument) =~= arguments.take(upto as int));
    } else {
        assert(arguments.take(0) =~= Seq::<ArgumentView>::empty());
    }
}

/// Binding the field references of a call that holds none leaves it as it is.
pub proof fn lemma_resolved_unchanged(call: FunctionCallView, resolver: ResolverView)
    requires
        call.is_resolved(),
    ensures
        call.resolved(resolver) == Ok::<FunctionCallView, QueryErrorView>(call),
    decreases call,
{
    lemma_resolved_arguments_unchanged(call.arguments, call.arguments.len(), resolver);
    assert(call.arguments.take(call.arguments.len() as int) =~= call.arguments);
}

/// Evaluating arguments that hold no field reference does not fail for a
/// field reference.
pub proof fn lemma_applied_arguments_meet_no_reference(
    arguments: Seq<ArgumentView>,
    upto: nat,
    functions: Map<Seq<char>, FunctionView>,
)
    requires
        upto <= arguments.len(),
        arguments_resolved(arguments),
    ensures
        !(applied_arguments(arguments, upto, functions) matches Err(
            QueryErrorView::UnresolvedField(_),
        )),
    decreases arguments, upto,
{
    if upto > 0 {
        lemma_applied_arguments_meet_no_reference(arguments, (upto - 1) as nat, functions);
        let argument = arguments[upto - 1];
        assert(argument.is_resolved());
        match argument {
            ArgumentView::FunctionCall(call) => {
                lemma_applied_meets_no_reference(call, functions);
            },
            _ => {},
        }
        assert(!(argument.applied(functions) matches Err(QueryErrorView::UnresolvedField(_))));
    }
}

/// Applying a call that holds no field reference does not fail for a field
/// reference.
pub proof fn lemma_applied_meets_no_reference(
    call: FunctionCallView,
    functions: Map<Seq<char>, FunctionView>,
)
    requires
        call.is_resolved(),
    ensures
        !(call.applied(functions) matches Err(QueryErrorView::UnresolvedField(_))),
    decreases call,
{
    lemma_applied_arguments_meet_no_reference(call.arguments, call.arguments.len(), functions);
    match applied_arguments(call.arguments, call.arguments.len(), functions) {
        Ok(values) => {
            lemma_sum_of_errors(values);
        },
        Err(_) => {},
    }
}

impl Clone for Argument {
    fn clone(&self) -> (copy: Self)
        ensures
            copy@ == self@,
    {
        self.duplicate()
    }
}

impl Clone for FunctionCall {
    fn clone(&self) -> (copy: Self)
        ensures
            copy@ == self@,
    {
        self.duplicate()
    }
}

impl Clone for Function {
    fn clone(&self) -> (copy: Self)
        ensures
            copy@ == self@,
    {
        match self {
            Function::Native(native) => Function::Native(*native),
            Function::Composed(call) => Function::Composed(call.clone()),
        }
    }
}

impl Argument {
    /// A copy of the argument.
    pub fn duplicate(&self) -> (copy: Self)
        ensures
            copy@ == self@,
        decreases self,
    {
        match self {
            Argument::FunctionCall(call) => Argument::FunctionCall(call.duplicate()),
            Argument::Value(value) => Argument::Value(value.clone()),
            Argument::QueryField(field) => Argument::QueryField(field.clone()),
        }
    }
}

impl Function {
    /// Calls the function with the given arguments.
    pub fn call(&self, arguments: Vec<Value>) -> (result: Result<Value, QueryError>)
        ensures
            outcome(result) == self@.call(views(arguments@)),
    {
        match self {
            Function::Native(native) => native.call(arguments),
            Function::Composed(_) => Err(QueryError::UnsupportedFunctionKind),
        }
    }
}

impl FunctionCall {
    /// The call of the function named `target` with the given arguments.
    pub fn new(target: String, arguments: Vec<Argument>) -> (call: Self)
        ensures
            call@.target == target@,
            call@.arguments == views(arguments@),
            call.target == target,
            call.arguments == arguments,
    {
        let call = Self { target, arguments };
        assert(call@.arguments =~= views(arguments@));
        call
    }

    /// A copy of the call.
    pub fn duplicate(&self) -> (copy: Self)
        ensures
            copy@ == self@,
        decreases self,
    {
        let mut arguments: Vec<Argument> = Vec::new();
        let mut i: usize = 0;
        while i < self.arguments.len()
            invariant
                i <= self.arguments.len(),
                arguments@.len() == i,
                forall|j: int| 0 <= j < i ==> arguments@[j]@ == self.arguments@[j]@,
            decreases self.arguments.len() - i,
        {
            arguments.push(self.arguments[i].duplicate());
            i += 1;
        }
        let copy = Self { target: self.target.clone(), arguments };
        assert(copy@.arguments =~= self@.arguments);
        copy
    }

    /// Binds every field reference among the arguments, at any depth, to the
    /// value that the resolver gives for it.
    pub fn resolve_args(&self, resolver: &Resolver) -> (resolved: Result<FunctionCall, QueryError>)
        requires
            resolver@.well_formed(),
        ensures
            outcome(resolved) == self@.resolved(resolver@),
        decreases self,
    {
        let ghost arguments = self@.arguments;
        let mut new_args: Vec<Argument> = Vec::new();
        let mut i: usize = 0;
        assert(views(new_args@) =~= Seq::<ArgumentView>::empty());
        while i < self.arguments.len()
            invariant
                i <= self.arguments.len(),
                resolver@.well_formed(),
                arguments == self@.arguments,
                resolved_arguments(arguments, i as nat, resolver@) == Ok::<
                    Seq<ArgumentView>,
                    QueryErrorView,
                >(views(new_args@)),
            decreases self.arguments.len() - i,
        {
            let ghost done = views(new_args@);
            assert(arguments[i as int] == self.arguments@[i as int]@);
            let step = match &self.arguments[i] {
                Argument::FunctionCall(call) => match call.resolve_args(resolver) {
                    Ok(resolved) => Ok(Argument::FunctionCall(resolved)),
                    Err(error) => Err(error),
                },
                Argument::Value(value) => Ok(Argument::Value(value.clone())),
                Argument::QueryField(field) => match resolver.resolve(field) {
                    Ok(value) => Ok(Argument::Value(value)),
                    Err(error) => Err(error),
                },
            };
            assert(outcome(step) == arguments[i as int].resolved(resolver@));
            assert(resolved_arguments(arguments, (i + 1) as nat, resolver@) == match outcome(step) {
                Ok(argument) => Ok::<Seq<ArgumentView>, QueryErrorView>(done.push(argument)),
                Err(error) => Err(error),
            });
            match step {
                Ok(argument) => {
                    new_args.push(argument);
                    assert(views(new_args@) =~= done.push(argument@));
                },
                Err(error) => {
                    proof {
                        lemma_resolved_arguments_fail(arguments, (i + 1) as nat, resolver@);
                    }
                    return Err(error);
                },
            }
            i += 1;
        }
        Ok(FunctionCall::new(self.target.clone(), new_args))
    }

    /// Evaluates the call: its arguments from left to right, then the function
    /// that the registry holds under the call's target.
    pub fn apply(&self, function_dict: &FunctionDict) -> (value: Result<Value, QueryError>)
        ensures
            outcome(value) == self@.applied(function_dict@),
        decreases self,
    {
        let ghost arguments = self@.arguments;
        let mut args: Vec<Value> = Vec::new();
        let mut i: usize = 0;
        assert(views(args@) =~= Seq::<ValueView>::empty());
        while i < self.arguments.len()
            invariant
                i <= self.arguments.len(),
                arguments == self@.arguments,
                applied_arguments(arguments, i as nat, function_dict@) == Ok::<
                    Seq<ValueView>,
                    QueryErrorView,
                >(views(args@)),
            decreases self.arguments.len() - i,
        {
            let ghost done = views(args@);
            assert(arguments[i as int] == self.arguments@[i as int]@);
            let step = match &self.arguments[i] {
                Argument::Value(value) => Ok(value.clone()),
                Argument::FunctionCall(call) => call.apply(function_dict),
                Argument::QueryField(field) => Err(QueryError::UnresolvedField(field.clone())),
            };
            assert(outcome(step) == arguments[i as int].applied(function_dict@));
            assert(applied_arguments(arguments, (i + 1) as nat, function_dict@) == match outcome(
                step,
            ) {
                Ok(value) => Ok::<Seq<ValueView>, QueryErrorView>(done.push(value)),
                Err(error) => Err(error),
            });
            match step {
                Ok(value) => {
                    args.push(value);
                    assert(views(args@) =~= done.push(value@));
                },
                Err(error) => {
                    proof {
                        lemma_applied_arguments_fail(arguments, (i + 1) as nat, function_dict@);
                    }
                    return Err(error);
                },
            }
            i += 1;
        }
        match function_dict.get(&self.target) {
            Some(function) => function.call(args),
            None => Err(QueryError::NoSuchFunction(self.target.clone())),
        }
    }
}

/// The registry that `entries` stand for: each entry registers its function
/// under its name, a later entry replacing an earlier one of the same name.
pub open spec fn registry_of(entries: Seq<(Seq<char>, FunctionView)>) -> Map<
    Seq<char>,
    FunctionView,
>
    decreases entries.len(),
{
    if entries.len() == 0 {
        Map::empty()
    } else {
        registry_of(entries.drop_last()).insert(entries.last().0, entries.last().1)
    }
}

/// A name stands for the function of the last entry that bears it.
pub proof fn lemma_registry_holds(
    entries: Seq<(Seq<char>, FunctionView)>,
    name: Seq<char>,
    last: int,
)
    requires
        0 <= last < entries.len(),
        entries[last].0 == name,
        forall|j: int| last < j < entries.len() ==> (#[trigger] entries[j]).0 != name,
    ensures
        registry_of(entries).contains_key(name),
        registry_of(entries)[name] == entries[last].1,
    decreases entries.len(),
{
    if last < entries.len() - 1 {
        let init = entries.drop_last();
        assert(entries[entries.len() - 1].0 != name);
        assert(init[last] == entries[last]);
        assert forall|j: int| last < j < init.len() implies (#[trigger] init[j]).0 != name by {
            assert(init[j] == entries[j]);
        }
        lemma_registry_holds(init, name, last);
    }
}

/// A name that no entry bears is not registered.
pub proof fn lemma_registry_lacks(entries: Seq<(Seq<char>, FunctionView)>, name: Seq<char>)
    requires
        forall|j: int| 0 <= j < entries.len() ==> (#[trigger] entries[j]).0 != name,
    ensures
        !registry_of(entries).contains_key(name),
    decreases entries.len(),
{
    if entries.len() > 0 {
        let init = entries.drop_last();
        assert(entries[entries.len() - 1].0 != name);
        assert forall|j: int| 0 <= j < init.len() implies (#[trigger] init[j]).0 != name by {
            assert(init[j] == entries[j]);
        }
        lemma_registry_lacks(init, name);
    }
}

/// The functions that calls can name.
#[derive(Debug)]
pub struct FunctionDict {
    entries: Vec<(FunctionName, Function)>,
}

impl FunctionDict {
    spec fn entry_views(self) -> Seq<(Seq<char>, FunctionView)> {
        Seq::new(self.entries@.len(), |i: int| (self.entries@[i].0@, self.entries@[i].1@))
    }
}

impl View for FunctionDict {
    type V = Map<Seq<char>, FunctionView>;

    closed spec fn view(&self) -> Map<Seq<char>, FunctionView> {
        registry_of(self.entry_views())
    }
}

impl Clone for FunctionDict {
    fn clone(&self) -> (copy: Self)
        ensures
            copy@ == self@,
    {
        let mut entries: Vec<(FunctionName, Function)> = Vec::new();
        let mut i: usize = 0;
        while i < self.entries.len()
            invariant
                i <= self.entries.len(),
                entries@.len() == i,
                forall|j: int|
                    0 <= j < i ==> entries@[j].0@ == self.entries@[j].0@ && entries@[j].1@
                        == self.entries@[j].1@,
            decreases self.entries.len() - i,
        {
            entries.push((self.entries[i].0.clone(), self.entries[i].1.clone()));
            i += 1;
        }
        let copy = Self { entries };
        assert(copy.entry_views() =~= self.entry_views());
        copy
    }
}

impl FunctionDict {
    /// A registry that holds no function.
    pub fn new() -> (dict: Self)
        ensures
            dict@ == Map::<Seq<char>, FunctionView>::empty(),
    {
        let dict = Self { entries: Vec::new() };
        assert(dict.entry_views().len() == 0);
        dict
    }

    /// Registers a function under a name, in place of the one that the name
    /// stood for, if any.
    pub fn insert(&mut self, name: FunctionName, function: Function)
        ensures
            final(self)@ == old(self)@.insert(name@, function@),
    {
        let ghost before = self.entry_views();
        self.entries.push((name, function));
        assert(self.entry_views().drop_last() =~= before);
    }

    /// The function registered under a name.
    pub fn get(&self, name: &FunctionName) -> (function: Option<&Function>)
        ensures
            match function {
                Some(f) => self@.contains_key(name@) && self@[name@] == f@,
                None => !self@.contains_key(name@),
            },
    {
        let mut i: usize = self.entries.len();
        while i > 0
            invariant
                i <= self.entries.len(),
                forall|j: int| i <= j < self.entries@.len() ==> self.entries@[j].0@ != name@,
            decreases i,
        {
            i -= 1;
            if self.entries[i].0 == *name {
                proof {
                    lemma_registry_holds(self.entry_views(), name@, i as int);
                }
                return Some(&self.entries[i].1);
            }
        }
        proof {
            lemma_registry_lacks(self.entry_views(), name@);
        }
        None
    }
}

} // verus!
