use srimdb::builtin_functions::{f_add, f_strict_eq, functions, Builtin};
use srimdb::function::{Function, FunctionDict, NativeFunction};
use srimdb::query::{test_value, Condition};
use srimdb::resolve::{matching_fields, resolve_column, Resolver};
use srimdb::{Argument, FunctionCall, QueryError, QueryField, Row, TypeError, Value};

fn registry() -> FunctionDict {
    let mut dict = FunctionDict::new();
    for (name, function) in functions() {
        dict.insert(name, Function::Native(function));
    }
    dict
}

fn fields() -> Vec<QueryField> {
    vec![
        QueryField::new("id".to_owned()).from_table("A".to_owned()),
        QueryField::new("name".to_owned()).from_table("A".to_owned()),
        QueryField::new("id".to_owned()).from_table("B".to_owned()),
        QueryField::new("flag".to_owned()),
    ]
}

fn row() -> Row {
    Row::new(vec![
        Value::Unsigned(1),
        Value::Text("one".to_owned()),
        Value::Unsigned(2),
        Value::Boolean(true),
    ])
}

fn call(target: &str, arguments: Vec<Argument>) -> FunctionCall {
    FunctionCall::new(target.to_owned(), arguments)
}

#[test]
fn strict_eq_of_few_values_is_true() {
    assert_eq!(f_strict_eq(vec![]).unwrap(), Value::Boolean(true));
    assert_eq!(
        f_strict_eq(vec![Value::Unsigned(1)]).unwrap(),
        Value::Boolean(true)
    );
    assert_eq!(
        f_strict_eq(vec![Value::Real(f64::NAN.to_bits())]).unwrap(),
        Value::Boolean(true)
    );
}

#[test]
fn strict_eq_compares_with_the_first_value() {
    assert_eq!(
        f_strict_eq(vec![Value::Unsigned(1), Value::Unsigned(1), Value::Unsigned(1)]).unwrap(),
        Value::Boolean(true)
    );
    assert_eq!(
        f_strict_eq(vec![Value::Unsigned(1), Value::Unsigned(1), Value::Unsigned(2)]).unwrap(),
        Value::Boolean(false)
    );
    assert_eq!(
        f_strict_eq(vec![Value::Unsigned(1), Value::Signed(1)]).unwrap(),
        Value::Boolean(false)
    );
    assert_eq!(
        f_strict_eq(vec![
            Value::Text("a".to_owned()),
            Value::Text("a".to_owned())
        ])
        .unwrap(),
        Value::Boolean(true)
    );
    assert_eq!(
        f_strict_eq(vec![
            Value::Real(0.0f64.to_bits()),
            Value::Real((-0.0f64).to_bits())
        ])
        .unwrap(),
        Value::Boolean(true)
    );
    assert_eq!(
        f_strict_eq(vec![
            Value::Real(f64::NAN.to_bits()),
            Value::Real(f64::NAN.to_bits())
        ])
        .unwrap(),
        Value::Boolean(false)
    );
}

#[test]
fn add_folds_from_the_left() {
    assert!(matches!(
        f_add(vec![]),
        Err(QueryError::NotEnoughArguments(1))
    ));
    assert_eq!(f_add(vec![Value::Signed(7)]).unwrap(), Value::Signed(7));
    assert_eq!(
        f_add(vec![Value::Text("only".to_owned())]).unwrap(),
        Value::Text("only".to_owned())
    );
    assert_eq!(
        f_add(vec![Value::Signed(2), Value::Signed(3), Value::Signed(-4)]).unwrap(),
        Value::Signed(1)
    );
    assert_eq!(
        f_add(vec![
            Value::Unsigned(u128::MAX),
            Value::Unsigned(1),
            Value::Signed(-1)
        ])
        .unwrap(),
        Value::Signed(-2)
    );
    assert_eq!(
        f_add(vec![
            Value::Signed(i128::MAX),
            Value::Signed(1),
            Value::Signed(-1)
        ])
        .unwrap(),
        Value::Signed(i128::MAX - 1)
    );
    assert_eq!(
        f_add(vec![
            Value::Text("a".to_owned()),
            Value::Text("b".to_owned()),
            Value::Text("c".to_owned())
        ])
        .unwrap(),
        Value::Text("abc".to_owned())
    );
    assert!(matches!(
        f_add(vec![
            Value::Unsigned(1),
            Value::Text("b".to_owned()),
            Value::Real(0)
        ]),
        Err(QueryError::IncompatibleTypes)
    ));
    assert!(matches!(
        f_add(vec![
            Value::Unsigned(1),
            Value::Real(0),
            Value::Text("b".to_owned())
        ]),
        Err(QueryError::RealArithmetic)
    ));
}

#[test]
fn the_engine_provides_two_functions() {
    let table = functions();
    assert_eq!(table.len(), 2);
    assert_eq!(table[0].0, "strict_eq");
    assert_eq!(table[1].0, "add");
    assert_eq!(Builtin::StrictEq.registered_name(), "strict_eq");
    assert_eq!(Builtin::Add.registered_name(), "add");
    assert_eq!(
        table[0].1.call(vec![Value::Unsigned(1), Value::Unsigned(2)]).unwrap(),
        Value::Boolean(false)
    );
    assert_eq!(
        table[1].1.call(vec![Value::Unsigned(1), Value::Unsigned(2)]).unwrap(),
        Value::Unsigned(3)
    );
    assert_eq!(
        Builtin::Add.call(vec![Value::Unsigned(1), Value::Unsigned(2)]).unwrap(),
        Value::Unsigned(3)
    );
    assert_eq!(
        NativeFunction::new(Builtin::StrictEq).call(vec![]).unwrap(),
        Value::Boolean(true)
    );
}

#[test]
fn functions_are_called_by_kind() {
    let native = Function::Native(NativeFunction::new(Builtin::Add));
    assert_eq!(
        native.call(vec![Value::Unsigned(1), Value::Unsigned(2)]).unwrap(),
        Value::Unsigned(3)
    );
    let composed = Function::Composed(call("add", vec![]));
    assert!(matches!(
        composed.call(vec![Value::Unsigned(1)]),
        Err(QueryError::UnsupportedFunctionKind)
    ));
    assert!(matches!(
        composed.clone().call(vec![]),
        Err(QueryError::UnsupportedFunctionKind)
    ));
}

#[test]
fn the_registry_finds_the_last_function_of_a_name() {
    let mut dict = FunctionDict::new();
    assert!(dict.get(&"add".to_owned()).is_none());
    dict.insert(
        "f".to_owned(),
        Function::Native(NativeFunction::new(Builtin::Add)),
    );
    dict.insert(
        "g".to_owned(),
        Function::Native(NativeFunction::new(Builtin::Add)),
    );
    assert!(dict.get(&"h".to_owned()).is_none());
    assert_eq!(
        dict.get(&"f".to_owned())
            .unwrap()
            .call(vec![Value::Unsigned(1), Value::Unsigned(1)])
            .unwrap(),
        Value::Unsigned(2)
    );
    dict.insert(
        "f".to_owned(),
        Function::Native(NativeFunction::new(Builtin::StrictEq)),
    );
    assert_eq!(
        dict.get(&"f".to_owned())
            .unwrap()
            .call(vec![Value::Unsigned(1), Value::Unsigned(1)])
            .unwrap(),
        Value::Boolean(true)
    );
    assert_eq!(
        dict.get(&"g".to_owned())
            .unwrap()
            .call(vec![Value::Unsigned(1), Value::Unsigned(1)])
            .unwrap(),
        Value::Unsigned(2)
    );
    let copy = dict.clone();
    assert_eq!(
        copy.get(&"f".to_owned()).unwrap().call(vec![]).unwrap(),
        Value::Boolean(true)
    );
}

#[test]
fn apply_evaluates_nested_calls() {
    let dict = registry();
    let nested = call(
        "add",
        vec![
            Argument::Value(Value::Unsigned(1)),
            Argument::FunctionCall(call(
                "add",
                vec![
                    Argument::Value(Value::Unsigned(2)),
                    Argument::Value(Value::Unsigned(3)),
                ],
            )),
        ],
    );
    assert_eq!(nested.apply(&dict).unwrap(), Value::Unsigned(6));
    assert_eq!(nested.clone().apply(&dict).unwrap(), Value::Unsigned(6));
    assert!(matches!(
        call("add", vec![]).apply(&dict),
        Err(QueryError::NotEnoughArguments(1))
    ));
    assert_eq!(
        call("strict_eq", vec![]).apply(&dict).unwrap(),
        Value::Boolean(true)
    );
}

#[test]
fn apply_fails_without_the_function() {
    let dict = registry();
    match call("sub", vec![Argument::Value(Value::Unsigned(1))]).apply(&dict) {
        Err(QueryError::NoSuchFunction(name)) => assert_eq!(name, "sub"),
        _ => panic!("no function bears the name"),
    }
    match call("add", vec![Argument::FunctionCall(call("deep", vec![]))]).apply(&dict) {
        Err(QueryError::NoSuchFunction(name)) => assert_eq!(name, "deep"),
        _ => panic!("no function bears the name"),
    }
    let mut with_composed = registry();
    with_composed.insert("twice".to_owned(), Function::Composed(call("add", vec![])));
    assert!(matches!(
        call("twice", vec![Argument::Value(Value::Unsigned(1))]).apply(&with_composed),
        Err(QueryError::UnsupportedFunctionKind)
    ));
}

#[test]
fn apply_fails_on_a_field_reference() {
    let dict = registry();
    let unresolved = call(
        "add",
        vec![
            Argument::Value(Value::Unsigned(1)),
            Argument::QueryField(QueryField::new("x".to_owned())),
            Argument::FunctionCall(call("missing", vec![])),
        ],
    );
    match unresolved.apply(&dict) {
        Err(QueryError::UnresolvedField(field)) => assert_eq!(field.field, "x"),
        _ => panic!("a field reference has no value"),
    }
    let arguments_first = call(
        "missing",
        vec![Argument::QueryField(QueryField::new("y".to_owned()))],
    );
    match arguments_first.apply(&dict) {
        Err(QueryError::UnresolvedField(field)) => assert_eq!(field.field, "y"),
        _ => panic!("the arguments come before the function"),
    }
}

#[test]
fn resolve_args_binds_fields_at_every_depth() {
    let fields = fields();
    let row = row();
    let resolver = Resolver::Row(&fields, &row);
    let unresolved = call(
        "strict_eq",
        vec![
            Argument::QueryField(QueryField::new("name".to_owned())),
            Argument::Value(Value::Text("one".to_owned())),
            Argument::FunctionCall(call(
                "add",
                vec![
                    Argument::QueryField(QueryField::new("id".to_owned()).from_table("B".to_owned())),
                    Argument::QueryField(QueryField::new("id".to_owned()).from_table("A".to_owned())),
                ],
            )),
        ],
    );
    let resolved = unresolved.resolve_args(&resolver).unwrap();
    assert_eq!(resolved.target, "strict_eq");
    assert_eq!(resolved.arguments.len(), 3);
    assert!(matches!(&resolved.arguments[0], Argument::Value(Value::Text(text)) if text == "one"));
    assert!(matches!(&resolved.arguments[1], Argument::Value(Value::Text(text)) if text == "one"));
    match &resolved.arguments[2] {
        Argument::FunctionCall(inner) => {
            assert_eq!(inner.target, "add");
            assert_eq!(inner.arguments.len(), 2);
            assert!(matches!(inner.arguments[0], Argument::Value(Value::Unsigned(2))));
            assert!(matches!(inner.arguments[1], Argument::Value(Value::Unsigned(1))));
            assert_eq!(inner.apply(&registry()).unwrap(), Value::Unsigned(3));
        }
        _ => panic!("a call stays a call"),
    }
    let again = resolved.resolve_args(&Resolver::NoRow).unwrap();
    assert_eq!(again.arguments.len(), 3);
    assert_eq!(again.apply(&registry()).unwrap(), Value::Boolean(false));
}

#[test]
fn resolve_args_fails_with_the_first_field_that_cannot_be_bound() {
    let fields = fields();
    let row = row();
    let resolver = Resolver::Row(&fields, &row);
    let unresolved = call(
        "add",
        vec![
            Argument::FunctionCall(call(
                "add",
                vec![Argument::QueryField(QueryField::new("id".to_owned()))],
            )),
            Argument::QueryField(QueryField::new("missing".to_owned())),
        ],
    );
    match unresolved.resolve_args(&resolver) {
        Err(QueryError::AmbiguousField(field)) => {
            assert_eq!(field.field, "id");
            assert_eq!(field.table, None);
        }
        _ => panic!("two columns bear the name"),
    }
    match unresolved.resolve_args(&Resolver::NoRow) {
        Err(QueryError::NoSuchField(field)) => assert_eq!(field.field, "id"),
        _ => panic!("no row is at hand"),
    }
}

#[test]
fn references_are_bound_to_columns() {
    let fields = fields();
    assert_eq!(
        matching_fields(&fields, &QueryField::new("id".to_owned())),
        vec![0, 2]
    );
    assert_eq!(
        matching_fields(&fields, &QueryField::new("id".to_owned()).from_table("B".to_owned())),
        vec![2]
    );
    assert_eq!(
        matching_fields(&fields, &QueryField::new("id".to_owned()).from_table("C".to_owned())),
        Vec::<usize>::new()
    );
    assert_eq!(
        matching_fields(&fields, &QueryField::new("flag".to_owned())),
        vec![3]
    );
    assert_eq!(
        matching_fields(&fields, &QueryField::new("flag".to_owned()).from_table("A".to_owned())),
        Vec::<usize>::new()
    );
    assert_eq!(
        resolve_column(&fields, &QueryField::new("name".to_owned())).unwrap(),
        1
    );
    assert!(matches!(
        resolve_column(&fields, &QueryField::new("id".to_owned())),
        Err(QueryError::AmbiguousField(_))
    ));
    assert!(matches!(
        resolve_column(&fields, &QueryField::new("none".to_owned())),
        Err(QueryError::NoSuchField(_))
    ));
    assert!(matches!(
        resolve_column(&Vec::new(), &QueryField::new("id".to_owned())),
        Err(QueryError::NoSuchField(_))
    ));
}

#[test]
fn resolvers_give_the_value_of_the_column() {
    let fields = fields();
    let row = row();
    let resolver = Resolver::Row(&fields, &row);
    assert_eq!(
        resolver.resolve(&QueryField::new("name".to_owned())).unwrap(),
        Value::Text("one".to_owned())
    );
    assert_eq!(
        resolver
            .resolve(&QueryField::new("id".to_owned()).from_table("B".to_owned()))
            .unwrap(),
        Value::Unsigned(2)
    );
    assert!(matches!(
        resolver.resolve(&QueryField::new("id".to_owned())),
        Err(QueryError::AmbiguousField(_))
    ));
    assert!(matches!(
        Resolver::NoRow.resolve(&QueryField::new("name".to_owned())),
        Err(QueryError::NoSuchField(_))
    ));
}

#[test]
fn conditions_reduce_to_booleans() {
    let dict = registry();
    let fields = fields();
    let row = row();
    let resolver = Resolver::Row(&fields, &row);
    assert!(Condition::Value(Value::Boolean(true)).test(&dict, &resolver).unwrap());
    assert!(!Condition::Value(Value::Boolean(false)).test(&dict, &Resolver::NoRow).unwrap());
    assert!(matches!(
        Condition::Value(Value::Text("true".to_owned())).test(&dict, &resolver),
        Err(QueryError::TypeError(TypeError::NotBoolean))
    ));
    assert!(Condition::QueryField(QueryField::new("flag".to_owned()))
        .test(&dict, &resolver)
        .unwrap());
    assert!(matches!(
        Condition::QueryField(QueryField::new("name".to_owned())).test(&dict, &resolver),
        Err(QueryError::TypeError(TypeError::NotBoolean))
    ));
    assert!(matches!(
        Condition::QueryField(QueryField::new("flag".to_owned())).test(&dict, &Resolver::NoRow),
        Err(QueryError::NoSuchField(_))
    ));
    let equal = Condition::FunctionCall(call(
        "strict_eq",
        vec![
            Argument::QueryField(QueryField::new("id".to_owned()).from_table("A".to_owned())),
            Argument::Value(Value::Unsigned(1)),
        ],
    ));
    assert!(equal.test(&dict, &resolver).unwrap());
    assert!(equal.clone().test(&dict, &resolver).unwrap());
    let sum = Condition::FunctionCall(call(
        "add",
        vec![
            Argument::QueryField(QueryField::new("id".to_owned()).from_table("A".to_owned())),
            Argument::Value(Value::Unsigned(1)),
        ],
    ));
    assert!(matches!(
        sum.test(&dict, &resolver),
        Err(QueryError::TypeError(TypeError::NotBoolean))
    ));
    let missing = Condition::FunctionCall(call("nothing", vec![]));
    assert!(matches!(
        missing.test(&dict, &resolver),
        Err(QueryError::NoSuchFunction(_))
    ));
    assert!(test_value(&Value::Boolean(true)).unwrap());
    assert!(matches!(
        test_value(&Value::Unsigned(1)),
        Err(QueryError::TypeError(TypeError::NotBoolean))
    ));
}
