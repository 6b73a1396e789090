use srimdb::value::{
    boolean_to_text, real_bits_equal, reinterpret_as_signed, reinterpret_as_unsigned,
    signed_to_text, unsigned_to_text, Value, ValueKind,
};
use srimdb::{FieldKind, IntSize, QueryError};

const KINDS: [ValueKind; 6] = [
    ValueKind::Boolean,
    ValueKind::Unsigned,
    ValueKind::Signed,
    ValueKind::Real,
    ValueKind::Text,
    ValueKind::Blob,
];

fn samples() -> Vec<Value> {
    vec![
        Value::Boolean(true),
        Value::Boolean(false),
        Value::Unsigned(0),
        Value::Unsigned(7),
        Value::Unsigned(u128::MAX),
        Value::Signed(0),
        Value::Signed(-7),
        Value::Signed(i128::MAX),
        Value::Signed(i128::MIN),
        Value::Real(1.5f64.to_bits()),
        Value::Real(f64::NAN.to_bits()),
        Value::Text("".to_owned()),
        Value::Text("text".to_owned()),
        Value::Blob(vec![]),
        Value::Blob(vec![0, 255]),
    ]
}

#[test]
fn kinds_of_values() {
    assert_eq!(Value::Boolean(true).kind(), ValueKind::Boolean);
    assert_eq!(Value::Unsigned(1).kind(), ValueKind::Unsigned);
    assert_eq!(Value::Signed(-1).kind(), ValueKind::Signed);
    assert_eq!(Value::Real(0).kind(), ValueKind::Real);
    assert_eq!(Value::Text("a".to_owned()).kind(), ValueKind::Text);
    assert_eq!(Value::Blob(vec![1, 2]).kind(), ValueKind::Blob);
}

#[test]
fn kinds_unify_as_the_lattice_says() {
    for a in KINDS {
        for b in KINDS {
            let expected = if a == b {
                Some(a)
            } else {
                match (a, b) {
                    (ValueKind::Unsigned, ValueKind::Signed) => Some(ValueKind::Signed),
                    (ValueKind::Signed, ValueKind::Unsigned) => Some(ValueKind::Signed),
                    (ValueKind::Unsigned, ValueKind::Real) => Some(ValueKind::Real),
                    (ValueKind::Real, ValueKind::Unsigned) => Some(ValueKind::Real),
                    (ValueKind::Signed, ValueKind::Real) => Some(ValueKind::Real),
                    (ValueKind::Real, ValueKind::Signed) => Some(ValueKind::Real),
                    _ => None,
                }
            };
            assert_eq!(a.more_generic(b), expected);
            assert_eq!(a.more_generic(b), b.more_generic(a));
        }
    }
}

#[test]
fn sums_fail_for_incompatible_types_only_where_kinds_do_not_unify() {
    for a in samples() {
        for b in samples() {
            let unified = a.kind().more_generic(b.kind());
            let sum = a.binop_add(b.clone());
            match unified {
                None => assert!(matches!(sum, Err(QueryError::IncompatibleTypes))),
                Some(kind) => {
                    for operand in [&a, &b] {
                        match operand.cast_to(kind) {
                            Ok(cast) => assert_eq!(cast.kind(), kind),
                            Err(QueryError::RealArithmetic) => {
                                assert_eq!(kind, ValueKind::Real);
                                assert_ne!(operand.kind(), ValueKind::Real);
                            }
                            Err(_) => panic!("the kinds unify"),
                        }
                    }
                    match sum {
                        Ok(value) => {
                            assert_eq!(value.kind(), kind);
                            assert_ne!(kind, ValueKind::Real);
                        }
                        Err(QueryError::RealArithmetic) => assert_eq!(kind, ValueKind::Real),
                        Err(_) => panic!("the kinds unify"),
                    }
                }
            }
        }
    }
}

#[test]
fn integers_add_saturating() {
    assert_eq!(
        Value::Unsigned(2).binop_add(Value::Unsigned(3)).unwrap(),
        Value::Unsigned(5)
    );
    assert_eq!(
        Value::Unsigned(u128::MAX).binop_add(Value::Unsigned(1)).unwrap(),
        Value::Unsigned(u128::MAX)
    );
    assert_eq!(
        Value::Unsigned(u128::MAX - 1).binop_add(Value::Unsigned(1)).unwrap(),
        Value::Unsigned(u128::MAX)
    );
    assert_eq!(
        Value::Unsigned(u128::MAX).binop_add(Value::Unsigned(u128::MAX)).unwrap(),
        Value::Unsigned(u128::MAX)
    );
    assert_eq!(
        Value::Signed(i128::MAX).binop_add(Value::Signed(1)).unwrap(),
        Value::Signed(i128::MAX)
    );
    assert_eq!(
        Value::Signed(i128::MAX).binop_add(Value::Signed(i128::MAX)).unwrap(),
        Value::Signed(i128::MAX)
    );
    assert_eq!(
        Value::Signed(i128::MIN).binop_add(Value::Signed(-1)).unwrap(),
        Value::Signed(i128::MIN)
    );
    assert_eq!(
        Value::Signed(i128::MIN).binop_add(Value::Signed(i128::MIN)).unwrap(),
        Value::Signed(i128::MIN)
    );
    assert_eq!(
        Value::Signed(i128::MAX).binop_add(Value::Signed(i128::MIN)).unwrap(),
        Value::Signed(-1)
    );
    assert_eq!(
        Value::Signed(-5).binop_add(Value::Signed(3)).unwrap(),
        Value::Signed(-2)
    );
}

#[test]
fn mixed_integers_add_as_signed() {
    assert_eq!(
        Value::Unsigned(2).binop_add(Value::Signed(-3)).unwrap(),
        Value::Signed(-1)
    );
    assert_eq!(
        Value::Signed(-3).binop_add(Value::Unsigned(2)).unwrap(),
        Value::Signed(-1)
    );
    assert_eq!(
        Value::Unsigned(u128::MAX).binop_add(Value::Signed(1)).unwrap(),
        Value::Signed(0)
    );
    assert_eq!(
        Value::Signed(i128::MAX).binop_add(Value::Unsigned(1)).unwrap(),
        Value::Signed(i128::MAX)
    );
}

#[test]
fn booleans_texts_and_blobs_add() {
    for (a, b) in [(false, false), (false, true), (true, false), (true, true)] {
        assert_eq!(
            Value::Boolean(a).binop_add(Value::Boolean(b)).unwrap(),
            Value::Boolean(a || b)
        );
    }
    assert_eq!(
        Value::Text("ab".to_owned()).binop_add(Value::Text("cd".to_owned())).unwrap(),
        Value::Text("abcd".to_owned())
    );
    assert_eq!(
        Value::Text("ab".to_owned()).binop_add(Value::Text("".to_owned())).unwrap(),
        Value::Text("ab".to_owned())
    );
    assert_eq!(
        Value::Blob(vec![1, 2]).binop_add(Value::Blob(vec![3])).unwrap(),
        Value::Blob(vec![1, 2, 3])
    );
    assert_eq!(
        Value::Blob(vec![]).binop_add(Value::Blob(vec![3])).unwrap(),
        Value::Blob(vec![3])
    );
}

#[test]
fn sums_that_need_real_arithmetic_say_so() {
    let one = Value::Real(1.0f64.to_bits());
    assert!(matches!(
        one.binop_add(Value::Real(2.0f64.to_bits())),
        Err(QueryError::RealArithmetic)
    ));
    assert!(matches!(
        one.binop_add(Value::Unsigned(2)),
        Err(QueryError::RealArithmetic)
    ));
    assert!(matches!(
        Value::Signed(2).binop_add(one.clone()),
        Err(QueryError::RealArithmetic)
    ));
    assert!(matches!(
        one.binop_add(Value::Text("2".to_owned())),
        Err(QueryError::IncompatibleTypes)
    ));
}

#[test]
fn casts_between_kinds() {
    for value in samples() {
        assert_eq!(
            value.cast_to(value.kind()).unwrap().kind(),
            value.kind()
        );
        if !matches!(value, Value::Real(_)) {
            assert_eq!(value.cast_to(value.kind()).unwrap(), value);
        }
    }
    assert_eq!(
        Value::Unsigned(5).cast_to(ValueKind::Signed).unwrap(),
        Value::Signed(5)
    );
    assert_eq!(
        Value::Unsigned(u128::MAX).cast_to(ValueKind::Signed).unwrap(),
        Value::Signed(-1)
    );
    assert_eq!(
        Value::Unsigned(1u128 << 127).cast_to(ValueKind::Signed).unwrap(),
        Value::Signed(i128::MIN)
    );
    assert_eq!(
        Value::Signed(-1).cast_to(ValueKind::Unsigned).unwrap(),
        Value::Unsigned(u128::MAX)
    );
    assert_eq!(
        Value::Signed(i128::MIN).cast_to(ValueKind::Unsigned).unwrap(),
        Value::Unsigned(1u128 << 127)
    );
    assert_eq!(
        Value::Signed(9).cast_to(ValueKind::Unsigned).unwrap(),
        Value::Unsigned(9)
    );
    let nan = Value::Real(f64::NAN.to_bits());
    match nan.cast_to(ValueKind::Real).unwrap() {
        Value::Real(bits) => assert_eq!(bits, f64::NAN.to_bits()),
        _ => panic!("a binary64 stays one"),
    }
}

#[test]
fn casts_that_fail() {
    for value in samples() {
        if value.kind() != ValueKind::Boolean {
            assert!(matches!(
                value.cast_to(ValueKind::Boolean),
                Err(QueryError::IncompatibleTypes)
            ));
        }
        if value.kind() != ValueKind::Text {
            assert!(matches!(
                value.cast_to(ValueKind::Text),
                Err(QueryError::IncompatibleTypes)
            ));
        }
        if value.kind() != ValueKind::Blob {
            assert!(matches!(
                value.cast_to(ValueKind::Blob),
                Err(QueryError::IncompatibleTypes)
            ));
        }
    }
    assert!(matches!(
        Value::Boolean(true).cast_to(ValueKind::Unsigned),
        Err(QueryError::IncompatibleTypes)
    ));
    assert!(matches!(
        Value::Real(0).cast_to(ValueKind::Unsigned),
        Err(QueryError::IncompatibleTypes)
    ));
    assert!(matches!(
        Value::Text("1".to_owned()).cast_to(ValueKind::Signed),
        Err(QueryError::IncompatibleTypes)
    ));
    assert!(matches!(
        Value::Real(0).cast_to(ValueKind::Signed),
        Err(QueryError::IncompatibleTypes)
    ));
    assert!(matches!(
        Value::Real(1.5f64.to_bits()).cast_to(ValueKind::Signed),
        Err(QueryError::IncompatibleTypes)
    ));
    assert!(matches!(
        Value::Real(f64::NAN.to_bits()).cast_to(ValueKind::Signed),
        Err(QueryError::IncompatibleTypes)
    ));
    assert!(matches!(
        Value::Real(1.5f64.to_bits()).cast_to(ValueKind::Unsigned),
        Err(QueryError::IncompatibleTypes)
    ));
    assert!(matches!(
        Value::Unsigned(1).cast_to(ValueKind::Real),
        Err(QueryError::RealArithmetic)
    ));
    assert!(matches!(
        Value::Signed(1).cast_to(ValueKind::Real),
        Err(QueryError::RealArithmetic)
    ));
    assert!(matches!(
        Value::Blob(vec![]).cast_to(ValueKind::Real),
        Err(QueryError::IncompatibleTypes)
    ));
}

#[test]
fn reinterpreting_keeps_the_bits() {
    for value in [0u128, 1, 42, (1 << 127) - 1, 1 << 127, (1 << 127) + 1, u128::MAX] {
        assert_eq!(reinterpret_as_signed(value), value as i128);
        assert_eq!(reinterpret_as_unsigned(value as i128), value);
    }
    for value in [0i128, 1, -1, 42, -42, i128::MAX, i128::MIN, i128::MIN + 1] {
        assert_eq!(reinterpret_as_unsigned(value), value as u128);
        assert_eq!(reinterpret_as_signed(value as u128), value);
    }
}

#[test]
fn casts_to_integer_columns() {
    let signed = FieldKind::Integer(IntSize::N64, true);
    let unsigned = FieldKind::Integer(IntSize::N64, false);
    assert_eq!(
        Value::Unsigned(u128::MAX).cast_to_field_kind(signed.clone()).unwrap(),
        Value::Signed(-1)
    );
    assert_eq!(
        Value::Unsigned(3).cast_to_field_kind(unsigned.clone()).unwrap(),
        Value::Unsigned(3)
    );
    assert_eq!(
        Value::Signed(-3).cast_to_field_kind(signed.clone()).unwrap(),
        Value::Signed(-3)
    );
    assert_eq!(
        Value::Signed(-3).cast_to_field_kind(unsigned.clone()).unwrap(),
        Value::Unsigned(u128::MAX - 2)
    );
    assert!(matches!(
        Value::Real(0).cast_to_field_kind(signed.clone()),
        Err(QueryError::RealArithmetic)
    ));
    assert!(matches!(
        Value::Real(0).cast_to_field_kind(unsigned.clone()),
        Err(QueryError::IncompatibleTypes)
    ));
    assert!(matches!(
        Value::Boolean(true).cast_to_field_kind(signed.clone()),
        Err(QueryError::IncompatibleTypes)
    ));
    assert!(matches!(
        Value::Text("1".to_owned()).cast_to_field_kind(unsigned),
        Err(QueryError::IncompatibleTypes)
    ));
    assert!(matches!(
        Value::Blob(vec![1]).cast_to_field_kind(signed),
        Err(QueryError::IncompatibleTypes)
    ));
}

#[test]
fn casts_to_real_columns() {
    match Value::Real(2.5f64.to_bits()).cast_to_field_kind(FieldKind::Real).unwrap() {
        Value::Real(bits) => assert_eq!(bits, 2.5f64.to_bits()),
        _ => panic!("a binary64 stays one"),
    }
    assert!(matches!(
        Value::Unsigned(1).cast_to_field_kind(FieldKind::Real),
        Err(QueryError::RealArithmetic)
    ));
    assert!(matches!(
        Value::Signed(1).cast_to_field_kind(FieldKind::Real),
        Err(QueryError::RealArithmetic)
    ));
    assert!(matches!(
        Value::Boolean(true).cast_to_field_kind(FieldKind::Real),
        Err(QueryError::IncompatibleTypes)
    ));
    assert!(matches!(
        Value::Text("1".to_owned()).cast_to_field_kind(FieldKind::Real),
        Err(QueryError::IncompatibleTypes)
    ));
}

#[test]
fn casts_to_text_columns() {
    assert_eq!(
        Value::Boolean(true).cast_to_field_kind(FieldKind::Text).unwrap(),
        Value::Text("true".to_owned())
    );
    assert_eq!(
        Value::Boolean(false).cast_to_field_kind(FieldKind::Text).unwrap(),
        Value::Text("false".to_owned())
    );
    assert_eq!(
        Value::Unsigned(0).cast_to_field_kind(FieldKind::Text).unwrap(),
        Value::Text("0".to_owned())
    );
    assert_eq!(
        Value::Unsigned(1203).cast_to_field_kind(FieldKind::Text).unwrap(),
        Value::Text("1203".to_owned())
    );
    assert_eq!(
        Value::Unsigned(u128::MAX).cast_to_field_kind(FieldKind::Text).unwrap(),
        Value::Text("340282366920938463463374607431768211455".to_owned())
    );
    assert_eq!(
        Value::Signed(-45).cast_to_field_kind(FieldKind::Text).unwrap(),
        Value::Text("-45".to_owned())
    );
    assert_eq!(
        Value::Signed(i128::MIN).cast_to_field_kind(FieldKind::Text).unwrap(),
        Value::Text("-170141183460469231731687303715884105728".to_owned())
    );
    assert_eq!(
        Value::Signed(i128::MAX).cast_to_field_kind(FieldKind::Text).unwrap(),
        Value::Text("170141183460469231731687303715884105727".to_owned())
    );
    assert_eq!(
        Value::Text("as is".to_owned()).cast_to_field_kind(FieldKind::Text).unwrap(),
        Value::Text("as is".to_owned())
    );
    assert!(matches!(
        Value::Real(0).cast_to_field_kind(FieldKind::Text),
        Err(QueryError::RealArithmetic)
    ));
    assert!(matches!(
        Value::Blob(vec![]).cast_to_field_kind(FieldKind::Text),
        Err(QueryError::IncompatibleTypes)
    ));
}

#[test]
fn nothing_casts_to_blob_or_foreign_key_columns() {
    for value in samples() {
        assert!(matches!(
            value.cast_to_field_kind(FieldKind::Blob),
            Err(QueryError::IncompatibleTypes)
        ));
        assert!(matches!(
            value.cast_to_field_kind(FieldKind::ForeignKey("Users".to_owned())),
            Err(QueryError::IncompatibleTypes)
        ));
    }
}

#[test]
fn integers_are_written_as_std_writes_them() {
    for value in [0u128, 9, 10, 11, 99, 100, 101, 1_000_000, u64::MAX as u128, u128::MAX] {
        assert_eq!(unsigned_to_text(value), value.to_string());
    }
    for value in [0i128, 9, -9, 10, -10, 1_000_000, -1_000_000, i128::MAX, i128::MIN] {
        assert_eq!(signed_to_text(value), value.to_string());
    }
    assert_eq!(boolean_to_text(true), true.to_string());
    assert_eq!(boolean_to_text(false), false.to_string());
}

#[test]
fn real_numbers_compare_as_numbers() {
    let numbers = [
        0.0f64,
        -0.0,
        1.0,
        -1.0,
        1.5,
        f64::MIN_POSITIVE,
        f64::MAX,
        f64::MIN,
        f64::EPSILON,
        f64::INFINITY,
        f64::NEG_INFINITY,
        f64::NAN,
        -f64::NAN,
        f64::from_bits(0x7ff0_0000_0000_0001),
        f64::from_bits(0xfff0_0000_0000_0001),
        f64::from_bits(1),
        f64::from_bits(0x8000_0000_0000_0001),
    ];
    for a in numbers {
        for b in numbers {
            assert_eq!(real_bits_equal(a.to_bits(), b.to_bits()), a == b);
            assert_eq!(
                Value::Real(a.to_bits()) == Value::Real(b.to_bits()),
                a == b
            );
        }
    }
}

#[test]
fn values_of_different_kinds_are_not_equal() {
    assert_ne!(Value::Unsigned(1), Value::Signed(1));
    assert_ne!(Value::Unsigned(0), Value::Boolean(false));
    assert_ne!(Value::Unsigned(0), Value::Real(0));
    assert_ne!(Value::Text("1".to_owned()), Value::Unsigned(1));
    assert_ne!(Value::Text("a".to_owned()), Value::Blob(vec![97]));
    assert_ne!(Value::Text("a".to_owned()), Value::Text("b".to_owned()));
    assert_ne!(Value::Blob(vec![1]), Value::Blob(vec![1, 1]));
    assert_eq!(Value::Blob(vec![1, 2]), Value::Blob(vec![1, 2]));
    assert_eq!(Value::Text("a".to_owned()), Value::Text("a".to_owned()));
    for value in samples() {
        let copy = value.clone();
        assert_eq!(copy.kind(), value.kind());
        if !matches!(value, Value::Real(_)) {
            assert_eq!(copy, value);
        }
    }
}
