//! Scalar values, their kinds, and the rules by which kinds unify.

use vstd::prelude::*;
use vstd::string::StringExecFns;
use vstd::std_specs::cmp::PartialEqSpecImpl;
use crate::field::{FieldKind, FieldKindView};
use crate::{outcome, QueryError, QueryErrorView};

verus! {

/// The tag of a [`Value`].
#[derive(Debug, Clone, Copy, PartialEq, Eq, Structural)]
pub enum ValueKind {
    Boolean,
    Unsigned,
    Signed,
    Real,
    Text,
    Blob,
}

impl ValueKind {
    /// Whether values of this kind are numbers.
    pub open spec fn is_numeric(self) -> bool {
        self == ValueKind::Unsigned || self == ValueKind::Signed || self == ValueKind::Real
    }

    /// The kind to which values of the two kinds are brought before they are
    /// combined. A kind unifies with itself; two different kinds unify only if
    /// both are numeric, to `Real` if one of them is `Real` and to `Signed`
    /// otherwise.
    pub open spec fn unified(self, other: ValueKind) -> Option<ValueKind> {
        if self == other {
            Some(self)
        } else if self.is_numeric() && other.is_numeric() {
            if self == ValueKind::Real || other == ValueKind::Real {
                Some(ValueKind::Real)
            } else {
                Some(ValueKind::Signed)
            }
        } else {
            None
        }
    }

    /// The kind to which values of the two kinds are brought before they are
    /// combined, if there is one.
    pub fn more_generic(&self, other: ValueKind) -> (kind: Option<ValueKind>)
        ensures
            kind == self.unified(other),
    {
        if *self == other {
            Some(*self)
        } else {
            match self {
                ValueKind::Unsigned => match other {
                    ValueKind::Signed => Some(ValueKind::Signed),
                    ValueKind::Real => Some(ValueKind::Real),
                    _ => None,
                },
                ValueKind::Signed => match other {
                    ValueKind::Unsigned => Some(ValueKind::Signed),
                    ValueKind::Real => Some(ValueKind::Real),
                    _ => None,
                },
                ValueKind::Real => match other {
                    ValueKind::Unsigned => Some(ValueKind::Real),
                    ValueKind::Signed => Some(ValueKind::Real),
                    _ => None,
                },
                _ => None,
            }
        }
    }
}

/// The bit pattern of a binary64 number without its sign bit.
pub open spec fn real_magnitude(bits: u64) -> int {
    if bits >= 0x8000_0000_0000_0000u64 {
        bits - 0x8000_0000_0000_0000u64
    } else {
        bits as int
    }
}

/// Whether the bit pattern is that of a binary64 number that is not a number:
/// all exponent bits set and a fraction that is not zero.
pub open spec fn real_is_nan(bits: u64) -> bool {
    real_magnitude(bits) > 0x7ff0_0000_0000_0000u64
}

/// Equality of two binary64 numbers given by their bit patterns: what is not a
/// number equals nothing, the two zeros equal each other, and any other number
/// equals only itself.
pub open spec fn real_equal(a: u64, b: u64) -> bool {
    &&& !real_is_nan(a)
    &&& !real_is_nan(b)
    &&& (a == b || (real_magnitude(a) == 0 && real_magnitude(b) == 0))
}

/// The signed integer with the same 128 bits in two's complement.
pub open spec fn signed_of(value: u128) -> i128 {
    if value <= i128::MAX {
        value as i128
    } else {
        (value - 0x1_0000_0000_0000_0000_0000_0000_0000_0000int) as i128
    }
}

/// The unsigned integer with the same 128 bits in two's complement.
pub open spec fn unsigned_of(value: i128) -> u128 {
    if value >= 0 {
        value as u128
    } else {
        (value + 0x1_0000_0000_0000_0000_0000_0000_0000_0000int) as u128
    }
}

/// The sum of two unsigned integers, held at the largest one.
pub open spec fn saturated_unsigned(sum: int) -> u128 {
    if sum > u128::MAX {
        u128::MAX
    } else {
        sum as u128
    }
}

/// The sum of two signed integers, held between the smallest and the largest
/// one.
pub open spec fn saturated_signed(sum: int) -> i128 {
    if sum > i128::MAX {
        i128::MAX
    } else if sum < i128::MIN {
        i128::MIN
    } else {
        sum as i128
    }
}

/// The decimal digit `digit` as a character.
pub open spec fn digit_char(digit: int) -> char {
    if digit == 0 {
        '0'
    } else if digit == 1 {
        '1'
    } else if digit == 2 {
        '2'
    } else if digit == 3 {
        '3'
    } else if digit == 4 {
        '4'
    } else if digit == 5 {
        '5'
    } else if digit == 6 {
        '6'
    } else if digit == 7 {
        '7'
    } else if digit == 8 {
        '8'
    } else {
        '9'
    }
}

/// A natural number written in decimal, without leading zeros.
pub open spec fn decimal_text(number: nat) -> Seq<char>
    decreases number,
{
    if number < 10 {
        seq![digit_char(number as int)]
    } else {
        decimal_text(number / 10).push(digit_char((number % 10) as int))
    }
}

/// An integer written in decimal, behind a minus sign where it is negative.
pub open spec fn signed_decimal_text(number: int) -> Seq<char> {
    if number < 0 {
        seq!['-'] + decimal_text((-number) as nat)
    } else {
        decimal_text(number as nat)
    }
}

/// A boolean written as `true` or `false`.
pub open spec fn boolean_text(value: bool) -> Seq<char> {
    if value {
        seq!['t', 'r', 'u', 'e']
    } else {
        seq!['f', 'a', 'l', 's', 'e']
    }
}

/// Types for data processing
#[derive(Debug)]
pub enum Value {
    /// Boolean (true/false) value
    Boolean(bool),
    /// Unsigned integer
    Unsigned(u128),
    /// Signed integer
    Signed(i128),
    /// Binary64 number, held as its bit pattern
    Real(u64),
    /// UTF-8 Text
    Text(String),
    /// Arbitrary binary data
    Blob(Vec<u8>),
}

/// What a [`Value`] stands for.
pub enum ValueView {
    Boolean(bool),
    Unsigned(u128),
    Signed(i128),
    Real(u64),
    Text(Seq<char>),
    Blob(Seq<u8>),
}

impl View for Value {
    type V = ValueView;

    open spec fn view(&self) -> ValueView {
        match self {
            Value::Boolean(b) => ValueView::Boolean(*b),
            Value::Unsigned(v) => ValueView::Unsigned(*v),
            Value::Signed(v) => ValueView::Signed(*v),
            Value::Real(bits) => ValueView::Real(*bits),
            Value::Text(text) => ValueView::Text(text@),
            Value::Blob(bytes) => ValueView::Blob(bytes@),
        }
    }
}

impl ValueView {
    /// The tag of the value.
    pub open spec fn kind(self) -> ValueKind {
        match self {
            ValueView::Boolean(_) => ValueKind::Boolean,
            ValueView::Unsigned(_) => ValueKind::Unsigned,
            ValueView::Signed(_) => ValueKind::Signed,
            ValueView::Real(_) => ValueKind::Real,
            ValueView::Text(_) => ValueKind::Text,
            ValueView::Blob(_) => ValueKind::Blob,
        }
    }

    /// Equality of values: the kinds are the same and what they hold is the
    /// same, binary64 numbers being compared as numbers. Nothing is coerced.
    pub open spec fn equals(self, other: ValueView) -> bool {
        match (self, other) {
            (ValueView::Real(a), ValueView::Real(b)) => real_equal(a, b),
            _ => self == other,
        }
    }

    /// Whether the value equals itself: every value but a binary64 that is not
    /// a number does.
    pub open spec fn is_comparable(self) -> bool {
        match self {
            ValueView::Real(bits) => !real_is_nan(bits),
            _ => true,
        }
    }

    /// The value brought to another kind. A value already of that kind stays as
    /// it is; an integer changes its sign by reinterpreting its bits; an
    /// integer becomes a binary64 by arithmetic that is not done here. No other
    /// pair of kinds is cast: neither is a binary64 brought to an integer.
    pub open spec fn cast(self, to: ValueKind) -> Result<ValueView, QueryErrorView> {
        if self.kind() == to {
            Ok(self)
        } else {
            match (self, to) {
                (ValueView::Signed(v), ValueKind::Unsigned) => Ok(
                    ValueView::Unsigned(unsigned_of(v)),
                ),
                (ValueView::Unsigned(v), ValueKind::Signed) => Ok(ValueView::Signed(signed_of(v))),
                (ValueView::Unsigned(_), ValueKind::Real) => Err(QueryErrorView::RealArithmetic),
                (ValueView::Signed(_), ValueKind::Real) => Err(QueryErrorView::RealArithmetic),
                _ => Err(QueryErrorView::IncompatibleTypes),
            }
        }
    }

    /// Two values of one kind combined: booleans by or, integers by saturating
    /// addition, texts and blobs by concatenation.
    pub open spec fn combined(self, other: ValueView) -> Result<ValueView, QueryErrorView> {
        match (self, other) {
            (ValueView::Boolean(a), ValueView::Boolean(b)) => Ok(ValueView::Boolean(a || b)),
            (ValueView::Unsigned(a), ValueView::Unsigned(b)) => Ok(
                ValueView::Unsigned(saturated_unsigned(a + b)),
            ),
            (ValueView::Signed(a), ValueView::Signed(b)) => Ok(
                ValueView::Signed(saturated_signed(a + b)),
            ),
            (ValueView::Real(_), ValueView::Real(_)) => Err(QueryErrorView::RealArithmetic),
            (ValueView::Text(a), ValueView::Text(b)) => Ok(ValueView::Text(a + b)),
            (ValueView::Blob(a), ValueView::Blob(b)) => Ok(ValueView::Blob(a + b)),
            _ => Err(QueryErrorView::IncompatibleTypes),
        }
    }

    /// The sum of two values: both are cast to the kind that their kinds unify
    /// to, and then combined.
    pub open spec fn sum(self, other: ValueView) -> Result<ValueView, QueryErrorView> {
        match self.kind().unified(other.kind()) {
            None => Err(QueryErrorView::IncompatibleTypes),
            Some(kind) => match (self.cast(kind), other.cast(kind)) {
                (Ok(a), Ok(b)) => a.combined(b),
                (Err(e), _) => Err(e),
                (_, Err(e)) => Err(e),
            },
        }
    }

    /// The value as a column of the given declared kind holds it.
    pub open spec fn cast_to_field(self, to: FieldKindView) -> Result<ValueView, QueryErrorView> {
        match to {
            FieldKindView::Integer(_, signed) => match self {
                ValueView::Unsigned(v) => Ok(
                    if signed {
                        ValueView::Signed(signed_of(v))
                    } else {
                        self
                    },
                ),
                ValueView::Signed(v) => Ok(
                    if signed {
                        self
                    } else {
                        ValueView::Unsigned(unsigned_of(v))
                    },
                ),
                ValueView::Real(_) => Err(
                    if signed {
                        QueryErrorView::RealArithmetic
                    } else {
                        QueryErrorView::IncompatibleTypes
                    },
                ),
                _ => Err(QueryErrorView::IncompatibleTypes),
            },
            FieldKindView::Real => match self {
                ValueView::Unsigned(_) => Err(QueryErrorView::RealArithmetic),
                ValueView::Signed(_) => Err(QueryErrorView::RealArithmetic),
                ValueView::Real(_) => Ok(self),
                _ => Err(QueryErrorView::IncompatibleTypes),
            },
            FieldKindView::Text => match self {
                ValueView::Boolean(b) => Ok(ValueView::Text(boolean_text(b))),
                ValueView::Unsigned(v) => Ok(ValueView::Text(decimal_text(v as nat))),
                ValueView::Signed(v) => Ok(ValueView::Text(signed_decimal_text(v as int))),
                ValueView::Real(_) => Err(QueryErrorView::RealArithmetic),
                ValueView::Text(_) => Ok(self),
                ValueView::Blob(_) => Err(QueryErrorView::IncompatibleTypes),
            },
            _ => Err(QueryErrorView::IncompatibleTypes),
        }
    }
}

/// Compares two binary64 numbers given by their bit patterns.
pub fn real_bits_equal(a: u64, b: u64) -> (equal: bool)
    ensures
        equal == real_equal(a, b),
{
    let sign: u64 = 0x8000_0000_0000_0000u64;
    let magnitude_a: u64 = if a >= sign {
        a - sign
    } else {
        a
    };
    let magnitude_b: u64 = if b >= sign {
        b - sign
    } else {
        b
    };
    if magnitude_a > 0x7ff0_0000_0000_0000u64 || magnitude_b > 0x7ff0_0000_0000_0000u64 {
        false
    } else {
        a == b || (magnitude_a == 0 && magnitude_b == 0)
    }
}

/// Reads the bits of an unsigned integer as a signed one.
pub fn reinterpret_as_signed(value: u128) -> (signed: i128)
    ensures
        signed == signed_of(value),
{
    let half: u128 = 0x8000_0000_0000_0000_0000_0000_0000_0000u128;
    if value < half {
        value as i128
    } else {
        ((value - half) as i128) + i128::MIN
    }
}

/// Reads the bits of a signed integer as an unsigned one.
pub fn reinterpret_as_unsigned(value: i128) -> (unsigned: u128)
    ensures
        unsigned == unsigned_of(value),
{
    let half: u128 = 0x8000_0000_0000_0000_0000_0000_0000_0000u128;
    if value >= 0 {
        value as u128
    } else {
        ((value - i128::MIN) as u128) + half
    }
}

fn add_signed_saturating(a: i128, b: i128) -> (sum: i128)
    ensures
        sum == saturated_signed(a + b),
{
    if b > 0 && a > i128::MAX - b {
        i128::MAX
    } else if b < 0 && a < i128::MIN - b {
        i128::MIN
    } else {
        a + b
    }
}

fn digit_text(digit: u8) -> (text: &'static str)
    requires
        digit < 10,
    ensures
        text@ == seq![digit_char(digit as int)],
{
    proof {
        reveal_strlit("0");
        reveal_strlit("1");
        reveal_strlit("2");
        reveal_strlit("3");
        reveal_strlit("4");
        reveal_strlit("5");
        reveal_strlit("6");
        reveal_strlit("7");
        reveal_strlit("8");
        reveal_strlit("9");
    }
    let text = match digit {
        0 => "0",
        1 => "1",
        2 => "2",
        3 => "3",
        4 => "4",
        5 => "5",
        6 => "6",
        7 => "7",
        8 => "8",
        _ => "9",
    };
    assert(text@ =~= seq![digit_char(digit as int)]);
    text
}

/// Writes an unsigned integer in decimal.
pub fn unsigned_to_text(number: u128) -> (text: String)
    ensures
        text@ == decimal_text(number as nat),
    decreases number,
{
    if number < 10 {
        String::from_str(digit_text(number as u8))
    } else {
        let mut text = unsigned_to_text(number / 10);
        text.append(digit_text((number % 10) as u8));
        text
    }
}

/// Writes a signed integer in decimal.
pub fn signed_to_text(number: i128) -> (text: String)
    ensures
        text@ == signed_decimal_text(number as int),
{
    if number < 0 {
        let magnitude: u128 = ((-(number + 1)) as u128) + 1;
        proof {
            reveal_strlit("-");
            assert("-"@ =~= seq!['-']);
        }
        let digits = unsigned_to_text(magnitude);
        String::from_str("-").concat(digits.as_str())
    } else {
        unsigned_to_text(number as u128)
    }
}

/// Writes a boolean as `true` or `false`.
pub fn boolean_to_text(value: bool) -> (text: String)
    ensures
        text@ == boolean_text(value),
{
    proof {
        reveal_strlit("true");
        reveal_strlit("false");
        assert("true"@ =~= seq!['t', 'r', 'u', 'e']);
        assert("false"@ =~= seq!['f', 'a', 'l', 's', 'e']);
    }
    if value {
        String::from_str("true")
    } else {
        String::from_str("false")
    }
}

impl Clone for Value {
    fn clone(&self) -> (copy: Self)
        ensures
            copy@ == self@,
    {
        match self {
            Value::Boolean(b) => Value::Boolean(*b),
            Value::Unsigned(v) => Value::Unsigned(*v),
            Value::Signed(v) => Value::Signed(*v),
            Value::Real(bits) => Value::Real(*bits),
            Value::Text(text) => Value::Text(text.clone()),
            Value::Blob(bytes) => {
                let copy = bytes.clone();
                assert(copy@ =~= bytes@);
                Value::Blob(copy)
            },
        }
    }
}

impl PartialEq for Value {
    fn eq(&self, other: &Self) -> (equal: bool) {
        match (self, other) {
            (Value::Boolean(a), Value::Boolean(b)) => *a == *b,
            (Value::Unsigned(a), Value::Unsigned(b)) => *a == *b,
            (Value::Signed(a), Value::Signed(b)) => *a == *b,
            (Value::Real(a), Value::Real(b)) => real_bits_equal(*a, *b),
            (Value::Text(a), Value::Text(b)) => *a == *b,
            (Value::Blob(a), Value::Blob(b)) => {
                let equal = *a == *b;
                assert(equal == (a@ =~= b@));
                equal
            },
            _ => false,
        }
    }
}

impl PartialEqSpecImpl for Value {
    open spec fn obeys_eq_spec() -> bool {
        true
    }

    open spec fn eq_spec(&self, other: &Self) -> bool {
        self@.equals(other@)
    }
}

impl Value {
    /// The tag of the value.
    pub fn kind(&self) -> (kind: ValueKind)
        ensures
            kind == self@.kind(),
    {
        match self {
            Value::Boolean(_) => ValueKind::Boolean,
            Value::Unsigned(_) => ValueKind::Unsigned,
            Value::Signed(_) => ValueKind::Signed,
            Value::Real(_) => ValueKind::Real,
            Value::Text(_) => ValueKind::Text,
            Value::Blob(_) => ValueKind::Blob,
        }
    }

    /// Adds two values, after bringing both to the kind that their kinds unify
    /// to.
    pub fn binop_add(&self, other: Value) -> (sum: Result<Value, QueryError>)
        ensures
            outcome(sum) == self@.sum(other@),
            outcome(sum) == Err::<ValueView, QueryErrorView>(QueryErrorView::IncompatibleTypes)
                <==> self@.kind().unified(other@.kind()).is_none(),
            outcome(sum) == Err::<ValueView, QueryErrorView>(QueryErrorView::RealArithmetic)
                <==> self@.kind().unified(other@.kind()) == Some(ValueKind::Real),
            sum matches Ok(value) ==> Some(value@.kind()) == self@.kind().unified(other@.kind()),
    {
        if let Some(result_kind) = self.kind().more_generic(other.kind()) {
            let c1 = match self.cast_to(result_kind) {
                Ok(value) => value,
                Err(error) => {
                    return Err(error);
                },
            };
            let c2 = match other.cast_to(result_kind) {
                Ok(value) => value,
                Err(error) => {
                    return Err(error);
                },
            };
            match (c1, c2) {
                (Value::Boolean(a), Value::Boolean(b)) => Ok(Value::Boolean(a || b)),
                (Value::Unsigned(a), Value::Unsigned(b)) => Ok(
                    Value::Unsigned(a.saturating_add(b)),
                ),
                (Value::Signed(a), Value::Signed(b)) => Ok(
                    Value::Signed(add_signed_saturating(a, b)),
                ),
                (Value::Text(a), Value::Text(b)) => Ok(Value::Text(a.concat(b.as_str()))),
                (Value::Blob(a), Value::Blob(b)) => {
                    let mut bytes = a;
                    let mut rest = b;
                    bytes.append(&mut rest);
                    Ok(Value::Blob(bytes))
                },
                _ => Err(QueryError::RealArithmetic),
            }
        } else {
            Err(QueryError::IncompatibleTypes)
        }
    }

    /// Brings the value to another kind.
    pub fn cast_to(&self, to: ValueKind) -> (cast: Result<Value, QueryError>)
        ensures
            outcome(cast) == self@.cast(to),
            cast matches Ok(value) ==> value@.kind() == to,
            cast.is_ok() <==> self@.kind() == to || (self@.kind() == ValueKind::Unsigned && to
                == ValueKind::Signed) || (self@.kind() == ValueKind::Signed && to
                == ValueKind::Unsigned),
    {
        if self.kind() == to {
            return Ok(self.clone());
        }
        match to {
            ValueKind::Unsigned => match self {
                Value::Signed(v) => Ok(Value::Unsigned(reinterpret_as_unsigned(*v))),
                _ => Err(QueryError::IncompatibleTypes),
            },
            ValueKind::Signed => match self {
                Value::Unsigned(v) => Ok(Value::Signed(reinterpret_as_signed(*v))),
                _ => Err(QueryError::IncompatibleTypes),
            },
            ValueKind::Real => match self {
                Value::Signed(_) => Err(QueryError::RealArithmetic),
                Value::Unsigned(_) => Err(QueryError::RealArithmetic),
                _ => Err(QueryError::IncompatibleTypes),
            },
            _ => Err(QueryError::IncompatibleTypes),
        }
    }

    /// Brings the value to what a column of the given declared kind holds.
    pub fn cast_to_field_kind(&self, to: FieldKind) -> (cast: Result<Value, QueryError>)
        ensures
            outcome(cast) == self@.cast_to_field(to@),
    {
        match to {
            FieldKind::Integer(_size, signed) => match self {
                Value::Unsigned(value) => if signed {
                    Ok(Value::Signed(reinterpret_as_signed(*value)))
                } else {
                    Ok(Value::Unsigned(*value))
                },
                Value::Signed(value) => if signed {
                    Ok(Value::Signed(*value))
                } else {
                    Ok(Value::Unsigned(reinterpret_as_unsigned(*value)))
                },
                Value::Real(_) => if signed {
                    Err(QueryError::RealArithmetic)
                } else {
                    Err(QueryError::IncompatibleTypes)
                },
                _ => Err(QueryError::IncompatibleTypes),
            },
            FieldKind::Real => match self {
                Value::Unsigned(_) => Err(QueryError::RealArithmetic),
                Value::Signed(_) => Err(QueryError::RealArithmetic),
                Value::Real(bits) => Ok(Value::Real(*bits)),
                _ => Err(QueryError::IncompatibleTypes),
            },
            FieldKind::Text => match self {
                Value::Boolean(value) => Ok(Value::Text(boolean_to_text(*value))),
                Value::Unsigned(value) => Ok(Value::Text(unsigned_to_text(*value))),
                Value::Signed(value) => Ok(Value::Text(signed_to_text(*value))),
                Value::Real(_) => Err(QueryError::RealArithmetic),
                Value::Text(value) => Ok(Value::Text(value.clone())),
                Value::Blob(_) => Err(QueryError::IncompatibleTypes),
            },
            _ => Err(QueryError::IncompatibleTypes),
        }
    }
}

} // verus!
