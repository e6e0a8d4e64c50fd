//! Values stored in columns, their types, and the order among them.
//!
//! A floating-point value is held by the bits of its IEEE 754 encoding: every rule about such a
//! value (equality, order, the sign) is a rule on those bits.
use core::cmp::Ordering;

use vstd::prelude::*;
use vstd::string::*;

use crate::byte_order;
use crate::sql::compiled_filter::BinOp;

verus! {

/// A value of a column.
#[derive(Debug)]
pub enum Value {
    Null,
    String(String),
    /// The 128 bits of the identifier, most significant byte first.
    Uuid(u128),
    Bool(bool),
    Int8(i8),
    Int16(i16),
    Int32(i32),
    Int64(i64),
    UInt8(u8),
    UInt16(u16),
    UInt32(u32),
    UInt64(u64),
    /// The bits of a single-precision number.
    F32(u32),
    /// The bits of a double-precision number.
    F64(u64),
}

/// The type of a value.
#[derive(Debug, Clone, Copy, Hash, PartialEq, Eq, Structural)]
pub enum ValueType {
    Null,
    String,
    Uuid,
    Bool,
    Int8,
    Int16,
    Int32,
    Int64,
    UInt8,
    UInt16,
    UInt32,
    UInt64,
    F32,
    F64,
}

impl ValueType {
    /// The name of the type as it appears in messages.
    pub open spec fn name_view(self) -> Seq<char> {
        match self {
            ValueType::Null => "Null"@,
            ValueType::String => "String"@,
            ValueType::Uuid => "Uuid"@,
            ValueType::Bool => "Bool"@,
            ValueType::Int8 => "Int8"@,
            ValueType::Int16 => "Int16"@,
            ValueType::Int32 => "Int32"@,
            ValueType::Int64 => "Int64"@,
            ValueType::UInt8 => "UInt8"@,
            ValueType::UInt16 => "UInt16"@,
            ValueType::UInt32 => "UInt32"@,
            ValueType::UInt64 => "UInt64"@,
            ValueType::F32 => "F32"@,
            ValueType::F64 => "F64"@,
        }
    }

    /// The name of the type as it appears in messages.
    pub fn name(&self) -> (r: &'static str)
        ensures
            r@ == self.name_view(),
    {
        match self {
            ValueType::Null => "Null",
            ValueType::String => "String",
            ValueType::Uuid => "Uuid",
            ValueType::Bool => "Bool",
            ValueType::Int8 => "Int8",
            ValueType::Int16 => "Int16",
            ValueType::Int32 => "Int32",
            ValueType::Int64 => "Int64",
            ValueType::UInt8 => "UInt8",
            ValueType::UInt16 => "UInt16",
            ValueType::UInt32 => "UInt32",
            ValueType::UInt64 => "UInt64",
            ValueType::F32 => "F32",
            ValueType::F64 => "F64",
        }
    }
}

/// The type of a value.
pub open spec fn type_of(v: Value) -> ValueType {
    match v {
        Value::Null => ValueType::Null,
        Value::String(_) => ValueType::String,
        Value::Uuid(_) => ValueType::Uuid,
        Value::Bool(_) => ValueType::Bool,
        Value::Int8(_) => ValueType::Int8,
        Value::Int16(_) => ValueType::Int16,
        Value::Int32(_) => ValueType::Int32,
        Value::Int64(_) => ValueType::Int64,
        Value::UInt8(_) => ValueType::UInt8,
        Value::UInt16(_) => ValueType::UInt16,
        Value::UInt32(_) => ValueType::UInt32,
        Value::UInt64(_) => ValueType::UInt64,
        Value::F32(_) => ValueType::F32,
        Value::F64(_) => ValueType::F64,
    }
}

/// Whether the bits encode a single-precision value that is not a number.
pub open spec fn single_is_nan(bits: u32) -> bool {
    bits % 0x8000_0000 > 0x7f80_0000
}

/// Whether the bits encode a double-precision value that is not a number.
pub open spec fn double_is_nan(bits: u64) -> bool {
    bits % 0x8000_0000_0000_0000 > 0x7ff0_0000_0000_0000
}

/// The position of a single-precision number among all of them; both zeros have position 0.
pub open spec fn single_rank(bits: u32) -> int {
    if bits < 0x8000_0000 {
        bits as int
    } else {
        0x8000_0000 - bits
    }
}

/// The position of a double-precision number among all of them; both zeros have position 0.
pub open spec fn double_rank(bits: u64) -> int {
    if bits < 0x8000_0000_0000_0000 {
        bits as int
    } else {
        0x8000_0000_0000_0000 - bits
    }
}

/// Whether the value is a floating-point value that is not a number.
pub open spec fn is_nan(v: Value) -> bool {
    match v {
        Value::F32(bits) => single_is_nan(bits),
        Value::F64(bits) => double_is_nan(bits),
        _ => false,
    }
}

/// The position of a value among the values of its type, for every type but text.
pub open spec fn rank(v: Value) -> int {
    match v {
        Value::Null => 0,
        Value::String(_) => 0,
        Value::Uuid(x) => x as int,
        Value::Bool(x) => if x { 1 } else { 0 },
        Value::Int8(x) => x as int,
        Value::Int16(x) => x as int,
        Value::Int32(x) => x as int,
        Value::Int64(x) => x as int,
        Value::UInt8(x) => x as int,
        Value::UInt16(x) => x as int,
        Value::UInt32(x) => x as int,
        Value::UInt64(x) => x as int,
        Value::F32(bits) => single_rank(bits),
        Value::F64(bits) => double_rank(bits),
    }
}

/// Two values can be compared when they have one type and both are numbers if they are
/// floating-point values.
pub open spec fn comparable(a: Value, b: Value) -> bool {
    type_of(a) == type_of(b) && !is_nan(a) && !is_nan(b)
}

/// Whether `a` comes strictly before `b`; meaningful for comparable values.
pub open spec fn value_lt(a: Value, b: Value) -> bool {
    match (a, b) {
        (Value::String(l), Value::String(r)) => byte_order::text_less(l@, r@),
        _ => rank(a) < rank(b),
    }
}

/// Equality of values: one type, the same content, and for floating-point values the same number.
pub open spec fn value_eq(a: Value, b: Value) -> bool {
    &&& comparable(a, b)
    &&& match (a, b) {
        (Value::String(l), Value::String(r)) => l@ == r@,
        _ => rank(a) == rank(b),
    }
}

/// The order of two values, where they have one.
pub open spec fn value_order(a: Value, b: Value) -> Option<Ordering> {
    if !comparable(a, b) {
        None
    } else if value_lt(a, b) {
        Some(Ordering::Less)
    } else if value_lt(b, a) {
        Some(Ordering::Greater)
    } else {
        Some(Ordering::Equal)
    }
}

/// Whether `a op b` holds. A comparison of values that cannot be compared is false, except for
/// inequality, which is then true.
pub open spec fn fits(a: Value, b: Value, op: BinOp) -> bool {
    match op {
        BinOp::Gt => comparable(a, b) && value_lt(b, a),
        BinOp::GtEq => comparable(a, b) && !value_lt(a, b),
        BinOp::Lt => comparable(a, b) && value_lt(a, b),
        BinOp::LtEq => comparable(a, b) && !value_lt(b, a),
        BinOp::Eq => value_eq(a, b),
        BinOp::NotEq => !value_eq(a, b),
    }
}

/// Whether a value has a numeric reading.
pub open spec fn is_numeric(v: Value) -> bool {
    !(v is String || v is Null || v is Bool || v is Uuid)
}

/// The value by which equal values are found in one bucket: a number that is not a number and
/// both zeros have one representative each.
pub open spec fn canonical(v: Value) -> Value {
    match v {
        Value::F32(bits) => if single_is_nan(bits) {
            Value::F32(0x7fc0_0000)
        } else if single_rank(bits) == 0 {
            Value::F32(0)
        } else {
            v
        },
        Value::F64(bits) => if double_is_nan(bits) {
            Value::F64(0x7fc0_0000)
        } else if double_rank(bits) == 0 {
            Value::F64(0)
        } else {
            v
        },
        _ => v,
    }
}

/// A value never comes before itself.
pub proof fn lemma_value_lt_irreflexive(a: Value)
    ensures
        !value_lt(a, a),
{
    if let Value::String(s) = a {
        byte_order::lemma_text_less_irreflexive(s@);
    }
}

/// The order is transitive among values of one type.
pub proof fn lemma_value_lt_transitive(a: Value, b: Value, c: Value)
    requires
        type_of(a) == type_of(b),
        type_of(b) == type_of(c),
        value_lt(a, b),
        value_lt(b, c),
    ensures
        value_lt(a, c),
{
    if let Value::String(s) = a {
        byte_order::lemma_text_less_transitive(s@, b->String_0@, c->String_0@);
    }
}

/// Of two comparable values exactly one holds: the first comes before the second, they are equal,
/// or the second comes before the first.
pub proof fn lemma_value_trichotomy(a: Value, b: Value)
    requires
        comparable(a, b),
    ensures
        value_eq(a, b) == (!value_lt(a, b) && !value_lt(b, a)),
        !(value_lt(a, b) && value_lt(b, a)),
{
    match (a, b) {
        (Value::String(l), Value::String(r)) => {
            if !byte_order::text_less(l@, r@) && !byte_order::text_less(r@, l@) {
                byte_order::lemma_text_less_total(l@, r@);
            }
            byte_order::lemma_text_less_irreflexive(l@);
            if byte_order::text_less(l@, r@) && byte_order::text_less(r@, l@) {
                byte_order::lemma_text_less_transitive(l@, r@, l@);
            }
        },
        _ => {},
    }
}

/// An operator and its mirror image: `a op b` holds exactly when `b flip(op) a` does.
pub proof fn lemma_flip_swaps_operands(a: Value, b: Value, op: BinOp)
    ensures
        fits(a, b, op) == fits(b, a, op.flip_view()),
{
}

/// Equal values have one canonical value, so a hash of the canonical value agrees with equality.
pub proof fn lemma_equal_values_have_equal_canonicals(a: Value, b: Value)
    requires
        value_eq(a, b),
    ensures
        match (canonical(a), canonical(b)) {
            (Value::String(l), Value::String(r)) => l@ == r@,
            (x, y) => x == y,
        },
{
}

impl Default for Value {
    fn default() -> (r: Self)
        ensures
            r == Value::Null,
    {
        Value::Null
    }
}

impl Clone for Value {
    fn clone(&self) -> (r: Self)
        ensures
            r == *self,
    {
        match self {
            Value::Null => Value::Null,
            Value::String(x) => Value::String(x.clone()),
            Value::Uuid(x) => Value::Uuid(*x),
            Value::Bool(x) => Value::Bool(*x),
            Value::Int8(x) => Value::Int8(*x),
            Value::Int16(x) => Value::Int16(*x),
            Value::Int32(x) => Value::Int32(*x),
            Value::Int64(x) => Value::Int64(*x),
            Value::UInt8(x) => Value::UInt8(*x),
            Value::UInt16(x) => Value::UInt16(*x),
            Value::UInt32(x) => Value::UInt32(*x),
            Value::UInt64(x) => Value::UInt64(*x),
            Value::F32(x) => Value::F32(*x),
            Value::F64(x) => Value::F64(*x),
        }
    }
}

fn double_position(bits: u64) -> (r: i64)
    ensures
        r == double_rank(bits),
{
    if bits < 0x8000_0000_0000_0000 {
        bits as i64
    } else {
        -((bits - 0x8000_0000_0000_0000) as i64)
    }
}

fn single_position(bits: u32) -> (r: i64)
    ensures
        r == single_rank(bits),
{
    if bits < 0x8000_0000 {
        bits as i64
    } else {
        0x8000_0000i64 - bits as i64
    }
}

fn three_way_order(less: bool, equal: bool) -> (r: Ordering)
    ensures
        r == (if less {
            Ordering::Less
        } else if equal {
            Ordering::Equal
        } else {
            Ordering::Greater
        }),
{
    if less {
        Ordering::Less
    } else if equal {
        Ordering::Equal
    } else {
        Ordering::Greater
    }
}

impl PartialEq for Value {
    fn eq(&self, other: &Self) -> (r: bool) {
        match (self, other) {
            (Value::Null, Value::Null) => true,
            (Value::String(l), Value::String(r)) => *l == *r,
            (Value::Uuid(l), Value::Uuid(r)) => *l == *r,
            (Value::Bool(l), Value::Bool(r)) => *l == *r,
            (Value::Int8(l), Value::Int8(r)) => *l == *r,
            (Value::Int16(l), Value::Int16(r)) => *l == *r,
            (Value::Int32(l), Value::Int32(r)) => *l == *r,
            (Value::Int64(l), Value::Int64(r)) => *l == *r,
            (Value::UInt8(l), Value::UInt8(r)) => *l == *r,
            (Value::UInt16(l), Value::UInt16(r)) => *l == *r,
            (Value::UInt32(l), Value::UInt32(r)) => *l == *r,
            (Value::UInt64(l), Value::UInt64(r)) => *l == *r,
            (Value::F32(l), Value::F32(r)) => !self.is_not_a_number() && !other.is_not_a_number()
                && single_position(*l) == single_position(*r),
            (Value::F64(l), Value::F64(r)) => !self.is_not_a_number() && !other.is_not_a_number()
                && double_position(*l) == double_position(*r),
            _ => false,
        }
    }
}

impl vstd::std_specs::cmp::PartialEqSpecImpl for Value {
    open spec fn obeys_eq_spec() -> bool {
        true
    }

    open spec fn eq_spec(&self, other: &Self) -> bool {
        value_eq(*self, *other)
    }
}

impl PartialOrd for Value {
    fn partial_cmp(&self, other: &Self) -> (r: Option<Ordering>) {
        proof {
            if comparable(*self, *other) {
                lemma_value_trichotomy(*self, *other);
            }
        }
        match (self, other) {
            (Value::Null, Value::Null) => Some(Ordering::Equal),
            (Value::String(l), Value::String(r)) => Some(
                three_way_order(byte_order::text_before(l.as_str(), r.as_str()), *l == *r),
            ),
            (Value::Bool(l), Value::Bool(r)) => Some(three_way_order(!*l && *r, *l == *r)),
            (Value::Uuid(l), Value::Uuid(r)) => Some(three_way_order(*l < *r, *l == *r)),
            (Value::Int8(l), Value::Int8(r)) => Some(three_way_order(*l < *r, *l == *r)),
            (Value::Int16(l), Value::Int16(r)) => Some(three_way_order(*l < *r, *l == *r)),
            (Value::Int32(l), Value::Int32(r)) => Some(three_way_order(*l < *r, *l == *r)),
            (Value::Int64(l), Value::Int64(r)) => Some(three_way_order(*l < *r, *l == *r)),
            (Value::UInt8(l), Value::UInt8(r)) => Some(three_way_order(*l < *r, *l == *r)),
            (Value::UInt16(l), Value::UInt16(r)) => Some(three_way_order(*l < *r, *l == *r)),
            (Value::UInt32(l), Value::UInt32(r)) => Some(three_way_order(*l < *r, *l == *r)),
            (Value::UInt64(l), Value::UInt64(r)) => Some(three_way_order(*l < *r, *l == *r)),
            (Value::F32(l), Value::F32(r)) => {
                if self.is_not_a_number() || other.is_not_a_number() {
                    None
                } else {
                    let left: i64 = single_position(*l);
                    let right: i64 = single_position(*r);
                    Some(three_way_order(left < right, left == right))
                }
            },
            (Value::F64(l), Value::F64(r)) => {
                if self.is_not_a_number() || other.is_not_a_number() {
                    None
                } else {
                    let left: i64 = double_position(*l);
                    let right: i64 = double_position(*r);
                    Some(three_way_order(left < right, left == right))
                }
            },
            _ => None,
        }
    }
}

impl vstd::std_specs::cmp::PartialOrdSpecImpl for Value {
    open spec fn obeys_partial_cmp_spec() -> bool {
        true
    }

    open spec fn partial_cmp_spec(&self, other: &Self) -> Option<Ordering> {
        value_order(*self, *other)
    }
}

impl Value {
    /// Whether the value is a floating-point value that is not a number.
    pub fn is_not_a_number(&self) -> (r: bool)
        ensures
            r == is_nan(*self),
    {
        match self {
            Value::F32(bits) => *bits % 0x8000_0000 > 0x7f80_0000,
            Value::F64(bits) => *bits % 0x8000_0000_0000_0000 > 0x7ff0_0000_0000_0000,
            _ => false,
        }
    }

    /// Returns the `ValueType` corresponding to this value.
    pub fn get_type(&self) -> (r: ValueType)
        ensures
            r == type_of(*self),
    {
        match self {
            Value::Null => ValueType::Null,
            Value::String(_) => ValueType::String,
            Value::Uuid(_) => ValueType::Uuid,
            Value::Bool(_) => ValueType::Bool,
            Value::Int8(_) => ValueType::Int8,
            Value::Int16(_) => ValueType::Int16,
            Value::Int32(_) => ValueType::Int32,
            Value::Int64(_) => ValueType::Int64,
            Value::UInt8(_) => ValueType::UInt8,
            Value::UInt16(_) => ValueType::UInt16,
            Value::UInt32(_) => ValueType::UInt32,
            Value::UInt64(_) => ValueType::UInt64,
            Value::F32(_) => ValueType::F32,
            Value::F64(_) => ValueType::F64,
        }
    }

    /// Whether the value is the boolean `true`.
    pub fn is_true(&self) -> (r: bool)
        ensures
            r == (*self == Value::Bool(true)),
    {
        match self {
            Value::Bool(val) => *val,
            _ => false,
        }
    }

    /// Whether the value has a numeric reading.
    pub fn has_number(&self) -> (r: bool)
        ensures
            r == is_numeric(*self),
    {
        match self {
            Value::String(_) | Value::Null | Value::Bool(_) | Value::Uuid(_) => false,
            _ => true,
        }
    }

    /// Whether `self op val` holds.
    pub fn fits_op(&self, val: &Value, op: &BinOp) -> (r: bool)
        ensures
            r == fits(*self, *val, *op),
    {
        proof {
            if comparable(*self, *val) {
                lemma_value_trichotomy(*self, *val);
            }
        }
        match op {
            BinOp::Gt => *self > *val,
            BinOp::GtEq => *self >= *val,
            BinOp::Lt => *self < *val,
            BinOp::LtEq => *self <= *val,
            BinOp::Eq => *self == *val,
            BinOp::NotEq => !(*self == *val),
        }
    }

    /// The value by which equal values are found in one bucket.
    pub fn hash_key(&self) -> (r: Value)
        ensures
            r == canonical(*self),
    {
        match self {
            Value::F32(bits) => if self.is_not_a_number() {
                Value::F32(0x7fc0_0000)
            } else if single_position(*bits) == 0 {
                Value::F32(0)
            } else {
                self.clone()
            },
            Value::F64(bits) => if self.is_not_a_number() {
                Value::F64(0x7fc0_0000)
            } else if double_position(*bits) == 0 {
                Value::F64(0)
            } else {
                self.clone()
            },
            _ => self.clone(),
        }
    }
}

} // verus!
