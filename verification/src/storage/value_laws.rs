//! What it means that one value comes before another or equals it, said of what the values hold.
use vstd::prelude::*;
use vstd::utf8::*;

use crate::byte_order;
use crate::storage::value;
use crate::storage::value::Value;

verus! {

/// Whether a text comes before another: at the first byte in which they differ it has the smaller one, or
/// it ends there.
pub open spec fn text_precedes(a: Seq<char>, b: Seq<char>) -> bool {
    exists|k: int| #[trigger] parts_at(encode_utf8(a), encode_utf8(b), k)
}

/// Whether bytes agree with others up to a position, and come before them there.
pub open spec fn parts_at(a: Seq<u8>, b: Seq<u8>, k: int) -> bool {
    &&& 0 <= k <= a.len()
    &&& k < b.len()
    &&& forall|j: int| 0 <= j < k ==> #[trigger] a[j] == b[j]
    &&& k == a.len() || a[k] < b[k]
}

/// Whether the bits of a single-precision value encode a number: its exponent is not the largest, or it is
/// an infinity.
pub open spec fn is_single_number(x: u32) -> bool {
    x <= 0x7f80_0000 || 0x8000_0000 <= x <= 0xff80_0000
}

/// Whether the bits of a double-precision value encode a number: its exponent is not the largest, or it is
/// an infinity.
pub open spec fn is_double_number(x: u64) -> bool {
    x <= 0x7ff0_0000_0000_0000 || 0x8000_0000_0000_0000 <= x <= 0xfff0_0000_0000_0000
}

/// Whether a number comes before another, by their bits: the sign bit first, then the magnitude. The two
/// zeros are one number.
pub open spec fn bits_precede(x: int, y: int, sign: int) -> bool {
    if x < sign && y < sign {
        x < y
    } else if x >= sign && y >= sign {
        y < x
    } else {
        x >= sign && !(x == sign && y == 0)
    }
}

/// Whether two numbers are one, by their bits.
pub open spec fn bits_agree(x: int, y: int, sign: int) -> bool {
    x == y || (x == 0 && y == sign) || (x == sign && y == 0)
}

/// Whether a value comes before another of its type.
pub open spec fn comes_before(a: Value, b: Value) -> bool {
    match (a, b) {
        (Value::String(x), Value::String(y)) => text_precedes(x@, y@),
        (Value::Uuid(x), Value::Uuid(y)) => x < y,
        (Value::Bool(x), Value::Bool(y)) => !x && y,
        (Value::Int8(x), Value::Int8(y)) => x < y,
        (Value::Int16(x), Value::Int16(y)) => x < y,
        (Value::Int32(x), Value::Int32(y)) => x < y,
        (Value::Int64(x), Value::Int64(y)) => x < y,
        (Value::UInt8(x), Value::UInt8(y)) => x < y,
        (Value::UInt16(x), Value::UInt16(y)) => x < y,
        (Value::UInt32(x), Value::UInt32(y)) => x < y,
        (Value::UInt64(x), Value::UInt64(y)) => x < y,
        (Value::F32(x), Value::F32(y)) => is_single_number(x) && is_single_number(y) && bits_precede(
            x as int,
            y as int,
            0x8000_0000,
        ),
        (Value::F64(x), Value::F64(y)) => is_double_number(x) && is_double_number(y) && bits_precede(
            x as int,
            y as int,
            0x8000_0000_0000_0000,
        ),
        _ => false,
    }
}

/// Whether two values are of one type and hold the same.
pub open spec fn is_same(a: Value, b: Value) -> bool {
    match (a, b) {
        (Value::Null, Value::Null) => true,
        (Value::String(x), Value::String(y)) => x@ == y@,
        (Value::Uuid(x), Value::Uuid(y)) => x == y,
        (Value::Bool(x), Value::Bool(y)) => x == y,
        (Value::Int8(x), Value::Int8(y)) => x == y,
        (Value::Int16(x), Value::Int16(y)) => x == y,
        (Value::Int32(x), Value::Int32(y)) => x == y,
        (Value::Int64(x), Value::Int64(y)) => x == y,
        (Value::UInt8(x), Value::UInt8(y)) => x == y,
        (Value::UInt16(x), Value::UInt16(y)) => x == y,
        (Value::UInt32(x), Value::UInt32(y)) => x == y,
        (Value::UInt64(x), Value::UInt64(y)) => x == y,
        (Value::F32(x), Value::F32(y)) => is_single_number(x) && is_single_number(y) && bits_agree(
            x as int,
            y as int,
            0x8000_0000,
        ),
        (Value::F64(x), Value::F64(y)) => is_double_number(x) && is_double_number(y) && bits_agree(
            x as int,
            y as int,
            0x8000_0000_0000_0000,
        ),
        _ => false,
    }
}

proof fn lemma_bytes_part(a: Seq<u8>, b: Seq<u8>, i: int)
    requires
        0 <= i <= a.len(),
        i <= b.len(),
        forall|j: int| 0 <= j < i ==> #[trigger] a[j] == b[j],
    ensures
        byte_order::bytes_less(a, b, i) <==> exists|k: int| #[trigger] parts_at(a, b, k),
    decreases b.len() - i,
{
    if i < b.len() && i < a.len() && a[i] == b[i] {
        lemma_bytes_part(a, b, i + 1);
    } else if byte_order::bytes_less(a, b, i) {
        assert(parts_at(a, b, i));
    } else {
        assert forall|k: int| !#[trigger] parts_at(a, b, k) by {
            if parts_at(a, b, k) {
                if k > i {
                    assert(a[i] == b[i]);
                }
                assert(k < a.len() ==> a[k] < b[k]);
            }
        }
    }
}

proof fn lemma_text_parts(a: Seq<char>, b: Seq<char>)
    ensures
        byte_order::text_less(a, b) <==> text_precedes(a, b),
{
    lemma_bytes_part(encode_utf8(a), encode_utf8(b), 0);
}

/// The order among values is that of what they hold: of integers as numbers, of texts by their first
/// difference, of floating-point values by sign and magnitude. Two values are equal when they hold the
/// same, and they can be compared when they are equal or one comes before the other.
pub proof fn lemma_values_are_ordered_by_what_they_hold(a: Value, b: Value)
    ensures
        value::comparable(a, b) && value::value_lt(a, b) <==> comes_before(a, b),
        value::value_eq(a, b) <==> is_same(a, b),
        value::comparable(a, b) <==> comes_before(a, b) || is_same(a, b) || comes_before(b, a),
{
    if let (Value::String(x), Value::String(y)) = (a, b) {
        lemma_text_parts(x@, y@);
        lemma_text_parts(y@, x@);
        if !text_precedes(x@, y@) && !text_precedes(y@, x@) {
            byte_order::lemma_text_less_total(x@, y@);
        }
    }
}

/// Values are hashed alike exactly where they are the same, texts by what they hold. Floating-point values that are no
/// numbers are left out: such a value is not even the same as itself.
pub proof fn lemma_same_values_are_hashed_alike(a: Value, b: Value)
    requires
        !value::is_nan(a),
        !value::is_nan(b),
    ensures
        value::canonical(a) == value::canonical(b) ==> value::value_eq(a, b),
        value::value_eq(a, b) && !(a is String) ==> value::canonical(a) == value::canonical(b),
{
    if value::value_eq(a, b) {
        value::lemma_equal_values_have_equal_canonicals(a, b);
    }
}

} // verus!
