//! What value a literal stands for, said of the text that is written.
use vstd::prelude::*;

use crate::error::ErrorView;
use crate::integer_text;
use crate::integer_text::IntegerFault;
use crate::search;
use crate::sql::ast::{DataType, Literal, SqlValue};
use crate::storage::literal;
use crate::storage::numbers;
use crate::storage::numbers::NumberReading;
use crate::storage::value::{Value, ValueType};

verus! {

/// The number that decimal digits stand for, the last one counting the units.
pub open spec fn digits_value(s: Seq<char>) -> int
    decreases s.len(),
{
    if s.len() == 0 {
        0
    } else {
        10 * digits_value(s.drop_last()) + (s.last() as int - '0' as int)
    }
}

/// Whether a text is one digit or more, and nothing else.
pub open spec fn all_digits(s: Seq<char>) -> bool {
    s.len() > 0 && forall|i: int| 0 <= i < s.len() ==> '0' <= #[trigger] s[i] <= '9'
}

/// Whether a text writes an integer: in digits, behind a sign or none.
pub open spec fn is_decimal(s: Seq<char>, n: int) -> bool {
    ||| all_digits(s) && n == digits_value(s)
    ||| s.len() > 0 && s[0] == '+' && all_digits(s.skip(1)) && n == digits_value(s.skip(1))
    ||| s.len() > 0 && s[0] == '-' && all_digits(s.skip(1)) && n == -digits_value(s.skip(1))
}

proof fn lemma_digits_grow(s: Seq<char>, k: int)
    requires
        forall|i: int| 0 <= i < s.len() ==> '0' <= #[trigger] s[i] <= '9',
        0 <= k <= s.len(),
    ensures
        0 <= digits_value(s.take(k)) <= digits_value(s),
    decreases s.len(),
{
    if s.len() > 0 {
        let rest = s.drop_last();
        assert(forall|i: int| 0 <= i < rest.len() ==> #[trigger] rest[i] == s[i]);
        assert('0' <= s[s.len() - 1] <= '9');
        lemma_digits_grow(rest, 0);
        if k < s.len() {
            lemma_digits_grow(rest, k);
            assert(rest.take(k) =~= s.take(k));
        } else {
            assert(s.take(k) =~= s);
        }
    } else {
        assert(s.take(k) =~= s);
    }
}

/// Reading digits one by one gives the number that they stand for, where it lies in the range.
proof fn lemma_scan(s: Seq<char>, start: int, i: int, acc: int, negative: bool, lo: int, hi: int)
    requires
        0 <= start <= i <= s.len(),
        lo <= 0 <= hi,
        lo <= acc <= hi,
        forall|j: int| start <= j < i ==> '0' <= #[trigger] s[j] <= '9',
        acc == (if negative {
            -digits_value(s.subrange(start, i))
        } else {
            digits_value(s.subrange(start, i))
        }),
    ensures
        ({
            let digits = s.skip(start);
            let n = if negative {
                -digits_value(digits)
            } else {
                digits_value(digits)
            };
            &&& integer_text::scan_digits(s, i, acc, negative, lo, hi) matches Ok(v) ==> v == n && lo <= n <= hi
                && forall|j: int| start <= j < s.len() ==> '0' <= #[trigger] s[j] <= '9'
            &&& lo <= n <= hi && (forall|j: int| start <= j < s.len() ==> '0' <= #[trigger] s[j] <= '9')
                ==> integer_text::scan_digits(s, i, acc, negative, lo, hi) is Ok
        }),
    decreases s.len() - i,
{
    let digits = s.skip(start);
    if i >= s.len() {
        assert(s.subrange(start, i) =~= digits);
    } else if integer_text::is_digit(s[i]) {
        let next = if negative {
            acc * 10 - integer_text::digit_value(s[i])
        } else {
            acc * 10 + integer_text::digit_value(s[i])
        };
        let part = s.subrange(start, i + 1);
        assert(part.drop_last() =~= s.subrange(start, i));
        assert(part.last() == s[i]);
        if lo <= next <= hi {
            lemma_scan(s, start, i + 1, next, negative, lo, hi);
        } else if forall|j: int| start <= j < s.len() ==> '0' <= #[trigger] s[j] <= '9' {
            assert(forall|k: int| 0 <= k < digits.len() ==> #[trigger] digits[k] == s[start + k]);
            lemma_digits_grow(digits, i + 1 - start);
            assert(digits.take(i + 1 - start) =~= part);
        }
    }
}

/// The text of a number is read as an integer of a range exactly where it writes one that lies in it, and
/// as that one. A minus sign stands only where the range holds negative numbers.
pub proof fn lemma_integer_is_the_one_written(s: Seq<char>, lo: int, hi: int)
    requires
        lo <= 0 <= hi,
    ensures
        integer_text::integer_of(s, lo, hi) matches Ok(n) ==> is_decimal(s, n) && lo <= n <= hi && (s[0] == '-'
            ==> lo < 0),
        forall|n: int|
            #[trigger] is_decimal(s, n) && lo <= n <= hi && (s[0] == '-' ==> lo < 0)
                ==> integer_text::integer_of(s, lo, hi) == Ok::<int, IntegerFault>(n),
{
    if s.len() > 0 {
        assert(s.subrange(0, 0) =~= Seq::<char>::empty());
        assert(s.skip(0) =~= s);
        lemma_scan(s, 0, 0, 0, false, lo, hi);
        assert(s.subrange(1, 1) =~= Seq::<char>::empty());
        let rest = s.skip(1);
        assert(forall|k: int| 0 <= k < rest.len() ==> #[trigger] rest[k] == s[k + 1]);
        assert(forall|j: int| 1 <= j < s.len() ==> #[trigger] s[j] == rest[j - 1]);
        lemma_scan(s, 1, 1, 0, false, lo, hi);
        lemma_scan(s, 1, 1, 0, true, lo, hi);
    }
}

/// Whether a reading is the first of a text.
pub open spec fn is_reading_of(readings: Seq<NumberReading>, i: int, s: Seq<char>) -> bool {
    &&& 0 <= i < readings.len()
    &&& readings[i].text@ == s
    &&& forall|j: int| 0 <= j < i ==> (#[trigger] readings[j]).text@ != s
}

/// Whether a value of a type is the one that a number writes: an integer of the type's range, or the
/// floating-point number that the text is read as.
pub open spec fn is_number_of(s: Seq<char>, t: ValueType, readings: Seq<NumberReading>, v: Value) -> bool {
    match (t, v) {
        (ValueType::Int8, Value::Int8(x)) => is_decimal(s, x as int),
        (ValueType::Int16, Value::Int16(x)) => is_decimal(s, x as int),
        (ValueType::Int32, Value::Int32(x)) => is_decimal(s, x as int),
        (ValueType::Int64, Value::Int64(x)) => is_decimal(s, x as int),
        (ValueType::UInt8, Value::UInt8(x)) => is_decimal(s, x as int) && s[0] != '-',
        (ValueType::UInt16, Value::UInt16(x)) => is_decimal(s, x as int) && s[0] != '-',
        (ValueType::UInt32, Value::UInt32(x)) => is_decimal(s, x as int) && s[0] != '-',
        (ValueType::UInt64, Value::UInt64(x)) => is_decimal(s, x as int) && s[0] != '-',
        (ValueType::F32, Value::F32(bits)) => exists|i: int| #[trigger]
            is_reading_of(readings, i, s) && readings[i].single == Ok::<u32, String>(bits),
        (ValueType::F64, Value::F64(bits)) => exists|i: int| #[trigger]
            is_reading_of(readings, i, s) && readings[i].double == Ok::<u64, String>(bits),
        _ => false,
    }
}

/// The text of a literal in quotes.
pub open spec fn quoted(v: SqlValue) -> Option<String> {
    match v {
        SqlValue::SingleQuotedString(s) => Some(s),
        SqlValue::TripleSingleQuotedString(s) => Some(s),
        SqlValue::TripleDoubleQuotedString(s) => Some(s),
        _ => None,
    }
}

/// Whether a value is what a literal stands for as a value of a type: NULL of any type, a text or the
/// identifier that it writes, the number that is written, a boolean.
pub open spec fn is_literal_of(lit: Literal, t: ValueType, readings: Seq<NumberReading>, v: Value) -> bool {
    match lit.value {
        SqlValue::Null => v is Null,
        SqlValue::Boolean(b) => t == ValueType::Bool && v == Value::Bool(b),
        SqlValue::Number(number, _) => is_number_of(number@, t, readings, v),
        _ => quoted(lit.value) is Some && match (t, v) {
            (ValueType::String, Value::String(s)) => s@ == quoted(lit.value)->Some_0@,
            (ValueType::Uuid, Value::Uuid(bits)) => literal::parsed_uuid(quoted(lit.value)->Some_0@) == Ok::<
                u128,
                Seq<char>,
            >(bits),
            _ => false,
        },
    }
}

/// Whether a value is what a literal stands for on its own: a number is then a double-precision one.
pub open spec fn is_plain_literal(lit: Literal, readings: Seq<NumberReading>, v: Value) -> bool {
    match lit.value {
        SqlValue::Null => v is Null,
        SqlValue::Boolean(b) => v == Value::Bool(b),
        SqlValue::Number(number, _) => is_number_of(number@, ValueType::F64, readings, v),
        _ => quoted(lit.value) is Some && v is String && v->String_0@ == quoted(lit.value)->Some_0@,
    }
}

proof fn lemma_readings(readings: Seq<NumberReading>, s: Seq<char>)
    ensures
        numbers::single_of(readings, s) matches Ok(bits) ==> is_number_of(
            s,
            ValueType::F32,
            readings,
            Value::F32(bits),
        ),
        numbers::double_of(readings, s) matches Ok(bits) ==> is_number_of(
            s,
            ValueType::F64,
            readings,
            Value::F64(bits),
        ),
        forall|v: Value| #[trigger]
            is_number_of(s, ValueType::F32, readings, v) ==> numbers::single_of(readings, s) is Ok,
        forall|v: Value| #[trigger]
            is_number_of(s, ValueType::F64, readings, v) ==> numbers::double_of(readings, s) is Ok,
{
    let f = numbers::reads(s);
    search::lemma_position(readings, f);
    match search::position(readings, f) {
        Some(k) => {
            assert(f(readings[k]));
            assert forall|j: int| 0 <= j < k implies (#[trigger] readings[j]).text@ != s by {
                assert(!f(readings[j]));
            }
            assert(is_reading_of(readings, k, s));
            assert forall|i: int| #[trigger] is_reading_of(readings, i, s) implies i == k by {
                assert(f(readings[i]));
                if k < i {
                    assert(readings[k].text@ != s);
                }
            }
        },
        None => {
            assert forall|i: int| !#[trigger] is_reading_of(readings, i, s) by {
                if is_reading_of(readings, i, s) {
                    assert(!f(readings[i]));
                }
            }
        },
    }
}

/// The text of a number is read as a value of a type exactly where it writes one of that type, and as that
/// one.
pub proof fn lemma_number_is_the_one_written(s: Seq<char>, t: ValueType, readings: Seq<NumberReading>)
    ensures
        literal::number_value(s, t, readings) matches Ok(v) ==> is_number_of(s, t, readings, v),
        forall|v: Value| #[trigger]
            is_number_of(s, t, readings, v) ==> literal::number_value(s, t, readings) == Ok::<Value, ErrorView>(v),
{
    lemma_readings(readings, s);
    lemma_integer_is_the_one_written(s, -128, 127);
    lemma_integer_is_the_one_written(s, -32768, 32767);
    lemma_integer_is_the_one_written(s, -2147483648, 2147483647);
    lemma_integer_is_the_one_written(s, -0x8000_0000_0000_0000, 0x7fff_ffff_ffff_ffff);
    lemma_integer_is_the_one_written(s, 0, 255);
    lemma_integer_is_the_one_written(s, 0, 65535);
    lemma_integer_is_the_one_written(s, 0, 4294967295);
    lemma_integer_is_the_one_written(s, 0, 0xffff_ffff_ffff_ffff);
    assert forall|v: Value| #[trigger] is_number_of(s, t, readings, v) implies literal::number_value(
        s,
        t,
        readings,
    ) == Ok::<Value, ErrorView>(v) by {
        if let Ok(w) = literal::number_value(s, t, readings) {
            if let (Value::F32(x), Value::F32(y)) = (v, w) {
                lemma_one_reading(readings, s);
            }
            if let (Value::F64(x), Value::F64(y)) = (v, w) {
                lemma_one_reading(readings, s);
            }
        }
    }
}

proof fn lemma_one_reading(readings: Seq<NumberReading>, s: Seq<char>)
    ensures
        forall|i: int, j: int| #[trigger]
            is_reading_of(readings, i, s) && #[trigger] is_reading_of(readings, j, s) ==> i == j,
{
    assert forall|i: int, j: int| #[trigger]
        is_reading_of(readings, i, s) && #[trigger] is_reading_of(readings, j, s) implies i == j by {
        if i < j {
            assert(readings[i].text@ != s);
        }
        if j < i {
            assert(readings[j].text@ != s);
        }
    }
}

/// A literal is read as a value of a type exactly where it stands for one, and as that one.
pub proof fn lemma_literal_is_what_it_stands_for(lit: Literal, t: ValueType, readings: Seq<NumberReading>)
    ensures
        literal::typed_value(lit, t, readings) matches Ok(v) ==> is_literal_of(lit, t, readings, v),
        forall|v: Value| #[trigger]
            is_literal_of(lit, t, readings, v) ==> literal::typed_value(lit, t, readings) is Ok,
{
    if let SqlValue::Number(number, _) = lit.value {
        lemma_number_is_the_one_written(number@, t, readings);
    }
}

/// A literal is read on its own exactly where it stands for a value, and as that one.
pub proof fn lemma_plain_literal_is_what_it_stands_for(lit: Literal, readings: Seq<NumberReading>)
    ensures
        literal::untyped_value(lit, readings) matches Ok(v) ==> is_plain_literal(lit, readings, v),
        forall|v: Value| #[trigger]
            is_plain_literal(lit, readings, v) ==> literal::untyped_value(lit, readings) is Ok,
{
    if let SqlValue::Number(number, _) = lit.value {
        lemma_readings(readings, number@);
    }
}

/// A column holds integers of exactly the range that its declared type names: the signed types of
/// `8`, `16`, `32` and `64` bits, and the unsigned ones.
pub proof fn lemma_declared_type_holds_its_range(d: DataType, s: Seq<char>, n: int, readings: Seq<NumberReading>)
    requires
        is_decimal(s, n),
        s[0] == '-' ==> n < 0,
    ensures
        ({
            let accepted = literal::declared_type(d) is Ok && literal::number_value(
                s,
                literal::declared_type(d)->Ok_0,
                readings,
            ) is Ok;
            match d {
                DataType::Int8 => accepted <==> -0x80 <= n <= 0x7f,
                DataType::Int16 => accepted <==> -0x8000 <= n <= 0x7fff,
                DataType::Int32 => accepted <==> -0x8000_0000 <= n <= 0x7fff_ffff,
                DataType::Int64 => accepted <==> -0x8000_0000_0000_0000 <= n <= 0x7fff_ffff_ffff_ffff,
                DataType::UInt8 => accepted <==> 0 <= n <= 0xff,
                DataType::UInt16 => accepted <==> 0 <= n <= 0xffff,
                DataType::UInt32 => accepted <==> 0 <= n <= 0xffff_ffff,
                DataType::UInt64 => accepted <==> 0 <= n <= 0xffff_ffff_ffff_ffff,
                DataType::Float32 => accepted <==> exists|v: Value| #[trigger]
                    is_number_of(s, ValueType::F32, readings, v),
                DataType::Float64 => accepted <==> exists|v: Value| #[trigger]
                    is_number_of(s, ValueType::F64, readings, v),
                _ => !accepted,
            }
        }),
{
    lemma_readings(readings, s);
    lemma_integer_is_the_one_written(s, -128, 127);
    lemma_integer_is_the_one_written(s, -32768, 32767);
    lemma_integer_is_the_one_written(s, -2147483648, 2147483647);
    lemma_integer_is_the_one_written(s, -0x8000_0000_0000_0000, 0x7fff_ffff_ffff_ffff);
    lemma_integer_is_the_one_written(s, 0, 255);
    lemma_integer_is_the_one_written(s, 0, 65535);
    lemma_integer_is_the_one_written(s, 0, 4294967295);
    lemma_integer_is_the_one_written(s, 0, 0xffff_ffff_ffff_ffff);
    lemma_one_number(s);
}

/// A text writes one integer at most.
proof fn lemma_one_number(s: Seq<char>)
    ensures
        forall|n: int, m: int| #[trigger] is_decimal(s, n) && #[trigger] is_decimal(s, m) ==> n == m,
{
}

/// A column that is declared for text takes any quoted text as it is, one that is declared for booleans
/// takes booleans.
pub proof fn lemma_declared_text_and_boolean(lit: Literal, readings: Seq<NumberReading>)
    ensures
        literal::declared_type(DataType::String) is Ok,
        literal::declared_type(DataType::Uuid) is Ok,
        literal::declared_type(DataType::Bool) is Ok,
        quoted(lit.value) is Some ==> {
            let v = literal::typed_value(lit, literal::declared_type(DataType::String)->Ok_0, readings);
            v is Ok && v->Ok_0 is String && v->Ok_0->String_0@ == quoted(lit.value)->Some_0@
        },
        quoted(lit.value) is Some && literal::parsed_uuid(quoted(lit.value)->Some_0@) is Ok
            ==> literal::typed_value(lit, literal::declared_type(DataType::Uuid)->Ok_0, readings) == Ok::<
            Value,
            ErrorView,
        >(Value::Uuid(literal::parsed_uuid(quoted(lit.value)->Some_0@)->Ok_0)),
        lit.value is Boolean ==> literal::typed_value(
            lit,
            literal::declared_type(DataType::Bool)->Ok_0,
            readings,
        ) == Ok::<Value, ErrorView>(Value::Bool(lit.value->Boolean_0)),
{
}

} // verus!
