//! Values from literals.
use vstd::prelude::*;
use vstd::string::*;

use crate::error::{Error, ErrorView, Outcome};
use crate::error;
use crate::integer_text;
use crate::integer_text::parse_integer;
use crate::sql::ast::{DataType, Literal, SqlValue};
use crate::storage::numbers;
use crate::storage::numbers::{NumberReading, Numbers};
use crate::storage::value::{Value, ValueType};
use crate::text::{concat2, concat4};

verus! {

/// What `uuid::Uuid::parse_str` makes of a text: the 128 bits of the identifier, most significant
/// byte first, or the text of its error.
pub uninterp spec fn parsed_uuid(text: Seq<char>) -> Result<u128, Seq<char>>;

/// Calls `uuid::Uuid::parse_str`. The result is a function of the text alone, which `parsed_uuid`
/// names: the bits of the identifier, or the text of the error.
#[verifier::external_body]
pub(crate) fn parse_uuid(text: &str) -> (r: Result<u128, String>)
    ensures
        numbers::reading_view(r) == parsed_uuid(text@),
{
    match uuid::Uuid::parse_str(text) {
        Ok(id) => Ok(id.as_u128()),
        Err(error) => Err(error.to_string()),
    }
}

/// The error for a number that cannot be read.
pub open spec fn number_error(number: Seq<char>, reason: Seq<char>) -> ErrorView {
    ErrorView::InvalidSource("Could not parse number ("@ + number + "): "@ + reason)
}

/// The value of a given type that a number stands for.
pub open spec fn number_value(
    number: Seq<char>,
    t: ValueType,
    readings: Seq<NumberReading>,
) -> Result<Value, ErrorView> {
    match t {
        ValueType::Int8 => match integer_text::integer_of(number, -128, 127) {
            Ok(v) => Ok(Value::Int8(v as i8)),
            Err(e) => Err(number_error(number, e.text_view())),
        },
        ValueType::Int16 => match integer_text::integer_of(number, -32768, 32767) {
            Ok(v) => Ok(Value::Int16(v as i16)),
            Err(e) => Err(number_error(number, e.text_view())),
        },
        ValueType::Int32 => match integer_text::integer_of(number, -2147483648, 2147483647) {
            Ok(v) => Ok(Value::Int32(v as i32)),
            Err(e) => Err(number_error(number, e.text_view())),
        },
        ValueType::Int64 => match integer_text::integer_of(number, -0x8000_0000_0000_0000, 0x7fff_ffff_ffff_ffff) {
            Ok(v) => Ok(Value::Int64(v as i64)),
            Err(e) => Err(number_error(number, e.text_view())),
        },
        ValueType::UInt8 => match integer_text::integer_of(number, 0, 255) {
            Ok(v) => Ok(Value::UInt8(v as u8)),
            Err(e) => Err(number_error(number, e.text_view())),
        },
        ValueType::UInt16 => match integer_text::integer_of(number, 0, 65535) {
            Ok(v) => Ok(Value::UInt16(v as u16)),
            Err(e) => Err(number_error(number, e.text_view())),
        },
        ValueType::UInt32 => match integer_text::integer_of(number, 0, 4294967295) {
            Ok(v) => Ok(Value::UInt32(v as u32)),
            Err(e) => Err(number_error(number, e.text_view())),
        },
        ValueType::UInt64 => match integer_text::integer_of(number, 0, 0xffff_ffff_ffff_ffff) {
            Ok(v) => Ok(Value::UInt64(v as u64)),
            Err(e) => Err(number_error(number, e.text_view())),
        },
        ValueType::F32 => match numbers::single_of(readings, number) {
            Ok(bits) => Ok(Value::F32(bits)),
            Err(e) => Err(number_error(number, e)),
        },
        ValueType::F64 => match numbers::double_of(readings, number) {
            Ok(bits) => Ok(Value::F64(bits)),
            Err(e) => Err(number_error(number, e)),
        },
        _ => Err(ErrorView::UnsupportedColumnType("Cannot convert number to "@ + t.name_view())),
    }
}

/// The value of a given type that a text stands for.
pub open spec fn text_value(text: String, t: ValueType) -> Result<Value, ErrorView> {
    if t == ValueType::String {
        Ok(Value::String(text))
    } else if t == ValueType::Uuid {
        match parsed_uuid(text@) {
            Ok(bits) => Ok(Value::Uuid(bits)),
            Err(e) => Err(ErrorView::InvalidSource("Could not parse uuid: "@ + e)),
        }
    } else {
        Err(
            ErrorView::InvalidSource(
                "Could not convert "@ + text@ + " to "@ + t.name_view(),
            ),
        )
    }
}

/// The value of a given type that a literal stands for.
pub open spec fn typed_value(
    literal: Literal,
    t: ValueType,
    readings: Seq<NumberReading>,
) -> Result<Value, ErrorView> {
    match literal.value {
        SqlValue::Null => Ok(Value::Null),
        SqlValue::SingleQuotedString(s) => text_value(s, t),
        SqlValue::TripleSingleQuotedString(s) => text_value(s, t),
        SqlValue::TripleDoubleQuotedString(s) => text_value(s, t),
        SqlValue::Number(number, _) => number_value(number@, t, readings),
        SqlValue::Boolean(b) => if t == ValueType::Bool {
            Ok(Value::Bool(b))
        } else {
            Err(
                ErrorView::InvalidSource("Could not convert boolean value to "@ + t.name_view()),
            )
        },
        SqlValue::Placeholder(_) => Err(
            ErrorView::UnsupportedColumnType("Plan to add placeholder support"@),
        ),
        SqlValue::Other => Err(ErrorView::UnsupportedColumnType(literal.rendered@)),
    }
}

/// The value that a literal stands for on its own. A number stands for a double-precision one.
pub open spec fn untyped_value(literal: Literal, readings: Seq<NumberReading>) -> Result<Value, ErrorView> {
    match literal.value {
        SqlValue::Null => Ok(Value::Null),
        SqlValue::SingleQuotedString(s) => Ok(Value::String(s)),
        SqlValue::TripleSingleQuotedString(s) => Ok(Value::String(s)),
        SqlValue::TripleDoubleQuotedString(s) => Ok(Value::String(s)),
        SqlValue::Number(number, _) => match numbers::double_of(readings, number@) {
            Ok(bits) => Ok(Value::F64(bits)),
            Err(e) => Err(
                ErrorView::InvalidSource(
                    "Failed to parse number as Float64 ("@ + number@ + "): "@ + e,
                ),
            ),
        },
        SqlValue::Boolean(b) => Ok(Value::Bool(b)),
        _ => Err(ErrorView::InvalidSource("Unsupported SQL value type: "@ + literal.debug@)),
    }
}

/// The type that a declaration stands for.
pub open spec fn declared_type(t: DataType) -> Result<ValueType, ErrorView> {
    match t {
        DataType::String => Ok(ValueType::String),
        DataType::Uuid => Ok(ValueType::Uuid),
        DataType::Bool => Ok(ValueType::Bool),
        DataType::Int8 => Ok(ValueType::Int8),
        DataType::Int16 => Ok(ValueType::Int16),
        DataType::Int32 => Ok(ValueType::Int32),
        DataType::Int64 => Ok(ValueType::Int64),
        DataType::UInt8 => Ok(ValueType::UInt8),
        DataType::UInt16 => Ok(ValueType::UInt16),
        DataType::UInt32 => Ok(ValueType::UInt32),
        DataType::UInt64 => Ok(ValueType::UInt64),
        DataType::Float32 => Ok(ValueType::F32),
        DataType::Float64 => Ok(ValueType::F64),
        DataType::Other(text) => Err(ErrorView::UnsupportedColumnType(text@)),
    }
}

fn number_fault(number: &str, reason: &str) -> (r: Error)
    ensures
        r@ == number_error(number@, reason@),
{
    Error::InvalidSource(concat4("Could not parse number (", number, "): ", reason))
}

pub(crate) fn value_from_number(number: &str, value_type: &ValueType, numbers: &Numbers) -> (r: Outcome<Value>)
    ensures
        error::outcome(r) == number_value(number@, *value_type, numbers.readings@),
{
    match value_type {
        ValueType::Int8 => match parse_integer(number, -128, 127) {
            Ok(v) => Ok(Value::Int8(v as i8)),
            Err(e) => Err(number_fault(number, e.text())),
        },
        ValueType::Int16 => match parse_integer(number, -32768, 32767) {
            Ok(v) => Ok(Value::Int16(v as i16)),
            Err(e) => Err(number_fault(number, e.text())),
        },
        ValueType::Int32 => match parse_integer(number, -2147483648, 2147483647) {
            Ok(v) => Ok(Value::Int32(v as i32)),
            Err(e) => Err(number_fault(number, e.text())),
        },
        ValueType::Int64 => match parse_integer(number, -0x8000_0000_0000_0000, 0x7fff_ffff_ffff_ffff) {
            Ok(v) => Ok(Value::Int64(v as i64)),
            Err(e) => Err(number_fault(number, e.text())),
        },
        ValueType::UInt8 => match parse_integer(number, 0, 255) {
            Ok(v) => Ok(Value::UInt8(v as u8)),
            Err(e) => Err(number_fault(number, e.text())),
        },
        ValueType::UInt16 => match parse_integer(number, 0, 65535) {
            Ok(v) => Ok(Value::UInt16(v as u16)),
            Err(e) => Err(number_fault(number, e.text())),
        },
        ValueType::UInt32 => match parse_integer(number, 0, 4294967295) {
            Ok(v) => Ok(Value::UInt32(v as u32)),
            Err(e) => Err(number_fault(number, e.text())),
        },
        ValueType::UInt64 => match parse_integer(number, 0, 0xffff_ffff_ffff_ffff) {
            Ok(v) => Ok(Value::UInt64(v as u64)),
            Err(e) => Err(number_fault(number, e.text())),
        },
        ValueType::F32 => match numbers.single(number) {
            Ok(bits) => Ok(Value::F32(bits)),
            Err(e) => Err(number_fault(number, e.as_str())),
        },
        ValueType::F64 => match numbers.double(number) {
            Ok(bits) => Ok(Value::F64(bits)),
            Err(e) => Err(number_fault(number, e.as_str())),
        },
        _ => Err(
            Error::UnsupportedColumnType(concat2("Cannot convert number to ", value_type.name())),
        ),
    }
}

fn value_from_text(text: String, value_type: &ValueType) -> (r: Outcome<Value>)
    ensures
        error::outcome(r) == text_value(text, *value_type),
{
    if *value_type == ValueType::String {
        Ok(Value::String(text))
    } else if *value_type == ValueType::Uuid {
        match parse_uuid(text.as_str()) {
            Ok(bits) => Ok(Value::Uuid(bits)),
            Err(e) => Err(Error::InvalidSource(concat2("Could not parse uuid: ", e.as_str()))),
        }
    } else {
        Err(
            Error::InvalidSource(
                concat4("Could not convert ", text.as_str(), " to ", value_type.name()),
            ),
        )
    }
}

impl Value {
    /// The value of a given type that a literal stands for.
    ///
    /// Returns:
    ///   * Ok: the value; NULL has every type.
    ///   * Error when:
    ///     1. A text, a number or a boolean cannot be read as the type: `InvalidSource`.
    ///     2. A number is given for a type that is not numeric: `UnsupportedColumnType`.
    ///     3. The literal is a placeholder or of any other form: `UnsupportedColumnType`.
    pub fn try_from(literal: Literal, value_type: &ValueType, numbers: &Numbers) -> (r: Outcome<Self>)
        ensures
            error::outcome(r) == typed_value(literal, *value_type, numbers.readings@),
    {
        match literal.value {
            SqlValue::Null => Ok(Value::Null),
            SqlValue::SingleQuotedString(s) => value_from_text(s, value_type),
            SqlValue::TripleSingleQuotedString(s) => value_from_text(s, value_type),
            SqlValue::TripleDoubleQuotedString(s) => value_from_text(s, value_type),
            SqlValue::Number(number, _) => value_from_number(number.as_str(), value_type, numbers),
            SqlValue::Boolean(b) => if *value_type == ValueType::Bool {
                Ok(Value::Bool(b))
            } else {
                Err(
                    Error::InvalidSource(
                        concat2("Could not convert boolean value to ", value_type.name()),
                    ),
                )
            },
            SqlValue::Placeholder(_) => Err(
                Error::UnsupportedColumnType("Plan to add placeholder support".to_owned()),
            ),
            SqlValue::Other => Err(Error::UnsupportedColumnType(literal.rendered)),
        }
    }

    /// The value that a literal stands for on its own.
    pub fn try_from_untyped(literal: Literal, numbers: &Numbers) -> (r: Outcome<Self>)
        ensures
            error::outcome(r) == untyped_value(literal, numbers.readings@),
    {
        match literal.value {
            SqlValue::Null => Ok(Value::Null),
            SqlValue::SingleQuotedString(s) => Ok(Value::String(s)),
            SqlValue::TripleSingleQuotedString(s) => Ok(Value::String(s)),
            SqlValue::TripleDoubleQuotedString(s) => Ok(Value::String(s)),
            SqlValue::Number(number, _) => match numbers.double(number.as_str()) {
                Ok(bits) => Ok(Value::F64(bits)),
                Err(e) => Err(
                    Error::InvalidSource(
                        concat4(
                            "Failed to parse number as Float64 (",
                            number.as_str(),
                            "): ",
                            e.as_str(),
                        ),
                    ),
                ),
            },
            SqlValue::Boolean(b) => Ok(Value::Bool(b)),
            _ => Err(
                Error::InvalidSource(
                    concat2("Unsupported SQL value type: ", literal.debug.as_str()),
                ),
            ),
        }
    }
}

impl ValueType {
    /// The type that a declaration stands for.
    pub fn try_from(value: &DataType) -> (r: Outcome<Self>)
        ensures
            error::outcome(r) == declared_type(*value),
    {
        match value {
            DataType::String => Ok(ValueType::String),
            DataType::Uuid => Ok(ValueType::Uuid),
            DataType::Bool => Ok(ValueType::Bool),
            DataType::Int8 => Ok(ValueType::Int8),
            DataType::Int16 => Ok(ValueType::Int16),
            DataType::Int32 => Ok(ValueType::Int32),
            DataType::Int64 => Ok(ValueType::Int64),
            DataType::UInt8 => Ok(ValueType::UInt8),
            DataType::UInt16 => Ok(ValueType::UInt16),
            DataType::UInt32 => Ok(ValueType::UInt32),
            DataType::UInt64 => Ok(ValueType::UInt64),
            DataType::Float32 => Ok(ValueType::F32),
            DataType::Float64 => Ok(ValueType::F64),
            DataType::Other(text) => Err(Error::UnsupportedColumnType(text.clone())),
        }
    }
}

} // verus!
