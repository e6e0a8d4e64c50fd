//! How projections and what they consist of are shown in messages.
use vstd::prelude::*;
use vstd::string::*;

use crate::sql::logical_plan::plan::{AggregateFunction, AggregateProjection};
use crate::sql::projection::{Projection, ProjectionValue};
use crate::sql::sql_parser;
use crate::sql::sql_parser::value_text;
use crate::storage::column::{ColumnDef, Constraints};
use crate::storage::compression::CompressionType;
use crate::storage::numbers::{NumberReading, Numbers};
use crate::text;
use crate::text::{concat3, concat5, decimal_text, quote};

verus! {

/// The text of what may be missing.
pub open spec fn optional_debug(t: Option<Seq<char>>) -> Seq<char> {
    match t {
        Some(t) => "Some("@ + t + ")"@,
        None => "None"@,
    }
}

/// The text of an optional name.
pub open spec fn alias_debug(alias: Option<String>) -> Seq<char> {
    optional_debug(
        match alias {
            Some(a) => Some(text::quoted(a@)),
            None => None,
        },
    )
}

/// The text of a compression.
pub open spec fn compression_debug(c: CompressionType) -> Seq<char> {
    match c {
        CompressionType::Uncompressed => "None"@,
        CompressionType::LZ4(level) => "LZ4("@ + text::decimal(level as nat) + ")"@,
    }
}

/// The text of the constraints of a column.
pub open spec fn constraints_debug(c: Constraints, readings: Seq<NumberReading>) -> Seq<char> {
    let nullable = if c.nullable {
        "true"@
    } else {
        "false"@
    };
    let default = optional_debug(
        match c.default {
            Some(v) => Some(sql_parser::literal_text(v, readings)),
            None => None,
        },
    );
    "Constraints { nullable: "@ + nullable + ", default: "@ + default + (", compression_type: "@
        + compression_debug(c.compression_type) + " }"@)
}

/// The text of the definition of a column.
pub open spec fn column_def_debug(c: ColumnDef, readings: Seq<NumberReading>) -> Seq<char> {
    "ColumnDef { name: "@ + text::quoted(c.name@) + ", field_type: "@ + c.field_type.name_view() + (
    ", constraints: "@ + constraints_debug(c.constraints, readings) + " }"@)
}

/// The text of the source of a projection.
pub open spec fn source_debug(s: ProjectionValue, readings: Seq<NumberReading>) -> Seq<char> {
    match s {
        ProjectionValue::Value(v) => "Value("@ + sql_parser::literal_text(v, readings) + ")"@,
        ProjectionValue::ColumnDef(c) => "ColumnDef("@ + column_def_debug(c, readings) + ")"@,
    }
}

/// The text of a projection.
pub open spec fn projection_debug(p: Projection, readings: Seq<NumberReading>) -> Seq<char> {
    "Projection { alias: "@ + alias_debug(p.alias) + ", source: "@ + source_debug(p.source, readings)
        + " }"@
}

/// The text of a function over the rows of a group.
pub open spec fn function_debug(f: AggregateFunction, readings: Seq<NumberReading>) -> Seq<char> {
    match f {
        AggregateFunction::Min(p) => "Min("@ + projection_debug(*p, readings) + ")"@,
        AggregateFunction::Max(p) => "Max("@ + projection_debug(*p, readings) + ")"@,
        AggregateFunction::Sum(p) => "Sum("@ + projection_debug(*p, readings) + ")"@,
        AggregateFunction::Avg(p) => "Avg("@ + projection_debug(*p, readings) + ")"@,
        AggregateFunction::Count(p) => "Count("@ + projection_debug(*p, readings) + ")"@,
    }
}

/// The text of a projection of a function over the rows of a group.
pub open spec fn aggregate_debug(a: AggregateProjection, readings: Seq<NumberReading>) -> Seq<char> {
    "AggregateProjection { alias: "@ + alias_debug(a.alias) + ", source: "@ + function_debug(
        a.source,
        readings,
    ) + " }"@
}

fn show_alias(alias: &Option<String>) -> (r: String)
    ensures
        r@ == alias_debug(*alias),
{
    match alias {
        Some(alias) => concat3("Some(", quote(alias.as_str()).as_str(), ")"),
        None => "None".to_owned(),
    }
}

fn show_constraints(c: &Constraints, numbers: &Numbers) -> (r: String)
    ensures
        r@ == constraints_debug(*c, numbers.readings@),
{
    let nullable = if c.nullable {
        "true"
    } else {
        "false"
    };
    let default = match &c.default {
        Some(v) => concat3("Some(", value_text(v, numbers).as_str(), ")"),
        None => "None".to_owned(),
    };
    let compression = match c.compression_type {
        CompressionType::Uncompressed => "None".to_owned(),
        CompressionType::LZ4(level) => concat3("LZ4(", decimal_text(level as u64).as_str(), ")"),
    };
    let rest = concat3(", compression_type: ", compression.as_str(), " }");
    concat5(
        "Constraints { nullable: ",
        nullable,
        ", default: ",
        default.as_str(),
        rest.as_str(),
    )
}

impl ColumnDef {
    /// The definition as it is shown in messages.
    pub fn debug_text(&self, numbers: &Numbers) -> (r: String)
        ensures
            r@ == column_def_debug(*self, numbers.readings@),
    {
        let rest = concat3(", constraints: ", show_constraints(&self.constraints, numbers).as_str(), " }");
        concat5(
            "ColumnDef { name: ",
            quote(self.name.as_str()).as_str(),
            ", field_type: ",
            self.field_type.name(),
            rest.as_str(),
        )
    }
}

impl ProjectionValue {
    /// The source as it is shown in messages.
    pub fn debug_text(&self, numbers: &Numbers) -> (r: String)
        ensures
            r@ == source_debug(*self, numbers.readings@),
    {
        match self {
            ProjectionValue::Value(v) => concat3("Value(", value_text(v, numbers).as_str(), ")"),
            ProjectionValue::ColumnDef(c) => concat3("ColumnDef(", c.debug_text(numbers).as_str(), ")"),
        }
    }
}

impl Projection {
    /// The projection as it is shown in messages.
    pub fn debug_text(&self, numbers: &Numbers) -> (r: String)
        ensures
            r@ == projection_debug(*self, numbers.readings@),
    {
        concat5(
            "Projection { alias: ",
            show_alias(&self.alias).as_str(),
            ", source: ",
            self.source.debug_text(numbers).as_str(),
            " }",
        )
    }
}

impl AggregateFunction {
    /// The function as it is shown in messages.
    pub fn debug_text(&self, numbers: &Numbers) -> (r: String)
        ensures
            r@ == function_debug(*self, numbers.readings@),
    {
        match self {
            AggregateFunction::Min(p) => concat3("Min(", p.debug_text(numbers).as_str(), ")"),
            AggregateFunction::Max(p) => concat3("Max(", p.debug_text(numbers).as_str(), ")"),
            AggregateFunction::Sum(p) => concat3("Sum(", p.debug_text(numbers).as_str(), ")"),
            AggregateFunction::Avg(p) => concat3("Avg(", p.debug_text(numbers).as_str(), ")"),
            AggregateFunction::Count(p) => concat3("Count(", p.debug_text(numbers).as_str(), ")"),
        }
    }
}

impl AggregateProjection {
    /// The projection as it is shown in messages.
    pub fn debug_text(&self, numbers: &Numbers) -> (r: String)
        ensures
            r@ == aggregate_debug(*self, numbers.readings@),
    {
        concat5(
            "AggregateProjection { alias: ",
            show_alias(&self.alias).as_str(),
            ", source: ",
            self.source.debug_text(numbers).as_str(),
            " }",
        )
    }
}

} // verus!
