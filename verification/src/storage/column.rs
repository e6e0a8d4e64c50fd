//! Columns: their definitions and their data.
use vstd::prelude::*;
use vstd::string::*;

use crate::error::{Error, Outcome};
use crate::error;
use crate::search;
use crate::sql::debug_text;
use crate::sql::projection::{Projection, ProjectionValue};
use crate::storage::compression::CompressionType;
use crate::storage::numbers::{NumberReading, Numbers};
use crate::storage::value;
use crate::storage::value::{Value, ValueType};

verus! {

/// Constraints on the values of a column.
#[derive(Debug)]
pub struct Constraints {
    pub nullable: bool,
    pub default: Option<Value>,
    pub compression_type: CompressionType,
}

/// Equality of optional values.
pub open spec fn option_value_eq(a: Option<Value>, b: Option<Value>) -> bool {
    match (a, b) {
        (Some(x), Some(y)) => value::value_eq(x, y),
        (None, None) => true,
        _ => false,
    }
}

/// Equality of constraints.
pub open spec fn constraints_eq(a: Constraints, b: Constraints) -> bool {
    &&& a.nullable == b.nullable
    &&& option_value_eq(a.default, b.default)
    &&& a.compression_type == b.compression_type
}

/// The constraints of a column declared without any.
pub open spec fn default_constraints() -> Constraints {
    Constraints { nullable: true, default: None, compression_type: CompressionType::LZ4(3) }
}

impl Default for Constraints {
    fn default() -> (r: Self)
        ensures
            r == default_constraints(),
    {
        Constraints {
            nullable: true,
            default: None,
            compression_type: CompressionType::default(),
        }
    }
}

impl Clone for Constraints {
    fn clone(&self) -> (r: Self)
        ensures
            r == *self,
    {
        Constraints {
            nullable: self.nullable,
            default: match &self.default {
                Some(v) => Some(v.clone()),
                None => None,
            },
            compression_type: self.compression_type,
        }
    }
}

impl PartialEq for Constraints {
    fn eq(&self, other: &Self) -> (r: bool) {
        let same_default = match (&self.default, &other.default) {
            (Some(x), Some(y)) => *x == *y,
            (None, None) => true,
            _ => false,
        };
        self.nullable == other.nullable && same_default && self.compression_type
            == other.compression_type
    }
}

impl vstd::std_specs::cmp::PartialEqSpecImpl for Constraints {
    open spec fn obeys_eq_spec() -> bool {
        true
    }

    open spec fn eq_spec(&self, other: &Self) -> bool {
        constraints_eq(*self, *other)
    }
}

/// Definition of a column of a table.
#[derive(Debug)]
pub struct ColumnDef {
    pub name: String,
    pub field_type: ValueType,
    pub constraints: Constraints,
}

/// Equality of column definitions.
pub open spec fn column_def_eq(a: ColumnDef, b: ColumnDef) -> bool {
    &&& a.name@ == b.name@
    &&& a.field_type == b.field_type
    &&& constraints_eq(a.constraints, b.constraints)
}

impl Clone for ColumnDef {
    fn clone(&self) -> (r: Self)
        ensures
            r == *self,
    {
        ColumnDef {
            name: self.name.clone(),
            field_type: self.field_type,
            constraints: self.constraints.clone(),
        }
    }
}

impl PartialEq for ColumnDef {
    fn eq(&self, other: &Self) -> (r: bool) {
        self.name == other.name && self.field_type == other.field_type && self.constraints
            == other.constraints
    }
}

impl vstd::std_specs::cmp::PartialEqSpecImpl for ColumnDef {
    open spec fn obeys_eq_spec() -> bool {
        true
    }

    open spec fn eq_spec(&self, other: &Self) -> bool {
        column_def_eq(*self, *other)
    }
}

/// The property of having a given name.
pub open spec fn named(name: Seq<char>) -> spec_fn(ColumnDef) -> bool {
    |c: ColumnDef| c.name@ == name
}

/// The property of being equal to a given definition.
pub open spec fn equal_to(d: ColumnDef) -> spec_fn(ColumnDef) -> bool {
    |c: ColumnDef| column_def_eq(c, d)
}

/// The position of the first column with a given name.
pub fn position_named(columns: &[ColumnDef], name: &str) -> (r: Option<usize>)
    ensures
        match r {
            Some(i) => i < columns@.len() && search::position(columns@, named(name@)) == Some(i as int),
            None => search::position(columns@, named(name@)) is None,
        },
{
    let mut i: usize = 0;
    while i < columns.len()
        invariant
            i <= columns@.len(),
            search::position(columns@, named(name@)) == search::position_from(columns@, named(name@), i as int),
        decreases columns@.len() - i,
    {
        if crate::text::same_text(columns[i].name.as_str(), name) {
            return Some(i);
        }
        i += 1;
    }
    None
}

/// The position of the first column equal to a given definition.
pub fn position_equal(columns: &[ColumnDef], def: &ColumnDef) -> (r: Option<usize>)
    ensures
        match r {
            Some(i) => i < columns@.len() && search::position(columns@, equal_to(*def)) == Some(i as int),
            None => search::position(columns@, equal_to(*def)) is None,
        },
{
    let mut i: usize = 0;
    while i < columns.len()
        invariant
            i <= columns@.len(),
            search::position(columns@, equal_to(*def)) == search::position_from(columns@, equal_to(*def), i as int),
        decreases columns@.len() - i,
    {
        if columns[i] == *def {
            return Some(i);
        }
        i += 1;
    }
    None
}

/// A copy of a list of column definitions.
pub fn clone_columns(columns: &[ColumnDef]) -> (r: Vec<ColumnDef>)
    ensures
        r@ == columns@,
{
    let mut r: Vec<ColumnDef> = Vec::new();
    let mut i: usize = 0;
    while i < columns.len()
        invariant
            i <= columns@.len(),
            r@ == columns@.take(i as int),
        decreases columns@.len() - i,
    {
        r.push(columns[i].clone());
        i += 1;
        assert(columns@.take(i as int) =~= columns@.take(i - 1).push(columns@[i - 1]));
    }
    assert(columns@.take(columns@.len() as int) =~= columns@);
    r
}

/// A column of a table with its data.
#[derive(Debug, PartialEq)]
pub struct PhysicalColumn {
    pub column_def: ColumnDef,
    pub data: Vec<Value>,
}

/// A column of a table with its data as a sequence.
#[verifier::ext_equal]
pub struct PhysicalColumnView {
    pub column_def: ColumnDef,
    pub data: Seq<Value>,
}

impl View for PhysicalColumn {
    type V = PhysicalColumnView;

    open spec fn view(&self) -> PhysicalColumnView {
        PhysicalColumnView { column_def: self.column_def, data: self.data@ }
    }
}

/// The columns of a list, each with its data as a sequence.
pub open spec fn physical_views(columns: Seq<PhysicalColumn>) -> Seq<PhysicalColumnView> {
    columns.map_values(|c: PhysicalColumn| c@)
}

impl PhysicalColumn {
    /// An empty column.
    pub fn from_def(column_def: ColumnDef) -> (r: Self)
        ensures
            r@ == (PhysicalColumnView { column_def, data: seq![] }),
    {
        PhysicalColumn { column_def, data: Vec::new() }
    }

    /// The column as a column of a result.
    pub fn into_output_column(self) -> (r: OutputColumn)
        ensures
            r@ == output_of(self@),
    {
        OutputColumn {
            proj: Projection { alias: None, source: ProjectionValue::ColumnDef(self.column_def) },
            data: self.data,
        }
    }

    /// The column of a table behind a column of a result.
    ///
    /// Returns:
    ///   * Ok: the column, where the result column stands for a column of a table.
    ///   * Error: `InvalidSource` where it stands for a literal.
    pub fn try_from_output(value: OutputColumn, numbers: &Numbers) -> (r: Outcome<Self>)
        ensures
            error::outcome_view(r) == (match value.proj.source {
                ProjectionValue::ColumnDef(column_def) => Ok(
                    PhysicalColumnView { column_def, data: value.data@ },
                ),
                ProjectionValue::Value(_) => Err(
                    error::ErrorView::InvalidSource(
                        not_a_column_text(value.proj.source, numbers.readings@),
                    ),
                ),
            }),
    {
        let OutputColumn { proj, data } = value;
        match proj.source {
            ProjectionValue::ColumnDef(column_def) => Ok(PhysicalColumn { column_def, data }),
            source => Err(
                Error::InvalidSource(
                    crate::text::concat3(
                        "expected to be column definition, got (",
                        source.debug_text(numbers).as_str(),
                        ") instead during output to physical column conversion.",
                    ),
                ),
            ),
        }
    }
}

/// The message for a literal where a column of a table was expected.
pub open spec fn not_a_column_text(source: ProjectionValue, readings: Seq<NumberReading>) -> Seq<char> {
    "expected to be column definition, got ("@ + debug_text::source_debug(source, readings)
        + ") instead during output to physical column conversion."@
}

/// A column of a result.
#[derive(Debug, PartialEq)]
pub struct OutputColumn {
    pub proj: Projection,
    pub data: Vec<Value>,
}

/// A column of a result with its data as a sequence.
#[verifier::ext_equal]
pub struct OutputColumnView {
    pub proj: Projection,
    pub data: Seq<Value>,
}

impl View for OutputColumn {
    type V = OutputColumnView;

    open spec fn view(&self) -> OutputColumnView {
        OutputColumnView { proj: self.proj, data: self.data@ }
    }
}

/// The columns of a list, each with its data as a sequence.
pub open spec fn output_views(columns: Seq<OutputColumn>) -> Seq<OutputColumnView> {
    columns.map_values(|c: OutputColumn| c@)
}

/// A result that holds columns, with its columns and its error taken by their views.
pub open spec fn output_outcome(r: Outcome<Vec<OutputColumn>>) -> Result<
    Seq<OutputColumnView>,
    error::ErrorView,
> {
    match r {
        Ok(columns) => Ok(output_views(columns@)),
        Err(e) => Err(e@),
    }
}

/// A column of a table as a column of a result.
pub open spec fn output_of(c: PhysicalColumnView) -> OutputColumnView {
    OutputColumnView {
        proj: Projection { alias: None, source: ProjectionValue::ColumnDef(c.column_def) },
        data: c.data,
    }
}

/// Columns of a table as columns of a result.
pub open spec fn outputs_of(columns: Seq<PhysicalColumnView>) -> Seq<OutputColumnView> {
    columns.map_values(|c: PhysicalColumnView| output_of(c))
}

/// Columns of a table as columns of a result.
pub fn into_output_columns(columns: Vec<PhysicalColumn>) -> (r: Vec<OutputColumn>)
    ensures
        output_views(r@) == outputs_of(physical_views(columns@)),
{
    let ghost before = columns@;
    let mut columns = columns;
    let mut r: Vec<OutputColumn> = Vec::new();
    let mut i: usize = 0;
    while i < columns.len()
        invariant
            i <= columns@.len(),
            columns@.len() == before.len(),
            forall|k: int| i <= k < before.len() ==> #[trigger] columns@[k] == before[k],
            r@.len() == i,
            forall|k: int| 0 <= k < i ==> (#[trigger] r@[k])@ == output_of(before[k]@),
        decreases columns@.len() - i,
    {
        assert(columns@[i as int] == before[i as int]);
        let mut data: Vec<Value> = Vec::new();
        core::mem::swap(&mut data, &mut columns[i].data);
        let column = PhysicalColumn { column_def: columns[i].column_def.clone(), data };
        r.push(column.into_output_column());
        i += 1;
    }
    assert(output_views(r@) =~= outputs_of(physical_views(before)));
    r
}

/// A copy of a list of values.
pub fn clone_values(values: &[Value]) -> (r: Vec<Value>)
    ensures
        r@ == values@,
{
    let mut r: Vec<Value> = Vec::new();
    let mut i: usize = 0;
    while i < values.len()
        invariant
            i <= values@.len(),
            r@ == values@.take(i as int),
        decreases values@.len() - i,
    {
        r.push(values[i].clone());
        i += 1;
        assert(values@.take(i as int) =~= values@.take(i - 1).push(values@[i - 1]));
    }
    assert(values@.take(values@.len() as int) =~= values@);
    r
}

impl Clone for PhysicalColumn {
    fn clone(&self) -> (r: Self)
        ensures
            r@ == self@,
    {
        PhysicalColumn { column_def: self.column_def.clone(), data: clone_values(&self.data) }
    }
}

impl Clone for OutputColumn {
    fn clone(&self) -> (r: Self)
        ensures
            r@ == self@,
    {
        OutputColumn { proj: self.proj.clone(), data: clone_values(&self.data) }
    }
}

impl OutputColumn {
    /// An empty column of a result.
    pub fn from_projection(proj: Projection) -> (r: Self)
        ensures
            r@ == (OutputColumnView { proj, data: seq![] }),
    {
        OutputColumn { proj, data: Vec::new() }
    }

    /// Builds a simple OK response column in vec.
    pub fn build_ok_vec() -> (r: Vec<Self>)
        ensures
            r@.len() == 1,
            r@[0].proj.alias is None,
            r@[0].proj.source matches ProjectionValue::Value(Value::String(s)) && s@ == "OK"@,
            r@[0].data@.len() == 1,
            r@[0].data@[0] matches Value::String(s) && s@ == "OK"@,
    {
        let mut data: Vec<Value> = Vec::new();
        data.push(Value::String("OK".to_owned()));
        let mut r: Vec<Self> = Vec::new();
        r.push(
            OutputColumn {
                proj: Projection {
                    alias: None,
                    source: ProjectionValue::Value(Value::String("OK".to_owned())),
                },
                data,
            },
        );
        r
    }
}

} // verus!
