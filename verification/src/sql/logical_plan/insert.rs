//! INSERT.
use vstd::prelude::*;
use vstd::string::*;

use crate::error::{Error, ErrorView, Outcome};
use crate::error;
use crate::runtime_config;
use crate::runtime_config::{Catalog, CatalogEntry};
use crate::search;
use crate::sql::ast;
use crate::sql::ast::{Expr, Ident, Insert, Query, SetExpr, SqlValue, TableObject, UnaryOperator};
use crate::sql::logical_plan::plan;
use crate::sql::logical_plan::plan::{LogicalPlan, PlanView};
use crate::storage::column;
use crate::storage::column::{ColumnDef, PhysicalColumn, PhysicalColumnView};
use crate::storage::literal;
use crate::storage::numbers::{NumberReading, Numbers};
use crate::storage::table_def;
use crate::storage::table_def::TableDef;
use crate::storage::table_metadata::{TableSchema, TableSchemaView};
use crate::storage::value::{Value, ValueType};
use crate::text;
use crate::text::{concat2, concat3, concat4, decimal_text};

verus! {

/// Whether a name is among the first `n` identifiers.
pub open spec fn among(idents: Seq<Ident>, n: int, name: Seq<char>) -> bool {
    exists|j: int| 0 <= j < n && (#[trigger] idents[j]).value@ == name
}

/// The error for the first identifier from position `i` on that repeats one before it.
pub open spec fn repeated_from(idents: Seq<Ident>, i: int) -> Option<ErrorView>
    decreases idents.len() - i,
{
    if i >= idents.len() {
        None
    } else if among(idents, i, idents[i].value@) {
        Some(ErrorView::InvalidColumnName("Duplicate column: "@ + idents[i].value@))
    } else {
        repeated_from(idents, i + 1)
    }
}

/// The columns that the identifiers from position `i` on name, behind those before.
pub open spec fn resolved_from(
    idents: Seq<Ident>,
    i: int,
    acc: Seq<ColumnDef>,
    columns: Seq<ColumnDef>,
) -> Result<Seq<ColumnDef>, ErrorView>
    decreases idents.len() - i,
{
    if i >= idents.len() {
        Ok(acc)
    } else {
        match search::position(columns, column::named(idents[i].value@)) {
            Some(k) => resolved_from(idents, i + 1, acc.push(columns[k]), columns),
            None => Err(ErrorView::InvalidColumnName(idents[i].value@)),
        }
    }
}

/// Whether a column must be given a value by an INSERT with the given columns.
pub open spec fn is_missing(idents: Seq<Ident>) -> spec_fn(ColumnDef) -> bool {
    |c: ColumnDef|
        !among(idents, idents.len() as int, c.name@) && !c.constraints.nullable
            && c.constraints.default is None
}

/// The error for a column that must be given and is not.
pub open spec fn missing_error(idents: Seq<Ident>, schema: TableSchemaView) -> Option<ErrorView> {
    match search::position(schema.columns, is_missing(idents)) {
        Some(k) => Some(
            ErrorView::InvalidSource(
                "Column ("@ + schema.columns[k].name@
                    + ") is not specified and is neither nullable nor have a default value."@,
            ),
        ),
        None => if search::position(schema.order_by, is_missing(idents)) is Some
            || search::position(schema.primary_key, is_missing(idents)) is Some {
            Some(ErrorView::InvalidColumnsSpecified)
        } else {
            None
        },
    }
}

/// The rows of the source of an INSERT.
pub open spec fn source_rows(source: Option<Query>) -> Result<Seq<Seq<Expr>>, ErrorView> {
    match source {
        None => Err(ErrorView::InvalidSource("No source of values was specified."@)),
        Some(query) => match query.body {
            SetExpr::Values(rows) => Ok(plan::nested(rows@)),
            _ => Err(ErrorView::InvalidSource("Provide direct values"@)),
        },
    }
}

/// The value of a given type that an expression stands for: a literal, or a number behind a sign.
pub open spec fn cell_value(expr: Expr, t: ValueType, readings: Seq<NumberReading>) -> Result<
    Value,
    ErrorView,
> {
    match expr {
        Expr::Value(lit) => literal::typed_value(lit, t, readings),
        Expr::UnaryOp { op, expr: inner } => match *inner {
            Expr::Value(lit) => match (op, lit.value) {
                (UnaryOperator::Minus, SqlValue::Number(n, _)) => literal::number_value(
                    "-"@ + n@,
                    t,
                    readings,
                ),
                (UnaryOperator::Plus, SqlValue::Number(n, _)) => literal::number_value(n@, t, readings),
                _ => Err(
                    ErrorView::InvalidSource(
                        "Expected plus or minus as operator and a number, received: "@
                            + ast::unary_text(op) + " and "@ + lit.rendered@,
                    ),
                ),
            },
            other => Err(
                ErrorView::InvalidSource(
                    "Expected direct value, received: "@ + ast::expr_text(other),
                ),
            ),
        },
        _ => Err(ErrorView::InvalidSource("Expected a value, received: "@ + ast::expr_text(expr))),
    }
}

/// The value that a cell adds to a column. NULL is refused where the column does not allow it.
pub open spec fn inserted_value(expr: Expr, def: ColumnDef, readings: Seq<NumberReading>) -> Result<
    Value,
    ErrorView,
> {
    match cell_value(expr, def.field_type, readings) {
        Err(e) => Err(e),
        Ok(v) => if v is Null && !def.constraints.nullable {
            Err(
                ErrorView::CouldNotInsertData(
                    "NULL value not allowed for column '"@ + def.name@ + "'"@,
                ),
            )
        } else {
            Ok(v)
        },
    }
}

/// The data of the columns after the cells of a row from position `c` on have been added.
pub open spec fn row_added(
    row: Seq<Expr>,
    c: int,
    defs: Seq<ColumnDef>,
    data: Seq<Seq<Value>>,
    readings: Seq<NumberReading>,
) -> Result<Seq<Seq<Value>>, ErrorView>
    decreases row.len() - c,
{
    if c >= row.len() {
        Ok(data)
    } else {
        match inserted_value(row[c], defs[c], readings) {
            Err(e) => Err(e),
            Ok(v) => row_added(row, c + 1, defs, data.update(c, data[c].push(v)), readings),
        }
    }
}

/// The data of the columns after the rows from position `r` on have been added.
pub open spec fn rows_added(
    rows: Seq<Seq<Expr>>,
    r: int,
    defs: Seq<ColumnDef>,
    data: Seq<Seq<Value>>,
    readings: Seq<NumberReading>,
) -> Result<Seq<Seq<Value>>, ErrorView>
    decreases rows.len() - r,
{
    if r >= rows.len() {
        Ok(data)
    } else {
        match row_added(rows[r], 0, defs, data, readings) {
            Err(e) => Err(e),
            Ok(d) => rows_added(rows, r + 1, defs, d, readings),
        }
    }
}

/// No values for any of `n` columns.
pub open spec fn no_data(n: nat) -> Seq<Seq<Value>> {
    Seq::new(n, |i: int| Seq::<Value>::empty())
}

/// The data of the given columns.
pub open spec fn populated(rows: Seq<Seq<Expr>>, defs: Seq<ColumnDef>, readings: Seq<NumberReading>) -> Result<
    Seq<Seq<Value>>,
    ErrorView,
> {
    if rows.len() == 0 {
        Err(ErrorView::EmptySource)
    } else if exists|i: int| 0 <= i < rows.len() && (#[trigger] rows[i]).len() != rows[0].len() {
        Err(ErrorView::InvalidSource("Columns length mismatch."@))
    } else if defs.len() != rows[0].len() {
        Err(
            ErrorView::InvalidSource(
                "Invalid number of values specified. Expected: "@ + text::decimal(defs.len())
                    + ", got: "@ + text::decimal(rows[0].len()),
            ),
        )
    } else {
        rows_added(rows, 0, defs, no_data(defs.len()), readings)
    }
}

/// The columns with their data.
pub open spec fn with_data(defs: Seq<ColumnDef>, data: Seq<Seq<Value>>) -> Seq<PhysicalColumnView> {
    Seq::new(defs.len(), |i: int| PhysicalColumnView { column_def: defs[i], data: data[i] })
}

/// A value repeated.
pub open spec fn repeated(v: Value, n: nat) -> Seq<Value> {
    Seq::new(n, |i: int| v)
}

/// The given columns and, of the columns of the table from position `i` on that were not given, those
/// that can be filled: with the default, or else with NULL where it is allowed.
pub open spec fn defaults_added(
    table_columns: Seq<ColumnDef>,
    i: int,
    acc: Seq<PhysicalColumnView>,
    idents: Seq<Ident>,
    rows: nat,
) -> Seq<PhysicalColumnView>
    decreases table_columns.len() - i,
{
    if i >= table_columns.len() {
        acc
    } else {
        let c = table_columns[i];
        let next = if among(idents, idents.len() as int, c.name@) {
            acc
        } else {
            match c.constraints.default {
                Some(v) => acc.push(PhysicalColumnView { column_def: c, data: repeated(v, rows) }),
                None => if c.constraints.nullable {
                    acc.push(
                        PhysicalColumnView { column_def: c, data: repeated(Value::Null, rows) },
                    )
                } else {
                    acc
                },
            }
        };
        defaults_added(table_columns, i + 1, next, idents, rows)
    }
}

/// The plan for an INSERT.
pub open spec fn insert_plan(
    insert: Insert,
    entries: Seq<CatalogEntry>,
    readings: Seq<NumberReading>,
) -> Result<PlanView, ErrorView> {
    match insert.table {
        TableObject::Other => Err(
            ErrorView::UnsupportedCommand("Currently not supporting table functions"@),
        ),
        TableObject::TableName(name) => match table_def::table_named(name.0@) {
            Err(e) => Err(e),
            Ok(table_def) => match runtime_config::schema_of(entries, table_def) {
                None => Err(ErrorView::TableNotFound),
                Some(schema) => insert_into(insert, table_def, schema, readings),
            },
        },
    }
}

/// The plan for an INSERT into a table with a given schema.
pub open spec fn insert_into(
    insert: Insert,
    table_def: TableDef,
    schema: TableSchemaView,
    readings: Seq<NumberReading>,
) -> Result<PlanView, ErrorView> {
    let idents = insert.columns@;
    if idents.len() == 0 {
        Err(ErrorView::NoColumnsSpecified)
    } else if repeated_from(idents, 0) is Some {
        Err(repeated_from(idents, 0)->Some_0)
    } else {
        match resolved_from(idents, 0, seq![], schema.columns) {
            Err(e) => Err(e),
            Ok(defs) => if missing_error(idents, schema) is Some {
                Err(missing_error(idents, schema)->Some_0)
            } else {
                match source_rows(insert.source) {
                    Err(e) => Err(e),
                    Ok(rows) => match populated(rows, defs, readings) {
                        Err(e) => Err(e),
                        Ok(data) => Ok(
                            PlanView::Insert {
                                table_def,
                                columns: defaults_added(
                                    schema.columns,
                                    0,
                                    with_data(defs, data),
                                    idents,
                                    rows.len(),
                                ),
                            },
                        ),
                    },
                }
            },
        }
    }
}

fn is_among(idents: &Vec<Ident>, n: usize, name: &str) -> (r: bool)
    requires
        n <= idents@.len(),
    ensures
        r == among(idents@, n as int, name@),
{
    let mut j: usize = 0;
    while j < n
        invariant
            j <= n <= idents@.len(),
            !among(idents@, j as int, name@),
        decreases n - j,
    {
        if text::same_text(idents[j].value.as_str(), name) {
            return true;
        }
        j += 1;
    }
    false
}

fn has_missing(idents: &Vec<Ident>, columns: &Vec<ColumnDef>) -> (r: Option<usize>)
    ensures
        match r {
            Some(k) => k < columns@.len() && search::position(columns@, is_missing(idents@)) == Some(
                k as int,
            ),
            None => search::position(columns@, is_missing(idents@)) is None,
        },
{
    let mut i: usize = 0;
    while i < columns.len()
        invariant
            i <= columns@.len(),
            search::position(columns@, is_missing(idents@)) == search::position_from(
                columns@,
                is_missing(idents@),
                i as int,
            ),
        decreases columns@.len() - i,
    {
        if !is_among(idents, idents.len(), columns[i].name.as_str())
            && !columns[i].constraints.nullable && columns[i].constraints.default.is_none() {
            return Some(i);
        }
        i += 1;
    }
    None
}

/// A value repeated.
pub fn repeat_value(v: &Value, n: usize) -> (r: Vec<Value>)
    ensures
        r@ == repeated(*v, n as nat),
{
    let mut r: Vec<Value> = Vec::new();
    let mut i: usize = 0;
    while i < n
        invariant
            i <= n,
            r@.len() == i,
            forall|k: int| 0 <= k < i ==> #[trigger] r@[k] == *v,
        decreases n - i,
    {
        r.push(v.clone());
        i += 1;
    }
    assert(r@ =~= repeated(*v, n as nat));
    r
}

/// The definitions and the data of columns, apart.
spec fn split(columns: Seq<PhysicalColumn>, defs: Seq<ColumnDef>, data: Seq<Seq<Value>>) -> bool {
    &&& columns.len() == defs.len()
    &&& columns.len() == data.len()
    &&& forall|i: int|
        0 <= i < columns.len() ==> (#[trigger] columns[i]).column_def == defs[i] && columns[i].data@
            == data[i]
}

impl LogicalPlan {
    /// Parses INSERT statement into `LogicalPlan::Insert` variant.
    ///
    /// Validates that:
    /// - Table exists and columns are valid
    /// - All NOT NULL and ORDER BY columns are provided
    /// - Values match column types
    ///
    /// Returns:
    ///   * Ok: `LogicalPlan::Insert` with validated columns and data
    ///   * Error: `TableNotFound`, `InvalidColumnName`, `InvalidColumnsSpecified`, `InvalidSource`, or `EmptySource`
    pub fn from_insert(insert: &Insert, catalog: &Catalog, numbers: &Numbers) -> (r: Outcome<Self>)
        ensures
            error::outcome_view(r) == insert_plan(*insert, catalog.entries@, numbers.readings@),
    {
        let table_def = match &insert.table {
            TableObject::TableName(name) => match TableDef::try_from(name) {
                Ok(t) => t,
                Err(e) => return Err(e),
            },
            TableObject::Other => return Err(
                Error::UnsupportedCommand("Currently not supporting table functions".to_owned()),
            ),
        };
        match catalog.get(&table_def) {
            None => Err(Error::TableNotFound),
            Some(schema) => Self::insert_into_table(insert, table_def, schema, numbers),
        }
    }

    fn insert_into_table(
        insert: &Insert,
        table_def: TableDef,
        schema: &TableSchema,
        numbers: &Numbers,
    ) -> (r: Outcome<Self>)
        ensures
            error::outcome_view(r) == insert_into(*insert, table_def, schema@, numbers.readings@),
    {
        let idents = &insert.columns;
        if idents.len() == 0 {
            return Err(Error::NoColumnsSpecified);
        }
        if let Err(e) = Self::validate_no_duplicate_columns(idents) {
            return Err(e);
        }
        let defs = match Self::resolve_insert_columns(idents, &schema.columns) {
            Ok(d) => d,
            Err(e) => return Err(e),
        };
        if let Err(e) = Self::validate_required_columns(idents, schema) {
            return Err(e);
        }
        let rows = match &insert.source {
            None => return Err(
                Error::InvalidSource("No source of values was specified.".to_owned()),
            ),
            Some(query) => match &query.body {
                SetExpr::Values(rows) => rows,
                _ => return Err(Error::InvalidSource("Provide direct values".to_owned())),
            },
        };
        let mut columns = match Self::validate_and_populate_columns(defs, rows, numbers) {
            Ok(c) => c,
            Err(e) => return Err(e),
        };
        Self::add_default_columns(&mut columns, idents, &schema.columns, rows.len());
        Ok(LogicalPlan::Insert { table_def, columns })
    }

    fn validate_no_duplicate_columns(idents: &Vec<Ident>) -> (r: Outcome<()>)
        ensures
            match r {
                Ok(_) => repeated_from(idents@, 0) is None,
                Err(e) => repeated_from(idents@, 0) == Some(e@),
            },
    {
        let mut i: usize = 0;
        while i < idents.len()
            invariant
                i <= idents@.len(),
                repeated_from(idents@, 0) == repeated_from(idents@, i as int),
            decreases idents@.len() - i,
        {
            if is_among(idents, i, idents[i].value.as_str()) {
                return Err(
                    Error::InvalidColumnName(
                        concat2("Duplicate column: ", idents[i].value.as_str()),
                    ),
                );
            }
            i += 1;
        }
        Ok(())
    }

    fn resolve_insert_columns(idents: &Vec<Ident>, columns: &Vec<ColumnDef>) -> (r: Outcome<
        Vec<ColumnDef>,
    >)
        ensures
            match r {
                Ok(v) => resolved_from(idents@, 0, seq![], columns@) == Ok::<Seq<ColumnDef>, ErrorView>(v@),
                Err(e) => resolved_from(idents@, 0, seq![], columns@) == Err::<Seq<ColumnDef>, ErrorView>(e@),
            },
    {
        let mut defs: Vec<ColumnDef> = Vec::new();
        let mut i: usize = 0;
        while i < idents.len()
            invariant
                i <= idents@.len(),
                resolved_from(idents@, 0, seq![], columns@) == resolved_from(
                    idents@,
                    i as int,
                    defs@,
                    columns@,
                ),
            decreases idents@.len() - i,
        {
            match column::position_named(columns, idents[i].value.as_str()) {
                Some(k) => defs.push(columns[k].clone()),
                None => return Err(Error::InvalidColumnName(idents[i].value.clone())),
            }
            i += 1;
        }
        Ok(defs)
    }

    fn validate_required_columns(idents: &Vec<Ident>, schema: &TableSchema) -> (r: Outcome<()>)
        ensures
            match r {
                Ok(_) => missing_error(idents@, schema@) is None,
                Err(e) => missing_error(idents@, schema@) == Some(e@),
            },
    {
        if let Some(k) = has_missing(idents, &schema.columns) {
            return Err(
                Error::InvalidSource(
                    concat3(
                        "Column (",
                        schema.columns[k].name.as_str(),
                        ") is not specified and is neither nullable nor have a default value.",
                    ),
                ),
            );
        }
        if has_missing(idents, &schema.order_by).is_some() {
            return Err(Error::InvalidColumnsSpecified);
        }
        if has_missing(idents, &schema.primary_key).is_some() {
            return Err(Error::InvalidColumnsSpecified);
        }
        Ok(())
    }

    fn extract_value(expr: &Expr, t: &ValueType, numbers: &Numbers) -> (r: Outcome<Value>)
        ensures
            error::outcome(r) == cell_value(*expr, *t, numbers.readings@),
    {
        match expr {
            Expr::Value(lit) => Value::try_from(lit.clone(), t, numbers),
            Expr::UnaryOp { op, expr: inner } => match &**inner {
                Expr::Value(lit) => match (op, &lit.value) {
                    (UnaryOperator::Minus, SqlValue::Number(n, _)) => literal::value_from_number(
                        concat2("-", n.as_str()).as_str(),
                        t,
                        numbers,
                    ),
                    (UnaryOperator::Plus, SqlValue::Number(n, _)) => literal::value_from_number(
                        n.as_str(),
                        t,
                        numbers,
                    ),
                    _ => Err(
                        Error::InvalidSource(
                            concat4(
                                "Expected plus or minus as operator and a number, received: ",
                                op.to_text().as_str(),
                                " and ",
                                lit.rendered.as_str(),
                            ),
                        ),
                    ),
                },
                other => Err(
                    Error::InvalidSource(
                        concat2("Expected direct value, received: ", other.to_text().as_str()),
                    ),
                ),
            },
            _ => Err(
                Error::InvalidSource(
                    concat2("Expected a value, received: ", expr.to_text().as_str()),
                ),
            ),
        }
    }

    /// The columns with the values of the rows.
    pub fn validate_and_populate_columns(defs: Vec<ColumnDef>, rows: &Vec<Vec<Expr>>, numbers: &Numbers) -> (r: Outcome<
        Vec<PhysicalColumn>,
    >)
        ensures
            match r {
                Ok(columns) => populated(plan::nested(rows@), defs@, numbers.readings@) matches Ok(data)
                    && column::physical_views(columns@) == with_data(defs@, data),
                Err(e) => populated(plan::nested(rows@), defs@, numbers.readings@) == Err::<
                    Seq<Seq<Value>>,
                    ErrorView,
                >(e@),
            },
    {
        let ghost rs = plan::nested(rows@);
        let ghost ds = defs@;
        let ghost readings = numbers.readings@;
        if rows.len() == 0 {
            return Err(Error::EmptySource);
        }
        assert(rs[0] == rows@[0]@);
        let val_count: usize = rows[0].len();
        let mut i: usize = 0;
        while i < rows.len()
            invariant
                i <= rows@.len(),
                rs == plan::nested(rows@),
                rs.len() > 0,
                val_count == rs[0].len(),
                ds == defs@,
                forall|k: int| 0 <= k < i ==> (#[trigger] rs[k]).len() == val_count,
            decreases rows@.len() - i,
        {
            assert(rs[i as int] == rows@[i as int]@);
            if rows[i].len() != val_count {
                assert(rs[i as int].len() != rs[0].len());
                return Err(Error::InvalidSource("Columns length mismatch.".to_owned()));
            }
            i += 1;
        }
        if defs.len() != val_count {
            return Err(
                Error::InvalidSource(
                    concat4(
                        "Invalid number of values specified. Expected: ",
                        decimal_text(defs.len() as u64).as_str(),
                        ", got: ",
                        decimal_text(val_count as u64).as_str(),
                    ),
                ),
            );
        }
        let mut columns: Vec<PhysicalColumn> = Vec::new();
        let mut i: usize = 0;
        while i < defs.len()
            invariant
                i <= defs@.len(),
                ds == defs@,
                columns@.len() == i,
                forall|k: int| 0 <= k < i ==> (#[trigger] columns@[k]).column_def == ds[k] && columns@[k].data@
                    == Seq::<Value>::empty(),
            decreases defs@.len() - i,
        {
            columns.push(PhysicalColumn::from_def(defs[i].clone()));
            i += 1;
        }
        let ghost mut data = no_data(ds.len());
        assert(split(columns@, ds, data));
        let mut r: usize = 0;
        while r < rows.len()
            invariant
                r <= rows@.len(),
                rs == plan::nested(rows@),
                rs.len() > 0,
                readings == numbers.readings@,
                ds == defs@,
                ds.len() == val_count,
                val_count == rs[0].len(),
                forall|k: int| 0 <= k < rs.len() ==> (#[trigger] rs[k]).len() == val_count,
                split(columns@, ds, data),
                populated(rs, ds, readings) == rows_added(rs, r as int, ds, data, readings),
            decreases rows@.len() - r,
        {
            let row = &rows[r];
            assert(rs[r as int] == row@);
            let ghost start = data;
            let mut c: usize = 0;
            while c < row.len()
                invariant
                    c <= row@.len(),
                    row@.len() == val_count,
                    rs == plan::nested(rows@),
                    ds == defs@,
                    ds.len() == val_count,
                    readings == numbers.readings@,
                    rs[r as int] == row@,
                    r < rs.len(),
                    split(columns@, ds, data),
                    row_added(row@, 0, ds, start, readings) == row_added(
                        row@,
                        c as int,
                        ds,
                        data,
                        readings,
                    ),
                    populated(rs, ds, readings) == rows_added(rs, r as int, ds, start, readings),
                decreases row@.len() - c,
            {
                assert(columns@[c as int].column_def == ds[c as int]);
                let value = match Self::extract_value(
                    &row[c],
                    &columns[c].column_def.field_type,
                    numbers,
                ) {
                    Ok(v) => v,
                    Err(e) => return Err(e),
                };
                if value == Value::Null && !columns[c].column_def.constraints.nullable {
                    return Err(
                        Error::CouldNotInsertData(
                            concat3(
                                "NULL value not allowed for column '",
                                columns[c].column_def.name.as_str(),
                                "'",
                            ),
                        ),
                    );
                }
                proof {
                    data = data.update(c as int, data[c as int].push(value));
                }
                columns[c].data.push(value);
                c += 1;
            }
            r += 1;
        }
        assert(column::physical_views(columns@) =~= with_data(ds, data)) by {
            assert forall|k: int| 0 <= k < columns@.len() implies column::physical_views(columns@)[k]
                == with_data(ds, data)[k] by {
                assert(columns@[k].column_def == ds[k]);
            }
        }
        Ok(columns)
    }

    fn add_default_columns(
        columns: &mut Vec<PhysicalColumn>,
        idents: &Vec<Ident>,
        table_columns: &Vec<ColumnDef>,
        row_count: usize,
    )
        ensures
            column::physical_views(final(columns)@) == defaults_added(
                table_columns@,
                0,
                column::physical_views(old(columns)@),
                idents@,
                row_count as nat,
            ),
    {
        let mut i: usize = 0;
        while i < table_columns.len()
            invariant
                i <= table_columns@.len(),
                defaults_added(
                    table_columns@,
                    0,
                    column::physical_views(old(columns)@),
                    idents@,
                    row_count as nat,
                ) == defaults_added(
                    table_columns@,
                    i as int,
                    column::physical_views(columns@),
                    idents@,
                    row_count as nat,
                ),
            decreases table_columns@.len() - i,
        {
            let def = &table_columns[i];
            let ghost before = columns@;
            if !is_among(idents, idents.len(), def.name.as_str()) {
                match &def.constraints.default {
                    Some(v) => {
                        let data = repeat_value(v, row_count);
                        let column = PhysicalColumn { column_def: def.clone(), data };
                        columns.push(column);
                        assert(column::physical_views(columns@) =~= column::physical_views(before).push(
                            column@,
                        ));
                    },
                    None => {
                        if def.constraints.nullable {
                            let data = repeat_value(&Value::Null, row_count);
                            let column = PhysicalColumn { column_def: def.clone(), data };
                            columns.push(column);
                            assert(column::physical_views(columns@) =~= column::physical_views(
                                before,
                            ).push(column@));
                        }
                    },
                }
            }
            i += 1;
        }
    }
}

proof fn lemma_row_added(
    row: Seq<Expr>,
    c: int,
    defs: Seq<ColumnDef>,
    data: Seq<Seq<Value>>,
    readings: Seq<NumberReading>,
    out: Seq<Seq<Value>>,
)
    requires
        0 <= c <= row.len(),
        defs.len() == row.len(),
        data.len() == row.len(),
        row_added(row, c, defs, data, readings) == Ok::<Seq<Seq<Value>>, ErrorView>(out),
    ensures
        out.len() == row.len(),
        forall|j: int| 0 <= j < c ==> #[trigger] out[j] == data[j],
        forall|j: int|
            c <= j < row.len() ==> {
                &&& #[trigger] out[j] == data[j].push(out[j].last())
                &&& inserted_value(row[j], defs[j], readings) == Ok::<Value, ErrorView>(out[j].last())
            },
    decreases row.len() - c,
{
    if c < row.len() {
        let v = inserted_value(row[c], defs[c], readings)->Ok_0;
        let next = data.update(c, data[c].push(v));
        lemma_row_added(row, c + 1, defs, next, readings, out);
        assert(out[c] == next[c]);
        assert forall|j: int| c <= j < row.len() implies {
            &&& #[trigger] out[j] == data[j].push(out[j].last())
            &&& inserted_value(row[j], defs[j], readings) == Ok::<Value, ErrorView>(out[j].last())
        } by {
            if j > c {
                assert(next[j] == data[j]);
            }
        }
    }
}

/// Whether the data of the columns are the values of the first `n` rows.
pub open spec fn holds_rows(
    data: Seq<Seq<Value>>,
    rows: Seq<Seq<Expr>>,
    n: int,
    defs: Seq<ColumnDef>,
    readings: Seq<NumberReading>,
) -> bool {
    &&& data.len() == defs.len()
    &&& forall|j: int| 0 <= j < defs.len() ==> (#[trigger] data[j]).len() == n
    &&& forall|j: int, k: int|
        0 <= j < defs.len() && 0 <= k < n ==> inserted_value(rows[k][j], defs[j], readings) == Ok::<
            Value,
            ErrorView,
        >(#[trigger] data[j][k])
}

proof fn lemma_rows_added(
    rows: Seq<Seq<Expr>>,
    r: int,
    defs: Seq<ColumnDef>,
    data: Seq<Seq<Value>>,
    readings: Seq<NumberReading>,
    out: Seq<Seq<Value>>,
)
    requires
        0 <= r <= rows.len(),
        forall|k: int| 0 <= k < rows.len() ==> (#[trigger] rows[k]).len() == defs.len(),
        holds_rows(data, rows, r, defs, readings),
        rows_added(rows, r, defs, data, readings) == Ok::<Seq<Seq<Value>>, ErrorView>(out),
    ensures
        holds_rows(out, rows, rows.len() as int, defs, readings),
    decreases rows.len() - r,
{
    if r < rows.len() {
        let next = row_added(rows[r], 0, defs, data, readings)->Ok_0;
        lemma_row_added(rows[r], 0, defs, data, readings, next);
        assert forall|j: int, k: int| 0 <= j < defs.len() && 0 <= k < r + 1 implies inserted_value(
            rows[k][j],
            defs[j],
            readings,
        ) == Ok::<Value, ErrorView>(#[trigger] next[j][k]) by {
            assert(next[j] == data[j].push(next[j].last()));
            if k < r {
                assert(next[j][k] == data[j][k]);
            }
        }
        lemma_rows_added(rows, r + 1, defs, next, readings, out);
    }
}

proof fn lemma_resolved(idents: Seq<Ident>, i: int, acc: Seq<ColumnDef>, columns: Seq<ColumnDef>, out: Seq<ColumnDef>)
    requires
        0 <= i <= idents.len(),
        acc.len() == i,
        forall|j: int| 0 <= j < i ==> (#[trigger] acc[j]).name@ == idents[j].value@,
        resolved_from(idents, i, acc, columns) == Ok::<Seq<ColumnDef>, ErrorView>(out),
    ensures
        out.len() == idents.len(),
        forall|j: int| 0 <= j < out.len() ==> (#[trigger] out[j]).name@ == idents[j].value@,
    decreases idents.len() - i,
{
    if i < idents.len() {
        search::lemma_position(columns, column::named(idents[i].value@));
        let k = search::position(columns, column::named(idents[i].value@))->Some_0;
        lemma_resolved(idents, i + 1, acc.push(columns[k]), columns, out);
    }
}

proof fn lemma_defaults_added(
    table_columns: Seq<ColumnDef>,
    i: int,
    acc: Seq<PhysicalColumnView>,
    idents: Seq<Ident>,
    rows: nat,
)
    requires
        0 <= i,
        forall|k: int| 0 <= k < acc.len() ==> (#[trigger] acc[k]).data.len() == rows,
    ensures
        ({
            let out = defaults_added(table_columns, i, acc, idents, rows);
            &&& acc.is_prefix_of(out)
            &&& forall|k: int| 0 <= k < out.len() ==> (#[trigger] out[k]).data.len() == rows
            &&& forall|c: int|
                i <= c < table_columns.len() && !among(
                    idents,
                    idents.len() as int,
                    table_columns[c].name@,
                ) && !is_missing(idents)(#[trigger] table_columns[c]) ==> is_filled(
                    out,
                    table_columns[c],
                )
        }),
    decreases table_columns.len() - i,
{
    if i < table_columns.len() {
        let c = table_columns[i];
        let next = if among(idents, idents.len() as int, c.name@) {
            acc
        } else {
            match c.constraints.default {
                Some(v) => acc.push(PhysicalColumnView { column_def: c, data: repeated(v, rows) }),
                None => if c.constraints.nullable {
                    acc.push(
                        PhysicalColumnView { column_def: c, data: repeated(Value::Null, rows) },
                    )
                } else {
                    acc
                },
            }
        };
        lemma_defaults_added(table_columns, i + 1, next, idents, rows);
        let out = defaults_added(table_columns, i, acc, idents, rows);
        assert(acc.is_prefix_of(next));
        if !among(idents, idents.len() as int, c.name@) && !is_missing(idents)(c) {
            assert(out[acc.len() as int] == next[acc.len() as int]);
            assert(is_filled(out, c));
        }
    }
}

/// Whether a column of a table is among columns with data.
pub open spec fn is_filled(columns: Seq<PhysicalColumnView>, def: ColumnDef) -> bool {
    exists|k: int| 0 <= k < columns.len() && (#[trigger] columns[k]).column_def.name@ == def.name@
}

/// An INSERT that is accepted fills every column of the table, each with one value for every row of
/// the source. The named columns come first, in the order in which they were named, and hold the
/// values that the rows give; none of these is NULL where the column does not allow it.
pub proof fn lemma_accepted_insert_fills_the_table(
    insert: Insert,
    table_def: TableDef,
    schema: TableSchemaView,
    readings: Seq<NumberReading>,
    columns: Seq<PhysicalColumnView>,
)
    requires
        insert_into(insert, table_def, schema, readings) == Ok::<PlanView, ErrorView>(
            PlanView::Insert { table_def, columns },
        ),
    ensures
        source_rows(insert.source) is Ok,
        source_rows(insert.source)->Ok_0.len() > 0,
        insert.columns@.len() <= columns.len(),
        forall|k: int|
            0 <= k < columns.len() ==> (#[trigger] columns[k]).data.len() == source_rows(
                insert.source,
            )->Ok_0.len(),
        forall|k: int|
            0 <= k < insert.columns@.len() ==> (#[trigger] columns[k]).column_def.name@
                == insert.columns@[k].value@,
        forall|k: int, r: int|
            0 <= k < insert.columns@.len() && 0 <= r < columns[k].data.len() ==> {
                &&& inserted_value(source_rows(insert.source)->Ok_0[r][k], columns[k].column_def, readings)
                    == Ok::<Value, ErrorView>(#[trigger] columns[k].data[r])
                &&& columns[k].data[r] is Null ==> columns[k].column_def.constraints.nullable
            },
        forall|c: int|
            0 <= c < schema.columns.len() ==> is_filled(columns, #[trigger] schema.columns[c]),
{
    let idents = insert.columns@;
    let defs = resolved_from(idents, 0, seq![], schema.columns)->Ok_0;
    let rows = source_rows(insert.source)->Ok_0;
    let data = populated(rows, defs, readings)->Ok_0;
    lemma_resolved(idents, 0, seq![], schema.columns, defs);
    assert forall|k: int| 0 <= k < rows.len() implies (#[trigger] rows[k]).len() == defs.len() by {
        if rows[k].len() != rows[0].len() {
            assert(exists|i: int| 0 <= i < rows.len() && (#[trigger] rows[i]).len() != rows[0].len());
        }
    }
    lemma_rows_added(rows, 0, defs, no_data(defs.len()), readings, data);
    let named = with_data(defs, data);
    lemma_defaults_added(schema.columns, 0, named, idents, rows.len());
    assert(columns == defaults_added(schema.columns, 0, named, idents, rows.len()));
    assert forall|k: int| 0 <= k < idents.len() implies (#[trigger] columns[k]) == named[k] by {
        assert(columns.take(named.len() as int)[k] == named[k]);
    }
    search::lemma_position(schema.columns, is_missing(idents));
    assert forall|c: int| 0 <= c < schema.columns.len() implies is_filled(
        columns,
        #[trigger] schema.columns[c],
    ) by {
        let def = schema.columns[c];
        if among(idents, idents.len() as int, def.name@) {
            let j = choose|j: int| 0 <= j < idents.len() && (#[trigger] idents[j]).value@ == def.name@;
            assert(columns[j] == named[j]);
            assert(columns[j].column_def.name@ == def.name@);
        } else {
            assert(!is_missing(idents)(schema.columns[c]));
        }
    }
}

} // verus!
