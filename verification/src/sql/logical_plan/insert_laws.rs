//! What an INSERT puts into a table, said of the statement as it is written and of the table's columns.
use vstd::prelude::*;
use vstd::string::*;

use crate::error::ErrorView;
use crate::runtime_config;
use crate::runtime_config::CatalogEntry;
use crate::search;
use crate::sql::ast::{Expr, Ident, Insert, SetExpr, SqlValue};
use crate::sql::filter_laws;
use crate::sql::logical_plan::insert;
use crate::sql::logical_plan::plan::PlanView;
use crate::sql::logical_plan::select_laws;
use crate::storage::column;
use crate::storage::column::{ColumnDef, PhysicalColumnView};
use crate::storage::literal_laws;
use crate::storage::numbers::NumberReading;
use crate::storage::table_def;
use crate::storage::table_metadata::TableSchemaView;
use crate::storage::value::{Value, ValueType};

verus! {

/// Whether a statement names a column.
pub open spec fn names(idents: Seq<Ident>, name: Seq<char>) -> bool {
    exists|j: int| 0 <= j < idents.len() && (#[trigger] idents[j]).value@ == name
}

/// Whether a value is what a cell writes: a literal, or a number behind a sign.
pub open spec fn is_cell(expr: Expr, t: ValueType, readings: Seq<NumberReading>, v: Value) -> bool {
    match expr {
        Expr::Value(lit) => literal_laws::is_literal_of(lit, t, readings, v),
        Expr::UnaryOp { op, expr: inner } => *inner is Value && inner->Value_0.value is Number && {
            let number = inner->Value_0.value->Number_0@;
            ||| op is Minus && literal_laws::is_number_of(seq!['-'] + number, t, readings, v)
            ||| op is Plus && literal_laws::is_number_of(number, t, readings, v)
        },
        _ => false,
    }
}

/// Whether a value may stand in a cell of a column: it is what the cell writes as the type of the column,
/// and NULL only where the column allows it.
pub open spec fn is_cell_of(expr: Expr, def: ColumnDef, readings: Seq<NumberReading>, v: Value) -> bool {
    is_cell(expr, def.field_type, readings, v) && (v is Null ==> def.constraints.nullable)
}

/// The rows that an INSERT lists.
pub open spec fn listed_rows(statement: Insert) -> Seq<Vec<Expr>> {
    match statement.source {
        Some(query) => match query.body {
            SetExpr::Values(rows) => rows@,
            _ => seq![],
        },
        None => seq![],
    }
}

/// Whether a column with data is the one that an identifier names, holding in every row what the cell at
/// position `c` of that row writes.
pub open spec fn is_given(
    column: PhysicalColumnView,
    defs: Seq<ColumnDef>,
    name: Seq<char>,
    rows: Seq<Vec<Expr>>,
    c: int,
    readings: Seq<NumberReading>,
) -> bool {
    &&& exists|i: int| #[trigger] filter_laws::is_column_named(defs, i, name) && column.column_def == defs[i]
    &&& column.data.len() == rows.len()
    &&& forall|r: int|
        0 <= r < rows.len() ==> is_cell_of(rows[r]@[c], column.column_def, readings, #[trigger] column.data[r])
}

/// Whether a column with data holds, in each of a number of rows, what is put where nothing is given: the
/// declared default where there is one, and else NULL.
pub open spec fn is_left_out(column: PhysicalColumnView, def: ColumnDef, n: nat) -> bool {
    &&& column.column_def == def
    &&& column.data.len() == n
    &&& forall|r: int|
        0 <= r < n ==> #[trigger] column.data[r] == (match def.constraints.default {
            Some(v) => v,
            None => Value::Null,
        })
    &&& def.constraints.default is Some || def.constraints.nullable
}

/// Whether the columns behind the first `m` are those of the table at given ascending positions, filled in
/// `n` rows where nothing is given.
pub open spec fn are_left_out(
    columns: Seq<PhysicalColumnView>,
    m: int,
    defs: Seq<ColumnDef>,
    at: Seq<int>,
    n: nat,
) -> bool {
    &&& columns.len() == m + at.len()
    &&& forall|k: int|
        0 <= k < at.len() ==> 0 <= #[trigger] at[k] < defs.len() && is_left_out(columns[m + k], defs[at[k]], n)
    &&& forall|i: int, j: int| 0 <= i < j < at.len() ==> #[trigger] at[i] < #[trigger] at[j]
}

/// Whether positions are exactly those of the columns that a statement does not name.
pub open spec fn are_unnamed(at: Seq<int>, defs: Seq<ColumnDef>, idents: Seq<Ident>) -> bool {
    forall|p: int| 0 <= p < defs.len() ==> (#[trigger] at.contains(p) <==> !names(idents, defs[p].name@))
}

/// Whether identifiers are pairwise different.
pub open spec fn are_distinct(idents: Seq<Ident>) -> bool {
    forall|i: int, j: int| 0 <= i < j < idents.len() ==> (#[trigger] idents[i]).value@ != (#[trigger] idents[j]).value@
}

/// Whether a statement leaves out no column that must be given: one without a default that does not allow
/// NULL.
pub open spec fn gives_all_of(idents: Seq<Ident>, columns: Seq<ColumnDef>) -> bool {
    forall|p: int|
        0 <= p < columns.len() ==> names(idents, (#[trigger] columns[p]).name@) || columns[p].constraints.nullable
            || columns[p].constraints.default is Some
}

/// Whether a cell can stand in the column with a name.
pub open spec fn can_be_given(
    expr: Expr,
    defs: Seq<ColumnDef>,
    name: Seq<char>,
    readings: Seq<NumberReading>,
) -> bool {
    exists|i: int, v: Value| #[trigger]
        filter_laws::is_column_named(defs, i, name) && #[trigger] is_cell_of(expr, defs[i], readings, v)
}

/// Whether every cell of a list of rows can stand in its column.
pub open spec fn are_cells(
    rows: Seq<Vec<Expr>>,
    idents: Seq<Ident>,
    defs: Seq<ColumnDef>,
    readings: Seq<NumberReading>,
) -> bool {
    forall|r: int, c: int|
        0 <= r < rows.len() && 0 <= c < idents.len() ==> can_be_given(
            #[trigger] rows[r]@[c],
            defs,
            idents[c].value@,
            readings,
        )
}

proof fn lemma_cell(expr: Expr, t: ValueType, readings: Seq<NumberReading>)
    ensures
        insert::cell_value(expr, t, readings) matches Ok(v) ==> is_cell(expr, t, readings, v),
        forall|v: Value| #[trigger] is_cell(expr, t, readings, v) ==> insert::cell_value(expr, t, readings) is Ok,
{
    reveal_strlit("-");
    assert("-"@ =~= seq!['-']);
    match expr {
        Expr::Value(lit) => literal_laws::lemma_literal_is_what_it_stands_for(lit, t, readings),
        Expr::UnaryOp { op, expr: inner } => {
            if let Expr::Value(lit) = *inner {
                if let SqlValue::Number(n, _) = lit.value {
                    literal_laws::lemma_number_is_the_one_written(n@, t, readings);
                    literal_laws::lemma_number_is_the_one_written("-"@ + n@, t, readings);
                }
            }
        },
        _ => {},
    }
}

/// NULL is written by the literal NULL alone.
proof fn lemma_null_cell(expr: Expr, t: ValueType, readings: Seq<NumberReading>, v: Value, w: Value)
    requires
        is_cell(expr, t, readings, v),
        is_cell(expr, t, readings, w),
    ensures
        v is Null <==> w is Null,
{
}

proof fn lemma_inserted(expr: Expr, def: ColumnDef, readings: Seq<NumberReading>)
    ensures
        insert::inserted_value(expr, def, readings) matches Ok(v) ==> is_cell_of(expr, def, readings, v),
        forall|v: Value| #[trigger]
            is_cell_of(expr, def, readings, v) ==> insert::inserted_value(expr, def, readings) is Ok,
{
    lemma_cell(expr, def.field_type, readings);
    assert forall|v: Value| #[trigger] is_cell_of(expr, def, readings, v) implies insert::inserted_value(
        expr,
        def,
        readings,
    ) is Ok by {
        assert(is_cell(expr, def.field_type, readings, v));
        let w = insert::cell_value(expr, def.field_type, readings)->Ok_0;
        lemma_null_cell(expr, def.field_type, readings, v, w);
    }
}

proof fn lemma_repeated(idents: Seq<Ident>, i: int)
    requires
        0 <= i <= idents.len(),
    ensures
        insert::repeated_from(idents, i) is None <==> forall|k: int, j: int|
            0 <= k < j < idents.len() && i <= j ==> (#[trigger] idents[k]).value@ != (#[trigger] idents[j]).value@,
    decreases idents.len() - i,
{
    if i < idents.len() {
        lemma_repeated(idents, i + 1);
        if insert::among(idents, i, idents[i].value@) {
            let j = choose|j: int| 0 <= j < i && (#[trigger] idents[j]).value@ == idents[i].value@;
            assert(idents[j].value@ == idents[i].value@);
        } else {
            assert forall|k: int| 0 <= k < i implies (#[trigger] idents[k]).value@ != idents[i].value@ by {}
        }
    }
}

proof fn lemma_resolved(idents: Seq<Ident>, i: int, acc: Seq<ColumnDef>, columns: Seq<ColumnDef>)
    requires
        0 <= i == acc.len() <= idents.len(),
        forall|j: int| 0 <= j < i ==> is_one_named(columns, idents[j].value@, #[trigger] acc[j]),
    ensures
        insert::resolved_from(idents, i, acc, columns) matches Ok(out) ==> out.len() == idents.len() && forall|j: int|
            0 <= j < out.len() ==> is_one_named(columns, idents[j].value@, #[trigger] out[j]),
        insert::resolved_from(idents, i, acc, columns) is Ok <==> forall|j: int|
            i <= j < idents.len() ==> has_named(columns, (#[trigger] idents[j]).value@),
    decreases idents.len() - i,
{
    if i < idents.len() {
        let name = idents[i].value@;
        lemma_named(columns, name);
        if let Some(k) = search::position(columns, column::named(name)) {
            assert(is_one_named(columns, name, columns[k]));
            lemma_resolved(idents, i + 1, acc.push(columns[k]), columns);
        } else {
            assert(!has_named(columns, idents[i].value@));
        }
    }
}

/// Whether a column is the first with a name.
spec fn is_one_named(columns: Seq<ColumnDef>, name: Seq<char>, def: ColumnDef) -> bool {
    exists|i: int| #[trigger] filter_laws::is_column_named(columns, i, name) && def == columns[i]
}

/// Whether columns have one with a name.
pub open spec fn has_named(columns: Seq<ColumnDef>, name: Seq<char>) -> bool {
    exists|i: int| #[trigger] filter_laws::is_column_named(columns, i, name)
}

proof fn lemma_named(columns: Seq<ColumnDef>, name: Seq<char>)
    ensures
        search::position(columns, column::named(name)) matches Some(k) ==> filter_laws::is_column_named(
            columns,
            k,
            name,
        ),
        forall|i: int| #[trigger]
            filter_laws::is_column_named(columns, i, name) ==> search::position(columns, column::named(name)) == Some(
                i,
            ),
{
    let f = column::named(name);
    search::lemma_position(columns, f);
    match search::position(columns, f) {
        Some(k) => {
            assert(f(columns[k]));
            assert forall|j: int| 0 <= j < k implies (#[trigger] columns[j]).name@ != name by {
                assert(!f(columns[j]));
            }
            assert forall|i: int| #[trigger] filter_laws::is_column_named(columns, i, name) implies i == k by {
                assert(f(columns[i]));
                if k < i {
                    assert(columns[k].name@ != name);
                }
            }
        },
        None => {
            assert forall|i: int| !#[trigger] filter_laws::is_column_named(columns, i, name) by {
                if filter_laws::is_column_named(columns, i, name) {
                    assert(!f(columns[i]));
                }
            }
        },
    }
}

proof fn lemma_missing(idents: Seq<Ident>, columns: Seq<ColumnDef>)
    ensures
        search::position(columns, insert::is_missing(idents)) is None <==> gives_all_of(idents, columns),
{
    let f = insert::is_missing(idents);
    search::lemma_position(columns, f);
    assert forall|c: ColumnDef|
        names(idents, c.name@) || c.constraints.nullable || c.constraints.default is Some implies !#[trigger] f(
        c,
    ) by {}
    match search::position(columns, f) {
        Some(k) => {
            assert(f(columns[k]));
            assert(!insert::among(idents, idents.len() as int, columns[k].name@));
            assert(!names(idents, columns[k].name@));
        },
        None => {
            assert forall|p: int| 0 <= p < columns.len() implies names(idents, (#[trigger] columns[p]).name@)
                || columns[p].constraints.nullable || columns[p].constraints.default is Some by {
                assert(!f(columns[p]));
            }
        },
    }
}

proof fn lemma_row(row: Seq<Expr>, c: int, defs: Seq<ColumnDef>, data: Seq<Seq<Value>>, readings: Seq<NumberReading>)
    requires
        0 <= c <= row.len(),
        defs.len() == row.len(),
        data.len() == row.len(),
    ensures
        insert::row_added(row, c, defs, data, readings) matches Ok(out) ==> {
            &&& out.len() == row.len()
            &&& forall|j: int| 0 <= j < c ==> #[trigger] out[j] == data[j]
            &&& forall|j: int|
                c <= j < row.len() ==> (#[trigger] out[j]).len() == data[j].len() + 1 && is_cell_of(
                    row[j],
                    defs[j],
                    readings,
                    out[j].last(),
                ) && forall|k: int| 0 <= k < data[j].len() ==> #[trigger] out[j][k] == data[j][k]
        },
        insert::row_added(row, c, defs, data, readings) is Ok <==> forall|j: int|
            c <= j < row.len() ==> can_stand(#[trigger] row[j], defs[j], readings),
    decreases row.len() - c,
{
    if c < row.len() {
        lemma_inserted(row[c], defs[c], readings);
        match insert::inserted_value(row[c], defs[c], readings) {
            Ok(v) => {
                assert(can_stand(row[c], defs[c], readings));
                let next = data.update(c, data[c].push(v));
                lemma_row(row, c + 1, defs, next, readings);
                if let Ok(out) = insert::row_added(row, c, defs, data, readings) {
                    assert(out[c] == next[c]);
                    assert forall|j: int| c <= j < row.len() implies (#[trigger] out[j]).len() == data[j].len() + 1
                        && is_cell_of(row[j], defs[j], readings, out[j].last()) && forall|k: int|
                        0 <= k < data[j].len() ==> #[trigger] out[j][k] == data[j][k] by {
                        if j > c {
                            assert(next[j] == data[j]);
                        }
                    }
                }
            },
            Err(_) => {
                assert(!can_stand(row[c], defs[c], readings));
            },
        }
    }
}

/// Whether there is a value that may stand in a cell.
spec fn can_stand(expr: Expr, def: ColumnDef, readings: Seq<NumberReading>) -> bool {
    exists|v: Value| #[trigger] is_cell_of(expr, def, readings, v)
}

/// Whether data hold, for each column, what the cells of the first `n` rows write.
spec fn holds_cells(
    data: Seq<Seq<Value>>,
    rows: Seq<Seq<Expr>>,
    n: int,
    defs: Seq<ColumnDef>,
    readings: Seq<NumberReading>,
) -> bool {
    &&& data.len() == defs.len()
    &&& forall|j: int| 0 <= j < defs.len() ==> (#[trigger] data[j]).len() == n
    &&& forall|j: int, k: int|
        0 <= j < defs.len() && 0 <= k < n ==> is_cell_of(rows[k][j], defs[j], readings, #[trigger] data[j][k])
}

/// Whether the cells of the rows from position `r` on can stand in their columns.
spec fn can_all_stand(rows: Seq<Seq<Expr>>, r: int, defs: Seq<ColumnDef>, readings: Seq<NumberReading>) -> bool {
    forall|k: int, j: int| r <= k < rows.len() && 0 <= j < defs.len() ==> can_stand(#[trigger] rows[k][j], defs[j], readings)
}

proof fn lemma_rows(
    rows: Seq<Seq<Expr>>,
    r: int,
    defs: Seq<ColumnDef>,
    data: Seq<Seq<Value>>,
    readings: Seq<NumberReading>,
)
    requires
        0 <= r <= rows.len(),
        forall|k: int| 0 <= k < rows.len() ==> (#[trigger] rows[k]).len() == defs.len(),
        holds_cells(data, rows, r, defs, readings),
    ensures
        insert::rows_added(rows, r, defs, data, readings) matches Ok(out) ==> holds_cells(
            out,
            rows,
            rows.len() as int,
            defs,
            readings,
        ),
        insert::rows_added(rows, r, defs, data, readings) is Ok <==> can_all_stand(rows, r, defs, readings),
    decreases rows.len() - r,
{
    if r < rows.len() {
        lemma_row(rows[r], 0, defs, data, readings);
        match insert::row_added(rows[r], 0, defs, data, readings) {
            Ok(next) => {
                assert forall|j: int, k: int| 0 <= j < defs.len() && 0 <= k < r + 1 implies is_cell_of(
                    rows[k][j],
                    defs[j],
                    readings,
                    #[trigger] next[j][k],
                ) by {
                    assert(next[j].len() == data[j].len() + 1);
                    if k < r {
                        assert(next[j][k] == data[j][k]);
                    } else {
                        assert(next[j][k] == next[j].last());
                    }
                }
                lemma_rows(rows, r + 1, defs, next, readings);
                if can_all_stand(rows, r + 1, defs, readings) {
                    assert forall|k: int, j: int| r <= k < rows.len() && 0 <= j < defs.len() implies can_stand(
                        #[trigger] rows[k][j],
                        defs[j],
                        readings,
                    ) by {
                        if k == r {
                            assert(can_stand(rows[r][j], defs[j], readings));
                        }
                    }
                }
            },
            Err(_) => {
                let j = choose|j: int| 0 <= j < rows[r].len() && !can_stand(#[trigger] rows[r][j], defs[j], readings);
                assert(!can_stand(rows[r][j], defs[j], readings));
            },
        }
    }
}

proof fn lemma_filled(
    defs: Seq<ColumnDef>,
    i: int,
    acc: Seq<PhysicalColumnView>,
    idents: Seq<Ident>,
    n: nat,
    m: int,
    at: Seq<int>,
)
    requires
        0 <= i <= defs.len(),
        0 <= m,
        gives_all_of(idents, defs),
        are_left_out(acc, m, defs, at, n),
        forall|k: int| 0 <= k < at.len() ==> #[trigger] at[k] < i,
        forall|p: int| 0 <= p < i ==> (#[trigger] at.contains(p) <==> !names(idents, defs[p].name@)),
    ensures
        ({
            let out = insert::defaults_added(defs, i, acc, idents, n);
            &&& acc.len() <= out.len()
            &&& forall|k: int| 0 <= k < acc.len() ==> #[trigger] out[k] == acc[k]
            &&& exists|all: Seq<int>| #[trigger] are_left_out(out, m, defs, all, n) && are_unnamed(all, defs, idents)
        }),
    decreases defs.len() - i,
{
    if i < defs.len() {
        let c = defs[i];
        assert(insert::among(idents, idents.len() as int, c.name@) == names(idents, c.name@));
        assert(!at.contains(i)) by {
            if at.contains(i) {
                let k = choose|k: int| 0 <= k < at.len() && at[k] == i;
                assert(at[k] < i);
            }
        }
        if names(idents, c.name@) {
            lemma_filled(defs, i + 1, acc, idents, n, m, at);
        } else {
            let v = match c.constraints.default {
                Some(v) => v,
                None => Value::Null,
            };
            let column = PhysicalColumnView { column_def: c, data: insert::repeated(v, n) };
            let next = acc.push(column);
            let more = at.push(i);
            assert(is_left_out(column, c, n));
            assert forall|k: int| 0 <= k < more.len() implies 0 <= #[trigger] more[k] < defs.len() && is_left_out(
                next[m + k],
                defs[more[k]],
                n,
            ) by {
                if k < at.len() {
                    assert(more[k] == at[k]);
                    assert(next[m + k] == acc[m + k]);
                } else {
                    assert(next[m + k] == column);
                }
            }
            assert forall|p: int| 0 <= p < i + 1 implies (#[trigger] more.contains(p) <==> !names(
                idents,
                defs[p].name@,
            )) by {
                if p < i {
                    if at.contains(p) {
                        let k = choose|k: int| 0 <= k < at.len() && at[k] == p;
                        assert(more[k] == p);
                    }
                    if more.contains(p) {
                        let k = choose|k: int| 0 <= k < more.len() && more[k] == p;
                        assert(at[k] == p);
                    }
                } else {
                    assert(more[at.len() as int] == p);
                }
            }
            lemma_filled(defs, i + 1, next, idents, n, m, more);
            let out = insert::defaults_added(defs, i, acc, idents, n);
            assert forall|k: int| 0 <= k < acc.len() implies #[trigger] out[k] == acc[k] by {
                assert(out[k] == next[k]);
            }
        }
    } else {
        assert(are_left_out(acc, m, defs, at, n) && are_unnamed(at, defs, idents));
    }
}

/// What an INSERT puts into a table: first the columns that it names, in their order, each holding in every
/// row what the row's cell writes; then every column that it does not name, each once, holding its declared
/// default in every row where it has one, and NULL only where it has none.
pub open spec fn is_insert_of(
    statement: Insert,
    defs: Seq<ColumnDef>,
    readings: Seq<NumberReading>,
    columns: Seq<PhysicalColumnView>,
) -> bool {
    let idents = statement.columns@;
    let rows = listed_rows(statement);
    &&& columns.len() >= idents.len()
    &&& forall|c: int|
        0 <= c < idents.len() ==> is_given(#[trigger] columns[c], defs, idents[c].value@, rows, c, readings)
    &&& exists|at: Seq<int>| #[trigger]
        are_left_out(columns, idents.len() as int, defs, at, rows.len()) && are_unnamed(at, defs, idents)
}

/// Whether an INSERT can be carried out on a table: it names at least one column, none twice and all of the
/// table; it leaves out none that must be given; it lists at least one row, each with one cell for each
/// column named; and every cell can stand in its column.
pub open spec fn can_be_inserted(statement: Insert, schema: TableSchemaView, readings: Seq<NumberReading>) -> bool {
    let idents = statement.columns@;
    let rows = listed_rows(statement);
    &&& idents.len() > 0
    &&& are_distinct(idents)
    &&& forall|c: int| 0 <= c < idents.len() ==> has_named(schema.columns, (#[trigger] idents[c]).value@)
    &&& gives_all_of(idents, schema.columns)
    &&& gives_all_of(idents, schema.order_by)
    &&& gives_all_of(idents, schema.primary_key)
    &&& rows.len() > 0
    &&& forall|r: int| 0 <= r < rows.len() ==> (#[trigger] rows[r])@.len() == idents.len()
    &&& are_cells(rows, idents, schema.columns, readings)
}

proof fn lemma_entry(entries: Seq<CatalogEntry>, at: int, statement: Insert)
    requires
        statement.table is TableName,
        select_laws::is_entry_named(entries, at, statement.table->TableName_0.0@),
    ensures
        table_def::table_named(statement.table->TableName_0.0@) is Ok,
        ({
            let t = table_def::table_named(statement.table->TableName_0.0@)->Ok_0;
            &&& t.database@ == entries[at].table.database@
            &&& t.table@ == entries[at].table.table@
            &&& runtime_config::schema_of(entries, t) == Some(entries[at].schema@)
        }),
{
    let t = table_def::table_named(statement.table->TableName_0.0@)->Ok_0;
    let p = runtime_config::entry_of(t);
    search::lemma_position(entries, p);
    assert(p(entries[at]));
    let k = search::position(entries, p)->Some_0;
    if k < at {
        assert(p(entries[k]));
    }
}

proof fn lemma_source(statement: Insert)
    ensures
        match insert::source_rows(statement.source) {
            Ok(rows) => rows.len() == listed_rows(statement).len() && forall|r: int|
                0 <= r < rows.len() ==> #[trigger] rows[r] == listed_rows(statement)[r]@,
            Err(_) => listed_rows(statement).len() == 0,
        },
{
}

/// An INSERT that is accepted puts into the table that it names exactly what it says: see [`is_insert_of`].
pub proof fn lemma_insert_puts_what_is_written(
    statement: Insert,
    entries: Seq<CatalogEntry>,
    at: int,
    readings: Seq<NumberReading>,
    p: PlanView,
)
    requires
        statement.table is TableName,
        select_laws::is_entry_named(entries, at, statement.table->TableName_0.0@),
        insert::insert_plan(statement, entries, readings) == Ok::<PlanView, ErrorView>(p),
    ensures
        p is Insert,
        p->Insert_table_def.database@ == entries[at].table.database@,
        p->Insert_table_def.table@ == entries[at].table.table@,
        is_insert_of(statement, entries[at].schema.columns@, readings, p->Insert_columns),
{
    lemma_entry(entries, at, statement);
    let schema = entries[at].schema@;
    let idents = statement.columns@;
    let defs = insert::resolved_from(idents, 0, seq![], schema.columns)->Ok_0;
    let rows = insert::source_rows(statement.source)->Ok_0;
    let data = insert::populated(rows, defs, readings)->Ok_0;
    let listed = listed_rows(statement);
    lemma_source(statement);
    lemma_resolved(idents, 0, seq![], schema.columns);
    lemma_missing(idents, schema.columns);
    assert forall|k: int| 0 <= k < rows.len() implies (#[trigger] rows[k]).len() == defs.len() by {
        if rows[k].len() != rows[0].len() {
            assert(exists|i: int| 0 <= i < rows.len() && (#[trigger] rows[i]).len() != rows[0].len());
        }
    }
    lemma_rows(rows, 0, defs, insert::no_data(defs.len()), readings);
    let named = insert::with_data(defs, data);
    assert(are_left_out(named, idents.len() as int, schema.columns, seq![], rows.len()));
    lemma_filled(schema.columns, 0, named, idents, rows.len(), idents.len() as int, seq![]);
    let columns = p->Insert_columns;
    assert(columns == insert::defaults_added(schema.columns, 0, named, idents, rows.len()));
    assert forall|c: int| 0 <= c < idents.len() implies is_given(
        #[trigger] columns[c],
        schema.columns,
        idents[c].value@,
        listed,
        c,
        readings,
    ) by {
        assert(columns[c] == named[c]);
        assert(is_one_named(schema.columns, idents[c].value@, defs[c]));
        assert forall|r: int| 0 <= r < listed.len() implies is_cell_of(
            listed[r]@[c],
            columns[c].column_def,
            readings,
            #[trigger] columns[c].data[r],
        ) by {
            assert(rows[r] == listed[r]@);
            assert(is_cell_of(rows[r][c], defs[c], readings, data[c][r]));
        }
    }
}

/// An INSERT is accepted exactly when it can be carried out: see [`can_be_inserted`].
pub proof fn lemma_insert_is_accepted_where_it_can_be_carried_out(
    statement: Insert,
    entries: Seq<CatalogEntry>,
    at: int,
    readings: Seq<NumberReading>,
)
    requires
        statement.table is TableName,
        select_laws::is_entry_named(entries, at, statement.table->TableName_0.0@),
    ensures
        insert::insert_plan(statement, entries, readings) is Ok <==> can_be_inserted(
            statement,
            entries[at].schema@,
            readings,
        ),
{
    lemma_entry(entries, at, statement);
    let schema = entries[at].schema@;
    let idents = statement.columns@;
    let listed = listed_rows(statement);
    lemma_source(statement);
    lemma_repeated(idents, 0);
    lemma_resolved(idents, 0, seq![], schema.columns);
    lemma_missing(idents, schema.columns);
    lemma_missing(idents, schema.order_by);
    lemma_missing(idents, schema.primary_key);
    let t = table_def::table_named(statement.table->TableName_0.0@)->Ok_0;
    let planned = insert::insert_plan(statement, entries, readings);
    assert(planned == insert::insert_into(statement, t, schema, readings));
    let defs = insert::resolved_from(idents, 0, seq![], schema.columns)->Ok_0;
    let rows = insert::source_rows(statement.source)->Ok_0;
    let none = insert::no_data(defs.len());
    if planned is Ok {
        assert(idents.len() > 0);
        assert(insert::repeated_from(idents, 0) is None);
        assert(insert::missing_error(idents, schema) is None);
        assert(insert::populated(rows, defs, readings) is Ok);
        assert forall|k: int| 0 <= k < rows.len() implies (#[trigger] rows[k]).len() == defs.len() by {
            if rows[k].len() != rows[0].len() {
                assert(exists|i: int| 0 <= i < rows.len() && (#[trigger] rows[i]).len() != rows[0].len());
            }
        }
        lemma_rows(rows, 0, defs, none, readings);
        lemma_all_cells(listed, rows, idents, schema.columns, defs, readings);
        assert forall|r: int| 0 <= r < listed.len() implies (#[trigger] listed[r])@.len() == idents.len() by {
            assert(rows[r] == listed[r]@);
        }
        assert(can_be_inserted(statement, schema, readings));
    }
    if can_be_inserted(statement, schema, readings) {
        assert forall|k: int| 0 <= k < rows.len() implies (#[trigger] rows[k]).len() == defs.len() by {
            assert(listed[k]@.len() == idents.len());
        }
        lemma_rows(rows, 0, defs, none, readings);
        lemma_all_cells(listed, rows, idents, schema.columns, defs, readings);
        assert(rows[0].len() == defs.len());
        assert(insert::populated(rows, defs, readings) == insert::rows_added(rows, 0, defs, none, readings));
    }
}

proof fn lemma_all_cells(
    listed: Seq<Vec<Expr>>,
    rows: Seq<Seq<Expr>>,
    idents: Seq<Ident>,
    columns: Seq<ColumnDef>,
    defs: Seq<ColumnDef>,
    readings: Seq<NumberReading>,
)
    requires
        rows.len() == listed.len(),
        forall|r: int| 0 <= r < rows.len() ==> #[trigger] rows[r] == listed[r]@,
        defs.len() == idents.len(),
        forall|j: int| 0 <= j < defs.len() ==> is_one_named(columns, idents[j].value@, #[trigger] defs[j]),
    ensures
        can_all_stand(rows, 0, defs, readings) <==> are_cells(listed, idents, columns, readings),
{
    if can_all_stand(rows, 0, defs, readings) {
        assert forall|r: int, c: int| 0 <= r < listed.len() && 0 <= c < idents.len() implies can_be_given(
            #[trigger] listed[r]@[c],
            columns,
            idents[c].value@,
            readings,
        ) by {
            assert(rows[r] == listed[r]@);
            assert(can_stand(rows[r][c], defs[c], readings));
            let v = choose|v: Value| #[trigger] is_cell_of(rows[r][c], defs[c], readings, v);
            assert(is_one_named(columns, idents[c].value@, defs[c]));
            let i = choose|i: int| #[trigger]
                filter_laws::is_column_named(columns, i, idents[c].value@) && defs[c] == columns[i];
            assert(filter_laws::is_column_named(columns, i, idents[c].value@) && is_cell_of(
                listed[r]@[c],
                columns[i],
                readings,
                v,
            ));
        }
    }
    if are_cells(listed, idents, columns, readings) {
        assert forall|k: int, j: int| 0 <= k < rows.len() && 0 <= j < defs.len() implies can_stand(
            #[trigger] rows[k][j],
            defs[j],
            readings,
        ) by {
            assert(rows[k] == listed[k]@);
            let cell = listed[k]@[j];
            assert(can_be_given(cell, columns, idents[j].value@, readings));
            let (i, v) = choose|i: int, v: Value| #[trigger]
                filter_laws::is_column_named(columns, i, idents[j].value@) && #[trigger] is_cell_of(
                    cell,
                    columns[i],
                    readings,
                    v,
                );
            assert(is_one_named(columns, idents[j].value@, defs[j]));
            let own = choose|i: int| #[trigger]
                filter_laws::is_column_named(columns, i, idents[j].value@) && defs[j] == columns[i];
            lemma_named(columns, idents[j].value@);
            assert(i == own);
            assert(is_cell_of(rows[k][j], defs[j], readings, v));
        }
    }
}

} // verus!
