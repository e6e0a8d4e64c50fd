//! CREATE TABLE.
use vstd::prelude::*;
use vstd::string::*;

use crate::engines;
use crate::engines::EngineName;
use crate::error::{Error, ErrorView, Outcome};
use crate::error;
use crate::search;
use crate::sql;
use crate::sql::ast;
use crate::sql::ast::{
    ColumnDecl, ColumnOption, ColumnOptionDef, CreateTable, CreateTableOptions, Expr, Ident, SqlOption,
};
use crate::sql::logical_plan::plan::{LogicalPlan, PlanView};
use crate::storage::column;
use crate::storage::column::{ColumnDef, Constraints};
use crate::storage::compression::CompressionType;
use crate::storage::literal;
use crate::storage::numbers::{NumberReading, Numbers};
use crate::storage::table_def;
use crate::storage::table_def::TableDef;
use crate::storage::table_metadata;
use crate::storage::table_metadata::TableSettings;
use crate::storage::value::{Value, ValueType};
use crate::text;
use crate::text::{concat2, concat3, to_lowercase};

verus! {

/// The constraints that the options from position `i` on declare, behind what was declared before.
pub open spec fn constraints_from(
    options: Seq<ColumnOptionDef>,
    i: int,
    nullable: Option<bool>,
    default: Option<Value>,
    t: ValueType,
    readings: Seq<NumberReading>,
) -> Result<Constraints, ErrorView>
    decreases options.len() - i,
{
    if i >= options.len() {
        Ok(
            Constraints {
                nullable: match nullable {
                    Some(b) => b,
                    None => true,
                },
                default,
                compression_type: CompressionType::LZ4(3),
            },
        )
    } else {
        match options[i].option {
            ColumnOption::Null => if nullable is Some {
                Err(ErrorView::UnsupportedColumnConstraint("Invalid NULL constraint"@))
            } else {
                constraints_from(options, i + 1, Some(true), default, t, readings)
            },
            ColumnOption::NotNull => if nullable is Some {
                Err(ErrorView::UnsupportedColumnConstraint("Invalid NULL constraint"@))
            } else {
                constraints_from(options, i + 1, Some(false), default, t, readings)
            },
            ColumnOption::Default(expr) => match expr {
                Expr::Value(lit) => match literal::typed_value(lit, t, readings) {
                    Ok(v) => constraints_from(options, i + 1, nullable, Some(v), t, readings),
                    Err(e) => Err(e),
                },
                _ => Err(
                    ErrorView::UnsupportedColumnConstraint(
                        "Non-literal default values are not supported"@,
                    ),
                ),
            },
            ColumnOption::Other(text) => Err(ErrorView::UnsupportedColumnConstraint(text@)),
        }
    }
}

/// Whether one of the declarations before position `i` has a given name.
pub open spec fn declared_before(decls: Seq<ColumnDecl>, i: int, name: Seq<char>) -> bool {
    exists|j: int| 0 <= j < i && (#[trigger] decls[j]).name.value@ == name
}

/// The column that the declaration at position `i` declares.
pub open spec fn declared_column(
    decls: Seq<ColumnDecl>,
    i: int,
    readings: Seq<NumberReading>,
) -> Result<ColumnDef, ErrorView> {
    let decl = decls[i];
    if !sql::is_name(decl.name.value@) || declared_before(decls, i, decl.name.value@) {
        Err(ErrorView::InvalidColumnName(decl.name.value@))
    } else {
        match literal::declared_type(decl.data_type) {
            Err(e) => Err(e),
            Ok(field_type) => match constraints_from(
                decl.options@,
                0,
                None,
                None,
                field_type,
                readings,
            ) {
                Err(e) => Err(e),
                Ok(constraints) => Ok(ColumnDef { name: decl.name.value, field_type, constraints }),
            },
        }
    }
}

/// The columns that the declarations from position `i` on declare, behind those before.
pub open spec fn columns_from(
    decls: Seq<ColumnDecl>,
    i: int,
    acc: Seq<ColumnDef>,
    readings: Seq<NumberReading>,
) -> Result<Seq<ColumnDef>, ErrorView>
    decreases decls.len() - i,
{
    if i >= decls.len() {
        Ok(acc)
    } else {
        match declared_column(decls, i, readings) {
            Err(e) => Err(e),
            Ok(c) => columns_from(decls, i + 1, acc.push(c), readings),
        }
    }
}

/// What an option with a given lower-case key does to the settings.
pub open spec fn option_applied(
    key: Seq<char>,
    name: Option<Ident>,
    settings: TableSettings,
) -> Result<TableSettings, ErrorView> {
    if key == "engine"@ {
        match name {
            None => Err(ErrorView::InvalidEngineName),
            Some(ident) => match engines::engine_named(ident.value@) {
                Ok(engine) => Ok(TableSettings { engine, ..settings }),
                Err(e) => Err(e),
            },
        }
    } else {
        Err(ErrorView::InvalidEngineName)
    }
}

/// The settings that the options of a table declare. At most one is accepted, and it is the engine.
pub open spec fn declared_settings(options: CreateTableOptions) -> Result<TableSettings, ErrorView> {
    match options {
        CreateTableOptions::Absent => Ok(table_metadata::default_settings()),
        CreateTableOptions::Plain(list) => if list@.len() == 0 {
            Ok(table_metadata::default_settings())
        } else if list@.len() > 1 {
            Err(ErrorView::InvalidEngineName)
        } else {
            match list@[0] {
                SqlOption::Other => Err(ErrorView::InvalidEngineName),
                SqlOption::NamedParenthesizedList { key, name } => option_applied(
                    text::lowercased(key.value@),
                    name,
                    table_metadata::default_settings(),
                ),
            }
        },
        CreateTableOptions::Other => Err(ErrorView::InvalidEngineName),
    }
}

/// Whether one of the expressions before position `i` names a given column.
pub open spec fn named_before(params: Seq<Expr>, i: int, name: Seq<char>) -> bool {
    exists|j: int|
        0 <= j < i && (#[trigger] params[j] matches Expr::Identifier(ident) && ident.value@ == name)
}

/// The columns that the ORDER BY items from position `i` on name, behind those before.
pub open spec fn order_from(
    params: Seq<Expr>,
    i: int,
    acc: Seq<ColumnDef>,
    columns: Seq<ColumnDef>,
) -> Result<Seq<ColumnDef>, ErrorView>
    decreases params.len() - i,
{
    if i >= params.len() {
        Ok(acc)
    } else {
        match params[i] {
            Expr::Identifier(ident) => match search::position(columns, column::named(ident.value@)) {
                None => Err(
                    ErrorView::InvalidOrderBy("Could not find column: "@ + ident.value@),
                ),
                Some(k) => if named_before(params, i, ident.value@) {
                    Err(ErrorView::InvalidOrderBy("Duplicate column: "@ + ident.value@))
                } else {
                    order_from(params, i + 1, acc.push(columns[k]), columns)
                },
            },
            _ => Err(
                ErrorView::InvalidOrderBy(
                    "Could not parse order by param: "@ + ast::expr_text(params[i]),
                ),
            ),
        }
    }
}

/// The columns that the items of an ORDER BY name.
pub open spec fn declared_order(params: Seq<Expr>, columns: Seq<ColumnDef>) -> Result<
    Seq<ColumnDef>,
    ErrorView,
> {
    if params.len() == 0 {
        Err(ErrorView::InvalidOrderBy("No ORDER BY columns found"@))
    } else {
        order_from(params, 0, seq![], columns)
    }
}

/// The column that an identifier of a PRIMARY KEY names.
pub open spec fn key_column(ident: Ident, columns: Seq<ColumnDef>) -> Result<ColumnDef, ErrorView> {
    match search::position(columns, column::named(ident.value@)) {
        Some(k) => Ok(columns[k]),
        None => Err(
            ErrorView::ColumnNotFound("Column specified ("@ + ident.value@ + ") was not found"@),
        ),
    }
}

/// The columns that the items of a PRIMARY KEY from position `i` on name, behind those before.
pub open spec fn key_from(
    items: Seq<Expr>,
    i: int,
    acc: Seq<ColumnDef>,
    columns: Seq<ColumnDef>,
) -> Result<Seq<ColumnDef>, ErrorView>
    decreases items.len() - i,
{
    if i >= items.len() {
        Ok(acc)
    } else {
        match items[i] {
            Expr::Identifier(ident) => match key_column(ident, columns) {
                Ok(c) => if named_before(items, i, ident.value@) {
                    Err(ErrorView::InvalidOrderBy("Duplicate column: "@ + ident.value@))
                } else {
                    key_from(items, i + 1, acc.push(c), columns)
                },
                Err(e) => Err(e),
            },
            _ => Err(ErrorView::InvalidOrderBy("Invalid specifier: "@ + ast::expr_text(items[i]))),
        }
    }
}

/// A list of the one column that an identifier names.
pub open spec fn single_key(ident: Ident, columns: Seq<ColumnDef>) -> Result<Seq<ColumnDef>, ErrorView> {
    match key_column(ident, columns) {
        Ok(c) => Ok(seq![c]),
        Err(e) => Err(e),
    }
}

/// The columns that a PRIMARY KEY names.
pub open spec fn declared_key(key: Expr, columns: Seq<ColumnDef>) -> Result<Seq<ColumnDef>, ErrorView> {
    match key {
        Expr::Identifier(ident) => single_key(ident, columns),
        Expr::Tuple(items) => if items@.len() == 0 {
            Err(ErrorView::InvalidOrderBy("No PRIMARY KEY columns found"@))
        } else {
            key_from(items@, 0, seq![], columns)
        },
        Expr::Nested(inner) => match *inner {
            Expr::Identifier(ident) => single_key(ident, columns),
            _ => Err(ErrorView::InvalidOrderBy("Nested primary keys are unsupported"@)),
        },
        _ => Err(ErrorView::InvalidOrderBy("Invalid primary key: "@ + ast::expr_text(key))),
    }
}

/// Whether the columns of the primary key are the first ones of those that are sorted by.
pub open spec fn is_prefix(key: Seq<ColumnDef>, order: Seq<ColumnDef>) -> bool {
    key.len() <= order.len() && forall|i: int|
        0 <= i < key.len() ==> column::column_def_eq(#[trigger] key[i], order[i])
}

/// The columns that are sorted by and those of the primary key. Where one is missing it is the
/// other; where both are, each is the first column.
pub open spec fn declared_sorting(
    order_by: Option<Vec<Expr>>,
    primary_key: Option<Expr>,
    columns: Seq<ColumnDef>,
) -> Result<(Seq<ColumnDef>, Seq<ColumnDef>), ErrorView> {
    match (order_by, primary_key) {
        (Some(o), Some(k)) => match declared_order(o@, columns) {
            Err(e) => Err(e),
            Ok(order) => match declared_key(k, columns) {
                Err(e) => Err(e),
                Ok(key) => if is_prefix(key, order) {
                    Ok((order, key))
                } else {
                    Err(ErrorView::InvalidOrderByPrimaryKeyPair)
                },
            },
        },
        (Some(o), None) => match declared_order(o@, columns) {
            Err(e) => Err(e),
            Ok(order) => Ok((order, order)),
        },
        (None, Some(k)) => match declared_key(k, columns) {
            Err(e) => Err(e),
            Ok(key) => Ok((key, key)),
        },
        (None, None) => Ok((seq![columns[0]], seq![columns[0]])),
    }
}

/// The plan for the creation of a table.
pub open spec fn create_table_plan(c: CreateTable, readings: Seq<NumberReading>) -> Result<
    PlanView,
    ErrorView,
> {
    match table_def::table_named(c.name.0@) {
        Err(e) => Err(e),
        Ok(name) => if !sql::is_name(name.table@) {
            Err(ErrorView::InvalidTableName)
        } else if c.columns@.len() == 0 {
            Err(ErrorView::NoColumnsSpecified)
        } else {
            match columns_from(c.columns@, 0, seq![], readings) {
                Err(e) => Err(e),
                Ok(columns) => match declared_settings(c.table_options) {
                    Err(e) => Err(e),
                    Ok(settings) => match declared_sorting(c.order_by, c.primary_key, columns) {
                        Err(e) => Err(e),
                        Ok((order_by, primary_key)) => Ok(
                            PlanView::CreateTable {
                                name,
                                if_not_exists: c.if_not_exists,
                                columns,
                                settings,
                                order_by,
                                primary_key,
                            },
                        ),
                    },
                },
            }
        },
    }
}

/// As many columns as declarations: none is lost.
proof fn lemma_columns_from_length(
    decls: Seq<ColumnDecl>,
    i: int,
    acc: Seq<ColumnDef>,
    readings: Seq<NumberReading>,
)
    requires
        0 <= i <= decls.len(),
        acc.len() == i,
    ensures
        columns_from(decls, i, acc, readings) matches Ok(columns) ==> columns.len() == decls.len(),
    decreases decls.len() - i,
{
    if i < decls.len() {
        if let Ok(c) = declared_column(decls, i, readings) {
            lemma_columns_from_length(decls, i + 1, acc.push(c), readings);
        }
    }
}

/// Whether every column is one of the declared ones.
pub open spec fn all_among(list: Seq<ColumnDef>, columns: Seq<ColumnDef>) -> bool {
    forall|i: int| 0 <= i < list.len() ==> columns.contains(#[trigger] list[i])
}

/// Whether no two of the columns have one name.
pub open spec fn named_apart(list: Seq<ColumnDef>) -> bool {
    forall|i: int, j: int| 0 <= i < j < list.len() ==> (#[trigger] list[i]).name@ != (#[trigger] list[j]).name@
}

/// Whether the columns are those that the first expressions name.
spec fn named_by(list: Seq<ColumnDef>, params: Seq<Expr>) -> bool {
    &&& list.len() <= params.len()
    &&& forall|j: int|
        #![trigger list[j]]
        #![trigger params[j]]
        0 <= j < list.len() ==> (params[j] matches Expr::Identifier(ident) && ident.value@ == list[j].name@)
}

proof fn lemma_order_from_among(
    params: Seq<Expr>,
    i: int,
    acc: Seq<ColumnDef>,
    columns: Seq<ColumnDef>,
)
    requires
        i == acc.len(),
        all_among(acc, columns),
        named_apart(acc),
        named_by(acc, params),
    ensures
        order_from(params, i, acc, columns) matches Ok(order) ==> all_among(order, columns) && named_apart(
            order,
        ),
    decreases params.len() - i,
{
    if i < params.len() {
        if let Expr::Identifier(ident) = params[i] {
            search::lemma_position(columns, column::named(ident.value@));
            if let Some(k) = search::position(columns, column::named(ident.value@)) {
                assert(columns.contains(columns[k]));
                if !named_before(params, i, ident.value@) {
                    lemma_order_from_among(params, i + 1, acc.push(columns[k]), columns);
                }
            }
        }
    }
}

proof fn lemma_key_from_among(items: Seq<Expr>, i: int, acc: Seq<ColumnDef>, columns: Seq<ColumnDef>)
    requires
        i == acc.len(),
        all_among(acc, columns),
        named_apart(acc),
        named_by(acc, items),
    ensures
        key_from(items, i, acc, columns) matches Ok(key) ==> all_among(key, columns) && named_apart(key),
    decreases items.len() - i,
{
    if i < items.len() {
        if let Expr::Identifier(ident) = items[i] {
            search::lemma_position(columns, column::named(ident.value@));
            if let Some(k) = search::position(columns, column::named(ident.value@)) {
                assert(columns.contains(columns[k]));
                if !named_before(items, i, ident.value@) {
                    lemma_key_from_among(items, i + 1, acc.push(columns[k]), columns);
                }
            }
        }
    }
}

/// No column is sorted by that does not exist, and where the key and the order are both given the
/// key is a prefix of the order: of a table that is created, the primary key is a prefix of the
/// ORDER BY columns, and both consist of columns of the table, none of them twice.
pub proof fn lemma_created_table_is_sorted_by_its_key(c: CreateTable, readings: Seq<NumberReading>)
    ensures
        create_table_plan(c, readings) matches Ok(PlanView::CreateTable {
            name,
            if_not_exists,
            columns,
            settings,
            order_by,
            primary_key,
        }) ==> {
            &&& columns.len() == c.columns@.len()
            &&& all_among(order_by, columns)
            &&& all_among(primary_key, columns)
            &&& named_apart(order_by)
            &&& named_apart(primary_key)
            &&& c.order_by is Some && c.primary_key is Some ==> is_prefix(primary_key, order_by)
            &&& !(c.order_by is Some && c.primary_key is Some) ==> primary_key == order_by
        },
{
    if let Ok(columns) = columns_from(c.columns@, 0, seq![], readings) {
        lemma_columns_from_length(c.columns@, 0, seq![], readings);
        if let Some(o) = c.order_by {
            lemma_order_from_among(o@, 0, seq![], columns);
        }
        if let Some(k) = c.primary_key {
            match k {
                Expr::Tuple(items) => lemma_key_from_among(items@, 0, seq![], columns),
                Expr::Identifier(ident) => {
                    search::lemma_position(columns, column::named(ident.value@));
                },
                Expr::Nested(inner) => {
                    if let Expr::Identifier(ident) = *inner {
                        search::lemma_position(columns, column::named(ident.value@));
                    }
                },
                _ => {},
            }
        }
        if columns.len() > 0 {
            assert(columns.contains(columns[0]));
        }
    }
}

/// A list of columns in a result, as a sequence.
pub open spec fn columns_outcome(r: Outcome<Vec<ColumnDef>>) -> Result<Seq<ColumnDef>, ErrorView> {
    match r {
        Ok(v) => Ok(v@),
        Err(e) => Err(e@),
    }
}

/// Applies an option with a lower-case key.
pub fn apply_option(key: &str, name: &Option<Ident>, settings: TableSettings) -> (r: Outcome<TableSettings>)
    ensures
        error::outcome(r) == option_applied(key@, *name, settings),
{
    if text::same_text(key, "engine") {
        match name {
            None => Err(Error::InvalidEngineName),
            Some(ident) => match EngineName::try_from(ident.value.as_str()) {
                Ok(engine) => Ok(
                    TableSettings { index_granularity: settings.index_granularity, engine },
                ),
                Err(e) => Err(e),
            },
        }
    } else {
        Err(Error::InvalidEngineName)
    }
}

/// Whether one of the expressions before position `i` names a given column.
fn is_named_before(params: &Vec<Expr>, i: usize, name: &str) -> (r: bool)
    requires
        i <= params@.len(),
    ensures
        r == named_before(params@, i as int, name@),
{
    let mut j: usize = 0;
    while j < i
        invariant
            j <= i <= params@.len(),
            !named_before(params@, j as int, name@),
        decreases i - j,
    {
        if let Expr::Identifier(other) = &params[j] {
            if text::same_text(other.value.as_str(), name) {
                return true;
            }
        }
        j += 1;
    }
    false
}

/// Parses an identifier and finds matching column definition.
///
/// Returns:
///   * Ok: `ColumnDef` when column with matching name is found.
///   * Error: `ColumnNotFound` when no matching column exists.
fn parse_column_def_ident(ident: &Ident, columns: &Vec<ColumnDef>) -> (r: Outcome<ColumnDef>)
    ensures
        error::outcome(r) == key_column(*ident, columns@),
{
    match column::position_named(columns, ident.value.as_str()) {
        Some(k) => Ok(columns[k].clone()),
        None => Err(
            Error::ColumnNotFound(
                concat3("Column specified (", ident.value.as_str(), ") was not found"),
            ),
        ),
    }
}

fn parse_single_key(ident: &Ident, columns: &Vec<ColumnDef>) -> (r: Outcome<Vec<ColumnDef>>)
    ensures
        columns_outcome(r) == single_key(*ident, columns@),
{
    match parse_column_def_ident(ident, columns) {
        Ok(c) => {
            let mut v: Vec<ColumnDef> = Vec::new();
            v.push(c);
            assert(v@ =~= seq![c]);
            Ok(v)
        },
        Err(e) => Err(e),
    }
}

impl LogicalPlan {
    /// Create a table as directory and .metadata file.
    ///
    /// Returns
    ///   * Ok: the plan, where the names, the columns, their types and the keys are valid.
    ///   * Error when:
    ///     1. Could not parse table and database names from query: `UnsupportedCommand`.
    ///     2. The table name is invalid: `InvalidTableName`.
    ///     3. There is no column: `NoColumnsSpecified`.
    ///     4. Any column name provided is invalid: `InvalidColumnName`.
    ///     5. Any column name is repeated in specification: `InvalidColumnName`.
    ///     6. Unsupported column type was provided: `UnsupportedColumnType`.
    ///     7. `parse_column_constraints` returns error.
    ///     8. `parse_table_options` returns error.
    ///     9. `create_parse_order_by` or `parse_primary_key` returns error.
    ///     10. PRIMARY KEY is not a prefix of ORDER BY: `InvalidOrderByPrimaryKeyPair`.
    pub fn from_create_table(create_table: &CreateTable, numbers: &Numbers) -> (r: Outcome<Self>)
        ensures
            error::outcome_view(r) == create_table_plan(*create_table, numbers.readings@),
    {
        let ghost readings = numbers.readings@;
        let name = match TableDef::try_from(&create_table.name) {
            Ok(name) => name,
            Err(e) => return Err(e),
        };
        if !sql::validate_name(name.table.as_str()) {
            return Err(Error::InvalidTableName);
        }
        if create_table.columns.len() == 0 {
            return Err(Error::NoColumnsSpecified);
        }
        let decls = &create_table.columns;
        let mut columns: Vec<ColumnDef> = Vec::new();
        let mut i: usize = 0;
        while i < decls.len()
            invariant
                i <= decls@.len(),
                decls@.len() > 0,
                decls == create_table.columns,
                readings == numbers.readings@,
                table_def::table_named(create_table.name.0@) == Ok::<TableDef, ErrorView>(name),
                sql::is_name(name.table@),
                columns_from(decls@, 0, seq![], readings) == columns_from(
                    decls@,
                    i as int,
                    columns@,
                    readings,
                ),
            decreases decls@.len() - i,
        {
            let decl = &decls[i];
            let mut j: usize = 0;
            let mut repeated = false;
            while j < i
                invariant
                    j <= i <= decls@.len(),
                    decl.name == decls@[i as int].name,
                    repeated == declared_before(decls@, j as int, decl.name.value@),
                decreases i - j,
            {
                if decls[j].name.value == decl.name.value {
                    repeated = true;
                }
                j += 1;
            }
            if !sql::validate_name(decl.name.value.as_str()) || repeated {
                return Err(Error::InvalidColumnName(decl.name.value.clone()));
            }
            let field_type = match ValueType::try_from(&decl.data_type) {
                Ok(t) => t,
                Err(e) => return Err(e),
            };
            let constraints = match Self::parse_column_constraints(
                decl.options.as_slice(),
                &field_type,
                numbers,
            ) {
                Ok(c) => c,
                Err(e) => return Err(e),
            };
            columns.push(ColumnDef { name: decl.name.value.clone(), field_type, constraints });
            i += 1;
        }
        proof {
            lemma_columns_from_length(decls@, 0, seq![], readings);
        }
        let settings = match Self::parse_table_options(&create_table.table_options) {
            Ok(s) => s,
            Err(e) => return Err(e),
        };
        let (order_by, primary_key) = match (&create_table.order_by, &create_table.primary_key) {
            (Some(order_by), Some(primary_key)) => {
                let order_by = match Self::create_parse_order_by(order_by, &columns) {
                    Ok(o) => o,
                    Err(e) => return Err(e),
                };
                let primary_key = match Self::parse_primary_key(primary_key, &columns) {
                    Ok(k) => k,
                    Err(e) => return Err(e),
                };
                if primary_key.len() > order_by.len() {
                    return Err(Error::InvalidOrderByPrimaryKeyPair);
                }
                let mut k: usize = 0;
                while k < primary_key.len()
                    invariant
                        k <= primary_key@.len() <= order_by@.len(),
                        forall|m: int|
                            0 <= m < k ==> column::column_def_eq(#[trigger] primary_key@[m], order_by@[m]),
                        columns_from(create_table.columns@, 0, seq![], readings) == Ok::<
                            Seq<ColumnDef>,
                            ErrorView,
                        >(columns@),
                        readings == numbers.readings@,
                        create_table.columns@.len() > 0,
                        table_def::table_named(create_table.name.0@) == Ok::<TableDef, ErrorView>(name),
                        sql::is_name(name.table@),
                        declared_settings(create_table.table_options) == Ok::<TableSettings, ErrorView>(settings),
                        create_table.order_by matches Some(o) && declared_order(o@, columns@) == Ok::<
                            Seq<ColumnDef>,
                            ErrorView,
                        >(order_by@),
                        create_table.primary_key matches Some(p) && declared_key(p, columns@) == Ok::<
                            Seq<ColumnDef>,
                            ErrorView,
                        >(primary_key@),
                    decreases primary_key@.len() - k,
                {
                    if !(primary_key[k] == order_by[k]) {
                        return Err(Error::InvalidOrderByPrimaryKeyPair);
                    }
                    k += 1;
                }
                (order_by, primary_key)
            },
            (Some(order_by), None) => {
                let order_by = match Self::create_parse_order_by(order_by, &columns) {
                    Ok(o) => o,
                    Err(e) => return Err(e),
                };
                let primary_key = column::clone_columns(order_by.as_slice());
                (order_by, primary_key)
            },
            (None, Some(primary_key)) => {
                let primary_key = match Self::parse_primary_key(primary_key, &columns) {
                    Ok(k) => k,
                    Err(e) => return Err(e),
                };
                let order_by = column::clone_columns(primary_key.as_slice());
                (order_by, primary_key)
            },
            (None, None) => {
                let mut order_by: Vec<ColumnDef> = Vec::new();
                order_by.push(columns[0].clone());
                let mut primary_key: Vec<ColumnDef> = Vec::new();
                primary_key.push(columns[0].clone());
                assert(order_by@ =~= seq![columns@[0]]);
                assert(primary_key@ =~= seq![columns@[0]]);
                (order_by, primary_key)
            },
        };
        Ok(
            LogicalPlan::CreateTable {
                name,
                if_not_exists: create_table.if_not_exists,
                columns,
                settings,
                order_by,
                primary_key,
            },
        )
    }

    /// Tries to parse the settings from the options of a table.
    ///
    /// Returns:
    ///   * Ok when:
    ///     1. None is provided: the default settings.
    ///     2. `"Engine".lowercase()` option is provided and name is valid: the settings with that engine.
    ///   * Error when:
    ///     1. More than 1 option is provided: `InvalidEngineName`
    ///     2. When option name is not `"Engine".lowercase()`: `InvalidEngineName`
    ///     3. When engine name is not valid, return error from `EngineName::try_from`
    pub fn parse_table_options(table_options: &CreateTableOptions) -> (r: Outcome<TableSettings>)
        ensures
            error::outcome(r) == declared_settings(*table_options),
    {
        match table_options {
            CreateTableOptions::Absent => Ok(TableSettings::default()),
            CreateTableOptions::Plain(options) => {
                if options.len() == 0 {
                    return Ok(TableSettings::default());
                }
                if options.len() > 1 {
                    return Err(Error::InvalidEngineName);
                }
                match &options[0] {
                    SqlOption::Other => Err(Error::InvalidEngineName),
                    SqlOption::NamedParenthesizedList { key, name } => apply_option(
                        to_lowercase(key.value.as_str()).as_str(),
                        name,
                        TableSettings::default(),
                    ),
                }
            },
            CreateTableOptions::Other => Err(Error::InvalidEngineName),
        }
    }

    /// Tries to parse ORDER BY column names.
    ///
    /// Returns
    ///   * Ok when:
    ///     1. All columns are unique, exist in the pool of ALL columns: `Vec<ColumnDef>`
    ///   * Error when:
    ///     1. If ORDER BY is empty: `InvalidOrderBy`.
    ///     2. If column name is not an identifier: `InvalidOrderBy`.
    ///     3. If column, not found in all columns, is found in ORDER BY: `InvalidOrderBy`.
    ///     4. If the same column is added: `InvalidOrderBy`.
    pub fn create_parse_order_by(order_by_params: &Vec<Expr>, columns: &Vec<ColumnDef>) -> (r: Outcome<
        Vec<ColumnDef>,
    >)
        ensures
            columns_outcome(r) == declared_order(order_by_params@, columns@),
    {
        if order_by_params.len() == 0 {
            return Err(Error::InvalidOrderBy("No ORDER BY columns found".to_owned()));
        }
        let mut order_by: Vec<ColumnDef> = Vec::new();
        let mut i: usize = 0;
        while i < order_by_params.len()
            invariant
                i <= order_by_params@.len(),
                order_by_params@.len() > 0,
                declared_order(order_by_params@, columns@) == order_from(
                    order_by_params@,
                    i as int,
                    order_by@,
                    columns@,
                ),
            decreases order_by_params@.len() - i,
        {
            match &order_by_params[i] {
                Expr::Identifier(ident) => {
                    let k: usize = match column::position_named(columns, ident.value.as_str()) {
                        Some(k) => k,
                        None => return Err(
                            Error::InvalidOrderBy(
                                concat2("Could not find column: ", ident.value.as_str()),
                            ),
                        ),
                    };
                    if is_named_before(order_by_params, i, ident.value.as_str()) {
                        return Err(
                            Error::InvalidOrderBy(
                                concat2("Duplicate column: ", ident.value.as_str()),
                            ),
                        );
                    }
                    order_by.push(columns[k].clone());
                },
                param => return Err(
                    Error::InvalidOrderBy(
                        concat2("Could not parse order by param: ", param.to_text().as_str()),
                    ),
                ),
            }
            i += 1;
        }
        Ok(order_by)
    }

    /// Tries to parse PRIMARY KEY column names.
    ///
    /// Returns
    ///   * Ok when:
    ///     1. All columns are unique, exist in the pool of ALL columns: `Vec<ColumnDef>`
    ///   * Error when:
    ///     1. If the key is not an identifier or a tuple of identifiers: `InvalidOrderBy`.
    ///     2. If the tuple is empty: `InvalidOrderBy`.
    ///     3. If a column is not found: `ColumnNotFound`.
    ///     4. If the same column is added: `InvalidOrderBy`.
    pub fn parse_primary_key(primary_key: &Expr, columns: &Vec<ColumnDef>) -> (r: Outcome<Vec<ColumnDef>>)
        ensures
            columns_outcome(r) == declared_key(*primary_key, columns@),
    {
        match primary_key {
            Expr::Identifier(ident) => parse_single_key(ident, columns),
            Expr::Tuple(items) => {
                if items.len() == 0 {
                    return Err(Error::InvalidOrderBy("No PRIMARY KEY columns found".to_owned()));
                }
                let mut key: Vec<ColumnDef> = Vec::new();
                let mut i: usize = 0;
                while i < items.len()
                    invariant
                        i <= items@.len(),
                        *primary_key == Expr::Tuple(*items),
                        items@.len() > 0,
                        declared_key(*primary_key, columns@) == key_from(
                            items@,
                            i as int,
                            key@,
                            columns@,
                        ),
                    decreases items@.len() - i,
                {
                    match &items[i] {
                        Expr::Identifier(ident) => match parse_column_def_ident(ident, columns) {
                            Ok(c) => {
                                if is_named_before(items, i, ident.value.as_str()) {
                                    return Err(
                                        Error::InvalidOrderBy(
                                            concat2("Duplicate column: ", ident.value.as_str()),
                                        ),
                                    );
                                }
                                key.push(c);
                            },
                            Err(e) => return Err(e),
                        },
                        item => return Err(
                            Error::InvalidOrderBy(
                                concat2("Invalid specifier: ", item.to_text().as_str()),
                            ),
                        ),
                    }
                    i += 1;
                }
                Ok(key)
            },
            Expr::Nested(inner) => match &**inner {
                Expr::Identifier(ident) => parse_single_key(ident, columns),
                _ => Err(
                    Error::InvalidOrderBy("Nested primary keys are unsupported".to_owned()),
                ),
            },
            _ => Err(
                Error::InvalidOrderBy(
                    concat2("Invalid primary key: ", primary_key.to_text().as_str()),
                ),
            ),
        }
    }

    /// Tries to parse column constraints for each column.
    ///
    /// Returns:
    ///   * Ok when:
    ///     1. When provided valid constraint(s): `Constraints`
    ///   * Error when:
    ///     1. NULL and NOT NULL are supplied more than once for the column: `UnsupportedColumnConstraint`
    ///     2. Unsupported column constraint is provided: `UnsupportedColumnConstraint`
    ///     3. The default is not a literal, or not one of the column's type.
    pub fn parse_column_constraints(
        options: &[ColumnOptionDef],
        column_type: &ValueType,
        numbers: &Numbers,
    ) -> (r: Outcome<Constraints>)
        ensures
            error::outcome(r) == constraints_from(
                options@,
                0,
                None,
                None,
                *column_type,
                numbers.readings@,
            ),
    {
        let mut nullable: Option<bool> = None;
        let mut default: Option<Value> = None;
        let compression_type = column_type.get_optimal_compression();
        let mut i: usize = 0;
        while i < options.len()
            invariant
                i <= options@.len(),
                constraints_from(options@, 0, None, None, *column_type, numbers.readings@)
                    == constraints_from(
                    options@,
                    i as int,
                    nullable,
                    default,
                    *column_type,
                    numbers.readings@,
                ),
            decreases options@.len() - i,
        {
            match &options[i].option {
                ColumnOption::Null => {
                    if nullable.is_some() {
                        return Err(
                            Error::UnsupportedColumnConstraint("Invalid NULL constraint".to_owned()),
                        );
                    }
                    nullable = Some(true);
                },
                ColumnOption::NotNull => {
                    if nullable.is_some() {
                        return Err(
                            Error::UnsupportedColumnConstraint("Invalid NULL constraint".to_owned()),
                        );
                    }
                    nullable = Some(false);
                },
                ColumnOption::Default(expr) => match expr {
                    Expr::Value(lit) => match Value::try_from(lit.clone(), column_type, numbers) {
                        Ok(v) => {
                            default = Some(v);
                        },
                        Err(e) => return Err(e),
                    },
                    _ => return Err(
                        Error::UnsupportedColumnConstraint(
                            "Non-literal default values are not supported".to_owned(),
                        ),
                    ),
                },
                ColumnOption::Other(text) => return Err(
                    Error::UnsupportedColumnConstraint(text.clone()),
                ),
            }
            i += 1;
        }
        Ok(
            Constraints {
                nullable: match nullable {
                    Some(b) => b,
                    None => true,
                },
                default,
                compression_type,
            },
        )
    }
}

} // verus!
