//! What table a CREATE TABLE makes, said of the statement as it is written.
use vstd::prelude::*;

use crate::engines::EngineName;
use crate::error::ErrorView;
use crate::search;
use crate::sql;
use crate::sql::ast::{
    ColumnDecl, ColumnOption, ColumnOptionDef, CreateTable, CreateTableOptions, DataType, Expr,
};
use crate::sql::filter_laws;
use crate::sql::logical_plan::create_table;
use crate::sql::logical_plan::plan::PlanView;
use crate::storage::column;
use crate::storage::column::{ColumnDef, Constraints};
use crate::storage::compression::CompressionType;
use crate::storage::literal;
use crate::storage::literal_laws;
use crate::storage::numbers::NumberReading;
use crate::storage::value::{Value, ValueType};
use crate::storage::value_laws;
use crate::text;

verus! {

/// Whether a type of values is the one that a declaration names.
pub open spec fn is_type_of(d: DataType, t: ValueType) -> bool {
    match t {
        ValueType::Null => false,
        ValueType::String => d is String,
        ValueType::Uuid => d is Uuid,
        ValueType::Bool => d is Bool,
        ValueType::Int8 => d is Int8,
        ValueType::Int16 => d is Int16,
        ValueType::Int32 => d is Int32,
        ValueType::Int64 => d is Int64,
        ValueType::UInt8 => d is UInt8,
        ValueType::UInt16 => d is UInt16,
        ValueType::UInt32 => d is UInt32,
        ValueType::UInt64 => d is UInt64,
        ValueType::F32 => d is Float32,
        ValueType::F64 => d is Float64,
    }
}

/// Whether an option says if a column may hold NULL.
pub open spec fn tells_null(o: ColumnOptionDef) -> bool {
    o.option is Null || o.option is NotNull
}

/// Whether the options of a column hold a NOT NULL.
pub open spec fn has_not_null(options: Seq<ColumnOptionDef>) -> bool {
    exists|k: int| 0 <= k < options.len() && (#[trigger] options[k]).option is NotNull
}

/// Whether the options of a column hold a DEFAULT.
pub open spec fn has_default(options: Seq<ColumnOptionDef>) -> bool {
    exists|k: int| 0 <= k < options.len() && (#[trigger] options[k]).option is Default
}

/// Whether an option is the last DEFAULT of a column.
pub open spec fn is_last_default(options: Seq<ColumnOptionDef>, k: int) -> bool {
    &&& 0 <= k < options.len()
    &&& options[k].option is Default
    &&& forall|j: int| k < j < options.len() ==> !((#[trigger] options[j]).option is Default)
}

/// Whether a value is what a DEFAULT writes: a literal read as the type of the column.
pub open spec fn is_default_value(
    o: ColumnOptionDef,
    t: ValueType,
    readings: Seq<NumberReading>,
    v: Value,
) -> bool {
    &&& o.option is Default
    &&& o.option->Default_0 is Value
    &&& literal_laws::is_literal_of(o.option->Default_0->Value_0, t, readings, v)
}

/// Whether constraints are those that the options of a column declare. The column may hold NULL unless a NOT
/// NULL is given. Its default is the value of the last DEFAULT that is given, and it has none only where no
/// DEFAULT is given.
pub open spec fn are_constraints_of(
    options: Seq<ColumnOptionDef>,
    t: ValueType,
    readings: Seq<NumberReading>,
    c: Constraints,
) -> bool {
    &&& c.nullable <==> !has_not_null(options)
    &&& c.default is None <==> !has_default(options)
    &&& forall|k: int| #[trigger]
        is_last_default(options, k) ==> c.default is Some && is_default_value(
            options[k],
            t,
            readings,
            c.default->Some_0,
        )
    &&& c.compression_type == CompressionType::LZ4(3)
}

/// Whether the options of a column can be taken: at most one of them says if it may hold NULL, every DEFAULT
/// writes a value of its type, and there are no others.
pub open spec fn can_be_options(options: Seq<ColumnOptionDef>, t: ValueType, readings: Seq<NumberReading>) -> bool {
    &&& forall|i: int, j: int|
        0 <= i < j < options.len() ==> !(tells_null(#[trigger] options[i]) && tells_null(#[trigger] options[j]))
    &&& forall|k: int| 0 <= k < options.len() ==> can_be_option(#[trigger] options[k], t, readings)
}

/// Whether an option of a column can be taken on its own.
pub open spec fn can_be_option(o: ColumnOptionDef, t: ValueType, readings: Seq<NumberReading>) -> bool {
    tells_null(o) || exists|v: Value| #[trigger] is_default_value(o, t, readings, v)
}

/// Whether `nullable` and `default` are what the first `i` options declare.
spec fn has_read(
    options: Seq<ColumnOptionDef>,
    i: int,
    nullable: Option<bool>,
    default: Option<Value>,
    t: ValueType,
    readings: Seq<NumberReading>,
) -> bool {
    &&& 0 <= i <= options.len()
    &&& nullable is None <==> forall|k: int| 0 <= k < i ==> !tells_null(#[trigger] options[k])
    &&& nullable == Some(false) <==> has_not_null(options.take(i))
    &&& default is None <==> !has_default(options.take(i))
    &&& forall|k: int| #[trigger]
        is_last_default(options.take(i), k) ==> default is Some && is_default_value(
            options[k],
            t,
            readings,
            default->Some_0,
        )
}

proof fn lemma_one_more(options: Seq<ColumnOptionDef>, i: int)
    requires
        0 <= i < options.len(),
    ensures
        has_not_null(options.take(i + 1)) <==> has_not_null(options.take(i)) || options[i].option is NotNull,
        has_default(options.take(i + 1)) <==> has_default(options.take(i)) || options[i].option is Default,
        options[i].option is Default ==> forall|k: int| #[trigger]
            is_last_default(options.take(i + 1), k) ==> k == i,
        !(options[i].option is Default) ==> forall|k: int| #[trigger]
            is_last_default(options.take(i + 1), k) ==> is_last_default(options.take(i), k),
{
    let some = options.take(i);
    let more = options.take(i + 1);
    assert(forall|k: int| 0 <= k < i ==> #[trigger] more[k] == some[k]);
    assert(more[i] == options[i]);
    if has_not_null(some) {
        let k = choose|k: int| 0 <= k < some.len() && (#[trigger] some[k]).option is NotNull;
        assert(more[k].option is NotNull);
    }
    if has_not_null(more) && !(options[i].option is NotNull) {
        let k = choose|k: int| 0 <= k < more.len() && (#[trigger] more[k]).option is NotNull;
        assert(some[k].option is NotNull);
    }
    if has_default(some) {
        let k = choose|k: int| 0 <= k < some.len() && (#[trigger] some[k]).option is Default;
        assert(more[k].option is Default);
    }
    if has_default(more) && !(options[i].option is Default) {
        let k = choose|k: int| 0 <= k < more.len() && (#[trigger] more[k]).option is Default;
        assert(some[k].option is Default);
    }
    assert forall|k: int| #[trigger] is_last_default(more, k) && options[i].option is Default implies k == i by {
        if k < i {
            assert(!(more[i].option is Default));
        }
    }
    assert forall|k: int| #[trigger]
        is_last_default(more, k) && !(options[i].option is Default) implies is_last_default(some, k) by {
        assert(k != i);
        assert forall|j: int| k < j < some.len() implies !((#[trigger] some[j]).option is Default) by {
            assert(!(more[j].option is Default));
        }
    }
}

proof fn lemma_constraints(
    options: Seq<ColumnOptionDef>,
    i: int,
    nullable: Option<bool>,
    default: Option<Value>,
    t: ValueType,
    readings: Seq<NumberReading>,
)
    requires
        has_read(options, i, nullable, default, t, readings),
    ensures
        create_table::constraints_from(options, i, nullable, default, t, readings) matches Ok(c)
            ==> are_constraints_of(options, t, readings, c),
        create_table::constraints_from(options, i, nullable, default, t, readings) is Ok <==> {
            &&& forall|a: int, b: int|
                0 <= a < b < options.len() && i <= b ==> !(tells_null(#[trigger] options[a]) && tells_null(
                    #[trigger] options[b],
                ))
            &&& forall|k: int| i <= k < options.len() ==> can_be_option(#[trigger] options[k], t, readings)
        },
    decreases options.len() - i,
{
    if i >= options.len() {
        assert(options.take(i) =~= options);
        assert(forall|k: int| 0 <= k < options.len() && options[k].option is NotNull ==> tells_null(
            #[trigger] options[k],
        ));
    } else {
        lemma_one_more(options, i);
        let o = options[i];
        match o.option {
            ColumnOption::Null => {
                if nullable is None {
                    assert(!has_not_null(options.take(i + 1)));
                    lemma_constraints(options, i + 1, Some(true), default, t, readings);
                } else {
                    let k = choose|k: int| 0 <= k < i && tells_null(#[trigger] options[k]);
                    assert(tells_null(options[k]) && tells_null(options[i]));
                }
            },
            ColumnOption::NotNull => {
                if nullable is None {
                    lemma_constraints(options, i + 1, Some(false), default, t, readings);
                } else {
                    let k = choose|k: int| 0 <= k < i && tells_null(#[trigger] options[k]);
                    assert(tells_null(options[k]) && tells_null(options[i]));
                }
            },
            ColumnOption::Default(expr) => {
                if let Expr::Value(lit) = expr {
                    literal_laws::lemma_literal_is_what_it_stands_for(lit, t, readings);
                    if let Ok(v) = literal::typed_value(lit, t, readings) {
                        assert(is_default_value(o, t, readings, v));
                        assert(can_be_option(o, t, readings));
                        lemma_constraints(options, i + 1, nullable, Some(v), t, readings);
                    } else {
                        assert(!can_be_option(options[i], t, readings));
                    }
                } else {
                    assert(!can_be_option(options[i], t, readings));
                }
            },
            ColumnOption::Other(_) => {
                assert(!can_be_option(options[i], t, readings));
            },
        }
    }
}

/// The constraints of an accepted column are those that its options declare, and it is accepted exactly where
/// they can be taken. The default is never forgotten: where DEFAULT literals are given, it is the value of the
/// last one read as the type of the column, and it is missing only where none is given.
pub proof fn lemma_constraints_are_those_declared(
    options: Seq<ColumnOptionDef>,
    t: ValueType,
    readings: Seq<NumberReading>,
)
    ensures
        create_table::constraints_from(options, 0, None, None, t, readings) matches Ok(c) ==> are_constraints_of(
            options,
            t,
            readings,
            c,
        ),
        create_table::constraints_from(options, 0, None, None, t, readings) is Ok <==> can_be_options(
            options,
            t,
            readings,
        ),
{
    lemma_constraints(options, 0, None, None, t, readings);
}

/// Whether a column is the one that a declaration declares.
pub open spec fn is_column_of(decl: ColumnDecl, def: ColumnDef, readings: Seq<NumberReading>) -> bool {
    &&& def.name@ == decl.name.value@
    &&& is_type_of(decl.data_type, def.field_type)
    &&& are_constraints_of(decl.options@, def.field_type, readings, def.constraints)
}

/// Whether a character is a letter, a digit or an underscore of ASCII.
pub open spec fn is_word_char(c: char) -> bool {
    'a' <= c <= 'z' || 'A' <= c <= 'Z' || '0' <= c <= '9' || c == '_'
}

/// Whether a text is a word: letters, digits and underscores, one at least.
pub open spec fn is_word(s: Seq<char>) -> bool {
    s.len() > 0 && forall|i: int| 0 <= i < s.len() ==> is_word_char(#[trigger] s[i])
}

/// Whether a declaration can be taken on its own: its name is a word, its type is known, and its options can
/// be taken.
pub open spec fn can_be_column(decl: ColumnDecl, readings: Seq<NumberReading>) -> bool {
    &&& is_word(decl.name.value@)
    &&& exists|t: ValueType| #[trigger]
        is_type_of(decl.data_type, t) && can_be_options(decl.options@, t, readings)
}

/// Whether the names of declarations are pairwise different.
pub open spec fn are_apart(decls: Seq<ColumnDecl>) -> bool {
    forall|i: int, j: int|
        0 <= i < j < decls.len() ==> (#[trigger] decls[i]).name.value@ != (#[trigger] decls[j]).name.value@
}

proof fn lemma_word(s: Seq<char>)
    ensures
        sql::is_name(s) <==> is_word(s),
{
    if is_word(s) {
        assert forall|i: int| 0 <= i < s.len() implies sql::is_name_char(#[trigger] s[i]) by {
            assert(is_word_char(s[i]));
        }
    }
    if sql::is_name(s) {
        assert forall|i: int| 0 <= i < s.len() implies is_word_char(#[trigger] s[i]) by {
            assert(sql::is_name_char(s[i]));
        }
    }
}

proof fn lemma_column(decls: Seq<ColumnDecl>, i: int, readings: Seq<NumberReading>)
    requires
        0 <= i < decls.len(),
    ensures
        create_table::declared_column(decls, i, readings) matches Ok(def) ==> is_column_of(decls[i], def, readings),
        create_table::declared_column(decls, i, readings) is Ok <==> can_be_column(decls[i], readings) && (forall|
            j: int,
        |
            0 <= j < i ==> (#[trigger] decls[j]).name.value@ != decls[i].name.value@),
{
    let decl = decls[i];
    lemma_word(decl.name.value@);
    match literal::declared_type(decl.data_type) {
        Ok(t) => {
            assert(is_type_of(decl.data_type, t));
            lemma_constraints_are_those_declared(decl.options@, t, readings);
            assert forall|u: ValueType| #[trigger] is_type_of(decl.data_type, u) implies u == t by {}
        },
        Err(_) => {
            assert forall|u: ValueType| !#[trigger] is_type_of(decl.data_type, u) by {}
        },
    }
    if create_table::declared_before(decls, i, decl.name.value@) {
        let j = choose|j: int| 0 <= j < i && (#[trigger] decls[j]).name.value@ == decl.name.value@;
        assert(decls[j].name.value@ == decl.name.value@);
    }
}

proof fn lemma_columns(decls: Seq<ColumnDecl>, i: int, acc: Seq<ColumnDef>, readings: Seq<NumberReading>)
    requires
        0 <= i == acc.len() <= decls.len(),
        forall|k: int| 0 <= k < i ==> is_column_of(decls[k], #[trigger] acc[k], readings),
    ensures
        create_table::columns_from(decls, i, acc, readings) matches Ok(out) ==> out.len() == decls.len() && forall|
            k: int,
        |
            0 <= k < decls.len() ==> is_column_of(decls[k], #[trigger] out[k], readings),
        create_table::columns_from(decls, i, acc, readings) is Ok <==> {
            &&& forall|k: int| i <= k < decls.len() ==> can_be_column(#[trigger] decls[k], readings)
            &&& forall|a: int, b: int|
                0 <= a < b < decls.len() && i <= b ==> (#[trigger] decls[a]).name.value@ != (
                #[trigger] decls[b]).name.value@
        },
    decreases decls.len() - i,
{
    if i < decls.len() {
        lemma_column(decls, i, readings);
        if let Ok(c) = create_table::declared_column(decls, i, readings) {
            lemma_columns(decls, i + 1, acc.push(c), readings);
        } else if can_be_column(decls[i], readings) {
            let j = choose|j: int| 0 <= j < i && (#[trigger] decls[j]).name.value@ == decls[i].name.value@;
            assert(decls[j].name.value@ == decls[i].name.value@);
        }
    }
}

/// Whether columns are those that items name, item by item.
pub open spec fn are_columns_named(list: Seq<ColumnDef>, items: Seq<Expr>, columns: Seq<ColumnDef>) -> bool {
    &&& list.len() == items.len()
    &&& forall|k: int| 0 <= k < items.len() ==> is_column_by(items[k], columns, #[trigger] list[k])
}

/// Whether a column is the one that an item names.
pub open spec fn is_column_by(item: Expr, columns: Seq<ColumnDef>, def: ColumnDef) -> bool {
    &&& item is Identifier
    &&& exists|i: int| #[trigger]
        filter_laws::is_column_named(columns, i, item->Identifier_0.value@) && def == columns[i]
}

/// The items of a PRIMARY KEY: one that stands alone or in brackets, or those of a list.
pub open spec fn key_items(key: Expr) -> Seq<Expr> {
    match key {
        Expr::Identifier(_) => seq![key],
        Expr::Nested(inner) => seq![*inner],
        Expr::Tuple(items) => items@,
        _ => seq![],
    }
}

proof fn lemma_by_name(columns: Seq<ColumnDef>, name: Seq<char>)
    ensures
        search::position(columns, column::named(name)) matches Some(k) ==> filter_laws::is_column_named(
            columns,
            k,
            name,
        ),
        search::position(columns, column::named(name)) is None ==> forall|k: int|
            0 <= k < columns.len() ==> (#[trigger] columns[k]).name@ != name,
{
    let f = column::named(name);
    search::lemma_position(columns, f);
    match search::position(columns, f) {
        Some(k) => {
            assert(f(columns[k]));
            assert forall|j: int| 0 <= j < k implies (#[trigger] columns[j]).name@ != name by {
                assert(!f(columns[j]));
            }
        },
        None => {
            assert forall|k: int| 0 <= k < columns.len() implies (#[trigger] columns[k]).name@ != name by {
                assert(!f(columns[k]));
            }
        },
    }
}

/// Whether items can be sorted by: each names a column, none twice.
pub open spec fn can_be_sorted_by(items: Seq<Expr>, columns: Seq<ColumnDef>) -> bool {
    &&& items.len() > 0
    &&& forall|k: int| 0 <= k < items.len() ==> can_be_item(#[trigger] items[k], columns)
    &&& forall|i: int, j: int|
        0 <= i < j < items.len() ==> (#[trigger] items[i])->Identifier_0.value@ != (
        #[trigger] items[j])->Identifier_0.value@
}

/// Whether an item names a column.
pub open spec fn can_be_item(item: Expr, columns: Seq<ColumnDef>) -> bool {
    item is Identifier && exists|i: int|
        0 <= i < columns.len() && (#[trigger] columns[i]).name@ == item->Identifier_0.value@
}

/// Whether the items from position `i` on can follow those before.
spec fn can_follow(items: Seq<Expr>, i: int, columns: Seq<ColumnDef>) -> bool {
    &&& forall|k: int| i <= k < items.len() ==> can_be_item(#[trigger] items[k], columns)
    &&& forall|a: int, b: int|
        0 <= a < b < items.len() && i <= b ==> (#[trigger] items[a])->Identifier_0.value@ != (
        #[trigger] items[b])->Identifier_0.value@
}

proof fn lemma_order(items: Seq<Expr>, i: int, acc: Seq<ColumnDef>, columns: Seq<ColumnDef>)
    requires
        0 <= i == acc.len() <= items.len(),
        forall|k: int| 0 <= k < i ==> is_column_by(items[k], columns, #[trigger] acc[k]),
        forall|k: int| 0 <= k < i ==> (#[trigger] items[k]) is Identifier,
    ensures
        create_table::order_from(items, i, acc, columns) matches Ok(out) ==> are_columns_named(out, items, columns),
        create_table::order_from(items, i, acc, columns) is Ok <==> can_follow(items, i, columns),
        create_table::key_from(items, i, acc, columns) matches Ok(out) ==> are_columns_named(out, items, columns),
        create_table::key_from(items, i, acc, columns) is Ok <==> can_follow(items, i, columns),
    decreases items.len() - i,
{
    if i < items.len() {
        if let Expr::Identifier(ident) = items[i] {
            let name = ident.value@;
            lemma_by_name(columns, name);
            if let Some(k) = search::position(columns, column::named(name)) {
                assert(can_be_item(items[i], columns)) by {
                    assert(columns[k].name@ == name);
                }
                assert(is_column_by(items[i], columns, columns[k]));
                if create_table::named_before(items, i, name) {
                    let j = choose|j: int|
                        0 <= j < i && (#[trigger] items[j] matches Expr::Identifier(other) && other.value@ == name);
                    assert(items[j]->Identifier_0.value@ == items[i]->Identifier_0.value@);
                } else {
                    assert forall|j: int| 0 <= j < i implies (#[trigger] items[j])->Identifier_0.value@ != name by {
                        assert(items[j] is Identifier);
                    }
                    lemma_order(items, i + 1, acc.push(columns[k]), columns);
                }
            } else {
                assert(!can_be_item(items[i], columns));
            }
        } else {
            assert(!can_be_item(items[i], columns));
        }
    }
}

proof fn lemma_declared_order(items: Seq<Expr>, columns: Seq<ColumnDef>)
    ensures
        create_table::declared_order(items, columns) matches Ok(out) ==> are_columns_named(out, items, columns),
        create_table::declared_order(items, columns) is Ok <==> can_be_sorted_by(items, columns),
{
    lemma_order(items, 0, seq![], columns);
}

proof fn lemma_declared_key(key: Expr, columns: Seq<ColumnDef>)
    ensures
        create_table::declared_key(key, columns) matches Ok(out) ==> are_columns_named(
            out,
            key_items(key),
            columns,
        ),
        create_table::declared_key(key, columns) is Ok <==> can_be_sorted_by(key_items(key), columns),
{
    match key {
        Expr::Tuple(items) => lemma_order(items@, 0, seq![], columns),
        Expr::Identifier(ident) => lemma_single(key, ident, columns),
        Expr::Nested(inner) => {
            if let Expr::Identifier(ident) = *inner {
                lemma_single(*inner, ident, columns);
            } else {
                assert(!can_be_item(key_items(key)[0], columns));
            }
        },
        _ => {},
    }
}

proof fn lemma_single(item: Expr, ident: crate::sql::ast::Ident, columns: Seq<ColumnDef>)
    requires
        item == Expr::Identifier(ident),
    ensures
        create_table::single_key(ident, columns) matches Ok(out) ==> are_columns_named(out, seq![item], columns),
        create_table::single_key(ident, columns) is Ok <==> can_be_sorted_by(seq![item], columns),
{
    lemma_by_name(columns, ident.value@);
    let items = seq![item];
    assert(items[0] == item);
    if let Some(k) = search::position(columns, column::named(ident.value@)) {
        assert(columns[k].name@ == ident.value@);
        assert(can_be_item(items[0], columns));
        assert(is_column_by(items[0], columns, seq![columns[k]][0]));
    } else {
        assert(!can_be_item(items[0], columns));
    }
}

/// Whether an engine is the one that the options of a table name: without options the plain one.
pub open spec fn is_engine_of(options: CreateTableOptions, engine: EngineName) -> bool {
    match options {
        CreateTableOptions::Absent => engine is MergeTree,
        CreateTableOptions::Other => false,
        CreateTableOptions::Plain(list) => {
            ||| list@.len() == 0 && engine is MergeTree
            ||| list@.len() == 1 && list@[0] is NamedParenthesizedList && {
                let key = list@[0]->NamedParenthesizedList_key;
                let name = list@[0]->NamedParenthesizedList_name;
                &&& text::lowercased(key.value@) == "engine"@
                &&& name is Some
                &&& match engine {
                    EngineName::MergeTree => name->Some_0.value@ == "MergeTree"@,
                    EngineName::ReplacingMergeTree => name->Some_0.value@ == "ReplacingMergeTree"@,
                }
            }
        },
    }
}

proof fn lemma_engine(options: CreateTableOptions)
    ensures
        create_table::declared_settings(options) matches Ok(s) ==> is_engine_of(options, s.engine)
            && s.index_granularity == 8192,
        create_table::declared_settings(options) is Ok <==> exists|e: EngineName| #[trigger]
            is_engine_of(options, e),
{
    if let Ok(s) = create_table::declared_settings(options) {
        assert(is_engine_of(options, s.engine));
    }
}

/// Whether the columns that a table is sorted by and those of its primary key are those that a statement
/// declares. Where only one list is given it is both; where none is, both are the first column.
pub open spec fn is_sorted_as(
    c: CreateTable,
    columns: Seq<ColumnDef>,
    order: Seq<ColumnDef>,
    key: Seq<ColumnDef>,
) -> bool {
    &&& c.order_by is Some ==> are_columns_named(order, c.order_by->Some_0@, columns)
    &&& c.primary_key is Some ==> are_columns_named(key, key_items(c.primary_key->Some_0), columns)
    &&& c.order_by is None ==> order == key
    &&& c.primary_key is None ==> order == key
    &&& c.order_by is None && c.primary_key is None ==> order == seq![columns[0]]
}

/// A table that is created has the name that is written, one column for each declaration, in their order and
/// as they declare it, and is sorted and keyed by the columns that are named, under the engine that is named.
pub proof fn lemma_table_is_created_as_declared(c: CreateTable, readings: Seq<NumberReading>, p: PlanView)
    requires
        create_table::create_table_plan(c, readings) == Ok::<PlanView, ErrorView>(p),
    ensures
        p is CreateTable,
        c.name.0@.len() == 2,
        c.name.0@[0] is Identifier,
        c.name.0@[1] is Identifier,
        p->CreateTable_name.database@ == c.name.0@[0]->Identifier_0.value@,
        p->CreateTable_name.table@ == c.name.0@[1]->Identifier_0.value@,
        p->CreateTable_if_not_exists == c.if_not_exists,
        p->CreateTable_columns.len() == c.columns@.len(),
        forall|k: int|
            0 <= k < c.columns@.len() ==> is_column_of(
                c.columns@[k],
                #[trigger] p->CreateTable_columns[k],
                readings,
            ),
        is_engine_of(c.table_options, p->CreateTable_settings.engine),
        p->CreateTable_settings.index_granularity == 8192,
        is_sorted_as(c, p->CreateTable_columns, p->CreateTable_order_by, p->CreateTable_primary_key),
{
    lemma_columns(c.columns@, 0, seq![], readings);
    lemma_engine(c.table_options);
    let columns = p->CreateTable_columns;
    if let Some(o) = c.order_by {
        lemma_declared_order(o@, columns);
    }
    if let Some(k) = c.primary_key {
        lemma_declared_key(k, columns);
    }
}

/// Whether a default equals itself; only one that is not a number does not.
pub open spec fn has_plain_default(def: ColumnDef) -> bool {
    def.constraints.default is Some ==> value_laws::is_same(
        def.constraints.default->Some_0,
        def.constraints.default->Some_0,
    )
}

/// Whether items are the first ones of others, by name.
pub open spec fn starts(items: Seq<Expr>, all: Seq<Expr>) -> bool {
    &&& items.len() <= all.len()
    &&& forall|k: int|
        0 <= k < items.len() ==> (#[trigger] items[k])->Identifier_0.value@ == all[k]->Identifier_0.value@
}

/// Whether the sorting of a table can be taken: its lists name columns, and the key is the start of the order.
pub open spec fn can_be_sorted_as(c: CreateTable, columns: Seq<ColumnDef>) -> bool {
    &&& c.order_by is Some ==> can_be_sorted_by(c.order_by->Some_0@, columns)
    &&& c.primary_key is Some ==> can_be_sorted_by(key_items(c.primary_key->Some_0), columns)
    &&& c.order_by is Some && c.primary_key is Some ==> starts(
        key_items(c.primary_key->Some_0),
        c.order_by->Some_0@,
    )
}

proof fn lemma_prefix(
    key: Seq<ColumnDef>,
    order: Seq<ColumnDef>,
    key_names: Seq<Expr>,
    order_names: Seq<Expr>,
    columns: Seq<ColumnDef>,
)
    requires
        are_columns_named(key, key_names, columns),
        are_columns_named(order, order_names, columns),
        forall|i: int| 0 <= i < columns.len() ==> has_plain_default(#[trigger] columns[i]),
    ensures
        create_table::is_prefix(key, order) <==> starts(key_names, order_names),
{
    if create_table::is_prefix(key, order) {
        assert forall|k: int| 0 <= k < key_names.len() implies (#[trigger] key_names[k])->Identifier_0.value@
            == order_names[k]->Identifier_0.value@ by {
            assert(column::column_def_eq(key[k], order[k]));
            assert(is_column_by(key_names[k], columns, key[k]));
            assert(is_column_by(order_names[k], columns, order[k]));
        }
    }
    if starts(key_names, order_names) {
        assert forall|k: int| 0 <= k < key.len() implies column::column_def_eq(#[trigger] key[k], order[k]) by {
            assert(is_column_by(key_names[k], columns, key[k]));
            assert(is_column_by(order_names[k], columns, order[k]));
            let name = key_names[k]->Identifier_0.value@;
            assert(order_names[k]->Identifier_0.value@ == name);
            let i = choose|i: int| #[trigger]
                filter_laws::is_column_named(columns, i, name) && key[k] == columns[i];
            let j = choose|j: int| #[trigger]
                filter_laws::is_column_named(columns, j, name) && order[k] == columns[j];
            if i < j {
                assert(columns[i].name@ != name);
            }
            if j < i {
                assert(columns[j].name@ != name);
            }
            assert(has_plain_default(columns[i]));
            if let Some(v) = columns[i].constraints.default {
                value_laws::lemma_values_are_ordered_by_what_they_hold(v, v);
            }
        }
    }
}

/// A CREATE TABLE is accepted exactly when its name has two parts of which the second is a word, it declares
/// at least one column, every declaration can be taken and no two have one name, its engine is known, and its
/// lists name columns, the key being the start of the order. (A column whose default is not a number is left
/// out: it does not equal itself.)
pub proof fn lemma_table_is_accepted_as_declared(c: CreateTable, readings: Seq<NumberReading>)
    requires
        create_table::columns_from(c.columns@, 0, seq![], readings) matches Ok(columns) ==> forall|i: int|
            0 <= i < columns.len() ==> has_plain_default(#[trigger] columns[i]),
    ensures
        create_table::create_table_plan(c, readings) is Ok <==> {
            &&& c.name.0@.len() == 2
            &&& c.name.0@[0] is Identifier
            &&& c.name.0@[1] is Identifier
            &&& is_word(c.name.0@[1]->Identifier_0.value@)
            &&& c.columns@.len() > 0
            &&& forall|k: int| 0 <= k < c.columns@.len() ==> can_be_column(#[trigger] c.columns@[k], readings)
            &&& are_apart(c.columns@)
            &&& exists|e: EngineName| #[trigger] is_engine_of(c.table_options, e)
            &&& can_be_sorted_as(c, create_table::columns_from(c.columns@, 0, seq![], readings)->Ok_0)
        },
{
    lemma_columns(c.columns@, 0, seq![], readings);
    lemma_engine(c.table_options);
    if c.name.0@.len() == 2 && c.name.0@[1] is Identifier {
        lemma_word(c.name.0@[1]->Identifier_0.value@);
    }
    if let Ok(columns) = create_table::columns_from(c.columns@, 0, seq![], readings) {
        if let Some(o) = c.order_by {
            lemma_declared_order(o@, columns);
        }
        if let Some(k) = c.primary_key {
            lemma_declared_key(k, columns);
        }
        if let (Some(o), Some(k)) = (c.order_by, c.primary_key) {
            if let (Ok(order), Ok(key)) = (
                create_table::declared_order(o@, columns),
                create_table::declared_key(k, columns),
            ) {
                lemma_prefix(key, order, key_items(k), o@, columns);
            }
        }
    }
}

} // verus!
