//! Which rows pass a filter, said of the filter as it is written and of the values of the row.
use vstd::prelude::*;

use crate::error::ErrorView;
use crate::search;
use crate::sql::ast::{BinaryOperator, Expr, Ident, UnaryOperator};
use crate::sql::compiled_filter;
use crate::storage::column;
use crate::storage::column::ColumnDef;
use crate::storage::literal;
use crate::storage::literal_laws;
use crate::storage::numbers::NumberReading;
use crate::storage::value;
use crate::storage::value::{Value, ValueType};
use crate::storage::value_laws;

verus! {

/// Whether an operator holds between two values. Values of which neither comes before the other and which
/// are not the same satisfy none but `<>`.
pub open spec fn is_related(a: Value, op: BinaryOperator, b: Value) -> bool {
    match op {
        BinaryOperator::Lt => value_laws::comes_before(a, b),
        BinaryOperator::LtEq => value_laws::comes_before(a, b) || value_laws::is_same(a, b),
        BinaryOperator::Gt => value_laws::comes_before(b, a),
        BinaryOperator::GtEq => value_laws::comes_before(b, a) || value_laws::is_same(a, b),
        BinaryOperator::Eq => value_laws::is_same(a, b),
        BinaryOperator::NotEq => !value_laws::is_same(a, b),
        _ => false,
    }
}

/// Whether a column is the first with a name.
pub open spec fn is_column_named(defs: Seq<ColumnDef>, i: int, name: Seq<char>) -> bool {
    &&& 0 <= i < defs.len()
    &&& defs[i].name@ == name
    &&& forall|j: int| 0 <= j < i ==> (#[trigger] defs[j]).name@ != name
}

/// Whether a value is that of an operand in a row, beside the other operand: an identifier has the value of
/// its column; a literal is read as the type of the column that it is compared with, and on its own where
/// it is compared with a literal.
pub open spec fn is_operand(
    e: Expr,
    other: Expr,
    defs: Seq<ColumnDef>,
    readings: Seq<NumberReading>,
    columns: Seq<Seq<Value>>,
    row: int,
    v: Value,
) -> bool {
    match e {
        Expr::Identifier(ident) => exists|i: int| #[trigger]
            is_column_named(defs, i, ident.value@) && v == columns[i][row],
        Expr::Value(lit) => match other {
            Expr::Identifier(ident) => exists|i: int| #[trigger]
                is_column_named(defs, i, ident.value@) && literal_laws::is_literal_of(
                    lit,
                    defs[i].field_type,
                    readings,
                    v,
                ),
            Expr::Value(_) => literal_laws::is_plain_literal(lit, readings, v),
            _ => false,
        },
        _ => false,
    }
}

/// Whether a filter compiled against columns tells its rows apart: the granule has the columns, all of one
/// length.
pub open spec fn is_granule(columns: Seq<Seq<Value>>, defs: Seq<ColumnDef>, n: nat) -> bool {
    &&& 0 < defs.len() <= usize::MAX
    &&& columns.len() == defs.len()
    &&& forall|i: int| 0 <= i < columns.len() ==> (#[trigger] columns[i]).len() == n
}

/// Whether a row of a granule passes a filter.
pub open spec fn passes(
    filter: Expr,
    defs: Seq<ColumnDef>,
    readings: Seq<NumberReading>,
    columns: Seq<Seq<Value>>,
    row: int,
) -> bool {
    compiled_filter::mask_of(compiled_filter::compiled(filter, defs, readings)->Ok_0, columns)[row]
}

proof fn lemma_passes(
    filter: Expr,
    defs: Seq<ColumnDef>,
    readings: Seq<NumberReading>,
    columns: Seq<Seq<Value>>,
    n: nat,
    row: int,
)
    requires
        is_granule(columns, defs, n),
        compiled_filter::compiled(filter, defs, readings) is Ok,
        0 <= row < n,
    ensures
        passes(filter, defs, readings, columns, row) == compiled_filter::holds(
            compiled_filter::compiled(filter, defs, readings)->Ok_0,
            columns,
            row,
        ),
{
    let f = compiled_filter::compiled(filter, defs, readings)->Ok_0;
    compiled_filter::lemma_compiled_reads_columns(filter, defs, readings);
    compiled_filter::lemma_mask_tells_which_rows_hold(f, columns, n);
}

proof fn lemma_column(ident: Ident, defs: Seq<ColumnDef>)
    ensures
        compiled_filter::resolve_column(ident, defs) matches Ok(i) ==> is_column_named(defs, i, ident.value@),
        forall|i: int| #[trigger]
            is_column_named(defs, i, ident.value@) ==> compiled_filter::resolve_column(ident, defs) == Ok::<
                int,
                ErrorView,
            >(i),
{
    let f = column::named(ident.value@);
    search::lemma_position(defs, f);
    match search::position(defs, f) {
        Some(k) => {
            assert(f(defs[k]));
            assert forall|j: int| 0 <= j < k implies (#[trigger] defs[j]).name@ != ident.value@ by {
                assert(!f(defs[j]));
            }
            assert forall|i: int| #[trigger] is_column_named(defs, i, ident.value@) implies i == k by {
                assert(f(defs[i]));
                if k < i {
                    assert(defs[k].name@ != ident.value@);
                }
            }
        },
        None => {
            assert forall|i: int| !#[trigger] is_column_named(defs, i, ident.value@) by {
                if is_column_named(defs, i, ident.value@) {
                    assert(!f(defs[i]));
                }
            }
        },
    }
}

proof fn lemma_compared(a: Value, b: Value)
    ensures
        value::comparable(a, b) == value::comparable(b, a),
        value::comparable(a, b) && value::value_lt(a, b) <==> value_laws::comes_before(a, b),
        value::comparable(a, b) && value::value_lt(b, a) <==> value_laws::comes_before(b, a),
        value::value_eq(a, b) <==> value_laws::is_same(a, b),
        value::comparable(a, b) && !value::value_lt(b, a) <==> value_laws::comes_before(a, b) || value_laws::is_same(
            a,
            b,
        ),
        value::comparable(a, b) && !value::value_lt(a, b) <==> value_laws::comes_before(b, a) || value_laws::is_same(
            a,
            b,
        ),
{
    value_laws::lemma_values_are_ordered_by_what_they_hold(a, b);
    value_laws::lemma_values_are_ordered_by_what_they_hold(b, a);
    if value::comparable(a, b) {
        value::lemma_value_trichotomy(a, b);
    }
}

/// Whether an operator compares its operands.
pub open spec fn compares(op: BinaryOperator) -> bool {
    ||| op is Lt
    ||| op is LtEq
    ||| op is Gt
    ||| op is GtEq
    ||| op is Eq
    ||| op is NotEq
}

/// A row passes a comparison exactly when the operator that is written holds between the values of the two
/// operands that are written, in their order.
pub proof fn lemma_row_passes_the_comparison_written(
    left: Expr,
    op: BinaryOperator,
    right: Expr,
    defs: Seq<ColumnDef>,
    readings: Seq<NumberReading>,
    columns: Seq<Seq<Value>>,
    n: nat,
    row: int,
)
    requires
        is_granule(columns, defs, n),
        compares(op),
        compiled_filter::compiled(
            Expr::BinaryOp { left: Box::new(left), op, right: Box::new(right) },
            defs,
            readings,
        ) is Ok,
        0 <= row < n,
    ensures
        exists|a: Value, b: Value| #[trigger]
            is_operand(left, right, defs, readings, columns, row, a) && #[trigger] is_operand(
                right,
                left,
                defs,
                readings,
                columns,
                row,
                b,
            ) && passes(
                Expr::BinaryOp { left: Box::new(left), op, right: Box::new(right) },
                defs,
                readings,
                columns,
                row,
            ) == is_related(a, op, b),
{
    let filter = Expr::BinaryOp { left: Box::new(left), op, right: Box::new(right) };
    lemma_passes(filter, defs, readings, columns, n, row);
    match (left, right) {
        (Expr::Identifier(l), Expr::Value(r)) => {
            lemma_column(l, defs);
            let i = compiled_filter::resolve_column(l, defs)->Ok_0;
            literal_laws::lemma_literal_is_what_it_stands_for(r, defs[i].field_type, readings);
            let a = columns[i][row];
            let b = literal::typed_value(r, defs[i].field_type, readings)->Ok_0;
            lemma_compared(a, b);
            assert(is_operand(left, right, defs, readings, columns, row, a));
            assert(is_operand(right, left, defs, readings, columns, row, b));
        },
        (Expr::Value(l), Expr::Identifier(r)) => {
            lemma_column(r, defs);
            let i = compiled_filter::resolve_column(r, defs)->Ok_0;
            literal_laws::lemma_literal_is_what_it_stands_for(l, defs[i].field_type, readings);
            let a = literal::typed_value(l, defs[i].field_type, readings)->Ok_0;
            let b = columns[i][row];
            lemma_compared(a, b);
            assert(is_operand(left, right, defs, readings, columns, row, a));
            assert(is_operand(right, left, defs, readings, columns, row, b));
        },
        (Expr::Value(l), Expr::Value(r)) => {
            literal_laws::lemma_plain_literal_is_what_it_stands_for(l, readings);
            literal_laws::lemma_plain_literal_is_what_it_stands_for(r, readings);
            let a = literal::untyped_value(l, readings)->Ok_0;
            let b = literal::untyped_value(r, readings)->Ok_0;
            lemma_compared(a, b);
            assert(is_operand(left, right, defs, readings, columns, row, a));
            assert(is_operand(right, left, defs, readings, columns, row, b));
        },
        (Expr::Identifier(l), Expr::Identifier(r)) => {
            lemma_column(l, defs);
            lemma_column(r, defs);
            let a = columns[compiled_filter::resolve_column(l, defs)->Ok_0][row];
            let b = columns[compiled_filter::resolve_column(r, defs)->Ok_0][row];
            lemma_compared(a, b);
            assert(is_operand(left, right, defs, readings, columns, row, a));
            assert(is_operand(right, left, defs, readings, columns, row, b));
        },
        _ => {},
    }
}

/// Whether an operand of a comparison can be read: an identifier names a column, and a literal stands for a
/// value of the type that it is compared with.
pub open spec fn is_readable(e: Expr, other: Expr, defs: Seq<ColumnDef>, readings: Seq<NumberReading>) -> bool {
    match e {
        Expr::Identifier(ident) => exists|i: int| #[trigger] is_column_named(defs, i, ident.value@),
        Expr::Value(lit) => match other {
            Expr::Identifier(ident) => exists|i: int, v: Value| #[trigger]
                is_column_named(defs, i, ident.value@) && #[trigger] literal_laws::is_literal_of(
                    lit,
                    defs[i].field_type,
                    readings,
                    v,
                ),
            Expr::Value(_) => exists|v: Value| #[trigger] literal_laws::is_plain_literal(lit, readings, v),
            _ => false,
        },
        _ => false,
    }
}

/// A comparison is accepted exactly when both of its operands can be read.
pub proof fn lemma_readable_comparison_is_accepted(
    left: Expr,
    op: BinaryOperator,
    right: Expr,
    defs: Seq<ColumnDef>,
    readings: Seq<NumberReading>,
)
    requires
        compares(op),
    ensures
        compiled_filter::compiled(
            Expr::BinaryOp { left: Box::new(left), op, right: Box::new(right) },
            defs,
            readings,
        ) is Ok <==> is_readable(left, right, defs, readings) && is_readable(right, left, defs, readings),
{
    if let Expr::Identifier(l) = left {
        lemma_column(l, defs);
    }
    if let Expr::Identifier(r) = right {
        lemma_column(r, defs);
    }
    match (left, right) {
        (Expr::Identifier(l), Expr::Value(r)) => {
            let i = compiled_filter::resolve_column(l, defs)->Ok_0;
            literal_laws::lemma_literal_is_what_it_stands_for(r, defs[i].field_type, readings);
            let v = literal::typed_value(r, defs[i].field_type, readings)->Ok_0;
            if compiled_filter::resolve_column(l, defs) is Ok && literal::typed_value(
                r,
                defs[i].field_type,
                readings,
            ) is Ok {
                assert(is_column_named(defs, i, l.value@) && literal_laws::is_literal_of(
                    r,
                    defs[i].field_type,
                    readings,
                    v,
                ));
            }
        },
        (Expr::Value(l), Expr::Identifier(r)) => {
            let i = compiled_filter::resolve_column(r, defs)->Ok_0;
            literal_laws::lemma_literal_is_what_it_stands_for(l, defs[i].field_type, readings);
            let v = literal::typed_value(l, defs[i].field_type, readings)->Ok_0;
            if compiled_filter::resolve_column(r, defs) is Ok && literal::typed_value(
                l,
                defs[i].field_type,
                readings,
            ) is Ok {
                assert(is_column_named(defs, i, r.value@) && literal_laws::is_literal_of(
                    l,
                    defs[i].field_type,
                    readings,
                    v,
                ));
            }
        },
        (Expr::Value(l), Expr::Value(r)) => {
            literal_laws::lemma_plain_literal_is_what_it_stands_for(l, readings);
            literal_laws::lemma_plain_literal_is_what_it_stands_for(r, readings);
        },
        _ => {},
    }
}

/// A row passes `a AND b` exactly when it passes both, `a OR b` when it passes one, and `NOT a` when it does
/// not pass `a`.
pub proof fn lemma_row_passes_connectives(
    a: Expr,
    b: Expr,
    defs: Seq<ColumnDef>,
    readings: Seq<NumberReading>,
    columns: Seq<Seq<Value>>,
    n: nat,
    row: int,
)
    requires
        is_granule(columns, defs, n),
        compiled_filter::compiled(a, defs, readings) is Ok,
        compiled_filter::compiled(b, defs, readings) is Ok,
        0 <= row < n,
    ensures
        ({
            let and = Expr::BinaryOp { left: Box::new(a), op: BinaryOperator::And, right: Box::new(b) };
            let or = Expr::BinaryOp { left: Box::new(a), op: BinaryOperator::Or, right: Box::new(b) };
            let not = Expr::UnaryOp { op: UnaryOperator::Not, expr: Box::new(a) };
            let on_a = passes(a, defs, readings, columns, row);
            let on_b = passes(b, defs, readings, columns, row);
            &&& compiled_filter::compiled(and, defs, readings) is Ok
            &&& compiled_filter::compiled(or, defs, readings) is Ok
            &&& compiled_filter::compiled(not, defs, readings) is Ok
            &&& passes(and, defs, readings, columns, row) == (on_a && on_b)
            &&& passes(or, defs, readings, columns, row) == (on_a || on_b)
            &&& passes(not, defs, readings, columns, row) == !on_a
        }),
{
    let and = Expr::BinaryOp { left: Box::new(a), op: BinaryOperator::And, right: Box::new(b) };
    let or = Expr::BinaryOp { left: Box::new(a), op: BinaryOperator::Or, right: Box::new(b) };
    let not = Expr::UnaryOp { op: UnaryOperator::Not, expr: Box::new(a) };
    reveal_with_fuel(compiled_filter::compiled, 2);
    reveal_with_fuel(compiled_filter::holds, 2);
    lemma_passes(a, defs, readings, columns, n, row);
    lemma_passes(b, defs, readings, columns, n, row);
    assert(compiled_filter::compiled(and, defs, readings) is Ok);
    assert(compiled_filter::compiled(or, defs, readings) is Ok);
    assert(compiled_filter::compiled(not, defs, readings) is Ok);
    lemma_passes(and, defs, readings, columns, n, row);
    lemma_passes(or, defs, readings, columns, n, row);
    lemma_passes(not, defs, readings, columns, n, row);
}

/// Every row passes `true` and none passes `false`; a row passes a column exactly when the first column with
/// that name, which is a boolean one, holds true in it.
pub proof fn lemma_row_passes_booleans(
    filter: Expr,
    defs: Seq<ColumnDef>,
    readings: Seq<NumberReading>,
    columns: Seq<Seq<Value>>,
    n: nat,
    row: int,
)
    requires
        is_granule(columns, defs, n),
        filter is Value || filter is Identifier,
        compiled_filter::compiled(filter, defs, readings) is Ok,
        0 <= row < n,
    ensures
        match filter {
            Expr::Value(lit) => lit.value is Boolean && passes(filter, defs, readings, columns, row)
                == lit.value->Boolean_0,
            Expr::Identifier(ident) => exists|i: int| #[trigger]
                is_column_named(defs, i, ident.value@) && defs[i].field_type == ValueType::Bool && passes(
                    filter,
                    defs,
                    readings,
                    columns,
                    row,
                ) == (columns[i][row] == Value::Bool(true)),
            _ => false,
        },
{
    lemma_passes(filter, defs, readings, columns, n, row);
    if let Expr::Identifier(ident) = filter {
        lemma_column(ident, defs);
        let i = compiled_filter::resolve_column(ident, defs)->Ok_0;
        assert(is_column_named(defs, i, ident.value@));
    }
}

/// Whether a list holds the values at ascending positions of another, and a position is one of them exactly
/// when the mask has it.
pub open spec fn is_selection(data: Seq<Value>, mask: Seq<bool>, kept: Seq<Value>, at: Seq<int>) -> bool {
    &&& kept.len() == at.len()
    &&& forall|i: int| 0 <= i < at.len() ==> 0 <= #[trigger] at[i] < data.len() && kept[i] == data[at[i]]
    &&& forall|i: int, j: int| 0 <= i < j < at.len() ==> #[trigger] at[i] < #[trigger] at[j]
    &&& forall|p: int| 0 <= p < data.len() ==> (#[trigger] at.contains(p) <==> mask[p])
}

/// What is kept of a column are the values of exactly the rows that pass, in their order.
pub proof fn lemma_kept_are_the_rows_that_pass(data: Seq<Value>, mask: Seq<bool>)
    requires
        data.len() <= mask.len(),
    ensures
        exists|at: Seq<int>| #[trigger] is_selection(data, mask, compiled_filter::retained(data, mask), at),
    decreases data.len(),
{
    if data.len() == 0 {
        assert(is_selection(data, mask, compiled_filter::retained(data, mask), seq![]));
    } else {
        let rest = data.drop_last();
        let last = data.len() - 1;
        lemma_kept_are_the_rows_that_pass(rest, mask);
        let kept = compiled_filter::retained(rest, mask);
        let at = choose|at: Seq<int>| #[trigger] is_selection(rest, mask, kept, at);
        assert(!at.contains(last)) by {
            if at.contains(last) {
                let i = choose|i: int| 0 <= i < at.len() && at[i] == last;
                assert(at[i] < rest.len());
            }
        }
        if mask[last] {
            let next = at.push(last);
            assert forall|p: int| 0 <= p < data.len() implies (#[trigger] next.contains(p) <==> mask[p]) by {
                if p < last {
                    if at.contains(p) {
                        let i = choose|i: int| 0 <= i < at.len() && at[i] == p;
                        assert(next[i] == p);
                    }
                    if next.contains(p) {
                        let i = choose|i: int| 0 <= i < next.len() && next[i] == p;
                        assert(at[i] == p);
                    }
                } else {
                    assert(next[at.len() as int] == p);
                }
            }
            assert(is_selection(data, mask, compiled_filter::retained(data, mask), next));
        } else {
            assert forall|p: int| 0 <= p < data.len() implies (#[trigger] at.contains(p) <==> mask[p]) by {
                if p == last {
                    assert(!at.contains(p));
                }
            }
            assert(is_selection(data, mask, compiled_filter::retained(data, mask), at));
        }
    }
}

} // verus!
