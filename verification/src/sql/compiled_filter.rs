//! Filters compiled against the columns of a table.
use vstd::prelude::*;
use vstd::string::*;

use crate::error::{Error, ErrorView, Outcome};
use crate::error;
use crate::search;
use crate::sql::ast;
use crate::sql::ast::{BinaryOperator, Expr, Ident, Literal, SqlValue, UnaryOperator};
use crate::storage::column::ColumnDef;
use crate::storage::column;
use crate::storage::literal;
use crate::storage::numbers::{NumberReading, Numbers};
use crate::storage::value;
use crate::storage::value::{Value, ValueType};
use crate::text::{concat2, concat5};

verus! {

/// Binary operators supported.
#[derive(Debug, Clone, Copy, PartialEq, Eq, Structural)]
pub enum BinOp {
    Gt,
    Lt,
    GtEq,
    LtEq,
    Eq,
    NotEq,
}

/// The comparison that an operator stands for.
pub open spec fn comparison(op: BinaryOperator) -> Result<BinOp, ErrorView> {
    match op {
        BinaryOperator::Gt => Ok(BinOp::Gt),
        BinaryOperator::Lt => Ok(BinOp::Lt),
        BinaryOperator::GtEq => Ok(BinOp::GtEq),
        BinaryOperator::LtEq => Ok(BinOp::LtEq),
        BinaryOperator::Eq => Ok(BinOp::Eq),
        BinaryOperator::NotEq => Ok(BinOp::NotEq),
        _ => Err(ErrorView::UnsupportedFilter(ast::binary_text(op))),
    }
}

impl BinOp {
    /// The operator with its operands exchanged.
    pub open spec fn flip_view(self) -> BinOp {
        match self {
            BinOp::Gt => BinOp::Lt,
            BinOp::Lt => BinOp::Gt,
            BinOp::GtEq => BinOp::LtEq,
            BinOp::LtEq => BinOp::GtEq,
            BinOp::Eq => BinOp::Eq,
            BinOp::NotEq => BinOp::NotEq,
        }
    }

    /// The operator with its operands exchanged.
    pub fn flip(self) -> (r: BinOp)
        ensures
            r == self.flip_view(),
    {
        match self {
            BinOp::Gt => BinOp::Lt,
            BinOp::Lt => BinOp::Gt,
            BinOp::GtEq => BinOp::LtEq,
            BinOp::LtEq => BinOp::GtEq,
            BinOp::Eq => BinOp::Eq,
            BinOp::NotEq => BinOp::NotEq,
        }
    }

    /// Returns:
    ///   * Ok: the comparison that the operator stands for.
    ///   * Error: `UnsupportedFilter` where it stands for none.
    pub fn try_from(value: &BinaryOperator) -> (r: Outcome<BinOp>)
        ensures
            error::outcome(r) == comparison(*value),
    {
        match value {
            BinaryOperator::Gt => Ok(BinOp::Gt),
            BinaryOperator::Lt => Ok(BinOp::Lt),
            BinaryOperator::GtEq => Ok(BinOp::GtEq),
            BinaryOperator::LtEq => Ok(BinOp::LtEq),
            BinaryOperator::Eq => Ok(BinOp::Eq),
            BinaryOperator::NotEq => Ok(BinOp::NotEq),
            _ => Err(Error::UnsupportedFilter(value.to_text())),
        }
    }
}

/// Represents compiled filter. Uses indexes to optimize speed up filtering.
#[derive(Debug, PartialEq)]
pub enum CompiledFilter {
    Compare { col_idx: usize, op: BinOp, value: Value },
    CompareColumns { left_idx: usize, op: BinOp, right_idx: usize },
    And(Box<CompiledFilter>, Box<CompiledFilter>),
    Or(Box<CompiledFilter>, Box<CompiledFilter>),
    Not(Box<CompiledFilter>),
    Column(usize),
    Const(bool),
}

/// The position of the column that an identifier names.
pub open spec fn resolve_column(ident: Ident, columns: Seq<ColumnDef>) -> Result<int, ErrorView> {
    match search::position(columns, column::named(ident.value@)) {
        Some(i) => Ok(i),
        None => Err(ErrorView::ColumnNotFound(ident.value@)),
    }
}

/// The filter for a comparison of a column with a literal.
pub open spec fn compare_column(
    ident: Ident,
    lit: Literal,
    op: BinOp,
    columns: Seq<ColumnDef>,
    readings: Seq<NumberReading>,
) -> Result<CompiledFilter, ErrorView> {
    match resolve_column(ident, columns) {
        Err(e) => Err(e),
        Ok(i) => match literal::typed_value(lit, columns[i].field_type, readings) {
            Err(e) => Err(e),
            Ok(value) => Ok(CompiledFilter::Compare { col_idx: i as usize, op, value }),
        },
    }
}

/// The filter for a comparison.
pub open spec fn compare_operands(
    left: Expr,
    op: BinOp,
    right: Expr,
    columns: Seq<ColumnDef>,
    readings: Seq<NumberReading>,
) -> Result<CompiledFilter, ErrorView> {
    match (left, right) {
        (Expr::Identifier(l), Expr::Value(r)) => compare_column(l, r, op, columns, readings),
        (Expr::Value(l), Expr::Identifier(r)) => compare_column(
            r,
            l,
            op.flip_view(),
            columns,
            readings,
        ),
        (Expr::Value(l), Expr::Value(r)) => match literal::untyped_value(l, readings) {
            Err(e) => Err(e),
            Ok(a) => match literal::untyped_value(r, readings) {
                Err(e) => Err(e),
                Ok(b) => Ok(CompiledFilter::Const(value::fits(a, b, op))),
            },
        },
        (Expr::Identifier(l), Expr::Identifier(r)) => match resolve_column(l, columns) {
            Err(e) => Err(e),
            Ok(i) => match resolve_column(r, columns) {
                Err(e) => Err(e),
                Ok(j) => Ok(
                    CompiledFilter::CompareColumns {
                        left_idx: i as usize,
                        op,
                        right_idx: j as usize,
                    },
                ),
            },
        },
        _ => Err(
            ErrorView::InvalidSource(
                "Unsupported comparison operands in filter: ("@ + ast::expr_text(left) + ") and ("@
                    + ast::expr_text(right) + ")"@,
            ),
        ),
    }
}

/// The filter that an expression compiles to. A side of AND or OR that is constant is folded away,
/// and the right side is not looked at where the left side decides.
pub open spec fn compiled(
    filter: Expr,
    columns: Seq<ColumnDef>,
    readings: Seq<NumberReading>,
) -> Result<CompiledFilter, ErrorView>
    decreases filter,
{
    match filter {
        Expr::BinaryOp { left, op: BinaryOperator::And, right } => match compiled(
            *left,
            columns,
            readings,
        ) {
            Err(e) => Err(e),
            Ok(CompiledFilter::Const(false)) => Ok(CompiledFilter::Const(false)),
            Ok(CompiledFilter::Const(true)) => compiled(*right, columns, readings),
            Ok(l) => match compiled(*right, columns, readings) {
                Err(e) => Err(e),
                Ok(CompiledFilter::Const(false)) => Ok(CompiledFilter::Const(false)),
                Ok(CompiledFilter::Const(true)) => Ok(l),
                Ok(r) => Ok(CompiledFilter::And(Box::new(l), Box::new(r))),
            },
        },
        Expr::BinaryOp { left, op: BinaryOperator::Or, right } => match compiled(
            *left,
            columns,
            readings,
        ) {
            Err(e) => Err(e),
            Ok(CompiledFilter::Const(true)) => Ok(CompiledFilter::Const(true)),
            Ok(CompiledFilter::Const(false)) => compiled(*right, columns, readings),
            Ok(l) => match compiled(*right, columns, readings) {
                Err(e) => Err(e),
                Ok(CompiledFilter::Const(true)) => Ok(CompiledFilter::Const(true)),
                Ok(CompiledFilter::Const(false)) => Ok(l),
                Ok(r) => Ok(CompiledFilter::Or(Box::new(l), Box::new(r))),
            },
        },
        Expr::BinaryOp { left, op, right } => match comparison(op) {
            Err(e) => Err(e),
            Ok(op) => compare_operands(*left, op, *right, columns, readings),
        },
        Expr::UnaryOp { op: UnaryOperator::Not, expr } => match compiled(*expr, columns, readings) {
            Err(e) => Err(e),
            Ok(f) => Ok(CompiledFilter::Not(Box::new(f))),
        },
        Expr::UnaryOp { op, expr } => Err(
            ErrorView::InvalidSource(
                "Currently do not support filters with unary operators except NOT"@,
            ),
        ),
        Expr::Value(lit) => match lit.value {
            SqlValue::Boolean(b) => Ok(CompiledFilter::Const(b)),
            _ => Err(
                ErrorView::InvalidSource("Could not filter on NOT boolean value "@ + lit.rendered@),
            ),
        },
        Expr::Identifier(ident) => match resolve_column(ident, columns) {
            Err(e) => Err(e),
            Ok(i) => if columns[i].field_type == ValueType::Bool {
                Ok(CompiledFilter::Column(i as usize))
            } else {
                Err(
                    ErrorView::InvalidSource(
                        "Column '"@ + ident.value@ + "' has type "@
                            + columns[i].field_type.name_view()
                            + ", but boolean expected in filter expression"@,
                    ),
                )
            },
        },
        _ => Err(
            ErrorView::UnsupportedFilter(
                "Unsupported expression type in filter: "@ + ast::expr_text(filter),
            ),
        ),
    }
}

/// Whether every column that a filter reads is one of the first `n`.
pub open spec fn reads_within(filter: CompiledFilter, n: nat) -> bool
    decreases filter,
{
    match filter {
        CompiledFilter::Compare { col_idx, op, value } => col_idx < n,
        CompiledFilter::CompareColumns { left_idx, op, right_idx } => left_idx < n && right_idx < n,
        CompiledFilter::And(l, r) => reads_within(*l, n) && reads_within(*r, n),
        CompiledFilter::Or(l, r) => reads_within(*l, n) && reads_within(*r, n),
        CompiledFilter::Not(f) => reads_within(*f, n),
        CompiledFilter::Column(i) => i < n,
        CompiledFilter::Const(_) => true,
    }
}

/// The smaller of two lengths.
pub open spec fn shorter(a: nat, b: nat) -> nat {
    if a <= b {
        a
    } else {
        b
    }
}

/// The number of rows of a granule: the length of its first column.
pub open spec fn granule_rows(columns: Seq<Seq<Value>>) -> nat {
    if columns.len() == 0 {
        0
    } else {
        columns[0].len()
    }
}

/// For each row, whether a filter lets it pass.
pub open spec fn mask_of(filter: CompiledFilter, columns: Seq<Seq<Value>>) -> Seq<bool>
    decreases filter,
{
    match filter {
        CompiledFilter::Column(i) => Seq::new(
            columns[i as int].len(),
            |r: int| columns[i as int][r] == Value::Bool(true),
        ),
        CompiledFilter::Compare { col_idx, op, value } => Seq::new(
            columns[col_idx as int].len(),
            |r: int| value::fits(columns[col_idx as int][r], value, op),
        ),
        CompiledFilter::CompareColumns { left_idx, op, right_idx } => Seq::new(
            shorter(columns[left_idx as int].len(), columns[right_idx as int].len()),
            |r: int| value::fits(columns[left_idx as int][r], columns[right_idx as int][r], op),
        ),
        CompiledFilter::And(l, r) => {
            let a = mask_of(*l, columns);
            let b = mask_of(*r, columns);
            Seq::new(shorter(a.len(), b.len()), |i: int| a[i] && b[i])
        },
        CompiledFilter::Or(l, r) => {
            let a = mask_of(*l, columns);
            let b = mask_of(*r, columns);
            Seq::new(shorter(a.len(), b.len()), |i: int| a[i] || b[i])
        },
        CompiledFilter::Not(f) => {
            let a = mask_of(*f, columns);
            Seq::new(a.len(), |i: int| !a[i])
        },
        CompiledFilter::Const(b) => Seq::new(granule_rows(columns), |i: int| b),
    }
}

/// The values whose row passes.
pub open spec fn retained(data: Seq<Value>, mask: Seq<bool>) -> Seq<Value>
    decreases data.len(),
{
    if data.len() == 0 {
        seq![]
    } else {
        let rest = retained(data.drop_last(), mask);
        if mask[data.len() - 1] {
            rest.push(data.last())
        } else {
            rest
        }
    }
}

/// The data of a list of columns, each as a sequence.
pub open spec fn granule_view(columns: Seq<Vec<Value>>) -> Seq<Seq<Value>> {
    columns.map_values(|c: Vec<Value>| c@)
}

impl CompiledFilter {
    /// Compiles a SQL expression into a `CompiledFilter` for efficient evaluation.
    ///
    /// Supports: AND, OR, NOT, comparison operators, column references, and literal values.
    /// Performs constant folding for boolean expressions.
    ///
    /// Returns:
    ///   * Ok: `CompiledFilter` representing the compiled expression.
    ///   * Error when:
    ///     1. Column not found in table: `ColumnNotFound`.
    ///     2. Unsupported expression type: `UnsupportedFilter` or `InvalidSource`.
    ///     3. Value conversion fails: type conversion error.
    pub fn compile(filter: Expr, table_column_defs: &[ColumnDef], numbers: &Numbers) -> (r: Outcome<Self>)
        ensures
            error::outcome(r) == compiled(filter, table_column_defs@, numbers.readings@),
            r matches Ok(f) ==> reads_within(f, table_column_defs@.len()),
        decreases filter,
    {
        let column_count: usize = table_column_defs.len();
        assert(column_count == table_column_defs@.len());
        proof {
            lemma_compiled_reads_columns(filter, table_column_defs@, numbers.readings@);
        }
        match filter {
            Expr::BinaryOp { left, op, right } => match op {
                BinaryOperator::And => {
                    let left = match Self::compile(*left, table_column_defs, numbers) {
                        Ok(f) => f,
                        Err(e) => return Err(e),
                    };
                    match left {
                        CompiledFilter::Const(false) => return Ok(CompiledFilter::Const(false)),
                        CompiledFilter::Const(true) => return Self::compile(
                            *right,
                            table_column_defs,
                            numbers,
                        ),
                        _ => {},
                    }
                    let right = match Self::compile(*right, table_column_defs, numbers) {
                        Ok(f) => f,
                        Err(e) => return Err(e),
                    };
                    match right {
                        CompiledFilter::Const(false) => Ok(CompiledFilter::Const(false)),
                        CompiledFilter::Const(true) => Ok(left),
                        r => Ok(CompiledFilter::And(Box::new(left), Box::new(r))),
                    }
                },
                BinaryOperator::Or => {
                    let left = match Self::compile(*left, table_column_defs, numbers) {
                        Ok(f) => f,
                        Err(e) => return Err(e),
                    };
                    match left {
                        CompiledFilter::Const(true) => return Ok(CompiledFilter::Const(true)),
                        CompiledFilter::Const(false) => return Self::compile(
                            *right,
                            table_column_defs,
                            numbers,
                        ),
                        _ => {},
                    }
                    let right = match Self::compile(*right, table_column_defs, numbers) {
                        Ok(f) => f,
                        Err(e) => return Err(e),
                    };
                    match right {
                        CompiledFilter::Const(true) => Ok(CompiledFilter::Const(true)),
                        CompiledFilter::Const(false) => Ok(left),
                        r => Ok(CompiledFilter::Or(Box::new(left), Box::new(r))),
                    }
                },
                other => match BinOp::try_from(&other) {
                    Ok(op) => Self::compile_comparison(*left, op, *right, table_column_defs, numbers),
                    Err(e) => Err(e),
                },
            },
            Expr::UnaryOp { op, expr } => match op {
                UnaryOperator::Not => match Self::compile(*expr, table_column_defs, numbers) {
                    Ok(f) => Ok(CompiledFilter::Not(Box::new(f))),
                    Err(e) => Err(e),
                },
                _ => Err(
                    Error::InvalidSource(
                        "Currently do not support filters with unary operators except NOT".to_owned(),
                    ),
                ),
            },
            Expr::Value(lit) => match lit.value {
                SqlValue::Boolean(b) => Ok(CompiledFilter::Const(b)),
                _ => Err(
                    Error::InvalidSource(
                        concat2("Could not filter on NOT boolean value ", lit.rendered.as_str()),
                    ),
                ),
            },
            Expr::Identifier(ident) => match Self::find_column(&ident, table_column_defs) {
                Err(e) => Err(e),
                Ok(i) => if table_column_defs[i].field_type == ValueType::Bool {
                    Ok(CompiledFilter::Column(i))
                } else {
                    Err(
                        Error::InvalidSource(
                            concat5(
                                "Column '",
                                ident.value.as_str(),
                                "' has type ",
                                table_column_defs[i].field_type.name(),
                                ", but boolean expected in filter expression",
                            ),
                        ),
                    )
                },
            },
            other => Err(
                Error::UnsupportedFilter(
                    concat2("Unsupported expression type in filter: ", other.to_text().as_str()),
                ),
            ),
        }
    }

    fn find_column(ident: &Ident, table_column_defs: &[ColumnDef]) -> (r: Outcome<usize>)
        ensures
            match r {
                Ok(i) => i < table_column_defs@.len() && resolve_column(
                    *ident,
                    table_column_defs@,
                ) == Ok::<int, ErrorView>(i as int),
                Err(e) => resolve_column(*ident, table_column_defs@) == Err::<int, ErrorView>(e@),
            },
    {
        match column::position_named(table_column_defs, ident.value.as_str()) {
            Some(i) => Ok(i),
            None => Err(Error::ColumnNotFound(ident.value.clone())),
        }
    }

    fn compile_column_value_comparison(
        ident: Ident,
        lit: Literal,
        op: BinOp,
        table_column_defs: &[ColumnDef],
        numbers: &Numbers,
    ) -> (r: Outcome<Self>)
        ensures
            error::outcome(r) == compare_column(
                ident,
                lit,
                op,
                table_column_defs@,
                numbers.readings@,
            ),
    {
        match Self::find_column(&ident, table_column_defs) {
            Err(e) => Err(e),
            Ok(col_idx) => match Value::try_from(
                lit,
                &table_column_defs[col_idx].field_type,
                numbers,
            ) {
                Ok(value) => Ok(CompiledFilter::Compare { col_idx, op, value }),
                Err(e) => Err(e),
            },
        }
    }

    fn compile_comparison(
        left: Expr,
        op: BinOp,
        right: Expr,
        table_column_defs: &[ColumnDef],
        numbers: &Numbers,
    ) -> (r: Outcome<Self>)
        ensures
            error::outcome(r) == compare_operands(
                left,
                op,
                right,
                table_column_defs@,
                numbers.readings@,
            ),
    {
        match (left, right) {
            (Expr::Identifier(l), Expr::Value(r)) => Self::compile_column_value_comparison(
                l,
                r,
                op,
                table_column_defs,
                numbers,
            ),
            (Expr::Value(l), Expr::Identifier(r)) => Self::compile_column_value_comparison(
                r,
                l,
                op.flip(),
                table_column_defs,
                numbers,
            ),
            (Expr::Value(l), Expr::Value(r)) => {
                let a = match Value::try_from_untyped(l, numbers) {
                    Ok(v) => v,
                    Err(e) => return Err(e),
                };
                let b = match Value::try_from_untyped(r, numbers) {
                    Ok(v) => v,
                    Err(e) => return Err(e),
                };
                Ok(CompiledFilter::Const(a.fits_op(&b, &op)))
            },
            (Expr::Identifier(l), Expr::Identifier(r)) => {
                let left_idx: usize = match Self::find_column(&l, table_column_defs) {
                    Ok(i) => i,
                    Err(e) => return Err(e),
                };
                let right_idx: usize = match Self::find_column(&r, table_column_defs) {
                    Ok(i) => i,
                    Err(e) => return Err(e),
                };
                Ok(CompiledFilter::CompareColumns { left_idx, op, right_idx })
            },
            (left, right) => Err(
                Error::InvalidSource(
                    concat5(
                        "Unsupported comparison operands in filter: (",
                        left.to_text().as_str(),
                        ") and (",
                        right.to_text().as_str(),
                        ")",
                    ),
                ),
            ),
        }
    }

    /// For each row, whether the filter lets it pass.
    pub fn get_granule_mask(&self, columns: &Vec<Vec<Value>>) -> (r: Vec<bool>)
        requires
            reads_within(*self, columns@.len()),
        ensures
            r@ == mask_of(*self, granule_view(columns@)),
        decreases self,
    {
        let ghost cols = granule_view(columns@);
        let mut mask: Vec<bool> = Vec::new();
        match self {
            CompiledFilter::Column(col_idx) => {
                let column = &columns[*col_idx];
                assert(cols[*col_idx as int] == column@);
                let mut i: usize = 0;
                while i < column.len()
                    invariant
                        i <= column@.len(),
                        mask@.len() == i,
                        forall|k: int| 0 <= k < i ==> #[trigger] mask@[k] == (column@[k] == Value::Bool(true)),
                    decreases column@.len() - i,
                {
                    mask.push(column[i].is_true());
                    i += 1;
                }
            },
            CompiledFilter::Compare { col_idx, op, value } => {
                let column = &columns[*col_idx];
                assert(cols[*col_idx as int] == column@);
                let mut i: usize = 0;
                while i < column.len()
                    invariant
                        i <= column@.len(),
                        mask@.len() == i,
                        forall|k: int| 0 <= k < i ==> #[trigger] mask@[k] == value::fits(column@[k], *value, *op),
                    decreases column@.len() - i,
                {
                    mask.push(column[i].fits_op(value, op));
                    i += 1;
                }
            },
            CompiledFilter::CompareColumns { left_idx, op, right_idx } => {
                let left = &columns[*left_idx];
                let right = &columns[*right_idx];
                assert(cols[*left_idx as int] == left@);
                assert(cols[*right_idx as int] == right@);
                let mut i: usize = 0;
                while i < left.len() && i < right.len()
                    invariant
                        i <= left@.len(),
                        i <= right@.len(),
                        mask@.len() == i,
                        forall|k: int| 0 <= k < i ==> #[trigger] mask@[k] == value::fits(left@[k], right@[k], *op),
                    decreases left@.len() - i,
                {
                    mask.push(left[i].fits_op(&right[i], op));
                    i += 1;
                }
            },
            CompiledFilter::And(l, r) => {
                let left = l.get_granule_mask(columns);
                let right = r.get_granule_mask(columns);
                let mut i: usize = 0;
                while i < left.len() && i < right.len()
                    invariant
                        i <= left@.len(),
                        i <= right@.len(),
                        mask@.len() == i,
                        forall|k: int| 0 <= k < i ==> #[trigger] mask@[k] == (left@[k] && right@[k]),
                    decreases left@.len() - i,
                {
                    mask.push(left[i] && right[i]);
                    i += 1;
                }
            },
            CompiledFilter::Or(l, r) => {
                let left = l.get_granule_mask(columns);
                let right = r.get_granule_mask(columns);
                let mut i: usize = 0;
                while i < left.len() && i < right.len()
                    invariant
                        i <= left@.len(),
                        i <= right@.len(),
                        mask@.len() == i,
                        forall|k: int| 0 <= k < i ==> #[trigger] mask@[k] == (left@[k] || right@[k]),
                    decreases left@.len() - i,
                {
                    mask.push(left[i] || right[i]);
                    i += 1;
                }
            },
            CompiledFilter::Not(inner) => {
                let inner = inner.get_granule_mask(columns);
                let mut i: usize = 0;
                while i < inner.len()
                    invariant
                        i <= inner@.len(),
                        mask@.len() == i,
                        forall|k: int| 0 <= k < i ==> #[trigger] mask@[k] == !inner@[k],
                    decreases inner@.len() - i,
                {
                    mask.push(!inner[i]);
                    i += 1;
                }
            },
            CompiledFilter::Const(val) => {
                let length: usize = if columns.len() == 0 {
                    0
                } else {
                    columns[0].len()
                };
                assert(length == granule_rows(cols));
                let mut i: usize = 0;
                while i < length
                    invariant
                        i <= length,
                        mask@.len() == i,
                        forall|k: int| 0 <= k < i ==> #[trigger] mask@[k] == *val,
                    decreases length - i,
                {
                    mask.push(*val);
                    i += 1;
                }
            },
        }
        assert(mask@ =~= mask_of(*self, cols));
        mask
    }

    /// Leaves in every column the values of the rows that pass.
    pub fn filter_granule(&self, columns: &mut Vec<Vec<Value>>)
        requires
            reads_within(*self, old(columns)@.len()),
            forall|i: int|
                0 <= i < old(columns)@.len() ==> (#[trigger] old(columns)@[i])@.len() <= mask_of(
                    *self,
                    granule_view(old(columns)@),
                ).len(),
        ensures
            final(columns)@.len() == old(columns)@.len(),
            forall|i: int|
                0 <= i < old(columns)@.len() ==> (#[trigger] final(columns)@[i])@ == retained(
                    old(columns)@[i]@,
                    mask_of(*self, granule_view(old(columns)@)),
                ),
    {
        let mask = self.get_granule_mask(columns);
        apply_mask(columns, &mask);
    }
}

/// Leaves in a column the values of the rows that pass.
pub fn retain_column(column: &mut Vec<Value>, mask: &Vec<bool>)
    requires
        old(column)@.len() <= mask@.len(),
    ensures
        final(column)@ == retained(old(column)@, mask@),
{
    let ghost orig = column@;
    let mut kept: Vec<Value> = Vec::new();
    let mut i: usize = 0;
    assert(orig.take(0) =~= Seq::<Value>::empty());
    while i < column.len()
        invariant
            i <= column@.len(),
            column@.len() == orig.len(),
            orig.len() <= mask@.len(),
            forall|k: int| i <= k < orig.len() ==> #[trigger] column@[k] == orig[k],
            kept@ == retained(orig.take(i as int), mask@),
        decreases column@.len() - i,
    {
        let mut held = Value::Null;
        core::mem::swap(&mut held, &mut column[i]);
        assert(orig.take(i + 1).drop_last() =~= orig.take(i as int));
        if mask[i] {
            kept.push(held);
        }
        i += 1;
    }
    assert(orig.take(i as int) =~= orig);
    *column = kept;
}

/// Leaves in every column the values of the rows that pass.
pub fn apply_mask(columns: &mut Vec<Vec<Value>>, mask: &Vec<bool>)
    requires
        forall|i: int| 0 <= i < old(columns)@.len() ==> (#[trigger] old(columns)@[i])@.len() <= mask@.len(),
    ensures
        final(columns)@.len() == old(columns)@.len(),
        forall|i: int|
            0 <= i < old(columns)@.len() ==> (#[trigger] final(columns)@[i])@ == retained(
                old(columns)@[i]@,
                mask@,
            ),
{
    let ghost orig = columns@;
    let mut c: usize = 0;
    while c < columns.len()
        invariant
            c <= columns@.len(),
            columns@.len() == orig.len(),
            forall|i: int| 0 <= i < orig.len() ==> (#[trigger] orig[i])@.len() <= mask@.len(),
            forall|i: int| 0 <= i < c ==> (#[trigger] columns@[i])@ == retained(orig[i]@, mask@),
            forall|i: int| c <= i < orig.len() ==> #[trigger] columns@[i] == orig[i],
        decreases columns@.len() - c,
    {
        assert(columns@[c as int] == orig[c as int]);
        retain_column(&mut columns[c], mask);
        c += 1;
    }
}

/// A compiled filter reads only columns that it was compiled against.
pub proof fn lemma_compiled_reads_columns(
    filter: Expr,
    columns: Seq<ColumnDef>,
    readings: Seq<NumberReading>,
)
    requires
        columns.len() <= usize::MAX,
    ensures
        compiled(filter, columns, readings) matches Ok(f) ==> reads_within(f, columns.len()),
    decreases filter,
{
    match filter {
        Expr::BinaryOp { left, op, right } => {
            lemma_compiled_reads_columns(*left, columns, readings);
            lemma_compiled_reads_columns(*right, columns, readings);
            match (*left, *right) {
                (Expr::Identifier(l), _) => {
                    search::lemma_position(columns, column::named(l.value@));
                },
                _ => {},
            }
            match (*left, *right) {
                (_, Expr::Identifier(r)) => {
                    search::lemma_position(columns, column::named(r.value@));
                },
                _ => {},
            }
        },
        Expr::UnaryOp { op, expr } => {
            lemma_compiled_reads_columns(*expr, columns, readings);
        },
        Expr::Identifier(ident) => {
            search::lemma_position(columns, column::named(ident.value@));
        },
        _ => {},
    }
}

/// Whether a row satisfies a filter.
pub open spec fn holds(filter: CompiledFilter, columns: Seq<Seq<Value>>, row: int) -> bool
    decreases filter,
{
    match filter {
        CompiledFilter::Column(i) => columns[i as int][row] == Value::Bool(true),
        CompiledFilter::Compare { col_idx, op, value } => value::fits(
            columns[col_idx as int][row],
            value,
            op,
        ),
        CompiledFilter::CompareColumns { left_idx, op, right_idx } => value::fits(
            columns[left_idx as int][row],
            columns[right_idx as int][row],
            op,
        ),
        CompiledFilter::And(l, r) => holds(*l, columns, row) && holds(*r, columns, row),
        CompiledFilter::Or(l, r) => holds(*l, columns, row) || holds(*r, columns, row),
        CompiledFilter::Not(f) => !holds(*f, columns, row),
        CompiledFilter::Const(b) => b,
    }
}

/// In a granule whose columns have one length, the mask says of each row whether it satisfies the
/// filter.
pub proof fn lemma_mask_tells_which_rows_hold(filter: CompiledFilter, columns: Seq<Seq<Value>>, n: nat)
    requires
        reads_within(filter, columns.len()),
        columns.len() > 0,
        forall|i: int| 0 <= i < columns.len() ==> (#[trigger] columns[i]).len() == n,
    ensures
        mask_of(filter, columns).len() == n,
        forall|r: int| 0 <= r < n ==> #[trigger] mask_of(filter, columns)[r] == holds(filter, columns, r),
    decreases filter,
{
    match filter {
        CompiledFilter::And(l, r) => {
            lemma_mask_tells_which_rows_hold(*l, columns, n);
            lemma_mask_tells_which_rows_hold(*r, columns, n);
        },
        CompiledFilter::Or(l, r) => {
            lemma_mask_tells_which_rows_hold(*l, columns, n);
            lemma_mask_tells_which_rows_hold(*r, columns, n);
        },
        CompiledFilter::Not(f) => {
            lemma_mask_tells_which_rows_hold(*f, columns, n);
        },
        _ => {},
    }
}

/// Whether a comparison of two operands holds of a row, read off the expression itself.
pub open spec fn comparison_holds(
    left: Expr,
    op: BinOp,
    right: Expr,
    defs: Seq<ColumnDef>,
    readings: Seq<NumberReading>,
    columns: Seq<Seq<Value>>,
    row: int,
) -> bool {
    match (left, right) {
        (Expr::Identifier(l), Expr::Value(r)) => {
            let i = resolve_column(l, defs)->Ok_0;
            value::fits(columns[i][row], literal::typed_value(r, defs[i].field_type, readings)->Ok_0, op)
        },
        (Expr::Value(l), Expr::Identifier(r)) => {
            let i = resolve_column(r, defs)->Ok_0;
            value::fits(literal::typed_value(l, defs[i].field_type, readings)->Ok_0, columns[i][row], op)
        },
        (Expr::Value(l), Expr::Value(r)) => value::fits(
            literal::untyped_value(l, readings)->Ok_0,
            literal::untyped_value(r, readings)->Ok_0,
            op,
        ),
        (Expr::Identifier(l), Expr::Identifier(r)) => value::fits(
            columns[resolve_column(l, defs)->Ok_0][row],
            columns[resolve_column(r, defs)->Ok_0][row],
            op,
        ),
        _ => false,
    }
}

/// Whether an expression holds of a row, read off the expression itself.
pub open spec fn expr_holds(
    filter: Expr,
    defs: Seq<ColumnDef>,
    readings: Seq<NumberReading>,
    columns: Seq<Seq<Value>>,
    row: int,
) -> bool
    decreases filter,
{
    match filter {
        Expr::BinaryOp { left, op: BinaryOperator::And, right } => expr_holds(*left, defs, readings, columns, row)
            && expr_holds(*right, defs, readings, columns, row),
        Expr::BinaryOp { left, op: BinaryOperator::Or, right } => expr_holds(*left, defs, readings, columns, row)
            || expr_holds(*right, defs, readings, columns, row),
        Expr::BinaryOp { left, op, right } => comparison_holds(
            *left,
            comparison(op)->Ok_0,
            *right,
            defs,
            readings,
            columns,
            row,
        ),
        Expr::UnaryOp { op, expr } => !expr_holds(*expr, defs, readings, columns, row),
        Expr::Value(lit) => lit.value == SqlValue::Boolean(true),
        Expr::Identifier(ident) => columns[resolve_column(ident, defs)->Ok_0][row] == Value::Bool(true),
        _ => false,
    }
}

/// Folding constants and turning comparisons around does not change what a filter means: a row
/// satisfies the compiled filter exactly when the expression holds of it.
pub proof fn lemma_compiling_keeps_meaning(
    filter: Expr,
    defs: Seq<ColumnDef>,
    readings: Seq<NumberReading>,
    columns: Seq<Seq<Value>>,
    row: int,
)
    requires
        defs.len() <= usize::MAX,
        compiled(filter, defs, readings) is Ok,
    ensures
        holds(compiled(filter, defs, readings)->Ok_0, columns, row) == expr_holds(
            filter,
            defs,
            readings,
            columns,
            row,
        ),
    decreases filter,
{
    match filter {
        Expr::BinaryOp { left, op, right } => {
            if op == BinaryOperator::And || op == BinaryOperator::Or {
                lemma_compiling_keeps_meaning(*left, defs, readings, columns, row);
                if compiled(*right, defs, readings) is Ok {
                    lemma_compiling_keeps_meaning(*right, defs, readings, columns, row);
                }
            } else {
                match (*left, *right) {
                    (Expr::Identifier(l), _) => {
                        search::lemma_position(defs, column::named(l.value@));
                    },
                    _ => {},
                }
                match (*left, *right) {
                    (_, Expr::Identifier(r)) => {
                        search::lemma_position(defs, column::named(r.value@));
                    },
                    _ => {},
                }
                match (*left, *right) {
                    (Expr::Value(l), Expr::Identifier(r)) => {
                        let i = resolve_column(r, defs)->Ok_0;
                        value::lemma_flip_swaps_operands(
                            literal::typed_value(l, defs[i].field_type, readings)->Ok_0,
                            columns[i][row],
                            comparison(op)->Ok_0,
                        );
                    },
                    _ => {},
                }
            }
        },
        Expr::UnaryOp { op, expr } => {
            lemma_compiling_keeps_meaning(*expr, defs, readings, columns, row);
        },
        Expr::Identifier(ident) => {
            search::lemma_position(defs, column::named(ident.value@));
        },
        _ => {},
    }
}

/// Columns of one length stay aligned: the mask keeps as many values of each.
pub proof fn lemma_retained_lengths_agree(a: Seq<Value>, b: Seq<Value>, mask: Seq<bool>)
    requires
        a.len() == b.len(),
        a.len() <= mask.len(),
    ensures
        retained(a, mask).len() == retained(b, mask).len(),
    decreases a.len(),
{
    if a.len() > 0 {
        lemma_retained_lengths_agree(a.drop_last(), b.drop_last(), mask);
    }
}

} // verus!
