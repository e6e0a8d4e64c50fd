//! The syntax tree of a statement, as far as planning reads it.
//!
//! What planning only repeats in a message is held as the text that the message shows.
use vstd::prelude::*;
use vstd::string::*;

use crate::text;
use crate::text::{concat2, concat3, concat5, quote};

verus! {

/// An identifier: its name, the text by which it was written, and its debug text, which tells where it
/// was written.
#[derive(Debug, PartialEq, Eq)]
pub struct Ident {
    pub value: String,
    pub rendered: String,
    pub debug: String,
}

impl Ident {
    /// An identifier without quotes, written nowhere.
    pub fn new(value: String) -> (r: Self)
        ensures
            r.value == value,
            r.rendered == value,
            r.debug@ == "Ident { value: "@ + text::quoted(value@)
                + ", quote_style: None, span: Span(Location(0,0)..Location(0,0)) }"@,
    {
        let debug = concat3(
            "Ident { value: ",
            quote(value.as_str()).as_str(),
            ", quote_style: None, span: Span(Location(0,0)..Location(0,0)) }",
        );
        Ident { rendered: value.clone(), debug, value }
    }
}

impl Clone for Ident {
    fn clone(&self) -> (r: Self)
        ensures
            r == *self,
    {
        Ident { value: self.value.clone(), rendered: self.rendered.clone(), debug: self.debug.clone() }
    }
}

/// A part of a dotted name.
#[derive(Debug, PartialEq, Eq)]
pub enum ObjectNamePart {
    Identifier(Ident),
    /// A call in place of a name, by its text and its debug text.
    Function(String, String),
}

/// A dotted name.
#[derive(Debug, PartialEq, Eq)]
pub struct ObjectName(pub Vec<ObjectNamePart>);

/// The text of a part of a dotted name.
pub open spec fn part_text(p: ObjectNamePart) -> Seq<char> {
    match p {
        ObjectNamePart::Identifier(ident) => ident.rendered@,
        ObjectNamePart::Function(text, _) => text@,
    }
}

/// The text of a dotted name.
pub open spec fn name_text(parts: Seq<ObjectNamePart>) -> Seq<char>
    decreases parts.len(),
{
    if parts.len() == 0 {
        seq![]
    } else if parts.len() == 1 {
        part_text(parts[0])
    } else {
        name_text(parts.drop_last()) + "."@ + part_text(parts.last())
    }
}

/// The debug text of a part of a dotted name.
pub open spec fn part_debug(p: ObjectNamePart) -> Seq<char> {
    match p {
        ObjectNamePart::Identifier(ident) => "Identifier("@ + ident.debug@ + ")"@,
        ObjectNamePart::Function(_, debug) => debug@,
    }
}

/// The debug texts of parts of a dotted name, with commas between them.
pub open spec fn parts_debug(parts: Seq<ObjectNamePart>) -> Seq<char>
    decreases parts.len(),
{
    if parts.len() == 0 {
        seq![]
    } else if parts.len() == 1 {
        part_debug(parts[0])
    } else {
        parts_debug(parts.drop_last()) + ", "@ + part_debug(parts.last())
    }
}

/// The debug text of a dotted name.
pub open spec fn name_debug(parts: Seq<ObjectNamePart>) -> Seq<char> {
    "["@ + parts_debug(parts) + "]"@
}

impl ObjectNamePart {
    /// The debug text of this part.
    pub fn debug_text(&self) -> (r: String)
        ensures
            r@ == part_debug(*self),
    {
        match self {
            ObjectNamePart::Identifier(ident) => concat3("Identifier(", ident.debug.as_str(), ")"),
            ObjectNamePart::Function(_, debug) => debug.clone(),
        }
    }

    /// The text of this part.
    pub fn to_text(&self) -> (r: String)
        ensures
            r@ == part_text(*self),
    {
        match self {
            ObjectNamePart::Identifier(ident) => ident.rendered.clone(),
            ObjectNamePart::Function(text, _) => text.clone(),
        }
    }
}

impl ObjectName {
    /// The debug text of the parts.
    pub fn debug_text(&self) -> (r: String)
        ensures
            r@ == name_debug(self.0@),
    {
        let mut r = String::new();
        let mut i: usize = 0;
        assert(r@ =~= parts_debug(self.0@.take(0)));
        while i < self.0.len()
            invariant
                i <= self.0@.len(),
                r@ == parts_debug(self.0@.take(i as int)),
            decreases self.0@.len() - i,
        {
            let part = self.0[i].debug_text();
            proof {
                assert(self.0@.take(i + 1).drop_last() =~= self.0@.take(i as int));
                assert(self.0@.take(i + 1).last() == self.0@[i as int]);
            }
            r = if i == 0 {
                part
            } else {
                concat3(r.as_str(), ", ", part.as_str())
            };
            i += 1;
        }
        assert(self.0@.take(i as int) =~= self.0@);
        concat3("[", r.as_str(), "]")
    }

    /// The parts joined by dots.
    pub fn to_text(&self) -> (r: String)
        ensures
            r@ == name_text(self.0@),
    {
        if self.0.len() == 0 {
            let r = String::new();
            assert(r@ =~= name_text(self.0@));
            return r;
        }
        let mut r = self.0[0].to_text();
        let mut i: usize = 1;
        assert(self.0@.take(1)[0] == self.0@[0]);
        while i < self.0.len()
            invariant
                1 <= i <= self.0@.len(),
                r@ == name_text(self.0@.take(i as int)),
            decreases self.0@.len() - i,
        {
            assert(self.0@.take(i + 1).drop_last() =~= self.0@.take(i as int));
            r = concat3(r.as_str(), ".", self.0[i].to_text().as_str());
            i += 1;
        }
        assert(self.0@.take(i as int) =~= self.0@);
        r
    }
}

/// A literal.
#[derive(Debug, PartialEq, Eq)]
pub enum SqlValue {
    Null,
    SingleQuotedString(String),
    TripleSingleQuotedString(String),
    TripleDoubleQuotedString(String),
    /// The digits of a number, and whether it was marked as a long one.
    Number(String, bool),
    Boolean(bool),
    Placeholder(String),
    /// Any other form of literal.
    Other,
}

impl Clone for SqlValue {
    fn clone(&self) -> (r: Self)
        ensures
            r == *self,
    {
        match self {
            SqlValue::Null => SqlValue::Null,
            SqlValue::SingleQuotedString(s) => SqlValue::SingleQuotedString(s.clone()),
            SqlValue::TripleSingleQuotedString(s) => SqlValue::TripleSingleQuotedString(s.clone()),
            SqlValue::TripleDoubleQuotedString(s) => SqlValue::TripleDoubleQuotedString(s.clone()),
            SqlValue::Number(s, long) => SqlValue::Number(s.clone(), *long),
            SqlValue::Boolean(b) => SqlValue::Boolean(*b),
            SqlValue::Placeholder(s) => SqlValue::Placeholder(s.clone()),
            SqlValue::Other => SqlValue::Other,
        }
    }
}

/// A literal with the texts by which messages show it.
#[derive(Debug, PartialEq, Eq)]
pub struct Literal {
    pub value: SqlValue,
    /// The literal as it is written in SQL.
    pub rendered: String,
    /// The literal as it is shown with its form.
    pub debug: String,
}

impl Clone for Literal {
    fn clone(&self) -> (r: Self)
        ensures
            r == *self,
    {
        Literal {
            value: self.value.clone(),
            rendered: self.rendered.clone(),
            debug: self.debug.clone(),
        }
    }
}

/// A binary operator.
#[derive(Debug, PartialEq, Eq)]
pub enum BinaryOperator {
    And,
    Or,
    Gt,
    Lt,
    GtEq,
    LtEq,
    Eq,
    NotEq,
    /// Any other operator, by its text.
    Other(String),
}

/// The text of a binary operator.
pub open spec fn binary_text(op: BinaryOperator) -> Seq<char> {
    match op {
        BinaryOperator::And => "AND"@,
        BinaryOperator::Or => "OR"@,
        BinaryOperator::Gt => ">"@,
        BinaryOperator::Lt => "<"@,
        BinaryOperator::GtEq => ">="@,
        BinaryOperator::LtEq => "<="@,
        BinaryOperator::Eq => "="@,
        BinaryOperator::NotEq => "<>"@,
        BinaryOperator::Other(text) => text@,
    }
}

impl BinaryOperator {
    /// The text of the operator.
    pub fn to_text(&self) -> (r: String)
        ensures
            r@ == binary_text(*self),
    {
        match self {
            BinaryOperator::And => "AND".to_owned(),
            BinaryOperator::Or => "OR".to_owned(),
            BinaryOperator::Gt => ">".to_owned(),
            BinaryOperator::Lt => "<".to_owned(),
            BinaryOperator::GtEq => ">=".to_owned(),
            BinaryOperator::LtEq => "<=".to_owned(),
            BinaryOperator::Eq => "=".to_owned(),
            BinaryOperator::NotEq => "<>".to_owned(),
            BinaryOperator::Other(text) => text.clone(),
        }
    }
}

/// A unary operator.
#[derive(Debug, PartialEq, Eq)]
pub enum UnaryOperator {
    Plus,
    Minus,
    Not,
    /// An operator written directly before its operand.
    Prefix(String),
    /// An operator written before its operand with a space between them.
    Word(String),
    /// An operator written directly behind its operand.
    Postfix(String),
}

/// The text of a unary operator.
pub open spec fn unary_text(op: UnaryOperator) -> Seq<char> {
    match op {
        UnaryOperator::Plus => "+"@,
        UnaryOperator::Minus => "-"@,
        UnaryOperator::Not => "NOT"@,
        UnaryOperator::Prefix(text) => text@,
        UnaryOperator::Word(text) => text@,
        UnaryOperator::Postfix(text) => text@,
    }
}

impl UnaryOperator {
    /// The text of the operator.
    pub fn to_text(&self) -> (r: String)
        ensures
            r@ == unary_text(*self),
    {
        match self {
            UnaryOperator::Plus => "+".to_owned(),
            UnaryOperator::Minus => "-".to_owned(),
            UnaryOperator::Not => "NOT".to_owned(),
            UnaryOperator::Prefix(text) => text.clone(),
            UnaryOperator::Word(text) => text.clone(),
            UnaryOperator::Postfix(text) => text.clone(),
        }
    }
}

/// An argument of a function.
#[derive(Debug, PartialEq, Eq)]
pub enum FunctionArg {
    Expr(Expr),
    Wildcard,
    /// A wildcard behind a name, by the text of the name.
    QualifiedWildcard(String),
    /// An argument that is given by name.
    Named,
}

/// The arguments of a function.
#[derive(Debug, PartialEq, Eq)]
pub enum FunctionArguments {
    /// No argument list.
    Absent,
    /// A query in place of arguments, by its text.
    Subquery(String),
    List {
        args: Vec<FunctionArg>,
        /// ALL or DISTINCT before the arguments, where one is there, as it is shown.
        duplicate_treatment: Option<String>,
        /// The clauses behind the arguments, each as it is shown.
        clauses: Vec<String>,
    },
}

/// A call of a function.
#[derive(Debug, PartialEq, Eq)]
pub struct Function {
    pub name: ObjectName,
    /// The text of a parameter list before the arguments, where there is one.
    pub parameters: Option<String>,
    pub args: FunctionArguments,
    /// The call as it is written in SQL.
    pub rendered: String,
}

/// An expression.
#[allow(inconsistent_fields)]
#[derive(Debug, PartialEq, Eq)]
pub enum Expr {
    Identifier(Ident),
    Value(Literal),
    BinaryOp { left: Box<Expr>, op: BinaryOperator, right: Box<Expr> },
    UnaryOp { op: UnaryOperator, expr: Box<Expr> },
    Nested(Box<Expr>),
    Tuple(Vec<Expr>),
    Function(Box<Function>),
    /// Any other form of expression, by its text.
    Other(String),
}

/// The texts of the first `n` expressions of a list, joined by commas.
pub open spec fn list_text(list: Seq<Expr>, n: nat) -> Seq<char>
    decreases list, n,
    when n <= list.len()
{
    if n == 0 {
        seq![]
    } else if n == 1 {
        expr_text(list[0])
    } else {
        list_text(list, (n - 1) as nat) + ", "@ + expr_text(list[n - 1])
    }
}

/// The text of an expression.
pub open spec fn expr_text(e: Expr) -> Seq<char>
    decreases e, 0nat,
{
    match e {
        Expr::Identifier(ident) => ident.rendered@,
        Expr::Value(literal) => literal.rendered@,
        Expr::BinaryOp { left, op, right } => expr_text(*left) + " "@ + binary_text(op) + " "@
            + expr_text(*right),
        Expr::UnaryOp { op, expr } => match op {
            UnaryOperator::Not => "NOT "@ + expr_text(*expr),
            UnaryOperator::Word(text) => text@ + " "@ + expr_text(*expr),
            UnaryOperator::Postfix(text) => expr_text(*expr) + text@,
            _ => unary_text(op) + expr_text(*expr),
        },
        Expr::Nested(inner) => "("@ + expr_text(*inner) + ")"@,
        Expr::Tuple(list) => "("@ + list_text(list@, list@.len()) + ")"@,
        Expr::Function(function) => function.rendered@,
        Expr::Other(text) => text@,
    }
}

impl Expr {
    /// The text of the expression.
    pub fn to_text(&self) -> (r: String)
        ensures
            r@ == expr_text(*self),
        decreases self,
    {
        match self {
            Expr::Identifier(ident) => ident.rendered.clone(),
            Expr::Value(literal) => literal.rendered.clone(),
            Expr::BinaryOp { left, op, right } => concat5(
                left.to_text().as_str(),
                " ",
                op.to_text().as_str(),
                " ",
                right.to_text().as_str(),
            ),
            Expr::UnaryOp { op, expr } => match op {
                UnaryOperator::Not => concat2("NOT ", expr.to_text().as_str()),
                UnaryOperator::Word(text) => concat3(text.as_str(), " ", expr.to_text().as_str()),
                UnaryOperator::Postfix(text) => concat2(expr.to_text().as_str(), text.as_str()),
                _ => concat2(op.to_text().as_str(), expr.to_text().as_str()),
            },
            Expr::Nested(inner) => concat3("(", inner.to_text().as_str(), ")"),
            Expr::Tuple(list) => {
                let mut r = String::new();
                let mut i: usize = 0;
                assert(r@ =~= list_text(list@, 0));
                while i < list.len()
                    invariant
                        i <= list@.len(),
                        r@ == list_text(list@, i as nat),
                        *self == Expr::Tuple(*list),
                    decreases list@.len() - i,
                {
                    assert(decreases_to!(*self => self->Tuple_0));
                    assert(decreases_to!(self->Tuple_0 => self->Tuple_0@));
                    assert(decreases_to!(self->Tuple_0@ => self->Tuple_0@[i as int]));
                    let item = list[i].to_text();
                    if i == 0 {
                        r = item;
                    } else {
                        r = concat3(r.as_str(), ", ", item.as_str());
                    }
                    i += 1;
                }
                concat3("(", r.as_str(), ")")
            },
            Expr::Function(function) => function.rendered.clone(),
            Expr::Other(text) => text.clone(),
        }
    }
}

/// The type of a column as it is written in a declaration.
#[derive(Debug, PartialEq, Eq)]
pub enum DataType {
    String,
    Uuid,
    Bool,
    Int8,
    Int16,
    Int32,
    Int64,
    UInt8,
    UInt16,
    UInt32,
    UInt64,
    Float32,
    Float64,
    /// Any other type, by its text.
    Other(String),
}

/// An option of a column declaration.
#[derive(Debug, PartialEq, Eq)]
pub enum ColumnOption {
    Null,
    NotNull,
    Default(Expr),
    /// Any other option, by its text.
    Other(String),
}

/// An option of a column declaration with the name of its constraint.
#[derive(Debug, PartialEq, Eq)]
pub struct ColumnOptionDef {
    pub name: Option<Ident>,
    pub option: ColumnOption,
}

/// A declaration of a column.
#[derive(Debug, PartialEq, Eq)]
pub struct ColumnDecl {
    pub name: Ident,
    pub data_type: DataType,
    pub options: Vec<ColumnOptionDef>,
}

/// An option of a table.
#[derive(Debug, PartialEq, Eq)]
pub enum SqlOption {
    /// `key = name(..)`, where the name may be missing.
    NamedParenthesizedList { key: Ident, name: Option<Ident> },
    /// Any other form of option.
    Other,
}

/// The options of a table.
#[derive(Debug, PartialEq, Eq)]
pub enum CreateTableOptions {
    /// No option.
    Absent,
    Plain(Vec<SqlOption>),
    /// Options in any other form.
    Other,
}

/// CREATE TABLE.
#[derive(Debug, PartialEq, Eq)]
pub struct CreateTable {
    pub name: ObjectName,
    pub if_not_exists: bool,
    pub columns: Vec<ColumnDecl>,
    pub table_options: CreateTableOptions,
    pub order_by: Option<Vec<Expr>>,
    pub primary_key: Option<Expr>,
}

/// The table of an INSERT.
#[derive(Debug, PartialEq, Eq)]
pub enum TableObject {
    TableName(ObjectName),
    /// A table function.
    Other,
}

/// INSERT.
#[derive(Debug, PartialEq, Eq)]
pub struct Insert {
    pub table: TableObject,
    pub columns: Vec<Ident>,
    pub source: Option<Query>,
}

/// An item of the list of a SELECT.
#[derive(Debug, PartialEq, Eq)]
pub enum SelectItem {
    Wildcard,
    QualifiedWildcard,
    UnnamedExpr(Expr),
    ExprWithAlias { expr: Expr, alias: Ident },
}

/// What a FROM reads.
#[derive(Debug, PartialEq, Eq)]
pub enum TableFactor {
    Table { name: ObjectName },
    Derived { subquery: Box<Query> },
    /// Anything else.
    Other,
}

/// An item of a FROM.
#[derive(Debug, PartialEq, Eq)]
pub struct TableWithJoins {
    pub relation: TableFactor,
    /// How many tables are joined to it.
    pub joins: usize,
}

/// GROUP BY. Each of the modifiers behind it is held as it is shown.
#[derive(Debug, PartialEq, Eq)]
pub enum GroupByExpr {
    All(Vec<String>),
    Expressions(Vec<Expr>, Vec<String>),
}

/// The first `n` texts joined by commas.
pub open spec fn joined(items: Seq<String>, n: nat) -> Seq<char>
    decreases n,
{
    if n == 0 {
        seq![]
    } else if n == 1 {
        items[0]@
    } else {
        joined(items, (n - 1) as nat) + ", "@ + items[n - 1]@
    }
}

/// The texts as a list is shown.
pub fn shown_list(items: &Vec<String>) -> (r: String)
    ensures
        r@ == "["@ + joined(items@, items@.len()) + "]"@,
{
    let mut text = String::new();
    let mut i: usize = 0;
    assert(text@ =~= joined(items@, 0));
    while i < items.len()
        invariant
            i <= items@.len(),
            text@ == joined(items@, i as nat),
        decreases items@.len() - i,
    {
        if i == 0 {
            text = items[i].clone();
        } else {
            text = concat3(text.as_str(), ", ", items[i].as_str());
        }
        i += 1;
    }
    concat3("[", text.as_str(), "]")
}

/// ORDER BY.
#[derive(Debug, PartialEq, Eq)]
pub enum OrderBy {
    All,
    Expressions(Vec<Expr>),
}

/// LIMIT and OFFSET.
#[derive(Debug, PartialEq, Eq)]
pub enum LimitClause {
    LimitOffset { limit: Option<Expr>, offset: Option<Expr> },
    /// Any other form of limit.
    Other,
}

/// SELECT.
#[derive(Debug, PartialEq, Eq)]
pub struct Select {
    pub projection: Vec<SelectItem>,
    pub from: Vec<TableWithJoins>,
    pub selection: Option<Expr>,
    pub group_by: GroupByExpr,
    pub having: Option<Expr>,
}

/// The body of a query.
#[derive(Debug, PartialEq, Eq)]
pub enum SetExpr {
    Select(Box<Select>),
    /// The rows of VALUES.
    Values(Vec<Vec<Expr>>),
    /// Anything else.
    Other,
}

/// A query.
#[derive(Debug, PartialEq, Eq)]
pub struct Query {
    pub body: SetExpr,
    pub order_by: Option<OrderBy>,
    pub limit_clause: Option<LimitClause>,
}

/// What a DROP drops.
#[derive(Debug, Clone, Copy, PartialEq, Eq, Structural)]
pub enum ObjectType {
    Table,
    Database,
    /// Anything else.
    Other,
}

/// A statement.
#[derive(Debug, PartialEq, Eq)]
pub enum Statement {
    CreateDatabase { db_name: ObjectName, if_not_exists: bool },
    CreateTable(CreateTable),
    Insert(Insert),
    Query(Query),
    Drop { object_type: ObjectType, if_exists: bool, names: Vec<ObjectName> },
    /// Any other statement, by its text.
    Other(String),
}

} // verus!
