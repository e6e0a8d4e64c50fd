//! From expressions of a query to projections.
use vstd::prelude::*;
use vstd::string::*;

use crate::error::{Error, ErrorView, Outcome};
use crate::error;
use crate::search;
use crate::sql::ast;
use crate::sql::debug_text;
use crate::sql::ast::{Expr, Function, FunctionArg, FunctionArguments, Ident, ObjectNamePart};
use crate::sql::logical_plan::plan::{AggregateFunction, AggregateProjection};
use crate::sql::projection;
use crate::sql::projection::{Projection, ProjectionValue};
use crate::storage::literal;
use crate::storage::numbers;
use crate::storage::numbers::{NumberReading, Numbers};
use crate::storage::value::Value;
use crate::text;
use crate::text::{concat2, concat3, concat4, concat5, decimal_text, hexadecimal_text, quote, to_lowercase};

verus! {

/// The projection that an identifier names.
pub open spec fn projection_named(ident: Ident, available: Seq<Projection>) -> Result<Projection, ErrorView> {
    match search::position(available, projection::answers_to(ident.value@)) {
        Some(i) => Ok(available[i]),
        None => Err(ErrorView::ColumnNotFound(ident.rendered@)),
    }
}

/// The text of an integer.
pub open spec fn signed_decimal(v: int) -> Seq<char> {
    if v < 0 {
        "-"@ + text::decimal((-v) as nat)
    } else {
        text::decimal(v as nat)
    }
}

/// The text of a UUID: groups of hexadecimal digits with hyphens between them.
pub open spec fn uuid_text(bits: u128) -> Seq<char> {
    let v = bits as nat;
    text::hexadecimal(v / 0x1_0000_0000_0000_0000_0000_0000, 8) + "-"@ + text::hexadecimal(
        v / 0x1_0000_0000_0000_0000_0000,
        4,
    ) + "-"@ + text::hexadecimal(v / 0x1_0000_0000_0000_0000, 4) + ("-"@ + text::hexadecimal(
        v / 0x1_0000_0000_0000,
        4,
    ) + "-"@ + text::hexadecimal(v, 12))
}

/// The text by which a literal column is named. A number is written as its reading says, and what
/// has no such reading by its bits.
pub open spec fn literal_text(v: Value, readings: Seq<NumberReading>) -> Seq<char> {
    match v {
        Value::Null => "Null"@,
        Value::String(s) => "String("@ + text::quoted(s@) + ")"@,
        Value::Bool(b) => if b {
            "Bool(true)"@
        } else {
            "Bool(false)"@
        },
        Value::F64(bits) => "F64("@ + numbers::label_of(readings, bits) + ")"@,
        Value::Int8(x) => "Int8("@ + signed_decimal(x as int) + ")"@,
        Value::Int16(x) => "Int16("@ + signed_decimal(x as int) + ")"@,
        Value::Int32(x) => "Int32("@ + signed_decimal(x as int) + ")"@,
        Value::Int64(x) => "Int64("@ + signed_decimal(x as int) + ")"@,
        Value::UInt8(x) => "UInt8("@ + signed_decimal(x as int) + ")"@,
        Value::UInt16(x) => "UInt16("@ + signed_decimal(x as int) + ")"@,
        Value::UInt32(x) => "UInt32("@ + signed_decimal(x as int) + ")"@,
        Value::UInt64(x) => "UInt64("@ + signed_decimal(x as int) + ")"@,
        Value::F32(bits) => "F32("@ + numbers::single_label_of(readings, bits) + ")"@,
        Value::Uuid(bits) => "Uuid("@ + uuid_text(bits) + ")"@,
    }
}

/// The name of a source.
pub open spec fn source_text(s: ProjectionValue, readings: Seq<NumberReading>) -> Seq<char> {
    match s {
        ProjectionValue::Value(v) => literal_text(v, readings),
        ProjectionValue::ColumnDef(c) => c.name@,
    }
}

/// The name of a column of a result.
pub open spec fn projection_text(p: Projection, readings: Seq<NumberReading>) -> Seq<char> {
    match p.alias {
        Some(alias) => alias@,
        None => source_text(p.source, readings),
    }
}

fn signed_text(v: i128) -> (r: String)
    requires
        -0x1_0000_0000_0000_0000 < v < 0x1_0000_0000_0000_0000,
    ensures
        r@ == signed_decimal(v as int),
{
    if v < 0 {
        concat2("-", decimal_text((-v) as u64).as_str())
    } else {
        decimal_text(v as u64)
    }
}

fn tagged(tag: &str, v: i128) -> (r: String)
    requires
        -0x1_0000_0000_0000_0000 < v < 0x1_0000_0000_0000_0000,
    ensures
        r@ == tag@ + signed_decimal(v as int) + ")"@,
{
    concat3(tag, signed_text(v).as_str(), ")")
}

fn show_uuid(bits: u128) -> (r: String)
    ensures
        r@ == uuid_text(bits),
{
    let tail = concat4(
        "-",
        hexadecimal_text(bits / 0x1_0000_0000_0000, 4).as_str(),
        "-",
        hexadecimal_text(bits, 12).as_str(),
    );
    let head = concat5(
        hexadecimal_text(bits / 0x1_0000_0000_0000_0000_0000_0000, 8).as_str(),
        "-",
        hexadecimal_text(bits / 0x1_0000_0000_0000_0000_0000, 4).as_str(),
        "-",
        hexadecimal_text(bits / 0x1_0000_0000_0000_0000, 4).as_str(),
    );
    concat2(head.as_str(), tail.as_str())
}

/// The text by which a literal column is named.
pub fn value_text(v: &Value, numbers: &Numbers) -> (r: String)
    ensures
        r@ == literal_text(*v, numbers.readings@),
{
    match v {
        Value::Null => "Null".to_owned(),
        Value::String(s) => concat3("String(", quote(s.as_str()).as_str(), ")"),
        Value::Bool(b) => if *b {
            "Bool(true)".to_owned()
        } else {
            "Bool(false)".to_owned()
        },
        Value::F64(bits) => concat3("F64(", numbers.label(*bits).as_str(), ")"),
        Value::Int8(x) => tagged("Int8(", *x as i128),
        Value::Int16(x) => tagged("Int16(", *x as i128),
        Value::Int32(x) => tagged("Int32(", *x as i128),
        Value::Int64(x) => tagged("Int64(", *x as i128),
        Value::UInt8(x) => tagged("UInt8(", *x as i128),
        Value::UInt16(x) => tagged("UInt16(", *x as i128),
        Value::UInt32(x) => tagged("UInt32(", *x as i128),
        Value::UInt64(x) => tagged("UInt64(", *x as i128),
        Value::F32(bits) => concat3("F32(", numbers.single_label(*bits).as_str(), ")"),
        Value::Uuid(bits) => concat3("Uuid(", show_uuid(*bits).as_str(), ")"),
    }
}

impl ProjectionValue {
    /// The name of the source.
    pub fn to_text(&self, numbers: &Numbers) -> (r: String)
        ensures
            r@ == source_text(*self, numbers.readings@),
    {
        match self {
            ProjectionValue::Value(v) => value_text(v, numbers),
            ProjectionValue::ColumnDef(c) => c.name.clone(),
        }
    }
}

impl Projection {
    /// The name of the column of a result.
    pub fn to_text(&self, numbers: &Numbers) -> (r: String)
        ensures
            r@ == projection_text(*self, numbers.readings@),
    {
        match &self.alias {
            Some(alias) => alias.clone(),
            None => self.source.to_text(numbers),
        }
    }

    /// The projection that an identifier names.
    ///
    /// Returns:
    ///   * Ok: the first projection with this alias or, without an alias, of a column with this name.
    ///   * Error: `ColumnNotFound`.
    pub fn try_from_ident(ident: &Ident, available_projections: &[Projection]) -> (r: Outcome<Self>)
        ensures
            error::outcome(r) == projection_named(*ident, available_projections@),
    {
        match projection::position_answering(available_projections, ident.value.as_str()) {
            Some(i) => Ok(available_projections[i].clone()),
            None => Err(Error::ColumnNotFound(ident.rendered.clone())),
        }
    }
}

/// The only argument of a function with a given name.
pub open spec fn only_argument(name: Seq<char>, args: Seq<Projection>) -> Result<Projection, ErrorView> {
    if args.len() != 1 {
        Err(
            ErrorView::InvalidFunctionParams(
                "for `"@ + name + "` function expected only 1 argument, but received: "@
                    + text::decimal(args.len()),
            ),
        )
    } else {
        Ok(args[0])
    }
}

/// The aggregate function with a given lower-case name.
pub open spec fn function_named(name: Seq<char>, args: Seq<Projection>) -> Result<
    AggregateFunction,
    ErrorView,
> {
    if name == "min"@ {
        match only_argument(name, args) {
            Ok(p) => Ok(AggregateFunction::Min(Box::new(p))),
            Err(e) => Err(e),
        }
    } else if name == "max"@ {
        match only_argument(name, args) {
            Ok(p) => Ok(AggregateFunction::Max(Box::new(p))),
            Err(e) => Err(e),
        }
    } else if name == "sum"@ {
        match only_argument(name, args) {
            Ok(p) => Ok(AggregateFunction::Sum(Box::new(p))),
            Err(e) => Err(e),
        }
    } else if name == "avg"@ {
        match only_argument(name, args) {
            Ok(p) => Ok(AggregateFunction::Avg(Box::new(p))),
            Err(e) => Err(e),
        }
    } else {
        Err(ErrorView::UnknownFunction("Unknown function name: "@ + name))
    }
}

/// The error for an aggregate where a plain projection is expected in a given clause.
pub open spec fn unexpected_aggregate(
    clause: Seq<char>,
    a: AggregateProjection,
    readings: Seq<NumberReading>,
) -> ErrorView {
    ErrorView::InvalidSource(
        "Expected projection in "@ + clause + ", got ("@ + debug_text::aggregate_debug(a, readings)
            + ") instead."@,
    )
}

/// The arguments from position `i` on, behind those before.
pub open spec fn arguments_from(
    args: Seq<FunctionArg>,
    i: int,
    acc: Seq<Projection>,
    available: Seq<Projection>,
    readings: Seq<NumberReading>,
) -> Result<Seq<Projection>, ErrorView>
    decreases args, (args.len() - i) as nat,
    when 0 <= i <= args.len()
{
    if i >= args.len() {
        Ok(acc)
    } else {
        match args[i] {
            FunctionArg::Expr(expr) => match raw_projection(expr, available, readings) {
                Err(e) => Err(e),
                Ok(RawProjection::AggregateProjection(a)) => Err(
                    unexpected_aggregate("ORDER BY"@, a, readings),
                ),
                Ok(RawProjection::Projection(p)) => arguments_from(
                    args,
                    i + 1,
                    acc.push(p),
                    available,
                    readings,
                ),
            },
            FunctionArg::Wildcard => if available.len() == 0 {
                Err(ErrorView::InvalidFunctionParams("no column stands behind the wildcard"@))
            } else {
                arguments_from(args, i + 1, acc.push(available[0]), available, readings)
            },
            FunctionArg::QualifiedWildcard(name) => Err(
                ErrorView::InvalidFunctionParams(
                    "Currently, qualified wildcards ("@ + name@ + ") are not supported"@,
                ),
            ),
            FunctionArg::Named => Err(
                ErrorView::InvalidFunctionParams(
                    "Currently functions do not have/support named parameters."@,
                ),
            ),
        }
    }
}

/// The name of a function and its arguments.
pub open spec fn call_parts(
    f: Function,
    available: Seq<Projection>,
    readings: Seq<NumberReading>,
) -> Result<(Seq<char>, Seq<Projection>), ErrorView>
    decreases f, 0nat,
{
    if f.name.0@.len() != 1 {
        Err(ErrorView::UnknownFunction(ast::name_text(f.name.0@)))
    } else {
        match f.name.0@[0] {
            ObjectNamePart::Function(text, _) => Err(
                ErrorView::UnknownFunction(
                    "function name ("@ + text@ + ") should be identifier, not another function."@,
                ),
            ),
            ObjectNamePart::Identifier(ident) => if f.parameters is Some {
                Err(
                    ErrorView::InvalidFunctionParams(
                        "Function parameters ("@ + f.parameters->Some_0@ + ") are not allowed."@,
                    ),
                )
            } else {
                match f.args {
                    FunctionArguments::Absent => Ok((ident.value@, seq![])),
                    FunctionArguments::Subquery(text) => Err(
                        ErrorView::InvalidFunctionParams(
                            "subqueries ("@ + text@ + ") are not supported as function parameters"@,
                        ),
                    ),
                    FunctionArguments::List { args, duplicate_treatment, clauses } => if clauses@.len() > 0 {
                        Err(
                            ErrorView::InvalidFunctionParams(
                                "clauses ("@ + ("["@ + ast::joined(clauses@, clauses@.len()) + "]"@)
                                    + ") are not supported as function params"@,
                            ),
                        )
                    } else if duplicate_treatment is Some {
                        Err(
                            ErrorView::InvalidFunctionParams(
                                "`[ ALL | DISTINCT ]` (Some("@ + duplicate_treatment->Some_0@
                                    + ")) is not supported as function params"@,
                            ),
                        )
                    } else {
                        match arguments_from(args@, 0, seq![], available, readings) {
                            Ok(list) => Ok((ident.value@, list)),
                            Err(e) => Err(e),
                        }
                    },
                }
            },
        }
    }
}

/// The aggregate that a call stands for.
pub open spec fn parsed_function(
    f: Function,
    available: Seq<Projection>,
    readings: Seq<NumberReading>,
) -> Result<AggregateFunction, ErrorView>
    decreases f, 1nat,
{
    match call_parts(f, available, readings) {
        Ok((name, args)) => function_named(text::lowercased(name), args),
        Err(e) => Err(e),
    }
}

/// The projection that an expression stands for.
pub open spec fn raw_projection(
    expr: Expr,
    available: Seq<Projection>,
    readings: Seq<NumberReading>,
) -> Result<RawProjection, ErrorView>
    decreases expr, 0nat,
{
    match expr {
        Expr::Identifier(ident) => match projection_named(ident, available) {
            Ok(p) => Ok(RawProjection::Projection(p)),
            Err(e) => Err(e),
        },
        Expr::Value(lit) => match literal::untyped_value(lit, readings) {
            Ok(v) => Ok(
                RawProjection::Projection(
                    Projection { alias: None, source: ProjectionValue::Value(v) },
                ),
            ),
            Err(e) => Err(e),
        },
        Expr::Function(function) => match parsed_function(*function, available, readings) {
            Ok(source) => Ok(
                RawProjection::AggregateProjection(AggregateProjection { alias: None, source }),
            ),
            Err(e) => Err(e),
        },
        _ => Err(
            ErrorView::UnsupportedCommand(
                "Only column identifiers and values are supported in projections"@,
            ),
        ),
    }
}

impl AggregateFunction {
    fn take_argument(name: &str, args: Vec<Projection>) -> (r: Outcome<Projection>)
        ensures
            error::outcome(r) == only_argument(name@, args@),
    {
        let mut args = args;
        let n: usize = args.len();
        if n != 1 {
            return Err(
                Error::InvalidFunctionParams(
                    concat4(
                        "for `",
                        name,
                        "` function expected only 1 argument, but received: ",
                        decimal_text(n as u64).as_str(),
                    ),
                ),
            );
        }
        Ok(args.remove(0))
    }

    /// The aggregate function with a given lower-case name.
    ///
    /// Returns:
    ///   * Ok: the function over its only argument.
    ///   * Error when:
    ///     1. There is not exactly one argument: `InvalidFunctionParams`.
    ///     2. No function has the name: `UnknownFunction`.
    pub fn find_function(function_name: &str, args: Vec<Projection>) -> (r: Outcome<Self>)
        ensures
            error::outcome(r) == function_named(function_name@, args@),
    {
        if text::same_text(function_name, "min") {
            match Self::take_argument(function_name, args) {
                Ok(p) => Ok(AggregateFunction::Min(Box::new(p))),
                Err(e) => Err(e),
            }
        } else if text::same_text(function_name, "max") {
            match Self::take_argument(function_name, args) {
                Ok(p) => Ok(AggregateFunction::Max(Box::new(p))),
                Err(e) => Err(e),
            }
        } else if text::same_text(function_name, "sum") {
            match Self::take_argument(function_name, args) {
                Ok(p) => Ok(AggregateFunction::Sum(Box::new(p))),
                Err(e) => Err(e),
            }
        } else if text::same_text(function_name, "avg") {
            match Self::take_argument(function_name, args) {
                Ok(p) => Ok(AggregateFunction::Avg(Box::new(p))),
                Err(e) => Err(e),
            }
        } else {
            Err(Error::UnknownFunction(concat2("Unknown function name: ", function_name)))
        }
    }

    fn parse_call(function: &Function, available_projections: &[Projection], numbers: &Numbers) -> (r: Outcome<
        (String, Vec<Projection>),
    >)
        ensures
            match r {
                Ok((name, args)) => call_parts(
                    *function,
                    available_projections@,
                    numbers.readings@,
                ) == Ok::<(Seq<char>, Seq<Projection>), ErrorView>((name@, args@)),
                Err(e) => call_parts(*function, available_projections@, numbers.readings@) == Err::<
                    (Seq<char>, Seq<Projection>),
                    ErrorView,
                >(e@),
            },
        decreases function, 0nat,
    {
        if function.name.0.len() != 1 {
            return Err(Error::UnknownFunction(function.name.to_text()));
        }
        let name = match &function.name.0[0] {
            ObjectNamePart::Identifier(ident) => ident.value.clone(),
            ObjectNamePart::Function(text, _) => return Err(
                Error::UnknownFunction(
                    concat3(
                        "function name (",
                        text.as_str(),
                        ") should be identifier, not another function.",
                    ),
                ),
            ),
        };
        if let Some(parameters) = &function.parameters {
            return Err(
                Error::InvalidFunctionParams(
                    concat3("Function parameters (", parameters.as_str(), ") are not allowed."),
                ),
            );
        }
        match &function.args {
            FunctionArguments::Absent => {
                let none: Vec<Projection> = Vec::new();
                assert(none@ =~= seq![]);
                Ok((name, none))
            },
            FunctionArguments::Subquery(text) => Err(
                Error::InvalidFunctionParams(
                    concat3(
                        "subqueries (",
                        text.as_str(),
                        ") are not supported as function parameters",
                    ),
                ),
            ),
            FunctionArguments::List { args, duplicate_treatment, clauses } => {
                if clauses.len() > 0 {
                    return Err(
                        Error::InvalidFunctionParams(
                            concat3(
                                "clauses (",
                                ast::shown_list(clauses).as_str(),
                                ") are not supported as function params",
                            ),
                        ),
                    );
                }
                if let Some(treatment) = duplicate_treatment {
                    return Err(
                        Error::InvalidFunctionParams(
                            concat3(
                                "`[ ALL | DISTINCT ]` (Some(",
                                treatment.as_str(),
                                ")) is not supported as function params",
                            ),
                        ),
                    );
                }
                let mut arguments: Vec<Projection> = Vec::new();
                let mut i: usize = 0;
                while i < args.len()
                    invariant
                        i <= args@.len(),
                        function.args matches FunctionArguments::List { args: a, .. } && a == *args,
                        arguments_from(args@, 0, seq![], available_projections@, numbers.readings@)
                            == arguments_from(
                            args@,
                            i as int,
                            arguments@,
                            available_projections@,
                            numbers.readings@,
                        ),
                        call_parts(*function, available_projections@, numbers.readings@) == (match arguments_from(
                            args@,
                            0,
                            seq![],
                            available_projections@,
                            numbers.readings@,
                        ) {
                            Ok(list) => Ok::<(Seq<char>, Seq<Projection>), ErrorView>((name@, list)),
                            Err(e) => Err(e),
                        }),
                    decreases args@.len() - i,
                {
                    let arg = &args[i];
                    assert(decreases_to!(*function => function.args));
                    assert(decreases_to!(function.args => function.args->args));
                    assert(decreases_to!(function.args->args => function.args->args@));
                    assert(decreases_to!(function.args->args@ => function.args->args@[i as int]));
                    match arg {
                        FunctionArg::Expr(expr) => match RawProjection::try_from(
                            expr,
                            available_projections,
                            numbers,
                        ) {
                            Err(e) => return Err(e),
                            Ok(raw) => match raw.plain("ORDER BY", numbers) {
                                Ok(p) => arguments.push(p),
                                Err(e) => return Err(e),
                            },
                        },
                        FunctionArg::Wildcard => {
                            if available_projections.len() == 0 {
                                return Err(
                                    Error::InvalidFunctionParams(
                                        "no column stands behind the wildcard".to_owned(),
                                    ),
                                );
                            }
                            arguments.push(available_projections[0].clone());
                        },
                        FunctionArg::QualifiedWildcard(text) => return Err(
                            Error::InvalidFunctionParams(
                                concat3(
                                    "Currently, qualified wildcards (",
                                    text.as_str(),
                                    ") are not supported",
                                ),
                            ),
                        ),
                        FunctionArg::Named => return Err(
                            Error::InvalidFunctionParams(
                                "Currently functions do not have/support named parameters.".to_owned(),
                            ),
                        ),
                    }
                    i += 1;
                }
                Ok((name, arguments))
            },
        }
    }

    /// The aggregate that a call stands for.
    ///
    /// Returns:
    ///   * Ok: the aggregate, where its name is known and its arguments are projections.
    ///   * Error when:
    ///     1. The name is not a single identifier or not known: `UnknownFunction`.
    ///     2. Something else than a list of plain arguments is given: `InvalidFunctionParams`.
    ///     3. An argument is an aggregate: `InvalidSource`.
    ///     4. An argument is not a projection.
    pub fn try_parse(function: &Function, available_projections: &[Projection], numbers: &Numbers) -> (r: Outcome<Self>)
        ensures
            error::outcome(r) == parsed_function(*function, available_projections@, numbers.readings@),
        decreases function, 1nat,
    {
        match Self::parse_call(function, available_projections, numbers) {
            Ok((name, args)) => Self::find_function(to_lowercase(name.as_str()).as_str(), args),
            Err(e) => Err(e),
        }
    }
}

/// Either a `Projection` or an `AggregateProjection`: what an expression of a query stands for.
#[derive(Debug, PartialEq)]
pub enum RawProjection {
    Projection(Projection),
    AggregateProjection(AggregateProjection),
}

/// A projection with an alias.
pub open spec fn aliased(raw: RawProjection, alias: String) -> RawProjection {
    match raw {
        RawProjection::Projection(p) => RawProjection::Projection(
            Projection { alias: Some(alias), ..p },
        ),
        RawProjection::AggregateProjection(p) => RawProjection::AggregateProjection(
            AggregateProjection { alias: Some(alias), ..p },
        ),
    }
}

impl RawProjection {
    /// The projection that an expression stands for.
    pub fn try_from(expr: &Expr, available_projections: &[Projection], numbers: &Numbers) -> (r: Outcome<Self>)
        ensures
            error::outcome(r) == raw_projection(*expr, available_projections@, numbers.readings@),
        decreases expr, 0nat,
    {
        match expr {
            Expr::Identifier(ident) => match Projection::try_from_ident(ident, available_projections) {
                Ok(p) => Ok(RawProjection::Projection(p)),
                Err(e) => Err(e),
            },
            Expr::Value(lit) => match Value::try_from_untyped(lit.clone(), numbers) {
                Ok(v) => Ok(
                    RawProjection::Projection(
                        Projection { alias: None, source: ProjectionValue::Value(v) },
                    ),
                ),
                Err(e) => Err(e),
            },
            Expr::Function(function) => match AggregateFunction::try_parse(
                function,
                available_projections,
                numbers,
            ) {
                Ok(source) => Ok(
                    RawProjection::AggregateProjection(AggregateProjection { alias: None, source }),
                ),
                Err(e) => Err(e),
            },
            _ => Err(
                Error::UnsupportedCommand(
                    "Only column identifiers and values are supported in projections".to_owned(),
                ),
            ),
        }
    }

    /// Gives the projection a name.
    pub fn set_alias(&mut self, alias: String)
        ensures
            *final(self) == aliased(*old(self), alias),
    {
        match self {
            RawProjection::Projection(proj) => proj.alias = Some(alias),
            RawProjection::AggregateProjection(proj) => proj.alias = Some(alias),
        }
    }

    /// The error for an aggregate where a plain projection is expected in a given clause.
    pub fn plain(self, clause: &str, numbers: &Numbers) -> (r: Outcome<Projection>)
        ensures
            error::outcome(r) == (match self {
                RawProjection::Projection(p) => Ok(p),
                RawProjection::AggregateProjection(a) => Err(
                    unexpected_aggregate(clause@, a, numbers.readings@),
                ),
            }),
    {
        match self {
            RawProjection::Projection(p) => Ok(p),
            RawProjection::AggregateProjection(a) => Err(
                Error::InvalidSource(
                    concat5(
                        "Expected projection in ",
                        clause,
                        ", got (",
                        a.debug_text(numbers).as_str(),
                        ") instead.",
                    ),
                ),
            ),
        }
    }
}

} // verus!
