//! The error type shared by every part of the database.
use vstd::prelude::*;
use vstd::string::*;

use crate::text::{concat2, concat3};

verus! {

/// The result of an operation that fails with [`Error`].
pub type Outcome<T> = Result<T, Error>;

/// Universal error.
#[derive(Debug, PartialEq, Eq)]
pub enum Error {
    SystemTimeWentBackword,
    DatabaseNotFound,
    TableNotFound,
    InvalidDatabaseName,
    InvalidColumnName(String),
    DatabaseAlreadyExists,
    TableAlreadyExists,
    SqlToAstConversion(String),
    UnsupportedCommand(String),
    UnsupportedColumnType(String),
    InvalidEngineName,
    UnsupportedTableOption(String),
    InvalidOrderBy(String),
    InvalidPrimaryKey(String),
    InvalidOrderByPrimaryKeyPair,
    InvalidTableName,
    NoColumnsSpecified,
    InvalidColumnsSpecified,
    InvalidSource(String),
    UnsupportedColumnConstraint(String),
    CouldNotInsertData(String),
    CouldNotReadData(String),
    CouldNotCreateTable(String),
    EmptySource,
    PermissionDenied,
    UnsupportedFilter(String),
    ColumnNotFound(String),
    DuplicateColumn(String),
    InvalidLimitValue(String),
    InvalidNumberOfParamsSpecified(String),
    UnknownFunction(String),
    UnsupportedNestedFunctions(String),
    InvalidFunctionParams(String),
    PartDoesNotHaveColumns(String),
    ColumnNotInGroupBy(String),
    OrderByColumnsNotFound,
    SendResponse,
    Internal(String),
}

/// An error with its message taken as a sequence of characters.
pub enum ErrorView {
    SystemTimeWentBackword,
    DatabaseNotFound,
    TableNotFound,
    InvalidDatabaseName,
    InvalidColumnName(Seq<char>),
    DatabaseAlreadyExists,
    TableAlreadyExists,
    SqlToAstConversion(Seq<char>),
    UnsupportedCommand(Seq<char>),
    UnsupportedColumnType(Seq<char>),
    InvalidEngineName,
    UnsupportedTableOption(Seq<char>),
    InvalidOrderBy(Seq<char>),
    InvalidPrimaryKey(Seq<char>),
    InvalidOrderByPrimaryKeyPair,
    InvalidTableName,
    NoColumnsSpecified,
    InvalidColumnsSpecified,
    InvalidSource(Seq<char>),
    UnsupportedColumnConstraint(Seq<char>),
    CouldNotInsertData(Seq<char>),
    CouldNotReadData(Seq<char>),
    CouldNotCreateTable(Seq<char>),
    EmptySource,
    PermissionDenied,
    UnsupportedFilter(Seq<char>),
    ColumnNotFound(Seq<char>),
    DuplicateColumn(Seq<char>),
    InvalidLimitValue(Seq<char>),
    InvalidNumberOfParamsSpecified(Seq<char>),
    UnknownFunction(Seq<char>),
    UnsupportedNestedFunctions(Seq<char>),
    InvalidFunctionParams(Seq<char>),
    PartDoesNotHaveColumns(Seq<char>),
    ColumnNotInGroupBy(Seq<char>),
    OrderByColumnsNotFound,
    SendResponse,
    Internal(Seq<char>),
}

impl View for Error {
    type V = ErrorView;

    open spec fn view(&self) -> ErrorView {
        match self {
            Error::SystemTimeWentBackword => ErrorView::SystemTimeWentBackword,
            Error::DatabaseNotFound => ErrorView::DatabaseNotFound,
            Error::TableNotFound => ErrorView::TableNotFound,
            Error::InvalidDatabaseName => ErrorView::InvalidDatabaseName,
            Error::InvalidColumnName(s) => ErrorView::InvalidColumnName(s@),
            Error::DatabaseAlreadyExists => ErrorView::DatabaseAlreadyExists,
            Error::TableAlreadyExists => ErrorView::TableAlreadyExists,
            Error::SqlToAstConversion(s) => ErrorView::SqlToAstConversion(s@),
            Error::UnsupportedCommand(s) => ErrorView::UnsupportedCommand(s@),
            Error::UnsupportedColumnType(s) => ErrorView::UnsupportedColumnType(s@),
            Error::InvalidEngineName => ErrorView::InvalidEngineName,
            Error::UnsupportedTableOption(s) => ErrorView::UnsupportedTableOption(s@),
            Error::InvalidOrderBy(s) => ErrorView::InvalidOrderBy(s@),
            Error::InvalidPrimaryKey(s) => ErrorView::InvalidPrimaryKey(s@),
            Error::InvalidOrderByPrimaryKeyPair => ErrorView::InvalidOrderByPrimaryKeyPair,
            Error::InvalidTableName => ErrorView::InvalidTableName,
            Error::NoColumnsSpecified => ErrorView::NoColumnsSpecified,
            Error::InvalidColumnsSpecified => ErrorView::InvalidColumnsSpecified,
            Error::InvalidSource(s) => ErrorView::InvalidSource(s@),
            Error::UnsupportedColumnConstraint(s) => ErrorView::UnsupportedColumnConstraint(s@),
            Error::CouldNotInsertData(s) => ErrorView::CouldNotInsertData(s@),
            Error::CouldNotReadData(s) => ErrorView::CouldNotReadData(s@),
            Error::CouldNotCreateTable(s) => ErrorView::CouldNotCreateTable(s@),
            Error::EmptySource => ErrorView::EmptySource,
            Error::PermissionDenied => ErrorView::PermissionDenied,
            Error::UnsupportedFilter(s) => ErrorView::UnsupportedFilter(s@),
            Error::ColumnNotFound(s) => ErrorView::ColumnNotFound(s@),
            Error::DuplicateColumn(s) => ErrorView::DuplicateColumn(s@),
            Error::InvalidLimitValue(s) => ErrorView::InvalidLimitValue(s@),
            Error::InvalidNumberOfParamsSpecified(s) => ErrorView::InvalidNumberOfParamsSpecified(s@),
            Error::UnknownFunction(s) => ErrorView::UnknownFunction(s@),
            Error::UnsupportedNestedFunctions(s) => ErrorView::UnsupportedNestedFunctions(s@),
            Error::InvalidFunctionParams(s) => ErrorView::InvalidFunctionParams(s@),
            Error::PartDoesNotHaveColumns(s) => ErrorView::PartDoesNotHaveColumns(s@),
            Error::ColumnNotInGroupBy(s) => ErrorView::ColumnNotInGroupBy(s@),
            Error::OrderByColumnsNotFound => ErrorView::OrderByColumnsNotFound,
            Error::SendResponse => ErrorView::SendResponse,
            Error::Internal(s) => ErrorView::Internal(s@),
        }
    }
}

impl Clone for Error {
    fn clone(&self) -> (r: Self)
        ensures
            r == *self,
    {
        match self {
            Error::SystemTimeWentBackword => Error::SystemTimeWentBackword,
            Error::DatabaseNotFound => Error::DatabaseNotFound,
            Error::TableNotFound => Error::TableNotFound,
            Error::InvalidDatabaseName => Error::InvalidDatabaseName,
            Error::InvalidColumnName(s) => Error::InvalidColumnName(s.clone()),
            Error::DatabaseAlreadyExists => Error::DatabaseAlreadyExists,
            Error::TableAlreadyExists => Error::TableAlreadyExists,
            Error::SqlToAstConversion(s) => Error::SqlToAstConversion(s.clone()),
            Error::UnsupportedCommand(s) => Error::UnsupportedCommand(s.clone()),
            Error::UnsupportedColumnType(s) => Error::UnsupportedColumnType(s.clone()),
            Error::InvalidEngineName => Error::InvalidEngineName,
            Error::UnsupportedTableOption(s) => Error::UnsupportedTableOption(s.clone()),
            Error::InvalidOrderBy(s) => Error::InvalidOrderBy(s.clone()),
            Error::InvalidPrimaryKey(s) => Error::InvalidPrimaryKey(s.clone()),
            Error::InvalidOrderByPrimaryKeyPair => Error::InvalidOrderByPrimaryKeyPair,
            Error::InvalidTableName => Error::InvalidTableName,
            Error::NoColumnsSpecified => Error::NoColumnsSpecified,
            Error::InvalidColumnsSpecified => Error::InvalidColumnsSpecified,
            Error::InvalidSource(s) => Error::InvalidSource(s.clone()),
            Error::UnsupportedColumnConstraint(s) => Error::UnsupportedColumnConstraint(s.clone()),
            Error::CouldNotInsertData(s) => Error::CouldNotInsertData(s.clone()),
            Error::CouldNotReadData(s) => Error::CouldNotReadData(s.clone()),
            Error::CouldNotCreateTable(s) => Error::CouldNotCreateTable(s.clone()),
            Error::EmptySource => Error::EmptySource,
            Error::PermissionDenied => Error::PermissionDenied,
            Error::UnsupportedFilter(s) => Error::UnsupportedFilter(s.clone()),
            Error::ColumnNotFound(s) => Error::ColumnNotFound(s.clone()),
            Error::DuplicateColumn(s) => Error::DuplicateColumn(s.clone()),
            Error::InvalidLimitValue(s) => Error::InvalidLimitValue(s.clone()),
            Error::InvalidNumberOfParamsSpecified(s) => Error::InvalidNumberOfParamsSpecified(s.clone()),
            Error::UnknownFunction(s) => Error::UnknownFunction(s.clone()),
            Error::UnsupportedNestedFunctions(s) => Error::UnsupportedNestedFunctions(s.clone()),
            Error::InvalidFunctionParams(s) => Error::InvalidFunctionParams(s.clone()),
            Error::PartDoesNotHaveColumns(s) => Error::PartDoesNotHaveColumns(s.clone()),
            Error::ColumnNotInGroupBy(s) => Error::ColumnNotInGroupBy(s.clone()),
            Error::OrderByColumnsNotFound => Error::OrderByColumnsNotFound,
            Error::SendResponse => Error::SendResponse,
            Error::Internal(s) => Error::Internal(s.clone()),
        }
    }
}

/// The message shown to the client for an error.
pub open spec fn error_text(e: ErrorView) -> Seq<char> {
    match e {
        ErrorView::SystemTimeWentBackword => "System time went backword. Try again later."@,
        ErrorView::DatabaseNotFound => "Database not found."@,
        ErrorView::TableNotFound => "Table not found."@,
        ErrorView::InvalidDatabaseName => "Invalid database name."@,
        ErrorView::InvalidColumnName(s) => "Invalid column name: "@ + s,
        ErrorView::DatabaseAlreadyExists => "Database already exists."@,
        ErrorView::TableAlreadyExists => "Table already exists."@,
        ErrorView::SqlToAstConversion(s) => "Couldn't parse SQL: "@ + s,
        ErrorView::UnsupportedCommand(s) => "Unsupported command: "@ + s + "."@,
        ErrorView::UnsupportedColumnType(s) => "Unsupported column name: "@ + s + "."@,
        ErrorView::InvalidEngineName => "Invalid engine name."@,
        ErrorView::UnsupportedTableOption(s) => "Unsupported table option: "@ + s,
        ErrorView::InvalidOrderBy(s) => "Invalid ORDER BY: "@ + s,
        ErrorView::InvalidPrimaryKey(s) => "Invalid PRIMARY KEY: "@ + s,
        ErrorView::InvalidOrderByPrimaryKeyPair => "Invalid pair of ORDER BY and PRIMARY KEY. PRIMARY KEY should be prefix of ORDER BY"@,
        ErrorView::InvalidTableName => "Invalid table name."@,
        ErrorView::NoColumnsSpecified => "No columns specified."@,
        ErrorView::InvalidColumnsSpecified => "Invalid columns specified."@,
        ErrorView::InvalidSource(s) => "Invalid source of values: "@ + s,
        ErrorView::UnsupportedColumnConstraint(s) => "Unsupported column constraint: "@ + s,
        ErrorView::CouldNotInsertData(s) => "Could not insert data: "@ + s + "."@,
        ErrorView::CouldNotReadData(s) => "Could not read data: "@ + s + "."@,
        ErrorView::CouldNotCreateTable(s) => "Could not create table: "@ + s + "."@,
        ErrorView::EmptySource => "No values provided"@,
        ErrorView::PermissionDenied => "Permission denied"@,
        ErrorView::UnsupportedFilter(s) => "Unsupported filter: "@ + s,
        ErrorView::ColumnNotFound(s) => "Column not found: "@ + s,
        ErrorView::DuplicateColumn(s) => "Duplicate column in projection: "@ + s,
        ErrorView::InvalidLimitValue(s) => "Invalid limit value: "@ + s,
        ErrorView::InvalidNumberOfParamsSpecified(s) => "Invalid number of params specified: "@ + s,
        ErrorView::UnknownFunction(s) => "Unknown function: "@ + s,
        ErrorView::UnsupportedNestedFunctions(s) => "Nested functions are not supported: "@ + s,
        ErrorView::InvalidFunctionParams(s) => "Invalid function paramaters: "@ + s,
        ErrorView::PartDoesNotHaveColumns(s) => "Part ("@ + s + ") does not have any columns."@,
        ErrorView::ColumnNotInGroupBy(s) => "Column ("@ + s + ") is not under aggregate function and not in GROUP BY keys."@,
        ErrorView::OrderByColumnsNotFound => "No ORDER BY columns found"@,
        ErrorView::SendResponse => "SendResponse"@,
        ErrorView::Internal(s) => "Internal error happened: "@ + s,
    }
}

/// A result with its error taken by its view.
pub open spec fn outcome<T>(r: Outcome<T>) -> Result<T, ErrorView> {
    match r {
        Ok(v) => Ok(v),
        Err(e) => Err(e@),
    }
}

/// A result with its value and its error taken by their views.
pub open spec fn outcome_view<T: View>(r: Outcome<T>) -> Result<T::V, ErrorView> {
    match r {
        Ok(v) => Ok(v@),
        Err(e) => Err(e@),
    }
}

impl Error {
    /// The message shown to the client for this error.
    pub fn to_text(&self) -> (r: String)
        ensures
            r@ == error_text(self@),
    {
        match self {
            Error::SystemTimeWentBackword => "System time went backword. Try again later.".to_owned(),
            Error::DatabaseNotFound => "Database not found.".to_owned(),
            Error::TableNotFound => "Table not found.".to_owned(),
            Error::InvalidDatabaseName => "Invalid database name.".to_owned(),
            Error::InvalidColumnName(s) => concat2("Invalid column name: ", s.as_str()),
            Error::DatabaseAlreadyExists => "Database already exists.".to_owned(),
            Error::TableAlreadyExists => "Table already exists.".to_owned(),
            Error::SqlToAstConversion(s) => concat2("Couldn't parse SQL: ", s.as_str()),
            Error::UnsupportedCommand(s) => concat3("Unsupported command: ", s.as_str(), "."),
            Error::UnsupportedColumnType(s) => concat3("Unsupported column name: ", s.as_str(), "."),
            Error::InvalidEngineName => "Invalid engine name.".to_owned(),
            Error::UnsupportedTableOption(s) => concat2("Unsupported table option: ", s.as_str()),
            Error::InvalidOrderBy(s) => concat2("Invalid ORDER BY: ", s.as_str()),
            Error::InvalidPrimaryKey(s) => concat2("Invalid PRIMARY KEY: ", s.as_str()),
            Error::InvalidOrderByPrimaryKeyPair => "Invalid pair of ORDER BY and PRIMARY KEY. PRIMARY KEY should be prefix of ORDER BY".to_owned(),
            Error::InvalidTableName => "Invalid table name.".to_owned(),
            Error::NoColumnsSpecified => "No columns specified.".to_owned(),
            Error::InvalidColumnsSpecified => "Invalid columns specified.".to_owned(),
            Error::InvalidSource(s) => concat2("Invalid source of values: ", s.as_str()),
            Error::UnsupportedColumnConstraint(s) => concat2("Unsupported column constraint: ", s.as_str()),
            Error::CouldNotInsertData(s) => concat3("Could not insert data: ", s.as_str(), "."),
            Error::CouldNotReadData(s) => concat3("Could not read data: ", s.as_str(), "."),
            Error::CouldNotCreateTable(s) => concat3("Could not create table: ", s.as_str(), "."),
            Error::EmptySource => "No values provided".to_owned(),
            Error::PermissionDenied => "Permission denied".to_owned(),
            Error::UnsupportedFilter(s) => concat2("Unsupported filter: ", s.as_str()),
            Error::ColumnNotFound(s) => concat2("Column not found: ", s.as_str()),
            Error::DuplicateColumn(s) => concat2("Duplicate column in projection: ", s.as_str()),
            Error::InvalidLimitValue(s) => concat2("Invalid limit value: ", s.as_str()),
            Error::InvalidNumberOfParamsSpecified(s) => concat2("Invalid number of params specified: ", s.as_str()),
            Error::UnknownFunction(s) => concat2("Unknown function: ", s.as_str()),
            Error::UnsupportedNestedFunctions(s) => concat2("Nested functions are not supported: ", s.as_str()),
            Error::InvalidFunctionParams(s) => concat2("Invalid function paramaters: ", s.as_str()),
            Error::PartDoesNotHaveColumns(s) => concat3("Part (", s.as_str(), ") does not have any columns."),
            Error::ColumnNotInGroupBy(s) => concat3("Column (", s.as_str(), ") is not under aggregate function and not in GROUP BY keys."),
            Error::OrderByColumnsNotFound => "No ORDER BY columns found".to_owned(),
            Error::SendResponse => "SendResponse".to_owned(),
            Error::Internal(s) => concat2("Internal error happened: ", s.as_str()),
        }
    }
}

} // verus!
