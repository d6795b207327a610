//! What goes to the database and what comes back: statements with their
//! parameters, and rows of values.

use vstd::prelude::*;
use vstd::string::StringExecFns;
use crate::error::{Error, ErrorKind, ErrorView};

verus! {

/// A value that is bound to a statement or comes back in a row.
#[derive(Debug)]
pub enum SqlValue {
    Null,
    Integer(i64),
    /// A number that is no integer. Nothing here binds or reads one.
    Real,
    Text(String),
    Blob(Vec<u8>),
}

/// The mathematical content of a [`SqlValue`].
pub enum SqlView {
    Null,
    Integer(i64),
    Real,
    Text(Seq<char>),
    Blob(Seq<u8>),
}

impl View for SqlValue {
    type V = SqlView;

    open spec fn view(&self) -> SqlView {
        match *self {
            SqlValue::Null => SqlView::Null,
            SqlValue::Integer(i) => SqlView::Integer(i),
            SqlValue::Real => SqlView::Real,
            SqlValue::Text(s) => SqlView::Text(s@),
            SqlValue::Blob(b) => SqlView::Blob(b@),
        }
    }
}

/// The contents of a list of values.
pub open spec fn values(s: Seq<SqlValue>) -> Seq<SqlView> {
    s.map_values(|v: SqlValue| v@)
}

/// The contents of a list of rows.
pub open spec fn rows(s: Seq<Vec<SqlValue>>) -> Seq<Seq<SqlView>> {
    s.map_values(|r: Vec<SqlValue>| values(r@))
}

/// An SQL statement with the values of its parameters.
#[derive(Debug)]
pub struct Statement {
    pub sql: String,
    pub params: Vec<SqlValue>,
}

/// The mathematical content of a [`Statement`].
#[verifier::ext_equal]
pub struct StatementView {
    pub sql: Seq<char>,
    pub params: Seq<SqlView>,
}

impl View for Statement {
    type V = StatementView;

    open spec fn view(&self) -> StatementView {
        StatementView { sql: self.sql@, params: values(self.params@) }
    }
}

/// The contents of a list of statements.
pub open spec fn statements(s: Seq<Statement>) -> Seq<StatementView> {
    s.map_values(|v: Statement| v@)
}

/// The statement with this text and these parameters.
pub open spec fn statement(sql: &str, params: Seq<SqlView>) -> StatementView {
    StatementView { sql: sql@, params }
}

/// The parameter for an unsigned number.
pub open spec fn int_param(value: u64) -> SqlView {
    SqlView::Integer(value as i64)
}

/// Whether the number can be bound: SQLite's integers are signed.
pub open spec fn bindable(value: u64) -> bool {
    value <= i64::MAX
}

/// The error for a number that cannot be bound.
pub open spec fn unbindable() -> ErrorView {
    crate::error::message(ErrorKind::Other, "out of range integral type conversion attempted")
}

/// What a value is called in an error.
pub open spec fn kind_name(value: SqlView) -> Seq<char> {
    match value {
        SqlView::Null => "Null"@,
        SqlView::Integer(_) => "Integer"@,
        SqlView::Real => "Real"@,
        SqlView::Text(_) => "Text"@,
        SqlView::Blob(_) => "Blob"@,
    }
}

/// The error for a column that a row does not have.
pub open spec fn no_column(column: int) -> ErrorView {
    ErrorView::Message {
        kind: ErrorKind::Other,
        message: "Invalid column index: "@ + crate::text::decimal_text(column),
    }
}

/// The error for a column of this name that holds a value of another type than
/// was asked for.
pub open spec fn wrong_type(value: SqlView, column: int, name: Seq<char>) -> ErrorView {
    ErrorView::Message {
        kind: ErrorKind::Other,
        message: "Invalid column type "@ + kind_name(value) + " at index: "@
            + crate::text::decimal_text(column) + ", name: "@ + name,
    }
}

/// The error for a column that holds a number out of the range that was asked
/// for.
pub open spec fn out_of_range(value: i64, column: int) -> ErrorView {
    ErrorView::Message {
        kind: ErrorKind::Other,
        message: "Integer "@ + crate::text::decimal_text(value as int) + " out of range at index "@
            + crate::text::decimal_text(column),
    }
}

/// The error for a column that holds a text that cannot be read as something
/// else, which these words say why.
pub open spec fn unreadable_text(column: int, why: Seq<char>) -> ErrorView {
    ErrorView::Message {
        kind: ErrorKind::Other,
        message: "Conversion error from type Text at index: "@ + crate::text::decimal_text(column)
            + ", "@ + why,
    }
}

/// The error for a query that gave no row where one was asked for.
pub open spec fn no_rows() -> ErrorView {
    crate::error::message(ErrorKind::Other, "Query returned no rows")
}

impl Statement {
    /// A statement with this text and these parameters.
    pub fn new(sql: &str, params: Vec<SqlValue>) -> (r: Statement)
        ensures
            r@ == statement(sql, values(params@)),
    {
        Statement { sql: sql.to_string(), params }
    }

    /// A statement with this text and no parameters.
    pub fn bare(sql: &str) -> (r: Statement)
        ensures
            r@ == statement(sql, seq![]),
    {
        let r = Statement { sql: sql.to_string(), params: Vec::new() };
        assert(r@.params =~= seq![]);
        r
    }
}

/// The value that binds an unsigned number.
pub fn bind_u64(value: u64) -> (r: Result<SqlValue, Error>)
    ensures
        if bindable(value) {
            r matches Ok(v) && v@ == int_param(value)
        } else {
            r matches Err(e) && e@ == unbindable()
        },
{
    if value <= i64::MAX as u64 {
        Ok(SqlValue::Integer(value as i64))
    } else {
        Err(Error::new(ErrorKind::Other, "out of range integral type conversion attempted"))
    }
}

impl Statement {
    /// A statement about the row with this identifier.
    pub fn by_id(sql: &str, id: u64) -> (r: Result<Statement, Error>)
        ensures
            if bindable(id) {
                r matches Ok(s) && s@ == statement(sql, seq![int_param(id)])
            } else {
                r matches Err(e) && e@ == unbindable()
            },
    {
        match bind_u64(id) {
            Ok(param) => {
                let r = Statement::new(sql, vec![param]);
                assert(r@ =~= statement(sql, seq![int_param(id)]));
                Ok(r)
            },
            Err(e) => Err(e),
        }
    }
}

/// The value that binds a text.
pub fn bind_text(value: &str) -> (r: SqlValue)
    ensures
        r@ == SqlView::Text(value@),
{
    SqlValue::Text(value.to_string())
}

/// A copy of these bytes.
pub fn copy_bytes(value: &[u8]) -> (r: Vec<u8>)
    ensures
        r@ == value@,
{
    let mut data: Vec<u8> = Vec::new();
    data.extend_from_slice(value);
    assert(data@ =~= value@);
    data
}

/// The value that binds a run of bytes.
pub fn bind_blob(value: &[u8]) -> (r: SqlValue)
    ensures
        r@ == SqlView::Blob(value@),
{
    SqlValue::Blob(copy_bytes(value))
}

/// The value in a column, or the error of a row that does not have it.
pub open spec fn cell(row: Seq<SqlView>, column: int) -> Result<SqlView, ErrorView> {
    if 0 <= column < row.len() {
        Ok(row[column])
    } else {
        Err(no_column(column))
    }
}

/// The signed number in the column of this name, or the error of one that holds
/// none.
pub open spec fn as_i64(row: Seq<SqlView>, column: int, name: Seq<char>) -> Result<
    i64,
    ErrorView,
> {
    match cell(row, column) {
        Ok(SqlView::Integer(i)) => Ok(i),
        Ok(value) => Err(wrong_type(value, column, name)),
        Err(error) => Err(error),
    }
}

/// The unsigned number in the column of this name, or the error of one that
/// holds none.
pub open spec fn as_u64(row: Seq<SqlView>, column: int, name: Seq<char>) -> Result<
    u64,
    ErrorView,
> {
    match as_i64(row, column, name) {
        Ok(i) => if i >= 0 {
            Ok(i as u64)
        } else {
            Err(out_of_range(i, column))
        },
        Err(error) => Err(error),
    }
}

/// The unsigned number of 32 bits in the column of this name, or the error of
/// one that holds none.
pub open spec fn as_u32(row: Seq<SqlView>, column: int, name: Seq<char>) -> Result<
    u32,
    ErrorView,
> {
    match as_i64(row, column, name) {
        Ok(i) => if 0 <= i <= u32::MAX {
            Ok(i as u32)
        } else {
            Err(out_of_range(i, column))
        },
        Err(error) => Err(error),
    }
}

/// The truth value in the column of this name, or the error of one that holds
/// none: any number but zero is true.
pub open spec fn as_bool(row: Seq<SqlView>, column: int, name: Seq<char>) -> Result<
    bool,
    ErrorView,
> {
    match as_i64(row, column, name) {
        Ok(i) => Ok(i != 0),
        Err(error) => Err(error),
    }
}

/// The text in the column of this name, or the error of one that holds none.
pub open spec fn as_text(row: Seq<SqlView>, column: int, name: Seq<char>) -> Result<
    Seq<char>,
    ErrorView,
> {
    match cell(row, column) {
        Ok(SqlView::Text(s)) => Ok(s),
        Ok(value) => Err(wrong_type(value, column, name)),
        Err(error) => Err(error),
    }
}

/// The bytes in the column of this name, or the error of one that holds none.
pub open spec fn as_blob(row: Seq<SqlView>, column: int, name: Seq<char>) -> Result<
    Seq<u8>,
    ErrorView,
> {
    match cell(row, column) {
        Ok(SqlView::Blob(b)) => Ok(b),
        Ok(value) => Err(wrong_type(value, column, name)),
        Err(error) => Err(error),
    }
}

/// The error for a column that a row does not have.
fn no_column_error(column: usize) -> (r: Error)
    ensures
        r@ == no_column(column as int),
{
    let mut message = "Invalid column index: ".to_string();
    message.append(crate::text::natural(column as u64).as_str());
    Error::Message { kind: ErrorKind::Other, message }
}

/// The error for a column that holds a value of another type than was asked
/// for.
fn wrong_type_error(value: &SqlValue, column: usize, name: &str) -> (r: Error)
    ensures
        r@ == wrong_type(value@, column as int, name@),
{
    let kind = match value {
        SqlValue::Null => "Null",
        SqlValue::Integer(_) => "Integer",
        SqlValue::Real => "Real",
        SqlValue::Text(_) => "Text",
        SqlValue::Blob(_) => "Blob",
    };
    let mut message = "Invalid column type ".to_string();
    message.append(kind);
    message.append(" at index: ");
    message.append(crate::text::natural(column as u64).as_str());
    message.append(", name: ");
    message.append(name);
    Error::Message { kind: ErrorKind::Other, message }
}

/// The error for a column that holds a number out of range.
fn out_of_range_error(value: i64, column: usize) -> (r: Error)
    ensures
        r@ == out_of_range(value, column as int),
{
    let mut message = "Integer ".to_string();
    message.append(crate::text::decimal(value).as_str());
    message.append(" out of range at index ");
    message.append(crate::text::natural(column as u64).as_str());
    Error::Message { kind: ErrorKind::Other, message }
}

/// The error for a column that holds a text that cannot be read as something
/// else.
pub fn unreadable_text_error(column: usize, why: &str) -> (r: Error)
    ensures
        r@ == unreadable_text(column as int, why@),
{
    let mut message = "Conversion error from type Text at index: ".to_string();
    message.append(crate::text::natural(column as u64).as_str());
    message.append(", ");
    message.append(why);
    Error::Message { kind: ErrorKind::Other, message }
}

/// Reads a signed number.
pub fn get_i64(row: &Vec<SqlValue>, column: usize, name: &str) -> (r: Result<i64, Error>)
    ensures
        match as_i64(values(row@), column as int, name@) {
            Ok(v) => r matches Ok(x) && x == v,
            Err(error) => r matches Err(e) && e@ == error,
        },
{
    if column >= row.len() {
        return Err(no_column_error(column));
    }
    match &row[column] {
        SqlValue::Integer(i) => Ok(*i),
        value => Err(wrong_type_error(value, column, name)),
    }
}

/// Reads an unsigned number.
pub fn get_u64(row: &Vec<SqlValue>, column: usize, name: &str) -> (r: Result<u64, Error>)
    ensures
        match as_u64(values(row@), column as int, name@) {
            Ok(v) => r matches Ok(x) && x == v,
            Err(error) => r matches Err(e) && e@ == error,
        },
{
    match get_i64(row, column, name) {
        Ok(i) => {
            if i >= 0 {
                Ok(i as u64)
            } else {
                Err(out_of_range_error(i, column))
            }
        },
        Err(e) => Err(e),
    }
}

/// Reads an unsigned number of 32 bits.
pub fn get_u32(row: &Vec<SqlValue>, column: usize, name: &str) -> (r: Result<u32, Error>)
    ensures
        match as_u32(values(row@), column as int, name@) {
            Ok(v) => r matches Ok(x) && x == v,
            Err(error) => r matches Err(e) && e@ == error,
        },
{
    match get_i64(row, column, name) {
        Ok(i) => {
            if 0 <= i && i <= u32::MAX as i64 {
                Ok(i as u32)
            } else {
                Err(out_of_range_error(i, column))
            }
        },
        Err(e) => Err(e),
    }
}

/// Reads a truth value.
pub fn get_bool(row: &Vec<SqlValue>, column: usize, name: &str) -> (r: Result<bool, Error>)
    ensures
        match as_bool(values(row@), column as int, name@) {
            Ok(v) => r matches Ok(x) && x == v,
            Err(error) => r matches Err(e) && e@ == error,
        },
{
    match get_i64(row, column, name) {
        Ok(i) => Ok(i != 0),
        Err(e) => Err(e),
    }
}

/// Reads a text.
pub fn get_text(row: &Vec<SqlValue>, column: usize, name: &str) -> (r: Result<String, Error>)
    ensures
        match as_text(values(row@), column as int, name@) {
            Ok(v) => r matches Ok(x) && x@ == v,
            Err(error) => r matches Err(e) && e@ == error,
        },
{
    if column >= row.len() {
        return Err(no_column_error(column));
    }
    match &row[column] {
        SqlValue::Text(s) => Ok(s.as_str().to_string()),
        value => Err(wrong_type_error(value, column, name)),
    }
}

/// Reads bytes.
pub fn get_blob(row: &Vec<SqlValue>, column: usize, name: &str) -> (r: Result<Vec<u8>, Error>)
    ensures
        match as_blob(values(row@), column as int, name@) {
            Ok(v) => r matches Ok(x) && x@ == v,
            Err(error) => r matches Err(e) && e@ == error,
        },
{
    if column >= row.len() {
        return Err(no_column_error(column));
    }
    match &row[column] {
        SqlValue::Blob(b) => Ok(copy_bytes(b.as_slice())),
        value => Err(wrong_type_error(value, column, name)),
    }
}

} // verus!
