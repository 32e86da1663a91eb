//! The boundary to the storage engine: values that go into a statement,
//! cells that come out of a query, and the calls that run them.

use crate::error::{DirectoryError, DirectoryErrorView, Subject, SubjectView};
use crate::text::{contains_text, decimal, format_int, occurs_in};
use vstd::prelude::*;
use vstd::string::*;

verus! {

/// An open connection to the database. Nothing of its state is visible to
/// the proofs.
#[verifier::external_type_specification]
#[verifier::external_body]
pub struct ExConnection(rusqlite::Connection);

/// A failure reported by the storage engine.
#[verifier::external_type_specification]
#[verifier::external_body]
pub struct ExEngineError(rusqlite::Error);

/// A value in the storage engine's own form.
#[verifier::external_type_specification]
#[verifier::external_body]
pub struct ExEngineValue(rusqlite::types::Value);

/// A value bound to a parameter of a statement.
#[derive(Clone, Debug, PartialEq, Eq)]
pub enum SqlParam {
    /// No value.
    Null,
    /// A whole number.
    Integer(i64),
    /// A text.
    Text(String),
}

/// A cell of a result row.
#[derive(Clone, Debug, PartialEq, Eq)]
pub enum SqlCell {
    /// No value.
    Null,
    /// A whole number.
    Integer(i64),
    /// A floating point number. The directory's columns hold none, so the
    /// number itself is not kept.
    Real,
    /// A text.
    Text(String),
    /// Raw bytes. The directory's columns hold none, so the bytes are not
    /// kept.
    Blob,
}

/// A `SqlParam` by its value.
pub ghost enum SqlParamView {
    Null,
    Integer(int),
    Text(Seq<char>),
}

impl View for SqlParam {
    type V = SqlParamView;

    open spec fn view(&self) -> SqlParamView {
        match self {
            SqlParam::Null => SqlParamView::Null,
            SqlParam::Integer(n) => SqlParamView::Integer(*n as int),
            SqlParam::Text(t) => SqlParamView::Text(t@),
        }
    }
}

/// The parameters of a statement, by their values.
pub open spec fn params_view(params: Seq<SqlParam>) -> Seq<SqlParamView> {
    Seq::new(params.len(), |i: int| params[i]@)
}

/// The value bound for a text that may be absent.
pub open spec fn text_or_null<T: View<V = Seq<char>>>(text: Option<T>) -> SqlParamView {
    match text {
        Some(t) => SqlParamView::Text(t@),
        None => SqlParamView::Null,
    }
}

/// The value bound for a number that may be absent.
pub open spec fn integer_or_null(n: Option<i64>) -> SqlParamView {
    match n {
        Some(i) => SqlParamView::Integer(i as int),
        None => SqlParamView::Null,
    }
}

/// The parameter for a text.
pub fn text_param(text: &str) -> (p: SqlParam)
    ensures
        p@ == SqlParamView::Text(text@),
{
    SqlParam::Text(String::from_str(text))
}

/// The parameter for a text that may be absent.
pub fn optional_text_param(text: Option<&str>) -> (p: SqlParam)
    ensures
        p@ == text_or_null(text),
{
    match text {
        Some(s) => SqlParam::Text(String::from_str(s)),
        None => SqlParam::Null,
    }
}

/// The parameter for a number that may be absent.
pub fn optional_integer_param(n: Option<i64>) -> (p: SqlParam)
    ensures
        p@ == integer_or_null(n),
{
    match n {
        Some(i) => SqlParam::Integer(i),
        None => SqlParam::Null,
    }
}

/// The parameters of a statement about one identifier.
pub fn id_params(id: i64) -> (params: Vec<SqlParam>)
    ensures
        params_view(params@) == seq![SqlParamView::Integer(id as int)],
{
    let mut params: Vec<SqlParam> = Vec::new();
    params.push(SqlParam::Integer(id));
    proof {
        assert(params_view(params@) =~= seq![SqlParamView::Integer(id as int)]);
    }
    params
}

/// The parameters of a statement about one name.
pub fn name_params(name: &str) -> (params: Vec<SqlParam>)
    ensures
        params_view(params@) == seq![SqlParamView::Text(name@)],
{
    let mut params: Vec<SqlParam> = Vec::new();
    params.push(text_param(name));
    proof {
        assert(params_view(params@) =~= seq![SqlParamView::Text(name@)]);
    }
    params
}

/// The parameters of a statement that has none.
pub fn no_params() -> (params: Vec<SqlParam>)
    ensures
        params@.len() == 0,
{
    Vec::new()
}

/// The engine's form of a parameter.
///
/// Trusted: builds the `rusqlite::types::Value` of the same variant with the
/// same content. The result is opaque, so nothing is claimed.
#[verifier::external_body]
fn to_engine(p: &SqlParam) -> (v: rusqlite::types::Value) {
    match p {
        SqlParam::Null => rusqlite::types::Value::Null,
        SqlParam::Integer(i) => rusqlite::types::Value::Integer(*i),
        SqlParam::Text(s) => rusqlite::types::Value::Text(s.clone()),
    }
}

/// Runs a statement that returns no rows and gives the number of rows it
/// changed.
///
/// Trusted: calls `rusqlite::Connection::execute` with the values bound in
/// order through `rusqlite::params_from_iter`. What it returns depends on
/// the database, so nothing is claimed.
#[verifier::external_body]
fn engine_execute(
    conn: &rusqlite::Connection,
    sql: &str,
    values: Vec<rusqlite::types::Value>,
) -> (changed: Result<usize, rusqlite::Error>) {
    conn.execute(sql, rusqlite::params_from_iter(values))
}

/// Runs a query and gives its rows, each with one cell for each column.
///
/// Trusted: calls `rusqlite::Connection::prepare`, `Statement::query_map`
/// and `Row::get` for every column, and takes each cell over by its
/// variant. What it returns depends on the database, so nothing is claimed.
#[verifier::external_body]
fn engine_query(
    conn: &rusqlite::Connection,
    sql: &str,
    values: Vec<rusqlite::types::Value>,
) -> (rows: Result<Vec<Vec<SqlCell>>, rusqlite::Error>) {
    let mut stmt = conn.prepare(sql)?;
    let width = stmt.column_count();
    let rows = stmt.query_map(rusqlite::params_from_iter(values), |row| {
        (0..width).map(|i| row.get(i).map(|v| match v {
            rusqlite::types::Value::Null => SqlCell::Null,
            rusqlite::types::Value::Integer(n) => SqlCell::Integer(n),
            rusqlite::types::Value::Real(_) => SqlCell::Real,
            rusqlite::types::Value::Text(t) => SqlCell::Text(t),
            rusqlite::types::Value::Blob(_) => SqlCell::Blob,
        })).collect()
    })?;
    rows.collect()
}

/// The row identifier of the most recent insert on this connection.
///
/// Trusted: calls `rusqlite::Connection::last_insert_rowid`. The result
/// depends on the database, so nothing is claimed.
#[verifier::external_body]
pub(crate) fn last_insert_rowid(conn: &rusqlite::Connection) -> (id: i64) {
    conn.last_insert_rowid()
}

/// The engine's message for a failure.
///
/// Trusted: formats the `rusqlite::Error` through its `Display`. The error
/// is opaque, so nothing is claimed of the text.
#[verifier::external_body]
fn engine_error_text(e: &rusqlite::Error) -> (text: String) {
    format!("{}", e)
}

/// The engine's forms of the parameters, in order.
fn bind(params: &Vec<SqlParam>) -> (values: Vec<rusqlite::types::Value>)
    ensures
        values.len() == params.len(),
{
    let mut values: Vec<rusqlite::types::Value> = Vec::new();
    let mut i: usize = 0;
    while i < params.len()
        invariant
            i <= params.len(),
            values.len() == i,
        decreases params.len() - i,
    {
        values.push(to_engine(&params[i]));
        i = i + 1;
    }
    values
}

/// The part of the engine's message that tells a broken uniqueness rule.
pub open spec fn unique_marker() -> Seq<char> {
    "UNIQUE constraint failed"@
}

/// What a failed insert means: the name is taken where the engine reports a
/// broken uniqueness rule, and the storage failed otherwise.
pub open spec fn insert_failure(text: Seq<char>, subject: SubjectView) -> DirectoryErrorView {
    if occurs_in(text, unique_marker()) {
        DirectoryErrorView::AlreadyExists(subject)
    } else {
        DirectoryErrorView::Storage(text)
    }
}

/// Classifies the engine's message for a failed insert of `subject`.
pub fn classify_insert_failure(text: String, subject: Subject) -> (e: DirectoryError)
    ensures
        e@ == insert_failure(text@, subject@),
{
    if contains_text(text.as_str(), "UNIQUE constraint failed") {
        DirectoryError::AlreadyExists(subject)
    } else {
        DirectoryError::Storage(text)
    }
}

/// Runs a statement that returns no rows; gives the number of rows it
/// changed, or the engine's message.
pub(crate) fn execute(conn: &rusqlite::Connection, sql: &str, params: &Vec<SqlParam>) -> (changed:
    Result<usize, String>) {
    match engine_execute(conn, sql, bind(params)) {
        Ok(n) => Ok(n),
        Err(e) => Err(engine_error_text(&e)),
    }
}

/// Runs a query; gives its rows, or the engine's message as a storage
/// failure.
pub(crate) fn query(conn: &rusqlite::Connection, sql: &str, params: &Vec<SqlParam>) -> (rows:
    Result<Vec<Vec<SqlCell>>, DirectoryError>)
    ensures
        rows matches Err(e) ==> e is Storage,
{
    match engine_query(conn, sql, bind(params)) {
        Ok(rows) => Ok(rows),
        Err(e) => Err(DirectoryError::Storage(engine_error_text(&e))),
    }
}

/// The message for a cell that does not hold what its column should.
pub open spec fn bad_cell_text(index: int) -> Seq<char> {
    "Invalid column type at index: "@ + decimal(index)
}

/// The failure for a cell that does not hold what its column should.
pub fn bad_cell(index: usize) -> (e: DirectoryError)
    ensures
        e@ == DirectoryErrorView::Storage(bad_cell_text(index as int)),
{
    let mut text = String::from_str("Invalid column type at index: ");
    let digits = format_int(index as i128);
    text.append(digits.as_str());
    DirectoryError::Storage(text)
}

/// Whether a row has a whole number at `index`.
pub open spec fn has_integer(row: Seq<SqlCell>, index: int) -> bool {
    0 <= index < row.len() && row[index] is Integer
}

/// Whether a row has a text at `index`.
pub open spec fn has_text(row: Seq<SqlCell>, index: int) -> bool {
    0 <= index < row.len() && row[index] is Text
}

/// Whether a row has a whole number or no value at `index`.
pub open spec fn has_optional_integer(row: Seq<SqlCell>, index: int) -> bool {
    0 <= index < row.len() && (row[index] is Integer || row[index] is Null)
}

/// Whether a row has a text or no value at `index`.
pub open spec fn has_optional_text(row: Seq<SqlCell>, index: int) -> bool {
    0 <= index < row.len() && (row[index] is Text || row[index] is Null)
}

/// The whole number at `index` of a row. Any other cell, and a row that is
/// too short, is a storage failure.
pub fn integer_at(row: &Vec<SqlCell>, index: usize) -> (result: Result<i64, DirectoryError>)
    ensures
        match result {
            Ok(n) => has_integer(row@, index as int) && row@[index as int] == SqlCell::Integer(n),
            Err(e) => !has_integer(row@, index as int) && e@ == DirectoryErrorView::Storage(
                bad_cell_text(index as int),
            ),
        },
{
    if index < row.len() {
        match &row[index] {
            SqlCell::Integer(n) => Ok(*n),
            _ => Err(bad_cell(index)),
        }
    } else {
        Err(bad_cell(index))
    }
}

/// The text at `index` of a row. Any other cell, and a row that is too
/// short, is a storage failure.
pub fn text_at(row: &Vec<SqlCell>, index: usize) -> (result: Result<String, DirectoryError>)
    ensures
        match result {
            Ok(t) => has_text(row@, index as int) && t@ == row@[index as int]->Text_0@,
            Err(e) => !has_text(row@, index as int) && e@ == DirectoryErrorView::Storage(
                bad_cell_text(index as int),
            ),
        },
{
    if index < row.len() {
        match &row[index] {
            SqlCell::Text(t) => Ok(t.clone()),
            _ => Err(bad_cell(index)),
        }
    } else {
        Err(bad_cell(index))
    }
}

/// The whole number at `index` of a row, or nothing where the cell holds no
/// value. Any other cell, and a row that is too short, is a storage failure.
pub fn optional_integer_at(row: &Vec<SqlCell>, index: usize) -> (result: Result<
    Option<i64>,
    DirectoryError,
>)
    ensures
        match result {
            Ok(Some(n)) => 0 <= index < row.len() && row@[index as int] == SqlCell::Integer(n),
            Ok(None) => 0 <= index < row.len() && row@[index as int] is Null,
            Err(e) => !has_optional_integer(row@, index as int) && e@
                == DirectoryErrorView::Storage(bad_cell_text(index as int)),
        },
{
    if index < row.len() {
        match &row[index] {
            SqlCell::Integer(n) => Ok(Some(*n)),
            SqlCell::Null => Ok(None),
            _ => Err(bad_cell(index)),
        }
    } else {
        Err(bad_cell(index))
    }
}

/// The text at `index` of a row, or nothing where the cell holds no value.
/// Any other cell, and a row that is too short, is a storage failure.
pub fn optional_text_at(row: &Vec<SqlCell>, index: usize) -> (result: Result<
    Option<String>,
    DirectoryError,
>)
    ensures
        match result {
            Ok(Some(t)) => has_text(row@, index as int) && t@ == row@[index as int]->Text_0@,
            Ok(None) => 0 <= index < row.len() && row@[index as int] is Null,
            Err(e) => !has_optional_text(row@, index as int) && e@ == DirectoryErrorView::Storage(
                bad_cell_text(index as int),
            ),
        },
{
    if index < row.len() {
        match &row[index] {
            SqlCell::Text(t) => Ok(Some(t.clone())),
            SqlCell::Null => Ok(None),
            _ => Err(bad_cell(index)),
        }
    } else {
        Err(bad_cell(index))
    }
}

/// The message for a query that gave no row where one was due.
pub open spec fn no_rows_text() -> Seq<char> {
    "Query returned no rows"@
}

/// Whether the first row of a result holds a whole number in its first
/// cell.
pub open spec fn has_count(rows: Seq<Vec<SqlCell>>) -> bool {
    rows.len() > 0 && has_integer(rows[0]@, 0)
}

/// The number that a counting query gave: the first cell of its first row.
/// A result without rows, and any other cell, is a storage failure.
pub fn count_of(rows: &Vec<Vec<SqlCell>>) -> (result: Result<i64, DirectoryError>)
    ensures
        match result {
            Ok(n) => has_count(rows@) && rows@[0]@[0] == SqlCell::Integer(n),
            Err(e) => !has_count(rows@) && e is Storage,
        },
{
    if rows.len() == 0 {
        Err(DirectoryError::Storage(String::from_str("Query returned no rows")))
    } else {
        integer_at(&rows[0], 0)
    }
}

/// What a yes-or-no query says: yes where the first cell of its first row
/// is a number other than 0.
pub open spec fn flag_in(rows: Seq<Vec<SqlCell>>) -> bool {
    has_count(rows) && rows[0]@[0]->Integer_0 != 0
}

/// What a yes-or-no query gave: no where it gave no row, and else what the
/// number in the first cell of its first row says. Any other cell there is
/// a storage failure.
pub fn flag_of(rows: &Vec<Vec<SqlCell>>) -> (result: Result<bool, DirectoryError>)
    ensures
        match result {
            Ok(flag) => flag == flag_in(rows@) && (rows.len() == 0 || has_count(rows@)),
            Err(e) => rows.len() > 0 && !has_count(rows@) && e@ == DirectoryErrorView::Storage(
                bad_cell_text(0),
            ),
        },
{
    if rows.len() == 0 {
        Ok(false)
    } else {
        match integer_at(&rows[0], 0) {
            Ok(n) => Ok(n != 0),
            Err(e) => Err(e),
        }
    }
}

} // verus!
