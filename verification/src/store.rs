//! The store boundary: the rusqlite items the library relies on, each behind
//! a trusted declaration, and the library's own error type for store
//! failures. Everything the store hands back is re-checked by verified code.

use vstd::prelude::*;
use crate::entity::RawRow;

verus! {

#[verifier::external_type_specification]
#[verifier::external_body]
pub struct ExConnection(rusqlite::Connection);

#[verifier::external_type_specification]
#[verifier::external_body]
pub struct ExRusqliteError(rusqlite::Error);

#[verifier::external_type_specification]
#[verifier::external_body]
pub struct ExRow<'a>(rusqlite::Row<'a>);

/// A positional query parameter, as plain values.
pub enum SqlParam {
    Int(i64),
    Text(String),
}

/// A store failure surfaced to the caller: the connection could not be
/// opened, or a statement failed during a commit or a read.
#[derive(Debug)]
pub enum StoreError {
    Connection(String),
    Statement(String),
}

impl StoreError {
    /// The human-readable text of the failure.
    pub fn message(&self) -> (r: String)
        ensures
            self matches StoreError::Connection(m) ==> r@ == m@,
            self matches StoreError::Statement(m) ==> r@ == m@,
    {
        match self {
            StoreError::Connection(m) => m.clone(),
            StoreError::Statement(m) => m.clone(),
        }
    }
}

/// Relies on the `Display` rendering of `rusqlite::Error` for the stored
/// message text.
#[verifier::external_body]
pub(crate) fn error_text(e: &rusqlite::Error) -> String {
    format!("{}", e)
}

/// Relies on `rusqlite::Connection::open`: opens (creating it if absent) the
/// database at the given location; `Err` when it cannot be opened.
#[verifier::external_body]
pub(crate) fn open_connection(path: &str) -> Result<rusqlite::Connection, rusqlite::Error> {
    rusqlite::Connection::open(path)
}

/// Relies on `rusqlite::Connection::execute_batch`: runs each statement of
/// the batch in order and stops at the first failure.
#[verifier::external_body]
pub(crate) fn exec_batch(conn: &rusqlite::Connection, sql: &str) -> Result<
    (),
    rusqlite::Error,
> {
    conn.execute_batch(sql)
}

/// Relies on `rusqlite::Connection::execute` with the four positional
/// parameters of an entity row: `Ok(n)` is the number of rows the statement
/// changed.
#[verifier::external_body]
pub(crate) fn exec_entity_row(
    conn: &rusqlite::Connection,
    sql: &str,
    date: &String,
    dateint: i32,
    item_id: i32,
    quantity: u32,
) -> Result<usize, rusqlite::Error> {
    conn.execute(
        sql,
        &[
            date as &dyn rusqlite::types::ToSql,
            &dateint as &dyn rusqlite::types::ToSql,
            &item_id as &dyn rusqlite::types::ToSql,
            &quantity as &dyn rusqlite::types::ToSql,
        ],
    )
}

/// Relies on `rusqlite::Connection::execute` with one positional integer
/// parameter: `Ok(n)` is the number of rows the statement changed.
#[verifier::external_body]
pub(crate) fn exec_id(conn: &rusqlite::Connection, sql: &str, id: i32) -> Result<
    usize,
    rusqlite::Error,
> {
    conn.execute(sql, &[&id as &dyn rusqlite::types::ToSql])
}

/// Relies on `rusqlite::Row::get` by column name: each column is present
/// only when it exists and its stored value converts to the asked type.
#[verifier::external_body]
pub(crate) fn read_raw_row(row: &rusqlite::Row) -> RawRow {
    RawRow {
        id: row.get("id").ok(),
        date: row.get("date").ok(),
        dateint: row.get("dateint").ok(),
        item_id: row.get("item_id").ok(),
        quantity: row.get("quantity").ok(),
    }
}

/// Relies on `rusqlite::Connection::prepare` and
/// `rusqlite::Statement::query_map`: runs the SELECT with the given
/// positional parameters and yields one raw row per result row; a row the
/// store cannot even step over comes back with every column absent.
#[verifier::external_body]
pub(crate) fn query_raw(
    conn: &rusqlite::Connection,
    sql: &str,
    params: &Vec<SqlParam>,
) -> Result<Vec<RawRow>, rusqlite::Error> {
    let mut ps: Vec<Box<dyn rusqlite::types::ToSql>> = Vec::new();
    for p in params.iter() {
        match p {
            SqlParam::Int(i) => ps.push(Box::new(*i)),
            SqlParam::Text(t) => ps.push(Box::new(t.clone())),
        }
    }
    let refs: Vec<&dyn rusqlite::types::ToSql> = ps.iter().map(|b| b.as_ref()).collect();
    let mut stmt = conn.prepare(sql)?;
    let rows = stmt.query_map(refs.as_slice(), |row| Ok(read_raw_row(row)))?;
    Ok(rows.map(|r| r.unwrap_or(RawRow::invalid())).collect())
}

/// Opens a connection to the store at an explicit location; the caller, not
/// the library, decides where the database lives.
pub fn connect(path: &str) -> (r: Result<rusqlite::Connection, StoreError>)
    ensures
        r is Err ==> r->Err_0 is Connection,
{
    match open_connection(path) {
        Ok(conn) => Ok(conn),
        Err(e) => Err(StoreError::Connection(error_text(&e))),
    }
}

pub const CREATE_SQL: &'static str =
    "CREATE TABLE IF NOT EXISTS registrations (id INTEGER PRIMARY KEY, date TEXT, dateint INTEGER, item_id INTEGER, quantity INTEGER);";

pub const DROP_SQL: &'static str = "DROP TABLE IF EXISTS registrations;";

/// Creates the registrations table if it does not exist; idempotent.
pub fn create(conn: &rusqlite::Connection) -> (r: Result<(), StoreError>)
    ensures
        r is Err ==> r->Err_0 is Statement,
{
    match exec_batch(conn, CREATE_SQL) {
        Ok(()) => Ok(()),
        Err(e) => Err(StoreError::Statement(error_text(&e))),
    }
}

/// Drops the registrations table if it exists; idempotent.
pub fn drop(conn: &rusqlite::Connection) -> (r: Result<(), StoreError>)
    ensures
        r is Err ==> r->Err_0 is Statement,
{
    match exec_batch(conn, DROP_SQL) {
        Ok(()) => Ok(()),
        Err(e) => Err(StoreError::Statement(error_text(&e))),
    }
}

} // verus!
