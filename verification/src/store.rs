//! The database side of a lookup: running the lookup statement for a key
//! and recording, with the answer, which key it was run for.
use vstd::prelude::*;
use rusqlite::{CachedStatement, Connection};
use crate::dict::{EntryRow, LOOKUP_SQL, QueryFailure};

verus! {

/// `Connection::prepare_cached`: the statement prepared for `sql` on this
/// connection, from the connection's cache when it is there, or the error
/// SQLite reported. Which of the two comes back depends on the database,
/// so nothing is promised of it.
#[verifier::external_body]
fn prepare_cached<'c>(conn: &'c Connection, sql: &str) -> Result<CachedStatement<'c>, rusqlite::Error> {
    conn.prepare_cached(sql)
}

/// `Statement::query_row` with the key bound to `?1`: the four text columns
/// of the first row the statement returns, `None` where it returns no row
/// (`Error::QueryReturnedNoRows`), or the error. What the rows hold depends
/// on the database, so nothing is promised of it.
#[verifier::external_body]
fn query_entry_row(stmt: &mut CachedStatement<'_>, key: &str) -> Result<Option<(String, String, String, String)>, rusqlite::Error> {
    match stmt.query_row([key], |r| Ok((r.get(0)?, r.get(1)?, r.get(2)?, r.get(3)?))) {
        Ok(row) => Ok(Some(row)),
        Err(rusqlite::Error::QueryReturnedNoRows) => Ok(None),
        Err(e) => Err(e),
    }
}

/// The `Display` text of a SQLite error (`rusqlite::Error::to_string`).
/// The text depends on the error's details, which are not modelled.
#[verifier::external_body]
fn sql_error_text(e: &rusqlite::Error) -> String {
    e.to_string()
}

/// What the database answered when the lookup statement was run for a key.
/// Only `query_lookup` makes one, so a value of this type shows that the
/// database was asked for `key()`.
pub struct KeyedAnswer {
    key: Ghost<Seq<char>>,
    answer: Result<Option<EntryRow>, QueryFailure>,
}

impl KeyedAnswer {
    /// The key the lookup statement was run for.
    pub closed spec fn key(&self) -> Seq<char> {
        self.key@
    }

    /// What the database answered.
    pub closed spec fn answer(&self) -> Result<Option<EntryRow>, QueryFailure> {
        self.answer
    }

    /// The answer, taken out.
    pub fn into_answer(self) -> (a: Result<Option<EntryRow>, QueryFailure>)
        ensures
            a == self.answer(),
    {
        self.answer
    }
}

/// Runs the lookup statement on `conn` with `key` bound to `?1`: the
/// matching row, no row, or the failure of preparing or running it, with
/// the error's text.
pub fn query_lookup(conn: &Connection, key: &str) -> (a: KeyedAnswer)
    ensures
        a.key() == key@,
{
    let answer = match prepare_cached(conn, LOOKUP_SQL) {
        Err(e) => Err(QueryFailure::Prepare(sql_error_text(&e))),
        Ok(mut stmt) => match query_entry_row(&mut stmt, key) {
            Ok(row) => Ok(row),
            Err(e) => Err(QueryFailure::Query(sql_error_text(&e))),
        },
    };
    KeyedAnswer { key: Ghost(key@), answer }
}

} // verus!
