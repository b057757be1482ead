use vstd::prelude::*;
use rusqlite::OptionalExtension;

verus! {

/// The backing store's connection type. The library holds it opaquely; every
/// statement it issues goes through one of the trusted wrappers below.
#[verifier::external_type_specification]
#[verifier::external_body]
pub struct ExConnection(rusqlite::Connection);

/// The backing store's error type, carried opaquely inside `StoreError`.
#[verifier::external_type_specification]
#[verifier::external_body]
pub struct ExRusqliteError(rusqlite::Error);

/// An error reported by the backing store while running a statement.
#[derive(Debug)]
pub struct StoreError {
    /// The backing store's own description of the failure.
    pub cause: rusqlite::Error,
}

/// Relies on rusqlite's `Connection::execute_batch` to run a sequence of
/// parameterless SQL statements; used for the durability pragma and for
/// idempotent table provisioning.
#[verifier::external_body]
pub(crate) fn exec_batch(conn: &rusqlite::Connection, sql: &str) -> (r: Result<
    (),
    rusqlite::Error,
>) {
    conn.execute_batch(sql)
}

/// Relies on rusqlite's `Connection::execute` with an integer and a text
/// parameter; used to persist one deferred expiry refresh. On success the
/// result is the number of rows the statement changed.
#[verifier::external_body]
pub(crate) fn exec_int_text(
    conn: &rusqlite::Connection,
    sql: &str,
    n: u64,
    text: &str,
) -> (r: Result<usize, rusqlite::Error>) {
    conn.execute(sql, (n as i64, text))
}

/// Relies on rusqlite's `Connection::execute` with one text parameter; used
/// to delete a single row by key. On success the result is the number of rows
/// the statement changed.
#[verifier::external_body]
pub(crate) fn exec_text(conn: &rusqlite::Connection, sql: &str, text: &str) -> (r: Result<
    usize,
    rusqlite::Error,
>) {
    conn.execute(sql, (text,))
}

/// Relies on rusqlite's `Connection::execute` with one integer parameter;
/// used to sweep rows whose expiry lies before a cutoff. On success the
/// result is the number of rows the statement changed.
#[verifier::external_body]
pub(crate) fn exec_int(conn: &rusqlite::Connection, sql: &str, n: u64) -> (r: Result<
    usize,
    rusqlite::Error,
>) {
    conn.execute(sql, (n as i64,))
}

/// Relies on rusqlite's `Connection::execute` with text, blob and two integer
/// parameters; used to replace a whole row. On success the result is the
/// number of rows the statement changed.
#[verifier::external_body]
pub(crate) fn exec_row(
    conn: &rusqlite::Connection,
    sql: &str,
    key: &str,
    value: &[u8],
    expiry: u64,
    ttl: u64,
) -> (r: Result<usize, rusqlite::Error>) {
    conn.execute(sql, (key, value, expiry as i64, ttl as i64))
}

/// Relies on rusqlite's `Connection::query_row` and `OptionalExtension` to
/// read at most one row of a blob and two integer columns by key; `Ok(None)`
/// means no row matched. What comes back depends on the store's contents, so
/// nothing more is promised of it.
#[verifier::external_body]
pub(crate) fn query_entry(conn: &rusqlite::Connection, sql: &str, key: &str) -> (r: Result<
    Option<(Vec<u8>, u64, u64)>,
    rusqlite::Error,
>) {
    conn.query_row(
        sql,
        (key,),
        |row| {
            let data: Vec<u8> = row.get(0)?;
            let created: i64 = row.get(1)?;
            let ttl: i64 = row.get(2)?;
            Ok((data, u64::try_from(created).unwrap_or(0), u64::try_from(ttl).unwrap_or(0)))
        },
    ).optional()
}

/// Relies on rusqlite's `Connection::prepare` and `Statement::query_map` to
/// read a single text column over all matching rows; used to enumerate topic
/// tables. What comes back depends on the store's contents, so nothing more
/// is promised of it.
#[verifier::external_body]
pub(crate) fn query_names(conn: &rusqlite::Connection, sql: &str) -> (r: Result<
    Vec<String>,
    rusqlite::Error,
>) {
    let mut stmt = conn.prepare(sql)?;
    let rows = stmt.query_map((), |row| row.get::<_, String>(0))?;
    rows.collect()
}

/// Relies on std's `SystemTime` for the seconds of the current time since the
/// epoch. The result depends on the clock, so nothing is promised of it; the
/// functions that consume a timestamp are verified for every value.
#[verifier::external_body]
pub(crate) fn now_seconds() -> u64 {
    match std::time::SystemTime::now().duration_since(std::time::UNIX_EPOCH) {
        Ok(d) => d.as_secs(),
        Err(_) => 0,
    }
}

} // verus!
