//! Trusted boundary to the SQLite store.
//!
//! The cache persists every entity as a row `(integer key, opaque byte
//! payload)` in one of five tables of a `rusqlite` database. Everything in
//! this module is the trusted boundary around that crate: the declarations of
//! its connection and error types, the name `table_rows` for what a table of
//! a connection holds, and one wrapper per SQL operation the cache performs.
//! Each wrapper's contract states, over `table_rows`, what the operation does
//! according to SQLite's documented semantics; a table that does not exist
//! reads as empty.

use rusqlite::OptionalExtension;
use vstd::prelude::*;

verus! {

#[verifier::external_type_specification]
#[verifier::external_body]
pub struct ExConnection(rusqlite::Connection);

#[verifier::external_type_specification]
#[verifier::external_body]
pub struct ExRusqliteError(rusqlite::Error);

/// The rows `(key, payload)` that the table named `table` of connection `c`
/// holds; a table that was never created holds no rows.
pub uninterp spec fn table_rows(c: rusqlite::Connection, table: Seq<char>) -> Map<i64, Seq<u8>>;

/// A table with no rows.
pub open spec fn no_rows() -> Map<i64, Seq<u8>> {
    Map::empty()
}

/// The five tables of the cache's schema. The wrappers below are only ever
/// called with one of these names, so their SQL text is a single statement
/// over a fixed identifier.
pub open spec fn is_cache_table(table: Seq<char>) -> bool {
    ||| table == "users"@
    ||| table == "groups"@
    ||| table == "channels"@
    ||| table == "dialogs"@
    ||| table == "session"@
}

/// The five table names are pairwise distinct, so a write to one table under
/// the wrappers' contracts leaves the other four unchanged.
pub proof fn lemma_cache_tables_distinct()
    ensures
        "users"@ != "groups"@,
        "users"@ != "channels"@,
        "users"@ != "dialogs"@,
        "users"@ != "session"@,
        "groups"@ != "channels"@,
        "groups"@ != "dialogs"@,
        "groups"@ != "session"@,
        "channels"@ != "dialogs"@,
        "channels"@ != "session"@,
        "dialogs"@ != "session"@,
{
    reveal_strlit("users");
    reveal_strlit("groups");
    reveal_strlit("channels");
    reveal_strlit("dialogs");
    reveal_strlit("session");
    assert("users"@.len() == 5);
    assert("groups"@.len() == 6);
    assert("channels"@.len() == 8);
    assert("dialogs"@.len() == 7);
    assert("session"@.len() == 7);
    assert("dialogs"@[0] == 'd');
    assert("session"@[0] == 's');
}

/// Relies on `rusqlite::Connection::open`: opens (creating it if absent) the
/// database file at `path`. Nothing is promised of the contents — they are
/// whatever the file already holds.
#[verifier::external_body]
pub(crate) fn open_connection(path: &str) -> Result<rusqlite::Connection, rusqlite::Error> {
    rusqlite::Connection::open(path)
}

/// Relies on `rusqlite::Connection::open_in_memory`: a fresh in-memory
/// database holds no tables at all, so every table reads as empty.
#[verifier::external_body]
pub(crate) fn open_in_memory_connection() -> (r: Result<rusqlite::Connection, rusqlite::Error>)
    ensures
        r is Ok ==> forall|t: Seq<char>| #[trigger] table_rows(r->Ok_0, t) == no_rows(),
{
    rusqlite::Connection::open_in_memory()
}

/// Relies on `rusqlite::Connection::execute` running
/// `CREATE TABLE IF NOT EXISTS <table>(id INTEGER PRIMARY KEY, data BLOB);`:
/// an absent table becomes an empty one (no rows either way) and an existing
/// table is left alone, so every table's rows are preserved; a failed DDL
/// statement changes nothing.
#[verifier::external_body]
pub(crate) fn create_blob_table(conn: &mut rusqlite::Connection, table: &str) -> (r: Result<(), rusqlite::Error>)
    requires
        is_cache_table(table@),
    ensures
        forall|t: Seq<char>| #[trigger] table_rows(*final(conn), t) == table_rows(*old(conn), t),
{
    let statement = format!("CREATE TABLE IF NOT EXISTS {}(id INTEGER PRIMARY KEY, data BLOB);", table);
    conn.execute(&statement, ())?;
    Ok(())
}

/// Relies on `rusqlite::Connection::prepare_cached` and
/// `rusqlite::Statement::execute` running
/// `INSERT OR REPLACE INTO <table>(id, data) VALUES (?, ?);`: on success the
/// row keyed `id` holds exactly `data`, every other row of every table is
/// unchanged; a failed statement is rolled back and changes nothing.
#[verifier::external_body]
pub(crate) fn upsert_blob_row(
    conn: &mut rusqlite::Connection,
    table: &str,
    id: i64,
    data: &Vec<u8>,
) -> (r: Result<(), rusqlite::Error>)
    requires
        is_cache_table(table@),
    ensures
        r is Ok ==> table_rows(*final(conn), table@) == table_rows(*old(conn), table@).insert(
            id,
            data@,
        ),
        r is Ok ==> forall|t: Seq<char>|
            t != table@ ==> #[trigger] table_rows(*final(conn), t) == table_rows(*old(conn), t),
        r is Err ==> forall|t: Seq<char>|
            #[trigger] table_rows(*final(conn), t) == table_rows(*old(conn), t),
{
    let statement = format!("INSERT OR REPLACE INTO {}(id, data) VALUES (?, ?);", table);
    let mut cached_statement = conn.prepare_cached(&statement)?;
    cached_statement.execute((id, data.as_slice()))?;
    Ok(())
}

/// Relies on `rusqlite::Connection::prepare_cached`,
/// `rusqlite::Statement::query_row` running
/// `SELECT data FROM <table> WHERE id=?;`, and
/// `rusqlite::OptionalExtension::optional`: `Some` carries the payload stored
/// under `id`, `None` says the table holds no such row.
#[verifier::external_body]
pub(crate) fn select_blob_row(conn: &rusqlite::Connection, table: &str, id: i64) -> (r: Result<
    Option<Vec<u8>>,
    rusqlite::Error,
>)
    requires
        is_cache_table(table@),
    ensures
        r matches Ok(row) ==> match row {
            Some(data) => table_rows(*conn, table@).contains_key(id) && data@ == table_rows(
                *conn,
                table@,
            )[id],
            None => !table_rows(*conn, table@).contains_key(id),
        },
{
    let statement = format!("SELECT data FROM {} WHERE id=?;", table);
    let mut cached_statement = conn.prepare_cached(&statement)?;
    cached_statement.query_row([id], |r| r.get::<usize, Vec<u8>>(0)).optional()
}

/// Relies on `rusqlite::Connection::prepare_cached` and
/// `rusqlite::Statement::query_map` running `SELECT id, data FROM <table>;`:
/// the result lists every row of the table exactly once, each pair carrying
/// the stored key and payload, in storage-iteration order (no order is
/// promised).
#[verifier::external_body]
pub(crate) fn select_all_blob_rows(conn: &rusqlite::Connection, table: &str) -> (r: Result<
    Vec<(i64, Vec<u8>)>,
    rusqlite::Error,
>)
    requires
        is_cache_table(table@),
    ensures
        r matches Ok(rows) ==> {
            &&& forall|i: int|
                0 <= i < rows@.len() ==> table_rows(*conn, table@).contains_key(
                    #[trigger] rows@[i].0,
                ) && rows@[i].1@ == table_rows(*conn, table@)[rows@[i].0]
            &&& forall|i: int, j: int|
                #![trigger rows@[i].0, rows@[j].0]
                0 <= i < j < rows@.len() ==> rows@[i].0 != rows@[j].0
            &&& forall|k: i64|
                table_rows(*conn, table@).contains_key(k) ==> exists|i: int|
                    0 <= i < rows@.len() && #[trigger] rows@[i].0 == k
        },
{
    let statement = format!("SELECT id, data FROM {};", table);
    let mut cached_statement = conn.prepare_cached(&statement)?;
    let mapped = cached_statement.query_map(
        [],
        |row| Ok((row.get::<usize, i64>(0)?, row.get::<usize, Vec<u8>>(1)?)),
    )?;
    mapped.collect()
}

} // verus!
