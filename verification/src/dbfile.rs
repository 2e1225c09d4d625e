//! The relational file image of a metadata store. The store's durable form
//! — locally on disk and remotely inside the master record — is a
//! single-file embedded database with two tables: article rows and category
//! names. A writer (`Db`) is always built freshly and only ever filled by
//! these wrappers, so its row identifiers ascend and the read order below
//! is insertion order; bytes of unknown origin are opened read-only through
//! a separate reader (`DbReader`) that offers no inserts, so the writer's
//! contracts are never applied to a foreign image. What a byte sequence
//! denotes is named by `db_image`, so writing and reading back are provably
//! inverse.

use vstd::prelude::*;

verus! {

/// One article row as the file image carries it: path, remote identifier,
/// timestamp, tombstone flag.
pub type DbRow = (Seq<char>, int, int, bool);

#[verifier::external_type_specification]
#[verifier::external_body]
pub struct ExSqlError(rusqlite::Error);

/// An in-memory embedded database being filled with the store's two
/// tables. Only `create` makes one, and only the two inserts fill it.
#[verifier::external_body]
pub struct Db {
    conn: rusqlite::Connection,
}

/// An in-memory embedded database opened from existing bytes, read-only.
#[verifier::external_body]
pub struct DbReader {
    conn: rusqlite::Connection,
}

/// The article rows a writer holds, in insertion order.
pub uninterp spec fn db_articles(d: Db) -> Seq<DbRow>;

/// The category names a writer holds, in insertion order.
pub uninterp spec fn db_categories(d: Db) -> Seq<Seq<char>>;

/// The bytes a reader was opened from.
pub uninterp spec fn reader_bytes(d: DbReader) -> Seq<u8>;

/// What a byte sequence denotes as a store database: its article rows and
/// category names in row-identifier order, where the bytes are a
/// well-formed database file holding the two tables at all.
pub uninterp spec fn db_image(bytes: Seq<u8>) -> Option<(Seq<DbRow>, Seq<Seq<char>>)>;

impl Db {
    /// Relies on rusqlite's `Connection::open_in_memory` and
    /// `execute_batch`: a fresh database with the two tables created holds
    /// no rows.
    #[verifier::external_body]
    pub fn create() -> (r: Result<Db, rusqlite::Error>)
        ensures
            r matches Ok(d) ==> db_articles(d) == Seq::<DbRow>::empty() && db_categories(d)
                == Seq::<Seq<char>>::empty(),
    {
        let conn = rusqlite::Connection::open_in_memory()?;
        conn.execute_batch(
            "CREATE TABLE BlogsInfo (
                id INTEGER PRIMARY KEY,
                blog_path NVARCHAR,
                postid INTEGER,
                timestamp INTEGER,
                deleted BOOLEAN NOT NULL CHECK (deleted IN (0, 1)));
            CREATE TABLE Category (
                id INTEGER PRIMARY KEY,
                category NVARCHAR);",
        )?;
        Ok(Db { conn })
    }

    /// Relies on rusqlite's `Connection::execute` running an INSERT into a
    /// table that only `create` and this wrapper have touched: the engine
    /// assigns ascending row identifiers to an insert-only table, so on
    /// success the table gains exactly this row at the end of the
    /// id-ordered sequence; on failure it is unchanged.
    #[verifier::external_body]
    pub fn insert_article(&mut self, path: &str, postid: i64, timestamp: i64, deleted: bool) -> (r:
        Result<(), rusqlite::Error>)
        ensures
            r is Ok ==> db_articles(*final(self)) == db_articles(*old(self)).push(
                (path@, postid as int, timestamp as int, deleted),
            ) && db_categories(*final(self)) == db_categories(*old(self)),
            r is Err ==> db_articles(*final(self)) == db_articles(*old(self)) && db_categories(
                *final(self),
            ) == db_categories(*old(self)),
    {
        self.conn.execute(
            "INSERT INTO BlogsInfo (blog_path, postid, timestamp, deleted) VALUES (?1, ?2, ?3, ?4)",
            (path, postid, timestamp, deleted),
        )?;
        Ok(())
    }

    /// Relies on rusqlite's `Connection::execute` running an INSERT, as
    /// `insert_article` does: on success the category table gains exactly
    /// this name at the end; on failure it is unchanged.
    #[verifier::external_body]
    pub fn insert_category(&mut self, name: &str) -> (r: Result<(), rusqlite::Error>)
        ensures
            r is Ok ==> db_categories(*final(self)) == db_categories(*old(self)).push(name@)
                && db_articles(*final(self)) == db_articles(*old(self)),
            r is Err ==> db_articles(*final(self)) == db_articles(*old(self)) && db_categories(
                *final(self),
            ) == db_categories(*old(self)),
    {
        self.conn.execute("INSERT INTO Category (category) VALUES (?1)", (name,))?;
        Ok(())
    }

    /// Relies on rusqlite's `Connection::serialize`: the bytes are the
    /// database's file image, so reading them back in id order yields
    /// exactly this writer's rows.
    #[verifier::external_body]
    pub fn to_bytes(&self) -> (r: Result<Vec<u8>, rusqlite::Error>)
        ensures
            r matches Ok(b) ==> db_image(b@) == Some(
                (db_articles(*self), db_categories(*self)),
            ),
    {
        let data = self.conn.serialize(rusqlite::MAIN_DB)?;
        Ok(data.to_vec())
    }
}

impl DbReader {
    /// Relies on rusqlite's `Connection::deserialize_read_exact`: on
    /// success the reader holds exactly the given bytes.
    #[verifier::external_body]
    pub fn from_bytes(bytes: &Vec<u8>) -> (r: Result<DbReader, rusqlite::Error>)
        ensures
            r matches Ok(d) ==> reader_bytes(d) == bytes@,
    {
        let mut conn = rusqlite::Connection::open_in_memory()?;
        conn.deserialize_read_exact(rusqlite::MAIN_DB, bytes.as_slice(), bytes.len(), true)?;
        Ok(DbReader { conn })
    }

    /// Relies on rusqlite's `prepare` and `query_map` running a SELECT
    /// ordered by the row identifier: the query succeeds only on a
    /// well-formed image holding the table, and then yields exactly the
    /// rows the bytes denote; malformed or mistyped images fail instead.
    #[verifier::external_body]
    pub fn read_articles(&self) -> (r: Result<Vec<(String, i64, i64, bool)>, rusqlite::Error>)
        ensures
            r matches Ok(v) ==> db_image(reader_bytes(*self)) matches Some(img) && v@.map_values(
                |t: (String, i64, i64, bool)| (t.0@, t.1 as int, t.2 as int, t.3),
            ) == img.0,
    {
        let mut stmt = self.conn.prepare(
            "SELECT blog_path, postid, timestamp, deleted FROM BlogsInfo ORDER BY id",
        )?;
        let rows = stmt.query_map(
            [],
            |row| Ok((row.get(0)?, row.get(1)?, row.get(2)?, row.get(3)?)),
        )?;
        rows.collect()
    }

    /// Relies on rusqlite's `prepare` and `query_map`, as `read_articles`
    /// does: on success, exactly the category names the bytes denote, in
    /// row-identifier order.
    #[verifier::external_body]
    pub fn read_categories(&self) -> (r: Result<Vec<String>, rusqlite::Error>)
        ensures
            r matches Ok(v) ==> db_image(reader_bytes(*self)) matches Some(img) && v@.map_values(
                |c: String| c@,
            ) == img.1,
    {
        let mut stmt = self.conn.prepare("SELECT category FROM Category ORDER BY id")?;
        let rows = stmt.query_map([], |row| row.get(0))?;
        rows.collect()
    }
}

} // verus!
