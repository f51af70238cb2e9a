//! The record store: durable storage of posts, viewed as a mapping from
//! identifier to (title, content). The storage engine is SQLite through
//! `rusqlite`, trusted through the items below; access is serialized by
//! exclusive ownership (`&mut`), so two operations never interleave.

use vstd::prelude::*;
use rusqlite::OptionalExtension;
use crate::ids::{
    fresh_id_bytes, format_id, is_uuid_chars, canon_uuid, lemma_format_is_uuid,
    lemma_format_is_canonical,
};
use crate::text::{clone_chars, string_of_chars};

verus! {

#[verifier::external_type_specification]
#[verifier::external_body]
pub struct ExConnection(rusqlite::Connection);

#[verifier::external_type_specification]
#[verifier::external_body]
pub struct ExSqlError(rusqlite::Error);

/// The rows of the posts table a connection reaches: id to (title, content).
pub uninterp spec fn db_posts(c: rusqlite::Connection) -> Map<Seq<char>, (Seq<char>, Seq<char>)>;

/// Whether the connection reaches a posts table whose id column is the
/// primary key.
pub uninterp spec fn posts_table_ready(c: rusqlite::Connection) -> bool;

/// Relies on `rusqlite::Connection::open_in_memory` for a fresh connection.
/// Nothing is claimed of it; creating the table states its readiness.
#[verifier::external_body]
fn db_open() -> Result<rusqlite::Connection, rusqlite::Error> {
    rusqlite::Connection::open_in_memory()
}

/// Relies on `rusqlite::Connection::execute` with a CREATE TABLE statement:
/// the statement succeeds only where no posts table existed, and then the
/// table exists, with the id column as primary key, and holds no rows.
#[verifier::external_body]
fn db_create_table(c: &mut rusqlite::Connection) -> (r: Result<(), rusqlite::Error>)
    ensures
        r is Ok ==> posts_table_ready(*final(c)),
        r is Ok ==> forall|k: Seq<char>| !db_posts(*final(c)).contains_key(k),
{
    match c.execute("CREATE TABLE posts (id TEXT PRIMARY KEY, title TEXT, content TEXT)", ()) {
        Ok(_) => Ok(()),
        Err(e) => Err(e),
    }
}

/// Relies on `rusqlite::Connection::execute` with an INSERT statement on the
/// posts table: where the table is ready, a statement succeeds only when the
/// id was absent (the id column is the primary key) and then adds exactly
/// that row; a failed statement leaves the table as it was.
#[verifier::external_body]
fn db_insert(c: &mut rusqlite::Connection, id: &str, title: &str, content: &str) -> (r: Result<
    (),
    rusqlite::Error,
>)
    ensures
        posts_table_ready(*final(c)) == posts_table_ready(*old(c)),
        posts_table_ready(*old(c)) && r is Ok ==> !db_posts(*old(c)).contains_key(id@) && db_posts(
            *final(c),
        ) == db_posts(*old(c)).insert(id@, (title@, content@)),
        r is Err ==> db_posts(*final(c)) == db_posts(*old(c)),
{
    match c.execute(
        "INSERT INTO posts (id, title, content) VALUES (?1, ?2, ?3)",
        (id, title, content),
    ) {
        Ok(_) => Ok(()),
        Err(e) => Err(e),
    }
}

/// Relies on `rusqlite::Connection::query_row` with a SELECT by id on the
/// posts table, and `rusqlite::OptionalExtension::optional`: where the table
/// is ready, on success the row of that id is returned exactly when one
/// exists.
#[verifier::external_body]
fn db_find(c: &rusqlite::Connection, id: &str) -> (r: Result<
    Option<(String, String)>,
    rusqlite::Error,
>)
    ensures
        posts_table_ready(*c) ==> (r matches Ok(found) ==> match found {
            Some(tc) => db_posts(*c).contains_key(id@) && db_posts(*c)[id@] == (tc.0@, tc.1@),
            None => !db_posts(*c).contains_key(id@),
        }),
{
    c.query_row(
        "SELECT title, content FROM posts WHERE id = ?1",
        (id,),
        |row| Ok((row.get(0)?, row.get(1)?)),
    ).optional()
}

/// The storage engine rejected an operation; absence of a row is never this.
#[derive(Clone, Copy, Debug, PartialEq, Eq, Structural)]
pub struct StoreFailure;

/// A persisted record.
pub struct Post {
    pub id: Vec<char>,
    pub title: String,
    pub content: String,
}

/// The store owns one connection; callers hold the store exclusively while an
/// operation runs, so operations on it are totally ordered.
pub struct Store {
    conn: rusqlite::Connection,
}

impl View for Store {
    type V = Map<Seq<char>, (Seq<char>, Seq<char>)>;

    closed spec fn view(&self) -> Map<Seq<char>, (Seq<char>, Seq<char>)> {
        db_posts(self.conn)
    }
}

/// The record of `id` in table `m`: present or absent, never an error.
pub open spec fn lookup(m: Map<Seq<char>, (Seq<char>, Seq<char>)>, id: Seq<char>) -> Option<
    (Seq<char>, Seq<char>),
> {
    if m.contains_key(id) {
        Some(m[id])
    } else {
        None
    }
}

impl Store {
    /// The store's connection reaches a ready posts table.
    pub closed spec fn wf(&self) -> bool {
        posts_table_ready(self.conn)
    }

    /// Opens a fresh store with its posts table; on success it holds nothing.
    pub fn open() -> (r: Result<Store, StoreFailure>)
        ensures
            r matches Ok(s) ==> s.wf() && s@ == Map::<Seq<char>, (Seq<char>, Seq<char>)>::empty(),
    {
        let mut conn = match db_open() {
            Ok(c) => c,
            Err(_) => {
                return Err(StoreFailure);
            },
        };
        match db_create_table(&mut conn) {
            Ok(()) => {
                proof {
                    assert(db_posts(conn) =~= Map::<Seq<char>, (Seq<char>, Seq<char>)>::empty());
                }
                Ok(Store { conn })
            },
            Err(_) => Err(StoreFailure),
        }
    }

    /// Generates a fresh identifier and persists a new record under it. On
    /// success the returned identifier is syntactically valid, canonically
    /// spelled, was absent before, and the store has gained exactly that
    /// record; on failure the store is unchanged.
    pub fn insert(&mut self, title: &str, content: &str) -> (r: Result<Vec<char>, StoreFailure>)
        requires
            old(self).wf(),
        ensures
            final(self).wf(),
            r matches Ok(id) ==> is_uuid_chars(id@) && canon_uuid(id@) == id@ && !old(
                self,
            )@.contains_key(id@) && final(self)@ == old(self)@.insert(id@, (title@, content@)),
            r is Err ==> final(self)@ == old(self)@,
    {
        let bytes = fresh_id_bytes();
        let id = format_id(&bytes);
        proof {
            lemma_format_is_uuid(bytes@);
            lemma_format_is_canonical(bytes@);
        }
        let id_s = string_of_chars(&id);
        match db_insert(&mut self.conn, id_s.as_str(), title, content) {
            Ok(()) => Ok(id),
            Err(_) => Err(StoreFailure),
        }
    }

    /// Looks a record up by its identifier. Absence is a normal outcome, not
    /// an error; an error comes only from the storage engine.
    pub fn find_by_id(&self, id: &Vec<char>) -> (r: Result<Option<Post>, StoreFailure>)
        requires
            self.wf(),
        ensures
            r matches Ok(found) ==> match found {
                Some(p) => p.id@ == id@ && lookup(self@, id@) == Some((p.title@, p.content@)),
                None => lookup(self@, id@) is None,
            },
    {
        let id_s = string_of_chars(id);
        match db_find(&self.conn, id_s.as_str()) {
            Ok(Some((title, content))) => Ok(
                Some(Post { id: clone_chars(id), title, content }),
            ),
            Ok(None) => Ok(None),
            Err(_) => Err(StoreFailure),
        }
    }
}

/// Inserting a record and looking its identifier up yields exactly that
/// record, whatever the table held before.
pub proof fn lemma_insert_then_find(
    m: Map<Seq<char>, (Seq<char>, Seq<char>)>,
    id: Seq<char>,
    title: Seq<char>,
    content: Seq<char>,
)
    ensures
        lookup(m.insert(id, (title, content)), id) == Some((title, content)),
{
}

/// An identifier the table does not hold looks up as absent, not as an error.
pub proof fn lemma_absent_is_none(m: Map<Seq<char>, (Seq<char>, Seq<char>)>, id: Seq<char>)
    requires
        !m.contains_key(id),
    ensures
        lookup(m, id) is None,
{
}

/// Inserting under one identifier leaves what any other identifier looks up
/// unchanged: records written by serialized operations stay intact whatever
/// else is inserted between their write and their read.
pub proof fn lemma_insert_preserves_others(
    m: Map<Seq<char>, (Seq<char>, Seq<char>)>,
    id: Seq<char>,
    other: Seq<char>,
    title: Seq<char>,
    content: Seq<char>,
)
    requires
        other != id,
    ensures
        lookup(m.insert(id, (title, content)), other) == lookup(m, other),
{
}

} // verus!
