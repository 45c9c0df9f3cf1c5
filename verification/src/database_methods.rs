//! The persistent store: a SQLite `jobs` table reached through `rusqlite`.
//!
//! The table is modelled by two names, [`db_jobs`] — the rows in id order,
//! with the pay rate in cents — and [`db_table`] — whether the table exists.
//! A connection without the table counts as holding no rows. Every statement
//! the store runs sits behind a small trusted wrapper whose contract says,
//! over those names, what the statement does; everything above the wrappers
//! is verified.

use vstd::prelude::*;

use crate::job::{Job, JobV, jobs_views};

verus! {

/// Declares `rusqlite::Connection` so that it can stand in signatures; the
/// type stays opaque to the verifier.
#[verifier::external_type_specification]
#[verifier::external_body]
pub struct ExConnection(rusqlite::Connection);

/// Declares `rusqlite::Error`, the error type every SQLite call can return.
#[verifier::external_type_specification]
#[verifier::external_body]
pub struct ExRusqliteError(rusqlite::Error);

/// A store operation failed; the underlying SQLite error is carried along.
#[derive(Debug)]
pub struct DbError {
    pub error: rusqlite::Error,
}

/// One row of the `jobs` table: the id, the title, the pay rate in cents
/// (the REAL column times 100, rounded), the 0/1 applied flag, and the link.
#[verifier::ext_equal]
pub ghost struct DbRec {
    pub id: int,
    pub title: Seq<char>,
    pub rate_cents: int,
    pub applied: int,
    pub link: Option<Seq<char>>,
}

/// The rows of the `jobs` table of this connection, in id order; a
/// connection whose `jobs` table is absent holds no rows.
pub uninterp spec fn db_jobs(c: rusqlite::Connection) -> Seq<DbRec>;

/// Whether the `jobs` table exists on this connection.
pub uninterp spec fn db_table(c: rusqlite::Connection) -> bool;

/// The row an insert writes for a job under a newly assigned id.
pub open spec fn rec_of_job(j: JobV, nid: int) -> DbRec {
    DbRec {
        id: nid,
        title: j.title,
        rate_cents: j.rate_cents,
        applied: if j.applied {
            1
        } else {
            0
        },
        link: j.link,
    }
}

/// A pay rate read back from the store, clamped to the `u32` cents a record
/// can hold; anything outside that range reads as 0.
pub open spec fn clamp_rate(x: int) -> int {
    if 0 <= x <= u32::MAX {
        x
    } else {
        0
    }
}

/// The record a listed row turns into: the 0/1 flag becomes a boolean
/// (exactly 1 means applied) and the rate is clamped.
pub open spec fn job_of_rec(r: DbRec) -> JobV {
    JobV {
        id: Some(r.id),
        title: r.title,
        rate_cents: clamp_rate(r.rate_cents),
        applied: r.applied == 1,
        link: r.link,
    }
}

/// What a listing of the whole table returns.
pub open spec fn listed_jobs(db: Seq<DbRec>) -> Seq<JobV> {
    db.map_values(|r: DbRec| job_of_rec(r))
}

/// A row as it stands, with the store-assigned id masked out.
pub open spec fn payload_of(r: DbRec) -> DbRec {
    DbRec { id: 0, ..r }
}

/// The rows with their ids masked out: what was written, not where.
pub open spec fn payloads(db: Seq<DbRec>) -> Seq<DbRec> {
    db.map_values(|r: DbRec| payload_of(r))
}

pub open spec fn contains_id(db: Seq<DbRec>, id: int) -> bool {
    exists|i: int| 0 <= i < db.len() && db[i].id == id
}

pub open spec fn rows_with_id(db: Seq<DbRec>, id: int) -> Seq<DbRec> {
    db.filter(|r: DbRec| r.id == id)
}

pub open spec fn rows_without_id(db: Seq<DbRec>, id: int) -> Seq<DbRec> {
    db.filter(|r: DbRec| r.id != id)
}

/// The table after an applied-status update: rows with the given id take the
/// new flag, every other row stays.
pub open spec fn with_applied(db: Seq<DbRec>, id: int, a: int) -> Seq<DbRec> {
    db.map_values(
        |r: DbRec|
            if r.id == id {
                DbRec { applied: a, ..r }
            } else {
                r
            },
    )
}

/// An id larger than that of every present row, as AUTOINCREMENT assigns.
pub open spec fn fresh_id(db: Seq<DbRec>, nid: int) -> bool {
    forall|i: int| 0 <= i < db.len() ==> db[i].id < nid
}

pub open spec fn opt_str_view(o: Option<&str>) -> Option<Seq<char>> {
    match o {
        Some(s) => Some(s@),
        None => None,
    }
}

/// The row the INSERT statement writes from its four parameters.
pub open spec fn inserted_rec(
    title: Seq<char>,
    rate_cents: int,
    applied: int,
    link: Option<Seq<char>>,
    nid: int,
) -> DbRec {
    DbRec { id: nid, title, rate_cents, applied, link }
}

/// One raw row as the SELECT statement hands it over.
pub struct DbRow {
    pub id: i64,
    pub title: String,
    pub rate_cents: i64,
    pub applied: i64,
    pub link: Option<String>,
}

pub open spec fn row_abs(r: DbRow) -> DbRec {
    DbRec {
        id: r.id as int,
        title: r.title@,
        rate_cents: r.rate_cents as int,
        applied: r.applied as int,
        link: match r.link {
            Some(l) => Some(l@),
            None => None,
        },
    }
}

pub open spec fn rows_abs(v: Seq<DbRow>) -> Seq<DbRec> {
    v.map_values(|r: DbRow| row_abs(r))
}

/// Relies on `rusqlite::Connection::open_in_memory`: a fresh in-memory
/// database holds no tables at all.
#[verifier::external_body]
fn open_memory_raw() -> (r: Result<rusqlite::Connection, rusqlite::Error>)
    ensures
        r matches Ok(c) ==> !db_table(c) && db_jobs(c) == Seq::<DbRec>::empty(),
{
    rusqlite::Connection::open_in_memory()
}

/// Relies on `rusqlite::Connection::execute` running CREATE TABLE IF NOT
/// EXISTS: on success the table exists and rows are untouched; SQLite runs
/// the statement atomically, so on failure nothing changed.
#[verifier::external_body]
fn exec_create(conn: &mut rusqlite::Connection) -> (r: Result<(), rusqlite::Error>)
    ensures
        r matches Ok(u) ==> db_table(*final(conn)) && db_jobs(*final(conn)) == db_jobs(*old(conn))
            && (!db_table(*old(conn)) ==> db_jobs(*old(conn)) == Seq::<DbRec>::empty()),
        r matches Err(e) ==> db_table(*final(conn)) == db_table(*old(conn)) && db_jobs(
            *final(conn),
        ) == db_jobs(*old(conn)),
{
    let r = conn.execute(
        "CREATE TABLE IF NOT EXISTS jobs (
            id INTEGER PRIMARY KEY AUTOINCREMENT,
            title TEXT NOT NULL,
            hourly_rate REAL,
            applied INTEGER NOT NULL CHECK (applied IN (0,1)),
            link TEXT
        )",
        (),
    );
    match r {
        Ok(_) => Ok(()),
        Err(e) => Err(e),
    }
}

/// Relies on `rusqlite::Connection::query_row` running an INSERT without an
/// explicit id: on success exactly one row is appended and RETURNING hands
/// back its id, larger than every id the table has held (the column is
/// AUTOINCREMENT); the rate parameter is cents, stored as REAL dollars by
/// the statement. On failure nothing changed.
#[verifier::external_body]
fn exec_insert(
    conn: &mut rusqlite::Connection,
    title: &str,
    rate_cents: u32,
    applied: i64,
    link: Option<&str>,
) -> (r: Result<i64, rusqlite::Error>)
    requires
        applied == 0 || applied == 1,
    ensures
        r matches Ok(nid) ==> fresh_id(db_jobs(*old(conn)), nid as int) && db_jobs(*final(conn))
            == db_jobs(*old(conn)).push(
            inserted_rec(title@, rate_cents as int, applied as int, opt_str_view(link), nid as int),
        ) && db_table(*final(conn)),
        r matches Err(e) ==> db_table(*final(conn)) == db_table(*old(conn)) && db_jobs(
            *final(conn),
        ) == db_jobs(*old(conn)),
{
    conn.query_row(
        "INSERT INTO jobs (title, hourly_rate, applied, link)
         VALUES (?1, ?2 / 100.0, ?3, ?4) RETURNING id",
        (title, rate_cents, applied, link),
        |row| row.get(0),
    )
}

/// Relies on `rusqlite::Connection::execute` running a DELETE by id: on
/// success the matching rows are gone, the others stand in their order, and
/// the count of deleted rows is returned. On failure nothing changed.
#[verifier::external_body]
fn exec_delete(conn: &mut rusqlite::Connection, id: i64) -> (r: Result<usize, rusqlite::Error>)
    ensures
        r matches Ok(n) ==> n as int == rows_with_id(db_jobs(*old(conn)), id as int).len()
            && db_jobs(*final(conn)) == rows_without_id(db_jobs(*old(conn)), id as int) && db_table(
            *final(conn),
        ) == db_table(*old(conn)),
        r matches Err(e) ==> db_table(*final(conn)) == db_table(*old(conn)) && db_jobs(
            *final(conn),
        ) == db_jobs(*old(conn)),
{
    conn.execute("DELETE FROM jobs WHERE id = ?1", (id,))
}

/// Relies on `rusqlite::Connection::execute` running an UPDATE of the
/// applied flag by id: on success the matching rows carry the new flag, all
/// else stands, and the count of touched rows is returned. On failure
/// nothing changed.
#[verifier::external_body]
fn exec_update(conn: &mut rusqlite::Connection, applied: i64, id: i64) -> (r: Result<
    usize,
    rusqlite::Error,
>)
    requires
        applied == 0 || applied == 1,
    ensures
        r matches Ok(n) ==> n as int == rows_with_id(db_jobs(*old(conn)), id as int).len()
            && db_jobs(*final(conn)) == with_applied(db_jobs(*old(conn)), id as int, applied as int)
            && db_table(*final(conn)) == db_table(*old(conn)),
        r matches Err(e) ==> db_table(*final(conn)) == db_table(*old(conn)) && db_jobs(
            *final(conn),
        ) == db_jobs(*old(conn)),
{
    conn.execute("UPDATE jobs SET applied = ?1 WHERE id = ?2", (applied, id))
}

/// Relies on `rusqlite::Connection::query_row` running SELECT COUNT(*): on
/// success it returns the number of rows of the table.
#[verifier::external_body]
fn exec_count(conn: &rusqlite::Connection) -> (r: Result<i64, rusqlite::Error>)
    ensures
        r matches Ok(n) ==> n as int == db_jobs(*conn).len(),
{
    conn.query_row("SELECT COUNT(*) FROM jobs", (), |row| row.get(0))
}

/// Relies on `rusqlite::Statement::query_map` running a SELECT of all
/// columns in id order: on success it hands over every row, the rate read
/// back in cents (NULL rates count as 0).
#[verifier::external_body]
fn exec_select(conn: &rusqlite::Connection) -> (r: Result<Vec<DbRow>, rusqlite::Error>)
    ensures
        r matches Ok(v) ==> rows_abs(v@) == db_jobs(*conn),
{
    conn.prepare(
        "SELECT id, title, CAST(ROUND(COALESCE(hourly_rate, 0.0) * 100.0) AS INTEGER), applied, link FROM jobs ORDER BY id",
    ).and_then(|mut stmt| {
        stmt.query_map((), |row| {
            Ok(DbRow {
                id: row.get(0)?,
                title: row.get(1)?,
                rate_cents: row.get(2)?,
                applied: row.get(3)?,
                link: row.get(4)?,
            })
        })?.collect::<Result<Vec<DbRow>, rusqlite::Error>>()
    })
}

/// Relies on `rusqlite::Connection::execute` running DROP TABLE IF EXISTS on
/// the named table; `rusqlite` rejects a second statement in the text before
/// running anything. Only the call on the name "jobs" itself is specified.
#[verifier::external_body]
fn exec_drop(conn: &mut rusqlite::Connection, table_name: &str) -> (r: Result<
    (),
    rusqlite::Error,
>)
    ensures
        table_name@ == "jobs"@ ==> (r matches Ok(u) ==> !db_table(*final(conn)) && db_jobs(
            *final(conn),
        ) == Seq::<DbRec>::empty()),
        table_name@ == "jobs"@ ==> (r matches Err(e) ==> db_table(*final(conn)) == db_table(
            *old(conn),
        ) && db_jobs(*final(conn)) == db_jobs(*old(conn))),
{
    let sql = format!("DROP TABLE IF EXISTS {}", table_name);
    match conn.execute(sql.as_str(), ()) {
        Ok(_) => Ok(()),
        Err(e) => Err(e),
    }
}

/// Opens a fresh private in-memory store, with no tables yet.
pub fn open_memory() -> (r: Result<rusqlite::Connection, DbError>)
    ensures
        r matches Ok(c) ==> !db_table(c) && db_jobs(c) == Seq::<DbRec>::empty(),
{
    match open_memory_raw() {
        Ok(c) => Ok(c),
        Err(e) => Err(DbError { error: e }),
    }
}

/// What a successful schema creation establishes, over the table flag and
/// rows before and after: the table is there, the rows are exactly the rows
/// from before, and a store that had no table had no rows.
pub open spec fn create_ok_rel(
    pre_table: bool,
    pre: Seq<DbRec>,
    post_table: bool,
    post: Seq<DbRec>,
) -> bool {
    post_table && post == pre && (!pre_table ==> pre == Seq::<DbRec>::empty())
}

/// Creates the `jobs` table if it is absent. Idempotent: rows already there
/// are untouched, and a table that exists is left as it is.
pub fn create_table(conn: &mut rusqlite::Connection) -> (r: Result<(), DbError>)
    ensures
        r matches Ok(u) ==> create_ok_rel(
            db_table(*old(conn)),
            db_jobs(*old(conn)),
            db_table(*final(conn)),
            db_jobs(*final(conn)),
        ),
        r matches Err(e) ==> db_table(*final(conn)) == db_table(*old(conn)) && db_jobs(
            *final(conn),
        ) == db_jobs(*old(conn)),
{
    match exec_create(conn) {
        Ok(u) => Ok(u),
        Err(e) => Err(DbError { error: e }),
    }
}

/// Appends one record and returns the id the store assigned it, fresh and
/// larger than every id present. On failure the table is unchanged.
pub fn insert_job(conn: &mut rusqlite::Connection, a_job: &Job) -> (r: Result<i64, DbError>)
    ensures
        r matches Ok(nid) ==> fresh_id(db_jobs(*old(conn)), nid as int) && db_jobs(*final(conn))
            == db_jobs(*old(conn)).push(rec_of_job(a_job@, nid as int)) && db_table(*final(conn)),
        r matches Err(e) ==> db_table(*final(conn)) == db_table(*old(conn)) && db_jobs(
            *final(conn),
        ) == db_jobs(*old(conn)),
{
    let applied_i = crate::job::applied_to_int(a_job.is_applied());
    let title = a_job.get_title();
    let link_ref: Option<&str> = match a_job.link() {
        Some(s) => Some(s.as_str()),
        None => None,
    };
    let ghost pre = db_jobs(*old(conn));
    match exec_insert(conn, title.as_str(), a_job.get_hourly(), applied_i, link_ref) {
        Ok(nid) => {
            proof {
                assert(inserted_rec(
                    title@,
                    a_job@.rate_cents,
                    applied_i as int,
                    opt_str_view(link_ref),
                    nid as int,
                ) =~= rec_of_job(a_job@, nid as int));
            }
            Ok(nid)
        },
        Err(e) => Err(DbError { error: e }),
    }
}

/// Appends one record; the id is assigned by the store, fresh and larger
/// than every id present. On failure the table is unchanged.
pub fn enter_data(conn: &mut rusqlite::Connection, a_job: &Job) -> (r: Result<(), DbError>)
    ensures
        r matches Ok(u) ==> exists|nid: int|
            #![auto]
            fresh_id(db_jobs(*old(conn)), nid) && db_jobs(*final(conn)) == db_jobs(
                *old(conn),
            ).push(rec_of_job(a_job@, nid)) && db_table(*final(conn)),
        r matches Err(e) ==> db_table(*final(conn)) == db_table(*old(conn)) && db_jobs(
            *final(conn),
        ) == db_jobs(*old(conn)),
{
    match insert_job(conn, a_job) {
        Ok(nid) => {
            proof {
                assert(fresh_id(db_jobs(*old(conn)), nid as int) && db_jobs(*conn) == db_jobs(
                    *old(conn),
                ).push(rec_of_job(a_job@, nid as int)) && db_table(*conn));
            }
            Ok(())
        },
        Err(e) => Err(e),
    }
}

/// Whether some row of the table has this id is the same as whether the
/// filter on that id keeps anything.
pub proof fn lemma_rows_with_id_contains(db: Seq<DbRec>, id: int)
    ensures
        (rows_with_id(db, id).len() > 0) == contains_id(db, id),
    decreases db.len(),
{
    reveal(Seq::filter);
    if db.len() == 0 {
        assert(!contains_id(db, id));
    } else {
        let pre = db.drop_last();
        lemma_rows_with_id_contains(pre, id);
        if db.last().id == id {
            assert(db[db.len() - 1].id == id);
            assert(contains_id(db, id));
        } else {
            if contains_id(db, id) {
                let i = choose|i: int| 0 <= i < db.len() && db[i].id == id;
                assert(pre[i] == db[i]);
                assert(contains_id(pre, id));
            }
            if contains_id(pre, id) {
                let i = choose|i: int| 0 <= i < pre.len() && pre[i].id == id;
                assert(db[i].id == id);
                assert(contains_id(db, id));
            }
        }
    }
}

/// Removing an id that no row has leaves the table exactly as it was.
proof fn lemma_remove_absent(db: Seq<DbRec>, id: int)
    requires
        !contains_id(db, id),
    ensures
        rows_without_id(db, id) == db,
    decreases db.len(),
{
    reveal(Seq::filter);
    if db.len() == 0 {
        assert(rows_without_id(db, id) =~= db);
    } else {
        let pre = db.drop_last();
        assert(!contains_id(pre, id)) by {
            if contains_id(pre, id) {
                let i = choose|i: int| 0 <= i < pre.len() && pre[i].id == id;
                assert(db[i].id == id);
            }
        }
        lemma_remove_absent(pre, id);
        assert(db[db.len() - 1].id != id);
        assert(rows_without_id(db, id) =~= db);
    }
}

/// Removes the row with this id. `Ok(true)` exactly when such a row was
/// there; a miss is `Ok(false)`, never an error. Other rows stand untouched.
pub fn remove_data(conn: &mut rusqlite::Connection, id: i64) -> (r: Result<bool, DbError>)
    ensures
        r matches Ok(b) ==> b == contains_id(db_jobs(*old(conn)), id as int) && db_jobs(
            *final(conn),
        ) == rows_without_id(db_jobs(*old(conn)), id as int) && db_table(*final(conn)) == db_table(
            *old(conn),
        ),
        r matches Err(e) ==> db_table(*final(conn)) == db_table(*old(conn)) && db_jobs(
            *final(conn),
        ) == db_jobs(*old(conn)),
{
    match exec_delete(conn, id) {
        Ok(n) => {
            proof {
                lemma_rows_with_id_contains(db_jobs(*old(conn)), id as int);
            }
            Ok(n > 0)
        },
        Err(e) => Err(DbError { error: e }),
    }
}

/// Sets the applied flag of the row with this id; an id no row has touches
/// nothing and is no error.
pub fn update_applied(conn: &mut rusqlite::Connection, new_status: bool, job_id: i64) -> (r: Result<
    (),
    DbError,
>)
    ensures
        r matches Ok(u) ==> db_jobs(*final(conn)) == with_applied(
            db_jobs(*old(conn)),
            job_id as int,
            if new_status {
                1
            } else {
                0
            },
        ) && db_table(*final(conn)) == db_table(*old(conn)),
        r matches Err(e) ==> db_table(*final(conn)) == db_table(*old(conn)) && db_jobs(
            *final(conn),
        ) == db_jobs(*old(conn)),
{
    let applied_i = crate::job::applied_to_int(new_status);
    match exec_update(conn, applied_i, job_id) {
        Ok(_n) => Ok(()),
        Err(e) => Err(DbError { error: e }),
    }
}

/// Counts the rows of the table.
pub fn count_rows(conn: &rusqlite::Connection) -> (r: Result<i64, DbError>)
    ensures
        r matches Ok(n) ==> n as int == db_jobs(*conn).len(),
{
    match exec_count(conn) {
        Ok(n) => Ok(n),
        Err(e) => Err(DbError { error: e }),
    }
}

/// Whether the table holds no rows at all.
pub fn database_empty(conn: &rusqlite::Connection) -> (r: Result<bool, DbError>)
    ensures
        r matches Ok(b) ==> b == (db_jobs(*conn).len() == 0),
{
    match count_rows(conn) {
        Ok(n) => Ok(n == 0),
        Err(e) => Err(e),
    }
}

/// Lists every row as a job record, in id order: the id comes along, the 0/1
/// flag becomes the canonical boolean, the rate is read back in cents.
pub fn get_jobs(conn: &rusqlite::Connection) -> (r: Result<Vec<Job>, DbError>)
    ensures
        r matches Ok(v) ==> jobs_views(v@) == listed_jobs(db_jobs(*conn)),
{
    let rows = match exec_select(conn) {
        Ok(v) => v,
        Err(e) => {
            return Err(DbError { error: e });
        },
    };
    let ghost db = db_jobs(*conn);
    let mut jobs: Vec<Job> = Vec::new();
    let mut i: usize = 0;
    proof {
        assert(jobs_views(jobs@) =~= listed_jobs(db).take(0));
    }
    while i < rows.len()
        invariant
            i <= rows@.len(),
            rows_abs(rows@) == db,
            db == db_jobs(*conn),
            jobs_views(jobs@) == listed_jobs(db).take(i as int),
        decreases rows@.len() - i,
    {
        let row = &rows[i];
        let rate: u32 = if row.rate_cents >= 0 && row.rate_cents <= 0xFFFF_FFFFi64 {
            row.rate_cents as u32
        } else {
            0
        };
        let link: Option<String> = match &row.link {
            Some(l) => Some(l.clone()),
            None => None,
        };
        let job = Job::from_store(row.id, row.title.clone(), rate, row.applied == 1, link);
        proof {
            assert(rows_abs(rows@)[i as int] == row_abs(rows@[i as int]));
            assert(job@ =~= job_of_rec(db[i as int]));
            assert(jobs_views(jobs@.push(job)) =~= jobs_views(jobs@).push(job@));
            assert(listed_jobs(db).take(i + 1) =~= listed_jobs(db).take(i as int).push(
                listed_jobs(db)[i as int],
            ));
        }
        jobs.push(job);
        i = i + 1;
    }
    proof {
        assert(rows_abs(rows@).len() == rows@.len());
        assert(listed_jobs(db).take(rows@.len() as int) =~= listed_jobs(db));
    }
    Ok(jobs)
}

/// Drops the named table. Administrative and test-only; only dropping
/// "jobs" itself is specified, and on success the store counts as holding
/// no rows again.
pub fn _drop_table(conn: &mut rusqlite::Connection, table_name: &str) -> (r: Result<(), DbError>)
    ensures
        table_name@ == "jobs"@ ==> (r matches Ok(u) ==> !db_table(*final(conn)) && db_jobs(
            *final(conn),
        ) == Seq::<DbRec>::empty()),
        table_name@ == "jobs"@ ==> (r matches Err(e) ==> db_table(*final(conn)) == db_table(
            *old(conn),
        ) && db_jobs(*final(conn)) == db_jobs(*old(conn))),
{
    match exec_drop(conn, table_name) {
        Ok(u) => Ok(u),
        Err(e) => Err(DbError { error: e }),
    }
}

/// Round-trip: a record inserted under a fresh id `nid` comes back from a
/// listing as the last record, with the same title, rate, applied state and
/// link, under the newly assigned id.
pub proof fn lemma_insert_list_round_trip(pre: Seq<DbRec>, post: Seq<DbRec>, j: JobV, nid: int)
    requires
        0 <= j.rate_cents <= u32::MAX,
        post == pre.push(rec_of_job(j, nid)),
    ensures
        listed_jobs(post) == listed_jobs(pre).push(
            (JobV {
                id: Some(nid),
                title: j.title,
                rate_cents: j.rate_cents,
                applied: j.applied,
                link: j.link,
            }),
        ),
{
    assert(job_of_rec(rec_of_job(j, nid)) =~~= (JobV {
        id: Some(nid),
        title: j.title,
        rate_cents: j.rate_cents,
        applied: j.applied,
        link: j.link,
    }));
    assert(listed_jobs(post) =~~= listed_jobs(pre).push(job_of_rec(rec_of_job(j, nid))));
}

/// Schema creation is idempotent: two successful creations in a row leave
/// the table in place and the rows exactly as they began — nothing is
/// duplicated or replaced.
pub proof fn lemma_create_table_idempotent(
    t0: bool,
    d0: Seq<DbRec>,
    t1: bool,
    d1: Seq<DbRec>,
    t2: bool,
    d2: Seq<DbRec>,
)
    requires
        create_ok_rel(t0, d0, t1, d1),
        create_ok_rel(t1, d1, t2, d2),
    ensures
        t2,
        d2 == d0,
{
}

/// Delete semantics: when no row has the id, a removal deletes zero rows,
/// reports "not found", and leaves the table exactly as it was.
pub proof fn lemma_remove_nonexistent(db: Seq<DbRec>, id: int)
    requires
        !contains_id(db, id),
    ensures
        rows_without_id(db, id) == db,
        rows_with_id(db, id).len() == 0,
{
    lemma_remove_absent(db, id);
    lemma_rows_with_id_contains(db, id);
}

} // verus!
