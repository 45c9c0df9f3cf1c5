//! The query/update façade: the four operations the web layer consumes,
//! each a thin wrapper over the persistent store, taking and returning
//! plain values and adding no logic of its own.

use vstd::prelude::*;

use crate::database_methods::{
    contains_id, db_jobs, db_table, fresh_id, get_jobs, insert_job, listed_jobs, rec_of_job,
    remove_data, rows_without_id, update_applied, with_applied, DbError,
};
use crate::job::{jobs_views, opt_string_view, Job, JobV};

verus! {

/// Every stored record, in id order.
pub fn list(conn: &rusqlite::Connection) -> (r: Result<Vec<Job>, DbError>)
    ensures
        r matches Ok(v) ==> jobs_views(v@) == listed_jobs(db_jobs(*conn)),
{
    get_jobs(conn)
}

/// Stores one record built from its parts and returns the id the store
/// assigned it. The title must be validated — non-empty — before this layer
/// is invoked.
pub fn add(
    conn: &mut rusqlite::Connection,
    title: String,
    rate_cents: u32,
    applied: bool,
    link: Option<String>,
) -> (r: Result<i64, DbError>)
    requires
        title@.len() > 0,
    ensures
        r matches Ok(nid) ==> fresh_id(db_jobs(*old(conn)), nid as int) && db_jobs(*final(conn))
            == db_jobs(*old(conn)).push(
            rec_of_job(
                (JobV {
                    id: None,
                    title: title@,
                    rate_cents: rate_cents as int,
                    applied,
                    link: opt_string_view(link),
                }),
                nid as int,
            ),
        ) && db_table(*final(conn)),
        r matches Err(e) ==> db_table(*final(conn)) == db_table(*old(conn)) && db_jobs(
            *final(conn),
        ) == db_jobs(*old(conn)),
{
    let job = Job::new(None, title, rate_cents, applied, link);
    insert_job(conn, &job)
}

/// Removes the record with this id; `Ok(true)` exactly when one was there.
pub fn remove(conn: &mut rusqlite::Connection, id: i64) -> (r: Result<bool, DbError>)
    ensures
        r matches Ok(b) ==> b == contains_id(db_jobs(*old(conn)), id as int) && db_jobs(
            *final(conn),
        ) == rows_without_id(db_jobs(*old(conn)), id as int) && db_table(*final(conn)) == db_table(
            *old(conn),
        ),
        r matches Err(e) ==> db_table(*final(conn)) == db_table(*old(conn)) && db_jobs(
            *final(conn),
        ) == db_jobs(*old(conn)),
{
    remove_data(conn, id)
}

/// Sets the applied status of the record with this id; an id no record has
/// touches nothing and is no error.
pub fn set_applied(conn: &mut rusqlite::Connection, id: i64, applied: bool) -> (r: Result<
    (),
    DbError,
>)
    ensures
        r matches Ok(u) ==> db_jobs(*final(conn)) == with_applied(
            db_jobs(*old(conn)),
            id as int,
            if applied {
                1
            } else {
                0
            },
        ) && db_table(*final(conn)) == db_table(*old(conn)),
        r matches Err(e) ==> db_table(*final(conn)) == db_table(*old(conn)) && db_jobs(
            *final(conn),
        ) == db_jobs(*old(conn)),
{
    update_applied(conn, applied, id)
}

} // verus!
