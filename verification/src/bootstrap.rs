//! The bootstrap reconciler: at process start, make sure the schema exists,
//! and seed the store from CSV text exactly when it holds no rows yet.

use vstd::prelude::*;

use crate::csv_reader::{job_payloads, mask_select, read_csv_data, spec_parse_jobs};
use crate::database_methods::{create_table, database_empty, db_jobs, db_table, payloads, DbError, DbRec};

verus! {

/// What a bootstrap did: seeded an empty store from CSV, or skipped seeding
/// because rows were already there.
#[derive(Clone, Copy, Debug, PartialEq, Eq, Structural)]
pub enum BootstrapOutcome {
    Seeded,
    Skipped,
}

/// What a successful bootstrap guarantees about the store, over the rows
/// before (`pre`) and after (`post`): a non-empty store is skipped and left
/// exactly as it was; an empty one is seeded, and then holds, behind some
/// keep-mask of rows whose individual insert failed, exactly the records the
/// CSV text yields.
pub open spec fn bootstrap_ok_rel(
    pre: Seq<DbRec>,
    post: Seq<DbRec>,
    outcome: BootstrapOutcome,
    text: Seq<char>,
) -> bool {
    match outcome {
        BootstrapOutcome::Skipped => pre.len() > 0 && post == pre,
        BootstrapOutcome::Seeded => pre.len() == 0 && (exists|keep: Seq<bool>|
            #![auto]
            keep.len() == spec_parse_jobs(text).len() && payloads(post) == mask_select(
                job_payloads(spec_parse_jobs(text)),
                keep,
            )),
    }
}

/// Ensures the schema, then seeds from `csv_text` exactly when the store
/// holds no rows. A schema-creation or emptiness-check failure is
/// propagated and leaves the rows as they were; a failure of one seeding
/// insert only skips that row.
pub fn bootstrap(conn: &mut rusqlite::Connection, csv_text: &str) -> (r: Result<
    BootstrapOutcome,
    DbError,
>)
    ensures
        r matches Ok(outcome) ==> bootstrap_ok_rel(
            db_jobs(*old(conn)),
            db_jobs(*final(conn)),
            outcome,
            csv_text@,
        ) && db_table(*final(conn)),
        r matches Err(e) ==> db_jobs(*final(conn)) == db_jobs(*old(conn)),
{
    let ghost pre = db_jobs(*old(conn));
    match create_table(conn) {
        Ok(u) => {},
        Err(e) => {
            return Err(e);
        },
    }
    let empty = match database_empty(conn) {
        Ok(b) => b,
        Err(e) => {
            return Err(e);
        },
    };
    if empty {
        proof {
            assert(payloads(pre) =~= Seq::<DbRec>::empty());
        }
        let _n = read_csv_data(conn, csv_text);
        proof {
            let keep = choose|keep: Seq<bool>|
                #![auto]
                keep.len() == spec_parse_jobs(csv_text@).len() && payloads(db_jobs(*conn))
                    == payloads(pre) + mask_select(job_payloads(spec_parse_jobs(csv_text@)), keep);
            assert(payloads(pre) + mask_select(job_payloads(spec_parse_jobs(csv_text@)), keep)
                =~= mask_select(job_payloads(spec_parse_jobs(csv_text@)), keep));
        }
        Ok(BootstrapOutcome::Seeded)
    } else {
        Ok(BootstrapOutcome::Skipped)
    }
}

/// Bootstrap is idempotent: when a bootstrap has left rows in the store, a
/// second bootstrap over the same text skips seeding and changes nothing —
/// no rows are duplicated.
pub proof fn lemma_bootstrap_idempotent(
    d0: Seq<DbRec>,
    d1: Seq<DbRec>,
    d2: Seq<DbRec>,
    o1: BootstrapOutcome,
    o2: BootstrapOutcome,
    text: Seq<char>,
)
    requires
        bootstrap_ok_rel(d0, d1, o1, text),
        d1.len() > 0,
        bootstrap_ok_rel(d1, d2, o2, text),
    ensures
        o2 == BootstrapOutcome::Skipped,
        d2 == d1,
{
}

} // verus!
