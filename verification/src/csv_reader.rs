//! CSV ingestion: turning tabular text with a header row into job records
//! and seeding the store with them.
//!
//! A data row is `id,title,hourly_rate,applied,link`, read positionally; the
//! id column is ignored (the store assigns ids), a missing or unparsable
//! cell takes its default, and a row without a title is skipped. Rows are
//! separated by `\n`, an optional trailing `\r` is dropped, and cells are
//! separated by plain commas.

use vstd::prelude::*;

use crate::database_methods::{
    db_jobs, db_table, enter_data, payload_of, payloads, rec_of_job, DbRec,
};
use crate::job::{applied_from_str, jobs_views, spec_applied_str, Job, JobV};
use crate::text::{parse_rate_cents, spec_rate_cents, spec_split, split_str, views_of};

verus! {

/// A line with one trailing carriage return removed.
pub open spec fn trim_cr(l: Seq<char>) -> Seq<char> {
    if l.len() > 0 && l.last() == '\r' {
        l.drop_last()
    } else {
        l
    }
}

/// The data rows of a CSV text: what follows the header line, each with a
/// trailing carriage return dropped.
pub open spec fn csv_rows(text: Seq<char>) -> Seq<Seq<char>> {
    spec_split(text, '\n').drop_first().map_values(|l: Seq<char>| trim_cr(l))
}

pub open spec fn row_fields(line: Seq<char>) -> Seq<Seq<char>> {
    spec_split(line, ',')
}

/// A row that yields a record: it reaches the title cell and the title is
/// non-empty. Anything else — blank lines included — is skipped.
pub open spec fn row_valid(line: Seq<char>) -> bool {
    row_fields(line).len() >= 2 && row_fields(line)[1].len() > 0
}

/// The record a valid row names: no id yet, the title cell as given, the
/// rate cell read as cents (0 when unparsable or absent), the applied cell
/// normalized (not applied when unparsable or absent), and the link cell
/// (absent or empty means no link).
pub open spec fn row_job(line: Seq<char>) -> JobV {
    let f = row_fields(line);
    JobV {
        id: None,
        title: f[1],
        rate_cents: if f.len() > 2 {
            spec_rate_cents(f[2])
        } else {
            0
        },
        applied: if f.len() > 3 {
            spec_applied_str(f[3])
        } else {
            false
        },
        link: if f.len() > 4 && f[4].len() > 0 {
            Some(f[4])
        } else {
            None
        },
    }
}

/// The records of the valid rows, in row order.
pub open spec fn jobs_of_rows(rows: Seq<Seq<char>>) -> Seq<JobV>
    decreases rows.len(),
{
    if rows.len() == 0 {
        Seq::empty()
    } else {
        let init = jobs_of_rows(rows.drop_last());
        if row_valid(rows.last()) {
            init.push(row_job(rows.last()))
        } else {
            init
        }
    }
}

/// Every record a CSV text yields, in order.
pub open spec fn spec_parse_jobs(text: Seq<char>) -> Seq<JobV> {
    jobs_of_rows(csv_rows(text))
}

/// The rows the parsed records would occupy, ids masked out.
pub open spec fn job_payloads(js: Seq<JobV>) -> Seq<DbRec>
    decreases js.len(),
{
    if js.len() == 0 {
        Seq::empty()
    } else {
        job_payloads(js.drop_last()).push(payload_of_job(js.last()))
    }
}

/// The table row a record writes, with the id masked out.
pub open spec fn payload_of_job(j: JobV) -> DbRec {
    DbRec {
        id: 0,
        title: j.title,
        rate_cents: j.rate_cents,
        applied: if j.applied {
            1
        } else {
            0
        },
        link: j.link,
    }
}

/// The elements of `s` kept where `keep` is true, in order.
pub open spec fn mask_select<A>(s: Seq<A>, keep: Seq<bool>) -> Seq<A>
    decreases s.len(),
{
    if s.len() == 0 || keep.len() == 0 {
        Seq::empty()
    } else {
        let init = mask_select(s.drop_last(), keep.drop_last());
        if keep.last() {
            init.push(s.last())
        } else {
            init
        }
    }
}

/// Parses CSV text into job records: the header line is skipped, valid rows
/// yield one record each, and every other row is skipped.
pub fn parse_csv_jobs(text: &str) -> (jobs: Vec<Job>)
    ensures
        jobs_views(jobs@) == spec_parse_jobs(text@),
{
    let lines = split_str(text, '\n');
    let ghost rows = csv_rows(text@);
    proof {
        crate::text::lemma_split_nonempty(text@, '\n');
        assert(views_of(lines@).len() == lines@.len());
        assert(rows.len() == lines@.len() - 1);
    }
    let mut jobs: Vec<Job> = Vec::new();
    let mut i: usize = 1;
    proof {
        assert(jobs_views(jobs@) =~~= jobs_of_rows(rows.take(0)));
    }
    while i < lines.len()
        invariant
            1 <= i <= lines@.len(),
            views_of(lines@) == spec_split(text@, '\n'),
            rows == csv_rows(text@),
            rows.len() == lines@.len() - 1,
            jobs_views(jobs@) == jobs_of_rows(rows.take(i - 1)),
        decreases lines@.len() - i,
    {
        let ghost row = rows[i - 1];
        proof {
            assert(views_of(lines@)[i as int] == lines@[i as int]@);
            assert(row == trim_cr(lines@[i as int]@));
        }
        let line_ref = &lines[i];
        let ls = line_ref.as_str();
        let ln = ls.unicode_len();
        let line: String = if ln > 0 && ls.get_char(ln - 1) == '\r' {
            ls.substring_char(0, ln - 1).to_owned()
        } else {
            line_ref.clone()
        };
        proof {
            assert(line@ =~= row);
        }
        let fields = split_str(line.as_str(), ',');
        proof {
            assert(views_of(fields@) == row_fields(row));
            assert(views_of(fields@).len() == fields@.len());
        }
        if fields.len() >= 2 && fields[1].as_str().unicode_len() > 0 {
            proof {
                assert(fields@[1]@ == row_fields(row)[1]);
                assert(row_valid(row));
            }
            let title = fields[1].clone();
            let rate: u32 = if fields.len() > 2 {
                parse_rate_cents(fields[2].as_str())
            } else {
                0
            };
            let applied: bool = if fields.len() > 3 {
                applied_from_str(fields[3].as_str())
            } else {
                false
            };
            let link: Option<String> = if fields.len() > 4 && fields[4].as_str().unicode_len()
                > 0 {
                Some(fields[4].clone())
            } else {
                None
            };
            let job = Job::new(None, title, rate, applied, link);
            proof {
                assert(job@ =~~= row_job(row));
                assert(rows.take(i as int).drop_last() =~= rows.take(i - 1));
                assert(rows.take(i as int).last() == row);
                assert(jobs_views(jobs@.push(job)) =~~= jobs_views(jobs@).push(job@));
                assert(jobs_of_rows(rows.take(i as int)) == jobs_of_rows(rows.take(i - 1)).push(
                    row_job(row),
                ));
            }
            jobs.push(job);
        } else {
            proof {
                assert(!row_valid(row));
                assert(rows.take(i as int).drop_last() =~= rows.take(i - 1));
                assert(rows.take(i as int).last() == row);
                assert(jobs_of_rows(rows.take(i as int)) == jobs_of_rows(rows.take(i - 1)));
            }
        }
        i = i + 1;
    }
    proof {
        assert(rows.take(i - 1) =~= rows);
    }
    jobs
}

/// Parses CSV text and inserts every record it yields, in order. A row whose
/// insert fails is skipped and the rest still go in, so what lands in the
/// table is the parsed records behind some keep-mask; `n` counts the rows
/// that went in.
pub fn read_csv_data(conn: &mut rusqlite::Connection, text: &str) -> (n: usize)
    ensures
        db_table(*old(conn)) ==> db_table(*final(conn)),
        db_jobs(*final(conn)).len() == db_jobs(*old(conn)).len() + n,
        exists|keep: Seq<bool>|
            #![auto]
            keep.len() == spec_parse_jobs(text@).len() && payloads(db_jobs(*final(conn)))
                == payloads(db_jobs(*old(conn))) + mask_select(
                job_payloads(spec_parse_jobs(text@)),
                keep,
            ),
{
    let jobs = parse_csv_jobs(text);
    let ghost parsed = spec_parse_jobs(text@);
    let ghost pre = db_jobs(*old(conn));
    let mut n: usize = 0;
    let mut i: usize = 0;
    let ghost mut keep: Seq<bool> = Seq::empty();
    proof {
        assert(jobs_views(jobs@).len() == jobs@.len());
        assert(payloads(pre) + mask_select(job_payloads(parsed.take(0)), keep) =~= payloads(pre));
    }
    while i < jobs.len()
        invariant
            i <= jobs@.len(),
            jobs_views(jobs@) == parsed,
            parsed.len() == jobs@.len(),
            pre == db_jobs(*old(conn)),
            keep.len() == i,
            n <= i,
            db_table(*old(conn)) ==> db_table(*conn),
            db_jobs(*conn).len() == pre.len() + n,
            payloads(db_jobs(*conn)) == payloads(pre) + mask_select(
                job_payloads(parsed.take(i as int)),
                keep,
            ),
        decreases jobs@.len() - i,
    {
        let ghost mid = db_jobs(*conn);
        let ghost jv = parsed[i as int];
        proof {
            assert(jobs_views(jobs@)[i as int] == jobs@[i as int]@);
            assert(parsed.take(i + 1).drop_last() =~= parsed.take(i as int));
            assert(parsed.take(i + 1).last() == jv);
            assert(job_payloads(parsed.take(i + 1)) == job_payloads(parsed.take(i as int)).push(
                payload_of_job(jv),
            ));
        }
        match enter_data(conn, &jobs[i]) {
            Ok(u) => {
                proof {
                    let nid = choose|nid: int|
                        #![auto]
                        crate::database_methods::fresh_id(mid, nid) && db_jobs(*conn) == mid.push(
                            rec_of_job(jv, nid),
                        ) && db_table(*conn);
                    assert(payloads(db_jobs(*conn)) =~~= payloads(mid).push(
                        payload_of(rec_of_job(jv, nid)),
                    ));
                    assert(payload_of(rec_of_job(jv, nid)) =~~= payload_of_job(jv));
                    let sel = mask_select(job_payloads(parsed.take(i as int)), keep);
                    assert(mask_select(
                        job_payloads(parsed.take(i as int)).push(payload_of_job(jv)),
                        keep.push(true),
                    ) == sel.push(payload_of_job(jv))) by {
                        assert(job_payloads(parsed.take(i as int)).push(
                            payload_of_job(jv),
                        ).drop_last() =~= job_payloads(parsed.take(i as int)));
                        assert(keep.push(true).drop_last() =~= keep);
                    }
                    assert(payloads(pre) + sel.push(payload_of_job(jv)) =~= (payloads(pre)
                        + sel).push(payload_of_job(jv)));
                    keep = keep.push(true);
                }
                n = n + 1;
            },
            Err(e) => {
                proof {
                    let sel = mask_select(job_payloads(parsed.take(i as int)), keep);
                    assert(mask_select(
                        job_payloads(parsed.take(i as int)).push(payload_of_job(jv)),
                        keep.push(false),
                    ) == sel) by {
                        assert(job_payloads(parsed.take(i as int)).push(
                            payload_of_job(jv),
                        ).drop_last() =~= job_payloads(parsed.take(i as int)));
                        assert(keep.push(false).drop_last() =~= keep);
                    }
                    keep = keep.push(false);
                }
            },
        }
        i = i + 1;
    }
    proof {
        assert(parsed.take(i as int) =~= parsed);
    }
    n
}

} // verus!
