//! The job entity: one application record, its mathematical image, and the
//! translations between the applied-status encodings (integer flag, boolean,
//! "Yes"/"No" string) that meet at the storage and display boundaries.

use vstd::prelude::*;

use crate::text::eq_str;

verus! {

/// The mathematical image of a job record: text as character sequences and
/// the hourly pay rate in whole cents.
#[verifier::ext_equal]
pub ghost struct JobV {
    pub id: Option<int>,
    pub title: Seq<char>,
    pub rate_cents: int,
    pub applied: bool,
    pub link: Option<Seq<char>>,
}

/// One job application record.
///
/// The applied status is held canonically as a boolean; the 0/1 integer and
/// "Yes"/"No" string encodings are produced only at the storage and display
/// boundaries. The hourly rate is held in whole cents so that arithmetic on
/// it stays exact. `id` is `None` until the store assigns one on insert.
#[derive(Debug)]
pub struct Job {
    id: Option<i64>,
    title: String,
    rate_cents: u32,
    applied: bool,
    link: Option<String>,
}

impl View for Job {
    type V = JobV;

    closed spec fn view(&self) -> JobV {
        JobV {
            id: match self.id {
                Some(i) => Some(i as int),
                None => None,
            },
            title: self.title@,
            rate_cents: self.rate_cents as int,
            applied: self.applied,
            link: match self.link {
                Some(l) => Some(l@),
                None => None,
            },
        }
    }
}

impl Clone for Job {
    fn clone(&self) -> (r: Self)
        ensures
            r@ == self@,
    {
        let r = Job {
            id: self.id,
            title: self.title.clone(),
            rate_cents: self.rate_cents,
            applied: self.applied,
            link: match &self.link {
                Some(l) => Some(l.clone()),
                None => None,
            },
        };
        proof {
            assert(r@ =~= self@);
        }
        r
    }
}

/// The display form of an applied status: "Yes" or "No".
pub open spec fn spec_applied_display(applied: bool) -> Seq<char> {
    if applied {
        "Yes"@
    } else {
        "No"@
    }
}

/// The display form of a link: the link itself, or the sentinel "No Link"
/// when the record has none.
pub open spec fn spec_link_display(link: Option<Seq<char>>) -> Seq<char> {
    match link {
        Some(l) => l,
        None => "No Link"@,
    }
}

/// The applied states an input string can name: exactly "1", "Yes" and
/// "true" mean applied; every other string means not applied.
pub open spec fn spec_applied_str(s: Seq<char>) -> bool {
    s == "1"@ || s == "Yes"@ || s == "true"@
}

/// Normalizes a free-form status string to the canonical boolean.
pub fn applied_from_str(s: &str) -> (b: bool)
    ensures
        b == spec_applied_str(s@),
{
    eq_str(s, "1") || eq_str(s, "Yes") || eq_str(s, "true")
}

/// Normalizes an integer status flag to the canonical boolean: only 1 means
/// applied.
pub fn applied_from_int(n: i64) -> (b: bool)
    ensures
        b == (n == 1),
{
    n == 1
}

/// The 0/1 integer form of an applied status, as the store persists it.
pub fn applied_to_int(applied: bool) -> (n: i64)
    ensures
        n == (if applied {
            1int
        } else {
            0int
        }),
{
    if applied {
        1
    } else {
        0
    }
}

impl Job {
    /// Builds a record from its parts. The title is required to be non-empty;
    /// every other field may carry its default.
    pub fn new(id: Option<i64>, title: String, rate_cents: u32, applied: bool, link: Option<
        String,
    >) -> (job: Self)
        requires
            title@.len() > 0,
        ensures
            job@ == (JobV {
                id: match id {
                    Some(i) => Some(i as int),
                    None => None,
                },
                title: title@,
                rate_cents: rate_cents as int,
                applied,
                link: match link {
                    Some(l) => Some(l@),
                    None => None,
                },
            }),
    {
        let job = Job { id, title, rate_cents, applied, link };
        proof {
            assert(job@ =~= (JobV {
                id: match job.id {
                    Some(i) => Some(i as int),
                    None => None,
                },
                title: job.title@,
                rate_cents: job.rate_cents as int,
                applied: job.applied,
                link: match job.link {
                    Some(l) => Some(l@),
                    None => None,
                },
            }));
        }
        job
    }

    /// The store-assigned id. Only a persisted record has one.
    pub fn _get_id(&self) -> (id: i64)
        requires
            self@.id is Some,
        ensures
            Some(id as int) == self@.id,
    {
        match self.id {
            Some(i) => i,
            None => {
                proof {
                    assert(false);
                }
                0
            },
        }
    }

    /// The link in display form: the stored link, or "No Link".
    pub fn get_link(&self) -> (link: String)
        ensures
            link@ == spec_link_display(self@.link),
    {
        match &self.link {
            Some(l) => l.clone(),
            None => String::from_str("No Link"),
        }
    }

    pub fn get_title(&self) -> (title: String)
        ensures
            title@ == self@.title,
    {
        self.title.clone()
    }

    /// The hourly rate in whole cents.
    pub fn get_hourly(&self) -> (rate_cents: u32)
        ensures
            rate_cents as int == self@.rate_cents,
    {
        self.rate_cents
    }

    /// The applied status in display form: "Yes" or "No".
    pub fn get_applied(&self) -> (s: String)
        ensures
            s@ == spec_applied_display(self@.applied),
    {
        if self.applied {
            String::from_str("Yes")
        } else {
            String::from_str("No")
        }
    }

    /// The canonical applied status.
    pub fn is_applied(&self) -> (b: bool)
        ensures
            b == self@.applied,
    {
        self.applied
    }

    /// The stored link itself, `None` when the record has none.
    pub fn link(&self) -> (l: Option<&String>)
        ensures
            (match l {
                Some(s) => Some(s@),
                None => None::<Seq<char>>,
            }) == self@.link,
    {
        self.link.as_ref()
    }

    /// Rebuilds a record exactly as the store hands it back; the store may
    /// hold titles this crate never wrote, so nothing is required of them.
    pub(crate) fn from_store(
        id: i64,
        title: String,
        rate_cents: u32,
        applied: bool,
        link: Option<String>,
    ) -> (job: Self)
        ensures
            job@ == (JobV {
                id: Some(id as int),
                title: title@,
                rate_cents: rate_cents as int,
                applied,
                link: match link {
                    Some(l) => Some(l@),
                    None => None,
                },
            }),
    {
        let job = Job { id: Some(id), title, rate_cents, applied, link };
        proof {
            assert(job@ =~= (JobV {
                id: Some(id as int),
                title: job.title@,
                rate_cents: rate_cents as int,
                applied,
                link: match job.link {
                    Some(l) => Some(l@),
                    None => None,
                },
            }));
        }
        job
    }
}

/// The views of a sequence of job records.
pub open spec fn jobs_views(v: Seq<Job>) -> Seq<JobV> {
    v.map_values(|j: Job| j@)
}

/// The view of an optional owned string.
pub open spec fn opt_string_view(o: Option<String>) -> Option<Seq<char>> {
    match o {
        Some(s) => Some(s@),
        None => None,
    }
}

/// Names the record to remove: just its id.
pub struct JobRemovalForm {
    pub id: i64,
}

/// Names a record and the applied status it should take.
pub struct JobStatusUpdate {
    pub id: i64,
    pub applied: bool,
}

/// The outcome handed back for a status update.
pub struct ApiResponse {
    pub success: bool,
}

} // verus!
