//! An in-memory collection of job records with a running count, filled
//! record by record and handed out as a whole.

use vstd::prelude::*;

use crate::job::{jobs_views, Job, JobV};

verus! {

/// A list of job records and how many it holds.
pub struct Applications {
    jobs: Vec<Job>,
    total_jobs: u32,
}

impl View for Applications {
    type V = Seq<JobV>;

    closed spec fn view(&self) -> Seq<JobV> {
        jobs_views(self.jobs@)
    }
}

impl Applications {
    /// The running count agrees with the collection.
    pub closed spec fn wf(&self) -> bool {
        self.total_jobs as int == self.jobs@.len()
    }

    /// An empty collection.
    pub fn new() -> (app: Self)
        ensures
            app@ == Seq::<JobV>::empty(),
            app.wf(),
    {
        let app = Applications { jobs: Vec::new(), total_jobs: 0 };
        proof {
            assert(app@ =~= Seq::<JobV>::empty());
        }
        app
    }

    /// Appends a record built from its parts; the applied count is the 0/1
    /// integer encoding, where exactly 1 means applied.
    pub fn add_job(
        &mut self,
        id: u32,
        job_title: &str,
        rate_cents: u32,
        applied: u32,
        link: String,
    )
        requires
            old(self).wf(),
            old(self)@.len() < u32::MAX,
            job_title@.len() > 0,
        ensures
            final(self).wf(),
            final(self)@ == old(self)@.push(
                (JobV {
                    id: Some(id as int),
                    title: job_title@,
                    rate_cents: rate_cents as int,
                    applied: applied == 1,
                    link: Some(link@),
                }),
            ),
    {
        let job = Job::new(
            Some(id as i64),
            job_title.to_owned(),
            rate_cents,
            applied == 1,
            Some(link),
        );
        proof {
            assert(jobs_views(self.jobs@.push(job)) =~~= jobs_views(self.jobs@).push(job@));
        }
        self.jobs.push(job);
        self.total_jobs = self.total_jobs + 1;
    }

    /// Appends an already-built record.
    pub fn _add_job_obj(&mut self, job: Job)
        requires
            old(self).wf(),
            old(self)@.len() < u32::MAX,
        ensures
            final(self).wf(),
            final(self)@ == old(self)@.push(job@),
    {
        proof {
            assert(jobs_views(self.jobs@.push(job)) =~~= jobs_views(self.jobs@).push(job@));
        }
        self.jobs.push(job);
        self.total_jobs = self.total_jobs + 1;
    }

    /// Hands out a copy of every record, in insertion order.
    pub fn get_jobs(&self) -> (out: Vec<Job>)
        ensures
            jobs_views(out@) == self@,
    {
        let mut out: Vec<Job> = Vec::new();
        let mut i: usize = 0;
        proof {
            assert(jobs_views(out@) =~~= self@.take(0));
        }
        while i < self.jobs.len()
            invariant
                i <= self.jobs@.len(),
                self@ == jobs_views(self.jobs@),
                self@.len() == self.jobs@.len(),
                jobs_views(out@) == self@.take(i as int),
            decreases self.jobs@.len() - i,
        {
            let job = self.jobs[i].clone();
            proof {
                assert(self@[i as int] == self.jobs@[i as int]@);
                assert(jobs_views(out@.push(job)) =~~= jobs_views(out@).push(job@));
                assert(self@.take(i + 1) =~= self@.take(i as int).push(self@[i as int]));
            }
            out.push(job);
            i = i + 1;
        }
        proof {
            assert(self@.take(i as int) =~= self@);
        }
        out
    }

    /// How many records the collection holds.
    pub fn get_total_jobs(&self) -> (n: u32)
        requires
            self.wf(),
        ensures
            n as int == self@.len(),
    {
        proof {
            assert(self@.len() == self.jobs@.len());
        }
        self.total_jobs
    }
}

} // verus!
