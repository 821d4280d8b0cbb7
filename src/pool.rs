use vstd::prelude::*;
use crate::catalog::Role;
use crate::error::{ErrorKind, SfError};
use crate::naming::{holds_canonical, is_lower_canonical, may_clash, resolve_output_name};
use crate::text::texts;

verus! {

/// How many reports in `s` were successes.
pub open spec fn count_ok(s: Seq<bool>) -> nat
    decreases s.len(),
{
    if s.len() == 0 {
        0
    } else {
        count_ok(s.drop_last()) + if s.last() {
            1nat
        } else {
            0nat
        }
    }
}

/// How many reports in `s` were failures.
pub open spec fn count_failed(s: Seq<bool>) -> nat {
    (s.len() - count_ok(s)) as nat
}

proof fn lemma_count_ok_bound(s: Seq<bool>)
    ensures
        count_ok(s) <= s.len(),
    decreases s.len(),
{
    if s.len() > 0 {
        lemma_count_ok_bound(s.drop_last());
    }
}

/// One job handed to a worker: the identifier it reads and the name it writes.
pub struct Assignment {
    pub job: String,
    pub output_name: String,
}

/// What a finished run reports: how many jobs there were, how many succeeded,
/// and the error of each job that failed.
pub struct RunOutcome {
    pub total: usize,
    pub succeeded: usize,
    pub failures: Vec<SfError>,
}

/// The shared state of one run: the jobs not handed out yet, the names
/// already used in the output directory, and the tally of reported outcomes.
/// Workers take jobs from the end of the list, each exactly once.
pub struct JobPool {
    role: Role,
    threads: u32,
    pending: Vec<String>,
    taken: Vec<String>,
    total: usize,
    dispatched: usize,
    succeeded: usize,
    failures: Vec<SfError>,
    fatal: Option<SfError>,
    jobs: Ghost<Seq<Seq<char>>>,
    handed: Ghost<Seq<Seq<char>>>,
    results: Ghost<Seq<bool>>,
}

impl JobPool {
    /// The catalog the run started with.
    pub closed spec fn catalog(&self) -> Seq<Seq<char>> {
        self.jobs@
    }

    /// The jobs handed out so far, the latest first.
    pub closed spec fn handed_out(&self) -> Seq<Seq<char>> {
        self.handed@
    }

    /// The jobs not handed out yet; the next one is the last.
    pub closed spec fn pending_jobs(&self) -> Seq<Seq<char>> {
        texts(self.pending@)
    }

    /// The names that a fresh output name must avoid.
    pub closed spec fn reserved(&self) -> Seq<Seq<char>> {
        texts(self.taken@)
    }

    /// The reported outcomes, in order: true for a success.
    pub closed spec fn reports(&self) -> Seq<bool> {
        self.results@
    }

    /// The errors of the failed reports, in order.
    pub closed spec fn recorded_failures(&self) -> Seq<SfError> {
        self.failures@
    }

    pub closed spec fn spec_role(&self) -> Role {
        self.role
    }

    pub closed spec fn spec_threads(&self) -> nat {
        self.threads as nat
    }

    /// Whether a worker hit an internal failure, which ends the run.
    pub closed spec fn has_fatal(&self) -> bool {
        self.fatal is Some
    }

    pub closed spec fn wf(&self) -> bool {
        &&& texts(self.pending@) + self.handed@ == self.jobs@
        &&& self.total == self.jobs@.len()
        &&& self.dispatched == self.handed@.len()
        &&& self.results@.len() == self.succeeded + self.failures@.len()
        &&& self.succeeded == count_ok(self.results@)
        &&& self.results@.len() + (if self.fatal is Some { 1int } else { 0int }) <= self.dispatched
        &&& self.threads >= 1
    }

    /// A pool over `jobs` for a run of `role` with `threads` workers; `taken`
    /// lists the entries of the output directory. A configuration error when
    /// `threads` is below one.
    pub fn new(role: Role, jobs: Vec<String>, taken: Vec<String>, threads: i32) -> (r: Result<JobPool, SfError>)
        ensures
            r is Err <==> threads < 1,
            r is Err ==> r->Err_0.kind == ErrorKind::Configuration,
            r is Ok ==> ({
                let p = r->Ok_0;
                &&& p.wf()
                &&& p.catalog() == texts(jobs@)
                &&& p.pending_jobs() == texts(jobs@)
                &&& p.handed_out() == Seq::<Seq<char>>::empty()
                &&& p.reports() == Seq::<bool>::empty()
                &&& p.recorded_failures() == Seq::<SfError>::empty()
                &&& p.reserved() == texts(taken@)
                &&& p.spec_role() == role
                &&& p.spec_threads() == threads
                &&& !p.has_fatal()
            }),
    {
        if threads < 1 {
            return Err(
                SfError::with_kind(ErrorKind::Configuration, String::from_str("threads must be at least 1")),
            );
        }
        let total = jobs.len();
        let ghost catalog = texts(jobs@);
        let p = JobPool {
            role,
            threads: threads as u32,
            pending: jobs,
            taken,
            total,
            dispatched: 0,
            succeeded: 0,
            failures: Vec::new(),
            fatal: None,
            jobs: Ghost(catalog),
            handed: Ghost(Seq::empty()),
            results: Ghost(Seq::empty()),
        };
        assert(texts(p.pending@) + p.handed@ =~= p.jobs@);
        Ok(p)
    }

    /// Hands the next job to a worker, with the name its output takes: the job's
    /// own identifier when decrypting, else as `resolve_output_name` decides
    /// against the reserved names, which then hold the file it writes too. `None` once no job is
    /// left or a fatal failure was met; a failure to name the job is that fatal
    /// failure.
    pub fn dispatch(&mut self) -> (r: Option<Assignment>)
        requires
            old(self).wf(),
        ensures
            final(self).wf(),
            final(self).catalog() == old(self).catalog(),
            final(self).reports() == old(self).reports(),
            final(self).recorded_failures() == old(self).recorded_failures(),
            final(self).spec_role() == old(self).spec_role(),
            final(self).spec_threads() == old(self).spec_threads(),
            old(self).has_fatal() ==> final(self).has_fatal(),
            old(self).has_fatal() || old(self).pending_jobs().len() == 0 ==> r is None && *final(self) == *old(self),
            !old(self).has_fatal() && old(self).pending_jobs().len() > 0 ==> ({
                let j = old(self).pending_jobs().last();
                &&& final(self).pending_jobs() == old(self).pending_jobs().drop_last()
                &&& final(self).handed_out() == seq![j] + old(self).handed_out()
                &&& (r is None <==> final(self).has_fatal())
                &&& (old(self).spec_role() == Role::Decrypt || holds_canonical(j)) ==> r is Some
                &&& (forall|k: int| 0 <= k < old(self).reserved().len() ==> !may_clash(#[trigger] old(self).reserved()[k], old(self).spec_role().target())) ==> r is Some
                &&& r is Some ==> {
                    let a = r->Some_0;
                    &&& a.job@ == j
                    &&& final(self).reserved() == old(self).reserved().push(a.output_name@ + old(self).spec_role().target())
                    &&& (old(self).spec_role() == Role::Decrypt ==> a.output_name@ == j)
                    &&& (old(self).spec_role() == Role::Encrypt && holds_canonical(j) ==> a.output_name@ == j)
                    &&& (old(self).spec_role() == Role::Encrypt && !holds_canonical(j) ==> is_lower_canonical(
                        a.output_name@,
                    ) && !old(self).reserved().contains(a.output_name@)
                      && !old(self).reserved().contains(a.output_name@ + old(self).spec_role().target()))
                }
            }),
    {
        if self.fatal.is_some() || self.pending.len() == 0 {
            return None;
        }
        let job = match self.pending.pop() {
            Some(j) => j,
            None => return None,
        };
        self.dispatched = self.dispatched + 1;
        self.handed = Ghost(seq![job@] + self.handed@);
        proof {
            assert(texts(self.pending@) =~= texts(old(self).pending@).drop_last());
            assert(texts(self.pending@) + self.handed@ =~= self.jobs@);
        }
        let named = match self.role {
            Role::Decrypt => Ok(String::from_str(job.as_str())),
            Role::Encrypt => resolve_output_name(job.as_str(), self.role.target_ext(), &self.taken),
        };
        proof {
            if forall|k: int| 0 <= k < old(self).reserved().len() ==> !may_clash(#[trigger] old(self).reserved()[k], self.role.target()) {
                assert forall|k: int| 0 <= k < self.taken@.len() implies !may_clash(#[trigger] self.taken@[k]@, self.role.target()) by {
                    assert(self.taken@ == old(self).taken@);
                    assert(texts(self.taken@)[k] == self.taken@[k]@);
                    assert(old(self).reserved()[k] == texts(old(self).taken@)[k]);
                    assert(!may_clash(old(self).reserved()[k], self.role.target()));
                }
            }
        }
        match named {
            Ok(output_name) => {
                self.taken.push(String::from_str(output_name.as_str()).concat(self.role.target_ext()));
                proof {
                    assert(texts(self.taken@) =~= texts(old(self).taken@).push(output_name@ + self.role.target()));
                }
                Some(Assignment { job, output_name })
            },
            Err(e) => {
                self.fatal = Some(e);
                None
            },
        }
    }

    /// Records the outcome of one job handed out earlier. Returns false, and
    /// changes nothing, when no handed-out job awaits its report.
    pub fn report(&mut self, outcome: Result<(), SfError>) -> (accepted: bool)
        requires
            old(self).wf(),
        ensures
            final(self).wf(),
            final(self).catalog() == old(self).catalog(),
            final(self).handed_out() == old(self).handed_out(),
            final(self).pending_jobs() == old(self).pending_jobs(),
            final(self).reserved() == old(self).reserved(),
            final(self).spec_role() == old(self).spec_role(),
            final(self).spec_threads() == old(self).spec_threads(),
            final(self).has_fatal() == old(self).has_fatal(),
            accepted <==> old(self).reports().len() + (if old(self).has_fatal() { 1int } else { 0int })
                < old(self).handed_out().len(),
            accepted ==> final(self).reports() == old(self).reports().push(outcome is Ok),
            accepted && outcome is Err ==> final(self).recorded_failures() == old(self).recorded_failures().push(
                outcome->Err_0,
            ),
            !accepted || outcome is Ok ==> final(self).recorded_failures() == old(self).recorded_failures(),
            !accepted ==> final(self).reports() == old(self).reports(),
    {
        let reported = self.succeeded + self.failures.len();
        let in_flight = if self.fatal.is_some() {
            self.dispatched - 1
        } else {
            self.dispatched
        };
        if reported >= in_flight {
            return false;
        }
        let ghost before = self.results@;
        match outcome {
            Ok(()) => {
                self.succeeded = self.succeeded + 1;
                self.results = Ghost(before.push(true));
            },
            Err(e) => {
                self.failures.push(e);
                self.results = Ghost(before.push(false));
            },
        }
        proof {
            assert(self.results@.drop_last() =~= before);
        }
        true
    }

    pub fn role(&self) -> (r: Role)
        ensures
            r == self.spec_role(),
    {
        self.role
    }

    pub fn threads(&self) -> (r: u32)
        requires
            self.wf(),
        ensures
            r == self.spec_threads(),
            r >= 1,
    {
        self.threads
    }

    pub fn total(&self) -> (r: usize)
        requires
            self.wf(),
        ensures
            r == self.catalog().len(),
    {
        self.total
    }

    pub fn succeeded(&self) -> (r: usize)
        requires
            self.wf(),
        ensures
            r == count_ok(self.reports()),
    {
        self.succeeded
    }

    pub fn failed(&self) -> (r: usize)
        requires
            self.wf(),
        ensures
            r == count_failed(self.reports()),
    {
        self.failures.len()
    }

    /// Whether every job handed out so far has its report.
    pub fn is_settled(&self) -> (r: bool)
        requires
            self.wf(),
        ensures
            r == (self.reports().len() + (if self.has_fatal() { 1int } else { 0int }) == self.handed_out().len()),
    {
        let in_flight = if self.fatal.is_some() {
            self.dispatched - 1
        } else {
            self.dispatched
        };
        self.succeeded + self.failures.len() == in_flight
    }

    /// The result of the run: the fatal failure if a worker met one, else the
    /// tally of the reports.
    pub fn into_outcome(self) -> (r: Result<RunOutcome, SfError>)
        requires
            self.wf(),
        ensures
            r is Err <==> self.has_fatal(),
            r is Ok ==> r->Ok_0.total == self.catalog().len() && r->Ok_0.succeeded == count_ok(self.reports())
                && r->Ok_0.failures@ == self.recorded_failures()
                && r->Ok_0.failures@.len() == count_failed(self.reports()),
    {
        match self.fatal {
            Some(e) => Err(e),
            None => Ok(RunOutcome { total: self.total, succeeded: self.succeeded, failures: self.failures }),
        }
    }

    /// Once no job is pending and no fatal failure was met, every job of the
    /// catalog was handed out exactly once; once every report is in as well,
    /// the successes and failures together number the jobs of the catalog.
    pub proof fn lemma_every_job_attempted_once(&self)
        requires
            self.wf(),
            !self.has_fatal(),
            self.pending_jobs().len() == 0,
        ensures
            self.handed_out().to_multiset() == self.catalog().to_multiset(),
            self.handed_out().len() == self.catalog().len(),
            self.reports().len() == self.handed_out().len() ==> count_ok(self.reports()) + count_failed(
                self.reports(),
            ) == self.catalog().len(),
    {
        assert(texts(self.pending@) + self.handed@ =~= self.handed@);
        lemma_count_ok_bound(self.results@);
    }

    /// When every job was handed out and reported without a fatal failure, the
    /// recorded errors number the failed reports, and all other jobs succeeded.
    pub proof fn lemma_failures_stay_isolated(&self)
        requires
            self.wf(),
            !self.has_fatal(),
            self.pending_jobs().len() == 0,
            self.reports().len() == self.handed_out().len(),
        ensures
            count_ok(self.reports()) == self.catalog().len() - count_failed(self.reports()),
            count_failed(self.reports()) == 1 ==> count_ok(self.reports()) == self.catalog().len() - 1,
            self.recorded_failures().len() == count_failed(self.reports()),
    {
        self.lemma_every_job_attempted_once();
        lemma_count_ok_bound(self.results@);
    }
}

} // verus!
