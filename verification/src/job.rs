//! Jobs and the scheduler that decides when each of them runs.
//!
//! The scheduler keeps no clock and runs nothing itself. Its caller tells it
//! what time it is, runs the job it is handed, and reports how the run went.
//! Times are nanoseconds since an origin of the caller's choice, read from a
//! clock that does not go backwards.

use vstd::prelude::*;

pub mod matching;
pub mod movies;
pub mod util;

verus! {

/// The jobs that can be scheduled.
#[derive(Clone, Copy, Debug, PartialEq, Eq, Structural)]
pub enum JobKind {
    /// Cinemas, shows, showtimes and ratings.
    Movies,
}

/// A job with its interval and the time its last successful run ended.
#[derive(Clone, Copy, Debug)]
pub struct Job {
    pub kind: JobKind,
    pub last_ran: Option<u128>,
    pub run_interval: u128,
}

/// Time that has passed at `now` since `then`; none where `then` is later.
pub open spec fn elapsed(now: u128, then: u128) -> nat {
    if now >= then {
        (now - then) as nat
    } else {
        0
    }
}

impl Job {
    /// Whether the job is due at `now`: it never ran, or at least its
    /// interval has passed since its last successful run ended.
    pub open spec fn due_at(self, now: u128) -> bool {
        match self.last_ran {
            None => true,
            Some(then) => elapsed(now, then) >= self.run_interval,
        }
    }

    /// The job after a successful run that ended at `finished`.
    pub open spec fn ran_at(self, finished: u128) -> Job {
        Job { last_ran: Some(finished), ..self }
    }

    /// The job after a run with the given outcome that ended at `finished`:
    /// only success is remembered.
    pub open spec fn after_run(self, succeeded: bool, finished: u128) -> Job {
        if succeeded {
            self.ran_at(finished)
        } else {
            self
        }
    }

    /// A job that has not run yet.
    pub fn new(kind: JobKind, interval: u128) -> (job: Job)
        ensures
            job == (Job { kind, last_ran: None, run_interval: interval }),
    {
        Job { kind, last_ran: None, run_interval: interval }
    }

    /// Whether the job is due at `now`.
    pub fn should_run(&self, now: u128) -> (due: bool)
        ensures
            due == self.due_at(now),
    {
        match self.last_ran {
            None => true,
            Some(then) => {
                let passed: u128 = if now >= then {
                    now - then
                } else {
                    0
                };
                passed >= self.run_interval
            },
        }
    }

    /// Takes note of a run that ended at `finished`: a success moves
    /// `last_ran` there, a failure changes nothing, so that the job stays due.
    pub fn run<E>(&mut self, outcome: Result<(), E>, finished: u128) -> (surfaced: Result<(), E>)
        ensures
            *final(self) == old(self).after_run(outcome is Ok, finished),
            surfaced == outcome,
    {
        if outcome.is_ok() {
            self.last_ran = Some(finished);
        }
        outcome
    }
}

/// One pass over the jobs: how far it has come, whether a job has been handed
/// out and not yet reported, and the first failure seen.
pub struct Pass<E> {
    pub position: usize,
    pub running: bool,
    pub failure: Option<E>,
}

impl<E> Pass<E> {
    /// A pass that has not looked at any job.
    pub fn new() -> (pass: Pass<E>)
        ensures
            pass.position == 0,
            !pass.running,
            pass.failure is None,
    {
        Pass { position: 0, running: false, failure: None }
    }

    /// How the pass went: the first failure among the jobs it ran, if any.
    pub fn outcome(self) -> (outcome: Result<(), E>)
        ensures
            outcome == (match self.failure {
                Some(failure) => Err::<(), E>(failure),
                None => Ok(()),
            }),
    {
        match self.failure {
            Some(failure) => Err(failure),
            None => Ok(()),
        }
    }
}

/// The registered jobs, in the order of their registration.
pub struct Jobs {
    joblist: Vec<Job>,
}

impl View for Jobs {
    type V = Seq<Job>;

    closed spec fn view(&self) -> Seq<Job> {
        self.joblist@
    }
}

/// No job between `from` and `to` is due at `now`.
pub open spec fn none_due(jobs: Seq<Job>, from: int, to: int, now: u128) -> bool {
    forall|k: int| from <= k < to && 0 <= k < jobs.len() ==> !(#[trigger] jobs[k]).due_at(now)
}

impl Jobs {
    /// A scheduler without jobs.
    pub fn init() -> (jobs: Jobs)
        ensures
            jobs@ == Seq::<Job>::empty(),
    {
        Jobs { joblist: Vec::new() }
    }

    /// Registers a job behind those already there. It has not run yet.
    pub fn add(self, kind: JobKind, interval: u128) -> (jobs: Jobs)
        ensures
            jobs@ == self@.push(Job { kind, last_ran: None, run_interval: interval }),
    {
        let mut jobs = self;
        jobs.joblist.push(Job::new(kind, interval));
        jobs
    }

    /// Number of registered jobs.
    pub fn len(&self) -> (n: usize)
        ensures
            n == self@.len(),
    {
        self.joblist.len()
    }

    /// The job at `index`, if there is one.
    pub fn job(&self, index: usize) -> (job: Option<Job>)
        ensures
            job == (if index < self@.len() {
                Some(self@[index as int])
            } else {
                None
            }),
    {
        if index < self.joblist.len() {
            Some(self.joblist[index])
        } else {
            None
        }
    }

    /// Moves `pass` on to the next job that is due at `now` and hands out its
    /// index for the caller to run; `None` when the pass is over. Jobs are
    /// taken in registration order, each at most once in a pass. While a job
    /// is handed out and not yet reported with [`Jobs::record`], it is handed
    /// out again.
    pub fn poll<E>(&self, pass: &mut Pass<E>, now: u128) -> (next: Option<usize>)
        ensures
            final(pass).failure == old(pass).failure,
            old(pass).running && old(pass).position < self@.len() ==> {
                &&& next == Some(old(pass).position)
                &&& final(pass).position == old(pass).position
                &&& final(pass).running
            },
            !(old(pass).running && old(pass).position < self@.len()) ==> match next {
                Some(index) => {
                    &&& old(pass).position <= index < self@.len()
                    &&& self@[index as int].due_at(now)
                    &&& none_due(self@, old(pass).position as int, index as int, now)
                    &&& final(pass).position == index
                    &&& final(pass).running
                },
                None => {
                    &&& none_due(self@, old(pass).position as int, self@.len() as int, now)
                    &&& final(pass).position == (if old(pass).position <= self@.len() {
                        self@.len()
                    } else {
                        old(pass).position as nat
                    })
                    &&& !final(pass).running
                },
            },
    {
        let count = self.joblist.len();
        if pass.running && pass.position < count {
            return Some(pass.position);
        }
        pass.running = false;
        let ghost start = pass.position;
        while pass.position < count
            invariant
                count == self.joblist@.len(),
                start <= pass.position,
                !pass.running,
                pass.failure == old(pass).failure,
                start == old(pass).position,
                !(old(pass).running && start < count),
                pass.position <= count || pass.position == start,
                none_due(self@, start as int, pass.position as int, now),
            decreases count - pass.position,
        {
            if self.joblist[pass.position].should_run(now) {
                pass.running = true;
                return Some(pass.position);
            }
            pass.position = pass.position + 1;
        }
        None
    }

    /// Takes the report on the job that [`Jobs::poll`] handed out last: it
    /// ran, with the given outcome, and ended at `finished`. A success moves
    /// the job's `last_ran` to `finished`; a failure leaves the job as it was
    /// and is kept as the pass's failure unless an earlier one is. Either way
    /// the pass goes on behind that job. With no job handed out, nothing
    /// changes.
    pub fn record<E>(&mut self, pass: &mut Pass<E>, outcome: Result<(), E>, finished: u128)
        ensures
            old(pass).running && old(pass).position < old(self)@.len() ==> {
                &&& final(self)@ == old(self)@.update(
                    old(pass).position as int,
                    old(self)@[old(pass).position as int].after_run(outcome is Ok, finished),
                )
                &&& final(pass).position == old(pass).position + 1
                &&& !final(pass).running
                &&& final(pass).failure == (match (old(pass).failure, outcome) {
                    (None, Err(failure)) => Some(failure),
                    (earlier, _) => earlier,
                })
            },
            !(old(pass).running && old(pass).position < old(self)@.len()) ==> {
                &&& final(self)@ == old(self)@
                &&& *final(pass) == *old(pass)
            },
    {
        if pass.running && pass.position < self.joblist.len() {
            let mut job = self.joblist[pass.position];
            match job.run(outcome, finished) {
                Ok(()) => {},
                Err(failure) => {
                    if pass.failure.is_none() {
                        pass.failure = Some(failure);
                    }
                },
            }
            self.joblist.set(pass.position, job);
            pass.position = pass.position + 1;
            pass.running = false;
        }
    }
}

/// A pass skips no job that is due. Where [`Jobs::poll`] finds no job due
/// between the pass's position `from` and `reached`, be that the job it
/// hands out or the end of the list, no job in between is due: a job that is
/// due at or behind `from` is at or behind `reached`.
pub proof fn lemma_pass_skips_no_due_job(
    jobs: Seq<Job>,
    from: int,
    reached: int,
    due: int,
    now: u128,
)
    requires
        none_due(jobs, from, reached, now),
        0 <= from <= due < jobs.len(),
        jobs[due].due_at(now),
    ensures
        reached <= due,
{
}

/// A job that has not run since it was registered is due, whatever the
/// time: the first pass runs it.
pub proof fn lemma_new_job_is_due(kind: JobKind, interval: u128, now: u128)
    ensures
        (Job { kind, last_ran: None, run_interval: interval }).due_at(now),
{
}

/// After a run that succeeded and ended at `finished`, the job is not due
/// while less than its interval has passed, and is due at every time from
/// then on. Nothing else counts: not how long it had been overdue before
/// that run, nor how often it was looked at since.
pub proof fn lemma_due_when_interval_has_passed(job: Job, finished: u128, now: u128)
    requires
        finished <= now,
    ensures
        job.after_run(true, finished).due_at(now) <==> now - finished >= job.run_interval,
{
}

/// A run that failed leaves the job as due as it was, so that it is run
/// again at the next pass that finds it due.
pub proof fn lemma_failed_job_stays_due(job: Job, finished: u128, now: u128)
    ensures
        job.after_run(false, finished).due_at(now) == job.due_at(now),
{
}

} // verus!
