//! The job registry and the operations that the boundary layer calls.
//!
//! The registry holds every job once, under its identifier, in the order of
//! submission. It is the only place where a job is created, changed or
//! removed. An identifier is used once: the registry keeps the identifiers
//! of the jobs that were removed, and registers no job under one of them.
//! It is a plain value: whoever shares it between tasks puts it behind a
//! lock, and every operation here is then one step under that lock.

use vstd::prelude::*;
use vstd::string::*;
use crate::job::{advanced, event_info, JobEvent, SyncProgress};
use crate::joblog::unix_now;
use crate::models::{ApiResponse, SyncRequest};
use crate::strings::str_eq;

verus! {

/// The jobs, oldest first, and the identifiers of the jobs that are gone.
pub struct SyncJobs {
    jobs: Vec<SyncProgress>,
    retired: Vec<String>,
}

/// How a request to delete a job ended.
#[derive(Debug)]
pub enum DeleteOutcome {
    /// The job is gone; its log, at this path, is to be erased.
    Deleted(String),
    /// The job has not ended and stays.
    Rejected,
    /// There is no such job.
    NotFound,
}

/// The index of the job `id` in `jobs`.
pub open spec fn position(jobs: Seq<SyncProgress>, id: Seq<char>) -> Option<int>
    decreases jobs.len(),
{
    if jobs.len() == 0 {
        None
    } else if jobs.last().id@ == id {
        Some(jobs.len() - 1)
    } else {
        position(jobs.drop_last(), id)
    }
}

/// The job `id` of `jobs`.
pub open spec fn lookup(jobs: Seq<SyncProgress>, id: Seq<char>) -> Option<SyncProgress> {
    match position(jobs, id) {
        Some(i) => Some(jobs[i]),
        None => None,
    }
}

/// No two of `jobs` have the same identifier.
pub open spec fn distinct(jobs: Seq<SyncProgress>) -> bool {
    forall|i: int, j: int| 0 <= i < j < jobs.len() ==> jobs[i].id@ != jobs[j].id@
}

/// Every one of `jobs` is well formed, and no identifier occurs twice.
pub open spec fn all_wf(jobs: Seq<SyncProgress>) -> bool {
    &&& distinct(jobs)
    &&& forall|i: int| 0 <= i < jobs.len() ==> (#[trigger] jobs[i]).wf()
}

/// `jobs` without the job `id`.
pub open spec fn without(jobs: Seq<SyncProgress>, id: Seq<char>) -> Seq<SyncProgress> {
    match position(jobs, id) {
        Some(i) => jobs.remove(i),
        None => jobs,
    }
}

/// `jobs` after the event `event` of the job `id`, where `info` is what the
/// event's output says; unchanged where there is no such job.
pub open spec fn updated(
    jobs: Seq<SyncProgress>,
    id: Seq<char>,
    event: JobEvent,
    now: i64,
) -> Seq<SyncProgress> {
    match position(jobs, id) {
        Some(i) => jobs.update(i, advanced(jobs[i], event, event_info(event), now)),
        None => jobs,
    }
}

/// The characters of each of `texts`.
pub open spec fn views(texts: Seq<String>) -> Seq<Seq<char>> {
    Seq::new(texts.len(), |i: int| texts[i]@)
}

/// The length of the longest identifier of `jobs`.
pub open spec fn longest_id(jobs: Seq<SyncProgress>) -> nat
    decreases jobs.len(),
{
    if jobs.len() == 0 {
        0
    } else if jobs.last().id@.len() > longest_id(jobs.drop_last()) {
        jobs.last().id@.len()
    } else {
        longest_id(jobs.drop_last())
    }
}

/// The length of the longest of `texts`.
pub open spec fn longest_text(texts: Seq<Seq<char>>) -> nat
    decreases texts.len(),
{
    if texts.len() == 0 {
        0
    } else if texts.last().len() > longest_text(texts.drop_last()) {
        texts.last().len()
    } else {
        longest_text(texts.drop_last())
    }
}

/// The form of an identifier as it is drawn: thirty-two lower-case
/// hexadecimal digits in five groups, with a hyphen between the groups.
pub open spec fn is_job_id(id: Seq<char>) -> bool {
    &&& id.len() == 36
    &&& forall|i: int|
        0 <= i < 36 ==> if i == 8 || i == 13 || i == 18 || i == 23 {
            id[i] == '-'
        } else {
            ('0' <= #[trigger] id[i] && id[i] <= '9') || ('a' <= id[i] && id[i] <= 'f')
        }
}

/// The form of an identifier as it is given out: one as it is drawn, with
/// zeros behind it where the drawn one was in use.
pub open spec fn is_issued_id(id: Seq<char>) -> bool {
    &&& id.len() >= 36
    &&& is_job_id(id.take(36))
    &&& forall|i: int| 36 <= i < id.len() ==> id[i] == '0'
}

/// Calls `uuid::Uuid::new_v4` and writes the identifier out through its
/// `Display`. The identifier is random; the contract claims its form only.
#[verifier::external_body]
pub(crate) fn new_job_id() -> (id: String)
    ensures
        is_job_id(id@),
{
    uuid::Uuid::new_v4().to_string()
}

/// What `position` finds is the job of that identifier, and the only one
/// where no identifier occurs twice; where it finds none, there is none.
pub proof fn lemma_position(jobs: Seq<SyncProgress>, id: Seq<char>)
    ensures
        match position(jobs, id) {
            Some(i) => 0 <= i < jobs.len() && jobs[i].id@ == id && forall|j: int|
                i < j < jobs.len() ==> jobs[j].id@ != id,
            None => forall|j: int| 0 <= j < jobs.len() ==> jobs[j].id@ != id,
        },
    decreases jobs.len(),
{
    if jobs.len() == 0 {
    } else if jobs.last().id@ == id {
    } else {
        lemma_position(jobs.drop_last(), id);
        assert forall|j: int| 0 <= j < jobs.len() - 1 implies jobs.drop_last()[j] == jobs[j] by {}
    }
}

/// Where the job at index `i` has the identifier `id` and no identifier
/// occurs twice, `position` finds `i`.
pub proof fn lemma_position_unique(jobs: Seq<SyncProgress>, id: Seq<char>, i: int)
    requires
        distinct(jobs),
        0 <= i < jobs.len(),
        jobs[i].id@ == id,
    ensures
        position(jobs, id) == Some(i),
{
    lemma_position(jobs, id);
}

/// Without the job `id`, a registry is still well formed and holds no job
/// `id`; every other job is found as before.
pub proof fn lemma_without(jobs: Seq<SyncProgress>, id: Seq<char>, other: Seq<char>)
    requires
        all_wf(jobs),
    ensures
        all_wf(without(jobs, id)),
        position(without(jobs, id), id) is None,
        other != id ==> lookup(without(jobs, id), other) == lookup(jobs, other),
        without(jobs, id).len() == if position(jobs, id) is Some {
            jobs.len() - 1
        } else {
            jobs.len() as int
        },
{
    lemma_position(jobs, id);
    lemma_position(jobs, other);
    let rest = without(jobs, id);
    match position(jobs, id) {
        Some(i) => {
            assert forall|a: int| 0 <= a < rest.len() implies rest[a] == jobs[if a < i {
                a
            } else {
                a + 1
            }] by {}
            assert(distinct(rest));
            lemma_position(rest, id);
            if position(rest, id) is Some {
                let k = position(rest, id)->0;
                let k2 = if k < i {
                    k
                } else {
                    k + 1
                };
                assert(jobs[k2].id@ == id);
                assert(false);
            }
            if other != id {
                match position(jobs, other) {
                    Some(o) => {
                        let o2 = if o < i {
                            o
                        } else {
                            o - 1
                        };
                        assert(rest[o2] == jobs[o]);
                        lemma_position_unique(rest, other, o2);
                    },
                    None => {
                        lemma_position(rest, other);
                        if position(rest, other) is Some {
                            let k = position(rest, other)->0;
                            let k2 = if k < i {
                                k
                            } else {
                                k + 1
                            };
                            assert(jobs[k2].id@ == other);
                            assert(false);
                        }
                    },
                }
            }
        },
        None => {},
    }
}

/// After a job has been registered under a new identifier, the registry is
/// well formed, the job is found under its identifier, and every other job
/// is found as before.
pub proof fn lemma_pushed(jobs: Seq<SyncProgress>, job: SyncProgress, other: Seq<char>)
    requires
        all_wf(jobs),
        job.wf(),
        lookup(jobs, job.id@) is None,
    ensures
        all_wf(jobs.push(job)),
        lookup(jobs.push(job), job.id@) == Some(job),
        other != job.id@ ==> lookup(jobs.push(job), other) == lookup(jobs, other),
{
    lemma_position(jobs, job.id@);
    let all = jobs.push(job);
    assert(all.drop_last() =~= jobs);
    assert(all.last() == job);
    assert forall|i: int| 0 <= i < all.len() implies (#[trigger] all[i]).wf() by {
        if i < jobs.len() {
            assert(all[i] == jobs[i]);
        }
    }
    assert(distinct(all)) by {
        assert forall|i: int, j: int| 0 <= i < j < all.len() implies all[i].id@ != all[j].id@ by {
            assert(all[i] == jobs[i]);
            if j < jobs.len() {
                assert(all[j] == jobs[j]);
            }
        }
    }
    if other != job.id@ {
        assert(position(all, other) == position(jobs, other));
        lemma_position(jobs, other);
    }
}

/// No job has an identifier longer than the longest.
pub proof fn lemma_longest_id(jobs: Seq<SyncProgress>, i: int)
    requires
        0 <= i < jobs.len(),
    ensures
        jobs[i].id@.len() <= longest_id(jobs),
    decreases jobs.len(),
{
    if i < jobs.len() - 1 {
        lemma_longest_id(jobs.drop_last(), i);
    }
}

/// No text is longer than the longest.
pub proof fn lemma_longest_text(texts: Seq<Seq<char>>, i: int)
    requires
        0 <= i < texts.len(),
    ensures
        texts[i].len() <= longest_text(texts),
    decreases texts.len(),
{
    if i < texts.len() - 1 {
        lemma_longest_text(texts.drop_last(), i);
    }
}

/// After an event, the registry is well formed and as long as before, the
/// job of the event is what the event makes of it, and every other job is
/// found as before.
pub proof fn lemma_updated(
    jobs: Seq<SyncProgress>,
    id: Seq<char>,
    event: JobEvent,
    now: i64,
    other: Seq<char>,
)
    requires
        all_wf(jobs),
    ensures
        all_wf(updated(jobs, id, event, now)),
        updated(jobs, id, event, now).len() == jobs.len(),
        lookup(updated(jobs, id, event, now), id) == match lookup(jobs, id) {
            Some(job) => Some(advanced(job, event, event_info(event), now)),
            None => None,
        },
        other != id ==> lookup(updated(jobs, id, event, now), other) == lookup(jobs, other),
{
    lemma_position(jobs, id);
    lemma_position(jobs, other);
    let next = updated(jobs, id, event, now);
    match position(jobs, id) {
        Some(i) => {
            let job = advanced(jobs[i], event, event_info(event), now);
            crate::job::lemma_advance_keeps(jobs[i], event, event_info(event), now);
            assert forall|a: int| 0 <= a < next.len() implies (#[trigger] next[a]).wf() && next[a].id
                == jobs[a].id by {
                if a != i {
                    assert(next[a] == jobs[a]);
                }
            }
            assert(distinct(next));
            lemma_position_unique(next, id, i);
            if other != id {
                lemma_position(next, other);
                match position(jobs, other) {
                    Some(o) => {
                        lemma_position_unique(next, other, o);
                    },
                    None => {
                        if position(next, other) is Some {
                            let k = position(next, other)->0;
                            assert(jobs[k].id@ == other);
                            assert(false);
                        }
                    },
                }
            }
        },
        None => {},
    }
}

impl View for SyncJobs {
    type V = Seq<SyncProgress>;

    /// The jobs, oldest first.
    closed spec fn view(&self) -> Seq<SyncProgress> {
        self.jobs@
    }
}

impl SyncJobs {
    /// The identifiers of the jobs that were removed, in the order of their
    /// removal.
    pub closed spec fn retired(&self) -> Seq<Seq<char>> {
        views(self.retired@)
    }

    /// A job is or was registered under `id`.
    pub open spec fn knows(&self, id: Seq<char>) -> bool {
        lookup(self@, id) is Some || self.retired().contains(id)
    }

    /// What holds of every registry: no identifier occurs twice, every job
    /// is well formed, and no job has the identifier of a job that was
    /// removed.
    pub open spec fn wf(&self) -> bool {
        &&& all_wf(self@)
        &&& forall|i: int|
            0 <= i < self.retired().len() ==> lookup(self@, #[trigger] self.retired()[i]) is None
    }

    /// A registry without jobs.
    pub fn new() -> (r: SyncJobs)
        ensures
            r@.len() == 0,
            r.retired().len() == 0,
            r.wf(),
    {
        SyncJobs { jobs: Vec::new(), retired: Vec::new() }
    }

    /// The number of jobs.
    pub fn len(&self) -> (n: usize)
        ensures
            n == self@.len(),
    {
        self.jobs.len()
    }

    fn index_of(&self, id: &str) -> (r: Option<usize>)
        ensures
            match r {
                Some(i) => position(self@, id@) == Some(i as int) && i < self@.len(),
                None => position(self@, id@) is None,
            },
    {
        let mut i: usize = self.jobs.len();
        assert(self.jobs@.take(i as int) =~= self.jobs@);
        while i > 0
            invariant
                i <= self.jobs@.len(),
                position(self.jobs@, id@) == position(self.jobs@.take(i as int), id@),
            decreases i,
        {
            proof {
                let t = self.jobs@.take(i as int);
                assert(t.last() == self.jobs@[i - 1]);
                assert(t.drop_last() =~= self.jobs@.take(i - 1));
            }
            if str_eq(self.jobs[i - 1].id.as_str(), id) {
                return Some(i - 1);
            }
            i = i - 1;
        }
        None
    }

    fn is_retired(&self, id: &str) -> (r: bool)
        ensures
            r == self.retired().contains(id@),
    {
        let mut i: usize = 0;
        while i < self.retired.len()
            invariant
                i <= self.retired@.len(),
                forall|k: int| 0 <= k < i ==> self.retired()[k] != id@,
            decreases self.retired@.len() - i,
        {
            if str_eq(self.retired[i].as_str(), id) {
                assert(self.retired()[i as int] == id@);
                return true;
            }
            i = i + 1;
        }
        false
    }

    /// Whether a job is or was registered under `id`.
    pub fn has_seen(&self, id: &str) -> (r: bool)
        ensures
            r == self.knows(id@),
    {
        self.index_of(id).is_some() || self.is_retired(id)
    }

    /// Registers `job` as the newest, unless a job is or was registered
    /// under its identifier. Says whether the job was registered; where it
    /// was not, nothing changes.
    pub fn insert(&mut self, job: SyncProgress) -> (registered: bool)
        requires
            old(self).wf(),
            job.wf(),
        ensures
            final(self).wf(),
            registered == !old(self).knows(job.id@),
            final(self).retired() == old(self).retired(),
            final(self)@ == if registered {
                old(self)@.push(job)
            } else {
                old(self)@
            },
            registered ==> lookup(final(self)@, job.id@) == Some(job),
    {
        if self.has_seen(job.id.as_str()) {
            return false;
        }
        proof {
            lemma_pushed(self@, job, job.id@);
            assert forall|i: int| 0 <= i < self.retired().len() implies lookup(
                self@.push(job),
                #[trigger] self.retired()[i],
            ) is None by {
                assert(self.retired().contains(self.retired()[i]));
                lemma_pushed(self@, job, self.retired()[i]);
            }
        }
        self.jobs.push(job);
        true
    }

    /// The job `id`.
    pub fn get(&self, id: &str) -> (r: Option<&SyncProgress>)
        ensures
            match r {
                Some(job) => lookup(self@, id@) == Some(*job),
                None => lookup(self@, id@) is None,
            },
    {
        match self.index_of(id) {
            Some(i) => Some(&self.jobs[i]),
            None => None,
        }
    }

    /// Applies the event `event` of the job `id` at the time `now`, as one
    /// step. Says whether there is such a job; without one, nothing changes.
    pub fn update(&mut self, id: &str, event: &JobEvent, now: i64) -> (found: bool)
        requires
            old(self).wf(),
        ensures
            final(self).wf(),
            found == (lookup(old(self)@, id@) is Some),
            final(self)@ == updated(old(self)@, id@, *event, now),
            final(self).retired() == old(self).retired(),
    {
        proof {
            lemma_updated(self@, id@, *event, now, id@);
            assert forall|i: int| 0 <= i < self.retired().len() implies lookup(
                updated(self@, id@, *event, now),
                #[trigger] self.retired()[i],
            ) is None by {
                lemma_updated(self@, id@, *event, now, self.retired()[i]);
            }
        }
        match self.index_of(id) {
            Some(i) => {
                let mut job = self.jobs.remove(i);
                job.advance(event, now);
                self.jobs.insert(i, job);
                assert(self.jobs@ =~= updated(old(self)@, id@, *event, now));
                true
            },
            None => false,
        }
    }

    /// A copy of every job, newest first.
    pub fn list(&self) -> (r: Vec<SyncProgress>)
        ensures
            r@ == self@.reverse(),
    {
        let mut out: Vec<SyncProgress> = Vec::new();
        let mut i: usize = self.jobs.len();
        while i > 0
            invariant
                i <= self.jobs@.len(),
                out@.len() == self.jobs@.len() - i,
                forall|k: int|
                    0 <= k < out@.len() ==> out@[k] == self.jobs@[self.jobs@.len() - 1 - k],
            decreases i,
        {
            out.push(self.jobs[i - 1].snapshot());
            i = i - 1;
        }
        proof {
            assert(out@ =~= self.jobs@.reverse());
        }
        out
    }

    /// Removes the job `id`, and keeps its identifier out of use. Says
    /// whether there was such a job.
    pub fn remove(&mut self, id: &str) -> (found: bool)
        requires
            old(self).wf(),
        ensures
            final(self).wf(),
            found == (lookup(old(self)@, id@) is Some),
            final(self)@ == without(old(self)@, id@),
            final(self).retired() == if found {
                old(self).retired().push(id@)
            } else {
                old(self).retired()
            },
            lookup(final(self)@, id@) is None,
    {
        proof {
            lemma_without(self@, id@, id@);
        }
        match self.index_of(id) {
            Some(i) => {
                let job = self.jobs.remove(i);
                proof {
                    lemma_position(old(self)@, id@);
                    assert(job.id@ == id@);
                }
                self.retired.push(job.id);
                proof {
                    assert(self.retired() =~= old(self).retired().push(id@));
                    assert forall|k: int| 0 <= k < self.retired().len() implies lookup(
                        self@,
                        #[trigger] self.retired()[k],
                    ) is None by {
                        if k < old(self).retired().len() {
                            assert(self.retired()[k] == old(self).retired()[k]);
                            lemma_without(old(self)@, id@, self.retired()[k]);
                        }
                    }
                }
                true
            },
            None => false,
        }
    }

    /// Registers a pending job `id` for `request`, submitted at `now`,
    /// unless a job is or was registered under `id`. Says whether the job
    /// was registered; where it was not, nothing changes.
    pub fn submit(&mut self, id: String, request: &SyncRequest, now: i64) -> (registered: bool)
        requires
            old(self).wf(),
        ensures
            final(self).wf(),
            registered == !old(self).knows(id@),
            final(self).retired() == old(self).retired(),
            !registered ==> final(self)@ == old(self)@,
            registered ==> {
                &&& lookup(final(self)@, id@) is Some
                &&& SyncProgress::submitted(
                    id,
                    request.source_path@,
                    now,
                    lookup(final(self)@, id@)->0,
                )
                &&& final(self)@ == old(self)@.push(lookup(final(self)@, id@)->0)
            },
    {
        let job = SyncProgress::new(id, request, now);
        self.insert(job)
    }

    /// The length of the longest identifier that the registry knows.
    pub closed spec fn longest_known(&self) -> nat {
        if longest_id(self@) > longest_text(self.retired()) {
            longest_id(self@)
        } else {
            longest_text(self.retired())
        }
    }

    /// No identifier that the registry knows is longer than the longest.
    pub proof fn lemma_known_is_bounded(&self, id: Seq<char>)
        requires
            self.knows(id),
        ensures
            id.len() <= self.longest_known(),
    {
        if lookup(self@, id) is Some {
            lemma_position(self@, id);
            lemma_longest_id(self@, position(self@, id)->0);
        } else {
            let i = choose|i: int| 0 <= i < self.retired().len() && self.retired()[i] == id;
            lemma_longest_text(self.retired(), i);
        }
    }

    /// Accepts `request`: registers a pending job under an identifier that
    /// was never in use, with the time of the clock, and gives the
    /// identifier. Every job that was there stays as it is.
    pub fn start_sync(&mut self, request: &SyncRequest) -> (id: String)
        requires
            old(self).wf(),
        ensures
            final(self).wf(),
            is_issued_id(id@),
            !old(self).knows(id@),
            final(self).retired() == old(self).retired(),
            lookup(final(self)@, id@) is Some,
            SyncProgress::submitted(
                id,
                request.source_path@,
                lookup(final(self)@, id@)->0.start_time,
                lookup(final(self)@, id@)->0,
            ),
            final(self)@ == old(self)@.push(lookup(final(self)@, id@)->0),
    {
        let mut id = new_job_id();
        proof {
            assert(id@.take(36) =~= id@);
        }
        while self.has_seen(id.as_str())
            invariant
                *self == *old(self),
                is_issued_id(id@),
            decreases self.longest_known() + 1 - id@.len(),
        {
            proof {
                self.lemma_known_is_bounded(id@);
                reveal_strlit("0");
            }
            let ghost before = id@;
            id.append("0");
            proof {
                assert(id@ =~= before.push('0'));
                assert(id@.take(36) =~= before.take(36));
            }
        }
        let now = unix_now();
        let registered = self.submit(id.clone(), request, now);
        assert(registered);
        id
    }

    /// The state of the job `id`, or the error `Job not found`.
    pub fn get_sync_progress(&self, id: &str) -> (r: ApiResponse<SyncProgress>)
        ensures
            r.success == (lookup(self@, id@) is Some),
            r.data == lookup(self@, id@),
            r.success ==> r.error is None,
            !r.success ==> r.error is Some && r.error->0@ == "Job not found"@,
    {
        match self.get(id) {
            Some(job) => ApiResponse::success(job.snapshot()),
            None => ApiResponse::error("Job not found"),
        }
    }

    /// The state of every job, newest first.
    pub fn list_sync_jobs(&self) -> (r: ApiResponse<Vec<SyncProgress>>)
        ensures
            r.success,
            r.error is None,
            r.data is Some,
            r.data->0@ == self@.reverse(),
    {
        ApiResponse::success(self.list())
    }

    /// The path of the log of the job `id`; `None` where there is no such
    /// job.
    pub fn get_sync_log(&self, id: &str) -> (r: Option<String>)
        ensures
            match r {
                Some(path) => lookup(self@, id@) is Some && path == lookup(self@, id@)->0.log_path,
                None => lookup(self@, id@) is None,
            },
    {
        match self.get(id) {
            Some(job) => Some(job.log_path.clone()),
            None => None,
        }
    }

    /// Deletes the job `id` where it has ended, keeps its identifier out of
    /// use, and gives the path of its log. A job that has not ended stays,
    /// and so does everything else.
    pub fn delete_sync_job(&mut self, id: &str) -> (r: DeleteOutcome)
        requires
            old(self).wf(),
        ensures
            final(self).wf(),
            match lookup(old(self)@, id@) {
                None => r is NotFound && final(self)@ == old(self)@ && final(self).retired() == old(
                    self,
                ).retired(),
                Some(job) => if job.status.is_terminal() {
                    &&& r is Deleted
                    &&& r->Deleted_0 == job.log_path
                    &&& final(self)@ == without(old(self)@, id@)
                    &&& final(self).retired() == old(self).retired().push(id@)
                    &&& lookup(final(self)@, id@) is None
                } else {
                    &&& r is Rejected
                    &&& final(self)@ == old(self)@
                    &&& final(self).retired() == old(self).retired()
                },
            },
    {
        let found = match self.get(id) {
            Some(job) => Some((job.status.terminal(), job.log_path.clone())),
            None => None,
        };
        match found {
            None => DeleteOutcome::NotFound,
            Some((ended, path)) => {
                if ended {
                    self.remove(id);
                    DeleteOutcome::Deleted(path)
                } else {
                    DeleteOutcome::Rejected
                }
            },
        }
    }
}

} // verus!
