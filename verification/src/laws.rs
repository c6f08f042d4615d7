//! What holds of the registry over several operations.
//!
//! A registry is told here by its jobs and by the identifiers of the jobs
//! that were removed. The operations on it are three: a job is registered
//! under an identifier that was never in use, an event of a job is applied,
//! a job is removed.

use vstd::prelude::*;
use crate::job::{event_info, lemma_advance_monotonic, JobEvent, SyncProgress};
use crate::registry::{
    all_wf, lemma_position, lemma_position_unique, lemma_pushed, lemma_updated, lemma_without,
    lookup, updated, without,
};

verus! {

/// A job is or was registered under `id`.
pub open spec fn known(jobs: Seq<SyncProgress>, retired: Seq<Seq<char>>, id: Seq<char>) -> bool {
    lookup(jobs, id) is Some || retired.contains(id)
}

/// No job has the identifier of a job that was removed.
pub open spec fn apart(jobs: Seq<SyncProgress>, retired: Seq<Seq<char>>) -> bool {
    forall|i: int| 0 <= i < retired.len() ==> lookup(jobs, #[trigger] retired[i]) is None
}

/// One operation has led from the first registry to the second.
pub open spec fn step(
    jobs: Seq<SyncProgress>,
    retired: Seq<Seq<char>>,
    next_jobs: Seq<SyncProgress>,
    next_retired: Seq<Seq<char>>,
) -> bool {
    ||| exists|job: SyncProgress|
        job.wf() && !known(jobs, retired, job.id@) && next_jobs == jobs.push(job) && next_retired
            == retired
    ||| exists|id: Seq<char>, event: JobEvent, now: i64|
        next_jobs == updated(jobs, id, event, now) && next_retired == retired
    ||| exists|id: Seq<char>|
        lookup(jobs, id) is Some && next_jobs == without(jobs, id) && next_retired == retired.push(
            id,
        )
}

/// A job that has just been registered is found under its identifier, and it
/// is pending: a submission is never answered with an identifier that is not
/// found.
pub proof fn lemma_submitted_is_found(jobs: Seq<SyncProgress>, job: SyncProgress)
    requires
        all_wf(jobs),
        job.wf(),
        job.status is Pending,
        lookup(jobs, job.id@) is None,
    ensures
        lookup(jobs.push(job), job.id@) is Some,
        lookup(jobs.push(job), job.id@)->0.status is Pending,
{
    lemma_pushed(jobs, job, job.id@);
}

/// No event takes any job of the registry back. After an event, every job
/// that was there is still there, its rank has not fallen, and a job that
/// had ended is what it was.
pub proof fn lemma_status_monotonic(
    jobs: Seq<SyncProgress>,
    id: Seq<char>,
    event: JobEvent,
    now: i64,
    observed: Seq<char>,
)
    requires
        all_wf(jobs),
        lookup(jobs, observed) is Some,
    ensures
        lookup(updated(jobs, id, event, now), observed) is Some,
        lookup(jobs, observed)->0.status.rank() <= lookup(
            updated(jobs, id, event, now),
            observed,
        )->0.status.rank(),
        lookup(jobs, observed)->0.status.is_terminal() ==> lookup(
            updated(jobs, id, event, now),
            observed,
        ) == lookup(jobs, observed),
{
    lemma_updated(jobs, id, event, now, observed);
    if observed == id {
        let job = lookup(jobs, id)->0;
        lemma_advance_monotonic(job, event, event_info(event), now);
    }
}

/// No operation takes a job back, and none brings an identifier back into
/// use. After any operation the registry is well formed; a job that was
/// there is gone or has a rank no lower, and is what it was where it had
/// ended; and under an identifier that was known and without a job, there
/// is no job.
pub proof fn lemma_step(
    jobs: Seq<SyncProgress>,
    retired: Seq<Seq<char>>,
    next_jobs: Seq<SyncProgress>,
    next_retired: Seq<Seq<char>>,
    observed: Seq<char>,
)
    requires
        all_wf(jobs),
        apart(jobs, retired),
        step(jobs, retired, next_jobs, next_retired),
    ensures
        all_wf(next_jobs),
        apart(next_jobs, next_retired),
        known(jobs, retired, observed) ==> known(next_jobs, next_retired, observed),
        known(jobs, retired, observed) && lookup(jobs, observed) is None ==> lookup(
            next_jobs,
            observed,
        ) is None,
        lookup(jobs, observed) is Some && lookup(next_jobs, observed) is Some ==> {
            &&& lookup(jobs, observed)->0.status.rank() <= lookup(
                next_jobs,
                observed,
            )->0.status.rank()
            &&& lookup(jobs, observed)->0.status.is_terminal() ==> lookup(next_jobs, observed)
                == lookup(jobs, observed)
        },
{
    if exists|job: SyncProgress|
        job.wf() && !known(jobs, retired, job.id@) && next_jobs == jobs.push(job) && next_retired
            == retired {
        let job = choose|job: SyncProgress|
            job.wf() && !known(jobs, retired, job.id@) && next_jobs == jobs.push(job)
                && next_retired == retired;
        lemma_pushed(jobs, job, observed);
        assert forall|i: int| 0 <= i < retired.len() implies lookup(
            next_jobs,
            #[trigger] retired[i],
        ) is None by {
            assert(retired.contains(retired[i]));
            lemma_pushed(jobs, job, retired[i]);
        }
    } else if exists|id: Seq<char>, event: JobEvent, now: i64|
        next_jobs == updated(jobs, id, event, now) && next_retired == retired {
        let (id, event, now) = choose|id: Seq<char>, event: JobEvent, now: i64|
            next_jobs == updated(jobs, id, event, now) && next_retired == retired;
        lemma_updated(jobs, id, event, now, observed);
        if lookup(jobs, observed) is Some {
            lemma_status_monotonic(jobs, id, event, now, observed);
        }
        assert forall|i: int| 0 <= i < retired.len() implies lookup(
            next_jobs,
            #[trigger] retired[i],
        ) is None by {
            lemma_updated(jobs, id, event, now, retired[i]);
        }
    } else {
        let id = choose|id: Seq<char>|
            lookup(jobs, id) is Some && next_jobs == without(jobs, id) && next_retired
                == retired.push(id);
        lemma_without(jobs, id, observed);
        assert forall|i: int| 0 <= i < next_retired.len() implies lookup(
            next_jobs,
            #[trigger] next_retired[i],
        ) is None by {
            if i < retired.len() {
                assert(next_retired[i] == retired[i]);
                lemma_without(jobs, id, retired[i]);
            } else {
                assert(next_retired[i] == id);
                lemma_without(jobs, id, id);
            }
        }
        if retired.contains(observed) {
            let k = choose|k: int| 0 <= k < retired.len() && retired[k] == observed;
            assert(next_retired[k] == observed);
        }
        if observed == id {
            assert(next_retired[retired.len() as int] == id);
        }
    }
}

/// A job that has been deleted is found no more, neither under its
/// identifier nor in the list; the registry is one job shorter, and every
/// other job is found as before.
pub proof fn lemma_deleted_is_gone(jobs: Seq<SyncProgress>, id: Seq<char>, other: Seq<char>)
    requires
        all_wf(jobs),
        lookup(jobs, id) is Some,
    ensures
        lookup(without(jobs, id), id) is None,
        forall|k: int|
            0 <= k < without(jobs, id).reverse().len() ==> (#[trigger] without(
                jobs,
                id,
            ).reverse()[k]).id@ != id,
        without(jobs, id).len() == jobs.len() - 1,
        other != id ==> lookup(without(jobs, id), other) == lookup(jobs, other),
{
    lemma_without(jobs, id, other);
    let rest = without(jobs, id);
    lemma_position(rest, id);
    assert forall|k: int| 0 <= k < rest.reverse().len() implies (#[trigger] rest.reverse()[k]).id@
        != id by {
        assert(rest.reverse()[k] == rest[rest.len() - 1 - k]);
    }
}

/// `states` is a run of submissions: each registry of it but the first is
/// the one before it with one job more, under an identifier that the one
/// before it did not hold.
pub open spec fn is_run(states: Seq<Seq<SyncProgress>>) -> bool {
    forall|k: int|
        0 <= k < states.len() - 1 ==> #[trigger] states[k + 1].len() == states[k].len() + 1
            && states[k + 1].drop_last() == states[k] && states[k + 1].last().wf() && lookup(
            states[k],
            states[k + 1].last().id@,
        ) is None
}

/// N submissions make N jobs more, whatever the order in which they were
/// taken: after a run of N submissions the registry is well formed and N
/// jobs longer, every job that was there is found as it was, and each of the
/// N is found under its own identifier, which none of the others has.
pub proof fn lemma_distinct_submissions(states: Seq<Seq<SyncProgress>>)
    requires
        states.len() >= 1,
        all_wf(states[0]),
        is_run(states),
    ensures
        all_wf(states.last()),
        states.last().len() == states[0].len() + states.len() - 1,
        forall|i: int|
            0 <= i < states.last().len() ==> lookup(states.last(), (#[trigger] states.last()[i]).id@)
                == Some(states.last()[i]),
        forall|j: int|
            0 <= j < states[0].len() ==> states.last()[j] == (#[trigger] states[0][j]),
    decreases states.len(),
{
    let last = states.last();
    if states.len() == 1 {
    } else {
        let front = states.drop_last();
        assert(is_run(front)) by {
            assert forall|k: int| 0 <= k < front.len() - 1 implies #[trigger] front[k + 1].len()
                == front[k].len() + 1 && front[k + 1].drop_last() == front[k] && front[k
                + 1].last().wf() && lookup(front[k], front[k + 1].last().id@) is None by {
                assert(front[k + 1] == states[k + 1]);
                assert(front[k] == states[k]);
            }
        }
        assert(front[0] == states[0]);
        lemma_distinct_submissions(front);
        let k = states.len() - 2;
        assert(states[k + 1].drop_last() == states[k]);
        assert(front.last() == states[k]);
        let before = states[k];
        let job = last.last();
        assert(last =~= before.push(job));
        lemma_pushed(before, job, job.id@);
        assert forall|j: int| 0 <= j < states[0].len() implies last[j] == (#[trigger] states[0][j]) by {
            assert(before[j] == states[0][j]);
        }
    }
    assert forall|i: int| 0 <= i < last.len() implies lookup(last, (#[trigger] last[i]).id@)
        == Some(last[i]) by {
        lemma_position_unique(last, last[i].id@, i);
    }
}

} // verus!
