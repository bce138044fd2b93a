//! The decisions of the job-status synchronisation with the scheduler.
//!
//! The event that runs it walks the jobs not yet synced: each row is read
//! into a job, the job is routed to the scheduler, and a delivered job is
//! marked as synced. The walking, routing and marking are done by the
//! caller; this module decides what happens next at each step and what
//! the event reports in the end.

use vstd::prelude::*;

use crate::job::{row_readable, row_to_job, spec_row_to_job, Job, JobRow, JobView};

verus! {

/// What the synchronisation event reports: done, or to be run again.
#[derive(Clone, Copy, Debug, PartialEq, Eq, Structural)]
pub enum EventOutcome {
    Finished,
    Retry,
}

/// What to do with a row that is to be synced.
#[derive(Debug)]
pub enum SyncStep {
    /// Send this job's status to the scheduler.
    Route(Job),
    /// Stop the event here and report this outcome.
    Stop(EventOutcome),
}

/// The outcome after deliveries with the given results, from `start`:
/// a failed delivery asks for a retry, which nothing later undoes.
pub open spec fn outcome_after(start: EventOutcome, delivered: Seq<bool>) -> EventOutcome
    decreases delivered.len(),
{
    if delivered.len() == 0 {
        start
    } else if delivered.last() {
        outcome_after(start, delivered.drop_last())
    } else {
        EventOutcome::Retry
    }
}

/// The state of one run of the synchronisation event.
pub struct JobSync {
    outcome: EventOutcome,
}

impl JobSync {
    /// What the event reports if it ends now.
    pub closed spec fn spec_outcome(&self) -> EventOutcome {
        self.outcome
    }

    /// A run that has delivered nothing yet, and so would report
    /// `Finished`.
    pub fn new() -> (s: JobSync)
        ensures
            s.spec_outcome() == EventOutcome::Finished,
    {
        JobSync { outcome: EventOutcome::Finished }
    }

    /// What the event reports if it ends now.
    pub fn outcome(&self) -> (r: EventOutcome)
        ensures
            r == self.spec_outcome(),
    {
        self.outcome
    }

    /// The step for a row to sync: route its job, or stop with `Retry`
    /// where the row cannot be read as a job.
    pub fn on_row(&self, row: &JobRow) -> (step: SyncStep)
        requires
            row_readable(row@),
        ensures
            match spec_row_to_job(row@) {
                Ok(j) => (step matches SyncStep::Route(job) && job@ == j),
                Err(_) => step == SyncStep::Stop(EventOutcome::Retry),
            },
    {
        match row_to_job(row) {
            Ok(job) => SyncStep::Route(job),
            Err(_) => SyncStep::Stop(EventOutcome::Retry),
        }
    }

    /// Records whether the scheduler took a job's status. A delivered job
    /// is to be marked as synced under the returned id; a failed delivery
    /// leaves it unsynced and makes the event report `Retry`.
    pub fn on_routed(&mut self, job_id: u64, delivered: bool) -> (mark: Option<i64>)
        ensures
            final(self).spec_outcome() == outcome_after(old(self).spec_outcome(), seq![delivered]),
            delivered ==> mark == Some(job_id as i64),
            !delivered ==> mark is None,
    {
        assert(seq![delivered].drop_last() =~= Seq::<bool>::empty());
        assert(seq![delivered].last() == delivered);
        assert(outcome_after(self.outcome, Seq::<bool>::empty()) == self.outcome);
        if delivered {
            Some(crate::store::job_id_param(job_id))
        } else {
            self.outcome = EventOutcome::Retry;
            None
        }
    }
}

/// A run reports `Finished` exactly when every delivery so far succeeded,
/// and once it asks for a retry it keeps asking.
pub proof fn lemma_outcome_after(delivered: Seq<bool>, more: Seq<bool>)
    ensures
        outcome_after(EventOutcome::Finished, delivered) == EventOutcome::Finished <==> forall|i: int|
            0 <= i < delivered.len() ==> #[trigger] delivered[i],
        outcome_after(EventOutcome::Retry, delivered) == EventOutcome::Retry,
        outcome_after(EventOutcome::Finished, delivered + more) == outcome_after(
            outcome_after(EventOutcome::Finished, delivered),
            more,
        ),
    decreases delivered.len() + more.len(),
{
    if more.len() > 0 {
        assert((delivered + more).drop_last() =~= delivered + more.drop_last());
        lemma_outcome_after(delivered, more.drop_last());
    } else {
        assert(delivered + more =~= delivered);
    }
    if delivered.len() > 0 {
        lemma_outcome_after(delivered.drop_last(), Seq::empty());
        if outcome_after(EventOutcome::Finished, delivered) == EventOutcome::Finished {
            assert forall|i: int| 0 <= i < delivered.len() implies #[trigger] delivered[i] by {
                if i < delivered.len() - 1 {
                    assert(delivered.drop_last()[i] == delivered[i]);
                }
            }
        } else if forall|i: int| 0 <= i < delivered.len() ==> #[trigger] delivered[i] {
            assert(delivered[delivered.len() - 1]);
            assert forall|i: int| 0 <= i < delivered.len() - 1 implies #[trigger] delivered.drop_last()[i] by {
                assert(delivered[i]);
            }
        }
    }
}

} // verus!
