//! Background job registration, run once per boot (fresh start or restore).
//! Unconditional jobs are always registered; a job whose precondition is
//! already satisfied — there is nothing queued for it to work on — is skipped
//! and re-registered later by the job that feeds it.

use vstd::prelude::*;
use crate::types::ProposalId;

verus! {

/// State read by the scheduler: the work queues that decide which deferred
/// jobs still have something to do.
pub struct RuntimeState {
    pub queued_proposals: Vec<ProposalId>,
    pub finished_proposals: Vec<ProposalId>,
    pub active_proposals: Vec<ProposalId>,
}

/// Which jobs one boot registers. Each registered job drives its work through
/// the same prepare / perform / commit discipline as an inbound message.
pub struct StartedJobs {
    pub check_for_nervous_system_updates: bool,
    pub push_proposals: bool,
    pub retrieve_proposals: bool,
    pub update_finished_proposals: bool,
    pub update_proposals: bool,
}

/// Registers the periodic jobs: the two polling jobs always run; the three
/// queue-driven jobs are registered exactly when their queue is non-empty.
pub fn start(state: &RuntimeState) -> (jobs: StartedJobs)
    ensures
        jobs.check_for_nervous_system_updates,
        jobs.retrieve_proposals,
        jobs.push_proposals == (state.queued_proposals@.len() > 0),
        jobs.update_finished_proposals == (state.finished_proposals@.len() > 0),
        jobs.update_proposals == (state.active_proposals@.len() > 0),
{
    StartedJobs {
        check_for_nervous_system_updates: true,
        push_proposals: state.queued_proposals.len() > 0,
        retrieve_proposals: true,
        update_finished_proposals: state.finished_proposals.len() > 0,
        update_proposals: state.active_proposals.len() > 0,
    }
}

} // verus!
