//! Runtime state of one group actor: the environment of the message being
//! processed, the aggregate data (participant registry plus event log), and the
//! best-effort activity notification hook.

use vstd::prelude::*;
use crate::event_log::EventLog;
use crate::participants::Participants;
use crate::types::{Principal, TimestampMillis};

verus! {

/// Per-message environment: who sent the inbound message and the actor's
/// current clock. The host rebuilds it for every handler invocation.
pub struct Env {
    pub caller: Principal,
    pub now: TimestampMillis,
}

/// The aggregate data owned by one group actor.
pub struct Data {
    pub name: String,
    pub is_public: bool,
    pub participants: Participants,
    pub events: EventLog,
    /// Timestamp of the last best-effort activity notification. Updating it
    /// never fails and never rolls a commit back.
    pub latest_activity_notification: TimestampMillis,
}

pub struct RuntimeState {
    pub env: Env,
    pub data: Data,
}

impl RuntimeState {
    pub open spec fn wf(&self) -> bool {
        self.data.participants.wf() && self.data.events.wf()
    }
}

/// Best-effort hook run after a successful commit to tell observers that the
/// aggregate changed. It touches nothing but the notification timestamp.
pub fn handle_activity_notification(state: &mut RuntimeState)
    ensures
        final(state).env == old(state).env,
        final(state).data.name == old(state).data.name,
        final(state).data.is_public == old(state).data.is_public,
        final(state).data.participants == old(state).data.participants,
        final(state).data.events == old(state).data.events,
        final(state).data.latest_activity_notification == old(state).env.now,
{
    state.data.latest_activity_notification = state.env.now;
}

} // verus!
