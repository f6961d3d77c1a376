//! Read-only query over one group's event log: a bounded, restartable slice
//! plus the resolved events that the returned events reference as affected.

use vstd::prelude::*;
use crate::event_log::{affected_indices, range_spec, ChatEventInternal};
use crate::group::RuntimeState;
use crate::types::{EventIndex, EventWrapper};

verus! {

pub struct Args {
    pub start_index: EventIndex,
    pub ascending: bool,
    pub max_messages: u32,
    pub max_events: u32,
}

pub enum Response {
    Success(SuccessResult),
    CallerNotInGroup,
}

pub struct SuccessResult {
    pub events: Vec<EventWrapper<ChatEventInternal>>,
    pub affected_events: Vec<EventWrapper<ChatEventInternal>>,
    pub latest_event_index: EventIndex,
}

/// Handles the query: the caller must resolve to a participant; the result is
/// the exact slice that `range_spec` describes, with the affected events of
/// `affected_indices` and the index of the newest event (zero on an empty
/// log).
pub fn events(args: &Args, state: &RuntimeState) -> (r: Response)
    requires
        state.wf(),
    ensures
        !state.data.participants.has_principal(state.env.caller) <==> r is CallerNotInGroup,
        r matches Response::Success(s) ==> {
            &&& s.events@.map_values(|w: EventWrapper<ChatEventInternal>| w@) =~= range_spec(
                state.data.events.events_view(),
                args.start_index,
                args.ascending,
                args.max_messages,
                args.max_events,
            )
            &&& s.affected_events@.map_values(|w: EventWrapper<ChatEventInternal>| w.index)
                =~= affected_indices(
                s.events@.map_values(|w: EventWrapper<ChatEventInternal>| w@),
                state.data.events@.len() as int,
            )
            &&& (forall|k: int|
                0 <= k < s.affected_events@.len() ==> (#[trigger] s.affected_events@[k]).index
                    < state.data.events@.len() && s.affected_events@[k]@
                    == state.data.events.events_view()[s.affected_events@[k].index as int])
            &&& s.latest_event_index == if state.data.events@.len() == 0 {
                0
            } else {
                state.data.events@.len() - 1
            }
        },
{
    if state.data.participants.get_by_principal(&state.env.caller).is_none() {
        return Response::CallerNotInGroup;
    }
    let (events, affected_events) = state.data.events.range(
        args.start_index,
        args.ascending,
        args.max_messages,
        args.max_events,
    );
    let n = state.data.events.len();
    let latest_event_index: EventIndex = if n == 0 {
        0
    } else {
        n as u64 - 1
    };
    Response::Success(SuccessResult { events, affected_events, latest_event_index })
}

} // verus!
