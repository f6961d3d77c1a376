//! Sending a message into a group: the caller must resolve to a participant
//! and must not be suspended; the message is then recorded as an event at the
//! next index and the activity notification fires.

use vstd::prelude::*;
use crate::event_log::{ChatEventInternal, MessageInternal};
use crate::group::{handle_activity_notification, RuntimeState};
use crate::types::{
    CorrelationId, EventIndex, EventWrapper, MessageContent, MessageId, MessageIndex,
    TimestampMillis, UserId,
};

verus! {

pub struct Args {
    pub thread_root_message_index: Option<MessageIndex>,
    pub message_id: MessageId,
    pub sender_name: String,
    pub content: MessageContent,
    pub replies_to: Option<EventIndex>,
    pub mentioned: Vec<UserId>,
    pub forwarding: bool,
    pub correlation_id: CorrelationId,
}

pub enum Response {
    Success(SuccessResult),
    CallerNotInGroup,
    UserSuspended,
}

#[derive(PartialEq, Eq, Structural)]
pub struct SuccessResult {
    pub event_index: EventIndex,
    pub timestamp: TimestampMillis,
}

/// Sends a message to the group. An unresolvable caller gets
/// `CallerNotInGroup`; a suspended participant gets `UserSuspended`; both
/// leave the state exactly as it was. Otherwise the message event is appended
/// at the next index.
pub fn send_message(args: Args, state: &mut RuntimeState) -> (r: Response)
    requires
        old(state).wf(),
    ensures
        final(state).wf(),
        !old(state).data.participants.has_principal(old(state).env.caller) ==> r
            is CallerNotInGroup && *final(state) == *old(state),
        old(state).data.participants.has_principal(old(state).env.caller) && old(
            state,
        ).data.participants.participant_by_principal(old(state).env.caller).suspended ==> r
            is UserSuspended && *final(state) == *old(state),
        old(state).data.participants.has_principal(old(state).env.caller) && !old(
            state,
        ).data.participants.participant_by_principal(old(state).env.caller).suspended ==> {
            let sender = old(state).data.participants.participant_by_principal(
                old(state).env.caller,
            ).user_id;
            &&& final(state).env == old(state).env
            &&& final(state).data.name == old(state).data.name
            &&& final(state).data.is_public == old(state).data.is_public
            &&& final(state).data.participants == old(state).data.participants
            &&& final(state).data.events@ =~= old(state).data.events@.push(
                EventWrapper {
                    index: old(state).data.events@.len() as EventIndex,
                    timestamp: old(state).env.now,
                    event: ChatEventInternal::Message(
                        MessageInternal {
                            message_id: args.message_id,
                            sender,
                            content: args.content,
                        },
                    ),
                },
            )
            &&& final(state).data.latest_activity_notification == old(state).env.now
            &&& r == Response::Success(
                SuccessResult {
                    event_index: old(state).data.events@.len() as EventIndex,
                    timestamp: old(state).env.now,
                },
            )
        },
{
    let caller = state.env.caller;
    let (sender, suspended) = match state.data.participants.get_by_principal(&caller) {
        None => {
            return Response::CallerNotInGroup;
        },
        Some(p) => (p.user_id, p.suspended),
    };
    if suspended {
        return Response::UserSuspended;
    }
    let now = state.env.now;
    let event = ChatEventInternal::Message(
        MessageInternal { message_id: args.message_id, sender, content: args.content },
    );
    let event_index = state.data.events.push_event(event, now);
    handle_activity_notification(state);
    Response::Success(SuccessResult { event_index, timestamp: now })
}

} // verus!
