//! One user actor: the owner's direct-message log and the suspension flag
//! that the user-index actor pushes down. A suspended user's messages are
//! rejected before any state changes.

use vstd::prelude::*;
use crate::event_log::{ChatEventInternal, EventLog, MessageInternal};
use crate::types::{
    CorrelationId, EventIndex, EventWrapper, MessageContent, MessageId, MessageIndex,
    TimestampMillis, UserId,
};

verus! {

pub struct SendMessageArgs {
    pub recipient: UserId,
    pub thread_root_message_index: Option<MessageIndex>,
    pub message_id: MessageId,
    pub sender_name: String,
    pub content: MessageContent,
    pub replies_to: Option<EventIndex>,
    pub forwarding: bool,
    pub correlation_id: CorrelationId,
}

pub enum SendMessageResponse {
    Success(SendMessageSuccess),
    UserSuspended,
}

#[derive(PartialEq, Eq, Structural)]
pub struct SendMessageSuccess {
    pub event_index: EventIndex,
    pub timestamp: TimestampMillis,
}

pub struct UserState {
    pub user_id: UserId,
    pub suspended: bool,
    pub events: EventLog,
}

impl UserState {
    pub open spec fn wf(&self) -> bool {
        self.events.wf()
    }
}

/// Sends a direct message: rejected with `UserSuspended` and no state change
/// while the owner is suspended, otherwise recorded as a message event at the
/// next index.
pub fn send_message(args: SendMessageArgs, state: &mut UserState, now: TimestampMillis) -> (r:
    SendMessageResponse)
    requires
        old(state).wf(),
    ensures
        final(state).wf(),
        old(state).suspended ==> r is UserSuspended && *final(state) == *old(state),
        !old(state).suspended ==> {
            &&& final(state).suspended == old(state).suspended
            &&& final(state).user_id == old(state).user_id
            &&& final(state).events@ =~= old(state).events@.push(
                EventWrapper {
                    index: old(state).events@.len() as EventIndex,
                    timestamp: now,
                    event: ChatEventInternal::Message(
                        MessageInternal {
                            message_id: args.message_id,
                            sender: old(state).user_id,
                            content: args.content,
                        },
                    ),
                },
            )
            &&& r == SendMessageResponse::Success(
                SendMessageSuccess {
                    event_index: old(state).events@.len() as EventIndex,
                    timestamp: now,
                },
            )
        },
{
    if state.suspended {
        return SendMessageResponse::UserSuspended;
    }
    let event = ChatEventInternal::Message(
        MessageInternal {
            message_id: args.message_id,
            sender: state.user_id,
            content: args.content,
        },
    );
    let event_index = state.events.push_event(event, now);
    SendMessageResponse::Success(SendMessageSuccess { event_index, timestamp: now })
}

/// Handles the user-index actor's notification that the owner's suspension
/// changed; nothing else moves.
pub fn c2c_set_user_suspended(suspended: bool, state: &mut UserState)
    ensures
        final(state).suspended == suspended,
        final(state).user_id == old(state).user_id,
        final(state).events == old(state).events,
{
    state.suspended = suspended;
}

} // verus!
