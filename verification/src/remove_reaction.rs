//! Request and response shapes for withdrawing a reaction from a message. The
//! success payload carries the index of the event that records the change; the
//! change itself references the message's event through the affected-events
//! mechanism.

use vstd::prelude::*;
use crate::types::{CorrelationId, EventIndex, MessageId, MessageIndex, Reaction};

verus! {

pub struct Args {
    pub thread_root_message_index: Option<MessageIndex>,
    pub message_id: MessageId,
    pub reaction: Reaction,
    pub correlation_id: CorrelationId,
}

pub enum Response {
    Success(EventIndex),
    NoChange,
    MessageNotFound,
    CallerNotInGroup,
    NotAuthorized,
}

} // verus!
