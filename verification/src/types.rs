//! Plain value types shared by every actor: identities, timestamps, message
//! payloads, and the wrapper that fixes an event's position in a log.

use vstd::prelude::*;

verus! {

/// Identity of a registered user, unique across the whole platform.
pub type UserId = u64;

/// Opaque transport identity carried by every inbound message; the participant
/// registry resolves it to a `UserId`.
pub type Principal = u64;

pub type TimestampMillis = u64;

pub type Milliseconds = u64;

/// Execution resource balance of one actor.
pub type Cycles = u64;

pub type MessageId = u64;

pub type MessageIndex = u64;

/// Zero-based position of an event in one actor's log. Never reused and never
/// decreases.
pub type EventIndex = u64;

/// Identity of one group chat actor.
pub type ChatId = u64;

/// Opaque token threaded through a multi-step operation; an external-call aid,
/// not part of the authoritative state.
pub type CorrelationId = u64;

/// Identity of one governance proposal tracked by the proposals actor.
pub type ProposalId = u64;

pub struct TextContent {
    pub text: String,
}

pub enum MessageContent {
    Text(TextContent),
}

pub struct Reaction(pub String);

/// An event as stored in a log: the payload together with its assigned index
/// and the timestamp at which it was appended. Immutable once appended.
pub struct EventWrapper<T> {
    pub index: EventIndex,
    pub timestamp: TimestampMillis,
    pub event: T,
}

} // verus!
