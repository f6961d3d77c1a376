//! Append-only event log: the durable record of what happened inside one
//! actor. Indices are assigned consecutively from zero, events are immutable
//! once appended, and corrections are modeled as new events that reference the
//! corrected event's index.

use vstd::prelude::*;
use crate::types::{EventIndex, EventWrapper, MessageContent, MessageId, TextContent, TimestampMillis, UserId};

verus! {

pub struct UsersBlocked {
    pub user_ids: Vec<UserId>,
    pub blocked_by: UserId,
}

pub struct MessageInternal {
    pub message_id: MessageId,
    pub sender: UserId,
    pub content: MessageContent,
}

/// Index-based weak reference to the event carrying the message that a
/// reaction change updated: readers resolve it against the current log.
pub struct UpdatedMessageInternal {
    pub updated_by: UserId,
    pub message_event_index: EventIndex,
}

pub enum ChatEventInternal {
    GroupChatCreated { created_by: UserId },
    Message(MessageInternal),
    ReactionAdded(UpdatedMessageInternal),
    ReactionRemoved(UpdatedMessageInternal),
    UsersBlocked(UsersBlocked),
}

/// Mathematical model of one event: the same variants with sequence-valued
/// payloads, so that contracts can speak of payload identity independently of
/// heap allocation.
pub enum EventView {
    GroupChatCreated { created_by: UserId },
    Message { message_id: MessageId, sender: UserId, text: Seq<char> },
    ReactionAdded { updated_by: UserId, message_event_index: EventIndex },
    ReactionRemoved { updated_by: UserId, message_event_index: EventIndex },
    UsersBlocked { user_ids: Seq<UserId>, blocked_by: UserId },
}

impl View for ChatEventInternal {
    type V = EventView;

    open spec fn view(&self) -> EventView {
        match self {
            ChatEventInternal::GroupChatCreated { created_by } => EventView::GroupChatCreated {
                created_by: *created_by,
            },
            ChatEventInternal::Message(m) => EventView::Message {
                message_id: m.message_id,
                sender: m.sender,
                text: match &m.content {
                    MessageContent::Text(t) => t.text@,
                },
            },
            ChatEventInternal::ReactionAdded(u) => EventView::ReactionAdded {
                updated_by: u.updated_by,
                message_event_index: u.message_event_index,
            },
            ChatEventInternal::ReactionRemoved(u) => EventView::ReactionRemoved {
                updated_by: u.updated_by,
                message_event_index: u.message_event_index,
            },
            ChatEventInternal::UsersBlocked(b) => EventView::UsersBlocked {
                user_ids: b.user_ids@,
                blocked_by: b.blocked_by,
            },
        }
    }
}

/// Mathematical model of a stored event: index, timestamp, payload model.
pub struct EventWrapperView {
    pub index: EventIndex,
    pub timestamp: TimestampMillis,
    pub event: EventView,
}

impl View for EventWrapper<ChatEventInternal> {
    type V = EventWrapperView;

    open spec fn view(&self) -> EventWrapperView {
        EventWrapperView { index: self.index, timestamp: self.timestamp, event: self.event@ }
    }
}

/// Payload-weight classification used by `range`: embedded messages are
/// budgeted separately from all other event kinds.
pub open spec fn is_message_event(e: EventView) -> bool {
    e matches EventView::Message { .. }
}

/// The earlier event, if any, that this event logically updates.
pub open spec fn affected_event_index(e: EventView) -> Option<EventIndex> {
    match e {
        EventView::ReactionAdded { message_event_index, .. } => Some(message_event_index),
        EventView::ReactionRemoved { message_event_index, .. } => Some(message_event_index),
        _ => None,
    }
}

pub struct EventLog {
    events: Vec<EventWrapper<ChatEventInternal>>,
}

impl View for EventLog {
    type V = Seq<EventWrapper<ChatEventInternal>>;

    closed spec fn view(&self) -> Seq<EventWrapper<ChatEventInternal>> {
        self.events@
    }
}

impl EventLog {
    /// Every stored wrapper carries exactly its position as its index: indices
    /// are zero-based, strictly increasing, and gap-free.
    pub open spec fn wf(&self) -> bool {
        forall|i: int| 0 <= i < self@.len() ==> (#[trigger] self@[i]).index == i
    }

    pub fn new() -> (log: Self)
        ensures
            log@ =~= Seq::<EventWrapper<ChatEventInternal>>::empty(),
            log.wf(),
    {
        EventLog { events: Vec::new() }
    }

    pub fn len(&self) -> (n: usize)
        ensures
            n == self@.len(),
    {
        self.events.len()
    }

    /// Assigns the next index, stores the wrapped event with the given
    /// timestamp, and returns the assigned index. The log grows by exactly one.
    pub fn push_event(&mut self, event: ChatEventInternal, now: TimestampMillis) -> (index: EventIndex)
        requires
            old(self).wf(),
        ensures
            index == old(self)@.len(),
            final(self)@ =~= old(self)@.push(
                EventWrapper { index, timestamp: now, event },
            ),
            final(self).wf(),
    {
        let index: EventIndex = self.events.len() as u64;
        self.events.push(EventWrapper { index, timestamp: now, event });
        proof {
            assert forall|i: int| 0 <= i < self@.len() implies (#[trigger] self@[i]).index
                == i by {
                if i < old(self)@.len() {
                    assert(self@[i] == old(self)@[i]);
                }
            }
        }
        index
    }

    pub fn get(&self, index: EventIndex) -> (r: Option<&EventWrapper<ChatEventInternal>>)
        ensures
            index < self@.len() ==> r == Some(&self@[index as int]),
            index >= self@.len() ==> r is None,
    {
        let n = self.events.len();
        if index < n as u64 {
            Some(&self.events[index as usize])
        } else {
            None
        }
    }

    /// The log as a sequence of event models.
    pub open spec fn events_view(&self) -> Seq<EventWrapperView> {
        self@.map_values(|w: EventWrapper<ChatEventInternal>| w@)
    }

    /// Produces a finite slice of the log bounded by an event count and by a
    /// separate budget for embedded messages, traversed from `start` in the
    /// requested direction, together with the resolved models of the events
    /// that the returned events reference as affected. An out-of-range `start`
    /// yields an empty result, never an error, and nothing past the log's
    /// current end is ever returned.
    #[verifier::loop_isolation(false)]
    #[verifier::rlimit(60)]
    pub fn range(&self, start: EventIndex, ascending: bool, max_messages: u32, max_events: u32)
        -> (r: (Vec<EventWrapper<ChatEventInternal>>, Vec<EventWrapper<ChatEventInternal>>))
        requires
            self.wf(),
        ensures
            r.0@.map_values(|w: EventWrapper<ChatEventInternal>| w@) =~= range_spec(
                self.events_view(),
                start,
                ascending,
                max_messages,
                max_events,
            ),
            forall|k: int|
                0 <= k < r.1@.len() ==> (#[trigger] r.1@[k]).index < self@.len() && r.1@[k]@
                    == self.events_view()[r.1@[k].index as int],
            r.1@.map_values(|w: EventWrapper<ChatEventInternal>| w.index) =~= affected_indices(
                r.0@.map_values(|w: EventWrapper<ChatEventInternal>| w@),
                self@.len() as int,
            ),
    {
        let events = self.take_events(start, ascending, max_messages, max_events);
        let affected = self.resolve_affected(&events);
        (events, affected)
    }

    /// The bounded traversal itself: the longest prefix of the directed slice
    /// that fits both budgets.
    #[verifier::loop_isolation(false)]
    #[verifier::rlimit(60)]
    fn take_events(&self, start: EventIndex, ascending: bool, max_messages: u32, max_events: u32)
        -> (events: Vec<EventWrapper<ChatEventInternal>>)
        requires
            self.wf(),
        ensures
            events@.map_values(|w: EventWrapper<ChatEventInternal>| w@) =~= range_spec(
                self.events_view(),
                start,
                ascending,
                max_messages,
                max_events,
            ),
    {
        let ghost ds = direction_seq(self.events_view(), start, ascending);
        let mut events: Vec<EventWrapper<ChatEventInternal>> = Vec::new();
        let n = self.events.len();
        if start >= n as u64 {
            proof {
                assert(range_spec(self.events_view(), start, ascending, max_messages, max_events)
                    =~= Seq::<EventWrapperView>::empty());
            }
            return events;
        }
        let len: usize = if ascending {
            n - start as usize
        } else {
            start as usize + 1
        };
        let mut i: usize = 0;
        let mut messages_left = max_messages;
        let mut events_left = max_events;
        proof {
            assert(ds.skip(0) =~= ds);
        }
        while i < len && events_left > 0
            invariant
                ds.len() == len,
                0 <= i <= len,
                start < n == self@.len(),
                events@.map_values(|w: EventWrapper<ChatEventInternal>| w@) =~= ds.take(i as int),
                events_left <= max_events,
                messages_left <= max_messages,
                num_taken(ds, max_messages, max_events) == i + num_taken(
                    ds.skip(i as int),
                    messages_left,
                    events_left,
                ),
                forall|j: int|
                    0 <= j < ds.len() ==> #[trigger] ds[j] == self.events_view()[
                        if ascending {
                            start + j
                        } else {
                            start - j
                        }],
            decreases len - i,
        {
            let pos: usize = if ascending {
                start as usize + i
            } else {
                start as usize - i
            };
            let w = &self.events[pos];
            proof {
                assert(ds.skip(i as int)[0] == ds[i as int]);
                assert(ds.skip(i as int).drop_first() =~= ds.skip(i as int + 1));
            }
            let is_msg = matches!(&w.event, ChatEventInternal::Message(_));
            if is_msg {
                if messages_left == 0 {
                    break ;
                }
                messages_left = messages_left - 1;
            }
            events.push(clone_wrapper(w));
            events_left = events_left - 1;
            i = i + 1;
            proof {
                assert(events@.map_values(|w2: EventWrapper<ChatEventInternal>| w2@) =~= ds.take(
                    i as int,
                ));
            }
        }
        proof {
            assert(num_taken(ds.skip(i as int), messages_left, events_left) == 0);
            assert(events@.map_values(|w2: EventWrapper<ChatEventInternal>| w2@) =~= range_spec(
                self.events_view(),
                start,
                ascending,
                max_messages,
                max_events,
            ));
        }
        events
    }

    /// Resolves the affected-event back-references of `events` against the
    /// current log: the first occurrence of each affected index, in order.
    #[verifier::loop_isolation(false)]
    #[verifier::rlimit(60)]
    fn resolve_affected(&self, events: &Vec<EventWrapper<ChatEventInternal>>) -> (aff: Vec<
        EventWrapper<ChatEventInternal>,
    >)
        requires
            self.wf(),
        ensures
            forall|k: int|
                0 <= k < aff@.len() ==> (#[trigger] aff@[k]).index < self@.len() && aff@[k]@
                    == self.events_view()[aff@[k].index as int],
            aff@.map_values(|w: EventWrapper<ChatEventInternal>| w.index) =~= affected_indices(
                events@.map_values(|w: EventWrapper<ChatEventInternal>| w@),
                self@.len() as int,
            ),
    {
        let ghost evs = events@.map_values(|w: EventWrapper<ChatEventInternal>| w@);
        let mut aff: Vec<EventWrapper<ChatEventInternal>> = Vec::new();
        let m = events.len();
        let mut j: usize = 0;
        proof {
            assert(evs.take(0) =~= Seq::<EventWrapperView>::empty());
        }
        while j < m
            invariant
                m == events@.len() == evs.len(),
                0 <= j <= m,
                forall|k: int|
                    0 <= k < aff@.len() ==> (#[trigger] aff@[k]).index < self@.len() && aff@[k]@
                        == self.events_view()[aff@[k].index as int],
                aff@.map_values(|w: EventWrapper<ChatEventInternal>| w.index) =~= affected_indices(
                    evs.take(j as int),
                    self@.len() as int,
                ),
            decreases m - j,
        {
            let ghost idxs = aff@.map_values(|w: EventWrapper<ChatEventInternal>| w.index);
            proof {
                assert(evs.take(j + 1).drop_last() =~= evs.take(j as int));
                assert(evs.take(j + 1).last() == evs[j as int]);
                assert(evs[j as int] == events@[j as int]@);
            }
            let affected_index: Option<EventIndex> = match &events[j].event {
                ChatEventInternal::ReactionAdded(u) => Some(u.message_event_index),
                ChatEventInternal::ReactionRemoved(u) => Some(u.message_event_index),
                _ => None,
            };
            proof {
                assert(affected_index == affected_event_index(events@[j as int]@.event));
            }
            if let Some(a) = affected_index {
                let dup = contains_index(&aff, a);
                proof {
                    if dup {
                        let k = choose|k: int|
                            0 <= k < aff@.len() && (#[trigger] aff@[k]).index == a;
                        assert(idxs[k] == a);
                        assert(idxs.contains(a));
                    } else if idxs.contains(a) {
                        let k = choose|k: int| 0 <= k < idxs.len() && idxs[k] == a;
                        assert(aff@[k].index == a);
                        assert(false);
                    }
                }
                if !dup {
                    match self.get(a) {
                        Some(w) => {
                            let c = clone_wrapper(w);
                            aff.push(c);
                            proof {
                                assert(aff@.map_values(
                                    |w2: EventWrapper<ChatEventInternal>| w2.index,
                                ) =~= idxs.push(a));
                            }
                        },
                        None => {},
                    }
                }
            }
            j = j + 1;
            proof {
                assert(aff@.map_values(|w2: EventWrapper<ChatEventInternal>| w2.index)
                    =~= affected_indices(evs.take(j as int), self@.len() as int));
            }
        }
        proof {
            assert(evs.take(m as int) =~= evs);
        }
        aff
    }

    /// Index of the most recently appended event; `None` on an empty log.
    pub fn latest_event_index(&self) -> (r: Option<EventIndex>)
        requires
            self.wf(),
        ensures
            self@.len() == 0 ==> r is None,
            self@.len() > 0 ==> r == Some((self@.len() - 1) as EventIndex),
    {
        if self.events.len() == 0 {
            None
        } else {
            Some(self.events.len() as u64 - 1)
        }
    }
}

/// The log's event models in traversal order from `start`: forwards to the
/// newest event when ascending, backwards to index zero otherwise. Empty when
/// `start` is out of range.
pub open spec fn direction_seq(
    log: Seq<EventWrapperView>,
    start: EventIndex,
    ascending: bool,
) -> Seq<EventWrapperView> {
    if start >= log.len() {
        Seq::empty()
    } else if ascending {
        Seq::new((log.len() - start) as nat, |i: int| log[start + i])
    } else {
        Seq::new((start + 1) as nat, |i: int| log[start - i])
    }
}

/// How many events of `s` a traversal takes: it stops at the count bound, at
/// the end, or at the first message that would exceed the message budget.
pub open spec fn num_taken(s: Seq<EventWrapperView>, max_messages: u32, max_events: u32) -> nat
    decreases s.len(),
{
    if s.len() == 0 || max_events == 0 {
        0
    } else if is_message_event(s[0].event) {
        if max_messages == 0 {
            0
        } else {
            1 + num_taken(s.drop_first(), (max_messages - 1) as u32, (max_events - 1) as u32)
        }
    } else {
        1 + num_taken(s.drop_first(), max_messages, (max_events - 1) as u32)
    }
}

/// The exact sequence of event models that `range` returns.
pub open spec fn range_spec(
    log: Seq<EventWrapperView>,
    start: EventIndex,
    ascending: bool,
    max_messages: u32,
    max_events: u32,
) -> Seq<EventWrapperView> {
    let ds = direction_seq(log, start, ascending);
    ds.take(num_taken(ds, max_messages, max_events) as int)
}

/// The affected indices referenced by `s`: first occurrence of each index
/// only, in order of appearance, skipping references past the log's end.
pub open spec fn affected_indices(s: Seq<EventWrapperView>, log_len: int) -> Seq<EventIndex>
    decreases s.len(),
{
    if s.len() == 0 {
        Seq::empty()
    } else {
        let prev = affected_indices(s.drop_last(), log_len);
        match affected_event_index(s.last().event) {
            Some(a) => if a < log_len && !prev.contains(a) {
                prev.push(a)
            } else {
                prev
            },
            None => prev,
        }
    }
}

fn copy_user_ids(v: &Vec<UserId>) -> (r: Vec<UserId>)
    ensures
        r@ =~= v@,
{
    let mut r: Vec<UserId> = Vec::new();
    let n = v.len();
    let mut i: usize = 0;
    while i < n
        invariant
            n == v@.len(),
            0 <= i <= n,
            r@ =~= v@.take(i as int),
        decreases n - i,
    {
        r.push(v[i]);
        proof {
            assert(r@ =~= v@.take(i + 1));
        }
        i = i + 1;
    }
    r
}

fn clone_event(e: &ChatEventInternal) -> (r: ChatEventInternal)
    ensures
        r@ == e@,
{
    match e {
        ChatEventInternal::GroupChatCreated { created_by } => ChatEventInternal::GroupChatCreated {
            created_by: *created_by,
        },
        ChatEventInternal::Message(m) => ChatEventInternal::Message(
            MessageInternal {
                message_id: m.message_id,
                sender: m.sender,
                content: match &m.content {
                    MessageContent::Text(t) => MessageContent::Text(
                        TextContent { text: t.text.clone() },
                    ),
                },
            },
        ),
        ChatEventInternal::ReactionAdded(u) => ChatEventInternal::ReactionAdded(
            UpdatedMessageInternal {
                updated_by: u.updated_by,
                message_event_index: u.message_event_index,
            },
        ),
        ChatEventInternal::ReactionRemoved(u) => ChatEventInternal::ReactionRemoved(
            UpdatedMessageInternal {
                updated_by: u.updated_by,
                message_event_index: u.message_event_index,
            },
        ),
        ChatEventInternal::UsersBlocked(b) => ChatEventInternal::UsersBlocked(
            UsersBlocked { user_ids: copy_user_ids(&b.user_ids), blocked_by: b.blocked_by },
        ),
    }
}

fn clone_wrapper(w: &EventWrapper<ChatEventInternal>) -> (r: EventWrapper<ChatEventInternal>)
    ensures
        r@ == w@,
        r.index == w.index,
{
    EventWrapper { index: w.index, timestamp: w.timestamp, event: clone_event(&w.event) }
}

fn contains_index(aff: &Vec<EventWrapper<ChatEventInternal>>, a: EventIndex) -> (r: bool)
    ensures
        r == exists|k: int| 0 <= k < aff@.len() && (#[trigger] aff@[k]).index == a,
{
    let n = aff.len();
    let mut i: usize = 0;
    while i < n
        invariant
            n == aff@.len(),
            0 <= i <= n,
            forall|k: int| 0 <= k < i ==> (#[trigger] aff@[k]).index != a,
        decreases n - i,
    {
        if aff[i].index == a {
            return true;
        }
        i = i + 1;
    }
    false
}

/// Monotonicity of index assignment: in a well-formed log, indices strictly
/// increase with position and leave no gaps (the event at position `i` carries
/// index `i` exactly).
pub proof fn lemma_event_indices_monotonic(log: EventLog, i: int, j: int)
    requires
        log.wf(),
        0 <= i < j < log@.len(),
    ensures
        log@[i].index < log@[j].index,
        log@[j].index - log@[i].index == j - i,
{
}

/// Immutability of appended events: however a log is later extended by
/// appends, every event already present is returned unchanged, payload
/// included.
pub proof fn lemma_extension_preserves_events(pre: EventLog, post: EventLog, i: int)
    requires
        pre@.is_prefix_of(post@),
        0 <= i < pre@.len(),
    ensures
        post@[i] == pre@[i],
{
    assert(pre@[i] == post@[i]);
}

/// The same immutability at the model level that `range` speaks of: a later
/// traversal of the extended log sees the identical payload at every index the
/// earlier log already had.
pub proof fn lemma_extension_preserves_event_views(pre: EventLog, post: EventLog, i: int)
    requires
        pre@.is_prefix_of(post@),
        0 <= i < pre@.len(),
    ensures
        post.events_view()[i] == pre.events_view()[i],
{
    assert(pre@[i] == post@[i]);
}

} // verus!
