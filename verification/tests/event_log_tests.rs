use actor_core::event_log::{
    ChatEventInternal, EventLog, MessageInternal, UpdatedMessageInternal, UsersBlocked,
};
use actor_core::types::{MessageContent, TextContent};

fn text_message(message_id: u64, sender: u64, text: &str) -> ChatEventInternal {
    ChatEventInternal::Message(MessageInternal {
        message_id,
        sender,
        content: MessageContent::Text(TextContent { text: text.to_string() }),
    })
}

#[test]
fn push_event_assigns_consecutive_indices() {
    let mut log = EventLog::new();
    let i0 = log.push_event(ChatEventInternal::GroupChatCreated { created_by: 1 }, 10);
    let i1 = log.push_event(text_message(7, 1, "hello"), 20);
    let i2 = log.push_event(text_message(8, 2, "world"), 30);
    assert_eq!(i0, 0);
    assert_eq!(i1, 1);
    assert_eq!(i2, 2);
    assert_eq!(log.len(), 3);
    assert_eq!(log.get(0).unwrap().index, 0);
    assert_eq!(log.get(1).unwrap().index, 1);
    assert_eq!(log.get(2).unwrap().index, 2);
    assert_eq!(log.get(1).unwrap().timestamp, 20);
    assert!(log.get(3).is_none());
    assert_eq!(log.latest_event_index(), Some(2));
}

#[test]
fn range_ascending_respects_event_bound() {
    let mut log = EventLog::new();
    log.push_event(ChatEventInternal::GroupChatCreated { created_by: 1 }, 0);
    log.push_event(text_message(1, 1, "a"), 1);
    log.push_event(text_message(2, 1, "b"), 2);
    log.push_event(text_message(3, 1, "c"), 3);
    let (events, affected) = log.range(1, true, 10, 2);
    assert_eq!(events.len(), 2);
    assert_eq!(events[0].index, 1);
    assert_eq!(events[1].index, 2);
    assert!(affected.is_empty());
}

#[test]
fn range_descending_walks_back_to_zero() {
    let mut log = EventLog::new();
    log.push_event(ChatEventInternal::GroupChatCreated { created_by: 1 }, 0);
    log.push_event(text_message(1, 1, "a"), 1);
    log.push_event(text_message(2, 1, "b"), 2);
    let (events, _) = log.range(2, false, 10, 10);
    assert_eq!(events.len(), 3);
    assert_eq!(events[0].index, 2);
    assert_eq!(events[1].index, 1);
    assert_eq!(events[2].index, 0);
}

#[test]
fn range_message_budget_stops_at_first_unaffordable_message() {
    let mut log = EventLog::new();
    log.push_event(ChatEventInternal::GroupChatCreated { created_by: 1 }, 0);
    log.push_event(text_message(1, 1, "a"), 1);
    log.push_event(text_message(2, 1, "b"), 2);
    log.push_event(
        ChatEventInternal::UsersBlocked(UsersBlocked { user_ids: vec![9], blocked_by: 1 }),
        3,
    );
    // One message fits; the traversal stops at the second message even though
    // a non-message event follows it.
    let (events, _) = log.range(0, true, 1, 10);
    assert_eq!(events.len(), 2);
    assert_eq!(events[0].index, 0);
    assert_eq!(events[1].index, 1);
}

#[test]
fn range_out_of_range_start_is_empty_not_an_error() {
    let mut log = EventLog::new();
    log.push_event(ChatEventInternal::GroupChatCreated { created_by: 1 }, 0);
    let (events, affected) = log.range(5, true, 10, 10);
    assert!(events.is_empty());
    assert!(affected.is_empty());
    let (events2, _) = log.range(5, false, 10, 10);
    assert!(events2.is_empty());
}

#[test]
fn range_resolves_affected_events_once() {
    let mut log = EventLog::new();
    log.push_event(text_message(1, 1, "hi"), 0);
    log.push_event(
        ChatEventInternal::ReactionAdded(UpdatedMessageInternal {
            updated_by: 2,
            message_event_index: 0,
        }),
        1,
    );
    log.push_event(
        ChatEventInternal::ReactionRemoved(UpdatedMessageInternal {
            updated_by: 2,
            message_event_index: 0,
        }),
        2,
    );
    let (events, affected) = log.range(1, true, 10, 10);
    assert_eq!(events.len(), 2);
    // Both reaction events reference event 0, which is resolved exactly once.
    assert_eq!(affected.len(), 1);
    assert_eq!(affected[0].index, 0);
    assert!(matches!(&affected[0].event, ChatEventInternal::Message(m) if m.message_id == 1));
}

#[test]
fn later_range_returns_identical_payload_at_same_index() {
    let mut log = EventLog::new();
    log.push_event(text_message(1, 1, "first"), 0);
    let (before, _) = log.range(0, true, 10, 10);
    log.push_event(text_message(2, 2, "second"), 1);
    log.push_event(text_message(3, 2, "third"), 2);
    let (after, _) = log.range(0, true, 10, 10);
    assert_eq!(before[0].index, after[0].index);
    assert_eq!(before[0].timestamp, after[0].timestamp);
    match (&before[0].event, &after[0].event) {
        (ChatEventInternal::Message(a), ChatEventInternal::Message(b)) => {
            assert_eq!(a.message_id, b.message_id);
            assert_eq!(a.sender, b.sender);
            let (MessageContent::Text(ta), MessageContent::Text(tb)) = (&a.content, &b.content);
            assert_eq!(ta.text, tb.text);
        }
        _ => panic!("expected message events"),
    }
}
