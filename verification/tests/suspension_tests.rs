use actor_core::event_log::EventLog;
use actor_core::group::{Data, Env, RuntimeState};
use actor_core::group_send_message;
use actor_core::participants::{Participant, Participants, Role};
use actor_core::types::{MessageContent, TextContent};
use actor_core::user::{c2c_set_user_suspended, send_message, SendMessageArgs, SendMessageResponse, UserState};
use actor_core::user_index::{SuspensionDetails, UserIndexState};

fn direct_message_args(recipient: u64, message_id: u64, text: &str) -> SendMessageArgs {
    SendMessageArgs {
        recipient,
        thread_root_message_index: None,
        message_id,
        sender_name: "user1".to_string(),
        content: MessageContent::Text(TextContent { text: text.to_string() }),
        replies_to: None,
        forwarding: false,
        correlation_id: 0,
    }
}

fn group_message_args(message_id: u64, text: &str) -> group_send_message::Args {
    group_send_message::Args {
        thread_root_message_index: None,
        message_id,
        sender_name: "user1".to_string(),
        content: MessageContent::Text(TextContent { text: text.to_string() }),
        replies_to: None,
        mentioned: Vec::new(),
        forwarding: false,
        correlation_id: 0,
    }
}

#[test]
fn suspend_user() {
    let mut user_index = UserIndexState::new();
    assert!(user_index.register_user(1, 101, "user1".to_string()));
    assert!(user_index.register_user(2, 102, "user2".to_string()));

    // User 1's own actor and a group it created.
    let mut user1_state = UserState { user_id: 1, suspended: false, events: EventLog::new() };
    let mut participants = Participants::new();
    assert!(participants.add(Participant {
        user_id: 1,
        principal: 101,
        role: Role::Owner,
        date_added: 0,
        suspended: false,
    }));
    let mut group = RuntimeState {
        env: Env { caller: 101, now: 10 },
        data: Data {
            name: "SUSPEND_USER_TEST".to_string(),
            is_public: false,
            participants,
            events: EventLog::new(),
            latest_activity_notification: 0,
        },
    };

    assert!(user_index.suspend_user(1, None, 10));
    // The index notifies the user's actor and its groups of the change.
    c2c_set_user_suspended(true, &mut user1_state);
    assert!(group.data.participants.set_user_suspended(1, true));

    let user_response1 = user_index.current_user(&101, 10).unwrap();
    assert!(user_response1.suspended);

    let direct_message_response1 =
        send_message(direct_message_args(2, 1, "123"), &mut user1_state, 11);
    assert!(matches!(direct_message_response1, SendMessageResponse::UserSuspended));

    let group_message_response1 =
        group_send_message::send_message(group_message_args(2, "123"), &mut group);
    assert!(matches!(group_message_response1, group_send_message::Response::UserSuspended));

    assert!(user_index.unsuspend_user(1));
    c2c_set_user_suspended(false, &mut user1_state);
    assert!(group.data.participants.set_user_suspended(1, false));

    let user_response2 = user_index.current_user(&101, 12).unwrap();
    assert!(!user_response2.suspended);

    let direct_message_response2 =
        send_message(direct_message_args(2, 3, "123"), &mut user1_state, 13);
    assert!(matches!(direct_message_response2, SendMessageResponse::Success(_)));

    let group_message_response2 =
        group_send_message::send_message(group_message_args(4, "123"), &mut group);
    assert!(matches!(group_message_response2, group_send_message::Response::Success(_)));
}

#[test]
fn suspend_user_for_duration() {
    let mut user_index = UserIndexState::new();
    assert!(user_index.register_user(1, 101, "user1".to_string()));

    let start = 5_000;
    assert!(user_index.suspend_user(1, Some(1000), start));

    // After exactly the duration has elapsed the suspension is still active.
    let user_response1 = user_index.current_user(&101, start + 1000).unwrap();
    assert!(user_response1.suspended);

    // One time unit later it is not.
    let user_response2 = user_index.current_user(&101, start + 1001).unwrap();
    assert!(!user_response2.suspended);
}

#[test]
fn suspension_boundary_is_inclusive_at_the_duration() {
    let details = SuspensionDetails { timestamp: 0, duration: Some(1000) };
    assert!(details.is_active(999));
    assert!(details.is_active(1000));
    assert!(!details.is_active(1001));

    let indefinite = SuspensionDetails { timestamp: 0, duration: None };
    assert!(indefinite.is_active(u64::MAX));
}
