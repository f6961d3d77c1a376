use actor_core::block_user::{commit, prepare, Args, Response};
use actor_core::event_log::{ChatEventInternal, EventLog};
use actor_core::group::{Data, Env, RuntimeState};
use actor_core::participants::{Participant, Participants, Role};

fn participant(user_id: u64, principal: u64, role: Role) -> Participant {
    Participant { user_id, principal, role, date_added: 0, suspended: false }
}

fn group_state(is_public: bool, caller: u64, now: u64) -> RuntimeState {
    let mut participants = Participants::new();
    assert!(participants.add(participant(1, 101, Role::Owner)));
    assert!(participants.add(participant(2, 102, Role::Participant)));
    assert!(participants.add(participant(3, 103, Role::Participant)));
    RuntimeState {
        env: Env { caller, now },
        data: Data {
            name: "general".to_string(),
            is_public,
            participants,
            events: EventLog::new(),
            latest_activity_notification: 0,
        },
    }
}

#[test]
fn owner_blocks_member_then_second_block_is_noop() {
    // Participant 1 (owner) blocks participant 2 (member).
    let mut state = group_state(true, 101, 50);
    let args = Args { user_id: 2, correlation_id: 0 };
    let intent = prepare(&args, &state).unwrap();
    assert_eq!(intent.my_user_id, 1);
    assert!(intent.is_blocked_user_participant);

    // The host performs the external removal call here; on success, commit.
    commit(intent.my_user_id, args.user_id, &mut state);

    assert!(state.data.participants.get_by_user_id(&2).is_none());
    assert!(state.data.participants.is_blocked(&2));
    assert_eq!(state.data.events.len(), 1);
    let w = state.data.events.get(0).unwrap();
    assert_eq!(w.index, 0);
    assert_eq!(w.timestamp, 50);
    match &w.event {
        ChatEventInternal::UsersBlocked(ub) => {
            assert_eq!(ub.user_ids, vec![2]);
            assert_eq!(ub.blocked_by, 1);
        }
        _ => panic!("expected a users-blocked event"),
    }

    // A subsequent block of the same user by another authorized participant is
    // a no-op: prepare sees a non-participant target, commit appends nothing.
    let intent2 = prepare(&args, &state).unwrap();
    assert!(!intent2.is_blocked_user_participant);
    commit(intent2.my_user_id, args.user_id, &mut state);
    assert_eq!(state.data.events.len(), 1);
}

#[test]
fn commit_skips_when_interleaved_operation_already_blocked_target() {
    let mut state = group_state(true, 101, 50);
    let args = Args { user_id: 2, correlation_id: 0 };
    let intent = prepare(&args, &state).unwrap();
    assert!(intent.is_blocked_user_participant);

    // While the external call is in flight, a concurrent message blocks the
    // same target.
    commit(1, 2, &mut state);
    assert_eq!(state.data.events.len(), 1);

    // The first operation's commit re-validates and changes nothing.
    commit(intent.my_user_id, args.user_id, &mut state);
    assert_eq!(state.data.events.len(), 1);
    assert!(state.data.participants.is_blocked(&2));
}

#[test]
fn member_without_capability_gets_not_authorized_and_no_event() {
    let mut state = group_state(true, 103, 50);
    let args = Args { user_id: 2, correlation_id: 0 };
    let r = prepare(&args, &state);
    assert!(matches!(r, Err(Response::NotAuthorized)));
    assert_eq!(state.data.events.len(), 0);
    // Nothing was prepared, so there is nothing to commit; repeated attempts
    // keep failing the same way and the log stays empty.
    let r2 = prepare(&args, &mut state);
    assert!(matches!(r2, Err(Response::NotAuthorized)));
    assert_eq!(state.data.events.len(), 0);
}

#[test]
fn prepare_rejects_each_invalid_case_with_its_own_response() {
    let private_group = group_state(false, 101, 50);
    assert!(matches!(
        prepare(&Args { user_id: 2, correlation_id: 0 }, &private_group),
        Err(Response::GroupNotPublic)
    ));

    let state = group_state(true, 999, 50);
    assert!(matches!(
        prepare(&Args { user_id: 2, correlation_id: 0 }, &state),
        Err(Response::CallerNotInGroup)
    ));

    let state2 = group_state(true, 101, 50);
    assert!(matches!(
        prepare(&Args { user_id: 1, correlation_id: 0 }, &state2),
        Err(Response::CannotBlockSelf)
    ));

    // The owner cannot be removed, so blocking the owner is rejected.
    let mut state3 = group_state(true, 102, 50);
    let mut p = Participants::new();
    assert!(p.add(participant(1, 101, Role::Owner)));
    assert!(p.add(participant(2, 102, Role::Admin)));
    state3.data.participants = p;
    assert!(matches!(
        prepare(&Args { user_id: 1, correlation_id: 0 }, &state3),
        Err(Response::CannotBlockUser)
    ));
}
