use actor_core::event_log::{ChatEventInternal, EventLog};
use actor_core::events_query;
use actor_core::group::{Data, Env, RuntimeState};
use actor_core::jobs;
use actor_core::lifecycle::{self, BuildVersion};
use actor_core::low_balance::{
    self, CyclesTopUp, LocalUserMap, NotifyLowBalanceResponse, MIN_CYCLES_BALANCE,
    USER_CANISTER_TOP_UP_AMOUNT,
};
use actor_core::memory::{
    get_memory, get_upgrades_memory, reset_memory_manager, MemoryManager, BUCKET_SIZE_IN_PAGES,
    PAGE_SIZE_IN_BYTES, UPGRADES,
};
use actor_core::participants::{Participant, Participants, Role};
use actor_core::recommended_groups::{self, PublicGroupSummary};

fn group_state(caller: u64) -> RuntimeState {
    let mut participants = Participants::new();
    assert!(participants.add(Participant {
        user_id: 1,
        principal: 101,
        role: Role::Owner,
        date_added: 0,
        suspended: false,
    }));
    RuntimeState {
        env: Env { caller, now: 7 },
        data: Data {
            name: "general".to_string(),
            is_public: true,
            participants,
            events: EventLog::new(),
            latest_activity_notification: 0,
        },
    }
}

#[test]
fn events_query_requires_membership() {
    let mut state = group_state(999);
    state.data.events.push_event(ChatEventInternal::GroupChatCreated { created_by: 1 }, 1);
    let args = events_query::Args { start_index: 0, ascending: true, max_messages: 5, max_events: 5 };
    assert!(matches!(events_query::events(&args, &state), events_query::Response::CallerNotInGroup));

    state.env.caller = 101;
    match events_query::events(&args, &state) {
        events_query::Response::Success(s) => {
            assert_eq!(s.events.len(), 1);
            assert_eq!(s.latest_event_index, 0);
            assert!(s.affected_events.is_empty());
        }
        _ => panic!("expected success"),
    }
}

#[test]
fn low_balance_prepare_guards_the_reserve() {
    let mut users = LocalUserMap::new();
    assert!(users.add(42));
    let mut state = low_balance::RuntimeState {
        env: low_balance::Env {
            caller: 42,
            now: 99,
            cycles_balance: USER_CANISTER_TOP_UP_AMOUNT + MIN_CYCLES_BALANCE,
        },
        data: low_balance::Data { total_cycles_spent_on_canisters: 0, local_users: users },
    };

    // Exactly at the threshold the spend is allowed.
    let intent = low_balance::prepare(&state).unwrap();
    assert_eq!(intent.user_id, 42);
    assert_eq!(intent.top_up, CyclesTopUp { date: 99, amount: USER_CANISTER_TOP_UP_AMOUNT });

    // One cycle below the threshold it is rejected.
    state.env.cycles_balance -= 1;
    assert!(matches!(
        low_balance::prepare(&state),
        Err(NotifyLowBalanceResponse::NotEnoughCyclesRemaining)
    ));

    // The deposit succeeded: commit records the spend.
    assert!(low_balance::commit(intent.user_id, intent.top_up, &mut state));
    assert_eq!(state.data.total_cycles_spent_on_canisters, USER_CANISTER_TOP_UP_AMOUNT);

    // Committing for an unregistered user reports the invariant violation and
    // changes nothing.
    assert!(!low_balance::commit(7, intent.top_up, &mut state));
    assert_eq!(state.data.total_cycles_spent_on_canisters, USER_CANISTER_TOP_UP_AMOUNT);
}

#[test]
fn recommended_groups_skip_exclusions_and_missing_entries() {
    let dir = vec![
        PublicGroupSummary { chat_id: 1, name: "one".to_string(), participant_count: 10 },
        PublicGroupSummary { chat_id: 2, name: "two".to_string(), participant_count: 20 },
        PublicGroupSummary { chat_id: 3, name: "three".to_string(), participant_count: 30 },
    ];
    let state = recommended_groups::RuntimeState {
        data: recommended_groups::Data {
            cached_hot_groups: vec![5, 2, 1, 3],
            public_groups: dir,
        },
    };
    // Group 2 is excluded without consuming budget; group 5 is no longer in
    // the directory but still consumes one unit, so only group 1 is returned.
    let args = recommended_groups::Args { count: 2, exclusions: vec![2] };
    let recommended_groups::Response::Success(s) =
        recommended_groups::c2c_recommended_groups_impl(&args, &state);
    assert_eq!(s.groups.len(), 1);
    assert_eq!(s.groups[0].chat_id, 1);
    assert_eq!(s.groups[0].name, "one");

    let args2 = recommended_groups::Args { count: 4, exclusions: vec![] };
    let recommended_groups::Response::Success(s2) =
        recommended_groups::c2c_recommended_groups_impl(&args2, &state);
    assert_eq!(s2.groups.iter().map(|g| g.chat_id).collect::<Vec<_>>(), vec![2, 1, 3]);
}

#[test]
fn start_registers_queue_driven_jobs_only_when_needed() {
    let idle = jobs::RuntimeState {
        queued_proposals: vec![],
        finished_proposals: vec![],
        active_proposals: vec![],
    };
    let started = jobs::start(&idle);
    assert!(started.check_for_nervous_system_updates);
    assert!(started.retrieve_proposals);
    assert!(!started.push_proposals);
    assert!(!started.update_finished_proposals);
    assert!(!started.update_proposals);

    let busy = jobs::RuntimeState {
        queued_proposals: vec![4],
        finished_proposals: vec![],
        active_proposals: vec![9, 11],
    };
    let started2 = jobs::start(&busy);
    assert!(started2.push_proposals);
    assert!(!started2.update_finished_proposals);
    assert!(started2.update_proposals);
}

#[test]
fn upgrade_memory_grows_in_whole_buckets_and_round_trips() {
    let mut mgr = MemoryManager::init_with_bucket_size(BUCKET_SIZE_IN_PAGES);
    assert_eq!(get_upgrades_memory(&mgr).size_in_bytes(), 0);

    let image = vec![1u8, 2, 3, 4, 5];
    mgr.upgrades.write(0, &image);
    let bucket_bytes = (BUCKET_SIZE_IN_PAGES * PAGE_SIZE_IN_BYTES) as usize;
    assert_eq!(get_memory(&mgr, UPGRADES).size_in_bytes(), bucket_bytes);
    assert_eq!(mgr.upgrades.read(0, 5), image);
    // Bytes past the image are zero-filled padding.
    assert_eq!(mgr.upgrades.read(5, 3), vec![0, 0, 0]);

    mgr.upgrades.write(3, &[9, 9]);
    assert_eq!(mgr.upgrades.read(0, 6), vec![1, 2, 3, 9, 9, 0]);

    reset_memory_manager(&mut mgr);
    assert_eq!(mgr.bucket_size_in_pages, BUCKET_SIZE_IN_PAGES);
    assert_eq!(get_upgrades_memory(&mgr).size_in_bytes(), 0);
}

#[test]
fn post_upgrade_registers_ledger_token_and_resets_layout() {
    let mut mgr = MemoryManager::init_with_bucket_size(BUCKET_SIZE_IN_PAGES);
    mgr.upgrades.write(0, &[8, 8, 8]);
    let data = lifecycle::Data { test_mode: true, tokens: Vec::new() };
    let args = lifecycle::Args { wasm_version: BuildVersion { major: 2, minor: 0, patch: 1 } };

    let state = lifecycle::post_upgrade(data, &args, &mut mgr, 77);

    assert_eq!(state.wasm_version, BuildVersion { major: 2, minor: 0, patch: 1 });
    assert!(state.data.test_mode);
    assert_eq!(state.data.tokens.len(), 1);
    let token = &state.data.tokens[0];
    assert_eq!(token.ledger_canister_id, "ryjl3-tyaaa-aaaaa-aaaba-cai");
    assert_eq!(token.root_canister_id, "r7inp-6aaaa-aaaaa-aaabq-cai");
    assert_eq!(token.governance_canister_id, "rrkah-fqaaa-aaaaa-aaaaq-cai");
    assert_eq!(token.index_canister_id, "qhbym-qaaaa-aaaaa-aaafq-cai");
    assert_eq!(token.added, 77);
    // The reset happens only after the restore and leaves a fresh layout.
    assert_eq!(get_upgrades_memory(&mgr).size_in_bytes(), 0);
}
