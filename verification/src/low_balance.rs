//! Topping up a user actor that reported a low cycle balance: prepare checks
//! that the index actor can spend the amount without dropping below its own
//! reserve, the host performs the asynchronous deposit, and commit records the
//! spend — re-validated bookkeeping, idempotent at the caller's level because
//! a failed deposit commits nothing.

use vstd::prelude::*;
use crate::types::{Cycles, Principal, TimestampMillis, UserId};

verus! {

/// Amount granted to a user actor per top-up.
pub const USER_CANISTER_TOP_UP_AMOUNT: Cycles = 100_000_000_000;

/// Reserve the index actor must keep for itself.
pub const MIN_CYCLES_BALANCE: Cycles = 5_000_000_000_000;

#[derive(Clone, Copy, Debug, PartialEq, Eq, Structural)]
pub struct CyclesTopUp {
    pub date: TimestampMillis,
    pub amount: Cycles,
}

pub struct LocalUser {
    pub user_id: UserId,
    pub cycle_top_ups: Vec<CyclesTopUp>,
}

pub struct LocalUserMap {
    users: Vec<LocalUser>,
}

impl LocalUserMap {
    pub closed spec fn users_seq(&self) -> Seq<LocalUser> {
        self.users@
    }

    pub open spec fn wf(&self) -> bool {
        forall|i: int, j: int|
            0 <= i < j < self.users_seq().len() ==> (#[trigger] self.users_seq()[i]).user_id != (
            #[trigger] self.users_seq()[j]).user_id
    }

    pub open spec fn has_user(&self, user_id: UserId) -> bool {
        exists|i: int|
            0 <= i < self.users_seq().len() && (#[trigger] self.users_seq()[i]).user_id == user_id
    }

    pub open spec fn index_of_user(&self, user_id: UserId) -> int {
        choose|i: int|
            0 <= i < self.users_seq().len() && (#[trigger] self.users_seq()[i]).user_id == user_id
    }

    pub fn new() -> (r: Self)
        ensures
            r.users_seq() =~= Seq::<LocalUser>::empty(),
            r.wf(),
    {
        LocalUserMap { users: Vec::new() }
    }

    #[verifier::loop_isolation(false)]
    pub fn add(&mut self, user_id: UserId) -> (added: bool)
        requires
            old(self).wf(),
        ensures
            final(self).wf(),
            added == !old(self).has_user(user_id),
            added ==> final(self).users_seq().len() == old(self).users_seq().len() + 1
                && final(self).users_seq().last().user_id == user_id
                && final(self).users_seq().last().cycle_top_ups@.len() == 0
                && old(self).users_seq().is_prefix_of(final(self).users_seq()),
            !added ==> *final(self) == *old(self),
    {
        if self.find_index(&user_id).is_some() {
            return false;
        }
        let ghost s = self.users_seq();
        self.users.push(LocalUser { user_id, cycle_top_ups: Vec::new() });
        proof {
            assert(s.is_prefix_of(self.users_seq())) by {
                assert(self.users_seq().take(s.len() as int) =~= s);
            }
            assert forall|i: int, j: int|
                0 <= i < j < self.users_seq().len() implies (#[trigger] self.users_seq()[
            i]).user_id != (#[trigger] self.users_seq()[j]).user_id by {
                if j < s.len() {
                } else {
                    assert(self.users_seq()[i] == s[i]);
                }
            }
        }
        true
    }

    #[verifier::loop_isolation(false)]
    fn find_index(&self, user_id: &UserId) -> (r: Option<usize>)
        requires
            self.wf(),
        ensures
            match r {
                Some(i) => self.has_user(*user_id) && i == self.index_of_user(*user_id) && i
                    < self.users_seq().len() && self.users_seq()[i as int].user_id == *user_id,
                None => !self.has_user(*user_id),
            },
    {
        let n = self.users.len();
        let mut i: usize = 0;
        while i < n
            invariant
                n == self.users_seq().len(),
                0 <= i <= n,
                forall|k: int|
                    0 <= k < i ==> (#[trigger] self.users_seq()[k]).user_id != *user_id,
            decreases n - i,
        {
            if self.users[i].user_id == *user_id {
                proof {
                    assert(self.has_user(*user_id));
                    let j = self.index_of_user(*user_id);
                    if i != j {
                        assert(self.users_seq()[i as int].user_id
                            == self.users_seq()[j].user_id);
                    }
                }
                return Some(i);
            }
            i += 1;
        }
        None
    }

    /// Records a top-up against the user's record. Returns whether the user
    /// was found; a missing user is an invariant violation that the caller
    /// must treat as fatal, and nothing is changed.
    pub fn mark_cycles_top_up(&mut self, user_id: &UserId, top_up: CyclesTopUp) -> (r: bool)
        requires
            old(self).wf(),
        ensures
            final(self).wf(),
            r == old(self).has_user(*user_id),
            !r ==> *final(self) == *old(self),
            r ==> {
                let i = old(self).index_of_user(*user_id);
                &&& final(self).users_seq().len() == old(self).users_seq().len()
                &&& (forall|k: int|
                    0 <= k < old(self).users_seq().len() && k != i
                        ==> #[trigger] final(self).users_seq()[k] == old(self).users_seq()[k])
                &&& final(self).users_seq()[i].user_id == *user_id
                &&& final(self).users_seq()[i].cycle_top_ups@ =~= old(self).users_seq()[
                    i].cycle_top_ups@.push(top_up)
            },
    {
        match self.find_index(user_id) {
            None => false,
            Some(i) => {
                let ghost s = self.users_seq();
                let mut u = self.users.remove(i);
                u.cycle_top_ups.push(top_up);
                self.users.insert(i, u);
                proof {
                    assert forall|k: int|
                        0 <= k < self.users_seq().len() && k != i implies #[trigger] self
                        .users_seq()[k] == s[k] by {
                        assert(self.users_seq() =~= s.remove(i as int).insert(i as int, u));
                    }
                    assert(self.users_seq()[i as int] == u);
                    assert forall|a: int, b: int|
                        0 <= a < b < self.users_seq().len() implies (#[trigger] self.users_seq()[
                    a]).user_id != (#[trigger] self.users_seq()[b]).user_id by {
                        assert(self.users_seq()[a].user_id == s[a].user_id);
                        assert(self.users_seq()[b].user_id == s[b].user_id);
                    }
                }
                true
            },
        }
    }
}

#[derive(Clone, Copy, Debug, PartialEq, Eq, Structural)]
pub enum NotifyLowBalanceResponse {
    Success(Cycles),
    NotEnoughCyclesRemaining,
    FailedToDepositCycles,
}

pub struct Env {
    pub caller: Principal,
    pub now: TimestampMillis,
    pub cycles_balance: Cycles,
}

pub struct Data {
    pub total_cycles_spent_on_canisters: Cycles,
    pub local_users: LocalUserMap,
}

pub struct RuntimeState {
    pub env: Env,
    pub data: Data,
}

impl RuntimeState {
    pub open spec fn wf(&self) -> bool {
        self.data.local_users.wf()
    }
}

#[derive(Clone, Copy, Debug, PartialEq, Eq, Structural)]
pub struct PrepareResult {
    pub user_id: UserId,
    pub top_up: CyclesTopUp,
}

/// Whether `amount` can be spent while keeping at least `min_balance`.
pub fn can_spend_cycles(balance: Cycles, amount: Cycles, min_balance: Cycles) -> (r: bool)
    ensures
        r == (balance >= amount + min_balance),
{
    balance >= amount && balance - amount >= min_balance
}

pub open spec fn prepare_outcome(state: RuntimeState) -> Result<
    PrepareResult,
    NotifyLowBalanceResponse,
> {
    if state.env.cycles_balance >= USER_CANISTER_TOP_UP_AMOUNT + MIN_CYCLES_BALANCE {
        Ok(
            PrepareResult {
                user_id: state.env.caller,
                top_up: CyclesTopUp { date: state.env.now, amount: USER_CANISTER_TOP_UP_AMOUNT },
            },
        )
    } else {
        Err(NotifyLowBalanceResponse::NotEnoughCyclesRemaining)
    }
}

/// Prepare step: the caller (a user actor, whose identity is its user id)
/// receives a top-up intent exactly when the spend keeps the reserve intact;
/// no mutation happens here.
pub fn prepare(state: &RuntimeState) -> (r: Result<PrepareResult, NotifyLowBalanceResponse>)
    ensures
        r == prepare_outcome(*state),
{
    let user_id: UserId = state.env.caller;
    let top_up = CyclesTopUp { date: state.env.now, amount: USER_CANISTER_TOP_UP_AMOUNT };
    if can_spend_cycles(state.env.cycles_balance, USER_CANISTER_TOP_UP_AMOUNT, MIN_CYCLES_BALANCE) {
        Ok(PrepareResult { user_id, top_up })
    } else {
        Err(NotifyLowBalanceResponse::NotEnoughCyclesRemaining)
    }
}

/// Commit step, run only after the deposit succeeded: adds the spend to the
/// running total and records the top-up against the user. Returns `false` —
/// leaving the state untouched, for the caller to abort on — when the user is
/// not registered, which indicates state corruption and must not be swallowed.
pub fn commit(user_id: UserId, top_up: CyclesTopUp, state: &mut RuntimeState) -> (r: bool)
    requires
        old(state).wf(),
        old(state).data.total_cycles_spent_on_canisters + top_up.amount <= Cycles::MAX,
    ensures
        final(state).wf(),
        r == old(state).data.local_users.has_user(user_id),
        !r ==> *final(state) == *old(state),
        r ==> final(state).env == old(state).env
            && final(state).data.total_cycles_spent_on_canisters == old(
            state,
        ).data.total_cycles_spent_on_canisters + top_up.amount && {
            let i = old(state).data.local_users.index_of_user(user_id);
            &&& final(state).data.local_users.users_seq().len() == old(
                state,
            ).data.local_users.users_seq().len()
            &&& (forall|k: int|
                0 <= k < old(state).data.local_users.users_seq().len() && k != i
                    ==> #[trigger] final(state).data.local_users.users_seq()[k] == old(
                    state,
                ).data.local_users.users_seq()[k])
            &&& final(state).data.local_users.users_seq()[i].cycle_top_ups@ =~= old(
                state,
            ).data.local_users.users_seq()[i].cycle_top_ups@.push(top_up)
        },
{
    let new_total = state.data.total_cycles_spent_on_canisters + top_up.amount;
    if state.data.local_users.mark_cycles_top_up(&user_id, top_up) {
        state.data.total_cycles_spent_on_canisters = new_total;
        true
    } else {
        false
    }
}

} // verus!
