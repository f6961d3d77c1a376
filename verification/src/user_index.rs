//! The user-index actor's registry of platform users, with time-scoped
//! suspension. A suspension carries the moment it was applied and an optional
//! duration; it is active through the instant `timestamp + duration`
//! inclusive, and one time unit later it is not.

use vstd::prelude::*;
use crate::types::{Milliseconds, Principal, TimestampMillis, UserId};

verus! {

#[derive(Clone, Copy, PartialEq, Eq, Structural)]
pub struct SuspensionDetails {
    pub timestamp: TimestampMillis,
    pub duration: Option<Milliseconds>,
}

impl SuspensionDetails {
    /// Active indefinitely without a duration, otherwise through
    /// `timestamp + duration` inclusive.
    pub open spec fn is_active_spec(self, now: TimestampMillis) -> bool {
        match self.duration {
            None => true,
            Some(d) => now <= self.timestamp + d,
        }
    }

    pub fn is_active(&self, now: TimestampMillis) -> (r: bool)
        ensures
            r == self.is_active_spec(now),
    {
        match self.duration {
            None => true,
            Some(d) => match self.timestamp.checked_add(d) {
                Some(end) => now <= end,
                None => true,
            },
        }
    }
}

pub struct UserRecord {
    pub user_id: UserId,
    pub principal: Principal,
    pub username: String,
    pub suspension: Option<SuspensionDetails>,
}

pub struct UserIndexState {
    users: Vec<UserRecord>,
}

#[derive(PartialEq, Eq, Structural)]
pub struct CurrentUserResponse {
    pub user_id: UserId,
    pub suspended: bool,
}

impl UserIndexState {
    pub closed spec fn users_seq(&self) -> Seq<UserRecord> {
        self.users@
    }

    pub open spec fn wf(&self) -> bool {
        let s = self.users_seq();
        (forall|i: int, j: int|
            0 <= i < j < s.len() ==> (#[trigger] s[i]).user_id != (#[trigger] s[j]).user_id)
        && (forall|i: int, j: int|
            0 <= i < j < s.len() ==> (#[trigger] s[i]).principal != (#[trigger] s[j]).principal)
    }

    pub open spec fn has_user(&self, user_id: UserId) -> bool {
        exists|i: int|
            0 <= i < self.users_seq().len() && (#[trigger] self.users_seq()[i]).user_id == user_id
    }

    pub open spec fn index_of_user(&self, user_id: UserId) -> int {
        choose|i: int|
            0 <= i < self.users_seq().len() && (#[trigger] self.users_seq()[i]).user_id == user_id
    }

    pub open spec fn has_principal(&self, principal: Principal) -> bool {
        exists|i: int|
            0 <= i < self.users_seq().len() && (#[trigger] self.users_seq()[i]).principal
                == principal
    }

    pub open spec fn index_of_principal(&self, principal: Principal) -> int {
        choose|i: int|
            0 <= i < self.users_seq().len() && (#[trigger] self.users_seq()[i]).principal
                == principal
    }

    /// Whether the user is suspended as observed at `now`.
    pub open spec fn is_suspended_spec(&self, user_id: UserId, now: TimestampMillis) -> bool {
        self.has_user(user_id) && match self.users_seq()[self.index_of_user(user_id)].suspension {
            Some(d) => d.is_active_spec(now),
            None => false,
        }
    }

    pub fn new() -> (r: Self)
        ensures
            r.users_seq() =~= Seq::<UserRecord>::empty(),
            r.wf(),
    {
        UserIndexState { users: Vec::new() }
    }

    #[verifier::loop_isolation(false)]
    pub fn register_user(&mut self, user_id: UserId, principal: Principal, username: String)
        -> (added: bool)
        requires
            old(self).wf(),
        ensures
            final(self).wf(),
            added == (!old(self).has_user(user_id) && !old(self).has_principal(principal)),
            added ==> final(self).users_seq().len() == old(self).users_seq().len() + 1 && old(
                self,
            ).users_seq().is_prefix_of(final(self).users_seq())
                && final(self).users_seq().last().user_id == user_id
                && final(self).users_seq().last().principal == principal
                && final(self).users_seq().last().suspension is None,
            !added ==> *final(self) == *old(self),
    {
        if self.find_by_user_id(&user_id).is_some() {
            return false;
        }
        if self.find_by_principal(&principal).is_some() {
            return false;
        }
        let ghost s = self.users_seq();
        self.users.push(UserRecord { user_id, principal, username, suspension: None });
        proof {
            assert(s.is_prefix_of(self.users_seq())) by {
                assert(self.users_seq().take(s.len() as int) =~= s);
            }
            assert forall|i: int, j: int|
                0 <= i < j < self.users_seq().len() implies (#[trigger] self.users_seq()[
            i]).user_id != (#[trigger] self.users_seq()[j]).user_id && self.users_seq()[i].principal
                != self.users_seq()[j].principal by {
                if j < s.len() {
                } else {
                    assert(self.users_seq()[i] == s[i]);
                }
            }
        }
        true
    }

    #[verifier::loop_isolation(false)]
    fn find_by_user_id(&self, user_id: &UserId) -> (r: Option<usize>)
        requires
            self.wf(),
        ensures
            match r {
                Some(i) => self.has_user(*user_id) && i == self.index_of_user(*user_id) && i
                    < self.users_seq().len() && self.users_seq()[i as int].user_id == *user_id,
                None => !self.has_user(*user_id),
            },
    {
        let n = self.users.len();
        let mut i: usize = 0;
        while i < n
            invariant
                n == self.users_seq().len(),
                0 <= i <= n,
                forall|k: int| 0 <= k < i ==> (#[trigger] self.users_seq()[k]).user_id != *user_id,
            decreases n - i,
        {
            if self.users[i].user_id == *user_id {
                proof {
                    assert(self.has_user(*user_id));
                    let j = self.index_of_user(*user_id);
                    if i != j {
                        assert(self.users_seq()[i as int].user_id == self.users_seq()[j].user_id);
                    }
                }
                return Some(i);
            }
            i += 1;
        }
        None
    }

    #[verifier::loop_isolation(false)]
    fn find_by_principal(&self, principal: &Principal) -> (r: Option<usize>)
        requires
            self.wf(),
        ensures
            match r {
                Some(i) => self.has_principal(*principal) && i == self.index_of_principal(
                    *principal,
                ) && i < self.users_seq().len() && self.users_seq()[i as int].principal
                    == *principal,
                None => !self.has_principal(*principal),
            },
    {
        let n = self.users.len();
        let mut i: usize = 0;
        while i < n
            invariant
                n == self.users_seq().len(),
                0 <= i <= n,
                forall|k: int|
                    0 <= k < i ==> (#[trigger] self.users_seq()[k]).principal != *principal,
            decreases n - i,
        {
            if self.users[i].principal == *principal {
                proof {
                    assert(self.has_principal(*principal));
                    let j = self.index_of_principal(*principal);
                    if i != j {
                        assert(self.users_seq()[i as int].principal
                            == self.users_seq()[j].principal);
                    }
                }
                return Some(i);
            }
            i += 1;
        }
        None
    }

    /// Replaces the suspension of the user's record, leaving every other
    /// record and every other field untouched.
    fn set_suspension(&mut self, user_id: &UserId, suspension: Option<SuspensionDetails>) -> (r:
        bool)
        requires
            old(self).wf(),
        ensures
            final(self).wf(),
            r == old(self).has_user(*user_id),
            !r ==> *final(self) == *old(self),
            r ==> {
                let i = old(self).index_of_user(*user_id);
                &&& final(self).users_seq().len() == old(self).users_seq().len()
                &&& (forall|k: int|
                    0 <= k < old(self).users_seq().len() && k != i
                        ==> #[trigger] final(self).users_seq()[k] == old(self).users_seq()[k])
                &&& final(self).users_seq()[i].user_id == *user_id
                &&& final(self).users_seq()[i].principal == old(self).users_seq()[i].principal
                &&& final(self).users_seq()[i].username == old(self).users_seq()[i].username
                &&& final(self).users_seq()[i].suspension == suspension
                &&& final(self).index_of_user(*user_id) == i
            },
    {
        match self.find_by_user_id(user_id) {
            None => false,
            Some(i) => {
                let ghost s = self.users_seq();
                let mut u = self.users.remove(i);
                u.suspension = suspension;
                self.users.insert(i, u);
                proof {
                    assert forall|k: int|
                        0 <= k < self.users_seq().len() && k != i implies #[trigger] self
                        .users_seq()[k] == s[k] by {
                        assert(self.users_seq() =~= s.remove(i as int).insert(i as int, u));
                    }
                    assert(self.users_seq()[i as int] == u);
                    assert forall|a: int, b: int|
                        0 <= a < b < self.users_seq().len() implies (#[trigger] self.users_seq()[
                    a]).user_id != (#[trigger] self.users_seq()[b]).user_id && self.users_seq()[
                        a].principal != self.users_seq()[b].principal by {
                        assert(self.users_seq()[a].user_id == s[a].user_id);
                        assert(self.users_seq()[b].user_id == s[b].user_id);
                        assert(self.users_seq()[a].principal == s[a].principal);
                        assert(self.users_seq()[b].principal == s[b].principal);
                    }
                    let j = self.index_of_user(*user_id);
                    assert(self.users_seq()[i as int].user_id == *user_id);
                    if i != j {
                        assert(self.users_seq()[i as int].user_id == self.users_seq()[j].user_id);
                    }
                }
                true
            },
        }
    }

    /// Suspends the user at `now`, indefinitely or for `duration` time units.
    /// Returns whether the user exists; an unknown user changes nothing.
    pub fn suspend_user(
        &mut self,
        user_id: UserId,
        duration: Option<Milliseconds>,
        now: TimestampMillis,
    ) -> (r: bool)
        requires
            old(self).wf(),
        ensures
            final(self).wf(),
            r == old(self).has_user(user_id),
            !r ==> *final(self) == *old(self),
            r ==> final(self).users_seq()[old(self).index_of_user(user_id)].suspension == Some(
                SuspensionDetails { timestamp: now, duration },
            ) && final(self).is_suspended_spec(user_id, now),
            r ==> forall|k: int|
                0 <= k < old(self).users_seq().len() && k != old(self).index_of_user(user_id)
                    ==> #[trigger] final(self).users_seq()[k] == old(self).users_seq()[k],
    {
        self.set_suspension(&user_id, Some(SuspensionDetails { timestamp: now, duration }))
    }

    /// Lifts a suspension. Returns whether the user exists.
    pub fn unsuspend_user(&mut self, user_id: UserId) -> (r: bool)
        requires
            old(self).wf(),
        ensures
            final(self).wf(),
            r == old(self).has_user(user_id),
            !r ==> *final(self) == *old(self),
            r ==> final(self).users_seq()[old(self).index_of_user(user_id)].suspension is None
                && (forall|t: TimestampMillis| !final(self).is_suspended_spec(user_id, t)),
            r ==> forall|k: int|
                0 <= k < old(self).users_seq().len() && k != old(self).index_of_user(user_id)
                    ==> #[trigger] final(self).users_seq()[k] == old(self).users_seq()[k],
    {
        self.set_suspension(&user_id, None)
    }

    /// Resolves the caller's transport identity and reports whether the user
    /// is suspended as observed at `now`.
    pub fn current_user(&self, principal: &Principal, now: TimestampMillis) -> (r: Option<
        CurrentUserResponse,
    >)
        requires
            self.wf(),
        ensures
            r is Some <==> self.has_principal(*principal),
            r matches Some(c) ==> {
                let u = self.users_seq()[self.index_of_principal(*principal)];
                c.user_id == u.user_id && c.suspended == self.is_suspended_spec(u.user_id, now)
            },
    {
        match self.find_by_principal(principal) {
            None => None,
            Some(i) => {
                let u = &self.users[i];
                let suspended = match &u.suspension {
                    Some(d) => d.is_active(now),
                    None => false,
                };
                proof {
                    assert(self.has_user(u.user_id));
                    let j = self.index_of_user(u.user_id);
                    if i != j {
                        assert(self.users_seq()[i as int].user_id == self.users_seq()[j].user_id);
                    }
                }
                Some(CurrentUserResponse { user_id: u.user_id, suspended })
            },
        }
    }
}

} // verus!
