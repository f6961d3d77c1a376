//! Participant registry: the aggregate state of one group actor. Participants
//! are keyed by user identifier and by transport principal, both unique; a
//! user is never simultaneously a participant and blocked.

use vstd::prelude::*;
use crate::types::{Principal, TimestampMillis, UserId};

verus! {

#[derive(Clone, Copy, PartialEq, Eq, Structural)]
pub enum Role {
    Owner,
    Admin,
    Participant,
}

impl Role {
    /// Authorization table entry: only these roles may block another user.
    pub open spec fn can_block_user_spec(self) -> bool {
        self is Owner || self is Admin
    }

    pub fn can_block_user(&self) -> (r: bool)
        ensures
            r == self.can_block_user_spec(),
    {
        matches!(self, Role::Owner | Role::Admin)
    }

    /// Authorization table entry: only these roles may be removed by a blocker.
    pub open spec fn can_be_removed_spec(self) -> bool {
        !(self is Owner)
    }

    pub fn can_be_removed(&self) -> (r: bool)
        ensures
            r == self.can_be_removed_spec(),
    {
        !matches!(self, Role::Owner)
    }
}

#[derive(Clone, Copy)]
pub struct Participant {
    pub user_id: UserId,
    pub principal: Principal,
    pub role: Role,
    pub date_added: TimestampMillis,
    pub suspended: bool,
}

pub struct Participants {
    participants: Vec<Participant>,
    blocked: Vec<UserId>,
}

impl Participants {
    pub closed spec fn participants_seq(&self) -> Seq<Participant> {
        self.participants@
    }

    pub closed spec fn blocked_seq(&self) -> Seq<UserId> {
        self.blocked@
    }

    /// Dual indices in sync and the combined invariant: user ids unique,
    /// principals unique, blocked list duplicate-free, and no user both a
    /// participant and blocked.
    pub open spec fn wf(&self) -> bool {
        let s = self.participants_seq();
        let b = self.blocked_seq();
        (forall|i: int, j: int|
            0 <= i < j < s.len() ==> (#[trigger] s[i]).user_id != (#[trigger] s[j]).user_id)
        && (forall|i: int, j: int|
            0 <= i < j < s.len() ==> (#[trigger] s[i]).principal != (#[trigger] s[j]).principal)
        && (forall|i: int, j: int| 0 <= i < j < b.len() ==> #[trigger] b[i] != #[trigger] b[j])
        && (forall|i: int, j: int|
            0 <= i < s.len() && 0 <= j < b.len() ==> (#[trigger] s[i]).user_id != #[trigger] b[j])
    }

    pub open spec fn is_participant(&self, user_id: UserId) -> bool {
        exists|i: int|
            0 <= i < self.participants_seq().len()
                && (#[trigger] self.participants_seq()[i]).user_id == user_id
    }

    pub open spec fn has_principal(&self, principal: Principal) -> bool {
        exists|i: int|
            0 <= i < self.participants_seq().len()
                && (#[trigger] self.participants_seq()[i]).principal == principal
    }

    pub open spec fn index_of_user(&self, user_id: UserId) -> int {
        choose|i: int|
            0 <= i < self.participants_seq().len()
                && (#[trigger] self.participants_seq()[i]).user_id == user_id
    }

    pub open spec fn index_of_principal(&self, principal: Principal) -> int {
        choose|i: int|
            0 <= i < self.participants_seq().len()
                && (#[trigger] self.participants_seq()[i]).principal == principal
    }

    /// The unique participant registered under `user_id`.
    pub open spec fn participant_by_user_id(&self, user_id: UserId) -> Participant {
        self.participants_seq()[self.index_of_user(user_id)]
    }

    /// The unique participant whose transport identity is `principal`.
    pub open spec fn participant_by_principal(&self, principal: Principal) -> Participant {
        self.participants_seq()[self.index_of_principal(principal)]
    }

    pub open spec fn is_blocked_spec(&self, user_id: UserId) -> bool {
        self.blocked_seq().contains(user_id)
    }

    pub proof fn lemma_user_id_unique(&self, i: int, j: int)
        requires
            self.wf(),
            0 <= i < self.participants_seq().len(),
            0 <= j < self.participants_seq().len(),
            self.participants_seq()[i].user_id == self.participants_seq()[j].user_id,
        ensures
            i == j,
    {
    }

    pub proof fn lemma_principal_unique(&self, i: int, j: int)
        requires
            self.wf(),
            0 <= i < self.participants_seq().len(),
            0 <= j < self.participants_seq().len(),
            self.participants_seq()[i].principal == self.participants_seq()[j].principal,
        ensures
            i == j,
    {
    }

    pub fn new() -> (r: Self)
        ensures
            r.participants_seq() =~= Seq::<Participant>::empty(),
            r.blocked_seq() =~= Seq::<UserId>::empty(),
            r.wf(),
    {
        Participants { participants: Vec::new(), blocked: Vec::new() }
    }

    /// Registers a participant on join. Rejected when the user id or the
    /// principal is already registered, or the user is blocked.
    #[verifier::loop_isolation(false)]
    pub fn add(&mut self, participant: Participant) -> (added: bool)
        requires
            old(self).wf(),
        ensures
            final(self).wf(),
            added == (!old(self).is_participant(participant.user_id)
                && !old(self).has_principal(participant.principal)
                && !old(self).is_blocked_spec(participant.user_id)),
            added ==> final(self).participants_seq() =~= old(self).participants_seq().push(
                participant,
            ) && final(self).blocked_seq() == old(self).blocked_seq(),
            !added ==> *final(self) == *old(self),
    {
        if self.get_by_user_id(&participant.user_id).is_some() {
            return false;
        }
        if self.get_by_principal(&participant.principal).is_some() {
            return false;
        }
        if self.is_blocked(&participant.user_id) {
            return false;
        }
        let ghost s = self.participants_seq();
        self.participants.push(participant);
        proof {
            assert forall|i: int, j: int|
                0 <= i < j < self.participants_seq().len() implies (#[trigger] self
                .participants_seq()[i]).user_id != (#[trigger] self.participants_seq()[j]).user_id
                && self.participants_seq()[i].principal != self.participants_seq()[j].principal by {
                if j < s.len() {
                } else {
                    assert(self.participants_seq()[j] == participant);
                    assert(self.participants_seq()[i] == s[i]);
                }
            }
        }
        true
    }

    #[verifier::loop_isolation(false)]
    pub fn get_by_user_id(&self, user_id: &UserId) -> (r: Option<&Participant>)
        requires
            self.wf(),
        ensures
            match r {
                Some(p) => self.is_participant(*user_id) && *p == self.participant_by_user_id(
                    *user_id,
                ) && p.user_id == *user_id,
                None => !self.is_participant(*user_id),
            },
    {
        let n = self.participants.len();
        let mut i: usize = 0;
        while i < n
            invariant
                n == self.participants_seq().len(),
                0 <= i <= n,
                forall|k: int|
                    0 <= k < i ==> (#[trigger] self.participants_seq()[k]).user_id != *user_id,
            decreases n - i,
        {
            if self.participants[i].user_id == *user_id {
                proof {
                    self.lemma_user_id_unique(i as int, self.index_of_user(*user_id));
                }
                return Some(&self.participants[i]);
            }
            i += 1;
        }
        None
    }

    #[verifier::loop_isolation(false)]
    pub fn get_by_principal(&self, principal: &Principal) -> (r: Option<&Participant>)
        requires
            self.wf(),
        ensures
            match r {
                Some(p) => self.has_principal(*principal) && *p == self.participant_by_principal(
                    *principal,
                ) && p.principal == *principal,
                None => !self.has_principal(*principal),
            },
    {
        let n = self.participants.len();
        let mut i: usize = 0;
        while i < n
            invariant
                n == self.participants_seq().len(),
                0 <= i <= n,
                forall|k: int|
                    0 <= k < i ==> (#[trigger] self.participants_seq()[k]).principal != *principal,
            decreases n - i,
        {
            if self.participants[i].principal == *principal {
                proof {
                    self.lemma_principal_unique(i as int, self.index_of_principal(*principal));
                }
                return Some(&self.participants[i]);
            }
            i += 1;
        }
        None
    }

    #[verifier::loop_isolation(false)]
    pub fn is_blocked(&self, user_id: &UserId) -> (r: bool)
        ensures
            r == self.is_blocked_spec(*user_id),
    {
        let n = self.blocked.len();
        let mut i: usize = 0;
        while i < n
            invariant
                n == self.blocked_seq().len(),
                0 <= i <= n,
                forall|k: int| 0 <= k < i ==> #[trigger] self.blocked_seq()[k] != *user_id,
            decreases n - i,
        {
            if self.blocked[i] == *user_id {
                return true;
            }
            i += 1;
        }
        false
    }

    /// Adds `user_id` to the block list. Idempotent at the data level: blocking
    /// an already-blocked user changes nothing.
    pub fn block(&mut self, user_id: UserId)
        requires
            old(self).wf(),
            !old(self).is_participant(user_id),
        ensures
            final(self).wf(),
            final(self).participants_seq() == old(self).participants_seq(),
            old(self).is_blocked_spec(user_id) ==> *final(self) == *old(self),
            !old(self).is_blocked_spec(user_id) ==> final(self).blocked_seq() =~= old(
                self,
            ).blocked_seq().push(user_id),
            final(self).is_blocked_spec(user_id),
    {
        if !self.is_blocked(&user_id) {
            let ghost b = self.blocked_seq();
            self.blocked.push(user_id);
            proof {
                assert(self.blocked_seq()[b.len() as int] == user_id);
                assert forall|i: int, j: int|
                    0 <= i < j < self.blocked_seq().len() implies #[trigger] self.blocked_seq()[i]
                    != #[trigger] self.blocked_seq()[j] by {
                    if j < b.len() {
                    } else {
                        assert(self.blocked_seq()[j] == user_id);
                        assert(self.blocked_seq()[i] == b[i]);
                        assert(!b.contains(user_id));
                    }
                }
            }
        } else {
            proof {
                assert(self.blocked_seq().contains(user_id));
            }
        }
    }

    /// Removes `user_id` from the registry entirely (no soft delete). A no-op
    /// when the user is not a participant.
    #[verifier::loop_isolation(false)]
    pub fn remove(&mut self, user_id: UserId)
        requires
            old(self).wf(),
        ensures
            final(self).wf(),
            final(self).blocked_seq() == old(self).blocked_seq(),
            !old(self).is_participant(user_id) ==> *final(self) == *old(self),
            old(self).is_participant(user_id) ==> final(self).participants_seq() =~= old(
                self,
            ).participants_seq().remove(old(self).index_of_user(user_id)),
            !final(self).is_participant(user_id),
    {
        let n = self.participants.len();
        let mut i: usize = 0;
        while i < n
            invariant
                *self == *old(self),
                n == self.participants_seq().len(),
                0 <= i <= n,
                forall|k: int|
                    0 <= k < i ==> (#[trigger] self.participants_seq()[k]).user_id != user_id,
            decreases n - i,
        {
            if self.participants[i].user_id == user_id {
                proof {
                    assert(self.is_participant(user_id));
                    self.lemma_user_id_unique(i as int, self.index_of_user(user_id));
                }
                let ghost s = self.participants_seq();
                self.participants.remove(i);
                proof {
                    assert forall|k: int|
                        0 <= k < self.participants_seq().len() implies #[trigger] self
                        .participants_seq()[k] == (if k < i { s[k] } else { s[k + 1] }) by {
                        assert(self.participants_seq() == s.remove(i as int));
                    }
                    assert forall|k: int|
                        0 <= k < self.participants_seq().len() implies (#[trigger] self
                        .participants_seq()[k]).user_id != user_id by {
                        if k < i {
                            self.lemma_user_id_unique_pre(s, k, i as int);
                        } else {
                            self.lemma_user_id_unique_pre(s, k + 1, i as int);
                        }
                    }
                    let t = self.participants_seq();
                    assert forall|a: int, b: int|
                        0 <= a < b < t.len() implies (#[trigger] t[a]).user_id != (
                    #[trigger] t[b]).user_id && t[a].principal != t[b].principal by {
                        assert(t[a] == (if a < i { s[a] } else { s[a + 1] }));
                        assert(t[b] == (if b < i { s[b] } else { s[b + 1] }));
                    }
                    assert forall|a: int, j: int|
                        0 <= a < t.len() && 0 <= j < self.blocked_seq().len() implies (
                    #[trigger] t[a]).user_id != #[trigger] self.blocked_seq()[j] by {
                        assert(t[a] == (if a < i { s[a] } else { s[a + 1] }));
                        assert(old(self).participants_seq() == s);
                        assert(old(self).blocked_seq() == self.blocked_seq());
                        let m: int = if a < i { a } else { a + 1 };
                        assert(s[m].user_id != old(self).blocked_seq()[j]);
                    }
                    assert forall|a: int, b2: int|
                        0 <= a < b2 < self.blocked_seq().len() implies #[trigger] self
                        .blocked_seq()[a] != #[trigger] self.blocked_seq()[b2] by {
                        assert(self.blocked_seq() == old(self).blocked_seq());
                        assert(old(self).blocked_seq()[a] != old(self).blocked_seq()[b2]);
                    }
                }
                return ;
            }
            i += 1;
        }
    }

    /// Replaces the suspended flag of the participant's record, leaving every
    /// other record and every other field untouched. Returns whether the user
    /// is a participant; an unknown user changes nothing.
    #[verifier::loop_isolation(false)]
    pub fn set_user_suspended(&mut self, user_id: UserId, suspended: bool) -> (r: bool)
        requires
            old(self).wf(),
        ensures
            final(self).wf(),
            r == old(self).is_participant(user_id),
            !r ==> *final(self) == *old(self),
            final(self).blocked_seq() == old(self).blocked_seq(),
            r ==> {
                let i = old(self).index_of_user(user_id);
                &&& final(self).participants_seq().len() == old(self).participants_seq().len()
                &&& (forall|k: int|
                    0 <= k < old(self).participants_seq().len() && k != i
                        ==> #[trigger] final(self).participants_seq()[k] == old(
                        self,
                    ).participants_seq()[k])
                &&& final(self).participants_seq()[i].user_id == user_id
                &&& final(self).participants_seq()[i].principal == old(self).participants_seq()[
                    i].principal
                &&& final(self).participants_seq()[i].role == old(self).participants_seq()[i].role
                &&& final(self).participants_seq()[i].suspended == suspended
                &&& final(self).index_of_user(user_id) == i
            },
    {
        let n = self.participants.len();
        let mut i: usize = 0;
        while i < n
            invariant
                *self == *old(self),
                n == self.participants_seq().len(),
                0 <= i <= n,
                forall|k: int|
                    0 <= k < i ==> (#[trigger] self.participants_seq()[k]).user_id != user_id,
            decreases n - i,
        {
            if self.participants[i].user_id == user_id {
                proof {
                    assert(self.is_participant(user_id));
                    self.lemma_user_id_unique(i as int, self.index_of_user(user_id));
                }
                let ghost s = self.participants_seq();
                let mut p = self.participants.remove(i);
                p.suspended = suspended;
                self.participants.insert(i, p);
                proof {
                    assert forall|k: int|
                        0 <= k < self.participants_seq().len() && k != i implies #[trigger] self
                        .participants_seq()[k] == s[k] by {
                        assert(self.participants_seq() =~= s.remove(i as int).insert(i as int, p));
                    }
                    assert(self.participants_seq()[i as int] == p);
                    assert forall|a: int, b: int|
                        0 <= a < b < self.participants_seq().len() implies (#[trigger] self
                        .participants_seq()[a]).user_id != (#[trigger] self.participants_seq()[
                    b]).user_id && self.participants_seq()[a].principal
                        != self.participants_seq()[b].principal by {
                        assert(self.participants_seq()[a].user_id == s[a].user_id);
                        assert(self.participants_seq()[b].user_id == s[b].user_id);
                        assert(self.participants_seq()[a].principal == s[a].principal);
                        assert(self.participants_seq()[b].principal == s[b].principal);
                    }
                    assert forall|a: int, j: int|
                        0 <= a < self.participants_seq().len() && 0 <= j < self.blocked_seq().len()
                        implies (#[trigger] self.participants_seq()[a]).user_id
                        != #[trigger] self.blocked_seq()[j] by {
                        assert(self.participants_seq()[a].user_id == s[a].user_id);
                        assert(old(self).participants_seq() == s);
                        assert(old(self).blocked_seq() == self.blocked_seq());
                        assert(s[a].user_id != old(self).blocked_seq()[j]);
                    }
                    assert forall|a: int, b2: int|
                        0 <= a < b2 < self.blocked_seq().len() implies #[trigger] self
                        .blocked_seq()[a] != #[trigger] self.blocked_seq()[b2] by {
                        assert(self.blocked_seq() == old(self).blocked_seq());
                        assert(old(self).blocked_seq()[a] != old(self).blocked_seq()[b2]);
                    }
                    let j2 = self.index_of_user(user_id);
                    assert(self.participants_seq()[i as int].user_id == user_id);
                    if i != j2 {
                        assert(self.participants_seq()[i as int].user_id
                            == self.participants_seq()[j2].user_id);
                    }
                }
                return true;
            }
            i += 1;
        }
        false
    }

    /// Uniqueness argument phrased over a saved copy of the sequence, for use
    /// after a mutation.
    proof fn lemma_user_id_unique_pre(&self, s: Seq<Participant>, i: int, j: int)
        requires
            forall|a: int, b: int|
                0 <= a < b < s.len() ==> (#[trigger] s[a]).user_id != (#[trigger] s[b]).user_id,
            0 <= i < s.len(),
            0 <= j < s.len(),
            i != j,
        ensures
            s[i].user_id != s[j].user_id,
    {
    }
}

} // verus!
