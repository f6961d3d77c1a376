//! Blocking a user from a public group: the prepare / perform / commit
//! protocol around the asynchronous "remove this user from the shared
//! resource" call to the peer actor that owns the blocked user.
//!
//! `prepare` reads the aggregate, authorizes the caller and computes the
//! intent; the host then performs the external call (only when the blocked
//! user is currently a participant); `commit` re-validates against the state
//! found after the suspension and applies the mutation at most once.

use vstd::prelude::*;
use crate::event_log::{ChatEventInternal, UsersBlocked};
use crate::group::{handle_activity_notification, RuntimeState};
use crate::types::{CorrelationId, EventIndex, EventWrapper, TimestampMillis, UserId};

verus! {

#[derive(Clone, Copy)]
pub struct Args {
    pub user_id: UserId,
    pub correlation_id: CorrelationId,
}

#[derive(Debug)]
pub enum Response {
    Success,
    CallerNotInGroup,
    CannotBlockSelf,
    CannotBlockUser,
    GroupNotPublic,
    InternalError(String),
    NotAuthorized,
}

/// The intent computed by `prepare`: everything `commit` needs, plus the flag
/// telling the host whether the external removal call is required at all.
#[derive(Clone, Copy)]
pub struct PrepareResult {
    pub my_user_id: UserId,
    pub is_blocked_user_participant: bool,
}

/// Decision table of `prepare`, in evaluation order: the group must be public,
/// the caller must resolve to a participant, self-blocking is rejected, the
/// caller's role must grant the block capability, and a target that is still a
/// participant must have a removable role.
pub open spec fn prepare_outcome(args: Args, state: RuntimeState) -> Result<
    PrepareResult,
    Response,
> {
    let participants = state.data.participants;
    if !state.data.is_public {
        Err(Response::GroupNotPublic)
    } else if !participants.has_principal(state.env.caller) {
        Err(Response::CallerNotInGroup)
    } else {
        let me = participants.participant_by_principal(state.env.caller);
        if me.user_id == args.user_id {
            Err(Response::CannotBlockSelf)
        } else if !me.role.can_block_user_spec() {
            Err(Response::NotAuthorized)
        } else if !participants.is_participant(args.user_id) {
            Ok(PrepareResult { my_user_id: me.user_id, is_blocked_user_participant: false })
        } else if participants.participant_by_user_id(args.user_id).role.can_be_removed_spec() {
            Ok(PrepareResult { my_user_id: me.user_id, is_blocked_user_participant: true })
        } else {
            Err(Response::CannotBlockUser)
        }
    }
}

/// Prepare step: authorizes and validates against the current aggregate and
/// computes the intent. It performs no mutation (it only borrows the state)
/// and appends no event; on a validation failure the returned error is the
/// operation's terminal response.
pub fn prepare(args: &Args, state: &RuntimeState) -> (r: Result<PrepareResult, Response>)
    requires
        state.wf(),
    ensures
        r == prepare_outcome(*args, *state),
{
    let caller = state.env.caller;
    if !state.data.is_public {
        Err(Response::GroupNotPublic)
    } else if let Some(participant) = state.data.participants.get_by_principal(&caller) {
        if participant.user_id == args.user_id {
            Err(Response::CannotBlockSelf)
        } else if participant.role.can_block_user() {
            let my_user_id = participant.user_id;
            match state.data.participants.get_by_user_id(&args.user_id) {
                None => Ok(
                    PrepareResult { my_user_id, is_blocked_user_participant: false },
                ),
                Some(participant_to_remove) => {
                    if participant_to_remove.role.can_be_removed() {
                        Ok(PrepareResult { my_user_id, is_blocked_user_participant: true })
                    } else {
                        Err(Response::CannotBlockUser)
                    }
                },
            }
        } else {
            Err(Response::NotAuthorized)
        }
    } else {
        Err(Response::CallerNotInGroup)
    }
}

/// Shape of the event appended by a successful commit.
pub open spec fn is_users_blocked_event(
    w: EventWrapper<ChatEventInternal>,
    index: EventIndex,
    timestamp: TimestampMillis,
    user_id: UserId,
    blocked_by: UserId,
) -> bool {
    &&& w.index == index
    &&& w.timestamp == timestamp
    &&& w.event matches ChatEventInternal::UsersBlocked(ub) && ub.user_ids@ =~= seq![user_id]
        && ub.blocked_by == blocked_by
}

/// Everything a commit may do, as a relation between the state it found after
/// the suspension and the state it leaves behind. When the re-validation finds
/// the target already blocked, the commit is a no-op; otherwise it removes the
/// target from the registry, blocks it, appends exactly one `UsersBlocked`
/// event at the next index, and fires the activity notification.
pub open spec fn commit_rel(
    pre: RuntimeState,
    post: RuntimeState,
    blocked_by: UserId,
    user_id: UserId,
) -> bool {
    if pre.data.participants.is_blocked_spec(user_id) {
        post == pre
    } else {
        &&& post.env == pre.env
        &&& post.data.name == pre.data.name
        &&& post.data.is_public == pre.data.is_public
        &&& post.data.participants.blocked_seq() == pre.data.participants.blocked_seq().push(
            user_id,
        )
        &&& (if pre.data.participants.is_participant(user_id) {
            post.data.participants.participants_seq()
                == pre.data.participants.participants_seq().remove(
                pre.data.participants.index_of_user(user_id),
            )
        } else {
            post.data.participants.participants_seq()
                == pre.data.participants.participants_seq()
        })
        &&& post.data.events@.len() == pre.data.events@.len() + 1
        &&& pre.data.events@.is_prefix_of(post.data.events@)
        &&& is_users_blocked_event(
            post.data.events@.last(),
            pre.data.events@.len() as EventIndex,
            pre.env.now,
            user_id,
            blocked_by,
        )
        &&& post.data.latest_activity_notification == pre.env.now
    }
}

/// Commit step: runs synchronously after the external call succeeded or was
/// skipped. It re-validates that the target is not already blocked — the state
/// may have been mutated by interleaved messages while the actor was suspended
/// — and only then applies the mutation and appends the event.
pub fn commit(my_user_id: UserId, user_id: UserId, state: &mut RuntimeState)
    requires
        old(state).wf(),
    ensures
        final(state).wf(),
        commit_rel(*old(state), *final(state), my_user_id, user_id),
        final(state).data.participants.is_blocked_spec(user_id),
{
    if !state.data.participants.is_blocked(&user_id) {
        let now = state.env.now;
        // Remove before blocking, so the registry invariant (never both a
        // participant and blocked) holds at every step.
        state.data.participants.remove(user_id);
        state.data.participants.block(user_id);
        let mut user_ids: Vec<UserId> = Vec::new();
        user_ids.push(user_id);
        let event = UsersBlocked { user_ids, blocked_by: my_user_id };
        state.data.events.push_event(ChatEventInternal::UsersBlocked(event), now);
        handle_activity_notification(state);
        proof {
            let pre = *old(state);
            let post = *state;
            assert(pre.data.events@.is_prefix_of(post.data.events@)) by {
                assert(post.data.events@.take(pre.data.events@.len() as int)
                    =~= pre.data.events@);
            }
        }
    }
}

/// Idempotent commit: a second commit of the same operation against the state
/// the first one left behind changes nothing, whoever drives it — no duplicate
/// event is appended and no mutation is repeated.
pub proof fn lemma_commit_idempotent(
    s0: RuntimeState,
    s1: RuntimeState,
    s2: RuntimeState,
    blocked_by_first: UserId,
    blocked_by_second: UserId,
    user_id: UserId,
)
    requires
        commit_rel(s0, s1, blocked_by_first, user_id),
        commit_rel(s1, s2, blocked_by_second, user_id),
    ensures
        s2 == s1,
{
    if !s0.data.participants.is_blocked_spec(user_id) {
        let b = s1.data.participants.blocked_seq();
        assert(b[b.len() - 1] == user_id);
        assert(s1.data.participants.is_blocked_spec(user_id));
    }
}

/// Re-validation under interleaving: when a concurrent operation has already
/// blocked the target between prepare and commit, the commit detects it and
/// leaves the state exactly as it found it — no mutation, no event.
pub proof fn lemma_commit_revalidates(
    pre: RuntimeState,
    post: RuntimeState,
    blocked_by: UserId,
    user_id: UserId,
)
    requires
        pre.data.participants.is_blocked_spec(user_id),
        commit_rel(pre, post, blocked_by, user_id),
    ensures
        post == pre,
{
}

/// Authorization boundary: a resolved caller whose role lacks the block
/// capability always receives `NotAuthorized`. `prepare` only borrows the
/// state and a failed prepare is terminal, so no event is ever appended for
/// such a caller.
pub proof fn lemma_unauthorized_always_rejected(args: Args, state: RuntimeState)
    requires
        state.data.is_public,
        state.data.participants.has_principal(state.env.caller),
        state.data.participants.participant_by_principal(state.env.caller).user_id != args.user_id,
        !state.data.participants.participant_by_principal(
            state.env.caller,
        ).role.can_block_user_spec(),
    ensures
        prepare_outcome(args, state) == Err::<PrepareResult, Response>(Response::NotAuthorized),
{
}

} // verus!
