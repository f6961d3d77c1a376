//! Recommending public groups: the first `count` cached hot groups that the
//! caller did not exclude, each hydrated against the live public-group
//! directory; a cached entry that is no longer in the directory is dropped
//! without being replaced.

use vstd::prelude::*;
use crate::types::ChatId;

verus! {

pub struct PublicGroupSummary {
    pub chat_id: ChatId,
    pub name: String,
    pub participant_count: u32,
}

pub struct Args {
    pub count: u32,
    pub exclusions: Vec<ChatId>,
}

pub enum Response {
    Success(SuccessResult),
}

pub struct SuccessResult {
    pub groups: Vec<PublicGroupSummary>,
}

pub struct Data {
    pub cached_hot_groups: Vec<ChatId>,
    pub public_groups: Vec<PublicGroupSummary>,
}

pub struct RuntimeState {
    pub data: Data,
}

pub open spec fn has_group(groups: Seq<PublicGroupSummary>, id: ChatId) -> bool {
    exists|i: int| 0 <= i < groups.len() && (#[trigger] groups[i]).chat_id == id
}

pub open spec fn index_of_group(groups: Seq<PublicGroupSummary>, id: ChatId) -> int {
    choose|i: int| 0 <= i < groups.len() && (#[trigger] groups[i]).chat_id == id
}

/// The unique directory entry for `id`.
pub open spec fn group_of(groups: Seq<PublicGroupSummary>, id: ChatId) -> PublicGroupSummary {
    groups[index_of_group(groups, id)]
}

impl RuntimeState {
    /// The live directory lists each group at most once.
    pub open spec fn wf(&self) -> bool {
        forall|i: int, j: int|
            0 <= i < j < self.data.public_groups@.len() ==> (
            #[trigger] self.data.public_groups@[i]).chat_id != (
            #[trigger] self.data.public_groups@[j]).chat_id
    }
}

/// The exact recommendation list: walk the cached hot groups in order, skip
/// excluded ones without consuming the budget, consume one budget unit per
/// non-excluded entry, and keep those still present in the directory.
pub open spec fn recommended(
    cached: Seq<ChatId>,
    exclusions: Seq<ChatId>,
    groups: Seq<PublicGroupSummary>,
    count: int,
) -> Seq<PublicGroupSummary>
    decreases cached.len(),
{
    if count <= 0 || cached.len() == 0 {
        Seq::empty()
    } else if exclusions.contains(cached[0]) {
        recommended(cached.drop_first(), exclusions, groups, count)
    } else if has_group(groups, cached[0]) {
        seq![group_of(groups, cached[0])] + recommended(
            cached.drop_first(),
            exclusions,
            groups,
            count - 1,
        )
    } else {
        recommended(cached.drop_first(), exclusions, groups, count - 1)
    }
}

fn contains_chat_id(v: &Vec<ChatId>, id: ChatId) -> (r: bool)
    ensures
        r == v@.contains(id),
{
    let n = v.len();
    let mut i: usize = 0;
    while i < n
        invariant
            n == v@.len(),
            0 <= i <= n,
            forall|k: int| 0 <= k < i ==> v@[k] != id,
        decreases n - i,
    {
        if v[i] == id {
            proof {
                assert(v@[i as int] == id);
            }
            return true;
        }
        i += 1;
    }
    false
}

#[verifier::loop_isolation(false)]
fn hydrate(groups: &Vec<PublicGroupSummary>, id: ChatId) -> (r: Option<PublicGroupSummary>)
    requires
        forall|i: int, j: int|
            0 <= i < j < groups@.len() ==> (#[trigger] groups@[i]).chat_id != (
            #[trigger] groups@[j]).chat_id,
    ensures
        r is Some <==> has_group(groups@, id),
        r matches Some(g) ==> g == group_of(groups@, id),
{
    let n = groups.len();
    let mut i: usize = 0;
    while i < n
        invariant
            n == groups@.len(),
            0 <= i <= n,
            forall|k: int| 0 <= k < i ==> (#[trigger] groups@[k]).chat_id != id,
        decreases n - i,
    {
        if groups[i].chat_id == id {
            proof {
                assert(has_group(groups@, id));
                let j = index_of_group(groups@, id);
                if i != j {
                    assert(groups@[i as int].chat_id == groups@[j].chat_id);
                }
            }
            let g = &groups[i];
            return Some(
                PublicGroupSummary {
                    chat_id: g.chat_id,
                    name: g.name.clone(),
                    participant_count: g.participant_count,
                },
            );
        }
        i += 1;
    }
    None
}

/// Computes the recommendation response; a pure read of the aggregate.
#[verifier::loop_isolation(false)]
pub fn c2c_recommended_groups_impl(args: &Args, state: &RuntimeState) -> (r: Response)
    requires
        state.wf(),
    ensures
        r matches Response::Success(s) ==> s.groups@ =~= recommended(
            state.data.cached_hot_groups@,
            args.exclusions@,
            state.data.public_groups@,
            args.count as int,
        ),
        r is Success,
{
    let ghost cached = state.data.cached_hot_groups@;
    let ghost excl = args.exclusions@;
    let ghost dir = state.data.public_groups@;
    let mut groups: Vec<PublicGroupSummary> = Vec::new();
    let n = state.data.cached_hot_groups.len();
    let mut i: usize = 0;
    let mut remaining = args.count;
    proof {
        assert(cached.skip(0) =~= cached);
    }
    while i < n && remaining > 0
        invariant
            n == cached.len(),
            0 <= i <= n,
            remaining <= args.count,
            recommended(cached, excl, dir, args.count as int) =~= groups@ + recommended(
                cached.skip(i as int),
                excl,
                dir,
                remaining as int,
            ),
        decreases n - i,
    {
        let id = state.data.cached_hot_groups[i];
        proof {
            assert(cached.skip(i as int)[0] == cached[i as int]);
            assert(cached.skip(i as int).drop_first() =~= cached.skip(i as int + 1));
        }
        if !contains_chat_id(&args.exclusions, id) {
            match hydrate(&state.data.public_groups, id) {
                Some(g) => {
                    let ghost groups_old = groups@;
                    groups.push(g);
                    proof {
                        assert(groups@ =~= groups_old.push(g));
                        assert(groups_old + (seq![group_of(dir, id)] + recommended(
                            cached.skip(i as int + 1),
                            excl,
                            dir,
                            remaining as int - 1,
                        )) =~= groups@ + recommended(
                            cached.skip(i as int + 1),
                            excl,
                            dir,
                            remaining as int - 1,
                        ));
                    }
                },
                None => {},
            }
            remaining = remaining - 1;
        }
        i = i + 1;
    }
    proof {
        assert(recommended(cached.skip(i as int), excl, dir, remaining as int)
            =~= Seq::<PublicGroupSummary>::empty());
        assert(groups@ + Seq::<PublicGroupSummary>::empty() =~= groups@);
    }
    Response::Success(SuccessResult { groups })
}

} // verus!
