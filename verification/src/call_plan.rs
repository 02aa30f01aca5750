//! Which calls go into Multicall3 batches, and which are made one by one.

use std::collections::HashMap;

use vstd::prelude::*;

use crate::bytes::views;
use crate::multicall::{deploy_block, multicall3_deploy_block, DEFAULT_MULTICALL_BATCH_SIZE};
use crate::rpc_params::Params;
use crate::schema::Query;
use crate::seqs::{
    lemma_filter_all, lemma_filter_contains, lemma_filter_count, lemma_filter_none,
    lemma_filter_push, lemma_push_contains,
};

verus! {

/// Calls that are made together, at one block.
#[derive(Debug)]
pub struct CallBatch {
    /// block at which the calls are evaluated
    pub block: u64,
    /// parameters of the calls
    pub calls: Vec<Params>,
}

impl View for CallBatch {
    type V = (u64, Seq<Params>);

    /// A batch is modelled by its block and its calls.
    open spec fn view(&self) -> (u64, Seq<Params>) {
        (self.block, self.calls@)
    }
}

/// How a set of calls is made.
#[derive(Debug)]
pub struct CallPlan {
    /// calls that are batched
    pub batches: Vec<CallBatch>,
    /// calls that are made one by one
    pub singles: Vec<Params>,
}

/// The model of a plan.
pub struct PlanModel {
    pub batches: Seq<(u64, Seq<Params>)>,
    pub singles: Seq<Params>,
}

impl View for CallPlan {
    type V = PlanModel;

    open spec fn view(&self) -> PlanModel {
        PlanModel { batches: views(self.batches@), singles: self.singles@ }
    }
}

/// The block of a call; a call without one counts as at block 0.
pub open spec fn block_of(call: Params) -> u64 {
    match call.block_number {
        Some(block) => block,
        None => 0,
    }
}

/// Whether a call can be batched: Multicall3 is deployed at its block.
pub open spec fn eligible(call: Params, deployed: Option<u64>) -> bool {
    deployed matches Some(deployed) && block_of(call) >= deployed
}

/// The blocks of the calls, each once, in the order in which they first occur.
pub open spec fn blocks_of(calls: Seq<Params>) -> Seq<u64>
    decreases calls.len(),
{
    if calls.len() == 0 {
        Seq::empty()
    } else {
        let earlier = blocks_of(calls.drop_last());
        if earlier.contains(block_of(calls.last())) {
            earlier
        } else {
            earlier.push(block_of(calls.last()))
        }
    }
}

/// The calls at one block, in order.
pub open spec fn calls_at(calls: Seq<Params>, block: u64) -> Seq<Params> {
    calls.filter(|call: Params| block_of(call) == block)
}

/// The calls cut into batches of `size`, the last of which may be shorter.
pub open spec fn batches_of(block: u64, calls: Seq<Params>, size: nat) -> Seq<(u64, Seq<Params>)>
    decreases calls.len(),
{
    if size == 0 || calls.len() == 0 {
        Seq::empty()
    } else if calls.len() <= size {
        seq![(block, calls)]
    } else {
        seq![(block, calls.take(size as int))] + batches_of(block, calls.skip(size as int), size)
    }
}

/// The batches of the calls, block by block.
pub open spec fn batches_at(calls: Seq<Params>, blocks: Seq<u64>, size: nat) -> Seq<
    (u64, Seq<Params>),
>
    decreases blocks.len(),
{
    if blocks.len() == 0 {
        Seq::empty()
    } else {
        batches_at(calls, blocks.drop_last(), size) + batches_of(
            blocks.last(),
            calls_at(calls, blocks.last()),
            size,
        )
    }
}

/// The cap on the calls of one batch: the requested one, or the default for 0.
pub open spec fn batch_cap(requested: u32) -> nat {
    if requested == 0 {
        DEFAULT_MULTICALL_BATCH_SIZE as nat
    } else {
        requested as nat
    }
}

/// The calls that can be batched.
pub open spec fn eligible_calls(calls: Seq<Params>, deployed: Option<u64>) -> Seq<Params> {
    calls.filter(|call: Params| eligible(call, deployed))
}

/// The calls that cannot be batched.
pub open spec fn ineligible_calls(calls: Seq<Params>, deployed: Option<u64>) -> Seq<Params> {
    calls.filter(|call: Params| !eligible(call, deployed))
}

/// The plan for a set of calls on a chain: the eligible calls are batched by
/// block, and the others made one by one, as are all without batching.
pub open spec fn planned(calls: Seq<Params>, chain_id: u64, query: Query) -> PlanModel {
    if query.multicall {
        let batched = eligible_calls(calls, deploy_block(chain_id));
        PlanModel {
            batches: batches_at(batched, blocks_of(batched), batch_cap(query.multicall_batch_size)),
            singles: ineligible_calls(calls, deploy_block(chain_id)),
        }
    } else {
        PlanModel { batches: Seq::empty(), singles: calls }
    }
}

/// Whether the groups hold the calls of each block, in the order of the blocks.
spec fn grouped(groups: Seq<CallBatch>, calls: Seq<Params>) -> bool {
    &&& groups.len() == blocks_of(calls).len()
    &&& forall|i: int|
        0 <= i < groups.len() ==> (#[trigger] groups[i]).block == blocks_of(calls)[i]
            && groups[i].calls@ == calls_at(calls, blocks_of(calls)[i])
}

/// Whether the index gives the place of each block among the blocks.
spec fn indexed(index: Map<u64, usize>, blocks: Seq<u64>) -> bool {
    &&& forall|block: u64| #[trigger] index.contains_key(block) <==> blocks.contains(block)
    &&& forall|block: u64| #[trigger]
        index.contains_key(block) ==> index[block] < blocks.len() && blocks[index[block] as int]
            == block
}

pub proof fn lemma_blocks(calls: Seq<Params>)
    ensures
        blocks_of(calls).no_duplicates(),
        forall|i: int|
            0 <= i < calls.len() ==> blocks_of(calls).contains(block_of(#[trigger] calls[i])),
    decreases calls.len(),
{
    if calls.len() > 0 {
        let earlier = calls.drop_last();
        lemma_blocks(earlier);
        let last = block_of(calls.last());
        assert forall|i: int| 0 <= i < calls.len() implies blocks_of(calls).contains(
            block_of(#[trigger] calls[i]),
        ) by {
            lemma_push_contains(blocks_of(earlier), last, block_of(calls[i]));
            if i < earlier.len() {
                assert(earlier[i] == calls[i]);
            }
        }
    }
}

pub proof fn lemma_calls_at_new_block(calls: Seq<Params>, block: u64)
    requires
        !blocks_of(calls).contains(block),
    ensures
        calls_at(calls, block) == Seq::<Params>::empty(),
    decreases calls.len(),
{
    reveal(Seq::filter);
    if calls.len() > 0 {
        let earlier = calls.drop_last();
        lemma_push_contains(blocks_of(earlier), block_of(calls.last()), block);
        lemma_calls_at_new_block(earlier, block);
    }
    assert(calls_at(calls, block) =~= Seq::<Params>::empty());
}

/// Groups the calls by block, in the order in which the blocks first occur.
fn group_by_block(calls: Vec<Params>) -> (groups: Vec<CallBatch>)
    ensures
        grouped(groups@, calls@),
{
    broadcast use vstd::std_specs::hash::group_hash_axioms;

    let mut groups: Vec<CallBatch> = Vec::new();
    let mut index: HashMap<u64, usize> = HashMap::new();
    let ghost all = calls@;
    assert(blocks_of(all.take(0)) =~= Seq::empty());
    for call in it: calls
        invariant
            it.seq() == all,
            grouped(groups@, all.take(it.index())),
            indexed(index@, blocks_of(all.take(it.index()))),
            vstd::std_specs::hash::obeys_key_model::<u64>(),
            vstd::std_specs::hash::builds_valid_hashers::<std::hash::RandomState>(),
    {
        let ghost before = all.take(it.index());
        let ghost after = all.take(it.index() + 1);
        let block: u64 = match call.block_number {
            Some(block) => block,
            None => 0,
        };
        proof {
            assert(after =~= before.push(call));
            assert(after.drop_last() =~= before);
            lemma_blocks(before);
            lemma_blocks(after);
            assert forall|b: u64| #[trigger]
                calls_at(after, b) == (if b == block {
                    calls_at(before, b).push(call)
                } else {
                    calls_at(before, b)
                }) by {
                lemma_filter_push(before, call, |call: Params| block_of(call) == b);
            }
        }
        let known: Option<usize> = match index.get(&block) {
            Some(at) => Some(*at),
            None => None,
        };
        match known {
            Some(at) => {
                groups[at].calls.push(call);
                assert(grouped(groups@, after));
            },
            None => {
                proof {
                    lemma_calls_at_new_block(before, block);
                }
                index.insert(block, groups.len());
                let mut first: Vec<Params> = Vec::new();
                first.push(call);
                groups.push(CallBatch { block, calls: first });
                proof {
                    assert(grouped(groups@, after));
                    assert forall|b: u64| #[trigger]
                        blocks_of(after).contains(b) <==> blocks_of(before).contains(b) || b
                            == block by {
                        lemma_push_contains(blocks_of(before), block, b);
                    }
                    assert(indexed(index@, blocks_of(after)));
                }
            },
        }
    }
    assert(all.take(all.len() as int) =~= all);
    groups
}

/// Cuts the calls at one block into batches of `size`.
fn push_batches(batches: &mut Vec<CallBatch>, block: u64, calls: Vec<Params>, size: usize)
    requires
        size > 0,
    ensures
        views(final(batches)@) == views(old(batches)@) + batches_of(block, calls@, size as nat),
{
    let mut rest = calls;
    let ghost start = views(batches@);
    let ghost all = batches_of(block, calls@, size as nat);
    while rest.len() > size
        invariant
            size > 0,
            start + all == views(batches@) + batches_of(block, rest@, size as nat),
        decreases rest@.len(),
    {
        let ghost before = batches@;
        let ghost from = rest@;
        let later = rest.split_off(size);
        let batch = CallBatch { block, calls: rest };
        batches.push(batch);
        rest = later;
        proof {
            assert(batch@ == (block, from.take(size as int)));
            assert(rest@ =~= from.skip(size as int));
            assert(views(batches@) =~= views(before).push(batch@));
            assert(views(batches@) + batches_of(block, rest@, size as nat) =~= views(before)
                + batches_of(block, from, size as nat));
        }
    }
    if rest.len() > 0 {
        let ghost before = batches@;
        let batch = CallBatch { block, calls: rest };
        batches.push(batch);
        assert(views(batches@) =~= views(before) + seq![batch@]);
    }
    assert(views(batches@) =~= start + all);
}

/// The plan for a set of calls on a chain.
///
/// Calls at blocks where Multicall3 is deployed are batched by block; the
/// others, and all on an unknown chain or without batching, are made one by one.
pub fn plan_calls(calls: Vec<Params>, chain_id: u64, query: &Query) -> (plan: CallPlan)
    ensures
        plan@ == planned(calls@, chain_id, *query),
{
    if !query.multicall {
        let batches: Vec<CallBatch> = Vec::new();
        assert(views(batches@) =~= Seq::empty());
        return CallPlan { batches, singles: calls };
    }
    let deployed = multicall3_deploy_block(chain_id);
    let size: usize = if query.multicall_batch_size == 0 {
        DEFAULT_MULTICALL_BATCH_SIZE as usize
    } else {
        query.multicall_batch_size as usize
    };
    let mut batched: Vec<Params> = Vec::new();
    let mut singles: Vec<Params> = Vec::new();
    let ghost all = calls@;
    let ghost is_batched = |call: Params| eligible(call, deployed);
    let ghost is_single = |call: Params| !eligible(call, deployed);
    proof {
        reveal(Seq::filter);
        assert(all.take(0).filter(is_batched) =~= Seq::empty());
        assert(all.take(0).filter(is_single) =~= Seq::empty());
    }
    for call in it: calls
        invariant
            it.seq() == all,
            is_batched == (|call: Params| eligible(call, deployed)),
            is_single == (|call: Params| !eligible(call, deployed)),
            batched@ == all.take(it.index()).filter(is_batched),
            singles@ == all.take(it.index()).filter(is_single),
    {
        proof {
            assert(all.take(it.index() + 1) =~= all.take(it.index()).push(call));
            lemma_filter_push(all.take(it.index()), call, is_batched);
            lemma_filter_push(all.take(it.index()), call, is_single);
        }
        let block: u64 = match call.block_number {
            Some(block) => block,
            None => 0,
        };
        let batch: bool = match deployed {
            Some(deployed) => block >= deployed,
            None => false,
        };
        if batch {
            batched.push(call);
        } else {
            singles.push(call);
        }
    }
    assert(all.take(all.len() as int) =~= all);
    let ghost calls_batched = batched@;
    let ghost blocks = blocks_of(batched@);
    let groups = group_by_block(batched);
    let ghost all_groups = groups@;
    let mut batches: Vec<CallBatch> = Vec::new();
    assert(views(batches@) =~= batches_at(calls_batched, blocks.take(0), size as nat));
    for group in it: groups
        invariant
            size > 0,
            it.seq() == all_groups,
            blocks == blocks_of(calls_batched),
            grouped(all_groups, calls_batched),
            views(batches@) == batches_at(calls_batched, blocks.take(it.index()), size as nat),
    {
        assert(blocks.take(it.index() + 1).drop_last() =~= blocks.take(it.index()));
        push_batches(&mut batches, group.block, group.calls, size);
    }
    assert(blocks.take(blocks.len() as int) =~= blocks);
    CallPlan { batches, singles }
}

/// Every batch has at least one call and at most as many as the cap, all at the
/// block of the batch, where Multicall3 is deployed.
pub proof fn law_batches_are_sound(calls: Seq<Params>, chain_id: u64, query: Query, i: int)
    requires
        0 <= i < planned(calls, chain_id, query).batches.len(),
    ensures
        ({
            let batch = planned(calls, chain_id, query).batches[i];
            &&& 1 <= batch.1.len() <= batch_cap(query.multicall_batch_size)
            &&& deploy_block(chain_id) matches Some(deployed) && batch.0 >= deployed
            &&& forall|j: int|
                0 <= j < batch.1.len() ==> block_of(#[trigger] batch.1[j]) == batch.0
        }),
{
    let deployed = deploy_block(chain_id);
    let batched = eligible_calls(calls, deployed);
    lemma_batches_at(batched, blocks_of(batched), batch_cap(query.multicall_batch_size));
    let batch = planned(calls, chain_id, query).batches[i];
    assert(batched.contains(batch.1[0]));
    lemma_filter_contains(calls, batch.1[0], |call: Params| eligible(call, deployed));
}

spec fn batch_sound(batch: (u64, Seq<Params>), calls: Seq<Params>, size: nat) -> bool {
    &&& 1 <= batch.1.len() <= size
    &&& forall|j: int|
        0 <= j < batch.1.len() ==> block_of(#[trigger] batch.1[j]) == batch.0 && calls.contains(
            batch.1[j],
        )
}

proof fn lemma_batches_of(block: u64, calls: Seq<Params>, size: nat)
    ensures
        forall|i: int|
            0 <= i < batches_of(block, calls, size).len() ==> {
                &&& (#[trigger] batches_of(block, calls, size)[i]).0 == block
                &&& 1 <= batches_of(block, calls, size)[i].1.len() <= size
                &&& forall|j: int|
                    0 <= j < batches_of(block, calls, size)[i].1.len() ==> calls.contains(
                        #[trigger] batches_of(block, calls, size)[i].1[j],
                    )
            },
    decreases calls.len(),
{
    if size > 0 && calls.len() > size {
        let first = calls.take(size as int);
        let rest = calls.skip(size as int);
        lemma_batches_of(block, rest, size);
        let later = batches_of(block, rest, size);
        let all = batches_of(block, calls, size);
        assert forall|i: int| 0 <= i < all.len() implies {
            &&& (#[trigger] all[i]).0 == block
            &&& 1 <= all[i].1.len() <= size
            &&& forall|j: int| 0 <= j < all[i].1.len() ==> calls.contains(#[trigger] all[i].1[j])
        } by {
            if i == 0 {
                assert forall|j: int| 0 <= j < all[i].1.len() implies calls.contains(
                    #[trigger] all[i].1[j],
                ) by {
                    assert(calls[j] == first[j]);
                }
            } else {
                assert(all[i] == later[i - 1]);
                assert forall|j: int| 0 <= j < all[i].1.len() implies calls.contains(
                    #[trigger] all[i].1[j],
                ) by {
                    assert(rest.contains(later[i - 1].1[j]));
                    let k = choose|k: int| 0 <= k < rest.len() && rest[k] == later[i - 1].1[j];
                    assert(calls[k + size] == rest[k]);
                }
            }
        }
    }
}

proof fn lemma_batches_at(calls: Seq<Params>, blocks: Seq<u64>, size: nat)
    ensures
        forall|i: int|
            0 <= i < batches_at(calls, blocks, size).len() ==> batch_sound(
                #[trigger] batches_at(calls, blocks, size)[i],
                calls,
                size,
            ),
    decreases blocks.len(),
{
    if blocks.len() > 0 {
        let block = blocks.last();
        let earlier = batches_at(calls, blocks.drop_last(), size);
        let here = calls_at(calls, block);
        let last = batches_of(block, here, size);
        let all = batches_at(calls, blocks, size);
        lemma_batches_at(calls, blocks.drop_last(), size);
        lemma_batches_of(block, here, size);
        assert forall|i: int| 0 <= i < all.len() implies batch_sound(
            #[trigger] all[i],
            calls,
            size,
        ) by {
            if i < earlier.len() {
                assert(all[i] == earlier[i]);
            } else {
                let batch = last[i - earlier.len()];
                assert(all[i] == batch);
                assert forall|j: int| 0 <= j < batch.1.len() implies block_of(#[trigger] batch.1[j])
                    == batch.0 && calls.contains(batch.1[j]) by {
                    assert(here.contains(batch.1[j]));
                    lemma_filter_contains(
                        calls,
                        batch.1[j],
                        |call: Params| block_of(call) == block,
                    );
                }
            }
        }
    }
}

/// On a chain where Multicall3 is not known, or without batching, every call is
/// made one by one.
pub proof fn law_unknown_chain_is_per_call(calls: Seq<Params>, chain_id: u64, query: Query)
    requires
        deploy_block(chain_id) is None || !query.multicall,
    ensures
        planned(calls, chain_id, query).batches.len() == 0,
        planned(calls, chain_id, query).singles == calls,
{
    lemma_filter_none(calls, |call: Params| eligible(call, deploy_block(chain_id)));
    lemma_filter_all(calls, |call: Params| !eligible(call, deploy_block(chain_id)));
}

/// The calls of all batches, one batch after the other.
pub open spec fn calls_in(batches: Seq<(u64, Seq<Params>)>) -> Seq<Params>
    decreases batches.len(),
{
    if batches.len() == 0 {
        Seq::empty()
    } else {
        calls_in(batches.drop_last()) + batches.last().1
    }
}

proof fn lemma_calls_in_add(first: Seq<(u64, Seq<Params>)>, second: Seq<(u64, Seq<Params>)>)
    ensures
        calls_in(first + second) == calls_in(first) + calls_in(second),
    decreases second.len(),
{
    if second.len() == 0 {
        assert(first + second =~= first);
        assert(calls_in(first) + calls_in(second) =~= calls_in(first));
    } else {
        lemma_calls_in_add(first, second.drop_last());
        assert((first + second).drop_last() =~= first + second.drop_last());
        assert(calls_in(first + second) =~= calls_in(first) + calls_in(second));
    }
}

proof fn lemma_calls_in_batches_of(block: u64, calls: Seq<Params>, size: nat)
    requires
        size > 0,
    ensures
        calls_in(batches_of(block, calls, size)) == calls,
    decreases calls.len(),
{
    reveal_with_fuel(calls_in, 2);
    if calls.len() == 0 {
        assert(calls =~= Seq::empty());
    } else if calls.len() <= size {
        let batches = seq![(block, calls)];
        assert(batches.drop_last() =~= Seq::empty());
        assert(calls_in(batches) =~= calls);
    } else {
        let first = seq![(block, calls.take(size as int))];
        let rest = calls.skip(size as int);
        lemma_calls_in_batches_of(block, rest, size);
        lemma_calls_in_add(first, batches_of(block, rest, size));
        assert(first.drop_last() =~= Seq::empty());
        assert(calls_in(first) =~= calls.take(size as int));
        assert(calls.take(size as int) + rest =~= calls);
    }
}

proof fn lemma_calls_in_batches_at(calls: Seq<Params>, blocks: Seq<u64>, size: nat, call: Params)
    requires
        size > 0,
        blocks.no_duplicates(),
    ensures
        calls_in(batches_at(calls, blocks, size)).to_multiset().count(call) == (if blocks.contains(
            block_of(call),
        ) {
            calls.to_multiset().count(call)
        } else {
            0
        }),
    decreases blocks.len(),
{
    broadcast use vstd::seq_lib::group_to_multiset_ensures;

    if blocks.len() == 0 {
        assert(!calls_in(batches_at(calls, blocks, size)).contains(call));
    } else {
        let earlier = blocks.drop_last();
        let block = blocks.last();
        let here = calls_at(calls, block);
        lemma_calls_in_batches_at(calls, earlier, size, call);
        lemma_calls_in_batches_of(block, here, size);
        lemma_calls_in_add(batches_at(calls, earlier, size), batches_of(block, here, size));
        vstd::seq_lib::lemma_multiset_commutative(
            calls_in(batches_at(calls, earlier, size)),
            here,
        );
        lemma_filter_count(calls, call, |call: Params| block_of(call) == block);
        assert(blocks =~= earlier.push(block));
        lemma_push_contains(earlier, block, block_of(call));
        if earlier.contains(block) {
            let i = choose|i: int| 0 <= i < earlier.len() && earlier[i] == block;
            assert(blocks[i] == blocks[blocks.len() - 1]);
        }
    }
}

/// Every call is made exactly once: in one batch, or on its own.
pub proof fn law_every_call_is_made_once(calls: Seq<Params>, chain_id: u64, query: Query)
    ensures
        calls_in(planned(calls, chain_id, query).batches).to_multiset().add(
            planned(calls, chain_id, query).singles.to_multiset(),
        ) == calls.to_multiset(),
{
    broadcast use vstd::seq_lib::group_to_multiset_ensures;

    let plan = planned(calls, chain_id, query);
    let deployed = deploy_block(chain_id);
    let batched = eligible_calls(calls, deployed);
    let size = batch_cap(query.multicall_batch_size);
    let made = calls_in(plan.batches).to_multiset().add(plan.singles.to_multiset());
    assert forall|call: Params| #[trigger] made.count(call) == calls.to_multiset().count(call) by {
        if query.multicall {
            lemma_blocks(batched);
            lemma_calls_in_batches_at(batched, blocks_of(batched), size, call);
            lemma_filter_count(calls, call, |call: Params| eligible(call, deployed));
            lemma_filter_count(calls, call, |call: Params| !eligible(call, deployed));
            if batched.contains(call) {
                let i = choose|i: int| 0 <= i < batched.len() && batched[i] == call;
                assert(blocks_of(batched).contains(block_of(batched[i])));
            }
        } else {
            assert(!calls_in(plan.batches).contains(call));
        }
    }
    assert(made =~= calls.to_multiset());
}

} // verus!
