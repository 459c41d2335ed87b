//! Laws of the chain cache, proved of every state and every event.

use crate::backend::{BackendModel, RequestView};
use crate::chain::{BackendEvent, BlockInfo, BlockNumber};
use crate::hash::BlockHash;
use crate::model::{
    lemma_block_info_wf, lemma_ingest_wf, lemma_joined_consistent, CacheModel, MAX_RECENT_BLOCKS,
    MAX_RECENT_EVENTS,
};
use vstd::prelude::*;

verus! {

/// The cache after a run of events, taken in one after the other.
pub open spec fn ingest_all(s: CacheModel, events: Seq<BackendEvent>) -> CacheModel
    decreases events.len(),
{
    if events.len() == 0 {
        s
    } else {
        ingest_all(s, events.drop_last()).ingest(events.last())
    }
}

/// The cache after a run of blocks, taken in one after the other.
pub open spec fn ingest_blocks(s: CacheModel, blocks: Seq<BlockInfo>) -> CacheModel
    decreases blocks.len(),
{
    if blocks.len() == 0 {
        s
    } else {
        ingest_blocks(s, blocks.drop_last()).block_info(blocks.last())
    }
}

/// The requests for the blocks of a run, in the order of the run.
pub open spec fn requests_for(blocks: Seq<BlockInfo>) -> Seq<RequestView> {
    Seq::new(blocks.len(), |i: int| RequestView::GetBlockInfo(blocks[i].hash))
}

/// Each block of the run but the last has the next block as its parent.
pub open spec fn is_chain(blocks: Seq<BlockInfo>) -> bool {
    forall|i: int|
        0 <= i < blocks.len() - 1 ==> (#[trigger] blocks[i]).header.parent() == Some(
            blocks[i + 1].hash,
        )
}

/// The cache with other events waiting to be read.
pub open spec fn with_waiting(s: CacheModel, events: Seq<BackendEvent>) -> CacheModel {
    CacheModel { backend: BackendModel { events, ..s.backend }, ..s }
}

/// How many events a poll with the given budget reads.
pub open spec fn polled(s: CacheModel, budget: nat) -> int {
    if budget <= s.backend.events.len() {
        budget as int
    } else {
        s.backend.events.len() as int
    }
}

/// Taking in an event neither reads nor adds to the events that wait.
pub proof fn lemma_ingest_leaves_waiting(s: CacheModel, event: BackendEvent, waiting: Seq<BackendEvent>)
    ensures
        s.ingest(event).backend.events == s.backend.events,
        with_waiting(s, waiting).ingest(event) == with_waiting(s.ingest(event), waiting),
{
}

/// A poll reads the waiting events from the front, one poll no more than
/// its budget, and takes them in one after the other; the events that it
/// does not read wait on, in their order.
pub proof fn lemma_poll(s: CacheModel, budget: nat)
    ensures
        s.poll(budget).backend.events == s.backend.events.skip(polled(s, budget)),
        with_waiting(s.poll(budget), Seq::empty()) == ingest_all(
            with_waiting(s, Seq::empty()),
            s.backend.events.take(polled(s, budget)),
        ),
    decreases budget,
{
    let none = Seq::<BackendEvent>::empty();
    let n = polled(s, budget);
    if budget == 0 || s.backend.events.len() == 0 {
        assert(s.backend.events.skip(0) =~= s.backend.events);
        assert(s.backend.events.take(0) =~= none);
    } else {
        let first = s.backend.events[0];
        let rest = s.backend.events.drop_first();
        let t = s.step();
        lemma_ingest_leaves_waiting(with_waiting(s, rest), first, none);
        assert(with_waiting(s, rest) == CacheModel { backend: s.backend.read(), ..s });
        assert(t.backend.events == rest);
        lemma_poll(t, (budget - 1) as nat);
        assert(polled(t, (budget - 1) as nat) == n - 1);
        assert(rest.skip(n - 1) =~= s.backend.events.skip(n));
        assert(with_waiting(t, none) == with_waiting(s, none).ingest(first)) by {
            lemma_ingest_leaves_waiting(with_waiting(s, rest), first, none);
            assert(with_waiting(with_waiting(s, rest), none) == with_waiting(s, none));
        }
        lemma_ingest_all_from(with_waiting(s, none), first, rest.take(n - 1));
        assert(seq![first] + rest.take(n - 1) =~= s.backend.events.take(n));
    }
}

/// Taking in a run of events is taking in the first and then the others.
pub proof fn lemma_ingest_all_from(s: CacheModel, first: BackendEvent, others: Seq<BackendEvent>)
    ensures
        ingest_all(s, seq![first] + others) == ingest_all(s.ingest(first), others),
    decreases others.len(),
{
    let all = seq![first] + others;
    if others.len() == 0 {
        assert(all.drop_last() =~= Seq::<BackendEvent>::empty());
        assert(all.last() == first);
        assert(ingest_all(s, all.drop_last()) == s);
    } else {
        lemma_ingest_all_from(s, first, others.drop_last());
        assert(all.drop_last() =~= seq![first] + others.drop_last());
        assert(all.last() == others.last());
    }
}

/// Whatever events arrive, in whatever order, after each of them the cache
/// holds no more blocks and no more event summaries than its bounds allow,
/// and its views of the cached blocks agree.
pub proof fn lemma_bounds_hold(s: CacheModel, events: Seq<BackendEvent>)
    requires
        s.wf(),
        forall|i: int| 0 <= i < events.len() ==> (#[trigger] events[i]).wf(),
    ensures
        ingest_all(s, events).wf(),
        ingest_all(s, events).recent_blocks.len() <= MAX_RECENT_BLOCKS,
        ingest_all(s, events).recent_events.len() <= MAX_RECENT_EVENTS,
    decreases events.len(),
{
    if events.len() > 0 {
        let init = events.drop_last();
        assert forall|i: int| 0 <= i < init.len() implies (#[trigger] init[i]).wf() by {
            assert(init[i] == events[i]);
        }
        lemma_bounds_hold(s, init);
        assert(events.last() == events[events.len() - 1]);
        lemma_ingest_wf(ingest_all(s, init), events.last());
    }
}

/// The index and the map of blocks say the same: a hash leads to a block
/// exactly if a cached block has that hash, and then to that block.
pub proof fn lemma_found_by_hash(s: CacheModel, hash: BlockHash)
    requires
        s.wf(),
    ensures
        match s.block_by_hash(hash) {
            Some(block) => {
                &&& block.hash == hash
                &&& s.blocks.contains_key(block.header.number)
                &&& s.blocks[block.header.number] == block
            },
            None => forall|n: BlockNumber| #[trigger]
                s.blocks.contains_key(n) ==> s.blocks[n].hash != hash,
        },
{
}

/// No two cached blocks have the same hash, and every cached block is the
/// newest block seen or older.
pub proof fn lemma_cached_blocks(s: CacheModel, a: BlockNumber, b: BlockNumber)
    requires
        s.wf(),
        s.blocks.contains_key(a),
        s.blocks.contains_key(b),
        a != b,
    ensures
        s.blocks[a].hash != s.blocks[b].hash,
        a <= s.best_block,
{
}

/// A block whose number or whose hash is cached already is not cached again:
/// the map of blocks, the index and the list of recent blocks stay as they
/// are.
pub proof fn lemma_duplicate_is_dropped(s: CacheModel, block: BlockInfo)
    requires
        s.wf(),
        !s.admits(block),
    ensures
        s.block_info(block).blocks == s.blocks,
        s.block_info(block).hash_to_number == s.hash_to_number,
        s.block_info(block).recent_blocks == s.recent_blocks,
{
    assert(s.blocks_kept(block) == s.recent_blocks);
    assert(s.block_info(block).blocks =~= s.blocks);
    assert(s.block_info(block).hash_to_number =~= s.hash_to_number);
}

/// A block that arrives twice changes the cached blocks no more than if it
/// had arrived once: after the second arrival the map of blocks, the index
/// and the list of recent blocks are what they were after the first.
pub proof fn lemma_block_twice(s: CacheModel, block: BlockInfo)
    requires
        s.wf(),
    ensures
        s.block_info(block).block_info(block).blocks == s.block_info(block).blocks,
        s.block_info(block).block_info(block).hash_to_number == s.block_info(
            block,
        ).hash_to_number,
        s.block_info(block).block_info(block).recent_blocks == s.block_info(block).recent_blocks,
{
    let number = block.header.number;
    let t = s.block_info(block);
    let u = t.block_info(block);
    lemma_block_info_wf(s, block);
    if !t.admits(block) {
        lemma_duplicate_is_dropped(t, block);
    } else {
        // The block is not cached after its first arrival, so it came in at
        // the end of a full list and left at once.
        let listed = s.blocks_with(block);
        lemma_joined_consistent(s, block);
        if !s.admits(block) {
            assert(t.recent_blocks == s.recent_blocks);
            assert(t.blocks =~= s.blocks);
            assert(t.hash_to_number =~= s.hash_to_number);
            assert(false);
        }
        assert(listed.contains(number)) by {
            if s.is_best(block) {
                assert(listed[0] == number);
            } else {
                assert(listed[s.recent_blocks.len() as int] == number);
            }
        }
        if listed.len() <= MAX_RECENT_BLOCKS {
            assert(t.recent_blocks == listed);
            assert(t.blocks.contains_key(number));
            assert(false);
        }
        if s.is_best(block) {
            assert(t.recent_blocks[0] == listed[0]);
            assert(t.recent_blocks.contains(number));
            assert(t.blocks.contains_key(number));
            assert(false);
        }
        assert(t.recent_blocks =~= s.recent_blocks);
        assert(t.blocks =~= s.blocks) by {
            assert forall|n: BlockNumber| t.blocks.contains_key(n) <==> s.blocks.contains_key(
                n,
            ) by {
                if s.blocks.contains_key(n) {
                    assert(s.recent_blocks.contains(n));
                }
            }
        }
        assert(t.hash_to_number =~= s.hash_to_number) by {
            assert forall|h: BlockHash| t.hash_to_number.contains_key(h)
                <==> s.hash_to_number.contains_key(h) by {
                if s.hash_to_number.contains_key(h) {
                    assert(s.blocks.contains_key(s.hash_to_number[h]));
                    assert(s.recent_blocks.contains(s.hash_to_number[h]));
                }
            }
        }
        assert(t.best_block == s.best_block);
        assert(t.blocks_with(block) == s.blocks_with(block));
        assert(u.recent_blocks == t.recent_blocks);
        assert(u.blocks == t.blocks);
        assert(u.hash_to_number == t.hash_to_number);
    }
}

/// A reconnect that finds the chain it knew leaves every cached item and the
/// best block as they were. A reconnect that finds another chain leaves
/// nothing cached and the best block at zero.
pub proof fn lemma_reconnect(s: CacheModel, genesis: BlockHash)
    ensures
        s.genesis_hash == Some(genesis) ==> {
            &&& s.connected(genesis, true).blocks == s.blocks
            &&& s.connected(genesis, true).hash_to_number == s.hash_to_number
            &&& s.connected(genesis, true).recent_blocks == s.recent_blocks
            &&& s.connected(genesis, true).recent_events == s.recent_events
            &&& s.connected(genesis, true).best_block == s.best_block
        },
        s.genesis_hash != Some(genesis) ==> {
            &&& s.connected(genesis, true).is_empty()
            &&& s.connected(genesis, true).best_block == 0
        },
        s.connected(genesis, true).genesis_hash == Some(genesis),
{
}

/// A block that joins a full cache pushes out the block at the end of the
/// list, and no other: the list loses its last number, and in the same step
/// that block leaves the map of blocks and its hash leaves the index.
pub proof fn lemma_eviction(s: CacheModel, block: BlockInfo)
    requires
        s.wf(),
        s.admits(block),
        s.recent_blocks.len() == MAX_RECENT_BLOCKS,
    ensures
        s.block_info(block).recent_blocks == s.blocks_with(block).drop_last(),
        !s.block_info(block).blocks.contains_key(s.blocks_with(block).last()),
        !s.block_info(block).hash_to_number.contains_key(
            s.blocks_held(block)[s.blocks_with(block).last()].hash,
        ),
        forall|n: BlockNumber|
            n != s.blocks_with(block).last() ==> (s.block_info(block).blocks.contains_key(n)
                <==> #[trigger] s.blocks_held(block).contains_key(n)),
        forall|n: BlockNumber| #[trigger]
            s.block_info(block).blocks.contains_key(n) ==> s.block_info(block).blocks[n]
                == s.blocks_held(block)[n],
{
    let listed = s.blocks_with(block);
    let held = s.blocks_held(block);
    let index = s.index_held(block);
    let t = s.block_info(block);
    let last = listed.last();
    lemma_joined_consistent(s, block);
    assert(listed.len() == MAX_RECENT_BLOCKS + 1);
    assert(t.recent_blocks =~= listed.drop_last());
    assert(!t.recent_blocks.contains(last)) by {
        if t.recent_blocks.contains(last) {
            let i = choose|i: int| 0 <= i < t.recent_blocks.len() && t.recent_blocks[i] == last;
            assert(listed[i] == listed[listed.len() - 1]);
        }
    }
    assert(listed.contains(last)) by {
        assert(listed[listed.len() - 1] == last);
    }
    assert(held.contains_key(last));
    assert forall|n: BlockNumber| n != last implies (t.blocks.contains_key(n)
        <==> #[trigger] held.contains_key(n)) by {
        if held.contains_key(n) {
            assert(listed.contains(n));
            let i = choose|i: int| 0 <= i < listed.len() && listed[i] == n;
            assert(t.recent_blocks[i] == n);
        }
    }
}

/// A block that joins a cache with room pushes nothing out.
pub proof fn lemma_no_eviction(s: CacheModel, block: BlockInfo)
    requires
        s.wf(),
        s.recent_blocks.len() < MAX_RECENT_BLOCKS,
    ensures
        s.block_info(block).recent_blocks == s.blocks_with(block),
        s.block_info(block).blocks == s.blocks_held(block),
        s.block_info(block).hash_to_number == s.index_held(block),
{
    let listed = s.blocks_with(block);
    lemma_joined_consistent(s, block);
    assert(s.block_info(block).blocks =~= s.blocks_held(block));
    assert(s.block_info(block).hash_to_number =~= s.index_held(block)) by {
        assert forall|h: BlockHash| s.index_held(block).contains_key(h) implies listed.contains(
            s.index_held(block)[h],
        ) by {
            assert(s.blocks_held(block).contains_key(s.index_held(block)[h]));
        }
    }
}

/// The preload walks down a chain. With `k` ancestors yet to ask for and a
/// chain of at least `k + 1` blocks that starts at the block the preload
/// waits for, the first `k` blocks of the chain bring exactly `k` requests,
/// one for the parent of each, in order; then the counter is at zero.
pub proof fn lemma_preload_walk(s: CacheModel, chain: Seq<BlockInfo>, k: int)
    requires
        0 <= k == s.preload_blocks,
        chain.len() >= k + 1,
        is_chain(chain),
        s.preload_next is None || s.preload_next == Some(chain[0].hash),
    ensures
        ingest_blocks(s, chain.take(k)).preload_blocks == 0,
        ingest_blocks(s, chain.take(k)).backend.requests == s.backend.requests + requests_for(
            chain.subrange(1, k + 1),
        ),
{
    lemma_preload_steps(s, chain, k);
}

/// The state of a preload after the first `j` blocks of a chain that it
/// walks down.
pub proof fn lemma_preload_steps(s: CacheModel, chain: Seq<BlockInfo>, j: int)
    requires
        0 <= j <= s.preload_blocks,
        chain.len() >= j + 1,
        is_chain(chain),
        s.preload_next is None || s.preload_next == Some(chain[0].hash),
    ensures
        ingest_blocks(s, chain.take(j)).preload_blocks == s.preload_blocks - j,
        j > 0 ==> ingest_blocks(s, chain.take(j)).preload_next == Some(chain[j].hash),
        j == 0 ==> ingest_blocks(s, chain.take(j)).preload_next == s.preload_next,
        ingest_blocks(s, chain.take(j)).backend.requests == s.backend.requests + requests_for(
            chain.subrange(1, j + 1),
        ),
    decreases j,
{
    if j == 0 {
        assert(chain.take(0).len() == 0);
        assert(s.backend.requests =~= s.backend.requests + requests_for(chain.subrange(1, 1)));
    } else {
        lemma_preload_steps(s, chain, j - 1);
        let before = ingest_blocks(s, chain.take(j - 1));
        let block = chain[j - 1];
        assert(chain.take(j).drop_last() =~= chain.take(j - 1));
        assert(chain.take(j).last() == block);
        assert(block.header.parent() == Some(chain[j].hash));
        assert(before.preload_awaits(block));
        let after = before.block_info(block);
        assert(after.backend.requests =~= s.backend.requests + requests_for(
            chain.subrange(1, j + 1),
        )) by {
            assert(requests_for(chain.subrange(1, j + 1)) =~= requests_for(
                chain.subrange(1, j),
            ).push(RequestView::GetBlockInfo(chain[j].hash)));
        }
    }
}

/// The preload ends at the block without a parent. Where the chain that it
/// walks down is shorter than the number of ancestors yet to ask for, and
/// ends in the block at height zero, each block but the last brings the
/// request for its parent; the last brings none, and the counter is at zero.
pub proof fn lemma_preload_ends_at_genesis(s: CacheModel, chain: Seq<BlockInfo>)
    requires
        0 < chain.len() <= s.preload_blocks,
        is_chain(chain),
        chain.last().header.number == 0,
        s.preload_next is None || s.preload_next == Some(chain[0].hash),
    ensures
        ingest_blocks(s, chain).preload_blocks == 0,
        ingest_blocks(s, chain).backend.requests == s.backend.requests + requests_for(
            chain.subrange(1, chain.len() as int),
        ),
{
    let j = chain.len() - 1;
    lemma_preload_steps(s, chain, j);
    let before = ingest_blocks(s, chain.take(j));
    assert(chain.drop_last() =~= chain.take(j));
    assert(chain.last() == chain[j]);
    assert(before.preload_awaits(chain[j]));
}

/// A block that the preload does not wait for does not move it: the counter
/// and the awaited block stay, and no request is made.
pub proof fn lemma_preload_ignores_other_blocks(s: CacheModel, block: BlockInfo)
    requires
        s.preload_next is Some,
        s.preload_next != Some(block.hash),
    ensures
        s.block_info(block).backend == s.backend,
        s.block_info(block).preload_blocks == s.preload_blocks,
        s.block_info(block).preload_next == s.preload_next,
{
}

/// Once the preload counter is at zero, no block brings a request.
pub proof fn lemma_preload_done(s: CacheModel, block: BlockInfo)
    requires
        s.preload_blocks == 0,
    ensures
        s.block_info(block).backend == s.backend,
        s.block_info(block).preload_blocks == 0,
{
}

} // verus!
