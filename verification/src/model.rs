//! What the chain cache holds, as mathematics, and how each event changes it.

use crate::backend::BackendModel;
use crate::chain::{BackendEvent, BlockInfo, BlockNumber, Header};
use crate::hash::BlockHash;
use crate::summary::{summarize, BlockEventSummary};
use vstd::prelude::*;

verus! {

/// How many blocks the cache keeps at most.
pub const MAX_RECENT_BLOCKS: usize = 2000;

/// How many event summaries the cache keeps at most.
pub const MAX_RECENT_EVENTS: usize = 2000;

/// How many ancestors of the first block are fetched after connecting.
pub const PRELOAD_BLOCKS: u32 = 1000;

/// The first `max` items of a sequence; all of it, if it has no more.
pub open spec fn keep_front<T>(s: Seq<T>, max: int) -> Seq<T> {
    if s.len() > max {
        s.take(max)
    } else {
        s
    }
}

/// The items of a sequence from `start` up to `end`, where these bound a
/// part of the sequence; no item at all where they do not.
pub open spec fn range_of<T>(s: Seq<T>, start: int, end: int) -> Seq<T> {
    if 0 <= start <= end <= s.len() {
        s.subrange(start, end)
    } else {
        Seq::empty()
    }
}

/// The three views of the cached blocks agree: the list names each cached
/// block once, a block is filed under its own number, and the index leads
/// from the hash of each cached block to its number and holds nothing else.
pub open spec fn consistent(
    recent: Seq<BlockNumber>,
    blocks: Map<BlockNumber, BlockInfo>,
    index: Map<BlockHash, BlockNumber>,
) -> bool {
    &&& recent.no_duplicates()
    &&& forall|n: BlockNumber| blocks.contains_key(n) <==> #[trigger] recent.contains(n)
    &&& forall|n: BlockNumber| #[trigger]
        blocks.contains_key(n) ==> {
            &&& blocks[n].header.number == n
            &&& index.contains_key(blocks[n].hash)
            &&& index[blocks[n].hash] == n
        }
    &&& forall|h: BlockHash| #[trigger]
        index.contains_key(h) ==> {
            &&& blocks.contains_key(index[h])
            &&& blocks[index[h]].hash == h
        }
}

/// The blocks whose numbers are kept.
pub open spec fn kept_blocks(
    blocks: Map<BlockNumber, BlockInfo>,
    kept: Seq<BlockNumber>,
) -> Map<BlockNumber, BlockInfo> {
    blocks.restrict(kept.to_set())
}

/// The index entries that lead to numbers that are kept.
pub open spec fn kept_index(
    index: Map<BlockHash, BlockNumber>,
    kept: Seq<BlockNumber>,
) -> Map<BlockHash, BlockNumber> {
    index.restrict(Set::new(|h: BlockHash| index.contains_key(h) && kept.contains(index[h])))
}

/// The state of the chain cache.
pub struct CacheModel {
    /// Whether the backend panel is shown.
    pub open: bool,
    /// The node that the user wants.
    pub url: Seq<char>,
    /// The user changed something since it was last saved.
    pub need_save: bool,
    /// Identity of the chain that the cache speaks of.
    pub genesis_hash: Option<BlockHash>,
    /// How many ancestors a preload fetches.
    pub preload_depth: u32,
    /// How many ancestors the running preload has yet to ask for.
    pub preload_blocks: u32,
    /// The block that the preload asked for last.
    pub preload_next: Option<BlockHash>,
    /// The highest number of a block that arrived as the newest.
    pub best_block: BlockNumber,
    pub hash_to_number: Map<BlockHash, BlockNumber>,
    pub blocks: Map<BlockNumber, BlockInfo>,
    /// Numbers of the cached blocks, the newest in front, the next to leave last.
    pub recent_blocks: Seq<BlockNumber>,
    /// Summaries of recent events, the newest in front, the next to leave last.
    pub recent_events: Seq<BlockEventSummary>,
    pub backend: BackendModel,
}

impl CacheModel {
    /// The invariant of the cache: the bounds hold, and the three views of
    /// the cached blocks agree with each other.
    pub open spec fn wf(self) -> bool {
        &&& self.recent_blocks.len() <= MAX_RECENT_BLOCKS
        &&& self.recent_events.len() <= MAX_RECENT_EVENTS
        &&& consistent(self.recent_blocks, self.blocks, self.hash_to_number)
        &&& forall|n: BlockNumber| #[trigger] self.blocks.contains_key(n) ==> n <= self.best_block
        &&& self.preload_blocks <= self.preload_depth
        &&& self.backend.wf()
    }

    /// The cache at startup, for a node and a preload depth.
    pub open spec fn initial(url: Seq<char>, preload_depth: u32) -> CacheModel {
        CacheModel {
            open: true,
            url,
            need_save: true,
            genesis_hash: None,
            preload_depth,
            preload_blocks: preload_depth,
            preload_next: None,
            best_block: 0,
            hash_to_number: Map::empty(),
            blocks: Map::empty(),
            recent_blocks: Seq::empty(),
            recent_events: Seq::empty(),
            backend: BackendModel { url: Seq::empty(), events: Seq::empty(), requests: Seq::empty() },
        }
    }

    /// Nothing is cached.
    pub open spec fn is_empty(self) -> bool {
        &&& self.blocks == Map::<BlockNumber, BlockInfo>::empty()
        &&& self.hash_to_number == Map::<BlockHash, BlockNumber>::empty()
        &&& self.recent_blocks == Seq::<BlockNumber>::empty()
        &&& self.recent_events == Seq::<BlockEventSummary>::empty()
    }

    /// The cache after all chain data was dropped: nothing is cached, no chain
    /// is known, and the preload starts over.
    pub open spec fn cleared(self) -> CacheModel {
        CacheModel {
            genesis_hash: None,
            best_block: 0,
            preload_blocks: self.preload_depth,
            preload_next: None,
            hash_to_number: Map::empty(),
            blocks: Map::empty(),
            recent_blocks: Seq::empty(),
            recent_events: Seq::empty(),
            ..self
        }
    }

    /// A reconnect that reports `genesis` has reached another chain.
    pub open spec fn chain_changed(self, genesis: BlockHash, is_reconnect: bool) -> bool {
        is_reconnect && self.genesis_hash != Some(genesis)
    }

    /// The cache after the worker reported a connection. A reconnect to
    /// another chain drops all chain data; the first connection starts the
    /// preload counter at its depth.
    pub open spec fn connected(self, genesis: BlockHash, is_reconnect: bool) -> CacheModel {
        let base = if self.chain_changed(genesis, is_reconnect) {
            self.cleared()
        } else {
            self
        };
        CacheModel {
            genesis_hash: Some(genesis),
            preload_blocks: if is_reconnect {
                base.preload_blocks
            } else {
                base.preload_depth
            },
            ..base
        }
    }

    /// The cache after the worker reported a new header: the block is asked for.
    pub open spec fn new_header(self, header: Header) -> CacheModel {
        CacheModel { backend: self.backend.get_block_info(header.hash), ..self }
    }

    /// The block is newer than every block that arrived as the newest before.
    pub open spec fn is_best(self, block: BlockInfo) -> bool {
        block.header.number > self.best_block
    }

    /// The block enters the cache: neither its number nor its hash is cached.
    pub open spec fn admits(self, block: BlockInfo) -> bool {
        &&& !self.blocks.contains_key(block.header.number)
        &&& !self.hash_to_number.contains_key(block.hash)
    }

    /// The block is the one that the preload waits for.
    pub open spec fn preload_awaits(self, block: BlockInfo) -> bool {
        &&& self.preload_blocks != 0
        &&& (self.preload_next is None || self.preload_next == Some(block.hash))
    }

    /// The recent events with those of the block joined: in front for the
    /// newest block, behind for any other.
    pub open spec fn events_with(self, block: BlockInfo) -> Seq<BlockEventSummary> {
        if self.is_best(block) {
            summarize(block.events@) + self.recent_events
        } else {
            self.recent_events + summarize(block.events@)
        }
    }

    /// The recent blocks with the block joined, if the cache admits it: in
    /// front for the newest block, behind for any other.
    pub open spec fn blocks_with(self, block: BlockInfo) -> Seq<BlockNumber> {
        if !self.admits(block) {
            self.recent_blocks
        } else if self.is_best(block) {
            seq![block.header.number] + self.recent_blocks
        } else {
            self.recent_blocks.push(block.header.number)
        }
    }

    /// The recent blocks after the block arrived: those of `blocks_with` that
    /// the bound leaves room for, counted from the front.
    pub open spec fn blocks_kept(self, block: BlockInfo) -> Seq<BlockNumber> {
        keep_front(self.blocks_with(block), MAX_RECENT_BLOCKS as int)
    }

    /// The blocks held once the block joined, before any leaves.
    pub open spec fn blocks_held(self, block: BlockInfo) -> Map<BlockNumber, BlockInfo> {
        if self.admits(block) {
            self.blocks.insert(block.header.number, block)
        } else {
            self.blocks
        }
    }

    /// The index once the block joined, before any block leaves.
    pub open spec fn index_held(self, block: BlockInfo) -> Map<BlockHash, BlockNumber> {
        if self.admits(block) {
            self.hash_to_number.insert(block.hash, block.header.number)
        } else {
            self.hash_to_number
        }
    }

    /// The cache after the preload looked at the block. Where the preload
    /// waits for this block, it asks for the block's parent and counts it; at
    /// the block without a parent it ends and asks for nothing.
    pub open spec fn preloaded(self, block: BlockInfo) -> CacheModel {
        if !self.preload_awaits(block) {
            self
        } else {
            match block.header.parent() {
                Some(parent) => CacheModel {
                    preload_blocks: (self.preload_blocks - 1) as u32,
                    preload_next: Some(parent),
                    backend: self.backend.get_block_info(parent),
                    ..self
                },
                None => CacheModel { preload_blocks: 0, preload_next: None, ..self },
            }
        }
    }

    /// The cache after a block arrived.
    pub open spec fn block_info(self, block: BlockInfo) -> CacheModel {
        let kept = self.blocks_kept(block);
        let next = self.preloaded(block);
        CacheModel {
            best_block: if self.is_best(block) {
                block.header.number
            } else {
                self.best_block
            },
            recent_events: keep_front(self.events_with(block), MAX_RECENT_EVENTS as int),
            recent_blocks: kept,
            blocks: kept_blocks(self.blocks_held(block), kept),
            hash_to_number: kept_index(self.index_held(block), kept),
            ..next
        }
    }

    /// The cache after one event from the worker.
    pub open spec fn ingest(self, event: BackendEvent) -> CacheModel {
        match event {
            BackendEvent::Connected { genesis, is_reconnect } => self.connected(
                genesis,
                is_reconnect,
            ),
            BackendEvent::NewHeader(header) => self.new_header(header),
            BackendEvent::BlockInfo(block) => self.block_info(block),
        }
    }

    /// The cache after the oldest waiting event was read and taken in.
    pub open spec fn step(self) -> CacheModel {
        CacheModel { backend: self.backend.read(), ..self }.ingest(self.backend.events[0])
    }

    /// The cache after a poll that may read `budget` events: it reads the
    /// waiting events in order until none waits or the budget is spent.
    pub open spec fn poll(self, budget: nat) -> CacheModel
        decreases budget,
    {
        if budget == 0 || self.backend.events.len() == 0 {
            self
        } else {
            self.step().poll((budget - 1) as nat)
        }
    }

    /// The cache after the user asked for the node at `url`.
    pub open spec fn with_url(self, url: Seq<char>) -> CacheModel {
        CacheModel { url, need_save: true, ..self }
    }

    /// The cache after the user asked to see or to hide the backend panel.
    pub open spec fn with_open(self, open: bool) -> CacheModel {
        CacheModel { open, ..self }
    }

    /// The cache after the worker was asked to connect to the wanted node.
    pub open spec fn connecting(self) -> CacheModel {
        CacheModel { backend: self.backend.connect_to(self.url), ..self }
    }

    /// The cache after the worker was asked for a block.
    pub open spec fn asking(self, hash: BlockHash) -> CacheModel {
        CacheModel { backend: self.backend.get_block_info(hash), ..self }
    }

    /// The cache after an event arrived from the worker and waits to be read.
    pub open spec fn delivered(self, event: BackendEvent) -> CacheModel {
        CacheModel { backend: self.backend.delivered(event), ..self }
    }

    /// The cache after the waiting requests were handed to the worker.
    pub open spec fn sent(self) -> CacheModel {
        CacheModel { backend: self.backend.sent(), ..self }
    }

    /// The block with the given hash, if it is cached.
    pub open spec fn block_by_hash(self, hash: BlockHash) -> Option<BlockInfo> {
        if self.hash_to_number.contains_key(hash) && self.blocks.contains_key(
            self.hash_to_number[hash],
        ) {
            Some(self.blocks[self.hash_to_number[hash]])
        } else {
            None
        }
    }

    /// The cache after its settings were looked at for saving. Where something
    /// changed, the worker is asked to connect to the wanted node, unless that
    /// is the node it was last sent to.
    pub open spec fn saved(self) -> CacheModel {
        if !self.need_save {
            self
        } else if self.backend.url == self.url {
            CacheModel { need_save: false, ..self }
        } else {
            CacheModel { need_save: false, ..self.connecting() }
        }
    }
}

/// Taking in an event keeps the invariant of the cache.
pub proof fn lemma_ingest_wf(s: CacheModel, event: BackendEvent)
    requires
        s.wf(),
        event.wf(),
    ensures
        s.ingest(event).wf(),
{
    match event {
        BackendEvent::Connected { genesis, is_reconnect } => {
            let t = s.connected(genesis, is_reconnect);
            if s.chain_changed(genesis, is_reconnect) {
                assert forall|n: BlockNumber| !(#[trigger] t.recent_blocks.contains(n)) by {}
            }
        },
        BackendEvent::NewHeader(header) => {},
        BackendEvent::BlockInfo(block) => {
            lemma_block_info_wf(s, block);
        },
    }
}

/// Once a block joined, list, blocks and index still agree.
pub proof fn lemma_joined_consistent(s: CacheModel, block: BlockInfo)
    requires
        consistent(s.recent_blocks, s.blocks, s.hash_to_number),
    ensures
        consistent(s.blocks_with(block), s.blocks_held(block), s.index_held(block)),
{
    let number = block.header.number;
    let listed = s.blocks_with(block);
    let blocks = s.blocks_held(block);
    let index = s.index_held(block);
    if s.admits(block) {
        assert(!s.recent_blocks.contains(number));
        let shift: int = if s.is_best(block) {
            1
        } else {
            0
        };
        let at: int = if s.is_best(block) {
            0
        } else {
            s.recent_blocks.len() as int
        };
        assert(listed[at] == number);
        assert forall|i: int| 0 <= i < s.recent_blocks.len() implies listed[i + shift]
            == s.recent_blocks[i] by {}
        assert forall|n: BlockNumber| blocks.contains_key(n) <==> #[trigger] listed.contains(n) by {
            if listed.contains(n) {
                let i = choose|i: int| 0 <= i < listed.len() && listed[i] == n;
                if i != at {
                    assert(s.recent_blocks[i - shift] == n);
                    assert(s.recent_blocks.contains(n));
                }
            }
            if blocks.contains_key(n) && n != number {
                assert(s.recent_blocks.contains(n));
                let i = choose|i: int| 0 <= i < s.recent_blocks.len() && s.recent_blocks[i] == n;
                assert(listed[i + shift] == n);
            }
        }
        assert forall|i: int, j: int|
            0 <= i < listed.len() && 0 <= j < listed.len() && i != j implies listed[i]
            != listed[j] by {
            if i != at && j != at {
                assert(s.recent_blocks[i - shift] != s.recent_blocks[j - shift]);
            } else if i != at {
                assert(s.recent_blocks.contains(s.recent_blocks[i - shift]));
            } else {
                assert(s.recent_blocks.contains(s.recent_blocks[j - shift]));
            }
        }
        assert forall|n: BlockNumber| #[trigger] blocks.contains_key(n) implies {
            &&& blocks[n].header.number == n
            &&& index.contains_key(blocks[n].hash)
            &&& index[blocks[n].hash] == n
        } by {
            if n != number {
                assert(s.blocks.contains_key(n));
                assert(s.hash_to_number.contains_key(s.blocks[n].hash));
            }
        }
        assert forall|h: BlockHash| #[trigger] index.contains_key(h) implies {
            &&& blocks.contains_key(index[h])
            &&& blocks[index[h]].hash == h
        } by {
            if h != block.hash {
                assert(s.hash_to_number.contains_key(h));
                assert(s.blocks.contains_key(s.hash_to_number[h]));
            }
        }
    }
}

/// Where list, blocks and index agree, they still agree once the list has
/// lost items at its end and blocks and index have lost what those stood for.
pub proof fn lemma_kept_consistent(
    recent: Seq<BlockNumber>,
    blocks: Map<BlockNumber, BlockInfo>,
    index: Map<BlockHash, BlockNumber>,
    len: int,
)
    requires
        consistent(recent, blocks, index),
        0 <= len <= recent.len(),
    ensures
        consistent(recent.take(len), kept_blocks(blocks, recent.take(len)), kept_index(
            index,
            recent.take(len),
        )),
{
    let kept = recent.take(len);
    let kb = kept_blocks(blocks, kept);
    let ki = kept_index(index, kept);
    assert forall|n: BlockNumber| #[trigger] kept.contains(n) implies recent.contains(n) by {
        let i = choose|i: int| 0 <= i < kept.len() && kept[i] == n;
        assert(recent[i] == n);
    }
    assert forall|i: int, j: int|
        0 <= i < kept.len() && 0 <= j < kept.len() && i != j implies kept[i] != kept[j] by {
        assert(recent[i] != recent[j]);
    }
    assert forall|n: BlockNumber| kb.contains_key(n) <==> #[trigger] kept.contains(n) by {
        if kept.contains(n) {
            assert(recent.contains(n));
        }
    }
    assert forall|n: BlockNumber| #[trigger] kb.contains_key(n) implies {
        &&& kb[n].header.number == n
        &&& ki.contains_key(kb[n].hash)
        &&& ki[kb[n].hash] == n
    } by {
        assert(blocks.contains_key(n));
        assert(kept.contains(n));
    }
    assert forall|h: BlockHash| #[trigger] ki.contains_key(h) implies {
        &&& kb.contains_key(ki[h])
        &&& kb[ki[h]].hash == h
    } by {
        assert(index.contains_key(h));
    }
}

/// Taking in a block keeps the invariant of the cache.
pub proof fn lemma_block_info_wf(s: CacheModel, block: BlockInfo)
    requires
        s.wf(),
    ensures
        s.block_info(block).wf(),
{
    let t = s.block_info(block);
    let listed = s.blocks_with(block);
    lemma_joined_consistent(s, block);
    if listed.len() > MAX_RECENT_BLOCKS {
        lemma_kept_consistent(
            listed,
            s.blocks_held(block),
            s.index_held(block),
            MAX_RECENT_BLOCKS as int,
        );
    } else {
        assert(listed.take(listed.len() as int) =~= listed);
        lemma_kept_consistent(
            listed,
            s.blocks_held(block),
            s.index_held(block),
            listed.len() as int,
        );
    }
    assert forall|n: BlockNumber| #[trigger] t.blocks.contains_key(n) implies n
        <= t.best_block by {
        assert(s.blocks_held(block).contains_key(n));
        if n != block.header.number {
            assert(s.blocks.contains_key(n));
        }
    }
}

} // verus!
