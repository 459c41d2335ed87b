//! The chain cache: what the consumer polls, and the only writer of the
//! cached chain data.

use crate::backend::{request_views, Backend, MAX_BACKEND_UPDATES};
use crate::chain::{BackendEvent, BackendRequest, BlockInfo, BlockNumber};
use crate::hash::BlockHash;
use crate::index::HashIndex;
use crate::model::{
    consistent, keep_front, kept_blocks, kept_index, lemma_block_info_wf, lemma_ingest_wf,
    lemma_joined_consistent, lemma_kept_consistent, range_of, CacheModel, MAX_RECENT_BLOCKS,
    MAX_RECENT_EVENTS, PRELOAD_BLOCKS,
};
use crate::queue::into_deque;
use crate::summary::{summarize_events, BlockEventSummary};
use std::collections::HashMap;
use std::collections::VecDeque;
use vstd::prelude::*;
use vstd::string::StringExecFns;

verus! {

broadcast use {
    vstd::std_specs::hash::group_hash_axioms,
    vstd::std_specs::vecdeque::group_vec_dequeue_axioms,
};

/// The node that a new cache wants.
pub const POLYMESH_STAGING: &'static str = "wss://staging-rpc.polymesh.live";

/// The chain cache.
pub struct BackendState {
    open: bool,
    url: String,
    need_save: bool,
    genesis_hash: Option<BlockHash>,
    preload_depth: u32,
    preload_blocks: u32,
    preload_next: Option<BlockHash>,
    best_block: BlockNumber,
    hash_to_number: HashIndex,
    blocks: HashMap<BlockNumber, BlockInfo>,
    recent_blocks: VecDeque<BlockNumber>,
    recent_events: VecDeque<BlockEventSummary>,
    backend: Backend,
}

impl View for BackendState {
    type V = CacheModel;

    closed spec fn view(&self) -> CacheModel {
        CacheModel {
            open: self.open,
            url: self.url@,
            need_save: self.need_save,
            genesis_hash: self.genesis_hash,
            preload_depth: self.preload_depth,
            preload_blocks: self.preload_blocks,
            preload_next: self.preload_next,
            best_block: self.best_block,
            hash_to_number: self.hash_to_number@,
            blocks: self.blocks@,
            recent_blocks: self.recent_blocks@,
            recent_events: self.recent_events@,
            backend: self.backend@,
        }
    }
}

/// Drops blocks from the end of the list until the bound holds, each with
/// its entry in the map of blocks and in the index.
fn trim_blocks(
    recent: &mut VecDeque<BlockNumber>,
    blocks: &mut HashMap<BlockNumber, BlockInfo>,
    index: &mut HashIndex,
)
    requires
        old(index).wf(),
        consistent(old(recent)@, old(blocks)@, old(index)@),
    ensures
        final(index).wf(),
        final(recent)@ == keep_front(old(recent)@, MAX_RECENT_BLOCKS as int),
        final(blocks)@ == kept_blocks(old(blocks)@, final(recent)@),
        final(index)@ == kept_index(old(index)@, final(recent)@),
{
    let ghost listed = recent@;
    let ghost held = blocks@;
    let ghost indexed = index@;
    proof {
        assert(listed.take(listed.len() as int) =~= listed);
        lemma_kept_consistent(listed, held, indexed, listed.len() as int);
        assert(held =~= kept_blocks(held, listed));
        assert(indexed =~= kept_index(indexed, listed));
    }
    while recent.len() > MAX_RECENT_BLOCKS
        invariant
            index.wf(),
            consistent(listed, held, indexed),
            recent@.len() <= listed.len(),
            recent@.len() >= MAX_RECENT_BLOCKS || recent@.len() == listed.len(),
            recent@ == listed.take(recent@.len() as int),
            blocks@ == kept_blocks(held, recent@),
            index@ == kept_index(indexed, recent@),
        decreases recent@.len(),
    {
        let ghost before = recent@;
        proof {
            lemma_kept_consistent(listed, held, indexed, before.len() as int);
        }
        match recent.pop_back() {
            Some(number) => {
                assert(recent@ =~= listed.take(recent@.len() as int));
                assert(before.contains(number)) by {
                    assert(before[before.len() - 1] == number);
                }
                assert(!recent@.contains(number)) by {
                    if recent@.contains(number) {
                        let i = choose|i: int| 0 <= i < recent@.len() && recent@[i] == number;
                        assert(before[i] == before[before.len() - 1]);
                    }
                }
                assert forall|n: BlockNumber| n != number implies (before.contains(n)
                    <==> recent@.contains(n)) by {
                    if before.contains(n) {
                        let i = choose|i: int| 0 <= i < before.len() && before[i] == n;
                        assert(recent@[i] == n);
                    }
                    if recent@.contains(n) {
                        let i = choose|i: int| 0 <= i < recent@.len() && recent@[i] == n;
                        assert(before[i] == n);
                    }
                }
                match blocks.remove(&number) {
                    Some(block) => {
                        index.remove(&block.hash);
                        assert(blocks@ =~= kept_blocks(held, recent@));
                        assert(index@ =~= kept_index(indexed, recent@)) by {
                            assert forall|h: BlockHash| index@.contains_key(h) <==> kept_index(
                                indexed,
                                recent@,
                            ).contains_key(h) by {
                                if h != block.hash && indexed.contains_key(h) {
                                    assert(held.contains_key(indexed[h]));
                                    assert(indexed[h] != number);
                                }
                            }
                        }
                    },
                    None => {
                        assert(false);
                    },
                }
            },
            None => {},
        }
    }
}

impl BackendState {
    /// The invariant of the cache.
    pub closed spec fn wf(&self) -> bool {
        self@.wf() && self.hash_to_number.wf()
    }

    /// A well-formed cache has a well-formed state.
    pub proof fn lemma_wf(&self)
        requires
            self.wf(),
        ensures
            self@.wf(),
    {
    }

    /// An empty cache for the node at `url`, with a preload of the given depth.
    pub fn new(url: &str, preload_depth: u32) -> (r: BackendState)
        ensures
            r.wf(),
            r@ == CacheModel::initial(url@, preload_depth),
    {
        let r = BackendState {
            open: true,
            url: String::from_str(url),
            need_save: true,
            genesis_hash: None,
            preload_depth,
            preload_blocks: preload_depth,
            preload_next: None,
            best_block: 0,
            hash_to_number: HashIndex::new(),
            blocks: HashMap::new(),
            recent_blocks: VecDeque::new(),
            recent_events: VecDeque::new(),
            backend: Backend::new(),
        };
        proof {
            let m = CacheModel::initial(url@, preload_depth);
            assert(r@.backend == m.backend);
            assert(r@ == m);
            assert forall|n: BlockNumber| !(#[trigger] m.recent_blocks.contains(n)) by {}
        }
        r
    }

    /// Drops all chain data.
    fn clear(&mut self)
        requires
            old(self).wf(),
        ensures
            final(self).wf(),
            final(self)@ == old(self)@.cleared(),
    {
        self.genesis_hash = None;
        self.best_block = 0;
        self.preload_blocks = self.preload_depth;
        self.preload_next = None;
        self.hash_to_number.clear();
        self.blocks.clear();
        self.recent_blocks.clear();
        self.recent_events.clear();
        proof {
            assert forall|n: BlockNumber| !(#[trigger] self@.recent_blocks.contains(n)) by {}
        }
    }

    /// Lets the preload look at a block that arrived.
    fn next_preload(&mut self, block: &BlockInfo)
        requires
            old(self).wf(),
        ensures
            final(self).wf(),
            final(self)@ == old(self)@.preloaded(*block),
    {
        if self.preload_blocks == 0 {
            return;
        }
        if let Some(next) = self.preload_next {
            if next != block.hash {
                return;
            }
        }
        match block.header.parent() {
            Some(parent) => {
                self.preload_blocks -= 1;
                self.preload_next = Some(parent);
                self.backend.get_block_info(parent);
            },
            None => {
                self.preload_blocks = 0;
                self.preload_next = None;
            },
        }
    }

    /// Takes in a block that the worker reported.
    fn ingest_block(&mut self, block: BlockInfo)
        requires
            old(self).wf(),
            block.wf(),
        ensures
            final(self).wf(),
            final(self)@ == old(self)@.block_info(block),
    {
        let number = block.number();
        let hash = block.hash;
        let is_best = number > self.best_block;
        let fresh = !self.blocks.contains_key(&number) && self.hash_to_number.get(&hash).is_none();
        proof {
            lemma_block_info_wf(self@, block);
            lemma_joined_consistent(self@, block);
        }
        self.next_preload(&block);
        if is_best {
            self.best_block = number;
        }
        let mut summary = into_deque(summarize_events(&block.events));
        if is_best {
            summary.append(&mut self.recent_events);
            self.recent_events = summary;
        } else {
            self.recent_events.append(&mut summary);
        }
        self.recent_events.truncate(MAX_RECENT_EVENTS);
        if fresh {
            self.hash_to_number.insert(hash, number);
            self.blocks.insert(number, block);
            if is_best {
                self.recent_blocks.push_front(number);
            } else {
                self.recent_blocks.push_back(number);
            }
        }
        trim_blocks(&mut self.recent_blocks, &mut self.blocks, &mut self.hash_to_number);
        assert(self@.recent_events =~= old(self)@.block_info(block).recent_events);
    }

    /// Takes in one event that the worker reported.
    pub fn ingest(&mut self, event: BackendEvent)
        requires
            old(self).wf(),
            event.wf(),
        ensures
            final(self).wf(),
            final(self)@ == old(self)@.ingest(event),
    {
        proof {
            lemma_ingest_wf(self@, event);
        }
        match event {
            BackendEvent::Connected { genesis, is_reconnect } => {
                if is_reconnect && self.genesis_hash != Some(genesis) {
                    self.clear();
                }
                self.genesis_hash = Some(genesis);
                if !is_reconnect {
                    self.preload_blocks = self.preload_depth;
                }
            },
            BackendEvent::NewHeader(header) => {
                self.backend.get_block_info(header.hash());
            },
            BackendEvent::BlockInfo(block) => {
                self.ingest_block(block);
            },
        }
    }

    /// Reads the events that wait, oldest first, and takes each of them in.
    /// One call reads no more than `MAX_BACKEND_UPDATES` events; what is left
    /// waits for the next call.
    pub fn backend_updates(&mut self)
        requires
            old(self).wf(),
        ensures
            final(self).wf(),
            final(self)@ == old(self)@.poll(MAX_BACKEND_UPDATES as nat),
    {
        let mut polled: usize = 0;
        let mut empty = false;
        while polled < MAX_BACKEND_UPDATES && !empty
            invariant
                self.wf(),
                polled <= MAX_BACKEND_UPDATES,
                empty ==> self@.backend.events.len() == 0,
                self@.poll((MAX_BACKEND_UPDATES - polled) as nat) == old(self)@.poll(
                    MAX_BACKEND_UPDATES as nat,
                ),
            decreases MAX_BACKEND_UPDATES - polled + if empty { 0int } else { 1int },
        {
            let ghost before = self@;
            match self.backend.next_update() {
                Some(event) => {
                    assert(before.backend.events[0].wf());
                    assert(self@.backend.wf());
                    self.ingest(event);
                    assert(self@ == before.step());
                    polled += 1;
                },
                None => {
                    empty = true;
                },
            }
        }
    }

    /// Asks the worker to connect to the wanted node.
    pub fn connect(&mut self)
        requires
            old(self).wf(),
        ensures
            final(self).wf(),
            final(self)@ == old(self)@.connecting(),
    {
        self.backend.connect_to(self.url.as_str());
    }

    /// Asks the worker for the block with the given hash.
    pub fn get_block_info(&mut self, hash: BlockHash)
        requires
            old(self).wf(),
        ensures
            final(self).wf(),
            final(self)@ == old(self)@.asking(hash),
    {
        self.backend.get_block_info(hash);
    }

    /// Asks the worker to connect to the wanted node, unless that is the
    /// node it was last sent to.
    fn check_node_url(&mut self)
        requires
            old(self).wf(),
        ensures
            final(self).wf(),
            final(self)@ == if old(self)@.backend.url == old(self)@.url {
                old(self)@
            } else {
                old(self)@.connecting()
            },
    {
        if !self.backend.is_url(&self.url) {
            self.connect();
        }
    }

    /// Looks at the settings for saving: whether something changed since the
    /// last look. Where it did, the wanted node is checked against the one in
    /// use, and the change counts as seen.
    pub fn check_need_save(&mut self) -> (r: bool)
        requires
            old(self).wf(),
        ensures
            final(self).wf(),
            r == old(self)@.need_save,
            final(self)@ == old(self)@.saved(),
    {
        if self.need_save {
            self.check_node_url();
            self.need_save = false;
            true
        } else {
            false
        }
    }

    /// Records the node that the user wants.
    pub fn set_url(&mut self, url: &str)
        requires
            old(self).wf(),
        ensures
            final(self).wf(),
            final(self)@ == old(self)@.with_url(url@),
    {
        self.url = String::from_str(url);
        self.need_save = true;
    }

    /// Shows or hides the backend panel.
    pub fn set_open(&mut self, open: bool)
        requires
            old(self).wf(),
        ensures
            final(self).wf(),
            final(self)@ == old(self)@.with_open(open),
    {
        self.open = open;
    }

    /// Whether one more event can wait to be read.
    pub fn has_room(&self) -> (r: bool)
        ensures
            r == self@.backend.has_room(),
    {
        self.backend.has_room()
    }

    /// Hands in an event that the worker reported, to be read by the next
    /// poll. Where no more events can wait, the event comes back and nothing
    /// changes.
    pub fn deliver(&mut self, event: BackendEvent) -> (r: Result<(), BackendEvent>)
        requires
            old(self).wf(),
            event.wf(),
        ensures
            final(self).wf(),
            match r {
                Ok(_) => old(self)@.backend.has_room() && final(self)@ == old(self)@.delivered(
                    event,
                ),
                Err(back) => !old(self)@.backend.has_room() && back == event && final(self)@
                    == old(self)@,
            },
    {
        self.backend.deliver(event)
    }

    /// Takes the requests that wait to be sent to the worker, oldest first.
    pub fn take_requests(&mut self) -> (r: Vec<BackendRequest>)
        requires
            old(self).wf(),
        ensures
            final(self).wf(),
            request_views(r@) == old(self)@.backend.requests,
            final(self)@ == old(self)@.sent(),
    {
        self.backend.take_requests()
    }

    /// Whether the backend panel is shown.
    pub fn is_open(&self) -> (r: bool)
        ensures
            r == self@.open,
    {
        self.open
    }

    /// The node that the user wants.
    pub fn url(&self) -> (r: &str)
        ensures
            r@ == self@.url,
    {
        self.url.as_str()
    }

    /// The node that the worker was last sent to.
    pub fn backend_url(&self) -> (r: &str)
        ensures
            r@ == self@.backend.url,
    {
        self.backend.get_url()
    }

    /// Identity of the chain that the cache speaks of.
    pub fn genesis_hash(&self) -> (r: Option<BlockHash>)
        ensures
            r == self@.genesis_hash,
    {
        self.genesis_hash
    }

    /// The highest number of a block that arrived as the newest.
    pub fn best_block(&self) -> (r: BlockNumber)
        ensures
            r == self@.best_block,
    {
        self.best_block
    }

    /// How many ancestors the running preload has yet to ask for.
    pub fn preload_blocks(&self) -> (r: u32)
        ensures
            r == self@.preload_blocks,
    {
        self.preload_blocks
    }

    /// The cached block with the given number.
    pub fn block(&self, number: BlockNumber) -> (r: Option<&BlockInfo>)
        ensures
            match r {
                Some(block) => self@.blocks.contains_key(number) && *block == self@.blocks[number],
                None => !self@.blocks.contains_key(number),
            },
    {
        self.blocks.get(&number)
    }

    /// The cached block with the given hash.
    pub fn block_by_hash(&self, hash: &BlockHash) -> (r: Option<&BlockInfo>)
        requires
            self.wf(),
        ensures
            match r {
                Some(block) => self@.block_by_hash(*hash) == Some(*block),
                None => self@.block_by_hash(*hash) is None,
            },
    {
        match self.hash_to_number.get(hash) {
            Some(number) => self.blocks.get(&number),
            None => None,
        }
    }

    /// How many blocks are cached.
    pub fn recent_blocks_len(&self) -> (r: usize)
        ensures
            r == self@.recent_blocks.len(),
    {
        self.recent_blocks.len()
    }

    /// How many event summaries are cached.
    pub fn recent_events_len(&self) -> (r: usize)
        ensures
            r == self@.recent_events.len(),
    {
        self.recent_events.len()
    }

    /// The numbers of the cached blocks from position `start` up to position
    /// `end`, the newest first. A range that does not lie within the list is
    /// refused: it gives no item.
    pub fn recent_blocks(&self, start: usize, end: usize) -> (r: Vec<BlockNumber>)
        ensures
            r@ == range_of(self@.recent_blocks, start as int, end as int),
    {
        let mut out: Vec<BlockNumber> = Vec::new();
        if start > end || end > self.recent_blocks.len() {
            return out;
        }
        let mut i: usize = start;
        while i < end
            invariant
                start <= i <= end <= self.recent_blocks@.len(),
                out@ == self.recent_blocks@.subrange(start as int, i as int),
            decreases end - i,
        {
            out.push(self.recent_blocks[i]);
            assert(out@ =~= self.recent_blocks@.subrange(start as int, i + 1));
            i += 1;
        }
        out
    }

    /// The cached event summaries from position `start` up to position `end`,
    /// the newest first. A range that does not lie within the list is
    /// refused: it gives no item.
    pub fn recent_events(&self, start: usize, end: usize) -> (r: Vec<BlockEventSummary>)
        ensures
            r@ == range_of(self@.recent_events, start as int, end as int),
    {
        let mut out: Vec<BlockEventSummary> = Vec::new();
        if start > end || end > self.recent_events.len() {
            return out;
        }
        let mut i: usize = start;
        while i < end
            invariant
                start <= i <= end <= self.recent_events@.len(),
                out@ == self.recent_events@.subrange(start as int, i as int),
            decreases end - i,
        {
            out.push(self.recent_events[i].copy());
            assert(out@ =~= self.recent_events@.subrange(start as int, i + 1));
            i += 1;
        }
        out
    }
}

impl Default for BackendState {
    /// An empty cache for the staging node, with the usual preload depth.
    fn default() -> (r: BackendState)
        ensures
            r.wf(),
            r@ == CacheModel::initial(POLYMESH_STAGING@, PRELOAD_BLOCKS),
    {
        BackendState::new(POLYMESH_STAGING, PRELOAD_BLOCKS)
    }
}

} // verus!
