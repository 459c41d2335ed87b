//! Navigation between the views of the explorer: which view an anchor
//! belongs to, what a view shows of the cache, and which block an anchor
//! names.

use crate::chain::BlockNumber;
use crate::hash::{hash_of_text, hash_text, lemma_text_round_trip, BlockHash};
use crate::model::{range_of, CacheModel};
use crate::state::BackendState;
use crate::summary::BlockEventSummary;
use crate::text::{debug_text, starts_with, str_debug, strip_prefix};
use std::ops::Range;
use vstd::prelude::*;
use vstd::string::StringExecFns;
use vstd::utf8::encode_utf8;

verus! {

/// What a view asks the explorer to do.
#[derive(Clone, Copy, Debug, PartialEq)]
pub enum SubAppEvent {
    /// Show the details of the block with this hash.
    BlockDetails(BlockHash),
}

/// The views of the explorer.
#[derive(Clone, Copy, Debug, PartialEq, Eq, Structural)]
pub enum SubAppKind {
    ChainInfo,
    BlockDetails,
}

impl SubAppKind {
    /// The name of the view in the navigation bar.
    pub open spec fn spec_name(self) -> Seq<char> {
        match self {
            SubAppKind::ChainInfo => "Explorer"@,
            SubAppKind::BlockDetails => "Block details"@,
        }
    }

    /// The start of every anchor that belongs to the view.
    pub open spec fn spec_anchor(self) -> Seq<char> {
        match self {
            SubAppKind::ChainInfo => "explorer"@,
            SubAppKind::BlockDetails => "block_details/"@,
        }
    }

    /// The anchor belongs to the view.
    pub open spec fn spec_match_anchor(self, anchor: Seq<char>) -> bool {
        self.spec_anchor().is_prefix_of(anchor)
    }

    /// The name of the view in the navigation bar.
    pub fn name(&self) -> (r: &'static str)
        ensures
            r@ == self.spec_name(),
    {
        match self {
            SubAppKind::ChainInfo => "Explorer",
            SubAppKind::BlockDetails => "Block details",
        }
    }

    /// The start of every anchor that belongs to the view.
    pub fn anchor(&self) -> (r: &'static str)
        ensures
            r@ == self.spec_anchor(),
    {
        match self {
            SubAppKind::ChainInfo => "explorer",
            SubAppKind::BlockDetails => "block_details/",
        }
    }

    /// Whether the anchor belongs to the view.
    pub fn match_anchor(&self, anchor: &str) -> (r: bool)
        ensures
            r == self.spec_match_anchor(anchor@),
    {
        starts_with(anchor, self.anchor())
    }
}

/// A row of the list of recent blocks.
#[derive(Clone, Copy, Debug, PartialEq)]
pub struct BlockRow {
    pub number: BlockNumber,
    pub hash: BlockHash,
}

/// A row of the list of recent events.
#[derive(Clone, Debug, PartialEq)]
pub struct EventRow {
    pub name: String,
    pub block: BlockNumber,
    pub number: u32,
    pub count: u32,
    /// The hash of the event's block, while the block is cached.
    pub hash: Option<BlockHash>,
}

/// The range of rows lies within a list of `max` rows.
pub open spec fn valid_range(max: int, range: Range<usize>) -> bool {
    range.start <= range.end && range.end <= max
}

/// The rows of the list of recent blocks that a range of positions names.
pub open spec fn block_rows(cache: CacheModel, range: Range<usize>) -> Seq<BlockRow> {
    range_of(cache.recent_blocks, range.start as int, range.end as int).map_values(
        |n: BlockNumber| BlockRow { number: n, hash: cache.blocks[n].hash },
    )
}

/// The hash of the block with the given number, while it is cached.
pub open spec fn cached_hash(cache: CacheModel, number: BlockNumber) -> Option<BlockHash> {
    if cache.blocks.contains_key(number) {
        Some(cache.blocks[number].hash)
    } else {
        None
    }
}

/// The row that shows an event summary.
pub open spec fn event_row(cache: CacheModel, summary: BlockEventSummary) -> EventRow {
    EventRow {
        name: summary.name,
        block: summary.block,
        number: summary.number,
        count: summary.count,
        hash: cached_hash(cache, summary.block),
    }
}

/// The rows of the list of recent events that a range of positions names.
pub open spec fn event_rows(cache: CacheModel, range: Range<usize>) -> Seq<EventRow> {
    range_of(cache.recent_events, range.start as int, range.end as int).map_values(
        |s: BlockEventSummary| event_row(cache, s),
    )
}

/// The view of recent blocks and recent events.
pub struct ChainInfoApp {
    reset_scroll: bool,
}

impl ChainInfoApp {
    /// The view in its first state.
    pub fn new() -> (r: ChainInfoApp)
        ensures
            !r.wants_reset(),
    {
        ChainInfoApp { reset_scroll: false }
    }

    /// The lists are to be scrolled back to their start.
    pub closed spec fn wants_reset(&self) -> bool {
        self.reset_scroll
    }

    /// Whether the lists are to be scrolled back to their start.
    pub fn reset_scroll(&self) -> (r: bool)
        ensures
            r == self.wants_reset(),
    {
        self.reset_scroll
    }

    /// Whether the lists are to be scrolled back to their start; the wish
    /// counts as granted.
    pub fn take_reset_scroll(&mut self) -> (r: bool)
        ensures
            r == old(self).wants_reset(),
            !final(self).wants_reset(),
    {
        let r = self.reset_scroll;
        self.reset_scroll = false;
        r
    }

    /// Checks a range of rows against a list of `max` rows. A range that
    /// does not lie within the list is refused, and the lists are to be
    /// scrolled back to their start.
    pub fn validate_range(&mut self, max: usize, range: &Range<usize>) -> (r: bool)
        ensures
            r == valid_range(max as int, *range),
            final(self).wants_reset() == (old(self).wants_reset() || !r),
    {
        if range.start > range.end || range.end > max {
            self.reset_scroll = true;
            false
        } else {
            true
        }
    }

    /// The rows of recent blocks to show for a range of positions: no row
    /// where the range does not lie within the list.
    pub fn recent_blocks_rows(&mut self, backend: &BackendState, range: &Range<usize>) -> (r: Vec<
        BlockRow,
    >)
        requires
            backend.wf(),
        ensures
            r@ == block_rows(backend@, *range),
            final(self).wants_reset() == (old(self).wants_reset() || !valid_range(
                backend@.recent_blocks.len() as int,
                *range,
            )),
    {
        let mut rows: Vec<BlockRow> = Vec::new();
        if !self.validate_range(backend.recent_blocks_len(), range) {
            assert(rows@ =~= block_rows(backend@, *range));
            return rows;
        }
        let numbers = backend.recent_blocks(range.start, range.end);
        proof {
            backend.lemma_wf();
        }
        let mut i: usize = 0;
        while i < numbers.len()
            invariant
                i <= numbers@.len(),
                backend@.wf(),
                numbers@ == range_of(
                    backend@.recent_blocks,
                    range.start as int,
                    range.end as int,
                ),
                valid_range(backend@.recent_blocks.len() as int, *range),
                rows@ == numbers@.take(i as int).map_values(
                    |n: BlockNumber| BlockRow { number: n, hash: backend@.blocks[n].hash },
                ),
            decreases numbers@.len() - i,
        {
            let number = numbers[i];
            assert(backend@.recent_blocks.contains(number)) by {
                assert(backend@.recent_blocks[range.start + i] == number);
            }
            match backend.block(number) {
                Some(block) => {
                    rows.push(BlockRow { number, hash: block.hash });
                },
                None => {
                    assert(false);
                },
            }
            assert(rows@ =~= numbers@.take(i + 1).map_values(
                |n: BlockNumber| BlockRow { number: n, hash: backend@.blocks[n].hash },
            ));
            i += 1;
        }
        assert(numbers@.take(numbers@.len() as int) =~= numbers@);
        rows
    }

    /// The rows of recent events to show for a range of positions: no row
    /// where the range does not lie within the list.
    pub fn recent_events_rows(&mut self, backend: &BackendState, range: &Range<usize>) -> (r: Vec<
        EventRow,
    >)
        ensures
            r@ == event_rows(backend@, *range),
            final(self).wants_reset() == (old(self).wants_reset() || !valid_range(
                backend@.recent_events.len() as int,
                *range,
            )),
    {
        let mut rows: Vec<EventRow> = Vec::new();
        if !self.validate_range(backend.recent_events_len(), range) {
            assert(rows@ =~= event_rows(backend@, *range));
            return rows;
        }
        let events = backend.recent_events(range.start, range.end);
        let mut i: usize = 0;
        while i < events.len()
            invariant
                i <= events@.len(),
                events@ == range_of(
                    backend@.recent_events,
                    range.start as int,
                    range.end as int,
                ),
                rows@ == events@.take(i as int).map_values(
                    |s: BlockEventSummary| event_row(backend@, s),
                ),
            decreases events@.len() - i,
        {
            let event = &events[i];
            let hash = match backend.block(event.block) {
                Some(block) => Some(block.hash),
                None => None,
            };
            rows.push(
                EventRow {
                    name: event.name.clone(),
                    block: event.block,
                    number: event.number,
                    count: event.count,
                    hash,
                },
            );
            assert(rows@ =~= events@.take(i + 1).map_values(
                |s: BlockEventSummary| event_row(backend@, s),
            ));
            i += 1;
        }
        assert(events@.take(events@.len() as int) =~= events@);
        rows
    }

    pub fn name(&self) -> (r: &'static str)
        ensures
            r@ == SubAppKind::ChainInfo.spec_name(),
    {
        SubAppKind::ChainInfo.name()
    }

    pub fn anchor(&self) -> (r: &'static str)
        ensures
            r@ == SubAppKind::ChainInfo.spec_anchor(),
    {
        SubAppKind::ChainInfo.anchor()
    }

    pub fn match_anchor(&self, anchor: &str) -> (r: bool)
        ensures
            r == SubAppKind::ChainInfo.spec_match_anchor(anchor@),
    {
        SubAppKind::ChainInfo.match_anchor(anchor)
    }
}

/// What an anchor of the block details view names.
#[derive(Clone, Copy, Debug, PartialEq)]
pub enum AnchorTarget {
    /// The best block.
    Best,
    /// The block with this hash.
    Hash(BlockHash),
    /// What follows `0x` is no block hash.
    BadHash,
    /// A block by its number, which is not supported.
    Unsupported,
    /// The anchor does not belong to the view.
    Invalid,
}

/// What follows the start of an anchor of the block details view.
pub open spec fn anchor_param(anchor: Seq<char>) -> Seq<char> {
    anchor.skip(SubAppKind::BlockDetails.spec_anchor().len() as int)
}

/// What an anchor names. After the start of the anchor comes nothing, for the
/// best block, or the text of a block hash.
pub open spec fn anchor_target(anchor: Seq<char>) -> AnchorTarget {
    let param = anchor_param(anchor);
    if !SubAppKind::BlockDetails.spec_match_anchor(anchor) {
        AnchorTarget::Invalid
    } else if param.len() == 0 {
        AnchorTarget::Best
    } else if !"0x"@.is_prefix_of(param) {
        AnchorTarget::Unsupported
    } else {
        match hash_of_text(encode_utf8(param)) {
            Some(hash) => AnchorTarget::Hash(hash),
            None => AnchorTarget::BadHash,
        }
    }
}

/// What the user is told about an anchor that names no block.
pub open spec fn anchor_error(anchor: Seq<char>) -> Seq<char> {
    match anchor_target(anchor) {
        AnchorTarget::BadHash => "Failed to parse block hash: "@ + str_debug(anchor_param(anchor)),
        AnchorTarget::Unsupported => "Unsupported block number lookup: "@ + anchor_param(anchor),
        _ => "Failed to parse nav anchor: "@ + anchor,
    }
}

/// The anchor that names the block with the given hash.
pub open spec fn block_anchor(hash: BlockHash) -> Seq<char> {
    SubAppKind::BlockDetails.spec_anchor() + hash_text(hash@)
}

/// The anchor that names a block is read as naming that block.
pub proof fn lemma_block_anchor_names_block(hash: BlockHash)
    ensures
        anchor_target(block_anchor(hash)) == AnchorTarget::Hash(hash),
{
    let start = SubAppKind::BlockDetails.spec_anchor();
    let anchor = block_anchor(hash);
    let text = hash_text(hash@);
    assert(start.is_prefix_of(anchor)) by {
        assert(anchor.subrange(0, start.len() as int) =~= start);
    }
    assert(anchor_param(anchor) =~= text);
    assert("0x"@.is_prefix_of(text)) by {
        reveal_strlit("0x");
        assert(text.subrange(0, 2) =~= "0x"@);
    }
    lemma_text_round_trip(hash);
}

/// Reads what an anchor names.
pub fn parse_anchor(anchor: &str) -> (r: AnchorTarget)
    ensures
        r == anchor_target(anchor@),
{
    match strip_prefix(anchor, SubAppKind::BlockDetails.anchor()) {
        None => AnchorTarget::Invalid,
        Some(param) => {
            if param.is_empty() {
                AnchorTarget::Best
            } else if starts_with(param, "0x") {
                match BlockHash::from_text(param) {
                    Some(hash) => AnchorTarget::Hash(hash),
                    None => AnchorTarget::BadHash,
                }
            } else {
                AnchorTarget::Unsupported
            }
        },
    }
}

/// What the block details view remembers between frames.
pub struct DetailsModel {
    /// The anchor that was looked at last.
    pub last_anchor: Seq<char>,
    /// The hash of the block to show.
    pub block_hash: BlockHash,
    /// The block to show was asked for.
    pub requested: bool,
}

/// The number of the block, while it is cached.
pub open spec fn cached_number(cache: CacheModel, number: BlockNumber) -> Option<BlockNumber> {
    if cache.blocks.contains_key(number) {
        Some(number)
    } else {
        None
    }
}

impl DetailsModel {
    /// The view in its first state: it has seen no anchor, and the block to
    /// show is the one with the hash of zeros, not asked for.
    pub open spec fn initial() -> DetailsModel {
        DetailsModel { last_anchor: Seq::empty(), block_hash: BlockHash::zero(), requested: false }
    }

    /// The view after it looked at the anchor. An anchor that it saw last
    /// time changes nothing; a new anchor that names a block by its hash
    /// makes that block the one to show.
    pub open spec fn seen(self, anchor: Seq<char>) -> DetailsModel {
        if self.last_anchor == anchor {
            self
        } else {
            match anchor_target(anchor) {
                AnchorTarget::Hash(hash) => DetailsModel {
                    last_anchor: anchor,
                    block_hash: hash,
                    requested: false,
                },
                _ => DetailsModel { last_anchor: anchor, ..self },
            }
        }
    }

    /// What a new anchor settles by itself: the best block, if the anchor
    /// names it, or an error, if it names no block.
    pub open spec fn settled(self, cache: CacheModel, anchor: Seq<char>) -> Option<
        Result<Option<BlockNumber>, Seq<char>>,
    > {
        if self.last_anchor == anchor {
            None
        } else {
            match anchor_target(anchor) {
                AnchorTarget::Hash(_) => None,
                AnchorTarget::Best => Some(Ok(cached_number(cache, cache.best_block))),
                _ => Some(Err(anchor_error(anchor))),
            }
        }
    }

    /// The number of the block to show, while it is cached.
    pub open spec fn loaded(self, cache: CacheModel, anchor: Seq<char>) -> Option<BlockNumber> {
        match cache.block_by_hash(self.seen(anchor).block_hash) {
            Some(block) => Some(block.header.number),
            None => None,
        }
    }

    /// The view asks the worker for the block to show: it is not cached and
    /// was not asked for yet.
    pub open spec fn asks(self, cache: CacheModel, anchor: Seq<char>) -> bool {
        &&& self.settled(cache, anchor) is None
        &&& self.loaded(cache, anchor) is None
        &&& !self.seen(anchor).requested
    }

    /// The view after a frame with the given anchor.
    pub open spec fn navigated(self, cache: CacheModel, anchor: Seq<char>) -> DetailsModel {
        if self.asks(cache, anchor) {
            DetailsModel { requested: true, ..self.seen(anchor) }
        } else {
            self.seen(anchor)
        }
    }

    /// What a frame with the given anchor shows: the number of a cached
    /// block, nothing while the block is loading, or an error.
    pub open spec fn outcome(self, cache: CacheModel, anchor: Seq<char>) -> Result<
        Option<BlockNumber>,
        Seq<char>,
    > {
        match self.settled(cache, anchor) {
            Some(r) => r,
            None => Ok(self.loaded(cache, anchor)),
        }
    }

    /// The cache after a frame with the given anchor.
    pub open spec fn cache_after(self, cache: CacheModel, anchor: Seq<char>) -> CacheModel {
        if self.asks(cache, anchor) {
            cache.asking(self.seen(anchor).block_hash)
        } else {
            cache
        }
    }
}

/// The view of one block.
pub struct BlockDetailsApp {
    last_anchor: String,
    block_hash: BlockHash,
    requested: bool,
}

impl View for BlockDetailsApp {
    type V = DetailsModel;

    closed spec fn view(&self) -> DetailsModel {
        DetailsModel {
            last_anchor: self.last_anchor@,
            block_hash: self.block_hash,
            requested: self.requested,
        }
    }
}

impl BlockDetailsApp {
    /// The view in its first state: it has seen no anchor and shows no block.
    pub fn new() -> (r: BlockDetailsApp)
        ensures
            r@ == DetailsModel::initial(),
    {
        BlockDetailsApp { last_anchor: String::new(), block_hash: BlockHash::zero(), requested: false }
    }

    /// The hash of the block to show.
    pub fn block_hash(&self) -> (r: BlockHash)
        ensures
            r == self@.block_hash,
    {
        self.block_hash
    }

    /// Reads the anchor of the frame and finds the block to show: the number
    /// of a cached block, or nothing while the block is on its way. A block
    /// that is not cached is asked for once. An anchor that names no block
    /// gives the error to show.
    pub fn parse_anchor_and_load_block(&mut self, backend: &mut BackendState, anchor: &str) -> (r:
        Result<Option<BlockNumber>, String>)
        requires
            old(backend).wf(),
        ensures
            final(backend).wf(),
            final(self)@ == old(self)@.navigated(old(backend)@, anchor@),
            final(backend)@ == old(self)@.cache_after(old(backend)@, anchor@),
            match r {
                Ok(found) => old(self)@.outcome(old(backend)@, anchor@) == Ok::<
                    Option<BlockNumber>,
                    Seq<char>,
                >(found),
                Err(message) => old(self)@.outcome(old(backend)@, anchor@) == Err::<
                    Option<BlockNumber>,
                    Seq<char>,
                >(message@),
            },
    {
        proof {
            backend.lemma_wf();
        }
        let seen = String::from_str(anchor);
        if self.last_anchor != seen {
            self.last_anchor = seen;
            match parse_anchor(anchor) {
                AnchorTarget::Best => {
                    let number = backend.best_block();
                    return match backend.block(number) {
                        Some(_) => Ok(Some(number)),
                        None => Ok(None),
                    };
                },
                AnchorTarget::Hash(hash) => {
                    self.block_hash = hash;
                    self.requested = false;
                },
                AnchorTarget::BadHash => {
                    let param = strip_prefix(anchor, SubAppKind::BlockDetails.anchor());
                    let mut message = String::from_str("Failed to parse block hash: ");
                    match param {
                        Some(param) => message.append(debug_text(param).as_str()),
                        None => {},
                    }
                    return Err(message);
                },
                AnchorTarget::Unsupported => {
                    let param = strip_prefix(anchor, SubAppKind::BlockDetails.anchor());
                    let mut message = String::from_str("Unsupported block number lookup: ");
                    match param {
                        Some(param) => message.append(param),
                        None => {},
                    }
                    return Err(message);
                },
                AnchorTarget::Invalid => {
                    let mut message = String::from_str("Failed to parse nav anchor: ");
                    message.append(anchor);
                    return Err(message);
                },
            }
        }
        match backend.block_by_hash(&self.block_hash) {
            Some(block) => {
                return Ok(Some(block.number()));
            },
            None => {},
        }
        if !self.requested {
            self.requested = true;
            backend.get_block_info(self.block_hash);
        }
        Ok(None)
    }

    pub fn name(&self) -> (r: &'static str)
        ensures
            r@ == SubAppKind::BlockDetails.spec_name(),
    {
        SubAppKind::BlockDetails.name()
    }

    pub fn anchor(&self) -> (r: &'static str)
        ensures
            r@ == SubAppKind::BlockDetails.spec_anchor(),
    {
        SubAppKind::BlockDetails.anchor()
    }

    pub fn match_anchor(&self, anchor: &str) -> (r: bool)
        ensures
            r == SubAppKind::BlockDetails.spec_match_anchor(anchor@),
    {
        SubAppKind::BlockDetails.match_anchor(anchor)
    }
}

/// The views of the explorer, the first of them first.
pub open spec fn all_apps() -> Seq<SubAppKind> {
    seq![SubAppKind::ChainInfo, SubAppKind::BlockDetails]
}

/// The first view that the anchor belongs to.
pub open spec fn first_match(anchor: Seq<char>) -> Option<SubAppKind> {
    if SubAppKind::ChainInfo.spec_match_anchor(anchor) {
        Some(SubAppKind::ChainInfo)
    } else if SubAppKind::BlockDetails.spec_match_anchor(anchor) {
        Some(SubAppKind::BlockDetails)
    } else {
        None
    }
}

/// Where the explorer is, and its views.
pub struct State {
    pub selected: String,
    pub current_anchor: String,
    pub chain_info: ChainInfoApp,
    pub block_details: BlockDetailsApp,
}

impl State {
    /// The explorer at no anchor, with its views in their first state.
    pub fn new() -> (r: State)
        ensures
            r.selected@ == Seq::<char>::empty(),
            r.current_anchor@ == Seq::<char>::empty(),
            !r.chain_info.wants_reset(),
            r.block_details@ == DetailsModel::initial(),
    {
        State {
            selected: String::new(),
            current_anchor: String::new(),
            chain_info: ChainInfoApp::new(),
            block_details: BlockDetailsApp::new(),
        }
    }

    /// The views of the explorer, the first of them first.
    pub fn apps() -> (r: [SubAppKind; 2])
        ensures
            r@ == all_apps(),
    {
        let r = [SubAppKind::ChainInfo, SubAppKind::BlockDetails];
        assert(r@ =~= all_apps());
        r
    }

    /// The view that shows the current anchor: the first that it belongs to.
    pub fn current_app(&self) -> (r: Option<SubAppKind>)
        ensures
            r == first_match(self.current_anchor@),
    {
        let apps = State::apps();
        let mut i: usize = 0;
        while i < 2
            invariant
                i <= 2,
                apps@ == all_apps(),
                forall|k: int|
                    0 <= k < i ==> !(#[trigger] all_apps()[k]).spec_match_anchor(
                        self.current_anchor@,
                    ),
            decreases 2 - i,
        {
            if apps[i].match_anchor(self.current_anchor.as_str()) {
                assert(all_apps()[0] == SubAppKind::ChainInfo);
                assert(all_apps()[1] == SubAppKind::BlockDetails);
                return Some(apps[i]);
            }
            i += 1;
        }
        assert(all_apps()[0] == SubAppKind::ChainInfo);
        assert(all_apps()[1] == SubAppKind::BlockDetails);
        None
    }

    /// Puts the explorer at the anchor that the address bar shows.
    pub fn set_anchor(&mut self, anchor: &str)
        ensures
            final(self).current_anchor@ == anchor@,
            final(self).selected == old(self).selected,
            final(self).chain_info == old(self).chain_info,
            final(self).block_details == old(self).block_details,
    {
        self.current_anchor = String::from_str(anchor);
    }

    /// Makes sure that the explorer is at some anchor: where it is at none,
    /// it goes to the first view.
    pub fn ensure_anchor(&mut self)
        ensures
            final(self).current_anchor@ == if old(self).current_anchor@.len() == 0 {
                SubAppKind::ChainInfo.spec_anchor()
            } else {
                old(self).current_anchor@
            },
            final(self).selected == old(self).selected,
            final(self).chain_info == old(self).chain_info,
            final(self).block_details == old(self).block_details,
    {
        if self.current_anchor.as_str().is_empty() {
            let apps = State::apps();
            self.current_anchor = String::from_str(apps[0].anchor());
        }
    }

    /// Moves the explorer to an anchor, and says whether that is a move: an
    /// anchor that the explorer is at already needs no new address.
    pub fn open_anchor(&mut self, anchor: &str) -> (moved: bool)
        ensures
            moved == (old(self).current_anchor@ != anchor@),
            final(self).current_anchor@ == anchor@,
            final(self).selected == old(self).selected,
            final(self).chain_info == old(self).chain_info,
            final(self).block_details == old(self).block_details,
    {
        let wanted = String::from_str(anchor);
        if self.current_anchor == wanted {
            return false;
        }
        self.current_anchor = wanted;
        true
    }

    /// The anchor that names the block with the given hash.
    pub fn block_anchor(hash: &BlockHash) -> (r: String)
        ensures
            r@ == block_anchor(*hash),
    {
        let mut anchor = String::from_str(SubAppKind::BlockDetails.anchor());
        anchor.append(hash.to_text().as_str());
        anchor
    }

    /// Follows what a view asked for: the explorer moves to the anchor of
    /// the block to show. Where that is a move, the new anchor is returned.
    pub fn handle_event(&mut self, event: SubAppEvent) -> (r: Option<String>)
        ensures
            match event {
                SubAppEvent::BlockDetails(hash) => {
                    &&& final(self).current_anchor@ == block_anchor(hash)
                    &&& match r {
                        Some(anchor) => anchor@ == block_anchor(hash)
                            && old(self).current_anchor@ != block_anchor(hash),
                        None => old(self).current_anchor@ == block_anchor(hash),
                    }
                },
            },
            final(self).selected == old(self).selected,
            final(self).chain_info == old(self).chain_info,
            final(self).block_details == old(self).block_details,
    {
        match event {
            SubAppEvent::BlockDetails(hash) => {
                let anchor = State::block_anchor(&hash);
                if self.open_anchor(anchor.as_str()) {
                    Some(anchor)
                } else {
                    None
                }
            },
        }
    }
}

} // verus!
