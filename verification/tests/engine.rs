use polymesh_explorer::backend::MAX_BACKEND_UPDATES;
use polymesh_explorer::chain::{BackendEvent, BackendRequest, BlockInfo, EventInfo, Header, Phase};
use polymesh_explorer::hash::BlockHash;
use polymesh_explorer::model::{MAX_RECENT_BLOCKS, MAX_RECENT_EVENTS, PRELOAD_BLOCKS};
use polymesh_explorer::state::{BackendState, POLYMESH_STAGING};
use polymesh_explorer::summary::BlockEventSummary;
use serde_json::Value;

const LOCAL: &str = "ws://localhost:9944/";

/// A hash for the block with the given number on the chain with the given tag.
fn hash_of(chain: u8, number: u32) -> BlockHash {
    let mut bytes = [0u8; 32];
    bytes[..4].copy_from_slice(&number.to_be_bytes());
    bytes[4] = chain;
    bytes[31] = 0x5a;
    BlockHash { bytes }
}

fn event(block: u32, number: u32, name: &str) -> EventInfo {
    EventInfo { block, number, phase: Phase::ApplyExtrinsic(number), name: name.to_string(), value: Value::Null }
}

fn block_with(number: u32, names: &[&str]) -> BlockInfo {
    let parent = if number == 0 { BlockHash::zero() } else { hash_of(1, number - 1) };
    BlockInfo {
        hash: hash_of(1, number),
        header: Header {
            number,
            hash: hash_of(1, number),
            parent_hash: parent,
            extrinsics_root: BlockHash::zero(),
            state_root: BlockHash::zero(),
        },
        events: names.iter().enumerate().map(|(i, name)| event(number, i as u32, name)).collect(),
    }
}

fn block(number: u32) -> BlockInfo {
    block_with(number, &[])
}

fn summary(block: u32, number: u32, name: &str, count: u32) -> BlockEventSummary {
    BlockEventSummary { block, number, name: name.to_string(), count }
}

/// A cache that does not preload, so that only what a test asks for is asked.
fn quiet() -> BackendState {
    BackendState::new(LOCAL, 0)
}

fn all_blocks(state: &BackendState) -> Vec<u32> {
    state.recent_blocks(0, state.recent_blocks_len())
}

fn all_events(state: &BackendState) -> Vec<BlockEventSummary> {
    state.recent_events(0, state.recent_events_len())
}

#[test]
fn new_cache_is_empty() {
    let state = BackendState::new(LOCAL, 7);
    assert!(state.is_open());
    assert_eq!(state.url(), LOCAL);
    assert_eq!(state.backend_url(), "");
    assert_eq!(state.genesis_hash(), None);
    assert_eq!(state.best_block(), 0);
    assert_eq!(state.preload_blocks(), 7);
    assert_eq!(state.recent_blocks_len(), 0);
    assert_eq!(state.recent_events_len(), 0);
    assert!(state.block(0).is_none());
    assert!(state.block_by_hash(&hash_of(1, 0)).is_none());
    assert!(state.has_room());
}

#[test]
fn default_cache_wants_the_staging_node() {
    let mut state = BackendState::default();
    assert_eq!(state.url(), "wss://staging-rpc.polymesh.live");
    assert_eq!(POLYMESH_STAGING, "wss://staging-rpc.polymesh.live");
    assert_eq!(state.preload_blocks(), 1000);
    assert_eq!(PRELOAD_BLOCKS, 1000);
    assert!(state.is_open());
    assert!(state.take_requests().is_empty());
}

#[test]
fn bounds_are_the_documented_ones() {
    assert_eq!(MAX_RECENT_BLOCKS, 2000);
    assert_eq!(MAX_RECENT_EVENTS, 2000);
    assert_eq!(MAX_BACKEND_UPDATES, 100);
}

#[test]
fn best_block_leads_and_older_block_follows() {
    let mut state = quiet();
    state.ingest(BackendEvent::Connected { genesis: hash_of(1, 0), is_reconnect: false });
    assert_eq!(state.genesis_hash(), Some(hash_of(1, 0)));
    state.ingest(BackendEvent::BlockInfo(block(100)));
    assert_eq!(state.best_block(), 100);
    assert_eq!(all_blocks(&state), vec![100]);
    state.ingest(BackendEvent::BlockInfo(block(99)));
    assert_eq!(all_blocks(&state), vec![100, 99]);
    assert_eq!(state.best_block(), 100);
}

#[test]
fn reconnect_to_another_chain_empties_the_cache_at_once() {
    let mut state = quiet();
    state.ingest(BackendEvent::Connected { genesis: hash_of(1, 0), is_reconnect: false });
    state.ingest(BackendEvent::BlockInfo(block_with(100, &["Balances.Transfer"])));
    state.ingest(BackendEvent::BlockInfo(block_with(99, &["Staking.Reward"])));
    assert_eq!(state.recent_blocks_len(), 2);
    assert_eq!(state.recent_events_len(), 2);

    state.ingest(BackendEvent::Connected { genesis: hash_of(2, 0), is_reconnect: true });
    assert_eq!(state.recent_blocks_len(), 0);
    assert_eq!(state.recent_events_len(), 0);
    assert!(state.block(100).is_none());
    assert!(state.block(99).is_none());
    assert!(state.block_by_hash(&hash_of(1, 100)).is_none());
    assert!(state.block_by_hash(&hash_of(1, 99)).is_none());
    assert_eq!(state.best_block(), 0);
    assert_eq!(state.genesis_hash(), Some(hash_of(2, 0)));
}

#[test]
fn reconnect_to_the_same_chain_keeps_the_cache() {
    let mut state = quiet();
    state.ingest(BackendEvent::Connected { genesis: hash_of(1, 0), is_reconnect: false });
    state.ingest(BackendEvent::BlockInfo(block_with(100, &["Balances.Transfer"])));
    state.ingest(BackendEvent::BlockInfo(block_with(99, &["Staking.Reward"])));
    let blocks = all_blocks(&state);
    let events = all_events(&state);

    state.ingest(BackendEvent::Connected { genesis: hash_of(1, 0), is_reconnect: true });
    assert_eq!(all_blocks(&state), blocks);
    assert_eq!(all_events(&state), events);
    assert_eq!(state.block(100), Some(&block_with(100, &["Balances.Transfer"])));
    assert_eq!(state.block_by_hash(&hash_of(1, 99)), Some(&block_with(99, &["Staking.Reward"])));
    assert_eq!(state.best_block(), 100);
    assert_eq!(state.genesis_hash(), Some(hash_of(1, 0)));
}

#[test]
fn first_connection_never_clears() {
    let mut state = quiet();
    state.ingest(BackendEvent::BlockInfo(block(5)));
    state.ingest(BackendEvent::Connected { genesis: hash_of(1, 0), is_reconnect: false });
    assert_eq!(all_blocks(&state), vec![5]);
    assert_eq!(state.genesis_hash(), Some(hash_of(1, 0)));
}

#[test]
fn reconnect_before_any_chain_was_known_clears() {
    let mut state = quiet();
    state.ingest(BackendEvent::BlockInfo(block(5)));
    state.ingest(BackendEvent::Connected { genesis: hash_of(1, 0), is_reconnect: true });
    assert_eq!(state.recent_blocks_len(), 0);
    assert_eq!(state.best_block(), 0);
    assert_eq!(state.genesis_hash(), Some(hash_of(1, 0)));
}

#[test]
fn first_connection_starts_the_preload_counter() {
    let mut state = BackendState::new(LOCAL, 2);
    state.ingest(BackendEvent::BlockInfo(block(10)));
    assert_eq!(state.preload_blocks(), 1);
    state.ingest(BackendEvent::Connected { genesis: hash_of(1, 0), is_reconnect: true });
    // The chain is new to the cache, so everything starts over.
    assert_eq!(state.preload_blocks(), 2);
    state.ingest(BackendEvent::BlockInfo(block(10)));
    assert_eq!(state.preload_blocks(), 1);
    state.ingest(BackendEvent::Connected { genesis: hash_of(1, 0), is_reconnect: true });
    assert_eq!(state.preload_blocks(), 1);
    state.ingest(BackendEvent::Connected { genesis: hash_of(1, 0), is_reconnect: false });
    assert_eq!(state.preload_blocks(), 2);
}

#[test]
fn same_block_twice_is_cached_once() {
    let mut state = quiet();
    state.ingest(BackendEvent::BlockInfo(block_with(100, &["Balances.Transfer"])));
    state.ingest(BackendEvent::BlockInfo(block(99)));
    let blocks = all_blocks(&state);
    state.ingest(BackendEvent::BlockInfo(block_with(100, &["Balances.Transfer"])));
    assert_eq!(all_blocks(&state), blocks);
    assert_eq!(state.recent_blocks_len(), 2);
    assert_eq!(state.block(100), Some(&block_with(100, &["Balances.Transfer"])));
    assert_eq!(state.block_by_hash(&hash_of(1, 100)).map(|b| b.number()), Some(100));
    // Its events are summarized again, behind the others this time.
    assert_eq!(
        all_events(&state),
        vec![summary(100, 0, "Balances.Transfer", 1), summary(100, 0, "Balances.Transfer", 1)]
    );
}

#[test]
fn another_block_with_a_cached_number_or_hash_is_dropped() {
    let mut state = quiet();
    state.ingest(BackendEvent::BlockInfo(block(100)));
    // Same number, another hash.
    let mut fork = block(100);
    fork.hash = hash_of(9, 100);
    fork.header.hash = hash_of(9, 100);
    state.ingest(BackendEvent::BlockInfo(fork));
    assert_eq!(all_blocks(&state), vec![100]);
    assert_eq!(state.block(100).map(|b| b.hash), Some(hash_of(1, 100)));
    assert!(state.block_by_hash(&hash_of(9, 100)).is_none());
    // Same hash, another number.
    let mut twin = block(200);
    twin.hash = hash_of(1, 100);
    twin.header.hash = hash_of(1, 100);
    state.ingest(BackendEvent::BlockInfo(twin));
    assert_eq!(all_blocks(&state), vec![100]);
    assert!(state.block(200).is_none());
    assert_eq!(state.block_by_hash(&hash_of(1, 100)).map(|b| b.number()), Some(100));
    // It still counts as the best block seen.
    assert_eq!(state.best_block(), 200);
}

#[test]
fn events_of_the_best_block_lead_and_others_follow() {
    let mut state = quiet();
    state.ingest(BackendEvent::BlockInfo(block_with(10, &["A.a", "B.b", "A.a"])));
    assert_eq!(all_events(&state), vec![summary(10, 0, "A.a", 2), summary(10, 1, "B.b", 1)]);
    state.ingest(BackendEvent::BlockInfo(block_with(11, &["C.c", "System.Noise", "D.d"])));
    assert_eq!(
        all_events(&state),
        vec![
            summary(11, 0, "C.c", 1),
            summary(11, 2, "D.d", 1),
            summary(10, 0, "A.a", 2),
            summary(10, 1, "B.b", 1),
        ]
    );
    state.ingest(BackendEvent::BlockInfo(block_with(9, &["E.e", "F.f"])));
    assert_eq!(
        all_events(&state),
        vec![
            summary(11, 0, "C.c", 1),
            summary(11, 2, "D.d", 1),
            summary(10, 0, "A.a", 2),
            summary(10, 1, "B.b", 1),
            summary(9, 0, "E.e", 1),
            summary(9, 1, "F.f", 1),
        ]
    );
    // The ignored events stay with their block.
    assert_eq!(state.block(11).map(|b| b.events.len()), Some(3));
}

#[test]
fn cache_never_holds_more_than_its_bounds() {
    let mut state = quiet();
    for number in 1..=2005u32 {
        state.ingest(BackendEvent::BlockInfo(block_with(number, &["A.a", "B.b"])));
        assert!(state.recent_blocks_len() <= 2000);
        assert!(state.recent_events_len() <= 2000);
    }
    assert_eq!(state.recent_blocks_len(), 2000);
    assert_eq!(state.recent_events_len(), 2000);
    assert_eq!(state.recent_blocks(0, 3), vec![2005, 2004, 2003]);
    assert_eq!(state.recent_blocks(1998, 2000), vec![7, 6]);
    assert_eq!(state.recent_events(0, 2), vec![summary(2005, 0, "A.a", 1), summary(2005, 1, "B.b", 1)]);
    assert_eq!(
        state.recent_events(1998, 2000),
        vec![summary(1006, 0, "A.a", 1), summary(1006, 1, "B.b", 1)]
    );
}

#[test]
fn full_cache_evicts_the_block_at_the_tail() {
    let mut state = quiet();
    for number in 1..=2000u32 {
        state.ingest(BackendEvent::BlockInfo(block(number)));
    }
    assert_eq!(state.recent_blocks_len(), 2000);
    assert_eq!(state.recent_blocks(1999, 2000), vec![1]);
    assert!(state.block(1).is_some());
    assert!(state.block_by_hash(&hash_of(1, 1)).is_some());

    state.ingest(BackendEvent::BlockInfo(block(2001)));
    assert_eq!(state.recent_blocks_len(), 2000);
    assert_eq!(state.recent_blocks(0, 1), vec![2001]);
    assert_eq!(state.recent_blocks(1999, 2000), vec![2]);
    assert!(state.block(1).is_none());
    assert!(state.block_by_hash(&hash_of(1, 1)).is_none());
    assert!(state.block(2).is_some());
    assert!(state.block(2001).is_some());

    // An older block joins at the tail of a full cache and leaves at once.
    state.ingest(BackendEvent::BlockInfo(block(1)));
    assert_eq!(state.recent_blocks_len(), 2000);
    assert_eq!(state.recent_blocks(1999, 2000), vec![2]);
    assert!(state.block(1).is_none());
    assert!(state.block_by_hash(&hash_of(1, 1)).is_none());
    assert!(state.block(2).is_some());
}

#[test]
fn range_outside_the_list_gives_nothing() {
    let mut state = quiet();
    for number in 1..=5u32 {
        state.ingest(BackendEvent::BlockInfo(block_with(number, &["A.a"])));
    }
    assert_eq!(state.recent_blocks(0, 5), vec![5, 4, 3, 2, 1]);
    assert_eq!(state.recent_blocks(1, 3), vec![4, 3]);
    assert_eq!(state.recent_blocks(5, 5), Vec::<u32>::new());
    assert_eq!(state.recent_blocks(2, 2), Vec::<u32>::new());
    // Not clamped: a range that ends behind the list gives nothing at all.
    assert_eq!(state.recent_blocks(0, 6), Vec::<u32>::new());
    assert_eq!(state.recent_blocks(4, 6), Vec::<u32>::new());
    assert_eq!(state.recent_blocks(3, 2), Vec::<u32>::new());
    assert_eq!(state.recent_blocks(6, 6), Vec::<u32>::new());
    assert_eq!(state.recent_blocks(usize::MAX, 0), Vec::<u32>::new());
    assert_eq!(state.recent_blocks(0, usize::MAX), Vec::<u32>::new());

    assert_eq!(state.recent_events(0, 1), vec![summary(5, 0, "A.a", 1)]);
    assert_eq!(state.recent_events(3, 5), vec![summary(2, 0, "A.a", 1), summary(1, 0, "A.a", 1)]);
    assert_eq!(state.recent_events(0, 6), vec![]);
    assert_eq!(state.recent_events(3, 2), vec![]);
    assert_eq!(state.recent_events(5, 6), vec![]);
}

#[test]
fn new_header_asks_for_its_block() {
    let mut state = quiet();
    state.ingest(BackendEvent::NewHeader(block(42).header));
    assert_eq!(state.take_requests(), vec![BackendRequest::GetBlockInfo(hash_of(1, 42))]);
    assert_eq!(state.take_requests(), vec![]);
    assert_eq!(state.recent_blocks_len(), 0);
    assert_eq!(state.best_block(), 0);
}

#[test]
fn preload_walks_back_exactly_its_depth() {
    let mut state = BackendState::new(LOCAL, 3);
    state.ingest(BackendEvent::Connected { genesis: hash_of(1, 0), is_reconnect: false });
    state.ingest(BackendEvent::BlockInfo(block(10)));
    assert_eq!(state.take_requests(), vec![BackendRequest::GetBlockInfo(hash_of(1, 9))]);
    assert_eq!(state.preload_blocks(), 2);
    // A block that the preload did not ask for does not move it.
    state.ingest(BackendEvent::BlockInfo(block(50)));
    assert_eq!(state.take_requests(), vec![]);
    assert_eq!(state.preload_blocks(), 2);
    state.ingest(BackendEvent::BlockInfo(block(9)));
    assert_eq!(state.take_requests(), vec![BackendRequest::GetBlockInfo(hash_of(1, 8))]);
    state.ingest(BackendEvent::BlockInfo(block(8)));
    assert_eq!(state.take_requests(), vec![BackendRequest::GetBlockInfo(hash_of(1, 7))]);
    assert_eq!(state.preload_blocks(), 0);
    state.ingest(BackendEvent::BlockInfo(block(7)));
    state.ingest(BackendEvent::BlockInfo(block(6)));
    assert_eq!(state.take_requests(), vec![]);
    assert_eq!(state.preload_blocks(), 0);
    assert_eq!(all_blocks(&state), vec![50, 10, 9, 8, 7, 6]);
}

#[test]
fn preload_ends_at_the_block_without_parent() {
    let mut state = BackendState::new(LOCAL, 5);
    state.ingest(BackendEvent::BlockInfo(block(2)));
    state.ingest(BackendEvent::BlockInfo(block(1)));
    assert_eq!(
        state.take_requests(),
        vec![BackendRequest::GetBlockInfo(hash_of(1, 1)), BackendRequest::GetBlockInfo(hash_of(1, 0))]
    );
    assert_eq!(state.preload_blocks(), 3);
    state.ingest(BackendEvent::BlockInfo(block(0)));
    assert_eq!(state.take_requests(), vec![]);
    assert_eq!(state.preload_blocks(), 0);
    state.ingest(BackendEvent::BlockInfo(block(3)));
    assert_eq!(state.take_requests(), vec![]);
    assert_eq!(all_blocks(&state), vec![3, 2, 1, 0]);
}

#[test]
fn poll_reads_what_waits_in_order() {
    let mut state = quiet();
    assert_eq!(state.deliver(BackendEvent::Connected { genesis: hash_of(1, 0), is_reconnect: false }), Ok(()));
    assert_eq!(state.deliver(BackendEvent::BlockInfo(block(100))), Ok(()));
    assert_eq!(state.deliver(BackendEvent::NewHeader(block(101).header)), Ok(()));
    assert_eq!(state.deliver(BackendEvent::BlockInfo(block(99))), Ok(()));
    // Nothing is taken in before the poll.
    assert_eq!(state.recent_blocks_len(), 0);
    state.backend_updates();
    assert_eq!(state.genesis_hash(), Some(hash_of(1, 0)));
    assert_eq!(all_blocks(&state), vec![100, 99]);
    assert_eq!(state.best_block(), 100);
    assert_eq!(state.take_requests(), vec![BackendRequest::GetBlockInfo(hash_of(1, 101))]);
    // A poll with nothing waiting changes nothing.
    state.backend_updates();
    assert_eq!(all_blocks(&state), vec![100, 99]);
}

#[test]
fn no_more_events_wait_than_one_poll_reads() {
    let mut state = quiet();
    for number in 1..=100u32 {
        assert!(state.has_room());
        assert_eq!(state.deliver(BackendEvent::BlockInfo(block(number))), Ok(()));
    }
    assert!(!state.has_room());
    let late = BackendEvent::BlockInfo(block(101));
    assert_eq!(state.deliver(late.clone()), Err(late));
    state.backend_updates();
    assert_eq!(state.recent_blocks_len(), 100);
    assert_eq!(state.best_block(), 100);
    assert!(state.block(101).is_none());
    assert!(state.has_room());
    assert_eq!(state.deliver(BackendEvent::BlockInfo(block(101))), Ok(()));
    state.backend_updates();
    assert_eq!(state.best_block(), 101);
}

#[test]
fn changed_settings_connect_to_the_wanted_node() {
    let mut state = BackendState::new(LOCAL, 0);
    assert!(state.check_need_save());
    assert_eq!(state.take_requests(), vec![BackendRequest::ConnectTo(LOCAL.to_string())]);
    assert_eq!(state.backend_url(), LOCAL);
    // Seen, so nothing is left to save.
    assert!(!state.check_need_save());
    assert_eq!(state.take_requests(), vec![]);
    // The same node again: to be saved, but no new connection.
    state.set_url(LOCAL);
    assert!(state.check_need_save());
    assert_eq!(state.take_requests(), vec![]);
    // Another node.
    state.set_url("ws://example.org:9944/");
    assert_eq!(state.url(), "ws://example.org:9944/");
    assert_eq!(state.backend_url(), LOCAL);
    assert!(state.check_need_save());
    assert_eq!(state.take_requests(), vec![BackendRequest::ConnectTo("ws://example.org:9944/".to_string())]);
    assert_eq!(state.backend_url(), "ws://example.org:9944/");
    assert!(!state.check_need_save());
}

#[test]
fn connect_and_get_block_info_are_sent_in_order() {
    let mut state = BackendState::new(LOCAL, 0);
    state.connect();
    state.get_block_info(hash_of(1, 3));
    state.get_block_info(hash_of(1, 4));
    assert_eq!(
        state.take_requests(),
        vec![
            BackendRequest::ConnectTo(LOCAL.to_string()),
            BackendRequest::GetBlockInfo(hash_of(1, 3)),
            BackendRequest::GetBlockInfo(hash_of(1, 4)),
        ]
    );
    assert_eq!(state.backend_url(), LOCAL);
}

#[test]
fn panel_can_be_hidden() {
    let mut state = quiet();
    state.set_open(false);
    assert!(!state.is_open());
    state.set_open(true);
    assert!(state.is_open());
}

#[test]
fn blocks_are_found_by_number_and_by_hash() {
    let mut state = quiet();
    state.ingest(BackendEvent::BlockInfo(block_with(7, &["A.a"])));
    state.ingest(BackendEvent::BlockInfo(block(8)));
    assert_eq!(state.block(7), Some(&block_with(7, &["A.a"])));
    assert_eq!(state.block_by_hash(&hash_of(1, 7)), Some(&block_with(7, &["A.a"])));
    assert_eq!(state.block_by_hash(&hash_of(1, 8)), Some(&block(8)));
    assert_eq!(state.block(9), None);
    assert_eq!(state.block_by_hash(&hash_of(1, 9)), None);
    assert_eq!(state.block_by_hash(&hash_of(2, 7)), None);
    assert_eq!(block(7).number(), 7);
    assert_eq!(block(7).header.hash(), hash_of(1, 7));
    assert_eq!(block(7).header.parent(), Some(hash_of(1, 6)));
    assert_eq!(block(0).header.parent(), None);
}

#[test]
fn hashes_that_share_their_leading_bytes_are_told_apart() {
    let mut state = quiet();
    let mut blocks = Vec::new();
    for i in 0..20u8 {
        let mut bytes = [7u8; 32];
        bytes[20] = i;
        let mut b = block(i as u32 + 1);
        b.hash = BlockHash { bytes };
        b.header.hash = b.hash;
        blocks.push(b.clone());
        state.ingest(BackendEvent::BlockInfo(b));
    }
    for b in &blocks {
        assert_eq!(state.block_by_hash(&b.hash), Some(b));
    }
    let mut other = [7u8; 32];
    other[20] = 99;
    assert_eq!(state.block_by_hash(&BlockHash { bytes: other }), None);
    // A change of chain forgets them all.
    state.ingest(BackendEvent::Connected { genesis: hash_of(3, 0), is_reconnect: true });
    for b in &blocks {
        assert_eq!(state.block_by_hash(&b.hash), None);
    }
}
