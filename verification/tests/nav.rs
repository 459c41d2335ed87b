use polymesh_explorer::chain::{BackendEvent, BackendRequest, BlockInfo, EventInfo, Header, Phase};
use polymesh_explorer::hash::BlockHash;
use polymesh_explorer::nav::{
    parse_anchor, AnchorTarget, BlockDetailsApp, BlockRow, ChainInfoApp, EventRow, State, SubAppEvent,
    SubAppKind,
};
use polymesh_explorer::state::BackendState;
use serde_json::Value;

fn hash_of(number: u32) -> BlockHash {
    let mut bytes = [0u8; 32];
    bytes[..4].copy_from_slice(&number.to_be_bytes());
    bytes[31] = 0xc3;
    BlockHash { bytes }
}

fn block_with(number: u32, names: &[&str]) -> BlockInfo {
    BlockInfo {
        hash: hash_of(number),
        header: Header {
            number,
            hash: hash_of(number),
            parent_hash: hash_of(number.wrapping_sub(1)),
            extrinsics_root: BlockHash::zero(),
            state_root: BlockHash::zero(),
        },
        events: names
            .iter()
            .enumerate()
            .map(|(i, name)| EventInfo {
                block: number,
                number: i as u32,
                phase: Phase::Finalization,
                name: name.to_string(),
                value: Value::Null,
            })
            .collect(),
    }
}

fn cache_with(numbers: &[u32]) -> BackendState {
    let mut state = BackendState::new("ws://localhost:9944/", 0);
    for number in numbers {
        state.ingest(BackendEvent::BlockInfo(block_with(*number, &["A.a"])));
    }
    state
}

const HASH_7: &str = "0x00000007000000000000000000000000000000000000000000000000000000c3";

#[test]
fn views_have_their_names_and_anchors() {
    assert_eq!(SubAppKind::ChainInfo.name(), "Explorer");
    assert_eq!(SubAppKind::ChainInfo.anchor(), "explorer");
    assert_eq!(SubAppKind::BlockDetails.name(), "Block details");
    assert_eq!(SubAppKind::BlockDetails.anchor(), "block_details/");
    assert_eq!(ChainInfoApp::new().name(), "Explorer");
    assert_eq!(ChainInfoApp::new().anchor(), "explorer");
    assert_eq!(BlockDetailsApp::new().name(), "Block details");
    assert_eq!(BlockDetailsApp::new().anchor(), "block_details/");
    assert_eq!(State::apps(), [SubAppKind::ChainInfo, SubAppKind::BlockDetails]);
}

#[test]
fn anchor_belongs_to_the_view_whose_anchor_it_starts_with() {
    assert!(SubAppKind::ChainInfo.match_anchor("explorer"));
    assert!(SubAppKind::ChainInfo.match_anchor("explorer/blocks"));
    assert!(!SubAppKind::ChainInfo.match_anchor("explore"));
    assert!(!SubAppKind::ChainInfo.match_anchor("block_details/"));
    assert!(!SubAppKind::ChainInfo.match_anchor(""));
    assert!(SubAppKind::BlockDetails.match_anchor("block_details/"));
    assert!(SubAppKind::BlockDetails.match_anchor("block_details/0x12"));
    assert!(!SubAppKind::BlockDetails.match_anchor("block_details"));
    assert!(!SubAppKind::BlockDetails.match_anchor("explorer"));
    assert!(ChainInfoApp::new().match_anchor("explorer"));
    assert!(!ChainInfoApp::new().match_anchor("block_details/"));
    assert!(BlockDetailsApp::new().match_anchor("block_details/x"));
    assert!(!BlockDetailsApp::new().match_anchor("explorer"));
}

#[test]
fn anchor_names_the_best_block_a_hash_or_nothing() {
    assert_eq!(parse_anchor("block_details/"), AnchorTarget::Best);
    assert_eq!(parse_anchor(&format!("block_details/{}", HASH_7)), AnchorTarget::Hash(hash_of(7)));
    assert_eq!(parse_anchor("block_details/0x"), AnchorTarget::BadHash);
    assert_eq!(parse_anchor("block_details/0x12"), AnchorTarget::BadHash);
    assert_eq!(parse_anchor(&format!("block_details/{}00", HASH_7)), AnchorTarget::BadHash);
    assert_eq!(
        parse_anchor("block_details/0xzz000007000000000000000000000000000000000000000000000000000000c3"),
        AnchorTarget::BadHash
    );
    assert_eq!(parse_anchor("block_details/123"), AnchorTarget::Unsupported);
    assert_eq!(parse_anchor("block_details/0X12"), AnchorTarget::Unsupported);
    assert_eq!(parse_anchor("block_details/\u{e9}"), AnchorTarget::Unsupported);
    assert_eq!(parse_anchor("explorer"), AnchorTarget::Invalid);
    assert_eq!(parse_anchor("block_details"), AnchorTarget::Invalid);
    assert_eq!(parse_anchor(""), AnchorTarget::Invalid);
}

#[test]
fn anchor_of_a_block_names_that_block() {
    let anchor = State::block_anchor(&hash_of(7));
    assert_eq!(anchor, format!("block_details/{}", HASH_7));
    assert_eq!(parse_anchor(&anchor), AnchorTarget::Hash(hash_of(7)));
}

#[test]
fn anchor_that_names_no_block_gives_its_error() {
    let mut backend = cache_with(&[7]);
    let mut view = BlockDetailsApp::new();
    assert_eq!(
        view.parse_anchor_and_load_block(&mut backend, "block_details/0x12"),
        Err("Failed to parse block hash: \"0x12\"".to_string())
    );
    assert_eq!(
        view.parse_anchor_and_load_block(&mut backend, "block_details/123"),
        Err("Unsupported block number lookup: 123".to_string())
    );
    assert_eq!(
        view.parse_anchor_and_load_block(&mut backend, "explorer"),
        Err("Failed to parse nav anchor: explorer".to_string())
    );
    assert_eq!(
        view.parse_anchor_and_load_block(&mut backend, "block_details/0x\"\n"),
        Err("Failed to parse block hash: \"0x\\\"\\n\"".to_string())
    );
    assert_eq!(backend.take_requests(), vec![]);
}

#[test]
fn cached_block_is_shown_by_its_hash() {
    let mut backend = cache_with(&[7, 8]);
    let mut view = BlockDetailsApp::new();
    let anchor = format!("block_details/{}", HASH_7);
    assert_eq!(view.parse_anchor_and_load_block(&mut backend, &anchor), Ok(Some(7)));
    assert_eq!(view.block_hash(), hash_of(7));
    assert_eq!(view.parse_anchor_and_load_block(&mut backend, &anchor), Ok(Some(7)));
    assert_eq!(backend.take_requests(), vec![]);
}

#[test]
fn block_that_is_not_cached_is_asked_for_once() {
    let mut backend = cache_with(&[8]);
    let mut view = BlockDetailsApp::new();
    let anchor = format!("block_details/{}", HASH_7);
    assert_eq!(view.parse_anchor_and_load_block(&mut backend, &anchor), Ok(None));
    assert_eq!(backend.take_requests(), vec![BackendRequest::GetBlockInfo(hash_of(7))]);
    assert_eq!(view.parse_anchor_and_load_block(&mut backend, &anchor), Ok(None));
    assert_eq!(view.parse_anchor_and_load_block(&mut backend, &anchor), Ok(None));
    assert_eq!(backend.take_requests(), vec![]);
    backend.ingest(BackendEvent::BlockInfo(block_with(7, &[])));
    assert_eq!(view.parse_anchor_and_load_block(&mut backend, &anchor), Ok(Some(7)));
    assert_eq!(backend.take_requests(), vec![]);
}

#[test]
fn new_anchor_asks_again() {
    let mut backend = cache_with(&[]);
    let mut view = BlockDetailsApp::new();
    let anchor = format!("block_details/{}", HASH_7);
    assert_eq!(view.parse_anchor_and_load_block(&mut backend, &anchor), Ok(None));
    assert_eq!(view.parse_anchor_and_load_block(&mut backend, "block_details/123").is_err(), true);
    assert_eq!(view.parse_anchor_and_load_block(&mut backend, &anchor), Ok(None));
    assert_eq!(
        backend.take_requests(),
        vec![BackendRequest::GetBlockInfo(hash_of(7)), BackendRequest::GetBlockInfo(hash_of(7))]
    );
}

#[test]
fn empty_anchor_shows_the_best_block() {
    let mut backend = cache_with(&[7, 9, 8]);
    let mut view = BlockDetailsApp::new();
    assert_eq!(view.parse_anchor_and_load_block(&mut backend, "block_details/"), Ok(Some(9)));
    let mut empty = cache_with(&[]);
    let mut view = BlockDetailsApp::new();
    assert_eq!(view.parse_anchor_and_load_block(&mut empty, "block_details/"), Ok(None));
    assert_eq!(empty.take_requests(), vec![]);
}

#[test]
fn first_frame_without_anchor_asks_for_the_zero_hash() {
    // A view that has seen no anchor takes the empty anchor for seen, and
    // looks for the block it was made with.
    let mut backend = cache_with(&[7]);
    let mut view = BlockDetailsApp::new();
    assert_eq!(view.block_hash(), BlockHash::zero());
    assert_eq!(view.parse_anchor_and_load_block(&mut backend, ""), Ok(None));
    assert_eq!(backend.take_requests(), vec![BackendRequest::GetBlockInfo(BlockHash::zero())]);
}

#[test]
fn range_of_rows_is_checked_against_the_list() {
    let mut view = ChainInfoApp::new();
    assert!(!view.reset_scroll());
    assert!(view.validate_range(5, &(0..5)));
    assert!(view.validate_range(5, &(2..3)));
    assert!(view.validate_range(5, &(5..5)));
    assert!(view.validate_range(0, &(0..0)));
    assert!(!view.reset_scroll());
    assert!(!view.validate_range(5, &(0..6)));
    assert!(view.reset_scroll());
    // The wish to scroll back stays until it is taken.
    assert!(view.validate_range(5, &(0..5)));
    assert!(view.reset_scroll());
    assert!(view.take_reset_scroll());
    assert!(!view.reset_scroll());
    assert!(!view.take_reset_scroll());
    #[allow(clippy::reversed_empty_ranges)]
    let backwards = 3..2;
    assert!(!view.validate_range(5, &backwards));
    assert!(view.reset_scroll());
}

#[test]
fn rows_of_recent_blocks() {
    let backend = cache_with(&[1, 2, 3]);
    let mut view = ChainInfoApp::new();
    assert_eq!(
        view.recent_blocks_rows(&backend, &(0..3)),
        vec![
            BlockRow { number: 3, hash: hash_of(3) },
            BlockRow { number: 2, hash: hash_of(2) },
            BlockRow { number: 1, hash: hash_of(1) },
        ]
    );
    assert_eq!(view.recent_blocks_rows(&backend, &(1..2)), vec![BlockRow { number: 2, hash: hash_of(2) }]);
    assert_eq!(view.recent_blocks_rows(&backend, &(3..3)), vec![]);
    assert!(!view.reset_scroll());
    assert_eq!(view.recent_blocks_rows(&backend, &(1..4)), vec![]);
    assert!(view.reset_scroll());
}

#[test]
fn rows_of_recent_events() {
    let mut backend = BackendState::new("ws://localhost:9944/", 0);
    backend.ingest(BackendEvent::BlockInfo(block_with(1, &["A.a", "A.a", "B.b"])));
    backend.ingest(BackendEvent::BlockInfo(block_with(2, &["C.c"])));
    // A summary of a block that is not cached, as after an eviction.
    let mut fork = block_with(2, &["D.d"]);
    fork.events[0].block = 77;
    backend.ingest(BackendEvent::BlockInfo(fork));
    let mut view = ChainInfoApp::new();
    let row = |name: &str, block: u32, number: u32, count: u32, hash: Option<BlockHash>| EventRow {
        name: name.to_string(),
        block,
        number,
        count,
        hash,
    };
    assert_eq!(
        view.recent_events_rows(&backend, &(0..4)),
        vec![
            row("C.c", 2, 0, 1, Some(hash_of(2))),
            row("A.a", 1, 0, 2, Some(hash_of(1))),
            row("B.b", 1, 2, 1, Some(hash_of(1))),
            row("D.d", 77, 0, 1, None),
        ]
    );
    assert_eq!(view.recent_events_rows(&backend, &(1..2)), vec![row("A.a", 1, 0, 2, Some(hash_of(1)))]);
    assert!(!view.reset_scroll());
    assert_eq!(view.recent_events_rows(&backend, &(0..5)), vec![]);
    assert!(view.reset_scroll());
}

#[test]
fn explorer_starts_at_the_first_view() {
    let mut state = State::new();
    assert_eq!(state.current_anchor, "");
    assert_eq!(state.current_app(), None);
    state.ensure_anchor();
    assert_eq!(state.current_anchor, "explorer");
    assert_eq!(state.current_app(), Some(SubAppKind::ChainInfo));
    state.set_anchor("block_details/");
    state.ensure_anchor();
    assert_eq!(state.current_anchor, "block_details/");
    assert_eq!(state.current_app(), Some(SubAppKind::BlockDetails));
    state.set_anchor("nowhere");
    assert_eq!(state.current_app(), None);
}

#[test]
fn opening_an_anchor_is_a_move_unless_the_explorer_is_there() {
    let mut state = State::new();
    assert!(state.open_anchor("explorer"));
    assert_eq!(state.current_anchor, "explorer");
    assert!(!state.open_anchor("explorer"));
    assert!(state.open_anchor("block_details/"));
    assert_eq!(state.current_anchor, "block_details/");
    assert!(!state.open_anchor("block_details/"));
}

#[test]
fn block_details_event_opens_the_anchor_of_the_block() {
    let mut state = State::new();
    state.ensure_anchor();
    let anchor = format!("block_details/{}", HASH_7);
    assert_eq!(state.handle_event(SubAppEvent::BlockDetails(hash_of(7))), Some(anchor.clone()));
    assert_eq!(state.current_anchor, anchor);
    assert_eq!(state.current_app(), Some(SubAppKind::BlockDetails));
    assert_eq!(state.handle_event(SubAppEvent::BlockDetails(hash_of(7))), None);
    assert_eq!(state.current_anchor, anchor);
}
