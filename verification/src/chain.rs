//! Chain data as the cache holds it, and the messages exchanged with the
//! connection worker.

use crate::hash::BlockHash;
use vstd::prelude::*;

verus! {

/// Height of a block in its chain.
pub type BlockNumber = u32;

/// `serde_json::Value`, the payload of an event. Nothing is known of what
/// a value holds but what the decoding of events finds out.
#[verifier::external_type_specification]
#[verifier::external_body]
pub struct ExValue(serde_json::Value);

/// `Value::clone`, which the type derives: the copy is the same value.
pub assume_specification[ <serde_json::Value as Clone>::clone ](v: &serde_json::Value) -> (r:
    serde_json::Value)
    ensures
        r == *v,
;

/// The point of block execution at which an event was emitted.
#[derive(Clone, Copy, Debug, PartialEq, Eq, Structural)]
pub enum Phase {
    ApplyExtrinsic(u32),
    Finalization,
    Initialization,
}

/// A block header: the block's number, its hash and the hashes it commits to.
#[derive(Clone, Copy, Debug, PartialEq, Eq)]
pub struct Header {
    pub number: BlockNumber,
    pub hash: BlockHash,
    pub parent_hash: BlockHash,
    pub extrinsics_root: BlockHash,
    pub state_root: BlockHash,
}

impl Header {
    /// The hash of the block that this header belongs to.
    pub fn hash(&self) -> (r: BlockHash)
        ensures
            r == self.hash,
    {
        self.hash
    }

    /// The parent of the block in the chain; the block at height zero has none.
    pub open spec fn spec_parent(&self) -> Option<BlockHash> {
        if self.number == 0 {
            None
        } else {
            Some(self.parent_hash)
        }
    }

    /// The hash of the parent block, unless this is the block at height zero.
    #[verifier::when_used_as_spec(spec_parent)]
    pub fn parent(&self) -> (r: Option<BlockHash>)
        ensures
            r == self.spec_parent(),
    {
        if self.number == 0 {
            None
        } else {
            Some(self.parent_hash)
        }
    }
}

/// One event of a block, decoded for display.
#[derive(Clone, Debug, PartialEq)]
pub struct EventInfo {
    /// Number of the block that emitted the event.
    pub block: BlockNumber,
    /// Position of the event among the block's events.
    pub number: u32,
    pub phase: Phase,
    /// `<module>.<name>`, or a description of what could not be decoded.
    pub name: String,
    pub value: serde_json::Value,
}

/// A block with its events.
#[derive(Clone, Debug, PartialEq)]
pub struct BlockInfo {
    pub hash: BlockHash,
    pub header: Header,
    pub events: Vec<EventInfo>,
}

impl BlockInfo {
    /// Every event of a block has a position that fits the position's type.
    pub open spec fn wf(&self) -> bool {
        self.events@.len() <= u32::MAX
    }

    pub open spec fn spec_number(&self) -> BlockNumber {
        self.header.number
    }

    /// The block's number.
    #[verifier::when_used_as_spec(spec_number)]
    pub fn number(&self) -> (n: BlockNumber)
        ensures
            n == self.header.number,
    {
        self.header.number
    }
}

/// What the cache asks of the connection worker.
#[derive(Clone, Debug, PartialEq)]
pub enum BackendRequest {
    ConnectTo(String),
    GetBlockInfo(BlockHash),
}

/// What the connection worker reports to the cache.
#[derive(Clone, Debug, PartialEq)]
pub enum BackendEvent {
    /// A connection stands; `genesis` identifies the chain behind it.
    Connected { genesis: BlockHash, is_reconnect: bool },
    NewHeader(Header),
    BlockInfo(BlockInfo),
}

impl BackendEvent {
    pub open spec fn wf(&self) -> bool {
        match self {
            BackendEvent::BlockInfo(block) => block.wf(),
            _ => true,
        }
    }
}

} // verus!
