//! The engine of a block explorer for Polymesh nodes.
//!
//! A connection worker follows the chain of a node and reports what it sees.
//! The chain cache takes these reports in, keeps a bounded window of recent
//! blocks and events, and answers what the explorer shows. Neither of them
//! waits for anything: the worker is told what came of each of its actions,
//! and the cache is handed the events that arrived.

pub mod backend;
pub mod chain;
pub mod event;
pub mod hash;
pub mod index;
pub mod laws;
pub mod model;
pub mod nav;
mod queue;
pub mod state;
pub mod summary;
pub mod text;
pub mod worker;
