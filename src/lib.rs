//! Accumulation of gossiped blocks and finality signatures, and the decision of how a node
//! should synchronise its chain.

pub mod types;
pub mod block_acceptor;
pub mod acceptor_list;
pub mod accumulator;
pub mod sync;
pub mod theorems;
