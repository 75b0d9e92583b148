//! Consensus, mining and networking rules of a BNB Smart Chain node.

use vstd::prelude::*;

pub mod block;
pub mod block_builder;
pub mod block_stats;
pub mod blocks_by_range;
pub mod cli;
pub mod consensus;
pub mod engine;
pub mod engine_validator;
pub mod eth_config;
pub mod evm_config;
pub mod evm_error;
pub mod finality;
pub mod fork_choice;
pub mod hardforks;
pub mod header;
pub mod malicious_vote_monitor;
pub mod memory;
pub mod miner;
pub mod new_payload;
pub mod payload_builder;
pub mod precompiles;
pub mod primitives;
pub mod provider;
pub mod rebuild;
pub mod recency;
pub mod registry;
pub mod rlp;
pub mod rpc_miner;
pub mod shared;
pub mod snapshot;
pub mod text;
pub mod tx_pool;
pub mod vote;
pub mod vote_pool;
pub mod wire_block;

verus! {

} // verus!
