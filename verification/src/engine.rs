//! Starting the service that builds payloads.

use crate::block::BscBlock;
use crate::primitives::B256;
use crate::primitives::U256;
use vstd::prelude::*;

verus! {

/// How often the snapshot provider is looked for before mining is given up.
pub const MAX_PROVIDER_ATTEMPTS: u32 = 100;

/// How many milliseconds lie between two looks.
pub const PROVIDER_RETRY_MS: u64 = 100;

/// What kind of build made a payload.
#[derive(Clone, Copy, Debug, PartialEq, Eq, Structural)]
pub enum BuildKind {
    /// A normal build, which may hold transactions of the pool.
    NormalAttempt,
    /// A build without transactions of the pool, to fall back on.
    EmptyFallback,
}

impl Default for BuildKind {
    fn default() -> (r: Self)
        ensures
            r == BuildKind::NormalAttempt,
    {
        BuildKind::NormalAttempt
    }
}

/// A payload that was built. Its blobs are part of its block.
#[derive(Debug)]
pub struct BscBuiltPayload {
    /// The block.
    pub block: BscBlock,
    /// What it pays its sealer.
    pub fees: U256,
    /// The requests of the block, each in its encoding, where it has a list of them.
    pub requests: Option<Vec<Vec<u8>>>,
    /// What kind of build made it.
    pub build_kind: BuildKind,
}

impl BscBuiltPayload {
    /// The block.
    pub fn block(&self) -> (r: &BscBlock)
        ensures
            r == self.block,
    {
        &self.block
    }

    /// What the block pays its sealer.
    pub fn fees(&self) -> (r: U256)
        ensures
            r == self.fees,
    {
        self.fees
    }

    /// The requests of the block.
    pub fn requests(&self) -> (r: Option<&Vec<Vec<u8>>>)
        ensures
            match self.requests {
                Some(requests) => r == Some(&requests),
                None => r is None,
            },
    {
        self.requests.as_ref()
    }
}

/// Starts the service that builds payloads.
#[derive(Clone, Copy, Debug)]
pub struct BscPayloadServiceBuilder;

impl Default for BscPayloadServiceBuilder {
    fn default() -> (r: Self)
        ensures
            r == BscPayloadServiceBuilder,
    {
        BscPayloadServiceBuilder
    }
}

/// What becomes of a search for the snapshot provider.
#[derive(Clone, Copy, Debug, PartialEq, Eq, Structural)]
pub enum ProviderWait {
    /// It is there: mining starts.
    Start,
    /// It is not there yet: look again after so many milliseconds.
    Retry(u64),
    /// It did not come: there is no mining.
    GiveUp,
}

/// How often the provider was looked for in vain after one more look, and what becomes of the
/// search.
pub open spec fn looked(attempts: u32, found: bool) -> (u32, ProviderWait) {
    if found {
        (attempts, ProviderWait::Start)
    } else if attempts >= MAX_PROVIDER_ATTEMPTS {
        ((attempts + 1) as u32, ProviderWait::GiveUp)
    } else {
        ((attempts + 1) as u32, ProviderWait::Retry(PROVIDER_RETRY_MS))
    }
}

/// The search for the snapshot provider.
pub struct ProviderSearch {
    attempts: u32,
}

impl ProviderSearch {
    /// How often the provider was looked for in vain.
    pub closed spec fn attempts(&self) -> u32 {
        self.attempts
    }

    /// The provider was not looked for yet.
    pub fn new() -> (r: Self)
        ensures
            r.attempts() == 0,
    {
        ProviderSearch { attempts: 0 }
    }

    /// The provider was looked for once more.
    pub fn on_look(&mut self, found: bool) -> (r: ProviderWait)
        requires
            old(self).attempts() <= MAX_PROVIDER_ATTEMPTS,
        ensures
            (final(self).attempts(), r) == looked(old(self).attempts(), found),
    {
        if found {
            return ProviderWait::Start;
        }
        self.attempts = self.attempts + 1;
        if self.attempts > MAX_PROVIDER_ATTEMPTS {
            ProviderWait::GiveUp
        } else {
            ProviderWait::Retry(PROVIDER_RETRY_MS)
        }
    }
}

impl BscPayloadServiceBuilder {
    /// The mining configuration: the one that was set for the whole node, else the one of the
    /// environment.
    pub fn mining_config<C>(global: Option<C>, environment: C) -> (r: C)
        ensures
            r == match global {
                Some(c) => c,
                None => environment,
            },
    {
        match global {
            Some(c) => c,
            None => environment,
        }
    }

    /// Whether state roots are computed in the background.
    pub fn uses_sparse_trie(use_sparse_trie_state_root: bool, triedb_active: bool) -> (r: bool)
        ensures
            r == (use_sparse_trie_state_root && !triedb_active),
    {
        use_sparse_trie_state_root && !triedb_active
    }

    /// The block on disk that the state of `parent_hash` is built on, and whether blocks in memory
    /// lie between the two. `in_memory` holds the parents of the blocks in memory from
    /// `parent_hash` down, the newest first; nothing where the block is not in memory.
    pub fn overlay_anchor(parent_hash: B256, in_memory: Option<&Vec<B256>>) -> (r: (B256, bool))
        ensures
            match in_memory {
                Some(parents) => r.1 && r.0 == if parents@.len() > 0 {
                    parents@.last()
                } else {
                    parent_hash
                },
                None => !r.1 && r.0 == parent_hash,
            },
            r.0 == parent_hash || (in_memory matches Some(parents) && parents@.contains(r.0)),
            r.1 <==> in_memory is Some,
    {
        match in_memory {
            Some(parents) => {
                let count: usize = parents.len();
                if count > 0 {
                    (parents[count - 1], true)
                } else {
                    (parent_hash, true)
                }
            },
            None => (parent_hash, false),
        }
    }
}

/// A search that finds nothing retries one hundred times, counting, and gives up on the next look;
/// one that finds the provider starts mining at once.
pub proof fn law_provider_search_ends(attempts: u32)
    requires
        attempts <= MAX_PROVIDER_ATTEMPTS,
    ensures
        looked(attempts, true).1 == ProviderWait::Start,
        looked(attempts, false).1 is Retry <==> attempts < 100,
        attempts < 100 ==> looked(attempts, false).1 == ProviderWait::Retry(100),
        looked(attempts, true).0 == attempts,
        looked(attempts, false).1 is GiveUp <==> attempts == 100,
        looked(attempts, false).0 == attempts + 1,
{
}

} // verus!
