//! Payloads that the engine is handed, and what makes them well formed.

use crate::block::is_default_block;
use crate::block::BscBlock;
use crate::primitives::lemma_fixed_bytes_eq;
use crate::primitives::B256;
use crate::rlp::keccak;
use vstd::prelude::*;

verus! {

/// Builds the engine's interface.
#[derive(Clone, Copy, Debug)]
pub struct BscEngineApiBuilder;

impl Default for BscEngineApiBuilder {
    fn default() -> (r: Self)
        ensures
            r == BscEngineApiBuilder,
    {
        BscEngineApiBuilder
    }
}

/// Builds the validator of payloads.
#[derive(Clone, Copy, Debug)]
pub struct BscPayloadValidatorBuilder;

impl Default for BscPayloadValidatorBuilder {
    fn default() -> (r: Self)
        ensures
            r == BscPayloadValidatorBuilder,
    {
        BscPayloadValidatorBuilder
    }
}

/// A block that is to be executed, with its hash once that is known.
#[derive(Debug)]
pub struct BscExecutionData {
    /// The block.
    pub block: BscBlock,
    /// Its hash, where that is known.
    pub hash: Option<B256>,
}

/// A block with its hash.
#[derive(Debug)]
pub struct SealedBlock {
    /// The block.
    pub block: BscBlock,
    /// Its hash.
    pub hash: B256,
}

/// Why a payload is not well formed.
#[derive(Clone, Copy, Debug)]
pub enum PayloadError {
    /// The hash that came with the block is not that of its header.
    BlockHash {
        /// The hash of the header.
        execution: B256,
        /// The hash that came with the block.
        consensus: B256,
    },
}

impl BscExecutionData {
    /// The hash that is known already.
    pub open spec fn known_hash(&self) -> Option<B256> {
        self.hash
    }

    /// The hash that the block goes by: the one that is known, else that of the header.
    pub open spec fn hash_bytes(&self) -> Seq<u8> {
        match self.known_hash() {
            Some(h) => h@,
            None => self.block.header.digest(),
        }
    }

    /// A known hash is that of the header.
    pub open spec fn trusted(&self) -> bool {
        self.known_hash() matches Some(h) ==> h@ == self.block.header.digest()
    }

    /// A block whose hash is not known yet.
    pub fn new(block: BscBlock) -> (r: Self)
        ensures
            r.block == block,
            r.known_hash() is None,
            r.trusted(),
    {
        BscExecutionData { block, hash: None }
    }

    /// A block that comes with its hash from a trusted source.
    pub fn new_with_hash(block: BscBlock, hash: B256) -> (r: Self)
        ensures
            r.block == block,
            r.known_hash() == Some(hash),
    {
        BscExecutionData { block, hash: Some(hash) }
    }

    /// The hash, which is computed at most once.
    pub fn block_hash_cached(&mut self) -> (r: B256)
        ensures
            final(self).block == old(self).block,
            final(self).known_hash() == Some(r),
            match old(self).known_hash() {
                Some(h) => r == h,
                None => r@ == old(self).block.header.digest(),
            },
            old(self).trusted() ==> final(self).trusted() && r@ == old(self).block.header.digest(),
    {
        match self.hash {
            Some(h) => h,
            None => {
                let h = self.block.header.hash_slow();
                self.hash = Some(h);
                h
            },
        }
    }

    /// The hash where it is known already.
    pub fn cached_hash(&self) -> (r: Option<B256>)
        ensures
            r == self.known_hash(),
    {
        self.hash
    }

    /// The block.
    pub fn into_block(self) -> (r: BscBlock)
        ensures
            r == self.block,
    {
        self.block
    }

    /// Hash of the parent.
    pub fn parent_hash(&self) -> (r: B256)
        ensures
            r == self.block.header.parent_hash,
    {
        self.block.header.parent_hash
    }

    /// The hash, which is computed at most once.
    pub fn block_hash(&mut self) -> (r: B256)
        ensures
            final(self).block == old(self).block,
            final(self).known_hash() == Some(r),
            r@ == old(self).hash_bytes(),
    {
        self.block_hash_cached()
    }

    /// No withdrawals are reported.
    pub fn withdrawals(&self) -> (r: Option<&Vec<Vec<u8>>>)
        ensures
            r is None,
    {
        None
    }

    /// No access list is reported.
    pub fn block_access_list(&self) -> (r: Option<&Vec<u8>>)
        ensures
            r is None,
    {
        None
    }

    /// No root of a parent beacon block is reported.
    pub fn parent_beacon_block_root(&self) -> (r: Option<B256>)
        ensures
            r is None,
    {
        None
    }

    /// No slot is reported.
    pub fn slot_number(&self) -> (r: Option<u64>)
        ensures
            r is None,
    {
        None
    }

    /// Number of the block.
    pub fn block_number(&self) -> (r: u64)
        ensures
            r == self.block.header.number,
    {
        self.block.header.number
    }

    /// When the block was made.
    pub fn timestamp(&self) -> (r: u64)
        ensures
            r == self.block.header.timestamp,
    {
        self.block.header.timestamp
    }

    /// How much gas the block uses.
    pub fn gas_used(&self) -> (r: u64)
        ensures
            r == self.block.header.gas_used,
    {
        self.block.header.gas_used
    }

    /// How much gas the block may use.
    pub fn gas_limit(&self) -> (r: u64)
        ensures
            r == self.block.header.gas_limit,
    {
        self.block.header.gas_limit
    }

    /// How many transactions the block has.
    pub fn transaction_count(&self) -> (r: usize)
        ensures
            r == self.block.transactions@.len(),
    {
        self.block.transactions.len()
    }
}

impl Clone for BscExecutionData {
    fn clone(&self) -> (r: Self)
        ensures
            r.block@ == self.block@,
            r.known_hash() == self.known_hash(),
    {
        BscExecutionData { block: self.block.clone(), hash: self.hash }
    }
}

impl Default for BscExecutionData {
    fn default() -> (r: Self)
        ensures
            is_default_block(r.block@),
            r.known_hash() is None,
    {
        BscExecutionData::new(BscBlock::default())
    }
}

impl From<BscBlock> for BscExecutionData {
    fn from(block: BscBlock) -> (r: Self) {
        BscExecutionData::new(block)
    }
}

impl vstd::std_specs::convert::FromSpecImpl<BscBlock> for BscExecutionData {
    open spec fn obeys_from_spec() -> bool {
        true
    }

    open spec fn from_spec(block: BscBlock) -> Self {
        BscExecutionData { block, hash: None }
    }
}

/// Checks payloads against the rules of a chain specification of type `C`.
#[derive(Debug)]
pub struct BscExecutionPayloadValidator<C> {
    inner: C,
}

/// The engine's validator.
#[derive(Debug)]
pub struct BscEngineValidator<C> {
    inner: BscExecutionPayloadValidator<C>,
}

impl<C> BscEngineValidator<C> {
    /// The chain specification.
    pub closed spec fn chain_spec(&self) -> C {
        self.inner.inner
    }

    /// A validator for a chain.
    pub fn new(chain_spec: C) -> (r: Self)
        ensures
            r.chain_spec() == chain_spec,
    {
        BscEngineValidator { inner: BscExecutionPayloadValidator { inner: chain_spec } }
    }

    /// The block of a payload with its hash.
    pub fn convert_payload_to_block(&self, payload: BscExecutionData, recompute: bool) -> (r: Result<
        SealedBlock,
        PayloadError,
    >)
        ensures
            sealed_from(payload, recompute, r),
    {
        self.inner.ensure_well_formed_payload(payload, recompute)
    }
}

/// What becomes of a payload. A known hash is taken as it is, unless it is recomputed and turns out
/// to be wrong; an unknown one is computed.
pub open spec fn sealed_from(
    payload: BscExecutionData,
    recompute: bool,
    r: Result<SealedBlock, PayloadError>,
) -> bool {
    match payload.known_hash() {
        Some(h) => if recompute && h@ != payload.block.header.digest() {
            r matches Err(PayloadError::BlockHash { execution, consensus }) && execution@
                == payload.block.header.digest() && consensus == h
        } else {
            r matches Ok(sealed) && sealed.block == payload.block && sealed.hash == h
        },
        None => r matches Ok(sealed) && sealed.block == payload.block && sealed.hash@
            == payload.block.header.digest(),
    }
}

impl<C> BscExecutionPayloadValidator<C> {
    /// Seals the block of a payload. A hash that came with it is recomputed only where `recompute`
    /// says so.
    pub fn ensure_well_formed_payload(
        &self,
        payload: BscExecutionData,
        recompute: bool,
    ) -> (r: Result<SealedBlock, PayloadError>)
        ensures
            sealed_from(payload, recompute, r),
    {
        let header_hash = match payload.cached_hash() {
            Some(cached_hash) => {
                if recompute {
                    let computed_hash = payload.block.header.hash_slow();
                    proof {
                        lemma_fixed_bytes_eq(cached_hash, computed_hash);
                    }
                    if cached_hash != computed_hash {
                        return Err(
                            PayloadError::BlockHash {
                                execution: computed_hash,
                                consensus: cached_hash,
                            },
                        );
                    }
                }
                cached_hash
            },
            None => payload.block.header.hash_slow(),
        };
        let block = payload.into_block();
        Ok(SealedBlock { block, hash: header_hash })
    }
}

/// A payload whose hash comes from a trusted source, or has none, is always accepted and sealed
/// with the hash of its header.
pub proof fn law_trusted_payload_is_sealed(
    payload: BscExecutionData,
    recompute: bool,
    r: Result<SealedBlock, PayloadError>,
)
    requires
        payload.trusted(),
        sealed_from(payload, recompute, r),
    ensures
        r matches Ok(sealed) && sealed.block == payload.block && sealed.hash@
            == payload.block.header.digest(),
{
}

/// Where hashes are recomputed, no block is sealed with a hash that is not its header's.
pub proof fn law_recomputed_seal_is_right(
    payload: BscExecutionData,
    r: Result<SealedBlock, PayloadError>,
)
    requires
        sealed_from(payload, true, r),
    ensures
        r matches Ok(sealed) ==> sealed.hash@ == sealed.block.header.digest(),
{
}

/// A payload is refused exactly where its hash is recomputed and is not the one that came with it;
/// the error then names both. Else it is sealed with the hash that came with it, or with that of
/// its header where none did.
pub proof fn law_only_wrong_hashes_are_refused(
    payload: BscExecutionData,
    recompute: bool,
    r: Result<SealedBlock, PayloadError>,
)
    requires
        sealed_from(payload, recompute, r),
    ensures
        r is Err <==> recompute && (payload.hash matches Some(h) && h@ != keccak(
            payload.block.header.encoded@,
        )),
        match r {
            Ok(sealed) => sealed.block == payload.block && match payload.hash {
                Some(h) => sealed.hash == h,
                None => sealed.hash@ == keccak(payload.block.header.encoded@),
            },
            Err(PayloadError::BlockHash { execution, consensus }) => payload.hash == Some(consensus)
                && execution@ == keccak(payload.block.header.encoded@),
        },
        match payload.hash {
            Some(h) => payload.hash_bytes() == h@,
            None => payload.hash_bytes() == keccak(payload.block.header.encoded@),
        },
{
}

} // verus!
