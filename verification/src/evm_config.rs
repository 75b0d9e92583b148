//! The environment in which the transactions of a block run.

use crate::block::copy_items;
use crate::block::items_view;
use crate::block::opt_items_view;
use crate::block::BscBlock;
use crate::engine_validator::BscExecutionData;
use crate::engine_validator::SealedBlock;
use crate::hardforks::lemma_active_flags;
use crate::hardforks::revm_spec_by_timestamp_and_block_number;
use crate::hardforks::ruling_fork;
use crate::hardforks::ActiveForks;
use crate::hardforks::BscHardfork;
use crate::header::Header;
use crate::primitives::Address;
use crate::primitives::FixedBytes;
use crate::primitives::B256;
use crate::primitives::U256;
use crate::rlp::be_value;
use vstd::prelude::*;

verus! {

/// How much gas a transaction may use from Osaka on.
pub const MAX_TX_GAS_LIMIT_OSAKA: u64 = 0x100_0000;

/// The base fee: this chain burns none.
pub const EIP1559_INITIAL_BASE_FEE: u64 = 0;

/// The parameters of blobs that a fork brings.
#[derive(Clone, Copy, Debug, PartialEq, Eq, Structural)]
pub struct BlobParams {
    /// How many blobs a block should have.
    pub target_blob_count: u64,
    /// How many blobs a block may have.
    pub max_blob_count: u64,
    /// How fast the fee follows the excess.
    pub update_fraction: u128,
    /// The lowest fee.
    pub min_blob_fee: u128,
    /// How many blobs a transaction may have.
    pub max_blobs_per_tx: u64,
    /// How much gas is charged for a blob at least.
    pub blob_base_cost: u64,
}

impl BlobParams {
    /// The fee can be computed in 128 bits.
    pub open spec fn valid(self) -> bool {
        &&& 0x40 <= self.update_fraction <= 0x100_0000_0000_0000_0000_0000_0000_0000
        &&& self.min_blob_fee * self.update_fraction <= 0x4000_0000_0000_0000_0000_0000_0000_0000
    }
}

/// The fee that `BlobParams::calc_blob_fee` computes, which rests on the excess, the lowest fee
/// and the update fraction.
pub uninterp spec fn blob_fee(excess: u64, min_blob_fee: u128, update_fraction: u128) -> u128;

/// `alloy_eips::eip7840::BlobParams::calc_blob_fee`: the fee for a unit of blob gas. It sums a
/// series and divides by the update fraction. The first term is the lowest fee times the fraction;
/// the products behind the others are checked, so that the `i`-th of them is at most two to the
/// power of 128 divided by `i` times the fraction. With a fraction and a lowest fee in these bounds
/// neither the divisors nor the sum leave 128 bits.
#[verifier::external_body]
fn calc_blob_fee(params: &BlobParams, excess: u64) -> (r: u128)
    requires
        params.valid(),
    ensures
        r == blob_fee(excess, params.min_blob_fee, params.update_fraction),
{
    let alloy = alloy_eips::eip7840::BlobParams {
        target_blob_count: params.target_blob_count, max_blob_count: params.max_blob_count,
        update_fraction: params.update_fraction, min_blob_fee: params.min_blob_fee,
        max_blobs_per_tx: params.max_blobs_per_tx, blob_base_cost: params.blob_base_cost,
    };
    alloy.calc_blob_fee(excess)
}

/// The parameters of the fork that brought blobs.
pub open spec fn cancun_blobs() -> BlobParams {
    BlobParams {
        target_blob_count: 3,
        max_blob_count: 6,
        update_fraction: 3338477,
        min_blob_fee: 1,
        max_blobs_per_tx: 6,
        blob_base_cost: 0,
    }
}

/// `alloy_eips::eip7840::BlobParams::cancun`, field by field.
#[verifier::external_body]
pub(crate) fn cancun_blob_params() -> (r: BlobParams)
    ensures
        r == cancun_blobs(),
{
    let p = alloy_eips::eip7840::BlobParams::cancun();
    BlobParams {
        target_blob_count: p.target_blob_count, max_blob_count: p.max_blob_count,
        update_fraction: p.update_fraction, min_blob_fee: p.min_blob_fee,
        max_blobs_per_tx: p.max_blobs_per_tx, blob_base_cost: p.blob_base_cost,
    }
}

/// `alloy_primitives::B256`'s conversion from `U256`: the big-endian bytes of the number.
#[verifier::external_body]
fn b256_from(n: U256) -> (r: B256)
    ensures
        be_value(r@) == n.value(),
{
    let u = alloy_primitives::U256::from_limbs([n.limb0, n.limb1, n.limb2, n.limb3]);
    FixedBytes { bytes: alloy_primitives::B256::from(u).0 }
}

/// The excess blob gas of a block and what a unit of blob gas costs in it.
#[derive(Clone, Copy, Debug, PartialEq, Eq, Structural)]
pub struct BlobExcessGasAndPrice {
    /// The excess blob gas.
    pub excess_blob_gas: u64,
    /// The price of a unit.
    pub blob_gasprice: u128,
}

/// The excess blob gas with its price.
pub open spec fn priced(excess: u64, params: BlobParams) -> BlobExcessGasAndPrice {
    BlobExcessGasAndPrice {
        excess_blob_gas: excess,
        blob_gasprice: blob_fee(excess, params.min_blob_fee, params.update_fraction),
    }
}

/// The excess blob gas with a price that was computed for it.
pub fn with_price(excess_blob_gas: u64, blob_gasprice: u128) -> (r: BlobExcessGasAndPrice)
    ensures
        r.excess_blob_gas == excess_blob_gas,
        r.blob_gasprice == blob_gasprice,
{
    BlobExcessGasAndPrice { excess_blob_gas, blob_gasprice }
}

/// What the virtual machine is set to.
#[derive(Clone, Copy, Debug)]
pub struct CfgEnv {
    /// The fork whose rules hold.
    pub spec: BscHardfork,
    /// The chain.
    pub chain_id: u64,
    /// How many blobs a transaction may have, where that is set.
    pub max_blobs_per_tx: Option<u64>,
    /// How much gas a transaction may use, where that is set.
    pub tx_gas_limit_cap: Option<u64>,
}

/// What transactions can ask of the block that they run in.
#[derive(Clone, Copy, Debug)]
pub struct BlockEnv {
    /// Its number.
    pub number: U256,
    /// The account that gets the fees.
    pub beneficiary: Address,
    /// Its time.
    pub timestamp: U256,
    /// Its difficulty.
    pub difficulty: U256,
    /// What stands for randomness.
    pub prevrandao: Option<B256>,
    /// How much gas it may use.
    pub gas_limit: u64,
    /// Its base fee.
    pub basefee: u64,
    /// Its excess blob gas and the price of blob gas.
    pub blob_excess_gas_and_price: Option<BlobExcessGasAndPrice>,
    /// Its slot.
    pub slot_num: u64,
}

/// The environment of a block.
#[derive(Clone, Copy, Debug)]
pub struct EvmEnv {
    /// What the virtual machine is set to.
    pub cfg_env: CfgEnv,
    /// What transactions can ask.
    pub block_env: BlockEnv,
}

/// What the chain's specification says of a block.
#[derive(Clone, Copy, Debug)]
pub struct BlockRules {
    /// The chain.
    pub chain_id: u64,
    /// The forks that are active at the block.
    pub forks: ActiveForks,
    /// Whether the fork that rules the block has the rules of the merge.
    pub merged: bool,
    /// The blob parameters at the block's time.
    pub blob_params: Option<BlobParams>,
}

impl BlockRules {
    /// The fork that rules the block.
    pub open spec fn spec(self) -> BscHardfork {
        ruling_fork(self.forks)
    }

    /// Whether Cancun is active.
    pub open spec fn cancun(self) -> bool {
        self.forks.active(BscHardfork::Cancun)
    }

    /// Whether Osaka is active.
    pub open spec fn osaka(self) -> bool {
        self.forks.active(BscHardfork::Osaka)
    }
}

/// What the maker of a block sets on every chain.
#[derive(Debug)]
pub struct NextBlockEnvAttributes {
    /// Its time.
    pub timestamp: u64,
    /// The account that gets the fees.
    pub suggested_fee_recipient: Address,
    /// What stands for randomness.
    pub prev_randao: B256,
    /// How much gas it may use.
    pub gas_limit: u64,
    /// Root of the parent beacon block.
    pub parent_beacon_block_root: Option<B256>,
    /// The withdrawals, each in its encoding, where the block has a list of them.
    pub withdrawals: Option<Vec<Vec<u8>>>,
    /// What the sealer adds.
    pub extra_data: Vec<u8>,
    /// The slot, where that is known.
    pub slot_number: Option<u64>,
}

/// What the maker of a block hands along beside what it sets: changes to the trie that are not on
/// disk yet (of type `D`), a prefetcher of the trie (of type `P`), and the sinks and the handle by
/// which results are passed on (of type `K`).
#[derive(Debug)]
pub struct MinerHelpers<D, P, K> {
    /// Changes to the trie by the parent and those before it.
    pub parent_difflayers: Option<D>,
    /// The prefetcher of the trie.
    pub triedb_prefetcher: Option<P>,
    /// The sinks and the handle.
    pub sinks: Option<K>,
}

impl<D, P, K> MinerHelpers<D, P, K> {
    /// Whether nothing is handed along.
    pub open spec fn none(self) -> bool {
        self.parent_difflayers is None && self.triedb_prefetcher is None && self.sinks is None
    }

    /// Nothing is handed along.
    pub fn nothing() -> (r: Self)
        ensures
            r.none(),
    {
        MinerHelpers { parent_difflayers: None, triedb_prefetcher: None, sinks: None }
    }
}

/// What the maker of the next block sets.
#[derive(Debug)]
pub struct BscNextBlockEnvAttributes<D, P, K> {
    /// What is set on every chain.
    pub inner: NextBlockEnvAttributes,
    /// What is handed along.
    pub helpers: MinerHelpers<D, P, K>,
    /// Until when the state root may be waited for, in milliseconds.
    pub state_root_deadline_ms: Option<u64>,
}

impl<D, P, K> BscNextBlockEnvAttributes<D, P, K> {
    /// What is set for a block that is only simulated: nothing is handed along, and there is no
    /// deadline.
    pub fn build_pending_env(inner: NextBlockEnvAttributes) -> (r: Self)
        ensures
            r.inner == inner,
            r.helpers.none(),
            r.state_root_deadline_ms is None,
    {
        BscNextBlockEnvAttributes {
            inner,
            helpers: MinerHelpers::nothing(),
            state_root_deadline_ms: None,
        }
    }
}

/// The cap on a transaction's gas.
pub open spec fn gas_cap(osaka: bool) -> Option<u64> {
    if osaka {
        Some(MAX_TX_GAS_LIMIT_OSAKA)
    } else {
        None
    }
}

/// The blob parameters that count for a block: none before Cancun.
pub open spec fn active_blobs(rules: BlockRules) -> Option<BlobParams> {
    if rules.cancun() {
        rules.blob_params
    } else {
        None
    }
}

/// Whether this is the environment of the block with this header.
pub open spec fn is_evm_env(r: EvmEnv, header: Header, rules: BlockRules) -> bool {
    &&& r.cfg_env.spec == rules.spec()
    &&& r.cfg_env.chain_id == rules.chain_id
    &&& r.cfg_env.max_blobs_per_tx == match active_blobs(rules) {
        Some(p) => Some(p.max_blobs_per_tx),
        None => None,
    }
    &&& r.cfg_env.tx_gas_limit_cap == gas_cap(rules.osaka())
    &&& r.block_env.number.value() == header.number
    &&& r.block_env.beneficiary == header.beneficiary
    &&& r.block_env.timestamp.value() == header.timestamp
    &&& r.block_env.difficulty.value() == if rules.merged {
        0
    } else {
        header.difficulty.value()
    }
    &&& match r.block_env.prevrandao {
        Some(random) => rules.merged && be_value(random@) == header.difficulty.value(),
        None => !rules.merged,
    }
    &&& r.block_env.gas_limit == header.gas_limit
    &&& r.block_env.basefee == match header.base_fee_per_gas {
        Some(fee) => fee,
        None => 0,
    }
    &&& r.block_env.blob_excess_gas_and_price == match (
        header.excess_blob_gas,
        active_blobs(rules),
    ) {
        (Some(excess), Some(p)) => Some(priced(excess, p)),
        _ => None,
    }
    &&& r.block_env.slot_num == 0
}

/// What the execution of a block is told on every chain.
#[derive(Debug)]
pub struct EthBlockExecutionCtx {
    /// How many transactions there are, where that is known.
    pub tx_count_hint: Option<usize>,
    /// Hash of the parent.
    pub parent_hash: B256,
    /// Root of the parent beacon block.
    pub parent_beacon_block_root: Option<B256>,
    /// The uncles' headers, each in its encoding.
    pub ommers: Vec<Vec<u8>>,
    /// The withdrawals, each in its encoding, where the block has a list of them.
    pub withdrawals: Option<Vec<Vec<u8>>>,
    /// What the sealer adds.
    pub extra_data: Vec<u8>,
    /// The slot, where that is known.
    pub slot_number: Option<u64>,
}

/// What the execution of a block is told beside its environment.
#[derive(Debug)]
pub struct BscBlockExecutionCtx<D, P, K> {
    /// What is told on every chain.
    pub base: EthBlockExecutionCtx,
    /// The header, where the block has one.
    pub header: Option<Header>,
    /// The hash, where the block has one.
    pub header_hash: Option<B256>,
    /// Whether the block is being made.
    pub is_miner: bool,
    /// What its maker hands along.
    pub helpers: MinerHelpers<D, P, K>,
    /// Until when the state root may be waited for, in milliseconds.
    pub state_root_deadline_ms: Option<u64>,
}

/// Two contexts say the same on every chain.
pub open spec fn same_base(a: EthBlockExecutionCtx, b: EthBlockExecutionCtx) -> bool {
    &&& a.tx_count_hint == b.tx_count_hint
    &&& a.parent_hash == b.parent_hash
    &&& a.parent_beacon_block_root == b.parent_beacon_block_root
    &&& items_view(a.ommers) == items_view(b.ommers)
    &&& opt_items_view(a.withdrawals) == opt_items_view(b.withdrawals)
    &&& a.extra_data@ == b.extra_data@
    &&& a.slot_number == b.slot_number
}

impl<D, P, K> BscBlockExecutionCtx<D, P, K> {
    /// Whether the context is that of a block with this hash: what the block says, and nothing of
    /// the making of it.
    pub open spec fn describes(self, block: BscBlock, hash: Seq<u8>) -> bool {
        &&& self.base.tx_count_hint == Some(block.transactions@.len() as usize)
        &&& self.base.parent_hash == block.header.parent_hash
        &&& self.base.parent_beacon_block_root == block.header.parent_beacon_block_root
        &&& items_view(self.base.ommers) == items_view(block.ommers)
        &&& opt_items_view(self.base.withdrawals) == opt_items_view(block.withdrawals)
        &&& self.base.extra_data@ == block.header.extra_data@
        &&& self.base.slot_number is None
        &&& self.header matches Some(h) && h@ == block.header@
        &&& self.header_hash matches Some(h) && h@ == hash
        &&& !self.is_miner
        &&& self.helpers.none()
        &&& self.state_root_deadline_ms is None
    }

    fn of_block(block: &BscBlock, hash: B256) -> (r: Self)
        ensures
            r.describes(*block, hash@),
    {
        let header = block.header.clone();
        let extra_data = header.extra_data.clone();
        proof {
            assert(extra_data@ =~= header.extra_data@);
        }
        let base = EthBlockExecutionCtx {
            tx_count_hint: Some(block.transactions.len()),
            parent_hash: header.parent_hash,
            parent_beacon_block_root: header.parent_beacon_block_root,
            ommers: copy_items(&block.ommers),
            withdrawals: match &block.withdrawals {
                Some(items) => Some(copy_items(items)),
                None => None,
            },
            extra_data,
            slot_number: None,
        };
        BscBlockExecutionCtx {
            base,
            header: Some(header),
            header_hash: Some(hash),
            is_miner: false,
            helpers: MinerHelpers::nothing(),
            state_root_deadline_ms: None,
        }
    }

    /// What is told on every chain.
    pub fn as_eth_context(&self) -> (r: &EthBlockExecutionCtx)
        ensures
            r == self.base,
    {
        &self.base
    }

    /// The part of the context that the executor of a block gets: the changes to the trie and the
    /// prefetcher stay with the builder, which needs them at the end.
    pub fn for_executor(&self) -> (r: Self) where K: Clone
        ensures
            same_base(r.base, self.base),
            match self.header {
                Some(h) => r.header matches Some(x) && x@ == h@,
                None => r.header is None,
            },
            r.header_hash == self.header_hash,
            r.is_miner == self.is_miner,
            r.helpers.parent_difflayers is None,
            r.helpers.triedb_prefetcher is None,
            match self.helpers.sinks {
                Some(k) => r.helpers.sinks matches Some(x) && cloned(k, x),
                None => r.helpers.sinks is None,
            },
            r.state_root_deadline_ms == self.state_root_deadline_ms,
    {
        let extra_data = self.base.extra_data.clone();
        proof {
            assert(extra_data@ =~= self.base.extra_data@);
        }
        let base = EthBlockExecutionCtx {
            tx_count_hint: self.base.tx_count_hint,
            parent_hash: self.base.parent_hash,
            parent_beacon_block_root: self.base.parent_beacon_block_root,
            ommers: copy_items(&self.base.ommers),
            withdrawals: match &self.base.withdrawals {
                Some(items) => Some(copy_items(items)),
                None => None,
            },
            extra_data,
            slot_number: self.base.slot_number,
        };
        let sinks = match &self.helpers.sinks {
            Some(sinks) => Some(sinks.clone()),
            None => None,
        };
        let header = match &self.header {
            Some(header) => Some(header.clone()),
            None => None,
        };
        BscBlockExecutionCtx {
            base,
            header,
            header_hash: self.header_hash,
            is_miner: self.is_miner,
            helpers: MinerHelpers { parent_difflayers: None, triedb_prefetcher: None, sinks },
            state_root_deadline_ms: self.state_root_deadline_ms,
        }
    }
}

/// Makes executors of blocks, out of a maker of receipts, a chain specification and a maker of
/// virtual machines.
#[derive(Debug)]
pub struct BscBlockExecutorFactory<R, Spec, EvmFactory> {
    receipt_builder: R,
    spec: Spec,
    evm_factory: EvmFactory,
}

impl<R, Spec, EvmFactory> BscBlockExecutorFactory<R, Spec, EvmFactory> {
    /// The three parts.
    pub closed spec fn parts(&self) -> (R, Spec, EvmFactory) {
        (self.receipt_builder, self.spec, self.evm_factory)
    }

    /// A factory of these parts.
    pub fn new(receipt_builder: R, spec: Spec, evm_factory: EvmFactory) -> (r: Self)
        ensures
            r.parts() == (receipt_builder, spec, evm_factory),
    {
        BscBlockExecutorFactory { receipt_builder, spec, evm_factory }
    }

    /// The maker of receipts.
    pub fn receipt_builder(&self) -> (r: &R)
        ensures
            r == self.parts().0,
    {
        &self.receipt_builder
    }

    /// The chain specification.
    pub fn spec(&self) -> (r: &Spec)
        ensures
            r == self.parts().1,
    {
        &self.spec
    }

    /// The maker of virtual machines.
    pub fn evm_factory(&self) -> (r: &EvmFactory)
        ensures
            r == self.parts().2,
    {
        &self.evm_factory
    }
}

/// How blocks are executed: with which factory of executors, and with which assembler of new blocks.
#[derive(Debug)]
pub struct BscEvmConfig<R, Spec, EvmFactory, A> {
    /// The factory of executors.
    pub executor_factory: BscBlockExecutorFactory<R, Spec, EvmFactory>,
    /// The assembler of new blocks.
    pub block_assembler: A,
}

impl<R, Spec, EvmFactory, A> BscEvmConfig<R, Spec, EvmFactory, A> {
    /// A configuration of these parts.
    pub fn new_with_evm_factory(
        receipt_builder: R,
        chain_spec: Spec,
        evm_factory: EvmFactory,
        block_assembler: A,
    ) -> (r: Self)
        ensures
            r.executor_factory.parts() == (receipt_builder, chain_spec, evm_factory),
            r.block_assembler == block_assembler,
    {
        BscEvmConfig {
            executor_factory: BscBlockExecutorFactory::new(
                receipt_builder,
                chain_spec,
                evm_factory,
            ),
            block_assembler,
        }
    }

    /// The chain specification.
    pub fn chain_spec(&self) -> (r: &Spec)
        ensures
            r == self.executor_factory.parts().1,
    {
        self.executor_factory.spec()
    }

    /// The factory of executors.
    pub fn block_executor_factory(&self) -> (r: &BscBlockExecutorFactory<R, Spec, EvmFactory>)
        ensures
            r == self.executor_factory,
    {
        &self.executor_factory
    }

    /// The assembler of new blocks.
    pub fn block_assembler(&self) -> (r: &A)
        ensures
            r == self.block_assembler,
    {
        &self.block_assembler
    }

    /// The environment of the block with this header.
    pub fn evm_env(&self, header: &Header, rules: &BlockRules) -> (r: EvmEnv)
        requires
            rules.blob_params matches Some(p) ==> p.valid(),
        ensures
            is_evm_env(r, *header, *rules),
    {
        proof {
            lemma_active_flags(rules.forks);
        }
        let blob_params = if rules.forks.cancun {
            rules.blob_params
        } else {
            None
        };
        let cfg_env = CfgEnv {
            spec: revm_spec_by_timestamp_and_block_number(&rules.forks),
            chain_id: rules.chain_id,
            max_blobs_per_tx: match blob_params {
                Some(p) => Some(p.max_blobs_per_tx),
                None => None,
            },
            tx_gas_limit_cap: if rules.forks.osaka {
                Some(MAX_TX_GAS_LIMIT_OSAKA)
            } else {
                None
            },
        };
        let blob_excess_gas_and_price = match (header.excess_blob_gas, blob_params) {
            (Some(excess), Some(p)) => Some(with_price(excess, calc_blob_fee(&p, excess))),
            _ => None,
        };
        let block_env = BlockEnv {
            number: U256::from_u64(header.number),
            beneficiary: header.beneficiary,
            timestamp: U256::from_u64(header.timestamp),
            difficulty: if rules.merged {
                U256::zero()
            } else {
                header.difficulty
            },
            prevrandao: if rules.merged {
                Some(b256_from(header.difficulty))
            } else {
                None
            },
            gas_limit: header.gas_limit,
            basefee: header.base_fee_per_gas.unwrap_or(0),
            blob_excess_gas_and_price,
            slot_num: 0,
        };
        EvmEnv { cfg_env, block_env }
    }

    /// The environment of the block that follows `parent`. `next_excess` is its excess blob gas, where
    /// it has blobs.
    pub fn next_evm_env<D, P, K>(
        &self,
        parent: &Header,
        attributes: &BscNextBlockEnvAttributes<D, P, K>,
        rules: &BlockRules,
        next_excess: Option<u64>,
    ) -> (r: EvmEnv)
        requires
            parent.number < u64::MAX,
            rules.blob_params matches Some(p) ==> p.valid(),
        ensures
            r.cfg_env.spec == rules.spec(),
            r.cfg_env.chain_id == rules.chain_id,
            r.cfg_env.max_blobs_per_tx is None,
            r.cfg_env.tx_gas_limit_cap == gas_cap(rules.osaka()),
            r.block_env.number.value() == parent.number + 1,
            r.block_env.beneficiary == attributes.inner.suggested_fee_recipient,
            r.block_env.timestamp.value() == attributes.inner.timestamp,
            r.block_env.difficulty.value() == 0,
            r.block_env.prevrandao == Some(attributes.inner.prev_randao),
            r.block_env.gas_limit == attributes.inner.gas_limit,
            r.block_env.basefee == EIP1559_INITIAL_BASE_FEE,
            r.block_env.blob_excess_gas_and_price == match next_excess {
                Some(excess) => Some(
                    priced(
                        excess,
                        match rules.blob_params {
                            Some(p) => p,
                            None => cancun_blobs(),
                        },
                    ),
                ),
                None => None,
            },
            r.block_env.slot_num == 0,
            r.cfg_env.tx_gas_limit_cap is Some <==> rules.forks.osaka,
            r.block_env.blob_excess_gas_and_price is Some <==> next_excess is Some,
            r.block_env.blob_excess_gas_and_price matches Some(price) ==> next_excess == Some(
                price.excess_blob_gas,
            ),
            r.block_env.basefee == 0,
    {
        proof {
            lemma_active_flags(rules.forks);
        }
        let cfg_env = CfgEnv {
            spec: revm_spec_by_timestamp_and_block_number(&rules.forks),
            chain_id: rules.chain_id,
            max_blobs_per_tx: None,
            tx_gas_limit_cap: if rules.forks.osaka {
                Some(MAX_TX_GAS_LIMIT_OSAKA)
            } else {
                None
            },
        };
        let blob_excess_gas_and_price = match next_excess {
            Some(excess) => {
                let params = match rules.blob_params {
                    Some(p) => p,
                    None => cancun_blob_params(),
                };
                Some(with_price(excess, calc_blob_fee(&params, excess)))
            },
            None => None,
        };
        let block_env = BlockEnv {
            number: U256::from_u64(parent.number + 1),
            beneficiary: attributes.inner.suggested_fee_recipient,
            timestamp: U256::from_u64(attributes.inner.timestamp),
            difficulty: U256::zero(),
            prevrandao: Some(attributes.inner.prev_randao),
            gas_limit: attributes.inner.gas_limit,
            basefee: EIP1559_INITIAL_BASE_FEE,
            blob_excess_gas_and_price,
            slot_num: 0,
        };
        EvmEnv { cfg_env, block_env }
    }

    /// What the execution of a sealed block is told.
    pub fn context_for_block<D, P, K>(&self, block: &SealedBlock) -> (r: BscBlockExecutionCtx<
        D,
        P,
        K,
    >)
        ensures
            r.describes(block.block, block.hash@),
    {
        BscBlockExecutionCtx::of_block(&block.block, block.hash)
    }

    /// What the execution of a block that is being made is told: what its maker sets and hands along.
    pub fn context_for_next_block<D, P, K>(
        &self,
        parent_hash: B256,
        attributes: BscNextBlockEnvAttributes<D, P, K>,
    ) -> (r: BscBlockExecutionCtx<D, P, K>)
        ensures
            r.base.tx_count_hint is None,
            r.base.parent_hash == parent_hash,
            r.base.parent_beacon_block_root == attributes.inner.parent_beacon_block_root,
            r.base.ommers@.len() == 0,
            r.base.withdrawals == attributes.inner.withdrawals,
            r.base.extra_data == attributes.inner.extra_data,
            r.base.slot_number == attributes.inner.slot_number,
            r.header is None,
            r.header_hash is None,
            r.is_miner,
            r.helpers == attributes.helpers,
            r.state_root_deadline_ms == attributes.state_root_deadline_ms,
    {
        let inner = attributes.inner;
        let base = EthBlockExecutionCtx {
            tx_count_hint: None,
            parent_hash,
            parent_beacon_block_root: inner.parent_beacon_block_root,
            ommers: Vec::new(),
            withdrawals: inner.withdrawals,
            extra_data: inner.extra_data,
            slot_number: inner.slot_number,
        };
        BscBlockExecutionCtx {
            base,
            header: None,
            header_hash: None,
            is_miner: true,
            helpers: attributes.helpers,
            state_root_deadline_ms: attributes.state_root_deadline_ms,
        }
    }

    /// The environment of the block of a payload.
    pub fn evm_env_for_payload(&self, payload: &BscExecutionData, rules: &BlockRules) -> (r: EvmEnv)
        requires
            rules.blob_params matches Some(p) ==> p.valid(),
        ensures
            is_evm_env(r, payload.block.header, *rules),
    {
        self.evm_env(&payload.block.header, rules)
    }

    /// What the execution of a payload is told. The hash of its block is computed once.
    pub fn context_for_payload<D, P, K>(&self, payload: &mut BscExecutionData) -> (r:
        BscBlockExecutionCtx<D, P, K>)
        ensures
            r.describes(old(payload).block, old(payload).hash_bytes()),
            final(payload).block == old(payload).block,
            final(payload).known_hash() matches Some(h) && h@ == old(payload).hash_bytes(),
    {
        let hash = payload.block_hash_cached();
        BscBlockExecutionCtx::of_block(&payload.block, hash)
    }

    /// The transactions that the execution of a payload goes through, each in its encoding.
    pub fn tx_iterator_for_payload(&self, payload: &BscExecutionData) -> (r: Vec<Vec<u8>>)
        ensures
            items_view(r) == items_view(payload.block.transactions),
    {
        copy_items(&payload.block.transactions)
    }
}

/// The environment of a block says what its header says: its number, its time, who gets the fees,
/// how much gas it may use and the base fee, which is zero where the header has none.
pub proof fn law_environment_says_what_the_header_says(env: EvmEnv, header: Header, rules: BlockRules)
    requires
        is_evm_env(env, header, rules),
    ensures
        env.block_env.number.value() == header.number,
        env.block_env.timestamp.value() == header.timestamp,
        env.block_env.beneficiary == header.beneficiary,
        env.block_env.gas_limit == header.gas_limit,
        header.base_fee_per_gas matches Some(fee) ==> env.block_env.basefee == fee,
        header.base_fee_per_gas is None ==> env.block_env.basefee == 0,
        env.cfg_env.chain_id == rules.chain_id,
        env.cfg_env.spec == ruling_fork(rules.forks),
{
}

/// After the merge the difficulty of the header stands where randomness does, and the difficulty
/// itself is zero; before it the difficulty stands in its own place.
pub proof fn law_difficulty_becomes_randomness(env: EvmEnv, header: Header, rules: BlockRules)
    requires
        is_evm_env(env, header, rules),
    ensures
        rules.merged ==> env.block_env.difficulty.value() == 0 && (env.block_env.prevrandao matches
            Some(random) && be_value(random@) == header.difficulty.value()),
        !rules.merged ==> env.block_env.difficulty.value() == header.difficulty.value()
            && env.block_env.prevrandao is None,
{
}

/// Blobs count from Cancun on alone, where the chain has parameters for them; only a header that
/// tells its excess of blob gas has a price for it, and it is that excess which is priced.
pub proof fn law_blobs_count_from_cancun_on(env: EvmEnv, header: Header, rules: BlockRules)
    requires
        is_evm_env(env, header, rules),
    ensures
        env.cfg_env.max_blobs_per_tx is Some <==> rules.forks.cancun && rules.blob_params is Some,
        env.cfg_env.max_blobs_per_tx matches Some(n) ==> n == rules.blob_params->0.max_blobs_per_tx,
        env.block_env.blob_excess_gas_and_price is Some <==> rules.forks.cancun
            && rules.blob_params is Some && header.excess_blob_gas is Some,
        env.block_env.blob_excess_gas_and_price matches Some(price) ==> {
            &&& header.excess_blob_gas == Some(price.excess_blob_gas)
            &&& price.blob_gasprice == blob_fee(
                price.excess_blob_gas,
                rules.blob_params->0.min_blob_fee,
                rules.blob_params->0.update_fraction,
            )
        },
{
    lemma_active_flags(rules.forks);
}

/// From Osaka on, and not before, a transaction may ask for no more than two to the power of 24
/// units of gas.
pub proof fn law_gas_is_capped_from_osaka_on(env: EvmEnv, header: Header, rules: BlockRules)
    requires
        is_evm_env(env, header, rules),
    ensures
        rules.forks.osaka ==> env.cfg_env.tx_gas_limit_cap == Some(16_777_216u64),
        !rules.forks.osaka ==> env.cfg_env.tx_gas_limit_cap is None,
        gas_cap(rules.forks.osaka) == env.cfg_env.tx_gas_limit_cap,
{
    lemma_active_flags(rules.forks);
}

/// What the execution of a block is told is read off the block: the number of its transactions, its
/// parent, its uncles and withdrawals, and its own header and hash; it is nothing that is being
/// made.
pub proof fn law_context_is_that_of_the_block<D, P, K>(
    ctx: BscBlockExecutionCtx<D, P, K>,
    block: BscBlock,
    hash: Seq<u8>,
)
    requires
        ctx.describes(block, hash),
    ensures
        ctx.base.tx_count_hint matches Some(n) && n == block.transactions@.len(),
        ctx.base.parent_hash == block.header.parent_hash,
        ctx.base.parent_beacon_block_root == block.header.parent_beacon_block_root,
        items_view(ctx.base.ommers) == items_view(block.ommers),
        opt_items_view(ctx.base.withdrawals) == opt_items_view(block.withdrawals),
        ctx.base.extra_data@ == block.header.extra_data@,
        ctx.header matches Some(h) && h.number == block.header.number,
        ctx.header_hash matches Some(h) && h@ == hash,
        !ctx.is_miner,
        ctx.helpers.parent_difflayers is None,
        ctx.helpers.triedb_prefetcher is None,
        ctx.helpers.sinks is None,
        ctx.state_root_deadline_ms is None,
{
    assert(block.transactions.len() == block.transactions@.len());
    assert(ctx.header->0@.number == block.header@.number);
}

/// Two contexts of one block say the same on every chain.
pub proof fn law_contexts_of_a_block_agree<D, P, K>(
    a: BscBlockExecutionCtx<D, P, K>,
    b: BscBlockExecutionCtx<D, P, K>,
    block: BscBlock,
    hash: Seq<u8>,
)
    requires
        a.describes(block, hash),
        b.describes(block, hash),
    ensures
        same_base(a.base, b.base),
{
}

} // verus!
