//! Which transactions the pool takes.

use crate::evm_config::cancun_blob_params;
use crate::evm_config::cancun_blobs;
use crate::evm_config::BlobParams;
use crate::evm_config::MAX_TX_GAS_LIMIT_OSAKA;
use crate::hardforks::ForkCondition;
use vstd::prelude::*;

verus! {

/// How many slots an epoch of the beacon chain has.
pub const EPOCH_SLOTS: u64 = 32;

/// The error on a transaction whose sender or recipient is blacklisted.
#[derive(Clone, Copy, Debug)]
pub struct BlacklistedAddressError();

impl BlacklistedAddressError {
    /// Whether the peer that sent the transaction is to be punished.
    pub fn is_bad_transaction(&self) -> (r: bool)
        ensures
            r,
    {
        true
    }

    /// The error in words.
    pub fn message(&self) -> (r: &'static str)
        ensures
            r@ == "sender or recipient is blacklisted"@,
    {
        "sender or recipient is blacklisted"
    }
}

/// What the rules of this chain say of a transaction.
#[derive(Clone, Copy, Debug, PartialEq, Eq, Structural)]
pub enum TxVerdict {
    /// Its sender or its recipient is blacklisted.
    Blacklisted,
    /// It may use more gas than is allowed.
    GasLimitTooHigh,
    /// It pays less than the miner asks for.
    Underpriced,
    /// Nothing: the common rules decide.
    Delegate,
}

/// Checks transactions against the rules of this chain before the common rules, which `V` stands
/// for.
#[derive(Debug)]
pub struct BscTxValidator<V> {
    inner: V,
    osaka_activated: bool,
    osaka_timestamp: Option<u64>,
}

/// What the rules of this chain say of a transaction.
pub open spec fn tx_verdict(
    osaka_activated: bool,
    blacklisted: bool,
    gas_limit: u64,
    max_fee_per_gas: u128,
    min_gas_price: Option<u64>,
) -> TxVerdict {
    if blacklisted {
        TxVerdict::Blacklisted
    } else if osaka_activated && gas_limit > MAX_TX_GAS_LIMIT_OSAKA {
        TxVerdict::GasLimitTooHigh
    } else if min_gas_price matches Some(min) && max_fee_per_gas < min {
        TxVerdict::Underpriced
    } else {
        TxVerdict::Delegate
    }
}

impl<V> BscTxValidator<V> {
    /// The validator of the common rules.
    pub closed spec fn inner(&self) -> V {
        self.inner
    }

    /// Whether Osaka is active.
    pub closed spec fn osaka_active(&self) -> bool {
        self.osaka_activated
    }

    /// When Osaka becomes active, where a time is set.
    pub closed spec fn osaka_time(&self) -> Option<u64> {
        self.osaka_timestamp
    }

    /// Puts the rules of this chain before the common ones.
    pub fn new(inner: V, osaka_activated: bool, osaka_timestamp: Option<u64>) -> (r: Self)
        ensures
            r.inner() == inner,
            r.osaka_active() == osaka_activated,
            r.osaka_time() == osaka_timestamp,
    {
        BscTxValidator { inner, osaka_activated, osaka_timestamp }
    }

    /// Checks a transaction. `blacklisted` says whether its sender or its recipient is, and
    /// `min_gas_price` is what the miner asks for, where it asks for something.
    pub fn validate_transaction(
        &self,
        blacklisted: bool,
        gas_limit: u64,
        max_fee_per_gas: u128,
        min_gas_price: Option<u64>,
    ) -> (r: TxVerdict)
        ensures
            r == tx_verdict(
                self.osaka_active(),
                blacklisted,
                gas_limit,
                max_fee_per_gas,
                min_gas_price,
            ),
    {
        if blacklisted {
            return TxVerdict::Blacklisted;
        }
        if self.osaka_activated && gas_limit > MAX_TX_GAS_LIMIT_OSAKA {
            return TxVerdict::GasLimitTooHigh;
        }
        match min_gas_price {
            Some(min) => {
                if max_fee_per_gas < min as u128 {
                    return TxVerdict::Underpriced;
                }
            },
            None => {},
        }
        TxVerdict::Delegate
    }

    /// The chain has a new head: Osaka is active from its time on.
    pub fn on_new_head_block(&mut self, timestamp: u64)
        ensures
            final(self).inner() == old(self).inner(),
            final(self).osaka_time() == old(self).osaka_time(),
            final(self).osaka_active() == match old(self).osaka_time() {
                Some(ts) => timestamp >= ts,
                None => old(self).osaka_active(),
            },
            old(self).osaka_time() matches Some(ts) ==> (final(self).osaka_active() <==> ts
                <= timestamp),
            old(self).osaka_time() is None ==> *final(self) == *old(self),
    {
        match self.osaka_timestamp {
            Some(ts) => {
                self.osaka_activated = timestamp >= ts;
            },
            None => {},
        }
    }
}

/// Builds the pool.
#[derive(Clone, Copy, Debug)]
pub struct BscPoolBuilder;

impl Default for BscPoolBuilder {
    fn default() -> (r: Self)
        ensures
            r == BscPoolBuilder,
    {
        BscPoolBuilder
    }
}

impl BscPoolBuilder {
    /// How many blobs are cached: as many as are configured, else those of two epochs of full
    /// blocks, modulo two to the power of 32.
    pub fn blob_cache_size(configured: Option<u32>, params: Option<BlobParams>) -> (r: Option<u32>)
        requires
            configured is None ==> (params matches Some(p) ==> p.target_blob_count * EPOCH_SLOTS * 2
                <= u64::MAX),
        ensures
            r == Some(
                match configured {
                    Some(n) => n,
                    None => {
                        let p = match params {
                            Some(p) => p,
                            None => cancun_blobs(),
                        };
                        (p.target_blob_count * EPOCH_SLOTS * 2) as u32
                    },
                },
            ),
            configured is Some ==> r == configured,
            configured is None ==> (params matches Some(p) ==> (p.target_blob_count * 64
                <= u32::MAX ==> (r matches Some(n) && n == p.target_blob_count * 64))),
            configured is None && params is None ==> r == Some(192u32),
    {
        match configured {
            Some(n) => Some(n),
            None => {
                let p = match params {
                    Some(p) => p,
                    None => cancun_blob_params(),
                };
                Some(#[verifier::truncate] ((p.target_blob_count * EPOCH_SLOTS * 2) as u32))
            },
        }
    }

    /// When Osaka becomes active, where a time is set, and whether it is at the head.
    pub fn osaka_schedule(condition: ForkCondition, head_timestamp: u64) -> (r: (Option<u64>, bool))
        ensures
            match condition {
                ForkCondition::Timestamp(ts) => r == (Some(ts), head_timestamp >= ts),
                _ => r == (None::<u64>, false),
            },
            r.1 ==> (r.0 matches Some(ts) && ts <= head_timestamp),
            condition matches ForkCondition::Timestamp(ts) ==> r.0 == Some(ts) && (ts
                <= head_timestamp ==> r.1),
    {
        match condition {
            ForkCondition::Timestamp(ts) => (Some(ts), head_timestamp >= ts),
            _ => (None, false),
        }
    }
}

/// A blacklisted transaction is refused whatever it pays.
pub proof fn law_blacklist_comes_first(
    osaka_activated: bool,
    gas_limit: u64,
    max_fee_per_gas: u128,
    min_gas_price: Option<u64>,
)
    ensures
        tx_verdict(osaka_activated, true, gas_limit, max_fee_per_gas, min_gas_price)
            == TxVerdict::Blacklisted,
{
}

/// What reaches the common rules keeps to the rules of this chain.
pub proof fn law_delegated_transactions_keep_the_rules(
    osaka_activated: bool,
    blacklisted: bool,
    gas_limit: u64,
    max_fee_per_gas: u128,
    min_gas_price: Option<u64>,
)
    requires
        tx_verdict(osaka_activated, blacklisted, gas_limit, max_fee_per_gas, min_gas_price)
            == TxVerdict::Delegate,
    ensures
        !blacklisted,
        osaka_activated ==> gas_limit <= MAX_TX_GAS_LIMIT_OSAKA,
        min_gas_price matches Some(min) ==> max_fee_per_gas >= min,
{
}

/// Exactly what breaks none of this chain's rules reaches the common ones: the cap on gas holds
/// from Osaka on alone, at two to the power of 24, and a transaction that pays just what the miner
/// asks for pays enough.
pub proof fn law_exactly_the_good_are_delegated(
    osaka_activated: bool,
    blacklisted: bool,
    gas_limit: u64,
    max_fee_per_gas: u128,
    min_gas_price: Option<u64>,
)
    ensures
        ({
            let verdict = tx_verdict(
                osaka_activated,
                blacklisted,
                gas_limit,
                max_fee_per_gas,
                min_gas_price,
            );
            let too_much_gas = osaka_activated && gas_limit > 16_777_216;
            let pays_too_little = min_gas_price matches Some(min) && max_fee_per_gas < min;
            &&& verdict == TxVerdict::Delegate <==> !blacklisted && !too_much_gas
                && !pays_too_little
            &&& verdict == TxVerdict::Blacklisted <==> blacklisted
            &&& verdict == TxVerdict::GasLimitTooHigh <==> !blacklisted && too_much_gas
            &&& verdict == TxVerdict::Underpriced <==> !blacklisted && !too_much_gas
                && pays_too_little
        }),
{
}

/// Paying more, or asking for less gas, never turns a transaction that was let through into one
/// that is not.
pub proof fn law_paying_more_does_no_harm(
    osaka_activated: bool,
    gas_limit: u64,
    less_gas: u64,
    max_fee_per_gas: u128,
    higher_fee: u128,
    min_gas_price: Option<u64>,
)
    requires
        less_gas <= gas_limit,
        higher_fee >= max_fee_per_gas,
        tx_verdict(osaka_activated, false, gas_limit, max_fee_per_gas, min_gas_price)
            == TxVerdict::Delegate,
    ensures
        tx_verdict(osaka_activated, false, less_gas, higher_fee, min_gas_price)
            == TxVerdict::Delegate,
        tx_verdict(osaka_activated, false, less_gas, higher_fee, None) == TxVerdict::Delegate,
        tx_verdict(false, false, u64::MAX, higher_fee, min_gas_price) == TxVerdict::Delegate,
{
}

} // verus!
