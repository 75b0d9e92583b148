//! The remote control of the miner.

use crate::primitives::zero_bytes;
use crate::primitives::Address;
use crate::primitives::U256;
use vstd::prelude::*;
use vstd::utf8::encode_utf8;

verus! {

/// How many bytes of extra data a block may carry.
pub const MAX_EXTRA_LEN: usize = 32;

/// The code of the error on extra data that is too long.
pub const EXTRA_TOO_LONG_CODE: i32 = -32000;

/// What the miner can be told.
#[derive(Debug)]
pub struct MinerSettings {
    /// Whether blocks are made.
    pub mining_enabled: bool,
    /// The extra data of new blocks.
    pub extra: Option<Vec<u8>>,
    /// The lowest gas price that is accepted.
    pub gas_tip: Option<u64>,
    /// The gas limit that new blocks head for.
    pub gas_limit: Option<u64>,
    /// The account that gets the rewards.
    pub etherbase: Option<Address>,
    /// How often a block is rebuilt, in milliseconds.
    pub recommit_interval_ms: Option<u64>,
    /// Whether bids are accepted.
    pub mev_running: bool,
    /// The accounts that may bid.
    pub builders: Vec<Address>,
}

/// An error that a caller is sent.
#[derive(Clone, Copy, Debug)]
pub struct RpcError {
    /// Its code.
    pub code: i32,
    /// What it says.
    pub message: &'static str,
}

/// The number where it fits in 64 bits, the largest 64-bit number where it does not.
pub open spec fn clamped(n: U256) -> u64 {
    if n.value() <= u64::MAX {
        n.value() as u64
    } else {
        u64::MAX
    }
}

/// The remote control of the miner.
#[derive(Clone, Copy, Debug)]
pub struct BscMinerApiImpl;

impl Default for BscMinerApiImpl {
    fn default() -> (r: Self)
        ensures
            r == BscMinerApiImpl,
    {
        BscMinerApiImpl
    }
}

impl BscMinerApiImpl {
    /// A remote control.
    pub fn new() -> (r: Self)
        ensures
            r == BscMinerApiImpl,
    {
        BscMinerApiImpl
    }

    /// Starts to make blocks.
    pub fn start(&self, settings: &mut MinerSettings)
        ensures
            *final(settings) == (MinerSettings { mining_enabled: true, ..*old(settings) }),
    {
        settings.mining_enabled = true;
    }

    /// Stops to make blocks.
    pub fn stop(&self, settings: &mut MinerSettings)
        ensures
            *final(settings) == (MinerSettings { mining_enabled: false, ..*old(settings) }),
    {
        settings.mining_enabled = false;
    }

    /// Sets the extra data of new blocks, the bytes of a text, which must not be too long.
    pub fn set_extra(&self, settings: &mut MinerSettings, extra: String) -> (r: Result<
        bool,
        RpcError,
    >)
        ensures
            if encode_utf8(extra@).len() > MAX_EXTRA_LEN {
                &&& r matches Err(e)
                &&& e.code == EXTRA_TOO_LONG_CODE
                &&& e.message@ == "extra data too long (max 32 bytes)"@
                &&& *final(settings) == *old(settings)
            } else {
                &&& r matches Ok(done)
                &&& done
                &&& final(settings).extra matches Some(bytes)
                &&& bytes@ == encode_utf8(extra@)
                &&& *final(settings) == (MinerSettings {
                    extra: final(settings).extra,
                    ..*old(settings)
                })
            },
            r is Ok <==> encode_utf8(extra@).len() <= 32,
    {
        let bytes = extra.as_str().as_bytes_vec();
        if bytes.len() > MAX_EXTRA_LEN {
            return Err(
                RpcError {
                    code: EXTRA_TOO_LONG_CODE,
                    message: "extra data too long (max 32 bytes)",
                },
            );
        }
        settings.extra = Some(bytes);
        Ok(true)
    }

    /// Sets the lowest gas price that is accepted.
    pub fn set_gas_price(&self, settings: &mut MinerSettings, gas_price: U256) -> (r: bool)
        ensures
            r,
            *final(settings) == (MinerSettings { gas_tip: Some(clamped(gas_price)), ..*old(settings) }),
    {
        settings.gas_tip = Some(gas_price.saturating_to_u64());
        true
    }

    /// Sets the gas limit that new blocks head for.
    pub fn set_gas_limit(&self, settings: &mut MinerSettings, gas_limit: U256) -> (r: bool)
        ensures
            r,
            *final(settings) == (MinerSettings {
                gas_limit: Some(clamped(gas_limit)),
                ..*old(settings)
            }),
    {
        settings.gas_limit = Some(gas_limit.saturating_to_u64());
        true
    }

    /// Sets the account that gets the rewards.
    pub fn set_etherbase(&self, settings: &mut MinerSettings, etherbase: Address) -> (r: bool)
        ensures
            r,
            *final(settings) == (MinerSettings { etherbase: Some(etherbase), ..*old(settings) }),
    {
        settings.etherbase = Some(etherbase);
        true
    }

    /// Sets how often a block is rebuilt.
    pub fn set_recommit_interval(&self, settings: &mut MinerSettings, interval: u64)
        ensures
            *final(settings) == (MinerSettings {
                recommit_interval_ms: Some(interval),
                ..*old(settings)
            }),
    {
        settings.recommit_interval_ms = Some(interval);
    }

    /// Whether bids are accepted.
    pub fn mev_running(&self, settings: &MinerSettings) -> (r: bool)
        ensures
            r == settings.mev_running,
    {
        settings.mev_running
    }

    /// Starts to accept bids.
    pub fn start_mev(&self, settings: &mut MinerSettings)
        ensures
            *final(settings) == (MinerSettings { mev_running: true, ..*old(settings) }),
    {
        settings.mev_running = true;
    }

    /// Stops to accept bids.
    pub fn stop_mev(&self, settings: &mut MinerSettings)
        ensures
            *final(settings) == (MinerSettings { mev_running: false, ..*old(settings) }),
    {
        settings.mev_running = false;
    }

    /// Lets an account bid.
    pub fn add_builder(&self, settings: &mut MinerSettings, builder: Address)
        ensures
            forall|a: Address|
                final(settings).builders@.contains(a) <==> old(settings).builders@.contains(a) || a
                    == builder,
            *final(settings) == (MinerSettings {
                builders: final(settings).builders,
                ..*old(settings)
            }),
    {
        let ghost before = settings.builders@;
        settings.builders.push(builder);
        proof {
            let after = settings.builders@;
            assert forall|a: Address| after.contains(a) <==> before.contains(a) || a == builder by {
                if after.contains(a) && a != builder {
                    let i = choose|i: int| 0 <= i < after.len() && after[i] == a;
                    assert(before[i] == a);
                }
                if before.contains(a) {
                    let i = choose|i: int| 0 <= i < before.len() && before[i] == a;
                    assert(after[i] == a);
                }
                if a == builder {
                    assert(after[before.len() as int] == a);
                }
            }
        }
    }

    /// Lets an account bid no more.
    pub fn remove_builder(&self, settings: &mut MinerSettings, builder: &Address)
        ensures
            forall|a: Address|
                final(settings).builders@.contains(a) <==> old(settings).builders@.contains(a) && a
                    != *builder,
            *final(settings) == (MinerSettings {
                builders: final(settings).builders,
                ..*old(settings)
            }),
    {
        let ghost before = settings.builders@;
        let mut kept: Vec<Address> = Vec::new();
        let mut i: usize = 0;
        while i < settings.builders.len()
            invariant
                i <= before.len(),
                settings.builders@ == before,
                *settings == *old(settings),
                forall|a: Address|
                    kept@.contains(a) <==> before.take(i as int).contains(a) && a != *builder,
            decreases before.len() - i,
        {
            let ghost earlier = kept@;
            let candidate = settings.builders[i];
            if candidate != *builder {
                kept.push(candidate);
            }
            proof {
                let seen = before.take(i as int);
                let next = before.take(i + 1);
                assert(next =~= seen.push(candidate));
                assert forall|a: Address| kept@.contains(a) <==> next.contains(a) && a
                    != *builder by {
                    if kept@.contains(a) {
                        let k = choose|k: int| 0 <= k < kept@.len() && kept@[k] == a;
                        if k < earlier.len() {
                            assert(earlier[k] == a);
                            assert(earlier.contains(a));
                            let m = choose|m: int| 0 <= m < seen.len() && seen[m] == a;
                            assert(next[m] == a);
                        } else {
                            assert(next[i as int] == a);
                        }
                    }
                    if next.contains(a) && a != *builder {
                        let m = choose|m: int| 0 <= m < next.len() && next[m] == a;
                        if m < seen.len() {
                            assert(seen[m] == a);
                            assert(seen.contains(a));
                            assert(earlier.contains(a));
                            let k = choose|k: int| 0 <= k < earlier.len() && earlier[k] == a;
                            assert(kept@[k] == a);
                        } else {
                            assert(kept@[earlier.len() as int] == a);
                        }
                    }
                }
            }
            i += 1;
        }
        proof {
            assert(before.take(i as int) =~= before);
        }
        settings.builders = kept;
    }
}

/// What callers are told of the node.
#[derive(Clone, Copy, Debug)]
pub struct BscEthExtApiImpl {
    /// The validator's account.
    pub validator_address: Address,
}

impl Default for BscEthExtApiImpl {
    fn default() -> (r: Self)
        ensures
            r.validator_address == zero_bytes::<20>(),
    {
        BscEthExtApiImpl { validator_address: Address::zero() }
    }
}

impl BscEthExtApiImpl {
    /// `configured` is the validator's account, where one is configured.
    pub fn new(configured: Option<Address>) -> (r: Self)
        ensures
            r.validator_address == match configured {
                Some(a) => a,
                None => zero_bytes::<20>(),
            },
    {
        let validator_address = match configured {
            Some(a) => a,
            None => Address::zero(),
        };
        BscEthExtApiImpl { validator_address }
    }

    /// The account that gets the rewards: the one that was set while the node ran, else the
    /// validator's.
    pub fn coinbase(&self, settings: &MinerSettings) -> (r: Address)
        ensures
            r == match settings.etherbase {
                Some(a) => a,
                None => self.validator_address,
            },
    {
        match settings.etherbase {
            Some(a) => a,
            None => self.validator_address,
        }
    }

    /// Whether the node is healthy: it knows its best block.
    pub fn health(&self, best_block_number: Option<u64>) -> (r: bool)
        ensures
            r == (best_block_number is Some),
    {
        best_block_number.is_some()
    }
}

/// A number that fits in 64 bits is taken as it is, and a larger one as the largest that does: no
/// larger number is ever taken as a smaller one.
pub proof fn law_large_numbers_are_cut_off(n: U256, larger: U256)
    requires
        n.value() <= larger.value(),
    ensures
        clamped(n) <= clamped(larger),
        clamped(n) <= n.value(),
        n.value() <= 0xFFFF_FFFF_FFFF_FFFF ==> clamped(n) == n.value(),
        n.value() > 0xFFFF_FFFF_FFFF_FFFF ==> clamped(n) == 0xFFFF_FFFF_FFFF_FFFFu64,
{
}

} // verus!
