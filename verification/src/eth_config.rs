//! What the node reports of its fork configurations.

use crate::hardforks::age;
use crate::hardforks::revm_spec_by_timestamp_and_block_number;
use crate::hardforks::ruling_fork;
use crate::hardforks::ActiveForks;
use crate::hardforks::BscHardfork;
use crate::primitives::Address;
use crate::primitives::FixedBytes;
use vstd::prelude::*;

verus! {

/// A system contract.
#[derive(Clone, Copy, Debug, PartialEq, Eq, Structural)]
pub enum SystemContract {
    /// Beacon roots.
    BeaconRoots,
    /// Consolidation requests.
    ConsolidationRequestPredeploy,
    /// Deposits.
    DepositContract,
    /// Block hash history.
    HistoryStorage,
    /// Withdrawal requests.
    WithdrawalRequestPredeploy,
    /// A contract that is not named here.
    Other,
}

/// What is reported of a fork.
pub struct ForkConfig {
    /// When the fork is activated.
    pub activation_time: u64,
    /// The system contracts with their addresses.
    pub system_contracts: Vec<(SystemContract, Address)>,
    /// Whether the blob parameters are reported.
    pub reports_blob_schedule: bool,
}

/// What is reported of the fork that is active, of the next one and of the last one.
pub struct EthConfig {
    /// The active fork.
    pub current: ForkConfig,
    /// The next fork, where one is scheduled.
    pub next: Option<ForkConfig>,
    /// The last fork, where one is scheduled.
    pub last: Option<ForkConfig>,
}

/// Whether the blob parameters are reported for a fork.
pub open spec fn reports_blobs(fork: BscHardfork) -> bool {
    fork == BscHardfork::Cancun || fork == BscHardfork::Fermi || fork == BscHardfork::Maxwell
        || fork == BscHardfork::Lorentz || fork == BscHardfork::Osaka
}

/// Whether the blob parameters are reported for a fork; for all others they are null.
pub fn go_bsc_reports_blob_schedule(fork: BscHardfork) -> (r: bool)
    ensures
        r == reports_blobs(fork),
{
    match fork {
        BscHardfork::Cancun
        | BscHardfork::Fermi
        | BscHardfork::Maxwell
        | BscHardfork::Lorentz
        | BscHardfork::Osaka => true,
        _ => false,
    }
}

/// The address of the contract that keeps the hashes of recent blocks.
pub open spec fn history_storage() -> Seq<u8> {
    seq![
        0x00, 0x00, 0xF9, 0x08, 0x27, 0xF1, 0xC5, 0x3a, 0x10, 0xcb, 0x7A, 0x02, 0x33, 0x5B, 0x17,
        0x53, 0x20, 0x00, 0x29, 0x35,
    ]
}

/// `alloy_eips::eip2935::HISTORY_STORAGE_ADDRESS`, byte for byte.
#[verifier::external_body]
fn history_storage_address() -> (r: Address)
    ensures
        r@ == history_storage(),
{
    FixedBytes { bytes: alloy_eips::eip2935::HISTORY_STORAGE_ADDRESS.0.0 }
}

/// Whether a list of contracts has the one that keeps the hashes of recent blocks.
pub open spec fn has_history(contracts: Seq<(SystemContract, Address)>) -> bool {
    exists|i: int|
        0 <= i < contracts.len() && (#[trigger] contracts[i]).0 == SystemContract::HistoryStorage
}

/// The contracts that exist on this chain: the one that keeps the hashes of recent blocks, from
/// the fork that has it on.
pub open spec fn chain_contracts(
    before: Seq<(SystemContract, Address)>,
    after: Seq<(SystemContract, Address)>,
) -> bool {
    if has_history(before) {
        after.len() == 1 && after[0].0 == SystemContract::HistoryStorage && after[0].1@
            == history_storage()
    } else {
        after.len() == 0
    }
}

/// Leaves only the system contracts that exist on this chain.
pub fn fix_bsc_system_contracts(fork_config: &mut ForkConfig)
    ensures
        chain_contracts(old(fork_config).system_contracts@, final(fork_config).system_contracts@),
        final(fork_config).activation_time == old(fork_config).activation_time,
        final(fork_config).reports_blob_schedule == old(fork_config).reports_blob_schedule,
{
    let mut has_history_storage = false;
    let mut i: usize = 0;
    let ghost before = fork_config.system_contracts@;
    while i < fork_config.system_contracts.len()
        invariant
            fork_config.system_contracts@ == before,
            fork_config.activation_time == old(fork_config).activation_time,
            fork_config.reports_blob_schedule == old(fork_config).reports_blob_schedule,
            i <= before.len(),
            has_history_storage == exists|j: int|
                0 <= j < i && (#[trigger] before[j]).0 == SystemContract::HistoryStorage,
        decreases before.len() - i,
    {
        if fork_config.system_contracts[i].0 == SystemContract::HistoryStorage {
            has_history_storage = true;
        }
        i += 1;
    }
    fork_config.system_contracts = Vec::new();
    if has_history_storage {
        fork_config.system_contracts.push(
            (SystemContract::HistoryStorage, history_storage_address()),
        );
    }
}

/// What a report becomes on this chain, where the given forks are active at its activation time.
pub open spec fn adjusted(before: ForkConfig, forks: ActiveForks, after: ForkConfig) -> bool {
    &&& chain_contracts(before.system_contracts@, after.system_contracts@)
    &&& after.activation_time == before.activation_time
    &&& after.reports_blob_schedule == (before.reports_blob_schedule && reports_blobs(
        ruling_fork(forks),
    ))
}

/// Adjusts the report of a fork to this chain. `forks` are those that are active at its activation
/// time, at the highest block.
pub fn adjust_fork_config(fork_config: &mut ForkConfig, forks: &ActiveForks)
    ensures
        adjusted(*old(fork_config), *forks, *final(fork_config)),
{
    fix_bsc_system_contracts(fork_config);
    let fork = revm_spec_by_timestamp_and_block_number(forks);
    if !go_bsc_reports_blob_schedule(fork) {
        fork_config.reports_blob_schedule = false;
    }
}

/// Reports the fork configurations of this chain, out of a provider of the chain's specification and
/// the configuration of the virtual machine.
#[derive(Clone, Debug)]
pub struct BscEthConfigHandler<Provider, Evm> {
    /// The provider of the chain's specification.
    pub provider: Provider,
    /// The configuration of the virtual machine.
    pub evm_config: Evm,
}

impl<Provider, Evm> BscEthConfigHandler<Provider, Evm> {
    /// A handler of these parts.
    pub fn new(provider: Provider, evm_config: Evm) -> (r: Self)
        ensures
            r.provider == provider,
            r.evm_config == evm_config,
    {
        BscEthConfigHandler { provider, evm_config }
    }

    /// Adjusts the report that every node makes to this chain. Each fork of the report comes with
    /// the forks that are active at its activation time.
    pub fn config(
        &self,
        config: &mut EthConfig,
        current_forks: &ActiveForks,
        next_forks: &ActiveForks,
        last_forks: &ActiveForks,
    )
        ensures
            adjusted(old(config).current, *current_forks, final(config).current),
            match old(config).next {
                Some(next) => final(config).next matches Some(after) && adjusted(
                    next,
                    *next_forks,
                    after,
                ),
                None => final(config).next is None,
            },
            match old(config).last {
                Some(last) => final(config).last matches Some(after) && adjusted(
                    last,
                    *last_forks,
                    after,
                ),
                None => final(config).last is None,
            },
    {
        adjust_fork_config(&mut config.current, current_forks);
        match &mut config.next {
            Some(next) => {
                adjust_fork_config(next, next_forks);
            },
            None => {},
        }
        match &mut config.last {
            Some(last) => {
                adjust_fork_config(last, last_forks);
            },
            None => {},
        }
    }
}

/// Blob parameters are reported for Cancun, and from Lorentz to Osaka; neither between the two nor
/// after Osaka nor before Cancun.
pub proof fn law_forks_that_report_blobs(fork: BscHardfork)
    ensures
        reports_blobs(fork) <==> age(fork) == age(BscHardfork::Cancun) || age(BscHardfork::Lorentz)
            <= age(fork) <= age(BscHardfork::Osaka),
{
}

/// Adjusting adds nothing: blob parameters are reported only where they were before, and of the
/// contracts at most the one for the block hash history is left, at its own address and only where
/// it was there.
pub proof fn law_adjusting_adds_nothing(before: ForkConfig, forks: ActiveForks, after: ForkConfig)
    requires
        adjusted(before, forks, after),
    ensures
        after.activation_time == before.activation_time,
        after.reports_blob_schedule ==> before.reports_blob_schedule,
        after.system_contracts@.len() <= 1,
        forall|i: int|
            0 <= i < after.system_contracts@.len() ==> (#[trigger] after.system_contracts@[i]).0
                == SystemContract::HistoryStorage && after.system_contracts@[i].1@
                == history_storage(),
        after.system_contracts@.len() == 1 <==> exists|i: int|
            0 <= i < before.system_contracts@.len() && (#[trigger] before.system_contracts@[i]).0
                == SystemContract::HistoryStorage,
        before.reports_blob_schedule && ruling_fork(forks) == BscHardfork::Osaka
            ==> after.reports_blob_schedule,
        ruling_fork(forks) == BscHardfork::Pascal || ruling_fork(forks) == BscHardfork::Mendel
            ==> !after.reports_blob_schedule,
{
}

} // verus!
