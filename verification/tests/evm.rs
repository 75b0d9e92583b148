use bsc_parlia::block::BscBlock;
use bsc_parlia::engine_validator::{BscExecutionData, SealedBlock};
use bsc_parlia::eth_config::{
    fix_bsc_system_contracts, go_bsc_reports_blob_schedule, BscEthConfigHandler, EthConfig,
    ForkConfig, SystemContract,
};
use bsc_parlia::evm_config::{
    BlobParams, BlockRules, BscBlockExecutionCtx, BscEvmConfig, BscNextBlockEnvAttributes,
    MinerHelpers, NextBlockEnvAttributes,
};
use bsc_parlia::evm_error::{
    BlockExecutionError, BlockValidationError, BscBlockExecutionError, BscBlockValidationError,
    ErrorClass, GotExpected,
};
use bsc_parlia::hardforks::{
    revm_spec_by_timestamp_and_block_number, ActiveForks, BscHardfork, ForkCondition, MovableFork,
};
use bsc_parlia::header::Header;
use bsc_parlia::primitives::{Address, B256, U256};

fn hash(b: u8) -> B256 {
    B256 { bytes: [b; 32] }
}

fn header(excess_blob_gas: Option<u64>) -> Header {
    let h = alloy_consensus::Header {
        number: 7,
        timestamp: 1000,
        gas_limit: 30_000_000,
        difficulty: alloy_primitives::U256::from(0x0102),
        base_fee_per_gas: Some(5),
        withdrawals_root: excess_blob_gas.map(|_| Default::default()),
        blob_gas_used: excess_blob_gas.map(|_| 0),
        excess_blob_gas,
        extra_data: vec![1, 2, 3].into(),
        ..Default::default()
    };
    Header::decode(&alloy_rlp::encode(&h)).unwrap().0
}

fn cancun() -> BlobParams {
    BlobParams {
        target_blob_count: 3,
        max_blob_count: 6,
        update_fraction: 3338477,
        min_blob_fee: 1,
        max_blobs_per_tx: 4,
        blob_base_cost: 0,
    }
}

type Config = BscEvmConfig<u8, &'static str, char, bool>;
type Attributes = BscNextBlockEnvAttributes<u8, u16, &'static str>;
type Ctx = BscBlockExecutionCtx<u8, u16, &'static str>;

fn config() -> Config {
    BscEvmConfig::new_with_evm_factory(1, "chain", 'e', true)
}

fn rules() -> BlockRules {
    BlockRules {
        chain_id: 56,
        forks: ActiveForks { fermi: true, cancun: true, ..no_forks() },
        merged: true,
        blob_params: Some(cancun()),
    }
}

#[test]
fn the_difficulty_stands_for_randomness() {
    let env = config().evm_env(&header(Some(10 * 1024 * 1024)), &rules());
    let random = env.block_env.prevrandao.unwrap();
    assert_eq!((random.bytes[30], random.bytes[31], random.bytes[0]), (1, 2, 0));
    assert_eq!(env.block_env.difficulty.limb0, 0);
    assert_eq!(env.block_env.number.limb0, 7);
    assert_eq!(env.block_env.basefee, 5);
    assert_eq!((env.cfg_env.chain_id, env.cfg_env.max_blobs_per_tx), (56, Some(4)));
    assert_eq!(env.cfg_env.spec, BscHardfork::Fermi);
    assert_eq!(env.cfg_env.tx_gas_limit_cap, None);
    let before = BlockRules { merged: false, ..rules() };
    let env = config().evm_env(&header(None), &before);
    assert_eq!(env.block_env.prevrandao, None);
    assert_eq!(env.block_env.difficulty.limb0, 0x0102);
}

#[test]
fn blob_gas_has_its_price() {
    for (excess, price) in [(0, 1), (2_314_057, 1), (2_314_058, 2), (10 * 1024 * 1024, 23)] {
        let env = config().evm_env(&header(Some(excess)), &rules());
        let blob = env.block_env.blob_excess_gas_and_price.unwrap();
        assert_eq!((blob.excess_blob_gas, blob.blob_gasprice), (excess, price));
    }
    let before = BlockRules { forks: ActiveForks { osaka: true, ..no_forks() }, ..rules() };
    let env = config().evm_env(&header(Some(0)), &before);
    assert_eq!(env.block_env.blob_excess_gas_and_price, None);
    assert_eq!(env.cfg_env.max_blobs_per_tx, None);
    assert_eq!(env.cfg_env.tx_gas_limit_cap, Some(16_777_216));
    assert_eq!(env.cfg_env.spec, BscHardfork::Osaka);
}

#[test]
fn the_blob_fee_can_be_computed_at_the_bounds() {
    let price = |fraction: u128, least: u128, excess: u64| {
        let params = BlobParams { update_fraction: fraction, min_blob_fee: least, ..cancun() };
        let rules = BlockRules { blob_params: Some(params), ..rules() };
        let env = config().evm_env(&header(Some(excess)), &rules);
        env.block_env.blob_excess_gas_and_price.unwrap().blob_gasprice
    };
    for excess in [0, 1, 64, 5000, 1 << 40, u64::MAX] {
        assert!(price(64, 1, excess) >= 1);
        assert!(price(64, 1 << 120, excess) >= 1 << 120);
        assert!(price(1 << 120, 64, excess) >= 64);
    }
    assert_eq!(price(64, 1, 64), 2);
    assert_eq!(price(1 << 120, 64, u64::MAX), 64);
}

fn made() -> NextBlockEnvAttributes {
    NextBlockEnvAttributes {
        timestamp: 1003,
        suggested_fee_recipient: Address { bytes: [9; 20] },
        prev_randao: hash(4),
        gas_limit: 55,
        parent_beacon_block_root: Some(hash(2)),
        withdrawals: Some(vec![vec![5]]),
        extra_data: vec![7],
        slot_number: Some(3),
    }
}

#[test]
fn the_next_block_gets_what_its_maker_sets() {
    let attributes: Attributes = BscNextBlockEnvAttributes::build_pending_env(made());
    assert!(attributes.helpers.sinks.is_none() && attributes.state_root_deadline_ms.is_none());
    let without = BlockRules { blob_params: None, ..rules() };
    let env = config().next_evm_env(&header(None), &attributes, &without, Some(10 * 1024 * 1024));
    assert_eq!((env.block_env.number.limb0, env.block_env.timestamp.limb0), (8, 1003));
    assert_eq!(env.block_env.beneficiary, Address { bytes: [9; 20] });
    assert_eq!((env.block_env.prevrandao, env.block_env.gas_limit), (Some(hash(4)), 55));
    assert_eq!(env.block_env.basefee, 0);
    assert_eq!(env.block_env.blob_excess_gas_and_price.unwrap().blob_gasprice, 23);
    let env = config().next_evm_env(&header(None), &attributes, &rules(), None);
    assert_eq!(env.block_env.blob_excess_gas_and_price, None);
}

fn block() -> BscBlock {
    BscBlock {
        header: header(None),
        transactions: vec![vec![1], vec![2]],
        ommers: vec![vec![3]],
        withdrawals: Some(vec![vec![4]]),
        sidecars: None,
    }
}

#[test]
fn a_configuration_has_its_parts() {
    let c = config();
    assert_eq!((*c.chain_spec(), *c.block_assembler()), ("chain", true));
    let factory = c.block_executor_factory();
    assert_eq!((*factory.receipt_builder(), *factory.spec()), (1, "chain"));
    assert_eq!(*factory.evm_factory(), 'e');
}

#[test]
fn an_execution_is_told_what_its_block_says() {
    let sealed = SealedBlock { block: block(), hash: hash(6) };
    let ctx: Ctx = config().context_for_block(&sealed);
    let base = ctx.as_eth_context();
    assert_eq!(base.tx_count_hint, Some(2));
    assert_eq!((&base.ommers, &base.withdrawals), (&vec![vec![3]], &Some(vec![vec![4]])));
    assert_eq!((ctx.header_hash, ctx.is_miner), (Some(hash(6)), false));
    assert_eq!(base.extra_data, vec![1, 2, 3]);
    let mut payload = BscExecutionData::new(block());
    let ctx: Ctx = config().context_for_payload(&mut payload);
    assert_eq!(ctx.header_hash, Some(block().header.hash_slow()));
    assert_eq!(payload.cached_hash(), ctx.header_hash);
    assert_eq!(config().evm_env_for_payload(&payload, &rules()).block_env.gas_limit, 30_000_000);
    assert_eq!(config().tx_iterator_for_payload(&payload), vec![vec![1], vec![2]]);
}

#[test]
fn an_execution_that_makes_a_block_has_no_header_yet() {
    let attributes: Attributes = BscNextBlockEnvAttributes {
        inner: made(),
        helpers: MinerHelpers {
            parent_difflayers: Some(1),
            triedb_prefetcher: Some(2),
            sinks: Some("sinks"),
        },
        state_root_deadline_ms: Some(99),
    };
    let ctx = config().context_for_next_block(hash(1), attributes);
    assert!(ctx.header.is_none() && ctx.header_hash.is_none() && ctx.is_miner);
    assert_eq!((ctx.state_root_deadline_ms, ctx.base.tx_count_hint), (Some(99), None));
    assert_eq!((ctx.base.parent_hash, ctx.base.slot_number), (hash(1), Some(3)));
    assert_eq!(ctx.helpers.parent_difflayers, Some(1));
    let executor = ctx.for_executor();
    assert_eq!(executor.helpers.parent_difflayers, None);
    assert_eq!(executor.helpers.triedb_prefetcher, None);
    assert_eq!(executor.helpers.sinks, Some("sinks"));
    assert_eq!(executor.base.extra_data, vec![7]);
    assert_eq!(executor.base.withdrawals, Some(vec![vec![5]]));
}

fn no_forks() -> ActiveForks {
    let inactive = MovableFork { condition: ForkCondition::Never, active: false };
    ActiveForks {
        mendel: false,
        osaka: false,
        fermi: false,
        maxwell: false,
        lorentz: false,
        pascal: false,
        bohr: false,
        haber_fix: false,
        haber: false,
        cancun: false,
        feynman_fix: false,
        feynman: false,
        kepler: false,
        hertz_fix: false,
        hertz: false,
        plato: false,
        luban: false,
        planck: false,
        gibbs: inactive,
        moran: inactive,
        nano: inactive,
        euler: false,
        bruno: false,
        mirror_sync: false,
        niels: false,
        ramanujan: false,
    }
}

fn at(block: u64) -> MovableFork {
    MovableFork { condition: ForkCondition::Block(block), active: true }
}

#[test]
fn the_latest_active_fork_rules() {
    let ruling = |f: ActiveForks| revm_spec_by_timestamp_and_block_number(&f);
    assert_eq!(ruling(no_forks()), BscHardfork::Frontier);
    assert_eq!(ruling(ActiveForks { ramanujan: true, niels: true, ..no_forks() }), BscHardfork::Niels);
    let old = ActiveForks { euler: true, nano: at(3), ..no_forks() };
    assert_eq!(ruling(old), BscHardfork::Nano);
    assert_eq!(ruling(ActiveForks { planck: true, ..old }), BscHardfork::Planck);
    assert_eq!(ruling(ActiveForks { mendel: true, osaka: true, ..old }), BscHardfork::Mendel);
}

#[test]
fn gibbs_moran_and_nano_stand_in_the_order_of_the_chain() {
    let ruling = |gibbs, moran, nano| {
        revm_spec_by_timestamp_and_block_number(&ActiveForks { gibbs, moran, nano, ..no_forks() })
    };
    assert_eq!(ruling(at(30), at(20), at(10)), BscHardfork::Gibbs);
    assert_eq!(ruling(at(10), at(30), at(20)), BscHardfork::Moran);
    assert_eq!(ruling(at(10), at(20), at(30)), BscHardfork::Nano);
    assert_eq!(ruling(at(5), at(5), at(5)), BscHardfork::Gibbs);
    let never = MovableFork { condition: ForkCondition::Never, active: true };
    assert_eq!(ruling(never, at(0), never), BscHardfork::Moran);
}

fn report(contracts: Vec<SystemContract>) -> ForkConfig {
    ForkConfig {
        activation_time: 12,
        system_contracts: contracts.into_iter().map(|c| (c, Address::zero())).collect(),
        reports_blob_schedule: true,
    }
}

#[test]
fn only_the_history_contract_exists_on_this_chain() {
    let mut with = report(vec![SystemContract::BeaconRoots, SystemContract::HistoryStorage]);
    fix_bsc_system_contracts(&mut with);
    assert_eq!(with.system_contracts.len(), 1);
    let (name, address) = with.system_contracts[0];
    assert_eq!(name, SystemContract::HistoryStorage);
    let expected = [
        0x00, 0x00, 0xF9, 0x08, 0x27, 0xF1, 0xC5, 0x3a, 0x10, 0xcb, 0x7A, 0x02, 0x33, 0x5B, 0x17,
        0x53, 0x20, 0x00, 0x29, 0x35,
    ];
    assert_eq!(address.bytes, expected);
    let mut without = report(vec![SystemContract::BeaconRoots, SystemContract::Other]);
    fix_bsc_system_contracts(&mut without);
    assert!(without.system_contracts.is_empty());
}

#[test]
fn blob_parameters_are_reported_for_some_forks() {
    let reported = [
        BscHardfork::Cancun,
        BscHardfork::Lorentz,
        BscHardfork::Maxwell,
        BscHardfork::Fermi,
        BscHardfork::Osaka,
    ];
    assert!(reported.into_iter().all(go_bsc_reports_blob_schedule));
    let hidden = [BscHardfork::Frontier, BscHardfork::Pascal, BscHardfork::Mendel];
    assert!(!hidden.into_iter().any(go_bsc_reports_blob_schedule));
    let mut config = EthConfig { current: report(vec![]), next: Some(report(vec![])), last: None };
    let fermi = ActiveForks { fermi: true, ..no_forks() };
    let mendel = ActiveForks { mendel: true, ..fermi };
    let handler = BscEthConfigHandler::new("provider", 56u64);
    assert_eq!((handler.provider, handler.evm_config), ("provider", 56));
    handler.config(&mut config, &fermi, &mendel, &mendel);
    assert!(config.current.reports_blob_schedule);
    assert!(!config.next.unwrap().reports_blob_schedule);
    assert!(config.last.is_none());
}

#[test]
fn only_broken_rules_mark_a_block_as_invalid() {
    let future = BscBlockExecutionError::Validation(BscBlockValidationError::FutureBlock {
        block_number: 1,
        hash: hash(1),
    });
    assert_eq!((future.class(), future.marks_block_invalid()), (ErrorClass::Transient, false));
    let broken = BscBlockExecutionError::Validation(BscBlockValidationError::ParliaConsensusError {
        error: "no seal".into(),
    });
    assert_eq!((broken.class(), broken.marks_block_invalid()), (ErrorClass::Permanent, true));
    let internal = BscBlockExecutionError::SnapshotNotFound;
    assert_eq!((internal.class(), internal.marks_block_invalid()), (ErrorClass::Internal, false));
}

fn known_address() -> Address {
    let account: alloy_primitives::Address =
        "0xd8da6bf26964af9d7eed9e03e53415d37aa96045".parse().unwrap();
    Address { bytes: account.into_array() }
}

const KNOWN_ADDRESS: &str = "0xd8dA6BF26964aF9D7eEd9e03E53415D37aA96045";

#[test]
fn broken_rules_are_put_in_words() {
    assert_words(
        BscBlockValidationError::FutureBlock { block_number: 12, hash: hash(0x0f) },
        &format!(
            "block [number=12, hash=0x{}] proposer is in the backoff period",
            "0f".repeat(32)
        ),
    );
    assert_words(BscBlockValidationError::UnexpectedSystemTx, "unexpected system tx");
    assert_words(BscBlockValidationError::UnexpectedNormalTx, "unexpected normal tx after system tx");
    assert_words(BscBlockValidationError::InvalidValidators, "invalid validators in header");
    assert_words(
        BscBlockValidationError::TooLargeAttestationExtraLen { extra_len: 257 },
        "attestation extra length 257 is too large",
    );
    let numbers = || GotExpected { got: 5, expected: 1024 };
    let hashes = || GotExpected { got: hash(1), expected: hash(2) };
    let mismatch = format!(
        "number got 5, expected 1024, hash got 0x{}, expected 0x{}",
        "01".repeat(32),
        "02".repeat(32)
    );
    assert_words(
        BscBlockValidationError::InvalidAttestationTarget {
            block_number: numbers(),
            block_hash: hashes(),
        },
        &format!("invalid attestation target: {mismatch}"),
    );
    assert_words(
        BscBlockValidationError::InvalidAttestationSource {
            block_number: numbers(),
            block_hash: hashes(),
        },
        &format!("invalid attestation source: {mismatch}"),
    );
    assert_words(
        BscBlockValidationError::InvalidAttestationVoteCount(numbers()),
        "invalid attestation vote count: got 5, expected 1024",
    );
    assert_words(
        BscBlockValidationError::InvalidAttestationSignature,
        "invalid attestation signature",
    );
    assert_words(
        BscBlockValidationError::WrongHeaderSigner {
            block_number: 9,
            signer: GotExpected { got: known_address(), expected: Address::zero() },
        },
        &format!(
            "wrong header signer: block number 9, signer got {KNOWN_ADDRESS}, expected 0x{}",
            "0".repeat(40)
        ),
    );
    assert_words(
        BscBlockValidationError::SignerUnauthorized { block_number: 9, proposer: known_address() },
        &format!("proposer {KNOWN_ADDRESS} at height 9 is not authorized"),
    );
    assert_words(
        BscBlockValidationError::SignerOverLimit { proposer: known_address() },
        &format!("proposer {KNOWN_ADDRESS} is over limit"),
    );
    assert_words(
        BscBlockValidationError::InvalidDifficulty {
            difficulty: U256 { limb0: 0, limb1: 1, limb2: 0, limb3: 0 },
        },
        "invalid block difficulty: 18446744073709551616",
    );
    assert_words(
        BscBlockValidationError::InvalidCurrentValidatorsData,
        "invalid current validators data",
    );
    assert_words(
        BscBlockValidationError::InvalidValidatorsElectionInfoData,
        "invalid validators election info data",
    );
    assert_words(
        BscBlockValidationError::MismatchingEpochTurnLengthError,
        "mismatching turn length on epoch block",
    );
    assert_words(
        BscBlockValidationError::ParliaConsensusError { error: "no seal".into() },
        "parlia consensus error: no seal",
    );
}

fn assert_words(e: BscBlockValidationError, words: &str) {
    let future = matches!(e, BscBlockValidationError::FutureBlock { .. });
    assert_eq!(e.message(), words);
    let e = BscBlockExecutionError::Validation(e);
    assert_eq!(e.message(), words);
    match BlockExecutionError::from(e) {
        BlockExecutionError::Validation(BlockValidationError::DepositRequestDecode(text)) => {
            assert!(!future);
            assert_eq!(text, format!("BSC validation error: {words}"));
        }
        BlockExecutionError::Other(e) => {
            assert!(future);
            assert_eq!(e.message(), words);
        }
    }
}

#[test]
fn failed_executions_are_put_in_words() {
    let cases = [
        (BscBlockExecutionError::SnapshotNotFound, "no snapshot found".to_string()),
        (BscBlockExecutionError::EthCallFailed, "eth call failed".to_string()),
        (BscBlockExecutionError::GetTopValidatorsFailed, "get top validators failed".to_string()),
        (
            BscBlockExecutionError::ParentUnknown { hash: hash(0xaa) },
            format!("block parent [hash=0x{}] is not known", "aa".repeat(32)),
        ),
        (BscBlockExecutionError::ApplySnapshotFailed, "apply snapshot failed".to_string()),
        (
            BscBlockExecutionError::UnknownHeader { block_hash: hash(0xbb) },
            format!("unknown header [hash=0x{}]", "bb".repeat(32)),
        ),
        (
            BscBlockExecutionError::VoteAddrNotFoundInSnap { address: known_address() },
            format!("vote address not found: {KNOWN_ADDRESS}"),
        ),
        (BscBlockExecutionError::BLSTInnerError, "blst inner error".to_string()),
        (
            BscBlockExecutionError::ProviderInnerError { error: "gone".into() },
            "provider inner error: gone".to_string(),
        ),
        (
            BscBlockExecutionError::SystemContractUpgradeError,
            "system contract upgrade error".to_string(),
        ),
        (
            BscBlockExecutionError::FailedToSignSystemTransaction { error: "no key".into() },
            "failed to sign system transaction: no key".to_string(),
        ),
        (
            BscBlockExecutionError::GlobalSignerNotInitializedForMiningMode,
            "global signer not initialized for mining mode".to_string(),
        ),
    ];
    for (e, words) in cases {
        assert_eq!(e.message(), words);
        match BlockExecutionError::from(e) {
            BlockExecutionError::Other(e) => assert_eq!(e.message(), words),
            other => panic!("{other:?}"),
        }
    }
}
