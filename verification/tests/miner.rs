use bsc_parlia::block::BscBlock;
use bsc_parlia::engine::{BscBuiltPayload, BuildKind};
use bsc_parlia::header::Header;
use bsc_parlia::miner::{
    announced_td, full_block_targets, import_result, parent_number, submit_timing, BscMiner,
    KeySource, MainWorkWorker, MiningConfig, MiningContext, NewWorkWorker, PeerId, PeerInfo,
    ResultWorkWorker, SkipReason, SubmitDecision, SubmitError, SubmitTiming,
};
use bsc_parlia::primitives::{Address, B256, U256};
use bsc_parlia::snapshot::Snapshot;

fn address(last: u8) -> Address {
    let mut a = Address::zero();
    a.bytes[19] = last;
    a
}

fn hash(b: u8) -> B256 {
    B256 { bytes: [b; 32] }
}

fn header(number: u64, parent: u8) -> Header {
    let h = alloy_consensus::Header {
        number,
        parent_hash: alloy_primitives::B256::new([parent; 32]),
        ..Default::default()
    };
    Header::decode(&alloy_rlp::encode(&h)).unwrap().0
}

#[test]
fn test_sign_recently() {
    let validator1 = address(1);
    let validator2 = address(2);
    let validator3 = address(3);

    let validators = vec![validator1, validator2, validator3];

    let mut snapshot = Snapshot::new(validators.clone(), 10, hash(7), 200, None);

    assert!(!snapshot.sign_recently(validator1));
    assert!(!snapshot.sign_recently(validator2));
    assert!(!snapshot.sign_recently(validator3));

    snapshot.recent_proposers.insert(10, validator1);

    assert!(snapshot.sign_recently(validator1));
    assert!(!snapshot.sign_recently(validator2));
    assert!(!snapshot.sign_recently(validator3));
}

#[test]
fn a_validator_may_seal_its_whole_turn() {
    let validators: Vec<Address> = (1..6).map(address).collect();
    let mut snapshot = Snapshot::new(validators, 100, hash(7), 200, None);
    snapshot.turn_length = Some(2);
    assert_eq!(snapshot.miner_history_check_len(), 5);
    snapshot.recent_proposers.insert(95, address(1));
    snapshot.recent_proposers.insert(100, address(1));
    assert!(!snapshot.sign_recently(address(1)));
    snapshot.recent_proposers.insert(96, address(1));
    assert!(snapshot.sign_recently(address(1)));
}

#[test]
fn a_block_is_made_only_on_a_fresh_and_known_tip() {
    let mut snap = Snapshot::new(vec![address(1), address(2), address(3)], 10, hash(1), 200, None);
    snap.recent_proposers.insert(10, address(2));
    let work = |v: u8, tip: u64, header: Option<Header>, snap: Option<Snapshot>| {
        NewWorkWorker::new(address(v)).try_new_work(tip, 1000, header, snap)
    };
    let skipped = |r: Result<MiningContext, SkipReason>| r.err();
    let head = || Some(header(0, 0));
    let known = || Some(snap.clone());
    assert_eq!(skipped(work(1, 996, head(), known())), Some(SkipReason::MaybeSyncing));
    assert_eq!(skipped(work(1, 997, None, known())), Some(SkipReason::HeaderNotFound));
    assert_eq!(skipped(work(1, 997, head(), None)), Some(SkipReason::NoSnapshot));
    assert_eq!(skipped(work(9, 997, head(), known())), Some(SkipReason::NotAuthorized));
    assert_eq!(skipped(work(2, 997, head(), known())), Some(SkipReason::SignedRecently));
    let ctx = work(1, 997, head(), known()).ok().unwrap();
    assert!(ctx.header.is_none());
    assert_eq!((ctx.parent_header.number, ctx.parent_snapshot.block_number), (0, 10));
}

fn payload(number: u64, parent: u8) -> BscBuiltPayload {
    BscBuiltPayload {
        block: BscBlock {
            header: header(number, parent),
            transactions: Vec::new(),
            ommers: Vec::new(),
            withdrawals: None,
            sidecars: None,
        },
        fees: U256::zero(),
        requests: None,
        build_kind: BuildKind::NormalAttempt,
    }
}

#[test]
fn no_two_blocks_are_sealed_on_one_parent() {
    let mut worker = ResultWorkWorker::new();
    let mut submit = |number, parent| worker.submit_payload(&payload(number, parent), 5);
    assert_eq!(submit(5, 1), SubmitDecision::Stale);
    assert_eq!(submit(6, 1), SubmitDecision::Broadcast);
    assert_eq!(submit(6, 1), SubmitDecision::DoubleSign);
    assert_eq!(submit(6, 2), SubmitDecision::Broadcast);
    assert_eq!(submit(6, 1), SubmitDecision::DoubleSign);
    assert_eq!(submit(7, 1), SubmitDecision::Broadcast);
    for number in 8..108 {
        assert_eq!(submit(number, 1), SubmitDecision::Broadcast);
    }
    assert_eq!(submit(6, 1), SubmitDecision::Broadcast);
}

#[test]
fn a_new_job_takes_the_place_of_the_old_one() {
    let mut worker = MainWorkWorker::new();
    assert_eq!(worker.try_mine_block(1), None);
    assert_eq!(worker.try_mine_block(2), Some(1));
    assert_eq!(worker.abort_running(), Some(2));
    assert_eq!(worker.running_job_handle, None);
    assert_eq!(submit_timing(0), SubmitTiming::Now);
    assert_eq!(submit_timing(30), SubmitTiming::Delayed(30));
}

#[test]
fn a_block_is_announced_with_its_total_difficulty() {
    assert_eq!(parent_number(9), 8);
    assert_eq!(parent_number(0), 0);
    let parent = U256 { limb0: u64::MAX, limb1: 1, limb2: 0, limb3: 0 };
    assert_eq!(announced_td(Some(parent), U256::from_u64(2)), (2u128 << 64) + 1);
    assert_eq!(announced_td(None, U256::from_u64(2)), 2);
}

#[test]
fn the_import_service_must_be_there() {
    assert_eq!(import_result(Some(true)), Ok(()));
    assert_eq!(import_result(Some(false)), Err(SubmitError::ChannelClosed));
    assert_eq!(import_result(None), Err(SubmitError::SenderNotInitialised));
    assert_eq!(
        SubmitError::ChannelClosed.message(),
        "Failed to send mined block to import service due to channel closed"
    );
    assert_eq!(
        SubmitError::SenderNotInitialised.message(),
        "Failed to send mined block due to import sender not initialised"
    );
}

#[test]
fn full_blocks_go_to_the_validators_network() {
    let peer = |b: u8, is_evn: bool| PeerInfo { peer_id: PeerId { bytes: [b; 64] }, is_evn };
    let targets = full_block_targets(&vec![peer(1, true), peer(2, false), peer(3, true)]);
    let ids: Vec<u8> = targets.iter().map(|p| p.peer_id.bytes[0]).collect();
    assert_eq!(ids, vec![1, 3]);
}

fn config() -> MiningConfig {
    MiningConfig {
        enabled: true,
        validator_address: None,
        private_key_hex: None,
        keystore_path: None,
        keystore_password: None,
        use_sparse_trie_state_root: false,
    }
}

#[test]
fn the_signing_key_comes_from_a_file_first() {
    let mut c = config();
    assert!(c.is_mining_enabled());
    assert_eq!(c.key_source().unwrap_err().message(), "No signing key configured");
    c.private_key_hex = Some("aa".to_string());
    assert!(matches!(c.key_source(), Ok(KeySource::Hex(h)) if h == "aa"));
    c.keystore_path = Some("/k".to_string());
    match c.key_source() {
        Ok(KeySource::Keystore { path, password }) => {
            assert_eq!((path.as_str(), password.as_str()), ("/k", ""));
        }
        other => panic!("{other:?}"),
    }
    c.keystore_password = Some("secret".to_string());
    assert!(matches!(
        c.key_source(),
        Ok(KeySource::Keystore { password, .. }) if password == "secret"
    ));
}

#[test]
fn the_account_of_the_key_is_the_one_that_counts() {
    let mut c = config();
    let mut made = |configured| {
        c.validator_address = configured;
        let (miner, mismatch): (BscMiner<&str, u8>, bool) = BscMiner::new(&c, "key", address(1));
        assert_eq!(miner.validator_address, address(1));
        assert_eq!(miner.new_work_worker.validator_address, address(1));
        assert_eq!((miner.signing_key, miner.main_work_worker.running_job_handle), ("key", None));
        mismatch
    };
    assert!(!made(None));
    assert!(!made(Some(Address::zero())));
    assert!(!made(Some(address(1))));
    assert!(made(Some(address(2))));
}

#[test]
fn other_heights_stay_remembered_until_they_have_to_make_room() {
    let mut worker = ResultWorkWorker::new();
    let mut submit = |number, parent| worker.submit_payload(&payload(number, parent), 5);
    for number in 6..106 {
        assert_eq!(submit(number, 1), SubmitDecision::Broadcast);
    }
    for number in 6..106 {
        assert_eq!(submit(number, 1), SubmitDecision::DoubleSign);
    }
    assert_eq!(submit(6, 1), SubmitDecision::DoubleSign);
    assert_eq!(submit(200, 1), SubmitDecision::Broadcast);
    for number in 8..106 {
        assert_eq!(submit(number, 1), SubmitDecision::DoubleSign);
    }
    assert_eq!(submit(6, 1), SubmitDecision::DoubleSign);
    assert_eq!(submit(7, 1), SubmitDecision::Broadcast);
}
