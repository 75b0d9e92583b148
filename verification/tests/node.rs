use bsc_parlia::cli::{BlsKeySource, BscCliArgs};
use bsc_parlia::evm_config::BlobParams;
use bsc_parlia::hardforks::ForkCondition;
use bsc_parlia::memory::memory_usage;
use bsc_parlia::miner::{MiningConfig, PeerId};
use bsc_parlia::primitives::{Address, B256, U256};
use bsc_parlia::registry::{
    broadcast_votes, on_armed_signal, peers_to_mark, register_peer, spawn_evn_refresh_listener,
    ArmedSignal, BscProtocolHandler, NormalizedPeer, OnNotSupported, PeerRegistry, RefreshStep,
};
use bsc_parlia::rpc_miner::{BscEthExtApiImpl, BscMinerApiImpl, MinerSettings};
use bsc_parlia::shared::{
    found_header, get_block_import_sender, get_bsc_consensus, get_header_by_hash,
    get_header_by_hash_provider, get_header_by_number, get_header_by_number_provider,
    get_local_peer_id_or_default, get_snapshot_provider, set_block_import_sender,
    set_bsc_consensus, set_header_provider, set_local_peer_id, set_snapshot_provider,
    HeaderProviderError, OnceSlot, Shared,
};
use bsc_parlia::text::decimal;
use bsc_parlia::tx_pool::{BlacklistedAddressError, BscPoolBuilder, BscTxValidator, TxVerdict};
use bsc_parlia::vote::VoteEnvelope;

fn peer(b: u8) -> PeerId {
    PeerId { bytes: [b; 64] }
}

fn address(b: u8) -> Address {
    Address { bytes: [b; 20] }
}

#[test]
fn peers_with_closed_channels_are_dropped() {
    let mut registry = PeerRegistry::new();
    for b in 1..5 {
        register_peer(&mut registry, peer(b), b);
    }
    register_peer(&mut registry, peer(2), 20);
    assert_eq!(registry.peers(), vec![peer(1), peer(2), peer(3), peer(4)]);
    let sent = std::cell::RefCell::new(Vec::new());
    broadcast_votes(&mut registry, &Vec::new(), |tx: &u8, votes: &Vec<VoteEnvelope>| {
        sent.borrow_mut().push((*tx, votes.len()));
        *tx % 2 == 1
    });
    assert_eq!(sent.into_inner(), vec![(1, 0), (20, 0), (3, 0), (4, 0)]);
    assert_eq!(registry.peers(), vec![peer(1), peer(3)]);
}

#[test]
fn peers_that_are_registered_on_the_chain_are_marked() {
    let known = |b: u8, id: &str| NormalizedPeer { peer: peer(b), node_id: id.to_string() };
    let peers = vec![known(1, "aa"), known(2, "bb"), known(3, "cc")];
    let ids = vec!["cc".to_string(), "aa".to_string()];
    assert_eq!(peers_to_mark(&peers, &ids), vec![peer(1), peer(3)]);
    assert!(peers_to_mark(&peers, &Vec::new()).is_empty());
}

#[test]
fn marks_are_refreshed_once_the_network_is_armed() {
    assert_eq!(on_armed_signal(ArmedSignal::Armed), RefreshStep::Refresh(60));
    assert_eq!(on_armed_signal(ArmedSignal::Closed), RefreshStep::Stop);
    assert_eq!(on_armed_signal(ArmedSignal::Lagged), RefreshStep::Wait);
    let mut installed = false;
    assert!(spawn_evn_refresh_listener(&mut installed));
    assert!(!spawn_evn_refresh_listener(&mut installed));
}

#[test]
fn peers_without_the_protocol_are_kept() {
    let incoming = BscProtocolHandler.on_incoming().unwrap();
    assert_eq!(incoming.on_unsupported_by_peer(), OnNotSupported::KeepAlive);
    let outgoing = BscProtocolHandler.on_outgoing().unwrap();
    assert_eq!(outgoing.on_unsupported_by_peer(), OnNotSupported::KeepAlive);
}

#[test]
fn the_pool_takes_what_keeps_the_rules_of_the_chain() {
    let mut v = BscTxValidator::new((), false, Some(100));
    assert_eq!(v.validate_transaction(true, u64::MAX, 0, Some(5)), TxVerdict::Blacklisted);
    assert_eq!(v.validate_transaction(false, 16_777_217, 9, None), TxVerdict::Delegate);
    v.on_new_head_block(99);
    assert_eq!(v.validate_transaction(false, 16_777_217, 9, None), TxVerdict::Delegate);
    v.on_new_head_block(100);
    assert_eq!(v.validate_transaction(false, 16_777_217, 9, None), TxVerdict::GasLimitTooHigh);
    assert_eq!(v.validate_transaction(false, 16_777_216, 4, Some(5)), TxVerdict::Underpriced);
    assert_eq!(v.validate_transaction(false, 16_777_216, 5, Some(5)), TxVerdict::Delegate);
    v.on_new_head_block(99);
    assert_eq!(v.validate_transaction(false, 16_777_217, 9, None), TxVerdict::Delegate);
    assert!(BlacklistedAddressError().is_bad_transaction());
    assert_eq!(BlacklistedAddressError().message(), "sender or recipient is blacklisted");
}

#[test]
fn the_pool_caches_the_blobs_of_two_epochs() {
    assert_eq!(BscPoolBuilder::blob_cache_size(Some(7), None), Some(7));
    assert_eq!(BscPoolBuilder::blob_cache_size(None, None), Some(192));
    let params = BlobParams {
        target_blob_count: 6,
        max_blob_count: 9,
        update_fraction: 5_007_716,
        min_blob_fee: 1,
        max_blobs_per_tx: 9,
        blob_base_cost: 0,
    };
    assert_eq!(BscPoolBuilder::blob_cache_size(None, Some(params)), Some(384));
    let schedule = BscPoolBuilder::osaka_schedule;
    assert_eq!(schedule(ForkCondition::Timestamp(5), 5), (Some(5), true));
    assert_eq!(schedule(ForkCondition::Timestamp(5), 4), (Some(5), false));
    assert_eq!(schedule(ForkCondition::Block(5), 9), (None, false));
}

fn args() -> BscCliArgs {
    BscCliArgs {
        mining_enabled: false,
        mining_dev: false,
        private_key: None,
        keystore_path: None,
        keystore_password: None,
        genesis_file: None,
        dev_mode: false,
        genesis_hash: None,
        bls_keystore_path: None,
        bls_keystore_password: None,
        bls_private_key: None,
    }
}

fn base() -> MiningConfig {
    MiningConfig {
        enabled: false,
        validator_address: Some(address(1)),
        private_key_hex: Some("base".to_string()),
        keystore_path: None,
        keystore_password: None,
        use_sparse_trie_state_root: true,
    }
}

#[test]
fn the_command_line_comes_before_the_environment() {
    let plain = args().apply_to(base(), Some(address(2)));
    assert_eq!((plain.enabled, plain.validator_address), (false, Some(address(1))));
    assert_eq!(plain.private_key_hex.as_deref(), Some("base"));
    let mut a = args();
    a.mining_enabled = true;
    a.private_key = Some("mine".to_string());
    a.keystore_path = Some("/k".to_string());
    let c = a.apply_to(base(), Some(address(2)));
    assert_eq!((c.enabled, c.validator_address), (true, Some(address(2))));
    assert_eq!(c.private_key_hex.as_deref(), Some("mine"));
    assert_eq!(c.keystore_path.as_deref(), Some("/k"));
    assert_eq!(a.apply_to(base(), None).validator_address, Some(address(1)));
}

#[test]
fn the_key_for_votes_comes_from_a_file_first() {
    let mut a = args();
    assert!(matches!(a.bls_key_source(), BlsKeySource::Environment));
    a.bls_private_key = Some("ff".to_string());
    assert!(matches!(a.bls_key_source(), BlsKeySource::Hex(h) if h == "ff"));
    a.bls_keystore_path = Some("/b".to_string());
    assert!(matches!(
        a.bls_key_source(),
        BlsKeySource::Keystore { path, password } if path == "/b" && password.is_empty()
    ));
}

fn settings() -> MinerSettings {
    MinerSettings {
        mining_enabled: false,
        extra: None,
        gas_tip: None,
        gas_limit: None,
        etherbase: None,
        recommit_interval_ms: None,
        mev_running: false,
        builders: Vec::new(),
    }
}

#[test]
fn the_miner_is_controlled_from_afar() {
    let mut s = settings();
    let api = BscMinerApiImpl::new();
    api.start(&mut s);
    assert!(s.mining_enabled);
    api.stop(&mut s);
    assert!(!s.mining_enabled);
    assert!(api.set_gas_price(&mut s, U256::from_u64(7)));
    assert!(api.set_gas_limit(&mut s, U256 { limb0: 1, limb1: 1, limb2: 0, limb3: 0 }));
    assert_eq!((s.gas_tip, s.gas_limit), (Some(7), Some(u64::MAX)));
    api.set_recommit_interval(&mut s, 250);
    assert_eq!(s.recommit_interval_ms, Some(250));
    api.start_mev(&mut s);
    assert!(api.mev_running(&s));
    api.stop_mev(&mut s);
    assert!(!api.mev_running(&s));
    api.add_builder(&mut s, address(1));
    api.add_builder(&mut s, address(2));
    api.add_builder(&mut s, address(1));
    api.remove_builder(&mut s, &address(1));
    assert_eq!(s.builders, vec![address(2)]);
}

#[test]
fn extra_data_has_at_most_32_bytes() {
    let mut s = settings();
    let api = BscMinerApiImpl::new();
    assert!(matches!(api.set_extra(&mut s, "a".repeat(32)), Ok(true)));
    assert_eq!(s.extra, Some(vec![b'a'; 32]));
    let error = api.set_extra(&mut s, "b".repeat(33)).unwrap_err();
    assert_eq!((error.code, error.message), (-32000, "extra data too long (max 32 bytes)"));
    assert_eq!(s.extra, Some(vec![b'a'; 32]));
    assert!(api.set_extra(&mut s, "\u{e9}".repeat(17)).is_err());
    assert!(api.set_extra(&mut s, "\u{e9}".to_string()).is_ok());
    assert_eq!(s.extra, Some(vec![0xc3, 0xa9]));
}

#[test]
fn rewards_go_to_the_account_that_was_set() {
    let mut s = settings();
    let api = BscEthExtApiImpl::new(Some(address(1)));
    assert_eq!(api.coinbase(&s), address(1));
    assert_eq!(BscEthExtApiImpl::new(None).coinbase(&s), Address::zero());
    BscMinerApiImpl::new().set_etherbase(&mut s, address(2));
    assert_eq!(api.coinbase(&s), address(2));
    assert!(api.health(Some(1)));
    assert!(!api.health(None));
}

#[test]
fn a_slot_is_filled_once() {
    let mut slot = OnceSlot::new();
    assert!(slot.get().is_none());
    assert_eq!(slot.set(1), Ok(()));
    assert_eq!(slot.set(2), Err(2));
    assert_eq!(slot.get(), Some(&1));
}

#[test]
fn header_readers_are_set_together() {
    let mut shared: Shared<(), &str, u8, u8, ()> = Shared::new();
    assert_eq!(set_header_provider(&mut shared, 1, 2), Ok(()));
    assert_eq!(
        set_header_provider(&mut shared, 3, 4),
        Err(HeaderProviderError::HashProvider)
    );
    assert_eq!(get_header_by_hash_provider(&shared), Some(&1));
    assert_eq!(get_header_by_number_provider(&shared), Some(&2));
    let mut half: Shared<(), &str, u8, u8, ()> = Shared::new();
    assert!(half.header_by_number.set(9).is_ok());
    assert_eq!(
        set_header_provider(&mut half, 3, 4),
        Err(HeaderProviderError::NumberProvider)
    );
    assert_eq!((half.header_by_hash.get(), half.header_by_number.get()), (Some(&3), Some(&9)));
    assert_eq!(HeaderProviderError::HashProvider.message(), "Failed to set hash provider");
    assert_eq!(HeaderProviderError::NumberProvider.message(), "Failed to set number provider");
}

#[test]
fn what_the_node_shares_is_set_once() {
    let mut shared: Shared<u8, &str, (), (), char> = Shared::new();
    assert_eq!(get_local_peer_id_or_default(&shared), PeerId::zero());
    assert_eq!(set_local_peer_id(&mut shared, peer(3)), Ok(()));
    assert_eq!(set_local_peer_id(&mut shared, peer(4)), Err(peer(4)));
    assert_eq!(get_local_peer_id_or_default(&shared), peer(3));
    assert!(get_bsc_consensus(&shared).is_none());
    assert_eq!(set_bsc_consensus(&mut shared, "parlia"), Ok(()));
    assert_eq!(set_bsc_consensus(&mut shared, "other"), Err("other"));
    assert_eq!(get_bsc_consensus(&shared), Some(&"parlia"));
    assert_eq!(set_snapshot_provider(&mut shared, 1), Ok(()));
    assert_eq!(set_snapshot_provider(&mut shared, 2), Err(2));
    assert_eq!(get_snapshot_provider(&shared), Some(&1));
    assert_eq!(set_block_import_sender(&mut shared, 'a'), Ok(()));
    assert_eq!(set_block_import_sender(&mut shared, 'b'), Err('b'));
    assert_eq!(get_block_import_sender(&shared), Some(&'a'));
}

type ByHash = fn(&B256) -> Option<u8>;
type ByNumber = fn(u64) -> Option<u8>;

#[test]
fn headers_are_read_through_the_readers() {
    let mut shared: Shared<(), (), ByHash, ByNumber, ()> = Shared::new();
    assert_eq!(get_header_by_hash(&shared, &B256::zero()), None);
    assert_eq!(get_header_by_number(&shared, 7), None);
    let by_hash: ByHash = |h| Some(h.bytes[0]);
    let by_number: ByNumber = |n| if n < 100 { Some(n as u8) } else { None };
    assert!(set_header_provider(&mut shared, by_hash, by_number).is_ok());
    assert_eq!(get_header_by_hash(&shared, &B256 { bytes: [5; 32] }), Some(5));
    assert_eq!(get_header_by_number(&shared, 7), Some(7));
    assert_eq!(get_header_by_number(&shared, 100), None);
}

#[test]
fn a_header_that_cannot_be_read_is_not_there() {
    assert_eq!(found_header(Ok::<Option<u8>, ()>(Some(1))), Some(1));
    assert_eq!(found_header(Ok::<Option<u8>, ()>(None)), None);
    assert_eq!(found_header(Err::<Option<u8>, ()>(())), None);
}

#[test]
fn memory_is_read_from_the_status_of_the_process() {
    let status = "Name:\treth\nVmPeak:\t  999999 kB\nVmSize:\t 4194304 kB\nVmRSS:\t  2049 kB\n";
    assert_eq!(memory_usage(status), (2, 4096));
    assert_eq!(memory_usage("VmRSS:\nVmSize: +2048"), (0, 2));
    assert_eq!(memory_usage("VmRSS: 12x kB\n xVmSize: 2048"), (0, 0));
    assert_eq!(memory_usage("VmRSS: 18446744073709551615\nVmSize: 18446744073709551616"), (u64::MAX / 1024, 0));
    assert_eq!(memory_usage("VmRSS: 4096\r\nVmRSS: x\r\n"), (0, 0));
    assert_eq!(memory_usage(""), (0, 0));
}

#[test]
fn numbers_are_written_in_decimal() {
    assert_eq!(decimal(0), "0");
    assert_eq!(decimal(1_203_456_789), "1203456789");
    assert_eq!(decimal(u64::MAX), "18446744073709551615");
}
