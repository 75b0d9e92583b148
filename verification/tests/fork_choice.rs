use bsc_parlia::fork_choice::BscForkChoice;
use bsc_parlia::header::Header;
use bsc_parlia::primitives::B256;
use bsc_parlia::snapshot::Snapshot;
use bsc_parlia::vote::VoteData;

fn create_header(number: u64, timestamp: u64) -> Header {
    let h = alloy_consensus::Header { number, timestamp, ..Default::default() };
    Header::decode(&alloy_rlp::encode(&h)).unwrap().0
}

fn create_snapshot_with_justified(justified_number: u64, justified_hash: B256) -> Snapshot {
    let mut snapshot = Snapshot::new(vec![], 0, B256::zero(), 0, None);
    snapshot.vote_data = VoteData {
        source_number: 0,
        source_hash: B256::zero(),
        target_number: justified_number,
        target_hash: justified_hash,
    };
    snapshot
}

#[test]
fn test_higher_justified_number_triggers_reorg() {
    let current = create_header(100, 1000);
    let incoming = create_header(99, 1001);

    let current_snap = create_snapshot_with_justified(50, B256::zero());
    let incoming_snap = create_snapshot_with_justified(60, B256::zero());

    let result = BscForkChoice::reorg_needed_with_fast_finality(
        &current,
        &incoming,
        Some(&current_snap),
        Some(&incoming_snap),
        true,
    );

    assert!(result, "Should reorg to chain with higher justified number");
}

#[test]
fn test_equal_justified_falls_back_to_simple_logic() {
    let current = create_header(100, 1000);
    let incoming = create_header(101, 1001);

    let current_snap = create_snapshot_with_justified(50, B256::zero());
    let incoming_snap = create_snapshot_with_justified(50, B256::zero());

    let result = BscForkChoice::reorg_needed_with_fast_finality(
        &current,
        &incoming,
        Some(&current_snap),
        Some(&incoming_snap),
        true,
    );

    assert!(result, "Should reorg to longer chain when justified numbers equal");
}

#[test]
fn test_plato_inactive_uses_simple_logic() {
    let current = create_header(100, 1000);
    let incoming = create_header(99, 1001);

    let current_snap = create_snapshot_with_justified(10, B256::zero());
    let incoming_snap = create_snapshot_with_justified(20, B256::zero());

    let result = BscForkChoice::reorg_needed_with_fast_finality(
        &current,
        &incoming,
        Some(&current_snap),
        Some(&incoming_snap),
        false,
    );

    assert!(!result, "Should not reorg to shorter chain when Plato inactive");
}

#[test]
fn test_same_height_prefers_earlier_timestamp() {
    let current = create_header(100, 1001);
    let incoming = create_header(100, 1000);

    let result = BscForkChoice::reorg_needed_simple(&current, &incoming);
    assert!(result, "Should prefer earlier timestamp at same height");
}

#[test]
fn a_missing_snapshot_stands_for_the_genesis_block() {
    let snap = create_snapshot_with_justified(50, B256 { bytes: [9; 32] });
    assert_eq!(BscForkChoice::extract_justified_numbers(None, Some(&snap)), (50, 0));
    assert_eq!(BscForkChoice::get_justified_number_and_hash(None), (0, B256::zero()));
    assert_eq!(
        BscForkChoice::get_justified_number_and_hash(Some(&snap)),
        (50, B256 { bytes: [9; 32] })
    );
}

#[test]
fn a_chain_is_not_left_for_itself_nor_back() {
    let a = create_header(10, 5);
    let b = create_header(10, 4);
    let c = create_header(11, 9);
    assert!(!BscForkChoice::reorg_needed_with_fast_finality(&a, &a, None, None, true));
    assert!(BscForkChoice::reorg_needed_with_fast_finality(&a, &b, None, None, true));
    assert!(!BscForkChoice::reorg_needed_with_fast_finality(&b, &a, None, None, true));
    assert!(BscForkChoice::reorg_needed_with_fast_finality(&b, &c, None, None, true));
    assert!(BscForkChoice::reorg_needed_with_fast_finality(&a, &c, None, None, true));
}
