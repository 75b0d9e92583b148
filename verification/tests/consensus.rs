use bsc_parlia::consensus::{
    system_address, HeadCandidate, ParliaConsensus, ParliaConsensusErr, TdStep,
};
use bsc_parlia::header::Header;
use bsc_parlia::primitives::{Address, B256, U256};
use bsc_parlia::snapshot::Snapshot;
use bsc_parlia::vote::VoteData;

const EXTRA_VANITY_LEN: usize = 32;
const EXTRA_SEAL_LEN: usize = 65;

fn decoded(h: &alloy_consensus::Header) -> Header {
    Header::decode(&alloy_rlp::encode(h)).unwrap().0
}

fn list(payload: &[u8]) -> Vec<u8> {
    let mut out = Vec::new();
    alloy_rlp::Header { list: true, payload_length: payload.len() }.encode(&mut out);
    out.extend_from_slice(payload);
    out
}

fn alloy_header_with_attestation(
    number: u64,
    source_number: u64,
    target_number: u64,
) -> alloy_consensus::Header {
    let mut data = Vec::new();
    data.extend(alloy_rlp::encode(source_number));
    data.extend(alloy_rlp::encode(alloy_primitives::B256::ZERO));
    data.extend(alloy_rlp::encode(target_number));
    data.extend(alloy_rlp::encode(alloy_primitives::B256::ZERO));
    let mut attestation = Vec::new();
    attestation.extend(alloy_rlp::encode(0u64));
    attestation.extend(alloy_rlp::encode(alloy_primitives::FixedBytes::<96>::ZERO));
    attestation.extend(list(&data));
    attestation.extend(alloy_rlp::encode(alloy_primitives::Bytes::new()));
    let mut extra = vec![0u8; EXTRA_VANITY_LEN];
    extra.extend(list(&attestation));
    extra.extend_from_slice(&[0u8; EXTRA_SEAL_LEN]);
    alloy_consensus::Header { number, extra_data: extra.into(), ..Default::default() }
}

fn header_with_attestation(number: u64, source_number: u64, target_number: u64) -> Header {
    decoded(&alloy_header_with_attestation(number, source_number, target_number))
}

fn snapshot_at(header: &Header, source_number: u64, target_number: u64) -> Snapshot {
    let mut snapshot = Snapshot::new(vec![], header.number, header.hash_slow(), 200, None);
    snapshot.vote_data = VoteData { source_number, target_number, ..VoteData::none() };
    snapshot
}

fn candidate<'a>(
    header: &'a Header,
    td: Option<u64>,
    active: bool,
    snapshot: Option<&'a Snapshot>,
) -> HeadCandidate<'a, 'a> {
    HeadCandidate {
        header,
        td: td.map(U256::from_u64),
        luban_active: active,
        plato_active: active,
        snapshot,
    }
}

#[test]
fn test_canonical_head() {
    let test_cases = [
        ((1, 2, 0, 0), (2, 4, 0, 0), true),
        ((1, 2, 0, 0), (2, 1, 0, 0), false),
        ((1, 2, 0, 0), (2, 2, 0, 0), false),
    ];

    for (current, new, reorg) in test_cases {
        let (curr_number, curr_td, curr_source, curr_target) = current;
        let (new_number, new_td, new_source, new_target) = new;
        let curr_header = header_with_attestation(curr_number, curr_source, curr_target);
        let new_header = header_with_attestation(new_number, new_source, new_target);
        let consensus = ParliaConsensus::new();
        let head = consensus
            .canonical_head(
                candidate(&new_header, Some(new_td), false, None),
                candidate(&curr_header, Some(curr_td), false, None),
            )
            .unwrap();
        if reorg {
            assert_eq!(head.hash_slow(), new_header.hash_slow());
        } else {
            assert_eq!(head.hash_slow(), curr_header.hash_slow());
        }
    }
}

#[test]
fn test_fast_finality_head_choice() {
    let cases = [
        ((10, 20, 8, 9), (11, 22, 9, 10), true),
        ((20, 40, 18, 19), (21, 40, 18, 19), false),
        ((20, 40, 18, 19), (21, 42, 18, 19), true),
        ((30, 60, 28, 29), (31, 62, 27, 28), false),
    ];
    for (curr, inc, reorg) in cases {
        let (current_number, current_td, current_source, current_target) = curr;
        let (incoming_number, incoming_td, incoming_source, incoming_target) = inc;
        let current = header_with_attestation(current_number, current_source, current_target);
        let incoming = header_with_attestation(incoming_number, incoming_source, incoming_target);
        let current_snap = snapshot_at(&current, current_source, current_target);
        let incoming_snap = snapshot_at(&incoming, incoming_source, incoming_target);
        assert_eq!(current_snap.epoch_num, 200);

        let consensus = ParliaConsensus::new();
        let head = consensus
            .canonical_head(
                candidate(&incoming, Some(incoming_td), true, Some(&incoming_snap)),
                candidate(&current, Some(current_td), true, Some(&current_snap)),
            )
            .unwrap();
        if reorg {
            assert_eq!(head.hash_slow(), incoming.hash_slow());
        } else {
            assert_eq!(head.hash_slow(), current.hash_slow());
        }
    }
}

#[test]
fn ties_are_broken_by_time_then_hash_then_coin() {
    let base = alloy_consensus::Header { number: 5, timestamp: 100, ..Default::default() };
    let earlier = decoded(&alloy_consensus::Header { timestamp: 99, ..base.clone() });
    let twin = decoded(&alloy_consensus::Header { gas_limit: 1, ..base.clone() });
    let mut beneficiary = alloy_primitives::Address::ZERO;
    beneficiary.0[0] = 1;
    let rival = decoded(&alloy_consensus::Header { beneficiary, ..base.clone() });
    let current = decoded(&base);
    let consensus = ParliaConsensus::new();
    let choice = |incoming: &Header, coin: bool| {
        consensus
            .head_choice_with_td_by(
                candidate(incoming, Some(7), false, None),
                candidate(&current, Some(7), false, None),
                coin,
            )
            .unwrap()
    };
    assert!(choice(&earlier, false));
    let lower = twin.hash_slow().bytes < current.hash_slow().bytes;
    assert_eq!(choice(&twin, !lower), lower);
    assert!(choice(&rival, true));
    assert!(!choice(&rival, false));
    let tossed = |_| {
        consensus
            .head_choice_with_td(
                candidate(&rival, Some(7), false, None),
                candidate(&current, Some(7), false, None),
            )
            .unwrap()
    };
    let falls = (0..200).map(tossed).filter(|followed| *followed).count();
    assert!(falls > 20 && falls < 180);
    let heads = [candidate(&rival, Some(7), false, None), candidate(&current, Some(7), false, None)];
    let head = consensus.canonical_head_by(heads[0], heads[1], true).unwrap();
    assert_eq!(head.hash_slow(), rival.hash_slow());
    assert!(!consensus.head_choice_with_fast_finality_by(heads[0], heads[1], false).unwrap());
}

#[test]
fn two_heads_are_not_left_for_each_other() {
    let a = header_with_attestation(3, 0, 0);
    let b = decoded(&alloy_consensus::Header {
        gas_limit: 7,
        ..alloy_header_with_attestation(3, 0, 0)
    });
    let consensus = ParliaConsensus::new();
    let left = |from: &Header, to: &Header| {
        consensus
            .head_choice_with_fast_finality(
                candidate(to, Some(9), false, None),
                candidate(from, Some(9), false, None),
            )
            .unwrap()
    };
    assert_ne!(left(&a, &b), left(&b, &a));
}

#[test]
fn an_unknown_total_difficulty_is_named() {
    let current = header_with_attestation(4, 0, 0);
    let incoming = header_with_attestation(5, 0, 0);
    let consensus = ParliaConsensus::new();
    match consensus.canonical_head(
        candidate(&incoming, None, false, None),
        candidate(&current, None, false, None),
    ) {
        Err(ParliaConsensusErr::UnknownTotalDifficulty(hash, number)) => {
            assert_eq!(hash, current.hash_slow());
            assert_eq!(number, 4);
        }
        other => panic!("{other:?}"),
    }
    match consensus.canonical_head(
        candidate(&incoming, None, false, None),
        candidate(&current, Some(1), false, None),
    ) {
        Err(ParliaConsensusErr::UnknownTotalDifficulty(hash, number)) => {
            assert_eq!(hash, incoming.hash_slow());
            assert_eq!(number, 5);
        }
        other => panic!("{other:?}"),
    }
}

#[test]
fn a_higher_justified_block_beats_any_total_difficulty() {
    let current = header_with_attestation(20, 18, 19);
    let incoming = header_with_attestation(19, 18, 19);
    let current_snap = snapshot_at(&current, 16, 17);
    let incoming_snap = snapshot_at(&incoming, 17, 18);
    let consensus = ParliaConsensus::new();
    let inc = candidate(&incoming, None, true, Some(&incoming_snap));
    let cur = candidate(&current, Some(u64::MAX), true, Some(&current_snap));
    assert!(consensus.head_choice_with_fast_finality(inc, cur).unwrap());
    assert!(!consensus.head_choice_with_fast_finality(cur, inc).unwrap());
}

#[test]
fn justified_and_finalized_follow_the_forks() {
    let header = header_with_attestation(20, 18, 19);
    let snap = snapshot_at(&header, 18, 19);
    let consensus = ParliaConsensus::new();
    let mut head = candidate(&header, None, true, Some(&snap));
    assert_eq!(consensus.get_justified_number_and_hash(head), Some((19, B256::zero())));
    assert_eq!(consensus.get_finalized_number_and_hash(head), Some((18, B256::zero())));
    head.plato_active = false;
    assert_eq!(consensus.get_justified_number_and_hash(head), Some((19, B256::zero())));
    assert_eq!(consensus.get_finalized_number_and_hash(head), None);
    head.luban_active = false;
    assert_eq!(consensus.get_justified_number_and_hash(head), None);
    head.luban_active = true;
    head.snapshot = None;
    assert_eq!(consensus.get_justified_number_and_hash(head), None);
}

#[test]
fn remembered_total_difficulties_are_found_again() {
    let mut consensus = ParliaConsensus::new();
    let hash = B256 { bytes: [7; 32] };
    assert!(consensus.cached_header_td(hash).is_none());
    assert!(consensus.remember_header_td(hash, Some(U256::from_u64(5))));
    let found = consensus.cached_header_td(hash).unwrap().unwrap();
    assert_eq!((found.limb0, found.limb1, found.limb2, found.limb3), (5, 0, 0, 0));
    let unknown = B256 { bytes: [8; 32] };
    assert!(consensus.remember_header_td(unknown, None));
    assert!(consensus.cached_header_td(unknown).unwrap().is_none());
    for i in 0..128u8 {
        let mut bytes = [0u8; 32];
        bytes[0] = i;
        bytes[31] = 1;
        consensus.remember_header_td(B256 { bytes }, None);
    }
    assert!(consensus.cached_header_td(hash).is_none());
}

#[test]
fn the_total_difficulty_is_computed_from_the_parent() {
    let header = decoded(&alloy_consensus::Header {
        number: 9,
        difficulty: alloy_primitives::U256::from(2u64),
        ..Default::default()
    });
    match ParliaConsensus::incoming_td_step(&header, None) {
        TdStep::AskParent(number, hash) => {
            assert_eq!(number, 8);
            assert_eq!(hash, header.parent_hash);
        }
        other => panic!("{other:?}"),
    }
    assert!(matches!(ParliaConsensus::incoming_td_step(&header, Some(None)), TdStep::Done(None)));
    let carry = U256 { limb0: u64::MAX, limb1: 3, limb2: 0, limb3: 0 };
    let sum = ParliaConsensus::td_from_parent(&header, Some(carry)).unwrap();
    assert_eq!((sum.limb0, sum.limb1, sum.limb2, sum.limb3), (1, 4, 0, 0));
    assert!(ParliaConsensus::td_from_parent(&header, None).is_none());
}

#[test]
fn the_system_address_is_all_ones_but_the_last_bit() {
    let mut bytes = [0xffu8; 20];
    bytes[19] = 0xfe;
    assert_eq!(system_address(), Address { bytes });
}

#[test]
fn a_header_is_hashed_over_its_encoding() {
    let alloy = alloy_header_with_attestation(12, 3, 4);
    let header = decoded(&alloy);
    assert_eq!(header.hash_slow().bytes, alloy.hash_slow().0);
    assert_eq!(header.extra_data, alloy.extra_data.to_vec());
    assert!(Header::decode(&[0x80]).is_err());
}

#[test]
fn the_total_difficulty_used_longest_ago_makes_room() {
    let mut consensus = ParliaConsensus::new();
    let hash = |i: u8| B256 { bytes: [i; 32] };
    for i in 0..128u8 {
        assert!(consensus.remember_header_td(hash(i), Some(U256::from_u64(i as u64))));
    }
    assert!(consensus.remember_header_td(hash(5), Some(U256::from_u64(1000))));
    assert!(consensus.cached_header_td(hash(0)).is_some());
    assert!(consensus.remember_header_td(hash(200), None));
    assert!(consensus.cached_header_td(hash(1)).is_none());
    assert_eq!(consensus.cached_header_td(hash(5)).unwrap().unwrap().limb0, 1000);
    for i in [0u8, 2, 3, 127] {
        assert_eq!(consensus.cached_header_td(hash(i)).unwrap().unwrap().limb0, i as u64);
    }
}

#[test]
fn consensus_errors_say_what_is_wrong() {
    let said = |e: ParliaConsensusErr| e.message();
    assert_eq!(said(ParliaConsensusErr::Provider("no database".into())), "no database");
    assert_eq!(said(ParliaConsensusErr::HeadHashNotFound), "Head block hash not found");
    assert_eq!(
        said(ParliaConsensusErr::ForkChoiceUpdateError("late".into())),
        "Fork choice update error: late"
    );
    assert_eq!(
        said(ParliaConsensusErr::UnknownTotalDifficulty(B256 { bytes: [0xab; 32] }, 120)),
        format!("Unknown total difficulty for block 0x{} at number 120", "ab".repeat(32))
    );
    assert_eq!(said(ParliaConsensusErr::internal("closed".into())), "closed");
}
