use alloy_consensus::Transaction;
use alloy_eips::eip2718::Encodable2718;
use alloy_rpc_types_engine::ExecutionPayload as Alloy;
use bsc_parlia::block::BscBlock;
use bsc_parlia::engine::{BscPayloadServiceBuilder, BuildKind, ProviderSearch, ProviderWait};
use bsc_parlia::engine_validator::{BscEngineValidator, BscExecutionData, PayloadError};
use bsc_parlia::header::Header;
use bsc_parlia::new_payload::{
    block_to_new_payload, fork_choice_step, fork_choice_version, message_for, new_payload_step,
    BodyTransaction, CancunFields, ConsensusBlock, EngineApiMessageVersion, ExecutionPayload,
    ExecutionPayloadV1, ExecutionPayloadV2, ExecutionPayloadV3, NewPayload, NewPayloadParams,
    NewPayloadStep, PayloadStatus, WaitStep,
};
use bsc_parlia::primitives::{Address, B256, U256};

fn hash(b: u8) -> B256 {
    B256 { bytes: [b; 32] }
}

fn block() -> BscBlock {
    let h = alloy_consensus::Header {
        number: 7,
        gas_used: 5,
        gas_limit: 6,
        timestamp: 8,
        parent_hash: alloy_primitives::B256::new([3; 32]),
        ..Default::default()
    };
    BscBlock {
        header: Header::decode(&alloy_rlp::encode(&h)).unwrap().0,
        transactions: vec![vec![1]],
        ommers: Vec::new(),
        withdrawals: Some(Vec::new()),
        sidecars: None,
    }
}

#[test]
fn a_payload_says_what_its_block_says() {
    let mut data = BscExecutionData::from(block());
    assert_eq!((data.block_number(), data.timestamp(), data.transaction_count()), (7, 8, 1));
    assert_eq!((data.gas_used(), data.gas_limit(), data.parent_hash()), (5, 6, hash(3)));
    assert!(data.withdrawals().is_none() && data.block_access_list().is_none());
    assert!(data.parent_beacon_block_root().is_none() && data.slot_number().is_none());
    assert_eq!(data.cached_hash(), None);
    assert_eq!(data.block_hash(), block().header.hash_slow());
    assert_eq!(data.cached_hash(), Some(block().header.hash_slow()));
    let mut given = BscExecutionData::new_with_hash(block(), hash(9));
    assert_eq!(given.block_hash_cached(), hash(9));
    assert_eq!(given.clone().into_block().header.number, 7);
}

#[test]
fn a_wrong_hash_is_found_where_hashes_are_recomputed() {
    let validator = BscEngineValidator::new("chain");
    let right = block().header.hash_slow();
    for recompute in [false, true] {
        let sealed = validator.convert_payload_to_block(BscExecutionData::new(block()), recompute);
        assert_eq!(sealed.unwrap().hash, right);
        let known = BscExecutionData::new_with_hash(block(), right);
        assert_eq!(validator.convert_payload_to_block(known, recompute).unwrap().hash, right);
    }
    let wrong = || BscExecutionData::new_with_hash(block(), hash(9));
    assert_eq!(validator.convert_payload_to_block(wrong(), false).unwrap().hash, hash(9));
    match validator.convert_payload_to_block(wrong(), true) {
        Err(PayloadError::BlockHash { execution, consensus }) => {
            assert_eq!((execution, consensus), (right, hash(9)));
        }
        other => panic!("{other:?}"),
    }
}

fn v1() -> ExecutionPayloadV1 {
    ExecutionPayloadV1 {
        parent_hash: hash(1),
        fee_recipient: Address::zero(),
        state_root: hash(2),
        receipts_root: hash(3),
        logs_bloom: Vec::new(),
        prev_randao: hash(4),
        block_number: 7,
        gas_limit: 8,
        gas_used: 9,
        timestamp: 10,
        extra_data: Vec::new(),
        base_fee_per_gas: U256::zero(),
        block_hash: hash(5),
        transactions: Vec::new(),
    }
}

fn v2() -> ExecutionPayloadV2 {
    ExecutionPayloadV2 { payload_inner: v1(), withdrawals: vec![vec![1]] }
}

fn v3() -> ExecutionPayload {
    ExecutionPayload::V3(ExecutionPayloadV3 {
        payload_inner: v2(),
        blob_gas_used: 1,
        excess_blob_gas: 2,
    })
}

fn message(payload: ExecutionPayload, prague: Option<B256>, optimism: bool, bsc: bool) -> NewPayload {
    let cancun =
        CancunFields { versioned_hashes: vec![hash(6)], parent_beacon_block_root: hash(7) };
    message_for(payload, Some(cancun), prague, Some(hash(8)), optimism, bsc)
}

#[test]
fn this_chain_is_sent_the_first_version() {
    let payloads = [ExecutionPayload::V1(v1()), ExecutionPayload::V2(v2()), v3()];
    for payload in payloads {
        let m = message(payload, Some(hash(1)), false, true);
        assert_eq!(m.version, EngineApiMessageVersion::V1);
        assert!(matches!(m.params, NewPayloadParams::V1(p) if p.block_number == 7));
    }
}

#[test]
fn other_chains_are_sent_the_version_of_their_block() {
    let m = message(ExecutionPayload::V1(v1()), None, false, false);
    assert_eq!(m.version, EngineApiMessageVersion::V1);
    let m = message(ExecutionPayload::V2(v2()), None, false, false);
    assert_eq!(m.version, EngineApiMessageVersion::V2);
    assert!(matches!(m.params, NewPayloadParams::V2 { withdrawals, .. } if withdrawals.len() == 1));
    let m = message(v3(), None, true, false);
    assert_eq!(m.version, EngineApiMessageVersion::V3);
    assert!(matches!(m.params, NewPayloadParams::V3 { .. }));
    let m = message(v3(), Some(hash(9)), false, false);
    assert_eq!(m.version, EngineApiMessageVersion::V4);
    assert!(matches!(
        m.params,
        NewPayloadParams::V4 { requests_hash, .. } if requests_hash == hash(9)
    ));
    let m = message(v3(), Some(hash(9)), true, false);
    assert_eq!(m.version, EngineApiMessageVersion::V4);
    assert!(matches!(
        m.params,
        NewPayloadParams::RollupV4 { withdrawals_root, .. } if withdrawals_root == hash(8)
    ));
}

fn consensus_block(root: Option<B256>, withdrawals: Option<Vec<Vec<u8>>>) -> ConsensusBlock {
    let blob = |hashes: Vec<B256>| Some(hashes);
    let tx = |b: u8, blob_versioned_hashes| BodyTransaction {
        encoded: vec![b],
        blob_versioned_hashes,
    };
    ConsensusBlock {
        encoded_header: vec![0xc0],
        parent_hash: hash(1),
        beneficiary: Address::zero(),
        state_root: hash(2),
        receipts_root: hash(3),
        logs_bloom: vec![0; 256],
        mix_hash: hash(4),
        number: 7,
        gas_limit: 8,
        gas_used: 9,
        timestamp: 10,
        extra_data: vec![5],
        base_fee_per_gas: None,
        withdrawals_root: Some(hash(8)),
        blob_gas_used: Some(131_072),
        excess_blob_gas: None,
        parent_beacon_block_root: root,
        requests_hash: Some(hash(9)),
        transactions: vec![
            tx(1, None),
            tx(2, blob(vec![hash(11), hash(12)])),
            tx(3, blob(vec![hash(13)])),
        ],
        withdrawals,
    }
}

#[test]
fn a_block_becomes_the_payload_that_its_fields_ask_for() {
    let (payload, sidecar) =
        ExecutionPayload::from_block_slow(consensus_block(Some(hash(6)), None));
    match payload {
        ExecutionPayload::V3(v3) => {
            assert_eq!((v3.blob_gas_used, v3.excess_blob_gas), (131_072, 0));
            assert!(v3.payload_inner.withdrawals.is_empty());
            let v1 = v3.payload_inner.payload_inner;
            let empty_list = alloy_primitives::keccak256([0xc0]);
            assert_eq!(v1.block_hash.bytes, empty_list.0);
            assert_eq!(v1.transactions, vec![vec![1], vec![2], vec![3]]);
            assert_eq!((v1.prev_randao, v1.base_fee_per_gas.limb0), (hash(4), 0));
        }
        other => panic!("{other:?}"),
    }
    let cancun = sidecar.cancun.unwrap();
    assert_eq!(cancun.versioned_hashes, vec![hash(11), hash(12), hash(13)]);
    assert_eq!((cancun.parent_beacon_block_root, sidecar.prague), (hash(6), Some(hash(9))));
    let (payload, sidecar) =
        ExecutionPayload::from_block_slow(consensus_block(None, Some(vec![vec![7]])));
    assert!(matches!(payload, ExecutionPayload::V2(v2) if v2.withdrawals == vec![vec![7]]));
    assert!(sidecar.cancun.is_none() && sidecar.prague.is_none());
    let (payload, _) = ExecutionPayload::from_block_slow(consensus_block(None, None));
    assert!(matches!(payload, ExecutionPayload::V1(v1) if v1.block_number == 7));
}

#[test]
fn a_block_is_sent_in_the_version_of_its_chain() {
    let version = |root, optimism, bsc| {
        block_to_new_payload(consensus_block(root, None), optimism, bsc).version
    };
    assert_eq!(version(Some(hash(6)), false, true), EngineApiMessageVersion::V1);
    assert_eq!(version(Some(hash(6)), false, false), EngineApiMessageVersion::V4);
    assert_eq!(version(None, false, false), EngineApiMessageVersion::V1);
    let m = block_to_new_payload(consensus_block(Some(hash(6)), None), true, false);
    assert!(matches!(
        m.params,
        NewPayloadParams::RollupV4 { withdrawals_root, .. } if withdrawals_root == hash(8)
    ));
    let mut before_prague = consensus_block(Some(hash(6)), None);
    before_prague.requests_hash = None;
    let m = block_to_new_payload(before_prague, true, false);
    assert_eq!(m.version, EngineApiMessageVersion::V3);
}

#[test]
fn a_verdict_of_the_engine_is_waited_for() {
    assert_eq!(fork_choice_step(PayloadStatus::Valid), WaitStep::Done);
    assert_eq!(fork_choice_step(PayloadStatus::Invalid), WaitStep::GiveUp);
    assert_eq!(fork_choice_step(PayloadStatus::Syncing), WaitStep::RetryAfter(200));
    assert_eq!(fork_choice_step(PayloadStatus::Accepted), WaitStep::RetryAfter(0));
    assert_eq!(new_payload_step(PayloadStatus::Valid), NewPayloadStep::Done);
    assert_eq!(new_payload_step(PayloadStatus::Invalid), NewPayloadStep::GiveUp);
    assert_eq!(new_payload_step(PayloadStatus::Syncing), NewPayloadStep::MissingParent);
    assert_eq!(new_payload_step(PayloadStatus::Accepted), NewPayloadStep::Retry);
    assert_eq!(
        NewPayloadStep::missing_parent_message(),
        "invalid range: no canonical state found for parent of requested block"
    );
    assert_eq!(fork_choice_version(EngineApiMessageVersion::V1), EngineApiMessageVersion::V1);
    assert_eq!(fork_choice_version(EngineApiMessageVersion::V2), EngineApiMessageVersion::V2);
    assert_eq!(fork_choice_version(EngineApiMessageVersion::V5), EngineApiMessageVersion::V3);
}

#[test]
fn the_snapshot_provider_is_looked_for_a_hundred_times() {
    let mut search = ProviderSearch::new();
    for _ in 0..100 {
        assert_eq!(search.on_look(false), ProviderWait::Retry(100));
    }
    assert_eq!(search.on_look(false), ProviderWait::GiveUp);
    assert_eq!(ProviderSearch::new().on_look(true), ProviderWait::Start);
}

#[test]
fn state_roots_are_anchored_on_disk() {
    let anchor = BscPayloadServiceBuilder::overlay_anchor;
    assert_eq!(anchor(hash(1), None), (hash(1), false));
    assert_eq!(anchor(hash(1), Some(&vec![hash(2), hash(3)])), (hash(3), true));
    assert_eq!(anchor(hash(1), Some(&Vec::new())), (hash(1), true));
    assert!(BscPayloadServiceBuilder::uses_sparse_trie(true, false));
    assert!(!BscPayloadServiceBuilder::uses_sparse_trie(true, true));
    assert_eq!(BscPayloadServiceBuilder::mining_config(Some(1), 2), 1);
    assert_eq!(BscPayloadServiceBuilder::mining_config(None, 2), 2);
    assert_eq!(BuildKind::default(), BuildKind::NormalAttempt);
}

type AlloyTx = alloy_consensus::EthereumTxEnvelope<alloy_consensus::TxEip4844>;

fn alloy_block(
    root: Option<u8>,
    requests: Option<u8>,
    withdrawals: Option<usize>,
) -> alloy_consensus::Block<AlloyTx> {
    let b256 = alloy_primitives::B256::repeat_byte;
    let signature = alloy_primitives::Signature::new(
        alloy_primitives::U256::from(5u64),
        alloy_primitives::U256::from(6u64),
        true,
    );
    let blob = alloy_consensus::TxEip4844 {
        nonce: 2,
        blob_versioned_hashes: vec![b256(11), b256(12)],
        ..Default::default()
    };
    let legacy = alloy_consensus::TxLegacy { nonce: 1, ..Default::default() };
    let withdrawal = alloy_eips::eip4895::Withdrawal { index: 3, ..Default::default() };
    alloy_consensus::Block {
        header: alloy_consensus::Header {
            parent_hash: b256(1),
            beneficiary: alloy_primitives::Address::repeat_byte(2),
            state_root: b256(3),
            receipts_root: b256(4),
            logs_bloom: alloy_primitives::Bloom::repeat_byte(5),
            mix_hash: b256(6),
            number: 7,
            gas_limit: 8,
            gas_used: 9,
            timestamp: 10,
            extra_data: vec![1, 2, 3].into(),
            base_fee_per_gas: Some(11),
            withdrawals_root: root.map(|_| b256(12)),
            blob_gas_used: root.map(|_| 13),
            excess_blob_gas: root.map(|_| 14),
            parent_beacon_block_root: root.map(b256),
            requests_hash: requests.map(b256),
            ..Default::default()
        },
        body: alloy_consensus::BlockBody {
            transactions: vec![
                AlloyTx::Legacy(alloy_consensus::Signed::new_unhashed(legacy, signature)),
                AlloyTx::Eip4844(alloy_consensus::Signed::new_unhashed(blob, signature)),
            ],
            ommers: Vec::new(),
            withdrawals: withdrawals.map(|n| vec![withdrawal; n].into()),
        },
    }
}

fn plain_block(b: &alloy_consensus::Block<AlloyTx>) -> ConsensusBlock {
    let plain = |h: alloy_primitives::B256| B256 { bytes: h.0 };
    let h = &b.header;
    ConsensusBlock {
        encoded_header: alloy_rlp::encode(h),
        parent_hash: plain(h.parent_hash),
        beneficiary: Address { bytes: h.beneficiary.into_array() },
        state_root: plain(h.state_root),
        receipts_root: plain(h.receipts_root),
        logs_bloom: h.logs_bloom.to_vec(),
        mix_hash: plain(h.mix_hash),
        number: h.number,
        gas_limit: h.gas_limit,
        gas_used: h.gas_used,
        timestamp: h.timestamp,
        extra_data: h.extra_data.to_vec(),
        base_fee_per_gas: h.base_fee_per_gas,
        withdrawals_root: h.withdrawals_root.map(plain),
        blob_gas_used: h.blob_gas_used,
        excess_blob_gas: h.excess_blob_gas,
        parent_beacon_block_root: h.parent_beacon_block_root.map(plain),
        requests_hash: h.requests_hash.map(plain),
        transactions: b
            .body
            .transactions
            .iter()
            .map(|tx| BodyTransaction {
                encoded: tx.encoded_2718(),
                blob_versioned_hashes: tx
                    .blob_versioned_hashes()
                    .map(|hashes| hashes.iter().map(|h| plain(*h)).collect()),
            })
            .collect(),
        withdrawals: b
            .body
            .withdrawals
            .as_ref()
            .map(|list| list.iter().map(alloy_rlp::encode).collect()),
    }
}

fn assert_same_v1(ours: &ExecutionPayloadV1, theirs: &alloy_rpc_types_engine::ExecutionPayloadV1) {
    assert_eq!(ours.parent_hash.bytes, theirs.parent_hash.0);
    assert_eq!(ours.fee_recipient.bytes, theirs.fee_recipient.into_array());
    assert_eq!(ours.state_root.bytes, theirs.state_root.0);
    assert_eq!(ours.receipts_root.bytes, theirs.receipts_root.0);
    assert_eq!(ours.logs_bloom, theirs.logs_bloom.to_vec());
    assert_eq!(ours.prev_randao.bytes, theirs.prev_randao.0);
    assert_eq!(ours.block_number, theirs.block_number);
    assert_eq!(ours.gas_limit, theirs.gas_limit);
    assert_eq!(ours.gas_used, theirs.gas_used);
    assert_eq!(ours.timestamp, theirs.timestamp);
    assert_eq!(ours.extra_data, theirs.extra_data.to_vec());
    let fee = ours.base_fee_per_gas;
    let limbs = [fee.limb0, fee.limb1, fee.limb2, fee.limb3];
    assert_eq!(limbs, theirs.base_fee_per_gas.into_limbs());
    assert_eq!(ours.block_hash.bytes, theirs.block_hash.0);
    let txs: Vec<Vec<u8>> = theirs.transactions.iter().map(|tx| tx.to_vec()).collect();
    assert_eq!(ours.transactions, txs);
}

fn assert_same_v2(ours: &ExecutionPayloadV2, theirs: &alloy_rpc_types_engine::ExecutionPayloadV2) {
    assert_same_v1(&ours.payload_inner, &theirs.payload_inner);
    let list: Vec<Vec<u8>> = theirs.withdrawals.iter().map(alloy_rlp::encode).collect();
    assert_eq!(ours.withdrawals, list);
}

#[test]
fn payloads_are_those_that_alloy_makes() {
    let mut versions = [0, 0, 0];
    for root in [None, Some(20)] {
        for requests in [None, Some(21)] {
            for withdrawals in [None, Some(0), Some(2)] {
                let block = alloy_block(root, requests, withdrawals);
                let (theirs, their_sidecar) = Alloy::from_block_slow(&block);
                let (ours, sidecar) = ExecutionPayload::from_block_slow(plain_block(&block));
                match (ours, theirs) {
                    (ExecutionPayload::V1(a), Alloy::V1(b)) => {
                        versions[0] += 1;
                        assert_same_v1(&a, &b);
                    }
                    (ExecutionPayload::V2(a), Alloy::V2(b)) => {
                        versions[1] += 1;
                        assert_same_v2(&a, &b);
                    }
                    (ExecutionPayload::V3(a), Alloy::V3(b)) => {
                        versions[2] += 1;
                        assert_same_v2(&a.payload_inner, &b.payload_inner);
                        assert_eq!(a.blob_gas_used, b.blob_gas_used);
                        assert_eq!(a.excess_blob_gas, b.excess_blob_gas);
                    }
                    (ours, theirs) => panic!("{ours:?} for {theirs:?}"),
                }
                assert_eq!(sidecar.prague.map(|h| h.bytes), their_sidecar.requests_hash().map(|h| h.0));
                match (sidecar.cancun, their_sidecar.cancun()) {
                    (Some(a), Some(b)) => {
                        assert_eq!(a.parent_beacon_block_root.bytes, b.parent_beacon_block_root.0);
                        let hashes: Vec<[u8; 32]> =
                            a.versioned_hashes.iter().map(|h| h.bytes).collect();
                        let expected: Vec<[u8; 32]> =
                            b.versioned_hashes.iter().map(|h| h.0).collect();
                        assert_eq!(hashes, expected);
                    }
                    (None, None) => {}
                    (a, b) => panic!("{a:?} for {b:?}"),
                }
            }
        }
    }
    assert_eq!(versions, [2, 4, 6]);
}

#[test]
fn a_payload_that_says_nothing_has_the_default_header() {
    let payload = BscExecutionData::default();
    assert!(payload.cached_hash().is_none());
    let header = alloy_consensus::Header::default();
    assert_eq!(payload.block.header.encoded, alloy_rlp::encode(&header));
    assert_eq!(payload.block.header.hash_slow().bytes, header.hash_slow().0);
    let (read, taken) = Header::decode(&payload.block.header.encoded).unwrap();
    assert_eq!(taken, payload.block.header.encoded.len());
    assert_eq!((read.number, read.timestamp, read.parent_hash), (0, 0, payload.parent_hash()));
    assert_eq!(read.beneficiary, payload.block.header.beneficiary);
    assert!(payload.block.transactions.is_empty() && payload.block.ommers.is_empty());
    assert!(payload.block.withdrawals.is_none() && payload.block.sidecars.is_none());
}
