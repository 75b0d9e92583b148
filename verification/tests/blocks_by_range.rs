use bsc_parlia::block::{BscBlobTransactionSidecar, BscBlock};
use bsc_parlia::blocks_by_range::{
    build_blocks_by_range_response, build_blocks_by_range_response_with, decode_blocks_by_range,
    BlocksByRangePacket, GetBlocksByRangePacket, BLOCKS_BY_RANGE, GET_BLOCKS_BY_RANGE,
    MAX_REQUEST_RANGE_BLOCKS_COUNT,
};
use bsc_parlia::header::Header;
use bsc_parlia::primitives::B256;
use bsc_parlia::rlp::RlpError;
use bsc_parlia::wire_block::{decode_wire_block_data, skip_unknown_trailing};
use std::collections::HashMap;

fn header(h: &alloy_consensus::Header) -> Header {
    Header::decode(&alloy_rlp::encode(h)).unwrap().0
}

fn default_header() -> Header {
    header(&alloy_consensus::Header::default())
}

fn block(header: Header) -> BscBlock {
    BscBlock {
        header,
        transactions: Vec::new(),
        ommers: Vec::new(),
        withdrawals: None,
        sidecars: None,
    }
}

fn copy(b: &BscBlock) -> BscBlock {
    let mut out = block(b.header.clone());
    out.transactions = b.transactions.clone();
    out.ommers = b.ommers.clone();
    out.withdrawals = b.withdrawals.clone();
    out
}

fn mk_block(number: u64, parent: B256) -> BscBlock {
    block(header(&alloy_consensus::Header {
        number,
        parent_hash: parent.bytes.into(),
        ..Default::default()
    }))
}

fn list(payload: &[u8]) -> Vec<u8> {
    let mut out = Vec::new();
    alloy_rlp::Header { list: true, payload_length: payload.len() }.encode(&mut out);
    out.extend_from_slice(payload);
    out
}

fn joined(parts: &[Vec<u8>]) -> Vec<u8> {
    parts.concat()
}

fn dummy_bal(number: u64) -> Vec<u8> {
    let key = |b: u8| alloy_rlp::encode(alloy_primitives::B256::repeat_byte(b));
    let item = |dirty: bool, b: u8| {
        list(&joined(&[alloy_rlp::encode(0u32), alloy_rlp::encode(dirty), key(b)]))
    };
    let account = list(&joined(&[
        alloy_rlp::encode(0u32),
        alloy_rlp::encode(alloy_primitives::Address::repeat_byte(0xaa)),
        list(&joined(&[item(true, 0x01), item(false, 0x02)])),
    ]));
    list(&joined(&[
        alloy_rlp::encode(1u32),
        alloy_rlp::encode(number),
        key(0xbb),
        alloy_rlp::encode(alloy_primitives::Bytes::from(vec![0u8; 65])),
        list(&account),
    ]))
}

fn five_element_block() -> Vec<u8> {
    joined(&[
        alloy_rlp::encode(alloy_consensus::Header::default()),
        list(&[]),
        list(&[]),
        list(&[]),
        list(&[]),
    ])
}

fn bal_era_block(number: u64) -> Vec<u8> {
    list(&joined(&[five_element_block(), dummy_bal(number)]))
}

fn frame(fields: &[Vec<u8>]) -> Vec<u8> {
    let mut out = vec![BLOCKS_BY_RANGE];
    out.extend(list(&joined(fields)));
    out
}

fn encoded(packet: &BlocksByRangePacket) -> Vec<u8> {
    let mut out = Vec::new();
    packet.encode(&mut out);
    out
}

#[test]
fn test_get_blocks_by_range_codec_roundtrip() {
    let req = GetBlocksByRangePacket {
        request_id: 42,
        start_block_height: 123,
        start_block_hash: B256 { bytes: [1u8; 32] },
        count: 5,
    };
    let mut bytes = Vec::new();
    req.encode(&mut bytes);
    let (dec, n) = GetBlocksByRangePacket::decode(&bytes).unwrap();
    assert_eq!(n, bytes.len());
    assert_eq!(req.request_id, dec.request_id);
    assert_eq!(req.start_block_height, dec.start_block_height);
    assert_eq!(req.start_block_hash, dec.start_block_hash);
    assert_eq!(req.count, dec.count);

    let res = BlocksByRangePacket { request_id: 7, blocks: vec![block(default_header())] };
    let (dec, _) = BlocksByRangePacket::decode(&encoded(&res)).unwrap();
    assert_eq!(res.request_id, dec.request_id);
    assert_eq!(res.blocks.len(), dec.blocks.len());
    assert_eq!(res.blocks[0].header.hash_slow(), dec.blocks[0].header.hash_slow());
}

#[test]
fn test_blocks_by_range_encodes_absent_withdrawals_as_empty_list_when_sidecars_present() {
    let mut b = block(default_header());
    b.sidecars = Some(Vec::new());
    let resp = BlocksByRangePacket { request_id: 11, blocks: vec![b] };

    let bytes = encoded(&resp);

    assert_eq!(bytes, frame(&[alloy_rlp::encode(11u64), list(&list(&five_element_block()))]));
    let (decoded, _) = BlocksByRangePacket::decode(&bytes).unwrap();
    assert_eq!(decoded.request_id, 11);
    assert_eq!(decoded.blocks.len(), 1);
    assert_eq!(decoded.blocks[0].header.number, 0);
    assert!(decoded.blocks[0].transactions.is_empty());
    assert!(decoded.blocks[0].ommers.is_empty());
    assert!(decoded.blocks[0].withdrawals.as_ref().unwrap().is_empty());
    assert!(decoded.blocks[0].sidecars.is_some());
}

#[test]
fn test_blocks_by_range_keeps_absent_withdrawals_when_no_sidecars() {
    let resp = BlocksByRangePacket { request_id: 12, blocks: vec![block(default_header())] };

    let (decoded, _) = BlocksByRangePacket::decode(&encoded(&resp)).unwrap();

    assert_eq!(decoded.request_id, 12);
    assert_eq!(decoded.blocks.len(), 1);
    assert!(decoded.blocks[0].withdrawals.is_none());
    assert!(decoded.blocks[0].sidecars.is_none());
}

fn by_hash(blocks: &[&BscBlock]) -> HashMap<[u8; 32], BscBlock> {
    blocks.iter().map(|b| (b.header.hash_slow().bytes, copy(b))).collect()
}

#[test]
fn test_build_blocks_by_range_uses_cache() {
    let parent_block = mk_block(1, B256::zero());
    let parent_hash = parent_block.header.hash_slow();
    let child_block = mk_block(2, parent_hash);
    let child_hash = child_block.header.hash_slow();

    let cache = by_hash(&[&parent_block, &child_block]);

    let req = GetBlocksByRangePacket {
        request_id: 1,
        start_block_height: 0,
        start_block_hash: child_hash,
        count: 2,
    };
    let resp =
        build_blocks_by_range_response(&req, |h, _| cache.get(&h.bytes).map(copy), |_, _| None);
    assert_eq!(resp.request_id, 1);
    assert_eq!(resp.blocks.len(), 2);
    assert_eq!(resp.blocks[0].header.hash_slow(), child_hash);
    assert_eq!(resp.blocks[1].header.hash_slow(), parent_hash);
    assert_eq!(resp.blocks[0].header.parent_hash, resp.blocks[1].header.hash_slow());
}

#[test]
fn test_build_blocks_by_range_truncates_when_parent_missing() {
    let parent_hash = default_header().hash_slow();
    let child_block = mk_block(0, parent_hash);
    let child_hash = child_block.header.hash_slow();

    let cache = by_hash(&[&child_block]);

    let req = GetBlocksByRangePacket {
        request_id: 2,
        start_block_height: 0,
        start_block_hash: child_hash,
        count: 2,
    };
    let resp =
        build_blocks_by_range_response(&req, |h, _| cache.get(&h.bytes).map(copy), |_, _| None);
    assert_eq!(resp.request_id, 2);
    assert_eq!(resp.blocks.len(), 1);
    assert_eq!(resp.blocks[0].header.hash_slow(), child_hash);
}

#[test]
fn build_response_falls_back_to_provider_lookup_on_cache_miss() {
    let b3 = mk_block(3, B256::zero());
    let b2 = mk_block(2, b3.header.hash_slow());
    let b1 = mk_block(1, b2.header.hash_slow());
    let b0 = mk_block(0, b1.header.hash_slow());

    let stored = by_hash(&[&b0, &b1, &b2, &b3]);

    let req = GetBlocksByRangePacket {
        request_id: 42,
        start_block_height: 0,
        start_block_hash: b0.header.hash_slow(),
        count: 4,
    };
    let resp = build_blocks_by_range_response_with(&req, |h, _| stored.get(&h.bytes).map(copy));

    assert_eq!(resp.request_id, 42);
    assert_eq!(resp.blocks.len(), 4, "should walk the full chain via provider fallback");
    assert_eq!(resp.blocks[0].header.number, 0);
    assert_eq!(resp.blocks[3].header.number, 3);

    let cache = by_hash(&[&b1]);
    let resp = build_blocks_by_range_response(
        &req,
        |h, _| cache.get(&h.bytes).map(copy),
        |h, _| stored.get(&h.bytes).map(copy),
    );
    assert_eq!(resp.blocks.len(), 4);
}

#[test]
fn build_response_returns_empty_when_start_block_unknown() {
    let req = GetBlocksByRangePacket {
        request_id: 7,
        start_block_height: 0,
        start_block_hash: B256 { bytes: [0xaa; 32] },
        count: 4,
    };
    let resp = build_blocks_by_range_response_with(&req, |_, _| None);
    assert!(resp.blocks.is_empty());
}

#[test]
fn build_response_looks_up_by_number_when_hash_is_zero() {
    let b0 = mk_block(10, B256::zero());
    let req = GetBlocksByRangePacket {
        request_id: 9,
        start_block_height: 10,
        start_block_hash: B256::zero(),
        count: 1,
    };
    let resp = build_blocks_by_range_response_with(&req, |_, n| {
        if n == Some(10) { Some(copy(&b0)) } else { None }
    });
    assert_eq!(resp.blocks.len(), 1);
    assert_eq!(resp.blocks[0].header.number, 10);
}

#[test]
fn build_response_returns_empty_when_cache_miss_and_no_provider_installed() {
    let req = GetBlocksByRangePacket {
        request_id: 99,
        start_block_height: 0,
        start_block_hash: B256 { bytes: [0x55; 32] },
        count: 4,
    };
    let resp = build_blocks_by_range_response(&req, |_, _| None, |_, _| None);
    assert_eq!(resp.request_id, 99);
    assert!(
        resp.blocks.is_empty(),
        "no cache entry + no FullBlockProvider installed must yield empty response"
    );
}

#[test]
fn a_response_holds_no_more_than_may_be_sent() {
    let req = GetBlocksByRangePacket {
        request_id: 3,
        start_block_height: 1,
        start_block_hash: B256::zero(),
        count: 1000,
    };
    let resp = build_blocks_by_range_response_with(&req, |_, _| {
        Some(mk_block(1, B256 { bytes: [1; 32] }))
    });
    assert_eq!(resp.blocks.len() as u64, MAX_REQUEST_RANGE_BLOCKS_COUNT);
    let none = GetBlocksByRangePacket { count: 0, ..req };
    let resp = build_blocks_by_range_response_with(&none, |_, _| {
        Some(mk_block(1, B256 { bytes: [1; 32] }))
    });
    assert!(resp.blocks.is_empty());
}

#[test]
fn blocks_by_range_ignores_bal_era_blockdata_trailing_field() {
    let bytes = frame(&[alloy_rlp::encode(374u64), list(&bal_era_block(1))]);

    let (decoded, n) = BlocksByRangePacket::decode(&bytes)
        .expect("BAL-era 6-element BlockData must decode with the BAL ignored");
    assert_eq!(n, bytes.len());
    assert_eq!(decoded.request_id, 374);
    assert_eq!(decoded.blocks.len(), 1);
    assert_eq!(
        decoded.blocks[0].header.hash_slow(),
        default_header().hash_slow(),
        "header must survive the tolerant decode intact"
    );
    assert_eq!(decoded.blocks[0].withdrawals, Some(Vec::new()));
    assert_eq!(decoded.blocks[0].sidecars.as_ref().unwrap().len(), 0);
}

#[test]
fn blocks_by_range_ignores_packet_level_trailing_fields() {
    let bytes = frame(&[
        alloy_rlp::encode(99u64),
        list(&bal_era_block(2)),
        alloy_rlp::encode(alloy_primitives::Bytes::from(vec![0x42u8; 33])),
    ]);

    let (decoded, n) =
        BlocksByRangePacket::decode(&bytes).expect("packet-level trailing fields must be ignored");
    assert_eq!(n, bytes.len());
    assert_eq!(decoded.request_id, 99);
    assert_eq!(decoded.blocks.len(), 1);
}

#[test]
fn blocks_by_range_still_rejects_truncated_packet() {
    let bytes = frame(&[alloy_rlp::encode(7u64), list(&bal_era_block(3))]);
    let truncated = &bytes[..bytes.len() - 10];
    BlocksByRangePacket::decode(truncated)
        .expect_err("truncated packet must still fail to decode");
}

#[test]
fn decode_error_carries_request_id_for_fail_fast() {
    let bytes = frame(&[
        alloy_rlp::encode(4242u64),
        alloy_rlp::encode(alloy_primitives::Bytes::from(vec![7u8; 16])),
    ]);
    let err =
        decode_blocks_by_range(&bytes).expect_err("garbage block payload must fail to decode");
    assert_eq!(err.request_id, Some(4242));
    assert!(matches!(err.error, RlpError::UnexpectedString));

    let err = decode_blocks_by_range(&[0xffu8, 0xc0]).expect_err("wrong message id must fail");
    assert_eq!(err.request_id, None);
    assert!(matches!(
        err.error,
        RlpError::Custom("Invalid message ID for BlocksByRangePacket")
    ));
    let err = decode_blocks_by_range(&[]).expect_err("empty frame must fail");
    assert_eq!(err.request_id, None);
    assert!(matches!(err.error, RlpError::InputTooShort));
}

#[test]
fn blocks_by_range_accepts_five_element_blockdata_control() {
    let bytes = frame(&[alloy_rlp::encode(375u64), list(&list(&five_element_block()))]);

    let (decoded, _) =
        BlocksByRangePacket::decode(&bytes).expect("5-element BlockData must decode");
    assert_eq!(decoded.request_id, 375);
    assert_eq!(decoded.blocks.len(), 1);
}

#[test]
fn requests_that_break_a_rule_are_refused() {
    assert!(matches!(GetBlocksByRangePacket::decode(&[]), Err(RlpError::InputTooShort)));
    assert!(matches!(
        GetBlocksByRangePacket::decode(&[3, 0xc0]),
        Err(RlpError::Custom("Invalid message ID for GetBlocksByRangePacket"))
    ));
    assert!(matches!(
        GetBlocksByRangePacket::decode(&[GET_BLOCKS_BY_RANGE, 0x80]),
        Err(RlpError::UnexpectedString)
    ));
    assert!(matches!(
        GetBlocksByRangePacket::decode(&[GET_BLOCKS_BY_RANGE, 0xc1, 0xc0]),
        Err(RlpError::Codec(_))
    ));
    let mut fields = Vec::new();
    fields.extend(alloy_rlp::encode(1u64));
    fields.extend(alloy_rlp::encode(2u64));
    fields.extend(alloy_rlp::encode(alloy_primitives::B256::ZERO));
    fields.extend(alloy_rlp::encode(3u64));
    fields.push(0x05);
    let mut bytes = vec![GET_BLOCKS_BY_RANGE];
    bytes.extend(list(&fields));
    assert!(matches!(
        GetBlocksByRangePacket::decode(&bytes),
        Err(RlpError::ListLengthMismatch { expected: 37, got: 36 })
    ));
}

#[test]
fn a_request_is_a_list_behind_its_first_byte() {
    let req = GetBlocksByRangePacket {
        request_id: 0,
        start_block_height: 127,
        start_block_hash: B256 { bytes: [0xee; 32] },
        count: 1024,
    };
    let mut out = vec![0xff];
    req.encode(&mut out);
    let mut expected = vec![0xff, 2, 0xe6, 0x80, 0x7f, 0xa0];
    expected.extend([0xee; 32]);
    expected.extend([0x82, 0x04, 0x00]);
    assert_eq!(out, expected);
    let mut longer = out[1..].to_vec();
    longer.extend([1, 2, 3]);
    let (dec, n) = GetBlocksByRangePacket::decode(&longer).unwrap();
    assert_eq!(n, longer.len() - 3);
    assert_eq!(dec.count, 1024);
}

fn transaction() -> Vec<u8> {
    let tx = alloy_consensus::TxLegacy { nonce: 3, gas_limit: 21_000, ..Default::default() };
    let signature = alloy_primitives::Signature::new(
        alloy_primitives::U256::from(1u64),
        alloy_primitives::U256::from(2u64),
        false,
    );
    let signed = alloy_consensus::Signed::new_unhashed(tx, signature);
    alloy_rlp::encode(alloy_consensus::EthereumTxEnvelope::<alloy_consensus::TxEip4844>::Legacy(
        signed,
    ))
}

fn typed_transaction() -> Vec<u8> {
    let tx = alloy_consensus::TxEip1559 { nonce: 4, chain_id: 56, ..Default::default() };
    let signature = alloy_primitives::Signature::new(
        alloy_primitives::U256::from(5u64),
        alloy_primitives::U256::from(6u64),
        true,
    );
    let signed = alloy_consensus::Signed::new_unhashed(tx, signature);
    alloy_rlp::encode(alloy_consensus::EthereumTxEnvelope::<alloy_consensus::TxEip4844>::Eip1559(
        signed,
    ))
}

fn blobs() -> Vec<u8> {
    alloy_rlp::encode(alloy_eips::eip4844::BlobTransactionSidecar {
        blobs: Vec::new(),
        commitments: vec![alloy_eips::eip4844::Bytes48::repeat_byte(1)],
        proofs: vec![alloy_eips::eip4844::Bytes48::repeat_byte(2)],
    })
}

#[test]
fn a_full_block_survives_the_journey() {
    let withdrawal = alloy_rlp::encode(alloy_eips::eip4895::Withdrawal {
        index: 1,
        validator_index: 300,
        address: alloy_primitives::Address::repeat_byte(4),
        amount: 0,
    });
    let ommer = alloy_consensus::Header { number: 8, ..Default::default() };
    let mut b = mk_block(9, B256 { bytes: [3; 32] });
    b.transactions = vec![transaction(), typed_transaction()];
    b.ommers = vec![alloy_rlp::encode(&ommer)];
    b.withdrawals = Some(vec![withdrawal.clone(), withdrawal]);
    b.sidecars = Some(vec![BscBlobTransactionSidecar {
        inner: blobs(),
        block_number: 9,
        block_hash: B256 { bytes: [5; 32] },
        tx_index: 1,
        tx_hash: B256 { bytes: [6; 32] },
    }]);
    let packet = BlocksByRangePacket { request_id: 1, blocks: vec![b, mk_block(8, B256::zero())] };
    let mut bytes = encoded(&packet);
    let len = bytes.len();
    bytes.push(0xaa);
    let (decoded, n) = BlocksByRangePacket::decode(&bytes).unwrap();
    assert_eq!(n, len);
    assert_eq!(decoded.blocks.len(), 2);
    let (sent, got) = (&packet.blocks[0], &decoded.blocks[0]);
    assert_eq!(got.header.encoded, sent.header.encoded);
    assert_eq!(got.header.number, 9);
    assert_eq!(got.transactions, sent.transactions);
    assert_eq!(got.ommers, sent.ommers);
    assert_eq!(got.withdrawals, sent.withdrawals);
    let sidecar = &got.sidecars.as_ref().unwrap()[0];
    assert_eq!(sidecar.inner, blobs());
    assert_eq!(sidecar.block_number, 9);
    assert_eq!(sidecar.block_hash, B256 { bytes: [5; 32] });
    assert_eq!(sidecar.tx_index, 1);
    assert_eq!(sidecar.tx_hash, B256 { bytes: [6; 32] });
    assert!(decoded.blocks[1].withdrawals.is_none());
    assert_eq!(encoded(&decoded), bytes[..len]);
}

#[test]
fn a_transaction_without_its_frame_is_sent_on_with_it() {
    let framed = typed_transaction();
    let mut payload = framed.as_slice();
    alloy_rlp::Header::decode(&mut payload).unwrap();
    let header = alloy_rlp::encode(alloy_consensus::Header::default());
    let received = list(&joined(&[header.clone(), list(payload), list(&[])]));
    let (block, n) = decode_wire_block_data(&received).unwrap();
    assert_eq!(n, received.len());
    assert_eq!(block.transactions, vec![framed.clone()]);
    let packet = BlocksByRangePacket { request_id: 1, blocks: vec![block] };
    let (again, _) = BlocksByRangePacket::decode(&encoded(&packet)).unwrap();
    assert_eq!(again.blocks[0].transactions, vec![framed]);
    assert_eq!(again.blocks[0].header.encoded, header);
}

#[test]
fn blocks_that_break_a_rule_are_refused() {
    let header = alloy_rlp::encode(alloy_consensus::Header::default());
    assert!(matches!(decode_wire_block_data(&[0x80]), Err(RlpError::UnexpectedString)));
    let short = list(&joined(&[header.clone(), list(&[]), alloy_rlp::encode(1u64)]));
    assert!(matches!(decode_wire_block_data(&short), Err(RlpError::UnexpectedString)));
    let bad_transaction = list(&joined(&[header.clone(), list(&[0xc0]), list(&[])]));
    assert!(matches!(decode_wire_block_data(&bad_transaction), Err(RlpError::Codec(_))));
    let bad_withdrawal =
        list(&joined(&[header.clone(), list(&[]), list(&[]), list(&list(&[1, 2, 3]))]));
    assert!(matches!(decode_wire_block_data(&bad_withdrawal), Err(RlpError::Codec(_))));
    let mut overrun = list(&joined(&[header.clone(), list(&[])]));
    overrun.extend(list(&[]));
    assert!(matches!(
        decode_wire_block_data(&overrun),
        Err(RlpError::ListLengthMismatch { .. })
    ));
    let sidecar = list(&joined(&[
        blobs(),
        alloy_rlp::encode(1u64),
        alloy_rlp::encode(alloy_primitives::B256::ZERO),
        alloy_rlp::encode(2u64),
        alloy_rlp::encode(alloy_primitives::B256::ZERO),
        alloy_rlp::encode(3u64),
    ]));
    let bad_sidecar =
        list(&joined(&[header, list(&[]), list(&[]), list(&[]), list(&sidecar)]));
    assert!(matches!(
        decode_wire_block_data(&bad_sidecar),
        Err(RlpError::ListLengthMismatch { .. })
    ));
    assert!(matches!(skip_unknown_trailing(3, 10), Ok(7)));
    assert!(matches!(
        skip_unknown_trailing(11, 10),
        Err(RlpError::ListLengthMismatch { expected: 10, got: 11 })
    ));
}
