use bsc_parlia::malicious_vote_monitor::VoteViolation;
use bsc_parlia::primitives::{VoteAddress, VoteSignature, B256};
use bsc_parlia::vote::{VoteData, VoteEnvelope};
use bsc_parlia::vote_pool::{
    drain, fetch_vote_by_block_hash, fetch_vote_by_block_hash_and_source_number, get_votes,
    is_empty, len, prune, put_vote, VotePool, VotesPriorityQueue,
};

fn vote_with_source(target_hash: B256, source_number: u64, salt: u8) -> VoteEnvelope {
    let mut vote_address = VoteAddress::zero();
    vote_address.bytes[0] = salt;
    let mut signature = VoteSignature::zero();
    signature.bytes[0] = salt;
    VoteEnvelope {
        vote_address,
        signature,
        data: VoteData {
            source_number,
            source_hash: B256 { bytes: [source_number as u8; 32] },
            target_number: 100,
            target_hash,
        },
    }
}

fn vote_for(target_number: u64, hash_byte: u8, salt: u8) -> VoteEnvelope {
    let mut vote = vote_with_source(B256 { bytes: [hash_byte; 32] }, target_number - 1, salt);
    vote.data.target_number = target_number;
    vote
}

#[test]
fn fetch_votes_filters_by_source_number() {
    let mut pool = VotePool::new();

    let target_hash = B256 { bytes: [0x11; 32] };
    let other_target_hash = B256 { bytes: [0x22; 32] };

    put_vote(&mut pool, vote_with_source(target_hash, 10, 1), None);
    put_vote(&mut pool, vote_with_source(target_hash, 11, 2), None);
    put_vote(&mut pool, vote_with_source(other_target_hash, 10, 3), None);

    let all_for_target = fetch_vote_by_block_hash(&pool, target_hash);
    assert_eq!(all_for_target.len(), 2);
    assert_eq!(pool.blocks(), 2);

    let source_10 = fetch_vote_by_block_hash_and_source_number(&pool, target_hash, 10);
    assert_eq!(source_10.len(), 1);
    assert_eq!(source_10[0].data.source_number, 10);

    let source_11 = fetch_vote_by_block_hash_and_source_number(&pool, target_hash, 11);
    assert_eq!(source_11.len(), 1);
    assert_eq!(source_11[0].data.source_number, 11);

    let source_12 = fetch_vote_by_block_hash_and_source_number(&pool, target_hash, 12);
    assert!(source_12.is_empty());

    let _ = drain(&mut pool);
    assert!(is_empty(&pool));
}

#[test]
fn a_vote_is_counted_once() {
    let mut pool = VotePool::new();
    let vote = vote_for(50, 5, 1);
    let first = put_vote(&mut pool, vote, Some(50));
    assert_eq!(first.inserted.votes_for_block, 1);
    assert_eq!(first.size, 1);
    let second = put_vote(&mut pool, vote_for(50, 5, 2), Some(50));
    assert_eq!(second.inserted.votes_for_block, 2);
    let again = put_vote(&mut pool, vote, Some(50));
    assert_eq!(again.inserted.votes_for_block, 0);
    assert_eq!(again.size, 2);
    assert_eq!(len(&pool), 2);
    assert_eq!(get_votes(&pool).len(), 2);
    assert_eq!(pool.len_for_block(&B256 { bytes: [5; 32] }), 2);
    assert_eq!(pool.len_for_block(&B256 { bytes: [6; 32] }), 0);
}

#[test]
fn a_vote_against_the_rules_is_reported_and_kept() {
    let mut pool = VotePool::new();
    assert_eq!(put_vote(&mut pool, vote_for(50, 5, 1), Some(50)).inserted.violation, None);
    let rival = put_vote(&mut pool, vote_for(50, 6, 1), Some(50));
    assert_eq!(rival.inserted.violation, Some(VoteViolation::Rule1));
    assert_eq!(rival.size, 2);
}

#[test]
fn a_drained_pool_takes_the_same_votes_again() {
    let mut pool = VotePool::new();
    let vote = vote_for(50, 5, 1);
    put_vote(&mut pool, vote, None);
    assert_eq!(drain(&mut pool).len(), 1);
    assert_eq!(len(&pool), 0);
    assert_eq!(put_vote(&mut pool, vote, None).inserted.votes_for_block, 1);
}

#[test]
fn pruning_keeps_the_recent_and_forgets_the_rest() {
    let mut pool = VotePool::new();
    let old = vote_for(100, 1, 1);
    let recent = vote_for(300, 3, 1);
    put_vote(&mut pool, old, Some(300));
    put_vote(&mut pool, recent, Some(300));
    assert_eq!(prune(&mut pool, 355), 2);
    assert_eq!(prune(&mut pool, 356), 1);
    assert_eq!(prune(&mut pool, 356), 1);
    assert!(fetch_vote_by_block_hash(&pool, old.data.target_hash).is_empty());
    assert_eq!(fetch_vote_by_block_hash(&pool, recent.data.target_hash).len(), 1);
    assert_eq!(put_vote(&mut pool, old, Some(356)).inserted.votes_for_block, 1);
}

#[test]
fn the_queue_hands_out_the_lowest_target_first() {
    let mut queue = VotesPriorityQueue::new();
    for target in [30u64, 10, 20] {
        queue.push(vote_for(target, target as u8, 1).data);
    }
    assert_eq!(queue.len(), 3);
    assert_eq!(queue.peek().unwrap().target_number, 10);
    assert_eq!(queue.pop().unwrap().target_number, 10);
    assert_eq!(queue.pop().unwrap().target_number, 20);
    assert_eq!(queue.pop().unwrap().target_number, 30);
    assert!(queue.pop().is_none());
    assert!(queue.peek().is_none());
}

#[test]
fn a_vote_is_hashed_over_its_encoding() {
    let vote = vote_for(50, 5, 1);
    let mut data = Vec::new();
    data.extend(alloy_rlp::encode(49u64));
    data.extend(alloy_rlp::encode(alloy_primitives::B256::repeat_byte(49)));
    data.extend(alloy_rlp::encode(50u64));
    data.extend(alloy_rlp::encode(alloy_primitives::B256::repeat_byte(5)));
    let list = |payload: &[u8]| {
        let mut out = Vec::new();
        alloy_rlp::Header { list: true, payload_length: payload.len() }.encode(&mut out);
        out.extend_from_slice(payload);
        out
    };
    let mut encoded = Vec::new();
    vote.data.encode(&mut encoded);
    assert_eq!(encoded, list(&data));
    assert_eq!(vote.data.hash().bytes, alloy_primitives::keccak256(list(&data)).0);
    let mut envelope = Vec::new();
    envelope.extend(alloy_rlp::encode(alloy_primitives::FixedBytes::<48>::new(
        vote.vote_address.bytes,
    )));
    envelope.extend(alloy_rlp::encode(alloy_primitives::FixedBytes::<96>::new(
        vote.signature.bytes,
    )));
    envelope.extend(list(&data));
    assert_eq!(vote.hash().bytes, alloy_primitives::keccak256(list(&envelope)).0);
}
