use bsc_parlia::block_stats::{BlockStats, VoteDelays};
use bsc_parlia::finality::{early_finality_latency_ms, quorum, FinalityNotifier};
use bsc_parlia::header::Header;
use bsc_parlia::primitives::{Address, VoteAddress, VoteSignature, B256};
use bsc_parlia::snapshot::Snapshot;
use bsc_parlia::vote::{VoteData, VoteEnvelope};
use bsc_parlia::vote_pool::{put_vote, VotePool};

fn hash(b: u8) -> B256 {
    B256 { bytes: [b; 32] }
}

fn header(number: u64) -> Header {
    let h = alloy_consensus::Header { number, ..Default::default() };
    Header::decode(&alloy_rlp::encode(&h)).unwrap().0
}

fn vote(signer: u8, source: u64, target: u64, target_hash: B256) -> VoteEnvelope {
    VoteEnvelope {
        vote_address: VoteAddress { bytes: [signer; 48] },
        signature: VoteSignature { bytes: [signer; 96] },
        data: VoteData {
            source_number: source,
            source_hash: hash(1),
            target_number: target,
            target_hash,
        },
    }
}

fn snapshot(justified: u64) -> Snapshot {
    let validators = (1..4).map(|b| Address { bytes: [b; 20] }).collect();
    let mut s = Snapshot::new(validators, 7, hash(7), 200, None);
    s.vote_data.target_number = justified;
    s
}

#[test]
fn two_thirds_are_rounded_up() {
    let needed: Vec<usize> = [0, 1, 2, 3, 4, 21, 22].into_iter().map(quorum).collect();
    assert_eq!(needed, vec![0, 1, 2, 2, 3, 14, 15]);
}

#[test]
fn finality_is_notified_once() {
    let head = header(8);
    let target = head.hash_slow();
    let mut pool = VotePool::new();
    put_vote(&mut pool, vote(1, 7, 8, target), None);
    put_vote(&mut pool, vote(2, 6, 8, target), None);
    let mut notifier = FinalityNotifier::new();
    let snap = snapshot(7);
    let mut due = |pool: &VotePool, votes, head: Option<&Header>, snap: Option<&Snapshot>| {
        notifier.maybe_notify_finality(pool, target, votes, head, snap)
    };
    assert!(!due(&pool, 2, Some(&head), Some(&snap)));
    put_vote(&mut pool, vote(3, 7, 8, target), None);
    assert!(!due(&pool, 1, Some(&head), Some(&snap)));
    assert!(!due(&pool, 3, None, Some(&snap)));
    assert!(!due(&pool, 3, Some(&header(9)), Some(&snap)));
    assert!(!due(&pool, 3, Some(&head), None));
    assert!(!due(&pool, 3, Some(&head), Some(&snapshot(6))));
    let nobody = Snapshot::new(Vec::new(), 7, hash(7), 200, None);
    assert!(!due(&pool, 3, Some(&head), Some(&nobody)));
    assert!(due(&pool, 3, Some(&head), Some(&snap)));
    assert!(!due(&pool, 3, Some(&head), Some(&snap)));
}

#[test]
fn the_latency_of_finality_is_never_negative() {
    assert_eq!(early_finality_latency_ms(1500, 1000), 500);
    assert_eq!(early_finality_latency_ms(1000, 1500), 0);
}

#[test]
fn the_age_of_a_block_is_reported() {
    let mut stats = BlockStats::new();
    assert_eq!(stats.on_block_received(hash(1), 10, 10_250), Some(250));
    assert_eq!(stats.on_block_received(hash(2), 11, 10_250), None);
}

#[test]
fn vote_delays_are_reported_once() {
    let none = VoteDelays { first: None, majority: None };
    let mut stats = BlockStats::new();
    assert_eq!(stats.on_vote_received(hash(1), 1, 10_000), none);
    stats.on_block_received(hash(1), 10, 10_000);
    stats.on_block_received(hash(1), 11, 10_000);
    assert_eq!(
        stats.on_vote_received(hash(1), 1, 10_300),
        VoteDelays { first: Some(300), majority: None }
    );
    assert_eq!(stats.on_vote_received(hash(1), 1, 10_400), none);
    assert_eq!(stats.on_vote_received(hash(1), 13, 10_400), none);
    assert_eq!(
        stats.on_vote_received(hash(1), 14, 10_500),
        VoteDelays { first: None, majority: Some(500) }
    );
    assert_eq!(stats.on_vote_received(hash(1), 15, 10_600), none);
    stats.on_block_received(hash(2), 20, 10_000);
    assert_eq!(stats.on_vote_received(hash(2), 1, 10_600), none);
    assert_eq!(stats.on_vote_received(hash(2), 1, 30_000), none);
}

#[test]
fn the_block_used_longest_ago_is_forgotten() {
    let mut stats = BlockStats::new();
    for b in 0..65 {
        stats.on_block_received(hash(b), 1, 2000);
    }
    assert_eq!(stats.on_vote_received(hash(0), 1, 2000).first, None);
    assert_eq!(stats.on_vote_received(hash(1), 1, 2000).first, Some(1000));
}
