use bsc_parlia::malicious_vote_monitor::MaliciousVoteMonitor;
use bsc_parlia::malicious_vote_monitor::VoteViolation;
use bsc_parlia::primitives::{VoteAddress, VoteSignature, B256};
use bsc_parlia::vote::{VoteData, VoteEnvelope};

fn make_vote(
    address_byte: u8,
    source_number: u64,
    target_number: u64,
    target_hash_byte: u8,
) -> VoteEnvelope {
    let mut vote_address = VoteAddress::zero();
    vote_address.bytes[0] = address_byte;
    VoteEnvelope {
        vote_address,
        signature: VoteSignature::zero(),
        data: VoteData {
            source_number,
            source_hash: B256 { bytes: [source_number as u8; 32] },
            target_number,
            target_hash: B256 { bytes: [target_hash_byte; 32] },
        },
    }
}

#[test]
fn no_conflict_for_identical_vote() {
    let mut monitor = MaliciousVoteMonitor::new();
    let vote = make_vote(1, 10, 20, 0xAA);
    assert!(!monitor.conflict_detect(&vote, 20));
    assert!(!monitor.conflict_detect(&vote, 20));
}

#[test]
fn detects_rule1_violation() {
    let mut monitor = MaliciousVoteMonitor::new();
    let vote1 = make_vote(1, 10, 20, 0xAA);
    let vote2 = make_vote(1, 10, 20, 0xBB);
    assert!(!monitor.conflict_detect(&vote1, 20));
    assert!(monitor.conflict_detect(&vote2, 20));
}

#[test]
fn detects_rule2_violation() {
    let mut monitor = MaliciousVoteMonitor::new();
    let vote1 = make_vote(1, 10, 20, 0xAA);
    let vote2 = make_vote(1, 15, 18, 0xCC);
    assert!(!monitor.conflict_detect(&vote1, 20));
    assert!(monitor.conflict_detect(&vote2, 20));
}

#[test]
fn different_validators_no_conflict() {
    let mut monitor = MaliciousVoteMonitor::new();
    let vote1 = make_vote(1, 10, 20, 0xAA);
    let vote2 = make_vote(2, 10, 20, 0xBB);
    assert!(!monitor.conflict_detect(&vote1, 20));
    assert!(!monitor.conflict_detect(&vote2, 20));
}

#[test]
fn the_broken_rule_is_named() {
    let mut monitor = MaliciousVoteMonitor::new();
    assert_eq!(monitor.detect(&make_vote(1, 10, 20, 0xAA), 20), None);
    assert_eq!(monitor.detect(&make_vote(1, 10, 20, 0xBB), 20), Some(VoteViolation::Rule1));
    assert_eq!(monitor.detect(&make_vote(1, 15, 18, 0xCC), 20), Some(VoteViolation::Rule2));
    assert_eq!(monitor.detect(&make_vote(1, 5, 25, 0xDD), 20), Some(VoteViolation::Rule2));
    // The malicious votes were not kept.
    assert_eq!(monitor.detect(&make_vote(1, 10, 20, 0xAA), 20), None);
}

#[test]
fn an_old_vote_is_not_judged() {
    let mut monitor = MaliciousVoteMonitor::new();
    assert!(!monitor.conflict_detect(&make_vote(1, 10, 20, 0xAA), 20));
    assert!(monitor.conflict_detect(&make_vote(1, 10, 20, 0xBB), 275));
    assert!(!monitor.conflict_detect(&make_vote(1, 10, 20, 0xBB), 276));
}

#[test]
fn a_vote_far_ahead_is_not_seen() {
    let mut monitor = MaliciousVoteMonitor::new();
    assert!(!monitor.conflict_detect(&make_vote(1, 10, 40, 0xAA), 20));
    assert!(!monitor.conflict_detect(&make_vote(1, 10, 40, 0xBB), 20));
    assert!(monitor.conflict_detect(&make_vote(1, 10, 40, 0xCC), 29));
}
