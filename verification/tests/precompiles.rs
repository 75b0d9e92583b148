use bsc_parlia::precompiles::{
    is_zero_bytes, BscPrecompileError, DuplicateTracker, PrecompileHalt,
};

#[test]
fn is_zero_bytes_requires_nonempty_input() {
    assert!(!is_zero_bytes(&[]));
    assert!(is_zero_bytes(&[0x00, 0x00]));
    assert!(!is_zero_bytes(&[0x00, 0x01]));
}

#[test]
fn tracker_rejects_repeated_values() {
    let mut tracker = DuplicateTracker::new("validator address", 4, false);
    assert!(tracker.check(0, &[1, 2, 3]).is_ok());
    assert!(tracker.check(1, &[4, 5, 6]).is_ok());
    match tracker.check(2, &[1, 2, 3]).unwrap_err() {
        PrecompileHalt::Other(msg) => assert!(msg.contains("duplicate validator address")),
    }
}

#[test]
fn tracker_ignore_zero_skips_unset_fields() {
    let mut tracker = DuplicateTracker::new("validator bls key", 4, true);
    assert!(tracker.check(0, &[]).is_ok());
    assert!(tracker.check(1, &[0, 0, 0]).is_ok());
    assert!(tracker.check(2, &[0, 0, 0]).is_ok());
    assert!(tracker.check(3, &[7, 7]).is_ok());
    assert!(tracker.check(4, &[7, 7]).is_err());
}

#[test]
fn tracker_without_ignore_zero_treats_zero_as_value() {
    let mut tracker = DuplicateTracker::new("validator pubkey", 2, false);
    assert!(tracker.check(0, &[0, 0]).is_ok());
    assert!(tracker.check(1, &[0, 0]).is_err());
}

#[test]
fn a_duplicate_is_named_with_both_places() {
    let mut tracker = DuplicateTracker::new("signer", 4, false);
    assert!(tracker.check(12, &[0xab, 0x01]).is_ok());
    let PrecompileHalt::Other(msg) = tracker.check(305, &[0xab, 0x01]).unwrap_err();
    assert_eq!(msg, "duplicate signer #12 and #305: ab01");
    let PrecompileHalt::Other(again) = tracker.check(7, &[0xab, 0x01]).unwrap_err();
    assert_eq!(again, "duplicate signer #12 and #7: ab01");
}

#[test]
fn errors_halt_with_their_text() {
    let text = |e: BscPrecompileError| {
        let PrecompileHalt::Other(msg) = e.into_halt();
        msg
    };
    assert_eq!(text(BscPrecompileError::InvalidInput), "invalid input");
    assert_eq!(text(BscPrecompileError::CometBftApplyBlockFailed), "apply block failed");
    assert_eq!(
        text(BscPrecompileError::CometBftEncodeConsensusStateFailed),
        "encode consensus state failed"
    );
    assert_eq!(
        text(BscPrecompileError::DoubleSignInvalidEvidence),
        "double sign invalid evidence"
    );
}
