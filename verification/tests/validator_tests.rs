use bsc_parlia::finality::quorum;
use bsc_parlia::primitives::{Address, VoteAddress, VoteSignature, B256};
use bsc_parlia::snapshot::{Snapshot, ValidatorInfo};
use bsc_parlia::vote::{VoteAttestation, VoteData};

fn random_address() -> Address {
    Address { bytes: rand::random() }
}

fn random_hash() -> B256 {
    B256 { bytes: rand::random() }
}

fn random_vote_address() -> VoteAddress {
    VoteAddress { bytes: rand::random() }
}

fn address(last: u8) -> Address {
    let mut a = Address::zero();
    a.bytes[19] = last;
    a
}

fn sorted(validators: &[Address]) -> Vec<Address> {
    let mut v = validators.to_vec();
    v.sort_by(|a, b| a.bytes.cmp(&b.bytes));
    v
}

#[test]
fn test_validator_info_creation() {
    let vote_addr = random_vote_address();
    let info = ValidatorInfo { index: 1, vote_addr };

    assert_eq!(info.index, 1);
    assert_eq!(info.vote_addr, vote_addr);
}

#[test]
fn test_snapshot_with_validators() {
    let validators = vec![random_address(), random_address(), random_address()];

    let block_number = 1000;
    let block_hash = random_hash();
    let epoch_num = 200;

    let snapshot = Snapshot::new(validators.clone(), block_number, block_hash, epoch_num, None);

    assert_eq!(snapshot.block_number, block_number);
    assert_eq!(snapshot.block_hash, block_hash);
    assert_eq!(snapshot.epoch_num, epoch_num);
    assert_eq!(snapshot.validators.len(), 3);

    let expected_validators = sorted(&validators);
    assert_eq!(snapshot.validators, expected_validators);

    for (idx, validator) in expected_validators.iter().enumerate() {
        let info = snapshot.validators_map.get(validator).unwrap();
        assert_eq!(info.index, (idx + 1) as u64);
        assert_eq!(info.vote_addr, VoteAddress::zero());
    }
}

#[test]
fn test_snapshot_with_vote_addresses() {
    let validators = vec![random_address(), random_address(), random_address()];
    let vote_addrs = vec![random_vote_address(), random_vote_address(), random_vote_address()];

    let snapshot =
        Snapshot::new(validators.clone(), 1000, random_hash(), 200, Some(vote_addrs.clone()));

    for (idx, validator) in sorted(&validators).iter().enumerate() {
        let info = snapshot.validators_map.get(validator).unwrap();
        assert_eq!(info.index, (idx + 1) as u64);
        assert_ne!(info.vote_addr, VoteAddress::zero());
    }
}

#[test]
fn vote_addresses_stay_with_their_validators() {
    let validators = vec![address(3), address(1), address(2)];
    let keys: Vec<VoteAddress> = (7u8..10).map(|b| VoteAddress { bytes: [b; 48] }).collect();
    let snapshot = Snapshot::new(validators, 1, random_hash(), 200, Some(keys.clone()));
    assert_eq!(snapshot.validators, vec![address(1), address(2), address(3)]);
    assert_eq!(snapshot.validators_map.get(&address(1)).unwrap().vote_addr, keys[1]);
    assert_eq!(snapshot.validators_map.get(&address(2)).unwrap().vote_addr, keys[2]);
    assert_eq!(snapshot.validators_map.get(&address(3)).unwrap().vote_addr, keys[0]);
    assert!(snapshot.validators_map.get(&address(4)).is_none());
}

#[test]
fn test_validator_set_changes() {
    let initial_validators = vec![address(1), address(2), address(3)];
    let new_validators = vec![address(2), address(3), address(4)];

    let snapshot1 = Snapshot::new(initial_validators, 1000, random_hash(), 200, None);
    let snapshot2 = Snapshot::new(new_validators, 1200, random_hash(), 200, None);

    assert_eq!(snapshot1.validators.len(), 3);
    assert_eq!(snapshot2.validators.len(), 3);

    let validator4 = address(4);
    assert!(!snapshot1.validators.contains(&validator4));
    assert!(snapshot2.validators.contains(&validator4));

    let validator1 = address(1);
    assert!(snapshot1.validators.contains(&validator1));
    assert!(!snapshot2.validators.contains(&validator1));
}

#[test]
fn test_miner_history_check_len() {
    let validators = vec![
        random_address(),
        random_address(),
        random_address(),
        random_address(),
        random_address(),
    ];

    let snapshot = Snapshot::new(validators.clone(), 1000, random_hash(), 200, None);

    let history_len = snapshot.miner_history_check_len();

    let turn_length = snapshot.turn_length.unwrap_or(1);
    let expected = (validators.len() / 2 + 1) as u64 * turn_length as u64 - 1;
    assert_eq!(history_len, expected);
    assert_eq!(expected, 2);
}

#[test]
fn test_vote_data_initialization() {
    let validators = vec![random_address(); 3];

    let snapshot = Snapshot::new(validators, 1000, random_hash(), 200, None);

    assert_eq!(snapshot.vote_data.source_hash, B256::zero());
    assert_eq!(snapshot.vote_data.target_hash, B256::zero());
    assert_eq!(snapshot.vote_data.source_number, 0);
    assert_eq!(snapshot.vote_data.target_number, 0);
}

#[test]
fn test_validator_map_completeness() {
    let validators =
        vec![random_address(), random_address(), random_address(), random_address()];

    let snapshot = Snapshot::new(validators.clone(), 1000, random_hash(), 200, None);

    for validator in &validators {
        assert!(
            snapshot.validators_map.contains_key(validator),
            "Validator {:?} should be in validators_map",
            validator
        );
    }

    assert_eq!(snapshot.validators_map.len(), validators.len());
}

#[test]
fn test_epoch_boundary() {
    let epoch_num: u64 = 200;

    assert!(epoch_num % epoch_num == 0, "Epoch boundary should be at epoch_num");
    assert!((epoch_num * 2) % epoch_num == 0, "Double epoch should be boundary");
    assert!((epoch_num + 1) % epoch_num != 0, "Non-boundary block");
    assert!((epoch_num - 1) % epoch_num != 0, "Block before boundary");
}

#[test]
fn test_validator_bytes_generation() {
    let validators: Vec<Address> = vec![address(1), address(2), address(3)];

    let mut validator_bytes: Vec<u8> = Vec::new();
    for v in &sorted(&validators) {
        validator_bytes.extend_from_slice(&v.bytes);
    }

    assert_eq!(validator_bytes.len(), 20 * 3);
}

#[test]
fn test_validator_bytes_with_vote_addresses() {
    let validators = vec![address(1), address(2), address(3)];
    let vote_addrs = vec![random_vote_address(), random_vote_address(), random_vote_address()];

    let snapshot =
        Snapshot::new(validators.clone(), 1000, random_hash(), 200, Some(vote_addrs.clone()));

    let mut validator_bytes: Vec<u8> = Vec::new();
    for v in &sorted(&validators) {
        validator_bytes.extend_from_slice(&v.bytes);
        let info = snapshot.validators_map.get(v).unwrap();
        validator_bytes.extend_from_slice(&info.vote_addr.bytes);
    }

    assert_eq!(validator_bytes.len(), 68 * 3);
}

#[test]
fn test_turn_length() {
    let validators = vec![random_address(); 3];

    let snapshot = Snapshot::new(validators, 1000, random_hash(), 200, None);

    assert_eq!(snapshot.turn_length, Some(1));
}

#[test]
fn test_zero_epoch_num_default() {
    let validators = vec![random_address(); 3];

    let snapshot = Snapshot::new(validators, 1000, random_hash(), 0, None);

    assert_eq!(snapshot.epoch_num, 200);
}

#[test]
fn test_validator_info_default() {
    let info = ValidatorInfo::default();

    assert_eq!(info.index, 0);
    assert_eq!(info.vote_addr, VoteAddress::zero());
}

#[test]
fn test_vote_attestation_structure() {
    let vote_data = VoteData {
        source_number: 100,
        source_hash: random_hash(),
        target_number: 200,
        target_hash: random_hash(),
    };

    let attestation = VoteAttestation {
        vote_address_set: 0b1010101,
        agg_signature: VoteSignature { bytes: [0u8; 96] },
        data: vote_data,
        extra: Vec::new(),
    };

    assert_eq!(attestation.data.source_number, 100);
    assert_eq!(attestation.data.target_number, 200);
    assert_eq!(attestation.vote_address_set, 0b1010101);
}

#[test]
fn test_validator_count_calculations() {
    let test_cases = vec![(3, 2), (4, 3), (5, 4), (6, 4), (7, 5), (21, 14)];

    for (total, expected_quorum) in test_cases {
        let computed = (total * 2 + 2) / 3;
        assert_eq!(
            computed, expected_quorum,
            "Quorum for {} validators should be {}, got {}",
            total, expected_quorum, computed
        );
        assert_eq!(quorum(total), expected_quorum);
    }
}

#[test]
fn test_recent_proposers_limit() {
    let validators = vec![random_address(), random_address(), random_address()];

    let mut snapshot = Snapshot::new(validators.clone(), 1000, random_hash(), 200, None);

    let limit = snapshot.miner_history_check_len();
    for i in 0..limit + 5 {
        snapshot.recent_proposers.insert(900 + i, validators[i as usize % validators.len()]);
    }

    assert!(snapshot.recent_proposers.len() > limit as usize);
}

#[test]
fn test_block_interval() {
    let validators = vec![random_address(); 3];

    let snapshot = Snapshot::new(validators, 1000, random_hash(), 200, None);

    assert_eq!(snapshot.block_interval, 3000);
}

#[test]
fn test_empty_validator_set() {
    let validators: Vec<Address> = vec![];

    let snapshot = Snapshot::new(validators, 1000, random_hash(), 200, None);

    assert_eq!(snapshot.validators.len(), 0);
    assert_eq!(snapshot.validators_map.len(), 0);
}

#[test]
fn test_large_validator_set() {
    let validators: Vec<Address> = (0..100).map(|_| random_address()).collect();

    let snapshot = Snapshot::new(validators.clone(), 1000, random_hash(), 200, None);

    assert_eq!(snapshot.validators.len(), 100);
    assert_eq!(snapshot.validators_map.len(), 100);

    for validator in &validators {
        assert!(snapshot.validators_map.contains_key(validator));
    }
}

#[test]
fn a_clone_of_a_snapshot_says_the_same() {
    let mut snapshot = Snapshot::new(vec![address(1), address(2)], 5, random_hash(), 10, None);
    snapshot.recent_proposers.insert(5, address(2));
    let copy = snapshot.clone();
    assert_eq!(copy.block_hash, snapshot.block_hash);
    assert_eq!(copy.validators, snapshot.validators);
    assert_eq!(copy.recent_proposers.get(&5), Some(&address(2)));
    assert_eq!(copy.validators_map.get(&address(2)).unwrap().index, 2);
}

#[test]
fn test_single_validator() {
    let validator = random_address();
    let validators = vec![validator];
    let snapshot = Snapshot::new(validators, 1000, random_hash(), 200, None);
    assert_eq!(snapshot.validators.len(), 1);
    assert_eq!(snapshot.validators[0], validator);
    assert!(snapshot.validators_map.contains_key(&validator));
}
