use bsc_parlia::header::Header;
use bsc_parlia::primitives::{Address, VoteAddress, VoteSignature, B256};
use bsc_parlia::provider::{
    checkpoint_for, pick_from_db, replay_inputs, CheckpointAnswer, DbSnapshotProvider,
    EnhancedDbSnapshotProvider, ScanRow, ValidatorsInfo, WalkStep,
};
use bsc_parlia::rebuild::{
    complete_chunk, on_missing, BuildStep, IncrementalBuild, Missing, Rebuild, RebuildAction,
};
use bsc_parlia::snapshot::Snapshot;
use bsc_parlia::vote::{VoteAttestation, VoteData};

fn address(last: u8) -> Address {
    let mut a = Address::zero();
    a.bytes[19] = last;
    a
}

fn hash(b: u8) -> B256 {
    B256 { bytes: [b; 32] }
}

fn snapshot(number: u64, h: B256) -> Snapshot {
    Snapshot::new(vec![address(1), address(2), address(3)], number, h, 200, None)
}

fn header(number: u64, parent: B256) -> Header {
    let h = alloy_consensus::Header {
        number,
        parent_hash: alloy_primitives::B256::new(parent.bytes),
        ..Default::default()
    };
    Header::decode(&alloy_rlp::encode(&h)).unwrap().0
}

fn number_of(s: Option<Snapshot>) -> Option<u64> {
    s.map(|s| s.block_number)
}

#[test]
fn a_cached_snapshot_is_found_by_number_and_by_hash() {
    let mut p = DbSnapshotProvider::new(2);
    assert!(!p.insert(&snapshot(1, hash(1))));
    assert!(p.insert(&snapshot(2048, hash(2))));
    assert_eq!(number_of(p.cached_snapshot(1)), Some(1));
    assert_eq!(number_of(p.cached_snapshot_by_hash(&hash(2))), Some(2048));
    p.insert(&snapshot(3, hash(3)));
    assert_eq!(number_of(p.cached_snapshot(2048)), None);
    assert_eq!(number_of(p.cached_snapshot(1)), Some(1));
    assert_eq!(number_of(p.cached_snapshot(3)), Some(3));
    assert_eq!(number_of(p.cached_snapshot_by_hash(&hash(1))), None);
    assert_eq!(number_of(p.cached_snapshot_by_hash(&hash(3))), Some(3));
    assert_eq!(number_of(DbSnapshotProvider::fresh().cached_snapshot(3)), None);
}

#[test]
fn the_database_gives_the_latest_snapshot_before_a_block() {
    let rows = || {
        vec![
            ScanRow::Snapshot(snapshot(1024, hash(1))),
            ScanRow::Unreadable,
            ScanRow::Snapshot(snapshot(2048, hash(2))),
            ScanRow::Unreadable,
        ]
    };
    assert_eq!(number_of(pick_from_db(None, rows())), Some(2048));
    assert_eq!(number_of(pick_from_db(Some(snapshot(9, hash(9))), rows())), Some(9));
    let mut broken = rows();
    broken.insert(2, ScanRow::Failed);
    assert_eq!(number_of(pick_from_db(None, broken)), Some(1024));
    assert_eq!(number_of(pick_from_db(None, Vec::new())), None);
}

#[test]
fn a_walk_back_ends_at_a_cached_snapshot() {
    let mut p = EnhancedDbSnapshotProvider::new(16);
    p.insert(&snapshot(1500, hash(1)));
    assert!(matches!(p.walk_back(1600), WalkStep::Base(s) if s.block_number == 1500));
    assert!(matches!(p.walk_back(1499), WalkStep::LoadCheckpoint(1024)));
    assert!(matches!(
        p.on_checkpoint(1024, Some(snapshot(0, hash(0)))),
        WalkStep::LoadCheckpoint(0)
    ));
    assert!(matches!(p.on_checkpoint(0, None), WalkStep::NeedGenesis));
    assert!(matches!(
        p.on_checkpoint(1024, Some(snapshot(1024, hash(4)))),
        WalkStep::Base(s) if s.block_number == 1024
    ));
    assert!(matches!(p.walk_back(1100), WalkStep::Base(s) if s.block_number == 1024));
}

#[test]
fn the_genesis_snapshot_has_the_validators_of_the_genesis_header() {
    let mut p = EnhancedDbSnapshotProvider::new(16);
    let genesis = header(0, hash(0));
    let info = || ValidatorsInfo {
        consensus_addrs: vec![address(3), address(1)],
        vote_addrs: Some(vec![VoteAddress { bytes: [3; 48] }, VoteAddress { bytes: [1; 48] }]),
    };
    assert!(p.on_genesis(None, Some(info())).is_none());
    assert!(p.on_genesis(Some(&genesis), None).is_none());
    let snap = p.on_genesis(Some(&genesis), Some(info())).unwrap();
    assert_eq!(snap.validators, vec![address(1), address(3)]);
    assert_eq!(snap.block_hash, genesis.hash_slow());
    assert_eq!((snap.block_number, snap.epoch_num, snap.turn_length), (0, 200, Some(1)));
    let second = snap.validators_map.get(&address(3)).unwrap();
    assert_eq!((second.index, second.vote_addr.bytes[0]), (2, 3));
    assert!(p.cached_snapshot_by_hash(&genesis.hash_slow()).is_none());
    assert!(p.init_genesis_snapshot(&genesis, None).is_none());
    assert!(p.init_genesis_snapshot(&genesis, Some(info())).is_some());
    assert!(p.cached_snapshot_by_hash(&genesis.hash_slow()).is_some());
}

#[test]
fn validators_take_over_half_a_round_into_an_epoch() {
    let snap = snapshot(10, hash(1));
    assert_eq!(snap.miner_history_check_len(), 1);
    assert_eq!(checkpoint_for(&snap, 401), Some(400));
    assert_eq!(checkpoint_for(&snap, 1), Some(0));
    assert_eq!(checkpoint_for(&snap, 400), None);
    assert_eq!(checkpoint_for(&snap, 0), None);
}

#[test]
fn a_header_is_applied_with_all_that_it_needs_or_not_at_all() {
    let info = || ValidatorsInfo { consensus_addrs: vec![address(1)], vote_addrs: None };
    let attestation = || VoteAttestation {
        vote_address_set: 3,
        agg_signature: VoteSignature { bytes: [0; 96] },
        data: VoteData::none(),
        extra: Vec::new(),
    };
    let plain = replay_inputs(false, None, Some(Some(attestation()))).unwrap();
    assert!(plain.new_validators.is_empty() && plain.vote_addrs.is_none());
    assert_eq!(plain.attestation.unwrap().vote_address_set, 3);
    assert!(replay_inputs(false, None, None).is_none());
    assert!(replay_inputs(true, None, Some(None)).is_none());
    let answer = |validators, turn_length| Some(CheckpointAnswer { validators, turn_length });
    assert!(replay_inputs(true, answer(None, Some(None)), Some(None)).is_none());
    assert!(replay_inputs(true, answer(Some(info()), None), Some(None)).is_none());
    let full = replay_inputs(true, answer(Some(info()), Some(Some(4))), Some(None)).unwrap();
    assert_eq!(full.new_validators, vec![address(1)]);
    assert_eq!(full.turn_length, Some(4));
    assert!(full.attestation.is_none());
}

#[test]
fn a_rebuild_replays_what_its_walk_skipped() {
    let mut p = EnhancedDbSnapshotProvider::new(16);
    let h1 = header(1, hash(9));
    let h2 = header(2, h1.hash_slow());
    let h3 = header(3, h2.hash_slow());
    assert!(matches!(on_missing(None), Missing::Unknown));
    assert!(matches!(on_missing(Some(&header(0, hash(0)))), Missing::Genesis));
    let state = match on_missing(Some(&h3)) {
        Missing::Rebuild(state) => state,
        _ => panic!("the snapshot is to be rebuilt"),
    };
    assert!(matches!(state.action(), RebuildAction::FetchParent(h) if h == h2.hash_slow()));
    let (state, stored) = state.on_parent(&mut p, Some(&h2), None);
    assert!(stored.is_none());
    assert!(matches!(state.action(), RebuildAction::QueryStored(h) if h == h2.hash_slow()));
    let state = state.on_stored(&mut p, None);
    assert!(matches!(state.action(), RebuildAction::FetchParent(h) if h == h1.hash_slow()));
    let (state, _) = state.on_parent(&mut p, Some(&h1), None);
    let state = state.on_stored(&mut p, Some(snapshot(1, h1.hash_slow())));
    assert!(p.cached_snapshot_by_hash(&h1.hash_slow()).is_some());
    assert!(matches!(state.action(), RebuildAction::ApplyBlock(h) if h == h2.hash_slow()));
    let state = state.on_applied(Some(snapshot(2, h2.hash_slow())), false);
    assert!(matches!(state.action(), RebuildAction::ApplyBlock(h) if h == h3.hash_slow()));
    let done = match state.on_applied(Some(snapshot(3, h3.hash_slow())), false) {
        Rebuild::Finished(Some(done)) => done,
        _ => panic!("all blocks are applied"),
    };
    p.remember_rebuilt(&h3, &done);
    assert_eq!(number_of(p.cached_snapshot_by_hash(&h3.hash_slow())), Some(3));
}

#[test]
fn a_rebuild_starts_from_the_genesis_block() {
    let mut p = EnhancedDbSnapshotProvider::new(16);
    let genesis = header(0, hash(0));
    let h1 = header(1, genesis.hash_slow());
    let info = ValidatorsInfo { consensus_addrs: vec![address(1)], vote_addrs: None };
    let (state, stored) = Rebuild::start(&h1).on_parent(&mut p, Some(&genesis), Some(info));
    assert_eq!(stored.unwrap().block_hash, genesis.hash_slow());
    match state {
        Rebuild::Replay { working, queue, done } => {
            assert_eq!(working.validators, vec![address(1)]);
            assert_eq!((queue, done), (vec![h1.hash_slow()], 0));
        }
        _ => panic!("the block is to be replayed"),
    }
}

#[test]
fn a_rebuild_fails_where_something_is_missing() {
    let mut p = EnhancedDbSnapshotProvider::new(16);
    let h2 = header(1025, hash(1));
    let (state, _) = Rebuild::start(&h2).on_parent(&mut p, None, None);
    assert!(matches!(state.action(), RebuildAction::Finish));
    assert!(matches!(state, Rebuild::Finished(None)));
    let replay = || Rebuild::Replay {
        working: snapshot(1023, hash(1)),
        queue: vec![hash(2), hash(3)],
        done: 0,
    };
    assert!(matches!(replay().on_applied(None, true), Rebuild::Finished(None)));
    let checkpoint = snapshot(1024, hash(2));
    assert!(Rebuild::must_persist(&checkpoint));
    assert!(matches!(
        replay().on_applied(Some(checkpoint.clone()), false),
        Rebuild::Finished(None)
    ));
    assert!(matches!(
        replay().on_applied(Some(checkpoint), true),
        Rebuild::Replay { done: 1, .. }
    ));
}

#[test]
fn a_long_build_goes_chunk_by_chunk() {
    let mut p = EnhancedDbSnapshotProvider::new(16);
    let mut build = IncrementalBuild::start(snapshot(1022, hash(1)), 3000);
    assert_eq!(build.next_chunk(), Some((1023, 2046)));
    build = match build.on_applied(&mut p, Some(snapshot(1023, hash(2)))) {
        BuildStep::Applied(b) => b,
        _ => panic!("no checkpoint"),
    };
    assert!(p.cached_snapshot_by_hash(&hash(2)).is_none());
    build = match build.on_applied(&mut p, Some(snapshot(1024, hash(3)))) {
        BuildStep::Checkpoint(b) => b,
        _ => panic!("a checkpoint"),
    };
    assert!(p.cached_snapshot_by_hash(&hash(3)).is_some());
    assert!(matches!(p.walk_back(1023), WalkStep::Base(s) if s.block_number == 1023));
    assert!(!build.finish_chunk(2046));
    assert_eq!(build.next_chunk(), Some((2047, 3000)));
    assert!(!build.finish_chunk(3000));
    assert_eq!(build.next_chunk(), None);
    assert!(matches!(build.on_applied(&mut p, None), BuildStep::Failed));
    let mut far = IncrementalBuild::start(snapshot(49_000, hash(1)), 60_000);
    assert!(far.finish_chunk(49_999));
}

#[test]
fn a_chunk_with_a_gap_is_no_chunk() {
    let h1 = header(1, hash(1));
    let h2 = header(2, hash(2));
    let all = complete_chunk(vec![Some(h1.clone()), Some(h2)]).unwrap();
    assert_eq!((all.len(), all[1].number), (2, 2));
    assert!(complete_chunk(vec![Some(h1), None]).is_none());
}

#[test]
fn a_snapshot_stays_cached_until_it_has_to_make_room() {
    let mut p = EnhancedDbSnapshotProvider::new(3);
    for i in 1..=3u8 {
        p.insert(&snapshot(i as u64, hash(i)));
    }
    p.insert(&snapshot(2, hash(2)));
    for i in 1..=3u8 {
        assert_eq!(number_of(p.cached_snapshot_by_hash(&hash(i))), Some(i as u64));
    }
    p.insert(&snapshot(4, hash(4)));
    assert_eq!(number_of(p.cached_snapshot_by_hash(&hash(1))), None);
    for i in 2..=4u8 {
        assert_eq!(number_of(p.cached_snapshot_by_hash(&hash(i))), Some(i as u64));
    }
    p.remember_rebuilt(&header(7, hash(6)), &snapshot(7, hash(7)));
    let key = header(7, hash(6)).hash_slow();
    assert_eq!(number_of(p.cached_snapshot_by_hash(&key)), Some(7));
    assert!(matches!(p.walk_back(7), WalkStep::Base(s) if s.block_number == 7));
    assert_eq!(number_of(p.on_stored_snapshot(&hash(9), Some(snapshot(9, hash(9))))), Some(9));
    assert_eq!(number_of(p.cached_snapshot_by_hash(&hash(9))), Some(9));
}

#[test]
fn a_cache_without_room_holds_nothing() {
    let mut p = DbSnapshotProvider::new(0);
    assert!(p.insert(&snapshot(2048, hash(1))));
    assert_eq!(number_of(p.cached_snapshot(2048)), None);
    assert_eq!(number_of(p.cached_snapshot_by_hash(&hash(1))), None);
}

fn built(base: Snapshot, target: u64, missing: Option<u64>) -> Option<Snapshot> {
    let mut p = EnhancedDbSnapshotProvider::new(16);
    let mut build = IncrementalBuild::start(base, target);
    while let Some((first, last)) = build.next_chunk() {
        let headers = (first..=last)
            .map(|n| if Some(n) == missing { None } else { Some(header(n, hash(1))) })
            .collect();
        for h in complete_chunk(headers)? {
            let mut applied = build.working.clone();
            applied.recent_proposers.insert(h.number, address(h.number as u8));
            applied.recent_proposers.remove(&(h.number - 3));
            applied.block_number = h.number;
            applied.block_hash = h.hash_slow();
            build = match build.on_applied(&mut p, Some(applied)) {
                BuildStep::Applied(next) | BuildStep::Checkpoint(next) => next,
                BuildStep::Failed => return None,
            };
        }
        build.finish_chunk(last);
    }
    Some(build.working)
}

fn assert_same(a: &Snapshot, b: &Snapshot) {
    assert_eq!((a.block_number, a.block_hash), (b.block_number, b.block_hash));
    assert_eq!(a.recent_proposers, b.recent_proposers);
}

#[test]
fn a_build_can_be_interrupted_anywhere() {
    let base = snapshot(1000, hash(1));
    let whole = built(base.clone(), 3100, None).unwrap();
    assert_eq!(whole.block_number, 3100);
    assert_eq!(whole.recent_proposers.len(), 3);
    for mid in [1000, 1001, 1024, 2023, 2024, 2025, 2048, 3100] {
        let part = built(base.clone(), mid, None).unwrap();
        assert_eq!(part.block_number, mid);
        assert_same(&built(part, 3100, None).unwrap(), &whole);
    }
    for missing in [1001, 2024, 2025, 3100] {
        assert!(built(base.clone(), 3100, Some(missing)).is_none());
    }
    assert!(built(base, 3100, Some(3101)).is_some());
}

struct Blocks {
    headers: Vec<Header>,
    missing: Option<u64>,
    stored: Vec<u64>,
    written: bool,
}

impl Blocks {
    fn find(&self, h: &B256) -> Option<&Header> {
        let header = self.headers.iter().find(|x| x.hash_slow() == *h)?;
        if Some(header.number) == self.missing {
            return None;
        }
        Some(header)
    }

    fn rebuilt(&self, p: &mut EnhancedDbSnapshotProvider, target: &Header) -> Option<Snapshot> {
        let mut state = Rebuild::start(target);
        loop {
            state = match state.action() {
                RebuildAction::FetchParent(h) => state.on_parent(p, self.find(&h), None).0,
                RebuildAction::QueryStored(h) => {
                    let number = self.find(&h)?.number;
                    let stored = if self.stored.contains(&number) { Some(snapshot(number, h)) } else { None };
                    state.on_stored(p, stored)
                }
                RebuildAction::ApplyBlock(h) => {
                    let Rebuild::Replay { working, .. } = &state else { return None };
                    let applied = self.find(&h).map(|header| {
                        assert_eq!(working.block_number + 1, header.number);
                        let mut next = working.clone();
                        next.recent_proposers.insert(header.number, address(1));
                        next.block_number = header.number;
                        next.block_hash = h;
                        next
                    });
                    state.on_applied(applied, self.written)
                }
                RebuildAction::Finish => match state {
                    Rebuild::Finished(r) => return r,
                    _ => return None,
                },
            };
        }
    }
}

#[test]
fn a_rebuild_applies_the_blocks_above_the_nearest_known_snapshot() {
    let mut headers = vec![header(1020, hash(1))];
    for n in 1021..=1030 {
        headers.push(header(n, headers.last().unwrap().hash_slow()));
    }
    let target = headers.last().unwrap().clone();
    let blocks = |missing, stored: &[u64], written| Blocks {
        headers: headers.clone(),
        missing,
        stored: stored.to_vec(),
        written,
    };
    let fresh = || EnhancedDbSnapshotProvider::new(16);
    let first = |s: &Snapshot| s.recent_proposers.iter().next().map(|(n, _)| *n);
    let done = blocks(None, &[1021, 1025], false).rebuilt(&mut fresh(), &target).unwrap();
    assert_eq!((done.block_number, done.block_hash), (1030, target.hash_slow()));
    assert_eq!((first(&done), done.recent_proposers.len()), (Some(1026), 5));
    let mut p = fresh();
    p.insert(&snapshot(1027, headers[7].hash_slow()));
    let done = blocks(None, &[1021, 1025], false).rebuilt(&mut p, &target).unwrap();
    assert_eq!((first(&done), done.recent_proposers.len()), (Some(1028), 3));
    let done = blocks(None, &[1021], true).rebuilt(&mut fresh(), &target).unwrap();
    assert_eq!((first(&done), done.recent_proposers.len()), (Some(1022), 9));
    assert!(blocks(None, &[1021], false).rebuilt(&mut fresh(), &target).is_none());
    assert!(blocks(Some(1026), &[1021], true).rebuilt(&mut fresh(), &target).is_none());
    assert!(blocks(None, &[], true).rebuilt(&mut fresh(), &target).is_none());
}
