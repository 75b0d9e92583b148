//! Where snapshots come from: caches, the database, and replaying headers on an older snapshot.

use crate::header::Header;
use crate::primitives::Address;
use crate::primitives::VoteAddress;
use crate::primitives::B256;
use crate::recency::inserted;
use crate::recency::lemma_inserted;
use crate::recency::lemma_touched;
use crate::recency::lemma_touched_len;
use crate::recency::makes_room;
use crate::recency::recall;
use crate::recency::touched;
use crate::recency::TABLE_ENTRIES;
use crate::snapshot::addresses;
use crate::snapshot::indexed;
use crate::snapshot::keys_of;
use crate::snapshot::opt_view;
use crate::snapshot::paired;
use crate::snapshot::snapshot_view;
use crate::snapshot::sorted_pairs;
use crate::snapshot::Snapshot;
use crate::snapshot::SnapshotView;
use crate::snapshot::CHECKPOINT_INTERVAL;
use crate::vote::VoteAttestation;
use vstd::prelude::*;

verus! {

/// How many snapshots a copy of a provider caches.
pub const CLONED_CACHE_SIZE: usize = 2048;

/// How many headers are replayed at a time.
pub const CHUNK_SIZE: u64 = 1024;

/// Every how many blocks progress is logged.
pub const PROGRESS_INTERVAL: u64 = 50000;

/// The validators that a header announces.
#[derive(Debug)]
pub struct ValidatorsInfo {
    /// Their addresses.
    pub consensus_addrs: Vec<Address>,
    /// Their keys, from the fork that has votes on.
    pub vote_addrs: Option<Vec<VoteAddress>>,
}

/// The snapshots of recent blocks by number.
#[verifier::external_body]
pub struct SnapshotsByNumber {
    map: schnellru::LruMap<u64, Snapshot, schnellru::ByLength>,
}

/// The snapshots that are cached by number, the one used last first.
pub uninterp spec fn snapshots_by_number(c: SnapshotsByNumber) -> Seq<(u64, SnapshotView)>;

/// How many snapshots can be cached by number.
pub uninterp spec fn by_number_limit(c: SnapshotsByNumber) -> nat;

impl SnapshotsByNumber {
    /// `schnellru::LruMap::new` with `ByLength`: an empty map that holds at most that many
    /// entries.
    #[verifier::external_body]
    fn new(limit: u32) -> (c: SnapshotsByNumber)
        ensures
            snapshots_by_number(c) == Seq::<(u64, SnapshotView)>::empty(),
            by_number_limit(c) == limit,
    {
        SnapshotsByNumber { map: schnellru::LruMap::new(schnellru::ByLength::new(limit)) }
    }

    /// `schnellru::LruMap::get`: the value under the key, whose entry becomes the one used last.
    #[verifier::external_body]
    fn get(&mut self, k: u64) -> (r: Option<Snapshot>)
        ensures
            opt_view(r) == recall(snapshots_by_number(*old(self)), k),
            snapshots_by_number(*final(self)) == touched(snapshots_by_number(*old(self)), k),
            by_number_limit(*final(self)) == by_number_limit(*old(self)),
    {
        self.map.get(&k).cloned()
    }

    /// `schnellru::LruMap::insert`: stores the value under the key as the entry used last, in the
    /// place of the one under that key where there is one. A new entry that the limit has no room
    /// for drops the one used longest ago. The result says whether the value was taken: always,
    /// unless the limit is zero, where nothing changes. Said of a process that gets the memory it
    /// asks for: where the table cannot be allocated, `insert` drops more entries, or the new one.
    #[verifier::external_body]
    fn insert(&mut self, k: u64, snapshot: Snapshot) -> (r: bool)
        ensures
            r == (by_number_limit(*old(self)) > 0),
            inserted(
                snapshots_by_number(*old(self)),
                by_number_limit(*old(self)),
                k,
                snapshot@,
                snapshots_by_number(*final(self)),
            ),
            by_number_limit(*final(self)) == by_number_limit(*old(self)),
    {
        self.map.insert(k, snapshot)
    }
}

/// The snapshots of recent blocks by hash.
#[verifier::external_body]
pub struct SnapshotsByHash {
    map: schnellru::LruMap<[u8; 32], Snapshot, schnellru::ByLength>,
}

/// The snapshots that are cached by hash, the one used last first.
pub uninterp spec fn snapshots_by_hash(c: SnapshotsByHash) -> Seq<(Seq<u8>, SnapshotView)>;

/// How many snapshots can be cached by hash.
pub uninterp spec fn by_hash_limit(c: SnapshotsByHash) -> nat;

impl SnapshotsByHash {
    /// `schnellru::LruMap::new` with `ByLength`: an empty map that holds at most that many
    /// entries.
    #[verifier::external_body]
    fn new(limit: u32) -> (c: SnapshotsByHash)
        ensures
            snapshots_by_hash(c) == Seq::<(Seq<u8>, SnapshotView)>::empty(),
            by_hash_limit(c) == limit,
    {
        SnapshotsByHash { map: schnellru::LruMap::new(schnellru::ByLength::new(limit)) }
    }

    /// `schnellru::LruMap::get`: the value under the key, whose entry becomes the one used last.
    #[verifier::external_body]
    fn get(&mut self, k: &[u8; 32]) -> (r: Option<Snapshot>)
        ensures
            opt_view(r) == recall(snapshots_by_hash(*old(self)), k@),
            snapshots_by_hash(*final(self)) == touched(snapshots_by_hash(*old(self)), k@),
            by_hash_limit(*final(self)) == by_hash_limit(*old(self)),
    {
        self.map.get(k).cloned()
    }

    /// `schnellru::LruMap::insert`: stores the value under the key as the entry used last, in the
    /// place of the one under that key where there is one. A new entry that the limit has no room
    /// for drops the one used longest ago. The result says whether the value was taken: always,
    /// unless the limit is zero, where nothing changes. Said of a process that gets the memory it
    /// asks for: where the table cannot be allocated, `insert` drops more entries, or the new one.
    #[verifier::external_body]
    fn insert(&mut self, k: &[u8; 32], snapshot: Snapshot) -> (r: bool)
        ensures
            r == (by_hash_limit(*old(self)) > 0),
            inserted(
                snapshots_by_hash(*old(self)),
                by_hash_limit(*old(self)),
                k@,
                snapshot@,
                snapshots_by_hash(*final(self)),
            ),
            by_hash_limit(*final(self)) == by_hash_limit(*old(self)),
    {
        self.map.insert(*k, snapshot)
    }
}

/// A row that a scan of the database came upon.
pub enum ScanRow {
    /// A snapshot.
    Snapshot(Snapshot),
    /// Bytes that are no snapshot.
    Unreadable,
    /// The scan failed.
    Failed,
}

/// The last snapshot of a scan before it failed or ended.
pub open spec fn last_readable(rows: Seq<ScanRow>) -> Option<SnapshotView>
    decreases rows.len(),
{
    if rows.len() == 0 {
        None
    } else {
        match rows[0] {
            ScanRow::Failed => None,
            ScanRow::Unreadable => last_readable(rows.drop_first()),
            ScanRow::Snapshot(s) => match last_readable(rows.drop_first()) {
                Some(later) => Some(later),
                None => Some(s@),
            },
        }
    }
}

/// Picks the snapshot that the database has for a block: the one stored under its number, else
/// the latest that stands before it.
pub fn pick_from_db(exact: Option<Snapshot>, earlier: Vec<ScanRow>) -> (r: Option<Snapshot>)
    ensures
        opt_view(r) == match exact {
            Some(s) => Some(s@),
            None => last_readable(earlier@),
        },
        exact is Some ==> r == exact,
{
    if exact.is_some() {
        return exact;
    }
    let mut last: Option<&Snapshot> = None;
    let mut i: usize = 0;
    proof {
        assert(earlier@.skip(0) =~= earlier@);
    }
    while i < earlier.len()
        invariant_except_break
            last_readable(earlier@) == match last_readable(earlier@.skip(i as int)) {
                Some(s) => Some(s),
                None => snapshot_view(last),
            },
        invariant
            i <= earlier@.len(),
        ensures
            snapshot_view(last) == last_readable(earlier@),
        decreases earlier@.len() - i,
    {
        proof {
            assert(earlier@.skip(i as int).drop_first() =~= earlier@.skip(i + 1));
        }
        match &earlier[i] {
            ScanRow::Snapshot(s) => {
                last = Some(s);
            },
            ScanRow::Unreadable => {},
            ScanRow::Failed => {
                break;
            },
        }
        i += 1;
    }
    match last {
        Some(s) => Some(s.clone()),
        None => None,
    }
}

/// A provider's caches.
pub struct DbSnapshotProvider {
    cache: SnapshotsByNumber,
    cache_by_hash: SnapshotsByHash,
}

impl DbSnapshotProvider {
    /// The snapshots cached by number, the one used last first.
    pub closed spec fn by_number(&self) -> Seq<(u64, SnapshotView)> {
        snapshots_by_number(self.cache)
    }

    /// The snapshots cached by hash, the one used last first.
    pub closed spec fn by_hash(&self) -> Seq<(Seq<u8>, SnapshotView)> {
        snapshots_by_hash(self.cache_by_hash)
    }

    /// How many snapshots each cache can hold.
    pub closed spec fn limit(&self) -> nat {
        by_number_limit(self.cache)
    }

    /// The caches are of one size, which they keep to.
    pub closed spec fn wf(&self) -> bool {
        &&& by_hash_limit(self.cache_by_hash) == self.limit()
        &&& self.by_number().len() <= self.limit()
        &&& self.by_hash().len() <= self.limit()
    }

    /// Empty caches; the capacity counts modulo two to the power of 32.
    pub fn new(capacity: usize) -> (r: Self)
        ensures
            r.wf(),
            r.limit() == capacity as u32,
            r.by_number() == Seq::<(u64, SnapshotView)>::empty(),
            r.by_hash() == Seq::<(Seq<u8>, SnapshotView)>::empty(),
    {
        let limit: u32 = #[verifier::truncate]
        (capacity as u32);
        DbSnapshotProvider {
            cache: SnapshotsByNumber::new(limit),
            cache_by_hash: SnapshotsByHash::new(limit),
        }
    }

    /// What a copy of a provider starts with: empty caches.
    pub fn fresh() -> (r: Self)
        ensures
            r.wf(),
            r.limit() == CLONED_CACHE_SIZE,
            r.by_number() == Seq::<(u64, SnapshotView)>::empty(),
            r.by_hash() == Seq::<(Seq<u8>, SnapshotView)>::empty(),
    {
        DbSnapshotProvider::new(CLONED_CACHE_SIZE)
    }

    /// The cached snapshot of a block; where there is none, the database has to be asked.
    pub fn cached_snapshot(&mut self, block_number: u64) -> (r: Option<Snapshot>)
        requires
            old(self).wf(),
        ensures
            final(self).wf(),
            final(self).limit() == old(self).limit(),
            opt_view(r) == recall(old(self).by_number(), block_number),
            final(self).by_number() == touched(old(self).by_number(), block_number),
            final(self).by_hash() == old(self).by_hash(),
    {
        let r = self.cache.get(block_number);
        proof {
            lemma_touched_len(old(self).by_number(), block_number);
        }
        r
    }

    /// Caches a snapshot under a block number.
    pub fn cache_by_number(&mut self, block_number: u64, snapshot: &Snapshot)
        requires
            old(self).wf(),
        ensures
            final(self).wf(),
            final(self).limit() == old(self).limit(),
            inserted(
                old(self).by_number(),
                old(self).limit(),
                block_number,
                snapshot@,
                final(self).by_number(),
            ),
            old(self).limit() > 0 ==> recall(final(self).by_number(), block_number)
                == Some(snapshot@),
            final(self).by_hash() == old(self).by_hash(),
    {
        self.cache.insert(block_number, snapshot.clone());
        proof {
            lemma_inserted(
                old(self).by_number(),
                old(self).limit(),
                block_number,
                snapshot@,
                self.by_number(),
                block_number,
            );
        }
    }

    /// The cached snapshot of the block with a hash; where there is none, the database has to be
    /// asked.
    pub fn cached_snapshot_by_hash(&mut self, block_hash: &B256) -> (r: Option<Snapshot>)
        requires
            old(self).wf(),
        ensures
            final(self).wf(),
            final(self).limit() == old(self).limit(),
            opt_view(r) == recall(old(self).by_hash(), block_hash@),
            final(self).by_hash() == touched(old(self).by_hash(), block_hash@),
            final(self).by_number() == old(self).by_number(),
    {
        let r = self.cache_by_hash.get(&block_hash.bytes);
        proof {
            lemma_touched_len(old(self).by_hash(), block_hash@);
        }
        r
    }

    /// Caches a snapshot under a block hash.
    pub fn cache_by_block_hash(&mut self, block_hash: &B256, snapshot: &Snapshot)
        requires
            old(self).wf(),
        ensures
            final(self).wf(),
            final(self).limit() == old(self).limit(),
            inserted(
                old(self).by_hash(),
                old(self).limit(),
                block_hash@,
                snapshot@,
                final(self).by_hash(),
            ),
            old(self).limit() > 0 ==> recall(final(self).by_hash(), block_hash@) == Some(snapshot@),
            final(self).by_number() == old(self).by_number(),
    {
        self.cache_by_hash.insert(&block_hash.bytes, snapshot.clone());
        proof {
            lemma_inserted(
                old(self).by_hash(),
                old(self).limit(),
                block_hash@,
                snapshot@,
                self.by_hash(),
                block_hash@,
            );
        }
    }

    /// Caches a snapshot under its number and its hash. It says whether the snapshot is one that
    /// is written to the database.
    pub fn insert(&mut self, snapshot: &Snapshot) -> (r: bool)
        requires
            old(self).wf(),
        ensures
            final(self).wf(),
            final(self).limit() == old(self).limit(),
            inserted(
                old(self).by_number(),
                old(self).limit(),
                snapshot.block_number,
                snapshot@,
                final(self).by_number(),
            ),
            old(self).limit() > 0 ==> recall(final(self).by_number(), snapshot.block_number)
                == Some(snapshot@),
            inserted(
                old(self).by_hash(),
                old(self).limit(),
                snapshot.block_hash@,
                snapshot@,
                final(self).by_hash(),
            ),
            old(self).limit() > 0 ==> recall(final(self).by_hash(), snapshot.block_hash@)
                == Some(snapshot@),
            r == is_checkpoint(snapshot.block_number),
    {
        self.cache_by_number(snapshot.block_number, snapshot);
        self.cache_by_block_hash(&snapshot.block_hash, snapshot);
        snapshot.block_number % CHECKPOINT_INTERVAL == 0
    }
}

/// Whether the snapshot of a block is written to the database.
pub open spec fn is_checkpoint(block_number: u64) -> bool {
    block_number % CHECKPOINT_INTERVAL == 0
}

/// Where a walk back from a block ends: at the highest block that is cached or whose snapshot
/// would be in the database.
pub open spec fn walk_stop(c: Seq<(u64, SnapshotView)>, from: int) -> int
    decreases from,
{
    if from <= 0 || recall(c, from as u64) is Some || from % CHECKPOINT_INTERVAL as int == 0 {
        from
    } else {
        walk_stop(c, from - 1)
    }
}

/// What a walk back to a base snapshot needs next.
pub enum WalkStep {
    /// Nothing: this is the base.
    Base(Snapshot),
    /// The snapshot that the database has for this block.
    LoadCheckpoint(u64),
    /// The header of the genesis block.
    NeedGenesis,
}

/// The result of a walk back from `from` over the cache `c`, which becomes `after`.
pub open spec fn walked(
    c: Seq<(u64, SnapshotView)>,
    from: int,
    r: WalkStep,
    after: Seq<(u64, SnapshotView)>,
) -> bool {
    let m = walk_stop(c, from) as u64;
    match recall(c, m) {
        Some(v) => r matches WalkStep::Base(s) && s@ == v && after == touched(c, m),
        None => r == WalkStep::LoadCheckpoint(m) && is_checkpoint(m) && after == c,
    }
}

/// The block whose header announces the validators that take over with block `number`; none where
/// no epoch begins to count there.
pub open spec fn epoch_checkpoint(snap: SnapshotView, number: u64) -> Option<u64> {
    if number > 0 && number % snap.epoch_num == snap.check_len() {
        Some((number - snap.check_len()) as u64)
    } else {
        None
    }
}

/// Whether validators take over with block `number`, and which block's header announces them.
pub fn checkpoint_for(snap: &Snapshot, number: u64) -> (r: Option<u64>)
    requires
        snap@.valid(),
    ensures
        r == epoch_checkpoint(snap@, number),
{
    let epoch_remainder: u64 = number % snap.epoch_num;
    let miner_check_len: u64 = snap.miner_history_check_len();
    if number > 0 && epoch_remainder == miner_check_len {
        proof {
            assert(number % snap.epoch_num <= number) by (nonlinear_arith)
                requires
                    snap.epoch_num > 0,
            ;
        }
        Some(number - miner_check_len)
    } else {
        None
    }
}

/// Validators take over half a round after the block that announces them, and that block is the first
/// of an epoch.
pub proof fn law_validators_are_announced_at_epoch_start(snap: SnapshotView, number: u64)
    requires
        snap.valid(),
    ensures
        epoch_checkpoint(snap, number) matches Some(announced) ==> announced % snap.epoch_num == 0
            && number == announced + snap.check_len(),
{
    if epoch_checkpoint(snap, number) is Some {
        let e = snap.epoch_num as int;
        let n = number as int;
        vstd::arithmetic::div_mod::lemma_fundamental_div_mod(n, e);
        assert(n - n % e == e * (n / e));
        vstd::arithmetic::div_mod::lemma_mod_multiples_basic(n / e, e);
        assert((e * (n / e)) % e == 0) by (nonlinear_arith)
            requires
                ((n / e) * e) % e == 0,
        ;
    }
}

/// What the header that announces validators says, as far as it could be read.
pub struct CheckpointAnswer {
    /// The validators.
    pub validators: Option<ValidatorsInfo>,
    /// The turn length, where the header has one.
    pub turn_length: Option<Option<u8>>,
}

/// What a header is applied to a snapshot with.
pub struct ReplayInputs {
    /// The validators that take over; none where none do.
    pub new_validators: Vec<Address>,
    /// Their keys.
    pub vote_addrs: Option<Vec<VoteAddress>>,
    /// The attestation that the header carries.
    pub attestation: Option<VoteAttestation>,
    /// The turn length that takes effect.
    pub turn_length: Option<u8>,
}

/// Puts together what a header is applied with. `boundary` says whether validators take over;
/// `checkpoint` is what the header that announces them says, and `attestation` the header's own,
/// as far as they could be had. Where something is missing the header cannot be applied.
pub fn replay_inputs(
    boundary: bool,
    checkpoint: Option<CheckpointAnswer>,
    attestation: Option<Option<VoteAttestation>>,
) -> (r: Option<ReplayInputs>)
    ensures
        r is Some <==> attestation is Some && (boundary ==> (checkpoint matches Some(c)
            && c.validators is Some && c.turn_length is Some)),
        r matches Some(inputs) ==> {
            &&& inputs.attestation == attestation->0
            &&& if boundary {
                &&& inputs.new_validators == checkpoint->0.validators->0.consensus_addrs
                &&& inputs.vote_addrs == checkpoint->0.validators->0.vote_addrs
                &&& inputs.turn_length == checkpoint->0.turn_length->0
            } else {
                &&& inputs.new_validators@.len() == 0
                &&& inputs.vote_addrs is None
                &&& inputs.turn_length is None
            }
        },
        r matches Some(inputs) ==> attestation == Some(inputs.attestation) && (boundary
            ==> checkpoint == Some(
            CheckpointAnswer {
                validators: Some(
                    ValidatorsInfo {
                        consensus_addrs: inputs.new_validators,
                        vote_addrs: inputs.vote_addrs,
                    },
                ),
                turn_length: Some(inputs.turn_length),
            },
        )),
        attestation is None ==> r is None,
{
    let (info, turn_length) = if boundary {
        match checkpoint {
            Some(CheckpointAnswer { validators: Some(info), turn_length: Some(turn_length) }) => (
                info,
                turn_length,
            ),
            _ => {
                return None;
            },
        }
    } else {
        (ValidatorsInfo { consensus_addrs: Vec::new(), vote_addrs: None }, None)
    };
    match attestation {
        Some(attestation) => Some(
            ReplayInputs {
                new_validators: info.consensus_addrs,
                vote_addrs: info.vote_addrs,
                attestation,
                turn_length,
            },
        ),
        None => None,
    }
}

/// A provider that finds snapshots which are neither cached nor in the database by replaying
/// headers on an older one.
pub struct EnhancedDbSnapshotProvider {
    base: DbSnapshotProvider,
}

/// The epoch length by which headers are read.
pub const PARLIA_EPOCH: u64 = 200;

/// Whether the keys, where there are any, are as many as the validators.
pub open spec fn keys_match(info: ValidatorsInfo) -> bool {
    &&& info.vote_addrs matches Some(v) ==> v@.len() == info.consensus_addrs@.len()
    &&& info.consensus_addrs@.len() < u64::MAX
}

/// A snapshot is that of the genesis block with these validators.
pub open spec fn is_genesis_snapshot(s: Snapshot, header: Header, info: ValidatorsInfo) -> bool {
    &&& s.block_number == 0
    &&& s.block_hash@ == header.digest()
    &&& s.epoch_num == PARLIA_EPOCH
    &&& exists|sorted: Seq<(Address, VoteAddress)>| #[trigger]
        sorted_pairs(sorted, info.consensus_addrs@, keys_of(info.vote_addrs)) && s.validators@
            == addresses(sorted) && s.validators_map@ == indexed(sorted)
    &&& s@.untouched()
    &&& s@.valid()
}

impl EnhancedDbSnapshotProvider {
    /// The snapshots cached by number, the one used last first.
    pub closed spec fn by_number(&self) -> Seq<(u64, SnapshotView)> {
        self.base.by_number()
    }

    /// The snapshots cached by hash, the one used last first.
    pub closed spec fn by_hash(&self) -> Seq<(Seq<u8>, SnapshotView)> {
        self.base.by_hash()
    }

    /// How many snapshots each cache can hold.
    pub closed spec fn limit(&self) -> nat {
        self.base.limit()
    }

    /// The caches are of one size, which they keep to.
    pub closed spec fn wf(&self) -> bool {
        self.base.wf()
    }

    /// Empty caches; the capacity counts modulo two to the power of 32.
    pub fn new(capacity: usize) -> (r: Self)
        ensures
            r.wf(),
            r.limit() == capacity as u32,
            r.by_number() == Seq::<(u64, SnapshotView)>::empty(),
            r.by_hash() == Seq::<(Seq<u8>, SnapshotView)>::empty(),
    {
        EnhancedDbSnapshotProvider { base: DbSnapshotProvider::new(capacity) }
    }

    /// Caches a snapshot under its number and its hash. It says whether the snapshot is one that
    /// is written to the database.
    pub fn insert(&mut self, snapshot: &Snapshot) -> (r: bool)
        requires
            old(self).wf(),
        ensures
            final(self).wf(),
            final(self).limit() == old(self).limit(),
            inserted(
                old(self).by_number(),
                old(self).limit(),
                snapshot.block_number,
                snapshot@,
                final(self).by_number(),
            ),
            old(self).limit() > 0 ==> recall(final(self).by_number(), snapshot.block_number)
                == Some(snapshot@),
            inserted(
                old(self).by_hash(),
                old(self).limit(),
                snapshot.block_hash@,
                snapshot@,
                final(self).by_hash(),
            ),
            old(self).limit() > 0 ==> recall(final(self).by_hash(), snapshot.block_hash@)
                == Some(snapshot@),
            r == is_checkpoint(snapshot.block_number),
    {
        self.base.insert(snapshot)
    }

    /// Walks back from a block to the highest one whose snapshot is cached, or whose snapshot the
    /// database would have.
    pub fn walk_back(&mut self, from: u64) -> (r: WalkStep)
        requires
            old(self).wf(),
        ensures
            final(self).wf(),
            final(self).limit() == old(self).limit(),
            final(self).by_hash() == old(self).by_hash(),
            walked(old(self).by_number(), from as int, r, final(self).by_number()),
    {
        let ghost c = self.by_number();
        let mut current_block: u64 = from;
        loop
            invariant
                self.wf(),
                c == self.by_number(),
                c == old(self).by_number(),
                self.by_hash() == old(self).by_hash(),
                self.limit() == old(self).limit(),
                current_block <= from,
                walk_stop(c, from as int) == walk_stop(c, current_block as int),
            decreases current_block,
        {
            let ghost n = current_block;
            match self.base.cached_snapshot(current_block) {
                Some(snap) => {
                    proof {
                        assert(recall(c, n) == Some(snap@));
                        assert(walk_stop(c, n as int) == n as int);
                    }
                    return WalkStep::Base(snap);
                },
                None => {},
            }
            proof {
                assert(touched(c, n) == c);
            }
            if current_block % CHECKPOINT_INTERVAL == 0 {
                proof {
                    assert(walk_stop(c, n as int) == n as int);
                }
                return WalkStep::LoadCheckpoint(current_block);
            }
            current_block = current_block - 1;
        }
    }

    /// Goes on with a walk that asked for the snapshot of a block from the database: it is the
    /// base if it is of that very block; else the walk goes on, up to the genesis block.
    pub fn on_checkpoint(&mut self, number: u64, loaded: Option<Snapshot>) -> (r: WalkStep)
        requires
            old(self).wf(),
            is_checkpoint(number),
        ensures
            final(self).wf(),
            final(self).limit() == old(self).limit(),
            final(self).by_hash() == old(self).by_hash(),
            if loaded matches Some(s) && s.block_number == number {
                &&& r == WalkStep::Base(loaded->0)
                &&& inserted(
                    old(self).by_number(),
                    old(self).limit(),
                    number,
                    loaded->0@,
                    final(self).by_number(),
                )
                &&& old(self).limit() > 0 ==> recall(final(self).by_number(), number) == Some(
                    loaded->0@,
                )
            } else if number == 0 {
                r == WalkStep::NeedGenesis && final(self).by_number() == old(self).by_number()
            } else {
                walked(old(self).by_number(), number - 1, r, final(self).by_number())
            },
            r is NeedGenesis <==> number == 0 && !(loaded matches Some(s) && s.block_number == 0),
    {
        match loaded {
            Some(snap) => {
                if snap.block_number == number {
                    self.base.cache_by_number(number, &snap);
                    return WalkStep::Base(snap);
                }
            },
            None => {},
        }
        if number == 0 {
            return WalkStep::NeedGenesis;
        }
        self.walk_back(number - 1)
    }

    /// The base snapshot of a walk that reached the genesis block: nothing where the header or its
    /// validators are missing. The caller writes it to the database.
    pub fn on_genesis(&mut self, header: Option<&Header>, validators: Option<ValidatorsInfo>) -> (r:
        Option<Snapshot>)
        requires
            old(self).wf(),
            validators matches Some(info) ==> keys_match(info),
        ensures
            final(self).wf(),
            final(self).limit() == old(self).limit(),
            final(self).by_hash() == old(self).by_hash(),
            r is Some <==> header is Some && validators is Some,
            r is None ==> final(self).by_number() == old(self).by_number(),
            r matches Some(s) ==> {
                &&& is_genesis_snapshot(s, *header->0, validators->0)
                &&& inserted(
                    old(self).by_number(),
                    old(self).limit(),
                    0,
                    s@,
                    final(self).by_number(),
                )
                &&& old(self).limit() > 0 ==> recall(final(self).by_number(), 0u64) == Some(s@)
            },
    {
        match (header, validators) {
            (Some(header), Some(info)) => {
                let snap = Self::genesis_snapshot(header, info);
                self.base.cache_by_number(0, &snap);
                Some(snap)
            },
            _ => None,
        }
    }

    /// The snapshot of the genesis block, which is cached under its number and its hash; nothing
    /// where its validators could not be read. The caller writes it to the database.
    pub fn init_genesis_snapshot(&mut self, header: &Header, validators: Option<ValidatorsInfo>) -> (r:
        Option<Snapshot>)
        requires
            old(self).wf(),
            validators matches Some(info) ==> keys_match(info),
        ensures
            final(self).wf(),
            final(self).limit() == old(self).limit(),
            r is Some <==> validators is Some,
            r is None ==> final(self).by_number() == old(self).by_number()
                && final(self).by_hash() == old(self).by_hash(),
            r matches Some(s) ==> {
                &&& is_genesis_snapshot(s, *header, validators->0)
                &&& inserted(
                    old(self).by_number(),
                    old(self).limit(),
                    0,
                    s@,
                    final(self).by_number(),
                )
                &&& old(self).limit() > 0 ==> recall(final(self).by_number(), 0u64) == Some(s@)
                &&& inserted(
                    old(self).by_hash(),
                    old(self).limit(),
                    header.digest(),
                    s@,
                    final(self).by_hash(),
                )
                &&& old(self).limit() > 0 ==> recall(final(self).by_hash(), header.digest())
                    == Some(s@)
            },
    {
        match validators {
            Some(info) => {
                let snap = Self::genesis_snapshot(header, info);
                self.base.insert(&snap);
                Some(snap)
            },
            None => None,
        }
    }

    fn genesis_snapshot(header: &Header, info: ValidatorsInfo) -> (r: Snapshot)
        requires
            keys_match(info),
        ensures
            is_genesis_snapshot(r, *header, info),
    {
        Snapshot::new(
            info.consensus_addrs,
            0,
            header.hash_slow(),
            PARLIA_EPOCH,
            info.vote_addrs,
        )
    }

    /// The cached snapshot of the block with a hash.
    pub fn cached_snapshot_by_hash(&mut self, block_hash: &B256) -> (r: Option<Snapshot>)
        requires
            old(self).wf(),
        ensures
            final(self).wf(),
            final(self).limit() == old(self).limit(),
            opt_view(r) == recall(old(self).by_hash(), block_hash@),
            final(self).by_hash() == touched(old(self).by_hash(), block_hash@),
            final(self).by_number() == old(self).by_number(),
    {
        self.base.cached_snapshot_by_hash(block_hash)
    }

    /// The answer to a question for a snapshot by hash that the caches could not answer: what the
    /// database has is cached.
    pub fn on_stored_snapshot(&mut self, block_hash: &B256, stored: Option<Snapshot>) -> (r: Option<
        Snapshot,
    >)
        requires
            old(self).wf(),
        ensures
            final(self).wf(),
            final(self).limit() == old(self).limit(),
            final(self).by_number() == old(self).by_number(),
            r == stored,
            match stored {
                Some(s) => {
                    &&& inserted(
                        old(self).by_hash(),
                        old(self).limit(),
                        block_hash@,
                        s@,
                        final(self).by_hash(),
                    )
                    &&& old(self).limit() > 0 ==> recall(final(self).by_hash(), block_hash@)
                        == Some(s@)
                },
                None => final(self).by_hash() == old(self).by_hash(),
            },
    {
        match stored {
            Some(snap) => {
                self.base.cache_by_block_hash(block_hash, &snap);
                Some(snap)
            },
            None => None,
        }
    }

    /// Caches a snapshot that was built, under its number.
    pub fn cache_built(&mut self, snapshot: &Snapshot)
        requires
            old(self).wf(),
        ensures
            final(self).wf(),
            final(self).limit() == old(self).limit(),
            inserted(
                old(self).by_number(),
                old(self).limit(),
                snapshot.block_number,
                snapshot@,
                final(self).by_number(),
            ),
            old(self).limit() > 0 ==> recall(final(self).by_number(), snapshot.block_number)
                == Some(snapshot@),
            final(self).by_hash() == old(self).by_hash(),
    {
        self.base.cache_by_number(snapshot.block_number, snapshot);
    }

    /// Caches a snapshot that was rebuilt for a header, under the header's number and hash.
    pub fn remember_rebuilt(&mut self, target: &Header, snapshot: &Snapshot)
        requires
            old(self).wf(),
        ensures
            final(self).wf(),
            final(self).limit() == old(self).limit(),
            inserted(
                old(self).by_number(),
                old(self).limit(),
                target.number,
                snapshot@,
                final(self).by_number(),
            ),
            old(self).limit() > 0 ==> recall(final(self).by_number(), target.number)
                == Some(snapshot@),
            inserted(
                old(self).by_hash(),
                old(self).limit(),
                target.digest(),
                snapshot@,
                final(self).by_hash(),
            ),
            old(self).limit() > 0 ==> recall(final(self).by_hash(), target.digest())
                == Some(snapshot@),
    {
        self.base.cache_by_number(target.number, snapshot);
        self.base.cache_by_block_hash(&target.hash_slow(), snapshot);
    }
}

/// A snapshot that was cached is found under its key, also after others were read. Under another
/// key what was there before is found and nothing else, unless it had to make room: where the key
/// is new and the cache is full, the one used longest ago does.
pub proof fn law_cached_snapshot_is_found<K>(
    before: Seq<(K, SnapshotView)>,
    limit: nat,
    k: K,
    v: SnapshotView,
    after: Seq<(K, SnapshotView)>,
    other: K,
)
    requires
        0 < limit,
        before.len() <= limit,
        inserted(before, limit, k, v, after),
        other != k,
    ensures
        recall(after, k) == Some(v),
        recall(touched(after, other), k) == Some(v),
        recall(after, other) is Some ==> recall(after, other) == recall(before, other),
        before.len() < TABLE_ENTRIES && !makes_room(before, limit, k, other) ==> recall(
            after,
            other,
        ) == recall(before, other),
{
    lemma_inserted(before, limit, k, v, after, other);
    lemma_touched(after, other, k);
}

/// A snapshot that was inserted is found by its number and by its hash.
pub proof fn law_inserted_snapshot_is_found_by_number_and_hash(
    before: EnhancedDbSnapshotProvider,
    snapshot: Snapshot,
    after: EnhancedDbSnapshotProvider,
)
    requires
        before.limit() > 0,
        inserted(
            before.by_number(),
            before.limit(),
            snapshot.block_number,
            snapshot@,
            after.by_number(),
        ),
        inserted(
            before.by_hash(),
            before.limit(),
            snapshot.block_hash@,
            snapshot@,
            after.by_hash(),
        ),
    ensures
        recall(after.by_number(), snapshot.block_number) == Some(snapshot@),
        recall(after.by_hash(), snapshot.block_hash@) == Some(snapshot@),
{
    let n = snapshot.block_number;
    let h = snapshot.block_hash@;
    lemma_inserted(before.by_number(), before.limit(), n, snapshot@, after.by_number(), n);
    lemma_inserted(before.by_hash(), before.limit(), h, snapshot@, after.by_hash(), h);
}

/// No cache holds more snapshots than it may.
pub proof fn law_caches_keep_to_their_limit(provider: EnhancedDbSnapshotProvider)
    requires
        provider.wf(),
    ensures
        provider.by_number().len() <= provider.limit(),
        provider.by_hash().len() <= provider.limit(),
{
}

/// Every 1024th block, counted from the genesis block, has its snapshot written to the database,
/// and none between two of them.
pub proof fn law_checkpoints_are_evenly_spaced(block_number: u64, between: u64)
    requires
        0 < between < 1024,
        block_number + 1024 <= u64::MAX,
        is_checkpoint(block_number),
    ensures
        is_checkpoint(0),
        is_checkpoint((block_number + 1024) as u64),
        !is_checkpoint((block_number + between) as u64),
{
}

proof fn lemma_walk_stop(c: Seq<(u64, SnapshotView)>, from: int)
    requires
        0 <= from <= u64::MAX,
    ensures
        0 <= walk_stop(c, from) <= from,
        recall(c, walk_stop(c, from) as u64) is Some || walk_stop(c, from) % 1024 == 0,
        forall|n: int| #![trigger recall(c, n as u64)]
            walk_stop(c, from) < n <= from ==> recall(c, n as u64) is None && n % 1024 != 0,
    decreases from,
{
    if from > 0 && recall(c, from as u64) is None && from % CHECKPOINT_INTERVAL as int != 0 {
        lemma_walk_stop(c, from - 1);
    }
}

/// A walk back passes only blocks that are neither cached nor written to the database. It ends at
/// or below the block that it started from: with the cached snapshot, which stays cached, or asking
/// for that of a block which is written to the database and not cached.
pub proof fn law_walk_back_passes_no_snapshot(
    c: Seq<(u64, SnapshotView)>,
    from: u64,
    r: WalkStep,
    after: Seq<(u64, SnapshotView)>,
    other: u64,
)
    requires
        walked(c, from as int, r, after),
    ensures
        match r {
            WalkStep::Base(s) => exists|m: u64|
                m <= from && #[trigger] recall(c, m) == Some(s@) && forall|n: u64|
                    m < n <= from ==> #[trigger] recall(c, n) is None && n % 1024 != 0,
            WalkStep::LoadCheckpoint(m) => {
                &&& m <= from
                &&& m % 1024 == 0
                &&& recall(c, m) is None
                &&& forall|n: u64|
                    m < n <= from ==> #[trigger] recall(c, n) is None && n % 1024 != 0
            },
            WalkStep::NeedGenesis => false,
        },
        recall(after, other) == recall(c, other),
{
    lemma_walk_stop(c, from as int);
    let m = walk_stop(c, from as int) as u64;
    assert forall|n: u64| m < n <= from implies #[trigger] recall(c, n) is None && n % 1024 != 0 by {
        assert(recall(c, (n as int) as u64) is None && (n as int) % 1024 != 0);
    }
    lemma_touched(c, m, other);
}

/// Each epoch that is longer than the wait has its validators take over once: the wait after its
/// first block, which announces them. Nothing changes with the genesis block.
pub proof fn law_each_epoch_takes_over_once(snap: SnapshotView, announced: u64, later: u64)
    requires
        snap.valid(),
        snap.check_len() < snap.epoch_num,
        announced % snap.epoch_num == 0,
        announced + snap.epoch_num <= u64::MAX,
        announced <= later < announced + snap.epoch_num,
        later > 0,
    ensures
        epoch_checkpoint(snap, later) == if later == announced + (snap.validators.len() / 2 + 1)
            * snap.turn() - 1 {
            Some(announced)
        } else {
            None
        },
        epoch_checkpoint(snap, 0) is None,
{
    let e = snap.epoch_num as int;
    let a = announced as int;
    let d = later - announced;
    vstd::arithmetic::div_mod::lemma_fundamental_div_mod(a, e);
    vstd::arithmetic::div_mod::lemma_mod_multiples_vanish(a / e, d, e);
    assert(e * (a / e) + d == later);
    vstd::arithmetic::div_mod::lemma_small_mod(d as nat, e as nat);
}

/// Of what a scan came upon, the last snapshot before the first failure is taken: those before it
/// are not, nor what came after the failure.
pub proof fn law_last_snapshot_before_a_failure_is_taken(rows: Seq<ScanRow>, i: int)
    requires
        0 <= i < rows.len(),
        rows[i] is Snapshot,
        forall|j: int| 0 <= j < i ==> !(#[trigger] rows[j] is Failed),
        forall|k: int|
            i < k < rows.len() && #[trigger] rows[k] is Snapshot ==> exists|f: int|
                i < f < k && #[trigger] rows[f] is Failed,
    ensures
        last_readable(rows) == Some(rows[i]->Snapshot_0@),
    decreases rows.len(),
{
    let rest = rows.drop_first();
    assert(!(rows[0] is Failed));
    if i > 0 {
        assert(rest[i - 1] == rows[i]);
        assert forall|j: int| 0 <= j < i - 1 implies !(#[trigger] rest[j] is Failed) by {
            assert(rest[j] == rows[j + 1]);
        }
        assert forall|k: int| i - 1 < k < rest.len() && #[trigger] rest[k] is Snapshot implies exists|
            f: int,
        | i - 1 < f < k && #[trigger] rest[f] is Failed by {
            assert(rest[k] == rows[k + 1]);
            let f = choose|f: int| i < f < k + 1 && #[trigger] rows[f] is Failed;
            assert(rest[f - 1] is Failed);
        }
        law_last_snapshot_before_a_failure_is_taken(rest, i - 1);
    } else {
        assert forall|k: int| 0 <= k < rest.len() && #[trigger] rest[k] is Snapshot implies exists|
            f: int,
        | 0 <= f < k && #[trigger] rest[f] is Failed by {
            assert(rest[k] == rows[k + 1]);
            let f = choose|f: int| 0 < f < k + 1 && #[trigger] rows[f] is Failed;
            assert(rest[f - 1] is Failed);
        }
        law_nothing_is_taken_after_a_failure(rest);
    }
}

/// Where a scan came upon no snapshot before it failed or ended, none is taken.
pub proof fn law_nothing_is_taken_after_a_failure(rows: Seq<ScanRow>)
    requires
        forall|k: int|
            0 <= k < rows.len() && #[trigger] rows[k] is Snapshot ==> exists|f: int|
                0 <= f < k && #[trigger] rows[f] is Failed,
    ensures
        last_readable(rows) is None,
    decreases rows.len(),
{
    if rows.len() > 0 && !(rows[0] is Failed) {
        let rest = rows.drop_first();
        assert(!(rows[0] is Snapshot));
        assert forall|k: int| 0 <= k < rest.len() && #[trigger] rest[k] is Snapshot implies exists|
            f: int,
        | 0 <= f < k && #[trigger] rest[f] is Failed by {
            assert(rest[k] == rows[k + 1]);
            let f = choose|f: int| 0 <= f < k + 1 && #[trigger] rows[f] is Failed;
            assert(rest[f - 1] is Failed);
        }
        law_nothing_is_taken_after_a_failure(rest);
    }
}

/// The snapshot of the genesis block is of epochs of 200 blocks and turns of one block at three
/// seconds each; nobody has sealed, and nothing but the genesis block is justified or finalized.
pub proof fn law_genesis_snapshot_starts_from_nothing(
    s: Snapshot,
    header: Header,
    info: ValidatorsInfo,
)
    requires
        is_genesis_snapshot(s, header, info),
    ensures
        s.block_number == 0,
        s.block_hash@ == header.digest(),
        s.epoch_num == 200,
        s.turn_length == Some(1u8),
        s.block_interval == 3000,
        s.recent_proposers@.dom().len() == 0,
        s.vote_data.source_number == 0,
        s.vote_data.target_number == 0,
        s.validators@.to_multiset() == info.consensus_addrs@.to_multiset(),
{
    let sorted = choose|sorted: Seq<(Address, VoteAddress)>| #[trigger]
        sorted_pairs(sorted, info.consensus_addrs@, keys_of(info.vote_addrs)) && s.validators@
            == addresses(sorted) && s.validators_map@ == indexed(sorted);
    let pairs = paired(info.consensus_addrs@, keys_of(info.vote_addrs));
    let first = |p: (Address, VoteAddress)| p.0;
    lemma_mapped_multiset(sorted, pairs, first);
    assert(sorted.map_values(first) =~= addresses(sorted));
    assert(pairs.map_values(first) =~= info.consensus_addrs@);
}

/// What is read off the same entries in another order is the same in another order.
proof fn lemma_mapped_multiset<A, B>(a: Seq<A>, b: Seq<A>, f: spec_fn(A) -> B)
    requires
        a.to_multiset() == b.to_multiset(),
    ensures
        a.map_values(f).to_multiset() == b.map_values(f).to_multiset(),
    decreases a.len(),
{
    a.to_multiset_ensures();
    b.to_multiset_ensures();
    assert(a.len() == b.len());
    if a.len() == 0 {
        assert(a.map_values(f) =~= b.map_values(f));
    } else {
        let x = a.last();
        let rest = a.drop_last();
        assert(a =~= rest.push(x));
        rest.to_multiset_ensures();
        assert(a.to_multiset() == rest.to_multiset().insert(x));
        assert(b.to_multiset().count(x) > 0);
        assert(b.contains(x));
        let i = choose|i: int| 0 <= i < b.len() && b[i] == x;
        let c = b.remove(i);
        assert(c.to_multiset() == b.to_multiset().remove(x));
        assert(rest.to_multiset() =~= c.to_multiset());
        lemma_mapped_multiset(rest, c, f);
        rest.map_values(f).to_multiset_ensures();
        b.map_values(f).to_multiset_ensures();
        assert(a.map_values(f) =~= rest.map_values(f).push(f(x)));
        assert(c.map_values(f) =~= b.map_values(f).remove(i));
        assert(b.map_values(f)[i] == f(x));
        assert(a.map_values(f).to_multiset() =~= b.map_values(f).to_multiset());
    }
}

} // verus!
