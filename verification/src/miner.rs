//! Making blocks: when to make one, with which key, and what to hand out.

use crate::engine::BscBuiltPayload;
use crate::header::Header;
use crate::primitives::base256;
use crate::primitives::zero_bytes;
use crate::primitives::Address;
use crate::primitives::FixedBytes;
use crate::primitives::B256;
use crate::primitives::U256;
use crate::recency::lemma_stored_keeps;
use crate::recency::lemma_stored_other;
use crate::recency::lemma_stored_recalled;
use crate::recency::lemma_touched;
use crate::recency::lemma_touched_len;
use crate::recency::makes_room;
use crate::recency::recall;
use crate::recency::stored;
use crate::recency::touched;
use crate::snapshot::opt_view;
use crate::snapshot::Snapshot;
use crate::snapshot::SnapshotView;
use vstd::prelude::*;

verus! {

/// Of how many heights it is remembered what was sealed.
pub const RECENT_MINED_BLOCKS_CACHE_SIZE: usize = 100;

/// How old, in seconds, the tip may be for a block to be made on it.
pub const MAX_TIP_AGE_SECS: u64 = 3;

/// The identity of a peer.
pub type PeerId = FixedBytes<64>;

/// How blocks are made.
#[derive(Debug)]
pub struct MiningConfig {
    /// Whether blocks are made at all.
    pub enabled: bool,
    /// The validator's account, where it is given.
    pub validator_address: Option<Address>,
    /// The signing key in hexadecimal, where it is given.
    pub private_key_hex: Option<String>,
    /// Where the file with the signing key is.
    pub keystore_path: Option<String>,
    /// The password of that file.
    pub keystore_password: Option<String>,
    /// Whether state roots are computed in the background.
    pub use_sparse_trie_state_root: bool,
}

/// Where the signing key is.
#[derive(Debug)]
pub enum KeySource {
    /// In a file.
    Keystore {
        /// Where the file is.
        path: String,
        /// Its password.
        password: String,
    },
    /// In the configuration, in hexadecimal.
    Hex(String),
}

/// Blocks are to be made, and there is no key to sign them with.
#[derive(Clone, Copy, Debug)]
pub struct NoSigningKey;

impl NoSigningKey {
    /// The error in words.
    pub fn message(&self) -> (r: &'static str)
        ensures
            r@ == "No signing key configured"@,
    {
        "No signing key configured"
    }
}

impl MiningConfig {
    /// Whether blocks are made at all.
    pub fn is_mining_enabled(&self) -> (r: bool)
        ensures
            r == self.enabled,
    {
        self.enabled
    }

    /// Where the signing key is: a file comes before a key in the configuration, and a file
    /// without a password has the empty one. It is an error if no key is configured.
    pub fn key_source(&self) -> (r: Result<KeySource, NoSigningKey>)
        ensures
            match (self.keystore_path, self.private_key_hex) {
                (Some(p), _) => {
                    &&& r matches Ok(KeySource::Keystore { path, password })
                    &&& path == p
                    &&& match self.keystore_password {
                        Some(pw) => password == pw,
                        None => password@ == Seq::<char>::empty(),
                    }
                },
                (None, Some(hex)) => r == Ok::<KeySource, NoSigningKey>(KeySource::Hex(hex)),
                (None, None) => r is Err,
            },
            r is Err <==> self.keystore_path is None && self.private_key_hex is None,
            r matches Ok(KeySource::Hex(_)) ==> self.keystore_path is None,
    {
        match &self.keystore_path {
            Some(path) => {
                let password = match &self.keystore_password {
                    Some(password) => password.clone(),
                    None => String::new(),
                };
                Ok(KeySource::Keystore { path: path.clone(), password })
            },
            None => match &self.private_key_hex {
                Some(hex) => Ok(KeySource::Hex(hex.clone())),
                None => Err(NoSigningKey),
            },
        }
    }
}

/// Why no block is made on a tip.
#[derive(Clone, Copy, Debug, PartialEq, Eq, Structural)]
pub enum SkipReason {
    /// The tip is old: the node may be syncing.
    MaybeSyncing,
    /// The header of the tip is missing.
    HeaderNotFound,
    /// The snapshot of the tip is missing.
    NoSnapshot,
    /// This node is no validator.
    NotAuthorized,
    /// This validator has sealed a block lately.
    SignedRecently,
}

/// Why no block is made on a tip, if none is.
pub open spec fn skip_reason(
    validator: Address,
    tip_timestamp: u64,
    now_secs: u64,
    header_found: bool,
    snap: Option<SnapshotView>,
) -> Option<SkipReason> {
    if tip_timestamp < now_secs - MAX_TIP_AGE_SECS {
        Some(SkipReason::MaybeSyncing)
    } else if !header_found {
        Some(SkipReason::HeaderNotFound)
    } else {
        match snap {
            None => Some(SkipReason::NoSnapshot),
            Some(s) => if !s.validators.contains(validator) {
                Some(SkipReason::NotAuthorized)
            } else if s.signed_recently(validator) {
                Some(SkipReason::SignedRecently)
            } else {
                None
            },
        }
    }
}

/// Whether a validator may seal the block after a snapshot: it is one of the validators, and of the
/// blocks that lie less than `(validators / 2 + 1) * turn - 1` back it sealed fewer than a turn
/// has.
pub open spec fn may_seal(validator: Address, s: SnapshotView) -> bool {
    let turn = match s.turn_length {
        Some(t) => t as int,
        None => 1,
    };
    &&& s.validators.contains(validator)
    &&& Set::new(
        |b: u64|
            s.recent_proposers.contains_key(b) && s.recent_proposers[b] == validator && b + ((
            s.validators.len() / 2 + 1) * turn - 1) > s.block_number,
    ).len() < turn
}

proof fn lemma_may_seal(validator: Address, s: SnapshotView)
    ensures
        may_seal(validator, s) <==> s.validators.contains(validator) && !s.signed_recently(
            validator,
        ),
{
    let turn = match s.turn_length {
        Some(t) => t as int,
        None => 1,
    };
    assert(Set::new(
        |b: u64|
            s.recent_proposers.contains_key(b) && s.recent_proposers[b] == validator && b + ((
            s.validators.len() / 2 + 1) * turn - 1) > s.block_number,
    ) =~= s.recently_sealed(validator));
}

fn contains_address(list: &Vec<Address>, a: &Address) -> (r: bool)
    ensures
        r == list@.contains(*a),
{
    let mut i: usize = 0;
    while i < list.len()
        invariant
            i <= list@.len(),
            forall|j: int| 0 <= j < i ==> list@[j] != *a,
        decreases list@.len() - i,
    {
        if list[i] == *a {
            return true;
        }
        i += 1;
    }
    false
}

/// What a block is made on.
pub struct MiningContext {
    /// The header of the new block, once it is prepared.
    pub header: Option<Header>,
    /// The header of its parent.
    pub parent_header: Header,
    /// The snapshot of its parent.
    pub parent_snapshot: Snapshot,
}

/// A payload that is ready, and what it was made on. The handle by which the build is cancelled is
/// of type `C`.
pub struct SubmitContext<C> {
    /// What it was made on.
    pub mining_ctx: MiningContext,
    /// The payload.
    pub payload: BscBuiltPayload,
    /// The handle by which the build is cancelled.
    pub cancel: C,
}

/// Watches for tips to make blocks on.
#[derive(Clone, Copy, Debug)]
pub struct NewWorkWorker {
    /// The account that blocks are sealed with.
    pub validator_address: Address,
}

impl NewWorkWorker {
    /// A worker for an account.
    pub fn new(validator_address: Address) -> (r: Self)
        ensures
            r.validator_address == validator_address,
    {
        NewWorkWorker { validator_address }
    }

    /// Decides whether a block is made on the new tip. `parent_header` and `parent_snapshot` are the
    /// header and the snapshot of the tip, as far as there are any; what the block is made on is put
    /// together from them.
    pub fn try_new_work(
        &self,
        tip_timestamp: u64,
        now_secs: u64,
        parent_header: Option<Header>,
        parent_snapshot: Option<Snapshot>,
    ) -> (r: Result<MiningContext, SkipReason>)
        requires
            now_secs >= MAX_TIP_AGE_SECS,
            parent_snapshot matches Some(s) ==> s@.valid(),
        ensures
            match skip_reason(
                self.validator_address,
                tip_timestamp,
                now_secs,
                parent_header is Some,
                opt_view(parent_snapshot),
            ) {
                Some(reason) => r == Err::<MiningContext, SkipReason>(reason),
                None => r == Ok::<MiningContext, SkipReason>(
                    MiningContext {
                        header: None,
                        parent_header: parent_header->0,
                        parent_snapshot: parent_snapshot->0,
                    },
                ),
            },
            r is Ok ==> (parent_snapshot matches Some(s) && may_seal(self.validator_address, s@)),
    {
        if tip_timestamp < now_secs - MAX_TIP_AGE_SECS {
            return Err(SkipReason::MaybeSyncing);
        }
        let parent_header = match parent_header {
            Some(header) => header,
            None => {
                return Err(SkipReason::HeaderNotFound);
            },
        };
        let parent_snapshot = match parent_snapshot {
            Some(snapshot) => snapshot,
            None => {
                return Err(SkipReason::NoSnapshot);
            },
        };
        if !contains_address(&parent_snapshot.validators, &self.validator_address) {
            return Err(SkipReason::NotAuthorized);
        }
        if parent_snapshot.sign_recently(self.validator_address) {
            return Err(SkipReason::SignedRecently);
        }
        proof {
            lemma_may_seal(self.validator_address, parent_snapshot@);
        }
        Ok(MiningContext { header: None, parent_header, parent_snapshot })
    }
}

/// Runs the jobs that build blocks, one at a time; a running job is known by a handle of type `J`.
pub struct MainWorkWorker<J> {
    /// The job that runs.
    pub running_job_handle: Option<J>,
}

impl<J> MainWorkWorker<J> {
    /// No job runs yet.
    pub fn new() -> (r: Self)
        ensures
            r.running_job_handle is None,
    {
        MainWorkWorker { running_job_handle: None }
    }

    /// Takes the job that runs off its place, to be aborted before another one starts.
    pub fn abort_running(&mut self) -> (r: Option<J>)
        ensures
            r == old(self).running_job_handle,
            final(self).running_job_handle is None,
    {
        self.running_job_handle.take()
    }

    /// A new job has started. A job that was still running is handed back to be aborted.
    pub fn try_mine_block(&mut self, job: J) -> (r: Option<J>)
        ensures
            r == old(self).running_job_handle,
            final(self).running_job_handle == Some(job),
    {
        let previous = self.abort_running();
        self.running_job_handle = Some(job);
        previous
    }
}

/// What becomes of a payload that is ready.
#[derive(Clone, Copy, Debug, PartialEq, Eq, Structural)]
pub enum SubmitTiming {
    /// It is handed out now.
    Now,
    /// It is handed out after so many milliseconds, unless it is cancelled.
    Delayed(u64),
}

/// What becomes of a payload that is ready, by the delay that its block needs.
pub fn submit_timing(delay_ms: u64) -> (r: SubmitTiming)
    ensures
        r == if delay_ms == 0 {
            SubmitTiming::Now
        } else {
            SubmitTiming::Delayed(delay_ms)
        },
        r is Now <==> delay_ms == 0,
        r matches SubmitTiming::Delayed(ms) ==> ms == delay_ms && ms > 0,
{
    if delay_ms == 0 {
        SubmitTiming::Now
    } else {
        SubmitTiming::Delayed(delay_ms)
    }
}

/// What was sealed at recent heights: for each, the parents of the blocks.
pub type MinedCache = lru::LruCache<u64, Vec<B256>>;

/// The parents of the blocks that were sealed at each height, the height used last first.
pub uninterp spec fn mined_parents(c: MinedCache) -> Seq<(u64, Seq<B256>)>;

/// How many heights can be remembered.
pub uninterp spec fn mined_limit(c: MinedCache) -> nat;

/// `lru::LruCache::new`: an empty map that holds at most that many entries.
#[verifier::external_body]
fn new_mined(limit: usize) -> (c: MinedCache)
    requires
        limit > 0,
    ensures
        mined_parents(c) == Seq::<(u64, Seq<B256>)>::empty(),
        mined_limit(c) == limit,
{
    lru::LruCache::new(std::num::NonZero::new(limit).unwrap())
}

/// `lru::LruCache::get`: the value under the key, whose entry becomes the one used last.
#[verifier::external_body]
fn mined_get(c: &mut MinedCache, number: u64) -> (r: Option<Vec<B256>>)
    ensures
        match r {
            Some(v) => recall(mined_parents(*old(c)), number) == Some(v@),
            None => recall(mined_parents(*old(c)), number) is None,
        },
        mined_parents(*final(c)) == touched(mined_parents(*old(c)), number),
        mined_limit(*final(c)) == mined_limit(*old(c)),
{
    c.get(&number).cloned()
}

/// `lru::LruCache::put`: stores the value under the key as the entry used last; where the map is
/// full and the key is new, the entry used longest ago goes.
#[verifier::external_body]
fn mined_put(c: &mut MinedCache, number: u64, parents: Vec<B256>)
    ensures
        mined_parents(*final(c)) == stored(
            mined_parents(*old(c)),
            mined_limit(*old(c)),
            number,
            parents@,
        ),
        mined_limit(*final(c)) == mined_limit(*old(c)),
{
    c.put(number, parents);
}

/// Whether a block on this parent was sealed at this height, as far as that is remembered.
pub open spec fn sealed_before(s: Seq<(u64, Seq<B256>)>, number: u64, parent: B256) -> bool {
    recall(s, number) matches Some(parents) && parents.contains(parent)
}

/// What is remembered after a block was to be handed out.
pub open spec fn after_sealing(
    s: Seq<(u64, Seq<B256>)>,
    number: u64,
    parent: B256,
) -> Seq<(u64, Seq<B256>)> {
    if sealed_before(s, number, parent) {
        touched(s, number)
    } else {
        let parents = match recall(s, number) {
            Some(p) => p,
            None => Seq::empty(),
        };
        stored(
            touched(s, number),
            RECENT_MINED_BLOCKS_CACHE_SIZE as nat,
            number,
            parents.push(parent),
        )
    }
}

/// Hands out the blocks that were made, and keeps the node from sealing two blocks at one height on
/// one parent.
pub struct ResultWorkWorker {
    recent_mined_blocks: MinedCache,
}

impl ResultWorkWorker {
    /// The parents of the blocks that were sealed at each height, the height used last first.
    pub closed spec fn view(&self) -> Seq<(u64, Seq<B256>)> {
        mined_parents(self.recent_mined_blocks)
    }

    /// As many heights can be remembered as there should be, and no more are.
    pub closed spec fn wf(&self) -> bool {
        &&& mined_limit(self.recent_mined_blocks) == RECENT_MINED_BLOCKS_CACHE_SIZE
        &&& self@.len() <= RECENT_MINED_BLOCKS_CACHE_SIZE
    }

    /// Nothing was sealed yet.
    pub fn new() -> (r: Self)
        ensures
            r.wf(),
            r@ == Seq::<(u64, Seq<B256>)>::empty(),
    {
        ResultWorkWorker { recent_mined_blocks: new_mined(RECENT_MINED_BLOCKS_CACHE_SIZE) }
    }

    /// Whether a block may be handed out: not if it is the second at its height on its parent. A
    /// block that may is remembered.
    fn may_submit(&mut self, block_number: u64, parent_hash: B256) -> (r: bool)
        requires
            old(self).wf(),
        ensures
            final(self).wf(),
            r == !sealed_before(old(self)@, block_number, parent_hash),
            final(self)@ == after_sealing(old(self)@, block_number, parent_hash),
    {
        proof {
            lemma_touched_len(self@, block_number);
        }
        match mined_get(&mut self.recent_mined_blocks, block_number) {
            Some(parents) => {
                if contains_hash(&parents, &parent_hash) {
                    return false;
                }
                let mut updated_parents = parents;
                updated_parents.push(parent_hash);
                mined_put(&mut self.recent_mined_blocks, block_number, updated_parents);
            },
            None => {
                let mut parents: Vec<B256> = Vec::new();
                parents.push(parent_hash);
                mined_put(&mut self.recent_mined_blocks, block_number, parents);
                proof {
                    assert(parents@ =~= Seq::<B256>::empty().push(parent_hash));
                }
            },
        }
        true
    }

    /// Decides what becomes of a payload whose block is to be handed out. A block that is
    /// remembered is one that goes out.
    pub fn submit_payload(&mut self, payload: &BscBuiltPayload, best_number: u64) -> (r:
        SubmitDecision)
        requires
            old(self).wf(),
        ensures
            final(self).wf(),
            ({
                let number = payload.block.header.number;
                let parent = payload.block.header.parent_hash;
                if number <= best_number {
                    r == SubmitDecision::Stale && final(self)@ == old(self)@
                } else {
                    &&& final(self)@ == after_sealing(old(self)@, number, parent)
                    &&& r == if sealed_before(old(self)@, number, parent) {
                        SubmitDecision::DoubleSign
                    } else {
                        SubmitDecision::Broadcast
                    }
                }
            }),
            r == SubmitDecision::Stale <==> best_number >= payload.block.header.number,
            r == SubmitDecision::Broadcast ==> {
                let (number, parent) = (
                    payload.block.header.number,
                    payload.block.header.parent_hash,
                );
                &&& number > best_number
                &&& !sealed_before(old(self)@, number, parent)
                &&& sealed_before(final(self)@, number, parent)
            },
    {
        proof {
            law_no_double_sign(
                self@,
                payload.block.header.number,
                payload.block.header.parent_hash,
            );
        }
        let header = &payload.block().header;
        if header.number <= best_number {
            return SubmitDecision::Stale;
        }
        if self.may_submit(header.number, header.parent_hash) {
            SubmitDecision::Broadcast
        } else {
            SubmitDecision::DoubleSign
        }
    }
}

fn contains_hash(list: &Vec<B256>, h: &B256) -> (r: bool)
    ensures
        r == list@.contains(*h),
{
    let mut i: usize = 0;
    while i < list.len()
        invariant
            i <= list@.len(),
            forall|j: int| 0 <= j < i ==> list@[j] != *h,
        decreases list@.len() - i,
    {
        if list[i] == *h {
            return true;
        }
        i += 1;
    }
    false
}

/// What becomes of a block that is to be handed out.
#[derive(Clone, Copy, Debug, PartialEq, Eq, Structural)]
pub enum SubmitDecision {
    /// It is not: the chain is as high already.
    Stale,
    /// It is not: it would be the second at its height on its parent.
    DoubleSign,
    /// It is.
    Broadcast,
}

/// The block whose total difficulty a new block's is computed from.
pub fn parent_number(block_number: u64) -> (r: u64)
    ensures
        r == if block_number > 0 {
            block_number - 1
        } else {
            0
        },
        r <= block_number <= r + 1,
        r == block_number ==> block_number == 0,
{
    block_number.saturating_sub(1)
}

/// The total difficulty that a new block is announced with; an unknown one of the parent counts
/// as zero.
pub fn announced_td(parent_td: Option<U256>, difficulty: U256) -> (r: u128)
    requires
        ({
            let parent: nat = match parent_td {
                Some(td) => td.value(),
                None => 0,
            };
            (parent + difficulty.value()) % base256() <= u128::MAX
        }),
    ensures
        ({
            let parent: nat = match parent_td {
                Some(td) => td.value(),
                None => 0,
            };
            r == (parent + difficulty.value()) % base256()
        }),
        parent_td is None ==> r == difficulty.value(),
        parent_td matches Some(td) ==> (td.value() + difficulty.value() < base256() ==> r
            == td.value() + difficulty.value()),
{
    let parent = match parent_td {
        Some(td) => td,
        None => U256::zero(),
    };
    let sum = parent.plus(difficulty);
    sum.limb1 as u128 * 0x1_0000_0000_0000_0000u128 + sum.limb0 as u128
}

/// Why a block could not be handed out.
#[derive(Clone, Copy, Debug, PartialEq, Eq, Structural)]
pub enum SubmitError {
    /// Nobody listens to the channel that it goes through.
    ChannelClosed,
    /// There is no such channel.
    SenderNotInitialised,
}

impl SubmitError {
    /// The error in words.
    pub fn message(self) -> (r: &'static str)
        ensures
            r@ == match self {
                SubmitError::ChannelClosed =>
                    "Failed to send mined block to import service due to channel closed"@,
                SubmitError::SenderNotInitialised =>
                    "Failed to send mined block due to import sender not initialised"@,
            },
    {
        match self {
            SubmitError::ChannelClosed =>
                "Failed to send mined block to import service due to channel closed",
            SubmitError::SenderNotInitialised =>
                "Failed to send mined block due to import sender not initialised",
        }
    }
}

/// What came of handing a block to the import service: `sent` says whether it went through, and is
/// missing where there is no service.
pub fn import_result(sent: Option<bool>) -> (r: Result<(), SubmitError>)
    ensures
        r == match sent {
            Some(true) => Ok::<(), SubmitError>(()),
            Some(false) => Err(SubmitError::ChannelClosed),
            None => Err(SubmitError::SenderNotInitialised),
        },
        r is Ok <==> sent == Some(true),
        r matches Err(SubmitError::SenderNotInitialised) ==> sent is None,
{
    match sent {
        Some(true) => Ok(()),
        Some(false) => Err(SubmitError::ChannelClosed),
        None => Err(SubmitError::SenderNotInitialised),
    }
}

/// A peer, and whether it belongs to the validators' network.
#[derive(Clone, Copy, Debug)]
pub struct PeerInfo {
    /// The peer.
    pub peer_id: PeerId,
    /// Whether it belongs to the validators' network.
    pub is_evn: bool,
}

/// The peers of the validators' network, which are sent new blocks in full.
pub fn full_block_targets(peers: &Vec<PeerInfo>) -> (r: Vec<PeerInfo>)
    ensures
        r@ == peers@.filter(|p: PeerInfo| p.is_evn),
        forall|i: int| 0 <= i < r@.len() ==> (#[trigger] r@[i]).is_evn,
        forall|i: int|
            0 <= i < peers@.len() && (#[trigger] peers@[i]).is_evn ==> r@.contains(peers@[i]),
{
    let ghost wanted = |p: PeerInfo| p.is_evn;
    let mut out: Vec<PeerInfo> = Vec::new();
    let mut i: usize = 0;
    proof {
        reveal(Seq::filter);
        assert(peers@.take(0).filter(wanted) =~= out@);
    }
    while i < peers.len()
        invariant
            i <= peers@.len(),
            wanted == |p: PeerInfo| p.is_evn,
            out@ == peers@.take(i as int).filter(wanted),
        decreases peers@.len() - i,
    {
        proof {
            reveal(Seq::filter);
            assert(peers@.take(i + 1).drop_last() =~= peers@.take(i as int));
            assert(peers@.take(i + 1).last() == peers@[i as int]);
        }
        if peers[i].is_evn {
            out.push(peers[i]);
        }
        i += 1;
    }
    proof {
        assert(peers@.take(i as int) =~= peers@);
        assert forall|k: int| 0 <= k < out@.len() implies (#[trigger] out@[k]).is_evn by {
            peers@.lemma_filter_pred(wanted, k);
        }
        assert forall|k: int| 0 <= k < peers@.len() && (
        #[trigger] peers@[k]).is_evn implies out@.contains(peers@[k]) by {
            peers@.lemma_filter_contains(wanted, k);
        }
    }
    out
}

/// The miner: its account, its signing key of type `K`, and its workers.
pub struct BscMiner<K, J> {
    /// The account that blocks are sealed with.
    pub validator_address: Address,
    /// The signing key.
    pub signing_key: K,
    /// Watches for tips to make blocks on.
    pub new_work_worker: NewWorkWorker,
    /// Runs the jobs that build blocks.
    pub main_work_worker: MainWorkWorker<J>,
    /// Hands out the blocks that were made.
    pub result_work_worker: ResultWorkWorker,
}

impl<K, J> BscMiner<K, J> {
    /// A miner that seals with the account of the signing key, which is `derived_address`, whatever
    /// account is configured. It says as well whether another one is.
    pub fn new(mining_config: &MiningConfig, signing_key: K, derived_address: Address) -> (r: (
        Self,
        bool,
    ))
        ensures
            r.0.validator_address == derived_address,
            r.0.signing_key == signing_key,
            r.0.new_work_worker.validator_address == derived_address,
            r.0.main_work_worker.running_job_handle is None,
            r.0.result_work_worker.wf(),
            r.0.result_work_worker@ == Seq::<(u64, Seq<B256>)>::empty(),
            r.1 == (mining_config.validator_address matches Some(a) && a != derived_address && a
                != zero_bytes::<20>()),
    {
        let zero = Address::zero();
        let mismatch = match mining_config.validator_address {
            Some(configured) => configured != derived_address && configured != zero,
            None => false,
        };
        (
            BscMiner {
                validator_address: derived_address,
                signing_key,
                new_work_worker: NewWorkWorker::new(derived_address),
                main_work_worker: MainWorkWorker::new(),
                result_work_worker: ResultWorkWorker::new(),
            },
            mismatch,
        )
    }
}

/// A block is made exactly where the tip is at most three seconds old and known with its snapshot,
/// and this validator may seal: of the blocks that lie less than `(validators / 2 + 1) * turn - 1`
/// back it sealed fewer than a turn has.
pub proof fn law_blocks_are_made_only_in_turn(
    validator: Address,
    tip_timestamp: u64,
    now_secs: u64,
    header_found: bool,
    s: SnapshotView,
)
    ensures
        ({
            let turn = match s.turn_length {
                Some(t) => t as int,
                None => 1,
            };
            let mine = Set::new(
                |b: u64|
                    s.recent_proposers.contains_key(b) && s.recent_proposers[b] == validator && b
                        + ((s.validators.len() / 2 + 1) * turn - 1) > s.block_number,
            );
            skip_reason(validator, tip_timestamp, now_secs, header_found, Some(s)) is None <==> {
                &&& now_secs <= tip_timestamp + 3
                &&& header_found
                &&& s.validators.contains(validator)
                &&& mine.len() < turn
            }
        }),
        skip_reason(validator, tip_timestamp, now_secs, header_found, None) is Some,
{
    let turn = match s.turn_length {
        Some(t) => t as int,
        None => 1,
    };
    assert(Set::new(
        |b: u64|
            s.recent_proposers.contains_key(b) && s.recent_proposers[b] == validator && b + ((
            s.validators.len() / 2 + 1) * turn - 1) > s.block_number,
    ) =~= s.recently_sealed(validator));
}

/// Why no block is made: the age of the tip comes before what is missing, and that before what this
/// validator may do.
pub proof fn law_reasons_not_to_make_a_block(
    validator: Address,
    tip_timestamp: u64,
    now_secs: u64,
    header_found: bool,
    snap: Option<SnapshotView>,
)
    ensures
        ({
            let reason = skip_reason(validator, tip_timestamp, now_secs, header_found, snap);
            &&& reason == Some(SkipReason::MaybeSyncing) <==> now_secs > tip_timestamp + 3
            &&& reason == Some(SkipReason::HeaderNotFound) <==> now_secs <= tip_timestamp + 3
                && !header_found
            &&& reason == Some(SkipReason::NoSnapshot) <==> now_secs <= tip_timestamp + 3
                && header_found && snap is None
            &&& reason == Some(SkipReason::NotAuthorized) <==> now_secs <= tip_timestamp + 3
                && header_found && (snap matches Some(s) && !s.validators.contains(validator))
        }),
{
}

/// A block that was let through is remembered: another one at its height on its parent is refused.
pub proof fn law_no_double_sign(s: Seq<(u64, Seq<B256>)>, number: u64, parent: B256)
    ensures
        sealed_before(after_sealing(s, number, parent), number, parent),
{
    if sealed_before(s, number, parent) {
        lemma_touched(s, number, number);
    } else {
        let parents = match recall(s, number) {
            Some(p) => p,
            None => Seq::empty(),
        };
        lemma_stored_recalled(
            touched(s, number),
            RECENT_MINED_BLOCKS_CACHE_SIZE as nat,
            number,
            parents.push(parent),
        );
        assert(parents.push(parent)[parents.len() as int] == parent);
    }
}

/// At the height of the block that was let through last, what was remembered stays remembered.
pub proof fn law_sealed_blocks_stay_remembered(
    s: Seq<(u64, Seq<B256>)>,
    number: u64,
    parent: B256,
    earlier: B256,
)
    requires
        sealed_before(s, number, earlier),
    ensures
        sealed_before(after_sealing(s, number, parent), number, earlier),
{
    lemma_touched(s, number, number);
    if !sealed_before(s, number, parent) {
        let parents = recall(s, number)->0;
        lemma_stored_recalled(
            touched(s, number),
            RECENT_MINED_BLOCKS_CACHE_SIZE as nat,
            number,
            parents.push(parent),
        );
        let i = choose|i: int| 0 <= i < parents.len() && parents[i] == earlier;
        assert(parents.push(parent)[i] == earlier);
    }
}

/// What was remembered at another height stays remembered as well, unless that height had to make
/// room: where the height of the new block is new and no more can be remembered, the one used
/// longest ago does.
pub proof fn law_sealed_blocks_at_other_heights_stay_remembered(
    s: Seq<(u64, Seq<B256>)>,
    number: u64,
    parent: B256,
    other_number: u64,
    earlier: B256,
)
    requires
        s.len() <= RECENT_MINED_BLOCKS_CACHE_SIZE,
        other_number != number,
        sealed_before(s, other_number, earlier),
        !makes_room(s, RECENT_MINED_BLOCKS_CACHE_SIZE as nat, number, other_number),
    ensures
        sealed_before(after_sealing(s, number, parent), other_number, earlier),
{
    lemma_touched(s, number, other_number);
    lemma_touched(s, number, number);
    lemma_touched_len(s, number);
    if !sealed_before(s, number, parent) {
        let parents = match recall(s, number) {
            Some(p) => p,
            None => Seq::empty(),
        };
        lemma_stored_keeps(
            touched(s, number),
            RECENT_MINED_BLOCKS_CACHE_SIZE as nat,
            number,
            parents.push(parent),
            other_number,
        );
    }
}

/// No more heights are remembered than there should be.
pub proof fn law_sealed_heights_keep_to_their_limit(worker: ResultWorkWorker)
    requires
        worker.wf(),
    ensures
        worker@.len() <= RECENT_MINED_BLOCKS_CACHE_SIZE,
        worker@.len() <= 100,
{
}

/// A block on another parent, or at another height, is never refused on account of one that was
/// sealed now.
pub proof fn law_other_blocks_are_not_refused(
    s: Seq<(u64, Seq<B256>)>,
    number: u64,
    parent: B256,
    other_number: u64,
    other_parent: B256,
)
    requires
        !sealed_before(s, other_number, other_parent),
        other_number != number || other_parent != parent,
    ensures
        !sealed_before(after_sealing(s, number, parent), other_number, other_parent),
{
    let limit = RECENT_MINED_BLOCKS_CACHE_SIZE as nat;
    lemma_touched(s, number, other_number);
    if !sealed_before(s, number, parent) {
        let parents = match recall(s, number) {
            Some(p) => p,
            None => Seq::empty(),
        };
        let updated = parents.push(parent);
        if other_number != number {
            lemma_stored_other(touched(s, number), limit, number, updated, other_number);
        } else {
            lemma_stored_recalled(touched(s, number), limit, number, updated);
            if updated.contains(other_parent) {
                let i = choose|i: int| 0 <= i < updated.len() && updated[i] == other_parent;
                if i < parents.len() {
                    assert(parents[i] == other_parent);
                    assert(parents.contains(other_parent));
                }
            }
        }
    }
}

/// What was sealed stays remembered while a block at another height is sealed, as long as no more
/// than 100 heights are: only where that many are remembered does the one used longest ago make room.
pub proof fn law_100_heights_are_remembered(
    s: Seq<(u64, Seq<B256>)>,
    number: u64,
    parent: B256,
    other_number: u64,
    earlier: B256,
)
    requires
        s.len() <= 100,
        other_number != number,
        sealed_before(s, other_number, earlier),
        s.len() == 100 ==> s.last().0 != other_number,
    ensures
        sealed_before(after_sealing(s, number, parent), other_number, earlier),
{
    law_sealed_blocks_at_other_heights_stay_remembered(s, number, parent, other_number, earlier);
}

} // verus!
