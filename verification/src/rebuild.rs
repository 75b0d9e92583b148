//! Rebuilding a snapshot by replaying headers on an older one, step by step: each step says what
//! it needs, and goes on with the answer.

use crate::header::Header;
use crate::header::HeaderView;
use crate::primitives::lemma_fixed_bytes_eq;
use crate::primitives::B256;
use crate::provider::is_checkpoint;
use crate::provider::is_genesis_snapshot;
use crate::provider::keys_match;
use crate::provider::EnhancedDbSnapshotProvider;
use crate::provider::ValidatorsInfo;
use crate::provider::CHUNK_SIZE;
use crate::provider::PROGRESS_INTERVAL;
use crate::recency::inserted;
use crate::recency::lemma_inserted_twice;
use crate::recency::lemma_touched;
use crate::recency::recall;
use crate::recency::touched;
use crate::rlp::keccak;
use crate::snapshot::opt_view;
use crate::snapshot::Snapshot;
use crate::snapshot::SnapshotView;
use crate::snapshot::CHECKPOINT_INTERVAL;
use vstd::prelude::*;

verus! {

/// How far the rebuilding of the snapshot of a block has come.
pub enum Rebuild {
    /// The header of block `next` is needed. `skipped` holds the blocks from the target down to
    /// the child of `next`: none of them has a snapshot.
    FetchParent {
        /// The block to look at.
        next: B256,
        /// The blocks above it.
        skipped: Vec<B256>,
    },
    /// The snapshot that the database has for block `hash` is needed.
    QueryStored {
        /// The block to look at.
        hash: B256,
        /// Its parent.
        parent_hash: B256,
        /// The blocks above it.
        skipped: Vec<B256>,
    },
    /// Block `queue[done]` is to be applied to `working`.
    Replay {
        /// The snapshot of the block before.
        working: Snapshot,
        /// The blocks to apply, the oldest first.
        queue: Vec<B256>,
        /// How many of them are done.
        done: usize,
    },
    /// There is nothing left to do: this is the snapshot, if it could be rebuilt.
    Finished(Option<Snapshot>),
}

/// What is done for the snapshot of a block that is neither cached nor stored.
pub enum Missing {
    /// Nothing: the block is not known.
    Unknown,
    /// It is the genesis block: its snapshot is made.
    Genesis,
    /// The snapshot is rebuilt.
    Rebuild(Rebuild),
}

/// What is done for the snapshot of the block with this header, if it is known, that is neither
/// cached nor stored.
pub fn on_missing(header: Option<&Header>) -> (r: Missing)
    ensures
        match header {
            None => r is Unknown,
            Some(h) => if h.number == 0 {
                r is Genesis
            } else {
                r matches Missing::Rebuild(state) && state.starts_at(*h)
            },
        },
{
    match header {
        None => Missing::Unknown,
        Some(h) => if h.number == 0 {
            Missing::Genesis
        } else {
            Missing::Rebuild(Rebuild::start(h))
        },
    }
}

/// What a step of rebuilding needs next.
#[derive(Clone, Copy, Debug)]
pub enum RebuildAction {
    /// The header of this block.
    FetchParent(B256),
    /// The stored snapshot of this block.
    QueryStored(B256),
    /// The header of this block, applied to the working snapshot.
    ApplyBlock(B256),
    /// Nothing.
    Finish,
}

impl Rebuild {
    /// There is a block to replay as long as there is work.
    pub open spec fn wf(self) -> bool {
        match self {
            Rebuild::FetchParent { next, skipped } => skipped@.len() > 0,
            Rebuild::QueryStored { hash, parent_hash, skipped } => skipped@.len() > 0,
            Rebuild::Replay { working, queue, done } => done < queue@.len(),
            Rebuild::Finished(_) => true,
        }
    }

    /// Replaying from a base the blocks that were skipped on the way to it.
    pub open spec fn replays(self, base: SnapshotView, skipped: Seq<B256>) -> bool {
        &&& self matches Rebuild::Replay { working, queue, done }
        &&& working@ == base
        &&& queue@ == skipped.reverse()
        &&& done == 0
    }

    /// Starting at the target, which has no snapshot.
    pub open spec fn starts_at(self, target: Header) -> bool {
        &&& self.wf()
        &&& self matches Rebuild::FetchParent { next, skipped }
        &&& next == target.parent_hash
        &&& skipped@.len() == 1
        &&& skipped@[0]@ == target.digest()
    }

    /// Starts at the target, which has no snapshot.
    pub fn start(target: &Header) -> (r: Self)
        ensures
            r.starts_at(*target),
    {
        let mut skipped: Vec<B256> = Vec::new();
        skipped.push(target.hash_slow());
        Rebuild::FetchParent { next: target.parent_hash, skipped }
    }

    /// What is needed next.
    pub fn action(&self) -> (r: RebuildAction)
        requires
            self.wf(),
        ensures
            r == match *self {
                Rebuild::FetchParent { next, skipped } => RebuildAction::FetchParent(next),
                Rebuild::QueryStored { hash, parent_hash, skipped } => RebuildAction::QueryStored(
                    hash,
                ),
                Rebuild::Replay { working, queue, done } => RebuildAction::ApplyBlock(
                    queue@[done as int],
                ),
                Rebuild::Finished(_) => RebuildAction::Finish,
            },
    {
        match self {
            Rebuild::FetchParent { next, skipped: _ } => RebuildAction::FetchParent(*next),
            Rebuild::QueryStored { hash, parent_hash: _, skipped: _ } => RebuildAction::QueryStored(
                *hash,
            ),
            Rebuild::Replay { working: _, queue, done } => RebuildAction::ApplyBlock(queue[*done]),
            Rebuild::Finished(_) => RebuildAction::Finish,
        }
    }

    /// What comes of the header of the block that a walk came to, if there is one, and of the
    /// snapshot that is cached for that block, if one is. The cached snapshot is the base to replay
    /// on; else the stored one is asked for.
    pub open spec fn after_parent(
        self,
        parent: Option<HeaderView>,
        cached: Option<SnapshotView>,
        r: Self,
    ) -> bool {
        match parent {
            None => r == Rebuild::Finished(None),
            Some(h) => match cached {
                Some(base) => r.replays(base, self->FetchParent_skipped@),
                None => r == (Rebuild::QueryStored {
                    hash: self->next,
                    parent_hash: h.parent_hash,
                    skipped: self->FetchParent_skipped,
                }),
            },
        }
    }

    /// What comes of the snapshot that is stored for the block that a walk came to, if one is: it
    /// is the base to replay on; else the walk goes on with the parent.
    pub open spec fn after_stored(self, stored: Option<SnapshotView>, r: Self) -> bool {
        match stored {
            Some(base) => r.replays(base, self->QueryStored_skipped@),
            None => {
                &&& r matches Rebuild::FetchParent { next, skipped }
                &&& next == self->parent_hash
                &&& skipped@ == self->QueryStored_skipped@.push(self->hash)
            },
        }
    }

    /// What comes of applying the block whose turn it is, and of writing the new snapshot to the
    /// database where it has to be: the next block's turn, or the end.
    pub open spec fn after_applied(
        self,
        applied: Option<Snapshot>,
        persisted: bool,
        r: Self,
    ) -> bool {
        match applied {
            None => r == Rebuild::Finished(None),
            Some(s) => if is_checkpoint(s.block_number) && !persisted {
                r == Rebuild::Finished(None)
            } else if self->done + 1 < self->queue@.len() {
                r == (Rebuild::Replay {
                    working: s,
                    queue: self->queue,
                    done: (self->done + 1) as usize,
                })
            } else {
                r == Rebuild::Finished(Some(s))
            },
        }
    }

    /// The header that was asked for arrived, or there is none: without it there is no snapshot.
    /// Where it is that of the genesis block, whose validators are `validators` as far as they
    /// could be read, the snapshot of that block is made first; it is handed back for the caller to
    /// write to the database.
    pub fn on_parent(
        self,
        provider: &mut EnhancedDbSnapshotProvider,
        parent: Option<&Header>,
        validators: Option<ValidatorsInfo>,
    ) -> (r: (Self, Option<Snapshot>))
        requires
            self is FetchParent,
            self.wf(),
            old(provider).wf(),
            validators matches Some(info) ==> keys_match(info),
        ensures
            r.0.wf(),
            final(provider).wf(),
            final(provider).limit() == old(provider).limit(),
            match parent {
                None => {
                    &&& self.after_parent(None, None, r.0)
                    &&& r.1 is None
                    &&& final(provider).by_number() == old(provider).by_number()
                    &&& final(provider).by_hash() == old(provider).by_hash()
                },
                Some(h) => if h.number == 0 && validators is Some {
                    &&& r.1 matches Some(s)
                    &&& is_genesis_snapshot(s, *h, validators->0)
                    &&& inserted(
                        old(provider).by_number(),
                        old(provider).limit(),
                        0,
                        s@,
                        final(provider).by_number(),
                    )
                    &&& old(provider).limit() > 0 ==> recall(final(provider).by_number(), 0u64)
                        == Some(s@)
                    &&& old(provider).limit() > 0 ==> recall(
                        final(provider).by_hash(),
                        h.digest(),
                    ) == Some(s@)
                    &&& exists|mid: Seq<(Seq<u8>, SnapshotView)>| #[trigger]
                        inserted(
                            old(provider).by_hash(),
                            old(provider).limit(),
                            h.digest(),
                            s@,
                            mid,
                        ) && final(provider).by_hash() == touched(mid, self->next@)
                            && self.after_parent(Some(h@), recall(mid, self->next@), r.0)
                } else {
                    &&& r.1 is None
                    &&& final(provider).by_number() == old(provider).by_number()
                    &&& final(provider).by_hash() == touched(old(provider).by_hash(), self->next@)
                    &&& self.after_parent(
                        Some(h@),
                        recall(old(provider).by_hash(), self->next@),
                        r.0,
                    )
                },
            },
    {
        match (self, parent) {
            (Rebuild::FetchParent { next, skipped }, Some(h)) => {
                let genesis = if h.number == 0 {
                    provider.init_genesis_snapshot(h, validators)
                } else {
                    None
                };
                proof {
                    lemma_touched(provider.by_hash(), next@, h.digest());
                }
                match provider.cached_snapshot_by_hash(&next) {
                    Some(base) => (Self::begin_replay(base, skipped), genesis),
                    None => (
                        Rebuild::QueryStored { hash: next, parent_hash: h.parent_hash, skipped },
                        genesis,
                    ),
                }
            },
            _ => (Rebuild::Finished(None), None),
        }
    }

    /// The stored snapshot that was asked for arrived: it is cached and is the base to replay on;
    /// or there is none, and the walk goes on with the parent.
    pub fn on_stored(self, provider: &mut EnhancedDbSnapshotProvider, stored: Option<Snapshot>) -> (r:
        Self)
        requires
            self is QueryStored,
            self.wf(),
            old(provider).wf(),
        ensures
            r.wf(),
            final(provider).wf(),
            final(provider).limit() == old(provider).limit(),
            final(provider).by_number() == old(provider).by_number(),
            self.after_stored(opt_view(stored), r),
            match stored {
                Some(base) => {
                    &&& inserted(
                        old(provider).by_hash(),
                        old(provider).limit(),
                        self->hash@,
                        base@,
                        final(provider).by_hash(),
                    )
                    &&& old(provider).limit() > 0 ==> recall(
                        final(provider).by_hash(),
                        self->hash@,
                    ) == Some(base@)
                },
                None => final(provider).by_hash() == old(provider).by_hash(),
            },
    {
        match self {
            Rebuild::QueryStored { hash, parent_hash, skipped } => {
                match provider.on_stored_snapshot(&hash, stored) {
                    Some(base) => Self::begin_replay(base, skipped),
                    None => {
                        let mut skipped = skipped;
                        skipped.push(hash);
                        Rebuild::FetchParent { next: parent_hash, skipped }
                    },
                }
            },
            _ => Rebuild::Finished(None),
        }
    }

    fn begin_replay(base: Snapshot, skipped: Vec<B256>) -> (r: Self)
        requires
            skipped@.len() > 0,
        ensures
            r.wf(),
            r.replays(base@, skipped@),
    {
        let mut queue: Vec<B256> = Vec::new();
        let mut left: usize = skipped.len();
        while left > 0
            invariant
                left <= skipped@.len(),
                queue@.len() == skipped@.len() - left,
                queue@ == skipped@.reverse().take(skipped@.len() - left),
            decreases left,
        {
            left -= 1;
            queue.push(skipped[left]);
            proof {
                let n = skipped@.len() - left;
                assert(skipped@.reverse().take(n) =~= skipped@.reverse().take(n - 1).push(
                    skipped@[left as int],
                ));
            }
        }
        proof {
            assert(queue@ =~= skipped@.reverse());
        }
        Rebuild::Replay { working: base, queue, done: 0 }
    }

    /// Whether a snapshot that a block was applied to has to be written to the database before
    /// the next block.
    pub fn must_persist(applied: &Snapshot) -> (r: bool)
        ensures
            r == is_checkpoint(applied.block_number),
            r <==> applied.block_number % 1024 == 0,
    {
        applied.block_number % CHECKPOINT_INTERVAL == 0
    }

    /// The block was applied, or could not be. `persisted` says, of a snapshot that has to be
    /// written to the database, whether it was. Without either there is no snapshot.
    pub fn on_applied(self, applied: Option<Snapshot>, persisted: bool) -> (r: Self)
        requires
            self is Replay,
            self.wf(),
        ensures
            r.wf(),
            self.after_applied(applied, persisted, r),
    {
        match (self, applied) {
            (Rebuild::Replay { working: _, queue, done }, Some(s)) => {
                let count: usize = queue.len();
                if Self::must_persist(&s) && !persisted {
                    Rebuild::Finished(None)
                } else if done + 1 < count {
                    Rebuild::Replay { working: s, queue, done: done + 1 }
                } else {
                    Rebuild::Finished(Some(s))
                }
            },
            _ => Rebuild::Finished(None),
        }
    }
}

/// The first and the last block of the chunk that begins with block `current`; none where the
/// target is behind it.
pub open spec fn chunk(current: int, target: int) -> Option<(u64, u64)> {
    if current <= target {
        let end = current + CHUNK_SIZE - 1;
        Some(
            (
                current as u64,
                if end < target {
                    end as u64
                } else {
                    target as u64
                },
            ),
        )
    } else {
        None
    }
}

/// Building the snapshot of a block from an older one along the canonical chain, a chunk of
/// headers at a time.
pub struct IncrementalBuild {
    /// The snapshot of the block that was applied last.
    pub working: Snapshot,
    /// The first block of the next chunk.
    pub current_block: u64,
    /// The block whose snapshot is wanted.
    pub target_block: u64,
}

/// What came of applying a block.
pub enum BuildStep {
    /// The block could not be applied: there is no snapshot.
    Failed,
    /// The build goes on.
    Applied(IncrementalBuild),
    /// The build goes on, and its working snapshot is to be written to the database.
    Checkpoint(IncrementalBuild),
}

impl IncrementalBuild {
    /// The blocks of every chunk can be counted in 64 bits.
    pub open spec fn wf(self) -> bool {
        self.target_block + CHUNK_SIZE - 1 <= u64::MAX
    }

    /// The build with `s` for its working snapshot.
    pub open spec fn with_working(self, s: Snapshot) -> Self {
        IncrementalBuild {
            working: s,
            current_block: self.current_block,
            target_block: self.target_block,
        }
    }

    /// The build with the next chunk beginning after block `chunk_end`.
    pub open spec fn past(self, chunk_end: int) -> Self {
        IncrementalBuild {
            working: self.working,
            current_block: (chunk_end + 1) as u64,
            target_block: self.target_block,
        }
    }

    /// Starts with the block after the base.
    pub fn start(base: Snapshot, target_block: u64) -> (r: Self)
        requires
            base.block_number < u64::MAX,
            target_block + CHUNK_SIZE - 1 <= u64::MAX,
        ensures
            r.wf(),
            r.working == base,
            r.current_block == base.block_number + 1,
            r.target_block == target_block,
    {
        IncrementalBuild { current_block: base.block_number + 1, working: base, target_block }
    }

    /// The first and the last block of the next chunk; none where the target is reached.
    pub fn next_chunk(&self) -> (r: Option<(u64, u64)>)
        requires
            self.wf(),
        ensures
            r == chunk(self.current_block as int, self.target_block as int),
            r matches Some((first, last)) ==> first <= last < first + CHUNK_SIZE,
    {
        if self.current_block > self.target_block {
            return None;
        }
        let end: u64 = self.current_block + (CHUNK_SIZE - 1);
        let chunk_end: u64 = if end < self.target_block {
            end
        } else {
            self.target_block
        };
        Some((self.current_block, chunk_end))
    }

    /// A block was applied, or could not be. The new snapshot is cached under its number, and
    /// under its hash too where it is one that is written to the database.
    pub fn on_applied(
        self,
        provider: &mut EnhancedDbSnapshotProvider,
        applied: Option<Snapshot>,
    ) -> (r: BuildStep)
        requires
            self.wf(),
            old(provider).wf(),
        ensures
            final(provider).wf(),
            final(provider).limit() == old(provider).limit(),
            match applied {
                None => r is Failed && final(provider).by_number() == old(provider).by_number()
                    && final(provider).by_hash() == old(provider).by_hash(),
                Some(s) => {
                    let next = self.with_working(s);
                    &&& inserted(
                        old(provider).by_number(),
                        old(provider).limit(),
                        s.block_number,
                        s@,
                        final(provider).by_number(),
                    )
                    &&& old(provider).limit() > 0 ==> recall(
                        final(provider).by_number(),
                        s.block_number,
                    ) == Some(s@)
                    &&& if is_checkpoint(s.block_number) {
                        &&& r == BuildStep::Checkpoint(next)
                        &&& inserted(
                            old(provider).by_hash(),
                            old(provider).limit(),
                            s.block_hash@,
                            s@,
                            final(provider).by_hash(),
                        )
                        &&& old(provider).limit() > 0 ==> recall(
                            final(provider).by_hash(),
                            s.block_hash@,
                        ) == Some(s@)
                    } else {
                        &&& r == BuildStep::Applied(next)
                        &&& final(provider).by_hash() == old(provider).by_hash()
                    }
                },
            },
    {
        match applied {
            None => BuildStep::Failed,
            Some(s) => {
                provider.cache_built(&s);
                if s.block_number % CHECKPOINT_INTERVAL == 0 {
                    let ghost mid = provider.by_number();
                    provider.insert(&s);
                    proof {
                        lemma_inserted_twice(
                            old(provider).by_number(),
                            old(provider).limit(),
                            s.block_number,
                            s@,
                            mid,
                            provider.by_number(),
                        );
                    }
                    BuildStep::Checkpoint(
                        IncrementalBuild {
                            working: s,
                            current_block: self.current_block,
                            target_block: self.target_block,
                        },
                    )
                } else {
                    BuildStep::Applied(
                        IncrementalBuild {
                            working: s,
                            current_block: self.current_block,
                            target_block: self.target_block,
                        },
                    )
                }
            },
        }
    }

    /// All blocks of a chunk up to `chunk_end` were applied. It says whether progress is to be
    /// logged.
    pub fn finish_chunk(&mut self, chunk_end: u64) -> (r: bool)
        requires
            old(self).wf(),
            chunk_end <= old(self).target_block,
        ensures
            final(self).wf(),
            *final(self) == old(self).past(chunk_end as int),
            r == ((chunk_end + 1) % PROGRESS_INTERVAL as int == 0),
            final(self).current_block == chunk_end + 1,
            r <==> (chunk_end + 1) % 50_000 == 0,
    {
        self.current_block = chunk_end + 1;
        self.current_block % PROGRESS_INTERVAL == 0
    }
}

/// The headers of a chunk; nothing where one of them is missing.
pub fn complete_chunk(headers: Vec<Option<Header>>) -> (r: Option<Vec<Header>>)
    ensures
        r is Some <==> forall|i: int| 0 <= i < headers@.len() ==> (#[trigger] headers@[i]) is Some,
        r matches Some(all) ==> {
            &&& all@.len() == headers@.len()
            &&& forall|i: int|
                0 <= i < all@.len() ==> (#[trigger] all@[i])@ == headers@[i]->0@
        },
{
    let mut all: Vec<Header> = Vec::new();
    let mut i: usize = 0;
    while i < headers.len()
        invariant
            i <= headers@.len(),
            all@.len() == i,
            forall|j: int| 0 <= j < i ==> (#[trigger] headers@[j]) is Some,
            forall|j: int| 0 <= j < i ==> (#[trigger] all@[j])@ == headers@[j]->0@,
        decreases headers@.len() - i,
    {
        match &headers[i] {
            Some(h) => {
                all.push(h.clone());
            },
            None => {
                return None;
            },
        }
        i += 1;
    }
    Some(all)
}

/// The blocks that a rebuild replays are those that its walk skipped, in the opposite order, and
/// the target comes last.
pub proof fn law_rebuild_ends_with_the_target(
    state: Rebuild,
    base: SnapshotView,
    skipped: Seq<B256>,
)
    requires
        skipped.len() > 0,
        state.replays(base, skipped),
    ensures
        state->queue@.len() == skipped.len(),
        state->queue@.last() == skipped[0],
        forall|i: int|
            0 <= i < skipped.len() ==> #[trigger] state->queue@[i] == skipped[skipped.len() - 1 - i],
{
}

/// The snapshot after the blocks from `first` to `last` were applied one after the other to `s`;
/// none where a header is missing or cannot be applied. `headers` gives the canonical header of a
/// block, and `apply` what comes of applying a header to a snapshot.
pub open spec fn replayed(
    headers: spec_fn(u64) -> Option<HeaderView>,
    apply: spec_fn(SnapshotView, HeaderView) -> Option<SnapshotView>,
    s: SnapshotView,
    first: int,
    last: int,
) -> Option<SnapshotView>
    decreases last - first + 1,
{
    if first > last {
        Some(s)
    } else {
        match headers(first as u64) {
            None => None,
            Some(h) => match apply(s, h) {
                None => None,
                Some(next) => replayed(headers, apply, next, first + 1, last),
            },
        }
    }
}

/// Whether there is a header for each block from `first` to `last`.
pub open spec fn headers_known(
    headers: spec_fn(u64) -> Option<HeaderView>,
    first: int,
    last: int,
) -> bool {
    forall|k: int| first <= k <= last ==> (#[trigger] headers(k as u64)) is Some
}

/// The snapshot of block `target` from one that block `current` is the next to be applied to, a
/// chunk at a time: no block of a chunk is applied where one of its headers is missing.
pub open spec fn built_in_chunks(
    headers: spec_fn(u64) -> Option<HeaderView>,
    apply: spec_fn(SnapshotView, HeaderView) -> Option<SnapshotView>,
    s: SnapshotView,
    current: int,
    target: int,
) -> Option<SnapshotView>
    decreases target - current + 1,
    when 0 <= current && target + CHUNK_SIZE - 1 <= u64::MAX
{
    match chunk(current, target) {
        None => Some(s),
        Some((first, last)) => if headers_known(headers, first as int, last as int) {
            match replayed(headers, apply, s, first as int, last as int) {
                None => None,
                Some(next) => built_in_chunks(headers, apply, next, last + 1, target),
            }
        } else {
            None
        },
    }
}

/// The snapshot of block `target` that is built from an older one.
pub open spec fn built(
    headers: spec_fn(u64) -> Option<HeaderView>,
    apply: spec_fn(SnapshotView, HeaderView) -> Option<SnapshotView>,
    base: SnapshotView,
    target: int,
) -> Option<SnapshotView> {
    built_in_chunks(headers, apply, base, base.block_number + 1, target)
}

proof fn lemma_replay_stops(
    headers: spec_fn(u64) -> Option<HeaderView>,
    apply: spec_fn(SnapshotView, HeaderView) -> Option<SnapshotView>,
    s: SnapshotView,
    first: int,
    last: int,
    missing: int,
)
    requires
        first <= missing <= last,
        headers(missing as u64) is None,
    ensures
        replayed(headers, apply, s, first, last) is None,
    decreases last - first,
{
    if first < missing && headers(first as u64) is Some {
        let h = headers(first as u64)->0;
        if apply(s, h) is Some {
            lemma_replay_stops(headers, apply, apply(s, h)->0, first + 1, last, missing);
        }
    }
}

proof fn lemma_replay_splits(
    headers: spec_fn(u64) -> Option<HeaderView>,
    apply: spec_fn(SnapshotView, HeaderView) -> Option<SnapshotView>,
    s: SnapshotView,
    first: int,
    mid: int,
    last: int,
)
    requires
        first <= mid + 1,
        mid <= last,
    ensures
        replayed(headers, apply, s, first, last) == match replayed(headers, apply, s, first, mid) {
            None => None,
            Some(x) => replayed(headers, apply, x, mid + 1, last),
        },
    decreases mid - first + 1,
{
    if first <= mid && headers(first as u64) is Some {
        let h = headers(first as u64)->0;
        if apply(s, h) is Some {
            lemma_replay_splits(headers, apply, apply(s, h)->0, first + 1, mid, last);
        }
    }
}

/// The chunks make no difference: what is built is what comes of applying the blocks one after the
/// other.
pub proof fn law_chunks_make_no_difference(
    headers: spec_fn(u64) -> Option<HeaderView>,
    apply: spec_fn(SnapshotView, HeaderView) -> Option<SnapshotView>,
    s: SnapshotView,
    current: int,
    target: int,
)
    requires
        0 <= current,
        target + CHUNK_SIZE - 1 <= u64::MAX,
    ensures
        built_in_chunks(headers, apply, s, current, target) == replayed(
            headers,
            apply,
            s,
            current,
            target,
        ),
    decreases target - current + 1,
{
    if current <= target {
        let (_, end) = chunk(current, target)->0;
        let last = end as int;
        lemma_replay_splits(headers, apply, s, current, last, target);
        if headers_known(headers, current, last) {
            if replayed(headers, apply, s, current, last) is Some {
                let next = replayed(headers, apply, s, current, last)->0;
                law_chunks_make_no_difference(headers, apply, next, last + 1, target);
            }
        } else {
            let missing = choose|k: int|
                current <= k <= last && !((#[trigger] headers(k as u64)) is Some);
            lemma_replay_stops(headers, apply, s, current, last, missing);
        }
    }
}

proof fn lemma_replayed_number(
    headers: spec_fn(u64) -> Option<HeaderView>,
    apply: spec_fn(SnapshotView, HeaderView) -> Option<SnapshotView>,
    s: SnapshotView,
    first: int,
    last: int,
)
    requires
        0 <= first <= last <= u64::MAX,
        numbered(headers, apply),
    ensures
        replayed(headers, apply, s, first, last) matches Some(x) ==> x.block_number == last,
    decreases last - first,
{
    if headers(first as u64) is Some {
        let h = headers(first as u64)->0;
        if apply(s, h) is Some {
            let next = apply(s, h)->0;
            if first < last {
                lemma_replayed_number(headers, apply, next, first + 1, last);
            } else {
                assert(replayed(headers, apply, next, first + 1, last) == Some(next));
            }
        }
    }
}

/// Building up to a block on the way and then on gives what building all the way gives. Building up
/// to where the base stands gives the base, and where a header on the way is missing there is no
/// snapshot. This rests on each block having a header of its number, which a snapshot takes on
/// when the header is applied to it.
pub proof fn law_builds_can_be_resumed(
    headers: spec_fn(u64) -> Option<HeaderView>,
    apply: spec_fn(SnapshotView, HeaderView) -> Option<SnapshotView>,
    base: SnapshotView,
    mid: int,
    target: int,
)
    requires
        base.block_number <= mid <= target,
        target + CHUNK_SIZE - 1 <= u64::MAX,
        numbered(headers, apply),
    ensures
        built(headers, apply, base, target) == match built(headers, apply, base, mid) {
            None => None,
            Some(x) => built(headers, apply, x, target),
        },
        built(headers, apply, base, mid) matches Some(x) ==> x.block_number == mid,
        built(headers, apply, base, base.block_number as int) == Some(base),
        !headers_known(headers, base.block_number + 1, target) ==> built(
            headers,
            apply,
            base,
            target,
        ) is None,
{
    let first = base.block_number + 1;
    law_chunks_make_no_difference(headers, apply, base, first, target);
    law_chunks_make_no_difference(headers, apply, base, first, mid);
    lemma_replay_splits(headers, apply, base, first, mid, target);
    if first <= mid {
        lemma_replayed_number(headers, apply, base, first, mid);
    }
    if built(headers, apply, base, mid) is Some {
        let x = built(headers, apply, base, mid)->0;
        law_chunks_make_no_difference(headers, apply, x, mid + 1, target);
    }
    if !headers_known(headers, first, target) {
        let missing = choose|k: int|
            first <= k <= target && !((#[trigger] headers(k as u64)) is Some);
        lemma_replay_stops(headers, apply, base, first, target, missing);
    }
}

/// One step of a build: a block of the chunk at hand is applied, or the chunk is behind. No step is
/// taken in a chunk that lacks a header.
pub open spec fn build_step(
    headers: spec_fn(u64) -> Option<HeaderView>,
    apply: spec_fn(SnapshotView, HeaderView) -> Option<SnapshotView>,
    a: IncrementalBuild,
    b: IncrementalBuild,
) -> bool {
    &&& chunk(a.current_block as int, a.target_block as int) matches Some((first, last))
    &&& headers_known(headers, first as int, last as int)
    &&& if a.working.block_number < last {
        &&& b == a.with_working(b.working)
        &&& apply(a.working@, headers((a.working.block_number + 1) as u64)->0) == Some(b.working@)
    } else {
        b == a.past(last as int)
    }
}

/// Why a build stops short: a header of the chunk that begins is missing, or the next block of the
/// chunk cannot be applied.
pub open spec fn build_fails(
    headers: spec_fn(u64) -> Option<HeaderView>,
    apply: spec_fn(SnapshotView, HeaderView) -> Option<SnapshotView>,
    a: IncrementalBuild,
) -> bool {
    &&& chunk(a.current_block as int, a.target_block as int) matches Some((first, last))
    &&& if headers_known(headers, first as int, last as int) {
        &&& a.working.block_number < last
        &&& apply(a.working@, headers((a.working.block_number + 1) as u64)->0) is None
    } else {
        a.current_block == a.working.block_number + 1
    }
}

/// Each block has a header of its number, which a snapshot takes on when the header is applied.
pub open spec fn numbered(
    headers: spec_fn(u64) -> Option<HeaderView>,
    apply: spec_fn(SnapshotView, HeaderView) -> Option<SnapshotView>,
) -> bool {
    &&& forall|k: u64| (#[trigger] headers(k)) matches Some(h) ==> h.number == k
    &&& forall|x: SnapshotView, h: HeaderView|
        (#[trigger] apply(x, h)) matches Some(next) ==> next.block_number == h.number
}

/// The working snapshot is that of a block of the chunk at hand, or of the one before it.
pub open spec fn in_chunk(a: IncrementalBuild) -> bool {
    match chunk(a.current_block as int, a.target_block as int) {
        Some((first, last)) => a.current_block <= a.working.block_number + 1 <= last + 1,
        None => a.current_block == a.working.block_number + 1,
    }
}

/// Every step of a build keeps what the build will end with: what comes of applying the blocks up to
/// the target to the working snapshot. At the start of a chunk that is what is built from there in
/// chunks. A build whose chunks are all behind ends with its working snapshot, and one that fails
/// has none to end with.
pub proof fn law_build_steps_keep_the_outcome(
    headers: spec_fn(u64) -> Option<HeaderView>,
    apply: spec_fn(SnapshotView, HeaderView) -> Option<SnapshotView>,
    a: IncrementalBuild,
    b: IncrementalBuild,
)
    requires
        numbered(headers, apply),
        a.wf(),
        in_chunk(a),
    ensures
        ({
            let next = a.working.block_number + 1;
            let outcome = replayed(headers, apply, a.working@, next, a.target_block as int);
            &&& a.current_block == next ==> outcome == built_in_chunks(
                headers,
                apply,
                a.working@,
                a.current_block as int,
                a.target_block as int,
            )
            &&& build_step(headers, apply, a, b) ==> b.wf() && in_chunk(b) && replayed(
                headers,
                apply,
                b.working@,
                b.working.block_number + 1,
                b.target_block as int,
            ) == outcome
            &&& chunk(a.current_block as int, a.target_block as int) is None ==> outcome == Some(
                a.working@,
            )
            &&& build_fails(headers, apply, a) ==> outcome is None
        }),
{
    let next = a.working.block_number + 1;
    let target = a.target_block as int;
    if a.current_block == next {
        law_chunks_make_no_difference(headers, apply, a.working@, next, target);
    }
    if chunk(a.current_block as int, target) is Some {
        let (first, end) = chunk(a.current_block as int, target)->0;
        let last = end as int;
        if headers_known(headers, first as int, last) {
            if next <= last {
                assert(headers(next as u64) is Some);
            }
        } else if a.current_block == next {
            let missing = choose|k: int|
                first <= k <= last && !((#[trigger] headers(k as u64)) is Some);
            lemma_replay_stops(headers, apply, a.working@, next, target, missing);
        }
    }
}

/// Whether a build went from each state of a run to the next by a step.
pub open spec fn build_run(
    headers: spec_fn(u64) -> Option<HeaderView>,
    apply: spec_fn(SnapshotView, HeaderView) -> Option<SnapshotView>,
    run: Seq<IncrementalBuild>,
    i: int,
) -> bool {
    build_step(headers, apply, run[i], run[i + 1])
}

proof fn lemma_build_run(
    headers: spec_fn(u64) -> Option<HeaderView>,
    apply: spec_fn(SnapshotView, HeaderView) -> Option<SnapshotView>,
    run: Seq<IncrementalBuild>,
    i: int,
)
    requires
        numbered(headers, apply),
        0 <= i < run.len(),
        run[0].wf(),
        run[0].current_block == run[0].working.block_number + 1,
        forall|j: int| 0 <= j < run.len() - 1 ==> #[trigger] build_run(headers, apply, run, j),
    ensures
        run[i].wf(),
        in_chunk(run[i]),
        replayed(
            headers,
            apply,
            run[i].working@,
            run[i].working.block_number + 1,
            run[i].target_block as int,
        ) == built(headers, apply, run[0].working@, run[0].target_block as int),
    decreases i,
{
    if i == 0 {
        law_build_steps_keep_the_outcome(headers, apply, run[0], run[0]);
    } else {
        lemma_build_run(headers, apply, run, i - 1);
        assert(build_run(headers, apply, run, i - 1));
        law_build_steps_keep_the_outcome(headers, apply, run[i - 1], run[i]);
    }
}

/// A build that starts on a base and takes its steps until no chunk is left ends with what is built
/// from the base; where it fails on the way, nothing is.
pub proof fn law_builds_end_with_what_is_built(
    headers: spec_fn(u64) -> Option<HeaderView>,
    apply: spec_fn(SnapshotView, HeaderView) -> Option<SnapshotView>,
    run: Seq<IncrementalBuild>,
)
    requires
        numbered(headers, apply),
        run.len() > 0,
        run[0].wf(),
        run[0].current_block == run[0].working.block_number + 1,
        forall|j: int| 0 <= j < run.len() - 1 ==> #[trigger] build_run(headers, apply, run, j),
    ensures
        ({
            let end = run.last();
            let whole = built(headers, apply, run[0].working@, run[0].target_block as int);
            &&& chunk(end.current_block as int, end.target_block as int) is None ==> whole == Some(
                end.working@,
            )
            &&& build_fails(headers, apply, end) ==> whole is None
        }),
{
    lemma_build_run(headers, apply, run, run.len() - 1);
    law_build_steps_keep_the_outcome(headers, apply, run.last(), run.last());
}

/// Whether a run of a build starts on its base, takes its steps and ends with no chunk left.
pub open spec fn build_completes(
    headers: spec_fn(u64) -> Option<HeaderView>,
    apply: spec_fn(SnapshotView, HeaderView) -> Option<SnapshotView>,
    run: Seq<IncrementalBuild>,
) -> bool {
    &&& run.len() > 0
    &&& run[0].wf()
    &&& run[0].current_block == run[0].working.block_number + 1
    &&& forall|j: int| 0 <= j < run.len() - 1 ==> #[trigger] build_run(headers, apply, run, j)
    &&& chunk(run.last().current_block as int, run.last().target_block as int) is None
}

/// A build that is interrupted at a block on the way, and then goes on from the snapshot that it has
/// there, ends with the same snapshot as one that goes all the way.
pub proof fn law_interrupted_builds_end_alike(
    headers: spec_fn(u64) -> Option<HeaderView>,
    apply: spec_fn(SnapshotView, HeaderView) -> Option<SnapshotView>,
    first: Seq<IncrementalBuild>,
    second: Seq<IncrementalBuild>,
    whole: Seq<IncrementalBuild>,
)
    requires
        numbered(headers, apply),
        build_completes(headers, apply, first),
        build_completes(headers, apply, second),
        build_completes(headers, apply, whole),
        first[0].working@ == whole[0].working@,
        first[0].working.block_number <= first[0].target_block <= whole[0].target_block,
        second[0].working@ == first.last().working@,
        second[0].target_block == whole[0].target_block,
    ensures
        second.last().working@ == whole.last().working@,
{
    law_builds_end_with_what_is_built(headers, apply, first);
    law_builds_end_with_what_is_built(headers, apply, second);
    law_builds_end_with_what_is_built(headers, apply, whole);
    law_builds_can_be_resumed(
        headers,
        apply,
        whole[0].working@,
        first[0].target_block as int,
        whole[0].target_block as int,
    );
}

/// No build completes where the header of a block between its base and its target is missing.
pub proof fn law_no_build_completes_without_a_header(
    headers: spec_fn(u64) -> Option<HeaderView>,
    apply: spec_fn(SnapshotView, HeaderView) -> Option<SnapshotView>,
    run: Seq<IncrementalBuild>,
    missing: u64,
)
    requires
        numbered(headers, apply),
        run.len() > 0,
        run[0].working.block_number < missing <= run[0].target_block,
        headers(missing) is None,
    ensures
        !build_completes(headers, apply, run),
{
    if build_completes(headers, apply, run) {
        let base = run[0].working@;
        let target = run[0].target_block as int;
        law_builds_end_with_what_is_built(headers, apply, run);
        law_builds_can_be_resumed(headers, apply, base, target, target);
        assert(headers((missing as int) as u64) is None);
    }
}

/// What a rebuild meets: the header of each block, the snapshot that is cached or stored for it,
/// whether all is there that a header is applied with, what comes of applying it, whether a snapshot
/// that has to be written to the database could be, and how high a block lies.
pub ghost struct Surroundings {
    /// The header of a block.
    pub headers: spec_fn(B256) -> Option<HeaderView>,
    /// The snapshot that is cached or stored for a block.
    pub known: spec_fn(B256) -> Option<SnapshotView>,
    /// Whether all is there that a header is applied to a snapshot with: its attestation could be
    /// read, and what the header says that announces validators where some take over.
    pub ready: spec_fn(SnapshotView, HeaderView) -> bool,
    /// What comes of applying a header to a snapshot.
    pub apply: spec_fn(SnapshotView, HeaderView) -> Option<SnapshotView>,
    /// Whether a snapshot could be written to the database.
    pub written: spec_fn(SnapshotView) -> bool,
    /// How high a block lies.
    pub height: spec_fn(B256) -> nat,
}

impl Surroundings {
    /// Every block lies above its parent.
    pub open spec fn linked(self) -> bool {
        forall|b: B256|
            (#[trigger] (self.headers)(b)) matches Some(h) ==> (self.height)(h.parent_hash) < (
            self.height)(b)
    }

    /// What comes of applying the header of a block, where there is one and all that it is applied
    /// with.
    pub open spec fn applied(self, s: SnapshotView, block: B256) -> Option<SnapshotView> {
        match (self.headers)(block) {
            None => None,
            Some(h) => if (self.ready)(s, h) {
                (self.apply)(s, h)
            } else {
                None
            },
        }
    }

    /// The snapshot after blocks were applied one after the other; none where a header, or what it
    /// is applied with, is missing, where it cannot be applied, or where a snapshot that has to be
    /// written cannot be.
    pub open spec fn replayed_blocks(self, s: SnapshotView, blocks: Seq<B256>) -> Option<
        SnapshotView,
    >
        decreases blocks.len(),
    {
        if blocks.len() == 0 {
            Some(s)
        } else {
            match self.applied(s, blocks[0]) {
                None => None,
                Some(next) => if is_checkpoint(next.block_number) && !(self.written)(next) {
                    None
                } else {
                    self.replayed_blocks(next, blocks.drop_first())
                },
            }
        }
    }

    /// What a walk down from `block` ends with: the nearest known snapshot with the blocks that
    /// were skipped applied to it, the lowest first; none where a header is missing on the way.
    pub open spec fn rebuilt(self, block: B256, skipped: Seq<B256>) -> Option<SnapshotView>
        decreases (self.height)(block),
        when self.linked()
    {
        match (self.headers)(block) {
            None => None,
            Some(h) => match (self.known)(block) {
                Some(base) => self.replayed_blocks(base, skipped.reverse()),
                None => self.rebuilt(h.parent_hash, skipped.push(block)),
            },
        }
    }

    /// What a rebuild will end with.
    pub open spec fn outcome(self, state: Rebuild) -> Option<SnapshotView> {
        match state {
            Rebuild::FetchParent { next, skipped } => self.rebuilt(next, skipped@),
            Rebuild::QueryStored { hash, parent_hash, skipped } => match (self.known)(hash) {
                Some(base) => self.replayed_blocks(base, skipped@.reverse()),
                None => self.rebuilt(parent_hash, skipped@.push(hash)),
            },
            Rebuild::Replay { working, queue, done } => self.replayed_blocks(
                working@,
                queue@.skip(done as int),
            ),
            Rebuild::Finished(r) => opt_view(r),
        }
    }

    /// One step of a rebuild, on the answer that there is to what it needs.
    pub open spec fn stepped(self, s: Rebuild, t: Rebuild) -> bool {
        match s {
            Rebuild::FetchParent { next, skipped } => exists|cached: Option<SnapshotView>|
                (cached is Some ==> cached == (self.known)(next)) && #[trigger] s.after_parent(
                    (self.headers)(next),
                    cached,
                    t,
                ),
            Rebuild::QueryStored { hash, parent_hash, skipped } => s.after_stored(
                (self.known)(hash),
                t,
            ),
            Rebuild::Replay { working, queue, done } => exists|
                applied: Option<Snapshot>,
                persisted: bool,
            | #[trigger]
                s.after_applied(applied, persisted, t) && opt_view(applied) == self.applied(
                    working@,
                    queue@[done as int],
                ) && (applied matches Some(x) ==> (is_checkpoint(x.block_number) ==> persisted
                    == (self.written)(x@))),
            Rebuild::Finished(_) => false,
        }
    }

    /// Whether a rebuild went from the state at `i` of a run to the next one by a step.
    pub open spec fn rebuild_run(self, run: Seq<Rebuild>, i: int) -> bool {
        self.stepped(run[i], run[i + 1])
    }
}

/// Every step of a rebuild keeps what it will end with.
pub proof fn law_rebuild_steps_keep_the_outcome(around: Surroundings, s: Rebuild, t: Rebuild)
    requires
        around.linked(),
        s.wf(),
        around.stepped(s, t),
    ensures
        t.wf(),
        around.outcome(t) == around.outcome(s),
{
    match s {
        Rebuild::FetchParent { next, skipped } => {
            if t is Replay {
                assert(t->queue@.skip(0) =~= t->queue@);
            }
        },
        Rebuild::QueryStored { hash, parent_hash, skipped } => {
            if t is Replay {
                assert(t->queue@.skip(0) =~= t->queue@);
            }
        },
        Rebuild::Replay { working, queue, done } => {
            let left = queue@.skip(done as int);
            assert(left[0] == queue@[done as int]);
            assert(left.drop_first() =~= queue@.skip(done + 1));
            let (applied, persisted) = choose|applied: Option<Snapshot>, persisted: bool| #[trigger]
                s.after_applied(applied, persisted, t) && opt_view(applied) == around.applied(
                    working@,
                    queue@[done as int],
                ) && (applied matches Some(x) ==> (is_checkpoint(x.block_number) ==> persisted
                    == (around.written)(x@)));
            match applied {
                None => {
                    assert(around.applied(working@, left[0]) is None);
                    assert(around.replayed_blocks(working@, left) is None);
                },
                Some(x) => {
                    assert(around.applied(working@, left[0]) == Some(x@));
                    assert(queue.len() == queue@.len());
                    if left.len() == 1 {
                        assert(around.replayed_blocks(x@, left.drop_first()) == Some(x@));
                    }
                },
            }
        },
        Rebuild::Finished(_) => {},
    }
}

proof fn lemma_rebuild_run(around: Surroundings, run: Seq<Rebuild>, i: int)
    requires
        around.linked(),
        0 <= i < run.len(),
        run[0].wf(),
        forall|j: int| 0 <= j < run.len() - 1 ==> #[trigger] around.rebuild_run(run, j),
    ensures
        run[i].wf(),
        around.outcome(run[i]) == around.outcome(run[0]),
    decreases i,
{
    if i > 0 {
        lemma_rebuild_run(around, run, i - 1);
        assert(around.rebuild_run(run, i - 1));
        law_rebuild_steps_keep_the_outcome(around, run[i - 1], run[i]);
    }
}

/// A rebuild that starts at a target and takes its steps to the end gives the snapshot that a walk
/// down from the target's parent ends with: the nearest known one, with the blocks above it up to
/// the target applied in their order.
pub proof fn law_rebuilds_end_with_what_the_walk_finds(
    around: Surroundings,
    run: Seq<Rebuild>,
    target: Header,
    block: B256,
)
    requires
        around.linked(),
        run.len() > 0,
        run[0].starts_at(target),
        block@ == target.digest(),
        forall|j: int| 0 <= j < run.len() - 1 ==> #[trigger] around.rebuild_run(run, j),
    ensures
        run.last() matches Rebuild::Finished(r) ==> opt_view(r) == around.rebuilt(
            target.parent_hash,
            seq![block],
        ),
{
    lemma_rebuild_run(around, run, run.len() - 1);
    let skipped = run[0]->FetchParent_skipped@;
    lemma_fixed_bytes_eq(skipped[0], block);
    assert(skipped =~= seq![block]);
}

/// A walk down a chain of blocks without snapshots. Where the block below them has one, it is the
/// base, and the blocks are applied to it from the lowest to the highest, and then those that were
/// skipped before. Where that block has no header, there is no snapshot.
pub proof fn law_walk_ends_at_the_nearest_known_snapshot(
    around: Surroundings,
    path: Seq<B256>,
    skipped: Seq<B256>,
)
    requires
        around.linked(),
        path.len() > 0,
        forall|i: int|
            0 <= i < path.len() - 1 ==> (#[trigger] (around.headers)(path[i])) is Some
                && (around.known)(path[i]) is None,
        forall|i: int, j: int|
            0 <= i && j == i + 1 && j < path.len() ==> (#[trigger] (around.headers)(
                path[i],
            ))->0.parent_hash == #[trigger] path[j],
    ensures
        (around.headers)(path.last()) is None ==> around.rebuilt(path[0], skipped) is None,
        (around.headers)(path.last()) is Some ==> ((around.known)(path.last()) matches Some(base)
            ==> around.rebuilt(path[0], skipped) == around.replayed_blocks(
            base,
            path.drop_last().reverse() + skipped.reverse(),
        )),
    decreases path.len(),
{
    if path.len() > 1 {
        let rest = path.drop_first();
        let more = skipped.push(path[0]);
        assert((around.headers)(path[0]) is Some);
        assert(path[1] == (around.headers)(path[0])->0.parent_hash);
        assert forall|i: int| 0 <= i < rest.len() - 1 implies (#[trigger] (around.headers)(
            rest[i],
        )) is Some && (around.known)(rest[i]) is None by {
            assert((around.headers)(path[i + 1]) is Some);
        }
        assert forall|i: int, j: int|
            0 <= i && j == i + 1 && j < rest.len() implies (#[trigger] (around.headers)(
            rest[i],
        ))->0.parent_hash == #[trigger] rest[j] by {
            assert((around.headers)(path[i + 1])->0.parent_hash == path[j + 1]);
        }
        law_walk_ends_at_the_nearest_known_snapshot(around, rest, more);
        assert(rest.last() == path.last());
        assert(rest.drop_last().reverse() + more.reverse() =~= path.drop_last().reverse()
            + skipped.reverse());
    } else {
        assert(path.drop_last().reverse() + skipped.reverse() =~= skipped.reverse());
    }
}

/// No snapshot comes of blocks of which one has no header.
pub proof fn law_missing_headers_leave_no_snapshot(
    around: Surroundings,
    s: SnapshotView,
    blocks: Seq<B256>,
    i: int,
)
    requires
        0 <= i < blocks.len(),
        (around.headers)(blocks[i]) is None,
    ensures
        around.replayed_blocks(s, blocks) is None,
    decreases i,
{
    if i > 0 && around.applied(s, blocks[0]) is Some {
        assert(blocks.drop_first()[i - 1] == blocks[i]);
        law_missing_headers_leave_no_snapshot(
            around,
            around.applied(s, blocks[0])->0,
            blocks.drop_first(),
            i - 1,
        );
    }
}

/// No snapshot comes of blocks of which one cannot be applied to the snapshot of those before it, for
/// want of its header or of what it is applied with.
pub proof fn law_missing_inputs_leave_no_snapshot(
    around: Surroundings,
    s: SnapshotView,
    blocks: Seq<B256>,
    i: int,
)
    requires
        0 <= i < blocks.len(),
        around.replayed_blocks(s, blocks.take(i)) matches Some(x) && around.applied(
            x,
            blocks[i],
        ) is None,
    ensures
        around.replayed_blocks(s, blocks) is None,
    decreases i,
{
    if i > 0 {
        let next = around.applied(s, blocks[0]);
        assert(blocks.take(i)[0] == blocks[0]);
        assert(blocks.take(i).drop_first() =~= blocks.drop_first().take(i - 1));
        assert(blocks.drop_first()[i - 1] == blocks[i]);
        if next is Some {
            law_missing_inputs_leave_no_snapshot(around, next->0, blocks.drop_first(), i - 1);
        }
    } else {
        assert(around.replayed_blocks(s, blocks.take(0)) == Some(s));
    }
}

/// A chunk begins with the block that is due and holds 1024 blocks, or as many as are left up to
/// the target where those are fewer; there is none behind the target.
pub proof fn law_chunks_hold_1024_blocks(current: u64, target: u64)
    requires
        target + 1023 <= u64::MAX,
    ensures
        chunk(current as int, target as int) is None <==> current > target,
        chunk(current as int, target as int) matches Some((first, last)) ==> {
            &&& first == current
            &&& last <= target
            &&& last - first + 1 <= 1024
            &&& last < target ==> last - first + 1 == 1024
        },
{
}

/// A walk that starts at a block asks for its parent, and the block itself is the first that was
/// skipped. Where a block has neither a cached nor a stored snapshot it is skipped as well and its
/// own parent is asked for; where it has one, all that were skipped are replayed on it.
pub proof fn law_walk_skips_blocks_without_snapshots(
    target: Header,
    start: Rebuild,
    header: HeaderView,
    asked: Rebuild,
    further: Rebuild,
)
    requires
        start.starts_at(target),
        start.after_parent(Some(header), None, asked),
        asked.after_stored(None, further),
    ensures
        match further {
            Rebuild::FetchParent { next, skipped } => {
                &&& next == header.parent_hash
                &&& skipped@.len() == 2
                &&& skipped@[0]@ == keccak(target.encoded@)
                &&& skipped@[1] == target.parent_hash
            },
            _ => false,
        },
        match asked {
            Rebuild::QueryStored { hash, parent_hash, skipped } => hash == target.parent_hash
                && parent_hash == header.parent_hash,
            _ => false,
        },
{
}

/// A rebuild goes on with the next block where the one before could be applied and, if its number
/// is a multiple of 1024, was written to the database; else it ends without a snapshot. After the
/// last block it ends with the snapshot of that block.
pub proof fn law_each_replayed_block_counts(
    state: Rebuild,
    applied: Option<Snapshot>,
    persisted: bool,
    next: Rebuild,
)
    requires
        state is Replay,
        state.wf(),
        state.after_applied(applied, persisted, next),
    ensures
        next == Rebuild::Finished(None) <==> applied is None || (applied->0.block_number % 1024 == 0
            && !persisted),
        next is Finished && next != Rebuild::Finished(None) ==> state->done + 1
            == state->queue@.len() && next == Rebuild::Finished(applied),
        match next {
            Rebuild::Replay { working, queue, done } => Some(working) == applied && queue
                == state->queue && done == state->done + 1 && done < queue@.len(),
            Rebuild::Finished(_) => true,
            _ => false,
        },
{
    assert(state->queue.len() == state->queue@.len());
}

} // verus!
