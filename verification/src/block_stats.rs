//! How long after its creation a block and the votes for it arrive.

use crate::primitives::B256;
use crate::recency::lemma_stored_other;
use crate::recency::lemma_stored_recalled;
use crate::recency::lemma_touched;
use crate::recency::lemma_without;
use crate::recency::recall;
use crate::recency::stored;
use crate::recency::touched;
use crate::recency::without;
use vstd::prelude::*;

verus! {

/// How many blocks are followed.
pub const BLOCK_STATS_CACHE_SIZE: usize = 64;

/// The number of votes that counts as a majority.
pub const DEFAULT_MAJORITY_THRESHOLD: usize = 14;

/// What is known of one block.
#[derive(Clone, Copy, Debug)]
pub struct BlockStat {
    /// When the block was made, in milliseconds.
    pub block_timestamp_ms: i64,
    /// Whether the delay of the first vote was reported.
    pub first_vote_reported: bool,
    /// Whether the delay of the majority was reported.
    pub majority_vote_reported: bool,
}

/// The blocks that are followed, by hash.
pub type StatCache = lru::LruCache<[u8; 32], BlockStat>;

/// What is known of the blocks, the block used last first.
pub uninterp spec fn block_stats_of(c: StatCache) -> Seq<(Seq<u8>, BlockStat)>;

/// How many blocks can be followed.
pub uninterp spec fn block_stats_limit(c: StatCache) -> nat;

/// `lru::LruCache::new`: an empty map that holds at most that many entries.
#[verifier::external_body]
fn new_stats(limit: usize) -> (c: StatCache)
    requires
        limit > 0,
    ensures
        block_stats_of(c) == Seq::<(Seq<u8>, BlockStat)>::empty(),
        block_stats_limit(c) == limit,
{
    lru::LruCache::new(std::num::NonZero::new(limit).unwrap())
}

/// `lru::LruCache::get_or_insert`: makes the entry of the key the one used last; where there is
/// none, stores the value as `put` does.
#[verifier::external_body]
fn stats_get_or_insert(c: &mut StatCache, k: &[u8; 32], stat: BlockStat)
    ensures
        block_stats_of(*final(c)) == match recall(block_stats_of(*old(c)), k@) {
            Some(_) => touched(block_stats_of(*old(c)), k@),
            None => stored(block_stats_of(*old(c)), block_stats_limit(*old(c)), k@, stat),
        },
        block_stats_limit(*final(c)) == block_stats_limit(*old(c)),
{
    c.get_or_insert(*k, || stat);
}

/// `lru::LruCache::get_mut`: the value under the key for update; its entry becomes the one used
/// last.
#[verifier::external_body]
fn stats_get_mut<'a>(c: &'a mut StatCache, k: &[u8; 32]) -> (r: Option<&'a mut BlockStat>)
    ensures
        match r {
            Some(s) => recall(block_stats_of(*old(c)), k@) == Some(*s) && block_stats_of(*final(c))
                == seq![(k@, *final(s))] + without(block_stats_of(*old(c)), k@),
            None => recall(block_stats_of(*old(c)), k@) is None && block_stats_of(*final(c))
                == block_stats_of(*old(c)),
        },
        block_stats_limit(*final(c)) == block_stats_limit(*old(c)),
{
    c.get_mut(k)
}

/// The delay to report: what lies between a time and a later one.
pub open spec fn delay_since(from_ms: i64, now_ms: i64) -> Option<i64> {
    if now_ms >= from_ms {
        Some((now_ms - from_ms) as i64)
    } else {
        None
    }
}

/// The delays to report when a vote arrives.
#[derive(Clone, Copy, Debug, PartialEq, Eq, Structural)]
pub struct VoteDelays {
    /// The delay of the first vote.
    pub first: Option<i64>,
    /// The delay of the vote that makes the majority.
    pub majority: Option<i64>,
}

/// Whether the `vote_count`-th vote is the first that is to be reported.
pub open spec fn first_due(s: BlockStat, vote_count: usize) -> bool {
    vote_count == 1 && !s.first_vote_reported
}

/// Whether the `vote_count`-th vote makes the majority that is to be reported.
pub open spec fn majority_due(s: BlockStat, vote_count: usize) -> bool {
    vote_count >= DEFAULT_MAJORITY_THRESHOLD && !s.majority_vote_reported
}

/// What is known of a block after its `vote_count`-th vote.
pub open spec fn after_vote(s: BlockStat, vote_count: usize) -> BlockStat {
    BlockStat {
        block_timestamp_ms: s.block_timestamp_ms,
        first_vote_reported: s.first_vote_reported || vote_count == 1,
        majority_vote_reported: s.majority_vote_reported || vote_count
            >= DEFAULT_MAJORITY_THRESHOLD,
    }
}

/// Follows the recent blocks.
pub struct BlockStats {
    cache: StatCache,
}

impl BlockStats {
    /// What is known of the blocks, the block used last first.
    pub closed spec fn view(&self) -> Seq<(Seq<u8>, BlockStat)> {
        block_stats_of(self.cache)
    }

    /// No block was made before the epoch that times are counted from.
    pub closed spec fn wf(&self) -> bool {
        &&& block_stats_limit(self.cache) == BLOCK_STATS_CACHE_SIZE
        &&& forall|k: Seq<u8>|
            (#[trigger] recall(self@, k)) matches Some(s) ==> s.block_timestamp_ms >= 0
    }

    /// Follows no block yet.
    pub fn new() -> (r: Self)
        ensures
            r.wf(),
            r@ == Seq::<(Seq<u8>, BlockStat)>::empty(),
    {
        BlockStats { cache: new_stats(BLOCK_STATS_CACHE_SIZE) }
    }

    /// A block arrives: it is followed from now on, and how old it is is returned, unless it was
    /// made in the future.
    pub fn on_block_received(
        &mut self,
        block_hash: B256,
        block_timestamp_secs: u64,
        now_ms: i64,
    ) -> (r: Option<i64>)
        requires
            old(self).wf(),
            block_timestamp_secs * 1000 <= i64::MAX,
            now_ms >= 0,
        ensures
            final(self).wf(),
            r == delay_since((block_timestamp_secs * 1000) as i64, now_ms),
            r matches Some(delay) ==> block_timestamp_secs * 1000 + delay == now_ms,
            r is Some <==> block_timestamp_secs * 1000 <= now_ms,
            final(self)@ == match recall(old(self)@, block_hash@) {
                Some(_) => touched(old(self)@, block_hash@),
                None => stored(
                    old(self)@,
                    BLOCK_STATS_CACHE_SIZE as nat,
                    block_hash@,
                    (BlockStat {
                        block_timestamp_ms: (block_timestamp_secs * 1000) as i64,
                        first_vote_reported: false,
                        majority_vote_reported: false,
                    }),
                ),
            },
    {
        let block_ts_ms: i64 = block_timestamp_secs as i64 * 1000;
        let delay_ms: i64 = now_ms - block_ts_ms;
        let r = if delay_ms >= 0 {
            Some(delay_ms)
        } else {
            None
        };
        let stat = BlockStat {
            block_timestamp_ms: block_ts_ms,
            first_vote_reported: false,
            majority_vote_reported: false,
        };
        let ghost before = self@;
        stats_get_or_insert(&mut self.cache, &block_hash.bytes, stat);
        proof {
            assert forall|k: Seq<u8>| (#[trigger] recall(self@, k)) is Some implies recall(
                self@,
                k,
            )->0.block_timestamp_ms >= 0 by {
                if recall(before, block_hash@) is Some {
                    lemma_touched(before, block_hash@, k);
                } else if k == block_hash@ {
                    lemma_stored_recalled(
                        before,
                        BLOCK_STATS_CACHE_SIZE as nat,
                        block_hash@,
                        stat,
                    );
                } else {
                    lemma_stored_other(
                        before,
                        BLOCK_STATS_CACHE_SIZE as nat,
                        block_hash@,
                        stat,
                        k,
                    );
                }
            }
        }
        r
    }

    /// A vote for a block arrives, the `vote_count`-th for it: the delay of the first vote and
    /// that of the majority are returned once each. Nothing is known of a block that has not
    /// arrived.
    pub fn on_vote_received(&mut self, block_hash: B256, vote_count: usize, now_ms: i64) -> (r:
        VoteDelays)
        requires
            old(self).wf(),
            now_ms >= 0,
        ensures
            final(self).wf(),
            match recall(old(self)@, block_hash@) {
                None => r.first is None && r.majority is None && final(self)@ == old(self)@,
                Some(s) => {
                    &&& r.first == if first_due(s, vote_count) {
                        delay_since(s.block_timestamp_ms, now_ms)
                    } else {
                        None
                    }
                    &&& r.majority == if majority_due(s, vote_count) {
                        delay_since(s.block_timestamp_ms, now_ms)
                    } else {
                        None
                    }
                    &&& final(self)@ == seq![(block_hash@, after_vote(s, vote_count))] + without(
                        old(self)@,
                        block_hash@,
                    )
                },
            },
            r.first is Some ==> vote_count == 1,
            r.majority is Some ==> vote_count >= 14,
            recall(old(self)@, block_hash@) matches Some(s) ==> {
                &&& r.first matches Some(delay) ==> s.block_timestamp_ms + delay == now_ms
                &&& r.majority matches Some(delay) ==> s.block_timestamp_ms + delay == now_ms
                &&& vote_count >= 14 && !s.majority_vote_reported && s.block_timestamp_ms <= now_ms
                    ==> r.majority is Some
            },
    {
        let ghost before = *self;
        let mut first: Option<i64> = None;
        let mut majority: Option<i64> = None;
        match stats_get_mut(&mut self.cache, &block_hash.bytes) {
            Some(stat) => {
                if vote_count == 1 && !stat.first_vote_reported {
                    let delay_ms: i64 = now_ms - stat.block_timestamp_ms;
                    if delay_ms >= 0 {
                        first = Some(delay_ms);
                    }
                    stat.first_vote_reported = true;
                }
                if vote_count >= DEFAULT_MAJORITY_THRESHOLD && !stat.majority_vote_reported {
                    let delay_ms: i64 = now_ms - stat.block_timestamp_ms;
                    if delay_ms >= 0 {
                        majority = Some(delay_ms);
                    }
                    stat.majority_vote_reported = true;
                }
            },
            None => {},
        }
        proof {
            let h = block_hash@;
            if recall(before@, h) is Some {
                let s = recall(before@, h)->0;
                let after = seq![(h, after_vote(s, vote_count))] + without(before@, h);
                assert(self@ == after);
                assert(after.drop_first() =~= without(before@, h));
                assert forall|k: Seq<u8>| (#[trigger] recall(self@, k)) is Some implies recall(
                    self@,
                    k,
                )->0.block_timestamp_ms >= 0 by {
                    lemma_without(before@, h, k);
                }
            }
        }
        VoteDelays { first, majority }
    }
}

/// Each delay of a block is reported at most once: after a vote was reported as the first or as
/// the majority, no later vote is.
pub proof fn law_delays_are_reported_once(s: BlockStat, count: usize, later: usize)
    ensures
        first_due(s, count) ==> !first_due(after_vote(s, count), later),
        majority_due(s, count) ==> !majority_due(after_vote(s, count), later),
{
}

/// A delay is what has to be added to the earlier time to make the later one; there is none where
/// the block was made in the future.
pub proof fn law_delay_leads_from_block_to_now(from_ms: i64, now_ms: i64)
    requires
        from_ms >= 0,
    ensures
        delay_since(from_ms, now_ms) matches Some(delay) ==> from_ms + delay == now_ms && delay >= 0,
        delay_since(from_ms, now_ms) is None <==> now_ms < from_ms,
{
}

/// Of a block whose votes were not reported yet the first vote is reported, and no other as the
/// first; the majority is reported with the 14th vote or the next one that is looked at after it,
/// and not before.
pub proof fn law_first_and_fourteenth_vote_are_reported(s: BlockStat, count: usize)
    requires
        !s.first_vote_reported,
        !s.majority_vote_reported,
    ensures
        first_due(s, count) <==> count == 1,
        majority_due(s, count) <==> count > 13,
        after_vote(s, count).first_vote_reported <==> first_due(s, count),
        after_vote(s, count).majority_vote_reported <==> majority_due(s, count),
{
}

/// A vote takes back no report and does not change when the block was made, and what was not
/// reported by it is still due.
pub proof fn law_votes_take_back_no_report(s: BlockStat, count: usize, later: usize)
    ensures
        after_vote(s, count).block_timestamp_ms == s.block_timestamp_ms,
        s.first_vote_reported ==> after_vote(s, count).first_vote_reported && !first_due(s, count),
        s.majority_vote_reported ==> after_vote(s, count).majority_vote_reported && !majority_due(
            s,
            count,
        ),
        !first_due(s, count) && first_due(s, later) ==> first_due(after_vote(s, count), later),
        !majority_due(s, count) && majority_due(s, later) ==> majority_due(
            after_vote(s, count),
            later,
        ),
{
}

} // verus!
