//! When enough votes for the head have come in to finalize its parent at once.

use crate::header::Header;
use crate::header::HeaderView;
use crate::primitives::lemma_fixed_bytes_eq;
use crate::primitives::B256;
use crate::recency::lemma_stored_keeps;
use crate::recency::lemma_stored_recalled;
use crate::recency::recall;
use crate::recency::stored;
use crate::rlp::keccak;
use crate::snapshot::snapshot_view;
use crate::snapshot::Snapshot;
use crate::snapshot::SnapshotView;
use crate::vote::VoteEnvelope;
use crate::vote_pool::votes_for;
use crate::vote_pool::VotePool;
use crate::vote_pool::VotesByBlock;
use vstd::prelude::*;

verus! {

/// How many finality notifications are remembered.
pub const FINALIZED_NOTIFIED_CACHE_SIZE: usize = 21;

/// The blocks that were notified, by hash.
pub type NotifiedCache = lru::LruCache<[u8; 32], ()>;

/// The blocks that were notified, the one used last first.
pub uninterp spec fn notified_blocks(c: NotifiedCache) -> Seq<(Seq<u8>, ())>;

/// How many blocks can be remembered.
pub uninterp spec fn notified_limit(c: NotifiedCache) -> nat;

/// `lru::LruCache::new`: an empty map that holds at most that many entries.
#[verifier::external_body]
fn new_notified(limit: usize) -> (c: NotifiedCache)
    requires
        limit > 0,
    ensures
        notified_blocks(c) == Seq::<(Seq<u8>, ())>::empty(),
        notified_limit(c) == limit,
{
    lru::LruCache::new(std::num::NonZero::new(limit).unwrap())
}

/// `lru::LruCache::peek`: whether there is an entry under the key, which is not counted as a use.
#[verifier::external_body]
fn notified_peek(c: &NotifiedCache, k: &[u8; 32]) -> (r: bool)
    ensures
        r == (recall(notified_blocks(*c), k@) is Some),
{
    c.peek(k).is_some()
}

/// `lru::LruCache::put`: stores the key as the entry used last; where the map is full and the key
/// is new, the entry used longest ago goes.
#[verifier::external_body]
fn notified_put(c: &mut NotifiedCache, k: &[u8; 32])
    ensures
        notified_blocks(*final(c)) == stored(
            notified_blocks(*old(c)),
            notified_limit(*old(c)),
            k@,
            (),
        ),
        notified_limit(*final(c)) == notified_limit(*old(c)),
{
    c.put(*k, ());
}

/// The number of votes that makes two thirds of the validators, rounded up.
pub open spec fn two_thirds(validators: nat) -> nat {
    (validators * 2 + 2) / 3
}

/// The number of votes that makes two thirds of the validators, rounded up.
pub fn quorum(validators: usize) -> (r: usize)
    ensures
        r == two_thirds(validators as nat),
{
    validators - validators / 3
}

/// Whether a vote goes from the justified block to the head.
pub open spec fn eligible(v: VoteEnvelope, justified: u64, head: u64) -> bool {
    v.data.source_number == justified && v.data.target_number == head
}

/// How many votes for a block go from the justified block to the head.
pub open spec fn eligible_votes(
    g: VotesByBlock,
    block: B256,
    justified: u64,
    head: u64,
) -> nat {
    votes_for(g, block).filter(|v: VoteEnvelope| eligible(v, justified, head)).len()
}

/// Whether finality is to be notified for a block: it is the head and was not notified before,
/// its parent is the justified block, and two thirds of the validators have voted from there to
/// the head.
pub open spec fn finality_due(
    notified: Seq<(Seq<u8>, ())>,
    g: VotesByBlock,
    target: B256,
    votes_for_block: usize,
    head: Option<HeaderView>,
    snap: Option<SnapshotView>,
) -> bool {
    &&& recall(notified, target@) is None
    &&& head matches Some(head)
    &&& keccak(head.encoded) == target@
    &&& snap matches Some(snap)
    &&& snap.validators.len() > 0
    &&& head.number > 0
    &&& head.number - 1 == snap.vote_data.target_number
    &&& votes_for_block >= two_thirds(snap.validators.len())
    &&& eligible_votes(g, target, snap.vote_data.target_number, head.number) >= two_thirds(
        snap.validators.len(),
    )
}

/// The view behind a reference that may be missing.
pub open spec fn head_view(head: Option<&Header>) -> Option<HeaderView> {
    match head {
        Some(h) => Some(h@),
        None => None,
    }
}

/// Remembers for which blocks finality was notified.
pub struct FinalityNotifier {
    cache: NotifiedCache,
}

impl FinalityNotifier {
    /// The blocks that were notified, the one used last first.
    pub closed spec fn view(&self) -> Seq<(Seq<u8>, ())> {
        notified_blocks(self.cache)
    }

    /// As many blocks are remembered as there should be.
    pub closed spec fn wf(&self) -> bool {
        notified_limit(self.cache) == FINALIZED_NOTIFIED_CACHE_SIZE
    }

    /// No block was notified yet.
    pub fn new() -> (r: Self)
        ensures
            r.wf(),
            r@ == Seq::<(Seq<u8>, ())>::empty(),
    {
        FinalityNotifier { cache: new_notified(FINALIZED_NOTIFIED_CACHE_SIZE) }
    }

    /// Decides, after a vote for a block came in, whether finality is to be notified; where it is,
    /// the block is remembered as notified. `head` is the canonical head and `snap` the snapshot
    /// of the block, as far as there are any.
    pub fn maybe_notify_finality(
        &mut self,
        pool: &VotePool,
        target_hash: B256,
        votes_for_block: usize,
        head: Option<&Header>,
        snap: Option<&Snapshot>,
    ) -> (r: bool)
        requires
            old(self).wf(),
            pool.wf(),
        ensures
            final(self).wf(),
            r == finality_due(
                old(self)@,
                pool@,
                target_hash,
                votes_for_block,
                head_view(head),
                snapshot_view(snap),
            ),
            r ==> (snap matches Some(s) && 3 * votes_for_block >= 2 * s.validators@.len() && 3
                * votes_for(pool@, target_hash).filter(
                |v: VoteEnvelope|
                    v.data.source_number == s.vote_data.target_number && v.data.target_number
                        == s.vote_data.target_number + 1,
            ).len() >= 2 * s.validators@.len()),
            final(self)@ == if r {
                stored(old(self)@, FINALIZED_NOTIFIED_CACHE_SIZE as nat, target_hash@, ())
            } else {
                old(self)@
            },
    {
        if notified_peek(&self.cache, &target_hash.bytes) {
            return false;
        }
        let head = match head {
            Some(head) => head,
            None => {
                return false;
            },
        };
        let head_hash = head.hash_slow();
        proof {
            lemma_fixed_bytes_eq(head_hash, target_hash);
        }
        if head_hash != target_hash {
            return false;
        }
        let snap = match snap {
            Some(snap) => snap,
            None => {
                return false;
            },
        };
        if snap.validators.len() == 0 {
            return false;
        }
        let current_justified_number: u64 = snap.vote_data.target_number;
        if head.number == 0 || head.number - 1 != current_justified_number {
            return false;
        }
        let needed: usize = quorum(snap.validators.len());
        if votes_for_block < needed {
            return false;
        }
        let votes = pool.fetch_vote_by_block_hash(target_hash);
        let count: usize = Self::count_eligible(&votes, current_justified_number, head.number);
        proof {
            let (justified, number) = (current_justified_number, head.number);
            assert((|v: VoteEnvelope|
                v.data.source_number == justified && v.data.target_number == justified + 1)
                =~= (|v: VoteEnvelope| eligible(v, justified, number)));
        }
        if count < needed {
            return false;
        }
        notified_put(&mut self.cache, &target_hash.bytes);
        true
    }

    fn count_eligible(votes: &Vec<VoteEnvelope>, justified: u64, head: u64) -> (r: usize)
        ensures
            r == votes@.filter(|v: VoteEnvelope| eligible(v, justified, head)).len(),
    {
        let ghost counts = |v: VoteEnvelope| eligible(v, justified, head);
        let mut count: usize = 0;
        let mut i: usize = 0;
        proof {
            reveal(Seq::filter);
            assert(votes@.take(0).filter(counts).len() == 0);
        }
        while i < votes.len()
            invariant
                i <= votes@.len(),
                count <= i,
                counts == |v: VoteEnvelope| eligible(v, justified, head),
                count == votes@.take(i as int).filter(counts).len(),
            decreases votes@.len() - i,
        {
            proof {
                reveal(Seq::filter);
                assert(votes@.take(i + 1).drop_last() =~= votes@.take(i as int));
                assert(votes@.take(i + 1).last() == votes@[i as int]);
            }
            if votes[i].data.source_number == justified && votes[i].data.target_number == head {
                count += 1;
            }
            i += 1;
        }
        proof {
            assert(votes@.take(i as int) =~= votes@);
        }
        count
    }
}

/// How long ago, in milliseconds, a block was made that is finalized now; zero for one made in
/// the future.
pub fn early_finality_latency_ms(now_ms: u64, block_ms: u64) -> (r: u64)
    ensures
        r == if now_ms >= block_ms {
            now_ms - block_ms
        } else {
            0
        },
        block_ms <= now_ms ==> block_ms + r == now_ms,
        block_ms > now_ms ==> r == 0,
{
    now_ms.saturating_sub(block_ms)
}

/// Once finality was notified for a block it is not notified again as long as the block is
/// remembered, whatever votes, head and snapshot there are.
pub proof fn law_finality_is_notified_once(
    notified: Seq<(Seq<u8>, ())>,
    g: VotesByBlock,
    target: B256,
    votes_for_block: usize,
    head: Option<HeaderView>,
    snap: Option<SnapshotView>,
)
    ensures
        !finality_due(
            stored(notified, FINALIZED_NOTIFIED_CACHE_SIZE as nat, target@, ()),
            g,
            target,
            votes_for_block,
            head,
            snap,
        ),
{
    lemma_stored_recalled(notified, FINALIZED_NOTIFIED_CACHE_SIZE as nat, target@, ());
}

/// Two quorums have a validator in common: together they are more than all validators.
pub proof fn law_quorums_meet(validators: nat)
    requires
        validators > 0,
    ensures
        2 * two_thirds(validators) > validators,
        two_thirds(validators) <= validators,
{
}

/// Finality is notified exactly where two thirds of the validators, and at least one, have voted
/// for the block from its parent, which is justified, and the block is the head and was not
/// notified before: three times the votes are at least twice the validators, whichever way they are
/// counted.
pub proof fn law_finality_takes_two_thirds(
    notified: Seq<(Seq<u8>, ())>,
    g: VotesByBlock,
    target: B256,
    votes_for_block: usize,
    head: HeaderView,
    snap: SnapshotView,
)
    ensures
        ({
            let votes = votes_for(g, target).filter(
                |v: VoteEnvelope|
                    v.data.source_number == snap.vote_data.target_number && v.data.target_number
                        == head.number,
            );
            let n = snap.validators.len();
            finality_due(notified, g, target, votes_for_block, Some(head), Some(snap)) <==> {
                &&& n > 0
                &&& 3 * votes_for_block >= 2 * n
                &&& 3 * votes.len() >= 2 * n
                &&& head.number == snap.vote_data.target_number + 1
                &&& keccak(head.encoded) == target@
                &&& recall(notified, target@) is None
            }
        }),
        !finality_due(notified, g, target, votes_for_block, None, Some(snap)),
        !finality_due(notified, g, target, votes_for_block, Some(head), None),
{
    assert((|v: VoteEnvelope|
        v.data.source_number == snap.vote_data.target_number && v.data.target_number
            == head.number) =~= (|v: VoteEnvelope|
        eligible(v, snap.vote_data.target_number, head.number)));
}

/// A quorum is the least number of validators that makes two thirds of them.
pub proof fn law_quorum_is_the_least(validators: nat)
    ensures
        3 * two_thirds(validators) >= 2 * validators,
        validators > 0 ==> 3 * (two_thirds(validators) - 1) < 2 * validators,
{
}

/// A block that was notified stays remembered while others are, as long as no more than 21 are:
/// only where that many are remembered does the one used longest ago make room for a new one.
pub proof fn law_notified_blocks_stay_remembered(
    notified: Seq<(Seq<u8>, ())>,
    target: Seq<u8>,
    other: Seq<u8>,
)
    requires
        notified.len() <= 21,
        other != target,
        recall(notified, target) is Some,
        notified.len() == 21 ==> notified.last().0 != target,
    ensures
        recall(stored(notified, FINALIZED_NOTIFIED_CACHE_SIZE as nat, other, ()), target) is Some,
        stored(notified, FINALIZED_NOTIFIED_CACHE_SIZE as nat, other, ()).len() <= 21,
{
    lemma_stored_keeps(notified, FINALIZED_NOTIFIED_CACHE_SIZE as nat, other, (), target);
}

} // verus!
