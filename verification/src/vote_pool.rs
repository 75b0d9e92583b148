//! The votes that wait to be used, by the block that they are for.

use crate::malicious_vote_monitor::buffer_of;
use crate::malicious_vote_monitor::heights_fit;
use crate::malicious_vote_monitor::judged;
use crate::malicious_vote_monitor::MaliciousVoteMonitor;
use crate::malicious_vote_monitor::VoteViolation;
use crate::primitives::lemma_fixed_bytes_eq;
use crate::primitives::VoteAddress;
use crate::primitives::B256;
use crate::vote::VoteData;
use crate::vote::VoteEnvelope;
use vstd::multiset::Multiset;
use vstd::prelude::*;

verus! {

/// For how many blocks behind the latest one votes are kept.
pub const LOWER_LIMIT_OF_VOTE_BLOCK_NUMBER: u64 = 256;

/// The votes of a pool by block; the blocks stand in the order in which their first vote came.
pub type VotesByBlock = Seq<(B256, Seq<VoteEnvelope>)>;

/// Where the votes for a block stand.
pub open spec fn position(g: VotesByBlock, block: B256) -> Option<int> {
    if exists|i: int| 0 <= i < g.len() && (#[trigger] g[i]).0 == block {
        Some(choose|i: int| 0 <= i < g.len() && (#[trigger] g[i]).0 == block)
    } else {
        None
    }
}

/// The votes for a block in the order in which they came.
pub open spec fn votes_for(g: VotesByBlock, block: B256) -> Seq<VoteEnvelope> {
    match position(g, block) {
        Some(i) => g[i].1,
        None => Seq::empty(),
    }
}

/// Whether a vote with this hash is there.
pub open spec fn holds(g: VotesByBlock, digest: Seq<u8>) -> bool {
    exists|i: int, j: int|
        0 <= i < g.len() && 0 <= j < g[i].1.len() && (#[trigger] g[i].1[j]).digest() == digest
}

/// The votes after one more came.
pub open spec fn with_vote(g: VotesByBlock, vote: VoteEnvelope) -> VotesByBlock {
    match position(g, vote.data.target_hash) {
        Some(i) => g.update(i, (vote.data.target_hash, g[i].1.push(vote))),
        None => g.push((vote.data.target_hash, seq![vote])),
    }
}

/// All votes, block by block.
pub open spec fn all_votes(g: VotesByBlock) -> Seq<VoteEnvelope>
    decreases g.len(),
{
    if g.len() == 0 {
        Seq::empty()
    } else {
        all_votes(g.drop_last()) + g.last().1
    }
}

/// Whether the votes for a block are too old to be kept: the target of the first of them lies
/// more than the limit behind the latest block.
pub open spec fn outdated(e: (B256, Seq<VoteEnvelope>), latest: u64) -> bool {
    e.1[0].data.target_number + LOWER_LIMIT_OF_VOTE_BLOCK_NUMBER - 1 < latest
}

/// The votes that are left of `g` when the latest block is `latest`.
pub open spec fn pruned(g: VotesByBlock, latest: u64) -> VotesByBlock {
    g.filter(|e: (B256, Seq<VoteEnvelope>)| !outdated(e, latest))
}

/// What holds of the votes in a pool: each block stands there once, with at least one vote; each
/// vote stands with the block that it is for; no two votes have the same hash.
pub open spec fn well_sorted(g: VotesByBlock) -> bool {
    &&& forall|i: int, j: int|
        0 <= i < j < g.len() ==> (#[trigger] g[i]).0 != (#[trigger] g[j]).0
    &&& forall|i: int| 0 <= i < g.len() ==> (#[trigger] g[i]).1.len() > 0
    &&& forall|i: int, j: int|
        0 <= i < g.len() && 0 <= j < g[i].1.len() ==> (#[trigger] g[i].1[j]).data.target_hash
            == g[i].0
    &&& forall|i: int, j: int, k: int, l: int|
        0 <= i < g.len() && 0 <= j < g[i].1.len() && 0 <= k < g.len() && 0 <= l < g[k].1.len() && (
        i != k || j != l) ==> (#[trigger] g[i].1[j]).digest() != (
        #[trigger] g[k].1[l]).digest()
}

/// The queue of the blocks that have votes, those with the lowest target number first.
pub struct VotesPriorityQueue {
    heap: Vec<VoteData>,
}

impl VotesPriorityQueue {
    /// What is queued.
    pub closed spec fn view(&self) -> Multiset<VoteData> {
        self.heap@.to_multiset()
    }

    /// An empty queue.
    pub fn new() -> (r: Self)
        ensures
            r@ == Multiset::<VoteData>::empty(),
    {
        let r = VotesPriorityQueue { heap: Vec::new() };
        proof {
            r.heap@.to_multiset_ensures();
            assert(r@ =~= Multiset::<VoteData>::empty());
        }
        r
    }

    /// Queues one more.
    pub fn push(&mut self, vote_data: VoteData)
        ensures
            final(self)@ == old(self)@.insert(vote_data),
    {
        proof {
            self.heap@.to_multiset_ensures();
        }
        self.heap.push(vote_data);
    }

    fn lowest(&self) -> (r: usize)
        requires
            self.heap@.len() > 0,
        ensures
            r < self.heap@.len(),
            forall|i: int|
                0 <= i < self.heap@.len() ==> self.heap@[r as int].target_number <= (
                #[trigger] self.heap@[i]).target_number,
    {
        let mut best: usize = 0;
        let mut i: usize = 1;
        while i < self.heap.len()
            invariant
                best < self.heap@.len(),
                1 <= i <= self.heap@.len(),
                forall|j: int|
                    0 <= j < i ==> self.heap@[best as int].target_number <= (
                    #[trigger] self.heap@[j]).target_number,
            decreases self.heap@.len() - i,
        {
            if self.heap[i].target_number < self.heap[best].target_number {
                best = i;
            }
            i += 1;
        }
        best
    }

    /// Takes out one with the lowest target number; nothing where the queue is empty.
    pub fn pop(&mut self) -> (r: Option<VoteData>)
        ensures
            r is None <==> old(self)@.len() == 0,
            r is None ==> final(self)@ == old(self)@,
            r matches Some(d) ==> {
                &&& old(self)@.contains(d)
                &&& final(self)@ == old(self)@.remove(d)
                &&& forall|e: VoteData| #[trigger]
                    old(self)@.contains(e) ==> d.target_number <= e.target_number
            },
    {
        proof {
            self.heap@.to_multiset_ensures();
        }
        if self.heap.len() == 0 {
            return None;
        }
        let best: usize = self.lowest();
        let ghost before = self.heap@;
        let d = self.heap.remove(best);
        proof {
            assert(before.contains(d));
            assert forall|e: VoteData| #[trigger] before.to_multiset().contains(e) implies
                d.target_number <= e.target_number by {
                assert(before.contains(e));
            }
        }
        Some(d)
    }

    /// One with the lowest target number; nothing where the queue is empty.
    pub fn peek(&self) -> (r: Option<&VoteData>)
        ensures
            r is None <==> self@.len() == 0,
            r matches Some(d) ==> {
                &&& self@.contains(*d)
                &&& forall|e: VoteData| #[trigger]
                    self@.contains(e) ==> d.target_number <= e.target_number
            },
    {
        proof {
            self.heap@.to_multiset_ensures();
        }
        if self.heap.len() == 0 {
            return None;
        }
        let best: usize = self.lowest();
        proof {
            assert(self.heap@.contains(self.heap@[best as int]));
            assert forall|e: VoteData| #[trigger] self@.contains(e) implies
                self.heap@[best as int].target_number <= e.target_number by {
                assert(self.heap@.contains(e));
            }
        }
        Some(&self.heap[best])
    }

    /// How many are queued.
    pub fn len(&self) -> (r: usize)
        ensures
            r == self@.len(),
    {
        proof {
            self.heap@.to_multiset_ensures();
        }
        self.heap.len()
    }
}

/// A vote with its hash.
#[derive(Clone, Copy, Debug)]
struct VoteEntry {
    hash: B256,
    envelope: VoteEnvelope,
}

/// The votes for one block.
struct VoteMessages {
    block_hash: B256,
    vote_messages: Vec<VoteEntry>,
}

impl VoteMessages {
    spec fn view(&self) -> (B256, Seq<VoteEnvelope>) {
        (
            self.block_hash,
            Seq::new(self.vote_messages@.len(), |j: int| self.vote_messages@[j].envelope),
        )
    }

    spec fn hashed(&self) -> bool {
        forall|j: int|
            0 <= j < self.vote_messages@.len() ==> (#[trigger] self.vote_messages@[j]).hash@
                == self.vote_messages@[j].envelope.digest()
    }
}

/// The pool of incoming votes: no vote stands in it twice, and the votes are found by the block
/// that they are for.
pub struct VotePool {
    cur_votes: Vec<VoteMessages>,
    cur_votes_pq: VotesPriorityQueue,
    total_votes: usize,
    malicious_vote_monitor: MaliciousVoteMonitor,
}

/// What came of a vote that was handed to the pool.
#[derive(Clone, Copy, Debug, PartialEq, Eq, Structural)]
pub struct InsertedVote {
    /// How many votes there now are for the vote's target block; zero where the vote was known.
    pub votes_for_block: usize,
    /// The voting rule that the vote breaks.
    pub violation: Option<VoteViolation>,
}

/// What is queued for the blocks of `g`: the first vote of each.
spec fn first_votes(g: VotesByBlock) -> Seq<VoteData> {
    Seq::new(g.len(), |i: int| g[i].1[0].data)
}

/// The target of each vote leaves room for the limit.
spec fn targets_fit(g: VotesByBlock) -> bool {
    forall|i: int, j: int|
        0 <= i < g.len() && 0 <= j < g[i].1.len() ==> (#[trigger] g[i].1[j]).data.target_number
            + LOWER_LIMIT_OF_VOTE_BLOCK_NUMBER <= u64::MAX
}

proof fn lemma_all_votes_push(g: VotesByBlock, e: (B256, Seq<VoteEnvelope>))
    ensures
        all_votes(g.push(e)) == all_votes(g) + e.1,
{
    assert(g.push(e).drop_last() =~= g);
}

proof fn lemma_all_votes_update(g: VotesByBlock, i: int, e: (B256, Seq<VoteEnvelope>))
    requires
        0 <= i < g.len(),
    ensures
        all_votes(g.update(i, e)).len() == all_votes(g).len() - g[i].1.len() + e.1.len(),
    decreases g.len(),
{
    let u = g.update(i, e);
    if i == g.len() - 1 {
        assert(u.drop_last() =~= g.drop_last());
    } else {
        assert(u.drop_last() =~= g.drop_last().update(i, e));
        assert(u.last() == g.last());
        lemma_all_votes_update(g.drop_last(), i, e);
    }
}

proof fn lemma_all_votes_remove(g: VotesByBlock, i: int)
    requires
        0 <= i < g.len(),
    ensures
        all_votes(g.remove(i)).len() == all_votes(g).len() - g[i].1.len(),
    decreases g.len(),
{
    let u = g.remove(i);
    if i == g.len() - 1 {
        assert(u =~= g.drop_last());
    } else {
        assert(u.drop_last() =~= g.drop_last().remove(i));
        assert(u.last() == g.last());
        lemma_all_votes_remove(g.drop_last(), i);
    }
}

proof fn lemma_pruned_remove(g: VotesByBlock, i: int, latest: u64)
    requires
        0 <= i < g.len(),
        outdated(g[i], latest),
    ensures
        pruned(g.remove(i), latest) == pruned(g, latest),
    decreases g.len(),
{
    reveal(Seq::filter);
    let u = g.remove(i);
    if i == g.len() - 1 {
        assert(u =~= g.drop_last());
    } else {
        assert(u.drop_last() =~= g.drop_last().remove(i));
        assert(u.last() == g.last());
        lemma_pruned_remove(g.drop_last(), i, latest);
    }
}

proof fn lemma_pruned_nothing(g: VotesByBlock, latest: u64)
    requires
        forall|i: int| 0 <= i < g.len() ==> !outdated(#[trigger] g[i], latest),
    ensures
        pruned(g, latest) == g,
    decreases g.len(),
{
    reveal(Seq::filter);
    if g.len() > 0 {
        lemma_pruned_nothing(g.drop_last(), latest);
        assert(g.drop_last().push(g.last()) =~= g);
    }
}

impl VotePool {
    /// The votes by block.
    pub closed spec fn view(&self) -> VotesByBlock {
        Seq::new(self.cur_votes@.len(), |i: int| self.cur_votes@[i]@)
    }

    /// The recent votes of each validator that the rules are checked against.
    pub closed spec fn watched(&self) -> Map<VoteAddress, Seq<(u64, VoteEnvelope)>> {
        self.malicious_vote_monitor@
    }

    /// What holds of every pool; `well_sorted` says it of the votes.
    pub closed spec fn wf(&self) -> bool {
        &&& well_sorted(self@)
        &&& targets_fit(self@)
        &&& forall|i: int| 0 <= i < self.cur_votes@.len() ==> (#[trigger] self.cur_votes@[i]).hashed()
        &&& self.total_votes == all_votes(self@).len()
        &&& self.cur_votes_pq@ == first_votes(self@).to_multiset()
        &&& self.malicious_vote_monitor.wf()
    }

    /// An empty pool.
    pub fn new() -> (r: Self)
        ensures
            r.wf(),
            r@ == VotesByBlock::empty(),
            r.watched() == Map::<VoteAddress, Seq<(u64, VoteEnvelope)>>::empty(),
    {
        let r = VotePool {
            cur_votes: Vec::new(),
            cur_votes_pq: VotesPriorityQueue::new(),
            total_votes: 0,
            malicious_vote_monitor: MaliciousVoteMonitor::new(),
        };
        proof {
            assert(r@ =~= VotesByBlock::empty());
            assert(first_votes(r@) =~= Seq::<VoteData>::empty());
            Seq::<VoteData>::empty().to_multiset_ensures();
            assert(r.cur_votes_pq@ =~= first_votes(r@).to_multiset());
        }
        r
    }

    fn find_block(&self, block_hash: &B256) -> (r: usize)
        requires
            self.wf(),
        ensures
            r <= self.cur_votes@.len(),
            r < self.cur_votes@.len() <==> position(self@, *block_hash) is Some,
            r < self.cur_votes@.len() ==> position(self@, *block_hash) == Some(r as int),
            r < self.cur_votes@.len() ==> self.cur_votes@[r as int].block_hash == *block_hash,
    {
        let mut i: usize = 0;
        while i < self.cur_votes.len()
            invariant
                i <= self.cur_votes@.len(),
                self.wf(),
                forall|j: int|
                    0 <= j < i ==> (#[trigger] self.cur_votes@[j]).block_hash != *block_hash,
            decreases self.cur_votes@.len() - i,
        {
            if self.cur_votes[i].block_hash == *block_hash {
                proof {
                    assert(self@[i as int].0 == *block_hash);
                    let k = position(self@, *block_hash)->0;
                    assert(self@[k].0 == *block_hash);
                    assert(k == i as int);
                }
                return i;
            }
            i += 1;
        }
        proof {
            if position(self@, *block_hash) is Some {
                let k = position(self@, *block_hash)->0;
                assert(self@[k].0 == *block_hash);
                assert(self.cur_votes@[k].block_hash == *block_hash);
            }
        }
        i
    }

    fn has(&self, hash: &B256) -> (r: bool)
        requires
            self.wf(),
        ensures
            r == holds(self@, hash@),
    {
        let mut i: usize = 0;
        while i < self.cur_votes.len()
            invariant
                i <= self.cur_votes@.len(),
                self.wf(),
                forall|k: int, l: int|
                    0 <= k < i && 0 <= l < self@[k].1.len() ==> (
                    #[trigger] self@[k].1[l]).digest() != hash@,
            decreases self.cur_votes@.len() - i,
        {
            let messages = &self.cur_votes[i].vote_messages;
            let mut j: usize = 0;
            while j < messages.len()
                invariant
                    i < self.cur_votes@.len(),
                    messages == &self.cur_votes@[i as int].vote_messages,
                    j <= messages@.len(),
                    self.wf(),
                    forall|l: int|
                        0 <= l < j ==> (#[trigger] self@[i as int].1[l]).digest() != hash@,
                decreases messages@.len() - j,
            {
                proof {
                    assert(self.cur_votes@[i as int].hashed());
                    assert(self@[i as int].1[j as int] == messages@[j as int].envelope);
                    lemma_fixed_bytes_eq(messages@[j as int].hash, *hash);
                }
                if messages[j].hash == *hash {
                    return true;
                }
                j += 1;
            }
            i += 1;
        }
        false
    }

    /// Adds a vote that is not there yet, after it was checked against the voting rules; a vote
    /// that breaks them is kept all the same.
    pub fn insert(&mut self, vote: VoteEnvelope, pending_block_number: u64) -> (r: InsertedVote)
        requires
            old(self).wf(),
            !holds(old(self)@, vote.digest()) ==> heights_fit(vote.data, pending_block_number)
                && all_votes(old(self)@).len() < usize::MAX,
        ensures
            final(self).wf(),
            holds(old(self)@, vote.digest()) ==> {
                &&& r.votes_for_block == 0
                &&& r.violation is None
                &&& final(self)@ == old(self)@
                &&& final(self).watched() == old(self).watched()
            },
            !holds(old(self)@, vote.digest()) ==> {
                let after = judged(
                    buffer_of(old(self).watched(), vote.vote_address),
                    vote,
                    pending_block_number,
                );
                &&& final(self)@ == with_vote(old(self)@, vote)
                &&& r.votes_for_block == votes_for(old(self)@, vote.data.target_hash).len() + 1
                &&& r.violation == after.1
                &&& final(self).watched() == old(self).watched().insert(
                    vote.vote_address,
                    after.0,
                )
                &&& all_votes(final(self)@).len() == all_votes(old(self)@).len() + 1
            },
    {
        let vote_hash = vote.hash();
        if self.has(&vote_hash) {
            return InsertedVote { votes_for_block: 0, violation: None };
        }
        let ghost before = *self;
        let block_hash = vote.data.target_hash;
        let at: usize = self.find_block(&block_hash);
        let violation = self.malicious_vote_monitor.detect(&vote, pending_block_number);
        let entry = VoteEntry { hash: vote_hash, envelope: vote };
        let votes_for_block: usize;
        if at == self.cur_votes.len() {
            self.cur_votes_pq.push(vote.data);
            let mut vote_messages: Vec<VoteEntry> = Vec::new();
            vote_messages.push(entry);
            let messages = VoteMessages { block_hash, vote_messages };
            self.cur_votes.push(messages);
            votes_for_block = 1;
            proof {
                assert(messages@ == (block_hash, seq![vote])) by {
                    assert(messages@.1 =~= seq![vote]);
                }
                assert(self@ =~= before@.push((block_hash, seq![vote])));
                lemma_all_votes_push(before@, (block_hash, seq![vote]));
                assert(first_votes(self@) =~= first_votes(before@).push(vote.data));
                first_votes(before@).to_multiset_ensures();
            }
        } else {
            proof {
                assert(before@[at as int].1.len() <= all_votes(before@).len()) by {
                    lemma_all_votes_remove(before@, at as int);
                }
            }
            let messages = &mut self.cur_votes[at];
            messages.vote_messages.push(entry);
            votes_for_block = self.cur_votes[at].vote_messages.len();
            proof {
                let updated = (block_hash, before@[at as int].1.push(vote));
                assert(self.cur_votes@[at as int]@.1 =~= updated.1);
                assert(self@ =~= before@.update(at as int, updated));
                lemma_all_votes_update(before@, at as int, updated);
                assert(first_votes(self@) =~= first_votes(before@));
            }
        }
        self.total_votes = self.total_votes + 1;
        proof {
            assert(self@ == with_vote(before@, vote));
            assert(forall|i: int|
                0 <= i < before@.len() ==> (#[trigger] self@[i]).0 == before@[i].0);
            assert forall|i: int, j: int|
                0 <= i < self@.len() && 0 <= j < self@[i].1.len() implies (#[trigger] self@[i].1[j])
                == vote || (i < before@.len() && j < before@[i].1.len() && self@[i].1[j]
                == before@[i].1[j]) by {}
            assert forall|i: int, j: int, k: int, l: int|
                0 <= i < self@.len() && 0 <= j < self@[i].1.len() && 0 <= k < self@.len() && 0 <= l
                    < self@[k].1.len() && (i != k || j != l) implies (#[trigger] self@[i].1[j]).digest()
                != (#[trigger] self@[k].1[l]).digest() by {
                if i < before@.len() && j < before@[i].1.len() {
                    assert(self@[i].1[j] == before@[i].1[j]);
                }
                if k < before@.len() && l < before@[k].1.len() {
                    assert(self@[k].1[l] == before@[k].1[l]);
                }
            }
            assert(well_sorted(self@));
            assert(targets_fit(self@));
            assert forall|i: int| 0 <= i < self.cur_votes@.len() implies (
            #[trigger] self.cur_votes@[i]).hashed() by {
                if i < before.cur_votes@.len() {
                    assert(before.cur_votes@[i].hashed());
                }
            }
        }
        InsertedVote { votes_for_block, violation }
    }

    /// Hands out all votes and forgets them; what the voting rules are checked against stays.
    pub fn drain(&mut self) -> (r: Vec<VoteEnvelope>)
        requires
            old(self).wf(),
        ensures
            final(self).wf(),
            final(self)@ == VotesByBlock::empty(),
            final(self).watched() == old(self).watched(),
            r@ == all_votes(old(self)@),
    {
        let votes = self.get_votes();
        self.cur_votes = Vec::new();
        self.cur_votes_pq = VotesPriorityQueue::new();
        self.total_votes = 0;
        proof {
            assert(self@ =~= VotesByBlock::empty());
            assert(first_votes(self@) =~= Seq::<VoteData>::empty());
            Seq::<VoteData>::empty().to_multiset_ensures();
            assert(self.cur_votes_pq@ =~= first_votes(self@).to_multiset());
        }
        votes
    }

    /// All votes.
    pub fn get_votes(&self) -> (r: Vec<VoteEnvelope>)
        ensures
            r@ == all_votes(self@),
    {
        let mut all: Vec<VoteEnvelope> = Vec::new();
        let mut i: usize = 0;
        while i < self.cur_votes.len()
            invariant
                i <= self.cur_votes@.len(),
                all@ == all_votes(self@.take(i as int)),
            decreases self.cur_votes@.len() - i,
        {
            let messages = &self.cur_votes[i].vote_messages;
            let ghost start = all@;
            let mut j: usize = 0;
            while j < messages.len()
                invariant
                    i < self.cur_votes@.len(),
                    messages == &self.cur_votes@[i as int].vote_messages,
                    j <= messages@.len(),
                    all@ == start + self@[i as int].1.take(j as int),
                decreases messages@.len() - j,
            {
                all.push(messages[j].envelope);
                proof {
                    assert(self@[i as int].1.take(j + 1) =~= self@[i as int].1.take(j as int).push(
                        self@[i as int].1[j as int],
                    ));
                }
                j += 1;
            }
            proof {
                assert(self@[i as int].1.take(j as int) =~= self@[i as int].1);
                assert(self@.take(i + 1).drop_last() =~= self@.take(i as int));
            }
            i += 1;
        }
        proof {
            assert(self@.take(i as int) =~= self@);
        }
        all
    }

    /// How many votes there are.
    pub fn len(&self) -> (r: usize)
        requires
            self.wf(),
        ensures
            r == all_votes(self@).len(),
    {
        self.total_votes
    }

    /// How many votes there are for a block.
    pub fn len_for_block(&self, block_hash: &B256) -> (r: usize)
        requires
            self.wf(),
        ensures
            r == votes_for(self@, *block_hash).len(),
    {
        let at: usize = self.find_block(block_hash);
        if at < self.cur_votes.len() {
            self.cur_votes[at].vote_messages.len()
        } else {
            0
        }
    }

    /// How many blocks there are votes for.
    pub fn blocks(&self) -> (r: usize)
        ensures
            r == self@.len(),
    {
        self.cur_votes.len()
    }

    /// The votes for a block in the order in which they came.
    pub fn fetch_vote_by_block_hash(&self, block_hash: B256) -> (r: Vec<VoteEnvelope>)
        requires
            self.wf(),
        ensures
            r@ == votes_for(self@, block_hash),
    {
        let mut votes: Vec<VoteEnvelope> = Vec::new();
        let at: usize = self.find_block(&block_hash);
        if at < self.cur_votes.len() {
            let messages = &self.cur_votes[at].vote_messages;
            let mut j: usize = 0;
            while j < messages.len()
                invariant
                    at < self.cur_votes@.len(),
                    messages == &self.cur_votes@[at as int].vote_messages,
                    j <= messages@.len(),
                    votes@ == self@[at as int].1.take(j as int),
                decreases messages@.len() - j,
            {
                votes.push(messages[j].envelope);
                proof {
                    assert(self@[at as int].1.take(j + 1) =~= self@[at as int].1.take(
                        j as int,
                    ).push(self@[at as int].1[j as int]));
                }
                j += 1;
            }
            proof {
                assert(self@[at as int].1.take(j as int) =~= self@[at as int].1);
            }
        }
        votes
    }

    /// The votes for a block whose source is the block of the given number.
    pub fn fetch_vote_by_block_hash_and_source_number(
        &self,
        block_hash: B256,
        source_number: u64,
    ) -> (r: Vec<VoteEnvelope>)
        requires
            self.wf(),
        ensures
            r@ == votes_for(self@, block_hash).filter(
                |v: VoteEnvelope| v.data.source_number == source_number,
            ),
            forall|i: int| 0 <= i < r@.len() ==> (#[trigger] r@[i]).data.source_number == source_number,
            forall|i: int|
                0 <= i < votes_for(self@, block_hash).len() && (#[trigger] votes_for(
                    self@,
                    block_hash,
                )[i]).data.source_number == source_number ==> r@.contains(
                    votes_for(self@, block_hash)[i],
                ),
    {
        let votes = self.fetch_vote_by_block_hash(block_hash);
        let ghost from_source = |v: VoteEnvelope| v.data.source_number == source_number;
        let mut kept: Vec<VoteEnvelope> = Vec::new();
        let mut i: usize = 0;
        proof {
            reveal(Seq::filter);
            assert(votes@.take(0).filter(from_source) =~= kept@);
        }
        while i < votes.len()
            invariant
                i <= votes@.len(),
                from_source == |v: VoteEnvelope| v.data.source_number == source_number,
                kept@ == votes@.take(i as int).filter(from_source),
            decreases votes@.len() - i,
        {
            let vote = votes[i];
            proof {
                reveal(Seq::filter);
                assert(votes@.take(i + 1).drop_last() =~= votes@.take(i as int));
                assert(votes@.take(i + 1).last() == vote);
            }
            if vote.data.source_number == source_number {
                kept.push(vote);
            }
            i += 1;
        }
        proof {
            assert(votes@.take(i as int) =~= votes@);
            assert forall|k: int| 0 <= k < kept@.len() implies (
            #[trigger] kept@[k]).data.source_number == source_number by {
                votes@.lemma_filter_pred(from_source, k);
            }
            assert forall|k: int| 0 <= k < votes@.len() && (
            #[trigger] votes@[k]).data.source_number == source_number implies kept@.contains(
                votes@[k],
            ) by {
                votes@.lemma_filter_contains(from_source, k);
            }
        }
        kept
    }

    /// Forgets the votes that are too old beside the latest block.
    pub fn prune(&mut self, latest_block_number: u64)
        requires
            old(self).wf(),
        ensures
            final(self).wf(),
            final(self)@ == pruned(old(self)@, latest_block_number),
            final(self).watched() == old(self).watched(),
    {
        let ghost before = *self;
        loop
            invariant
                self.wf(),
                self.watched() == before.watched(),
                pruned(self@, latest_block_number) == pruned(before@, latest_block_number),
            ensures
                self.wf(),
                self.watched() == before.watched(),
                self@ == pruned(before@, latest_block_number),
            decreases self.cur_votes@.len(),
        {
            proof {
                first_votes(self@).to_multiset_ensures();
            }
            let ghost g = self@;
            let ghost firsts = first_votes(g);
            let mut old_enough = false;
            match self.cur_votes_pq.peek() {
                Some(vote_data) => {
                    proof {
                        assert(firsts.contains(*vote_data));
                        let i = choose|i: int| 0 <= i < firsts.len() && firsts[i] == *vote_data;
                        assert(g[i].1[0].data == *vote_data);
                    }
                    old_enough = vote_data.target_number + LOWER_LIMIT_OF_VOTE_BLOCK_NUMBER - 1
                        < latest_block_number;
                    proof {
                        if !old_enough {
                            assert forall|i: int| 0 <= i < g.len() implies !outdated(
                                #[trigger] g[i],
                                latest_block_number,
                            ) by {
                                assert(firsts[i] == g[i].1[0].data);
                                assert(firsts.contains(firsts[i]));
                                assert(self.cur_votes_pq@.contains(firsts[i]));
                            }
                            lemma_pruned_nothing(g, latest_block_number);
                        }
                    }
                },
                None => {
                    proof {
                        assert(firsts.len() == 0);
                        lemma_pruned_nothing(g, latest_block_number);
                    }
                },
            }
            if !old_enough {
                break;
            }
            match self.cur_votes_pq.pop() {
                Some(vote_data) => {
                    let ghost mid = *self;
                    proof {
                        assert(firsts.contains(vote_data));
                        let k = choose|k: int| 0 <= k < firsts.len() && firsts[k] == vote_data;
                        assert(g[k].1[0].data == vote_data);
                        assert(g[k].0 == vote_data.target_hash);
                    }
                    let mut at: usize = 0;
                    let count: usize = self.cur_votes.len();
                    while self.cur_votes[at].block_hash != vote_data.target_hash
                        invariant
                            *self == mid,
                            count == self.cur_votes@.len(),
                            at < count,
                            forall|j: int|
                                0 <= j < at ==> (#[trigger] self.cur_votes@[j]).block_hash
                                    != vote_data.target_hash,
                            exists|k: int|
                                0 <= k < self.cur_votes@.len() && (
                                #[trigger] self.cur_votes@[k]).block_hash
                                    == vote_data.target_hash,
                        decreases self.cur_votes@.len() - at,
                    {
                        at += 1;
                    }
                    proof {
                        let k = choose|k: int| 0 <= k < firsts.len() && firsts[k] == vote_data;
                        assert(g[k].0 == vote_data.target_hash);
                        assert(g[at as int].0 == vote_data.target_hash);
                        assert(k == at as int);
                        lemma_all_votes_remove(g, at as int);
                        lemma_pruned_remove(g, at as int, latest_block_number);
                    }
                    let vote_box = self.cur_votes.remove(at);
                    self.total_votes = self.total_votes - vote_box.vote_messages.len();
                    proof {
                        assert(self@ =~= g.remove(at as int));
                        assert(first_votes(self@) =~= firsts.remove(at as int));
                        assert forall|i: int| 0 <= i < self@.len() implies (#[trigger] self@[i])
                            == g[if i < at { i } else { i + 1 }] by {}
                        assert forall|i: int, j: int|
                            0 <= i < self@.len() && 0 <= j < self@[i].1.len() implies (
                            #[trigger] self@[i].1[j]) == g[if i < at { i } else { i + 1 }].1[j] by {}
                        assert(well_sorted(self@));
                        assert(targets_fit(self@));
                    }
                },
                None => {},
            }
        }
    }
}

/// What came of a vote that was put into the pool.
#[derive(Clone, Copy, Debug, PartialEq, Eq, Structural)]
pub struct PutVote {
    /// What came of the vote itself.
    pub inserted: InsertedVote,
    /// How many votes the pool now holds.
    pub size: usize,
}

/// The block that votes are judged by: the best block, or the genesis block where none is known.
pub open spec fn pending_number(best_block_number: Option<u64>) -> u64 {
    match best_block_number {
        Some(n) => n,
        None => 0,
    }
}

/// Puts a vote into the pool, once.
pub fn put_vote(pool: &mut VotePool, vote: VoteEnvelope, best_block_number: Option<u64>) -> (r:
    PutVote)
    requires
        old(pool).wf(),
        !holds(old(pool)@, vote.digest()) ==> heights_fit(
            vote.data,
            pending_number(best_block_number),
        ) && all_votes(old(pool)@).len() < usize::MAX,
    ensures
        final(pool).wf(),
        r.size == all_votes(final(pool)@).len(),
        holds(old(pool)@, vote.digest()) ==> {
            &&& r.inserted.votes_for_block == 0
            &&& r.inserted.violation is None
            &&& final(pool)@ == old(pool)@
            &&& final(pool).watched() == old(pool).watched()
        },
        !holds(old(pool)@, vote.digest()) ==> {
            let after = judged(
                buffer_of(old(pool).watched(), vote.vote_address),
                vote,
                pending_number(best_block_number),
            );
            &&& r.inserted.votes_for_block == votes_for(old(pool)@, vote.data.target_hash).len() + 1
            &&& r.inserted.violation == after.1
            &&& final(pool)@ == with_vote(old(pool)@, vote)
            &&& final(pool).watched() == old(pool).watched().insert(vote.vote_address, after.0)
        },
        holds(final(pool)@, vote.digest()),
        !holds(old(pool)@, vote.digest()) ==> {
            &&& r.size == all_votes(old(pool)@).len() + 1
            &&& votes_for(final(pool)@, vote.data.target_hash).last() == vote
            &&& r.inserted.votes_for_block == votes_for(final(pool)@, vote.data.target_hash).len()
        },
{
    proof {
        law_put_vote_adds_one(pool@, vote);
        if !holds(pool@, vote.digest()) {
            law_pool_is_well_sorted(*pool);
            law_put_vote_is_fetched(pool@, vote);
        }
    }
    let pending_block_number: u64 = best_block_number.unwrap_or(0);
    let inserted = pool.insert(vote, pending_block_number);
    PutVote { inserted, size: pool.len() }
}

/// Hands out all votes and forgets them.
pub fn drain(pool: &mut VotePool) -> (r: Vec<VoteEnvelope>)
    requires
        old(pool).wf(),
    ensures
        final(pool).wf(),
        final(pool)@ == VotesByBlock::empty(),
        final(pool).watched() == old(pool).watched(),
        r@ == all_votes(old(pool)@),
{
    pool.drain()
}

/// All votes, which stay in the pool.
pub fn get_votes(pool: &VotePool) -> (r: Vec<VoteEnvelope>)
    ensures
        r@ == all_votes(pool@),
{
    pool.get_votes()
}

/// How many votes the pool holds.
pub fn len(pool: &VotePool) -> (r: usize)
    requires
        pool.wf(),
    ensures
        r == all_votes(pool@).len(),
{
    pool.len()
}

/// Whether the pool holds no vote.
pub fn is_empty(pool: &VotePool) -> (r: bool)
    requires
        pool.wf(),
    ensures
        r == (all_votes(pool@).len() == 0),
        r == (pool@.len() == 0),
{
    proof {
        if pool@.len() > 0 {
            assert(pool@[pool@.len() - 1].1.len() > 0);
        }
    }
    len(pool) == 0
}

/// The votes for a block.
pub fn fetch_vote_by_block_hash(pool: &VotePool, block_hash: B256) -> (r: Vec<VoteEnvelope>)
    requires
        pool.wf(),
    ensures
        r@ == votes_for(pool@, block_hash),
{
    pool.fetch_vote_by_block_hash(block_hash)
}

/// The votes for a block whose source is the block of the given number.
pub fn fetch_vote_by_block_hash_and_source_number(
    pool: &VotePool,
    block_hash: B256,
    source_number: u64,
) -> (r: Vec<VoteEnvelope>)
    requires
        pool.wf(),
    ensures
        r@ == votes_for(pool@, block_hash).filter(
            |v: VoteEnvelope| v.data.source_number == source_number,
        ),
{
    pool.fetch_vote_by_block_hash_and_source_number(block_hash, source_number)
}

/// Forgets the votes that are too old beside the latest block, and says how many are left.
pub fn prune(pool: &mut VotePool, latest_block_number: u64) -> (r: usize)
    requires
        old(pool).wf(),
    ensures
        final(pool).wf(),
        final(pool)@ == pruned(old(pool)@, latest_block_number),
        final(pool).watched() == old(pool).watched(),
        r == all_votes(final(pool)@).len(),
{
    pool.prune(latest_block_number);
    pool.len()
}

/// A pool's votes are sorted by block, and none stands there twice.
pub proof fn law_pool_is_well_sorted(pool: VotePool)
    requires
        pool.wf(),
    ensures
        well_sorted(pool@),
{
}

/// A vote that was put in is found again, as the last one for its block, and is known by its hash.
pub proof fn law_put_vote_is_fetched(g: VotesByBlock, vote: VoteEnvelope)
    requires
        well_sorted(g),
        !holds(g, vote.digest()),
    ensures
        votes_for(with_vote(g, vote), vote.data.target_hash) == votes_for(
            g,
            vote.data.target_hash,
        ).push(vote),
        holds(with_vote(g, vote), vote.digest()),
{
    let h = vote.data.target_hash;
    let after = with_vote(g, vote);
    let i = match position(g, h) {
        Some(i) => i,
        None => g.len() as int,
    };
    assert(after[i].0 == h);
    let k = position(after, h)->0;
    assert(after[k].0 == h);
    if position(g, h) is Some {
        assert(g[i].0 == h);
        assert(g[k].0 == h);
        assert(k == i);
    } else {
        assert(k == i) by {
            if k < g.len() {
                assert(g[k].0 == h);
            }
        }
        assert(votes_for(after, h) =~= Seq::<VoteEnvelope>::empty().push(vote));
    }
    let last = after[i].1.len() - 1;
    assert(after[i].1[last] == vote);
}

/// A vote for one block leaves the votes for the others as they are.
pub proof fn law_put_vote_leaves_other_blocks(g: VotesByBlock, vote: VoteEnvelope, other: B256)
    requires
        well_sorted(g),
        other != vote.data.target_hash,
    ensures
        votes_for(with_vote(g, vote), other) == votes_for(g, other),
{
    let after = with_vote(g, vote);
    if position(g, other) is Some {
        let i = position(g, other)->0;
        assert(g[i].0 == other);
        assert(after[i].0 == other);
        let k = position(after, other)->0;
        assert(after[k].0 == other);
        assert(g[k].0 == other);
        assert(k == i);
    } else if position(after, other) is Some {
        let k = position(after, other)->0;
        assert(after[k].0 == other);
        assert(g[k].0 == other);
    }
}

proof fn lemma_pruned_members(g: VotesByBlock, latest: u64)
    ensures
        forall|i: int|
            0 <= i < pruned(g, latest).len() ==> !outdated(#[trigger] pruned(g, latest)[i], latest)
                && g.contains(pruned(g, latest)[i]),
        forall|i: int|
            0 <= i < g.len() && !outdated(#[trigger] g[i], latest) ==> pruned(g, latest).contains(
                g[i],
            ),
    decreases g.len(),
{
    reveal(Seq::filter);
    let p = pruned(g, latest);
    if g.len() > 0 {
        let rest = g.drop_last();
        lemma_pruned_members(rest, latest);
        let q = pruned(rest, latest);
        assert forall|i: int| 0 <= i < p.len() implies !outdated(#[trigger] p[i], latest)
            && g.contains(p[i]) by {
            if i < q.len() {
                assert(p[i] == q[i]);
                let j = choose|j: int| 0 <= j < rest.len() && rest[j] == q[i];
                assert(g[j] == p[i]);
            } else {
                assert(p[i] == g[g.len() - 1]);
            }
        }
        assert forall|i: int| 0 <= i < g.len() && !outdated(#[trigger] g[i], latest) implies p.contains(
            g[i],
        ) by {
            if i < rest.len() {
                assert(rest[i] == g[i]);
                let j = choose|j: int| 0 <= j < q.len() && q[j] == g[i];
                assert(p[j] == g[i]);
            } else {
                assert(p[p.len() - 1] == g[i]);
            }
        }
    }
}

/// After pruning, no block with outdated votes is left and every other block still has its votes.
pub proof fn law_prune_keeps_the_recent(g: VotesByBlock, latest: u64)
    ensures
        forall|i: int|
            0 <= i < pruned(g, latest).len() ==> !outdated(#[trigger] pruned(g, latest)[i], latest),
        forall|i: int|
            0 <= i < g.len() ==> (pruned(g, latest).contains(#[trigger] g[i]) <==> !outdated(
                g[i],
                latest,
            )),
{
    lemma_pruned_members(g, latest);
    assert forall|i: int| 0 <= i < g.len() implies (pruned(g, latest).contains(#[trigger] g[i])
        <==> !outdated(g[i], latest)) by {
        if pruned(g, latest).contains(g[i]) {
            let j = choose|j: int| 0 <= j < pruned(g, latest).len() && pruned(g, latest)[j] == g[i];
            assert(!outdated(pruned(g, latest)[j], latest));
        }
    }
}

/// Pruning a second time for the same block changes nothing.
pub proof fn law_prune_is_idempotent(g: VotesByBlock, latest: u64)
    ensures
        pruned(pruned(g, latest), latest) == pruned(g, latest),
{
    lemma_pruned_members(g, latest);
    lemma_pruned_nothing(pruned(g, latest), latest);
}

/// A vote is forgotten with its block: after pruning it counts as new again.
pub proof fn law_pruned_votes_are_forgotten(g: VotesByBlock, latest: u64, i: int, j: int)
    requires
        well_sorted(g),
        0 <= i < g.len(),
        0 <= j < g[i].1.len(),
        outdated(g[i], latest),
    ensures
        !holds(pruned(g, latest), g[i].1[j].digest()),
{
    let p = pruned(g, latest);
    lemma_pruned_members(g, latest);
    if holds(p, g[i].1[j].digest()) {
        let (k, l) = choose|k: int, l: int|
            0 <= k < p.len() && 0 <= l < p[k].1.len() && (#[trigger] p[k].1[l]).digest()
                == g[i].1[j].digest();
        assert(g.contains(p[k]));
        let m = choose|m: int| 0 <= m < g.len() && g[m] == p[k];
        assert(g[m].1[l] == p[k].1[l]);
        assert(m == i);
    }
}

/// The votes for a block are pruned exactly when the target of the first of them lies 256 blocks or
/// more behind the latest block.
pub proof fn law_votes_are_kept_for_256_blocks(g: VotesByBlock, latest: u64, i: int)
    requires
        0 <= i < g.len(),
    ensures
        pruned(g, latest).contains(g[i]) <==> latest < g[i].1[0].data.target_number + 256,
        latest <= 256 ==> pruned(g, latest).contains(g[i]) || g[i].1[0].data.target_number == 0,
{
    law_prune_keeps_the_recent(g, latest);
}

/// Pruning for a later block leaves no more than pruning for an earlier one, and the two in a row
/// what the later one leaves.
pub proof fn law_pruning_goes_on(g: VotesByBlock, earlier: u64, later: u64, i: int)
    requires
        earlier <= later,
        0 <= i < g.len(),
    ensures
        pruned(g, later).contains(g[i]) ==> pruned(g, earlier).contains(g[i]),
        pruned(pruned(g, earlier), later).contains(g[i]) <==> pruned(g, later).contains(g[i]),
{
    law_prune_keeps_the_recent(g, earlier);
    law_prune_keeps_the_recent(g, later);
    let p = pruned(g, earlier);
    lemma_pruned_members(p, later);
    lemma_pruned_members(g, earlier);
    if pruned(g, later).contains(g[i]) {
        assert(!outdated(g[i], later));
        assert(!outdated(g[i], earlier));
        let j = choose|j: int| 0 <= j < p.len() && p[j] == g[i];
        assert(!outdated(p[j], later));
        assert(pruned(p, later).contains(p[j]));
    }
    if pruned(p, later).contains(g[i]) {
        let k = choose|k: int| 0 <= k < pruned(p, later).len() && pruned(p, later)[k] == g[i];
        assert(!outdated(pruned(p, later)[k], later));
    }
}

/// A vote that is put in makes one more vote, and one more block exactly where it is the first for
/// its block; no vote leaves.
pub proof fn law_put_vote_adds_one(g: VotesByBlock, vote: VoteEnvelope)
    ensures
        all_votes(with_vote(g, vote)).len() == all_votes(g).len() + 1,
        with_vote(g, vote).len() == g.len() + if exists|i: int|
            0 <= i < g.len() && (#[trigger] g[i]).0 == vote.data.target_hash {
            0int
        } else {
            1
        },
{
    match position(g, vote.data.target_hash) {
        Some(i) => {
            assert(0 <= i < g.len());
            lemma_all_votes_update(g, i, (vote.data.target_hash, g[i].1.push(vote)));
        },
        None => {
            lemma_all_votes_push(g, (vote.data.target_hash, seq![vote]));
        },
    }
}

/// All votes are those of the blocks: each vote for a block is among them, and each of them is a
/// vote for some block.
pub proof fn law_all_votes_are_those_of_the_blocks(g: VotesByBlock, v: VoteEnvelope)
    ensures
        all_votes(g).contains(v) <==> exists|i: int|
            0 <= i < g.len() && (#[trigger] g[i]).1.contains(v),
    decreases g.len(),
{
    if g.len() > 0 {
        let rest = g.drop_last();
        let before = all_votes(rest);
        let last = g.last().1;
        law_all_votes_are_those_of_the_blocks(rest, v);
        if all_votes(g).contains(v) {
            let k = choose|k: int| 0 <= k < all_votes(g).len() && all_votes(g)[k] == v;
            if k < before.len() {
                assert(before[k] == v);
                let i = choose|i: int| 0 <= i < rest.len() && (#[trigger] rest[i]).1.contains(v);
                assert(g[i].1.contains(v));
            } else {
                assert(last[k - before.len()] == v);
                assert(g[g.len() - 1].1.contains(v));
            }
        }
        if exists|i: int| 0 <= i < g.len() && (#[trigger] g[i]).1.contains(v) {
            let i = choose|i: int| 0 <= i < g.len() && (#[trigger] g[i]).1.contains(v);
            if i < rest.len() {
                assert(rest[i].1.contains(v));
                let k = choose|k: int| 0 <= k < before.len() && before[k] == v;
                assert(all_votes(g)[k] == v);
            } else {
                let k = choose|k: int| 0 <= k < last.len() && last[k] == v;
                assert(all_votes(g)[before.len() + k] == v);
            }
        }
    }
}

/// The votes that are found for a block are those that the pool has whose target is that block.
pub proof fn law_votes_are_found_by_their_target(g: VotesByBlock, block: B256, v: VoteEnvelope)
    requires
        well_sorted(g),
    ensures
        votes_for(g, block).contains(v) <==> all_votes(g).contains(v) && v.data.target_hash == block,
{
    law_all_votes_are_those_of_the_blocks(g, v);
    if votes_for(g, block).contains(v) {
        let i = position(g, block)->0;
        assert(g[i].0 == block && g[i].1.contains(v));
        let j = choose|j: int| 0 <= j < g[i].1.len() && g[i].1[j] == v;
        assert(g[i].1[j].data.target_hash == g[i].0);
    }
    if all_votes(g).contains(v) && v.data.target_hash == block {
        let i = choose|i: int| 0 <= i < g.len() && (#[trigger] g[i]).1.contains(v);
        let j = choose|j: int| 0 <= j < g[i].1.len() && g[i].1[j] == v;
        assert(g[i].1[j].data.target_hash == g[i].0);
        let k = position(g, block)->0;
        assert(g[k].0 == block);
        assert(k == i);
    }
}

/// A vote is known exactly where the pool has a vote with the same hash.
pub proof fn law_votes_are_known_by_their_hash(g: VotesByBlock, digest: Seq<u8>)
    ensures
        holds(g, digest) <==> exists|v: VoteEnvelope| #[trigger]
            all_votes(g).contains(v) && v.digest() == digest,
{
    if holds(g, digest) {
        let (i, j) = choose|i: int, j: int|
            0 <= i < g.len() && 0 <= j < g[i].1.len() && (#[trigger] g[i].1[j]).digest() == digest;
        let v = g[i].1[j];
        law_all_votes_are_those_of_the_blocks(g, v);
        assert(g[i].1.contains(v));
        assert(all_votes(g).contains(v));
    }
    if exists|v: VoteEnvelope| #[trigger] all_votes(g).contains(v) && v.digest() == digest {
        let v = choose|v: VoteEnvelope| #[trigger]
            all_votes(g).contains(v) && v.digest() == digest;
        law_all_votes_are_those_of_the_blocks(g, v);
        let i = choose|i: int| 0 <= i < g.len() && (#[trigger] g[i]).1.contains(v);
        let j = choose|j: int| 0 <= j < g[i].1.len() && g[i].1[j] == v;
        assert(g[i].1[j].digest() == digest);
    }
}

/// Votes are judged by the best block that is known, and by the genesis block where none is.
pub proof fn law_votes_are_judged_by_the_best_block(best: u64)
    ensures
        pending_number(Some(best)) == best,
        pending_number(None) == 0,
{
}

} // verus!
