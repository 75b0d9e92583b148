//! Detects votes that break the voting rules of fast finality.
//!
//! - Rule 1: a validator must not publish two distinct votes for the same height.
//! - Rule 2: a validator must not vote within the span of its other votes.

use crate::primitives::lemma_fixed_bytes_eq;
use crate::primitives::VoteAddress;
use crate::recency::lemma_stored_keeps;
use crate::recency::lemma_stored_other;
use crate::recency::lemma_stored_recalled;
use crate::recency::lemma_touched;
use crate::recency::lemma_touched_len;
use crate::recency::recall;
use crate::recency::stored;
use crate::recency::touched;
use crate::vote::VoteData;
use crate::vote::VoteEnvelope;
use vstd::prelude::*;

verus! {

/// How many recent votes are kept for each validator.
pub const MAX_SIZE_OF_RECENT_ENTRY: usize = 512;

/// For how many blocks a vote can be slashed.
pub const MALICIOUS_VOTE_SLASH_SCOPE: u64 = 256;

/// How far above the pending block a vote's target may lie.
pub const UPPER_LIMIT_OF_VOTE_BLOCK_NUMBER: u64 = 11;

/// Which voting rule a vote breaks.
#[derive(Clone, Copy, Debug, PartialEq, Eq, Structural)]
pub enum VoteViolation {
    /// Two distinct votes for the same height.
    Rule1,
    /// A vote within the span of another one.
    Rule2,
}

/// The recent votes of one validator by target number.
pub type VoteBuffer = lru::LruCache<u64, VoteEnvelope>;

/// What a buffer holds, the vote used last first.
pub uninterp spec fn buffered_votes(b: VoteBuffer) -> Seq<(u64, VoteEnvelope)>;

/// How many votes a buffer can hold.
pub uninterp spec fn buffer_limit(b: VoteBuffer) -> nat;

/// `lru::LruCache::new`: an empty map that holds at most that many entries.
#[verifier::external_body]
fn new_buffer(limit: usize) -> (b: VoteBuffer)
    requires
        limit > 0,
    ensures
        buffered_votes(b) == Seq::<(u64, VoteEnvelope)>::empty(),
        buffer_limit(b) == limit,
{
    lru::LruCache::new(std::num::NonZero::new(limit).unwrap())
}

/// `lru::LruCache::get`: the value under the key, whose entry becomes the one used last.
#[verifier::external_body]
fn buffer_get(b: &mut VoteBuffer, n: u64) -> (r: Option<VoteEnvelope>)
    ensures
        r == recall(buffered_votes(*old(b)), n),
        buffered_votes(*final(b)) == touched(buffered_votes(*old(b)), n),
        buffer_limit(*final(b)) == buffer_limit(*old(b)),
{
    b.get(&n).copied()
}

/// `lru::LruCache::put`: stores the value under the key as the entry used last; where the map is
/// full and the key is new, the entry used longest ago goes.
#[verifier::external_body]
fn buffer_put(b: &mut VoteBuffer, n: u64, vote: VoteEnvelope)
    ensures
        buffered_votes(*final(b)) == stored(
            buffered_votes(*old(b)),
            buffer_limit(*old(b)),
            n,
            vote,
        ),
        buffer_limit(*final(b)) == buffer_limit(*old(b)),
{
    b.put(n, vote);
}

/// The rule that `new` breaks beside the earlier vote `existing` for height `at`.
pub open spec fn verdict(existing: VoteData, at: u64, new: VoteData) -> Option<VoteViolation> {
    if at == new.target_number && existing.digest() != new.digest() {
        Some(VoteViolation::Rule1)
    } else if (at < new.target_number && existing.source_number > new.source_number) || (at
        > new.target_number && existing.source_number < new.source_number) {
        Some(VoteViolation::Rule2)
    } else {
        None
    }
}

/// The rule that `new` breaks beside what is buffered for height `at`.
pub open spec fn verdict_at(
    buf: Seq<(u64, VoteEnvelope)>,
    at: u64,
    new: VoteData,
) -> Option<VoteViolation> {
    match recall(buf, at) {
        Some(existing) => verdict(existing.data, at, new),
        None => None,
    }
}

/// The buffer after the heights from `lo` up to `hi`, which is left out, were looked at in order
/// up to the first that shows a violation, and that violation.
pub open spec fn scanned(
    buf: Seq<(u64, VoteEnvelope)>,
    new: VoteData,
    lo: int,
    hi: int,
) -> (Seq<(u64, VoteEnvelope)>, Option<VoteViolation>)
    decreases hi - lo,
{
    if lo >= hi {
        (buf, None)
    } else {
        match verdict_at(buf, lo as u64, new) {
            Some(v) => (touched(buf, lo as u64), Some(v)),
            None => scanned(touched(buf, lo as u64), new, lo + 1, hi),
        }
    }
}

/// Whether a vote's target is recent enough to be judged.
pub open spec fn in_scope(new: VoteData, pending: u64) -> bool {
    new.target_number + MALICIOUS_VOTE_SLASH_SCOPE > pending
}

/// The lowest height that is looked at.
pub open spec fn scan_start(new: VoteData, pending: u64) -> int {
    if new.source_number + 1 + MALICIOUS_VOTE_SLASH_SCOPE <= pending {
        pending - MALICIOUS_VOTE_SLASH_SCOPE + 1
    } else {
        new.source_number + 1
    }
}

/// The highest height that is looked at.
pub open spec fn scan_end(pending: u64) -> int {
    pending + UPPER_LIMIT_OF_VOTE_BLOCK_NUMBER
}

/// What becomes of a validator's buffer when its vote `new` arrives, and the rule it breaks.
pub open spec fn judged(
    buf: Seq<(u64, VoteEnvelope)>,
    new: VoteEnvelope,
    pending: u64,
) -> (Seq<(u64, VoteEnvelope)>, Option<VoteViolation>) {
    if !in_scope(new.data, pending) {
        (buf, None)
    } else {
        let seen = scanned(buf, new.data, scan_start(new.data, pending), scan_end(pending) + 1);
        match seen.1 {
            Some(v) => (seen.0, Some(v)),
            None => (
                stored(seen.0, MAX_SIZE_OF_RECENT_ENTRY as nat, new.data.target_number, new),
                None,
            ),
        }
    }
}

/// The heights that a vote makes the monitor look at can be counted in 64 bits.
pub open spec fn heights_fit(new: VoteData, pending: u64) -> bool {
    &&& new.target_number + MALICIOUS_VOTE_SLASH_SCOPE <= u64::MAX
    &&& in_scope(new, pending) ==> new.source_number + 1 + MALICIOUS_VOTE_SLASH_SCOPE <= u64::MAX
        && scan_end(pending) < u64::MAX
}

/// The buffer of one validator, empty for one who has not voted yet.
pub open spec fn buffer_of(
    m: Map<VoteAddress, Seq<(u64, VoteEnvelope)>>,
    a: VoteAddress,
) -> Seq<(u64, VoteEnvelope)> {
    if m.contains_key(a) {
        m[a]
    } else {
        Seq::empty()
    }
}

/// A scan reports a violation exactly when some height in its range shows one.
pub proof fn lemma_scan_finds(
    buf: Seq<(u64, VoteEnvelope)>,
    new: VoteData,
    lo: int,
    hi: int,
)
    requires
        0 <= lo,
        hi <= u64::MAX + 1,
    ensures
        scanned(buf, new, lo, hi).1 is Some <==> exists|n: u64|
            lo <= n < hi && #[trigger] verdict_at(buf, n, new) is Some,
        forall|n: u64| recall(#[trigger] scanned(buf, new, lo, hi).0, n) == #[trigger] recall(buf, n),
    decreases hi - lo,
{
    if lo < hi {
        let next = touched(buf, lo as u64);
        assert forall|n: u64| recall(next, n) == #[trigger] recall(buf, n) by {
            lemma_touched(buf, lo as u64, n);
        }
        if verdict_at(buf, lo as u64, new) is None {
            lemma_scan_finds(next, new, lo + 1, hi);
            assert forall|n: u64| verdict_at(next, n, new) == #[trigger] verdict_at(buf, n, new) by {
                lemma_touched(buf, lo as u64, n);
            }
            if exists|n: u64| lo <= n < hi && #[trigger] verdict_at(buf, n, new) is Some {
                let n = choose|n: u64| lo <= n < hi && #[trigger] verdict_at(buf, n, new) is Some;
                assert(verdict_at(next, n, new) is Some);
            }
            if exists|n: u64| lo < n < hi && #[trigger] verdict_at(next, n, new) is Some {
                let n = choose|n: u64| lo < n < hi && #[trigger] verdict_at(next, n, new) is Some;
                assert(verdict_at(buf, n, new) is Some);
            }
        }
    }
}

/// The scan of a vote that is judged covers the heights from `scan_start` to `scan_end`.
proof fn lemma_judged(buf: Seq<(u64, VoteEnvelope)>, new: VoteEnvelope, pending: u64)
    requires
        heights_fit(new.data, pending),
    ensures
        judged(buf, new, pending).1 is Some <==> in_scope(new.data, pending) && exists|n: u64|
            scan_start(new.data, pending) <= n <= scan_end(pending) && #[trigger] verdict_at(
                buf,
                n,
                new.data,
            ) is Some,
        judged(buf, new, pending).1 is Some ==> forall|n: u64|
            recall(judged(buf, new, pending).0, n) == #[trigger] recall(buf, n),
{
    if in_scope(new.data, pending) {
        lemma_scan_finds(buf, new.data, scan_start(new.data, pending), scan_end(pending) + 1);
    }
}

/// A vote that was judged and broke no rule is remembered for its height.
pub proof fn law_accepted_vote_is_remembered(
    buf: Seq<(u64, VoteEnvelope)>,
    vote: VoteEnvelope,
    pending: u64,
)
    requires
        in_scope(vote.data, pending),
        judged(buf, vote, pending).1 is None,
    ensures
        recall(judged(buf, vote, pending).0, vote.data.target_number) == Some(vote),
{
    let seen = scanned(buf, vote.data, scan_start(vote.data, pending), scan_end(pending) + 1);
    lemma_stored_recalled(
        seen.0,
        MAX_SIZE_OF_RECENT_ENTRY as nat,
        vote.data.target_number,
        vote,
    );
}

/// A vote that breaks a rule is not kept: what is remembered for each height stays the same.
pub proof fn law_malicious_vote_is_not_kept(
    buf: Seq<(u64, VoteEnvelope)>,
    vote: VoteEnvelope,
    pending: u64,
    height: u64,
)
    requires
        heights_fit(vote.data, pending),
        judged(buf, vote, pending).1 is Some,
    ensures
        recall(judged(buf, vote, pending).0, height) == recall(buf, height),
{
    lemma_judged(buf, vote, pending);
}

/// Rule 1: once a vote for a height was accepted, a distinct vote of the same validator for that
/// height is malicious, as long as the height is looked at.
pub proof fn law_distinct_vote_for_same_height(
    buf: Seq<(u64, VoteEnvelope)>,
    first: VoteEnvelope,
    second: VoteEnvelope,
    pending1: u64,
    pending2: u64,
)
    requires
        in_scope(first.data, pending1),
        judged(buf, first, pending1).1 is None,
        first.data.target_number == second.data.target_number,
        first.data.digest() != second.data.digest(),
        heights_fit(second.data, pending2),
        in_scope(second.data, pending2),
        scan_start(second.data, pending2) <= second.data.target_number <= scan_end(pending2),
    ensures
        judged(judged(buf, first, pending1).0, second, pending2).1 is Some,
{
    let after = judged(buf, first, pending1).0;
    law_accepted_vote_is_remembered(buf, first, pending1);
    lemma_judged(after, second, pending2);
    assert(verdict_at(after, second.data.target_number, second.data) is Some);
}

/// Rule 2: once a vote was accepted, a vote of the same validator whose span lies within that
/// vote's span, or holds it, is malicious, as long as the first vote's height is looked at.
pub proof fn law_vote_within_span(
    buf: Seq<(u64, VoteEnvelope)>,
    first: VoteEnvelope,
    second: VoteEnvelope,
    pending1: u64,
    pending2: u64,
)
    requires
        in_scope(first.data, pending1),
        judged(buf, first, pending1).1 is None,
        (first.data.source_number < second.data.source_number && second.data.target_number
            < first.data.target_number) || (second.data.source_number < first.data.source_number
            && first.data.target_number < second.data.target_number),
        heights_fit(second.data, pending2),
        in_scope(second.data, pending2),
        scan_start(second.data, pending2) <= first.data.target_number <= scan_end(pending2),
    ensures
        judged(judged(buf, first, pending1).0, second, pending2).1 is Some,
{
    let after = judged(buf, first, pending1).0;
    law_accepted_vote_is_remembered(buf, first, pending1);
    lemma_judged(after, second, pending2);
    assert(verdict_at(after, first.data.target_number, second.data) is Some);
}

/// The same vote again is no conflict.
pub proof fn law_same_vote_again(
    buf: Seq<(u64, VoteEnvelope)>,
    vote: VoteEnvelope,
    pending: u64,
)
    requires
        heights_fit(vote.data, pending),
        judged(buf, vote, pending).1 is None,
    ensures
        judged(judged(buf, vote, pending).0, vote, pending).1 is None,
{
    let after = judged(buf, vote, pending).0;
    lemma_judged(buf, vote, pending);
    lemma_judged(after, vote, pending);
    if in_scope(vote.data, pending) {
        let target = vote.data.target_number;
        let start = scan_start(vote.data, pending);
        let seen = scanned(buf, vote.data, start, scan_end(pending) + 1);
        lemma_scan_finds(buf, vote.data, start, scan_end(pending) + 1);
        law_accepted_vote_is_remembered(buf, vote, pending);
        assert forall|n: u64|
            start <= n <= scan_end(pending) implies #[trigger] verdict_at(
            after,
            n,
            vote.data,
        ) is None by {
            if n != target {
                lemma_stored_other(
                    seen.0,
                    MAX_SIZE_OF_RECENT_ENTRY as nat,
                    target,
                    vote,
                    n,
                );
                assert(verdict_at(buf, n, vote.data) is None);
                assert(recall(seen.0, n) == recall(buf, n));
            }
        }
    }
}

/// No false alarm: a vote is not reported where no vote that is remembered speaks against it, that
/// is, where none for the same height says something else, and neither span lies strictly within
/// the other.
pub proof fn law_honest_votes_pass(
    buf: Seq<(u64, VoteEnvelope)>,
    new: VoteEnvelope,
    pending: u64,
)
    requires
        heights_fit(new.data, pending),
        forall|height: u64|
            (#[trigger] recall(buf, height)) matches Some(earlier) ==> {
                &&& height == new.data.target_number ==> earlier.data.digest() == new.data.digest()
                &&& !(earlier.data.source_number < new.data.source_number && new.data.target_number
                    < height)
                &&& !(new.data.source_number < earlier.data.source_number && height
                    < new.data.target_number)
            },
    ensures
        judged(buf, new, pending).1 is None,
{
    lemma_judged(buf, new, pending);
    if judged(buf, new, pending).1 is Some {
        let n = choose|n: u64|
            scan_start(new.data, pending) <= n <= scan_end(pending) && #[trigger] verdict_at(
                buf,
                n,
                new.data,
            ) is Some;
        assert(recall(buf, n) is Some);
    }
}

/// A vote is reported exactly where its target is among the last 256 blocks or above, and a vote of
/// the same validator that is at odds with it is remembered for a height above its source, within
/// the last 255 blocks and at most 11 above the pending one. Two votes are at odds where they are
/// different votes for the same height, or where the span of one lies strictly within that of the
/// other.
pub proof fn law_votes_at_odds_are_reported(
    buf: Seq<(u64, VoteEnvelope)>,
    new: VoteEnvelope,
    pending: u64,
)
    requires
        heights_fit(new.data, pending),
    ensures
        judged(buf, new, pending).1 is Some <==> pending < new.data.target_number + 256 && exists|
            height: u64,
        |
            {
                &&& (#[trigger] recall(buf, height)) is Some
                &&& new.data.source_number < height
                &&& pending < height + 256
                &&& height <= pending + 11
                &&& {
                    let earlier = recall(buf, height)->0.data;
                    ||| height == new.data.target_number && earlier.digest() != new.data.digest()
                    ||| earlier.source_number < new.data.source_number && new.data.target_number
                        < height
                    ||| new.data.source_number < earlier.source_number && height
                        < new.data.target_number
                }
            },
        judged(buf, new, pending).1 == Some(VoteViolation::Rule1) ==> (recall(
            buf,
            new.data.target_number,
        ) matches Some(earlier) && earlier.data.digest() != new.data.digest()),
        judged(buf, new, pending).1 == Some(VoteViolation::Rule2) ==> exists|height: u64|
            {
                &&& (#[trigger] recall(buf, height)) is Some
                &&& {
                    let earlier = recall(buf, height)->0.data;
                    ||| earlier.source_number < new.data.source_number && new.data.target_number
                        < height
                    ||| new.data.source_number < earlier.source_number && height
                        < new.data.target_number
                }
            },
{
    lemma_judged(buf, new, pending);
    let (lo, hi) = (scan_start(new.data, pending), scan_end(pending));
    if judged(buf, new, pending).1 is Some {
        let n = choose|n: u64| lo <= n <= hi && #[trigger] verdict_at(buf, n, new.data) is Some;
        assert(recall(buf, n) is Some);
        lemma_scan_reports(buf, new.data, lo, hi + 1);
    }
    if pending < new.data.target_number + 256 {
        assert forall|height: u64|
            {
                &&& (#[trigger] recall(buf, height)) is Some
                &&& new.data.source_number < height
                &&& pending < height + 256
                &&& height <= pending + 11
                &&& {
                    let earlier = recall(buf, height)->0.data;
                    ||| height == new.data.target_number && earlier.digest() != new.data.digest()
                    ||| earlier.source_number < new.data.source_number && new.data.target_number
                        < height
                    ||| new.data.source_number < earlier.source_number && height
                        < new.data.target_number
                }
            } implies judged(buf, new, pending).1 is Some by {
            assert(verdict_at(buf, height, new.data) is Some);
        }
    }
}

proof fn lemma_scan_reports(buf: Seq<(u64, VoteEnvelope)>, new: VoteData, lo: int, hi: int)
    requires
        0 <= lo,
        hi <= u64::MAX + 1,
        scanned(buf, new, lo, hi).1 is Some,
    ensures
        exists|n: u64|
            lo <= n < hi && scanned(buf, new, lo, hi).1 == #[trigger] verdict_at(buf, n, new),
    decreases hi - lo,
{
    if lo < hi {
        if verdict_at(buf, lo as u64, new) is None {
            let next = touched(buf, lo as u64);
            lemma_scan_reports(next, new, lo + 1, hi);
            let n = choose|n: u64|
                lo + 1 <= n < hi && scanned(next, new, lo + 1, hi).1 == #[trigger] verdict_at(
                    next,
                    n,
                    new,
                );
            lemma_touched(buf, lo as u64, n);
            assert(verdict_at(buf, n, new) == verdict_at(next, n, new));
        }
    }
}

/// A vote changes nothing that is remembered for another height than its own while fewer than 512
/// votes are, and it never puts another vote in the place of one. A vote whose target is too old is
/// neither judged nor remembered.
pub proof fn law_other_heights_are_left_alone(
    buf: Seq<(u64, VoteEnvelope)>,
    vote: VoteEnvelope,
    pending: u64,
    height: u64,
)
    requires
        heights_fit(vote.data, pending),
        height != vote.data.target_number,
    ensures
        recall(judged(buf, vote, pending).0, height) is Some ==> recall(
            judged(buf, vote, pending).0,
            height,
        ) == recall(buf, height),
        buf.len() < 512 ==> recall(judged(buf, vote, pending).0, height) == recall(buf, height),
        vote.data.target_number + 256 <= pending ==> judged(buf, vote, pending) == (
            buf,
            None::<VoteViolation>,
        ),
{
    if in_scope(vote.data, pending) {
        let (lo, hi) = (scan_start(vote.data, pending), scan_end(pending) + 1);
        let seen = scanned(buf, vote.data, lo, hi);
        lemma_scan_finds(buf, vote.data, lo, hi);
        lemma_scan_len(buf, vote.data, lo, hi);
        let limit = MAX_SIZE_OF_RECENT_ENTRY as nat;
        assert(recall(seen.0, height) == recall(buf, height));
        lemma_stored_other(seen.0, limit, vote.data.target_number, vote, height);
        if buf.len() < 512 {
            lemma_stored_keeps(seen.0, limit, vote.data.target_number, vote, height);
        }
    }
}

proof fn lemma_scan_len(buf: Seq<(u64, VoteEnvelope)>, new: VoteData, lo: int, hi: int)
    ensures
        scanned(buf, new, lo, hi).0.len() <= buf.len(),
    decreases hi - lo,
{
    if lo < hi {
        lemma_touched_len(buf, lo as u64);
        lemma_scan_len(touched(buf, lo as u64), new, lo + 1, hi);
    }
}

/// What one validator votes does not change what is remembered of another.
pub proof fn law_validators_are_apart(
    m: Map<VoteAddress, Seq<(u64, VoteEnvelope)>>,
    vote: VoteEnvelope,
    pending: u64,
    other: VoteAddress,
)
    requires
        other != vote.vote_address,
    ensures
        buffer_of(
            m.insert(
                vote.vote_address,
                judged(buffer_of(m, vote.vote_address), vote, pending).0,
            ),
            other,
        ) == buffer_of(m, other),
{
}

/// Watches the votes of each validator.
pub struct MaliciousVoteMonitor {
    buffers: Vec<(VoteAddress, VoteBuffer)>,
}

impl Default for MaliciousVoteMonitor {
    fn default() -> (r: Self)
        ensures
            r.wf(),
            r@ == Map::<VoteAddress, Seq<(u64, VoteEnvelope)>>::empty(),
    {
        MaliciousVoteMonitor::new()
    }
}

impl MaliciousVoteMonitor {
    spec fn position(&self, a: VoteAddress) -> int {
        choose|i: int| 0 <= i < self.buffers@.len() && (#[trigger] self.buffers@[i]).0 == a
    }

    spec fn knows(&self, a: VoteAddress) -> bool {
        exists|i: int| 0 <= i < self.buffers@.len() && (#[trigger] self.buffers@[i]).0 == a
    }

    /// One buffer for each validator, and all of the same size.
    pub closed spec fn wf(&self) -> bool {
        &&& forall|i: int, j: int|
            0 <= i < j < self.buffers@.len() ==> (#[trigger] self.buffers@[i]).0 != (
            #[trigger] self.buffers@[j]).0
        &&& forall|i: int|
            0 <= i < self.buffers@.len() ==> buffer_limit((#[trigger] self.buffers@[i]).1)
                == MAX_SIZE_OF_RECENT_ENTRY
    }

    /// The recent votes of each validator by target number, the vote used last first.
    pub closed spec fn view(&self) -> Map<VoteAddress, Seq<(u64, VoteEnvelope)>> {
        Map::new(
            |a: VoteAddress| self.knows(a),
            |a: VoteAddress| buffered_votes(self.buffers@[self.position(a)].1),
        )
    }

    /// A monitor that has seen no vote.
    pub fn new() -> (r: Self)
        ensures
            r.wf(),
            r@ == Map::<VoteAddress, Seq<(u64, VoteEnvelope)>>::empty(),
    {
        MaliciousVoteMonitor { buffers: Vec::new() }
    }

    fn scan_buffer(buffer: &mut VoteBuffer, new_vote: &VoteEnvelope, pending: u64) -> (r: Option<
        VoteViolation,
    >)
        requires
            heights_fit(new_vote.data, pending),
            buffer_limit(*old(buffer)) == MAX_SIZE_OF_RECENT_ENTRY,
        ensures
            (buffered_votes(*final(buffer)), r) == judged(
                buffered_votes(*old(buffer)),
                *new_vote,
                pending,
            ),
            buffer_limit(*final(buffer)) == MAX_SIZE_OF_RECENT_ENTRY,
    {
        let source_number: u64 = new_vote.data.source_number;
        let target_number: u64 = new_vote.data.target_number;
        if target_number + MALICIOUS_VOTE_SLASH_SCOPE <= pending {
            return None;
        }
        let mut block_number: u64 = source_number + 1;
        if block_number + MALICIOUS_VOTE_SLASH_SCOPE <= pending {
            block_number = pending - MALICIOUS_VOTE_SLASH_SCOPE + 1;
        }
        let new_vote_hash = new_vote.data.hash();
        let ghost buf0 = buffered_votes(*buffer);
        let ghost start = block_number as int;
        let last: u64 = pending + UPPER_LIMIT_OF_VOTE_BLOCK_NUMBER;
        while block_number <= last
            invariant
                heights_fit(new_vote.data, pending),
                in_scope(new_vote.data, pending),
                source_number == new_vote.data.source_number,
                target_number == new_vote.data.target_number,
                new_vote_hash@ == new_vote.data.digest(),
                last == scan_end(pending),
                start == scan_start(new_vote.data, pending),
                start <= block_number,
                block_number <= last + 1 || block_number == start,
                buffer_limit(*buffer) == MAX_SIZE_OF_RECENT_ENTRY,
                buf0 == buffered_votes(*old(buffer)),
                scanned(buf0, new_vote.data, start, last + 1) == scanned(
                    buffered_votes(*buffer),
                    new_vote.data,
                    block_number as int,
                    last + 1,
                ),
            decreases last + 1 - block_number,
        {
            match buffer_get(buffer, block_number) {
                Some(existing) => {
                    let existing_hash = existing.data.hash();
                    proof {
                        lemma_fixed_bytes_eq(existing_hash, new_vote_hash);
                    }
                    if block_number == target_number && existing_hash != new_vote_hash {
                        return Some(VoteViolation::Rule1);
                    } else if (block_number < target_number && existing.data.source_number
                        > source_number) || (block_number > target_number
                        && existing.data.source_number < source_number) {
                        return Some(VoteViolation::Rule2);
                    }
                },
                None => {},
            }
            block_number += 1;
        }
        buffer_put(buffer, target_number, *new_vote);
        None
    }

    /// Checks a new vote against the votes of the same validator seen before, and keeps it where
    /// it breaks no rule. The rule that it breaks is returned.
    pub fn detect(&mut self, new_vote: &VoteEnvelope, pending_block_number: u64) -> (r: Option<
        VoteViolation,
    >)
        requires
            old(self).wf(),
            heights_fit(new_vote.data, pending_block_number),
        ensures
            final(self).wf(),
            ({
                let after = judged(
                    buffer_of(old(self)@, new_vote.vote_address),
                    *new_vote,
                    pending_block_number,
                );
                &&& r == after.1
                &&& final(self)@ == old(self)@.insert(new_vote.vote_address, after.0)
            }),
    {
        let ghost before = *self;
        let mut i: usize = 0;
        let count: usize = self.buffers.len();
        while i < count
            invariant_except_break
                forall|j: int|
                    0 <= j < i ==> (#[trigger] self.buffers@[j]).0 != new_vote.vote_address,
            invariant
                *self == before,
                count == self.buffers@.len(),
                i <= count,
            ensures
                i < count ==> self.buffers@[i as int].0 == new_vote.vote_address,
                i == count ==> forall|j: int|
                    0 <= j < count ==> (#[trigger] self.buffers@[j]).0 != new_vote.vote_address,
            decreases count - i,
        {
            if self.buffers[i].0 == new_vote.vote_address {
                break;
            }
            i += 1;
        }
        if i == count {
            let fresh = new_buffer(MAX_SIZE_OF_RECENT_ENTRY);
            self.buffers.push((new_vote.vote_address, fresh));
        }
        let ghost found = *self;
        let entry = &mut self.buffers[i];
        let r = Self::scan_buffer(&mut entry.1, new_vote, pending_block_number);
        proof {
            let a0 = new_vote.vote_address;
            let buf = buffer_of(before@, a0);
            assert(found.buffers@[i as int].0 == a0);
            assert(buffered_votes(found.buffers@[i as int].1) == buf) by {
                if i == count {
                    assert(!before.knows(a0));
                } else {
                    assert(before.knows(a0));
                    assert(before.position(a0) == i as int);
                }
            }
            let after = judged(buf, *new_vote, pending_block_number);
            assert(self.buffers@.len() == found.buffers@.len());
            assert(forall|j: int|
                0 <= j < self.buffers@.len() ==> (#[trigger] self.buffers@[j]).0
                    == found.buffers@[j].0);
            assert(self.wf());
            assert forall|a: VoteAddress| self.knows(a) == (before.knows(a) || a == a0) by {
                if before.knows(a) {
                    let k = before.position(a);
                    assert(self.buffers@[k].0 == a);
                }
                if a == a0 {
                    assert(self.buffers@[i as int].0 == a);
                }
                if self.knows(a) && a != a0 {
                    let k = self.position(a);
                    assert(before.buffers@[k].0 == a);
                }
            }
            assert forall|a: VoteAddress| self.knows(a) implies #[trigger] self@[a]
                == before@.insert(a0, after.0)[a] by {
                let k = self.position(a);
                if a == a0 {
                    assert(k == i as int);
                } else {
                    assert(before.buffers@[k].0 == a);
                    assert(before.knows(a));
                    assert(before.position(a) == k);
                }
            }
            assert(self@ =~= before@.insert(a0, after.0));
        }
        r
    }

    /// Whether a new vote breaks a rule beside the votes of the same validator seen before.
    pub fn conflict_detect(&mut self, new_vote: &VoteEnvelope, pending_block_number: u64) -> (r:
        bool)
        requires
            old(self).wf(),
            heights_fit(new_vote.data, pending_block_number),
        ensures
            final(self).wf(),
            final(self)@ == old(self)@.insert(
                new_vote.vote_address,
                judged(
                    buffer_of(old(self)@, new_vote.vote_address),
                    *new_vote,
                    pending_block_number,
                ).0,
            ),
            r <==> in_scope(new_vote.data, pending_block_number) && exists|n: u64|
                scan_start(new_vote.data, pending_block_number) <= n <= scan_end(
                    pending_block_number,
                ) && #[trigger] verdict_at(
                    buffer_of(old(self)@, new_vote.vote_address),
                    n,
                    new_vote.data,
                ) is Some,
    {
        proof {
            let buf = buffer_of(self@, new_vote.vote_address);
            if in_scope(new_vote.data, pending_block_number) {
                lemma_scan_finds(
                    buf,
                    new_vote.data,
                    scan_start(new_vote.data, pending_block_number),
                    scan_end(pending_block_number) + 1,
                );
            }
        }
        self.detect(new_vote, pending_block_number).is_some()
    }
}

} // verus!
