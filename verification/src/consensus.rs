//! Parlia consensus: which head to follow, and what is justified and finalized.

use crate::header::Header;
use crate::header::HeaderView;
use crate::primitives::base256;
use crate::primitives::bytes_precede;
use crate::primitives::lemma_precedes_one_way;
use crate::primitives::lemma_precedes_transitive;
use crate::primitives::Address;
use crate::primitives::FixedBytes;
use crate::primitives::B256;
use crate::primitives::U256;
use crate::recency::inserted;
use crate::recency::lemma_inserted;
use crate::recency::lemma_stored_keeps;
use crate::recency::lemma_stored_other;
use crate::recency::lemma_stored_recalled;
use crate::recency::lemma_touched;
use crate::recency::lemma_touched_len;
use crate::recency::makes_room;
use crate::recency::recall;
use crate::recency::stored;
use crate::recency::touched;
use crate::rlp::keccak;
use crate::snapshot::Snapshot;
use crate::text::decimal;
use crate::text::decimal_text;
use crate::text::hash_text;
use crate::text::show_hash;
use vstd::prelude::*;

verus! {

/// The reward percent to the system.
pub const SYSTEM_REWARD_PERCENT: usize = 4;

/// The most that the system reward contract holds: 100 ether.
pub const MAX_SYSTEM_REWARD: u128 = 100_000_000_000_000_000_000;

/// How many total difficulties are remembered.
pub const HEADER_TD_CACHE_SIZE: u32 = 128;

/// The account that system transactions come from.
pub fn system_address() -> (r: Address)
    ensures
        r@ == Seq::new(20, |i: int| if i == 19 { 0xfeu8 } else { 0xffu8 }),
{
    let mut bytes: [u8; 20] = [0xff; 20];
    bytes[19] = 0xfe;
    let r = FixedBytes { bytes };
    proof {
        assert(r@ =~= Seq::new(20, |i: int| if i == 19 { 0xfeu8 } else { 0xffu8 }));
    }
    r
}

/// What can go wrong in consensus.
#[derive(Debug)]
pub enum ParliaConsensusErr {
    /// The provider failed.
    Provider(String),
    /// There is no hash of the head block.
    HeadHashNotFound,
    /// The fork choice could not be updated.
    ForkChoiceUpdateError(String),
    /// The total difficulty of a block is not known.
    UnknownTotalDifficulty(B256, u64),
    /// Something else failed.
    Internal(String),
}

impl ParliaConsensusErr {
    /// An error of another part of the node.
    pub fn internal(message: String) -> (r: Self)
        ensures
            r == ParliaConsensusErr::Internal(message),
    {
        ParliaConsensusErr::Internal(message)
    }

    /// The error in words.
    pub fn message(&self) -> (r: String)
        ensures
            r@ == consensus_text(*self),
    {
        match self {
            ParliaConsensusErr::Provider(error) => error.clone(),
            ParliaConsensusErr::HeadHashNotFound => "Head block hash not found".to_owned(),
            ParliaConsensusErr::ForkChoiceUpdateError(error) => {
                let mut s = "Fork choice update error: ".to_owned();
                s.append(error.as_str());
                s
            },
            ParliaConsensusErr::UnknownTotalDifficulty(hash, number) => {
                let mut s = "Unknown total difficulty for block ".to_owned();
                s.append(show_hash(hash).as_str());
                s.append(" at number ");
                s.append(decimal(*number).as_str());
                s
            },
            ParliaConsensusErr::Internal(error) => error.clone(),
        }
    }
}

/// An error in words; that of another part of the node is handed on as it is.
pub open spec fn consensus_text(e: ParliaConsensusErr) -> Seq<char> {
    match e {
        ParliaConsensusErr::Provider(error) => error@,
        ParliaConsensusErr::HeadHashNotFound => "Head block hash not found"@,
        ParliaConsensusErr::ForkChoiceUpdateError(error) => "Fork choice update error: "@ + error@,
        ParliaConsensusErr::UnknownTotalDifficulty(hash, number) =>
            "Unknown total difficulty for block "@ + hash_text(hash@) + " at number "@
            + decimal_text(number as nat),
        ParliaConsensusErr::Internal(error) => error@,
    }
}

/// The total difficulties of recent blocks, by hash.
#[verifier::external_body]
pub struct TdCache {
    map: schnellru::LruMap<[u8; 32], Option<U256>, schnellru::ByLength>,
}

/// The total difficulties that are remembered, the one used last first.
pub uninterp spec fn td_entries(c: TdCache) -> Seq<(Seq<u8>, Option<U256>)>;

/// How many total difficulties can be remembered.
pub uninterp spec fn td_limit(c: TdCache) -> nat;

impl TdCache {
    /// `schnellru::LruMap::new` with `ByLength`: an empty map that holds at most that many
    /// entries.
    #[verifier::external_body]
    fn new(limit: u32) -> (c: TdCache)
        ensures
            td_entries(c) == Seq::<(Seq<u8>, Option<U256>)>::empty(),
            td_limit(c) == limit,
    {
        TdCache { map: schnellru::LruMap::new(schnellru::ByLength::new(limit)) }
    }

    /// `schnellru::LruMap::get`: the value under the key, whose entry becomes the one used last.
    #[verifier::external_body]
    fn get(&mut self, k: &[u8; 32]) -> (r: Option<Option<U256>>)
        ensures
            r == recall(td_entries(*old(self)), k@),
            td_entries(*final(self)) == touched(td_entries(*old(self)), k@),
            td_limit(*final(self)) == td_limit(*old(self)),
    {
        self.map.get(k).copied()
    }

    /// `schnellru::LruMap::insert`: stores the value under the key as the entry used last, in the
    /// place of the one under that key where there is one. A new entry that the limit has no room
    /// for drops the one used longest ago. The result says whether the value was taken: always,
    /// unless the limit is zero, where nothing changes. Said of a process that gets the memory it
    /// asks for: where the table cannot be allocated, `insert` drops more entries, or the new one.
    #[verifier::external_body]
    fn insert(&mut self, k: &[u8; 32], td: Option<U256>) -> (r: bool)
        ensures
            r == (td_limit(*old(self)) > 0),
            inserted(
                td_entries(*old(self)),
                td_limit(*old(self)),
                k@,
                td,
                td_entries(*final(self)),
            ),
            td_limit(*final(self)) == td_limit(*old(self)),
    {
        self.map.insert(*k, td)
    }
}

/// A head that could be followed, with what is known of it.
#[derive(Clone, Copy, Debug)]
pub struct HeadCandidate<'a, 's> {
    /// The header.
    pub header: &'a Header,
    /// The total difficulty of the chain up to it.
    pub td: Option<U256>,
    /// Whether the Luban fork is active at its block.
    pub luban_active: bool,
    /// Whether the Plato fork is active at its block.
    pub plato_active: bool,
    /// The snapshot at its block, as far as the snapshot provider has one.
    pub snapshot: Option<&'s Snapshot>,
}

impl<'a, 's> HeadCandidate<'a, 's> {
    /// The justified block: from Luban on, the target of the latest attested vote.
    pub open spec fn justified(self) -> Option<(u64, B256)> {
        match self.snapshot {
            Some(s) => if self.luban_active {
                Some((s.vote_data.target_number, s.vote_data.target_hash))
            } else {
                None
            },
            None => None,
        }
    }

    /// The finalized block: from Plato on, the source of the latest attested vote.
    pub open spec fn finalized(self) -> Option<(u64, B256)> {
        match self.snapshot {
            Some(s) => if self.plato_active {
                Some((s.vote_data.source_number, s.vote_data.source_hash))
            } else {
                None
            },
            None => None,
        }
    }

    /// The number of the justified block that counts for fast finality.
    pub open spec fn weight(self) -> u64 {
        match self.justified() {
            Some(j) => if self.plato_active {
                j.0
            } else {
                0
            },
            None => 0,
        }
    }
}

/// Which of two heads of the same total difficulty is followed: the one with the lower number,
/// then the one that was made earlier, then the one with the lower hash where one validator made
/// both, else the one on which the `coin` falls.
pub open spec fn tie_broken(incoming: HeaderView, current: HeaderView, coin: bool) -> bool {
    if incoming.number != current.number {
        incoming.number < current.number
    } else if incoming.timestamp != current.timestamp {
        incoming.timestamp < current.timestamp
    } else if incoming.beneficiary == current.beneficiary {
        bytes_precede(keccak(incoming.encoded), keccak(current.encoded))
    } else {
        coin
    }
}

/// Which head is followed by total difficulty, or which one's total difficulty is missing.
pub open spec fn td_choice(
    incoming: HeadCandidate,
    current: HeadCandidate,
    coin: bool,
) -> Result<bool, HeaderView> {
    match (incoming.td, current.td) {
        (_, None) => Err(current.header@),
        (None, Some(_)) => Err(incoming.header@),
        (Some(i), Some(c)) => Ok(
            if i.value() != c.value() {
                i.value() > c.value()
            } else {
                tie_broken(incoming.header@, current.header@, coin)
            },
        ),
    }
}

/// Which head is followed: that with the higher justified block; where they are the same, total
/// difficulty decides.
pub open spec fn head_choice(
    incoming: HeadCandidate,
    current: HeadCandidate,
    coin: bool,
) -> Result<bool, HeaderView> {
    if incoming.weight() == current.weight() {
        td_choice(incoming, current, coin)
    } else {
        Ok(incoming.weight() > current.weight())
    }
}

/// The error that names a block of unknown total difficulty.
pub open spec fn names_unknown_td(e: ParliaConsensusErr, h: HeaderView) -> bool {
    e matches ParliaConsensusErr::UnknownTotalDifficulty(hash, number) && hash@ == keccak(h.encoded)
        && number == h.number
}

/// What a decision of `choice` looks like as a result.
pub open spec fn decides(
    r: Result<bool, ParliaConsensusErr>,
    choice: Result<bool, HeaderView>,
) -> bool {
    match choice {
        Ok(b) => r matches Ok(x) && x == b,
        Err(h) => r matches Err(e) && names_unknown_td(e, h),
    }
}

/// `rand::random`: either side of a coin, by the generator of the thread. Which one is chance.
#[verifier::external_body]
fn toss_coin() -> (r: bool) {
    rand::random()
}

/// Where the total difficulty of the incoming head comes from.
#[derive(Clone, Copy, Debug)]
pub enum TdStep {
    /// It is known, or known to be missing.
    Done(Option<U256>),
    /// It has to be computed from that of the parent with this number and hash.
    AskParent(u64, B256),
}

/// Parlia consensus.
pub struct ParliaConsensus {
    header_td_cache: TdCache,
}

impl ParliaConsensus {
    /// The total difficulties that are remembered, the one used last first.
    pub closed spec fn view(&self) -> Seq<(Seq<u8>, Option<U256>)> {
        td_entries(self.header_td_cache)
    }

    /// As many total difficulties can be remembered as there should be, and no more are.
    pub closed spec fn wf(&self) -> bool {
        &&& td_limit(self.header_td_cache) == HEADER_TD_CACHE_SIZE
        &&& self@.len() <= HEADER_TD_CACHE_SIZE
    }

    /// Nothing is remembered yet.
    pub fn new() -> (r: Self)
        ensures
            r.wf(),
            r@ == Seq::<(Seq<u8>, Option<U256>)>::empty(),
    {
        ParliaConsensus { header_td_cache: TdCache::new(HEADER_TD_CACHE_SIZE) }
    }

    /// The head to follow of two. A toss of a coin decides where nothing else does.
    pub fn canonical_head<'a, 's>(
        &self,
        incoming: HeadCandidate<'a, 's>,
        current: HeadCandidate<'a, 's>,
    ) -> (r: Result<&'a Header, ParliaConsensusErr>)
        ensures
            exists|coin: bool|
                match #[trigger] head_choice(incoming, current, coin) {
                    Ok(true) => r matches Ok(h) && h == incoming.header,
                    Ok(false) => r matches Ok(h) && h == current.header,
                    Err(h) => r matches Err(e) && names_unknown_td(e, h),
                },
    {
        self.canonical_head_by(incoming, current, toss_coin())
    }

    /// The head to follow of two. `coin` is the toss that decides where nothing else does.
    pub fn canonical_head_by<'a, 's>(
        &self,
        incoming: HeadCandidate<'a, 's>,
        current: HeadCandidate<'a, 's>,
        coin: bool,
    ) -> (r: Result<&'a Header, ParliaConsensusErr>)
        ensures
            match head_choice(incoming, current, coin) {
                Ok(true) => r matches Ok(h) && h == incoming.header,
                Ok(false) => r matches Ok(h) && h == current.header,
                Err(h) => r matches Err(e) && names_unknown_td(e, h),
            },
            incoming.weight() > current.weight() ==> (r matches Ok(h) && h == incoming.header),
            incoming.weight() < current.weight() ==> (r matches Ok(h) && h == current.header),
            r matches Ok(h) ==> h == incoming.header || h == current.header,
    {
        match self.head_choice_with_fast_finality_by(incoming, current, coin) {
            Ok(true) => Ok(incoming.header),
            Ok(false) => Ok(current.header),
            Err(e) => Err(e),
        }
    }

    /// Whether the incoming head is followed, fast finality deciding first, and a toss of a coin
    /// where nothing else does.
    pub fn head_choice_with_fast_finality(
        &self,
        incoming: HeadCandidate,
        current: HeadCandidate,
    ) -> (r: Result<bool, ParliaConsensusErr>)
        ensures
            exists|coin: bool| decides(r, #[trigger] head_choice(incoming, current, coin)),
    {
        self.head_choice_with_fast_finality_by(incoming, current, toss_coin())
    }

    /// Whether the incoming head is followed, fast finality deciding first, and `coin` where nothing
    /// else does.
    pub fn head_choice_with_fast_finality_by(
        &self,
        incoming: HeadCandidate,
        current: HeadCandidate,
        coin: bool,
    ) -> (r: Result<bool, ParliaConsensusErr>)
        ensures
            decides(r, head_choice(incoming, current, coin)),
    {
        let incoming_justified_num: u64 = self.justified_weight(incoming);
        let current_justified_num: u64 = self.justified_weight(current);
        if incoming_justified_num == current_justified_num {
            return self.head_choice_with_td_by(incoming, current, coin);
        }
        Ok(incoming_justified_num > current_justified_num)
    }

    fn justified_weight(&self, head: HeadCandidate) -> (r: u64)
        ensures
            r == head.weight(),
    {
        if head.plato_active {
            match self.get_justified_number_and_hash(head) {
                Some((number, _)) => number,
                None => 0,
            }
        } else {
            0
        }
    }

    /// Whether the incoming head is followed, by total difficulty, and a toss of a coin where
    /// nothing else decides.
    pub fn head_choice_with_td(&self, incoming: HeadCandidate, current: HeadCandidate) -> (r: Result<
        bool,
        ParliaConsensusErr,
    >)
        ensures
            exists|coin: bool| decides(r, #[trigger] td_choice(incoming, current, coin)),
    {
        self.head_choice_with_td_by(incoming, current, toss_coin())
    }

    /// Whether the incoming head is followed, by total difficulty, and `coin` where nothing else
    /// decides.
    pub fn head_choice_with_td_by(
        &self,
        incoming: HeadCandidate,
        current: HeadCandidate,
        coin: bool,
    ) -> (r: Result<bool, ParliaConsensusErr>)
        ensures
            decides(r, td_choice(incoming, current, coin)),
            r is Err <==> incoming.td is None || current.td is None,
            incoming.td matches Some(i) ==> (current.td matches Some(c) ==> {
                &&& i.value() > c.value() ==> (r matches Ok(followed) && followed)
                &&& i.value() < c.value() ==> (r matches Ok(followed) && !followed)
            }),
    {
        let current_td = match current.td {
            Some(td) => td,
            None => {
                return Err(
                    ParliaConsensusErr::UnknownTotalDifficulty(
                        current.header.hash_slow(),
                        current.header.number,
                    ),
                );
            },
        };
        let incoming_td = match incoming.td {
            Some(td) => td,
            None => {
                return Err(
                    ParliaConsensusErr::UnknownTotalDifficulty(
                        incoming.header.hash_slow(),
                        incoming.header.number,
                    ),
                );
            },
        };
        if current_td.less_than(&incoming_td) {
            return Ok(true);
        }
        if incoming_td.less_than(&current_td) {
            return Ok(false);
        }
        let incoming = incoming.header;
        let current = current.header;
        let reorg = if incoming.number < current.number {
            true
        } else if incoming.number > current.number {
            false
        } else if incoming.timestamp == current.timestamp {
            if incoming.beneficiary == current.beneficiary {
                incoming.hash_slow().precedes(&current.hash_slow())
            } else {
                coin
            }
        } else {
            incoming.timestamp < current.timestamp
        };
        Ok(reorg)
    }

    /// The justified block at a head.
    pub fn get_justified_number_and_hash(&self, head: HeadCandidate) -> (r: Option<(u64, B256)>)
        ensures
            r == head.justified(),
    {
        if !head.luban_active {
            return None;
        }
        match head.snapshot {
            Some(snap) => Some((snap.vote_data.target_number, snap.vote_data.target_hash)),
            None => None,
        }
    }

    /// The finalized block at a head.
    pub fn get_finalized_number_and_hash(&self, head: HeadCandidate) -> (r: Option<(u64, B256)>)
        ensures
            r == head.finalized(),
    {
        if !head.plato_active {
            return None;
        }
        match head.snapshot {
            Some(snap) => Some((snap.vote_data.source_number, snap.vote_data.source_hash)),
            None => None,
        }
    }

    /// What is remembered of the total difficulty of a block; nothing where it has to be asked
    /// for.
    pub fn cached_header_td(&mut self, hash: B256) -> (r: Option<Option<U256>>)
        requires
            old(self).wf(),
        ensures
            final(self).wf(),
            r == recall(old(self)@, hash@),
            final(self)@ == touched(old(self)@, hash@),
    {
        proof {
            lemma_touched_len(self@, hash@);
        }
        self.header_td_cache.get(&hash.bytes)
    }

    /// Remembers the total difficulty that was asked for; the one used longest ago makes room
    /// where there is none. It says that this was done.
    pub fn remember_header_td(&mut self, hash: B256, td: Option<U256>) -> (r: bool)
        requires
            old(self).wf(),
        ensures
            final(self).wf(),
            final(self)@ == stored(old(self)@, HEADER_TD_CACHE_SIZE as nat, hash@, td),
            recall(final(self)@, hash@) == Some(td),
            r,
    {
        let taken = self.header_td_cache.insert(&hash.bytes, td);
        proof {
            lemma_inserted(
                old(self)@,
                HEADER_TD_CACHE_SIZE as nat,
                hash@,
                td,
                self@,
                hash@,
            );
        }
        taken
    }

    /// What follows from the answer to the question for the incoming head's total difficulty: an
    /// answer stands; where there was none, the parent's is asked for.
    pub fn incoming_td_step(incoming: &Header, answer: Option<Option<U256>>) -> (r: TdStep)
        requires
            answer is None ==> incoming.number > 0,
        ensures
            r == match answer {
                Some(td) => TdStep::Done(td),
                None => TdStep::AskParent((incoming.number - 1) as u64, incoming.parent_hash),
            },
            r matches TdStep::Done(td) ==> answer == Some(td),
            r matches TdStep::AskParent(number, hash) ==> number + 1 == incoming.number && hash
                == incoming.parent_hash && answer is None,
    {
        match answer {
            Some(td) => TdStep::Done(td),
            None => TdStep::AskParent(incoming.number - 1, incoming.parent_hash),
        }
    }

    /// The total difficulty of the incoming head from that of its parent.
    pub fn td_from_parent(incoming: &Header, parent_td: Option<U256>) -> (r: Option<U256>)
        ensures
            match parent_td {
                Some(td) => r matches Some(sum) && sum.value() == (td.value()
                    + incoming.difficulty.value()) % base256(),
                None => r is None,
            },
            parent_td matches Some(td) ==> (td.value() + incoming.difficulty.value() < base256()
                ==> (r matches Some(sum) && sum.value() == td.value()
                + incoming.difficulty.value())),
    {
        match parent_td {
            Some(td) => Some(td.plus(incoming.difficulty)),
            None => None,
        }
    }
}

/// A total difficulty that was remembered is found by its hash, also after others were read. Under
/// another hash what was there before is found and nothing else, unless it had to make room: where
/// the hash is new and no more can be remembered, the one used longest ago does.
pub proof fn law_remembered_td_is_found(
    before: Seq<(Seq<u8>, Option<U256>)>,
    hash: Seq<u8>,
    td: Option<U256>,
    other: Seq<u8>,
)
    requires
        before.len() <= HEADER_TD_CACHE_SIZE,
        other != hash,
    ensures
        ({
            let after = stored(before, HEADER_TD_CACHE_SIZE as nat, hash, td);
            &&& recall(after, hash) == Some(td)
            &&& recall(touched(after, other), hash) == Some(td)
            &&& recall(after, other) is Some ==> recall(after, other) == recall(before, other)
            &&& !makes_room(before, HEADER_TD_CACHE_SIZE as nat, hash, other) ==> recall(
                after,
                other,
            ) == recall(before, other)
        }),
{
    let limit = HEADER_TD_CACHE_SIZE as nat;
    let after = stored(before, limit, hash, td);
    lemma_stored_recalled(before, limit, hash, td);
    lemma_touched(after, other, hash);
    lemma_stored_other(before, limit, hash, td, other);
    if !makes_room(before, limit, hash, other) {
        lemma_stored_keeps(before, limit, hash, td, other);
    }
}

/// No more total difficulties are remembered than there should be.
pub proof fn law_td_cache_keeps_to_its_limit(consensus: ParliaConsensus)
    requires
        consensus.wf(),
    ensures
        consensus@.len() <= HEADER_TD_CACHE_SIZE,
        consensus@.len() <= 128,
{
}

/// No two heads are both left for each other, unless the coin decides.
pub proof fn law_heads_are_not_left_for_each_other(
    a: HeadCandidate,
    b: HeadCandidate,
    coin1: bool,
    coin2: bool,
)
    requires
        head_choice(a, b, coin1) == Ok::<bool, HeaderView>(true),
        a.header.number != b.header.number || a.header.timestamp != b.header.timestamp
            || a.header.beneficiary == b.header.beneficiary,
    ensures
        head_choice(b, a, coin2) == Ok::<bool, HeaderView>(false),
{
    lemma_precedes_one_way(keccak(a.header.encoded@), keccak(b.header.encoded@));
}

/// A head with a higher justified block is followed whatever its total difficulty is.
pub proof fn law_fast_finality_comes_first(
    incoming: HeadCandidate,
    current: HeadCandidate,
    coin: bool,
)
    requires
        incoming.weight() > current.weight(),
    ensures
        head_choice(incoming, current, coin) == Ok::<bool, HeaderView>(true),
        head_choice(current, incoming, coin) == Ok::<bool, HeaderView>(false),
{
}

/// Where the justified blocks are the same, the heavier head is followed and the lighter one is
/// left, whatever their numbers, times, sealers and hashes are.
pub proof fn law_heavier_head_is_followed(
    incoming: HeadCandidate,
    current: HeadCandidate,
    heavy: U256,
    light: U256,
    coin: bool,
)
    requires
        incoming.weight() == current.weight(),
        heavy.value() > light.value(),
    ensures
        ({
            let (up, down) = (
                HeadCandidate { td: Some(heavy), ..incoming },
                HeadCandidate { td: Some(light), ..current },
            );
            &&& head_choice(up, down, coin) == Ok::<bool, HeaderView>(true)
            &&& head_choice(down, up, coin) == Ok::<bool, HeaderView>(false)
            &&& td_choice(up, down, coin) == Ok::<bool, HeaderView>(true)
            &&& td_choice(down, up, coin) == Ok::<bool, HeaderView>(false)
        }),
{
}

/// Of two heads that are as heavy and have the same justified block the lower one is followed; at
/// the same height, the one that was made earlier; at the same time, of two by one validator, the
/// one whose hash has the lower byte where the two first differ. Only where two validators made
/// them at the same time is it left to the coin.
pub proof fn law_ties_between_heads(
    incoming: HeadCandidate,
    current: HeadCandidate,
    coin: bool,
    k: int,
)
    requires
        incoming.weight() == current.weight(),
        incoming.td matches Some(i) && current.td matches Some(c) && i.value() == c.value(),
    ensures
        ({
            let (a, b) = (incoming.header@, current.header@);
            let choice = head_choice(incoming, current, coin);
            let (x, y) = (keccak(a.encoded), keccak(b.encoded));
            &&& a.number < b.number ==> choice == Ok::<bool, HeaderView>(true)
            &&& a.number > b.number ==> choice == Ok::<bool, HeaderView>(false)
            &&& a.number == b.number && a.timestamp < b.timestamp ==> choice == Ok::<
                bool,
                HeaderView,
            >(true)
            &&& a.number == b.number && a.timestamp > b.timestamp ==> choice == Ok::<
                bool,
                HeaderView,
            >(false)
            &&& a.number == b.number && a.timestamp == b.timestamp ==> {
                &&& a.beneficiary != b.beneficiary ==> choice == Ok::<bool, HeaderView>(coin)
                &&& a.beneficiary == b.beneficiary && x == y ==> choice == Ok::<bool, HeaderView>(
                    false,
                )
                &&& a.beneficiary == b.beneficiary && 0 <= k < x.len() && k < y.len() && x.take(k)
                    == y.take(k) && x[k] != y[k] ==> choice == Ok::<bool, HeaderView>(x[k] < y[k])
            }
        }),
{
    let (x, y) = (keccak(incoming.header@.encoded), keccak(current.header@.encoded));
    if 0 <= k < x.len() && k < y.len() && x.take(k) == y.take(k) && x[k] != y[k] {
        if x[k] < y[k] {
            assert(bytes_precede(x, y));
        } else {
            assert(bytes_precede(y, x));
            lemma_precedes_one_way(y, x);
        }
    }
}

/// What counts for fast finality is the target of the latest vote that the snapshot at the head
/// attests, from both of the forks on that bring votes and finality; before, or without a snapshot,
/// it is the genesis block. The finalized block is the source of that vote.
pub proof fn law_latest_vote_counts(head: HeadCandidate)
    ensures
        head.weight() == (match head.snapshot {
            Some(s) => if head.luban_active && head.plato_active {
                s.vote_data.target_number
            } else {
                0
            },
            None => 0,
        }),
        head.justified() is Some <==> head.luban_active && head.snapshot is Some,
        head.justified() matches Some((number, hash)) ==> number
            == head.snapshot->0.vote_data.target_number && hash
            == head.snapshot->0.vote_data.target_hash,
        head.finalized() is Some <==> head.plato_active && head.snapshot is Some,
        head.finalized() matches Some((number, hash)) ==> number
            == head.snapshot->0.vote_data.source_number && hash
            == head.snapshot->0.vote_data.source_hash,
{
}

/// Where no total difficulty is needed none is asked for; where one is, and is missing, the error
/// names the block that lacks it, the current head first.
pub proof fn law_missing_td_is_named(
    incoming: HeadCandidate,
    current: HeadCandidate,
    coin: bool,
)
    ensures
        head_choice(incoming, current, coin) is Err <==> incoming.weight() == current.weight() && (
        incoming.td is None || current.td is None),
        head_choice(incoming, current, coin) matches Err(h) ==> h == if current.td is None {
            current.header@
        } else {
            incoming.header@
        },
{
}

/// The choice between heads whose total difficulties are known does not go in circles, unless a
/// coin decides.
pub proof fn law_head_choice_is_transitive(
    a: HeadCandidate,
    b: HeadCandidate,
    c: HeadCandidate,
    coin: bool,
)
    requires
        head_choice(b, a, coin) == Ok::<bool, HeaderView>(true),
        head_choice(c, b, coin) == Ok::<bool, HeaderView>(true),
        a.td is Some,
        b.td is Some,
        c.td is Some,
        a.header.beneficiary == b.header.beneficiary,
        b.header.beneficiary == c.header.beneficiary,
    ensures
        head_choice(c, a, coin) == Ok::<bool, HeaderView>(true),
{
    let (x, y, z) = (
        keccak(a.header.encoded@),
        keccak(b.header.encoded@),
        keccak(c.header.encoded@),
    );
    if bytes_precede(y, x) && bytes_precede(z, y) {
        lemma_precedes_transitive(z, y, x);
    }
}

/// What is decided is what was chosen; where the choice needed a total difficulty that is missing,
/// the error names the hash and the number of the block that lacks it.
pub proof fn law_decision_is_the_choice(
    r: Result<bool, ParliaConsensusErr>,
    chosen: bool,
    lacking: HeaderView,
)
    ensures
        decides(r, Ok(chosen)) <==> r == Ok::<bool, ParliaConsensusErr>(chosen),
        decides(r, Err(lacking)) ==> match r {
            Err(ParliaConsensusErr::UnknownTotalDifficulty(hash, number)) => hash@ == keccak(
                lacking.encoded,
            ) && number == lacking.number,
            _ => false,
        },
{
}

/// A total difficulty that is remembered stays so while another one is stored, as long as no more
/// than 128 are: only where that many are remembered does the one used longest ago make room.
pub proof fn law_128_tds_are_remembered(
    before: Seq<(Seq<u8>, Option<U256>)>,
    hash: Seq<u8>,
    td: Option<U256>,
    other: Seq<u8>,
)
    requires
        before.len() <= 128,
        other != hash,
        before.len() == 128 ==> before.last().0 != other,
    ensures
        recall(stored(before, HEADER_TD_CACHE_SIZE as nat, hash, td), other) == recall(
            before,
            other,
        ),
{
    lemma_stored_keeps(before, HEADER_TD_CACHE_SIZE as nat, hash, td, other);
}

} // verus!
