//! The validator set and the votes at a block.

use crate::primitives::bytes_precede;
use crate::primitives::lemma_precedes_one_way;
use crate::primitives::zero_bytes;
use crate::primitives::Address;
use crate::primitives::VoteAddress;
use crate::primitives::B256;
use crate::vote::VoteData;
use std::collections::BTreeMap;
use vstd::prelude::*;

verus! {

/// The epoch length where none is given.
pub const DEFAULT_EPOCH_LENGTH: u64 = 200;

/// How many blocks in a row a validator seals where nothing else is set.
pub const DEFAULT_TURN_LENGTH: u8 = 1;

/// The time between blocks in milliseconds where nothing else is set.
pub const DEFAULT_BLOCK_INTERVAL: u64 = 3000;

/// Every how many blocks a snapshot is written to the database.
pub const CHECKPOINT_INTERVAL: u64 = 1024;

/// What is known of a validator.
#[derive(Clone, Copy, Debug)]
pub struct ValidatorInfo {
    /// Its position among the sorted validators, counted from one.
    pub index: u64,
    /// Its BLS public key.
    pub vote_addr: VoteAddress,
}

impl Default for ValidatorInfo {
    fn default() -> (r: Self)
        ensures
            r.index == 0,
            r.vote_addr@ == Seq::new(48, |i: int| 0u8),
    {
        ValidatorInfo { index: 0, vote_addr: VoteAddress::zero() }
    }
}

/// The validators by address.
#[derive(Debug)]
pub struct ValidatorsMap {
    entries: Vec<(Address, ValidatorInfo)>,
}

impl Clone for ValidatorsMap {
    fn clone(&self) -> (r: Self)
        ensures
            r@ == self@,
    {
        proof {
            use_type_invariant(self);
        }
        let mut entries: Vec<(Address, ValidatorInfo)> = Vec::new();
        let mut i: usize = 0;
        while i < self.entries.len()
            invariant
                i <= self.entries@.len(),
                entries@ == self.entries@.take(i as int),
            decreases self.entries@.len() - i,
        {
            entries.push(self.entries[i]);
            proof {
                assert(self.entries@.take(i + 1) =~= self.entries@.take(i as int).push(
                    self.entries@[i as int],
                ));
            }
            i += 1;
        }
        proof {
            assert(entries@ =~= self.entries@);
        }
        let r = ValidatorsMap { entries };
        proof {
            assert forall|a: Address| r.has(a) == self.has(a) by {
                if r.has(a) {
                    assert(self.entries@[r.at(a)].0 == a);
                }
                if self.has(a) {
                    assert(r.entries@[self.at(a)].0 == a);
                }
            }
            assert forall|a: Address| r.has(a) implies #[trigger] r@[a] == self@[a] by {
                assert(self.entries@[r.at(a)].0 == a);
                assert(r.at(a) == self.at(a));
            }
            assert(r@ =~= self@);
        }
        r
    }
}

impl ValidatorsMap {
    spec fn has(&self, a: Address) -> bool {
        exists|i: int| 0 <= i < self.entries@.len() && (#[trigger] self.entries@[i]).0 == a
    }

    spec fn at(&self, a: Address) -> int {
        choose|i: int| 0 <= i < self.entries@.len() && (#[trigger] self.entries@[i]).0 == a
    }

    /// No address stands there twice.
    #[verifier::type_invariant]
    spec fn distinct(&self) -> bool {
        forall|i: int, j: int|
            0 <= i < j < self.entries@.len() ==> (#[trigger] self.entries@[i]).0 != (
            #[trigger] self.entries@[j]).0
    }

    /// What is known of each validator.
    pub closed spec fn view(&self) -> Map<Address, ValidatorInfo> {
        Map::new(|a: Address| self.has(a), |a: Address| self.entries@[self.at(a)].1)
    }

    /// No validators.
    pub fn new() -> (r: Self)
        ensures
            r@ == Map::<Address, ValidatorInfo>::empty(),
    {
        let r = ValidatorsMap { entries: Vec::new() };
        proof {
            assert(r@ =~= Map::<Address, ValidatorInfo>::empty());
        }
        r
    }

    fn find(&self, a: &Address) -> (r: Option<usize>)
        ensures
            r is Some <==> self@.contains_key(*a),
            r matches Some(i) ==> i < self.entries@.len() && self.entries@[i as int].0 == *a
                && self.entries@[i as int].1 == self@[*a],
    {
        proof {
            use_type_invariant(self);
        }
        let mut i: usize = 0;
        while i < self.entries.len()
            invariant
                i <= self.entries@.len(),
                self.distinct(),
                forall|j: int| 0 <= j < i ==> (#[trigger] self.entries@[j]).0 != *a,
            decreases self.entries@.len() - i,
        {
            if self.entries[i].0 == *a {
                proof {
                    assert(self.has(*a));
                    assert(self.at(*a) == i as int);
                }
                return Some(i);
            }
            i += 1;
        }
        None
    }

    /// What is known of a validator.
    pub fn get(&self, a: &Address) -> (r: Option<&ValidatorInfo>)
        ensures
            r == if self@.contains_key(*a) {
                Some(&self@[*a])
            } else {
                None
            },
    {
        match self.find(a) {
            Some(i) => Some(&self.entries[i].1),
            None => None,
        }
    }

    /// Whether an address is a validator's.
    pub fn contains_key(&self, a: &Address) -> (r: bool)
        ensures
            r == self@.contains_key(*a),
    {
        self.find(a).is_some()
    }

    /// How many validators there are.
    pub fn len(&self) -> (r: usize)
        ensures
            r == self@.dom().len(),
            self@.dom().finite(),
    {
        proof {
            use_type_invariant(self);
            let addresses = Seq::new(self.entries@.len(), |i: int| self.entries@[i].0);
            assert(addresses.no_duplicates());
            addresses.unique_seq_to_set();
            assert(addresses.to_set() =~= self@.dom()) by {
                assert forall|a: Address| addresses.to_set().contains(a) == self@.dom().contains(
                    a,
                ) by {
                    if addresses.contains(a) {
                        let i = choose|i: int| 0 <= i < addresses.len() && addresses[i] == a;
                        assert(self.entries@[i].0 == a);
                    }
                    if self.has(a) {
                        let i = self.at(a);
                        assert(addresses[i] == a);
                    }
                }
            }
        }
        self.entries.len()
    }

    /// Sets what is known of a validator.
    pub fn insert(&mut self, a: Address, info: ValidatorInfo)
        ensures
            final(self)@ == old(self)@.insert(a, info),
    {
        proof {
            use_type_invariant(&*self);
        }
        let ghost before = *self;
        let found = self.find(&a);
        let mut entries: Vec<(Address, ValidatorInfo)> = Vec::new();
        std::mem::swap(&mut entries, &mut self.entries);
        match found {
            Some(i) => {
                entries.set(i, (a, info));
            },
            None => {
                entries.push((a, info));
            },
        }
        let ghost e = entries@;
        proof {
            assert forall|b: Address| #[trigger] before.has(b) implies exists|i: int|
                0 <= i < e.len() && (#[trigger] e[i]).0 == b by {
                assert(e[before.at(b)].0 == b);
            }
            if found is None {
                assert forall|j: int| 0 <= j < before.entries@.len() implies (
                #[trigger] before.entries@[j]).0 != a by {
                    if before.entries@[j].0 == a {
                        assert(before.has(a));
                    }
                }
            }
        }
        self.entries = entries;
        proof {
            let k: int = match found {
                Some(i) => i as int,
                None => e.len() - 1,
            };
            assert(e[k] == (a, info));
            assert forall|b: Address| self.has(b) == (before.has(b) || b == a) by {
                if self.has(b) && b != a {
                    assert(before.entries@[self.at(b)].0 == b);
                }
                if b == a {
                    assert(self.entries@[k].0 == a);
                }
            }
            assert forall|b: Address| self.has(b) implies #[trigger] self@[b] == before@.insert(
                a,
                info,
            )[b] by {
                let i = self.at(b);
                if b == a {
                    assert(i == k);
                } else {
                    assert(before.entries@[i].0 == b);
                    assert(before.at(b) == i);
                }
            }
            assert(self@ =~= before@.insert(a, info));
        }
    }
}

/// The order of addresses leaves no two that it cannot tell apart, and has no cycles.
pub proof fn lemma_bytes_order(a: Seq<u8>, b: Seq<u8>, c: Seq<u8>)
    requires
        a.len() == b.len() == c.len(),
    ensures
        !bytes_precede(a, a),
        bytes_precede(a, b) ==> !bytes_precede(b, a),
        bytes_precede(a, b) && bytes_precede(b, c) ==> bytes_precede(a, c),
        a != b ==> bytes_precede(a, b) || bytes_precede(b, a),
{
    lemma_precedes_one_way(a, b);
    if bytes_precede(a, b) {
        let i = choose|i: int|
            0 <= i < a.len() && i < b.len() && #[trigger] a[i] < b[i] && a.take(i) == b.take(i);
        if bytes_precede(b, c) {
            let j = choose|j: int|
                0 <= j < b.len() && j < c.len() && #[trigger] b[j] < c[j] && b.take(j) == c.take(j);
            let k = if i < j {
                i
            } else {
                j
            };
            assert(a.take(i).take(k) =~= a.take(k));
            assert(b.take(i).take(k) =~= b.take(k));
            assert(b.take(j).take(k) =~= b.take(k));
            assert(c.take(j).take(k) =~= c.take(k));
            if i < j {
                assert(b.take(j)[i] == c.take(j)[i]);
            } else if j < i {
                assert(a.take(i)[j] == b.take(i)[j]);
            }
            assert(a[k] < c[k]);
        }
    }
    if a != b {
        assert(a.take(0) =~= b.take(0));
        lemma_first_difference(a, b, 0);
    }
}

proof fn lemma_first_difference(a: Seq<u8>, b: Seq<u8>, i: int)
    requires
        a.len() == b.len(),
        a != b,
        0 <= i <= a.len(),
        a.take(i) == b.take(i),
    ensures
        bytes_precede(a, b) || bytes_precede(b, a),
    decreases a.len() - i,
{
    if i == a.len() {
        assert(a.take(i) =~= a);
        assert(b.take(i) =~= b);
    } else if a[i] == b[i] {
        assert(a.take(i + 1) =~= a.take(i).push(a[i]));
        assert(b.take(i + 1) =~= b.take(i).push(b[i]));
        lemma_first_difference(a, b, i + 1);
    }
}

/// Addresses in ascending order.
pub open spec fn ascending(s: Seq<Address>) -> bool {
    forall|i: int, j: int|
        0 <= i < j < s.len() ==> !bytes_precede((#[trigger] s[j])@, (#[trigger] s[i])@)
}

/// The addresses of the pairs.
pub open spec fn addresses(s: Seq<(Address, VoteAddress)>) -> Seq<Address> {
    Seq::new(s.len(), |i: int| s[i].0)
}

fn sort_pairs(pairs: &Vec<(Address, VoteAddress)>) -> (r: Vec<(Address, VoteAddress)>)
    ensures
        r@.to_multiset() == pairs@.to_multiset(),
        r@.len() == pairs@.len(),
        ascending(addresses(r@)),
{
    let mut sorted: Vec<(Address, VoteAddress)> = Vec::new();
    let mut n: usize = 0;
    proof {
        assert(sorted@ =~= pairs@.take(0));
    }
    while n < pairs.len()
        invariant
            n <= pairs@.len(),
            sorted@.len() == n,
            ascending(addresses(sorted@)),
            sorted@.to_multiset() == pairs@.take(n as int).to_multiset(),
        decreases pairs@.len() - n,
    {
        let item = pairs[n];
        let mut at: usize = sorted.len();
        while at > 0 && item.0.precedes(&sorted[at - 1].0)
            invariant
                at <= sorted@.len(),
                forall|j: int|
                    at <= j < sorted@.len() ==> bytes_precede(item.0@, (#[trigger] sorted@[j]).0@),
            decreases at,
        {
            at -= 1;
        }
        let ghost before = sorted@;
        sorted.insert(at, item);
        proof {
            before.to_multiset_ensures();
            pairs@.take(n as int).to_multiset_ensures();
            vstd::seq_lib::to_multiset_insert(before, at as int, item);
            assert(pairs@.take(n + 1) =~= pairs@.take(n as int).push(item));
            assert(ascending(addresses(sorted@))) by {
                let s = addresses(sorted@);
                let b = addresses(before);
                assert forall|i: int, j: int| 0 <= i < j < s.len() implies !bytes_precede(
                    (#[trigger] s[j])@,
                    (#[trigger] s[i])@,
                ) by {
                    if i == at {
                        assert(sorted@[j] == before[j - 1]);
                        lemma_bytes_order(s[i]@, s[j]@, s[i]@);
                    } else if j == at {
                        assert(s[i] == b[i]);
                        if at > 0 {
                            assert(s[at - 1] == b[at - 1]);
                            lemma_bytes_order(s[at as int]@, b[at - 1]@, b[i]@);
                            lemma_bytes_order(b[i]@, s[at as int]@, b[at - 1]@);
                            lemma_bytes_order(b[at - 1]@, s[at as int]@, b[i]@);
                            lemma_bytes_order(b[at - 1]@, b[i]@, s[at as int]@);
                        }
                    } else {
                        let oi = if i < at {
                            i
                        } else {
                            i - 1
                        };
                        let oj = if j < at {
                            j
                        } else {
                            j - 1
                        };
                        assert(s[i] == b[oi]);
                        assert(s[j] == b[oj]);
                    }
                }
            }
        }
        n += 1;
    }
    proof {
        assert(pairs@.take(n as int) =~= pairs@);
    }
    sorted
}

/// The keys where there are any.
pub open spec fn keys_of(vote_addrs: Option<Vec<VoteAddress>>) -> Option<Seq<VoteAddress>> {
    match vote_addrs {
        Some(v) => Some(v@),
        None => None,
    }
}

/// The validators with their keys; without keys each has the zero key.
pub open spec fn paired(
    validators: Seq<Address>,
    vote_addrs: Option<Seq<VoteAddress>>,
) -> Seq<(Address, VoteAddress)> {
    Seq::new(
        validators.len(),
        |i: int|
            (
                validators[i],
                match vote_addrs {
                    Some(v) => v[i],
                    None => zero_bytes(),
                },
            ),
    )
}

/// `sorted` holds the validators with their keys in ascending order of address.
pub open spec fn sorted_pairs(
    sorted: Seq<(Address, VoteAddress)>,
    validators: Seq<Address>,
    vote_addrs: Option<Seq<VoteAddress>>,
) -> bool {
    &&& sorted.to_multiset() == paired(validators, vote_addrs).to_multiset()
    &&& ascending(addresses(sorted))
}

/// Each validator with its key and its position, counted from one.
pub open spec fn indexed(sorted: Seq<(Address, VoteAddress)>) -> Map<Address, ValidatorInfo>
    decreases sorted.len(),
{
    if sorted.len() == 0 {
        Map::empty()
    } else {
        indexed(sorted.drop_last()).insert(
            sorted.last().0,
            ValidatorInfo { index: sorted.len() as u64, vote_addr: sorted.last().1 },
        )
    }
}

/// The validator set and the votes at a block.
#[derive(Debug)]
pub struct Snapshot {
    /// Number of the block.
    pub block_number: u64,
    /// Hash of the block.
    pub block_hash: B256,
    /// How many blocks an epoch has.
    pub epoch_num: u64,
    /// The validators in ascending order of address.
    pub validators: Vec<Address>,
    /// What is known of each validator.
    pub validators_map: ValidatorsMap,
    /// Who sealed the recent blocks.
    pub recent_proposers: BTreeMap<u64, Address>,
    /// The latest attested vote: its target is the justified block, its source the finalized one.
    pub vote_data: VoteData,
    /// How many blocks in a row a validator seals.
    pub turn_length: Option<u8>,
    /// The time between blocks in milliseconds.
    pub block_interval: u64,
}

/// What a snapshot says.
#[verifier::ext_equal]
pub ghost struct SnapshotView {
    /// Number of the block.
    pub block_number: u64,
    /// Hash of the block.
    pub block_hash: B256,
    /// How many blocks an epoch has.
    pub epoch_num: u64,
    /// The validators.
    pub validators: Seq<Address>,
    /// What is known of each validator.
    pub validators_map: Map<Address, ValidatorInfo>,
    /// Who sealed the recent blocks.
    pub recent_proposers: Map<u64, Address>,
    /// The latest attested vote.
    pub vote_data: VoteData,
    /// How many blocks in a row a validator seals.
    pub turn_length: Option<u8>,
    /// The time between blocks in milliseconds.
    pub block_interval: u64,
}

impl View for Snapshot {
    type V = SnapshotView;

    open spec fn view(&self) -> SnapshotView {
        SnapshotView {
            block_number: self.block_number,
            block_hash: self.block_hash,
            epoch_num: self.epoch_num,
            validators: self.validators@,
            validators_map: self.validators_map@,
            recent_proposers: self.recent_proposers@,
            vote_data: self.vote_data,
            turn_length: self.turn_length,
            block_interval: self.block_interval,
        }
    }
}

/// The view of a snapshot that may be missing.
pub open spec fn opt_view(s: Option<Snapshot>) -> Option<SnapshotView> {
    match s {
        Some(s) => Some(s@),
        None => None,
    }
}

/// The view behind a reference that may be missing.
pub open spec fn snapshot_view(s: Option<&Snapshot>) -> Option<SnapshotView> {
    match s {
        Some(s) => Some(s@),
        None => None,
    }
}

impl SnapshotView {
    /// How many blocks in a row a validator seals.
    pub open spec fn turn(self) -> nat {
        match self.turn_length {
            Some(t) => t as nat,
            None => DEFAULT_TURN_LENGTH as nat,
        }
    }

    /// For how many blocks a validator that has sealed its turn must wait.
    pub open spec fn check_len(self) -> int {
        (self.validators.len() / 2 + 1) * self.turn() - 1
    }

    /// The blocks that a validator sealed within the time for which it may have to wait.
    pub open spec fn recently_sealed(self, validator: Address) -> Set<u64> {
        Set::new(
            |b: u64|
                self.recent_proposers.contains_key(b) && self.recent_proposers[b] == validator && b
                    + self.check_len() > self.block_number,
        )
    }

    /// Whether a validator has sealed its turn lately and must wait.
    pub open spec fn signed_recently(self, validator: Address) -> bool {
        self.recently_sealed(validator).len() >= self.turn()
    }

    /// Nobody has sealed or voted yet, and turns and times are the defaults.
    pub open spec fn untouched(self) -> bool {
        &&& self.recent_proposers == Map::<u64, Address>::empty()
        &&& self.vote_data == (VoteData {
            source_number: 0,
            source_hash: zero_bytes(),
            target_number: 0,
            target_hash: zero_bytes(),
        })
        &&& self.turn_length == Some(DEFAULT_TURN_LENGTH)
        &&& self.block_interval == DEFAULT_BLOCK_INTERVAL
    }

    /// An epoch has blocks, a turn has blocks, and what is computed from them fits in 64 bits.
    pub open spec fn valid(self) -> bool {
        &&& self.epoch_num > 0
        &&& self.turn() > 0
        &&& self.check_len() < u64::MAX
    }
}

impl Clone for Snapshot {
    fn clone(&self) -> (r: Self)
        ensures
            r@ == self@,
    {
        let r = Snapshot {
            block_number: self.block_number,
            block_hash: self.block_hash,
            epoch_num: self.epoch_num,
            validators: self.validators.clone(),
            validators_map: self.validators_map.clone(),
            recent_proposers: self.recent_proposers.clone(),
            vote_data: self.vote_data,
            turn_length: self.turn_length,
            block_interval: self.block_interval,
        };
        proof {
            assert(r.validators@ =~= self.validators@);
        }
        r
    }
}

impl Snapshot {
    /// The snapshot of a block with the given validators, in which nobody has sealed or voted yet.
    /// An epoch of no blocks stands for the default epoch length.
    pub fn new(
        validators: Vec<Address>,
        block_number: u64,
        block_hash: B256,
        epoch_num: u64,
        vote_addrs: Option<Vec<VoteAddress>>,
    ) -> (r: Snapshot)
        requires
            vote_addrs matches Some(v) ==> v@.len() == validators@.len(),
            validators@.len() < u64::MAX,
        ensures
            r.block_number == block_number,
            r.block_hash == block_hash,
            r.epoch_num == if epoch_num == 0 {
                DEFAULT_EPOCH_LENGTH
            } else {
                epoch_num
            },
            exists|sorted: Seq<(Address, VoteAddress)>| #[trigger]
                sorted_pairs(sorted, validators@, keys_of(vote_addrs)) && r.validators@
                    == addresses(sorted) && r.validators_map@ == indexed(sorted),
            r.validators@.len() == validators@.len(),
            r@.untouched(),
            r@.valid(),
    {
        let mut pairs: Vec<(Address, VoteAddress)> = Vec::new();
        let ghost keys = keys_of(vote_addrs);
        let count: usize = validators.len();
        let mut i: usize = 0;
        while i < count
            invariant
                count == validators@.len(),
                i <= count,
                vote_addrs matches Some(v) ==> v@.len() == validators@.len(),
                keys == keys_of(vote_addrs),
                pairs@ == paired(validators@, keys).take(i as int),
            decreases count - i,
        {
            let vote_addr = match &vote_addrs {
                Some(v) => v[i],
                None => VoteAddress::zero(),
            };
            pairs.push((validators[i], vote_addr));
            proof {
                assert(paired(validators@, keys).take(i + 1) =~= paired(validators@, keys).take(
                    i as int,
                ).push((validators@[i as int], vote_addr)));
            }
            i += 1;
        }
        proof {
            assert(pairs@ =~= paired(validators@, keys));
        }
        let sorted = sort_pairs(&pairs);
        let mut sorted_validators: Vec<Address> = Vec::new();
        let mut validators_map = ValidatorsMap::new();
        let mut j: usize = 0;
        while j < sorted.len()
            invariant
                j <= sorted@.len(),
                sorted@.len() < u64::MAX,
                sorted_validators@ == addresses(sorted@).take(j as int),
                validators_map@ == indexed(sorted@.take(j as int)),
            decreases sorted@.len() - j,
        {
            sorted_validators.push(sorted[j].0);
            let index: u64 = j as u64 + 1;
            validators_map.insert(sorted[j].0, ValidatorInfo { index, vote_addr: sorted[j].1 });
            proof {
                assert(addresses(sorted@).take(j + 1) =~= addresses(sorted@).take(j as int).push(
                    sorted@[j as int].0,
                ));
                assert(sorted@.take(j + 1).drop_last() =~= sorted@.take(j as int));
            }
            j += 1;
        }
        proof {
            assert(addresses(sorted@).take(j as int) =~= addresses(sorted@));
            assert(sorted@.take(j as int) =~= sorted@);
            assert(sorted_pairs(sorted@, validators@, keys));
        }
        let r = Snapshot {
            block_number,
            block_hash,
            epoch_num: if epoch_num == 0 {
                DEFAULT_EPOCH_LENGTH
            } else {
                epoch_num
            },
            validators: sorted_validators,
            validators_map,
            recent_proposers: BTreeMap::new(),
            vote_data: VoteData::none(),
            turn_length: Some(DEFAULT_TURN_LENGTH),
            block_interval: DEFAULT_BLOCK_INTERVAL,
        };
        proof {
            assert(r@.turn() == 1);
            assert(r@.check_len() == r.validators@.len() / 2);
        }
        r
    }

    /// For how many blocks a validator that has sealed its turn must wait:
    /// `(validators / 2 + 1) * turn length - 1`.
    pub fn miner_history_check_len(&self) -> (r: u64)
        requires
            self@.valid(),
        ensures
            r == self@.check_len(),
    {
        let turn: u64 = match self.turn_length {
            Some(t) => t as u64,
            None => DEFAULT_TURN_LENGTH as u64,
        };
        let half: u64 = (self.validators.len() / 2) as u64;
        proof {
            assert((half + 1) * turn >= half + 1) by (nonlinear_arith)
                requires
                    turn >= 1,
            ;
        }
        (half + 1) * turn - 1
    }

    /// Whether a validator has sealed its turn lately and must wait: whether it sealed as many of
    /// the last `miner_history_check_len` blocks as a turn has.
    pub fn sign_recently(&self, validator: Address) -> (r: bool)
        requires
            self@.valid(),
        ensures
            r == self@.signed_recently(validator),
    {
        let check_len: u64 = self.miner_history_check_len();
        let entries: usize = self.recent_proposers.len();
        let mut count: usize = 0;
        let ghost mut seen: Set<u64> = Set::empty();
        let ghost recent = self@.recently_sealed(validator);
        for entry in it: self.recent_proposers.iter()
            invariant
                entries == self.recent_proposers@.dom().len(),
                it.seq().len() == entries,
                it.seq().no_duplicates(),
                check_len == self@.check_len(),
                recent == self@.recently_sealed(validator),
                count <= it.index(),
                count == seen.len(),
                seen.finite(),
                forall|b: u64| #[trigger]
                    seen.contains(b) <==> recent.contains(b) && exists|i: int|
                        0 <= i < it.index() && *(#[trigger] it.seq()[i]).0 == b,
        {
            let (block, sealer) = entry;
            let within = match block.checked_add(check_len) {
                Some(end) => end > self.block_number,
                None => true,
            };
            if *sealer == validator && within {
                proof {
                    seen = seen.insert(*block);
                }
                count += 1;
            }
        }
        proof {
            assert(seen =~= recent);
        }
        let turn: usize = match self.turn_length {
            Some(t) => t as usize,
            None => DEFAULT_TURN_LENGTH as usize,
        };
        count >= turn
    }
}

/// The wait after a turn is a whole number of turns less one block, the least number for which
/// more than half of the validators get a turn; a snapshot without a turn length has turns of one
/// block.
pub proof fn law_wait_spans_half_of_the_validators(s: SnapshotView)
    requires
        s.valid(),
    ensures
        s.turn_length is None ==> s.check_len() == s.validators.len() / 2,
        s.turn_length matches Some(t) ==> exists|turns: int|
            s.check_len() + 1 == #[trigger] (turns * t) && 2 * turns > s.validators.len() && 2 * (
            turns - 1) <= s.validators.len(),
{
    if let Some(t) = s.turn_length {
        let turns = (s.validators.len() / 2 + 1) as int;
        assert(s.check_len() + 1 == turns * t);
    } else {
        assert((s.validators.len() / 2 + 1) * 1 == s.validators.len() / 2 + 1);
    }
}

/// With turns of one block a validator must wait exactly as long as one of the blocks that it
/// sealed lies less than half the number of validators behind the snapshot's block.
pub proof fn law_one_recent_block_is_a_turn(s: SnapshotView, validator: Address)
    requires
        s.valid(),
        s.turn_length == Some(1u8),
        s.recent_proposers.dom().finite(),
    ensures
        s.signed_recently(validator) <==> exists|b: u64| #[trigger]
            s.recent_proposers.contains_key(b) && s.recent_proposers[b] == validator && b
                + s.validators.len() / 2 > s.block_number,
{
    let recent = s.recently_sealed(validator);
    assert((s.validators.len() / 2 + 1) * 1 == s.validators.len() / 2 + 1);
    assert(recent.subset_of(s.recent_proposers.dom()));
    vstd::set_lib::lemma_set_subset_finite(s.recent_proposers.dom(), recent);
    if recent.len() >= 1 {
        let b = recent.choose();
        assert(recent.contains(b));
        assert(s.recent_proposers.contains_key(b));
    }
    if exists|b: u64| #[trigger]
        s.recent_proposers.contains_key(b) && s.recent_proposers[b] == validator && b
            + s.validators.len() / 2 > s.block_number {
        let b = choose|b: u64| #[trigger]
            s.recent_proposers.contains_key(b) && s.recent_proposers[b] == validator && b
                + s.validators.len() / 2 > s.block_number;
        assert(recent.contains(b));
        assert(recent.remove(b).len() + 1 == recent.len());
    }
}

/// A validator that sealed fewer blocks than a turn has need not wait, nor one whose blocks have
/// all fallen out of the wait.
pub proof fn law_turn_not_used_up(s: SnapshotView, validator: Address, sealed: Set<u64>)
    requires
        s.valid(),
        sealed.finite(),
        forall|b: u64| #[trigger]
            s.recent_proposers.contains_key(b) && s.recent_proposers[b] == validator ==> (
            sealed.contains(b) || b + s.check_len() <= s.block_number),
        s.turn_length matches Some(t) && sealed.len() < t || s.turn_length is None && sealed.len()
            == 0,
    ensures
        !s.signed_recently(validator),
{
    let recent = s.recently_sealed(validator);
    assert(recent.subset_of(sealed)) by {
        assert forall|b: u64| recent.contains(b) implies sealed.contains(b) by {
            assert(s.recent_proposers.contains_key(b));
        }
    }
    vstd::set_lib::lemma_len_subset(recent, sealed);
}

proof fn lemma_indexed(sorted: Seq<(Address, VoteAddress)>, i: int)
    requires
        0 <= i < sorted.len() <= u64::MAX,
        forall|a: int, b: int|
            0 <= a < b < sorted.len() ==> (#[trigger] sorted[a]).0 != (#[trigger] sorted[b]).0,
    ensures
        indexed(sorted).contains_key(sorted[i].0),
        indexed(sorted)[sorted[i].0].index == i + 1,
        indexed(sorted)[sorted[i].0].vote_addr == sorted[i].1,
    decreases sorted.len(),
{
    let rest = sorted.drop_last();
    if i < rest.len() {
        assert forall|a: int, b: int| 0 <= a < b < rest.len() implies (#[trigger] rest[a]).0 != (
        #[trigger] rest[b]).0 by {
            assert(rest[a] == sorted[a] && rest[b] == sorted[b]);
        }
        lemma_indexed(rest, i);
        assert(rest[i] == sorted[i]);
        assert(sorted[i].0 != sorted[sorted.len() - 1].0);
    }
}

proof fn lemma_indexed_members(sorted: Seq<(Address, VoteAddress)>, a: Address)
    ensures
        indexed(sorted).contains_key(a) ==> exists|i: int|
            0 <= i < sorted.len() && (#[trigger] sorted[i]).0 == a,
    decreases sorted.len(),
{
    if sorted.len() > 0 && indexed(sorted).contains_key(a) {
        let rest = sorted.drop_last();
        if sorted.last().0 == a {
            assert(sorted[sorted.len() - 1].0 == a);
        } else {
            lemma_indexed_members(rest, a);
            let i = choose|i: int| 0 <= i < rest.len() && (#[trigger] rest[i]).0 == a;
            assert(sorted[i].0 == a);
        }
    }
}

/// In a new snapshot each validator, and nobody else, has a place: it stands in the list at its
/// place, counted from one, with the key that was given beside it, or the zero key where no keys
/// were given; and of two validators the one whose address is smaller at the first byte in which
/// they differ comes first.
pub proof fn law_validators_are_numbered_by_address(
    sorted: Seq<(Address, VoteAddress)>,
    validators: Seq<Address>,
    keys: Option<Seq<VoteAddress>>,
    k: int,
    l: int,
    at: int,
    other: Address,
)
    requires
        sorted_pairs(sorted, validators, keys),
        validators.no_duplicates(),
        validators.len() < u64::MAX,
        keys matches Some(v) ==> v.len() == validators.len(),
        0 <= k < validators.len(),
        0 <= l < validators.len(),
        0 <= at < 20,
        validators[k]@.take(at) == validators[l]@.take(at),
        validators[k]@[at] < validators[l]@[at],
    ensures
        indexed(sorted).contains_key(validators[k]),
        indexed(sorted).contains_key(other) <==> validators.contains(other),
        1 <= indexed(sorted)[validators[k]].index <= validators.len(),
        addresses(sorted)[indexed(sorted)[validators[k]].index - 1] == validators[k],
        indexed(sorted)[validators[k]].index < indexed(sorted)[validators[l]].index,
        keys matches Some(v) ==> indexed(sorted)[validators[k]].vote_addr == v[k],
        keys is None ==> indexed(sorted)[validators[k]].vote_addr == zero_bytes::<48>(),
{
    let pairs = paired(validators, keys);
    sorted.to_multiset_ensures();
    pairs.to_multiset_ensures();
    assert(sorted.len() == pairs.len());
    assert forall|x: (Address, VoteAddress)| #[trigger] sorted.contains(x) == pairs.contains(x) by {
        assert(sorted.to_multiset().count(x) == pairs.to_multiset().count(x));
    }
    assert(pairs.no_duplicates()) by {
        assert forall|i: int, j: int| 0 <= i < j < pairs.len() implies pairs[i] != pairs[j] by {
            assert(pairs[i].0 == validators[i] && pairs[j].0 == validators[j]);
        }
    }
    pairs.lemma_multiset_has_no_duplicates();
    sorted.lemma_multiset_has_no_duplicates_conv();
    assert forall|a: int, b: int| 0 <= a < b < sorted.len() implies (#[trigger] sorted[a]).0 != (
    #[trigger] sorted[b]).0 by {
        assert(sorted.contains(sorted[a]) && sorted.contains(sorted[b]));
        assert(pairs.contains(sorted[a]) && pairs.contains(sorted[b]));
        let i = choose|i: int| 0 <= i < pairs.len() && pairs[i] == sorted[a];
        let j = choose|j: int| 0 <= j < pairs.len() && pairs[j] == sorted[b];
        assert(sorted[a] != sorted[b]);
        assert(i != j);
        assert(validators[i] != validators[j]);
    }
    assert(pairs.contains(pairs[k]) && pairs.contains(pairs[l]));
    assert(sorted.contains(pairs[k]));
    assert(sorted.contains(pairs[l]));
    let i = choose|i: int| 0 <= i < sorted.len() && sorted[i] == pairs[k];
    let j = choose|j: int| 0 <= j < sorted.len() && sorted[j] == pairs[l];
    lemma_indexed(sorted, i);
    lemma_indexed(sorted, j);
    lemma_indexed_members(sorted, other);
    if indexed(sorted).contains_key(other) {
        let m = choose|m: int| 0 <= m < sorted.len() && (#[trigger] sorted[m]).0 == other;
        assert(sorted.contains(sorted[m]));
        assert(pairs.contains(sorted[m]));
        let n = choose|n: int| 0 <= n < pairs.len() && pairs[n] == sorted[m];
        assert(validators[n] == other);
    }
    if validators.contains(other) {
        let n = choose|n: int| 0 <= n < validators.len() && validators[n] == other;
        assert(pairs.contains(pairs[n]));
        assert(sorted.contains(pairs[n]));
        let m = choose|m: int| 0 <= m < sorted.len() && sorted[m] == pairs[n];
        lemma_indexed(sorted, m);
    }
    assert(bytes_precede(validators[k]@, validators[l]@));
    let s = addresses(sorted);
    assert(s[i] == validators[k] && s[j] == validators[l]);
    if j < i {
        assert(!bytes_precede(s[i]@, s[j]@));
    }
    assert(i != j);
}

} // verus!
