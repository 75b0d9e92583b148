//! Rules of the bridge precompiles: no validator identity and no signer key may occur twice.

use crate::primitives::bytes_equal;
use crate::primitives::to_vec;
use crate::recency::recall;
use crate::rlp::be_value;
use crate::text::decimal;
use crate::text::decimal_text;
use crate::text::hex_encode;
use crate::text::hex_text;
use vstd::prelude::*;

verus! {

/// Why a precompile halts.
#[derive(Debug)]
pub enum PrecompileHalt {
    /// For the reason that the text gives.
    Other(String),
}

/// What can go wrong in the precompiles of this chain.
#[derive(Clone, Copy, Debug, PartialEq, Eq, Structural)]
pub enum BscPrecompileError {
    /// The input of the light block validation is invalid.
    InvalidInput,
    /// The light block could not be applied.
    CometBftApplyBlockFailed,
    /// The consensus state could not be encoded.
    CometBftEncodeConsensusStateFailed,
    /// The evidence of a double signature is invalid.
    DoubleSignInvalidEvidence,
}

impl BscPrecompileError {
    /// The text that the precompile halts with.
    pub open spec fn text(self) -> Seq<char> {
        match self {
            BscPrecompileError::InvalidInput => "invalid input"@,
            BscPrecompileError::CometBftApplyBlockFailed => "apply block failed"@,
            BscPrecompileError::CometBftEncodeConsensusStateFailed =>
                "encode consensus state failed"@,
            BscPrecompileError::DoubleSignInvalidEvidence => "double sign invalid evidence"@,
        }
    }

    /// The halt that the error leads to.
    pub fn into_halt(self) -> (r: PrecompileHalt)
        ensures
            r matches PrecompileHalt::Other(msg) && msg@ == self.text(),
    {
        let text = match self {
            BscPrecompileError::InvalidInput => "invalid input",
            BscPrecompileError::CometBftApplyBlockFailed => "apply block failed",
            BscPrecompileError::CometBftEncodeConsensusStateFailed =>
                "encode consensus state failed",
            BscPrecompileError::DoubleSignInvalidEvidence => "double sign invalid evidence",
        };
        let mut msg = String::new();
        msg.append(text);
        proof {
            assert(msg@ =~= self.text());
        }
        PrecompileHalt::Other(msg)
    }
}

/// Bytes, and all of them zero. No bytes are no value rather than a zero value.
pub open spec fn zero_value(value: Seq<u8>) -> bool {
    value.len() > 0 && forall|i: int| 0 <= i < value.len() ==> #[trigger] value[i] == 0
}

/// Whether there are bytes and all of them are zero.
pub fn is_zero_bytes(value: &[u8]) -> (r: bool)
    ensures
        r == zero_value(value@),
{
    if value.len() == 0 {
        return false;
    }
    let mut i: usize = 0;
    while i < value.len()
        invariant
            i <= value@.len(),
            forall|j: int| 0 <= j < i ==> #[trigger] value@[j] == 0,
        decreases value@.len() - i,
    {
        if value[i] != 0 {
            return false;
        }
        i += 1;
    }
    true
}

/// The text of the halt on the same value at two places.
pub open spec fn duplicate_text(
    field: Seq<char>,
    first: usize,
    idx: usize,
    value: Seq<u8>,
) -> Seq<char> {
    "duplicate "@ + field + " #"@ + decimal_text(first as nat) + " and #"@ + decimal_text(
        idx as nat,
    ) + ": "@ + hex_text(value)
}

/// Remembers the values of one field of the validators, and where each was seen first.
pub struct DuplicateTracker {
    field: &'static str,
    seen: Vec<(Vec<u8>, usize)>,
    ignore_zero: bool,
}

/// Whether a value counts as not set: where zero is ignored, no bytes or zero bytes.
pub open spec fn unset(ignore_zero: bool, value: Seq<u8>) -> bool {
    ignore_zero && (value.len() == 0 || zero_value(value))
}

proof fn lemma_recall_push(s: Seq<(Seq<u8>, usize)>, e: (Seq<u8>, usize), k: Seq<u8>)
    ensures
        recall(s.push(e), k) == match recall(s, k) {
            Some(v) => Some(v),
            None => if e.0 == k {
                Some(e.1)
            } else {
                None
            },
        },
    decreases s.len(),
{
    if s.len() == 0 {
        assert(s.push(e).drop_first() =~= Seq::<(Seq<u8>, usize)>::empty());
        assert(recall(Seq::<(Seq<u8>, usize)>::empty(), k) is None);
    } else {
        assert(s.push(e).drop_first() =~= s.drop_first().push(e));
        lemma_recall_push(s.drop_first(), e, k);
    }
}

impl DuplicateTracker {
    /// The values in the order in which they were seen, each with its place.
    pub closed spec fn view(&self) -> Seq<(Seq<u8>, usize)> {
        Seq::new(self.seen@.len(), |i: int| (self.seen@[i].0@, self.seen@[i].1))
    }

    /// What the field is called.
    pub closed spec fn name(&self) -> Seq<char> {
        self.field@
    }

    /// Whether values that are not set may occur more than once.
    pub closed spec fn ignores_zero(&self) -> bool {
        self.ignore_zero
    }

    /// No value was seen yet; room is made for `size` of them.
    pub fn new(field: &'static str, size: usize, ignore_zero: bool) -> (r: Self)
        ensures
            r@ == Seq::<(Seq<u8>, usize)>::empty(),
            r.name() == field@,
            r.ignores_zero() == ignore_zero,
    {
        let r = DuplicateTracker { field, seen: Vec::with_capacity(size), ignore_zero };
        proof {
            assert(r@ =~= Seq::<(Seq<u8>, usize)>::empty());
        }
        r
    }

    /// Remembers the value at place `idx`; the halt names the place where it was seen before.
    pub fn check(&mut self, idx: usize, value: &[u8]) -> (r: Result<(), PrecompileHalt>)
        ensures
            final(self).name() == old(self).name(),
            final(self).ignores_zero() == old(self).ignores_zero(),
            if unset(old(self).ignores_zero(), value@) {
                r is Ok && final(self)@ == old(self)@
            } else {
                match recall(old(self)@, value@) {
                    Some(first) => {
                        &&& r matches Err(PrecompileHalt::Other(msg))
                        &&& msg@ == duplicate_text(old(self).name(), first, idx, value@)
                        &&& final(self)@ == old(self)@
                    },
                    None => r is Ok && final(self)@ == old(self)@.push((value@, idx)),
                }
            },
            r is Err ==> recall(old(self)@, value@) is Some,
    {
        if self.ignore_zero && (value.len() == 0 || is_zero_bytes(value)) {
            return Ok(());
        }
        let mut i: usize = 0;
        proof {
            assert(self@.skip(0) =~= self@);
        }
        while i < self.seen.len()
            invariant
                *self == *old(self),
                !unset(self.ignores_zero(), value@),
                i <= self.seen@.len(),
                recall(self@, value@) == recall(self@.skip(i as int), value@),
            decreases self.seen@.len() - i,
        {
            proof {
                assert(self@.skip(i as int).drop_first() =~= self@.skip(i + 1));
                assert(self@.skip(i as int)[0] == self@[i as int]);
            }
            if bytes_equal(self.seen[i].0.as_slice(), value) {
                let first_idx: usize = self.seen[i].1;
                proof {
                    assert(self@.skip(i as int)[0] == (value@, first_idx));
                    assert(recall(self@, value@) == Some(first_idx));
                }
                return Err(PrecompileHalt::Other(self.describe(first_idx, idx, value)));
            }
            i += 1;
        }
        self.seen.push((to_vec(value), idx));
        proof {
            assert(self@ =~= old(self)@.push((value@, idx)));
        }
        Ok(())
    }

    fn describe(&self, first_idx: usize, idx: usize, value: &[u8]) -> (r: String)
        ensures
            r@ == duplicate_text(self.name(), first_idx, idx, value@),
    {
        let mut msg = String::new();
        msg.append("duplicate ");
        msg.append(self.field);
        msg.append(" #");
        msg.append(decimal(first_idx as u64).as_str());
        msg.append(" and #");
        msg.append(decimal(idx as u64).as_str());
        msg.append(": ");
        msg.append(hex_encode(value).as_str());
        proof {
            assert(msg@ =~= duplicate_text(self.name(), first_idx, idx, value@));
        }
        msg
    }
}

/// A value that was accepted is found again at its place, and what was found before still is.
pub proof fn law_accepted_value_is_remembered(
    seen: Seq<(Seq<u8>, usize)>,
    value: Seq<u8>,
    idx: usize,
    other: Seq<u8>,
)
    requires
        recall(seen, value) is None,
    ensures
        recall(seen.push((value, idx)), value) == Some(idx),
        other != value ==> recall(seen.push((value, idx)), other) == recall(seen, other),
{
    lemma_recall_push(seen, (value, idx), value);
    lemma_recall_push(seen, (value, idx), other);
}

/// A value is zero where it has bytes and none of them says anything: one byte that is not zero
/// makes it a value, wherever it stands, and no bytes are none. Only where zero is ignored does it
/// count as not set.
pub proof fn law_zero_values_have_bytes(value: Seq<u8>, i: int)
    ensures
        !zero_value(Seq::<u8>::empty()),
        0 <= i < value.len() && value[i] != 0 ==> !zero_value(value) && !unset(true, value),
        zero_value(value) ==> value.len() > 0 && be_value(value) == 0,
        unset(true, Seq::<u8>::empty()),
        zero_value(value) ==> unset(true, value),
        !unset(false, value),
{
    if zero_value(value) {
        lemma_zero_value(value);
    }
}

proof fn lemma_zero_value(value: Seq<u8>)
    requires
        forall|i: int| 0 <= i < value.len() ==> #[trigger] value[i] == 0,
    ensures
        be_value(value) == 0,
    decreases value.len(),
{
    if value.len() > 0 {
        lemma_zero_value(value.drop_last());
    }
}

} // verus!
