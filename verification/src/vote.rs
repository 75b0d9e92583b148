//! The votes by which validators justify and finalize blocks.

use crate::primitives::B256;
use crate::primitives::zero_bytes;
use crate::primitives::VoteAddress;
use crate::primitives::VoteSignature;
use crate::rlp;
use crate::rlp::keccak;
use crate::rlp::rlp_list;
use crate::rlp::rlp_string;
use crate::rlp::rlp_u64;
use vstd::prelude::*;

verus! {

/// The range that a vote speaks of: from a justified source block to a target block.
#[derive(Clone, Copy, Debug)]
pub struct VoteData {
    /// Number of the source block.
    pub source_number: u64,
    /// Hash of the source block.
    pub source_hash: B256,
    /// Number of the target block.
    pub target_number: u64,
    /// Hash of the target block.
    pub target_hash: B256,
}

/// A vote with the key of the validator who cast it and its signature.
#[derive(Clone, Copy, Debug)]
pub struct VoteEnvelope {
    /// The BLS public key of the validator.
    pub vote_address: VoteAddress,
    /// The signature over the data.
    pub signature: VoteSignature,
    /// What the vote says.
    pub data: VoteData,
}

/// The votes of many validators for the same data, under one signature.
#[derive(Debug)]
pub struct VoteAttestation {
    /// Which validators voted, as a bit set by index.
    pub vote_address_set: u64,
    /// The aggregated signature.
    pub agg_signature: VoteSignature,
    /// What the votes say.
    pub data: VoteData,
    /// Reserved.
    pub extra: Vec<u8>,
}

impl VoteData {
    /// The encoding of the vote's data: the list of its four fields.
    pub open spec fn rlp(self) -> Seq<u8> {
        rlp_list(
            rlp_u64(self.source_number) + rlp_string(self.source_hash@) + rlp_u64(
                self.target_number,
            ) + rlp_string(self.target_hash@),
        )
    }

    /// The hash of the encoding.
    pub open spec fn digest(self) -> Seq<u8> {
        keccak(self.rlp())
    }

    /// Source and target zero.
    pub fn none() -> (r: VoteData)
        ensures
            r.source_number == 0,
            r.target_number == 0,
            r.source_hash == zero_bytes::<32>(),
            r.target_hash == zero_bytes::<32>(),
    {
        VoteData {
            source_number: 0,
            source_hash: B256::zero(),
            target_number: 0,
            target_hash: B256::zero(),
        }
    }

    /// Appends the encoding of the vote's data.
    pub fn encode(&self, out: &mut Vec<u8>)
        ensures
            final(out)@ == old(out)@ + self.rlp(),
    {
        let mut payload: Vec<u8> = Vec::new();
        rlp::put_u64(&mut payload, self.source_number);
        rlp::put_string(&mut payload, &self.source_hash.bytes);
        rlp::put_u64(&mut payload, self.target_number);
        rlp::put_string(&mut payload, &self.target_hash.bytes);
        proof {
            assert(payload@ =~= rlp_u64(self.source_number) + rlp_string(self.source_hash@)
                + rlp_u64(self.target_number) + rlp_string(self.target_hash@));
        }
        rlp::put_list(out, payload.as_slice());
    }

    /// The hash of the vote's data.
    pub fn hash(&self) -> (r: B256)
        ensures
            r@ == self.digest(),
    {
        let mut out: Vec<u8> = Vec::new();
        self.encode(&mut out);
        proof {
            assert(out@ =~= self.rlp());
        }
        rlp::keccak256(out.as_slice())
    }
}

impl VoteEnvelope {
    /// The encoding of the vote: the list of its key, its signature and its data.
    pub open spec fn rlp(self) -> Seq<u8> {
        rlp_list(
            rlp_string(self.vote_address@) + rlp_string(self.signature@) + self.data.rlp(),
        )
    }

    /// The hash of the encoding.
    pub open spec fn digest(self) -> Seq<u8> {
        keccak(self.rlp())
    }

    /// The hash by which the vote is known.
    pub fn hash(&self) -> (r: B256)
        ensures
            r@ == self.digest(),
    {
        let mut payload: Vec<u8> = Vec::new();
        rlp::put_string(&mut payload, &self.vote_address.bytes);
        rlp::put_string(&mut payload, &self.signature.bytes);
        self.data.encode(&mut payload);
        let mut out: Vec<u8> = Vec::new();
        proof {
            assert(payload@ =~= rlp_string(self.vote_address@) + rlp_string(self.signature@)
                + self.data.rlp());
        }
        rlp::put_list(&mut out, payload.as_slice());
        proof {
            assert(out@ =~= self.rlp());
        }
        rlp::keccak256(out.as_slice())
    }
}

/// A vote's data is read back from its encoding: it is a list of the number and the hash of the
/// source and of the number and the hash of the target, in this order, and of nothing else.
pub proof fn law_vote_data_is_read_back(data: VoteData, tail: Seq<u8>)
    ensures
        ({
            let (p, h) = rlp::list_field(data.rlp() + tail)->Ok_0;
            let b1 = (data.rlp() + tail).skip(h as int);
            let (source_number, n1) = rlp::u64_field(b1)->Ok_0;
            let b2 = b1.skip(n1 as int);
            let (source_hash, n2) = rlp::b256_field(b2)->Ok_0;
            let b3 = b2.skip(n2 as int);
            let (target_number, n3) = rlp::u64_field(b3)->Ok_0;
            let b4 = b3.skip(n3 as int);
            let (target_hash, n4) = rlp::b256_field(b4)->Ok_0;
            &&& rlp::list_field(data.rlp() + tail) is Ok
            &&& rlp::u64_field(b1) is Ok && source_number == data.source_number
            &&& rlp::b256_field(b2) is Ok && source_hash == data.source_hash@
            &&& rlp::u64_field(b3) is Ok && target_number == data.target_number
            &&& rlp::b256_field(b4) is Ok && target_hash == data.target_hash@
            &&& n1 + n2 + n3 + n4 == p
            &&& b4.skip(n4 as int) == tail
        }),
{
    let (s, t) = (rlp_u64(data.source_number), rlp_u64(data.target_number));
    let (sh, th) = (rlp_string(data.source_hash@), rlp_string(data.target_hash@));
    let payload = s + sh + t + th;
    rlp::lemma_number_length(data.source_number);
    rlp::lemma_number_length(data.target_number);
    rlp::lemma_b256_roundtrip(data.target_hash@, tail);
    rlp::lemma_u64_roundtrip(data.target_number, th + tail);
    rlp::lemma_b256_roundtrip(data.source_hash@, t + (th + tail));
    rlp::lemma_u64_roundtrip(data.source_number, sh + (t + (th + tail)));
    rlp::lemma_list_roundtrip(payload, tail);
    assert(payload + tail =~= s + (sh + (t + (th + tail))));
}

/// Votes that say different things have different encodings.
pub proof fn law_different_vote_data_is_written_differently(a: VoteData, b: VoteData)
    requires
        a.rlp() == b.rlp(),
    ensures
        a.source_number == b.source_number,
        a.source_hash@ == b.source_hash@,
        a.target_number == b.target_number,
        a.target_hash@ == b.target_hash@,
{
    law_vote_data_is_read_back(a, Seq::empty());
    law_vote_data_is_read_back(b, Seq::empty());
}

} // verus!
