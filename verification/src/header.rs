//! Block headers.

use crate::primitives::zero_bytes;
use crate::primitives::Address;
use crate::primitives::FixedBytes;
use crate::primitives::B256;
use crate::primitives::U256;
use crate::rlp;
use crate::rlp::keccak;
use crate::rlp::RlpError;
use vstd::prelude::*;

verus! {

/// A block header: the fields that the rules of the node read, and the encoding of the whole.
#[derive(Debug)]
pub struct Header {
    /// Hash of the parent's header.
    pub parent_hash: B256,
    /// The validator that sealed the block.
    pub beneficiary: Address,
    /// Difficulty of the block.
    pub difficulty: U256,
    /// Number of the block.
    pub number: u64,
    /// How much gas the block may use.
    pub gas_limit: u64,
    /// How much gas the block uses.
    pub gas_used: u64,
    /// When the block was made, in seconds.
    pub timestamp: u64,
    /// Base fee, from the fork that has one on.
    pub base_fee_per_gas: Option<u64>,
    /// Excess blob gas, from the fork that has blobs on.
    pub excess_blob_gas: Option<u64>,
    /// Root of the parent beacon block.
    pub parent_beacon_block_root: Option<B256>,
    /// What the sealer adds: vanity, validators, attestation and seal.
    pub extra_data: Vec<u8>,
    /// The encoding of the header with all its fields.
    pub encoded: Vec<u8>,
}

/// What a header says.
#[verifier::ext_equal]
pub ghost struct HeaderView {
    /// Hash of the parent's header.
    pub parent_hash: B256,
    /// The validator that sealed the block.
    pub beneficiary: Address,
    /// Difficulty of the block.
    pub difficulty: U256,
    /// Number of the block.
    pub number: u64,
    /// How much gas the block may use.
    pub gas_limit: u64,
    /// How much gas the block uses.
    pub gas_used: u64,
    /// When the block was made, in seconds.
    pub timestamp: u64,
    /// Base fee.
    pub base_fee_per_gas: Option<u64>,
    /// Excess blob gas.
    pub excess_blob_gas: Option<u64>,
    /// Root of the parent beacon block.
    pub parent_beacon_block_root: Option<B256>,
    /// What the sealer adds.
    pub extra_data: Seq<u8>,
    /// The encoding of the header.
    pub encoded: Seq<u8>,
}

impl View for Header {
    type V = HeaderView;

    open spec fn view(&self) -> HeaderView {
        HeaderView {
            parent_hash: self.parent_hash,
            beneficiary: self.beneficiary,
            difficulty: self.difficulty,
            number: self.number,
            gas_limit: self.gas_limit,
            gas_used: self.gas_used,
            timestamp: self.timestamp,
            base_fee_per_gas: self.base_fee_per_gas,
            excess_blob_gas: self.excess_blob_gas,
            parent_beacon_block_root: self.parent_beacon_block_root,
            extra_data: self.extra_data@,
            encoded: self.encoded@,
        }
    }
}

/// What `alloy_consensus::Header::decode` reads at the start of the bytes: the header and how many
/// bytes it takes, or why there is none.
pub uninterp spec fn header_decoded(bytes: Seq<u8>) -> Result<(HeaderView, nat), alloy_rlp::Error>;

/// Whether a header is read back from its encoding as it is, whatever follows it.
pub open spec fn header_travels(header: HeaderView) -> bool {
    &&& header.encoded.len() >= 1
    &&& forall|tail: Seq<u8>| #[trigger]
        header_decoded(header.encoded + tail) == Ok::<(HeaderView, nat), alloy_rlp::Error>(
            (header, header.encoded.len()),
        )
}

/// `alloy_consensus::Header::decode`: reads a header, which takes at least one byte, and says how
/// many bytes are left behind it. What it reads depends on the bytes alone and is only named: the
/// fields that the rules read, and the encoding of the header that was read. From that encoding the
/// same header is read again, whatever follows it.
#[verifier::external_body]
fn decode_alloy_header(bytes: &[u8]) -> (r: Result<(Header, usize), alloy_rlp::Error>)
    ensures
        match r {
            Ok((h, left)) => left < bytes@.len() && header_decoded(bytes@) == Ok::<
                (HeaderView, nat),
                alloy_rlp::Error,
            >((h@, (bytes@.len() - left) as nat)) && header_travels(h@),
            Err(e) => header_decoded(bytes@) == Err::<(HeaderView, nat), alloy_rlp::Error>(e),
        },
{
    let mut rest = bytes;
    let h: alloy_consensus::Header = alloy_rlp::Decodable::decode(&mut rest)?;
    let [limb0, limb1, limb2, limb3] = h.difficulty.into_limbs();
    Ok((Header {
        encoded: alloy_rlp::encode(&h), parent_hash: FixedBytes { bytes: h.parent_hash.0 }, number: h.number,
        beneficiary: FixedBytes { bytes: h.beneficiary.0.0 }, difficulty: U256 { limb0, limb1, limb2, limb3 },
        gas_limit: h.gas_limit, gas_used: h.gas_used, timestamp: h.timestamp, extra_data: h.extra_data.to_vec(),
        base_fee_per_gas: h.base_fee_per_gas, excess_blob_gas: h.excess_blob_gas,
        parent_beacon_block_root: h.parent_beacon_block_root.map(|b| FixedBytes { bytes: b.0 }),
    }, rest.len()))
}

impl Header {
    /// The hash by which the block is known.
    pub open spec fn digest(&self) -> Seq<u8> {
        keccak(self.encoded@)
    }

    /// The hash by which the block is known: that of the header's encoding.
    pub fn hash_slow(&self) -> (r: B256)
        ensures
            r@ == self.digest(),
    {
        rlp::keccak256(self.encoded.as_slice())
    }

    /// Reads the header at the start of the bytes, and says how many of them it takes. A header that
    /// was read is read again from its encoding.
    pub fn decode(bytes: &[u8]) -> (r: Result<(Header, usize), RlpError>)
        ensures
            match r {
                Ok((h, n)) => header_decoded(bytes@) == Ok::<(HeaderView, nat), alloy_rlp::Error>(
                    (h@, n as nat),
                ) && 1 <= n <= bytes@.len() && header_travels(h@),
                Err(e) => e is Codec && header_decoded(bytes@) == Err::<
                    (HeaderView, nat),
                    alloy_rlp::Error,
                >(e->Codec_0),
            },
    {
        match decode_alloy_header(bytes) {
            Ok((header, left)) => Ok((header, bytes.len() - left)),
            Err(e) => Err(RlpError::Codec(e)),
        }
    }
}

/// The encoding of a header that says nothing: of a block without a parent, without ommers and
/// without transactions.
pub open spec fn default_header_encoding() -> Seq<u8> {
    let zeros = |n: nat| rlp::rlp_string(Seq::new(n, |i: int| 0u8));
    let no_list = rlp::rlp_string(keccak(rlp::rlp_list(Seq::empty())));
    let no_trie = rlp::rlp_string(keccak(rlp::rlp_string(Seq::empty())));
    let parts = zeros(32) + no_list + zeros(20) + no_trie + no_trie + no_trie + zeros(256);
    let numbers = rlp::rlp_u64(0) + rlp::rlp_u64(0) + rlp::rlp_u64(0) + rlp::rlp_u64(0)
        + rlp::rlp_u64(0);
    rlp::rlp_list(parts + numbers + zeros(0) + zeros(32) + zeros(8))
}

/// Whether this is the header that says nothing.
pub open spec fn is_default_header(h: HeaderView) -> bool {
    &&& h.difficulty.value() == 0
    &&& h == (HeaderView {
        parent_hash: zero_bytes(),
        beneficiary: zero_bytes(),
        difficulty: h.difficulty,
        number: 0,
        gas_limit: 0,
        gas_used: 0,
        timestamp: 0,
        base_fee_per_gas: None,
        excess_blob_gas: None,
        parent_beacon_block_root: None,
        extra_data: Seq::empty(),
        encoded: default_header_encoding(),
    })
}

/// `alloy_consensus::Header`'s `Default`, in its encoding: all its fields are zero or missing, but
/// for the hash of an empty list of ommers and the roots of three empty tries.
#[verifier::external_body]
fn default_header_bytes() -> (r: Vec<u8>)
    ensures
        r@ == default_header_encoding(),
{
    alloy_rlp::encode(alloy_consensus::Header::default())
}

impl Default for Header {
    fn default() -> (r: Header)
        ensures
            is_default_header(r@),
    {
        Header {
            parent_hash: B256::zero(),
            beneficiary: Address::zero(),
            difficulty: U256::zero(),
            number: 0,
            gas_limit: 0,
            gas_used: 0,
            timestamp: 0,
            base_fee_per_gas: None,
            excess_blob_gas: None,
            parent_beacon_block_root: None,
            extra_data: Vec::new(),
            encoded: default_header_bytes(),
        }
    }
}

impl Clone for Header {
    fn clone(&self) -> (r: Header)
        ensures
            r@ == self@,
    {
        let r = Header {
            parent_hash: self.parent_hash,
            beneficiary: self.beneficiary,
            difficulty: self.difficulty,
            number: self.number,
            gas_limit: self.gas_limit,
            gas_used: self.gas_used,
            timestamp: self.timestamp,
            base_fee_per_gas: self.base_fee_per_gas,
            excess_blob_gas: self.excess_blob_gas,
            parent_beacon_block_root: self.parent_beacon_block_root,
            extra_data: self.extra_data.clone(),
            encoded: self.encoded.clone(),
        };
        proof {
            assert(r.extra_data@ =~= self.extra_data@);
            assert(r.encoded@ =~= self.encoded@);
        }
        r
    }
}

} // verus!
