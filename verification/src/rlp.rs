//! Recursive length prefix, the byte encoding of the chain's messages, and the hash taken of it.

use crate::primitives::B256;
use crate::primitives::FixedBytes;
use vstd::prelude::*;

verus! {

/// `alloy_rlp`'s error: why bytes are not an encoding.
#[verifier::external_type_specification]
#[verifier::external_body]
pub struct ExRlpCodecError(alloy_rlp::Error);

/// Why a message could not be decoded.
#[derive(Debug)]
pub enum RlpError {
    /// The codec refused the bytes.
    Codec(alloy_rlp::Error),
    /// There are no bytes.
    InputTooShort,
    /// A list was expected where a string stands.
    UnexpectedString,
    /// The fields of a list take more or fewer bytes than the list says.
    ListLengthMismatch {
        /// The bytes that the list says it holds.
        expected: usize,
        /// The bytes that its fields take.
        got: usize,
    },
    /// A rule of the message was broken.
    Custom(&'static str),
}

/// The big-endian bytes of `n`, without leading zeros; none for zero.
pub open spec fn be_bytes(n: nat) -> Seq<u8>
    decreases n,
{
    if n == 0 {
        seq![]
    } else {
        be_bytes(n / 256).push((n % 256) as u8)
    }
}

/// The number that big-endian bytes stand for.
pub open spec fn be_value(b: Seq<u8>) -> nat
    decreases b.len(),
{
    if b.len() == 0 {
        0
    } else {
        be_value(b.drop_last()) * 256 + b.last() as nat
    }
}

/// The bytes in front of a payload of `len` bytes.
#[verifier::opaque]
pub open spec fn rlp_header(list: bool, len: nat) -> Seq<u8> {
    let base: int = if list {
        0xC0
    } else {
        0x80
    };
    if len < 56 {
        seq![(base + len) as u8]
    } else {
        seq![(base + 55 + be_bytes(len).len()) as u8] + be_bytes(len)
    }
}

/// The encoding of a byte string.
#[verifier::opaque]
pub open spec fn rlp_string(b: Seq<u8>) -> Seq<u8> {
    if b.len() == 1 && b[0] < 0x80 {
        b
    } else {
        rlp_header(false, b.len()) + b
    }
}

/// The encoding of a list whose items take up `payload`.
pub open spec fn rlp_list(payload: Seq<u8>) -> Seq<u8> {
    rlp_header(true, payload.len()) + payload
}

/// The encoding of a number.
pub open spec fn rlp_u64(n: u64) -> Seq<u8> {
    rlp_string(be_bytes(n as nat))
}

/// The hash that `keccak256` takes of the bytes.
pub uninterp spec fn keccak(bytes: Seq<u8>) -> Seq<u8>;

/// `alloy_primitives::keccak256`: the Keccak-256 hash of the bytes, which depends on them alone.
#[verifier::external_body]
pub(crate) fn keccak256(bytes: &[u8]) -> (r: B256)
    ensures
        r@ == keccak(bytes@),
{
    FixedBytes { bytes: alloy_primitives::keccak256(bytes).0 }
}

/// `alloy_rlp::Encodable::encode` of `u64`: appends the encoding of the number.
#[verifier::external_body]
pub(crate) fn put_u64(out: &mut Vec<u8>, n: u64)
    ensures
        final(out)@ == old(out)@ + rlp_u64(n),
{
    alloy_rlp::Encodable::encode(&n, out)
}

/// `alloy_rlp::Encodable::encode` of `[u8]`: appends the encoding of the byte string.
#[verifier::external_body]
pub(crate) fn put_string(out: &mut Vec<u8>, b: &[u8])
    ensures
        final(out)@ == old(out)@ + rlp_string(b@),
{
    alloy_rlp::Encodable::encode(b, out)
}

/// `alloy_rlp::Header::encode`: appends what stands in front of a payload of that length.
#[verifier::external_body]
pub(crate) fn put_header(out: &mut Vec<u8>, list: bool, payload_length: usize)
    ensures
        final(out)@ == old(out)@ + rlp_header(list, payload_length as nat),
{
    alloy_rlp::Header { list, payload_length }.encode(out)
}

/// Appends bytes as they are.
pub(crate) fn put_raw(out: &mut Vec<u8>, b: &[u8])
    ensures
        final(out)@ == old(out)@ + b@,
{
    let mut i: usize = 0;
    while i < b.len()
        invariant
            i <= b.len(),
            out@ == old(out)@ + b@.take(i as int),
        decreases b.len() - i,
    {
        out.push(b[i]);
        proof {
            assert(b@.take(i + 1) =~= b@.take(i as int).push(b@[i as int]));
        }
        i += 1;
    }
    proof {
        assert(b@.take(i as int) =~= b@);
    }
}

/// Appends the list whose items take up `payload`.
pub(crate) fn put_list(out: &mut Vec<u8>, payload: &[u8])
    ensures
        final(out)@ == old(out)@ + rlp_list(payload@),
{
    put_header(out, true, payload.len());
    put_raw(out, payload);
    proof {
        assert(out@ =~= old(out)@ + rlp_list(payload@));
    }
}

/// The header at the start of the bytes: whether a list follows, how many bytes its payload has and
/// how many the header itself. There is none where the bytes are no canonical encoding or the
/// payload is not there.
#[verifier::opaque]
pub open spec fn header_at(b: Seq<u8>) -> Option<(bool, nat, nat)> {
    if b.len() == 0 {
        None
    } else if b[0] < 0x80 {
        Some((false, 1, 0))
    } else if b[0] < 0xB8 {
        let p = (b[0] - 0x80) as nat;
        if 1 + p > b.len() || (p == 1 && b[1] < 0x80) {
            None
        } else {
            Some((false, p, 1))
        }
    } else if b[0] >= 0xC0 && b[0] < 0xF8 {
        let p = (b[0] - 0xC0) as nat;
        if 1 + p > b.len() {
            None
        } else {
            Some((true, p, 1))
        }
    } else {
        let list = b[0] >= 0xF8;
        let n = if list {
            (b[0] - 0xF7) as nat
        } else {
            (b[0] - 0xB7) as nat
        };
        let p = be_value(b.subrange(1, 1 + n as int));
        if 1 + n > b.len() || b[1] == 0 || p < 56 || 1 + n + p > b.len() {
            None
        } else {
            Some((list, p, 1 + n))
        }
    }
}

/// The number at the start of the bytes, and how many bytes it takes.
#[verifier::opaque]
pub open spec fn u64_at(b: Seq<u8>) -> Option<(u64, nat)> {
    match header_at(b) {
        Some((false, p, h)) => if p <= 8 && (p > 0 ==> b[h as int] != 0) {
            Some((be_value(b.subrange(h as int, (h + p) as int)) as u64, h + p))
        } else {
            None
        },
        _ => None,
    }
}

/// The 32 bytes of the string at the start of the bytes, and how many bytes it takes.
#[verifier::opaque]
pub open spec fn b256_at(b: Seq<u8>) -> Option<(Seq<u8>, nat)> {
    match header_at(b) {
        Some((false, p, h)) => if p == 32 {
            Some((b.subrange(h as int, (h + p) as int), h + p))
        } else {
            None
        },
        _ => None,
    }
}

/// Why `alloy_rlp::Header::decode` finds no header at the start of the bytes.
pub uninterp spec fn header_error(b: Seq<u8>) -> alloy_rlp::Error;

/// Why `u64::decode` finds no number at the start of the bytes.
pub uninterp spec fn u64_error(b: Seq<u8>) -> alloy_rlp::Error;

/// Why `<[u8; 32]>::decode` finds no string of that length at the start of the bytes.
pub uninterp spec fn b256_error(b: Seq<u8>) -> alloy_rlp::Error;

/// What stands at the start of an item.
#[derive(Clone, Copy, Debug)]
pub(crate) struct ItemHeader {
    /// Whether the item is a list.
    pub(crate) list: bool,
    /// How many bytes its payload has.
    pub(crate) payload_length: usize,
    /// How many bytes are left from the payload on.
    pub(crate) left: usize,
}

/// `alloy_rlp::Header::decode`: the header at the start of the bytes. Where there is one its
/// payload is there too; which error comes where there is none is only named.
#[verifier::external_body]
pub(crate) fn decode_header(b: &[u8]) -> (r: Result<ItemHeader, alloy_rlp::Error>)
    ensures
        match header_at(b@) {
            Some((list, p, h)) => r matches Ok(x) && x.list == list && x.payload_length == p
                && x.left == b@.len() - h,
            None => r == Err::<ItemHeader, alloy_rlp::Error>(header_error(b@)),
        },
{
    let mut rest = b;
    let h = alloy_rlp::Header::decode(&mut rest)?;
    Ok(ItemHeader { list: h.list, payload_length: h.payload_length, left: rest.len() })
}

/// `u64::decode` of `alloy_rlp::Decodable`: the number at the start of the bytes, and how many
/// bytes are left behind it; which error comes where there is none is only named.
#[verifier::external_body]
pub(crate) fn decode_u64(b: &[u8]) -> (r: Result<(u64, usize), alloy_rlp::Error>)
    ensures
        match u64_at(b@) {
            Some((n, len)) => r matches Ok((x, left)) && x == n && left == b@.len() - len,
            None => r == Err::<(u64, usize), alloy_rlp::Error>(u64_error(b@)),
        },
{
    let mut rest = b;
    let n = <u64 as alloy_rlp::Decodable>::decode(&mut rest)?;
    Ok((n, rest.len()))
}

/// `<[u8; 32]>::decode` of `alloy_rlp::Decodable`: the 32 bytes of the string at the start of the
/// bytes, and how many bytes are left behind it; which error comes where there is none is only named.
#[verifier::external_body]
pub(crate) fn decode_b256(b: &[u8]) -> (r: Result<(B256, usize), alloy_rlp::Error>)
    ensures
        match b256_at(b@) {
            Some((bytes, len)) => r matches Ok((x, left)) && x@ == bytes && left == b@.len() - len,
            None => r == Err::<(B256, usize), alloy_rlp::Error>(b256_error(b@)),
        },
{
    let mut rest = b;
    let bytes = <[u8; 32] as alloy_rlp::Decodable>::decode(&mut rest)?;
    Ok((FixedBytes { bytes }, rest.len()))
}

/// A list at the start of the bytes: how many bytes its payload has and how many its header.
pub open spec fn list_field(b: Seq<u8>) -> Result<(nat, nat), RlpError> {
    match header_at(b) {
        Some((true, p, h)) => Ok((p, h)),
        Some((false, p, h)) => Err(RlpError::UnexpectedString),
        None => Err(RlpError::Codec(header_error(b))),
    }
}

/// A number at the start of the bytes, and how many bytes it takes.
pub open spec fn u64_field(b: Seq<u8>) -> Result<(u64, nat), RlpError> {
    match u64_at(b) {
        Some(r) => Ok(r),
        None => Err(RlpError::Codec(u64_error(b))),
    }
}

/// 32 bytes at the start of the bytes, and how many bytes their encoding takes.
pub open spec fn b256_field(b: Seq<u8>) -> Result<(Seq<u8>, nat), RlpError> {
    match b256_at(b) {
        Some(r) => Ok(r),
        None => Err(RlpError::Codec(b256_error(b))),
    }
}

/// A header takes no more bytes than there are, with its payload; a list's takes at least one.
pub proof fn lemma_header_fits(b: Seq<u8>)
    ensures
        header_at(b) matches Some((list, p, h)) ==> h + p <= b.len() && (list ==> h >= 1),
        u64_at(b) matches Some((n, len)) ==> 1 <= len <= b.len(),
        b256_at(b) matches Some((bytes, len)) ==> 1 <= len <= b.len() && bytes.len() == 32,
{
    reveal(header_at);
    reveal(u64_at);
    reveal(b256_at);
}

/// What stands at the start of some bytes stands there as well when they are cut off behind it and
/// others follow.
pub proof fn lemma_header_prefix(b: Seq<u8>, k: nat, tail: Seq<u8>)
    requires
        k <= b.len(),
    ensures
        header_at(b) matches Some((list, p, h)) && h + p <= k ==> header_at(
            b.take(k as int) + tail,
        ) == header_at(b),
        u64_at(b) matches Some((n, len)) && len <= k ==> u64_at(b.take(k as int) + tail) == u64_at(
            b,
        ),
{
    reveal(header_at);
    reveal(u64_at);
    let x = b.take(k as int) + tail;
    if let Some((list, p, h)) = header_at(b) {
        if h + p <= k {
            assert(b[0] == x[0]) by {
                assert(b.len() > 0);
            }
            if b[0] >= 0x80 {
                assert(forall|i: int| 0 <= i < h + p ==> #[trigger] x[i] == b[i]);
                if h > 1 {
                    assert(x.subrange(1, h as int) =~= b.subrange(1, h as int));
                }
            }
            assert(x.subrange(h as int, (h + p) as int) =~= b.subrange(h as int, (h + p) as int));
        }
    }
}

/// Reads the header of a list.
pub(crate) fn read_list(b: &[u8]) -> (r: Result<(usize, usize), RlpError>)
    ensures
        match list_field(b@) {
            Ok((p, h)) => r matches Ok((x, y)) && x == p && y == h && h + p <= b@.len() && h >= 1
                && h + p <= usize::MAX,
            Err(e) => r == Err::<(usize, usize), RlpError>(e),
        },
{
    let len: usize = b.len();
    proof {
        lemma_header_fits(b@);
    }
    match decode_header(b) {
        Ok(h) => if h.list {
            Ok((h.payload_length, len - h.left))
        } else {
            Err(RlpError::UnexpectedString)
        },
        Err(e) => Err(RlpError::Codec(e)),
    }
}

/// Reads a number.
pub(crate) fn read_u64(b: &[u8]) -> (r: Result<(u64, usize), RlpError>)
    ensures
        match u64_field(b@) {
            Ok((n, len)) => r matches Ok((x, l)) && x == n && l == len && 1 <= len <= b@.len(),
            Err(e) => r == Err::<(u64, usize), RlpError>(e),
        },
{
    proof {
        lemma_header_fits(b@);
    }
    match decode_u64(b) {
        Ok((n, left)) => Ok((n, b.len() - left)),
        Err(e) => Err(RlpError::Codec(e)),
    }
}

/// Reads 32 bytes.
pub(crate) fn read_b256(b: &[u8]) -> (r: Result<(B256, usize), RlpError>)
    ensures
        match b256_field(b@) {
            Ok((bytes, len)) => r matches Ok((x, l)) && x@ == bytes && l == len && 1 <= len
                <= b@.len(),
            Err(e) => r == Err::<(B256, usize), RlpError>(e),
        },
{
    proof {
        lemma_header_fits(b@);
    }
    match decode_b256(b) {
        Ok((bytes, left)) => Ok((bytes, b.len() - left)),
        Err(e) => Err(RlpError::Codec(e)),
    }
}

/// The bytes from the `n`-th on.
pub(crate) fn after(b: &[u8], n: usize) -> (r: &[u8])
    requires
        n <= b@.len(),
    ensures
        r@ == b@.skip(n as int),
{
    vstd::slice::slice_subrange(b, n, b.len())
}

/// The first `n` bytes.
pub(crate) fn upto(b: &[u8], n: usize) -> (r: &[u8])
    requires
        n <= b@.len(),
    ensures
        r@ == b@.take(n as int),
{
    vstd::slice::slice_subrange(b, 0, n)
}

/// The big-endian bytes of a number stand for it, and the first of them is not zero.
pub proof fn lemma_be_bytes(n: nat)
    ensures
        be_value(be_bytes(n)) == n,
        n > 0 ==> be_bytes(n).len() > 0 && be_bytes(n)[0] != 0,
        n == 0 ==> be_bytes(n).len() == 0,
    decreases n,
{
    if n > 0 {
        lemma_be_bytes(n / 256);
        let rest = be_bytes(n / 256);
        assert(be_bytes(n).drop_last() =~= rest);
        if n / 256 == 0 {
            assert(n % 256 == n);
        }
    }
}

/// A number below 256 to the power of `k` takes at most `k` bytes.
proof fn lemma_be_len(n: nat, k: nat)
    requires
        n < vstd::arithmetic::power::pow(256, k),
    ensures
        be_bytes(n).len() <= k,
    decreases k,
{
    vstd::arithmetic::power::lemma_pow0(256);
    if n > 0 && k > 0 {
        reveal(vstd::arithmetic::power::pow);
        assert(vstd::arithmetic::power::pow(256, k) == 256 * vstd::arithmetic::power::pow(
            256,
            (k - 1) as nat,
        ));
        assert(n / 256 < vstd::arithmetic::power::pow(256, (k - 1) as nat)) by (nonlinear_arith)
            requires
                n < 256 * vstd::arithmetic::power::pow(256, (k - 1) as nat),
        ;
        lemma_be_len(n / 256, (k - 1) as nat);
    }
}

/// A 64-bit number takes at most eight bytes.
proof fn lemma_be_len_u64(n: nat)
    requires
        n <= u64::MAX,
    ensures
        be_bytes(n).len() <= 8,
{
    assert(vstd::arithmetic::power::pow(256, 8) == 0x1_0000_0000_0000_0000int) by {
        reveal(vstd::arithmetic::power::pow);
        assert(vstd::arithmetic::power::pow(256, 0) == 1);
        assert(vstd::arithmetic::power::pow(256, 1) == 0x100);
        assert(vstd::arithmetic::power::pow(256, 2) == 0x1_0000);
        assert(vstd::arithmetic::power::pow(256, 3) == 0x100_0000);
        assert(vstd::arithmetic::power::pow(256, 4) == 0x1_0000_0000);
        assert(vstd::arithmetic::power::pow(256, 5) == 0x100_0000_0000);
        assert(vstd::arithmetic::power::pow(256, 6) == 0x1_0000_0000_0000);
        assert(vstd::arithmetic::power::pow(256, 7) == 0x100_0000_0000_0000);
    }
    lemma_be_len(n, 8);
}

/// The encoding of a number takes from one to nine bytes.
pub proof fn lemma_number_length(n: u64)
    ensures
        1 <= rlp_u64(n).len() <= 9,
{
    reveal(rlp_string);
    reveal(rlp_header);
    lemma_be_bytes(n as nat);
    lemma_be_len_u64(n as nat);
}

/// A header that was written is read back, where its payload follows and it is not that of a
/// single byte that needs none.
pub proof fn lemma_header_roundtrip(list: bool, len: nat, tail: Seq<u8>)
    requires
        len <= u64::MAX,
        tail.len() >= len,
        !list && len == 1 ==> tail[0] >= 0x80,
    ensures
        header_at(rlp_header(list, len) + tail) == Some((list, len, rlp_header(list, len).len())),
{
    reveal(header_at);
    reveal(rlp_header);
    let b = rlp_header(list, len) + tail;
    if len >= 56 {
        lemma_be_bytes(len);
        lemma_be_len_u64(len);
        let n = be_bytes(len).len();
        assert(b.subrange(1, 1 + n as int) =~= be_bytes(len));
        assert(b[1] == be_bytes(len)[0]);
    } else if !list && len == 1 {
        assert(b[1] == tail[0]);
    }
}

/// The encoding of a list takes at least one byte more than its items.
pub proof fn lemma_list_length(payload: Seq<u8>)
    ensures
        rlp_list(payload).len() == rlp_header(true, payload.len()).len() + payload.len(),
        rlp_header(true, payload.len()).len() >= 1,
{
    reveal(rlp_header);
}

/// A list that was written is read back.
pub proof fn lemma_list_roundtrip(payload: Seq<u8>, tail: Seq<u8>)
    requires
        payload.len() <= u64::MAX,
    ensures
        list_field(rlp_list(payload) + tail) == Ok::<(nat, nat), RlpError>(
            (payload.len(), rlp_header(true, payload.len()).len()),
        ),
        (rlp_list(payload) + tail).skip(rlp_header(true, payload.len()).len() as int) == payload
            + tail,
        rlp_list(payload).len() == rlp_header(true, payload.len()).len() + payload.len(),
{
    reveal(header_at);
    lemma_header_roundtrip(true, payload.len(), payload + tail);
    assert(rlp_list(payload) + tail =~= rlp_header(true, payload.len()) + (payload + tail));
    assert((rlp_list(payload) + tail).skip(rlp_header(true, payload.len()).len() as int)
        =~= payload + tail);
}

/// A string that was written is read back.
proof fn lemma_string_roundtrip(s: Seq<u8>, tail: Seq<u8>)
    requires
        s.len() <= u64::MAX,
    ensures
        ({
            let b = rlp_string(s) + tail;
            &&& header_at(b) matches Some((list, p, h)) && !list && p == s.len() && b.subrange(
                h as int,
                (h + p) as int,
            ) == s && h + p == rlp_string(s).len()
        }),
{
    reveal(header_at);
    reveal(rlp_string);
    let b = rlp_string(s) + tail;
    if s.len() == 1 && s[0] < 0x80 {
        assert(b[0] == s[0]);
        assert(b.subrange(0, 1) =~= s);
    } else {
        lemma_header_roundtrip(false, s.len(), s + tail);
        assert(b =~= rlp_header(false, s.len()) + (s + tail));
        let h = rlp_header(false, s.len()).len() as int;
        assert(b.subrange(h, h + s.len()) =~= s);
    }
}

/// A number that was written is read back.
pub proof fn lemma_u64_roundtrip(n: u64, tail: Seq<u8>)
    ensures
        u64_field(rlp_u64(n) + tail) == Ok::<(u64, nat), RlpError>((n, rlp_u64(n).len())),
        (rlp_u64(n) + tail).skip(rlp_u64(n).len() as int) == tail,
{
    reveal(u64_at);
    let s = be_bytes(n as nat);
    lemma_be_bytes(n as nat);
    lemma_be_len_u64(n as nat);
    lemma_string_roundtrip(s, tail);
    let b = rlp_u64(n) + tail;
    let (list, p, h) = header_at(b)->0;
    if p > 0 {
        assert(b.subrange(h as int, (h + p) as int)[0] == b[h as int]);
    }
    assert(b.skip(rlp_u64(n).len() as int) =~= tail);
}

/// 32 bytes that were written are read back.
pub proof fn lemma_b256_roundtrip(s: Seq<u8>, tail: Seq<u8>)
    requires
        s.len() == 32,
    ensures
        b256_field(rlp_string(s) + tail) == Ok::<(Seq<u8>, nat), RlpError>(
            (s, rlp_string(s).len()),
        ),
        rlp_string(s).len() == 33,
        (rlp_string(s) + tail).skip(rlp_string(s).len() as int) == tail,
{
    reveal(b256_at);
    lemma_string_roundtrip(s, tail);
    assert(rlp_string(s).len() == 33) by {
        reveal(rlp_string);
        reveal(rlp_header);
    }
    assert((rlp_string(s) + tail).skip(rlp_string(s).len() as int) =~= tail);
}

} // verus!
