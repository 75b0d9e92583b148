//! A block inside a message: its header, its lists of transactions, uncles and withdrawals, its
//! blobs, and whatever a newer sender adds behind them.

use crate::block::BlockView;
use crate::block::BscBlobTransactionSidecar;
use crate::block::BscBlock;
use crate::block::SidecarView;
use crate::header::header_travels;
use crate::header::Header;
use crate::header::HeaderView;
use crate::rlp;
use crate::rlp::RlpError;
use vstd::prelude::*;

verus! {

/// What `EthereumTxEnvelope::decode` reads at the start of the bytes: the encoding of the
/// transaction and how many bytes it was read from, or why there is none.
pub uninterp spec fn transaction_decoded(b: Seq<u8>) -> Result<
    (Seq<u8>, nat),
    alloy_rlp::Error,
>;

/// What `BlobTransactionSidecar::decode` reads at the start of the bytes: the encoding of the
/// blobs, their commitments and proofs, and how many bytes they were read from, or why there are
/// none.
pub uninterp spec fn blobs_decoded(b: Seq<u8>) -> Result<(Seq<u8>, nat), alloy_rlp::Error>;

/// Why `Withdrawal::decode` finds no withdrawal at the start of the bytes.
pub uninterp spec fn withdrawal_error(b: Seq<u8>) -> alloy_rlp::Error;

/// `decode` of `alloy_consensus::EthereumTxEnvelope<TxEip4844>`: reads a transaction, which takes
/// at least one byte, and says how many bytes are left behind it. What it reads depends on the bytes
/// alone and is only named. It is given in its encoding, from which the same transaction is read
/// again, whatever follows it.
#[verifier::external_body]
fn decode_transaction(b: &[u8]) -> (r: Result<(Vec<u8>, usize), alloy_rlp::Error>)
    ensures
        match r {
            Ok((item, left)) => left < b@.len() && transaction_decoded(b@) == Ok::<
                (Seq<u8>, nat),
                alloy_rlp::Error,
            >((item@, (b@.len() - left) as nat)) && part_travels(Part::Transaction, item@),
            Err(e) => transaction_decoded(b@) == Err::<(Seq<u8>, nat), alloy_rlp::Error>(e),
        },
{
    let mut rest = b;
    let tx = <alloy_consensus::EthereumTxEnvelope<
        alloy_consensus::TxEip4844,
    > as alloy_rlp::Decodable>::decode(&mut rest)?;
    Ok((alloy_rlp::encode(&tx), rest.len()))
}

/// `alloy_eips::eip4844::BlobTransactionSidecar::decode`: reads blobs with their commitments and
/// proofs, which take at least one byte, and says how many bytes are left behind them. What it reads
/// depends on the bytes alone and is only named. They are given in their encoding, from which the
/// same blobs are read again, whatever follows it.
#[verifier::external_body]
fn decode_blobs(b: &[u8]) -> (r: Result<(Vec<u8>, usize), alloy_rlp::Error>)
    ensures
        match r {
            Ok((inner, left)) => left < b@.len() && blobs_decoded(b@) == Ok::<
                (Seq<u8>, nat),
                alloy_rlp::Error,
            >((inner@, (b@.len() - left) as nat)) && blobs_travel(inner@),
            Err(e) => blobs_decoded(b@) == Err::<(Seq<u8>, nat), alloy_rlp::Error>(e),
        },
{
    let mut rest = b;
    let blobs = <alloy_eips::eip4844::BlobTransactionSidecar as alloy_rlp::Decodable>::decode(
        &mut rest,
    )?;
    Ok((alloy_rlp::encode(&blobs), rest.len()))
}

/// How many bytes the withdrawal at the start of the bytes takes: a list of its index, the
/// validator's index, an address of 20 bytes and the amount.
pub open spec fn withdrawal_at(b: Seq<u8>) -> Option<nat> {
    match rlp::header_at(b) {
        Some((true, p, h)) => {
            let f = b.skip(h as int);
            match rlp::u64_at(f) {
                Some((index, n1)) => match rlp::u64_at(f.skip(n1 as int)) {
                    Some((validator, n2)) => match rlp::header_at(f.skip((n1 + n2) as int)) {
                        Some((false, address, n3)) => match rlp::u64_at(
                            f.skip((n1 + n2 + n3 + address) as int),
                        ) {
                            Some((amount, n4)) => if address == 20 && n1 + n2 + n3 + address + n4
                                == p {
                                Some(h + p)
                            } else {
                                None
                            },
                            None => None,
                        },
                        _ => None,
                    },
                    None => None,
                },
                None => None,
            }
        },
        _ => None,
    }
}

/// `alloy_eips::eip4895::Withdrawal::decode`: reads a withdrawal, whose encoding is the bytes that
/// it was read from, and says how many bytes are left behind it; which error comes where there is
/// none is only named.
#[verifier::external_body]
fn decode_withdrawal(b: &[u8]) -> (r: Result<(Vec<u8>, usize), alloy_rlp::Error>)
    ensures
        match withdrawal_at(b@) {
            Some(len) => r matches Ok((item, left)) && item@ == b@.take(len as int) && left
                == b@.len() - len,
            None => r == Err::<(Vec<u8>, usize), alloy_rlp::Error>(withdrawal_error(b@)),
        },
{
    let mut rest = b;
    let withdrawal = <alloy_eips::eip4895::Withdrawal as alloy_rlp::Decodable>::decode(
        &mut rest,
    )?;
    Ok((alloy_rlp::encode(&withdrawal), rest.len()))
}

/// What a list of a block holds.
#[derive(Clone, Copy, Debug)]
pub enum Part {
    /// Transactions.
    Transaction,
    /// Headers of uncles.
    Ommer,
    /// Withdrawals.
    Withdrawal,
}

/// The item at the start of the bytes, in its encoding, and how many bytes it was read from.
pub open spec fn part_at(part: Part, b: Seq<u8>) -> Result<(Seq<u8>, nat), RlpError> {
    match part {
        Part::Transaction => match transaction_decoded(b) {
            Ok(r) => Ok(r),
            Err(e) => Err(RlpError::Codec(e)),
        },
        Part::Ommer => match crate::header::header_decoded(b) {
            Ok((header, n)) => Ok((header.encoded, n)),
            Err(e) => Err(RlpError::Codec(e)),
        },
        Part::Withdrawal => match withdrawal_at(b) {
            Some(n) => Ok((b.take(n as int), n)),
            None => Err(RlpError::Codec(withdrawal_error(b))),
        },
    }
}

/// The items that fill the bytes. Every item takes at least one byte.
pub open spec fn parts_in(part: Part, b: Seq<u8>) -> Result<Seq<Seq<u8>>, RlpError>
    decreases b.len(),
{
    if b.len() == 0 {
        Ok(Seq::empty())
    } else {
        match part_at(part, b) {
            Err(e) => Err(e),
            Ok((item, n)) => if n < 1 || n > b.len() {
                Err(RlpError::InputTooShort)
            } else {
                match parts_in(part, b.skip(n as int)) {
                    Err(e) => Err(e),
                    Ok(rest) => Ok(seq![item] + rest),
                }
            },
        }
    }
}

/// The list at the start of the bytes, and how many bytes it takes.
pub open spec fn part_list_at(part: Part, b: Seq<u8>) -> Result<(Seq<Seq<u8>>, nat), RlpError> {
    match rlp::list_field(b) {
        Err(e) => Err(e),
        Ok((p, h)) => match parts_in(part, b.skip(h as int).take(p as int)) {
            Err(e) => Err(e),
            Ok(items) => Ok((items, h + p)),
        },
    }
}

/// Whether an item is read back as it is, whatever follows it.
pub open spec fn part_travels(part: Part, item: Seq<u8>) -> bool {
    &&& item.len() >= 1
    &&& forall|tail: Seq<u8>| #[trigger]
        part_at(part, item + tail) == Ok::<(Seq<u8>, nat), RlpError>((item, item.len()))
}

/// Whether all items of a list are read back as they are.
pub open spec fn parts_travel(part: Part, items: Seq<Seq<u8>>) -> bool {
    forall|i: int| 0 <= i < items.len() ==> part_travels(part, #[trigger] items[i])
}

/// Whether blobs are read back from their encoding as they are, whatever follows it.
pub open spec fn blobs_travel(inner: Seq<u8>) -> bool {
    forall|tail: Seq<u8>| #[trigger]
        blobs_decoded(inner + tail) == Ok::<(Seq<u8>, nat), alloy_rlp::Error>((inner, inner.len()))
}

/// Whether a sidecar is read back as it is, whatever follows it.
pub open spec fn sidecar_travels(s: SidecarView) -> bool {
    &&& s.block_hash.len() == 32
    &&& s.tx_hash.len() == 32
    &&& blobs_travel(s.inner)
}

/// Whether all sidecars of a list are read back as they are.
pub open spec fn sidecars_travel(items: Seq<SidecarView>) -> bool {
    forall|i: int| 0 <= i < items.len() ==> sidecar_travels(#[trigger] items[i])
}

/// Whether the parts of a block are read back as they are.
pub open spec fn block_travels(block: BlockView) -> bool {
    &&& header_travels(block.header)
    &&& parts_travel(Part::Transaction, block.transactions)
    &&& parts_travel(Part::Ommer, block.ommers)
    &&& block.withdrawals matches Some(items) ==> parts_travel(Part::Withdrawal, items)
    &&& block.sidecars matches Some(items) ==> sidecars_travel(items)
}

/// A withdrawal is read back from the bytes that it takes, whatever follows them.
proof fn lemma_withdrawal_travels(b: Seq<u8>, n: nat)
    requires
        withdrawal_at(b) == Some(n),
    ensures
        1 <= n <= b.len(),
        part_travels(Part::Withdrawal, b.take(n as int)),
{
    let item = b.take(n as int);
    rlp::lemma_header_fits(b);
    let (list, p, h) = rlp::header_at(b)->0;
    let f = b.skip(h as int);
    rlp::lemma_header_fits(f);
    let (index, n1) = rlp::u64_at(f)->0;
    let f1 = f.skip(n1 as int);
    rlp::lemma_header_fits(f1);
    let (validator, n2) = rlp::u64_at(f1)->0;
    let f2 = f.skip((n1 + n2) as int);
    rlp::lemma_header_fits(f2);
    let (address_list, address, n3) = rlp::header_at(f2)->0;
    let f3 = f.skip((n1 + n2 + n3 + 20) as int);
    rlp::lemma_header_fits(f3);
    assert forall|tail: Seq<u8>| #[trigger]
        part_at(Part::Withdrawal, item + tail) == Ok::<(Seq<u8>, nat), RlpError>(
            (item, item.len()),
        ) by {
        let x = item + tail;
        let g = x.skip(h as int);
        rlp::lemma_header_prefix(b, n, tail);
        rlp::lemma_header_prefix(f, p, tail);
        assert(g =~= f.take(p as int) + tail);
        rlp::lemma_header_prefix(f1, (p - n1) as nat, tail);
        assert(g.skip(n1 as int) =~= f1.take(p - n1) + tail);
        rlp::lemma_header_prefix(f2, (p - n1 - n2) as nat, tail);
        assert(g.skip((n1 + n2) as int) =~= f2.take(p - n1 - n2) + tail);
        rlp::lemma_header_prefix(f3, (p - n1 - n2 - n3 - 20) as nat, tail);
        assert(g.skip((n1 + n2 + n3 + 20) as int) =~= f3.take(p - n1 - n2 - n3 - 20) + tail);
        assert(x.take(n as int) =~= item);
    }
}

/// Reads an item.
fn read_part(part: Part, b: &[u8]) -> (r: Result<(Vec<u8>, usize), RlpError>)
    ensures
        match part_at(part, b@) {
            Ok((item, len)) => r matches Ok((v, n)) && v@ == item && n == len && 1 <= n
                <= b@.len() && part_travels(part, item),
            Err(e) => r == Err::<(Vec<u8>, usize), RlpError>(e),
        },
{
    match part {
        Part::Transaction => match decode_transaction(b) {
            Ok((item, left)) => Ok((item, b.len() - left)),
            Err(e) => Err(RlpError::Codec(e)),
        },
        Part::Ommer => match Header::decode(b) {
            Ok((header, n)) => {
                proof {
                    let item = header.encoded@;
                    assert forall|tail: Seq<u8>| #[trigger]
                        part_at(Part::Ommer, item + tail) == Ok::<(Seq<u8>, nat), RlpError>(
                            (item, item.len()),
                        ) by {
                        assert(crate::header::header_decoded(header@.encoded + tail) is Ok);
                    }
                }
                Ok((header.encoded, n))
            },
            Err(e) => Err(e),
        },
        Part::Withdrawal => match decode_withdrawal(b) {
            Ok((item, left)) => {
                proof {
                    lemma_withdrawal_travels(b@, withdrawal_at(b@)->0);
                }
                Ok((item, b.len() - left))
            },
            Err(e) => Err(RlpError::Codec(e)),
        },
    }
}

/// Reads the items that fill the bytes.
fn read_parts(part: Part, b: &[u8]) -> (r: Result<Vec<Vec<u8>>, RlpError>)
    ensures
        match parts_in(part, b@) {
            Ok(items) => r matches Ok(v) && crate::block::items_view(v) == items && parts_travel(
                part,
                items,
            ),
            Err(e) => r == Err::<Vec<Vec<u8>>, RlpError>(e),
        },
{
    let mut items: Vec<Vec<u8>> = Vec::new();
    let mut rest = b;
    proof {
        if parts_in(part, b@) is Ok {
            assert(crate::block::items_view(items) + parts_in(part, b@)->Ok_0 =~= parts_in(
                part,
                b@,
            )->Ok_0);
        }
    }
    while rest.len() > 0
        invariant
            parts_travel(part, crate::block::items_view(items)),
            match parts_in(part, rest@) {
                Ok(tail) => parts_in(part, b@) == Ok::<Seq<Seq<u8>>, RlpError>(
                    crate::block::items_view(items) + tail,
                ),
                Err(e) => parts_in(part, b@) == Err::<Seq<Seq<u8>>, RlpError>(e),
            },
        decreases rest@.len(),
    {
        let ghost before = crate::block::items_view(items);
        match read_part(part, rest) {
            Err(e) => return Err(e),
            Ok((item, n)) => {
                let ghost v = item@;
                items.push(item);
                let ghost tail = parts_in(part, rest@.skip(n as int));
                rest = rlp::after(rest, n);
                proof {
                    assert(crate::block::items_view(items) =~= before.push(v));
                    if tail is Ok {
                        assert(crate::block::items_view(items) + tail->Ok_0 =~= before + (seq![v]
                            + tail->Ok_0));
                    }
                }
            },
        }
    }
    proof {
        assert(crate::block::items_view(items) + Seq::<Seq<u8>>::empty()
            =~= crate::block::items_view(items));
    }
    Ok(items)
}

/// Reads a list of items.
fn read_part_list(part: Part, b: &[u8]) -> (r: Result<(Vec<Vec<u8>>, usize), RlpError>)
    ensures
        match part_list_at(part, b@) {
            Ok((items, len)) => r matches Ok((v, n)) && crate::block::items_view(v) == items && n
                == len && 1 <= n <= b@.len() && parts_travel(part, items),
            Err(e) => r == Err::<(Vec<Vec<u8>>, usize), RlpError>(e),
        },
{
    match rlp::read_list(b) {
        Err(e) => Err(e),
        Ok((p, h)) => match read_parts(part, rlp::upto(rlp::after(b, h), p)) {
            Err(e) => Err(e),
            Ok(items) => Ok((items, h + p)),
        },
    }
}

/// The sidecar at the start of the bytes, and how many bytes it takes: a list of the blobs, the
/// number and the hash of the block, and the place and the hash of the transaction.
pub open spec fn sidecar_at(b: Seq<u8>) -> Result<(SidecarView, nat), RlpError> {
    match rlp::list_field(b) {
        Err(e) => Err(e),
        Ok((p, h)) => {
            let f = b.skip(h as int);
            match blobs_decoded(f) {
                Err(e) => Err(RlpError::Codec(e)),
                Ok((inner, n1)) => sidecar_rest(inner, n1, f.skip(n1 as int), p, h),
            }
        },
    }
}

/// The sidecar of which the blobs were read from `n1` bytes; `f` is what follows them, in a list of
/// `p` bytes behind `h` others.
pub open spec fn sidecar_rest(inner: Seq<u8>, n1: nat, f: Seq<u8>, p: nat, h: nat) -> Result<
    (SidecarView, nat),
    RlpError,
> {
    match rlp::u64_field(f) {
        Err(e) => Err(e),
        Ok((block_number, n2)) => match rlp::b256_field(f.skip(n2 as int)) {
            Err(e) => Err(e),
            Ok((block_hash, n3)) => match rlp::u64_field(f.skip(n2 as int).skip(n3 as int)) {
                Err(e) => Err(e),
                Ok((tx_index, n4)) => match rlp::b256_field(
                    f.skip(n2 as int).skip(n3 as int).skip(n4 as int),
                ) {
                    Err(e) => Err(e),
                    Ok((tx_hash, n5)) => if n1 + n2 + n3 + n4 + n5 != p {
                        Err(
                            RlpError::ListLengthMismatch {
                                expected: p as usize,
                                got: (n1 + n2 + n3 + n4 + n5) as usize,
                            },
                        )
                    } else {
                        Ok(
                            (
                                SidecarView { inner, block_number, block_hash, tx_index, tx_hash },
                                h + p,
                            ),
                        )
                    },
                },
            },
        },
    }
}

/// The sidecars that fill the bytes. Every one takes at least one byte.
pub open spec fn sidecars_in(b: Seq<u8>) -> Result<Seq<SidecarView>, RlpError>
    decreases b.len(),
{
    if b.len() == 0 {
        Ok(Seq::empty())
    } else {
        match sidecar_at(b) {
            Err(e) => Err(e),
            Ok((item, n)) => if n < 1 || n > b.len() {
                Err(RlpError::InputTooShort)
            } else {
                match sidecars_in(b.skip(n as int)) {
                    Err(e) => Err(e),
                    Ok(rest) => Ok(seq![item] + rest),
                }
            },
        }
    }
}

/// The list of sidecars at the start of the bytes, and how many bytes it takes.
pub open spec fn sidecar_list_at(b: Seq<u8>) -> Result<(Seq<SidecarView>, nat), RlpError> {
    match rlp::list_field(b) {
        Err(e) => Err(e),
        Ok((p, h)) => match sidecars_in(b.skip(h as int).take(p as int)) {
            Err(e) => Err(e),
            Ok(items) => Ok((items, h + p)),
        },
    }
}

/// Reads a sidecar.
fn read_sidecar(b: &[u8]) -> (r: Result<(BscBlobTransactionSidecar, usize), RlpError>)
    ensures
        match sidecar_at(b@) {
            Ok((item, len)) => r matches Ok((v, n)) && v@ == item && n == len && 1 <= n
                <= b@.len() && sidecar_travels(item),
            Err(e) => r == Err::<(BscBlobTransactionSidecar, usize), RlpError>(e),
        },
{
    let (p, h) = match rlp::read_list(b) {
        Ok(r) => r,
        Err(e) => return Err(e),
    };
    let f = rlp::after(b, h);
    let started: usize = f.len();
    let (inner, n1) = match decode_blobs(f) {
        Ok((inner, left)) => (inner, started - left),
        Err(e) => return Err(RlpError::Codec(e)),
    };
    let f1 = rlp::after(f, n1);
    let (block_number, n2) = match rlp::read_u64(f1) {
        Ok(r) => r,
        Err(e) => return Err(e),
    };
    let f2 = rlp::after(f1, n2);
    let (block_hash, n3) = match rlp::read_b256(f2) {
        Ok(r) => r,
        Err(e) => return Err(e),
    };
    let f3 = rlp::after(f2, n3);
    let (tx_index, n4) = match rlp::read_u64(f3) {
        Ok(r) => r,
        Err(e) => return Err(e),
    };
    let f4 = rlp::after(f3, n4);
    let (tx_hash, n5) = match rlp::read_b256(f4) {
        Ok(r) => r,
        Err(e) => return Err(e),
    };
    let consumed: usize = started - rlp::after(f4, n5).len();
    if consumed != p {
        return Err(RlpError::ListLengthMismatch { expected: p, got: consumed });
    }
    Ok((
        BscBlobTransactionSidecar { inner, block_number, block_hash, tx_index, tx_hash },
        h + p,
    ))
}

/// Reads the sidecars that fill the bytes.
fn read_sidecars(b: &[u8]) -> (r: Result<Vec<BscBlobTransactionSidecar>, RlpError>)
    ensures
        match sidecars_in(b@) {
            Ok(items) => r matches Ok(v) && crate::block::sidecars_view(v) == items
                && sidecars_travel(items),
            Err(e) => r == Err::<Vec<BscBlobTransactionSidecar>, RlpError>(e),
        },
{
    let mut items: Vec<BscBlobTransactionSidecar> = Vec::new();
    let mut rest = b;
    proof {
        if sidecars_in(b@) is Ok {
            assert(crate::block::sidecars_view(items) + sidecars_in(b@)->Ok_0 =~= sidecars_in(
                b@,
            )->Ok_0);
        }
    }
    while rest.len() > 0
        invariant
            sidecars_travel(crate::block::sidecars_view(items)),
            match sidecars_in(rest@) {
                Ok(tail) => sidecars_in(b@) == Ok::<Seq<SidecarView>, RlpError>(
                    crate::block::sidecars_view(items) + tail,
                ),
                Err(e) => sidecars_in(b@) == Err::<Seq<SidecarView>, RlpError>(e),
            },
        decreases rest@.len(),
    {
        let ghost before = crate::block::sidecars_view(items);
        match read_sidecar(rest) {
            Err(e) => return Err(e),
            Ok((item, n)) => {
                let ghost v = item@;
                items.push(item);
                let ghost tail = sidecars_in(rest@.skip(n as int));
                rest = rlp::after(rest, n);
                proof {
                    assert(crate::block::sidecars_view(items) =~= before.push(v));
                    if tail is Ok {
                        assert(crate::block::sidecars_view(items) + tail->Ok_0 =~= before + (seq![
                            v,
                        ] + tail->Ok_0));
                    }
                }
            },
        }
    }
    proof {
        assert(crate::block::sidecars_view(items) + Seq::<SidecarView>::empty()
            =~= crate::block::sidecars_view(items));
    }
    Ok(items)
}

/// Reads a list of sidecars.
fn read_sidecar_list(b: &[u8]) -> (r: Result<(Vec<BscBlobTransactionSidecar>, usize), RlpError>)
    ensures
        match sidecar_list_at(b@) {
            Ok((items, len)) => r matches Ok((v, n)) && crate::block::sidecars_view(v) == items && n
                == len && 1 <= n <= b@.len() && sidecars_travel(items),
            Err(e) => r == Err::<(Vec<BscBlobTransactionSidecar>, usize), RlpError>(e),
        },
{
    match rlp::read_list(b) {
        Err(e) => Err(e),
        Ok((p, h)) => match read_sidecars(rlp::upto(rlp::after(b, h), p)) {
            Err(e) => Err(e),
            Ok(items) => Ok((items, h + p)),
        },
    }
}

/// The withdrawals of a block whose first lists take `c` of the `p` bytes `f`, and how many bytes
/// are taken with them: none where nothing is left.
pub open spec fn withdrawals_from(f: Seq<u8>, c: nat, p: nat) -> Result<
    (Option<Seq<Seq<u8>>>, nat),
    RlpError,
> {
    if c < p {
        match part_list_at(Part::Withdrawal, f.skip(c as int)) {
            Err(e) => Err(e),
            Ok((items, n)) => Ok((Some(items), c + n)),
        }
    } else {
        Ok((None, c))
    }
}

/// The sidecars of a block whose first lists take `c` of the `p` bytes `f`, and how many bytes are
/// taken with them: none where nothing is left.
pub open spec fn sidecars_from(f: Seq<u8>, c: nat, p: nat) -> Result<
    (Option<Seq<SidecarView>>, nat),
    RlpError,
> {
    if c < p {
        match sidecar_list_at(f.skip(c as int)) {
            Err(e) => Err(e),
            Ok((items, n)) => Ok((Some(items), c + n)),
        }
    } else {
        Ok((None, c))
    }
}

/// What is left of a list of `p` bytes whose known fields take `c`, or that they overrun it.
pub open spec fn trailing(c: nat, p: nat) -> Result<nat, RlpError> {
    if c > p {
        Err(RlpError::ListLengthMismatch { expected: p as usize, got: c as usize })
    } else {
        Ok((p - c) as nat)
    }
}

/// The block whose fields start at `f`, in a list of `p` bytes. What stands behind the known fields
/// is left unread.
pub open spec fn block_fields(f: Seq<u8>, p: nat) -> Result<BlockView, RlpError> {
    match crate::header::header_decoded(f) {
        Err(e) => Err(RlpError::Codec(e)),
        Ok((header, n1)) => match part_list_at(Part::Transaction, f.skip(n1 as int)) {
            Err(e) => Err(e),
            Ok((transactions, n2)) => match part_list_at(
                Part::Ommer,
                f.skip((n1 + n2) as int),
            ) {
                Err(e) => Err(e),
                Ok((ommers, n3)) => match withdrawals_from(f, n1 + n2 + n3, p) {
                    Err(e) => Err(e),
                    Ok((withdrawals, c4)) => match sidecars_from(f, c4, p) {
                        Err(e) => Err(e),
                        Ok((sidecars, c5)) => match trailing(c5, p) {
                            Err(e) => Err(e),
                            Ok(_) => Ok(
                                BlockView { header, transactions, ommers, withdrawals, sidecars },
                            ),
                        },
                    },
                },
            },
        },
    }
}

/// The block at the start of the bytes, and how many bytes it takes.
pub open spec fn block_at(b: Seq<u8>) -> Result<(BlockView, nat), RlpError> {
    match rlp::list_field(b) {
        Err(e) => Err(e),
        Ok((p, h)) => match block_fields(b.skip(h as int), p) {
            Err(e) => Err(e),
            Ok(block) => Ok((block, h + p)),
        },
    }
}

/// How many bytes of a list are left behind its known fields; that they take more bytes than the
/// list has is an error.
pub fn skip_unknown_trailing(consumed: usize, payload_length: usize) -> (r: Result<usize, RlpError>)
    ensures
        match trailing(consumed as nat, payload_length as nat) {
            Ok(extra) => r matches Ok(n) && n == extra,
            Err(e) => r == Err::<usize, RlpError>(e),
        },
{
    if consumed > payload_length {
        return Err(RlpError::ListLengthMismatch { expected: payload_length, got: consumed });
    }
    Ok(payload_length - consumed)
}

/// Reads the block at the start of the bytes, and says how many of them it takes. The known fields
/// are read strictly; what a newer sender puts behind them is skipped. A block that was read is read
/// back when it is sent on.
pub fn decode_wire_block_data(b: &[u8]) -> (r: Result<(BscBlock, usize), RlpError>)
    ensures
        match block_at(b@) {
            Ok((block, len)) => r matches Ok((v, n)) && v@ == block && n == len && 1 <= n
                <= b@.len() && block_travels(block) && as_sent(block) == block,
            Err(e) => r == Err::<(BscBlock, usize), RlpError>(e),
        },
{
    let (p, h) = match rlp::read_list(b) {
        Ok(r) => r,
        Err(e) => return Err(e),
    };
    let f = rlp::after(b, h);
    let started: usize = f.len();
    let (header, n1) = match Header::decode(f) {
        Ok(r) => r,
        Err(e) => return Err(e),
    };
    let f1 = rlp::after(f, n1);
    let (transactions, n2) = match read_part_list(Part::Transaction, f1) {
        Ok(r) => r,
        Err(e) => return Err(e),
    };
    let f2 = rlp::after(f1, n2);
    proof {
        assert(f2@ =~= f@.skip(n1 + n2));
    }
    let (ommers, n3) = match read_part_list(Part::Ommer, f2) {
        Ok(r) => r,
        Err(e) => return Err(e),
    };
    let mut rest = rlp::after(f2, n3);
    proof {
        assert(rest@ =~= f@.skip(n1 + n2 + n3));
    }
    let mut withdrawals: Option<Vec<Vec<u8>>> = None;
    if started - rest.len() < p {
        let (items, n4) = match read_part_list(Part::Withdrawal, rest) {
            Ok(r) => r,
            Err(e) => return Err(e),
        };
        withdrawals = Some(items);
        rest = rlp::after(rest, n4);
        proof {
            assert(rest@ =~= f@.skip(n1 + n2 + n3 + n4));
        }
    }
    let ghost c4 = (started - rest@.len()) as nat;
    let mut sidecars: Option<Vec<BscBlobTransactionSidecar>> = None;
    if started - rest.len() < p {
        let (items, n5) = match read_sidecar_list(rest) {
            Ok(r) => r,
            Err(e) => return Err(e),
        };
        sidecars = Some(items);
        rest = rlp::after(rest, n5);
        proof {
            assert(rest@ =~= f@.skip(c4 + n5));
        }
    }
    match skip_unknown_trailing(started - rest.len(), p) {
        Err(e) => Err(e),
        Ok(_) => Ok((BscBlock { header, transactions, ommers, withdrawals, sidecars }, h + p)),
    }
}

/// A sidecar's fields, one after another.
pub open spec fn sidecar_fields(s: SidecarView) -> Seq<u8> {
    s.inner + (rlp::rlp_u64(s.block_number) + (rlp::rlp_string(s.block_hash) + (rlp::rlp_u64(
        s.tx_index,
    ) + rlp::rlp_string(s.tx_hash))))
}

/// The sidecars as they travel, one after another.
pub open spec fn sidecars_bytes(s: Seq<SidecarView>) -> Seq<u8> {
    Seq::new(s.len(), |i: int| rlp::rlp_list(sidecar_fields(s[i]))).flatten()
}

/// What is sent of a block: one that has a list of blobs has a list of withdrawals too, an empty
/// one where it had none.
pub open spec fn as_sent(block: BlockView) -> BlockView {
    if block.sidecars is Some && block.withdrawals is None {
        BlockView { withdrawals: Some(Seq::empty()), ..block }
    } else {
        block
    }
}

/// The withdrawals and the blobs of a block, as far as it has them.
pub open spec fn optional_fields(block: BlockView) -> Seq<u8> {
    (match block.withdrawals {
        Some(items) => rlp::rlp_list(items.flatten()),
        None => Seq::empty(),
    }) + (match block.sidecars {
        Some(items) => rlp::rlp_list(sidecars_bytes(items)),
        None => Seq::empty(),
    })
}

/// The fields of a block, one after another.
pub open spec fn block_payload(block: BlockView) -> Seq<u8> {
    block.header.encoded + (rlp::rlp_list(block.transactions.flatten()) + (rlp::rlp_list(
        block.ommers.flatten(),
    ) + optional_fields(block)))
}

/// A block as it travels.
pub open spec fn block_bytes(block: BlockView) -> Seq<u8> {
    rlp::rlp_list(block_payload(as_sent(block)))
}

/// Appends the items, one after another.
fn put_parts(out: &mut Vec<u8>, items: &Vec<Vec<u8>>)
    ensures
        final(out)@ == old(out)@ + crate::block::items_view(*items).flatten(),
{
    let ghost all = crate::block::items_view(*items);
    let mut i: usize = 0;
    proof {
        assert(out@ =~= old(out)@ + all.take(0).flatten());
    }
    while i < items.len()
        invariant
            all == crate::block::items_view(*items),
            i <= items.len(),
            out@ == old(out)@ + all.take(i as int).flatten(),
        decreases items.len() - i,
    {
        rlp::put_raw(out, items[i].as_slice());
        proof {
            all.take(i as int).lemma_flatten_push(all[i as int]);
            assert(all.take(i + 1) =~= all.take(i as int).push(all[i as int]));
            assert(out@ =~= old(out)@ + all.take(i + 1).flatten());
        }
        i += 1;
    }
    proof {
        assert(all.take(i as int) =~= all);
    }
}

/// Appends a list of items.
fn put_part_list(out: &mut Vec<u8>, items: &Vec<Vec<u8>>)
    ensures
        final(out)@ == old(out)@ + rlp::rlp_list(crate::block::items_view(*items).flatten()),
{
    let mut payload: Vec<u8> = Vec::new();
    put_parts(&mut payload, items);
    proof {
        assert(payload@ =~= crate::block::items_view(*items).flatten());
    }
    rlp::put_list(out, payload.as_slice());
}

/// Appends a sidecar.
fn put_sidecar(out: &mut Vec<u8>, sidecar: &BscBlobTransactionSidecar)
    ensures
        final(out)@ == old(out)@ + rlp::rlp_list(sidecar_fields(sidecar@)),
{
    let mut fields: Vec<u8> = Vec::new();
    rlp::put_raw(&mut fields, sidecar.inner.as_slice());
    rlp::put_u64(&mut fields, sidecar.block_number);
    rlp::put_string(&mut fields, &sidecar.block_hash.bytes);
    rlp::put_u64(&mut fields, sidecar.tx_index);
    rlp::put_string(&mut fields, &sidecar.tx_hash.bytes);
    proof {
        assert(fields@ =~= sidecar_fields(sidecar@));
    }
    rlp::put_list(out, fields.as_slice());
}

/// Appends a list of sidecars.
fn put_sidecar_list(out: &mut Vec<u8>, sidecars: &Vec<BscBlobTransactionSidecar>)
    ensures
        final(out)@ == old(out)@ + rlp::rlp_list(
            sidecars_bytes(crate::block::sidecars_view(*sidecars)),
        ),
{
    let ghost views = crate::block::sidecars_view(*sidecars);
    let ghost all = Seq::new(views.len(), |i: int| rlp::rlp_list(sidecar_fields(views[i])));
    let mut payload: Vec<u8> = Vec::new();
    let mut i: usize = 0;
    proof {
        assert(payload@ =~= all.take(0).flatten());
    }
    while i < sidecars.len()
        invariant
            views == crate::block::sidecars_view(*sidecars),
            all == Seq::new(views.len(), |i: int| rlp::rlp_list(sidecar_fields(views[i]))),
            i <= sidecars.len(),
            payload@ == all.take(i as int).flatten(),
        decreases sidecars.len() - i,
    {
        put_sidecar(&mut payload, &sidecars[i]);
        proof {
            all.take(i as int).lemma_flatten_push(all[i as int]);
            assert(all.take(i + 1) =~= all.take(i as int).push(all[i as int]));
        }
        i += 1;
    }
    proof {
        assert(all.take(i as int) =~= all);
    }
    rlp::put_list(out, payload.as_slice());
}

/// Appends a block as it travels.
pub fn encode_wire_block_data(block: &BscBlock, out: &mut Vec<u8>)
    ensures
        final(out)@ == old(out)@ + block_bytes(block@),
{
    let ghost sent = as_sent(block@);
    let mut payload: Vec<u8> = Vec::new();
    rlp::put_raw(&mut payload, block.header.encoded.as_slice());
    put_part_list(&mut payload, &block.transactions);
    put_part_list(&mut payload, &block.ommers);
    let ghost known = payload@;
    match &block.withdrawals {
        Some(items) => put_part_list(&mut payload, items),
        None => if block.sidecars.is_some() {
            let none: Vec<Vec<u8>> = Vec::new();
            put_part_list(&mut payload, &none);
            proof {
                assert(crate::block::items_view(none) =~= Seq::empty());
            }
        },
    }
    match &block.sidecars {
        Some(items) => put_sidecar_list(&mut payload, items),
        None => {},
    }
    proof {
        assert(payload@ =~= known + optional_fields(sent));
        assert(payload@ =~= block_payload(sent));
    }
    rlp::put_list(out, payload.as_slice());
}

/// Items that are read back one by one are read back together.
proof fn lemma_parts_roundtrip(part: Part, items: Seq<Seq<u8>>)
    requires
        parts_travel(part, items),
    ensures
        parts_in(part, items.flatten()) == Ok::<Seq<Seq<u8>>, RlpError>(items),
    decreases items.len(),
{
    if items.len() > 0 {
        let first = items.first();
        let rest = items.drop_first();
        assert(part_travels(part, items[0]));
        assert forall|i: int| 0 <= i < rest.len() implies part_travels(part, #[trigger] rest[i]) by {
            assert(rest[i] == items[i + 1]);
        }
        lemma_parts_roundtrip(part, rest);
        let b = items.flatten();
        assert(b == first + rest.flatten());
        assert(b.skip(first.len() as int) =~= rest.flatten());
        assert(items =~= seq![first] + rest);
    } else {
        assert(items =~= Seq::empty());
    }
}

/// A list that was written is read back, whatever follows it.
proof fn lemma_part_list_roundtrip(part: Part, items: Seq<Seq<u8>>, tail: Seq<u8>)
    requires
        parts_travel(part, items),
        items.flatten().len() <= u64::MAX,
    ensures
        part_list_at(part, rlp::rlp_list(items.flatten()) + tail) == Ok::<
            (Seq<Seq<u8>>, nat),
            RlpError,
        >((items, rlp::rlp_list(items.flatten()).len())),
{
    let payload = items.flatten();
    rlp::lemma_list_roundtrip(payload, tail);
    lemma_parts_roundtrip(part, items);
    assert((payload + tail).take(payload.len() as int) =~= payload);
}

/// A sidecar that was written is read back, whatever follows it.
proof fn lemma_sidecar_roundtrip(s: SidecarView, tail: Seq<u8>)
    requires
        sidecar_travels(s),
        sidecar_fields(s).len() <= u64::MAX,
    ensures
        sidecar_at(rlp::rlp_list(sidecar_fields(s)) + tail) == Ok::<(SidecarView, nat), RlpError>(
            (s, rlp::rlp_list(sidecar_fields(s)).len()),
        ),
{
    let fields = sidecar_fields(s);
    rlp::lemma_list_roundtrip(fields, tail);
    let t5 = rlp::rlp_string(s.tx_hash) + tail;
    let t4 = rlp::rlp_u64(s.tx_index) + t5;
    let t3 = rlp::rlp_string(s.block_hash) + t4;
    let t2 = rlp::rlp_u64(s.block_number) + t3;
    assert(fields + tail =~= s.inner + t2);
    assert((s.inner + t2).skip(s.inner.len() as int) =~= t2);
    rlp::lemma_u64_roundtrip(s.block_number, t3);
    rlp::lemma_b256_roundtrip(s.block_hash, t4);
    rlp::lemma_u64_roundtrip(s.tx_index, t5);
    rlp::lemma_b256_roundtrip(s.tx_hash, tail);
}

/// The sidecars without the first take up the bytes behind it.
proof fn lemma_sidecars_first(s: Seq<SidecarView>)
    requires
        s.len() > 0,
    ensures
        sidecars_bytes(s) == rlp::rlp_list(sidecar_fields(s.first())) + sidecars_bytes(
            s.drop_first(),
        ),
{
    let all = Seq::new(s.len(), |i: int| rlp::rlp_list(sidecar_fields(s[i])));
    let rest = s.drop_first();
    assert(all.drop_first() =~= Seq::new(
        rest.len(),
        |i: int| rlp::rlp_list(sidecar_fields(rest[i])),
    ));
}

/// Sidecars that were written are read back.
proof fn lemma_sidecars_roundtrip(s: Seq<SidecarView>)
    requires
        sidecars_travel(s),
        sidecars_bytes(s).len() <= u64::MAX,
    ensures
        sidecars_in(sidecars_bytes(s)) == Ok::<Seq<SidecarView>, RlpError>(s),
    decreases s.len(),
{
    if s.len() > 0 {
        let rest = s.drop_first();
        let item = rlp::rlp_list(sidecar_fields(s.first()));
        lemma_sidecars_first(s);
        rlp::lemma_list_length(sidecar_fields(s.first()));
        assert(sidecar_travels(s[0]));
        assert forall|i: int| 0 <= i < rest.len() implies sidecar_travels(#[trigger] rest[i]) by {
            assert(rest[i] == s[i + 1]);
        }
        lemma_sidecars_roundtrip(rest);
        lemma_sidecar_roundtrip(s.first(), sidecars_bytes(rest));
        assert((item + sidecars_bytes(rest)).skip(item.len() as int) =~= sidecars_bytes(rest));
        assert(s =~= seq![s.first()] + rest);
    } else {
        assert(s =~= Seq::empty());
        assert(sidecars_bytes(s) =~= Seq::empty());
    }
}

/// A list of sidecars that was written is read back, whatever follows it.
proof fn lemma_sidecar_list_roundtrip(s: Seq<SidecarView>, tail: Seq<u8>)
    requires
        sidecars_travel(s),
        sidecars_bytes(s).len() <= u64::MAX,
    ensures
        sidecar_list_at(rlp::rlp_list(sidecars_bytes(s)) + tail) == Ok::<
            (Seq<SidecarView>, nat),
            RlpError,
        >((s, rlp::rlp_list(sidecars_bytes(s)).len())),
{
    let payload = sidecars_bytes(s);
    rlp::lemma_list_roundtrip(payload, tail);
    lemma_sidecars_roundtrip(s);
    assert((payload + tail).take(payload.len() as int) =~= payload);
}

/// The optional fields of a block that were written are read back: `f` holds `c` bytes of other
/// fields, then the optional ones, then `extra` up to the end of the list, then anything.
proof fn lemma_optional_roundtrip(
    block: BlockView,
    front: Seq<u8>,
    extra: Seq<u8>,
    tail: Seq<u8>,
)
    requires
        block_travels(block),
        block.sidecars is Some ==> block.withdrawals is Some,
        extra.len() > 0 ==> block.sidecars is Some,
        front.len() + optional_fields(block).len() + extra.len() <= u64::MAX,
    ensures
        ({
            let f = front + (optional_fields(block) + (extra + tail));
            let p = front.len() + optional_fields(block).len() + extra.len();
            withdrawals_from(f, front.len(), p) matches Ok((withdrawals, c4)) && withdrawals
                == block.withdrawals && (sidecars_from(f, c4, p) matches Ok((sidecars, c5))
                && sidecars == block.sidecars && c5 <= p)
        }),
{
    let f = front + (optional_fields(block) + (extra + tail));
    if let Some(items) = block.withdrawals {
        let w = rlp::rlp_list(items.flatten());
        let s = match block.sidecars {
            Some(items) => rlp::rlp_list(sidecars_bytes(items)),
            None => Seq::empty(),
        };
        rlp::lemma_list_length(items.flatten());
        assert(f.skip(front.len() as int) =~= w + (s + (extra + tail)));
        lemma_part_list_roundtrip(Part::Withdrawal, items, s + (extra + tail));
        if let Some(items) = block.sidecars {
            rlp::lemma_list_length(sidecars_bytes(items));
            assert(f.skip((front.len() + w.len()) as int) =~= s + (extra + tail));
            lemma_sidecar_list_roundtrip(items, extra + tail);
        }
    }
}

/// The first three fields of a block that were written are read back, whatever follows them.
proof fn lemma_front_roundtrip(block: BlockView, end: Seq<u8>)
    requires
        header_travels(block.header),
        parts_travel(Part::Transaction, block.transactions),
        parts_travel(Part::Ommer, block.ommers),
        block.transactions.flatten().len() <= u64::MAX,
        block.ommers.flatten().len() <= u64::MAX,
    ensures
        ({
            let encoded = block.header.encoded;
            let txs = rlp::rlp_list(block.transactions.flatten());
            let ommers = rlp::rlp_list(block.ommers.flatten());
            let f = encoded + txs + ommers + end;
            &&& crate::header::header_decoded(f) == Ok::<(HeaderView, nat), alloy_rlp::Error>(
                (block.header, encoded.len()),
            )
            &&& part_list_at(Part::Transaction, f.skip(encoded.len() as int)) == Ok::<
                (Seq<Seq<u8>>, nat),
                RlpError,
            >((block.transactions, txs.len()))
            &&& part_list_at(Part::Ommer, f.skip((encoded.len() + txs.len()) as int)) == Ok::<
                (Seq<Seq<u8>>, nat),
                RlpError,
            >((block.ommers, ommers.len()))
        }),
{
    let encoded = block.header.encoded;
    let txs = rlp::rlp_list(block.transactions.flatten());
    let ommers = rlp::rlp_list(block.ommers.flatten());
    let f = encoded + txs + ommers + end;
    assert(f =~= encoded + (txs + (ommers + end)));
    assert(f.skip(encoded.len() as int) =~= txs + (ommers + end));
    assert(f.skip((encoded.len() + txs.len()) as int) =~= ommers + end);
    lemma_part_list_roundtrip(Part::Transaction, block.transactions, ommers + end);
    lemma_part_list_roundtrip(Part::Ommer, block.ommers, end);
}

/// The fields of a block that were written are read back, whatever a newer sender put behind the
/// known ones and whatever follows them.
proof fn lemma_fields_roundtrip(block: BlockView, extra: Seq<u8>, tail: Seq<u8>)
    requires
        block_travels(block),
        block.sidecars is Some ==> block.withdrawals is Some,
        extra.len() > 0 ==> block.sidecars is Some,
        block_payload(block).len() + extra.len() <= u64::MAX,
    ensures
        block_fields(
            block_payload(block) + extra + tail,
            block_payload(block).len() + extra.len(),
        ) == Ok::<BlockView, RlpError>(block),
{
    let encoded = block.header.encoded;
    let txs = rlp::rlp_list(block.transactions.flatten());
    let ommers = rlp::rlp_list(block.ommers.flatten());
    let optional = optional_fields(block);
    let front = encoded + txs + ommers;
    let end = optional + (extra + tail);
    rlp::lemma_list_length(block.transactions.flatten());
    rlp::lemma_list_length(block.ommers.flatten());
    lemma_front_roundtrip(block, end);
    lemma_optional_roundtrip(block, front, extra, tail);
    assert(block_payload(block) + extra + tail =~= front + end);
}

/// A block that was written is read back, whatever a newer sender put behind its known fields and
/// whatever follows it.
proof fn lemma_block_roundtrip(block: BlockView, extra: Seq<u8>, tail: Seq<u8>)
    requires
        block_travels(block),
        block.sidecars is Some ==> block.withdrawals is Some,
        extra.len() > 0 ==> block.sidecars is Some,
        block_payload(block).len() + extra.len() <= u64::MAX,
    ensures
        block_at(rlp::rlp_list(block_payload(block) + extra) + tail) == Ok::<
            (BlockView, nat),
            RlpError,
        >((block, rlp::rlp_list(block_payload(block) + extra).len())),
{
    rlp::lemma_list_roundtrip(block_payload(block) + extra, tail);
    lemma_fields_roundtrip(block, extra, tail);
}

/// A block that was encoded is decoded to what was sent, whatever follows it.
pub proof fn law_block_round_trip(block: BlockView, tail: Seq<u8>)
    ensures
        block_travels(block) && block_bytes(block).len() <= u64::MAX ==> block_at(
            block_bytes(block) + tail,
        ) == Ok::<(BlockView, nat), RlpError>((as_sent(block), block_bytes(block).len())),
{
    if block_travels(block) && block_bytes(block).len() <= u64::MAX {
        let sent = as_sent(block);
        rlp::lemma_list_length(block_payload(sent));
        assert(block_payload(sent) + Seq::<u8>::empty() =~= block_payload(sent));
        lemma_block_roundtrip(sent, Seq::empty(), tail);
    }
}

/// What a newer sender puts behind the blobs of a block is ignored: the block is decoded as if it
/// were not there.
pub proof fn law_unknown_block_fields_are_ignored(block: BlockView, extra: Seq<u8>, tail: Seq<u8>)
    ensures
        block_travels(block) && block.withdrawals is Some && block.sidecars is Some
            && block_payload(block).len() + extra.len() <= u64::MAX ==> block_at(
            rlp::rlp_list(block_payload(block) + extra) + tail,
        ) == Ok::<(BlockView, nat), RlpError>(
            (block, rlp::rlp_list(block_payload(block) + extra).len()),
        ),
{
    if block_travels(block) && block.withdrawals is Some && block.sidecars is Some
        && block_payload(block).len() + extra.len() <= u64::MAX {
        lemma_block_roundtrip(block, extra, tail);
    }
}

/// A block is sent as it is, but for one thing: one with blobs and no list of withdrawals is sent
/// with an empty list, so that the blobs are not taken for it.
pub proof fn law_blocks_are_sent_as_they_are(block: BlockView)
    ensures
        as_sent(block).header == block.header,
        as_sent(block).transactions == block.transactions,
        as_sent(block).ommers == block.ommers,
        as_sent(block).sidecars == block.sidecars,
        block.withdrawals is Some ==> as_sent(block).withdrawals == block.withdrawals,
        block.sidecars is None ==> as_sent(block) == block,
        block.sidecars is Some ==> as_sent(block).withdrawals is Some,
        block.sidecars is Some && block.withdrawals is None ==> as_sent(
            block,
        ).withdrawals->0.len() == 0,
        as_sent(as_sent(block)) == as_sent(block),
{
}

/// Fields that run over the end of their list are refused, and the error says how far they run;
/// fields that leave bytes behind are not.
pub proof fn law_overrun_is_refused(consumed: nat, length: nat)
    requires
        consumed <= usize::MAX,
        length <= usize::MAX,
    ensures
        trailing(consumed, length) is Err <==> consumed > length,
        trailing(consumed, length) matches Ok(left) ==> consumed + left == length,
        trailing(consumed, length) matches Err(RlpError::ListLengthMismatch { expected, got })
            ==> expected == length && got == consumed,
{
}

} // verus!
