//! Blocks, as they travel between nodes: the parts that the rules do not look into are held in
//! their encoding.

use crate::header::is_default_header;
use crate::header::Header;
use crate::header::HeaderView;
use crate::primitives::to_vec;
use crate::primitives::B256;
use vstd::prelude::*;

verus! {

/// The blobs of a transaction, and the transaction that they belong to.
#[derive(Debug)]
pub struct BscBlobTransactionSidecar {
    /// The encoding of the blobs, their commitments and their proofs.
    pub inner: Vec<u8>,
    /// Number of the block.
    pub block_number: u64,
    /// Hash of the block.
    pub block_hash: B256,
    /// Place of the transaction in the block.
    pub tx_index: u64,
    /// Hash of the transaction.
    pub tx_hash: B256,
}

/// What a sidecar says.
#[verifier::ext_equal]
pub ghost struct SidecarView {
    /// The encoding of the blobs, their commitments and their proofs.
    pub inner: Seq<u8>,
    /// Number of the block.
    pub block_number: u64,
    /// Hash of the block.
    pub block_hash: Seq<u8>,
    /// Place of the transaction in the block.
    pub tx_index: u64,
    /// Hash of the transaction.
    pub tx_hash: Seq<u8>,
}

impl View for BscBlobTransactionSidecar {
    type V = SidecarView;

    open spec fn view(&self) -> SidecarView {
        SidecarView {
            inner: self.inner@,
            block_number: self.block_number,
            block_hash: self.block_hash@,
            tx_index: self.tx_index,
            tx_hash: self.tx_hash@,
        }
    }
}

/// A block.
#[derive(Debug)]
pub struct BscBlock {
    /// The header.
    pub header: Header,
    /// The transactions, each in its encoding.
    pub transactions: Vec<Vec<u8>>,
    /// The uncles' headers, each in its encoding.
    pub ommers: Vec<Vec<u8>>,
    /// The withdrawals, each in its encoding, where the block has a list of them.
    pub withdrawals: Option<Vec<Vec<u8>>>,
    /// The blobs, where the block has a list of them.
    pub sidecars: Option<Vec<BscBlobTransactionSidecar>>,
}

/// What a block says.
#[verifier::ext_equal]
pub ghost struct BlockView {
    /// The header.
    pub header: HeaderView,
    /// The transactions, each in its encoding.
    pub transactions: Seq<Seq<u8>>,
    /// The uncles' headers, each in its encoding.
    pub ommers: Seq<Seq<u8>>,
    /// The withdrawals, each in its encoding.
    pub withdrawals: Option<Seq<Seq<u8>>>,
    /// The blobs.
    pub sidecars: Option<Seq<SidecarView>>,
}

/// The byte strings of a list.
pub open spec fn items_view(v: Vec<Vec<u8>>) -> Seq<Seq<u8>> {
    Seq::new(v@.len(), |i: int| v@[i]@)
}

/// The sidecars of a list.
pub open spec fn sidecars_view(v: Vec<BscBlobTransactionSidecar>) -> Seq<SidecarView> {
    Seq::new(v@.len(), |i: int| v@[i]@)
}

/// The byte strings of a list that may be missing.
pub open spec fn opt_items_view(v: Option<Vec<Vec<u8>>>) -> Option<Seq<Seq<u8>>> {
    match v {
        Some(v) => Some(items_view(v)),
        None => None,
    }
}

/// The sidecars of a list that may be missing.
pub open spec fn opt_sidecars_view(v: Option<Vec<BscBlobTransactionSidecar>>) -> Option<
    Seq<SidecarView>,
> {
    match v {
        Some(v) => Some(sidecars_view(v)),
        None => None,
    }
}

impl View for BscBlock {
    type V = BlockView;

    open spec fn view(&self) -> BlockView {
        BlockView {
            header: self.header@,
            transactions: items_view(self.transactions),
            ommers: items_view(self.ommers),
            withdrawals: opt_items_view(self.withdrawals),
            sidecars: opt_sidecars_view(self.sidecars),
        }
    }
}

/// Whether this is the block that says nothing and holds nothing.
pub open spec fn is_default_block(b: BlockView) -> bool {
    &&& is_default_header(b.header)
    &&& b.transactions.len() == 0
    &&& b.ommers.len() == 0
    &&& b.withdrawals is None
    &&& b.sidecars is None
}

impl Default for BscBlock {
    fn default() -> (r: Self)
        ensures
            is_default_block(r@),
    {
        BscBlock {
            header: Header::default(),
            transactions: Vec::new(),
            ommers: Vec::new(),
            withdrawals: None,
            sidecars: None,
        }
    }
}

/// Copies the byte strings of a list.
pub(crate) fn copy_items(items: &Vec<Vec<u8>>) -> (r: Vec<Vec<u8>>)
    ensures
        items_view(r) == items_view(*items),
{
    let mut out: Vec<Vec<u8>> = Vec::new();
    let mut i: usize = 0;
    while i < items.len()
        invariant
            i <= items@.len(),
            items_view(out) == items_view(*items).take(i as int),
        decreases items@.len() - i,
    {
        let ghost before = items_view(out);
        let item = to_vec(items[i].as_slice());
        let ghost v = item@;
        out.push(item);
        proof {
            assert(items_view(out) =~= before.push(v));
            assert(items_view(*items).take(i + 1) =~= items_view(*items).take(i as int).push(v));
        }
        i += 1;
    }
    proof {
        assert(items_view(*items).take(i as int) =~= items_view(*items));
    }
    out
}

impl Clone for BscBlobTransactionSidecar {
    fn clone(&self) -> (r: Self)
        ensures
            r@ == self@,
    {
        BscBlobTransactionSidecar {
            inner: to_vec(self.inner.as_slice()),
            block_number: self.block_number,
            block_hash: self.block_hash,
            tx_index: self.tx_index,
            tx_hash: self.tx_hash,
        }
    }
}

fn copy_sidecars(sidecars: &Vec<BscBlobTransactionSidecar>) -> (r: Vec<BscBlobTransactionSidecar>)
    ensures
        sidecars_view(r) == sidecars_view(*sidecars),
{
    let ghost all = sidecars_view(*sidecars);
    let mut out: Vec<BscBlobTransactionSidecar> = Vec::new();
    let mut i: usize = 0;
    while i < sidecars.len()
        invariant
            i <= sidecars@.len(),
            all == sidecars_view(*sidecars),
            sidecars_view(out) == all.take(i as int),
        decreases sidecars@.len() - i,
    {
        let ghost before = sidecars_view(out);
        out.push(sidecars[i].clone());
        proof {
            assert(sidecars_view(out) =~= before.push(all[i as int]));
            assert(all.take(i + 1) =~= all.take(i as int).push(all[i as int]));
        }
        i += 1;
    }
    proof {
        assert(all.take(i as int) =~= all);
    }
    out
}

impl Clone for BscBlock {
    fn clone(&self) -> (r: Self)
        ensures
            r@ == self@,
    {
        BscBlock {
            header: self.header.clone(),
            transactions: copy_items(&self.transactions),
            ommers: copy_items(&self.ommers),
            withdrawals: match &self.withdrawals {
                Some(items) => Some(copy_items(items)),
                None => None,
            },
            sidecars: match &self.sidecars {
                Some(items) => Some(copy_sidecars(items)),
                None => None,
            },
        }
    }
}

} // verus!
