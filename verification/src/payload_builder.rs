//! Filling a block with transactions of the pool.

use crate::block::BlockView;
use crate::block::BscBlobTransactionSidecar;
use crate::block::BscBlock;
use crate::block::SidecarView;
use crate::engine::BscBuiltPayload;
use crate::engine::BuildKind;
use crate::primitives::base256;
use crate::primitives::to_vec;
use crate::primitives::B256;
use crate::primitives::U256;
use vstd::prelude::*;

verus! {

/// What the rules read of a transaction of the pool.
#[derive(Clone, Copy, Debug)]
pub struct PoolTx {
    /// Its hash.
    pub hash: B256,
    /// How much gas it may use.
    pub gas_limit: u64,
    /// How many blobs it has; nothing where it is no blob transaction.
    pub blob_count: Option<u64>,
}

/// Which form the proofs of a sidecar have.
#[derive(Clone, Copy, Debug, PartialEq, Eq, Structural)]
pub enum SidecarKind {
    /// One proof for each blob.
    Eip4844,
    /// Proofs for the cells of each blob.
    Eip7594,
}

/// The blobs of a transaction in the pool.
#[derive(Debug)]
pub struct PoolSidecar {
    /// Which form its proofs have.
    pub kind: SidecarKind,
    /// Its encoding.
    pub encoded: Vec<u8>,
}

/// Why a transaction, and those that depend on it, are left out.
#[derive(Clone, Copy, Debug, PartialEq, Eq, Structural)]
pub enum RejectReason {
    /// It may use more gas than is left: its gas limit and that of the block.
    ExceedsGasLimit(u64, u64),
    /// It has more blobs than are left.
    TooManyEip4844Blobs {
        /// How many there would be.
        have: u64,
        /// How many there may be.
        permitted: u64,
    },
    /// Its blobs are missing.
    MissingEip4844BlobSidecar,
    /// The proofs of its blobs have the form that Osaka ended.
    UnexpectedEip4844SidecarAfterOsaka,
    /// The proofs of its blobs have the form that Osaka brings.
    UnexpectedEip7594SidecarBeforeOsaka,
    /// It is invalid.
    Invalid,
}

/// What execution made of a transaction.
#[derive(Clone, Copy, Debug)]
pub enum Execution {
    /// It was executed: the gas that it used and the tip per unit of gas.
    Done(u64, u128),
    /// Its nonce was used before.
    NonceTooLow,
    /// It is invalid.
    Invalid,
    /// Execution itself failed.
    Fatal,
}

/// What is done with a transaction before it is executed.
#[derive(Clone, Copy, Debug, PartialEq, Eq, Structural)]
pub enum TxAction {
    /// It is left out, with those that depend on it.
    MarkInvalid(RejectReason),
    /// The pool is asked for its blobs.
    LookUpBlobs,
    /// It is executed.
    Execute,
}

/// What follows from the execution of a transaction.
#[derive(Clone, Copy, Debug, PartialEq, Eq, Structural)]
pub enum NextTx {
    /// The next transaction.
    Continue,
    /// The next transaction that has no blobs.
    SkipBlobs,
    /// The next transaction that does not depend on this one.
    MarkInvalid(RejectReason),
    /// Nothing: the block is given up.
    Abort,
}

/// What is awaited of the transaction that was offered last.
#[derive(Debug)]
pub enum Stage {
    /// Nothing: the next transaction can be offered.
    Idle,
    /// Its blobs.
    Blobs(PoolTx),
    /// Its execution, with these blobs.
    Executed(PoolTx, Option<PoolSidecar>),
}

/// Builds a payload: fills a block with transactions of the pool.
pub struct BscPayloadBuilder {
    /// How much gas the block may use.
    pub block_gas_limit: u64,
    /// How many blobs it may have.
    pub max_blob_count: u64,
    /// Whether Osaka is active.
    pub osaka: bool,
    /// How much gas it uses.
    pub cumulative_gas_used: u64,
    /// How many blobs it has.
    pub block_blob_count: u64,
    /// The tips.
    pub total_fees: U256,
    /// The blobs by transaction.
    pub sidecars: Vec<(B256, PoolSidecar)>,
    /// What is awaited.
    pub stage: Stage,
}

/// Why a transaction does not fit into what is left of the block, if it does not.
pub open spec fn capacity_verdict(fill: BscPayloadBuilder, tx: PoolTx) -> Option<RejectReason> {
    if fill.cumulative_gas_used + tx.gas_limit > fill.block_gas_limit {
        Some(RejectReason::ExceedsGasLimit(tx.gas_limit, fill.block_gas_limit))
    } else {
        match tx.blob_count {
            Some(n) => if fill.block_blob_count + n > fill.max_blob_count {
                Some(
                    RejectReason::TooManyEip4844Blobs {
                        have: (fill.block_blob_count + n) as u64,
                        permitted: fill.max_blob_count,
                    },
                )
            } else {
                None
            },
            None => None,
        }
    }
}

/// Why the blobs that the pool has for a transaction cannot be used, if they cannot.
pub open spec fn sidecar_verdict(osaka: bool, kind: Option<SidecarKind>) -> Option<RejectReason> {
    match kind {
        None => Some(RejectReason::MissingEip4844BlobSidecar),
        Some(SidecarKind::Eip4844) => if osaka {
            Some(RejectReason::UnexpectedEip4844SidecarAfterOsaka)
        } else {
            None
        },
        Some(SidecarKind::Eip7594) => if osaka {
            None
        } else {
            Some(RejectReason::UnexpectedEip7594SidecarBeforeOsaka)
        },
    }
}

/// The blobs of a transaction: those that were added last.
pub open spec fn sidecar_of(s: Seq<(B256, PoolSidecar)>, hash: B256) -> Option<PoolSidecar>
    decreases s.len(),
{
    if s.len() == 0 {
        None
    } else if s.last().0 == hash {
        Some(s.last().1)
    } else {
        sidecar_of(s.drop_last(), hash)
    }
}

/// A transaction of the finished block.
#[derive(Clone, Copy, Debug)]
pub struct SealedTx {
    /// Its hash.
    pub hash: B256,
    /// Whether it is a blob transaction.
    pub is_blob: bool,
}

/// Whether there are blobs, in the form that blocks carry, for every blob transaction.
pub open spec fn sidecars_complete(s: Seq<(B256, PoolSidecar)>, txs: Seq<SealedTx>) -> bool {
    forall|i: int|
        0 <= i < txs.len() && (#[trigger] txs[i]).is_blob ==> (sidecar_of(s, txs[i].hash) matches Some(
            c,
        ) && c.kind == SidecarKind::Eip4844)
}

/// The blobs that a block carries: those of its blob transactions, in their order, each with the
/// place and the hash of its transaction.
pub open spec fn block_sidecars(
    s: Seq<(B256, PoolSidecar)>,
    txs: Seq<SealedTx>,
    block_number: u64,
    block_hash: B256,
) -> Seq<SidecarView>
    decreases txs.len(),
{
    if txs.len() == 0 {
        Seq::empty()
    } else {
        let rest = block_sidecars(s, txs.drop_last(), block_number, block_hash);
        if txs.last().is_blob {
            rest.push(
                SidecarView {
                    inner: sidecar_of(s, txs.last().hash)->0.encoded@,
                    block_number,
                    block_hash: block_hash@,
                    tx_index: (txs.len() - 1) as u64,
                    tx_hash: txs.last().hash@,
                },
            )
        } else {
            rest
        }
    }
}

impl BscPayloadBuilder {
    /// The block has no more blobs than it may have, and of the right form only. A transaction that
    /// is looked at fits, and has its blobs by the time it is executed.
    pub open spec fn wf(self) -> bool {
        &&& self.block_blob_count <= self.max_blob_count
        &&& forall|i: int|
            0 <= i < self.sidecars@.len() ==> sidecar_verdict(
                self.osaka,
                Some((#[trigger] self.sidecars@[i]).1.kind),
            ) is None
        &&& match self.stage {
            Stage::Idle => true,
            Stage::Blobs(tx) => capacity_verdict(self, tx) is None && tx.blob_count is Some,
            Stage::Executed(tx, sidecar) => capacity_verdict(self, tx) is None && match sidecar {
                Some(c) => tx.blob_count is Some && sidecar_verdict(self.osaka, Some(c.kind)) is None,
                None => tx.blob_count is None,
            },
        }
    }

    /// An empty block. Without blob parameters it may have no blobs.
    pub fn new(block_gas_limit: u64, max_blob_count: Option<u64>, osaka: bool) -> (r: Self)
        ensures
            r.wf(),
            r.block_gas_limit == block_gas_limit,
            r.max_blob_count == match max_blob_count {
                Some(n) => n,
                None => 0,
            },
            r.osaka == osaka,
            r.cumulative_gas_used == 0,
            r.block_blob_count == 0,
            r.total_fees.value() == 0,
            r.sidecars@.len() == 0,
            r.stage == Stage::Idle,
    {
        BscPayloadBuilder {
            block_gas_limit,
            max_blob_count: max_blob_count.unwrap_or(0),
            osaka,
            cumulative_gas_used: 0,
            block_blob_count: 0,
            total_fees: U256::zero(),
            sidecars: Vec::new(),
            stage: Stage::Idle,
        }
    }

    /// Whether a transaction fits into what is left of the block.
    fn check_capacity(&self, tx: &PoolTx) -> (r: Option<RejectReason>)
        requires
            self.wf(),
            tx.blob_count matches Some(n) ==> self.block_blob_count + n <= u64::MAX,
        ensures
            r == capacity_verdict(*self, *tx),
    {
        let fits = match self.cumulative_gas_used.checked_add(tx.gas_limit) {
            Some(gas) => gas <= self.block_gas_limit,
            None => false,
        };
        if !fits {
            return Some(RejectReason::ExceedsGasLimit(tx.gas_limit, self.block_gas_limit));
        }
        match tx.blob_count {
            Some(n) => {
                let have: u64 = self.block_blob_count + n;
                if have > self.max_blob_count {
                    return Some(
                        RejectReason::TooManyEip4844Blobs { have, permitted: self.max_blob_count },
                    );
                }
            },
            None => {},
        }
        None
    }

    /// Whether the blobs that the pool has for a blob transaction can be used.
    fn check_sidecar(&self, sidecar: Option<&PoolSidecar>) -> (r: Option<RejectReason>)
        ensures
            r == sidecar_verdict(
                self.osaka,
                match sidecar {
                    Some(s) => Some(s.kind),
                    None => None,
                },
            ),
    {
        match sidecar {
            None => Some(RejectReason::MissingEip4844BlobSidecar),
            Some(s) => match s.kind {
                SidecarKind::Eip4844 => if self.osaka {
                    Some(RejectReason::UnexpectedEip4844SidecarAfterOsaka)
                } else {
                    None
                },
                SidecarKind::Eip7594 => if self.osaka {
                    None
                } else {
                    Some(RejectReason::UnexpectedEip7594SidecarBeforeOsaka)
                },
            },
        }
    }

    /// The best transaction that is left is offered. One that does not fit is left out; for a blob
    /// transaction the pool is asked for its blobs; any other is executed.
    pub fn on_offered(&mut self, tx: PoolTx) -> (r: TxAction)
        requires
            old(self).wf(),
            old(self).stage == Stage::Idle,
            tx.blob_count matches Some(n) ==> old(self).block_blob_count + n <= u64::MAX,
        ensures
            final(self).wf(),
            match capacity_verdict(*old(self), tx) {
                Some(reason) => r == TxAction::MarkInvalid(reason) && *final(self) == *old(self),
                None => if tx.blob_count is Some {
                    r == TxAction::LookUpBlobs && *final(self) == (BscPayloadBuilder {
                        stage: Stage::Blobs(tx),
                        ..*old(self)
                    })
                } else {
                    r == TxAction::Execute && *final(self) == (BscPayloadBuilder {
                        stage: Stage::Executed(tx, None),
                        ..*old(self)
                    })
                },
            },
            r is MarkInvalid <==> old(self).cumulative_gas_used + tx.gas_limit
                > old(self).block_gas_limit || (tx.blob_count matches Some(n)
                && old(self).block_blob_count + n > old(self).max_blob_count),
            r is LookUpBlobs ==> tx.blob_count is Some,
            r is Execute ==> tx.blob_count is None,
    {
        match self.check_capacity(&tx) {
            Some(reason) => TxAction::MarkInvalid(reason),
            None => if tx.blob_count.is_some() {
                self.stage = Stage::Blobs(tx);
                TxAction::LookUpBlobs
            } else {
                self.stage = Stage::Executed(tx, None);
                TxAction::Execute
            },
        }
    }

    /// The pool was asked for the blobs of the transaction. Without blobs, or with proofs of the
    /// wrong form, it is left out; else it is executed.
    pub fn on_blobs(&mut self, sidecar: Option<PoolSidecar>) -> (r: TxAction)
        requires
            old(self).wf(),
            old(self).stage is Blobs,
        ensures
            final(self).wf(),
            match sidecar_verdict(
                old(self).osaka,
                match sidecar {
                    Some(c) => Some(c.kind),
                    None => None,
                },
            ) {
                Some(reason) => r == TxAction::MarkInvalid(reason) && *final(self) == (BscPayloadBuilder {
                    stage: Stage::Idle,
                    ..*old(self)
                }),
                None => r == TxAction::Execute && *final(self) == (BscPayloadBuilder {
                    stage: Stage::Executed(old(self).stage->Blobs_0, sidecar),
                    ..*old(self)
                }),
            },
            r is Execute <==> (sidecar matches Some(c) && (c.kind == SidecarKind::Eip7594)
                == old(self).osaka),
            r !is Execute ==> r is MarkInvalid,
    {
        let mut stage = Stage::Idle;
        std::mem::swap(&mut stage, &mut self.stage);
        match self.check_sidecar(sidecar.as_ref()) {
            Some(reason) => TxAction::MarkInvalid(reason),
            None => {
                match stage {
                    Stage::Blobs(tx) => {
                        self.stage = Stage::Executed(tx, sidecar);
                    },
                    _ => {},
                }
                TxAction::Execute
            },
        }
    }

    /// The transaction was executed, or was not. What was executed counts towards the limits and
    /// the fees, and its blobs are kept.
    pub fn on_executed(&mut self, execution: Execution) -> (r: NextTx)
        requires
            old(self).wf(),
            old(self).stage is Executed,
            execution matches Execution::Done(gas_used, tip) ==> old(self).cumulative_gas_used
                + gas_used <= u64::MAX,
        ensures
            final(self).wf(),
            final(self).stage == Stage::Idle,
            final(self).block_gas_limit == old(self).block_gas_limit,
            final(self).max_blob_count == old(self).max_blob_count,
            final(self).osaka == old(self).osaka,
            match execution {
                Execution::Done(gas_used, tip) => {
                    let tx = old(self).stage->Executed_0;
                    let blobs: nat = match tx.blob_count {
                        Some(n) => n as nat,
                        None => 0,
                    };
                    &&& final(self).cumulative_gas_used == old(self).cumulative_gas_used + gas_used
                    &&& final(self).block_blob_count == old(self).block_blob_count + blobs
                    &&& final(self).total_fees.value() == (old(self).total_fees.value() + tip
                        * gas_used) % base256() as int
                    &&& final(self).sidecars@ == match old(self).stage->Executed_1 {
                        Some(s) => old(self).sidecars@.push((tx.hash, s)),
                        None => old(self).sidecars@,
                    }
                    &&& r == if tx.blob_count is Some && final(self).block_blob_count
                        == old(self).max_blob_count {
                        NextTx::SkipBlobs
                    } else {
                        NextTx::Continue
                    }
                },
                Execution::NonceTooLow => r == NextTx::Continue && *final(self) == (BscPayloadBuilder {
                    stage: Stage::Idle,
                    ..*old(self)
                }),
                Execution::Invalid => r == NextTx::MarkInvalid(RejectReason::Invalid)
                    && *final(self) == (BscPayloadBuilder { stage: Stage::Idle, ..*old(self) }),
                Execution::Fatal => r == NextTx::Abort && *final(self) == (BscPayloadBuilder {
                    stage: Stage::Idle,
                    ..*old(self)
                }),
            },
            r is Abort <==> execution is Fatal,
            r is MarkInvalid <==> execution is Invalid,
            r is SkipBlobs ==> final(self).block_blob_count >= final(self).max_blob_count,
            final(self).block_blob_count > old(self).block_blob_count
                && final(self).block_blob_count == final(self).max_blob_count ==> r is SkipBlobs,
            execution !is Done ==> final(self).cumulative_gas_used == old(self).cumulative_gas_used
                && final(self).total_fees == old(self).total_fees && final(self).sidecars@
                == old(self).sidecars@,
            execution matches Execution::Done(gas_used, tip) && gas_used
                <= old(self).stage->Executed_0.gas_limit ==> final(self).cumulative_gas_used
                <= final(self).block_gas_limit,
    {
        let mut stage = Stage::Idle;
        std::mem::swap(&mut stage, &mut self.stage);
        let (tx, sidecar) = match stage {
            Stage::Executed(tx, sidecar) => (tx, sidecar),
            _ => return NextTx::Continue,
        };
        match execution {
            Execution::NonceTooLow => NextTx::Continue,
            Execution::Invalid => NextTx::MarkInvalid(RejectReason::Invalid),
            Execution::Fatal => NextTx::Abort,
            Execution::Done(gas_used, tip) => {
                let mut next = NextTx::Continue;
                match tx.blob_count {
                    Some(n) => {
                        self.block_blob_count = self.block_blob_count + n;
                        if self.block_blob_count == self.max_blob_count {
                            next = NextTx::SkipBlobs;
                        }
                    },
                    None => {},
                }
                let fee = U256::from_u128(tip).times(U256::from_u64(gas_used));
                proof {
                    assert(tip * gas_used
                        < 0x1_0000_0000_0000_0000_0000_0000_0000_0000_0000_0000_0000_0000int)
                        by (nonlinear_arith)
                        requires
                            0 <= tip < 0x1_0000_0000_0000_0000_0000_0000_0000_0000int,
                            0 <= gas_used < 0x1_0000_0000_0000_0000int,
                    ;
                    assert((tip as nat * gas_used as nat) % base256() == tip * gas_used) by {
                        vstd::arithmetic::div_mod::lemma_small_mod(
                            (tip * gas_used) as nat,
                            base256(),
                        );
                    }
                }
                self.total_fees = self.total_fees.plus(fee);
                self.cumulative_gas_used = self.cumulative_gas_used + gas_used;
                match sidecar {
                    Some(s) => {
                        self.sidecars.push((tx.hash, s));
                    },
                    None => {},
                }
                next
            },
        }
    }

    fn find_sidecar(&self, hash: &B256) -> (r: usize)
        requires
            sidecar_of(self.sidecars@, *hash) is Some,
        ensures
            r < self.sidecars@.len(),
            sidecar_of(self.sidecars@, *hash) == Some(self.sidecars@[r as int].1),
    {
        let mut left: usize = self.sidecars.len();
        proof {
            assert(self.sidecars@.take(left as int) =~= self.sidecars@);
        }
        while left > 0
            invariant
                left <= self.sidecars@.len(),
                sidecar_of(self.sidecars@, *hash) is Some,
                sidecar_of(self.sidecars@, *hash) == sidecar_of(
                    self.sidecars@.take(left as int),
                    *hash,
                ),
            decreases left,
        {
            proof {
                assert(self.sidecars@.take(left as int).drop_last() =~= self.sidecars@.take(
                    left - 1,
                ));
            }
            if self.sidecars[left - 1].0 == *hash {
                return left - 1;
            }
            left -= 1;
        }
        0
    }

    /// The blobs that the finished block carries.
    pub fn attach_sidecars(&self, txs: &Vec<SealedTx>, block_number: u64, block_hash: B256) -> (r:
        Vec<BscBlobTransactionSidecar>)
        requires
            sidecars_complete(self.sidecars@, txs@),
        ensures
            crate::block::sidecars_view(r) == block_sidecars(
                self.sidecars@,
                txs@,
                block_number,
                block_hash,
            ),
    {
        let mut out: Vec<BscBlobTransactionSidecar> = Vec::new();
        let mut i: usize = 0;
        proof {
            assert(crate::block::sidecars_view(out) =~= Seq::<SidecarView>::empty());
        }
        while i < txs.len()
            invariant
                i <= txs@.len(),
                sidecars_complete(self.sidecars@, txs@),
                crate::block::sidecars_view(out) == block_sidecars(
                    self.sidecars@,
                    txs@.take(i as int),
                    block_number,
                    block_hash,
                ),
            decreases txs@.len() - i,
        {
            let tx = txs[i];
            proof {
                assert(txs@.take(i + 1).drop_last() =~= txs@.take(i as int));
                assert(txs@.take(i + 1).last() == tx);
            }
            if tx.is_blob {
                let at: usize = self.find_sidecar(&tx.hash);
                let ghost before = crate::block::sidecars_view(out);
                let sidecar = BscBlobTransactionSidecar {
                    inner: to_vec(self.sidecars[at].1.encoded.as_slice()),
                    block_number,
                    block_hash,
                    tx_index: i as u64,
                    tx_hash: tx.hash,
                };
                let ghost v = sidecar@;
                out.push(sidecar);
                proof {
                    assert(crate::block::sidecars_view(out) =~= before.push(v));
                }
            }
            i += 1;
        }
        proof {
            assert(txs@.take(i as int) =~= txs@);
        }
        out
    }

    /// The payload that is made of the finished block: the block with its blobs, and the fees.
    pub fn build_payload(
        self,
        block: BscBlock,
        txs: &Vec<SealedTx>,
        block_hash: B256,
        requests: Option<Vec<Vec<u8>>>,
    ) -> (r: BscBuiltPayload)
        requires
            sidecars_complete(self.sidecars@, txs@),
        ensures
            r.block@ == (BlockView {
                sidecars: Some(
                    block_sidecars(self.sidecars@, txs@, block.header.number, block_hash),
                ),
                ..block@
            }),
            r.fees == self.total_fees,
            r.requests == requests,
            r.build_kind == BuildKind::NormalAttempt,
    {
        let sidecars = self.attach_sidecars(txs, block.header.number, block_hash);
        BscBuiltPayload {
            block: BscBlock {
                header: block.header,
                transactions: block.transactions,
                ommers: block.ommers,
                withdrawals: block.withdrawals,
                sidecars: Some(sidecars),
            },
            fees: self.total_fees,
            requests,
            build_kind: BuildKind::NormalAttempt,
        }
    }
}

/// As long as no transaction uses more gas than it may, the block uses no more than it may: one that
/// is executed fits into what is left.
pub proof fn law_block_keeps_to_its_gas_limit(fill: BscPayloadBuilder, gas_used: u64)
    requires
        fill.wf(),
        fill.stage is Executed,
        gas_used <= fill.stage->Executed_0.gas_limit,
    ensures
        fill.cumulative_gas_used + gas_used <= fill.block_gas_limit,
{
}

/// The blobs of a transaction are found once they are kept, and keeping them loses no others.
pub proof fn law_kept_blobs_are_found(
    kept: Seq<(B256, PoolSidecar)>,
    hash: B256,
    sidecar: PoolSidecar,
    other: B256,
)
    ensures
        sidecar_of(kept.push((hash, sidecar)), hash) == Some(sidecar),
        other != hash ==> sidecar_of(kept.push((hash, sidecar)), other) == sidecar_of(kept, other),
{
    assert(kept.push((hash, sidecar)).drop_last() =~= kept);
}

/// Before Osaka a block can be given the blobs of any transactions whose blobs were kept: they all
/// have the form that blocks carry.
pub proof fn law_kept_blobs_can_be_attached(fill: BscPayloadBuilder, txs: Seq<SealedTx>)
    requires
        fill.wf(),
        !fill.osaka,
        forall|i: int|
            0 <= i < txs.len() && (#[trigger] txs[i]).is_blob ==> sidecar_of(
                fill.sidecars@,
                txs[i].hash,
            ) is Some,
    ensures
        sidecars_complete(fill.sidecars@, txs),
{
    assert forall|i: int| 0 <= i < txs.len() && (#[trigger] txs[i]).is_blob implies (sidecar_of(
        fill.sidecars@,
        txs[i].hash,
    ) matches Some(c) && c.kind == SidecarKind::Eip4844) by {
        lemma_sidecar_is_kept(fill.sidecars@, txs[i].hash);
    }
}

/// Blobs that are found are among those that were kept.
proof fn lemma_sidecar_is_kept(kept: Seq<(B256, PoolSidecar)>, hash: B256)
    ensures
        sidecar_of(kept, hash) matches Some(c) ==> exists|i: int|
            0 <= i < kept.len() && (#[trigger] kept[i]).1 == c,
    decreases kept.len(),
{
    if kept.len() > 0 {
        if kept.last().0 == hash {
            assert(kept[kept.len() - 1].1 == kept.last().1);
        } else {
            lemma_sidecar_is_kept(kept.drop_last(), hash);
            if sidecar_of(kept.drop_last(), hash) is Some {
                let i = choose|i: int|
                    0 <= i < kept.drop_last().len() && (#[trigger] kept.drop_last()[i]).1
                        == sidecar_of(kept.drop_last(), hash)->0;
                assert(kept[i].1 == sidecar_of(kept, hash)->0);
            }
        }
    }
}

/// A transaction fits exactly where its gas limit and its blobs leave both sums within what the
/// block may have; the gas is looked at first.
pub proof fn law_what_fits_is_not_left_out(fill: BscPayloadBuilder, tx: PoolTx)
    ensures
        capacity_verdict(fill, tx) is None <==> {
            &&& tx.gas_limit <= fill.block_gas_limit - fill.cumulative_gas_used
            &&& (tx.blob_count matches Some(n) ==> n <= fill.max_blob_count - fill.block_blob_count)
        },
        tx.gas_limit > fill.block_gas_limit - fill.cumulative_gas_used ==> capacity_verdict(
            fill,
            tx,
        ) == Some(RejectReason::ExceedsGasLimit(tx.gas_limit, fill.block_gas_limit)),
        match capacity_verdict(fill, tx) {
            Some(RejectReason::TooManyEip4844Blobs { have, permitted }) => {
                &&& permitted == fill.max_blob_count
                &&& tx.blob_count matches Some(n)
                &&& fill.block_blob_count + n <= u64::MAX ==> have == fill.block_blob_count + n
                    && have > permitted
            },
            Some(RejectReason::ExceedsGasLimit(asked, allowed)) => asked == tx.gas_limit && allowed
                == fill.block_gas_limit,
            Some(_) => false,
            None => true,
        },
{
}

/// As long as the block is well formed, the blobs of a transaction that is executed fit as well.
pub proof fn law_block_keeps_to_its_blob_limit(fill: BscPayloadBuilder, blobs: u64)
    requires
        fill.wf(),
        fill.stage is Executed,
        fill.stage->Executed_0.blob_count == Some(blobs),
    ensures
        fill.block_blob_count + blobs <= fill.max_blob_count,
        fill.stage->Executed_1 is Some,
{
}

/// Blobs are needed, and each form of their proofs is good on one side of Osaka only: the older one
/// before it and the newer one from it on.
pub proof fn law_osaka_changes_the_form_of_proofs(osaka: bool)
    ensures
        sidecar_verdict(osaka, None) == Some(RejectReason::MissingEip4844BlobSidecar),
        sidecar_verdict(osaka, Some(SidecarKind::Eip4844)) is None <==> !osaka,
        sidecar_verdict(osaka, Some(SidecarKind::Eip7594)) is None <==> osaka,
        osaka ==> sidecar_verdict(osaka, Some(SidecarKind::Eip4844)) == Some(
            RejectReason::UnexpectedEip4844SidecarAfterOsaka,
        ),
        !osaka ==> sidecar_verdict(osaka, Some(SidecarKind::Eip7594)) == Some(
            RejectReason::UnexpectedEip7594SidecarBeforeOsaka,
        ),
{
}

/// A block carries the blobs of each of its blob transactions once and no others, in the order of
/// the transactions, each with the place and the hash of its transaction and with the block's own
/// number and hash.
pub proof fn law_block_carries_the_blobs_of_its_transactions(
    kept: Seq<(B256, PoolSidecar)>,
    txs: Seq<SealedTx>,
    block_number: u64,
    block_hash: B256,
)
    requires
        txs.len() <= u64::MAX,
    ensures
        ({
            let carried = block_sidecars(kept, txs, block_number, block_hash);
            &&& forall|j: int|
                0 <= j < carried.len() ==> {
                    let c = #[trigger] carried[j];
                    &&& c.tx_index < txs.len()
                    &&& txs[c.tx_index as int].is_blob
                    &&& c.tx_hash == txs[c.tx_index as int].hash@
                    &&& c.block_number == block_number
                    &&& c.block_hash == block_hash@
                    &&& c.inner == sidecar_of(kept, txs[c.tx_index as int].hash)->0.encoded@
                }
            &&& forall|i: int, j: int|
                0 <= i < j < carried.len() ==> (#[trigger] carried[i]).tx_index < (
                #[trigger] carried[j]).tx_index
            &&& forall|i: int|
                0 <= i < txs.len() && (#[trigger] txs[i]).is_blob ==> exists|j: int|
                    0 <= j < carried.len() && (#[trigger] carried[j]).tx_index == i
        }),
    decreases txs.len(),
{
    if txs.len() > 0 {
        let rest = txs.drop_last();
        law_block_carries_the_blobs_of_its_transactions(kept, rest, block_number, block_hash);
        let before = block_sidecars(kept, rest, block_number, block_hash);
        let carried = block_sidecars(kept, txs, block_number, block_hash);
        assert forall|j: int| 0 <= j < carried.len() implies {
            let c = #[trigger] carried[j];
            &&& c.tx_index < txs.len()
            &&& txs[c.tx_index as int].is_blob
            &&& c.tx_hash == txs[c.tx_index as int].hash@
            &&& c.block_number == block_number
            &&& c.block_hash == block_hash@
            &&& c.inner == sidecar_of(kept, txs[c.tx_index as int].hash)->0.encoded@
            &&& j < before.len() ==> c.tx_index < rest.len()
        } by {
            if j < before.len() {
                assert(carried[j] == before[j]);
                assert(rest[carried[j].tx_index as int] == txs[carried[j].tx_index as int]);
            }
        }
        assert forall|i: int, j: int| 0 <= i < j < carried.len() implies (
        #[trigger] carried[i]).tx_index < (#[trigger] carried[j]).tx_index by {
            assert(carried[i] == before[i]);
            if j < before.len() {
                assert(carried[j] == before[j]);
            }
        }
        assert forall|i: int| 0 <= i < txs.len() && (#[trigger] txs[i]).is_blob implies exists|j: int|
            0 <= j < carried.len() && (#[trigger] carried[j]).tx_index == i by {
            if i < rest.len() {
                assert(rest[i].is_blob);
                let j = choose|j: int|
                    0 <= j < before.len() && (#[trigger] before[j]).tx_index == i;
                assert(carried[j].tx_index == i);
            } else {
                assert(carried[before.len() as int].tx_index == i);
            }
        }
    }
}

} // verus!
