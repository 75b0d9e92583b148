//! Handing blocks to the engine's interface, and waiting for its verdict.

use crate::primitives::Address;
use crate::primitives::B256;
use crate::primitives::U256;
use crate::rlp;
use crate::rlp::keccak;
use vstd::prelude::*;

verus! {

/// How many milliseconds to wait for a node that is syncing.
pub const SYNC_RETRY_MS: u64 = 200;

/// The versions of the engine's messages.
#[derive(Clone, Copy, Debug, PartialEq, Eq, Structural)]
pub enum EngineApiMessageVersion {
    /// Version 1.
    V1,
    /// Version 2: withdrawals.
    V2,
    /// Version 3: blobs.
    V3,
    /// Version 4: requests.
    V4,
    /// Version 5.
    V5,
}

/// A block as the first version of the engine's messages has it.
#[derive(Debug)]
pub struct ExecutionPayloadV1 {
    /// Hash of the parent.
    pub parent_hash: B256,
    /// The account that gets the fees.
    pub fee_recipient: Address,
    /// Root of the state.
    pub state_root: B256,
    /// Root of the receipts.
    pub receipts_root: B256,
    /// The logs' bloom filter.
    pub logs_bloom: Vec<u8>,
    /// What stands for randomness.
    pub prev_randao: B256,
    /// Number of the block.
    pub block_number: u64,
    /// How much gas the block may use.
    pub gas_limit: u64,
    /// How much gas the block uses.
    pub gas_used: u64,
    /// When the block was made.
    pub timestamp: u64,
    /// What the sealer adds.
    pub extra_data: Vec<u8>,
    /// The base fee.
    pub base_fee_per_gas: U256,
    /// Hash of the block.
    pub block_hash: B256,
    /// The transactions, each in its encoding.
    pub transactions: Vec<Vec<u8>>,
}

/// A block as the second version has it.
#[derive(Debug)]
pub struct ExecutionPayloadV2 {
    /// What the first version has.
    pub payload_inner: ExecutionPayloadV1,
    /// The withdrawals, each in its encoding.
    pub withdrawals: Vec<Vec<u8>>,
}

/// A block as the third version has it.
#[derive(Debug)]
pub struct ExecutionPayloadV3 {
    /// What the second version has.
    pub payload_inner: ExecutionPayloadV2,
    /// How much blob gas the block uses.
    pub blob_gas_used: u64,
    /// Its excess blob gas.
    pub excess_blob_gas: u64,
}

/// A block in the version that its fields ask for.
#[derive(Debug)]
pub enum ExecutionPayload {
    /// The first.
    V1(ExecutionPayloadV1),
    /// The second.
    V2(ExecutionPayloadV2),
    /// The third.
    V3(ExecutionPayloadV3),
}

/// What goes with a block from the fork that has blobs on.
#[derive(Debug)]
pub struct CancunFields {
    /// The hashes of the blobs.
    pub versioned_hashes: Vec<B256>,
    /// Root of the parent beacon block.
    pub parent_beacon_block_root: B256,
}

/// What goes with a block beside its payload, from the forks on that ask for it.
#[derive(Debug)]
pub struct PayloadSidecar {
    /// From the fork that has blobs on.
    pub cancun: Option<CancunFields>,
    /// The hash of the requests, from the fork that has requests on.
    pub prague: Option<B256>,
}

/// A transaction of a block.
#[derive(Debug)]
pub struct BodyTransaction {
    /// Its encoding, with its type in front.
    pub encoded: Vec<u8>,
    /// The hashes of its blobs, where it is a blob transaction.
    pub blob_versioned_hashes: Option<Vec<B256>>,
}

/// A block of any chain.
#[derive(Debug)]
pub struct ConsensusBlock {
    /// The encoding of its header, which its hash is computed from.
    pub encoded_header: Vec<u8>,
    /// Hash of the parent.
    pub parent_hash: B256,
    /// The account that gets the fees.
    pub beneficiary: Address,
    /// Root of the state.
    pub state_root: B256,
    /// Root of the receipts.
    pub receipts_root: B256,
    /// The logs' bloom filter.
    pub logs_bloom: Vec<u8>,
    /// What stands for randomness.
    pub mix_hash: B256,
    /// Number of the block.
    pub number: u64,
    /// How much gas the block may use.
    pub gas_limit: u64,
    /// How much gas the block uses.
    pub gas_used: u64,
    /// When the block was made.
    pub timestamp: u64,
    /// What the sealer adds.
    pub extra_data: Vec<u8>,
    /// The base fee, from the fork that has one on.
    pub base_fee_per_gas: Option<u64>,
    /// Root of the withdrawals, from the fork that has them on.
    pub withdrawals_root: Option<B256>,
    /// How much blob gas the block uses, from the fork that has blobs on.
    pub blob_gas_used: Option<u64>,
    /// Its excess blob gas, from the fork that has blobs on.
    pub excess_blob_gas: Option<u64>,
    /// Root of the parent beacon block, from the fork that has blobs on.
    pub parent_beacon_block_root: Option<B256>,
    /// The hash of the requests, from the fork that has requests on.
    pub requests_hash: Option<B256>,
    /// The transactions.
    pub transactions: Vec<BodyTransaction>,
    /// The withdrawals, each in its encoding, where the block has a list of them.
    pub withdrawals: Option<Vec<Vec<u8>>>,
}

/// The hashes of all blobs of the transactions, in their order.
pub open spec fn blob_hashes(txs: Seq<BodyTransaction>) -> Seq<B256>
    decreases txs.len(),
{
    if txs.len() == 0 {
        Seq::empty()
    } else {
        let rest = blob_hashes(txs.drop_last());
        match txs.last().blob_versioned_hashes {
            Some(hashes) => rest + hashes@,
            None => rest,
        }
    }
}

/// The number, or zero where there is none.
pub open spec fn or_zero(n: Option<u64>) -> u64 {
    match n {
        Some(n) => n,
        None => 0,
    }
}

impl ConsensusBlock {
    /// Whether the first version of the messages says this of the block.
    pub open spec fn is_v1(self, p: ExecutionPayloadV1) -> bool {
        &&& p.parent_hash == self.parent_hash
        &&& p.fee_recipient == self.beneficiary
        &&& p.state_root == self.state_root
        &&& p.receipts_root == self.receipts_root
        &&& p.logs_bloom == self.logs_bloom
        &&& p.prev_randao == self.mix_hash
        &&& p.block_number == self.number
        &&& p.gas_limit == self.gas_limit
        &&& p.gas_used == self.gas_used
        &&& p.timestamp == self.timestamp
        &&& p.extra_data == self.extra_data
        &&& p.base_fee_per_gas.value() == or_zero(self.base_fee_per_gas)
        &&& p.block_hash@ == keccak(self.encoded_header@)
        &&& p.transactions@ == Seq::new(
            self.transactions@.len(),
            |i: int| self.transactions@[i].encoded,
        )
    }

    /// Whether these are the withdrawals of the block.
    pub open spec fn has_withdrawals(self, w: Vec<Vec<u8>>) -> bool {
        match self.withdrawals {
            Some(own) => w == own,
            None => w@.len() == 0,
        }
    }

    /// Whether this is the payload of the block, in the version that its fields ask for: the third
    /// where it has the root of a beacon block, the second where it has a list of withdrawals.
    pub open spec fn is_payload(self, p: ExecutionPayload) -> bool {
        if self.parent_beacon_block_root is Some {
            &&& p matches ExecutionPayload::V3(v3)
            &&& self.is_v1(v3.payload_inner.payload_inner)
            &&& self.has_withdrawals(v3.payload_inner.withdrawals)
            &&& v3.blob_gas_used == or_zero(self.blob_gas_used)
            &&& v3.excess_blob_gas == or_zero(self.excess_blob_gas)
        } else if self.withdrawals is Some {
            &&& p matches ExecutionPayload::V2(v2)
            &&& self.is_v1(v2.payload_inner)
            &&& self.has_withdrawals(v2.withdrawals)
        } else {
            p matches ExecutionPayload::V1(v1) && self.is_v1(v1)
        }
    }

    /// Whether this goes with the payload of the block: the blobs' hashes with the root of the
    /// beacon block, and the hash of the requests; nothing without that root.
    pub open spec fn is_sidecar(self, s: PayloadSidecar) -> bool {
        match self.parent_beacon_block_root {
            Some(root) => {
                &&& s.cancun matches Some(cancun)
                &&& cancun.parent_beacon_block_root == root
                &&& cancun.versioned_hashes@ == blob_hashes(self.transactions@)
                &&& s.prague == self.requests_hash
            },
            None => s.cancun is None && s.prague is None,
        }
    }
}

impl ExecutionPayload {
    /// The payload of a block, in the version that its fields ask for, and what goes with it. The
    /// hash of the block is computed.
    pub fn from_block_slow(block: ConsensusBlock) -> (r: (ExecutionPayload, PayloadSidecar))
        ensures
            block.is_payload(r.0),
            block.is_sidecar(r.1),
    {
        let ghost all = block.transactions@;
        let block_hash = rlp::keccak256(block.encoded_header.as_slice());
        let mut transactions: Vec<Vec<u8>> = Vec::new();
        let mut versioned_hashes: Vec<B256> = Vec::new();
        for tx in it: block.transactions
            invariant
                it.seq() == all,
                transactions@ == Seq::new(it.index() as nat, |i: int| all[i].encoded),
                versioned_hashes@ == blob_hashes(all.take(it.index())),
        {
            proof {
                let n = it.index();
                assert(tx == all[n]);
                assert(all.take(n + 1).drop_last() =~= all.take(n));
                assert(all.take(n + 1).last() == tx);
            }
            match tx.blob_versioned_hashes {
                Some(hashes) => {
                    let mut hashes = hashes;
                    versioned_hashes.append(&mut hashes);
                },
                None => {},
            }
            transactions.push(tx.encoded);
        }
        proof {
            assert(all.take(all.len() as int) =~= all);
        }
        let payload_inner = ExecutionPayloadV1 {
            parent_hash: block.parent_hash,
            fee_recipient: block.beneficiary,
            state_root: block.state_root,
            receipts_root: block.receipts_root,
            logs_bloom: block.logs_bloom,
            prev_randao: block.mix_hash,
            block_number: block.number,
            gas_limit: block.gas_limit,
            gas_used: block.gas_used,
            timestamp: block.timestamp,
            extra_data: block.extra_data,
            base_fee_per_gas: U256::from_u64(block.base_fee_per_gas.unwrap_or(0)),
            block_hash,
            transactions,
        };
        match block.parent_beacon_block_root {
            Some(parent_beacon_block_root) => {
                let withdrawals = match block.withdrawals {
                    Some(withdrawals) => withdrawals,
                    None => Vec::new(),
                };
                let payload = ExecutionPayloadV3 {
                    payload_inner: ExecutionPayloadV2 { payload_inner, withdrawals },
                    blob_gas_used: block.blob_gas_used.unwrap_or(0),
                    excess_blob_gas: block.excess_blob_gas.unwrap_or(0),
                };
                let cancun = CancunFields { versioned_hashes, parent_beacon_block_root };
                (
                    ExecutionPayload::V3(payload),
                    PayloadSidecar { cancun: Some(cancun), prague: block.requests_hash },
                )
            },
            None => {
                let sidecar = PayloadSidecar { cancun: None, prague: None };
                match block.withdrawals {
                    Some(withdrawals) => (
                        ExecutionPayload::V2(ExecutionPayloadV2 { payload_inner, withdrawals }),
                        sidecar,
                    ),
                    None => (ExecutionPayload::V1(payload_inner), sidecar),
                }
            },
        }
    }
}

/// What is sent with a block.
#[derive(Debug)]
pub enum NewPayloadParams {
    /// The block alone.
    V1(ExecutionPayloadV1),
    /// The block and its withdrawals.
    V2 {
        /// The block.
        execution_payload: ExecutionPayloadV1,
        /// The withdrawals.
        withdrawals: Vec<Vec<u8>>,
    },
    /// The block and what goes with blobs.
    V3 {
        /// The block.
        payload: ExecutionPayloadV3,
        /// What goes with blobs.
        cancun: CancunFields,
    },
    /// The block, what goes with blobs, and the hash of the requests.
    V4 {
        /// The block.
        payload: ExecutionPayloadV3,
        /// What goes with blobs.
        cancun: CancunFields,
        /// The hash of the requests.
        requests_hash: B256,
    },
    /// The block of a rollup with the root of its withdrawals, what goes with blobs, and no
    /// requests.
    RollupV4 {
        /// The block.
        payload: ExecutionPayloadV3,
        /// Root of the withdrawals.
        withdrawals_root: B256,
        /// What goes with blobs.
        cancun: CancunFields,
    },
}

/// A message with a block.
#[derive(Debug)]
pub struct NewPayload {
    /// Its version.
    pub version: EngineApiMessageVersion,
    /// What is sent.
    pub params: NewPayloadParams,
}

/// What a block says in the first version.
pub open spec fn first_version(p: ExecutionPayload) -> ExecutionPayloadV1 {
    match p {
        ExecutionPayload::V1(p) => p,
        ExecutionPayload::V2(p) => p.payload_inner,
        ExecutionPayload::V3(p) => p.payload_inner.payload_inner,
    }
}

/// The message with a block. This chain is always sent the first version; other chains are sent
/// the one that their block asks for, and the fourth where the block has requests.
pub open spec fn new_payload_message(
    payload: ExecutionPayload,
    cancun: Option<CancunFields>,
    prague: Option<B256>,
    withdrawals_root: Option<B256>,
    is_optimism: bool,
    is_bsc: bool,
) -> NewPayload {
    if is_bsc {
        NewPayload {
            version: EngineApiMessageVersion::V1,
            params: NewPayloadParams::V1(first_version(payload)),
        }
    } else {
        match payload {
            ExecutionPayload::V1(p) => NewPayload {
                version: EngineApiMessageVersion::V1,
                params: NewPayloadParams::V1(p),
            },
            ExecutionPayload::V2(p) => NewPayload {
                version: EngineApiMessageVersion::V2,
                params: NewPayloadParams::V2 {
                    execution_payload: p.payload_inner,
                    withdrawals: p.withdrawals,
                },
            },
            ExecutionPayload::V3(p) => match prague {
                None => NewPayload {
                    version: EngineApiMessageVersion::V3,
                    params: NewPayloadParams::V3 { payload: p, cancun: cancun->0 },
                },
                Some(requests_hash) => NewPayload {
                    version: EngineApiMessageVersion::V4,
                    params: if is_optimism {
                        NewPayloadParams::RollupV4 {
                            payload: p,
                            withdrawals_root: withdrawals_root->0,
                            cancun: cancun->0,
                        }
                    } else {
                        NewPayloadParams::V4 { payload: p, cancun: cancun->0, requests_hash }
                    },
                },
            },
        }
    }
}

/// The message with the payload of a block. `cancun` and `prague` are what goes with blocks that
/// have blobs and requests, the latter as the hash of the requests.
pub fn message_for(
    payload: ExecutionPayload,
    cancun: Option<CancunFields>,
    prague: Option<B256>,
    withdrawals_root: Option<B256>,
    is_optimism: bool,
    is_bsc: bool,
) -> (r: NewPayload)
    requires
        !is_bsc && payload is V3 ==> cancun is Some,
        !is_bsc && payload is V3 && prague is Some && is_optimism ==> withdrawals_root is Some,
    ensures
        r == new_payload_message(payload, cancun, prague, withdrawals_root, is_optimism, is_bsc),
{
    if is_bsc {
        let v1_payload = match payload {
            ExecutionPayload::V1(p) => p,
            ExecutionPayload::V2(p) => p.payload_inner,
            ExecutionPayload::V3(p) => p.payload_inner.payload_inner,
        };
        return NewPayload {
            version: EngineApiMessageVersion::V1,
            params: NewPayloadParams::V1(v1_payload),
        };
    }
    match payload {
        ExecutionPayload::V1(p) => NewPayload {
            version: EngineApiMessageVersion::V1,
            params: NewPayloadParams::V1(p),
        },
        ExecutionPayload::V2(p) => NewPayload {
            version: EngineApiMessageVersion::V2,
            params: NewPayloadParams::V2 {
                execution_payload: p.payload_inner,
                withdrawals: p.withdrawals,
            },
        },
        ExecutionPayload::V3(p) => {
            let cancun = cancun.unwrap();
            match prague {
                None => NewPayload {
                    version: EngineApiMessageVersion::V3,
                    params: NewPayloadParams::V3 { payload: p, cancun },
                },
                Some(requests_hash) => {
                    let params = if is_optimism {
                        NewPayloadParams::RollupV4 {
                            payload: p,
                            withdrawals_root: withdrawals_root.unwrap(),
                            cancun,
                        }
                    } else {
                        NewPayloadParams::V4 { payload: p, cancun, requests_hash }
                    };
                    NewPayload { version: EngineApiMessageVersion::V4, params }
                },
            }
        },
    }
}

/// The message with a block, in the version that the chain is sent.
pub fn block_to_new_payload(block: ConsensusBlock, is_optimism: bool, is_bsc: bool) -> (r:
    NewPayload)
    requires
        !is_bsc && is_optimism && block.parent_beacon_block_root is Some && block.requests_hash
            is Some ==> block.withdrawals_root is Some,
    ensures
        exists|payload: ExecutionPayload, sidecar: PayloadSidecar| #[trigger]
            block.is_payload(payload) && #[trigger] block.is_sidecar(sidecar) && r
                == new_payload_message(
                payload,
                sidecar.cancun,
                sidecar.prague,
                block.withdrawals_root,
                is_optimism,
                is_bsc,
            ),
{
    let withdrawals_root = block.withdrawals_root;
    let (payload, sidecar) = ExecutionPayload::from_block_slow(block);
    message_for(payload, sidecar.cancun, sidecar.prague, withdrawals_root, is_optimism, is_bsc)
}

/// What the engine says of a block.
#[derive(Clone, Copy, Debug, PartialEq, Eq, Structural)]
pub enum PayloadStatus {
    /// It is valid.
    Valid,
    /// It is invalid.
    Invalid,
    /// The node is syncing.
    Syncing,
    /// It was taken up, and was not looked at yet.
    Accepted,
}

/// What follows from what the engine says of a new head.
#[derive(Clone, Copy, Debug, PartialEq, Eq, Structural)]
pub enum WaitStep {
    /// Nothing is left to do.
    Done,
    /// The run is given up: the block is invalid.
    GiveUp,
    /// The message is sent again after so many milliseconds.
    RetryAfter(u64),
}

/// What follows from what the engine says of a new head: a node that is syncing is given time, and
/// any other undecided one is asked again at once.
pub fn fork_choice_step(status: PayloadStatus) -> (r: WaitStep)
    ensures
        r == match status {
            PayloadStatus::Valid => WaitStep::Done,
            PayloadStatus::Invalid => WaitStep::GiveUp,
            PayloadStatus::Syncing => WaitStep::RetryAfter(SYNC_RETRY_MS),
            PayloadStatus::Accepted => WaitStep::RetryAfter(0),
        },
        r is Done <==> status is Valid,
        r is GiveUp <==> status is Invalid,
        r matches WaitStep::RetryAfter(ms) ==> ms == if status is Syncing {
            200u64
        } else {
            0
        },
{
    match status {
        PayloadStatus::Valid => WaitStep::Done,
        PayloadStatus::Invalid => WaitStep::GiveUp,
        PayloadStatus::Syncing => WaitStep::RetryAfter(SYNC_RETRY_MS),
        PayloadStatus::Accepted => WaitStep::RetryAfter(0),
    }
}

/// What follows from what the engine says of a new block.
#[derive(Clone, Copy, Debug, PartialEq, Eq, Structural)]
pub enum NewPayloadStep {
    /// Nothing is left to do.
    Done,
    /// The run is given up: the block is invalid.
    GiveUp,
    /// The call fails: the node does not have the parent's state.
    MissingParent,
    /// The message is sent again.
    Retry,
}

impl NewPayloadStep {
    /// What the caller is told where the parent's state is missing.
    pub fn missing_parent_message() -> (r: &'static str)
        ensures
            r@ == "invalid range: no canonical state found for parent of requested block"@,
    {
        "invalid range: no canonical state found for parent of requested block"
    }
}

/// What follows from what the engine says of a new block.
pub fn new_payload_step(status: PayloadStatus) -> (r: NewPayloadStep)
    ensures
        r == match status {
            PayloadStatus::Valid => NewPayloadStep::Done,
            PayloadStatus::Invalid => NewPayloadStep::GiveUp,
            PayloadStatus::Syncing => NewPayloadStep::MissingParent,
            PayloadStatus::Accepted => NewPayloadStep::Retry,
        },
        r is Done <==> status is Valid,
        r is GiveUp <==> status is Invalid,
        r is MissingParent <==> status is Syncing,
{
    match status {
        PayloadStatus::Valid => NewPayloadStep::Done,
        PayloadStatus::Invalid => NewPayloadStep::GiveUp,
        PayloadStatus::Syncing => NewPayloadStep::MissingParent,
        PayloadStatus::Accepted => NewPayloadStep::Retry,
    }
}

/// The version of the message on a new head that goes with a version of the message on a block:
/// there is none above the third.
pub fn fork_choice_version(version: EngineApiMessageVersion) -> (r: EngineApiMessageVersion)
    ensures
        r == match version {
            EngineApiMessageVersion::V1 => EngineApiMessageVersion::V1,
            EngineApiMessageVersion::V2 => EngineApiMessageVersion::V2,
            _ => EngineApiMessageVersion::V3,
        },
        r is V1 <==> version is V1,
        r is V2 <==> version is V2,
        r !is V4 && r !is V5,
{
    match version {
        EngineApiMessageVersion::V3
        | EngineApiMessageVersion::V4
        | EngineApiMessageVersion::V5 => EngineApiMessageVersion::V3,
        EngineApiMessageVersion::V2 => EngineApiMessageVersion::V2,
        EngineApiMessageVersion::V1 => EngineApiMessageVersion::V1,
    }
}

/// This chain is sent every block in the first version, with all that the first version has.
pub proof fn law_this_chain_is_sent_the_first_version(
    payload: ExecutionPayload,
    cancun: Option<CancunFields>,
    prague: Option<B256>,
    withdrawals_root: Option<B256>,
    is_optimism: bool,
)
    ensures
        ({
            let r = new_payload_message(
                payload,
                cancun,
                prague,
                withdrawals_root,
                is_optimism,
                true,
            );
            &&& r.version == EngineApiMessageVersion::V1
            &&& r.params == NewPayloadParams::V1(first_version(payload))
        }),
{
}

/// The version of a message is that of what is sent.
pub proof fn law_version_goes_with_the_params(
    payload: ExecutionPayload,
    cancun: Option<CancunFields>,
    prague: Option<B256>,
    withdrawals_root: Option<B256>,
    is_optimism: bool,
    is_bsc: bool,
)
    ensures
        ({
            let r = new_payload_message(
                payload,
                cancun,
                prague,
                withdrawals_root,
                is_optimism,
                is_bsc,
            );
            &&& r.params is V1 <==> r.version == EngineApiMessageVersion::V1
            &&& r.params is V2 <==> r.version == EngineApiMessageVersion::V2
            &&& r.params is V3 <==> r.version == EngineApiMessageVersion::V3
            &&& (r.params is V4 || r.params is RollupV4) <==> r.version
                == EngineApiMessageVersion::V4
        }),
{
}

/// The hashes of the blobs come in the order of the transactions: those of two runs of transactions
/// are those of the first and then those of the second, and a transaction adds its own or none.
pub proof fn law_blob_hashes_come_in_order(
    first: Seq<BodyTransaction>,
    second: Seq<BodyTransaction>,
    tx: BodyTransaction,
)
    ensures
        blob_hashes(first + second) == blob_hashes(first) + blob_hashes(second),
        tx.blob_versioned_hashes matches Some(hashes) ==> blob_hashes(seq![tx]) == hashes@,
        tx.blob_versioned_hashes is None ==> blob_hashes(seq![tx]).len() == 0,
    decreases second.len(),
{
    if second.len() == 0 {
        assert(first + second =~= first);
        assert(blob_hashes(first) + blob_hashes(second) =~= blob_hashes(first));
    } else {
        let rest = second.drop_last();
        law_blob_hashes_come_in_order(first, rest, tx);
        assert((first + second).drop_last() =~= first + rest);
        assert((first + second).last() == second.last());
        assert(blob_hashes(first + second) =~= blob_hashes(first) + blob_hashes(second));
    }
    let one = seq![tx];
    assert(one.drop_last() =~= Seq::<BodyTransaction>::empty());
    assert(one.last() == tx);
    assert(blob_hashes(one.drop_last()).len() == 0);
    if let Some(hashes) = tx.blob_versioned_hashes {
        assert(blob_hashes(one) =~= hashes@);
    }
}

/// A block is put in the version that its fields ask for: the third where it names a parent beacon
/// block, else the second where it has withdrawals, else the first. Whatever the version, the first
/// one inside it says what the header says.
pub proof fn law_payload_says_what_the_block_says(block: ConsensusBlock, p: ExecutionPayload)
    requires
        block.is_payload(p),
    ensures
        p is V3 <==> block.parent_beacon_block_root is Some,
        p is V2 <==> block.parent_beacon_block_root is None && block.withdrawals is Some,
        p is V1 <==> block.parent_beacon_block_root is None && block.withdrawals is None,
        ({
            let inner = match p {
                ExecutionPayload::V1(p) => p,
                ExecutionPayload::V2(p) => p.payload_inner,
                ExecutionPayload::V3(p) => p.payload_inner.payload_inner,
            };
            &&& (inner.parent_hash, inner.state_root, inner.receipts_root, inner.prev_randao) == (
                block.parent_hash,
                block.state_root,
                block.receipts_root,
                block.mix_hash,
            )
            &&& inner.fee_recipient == block.beneficiary
            &&& (inner.logs_bloom, inner.extra_data) == (block.logs_bloom, block.extra_data)
            &&& (inner.block_number, inner.timestamp, inner.gas_limit, inner.gas_used) == (
                block.number,
                block.timestamp,
                block.gas_limit,
                block.gas_used,
            )
            &&& (block.base_fee_per_gas matches Some(fee) ==> inner.base_fee_per_gas.value() == fee)
            &&& block.base_fee_per_gas is None ==> inner.base_fee_per_gas.value() == 0
            &&& inner.block_hash@ == keccak(block.encoded_header@)
            &&& inner.transactions@.len() == block.transactions@.len()
            &&& forall|i: int|
                0 <= i < block.transactions@.len() ==> #[trigger] inner.transactions@[i]
                    == block.transactions@[i].encoded
        }),
        match (p, block.withdrawals) {
            (ExecutionPayload::V2(p), Some(w)) => p.withdrawals == w,
            (ExecutionPayload::V3(p), Some(w)) => p.payload_inner.withdrawals == w,
            (ExecutionPayload::V3(p), None) => p.payload_inner.withdrawals@.len() == 0,
            _ => true,
        },
        p matches ExecutionPayload::V3(v3) ==> {
            &&& (block.blob_gas_used matches Some(n) ==> v3.blob_gas_used == n)
            &&& block.blob_gas_used is None ==> v3.blob_gas_used == 0
            &&& (block.excess_blob_gas matches Some(n) ==> v3.excess_blob_gas == n)
            &&& block.excess_blob_gas is None ==> v3.excess_blob_gas == 0
        },
{
}

/// What goes with a block goes with the third version alone: the parent beacon block, the hashes of
/// all blobs, and the hash of the requests where there is one.
pub proof fn law_sidecar_goes_with_the_third_version(
    block: ConsensusBlock,
    p: ExecutionPayload,
    s: PayloadSidecar,
)
    requires
        block.is_payload(p),
        block.is_sidecar(s),
    ensures
        s.cancun is Some <==> p is V3,
        s.prague is Some <==> p is V3 && block.requests_hash is Some,
        s.prague is Some ==> s.prague == block.requests_hash,
        s.cancun matches Some(cancun) ==> block.parent_beacon_block_root == Some(
            cancun.parent_beacon_block_root,
        ) && cancun.versioned_hashes@ == blob_hashes(block.transactions@),
{
}

/// Other chains are sent what a payload holds in its own version; one in the third version goes out
/// in the fourth where there are requests, which a rollup is not sent: it is sent the root of its
/// withdrawals instead.
pub proof fn law_other_chains_are_sent_the_whole_payload(
    payload: ExecutionPayload,
    cancun: CancunFields,
    prague: Option<B256>,
    root: B256,
    is_optimism: bool,
)
    ensures
        ({
            let r = new_payload_message(
                payload,
                Some(cancun),
                prague,
                Some(root),
                is_optimism,
                false,
            );
            match r.params {
                NewPayloadParams::V1(p) => payload == ExecutionPayload::V1(p),
                NewPayloadParams::V2 { execution_payload, withdrawals } => payload
                    == ExecutionPayload::V2(
                    ExecutionPayloadV2 { payload_inner: execution_payload, withdrawals },
                ),
                NewPayloadParams::V3 { payload: p, cancun: c } => payload == ExecutionPayload::V3(p)
                    && c == cancun && prague is None,
                NewPayloadParams::V4 { payload: p, cancun: c, requests_hash } => payload
                    == ExecutionPayload::V3(p) && c == cancun && prague == Some(requests_hash)
                    && !is_optimism,
                NewPayloadParams::RollupV4 { payload: p, withdrawals_root, cancun: c } => payload
                    == ExecutionPayload::V3(p) && c == cancun && prague is Some && withdrawals_root
                    == root && is_optimism,
            }
        }),
{
}

} // verus!
