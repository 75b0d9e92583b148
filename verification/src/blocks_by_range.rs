//! Ranges of blocks, as peers ask each other for them: a request names the newest block and how
//! many to send, the response holds that block and its ancestors.

use crate::block::BlockView;
use crate::block::BscBlock;
use crate::primitives::zero_bytes;
use crate::primitives::FixedBytes;
use crate::primitives::B256;
use crate::rlp;
use crate::rlp::b256_field;
use crate::rlp::list_field;
use crate::rlp::rlp_list;
use crate::rlp::rlp_string;
use crate::rlp::rlp_u64;
use crate::rlp::u64_field;
use crate::rlp::RlpError;
use crate::wire_block;
use crate::wire_block::block_at;
use crate::wire_block::block_bytes;
use vstd::prelude::*;

verus! {

/// How many blocks a response holds at most.
pub const MAX_REQUEST_RANGE_BLOCKS_COUNT: u64 = 64;

/// First byte of a request.
pub const GET_BLOCKS_BY_RANGE: u8 = 0x02;

/// First byte of a response.
pub const BLOCKS_BY_RANGE: u8 = 0x03;

/// Asks for a block and its ancestors.
#[derive(Clone, Copy, Debug)]
pub struct GetBlocksByRangePacket {
    /// By which the response is matched to the request.
    pub request_id: u64,
    /// Number of the newest block, where its hash is zero.
    pub start_block_height: u64,
    /// Hash of the newest block.
    pub start_block_hash: B256,
    /// How many blocks to send.
    pub count: u64,
}

/// The fields of a request, one after another.
pub open spec fn request_fields(req: GetBlocksByRangePacket) -> Seq<u8> {
    rlp_u64(req.request_id) + (rlp_u64(req.start_block_height) + (rlp_string(
        req.start_block_hash@,
    ) + rlp_u64(req.count)))
}

/// A request as it travels.
pub open spec fn request_bytes(req: GetBlocksByRangePacket) -> Seq<u8> {
    seq![GET_BLOCKS_BY_RANGE] + rlp_list(request_fields(req))
}

/// The request at the start of the bytes, and how many bytes it takes.
pub open spec fn request_at(b: Seq<u8>) -> Result<(u64, u64, Seq<u8>, u64, nat), RlpError> {
    if b.len() == 0 {
        Err(RlpError::InputTooShort)
    } else if b[0] != GET_BLOCKS_BY_RANGE {
        Err(RlpError::Custom("Invalid message ID for GetBlocksByRangePacket"))
    } else {
        match list_field(b.skip(1)) {
            Err(e) => Err(e),
            Ok((p, h)) => {
                let f = b.skip(1).skip(h as int);
                match u64_field(f) {
                    Err(e) => Err(e),
                    Ok((id, n1)) => match u64_field(f.skip(n1 as int)) {
                        Err(e) => Err(e),
                        Ok((height, n2)) => match b256_field(f.skip(n1 as int).skip(n2 as int)) {
                            Err(e) => Err(e),
                            Ok((hash, n3)) => match u64_field(
                                f.skip(n1 as int).skip(n2 as int).skip(n3 as int),
                            ) {
                                Err(e) => Err(e),
                                Ok((count, n4)) => if n1 + n2 + n3 + n4 != p {
                                    Err(
                                        RlpError::ListLengthMismatch {
                                            expected: p as usize,
                                            got: (n1 + n2 + n3 + n4) as usize,
                                        },
                                    )
                                } else {
                                    Ok((id, height, hash, count, 1 + h + p))
                                },
                            },
                        },
                    },
                }
            },
        }
    }
}

impl GetBlocksByRangePacket {
    /// Appends the request as it travels.
    pub fn encode(&self, out: &mut Vec<u8>)
        ensures
            final(out)@ == old(out)@ + request_bytes(*self),
    {
        let mut fields: Vec<u8> = Vec::new();
        rlp::put_u64(&mut fields, self.request_id);
        rlp::put_u64(&mut fields, self.start_block_height);
        rlp::put_string(&mut fields, &self.start_block_hash.bytes);
        rlp::put_u64(&mut fields, self.count);
        proof {
            assert(fields@ =~= request_fields(*self));
        }
        out.push(GET_BLOCKS_BY_RANGE);
        rlp::put_list(out, fields.as_slice());
        proof {
            assert(out@ =~= old(out)@ + request_bytes(*self));
        }
    }

    /// Reads the request at the start of the bytes, and says how many of them it takes.
    pub fn decode(b: &[u8]) -> (r: Result<(GetBlocksByRangePacket, usize), RlpError>)
        ensures
            match request_at(b@) {
                Ok((id, height, hash, count, len)) => r matches Ok((req, n)) && req.request_id == id
                    && req.start_block_height == height && req.start_block_hash@ == hash
                    && req.count == count && n == len && len <= b@.len(),
                Err(e) => r == Err::<(GetBlocksByRangePacket, usize), RlpError>(e),
            },
    {
        if b.len() == 0 {
            return Err(RlpError::InputTooShort);
        }
        if b[0] != GET_BLOCKS_BY_RANGE {
            return Err(RlpError::Custom("Invalid message ID for GetBlocksByRangePacket"));
        }
        let b1 = rlp::after(b, 1);
        let (p, h) = match rlp::read_list(b1) {
            Ok(r) => r,
            Err(e) => return Err(e),
        };
        let f = rlp::after(b1, h);
        let (request_id, n1) = match rlp::read_u64(f) {
            Ok(r) => r,
            Err(e) => return Err(e),
        };
        let f1 = rlp::after(f, n1);
        let (start_block_height, n2) = match rlp::read_u64(f1) {
            Ok(r) => r,
            Err(e) => return Err(e),
        };
        let f2 = rlp::after(f1, n2);
        let (start_block_hash, n3) = match rlp::read_b256(f2) {
            Ok(r) => r,
            Err(e) => return Err(e),
        };
        let f3 = rlp::after(f2, n3);
        let (count, n4) = match rlp::read_u64(f3) {
            Ok(r) => r,
            Err(e) => return Err(e),
        };
        let consumed: usize = n1 + n2 + n3 + n4;
        if consumed != p {
            return Err(RlpError::ListLengthMismatch { expected: p, got: consumed });
        }
        Ok((
            GetBlocksByRangePacket { request_id, start_block_height, start_block_hash, count },
            1 + h + p,
        ))
    }
}

/// A request that was encoded is decoded to the same request, whatever follows it.
pub proof fn law_request_round_trip(req: GetBlocksByRangePacket, tail: Seq<u8>)
    ensures
        request_at(request_bytes(req) + tail) == Ok::<(u64, u64, Seq<u8>, u64, nat), RlpError>(
            (
                req.request_id,
                req.start_block_height,
                req.start_block_hash@,
                req.count,
                request_bytes(req).len(),
            ),
        ),
{
    let b = request_bytes(req) + tail;
    let fields = request_fields(req);
    assert(fields.len() <= u64::MAX) by {
        rlp::lemma_b256_roundtrip(req.start_block_hash@, tail);
        rlp::lemma_number_length(req.request_id);
        rlp::lemma_number_length(req.start_block_height);
        rlp::lemma_number_length(req.count);
    }
    rlp::lemma_list_roundtrip(fields, tail);
    assert(b.skip(1) =~= rlp_list(fields) + tail);
    let c = rlp_u64(req.count) + tail;
    let s = rlp_string(req.start_block_hash@) + c;
    let t = rlp_u64(req.start_block_height) + s;
    rlp::lemma_u64_roundtrip(req.request_id, t);
    rlp::lemma_u64_roundtrip(req.start_block_height, s);
    rlp::lemma_b256_roundtrip(req.start_block_hash@, c);
    rlp::lemma_u64_roundtrip(req.count, tail);
    assert(fields + tail =~= rlp_u64(req.request_id) + t);
}

/// A block and its ancestors, the newest first.
#[derive(Debug)]
pub struct BlocksByRangePacket {
    /// That of the request.
    pub request_id: u64,
    /// The blocks.
    pub blocks: Vec<BscBlock>,
}

/// The blocks of a list.
pub open spec fn blocks_view(blocks: Vec<BscBlock>) -> Seq<BlockView> {
    Seq::new(blocks@.len(), |i: int| blocks@[i]@)
}

/// Why a response could not be decoded, and the id of its request where it could be read: whoever
/// waits for the response need not wait any longer.
#[derive(Debug)]
pub struct BlocksByRangeDecodeError {
    /// Id of the request, where it was read before the decoding failed.
    pub request_id: Option<u64>,
    /// Why the decoding failed.
    pub error: RlpError,
}

/// What an error of a response says of the response and of the reason.
pub open spec fn failed<T>(request_id: Option<u64>, error: RlpError) -> Result<
    T,
    BlocksByRangeDecodeError,
> {
    Err(BlocksByRangeDecodeError { request_id, error })
}

/// The blocks that start at `f`, of which `c` bytes are read already, up to the `p`-th byte or
/// beyond it, and how many bytes are read then. Every block takes at least one byte.
pub open spec fn blocks_from(f: Seq<u8>, c: nat, p: nat) -> Result<(Seq<BlockView>, nat), RlpError>
    decreases
            if c < p {
                p - c
            } else {
                0
            },
{
    if c >= p {
        Ok((Seq::empty(), c))
    } else {
        match block_at(f.skip(c as int)) {
            Err(e) => Err(e),
            Ok((block, n)) => if n < 1 {
                Err(RlpError::InputTooShort)
            } else {
                match blocks_from(f, c + n, p) {
                    Err(e) => Err(e),
                    Ok((rest, end)) => Ok((seq![block] + rest, end)),
                }
            },
        }
    }
}

/// The response at the start of the bytes, and how many bytes it takes. What stands behind the
/// blocks is left unread.
pub open spec fn response_at(b: Seq<u8>) -> Result<
    (u64, Seq<BlockView>, nat),
    BlocksByRangeDecodeError,
> {
    if b.len() == 0 {
        failed(None, RlpError::InputTooShort)
    } else if b[0] != BLOCKS_BY_RANGE {
        failed(None, RlpError::Custom("Invalid message ID for BlocksByRangePacket"))
    } else {
        match list_field(b.skip(1)) {
            Err(e) => failed(None, e),
            Ok((p, h)) => {
                let f = b.skip(1).skip(h as int);
                match u64_field(f) {
                    Err(e) => failed(None, e),
                    Ok((id, n1)) => match response_blocks(f.skip(n1 as int), n1, p) {
                        Err(e) => failed(Some(id), e),
                        Ok(blocks) => Ok((id, blocks, 1 + h + p)),
                    },
                }
            },
        }
    }
}

/// The blocks of a response: `f` is what follows the request id, which took `n1` of the `p` bytes
/// of the response.
pub open spec fn response_blocks(f: Seq<u8>, n1: nat, p: nat) -> Result<
    Seq<BlockView>,
    RlpError,
> {
    match list_field(f) {
        Err(e) => Err(e),
        Ok((bp, bh)) => match blocks_from(f.skip(bh as int), 0, bp) {
            Err(e) => Err(e),
            Ok((blocks, end)) => if end != bp {
                Err(RlpError::ListLengthMismatch { expected: bp as usize, got: end as usize })
            } else {
                match wire_block::trailing(n1 + bh + bp, p) {
                    Err(e) => Err(e),
                    Ok(_) => Ok(blocks),
                }
            },
        },
    }
}

/// Reads the blocks of a response.
fn read_blocks(f: &[u8], p: usize) -> (r: Result<(Vec<BscBlock>, usize), RlpError>)
    ensures
        match blocks_from(f@, 0, p as nat) {
            Ok((blocks, end)) => r matches Ok((v, n)) && blocks_view(v) == blocks && n == end && n
                <= f@.len() && blocks_travel(blocks) && blocks_sent(blocks) == blocks,
            Err(e) => r == Err::<(Vec<BscBlock>, usize), RlpError>(e),
        },
{
    let started: usize = f.len();
    let mut blocks: Vec<BscBlock> = Vec::new();
    let mut rest = f;
    let ghost whole = blocks_from(f@, 0, p as nat);
    proof {
        assert(f@.skip(0) =~= f@);
        if whole is Ok {
            assert(blocks_view(blocks) + whole->Ok_0.0 =~= whole->Ok_0.0);
        }
    }
    while started - rest.len() < p
        invariant
            blocks_travel(blocks_view(blocks)),
            blocks_sent(blocks_view(blocks)) == blocks_view(blocks),
            whole == blocks_from(f@, 0, p as nat),
            started == f@.len(),
            rest@.len() <= started,
            rest@ == f@.skip(started - rest@.len()),
            match blocks_from(f@, (started - rest@.len()) as nat, p as nat) {
                Ok((tail, end)) => whole == Ok::<(Seq<BlockView>, nat), RlpError>(
                    (blocks_view(blocks) + tail, end),
                ),
                Err(e) => whole == Err::<(Seq<BlockView>, nat), RlpError>(e),
            },
        decreases rest@.len(),
    {
        let ghost before = blocks_view(blocks);
        let ghost c = (started - rest@.len()) as nat;
        match wire_block::decode_wire_block_data(rest) {
            Err(e) => return Err(e),
            Ok((block, n)) => {
                let ghost v = block@;
                blocks.push(block);
                let ghost tail = blocks_from(f@, c + n as nat, p as nat);
                rest = rlp::after(rest, n);
                proof {
                    assert(rest@ =~= f@.skip(c + n));
                    assert(blocks_view(blocks) =~= before.push(v));
                    if tail is Ok {
                        assert(blocks_view(blocks) + tail->Ok_0.0 =~= before + (seq![v]
                            + tail->Ok_0.0));
                    }
                }
            },
        }
    }
    proof {
        assert(blocks_view(blocks) + Seq::<BlockView>::empty() =~= blocks_view(blocks));
    }
    Ok((blocks, started - rest.len()))
}

/// Reads the response at the start of the bytes, and says how many of them it takes. An error keeps
/// the id of the request where it could be read. Fields that a newer sender puts behind the known
/// ones are skipped. The blocks that were read are read back when they are sent on.
pub fn decode_blocks_by_range(b: &[u8]) -> (r: Result<
    (BlocksByRangePacket, usize),
    BlocksByRangeDecodeError,
>)
    ensures
        match response_at(b@) {
            Ok((id, blocks, len)) => r matches Ok((packet, n)) && packet.request_id == id
                && blocks_view(packet.blocks) == blocks && n == len && n <= b@.len()
                && blocks_travel(blocks) && blocks_sent(blocks) == blocks,
            Err(e) => r == Err::<(BlocksByRangePacket, usize), BlocksByRangeDecodeError>(e),
        },
{
    if b.len() == 0 {
        return Err(
            BlocksByRangeDecodeError { request_id: None, error: RlpError::InputTooShort },
        );
    }
    if b[0] != BLOCKS_BY_RANGE {
        let error = RlpError::Custom("Invalid message ID for BlocksByRangePacket");
        return Err(BlocksByRangeDecodeError { request_id: None, error });
    }
    let b1 = rlp::after(b, 1);
    let (p, h) = match rlp::read_list(b1) {
        Ok(r) => r,
        Err(error) => return Err(BlocksByRangeDecodeError { request_id: None, error }),
    };
    let f = rlp::after(b1, h);
    let started: usize = f.len();
    let (request_id, n1) = match rlp::read_u64(f) {
        Ok(r) => r,
        Err(error) => return Err(BlocksByRangeDecodeError { request_id: None, error }),
    };
    let f1 = rlp::after(f, n1);
    let (bp, bh) = match rlp::read_list(f1) {
        Ok(r) => r,
        Err(error) => return Err(BlocksByRangeDecodeError { request_id: Some(request_id), error }),
    };
    let f2 = rlp::after(f1, bh);
    let (blocks, end) = match read_blocks(f2, bp) {
        Ok(r) => r,
        Err(error) => return Err(BlocksByRangeDecodeError { request_id: Some(request_id), error }),
    };
    if end != bp {
        let error = RlpError::ListLengthMismatch { expected: bp, got: end };
        return Err(BlocksByRangeDecodeError { request_id: Some(request_id), error });
    }
    let rest = rlp::after(f2, end);
    match wire_block::skip_unknown_trailing(started - rest.len(), p) {
        Err(error) => Err(BlocksByRangeDecodeError { request_id: Some(request_id), error }),
        Ok(_) => Ok((BlocksByRangePacket { request_id, blocks }, 1 + h + p)),
    }
}

/// The blocks of a response as they travel, one after another.
pub open spec fn blocks_bytes(blocks: Seq<BlockView>) -> Seq<u8> {
    Seq::new(blocks.len(), |i: int| block_bytes(blocks[i])).flatten()
}

/// The fields of a response, one after another.
pub open spec fn response_fields(request_id: u64, blocks: Seq<BlockView>) -> Seq<u8> {
    rlp_u64(request_id) + rlp_list(blocks_bytes(blocks))
}

/// A response as it travels.
pub open spec fn response_bytes(request_id: u64, blocks: Seq<BlockView>) -> Seq<u8> {
    seq![BLOCKS_BY_RANGE] + rlp_list(response_fields(request_id, blocks))
}

/// The blocks of a response as they are sent.
pub open spec fn blocks_sent(blocks: Seq<BlockView>) -> Seq<BlockView> {
    Seq::new(blocks.len(), |i: int| wire_block::as_sent(blocks[i]))
}

impl BlocksByRangePacket {
    /// Appends the response as it travels.
    pub fn encode(&self, out: &mut Vec<u8>)
        ensures
            final(out)@ == old(out)@ + response_bytes(self.request_id, blocks_view(self.blocks)),
    {
        let ghost views = blocks_view(self.blocks);
        let ghost all = Seq::new(views.len(), |i: int| block_bytes(views[i]));
        let mut payload: Vec<u8> = Vec::new();
        let mut i: usize = 0;
        proof {
            assert(payload@ =~= all.take(0).flatten());
        }
        while i < self.blocks.len()
            invariant
                views == blocks_view(self.blocks),
                all == Seq::new(views.len(), |i: int| block_bytes(views[i])),
                i <= self.blocks.len(),
                payload@ == all.take(i as int).flatten(),
            decreases self.blocks.len() - i,
        {
            wire_block::encode_wire_block_data(&self.blocks[i], &mut payload);
            proof {
                all.take(i as int).lemma_flatten_push(all[i as int]);
                assert(all.take(i + 1) =~= all.take(i as int).push(all[i as int]));
            }
            i += 1;
        }
        proof {
            assert(all.take(i as int) =~= all);
        }
        let mut fields: Vec<u8> = Vec::new();
        rlp::put_u64(&mut fields, self.request_id);
        rlp::put_list(&mut fields, payload.as_slice());
        proof {
            assert(fields@ =~= response_fields(self.request_id, views));
        }
        out.push(BLOCKS_BY_RANGE);
        rlp::put_list(out, fields.as_slice());
        proof {
            assert(out@ =~= old(out)@ + response_bytes(self.request_id, views));
        }
    }

    /// Reads the response at the start of the bytes, and says how many of them it takes.
    pub fn decode(b: &[u8]) -> (r: Result<(BlocksByRangePacket, usize), RlpError>)
        ensures
            match response_at(b@) {
                Ok((id, blocks, len)) => r matches Ok((packet, n)) && packet.request_id == id
                    && blocks_view(packet.blocks) == blocks && n == len && n <= b@.len()
                    && blocks_travel(blocks) && blocks_sent(blocks) == blocks,
                Err(e) => r == Err::<(BlocksByRangePacket, usize), RlpError>(e.error),
            },
    {
        match decode_blocks_by_range(b) {
            Ok(r) => Ok(r),
            Err(e) => Err(e.error),
        }
    }
}

/// Whether the parts of all blocks are read back as they are.
pub open spec fn blocks_travel(blocks: Seq<BlockView>) -> bool {
    forall|i: int| 0 <= i < blocks.len() ==> wire_block::block_travels(#[trigger] blocks[i])
}

/// Blocks that were written behind the bytes `front` are read back.
proof fn lemma_blocks_roundtrip(front: Seq<u8>, blocks: Seq<BlockView>, tail: Seq<u8>)
    requires
        blocks_travel(blocks),
        blocks_bytes(blocks).len() <= u64::MAX,
    ensures
        blocks_from(
            front + (blocks_bytes(blocks) + tail),
            front.len(),
            front.len() + blocks_bytes(blocks).len(),
        ) == Ok::<(Seq<BlockView>, nat), RlpError>(
            (blocks_sent(blocks), front.len() + blocks_bytes(blocks).len()),
        ),
    decreases blocks.len(),
{
    let all = Seq::new(blocks.len(), |i: int| block_bytes(blocks[i]));
    let f = front + (blocks_bytes(blocks) + tail);
    if blocks.len() > 0 {
        let first = block_bytes(blocks.first());
        let rest = blocks.drop_first();
        assert(all.drop_first() =~= Seq::new(rest.len(), |i: int| block_bytes(rest[i])));
        assert(blocks_bytes(blocks) == first + blocks_bytes(rest));
        assert(wire_block::block_travels(blocks[0]));
        assert forall|i: int| 0 <= i < rest.len() implies wire_block::block_travels(
            #[trigger] rest[i],
        ) by {
            assert(rest[i] == blocks[i + 1]);
        }
        wire_block::law_block_round_trip(blocks.first(), blocks_bytes(rest) + tail);
        rlp::lemma_list_length(wire_block::block_payload(wire_block::as_sent(blocks.first())));
        assert(f.skip(front.len() as int) =~= first + (blocks_bytes(rest) + tail));
        lemma_blocks_roundtrip(front + first, rest, tail);
        assert(f =~= (front + first) + (blocks_bytes(rest) + tail));
        assert(blocks_sent(blocks) =~= seq![wire_block::as_sent(blocks.first())] + blocks_sent(
            rest,
        ));
    } else {
        assert(all =~= Seq::empty());
        assert(blocks_sent(blocks) =~= Seq::empty());
    }
}

/// A response that was written is read back, whatever a newer sender put behind its blocks and
/// whatever follows it.
proof fn lemma_response_roundtrip(
    request_id: u64,
    blocks: Seq<BlockView>,
    extra: Seq<u8>,
    tail: Seq<u8>,
)
    requires
        blocks_travel(blocks),
        response_fields(request_id, blocks).len() + extra.len() <= u64::MAX,
    ensures
        ({
            let sent = seq![BLOCKS_BY_RANGE] + rlp_list(
                response_fields(request_id, blocks) + extra,
            );
            response_at(sent + tail) == Ok::<
                (u64, Seq<BlockView>, nat),
                BlocksByRangeDecodeError,
            >((request_id, blocks_sent(blocks), sent.len()))
        }),
{
    let fields = response_fields(request_id, blocks) + extra;
    let sent = seq![BLOCKS_BY_RANGE] + rlp_list(fields);
    let b = sent + tail;
    let list = blocks_bytes(blocks);
    assert(b.skip(1) =~= rlp_list(fields) + tail);
    rlp::lemma_list_roundtrip(fields, tail);
    let t = rlp_list(list) + (extra + tail);
    assert(fields + tail =~= rlp_u64(request_id) + t);
    rlp::lemma_u64_roundtrip(request_id, t);
    rlp::lemma_list_length(list);
    rlp::lemma_list_roundtrip(list, extra + tail);
    lemma_blocks_roundtrip(Seq::empty(), blocks, extra + tail);
    assert(Seq::<u8>::empty() + (list + (extra + tail)) =~= list + (extra + tail));
}

/// A response that was encoded is decoded to the blocks that were sent, whatever follows it.
pub proof fn law_response_round_trip(request_id: u64, blocks: Seq<BlockView>, tail: Seq<u8>)
    ensures
        blocks_travel(blocks) && response_bytes(request_id, blocks).len() <= u64::MAX
            ==> response_at(response_bytes(request_id, blocks) + tail) == Ok::<
            (u64, Seq<BlockView>, nat),
            BlocksByRangeDecodeError,
        >((request_id, blocks_sent(blocks), response_bytes(request_id, blocks).len())),
{
    if blocks_travel(blocks) && response_bytes(request_id, blocks).len() <= u64::MAX {
        let fields = response_fields(request_id, blocks);
        rlp::lemma_list_length(fields);
        assert(fields + Seq::<u8>::empty() =~= fields);
        lemma_response_roundtrip(request_id, blocks, Seq::empty(), tail);
    }
}

/// What a newer sender puts behind the blocks of a response is ignored: the response is decoded as
/// if it were not there.
pub proof fn law_unknown_response_fields_are_ignored(
    request_id: u64,
    blocks: Seq<BlockView>,
    extra: Seq<u8>,
    tail: Seq<u8>,
)
    ensures
        ({
            let sent = seq![BLOCKS_BY_RANGE] + rlp_list(
                response_fields(request_id, blocks) + extra,
            );
            blocks_travel(blocks) && response_fields(request_id, blocks).len() + extra.len()
                <= u64::MAX ==> response_at(sent + tail) == Ok::<
                (u64, Seq<BlockView>, nat),
                BlocksByRangeDecodeError,
            >((request_id, blocks_sent(blocks), sent.len()))
        }),
{
    if blocks_travel(blocks) && response_fields(request_id, blocks).len() + extra.len()
        <= u64::MAX {
        lemma_response_roundtrip(request_id, blocks, extra, tail);
    }
}

/// The id of the request, where it can be read from the start of a response.
pub open spec fn readable_request_id(b: Seq<u8>) -> Option<u64> {
    if b.len() > 0 && b[0] == BLOCKS_BY_RANGE {
        match list_field(b.skip(1)) {
            Ok((p, h)) => match u64_field(b.skip(1).skip(h as int)) {
                Ok((id, n)) => Some(id),
                Err(e) => None,
            },
            Err(e) => None,
        }
    } else {
        None
    }
}

/// A response that cannot be decoded yields the id of its request exactly where the id can be read,
/// however malformed its blocks are.
pub proof fn law_decode_error_keeps_request_id(b: Seq<u8>)
    ensures
        response_at(b) matches Err(e) ==> e.request_id == readable_request_id(b),
        response_at(b) matches Ok((id, blocks, n)) ==> readable_request_id(b) == Some(id),
{
}

/// What a lookup may give: the hash or the number that it was asked for, and the block.
pub type Found = spec_fn(B256, Option<u64>, Option<BscBlock>) -> bool;

/// What is looked up first: the hash that the request names, or its number where the hash is zero.
pub open spec fn first_lookup(req: GetBlocksByRangePacket) -> (B256, Option<u64>) {
    if req.start_block_hash != zero_bytes::<32>() {
        (req.start_block_hash, None)
    } else {
        (zero_bytes::<32>(), Some(req.start_block_height))
    }
}

/// How many blocks a response to the request holds at most.
pub open spec fn most_blocks(req: GetBlocksByRangePacket) -> u64 {
    if req.count <= MAX_REQUEST_RANGE_BLOCKS_COUNT {
        req.count
    } else {
        MAX_REQUEST_RANGE_BLOCKS_COUNT
    }
}

/// Whether the `i`-th block was found as the parent of the one before it, or as the first.
pub open spec fn found_in_place(
    req: GetBlocksByRangePacket,
    found: Found,
    blocks: Seq<BscBlock>,
    i: int,
) -> bool {
    if i == 0 {
        found(first_lookup(req).0, first_lookup(req).1, Some(blocks[0]))
    } else {
        let parent = blocks[i - 1].header.parent_hash;
        parent != zero_bytes::<32>() && found(parent, None, Some(blocks[i]))
    }
}

/// Whether nothing was found behind the last of the blocks.
pub open spec fn nothing_behind(
    req: GetBlocksByRangePacket,
    found: Found,
    blocks: Seq<BscBlock>,
) -> bool {
    if blocks.len() == 0 {
        found(first_lookup(req).0, first_lookup(req).1, None)
    } else {
        let parent = blocks.last().header.parent_hash;
        parent == zero_bytes::<32>() || found(parent, None, None)
    }
}

/// Whether the blocks answer the request: the first is the one that it names, each other the parent
/// of the one before, and there are as many as were asked for and may be sent, unless one could not
/// be found.
pub open spec fn answers(
    req: GetBlocksByRangePacket,
    found: Found,
    blocks: Seq<BscBlock>,
) -> bool {
    &&& blocks.len() <= most_blocks(req)
    &&& forall|i: int| 0 <= i < blocks.len() ==> #[trigger] found_in_place(req, found, blocks, i)
    &&& blocks.len() < most_blocks(req) ==> nothing_behind(req, found, blocks)
}

/// Answers a request out of the blocks that `lookup` finds, by hash or, where it is given one, by
/// number.
pub fn build_blocks_by_range_response_with<F: Fn(&B256, Option<u64>) -> Option<BscBlock>>(
    req: &GetBlocksByRangePacket,
    lookup: F,
) -> (r: BlocksByRangePacket)
    requires
        forall|hash: &B256, number: Option<u64>| #[trigger] call_requires(lookup, (hash, number)),
    ensures
        r.request_id == req.request_id,
        answers(
            *req,
            |hash: B256, number: Option<u64>, block: Option<BscBlock>|
                call_ensures(lookup, (&hash, number), block),
            r.blocks@,
        ),
{
    let ghost found: Found = |hash: B256, number: Option<u64>, block: Option<BscBlock>|
        call_ensures(lookup, (&hash, number), block);
    let zero: B256 = FixedBytes::zero();
    let mut current: Option<BscBlock> = if req.start_block_hash != zero {
        lookup(&req.start_block_hash, None)
    } else {
        lookup(&zero, Some(req.start_block_height))
    };
    let most: u64 = if req.count <= MAX_REQUEST_RANGE_BLOCKS_COUNT {
        req.count
    } else {
        MAX_REQUEST_RANGE_BLOCKS_COUNT
    };
    let mut remaining: u64 = most;
    let mut blocks: Vec<BscBlock> = Vec::new();
    while remaining > 0
        invariant
            zero == zero_bytes::<32>(),
            most == most_blocks(*req),
            remaining <= most,
            blocks@.len() == most - remaining,
            forall|hash: &B256, number: Option<u64>| #[trigger]
                call_requires(lookup, (hash, number)),
            found == (|hash: B256, number: Option<u64>, block: Option<BscBlock>|
                call_ensures(lookup, (&hash, number), block)),
            forall|i: int|
                0 <= i < blocks.len() ==> #[trigger] found_in_place(*req, found, blocks@, i),
            match current {
                Some(block) => found_in_place(
                    *req,
                    found,
                    blocks@.push(block),
                    blocks@.len() as int,
                ),
                None => nothing_behind(*req, found, blocks@),
            },
        decreases remaining,
    {
        match current {
            None => {
                return BlocksByRangePacket { request_id: req.request_id, blocks };
            },
            Some(block) => {
                let parent_hash = block.header.parent_hash;
                let ghost before = blocks@;
                blocks.push(block);
                proof {
                    assert forall|i: int| 0 <= i < blocks.len() implies #[trigger] found_in_place(
                        *req,
                        found,
                        blocks@,
                        i,
                    ) by {
                        if i < before.len() {
                            assert(found_in_place(*req, found, before, i));
                        }
                    }
                }
                current = if parent_hash != zero {
                    lookup(&parent_hash, None)
                } else {
                    None
                };
                remaining -= 1;
            },
        }
    }
    BlocksByRangePacket { request_id: req.request_id, blocks }
}

/// Answers a request out of the blocks that were cached and, where one was not, out of those that
/// are stored.
pub fn build_blocks_by_range_response<
    C: Fn(&B256, Option<u64>) -> Option<BscBlock>,
    S: Fn(&B256, Option<u64>) -> Option<BscBlock>,
>(req: &GetBlocksByRangePacket, cached: C, stored: S) -> (r: BlocksByRangePacket)
    requires
        forall|hash: &B256, number: Option<u64>| #[trigger] call_requires(cached, (hash, number)),
        forall|hash: &B256, number: Option<u64>| #[trigger] call_requires(stored, (hash, number)),
    ensures
        r.request_id == req.request_id,
        answers(
            *req,
            |hash: B256, number: Option<u64>, block: Option<BscBlock>|
                {
                    ||| block is Some && call_ensures(cached, (&hash, number), block)
                    ||| call_ensures(cached, (&hash, number), None) && call_ensures(
                        stored,
                        (&hash, number),
                        block,
                    )
                },
            r.blocks@,
        ),
{
    let from_cache = Ghost(cached);
    let from_store = Ghost(stored);
    let lookup = |hash: &B256, number: Option<u64>| -> (r: Option<BscBlock>)
        ensures
            ({
                ||| r is Some && call_ensures(from_cache@, (hash, number), r)
                ||| call_ensures(from_cache@, (hash, number), None) && call_ensures(
                    from_store@,
                    (hash, number),
                    r,
                )
            }),
        {
            match cached(hash, number) {
                Some(block) => Some(block),
                None => stored(hash, number),
            }
        };
    let r = build_blocks_by_range_response_with(req, lookup);
    proof {
        lemma_answers_weaken(
            *req,
            |hash: B256, number: Option<u64>, block: Option<BscBlock>|
                call_ensures(lookup, (&hash, number), block),
            |hash: B256, number: Option<u64>, block: Option<BscBlock>|
                {
                    ||| block is Some && call_ensures(cached, (&hash, number), block)
                    ||| call_ensures(cached, (&hash, number), None) && call_ensures(
                        stored,
                        (&hash, number),
                        block,
                    )
                },
            r.blocks@,
        );
    }
    r
}

/// Blocks that answer a request out of one lookup answer it out of any other that may give the
/// same.
proof fn lemma_answers_weaken(
    req: GetBlocksByRangePacket,
    narrow: Found,
    wide: Found,
    blocks: Seq<BscBlock>,
)
    requires
        answers(req, narrow, blocks),
        forall|hash: B256, number: Option<u64>, block: Option<BscBlock>| #[trigger]
            narrow(hash, number, block) ==> wide(hash, number, block),
    ensures
        answers(req, wide, blocks),
{
    assert forall|i: int| 0 <= i < blocks.len() implies #[trigger] found_in_place(
        req,
        wide,
        blocks,
        i,
    ) by {
        assert(found_in_place(req, narrow, blocks, i));
    }
}

/// Where every lookup by hash gives the block of that hash, a response is a piece of chain: each
/// block names the hash of the next one as its parent's.
pub proof fn law_response_is_a_chain(
    req: GetBlocksByRangePacket,
    found: Found,
    blocks: Seq<BscBlock>,
)
    requires
        answers(req, found, blocks),
    ensures
        (forall|hash: B256, block: BscBlock| #[trigger]
            found(hash, None, Some(block)) ==> block.header.digest() == hash@) ==> forall|i: int|
            0 < i < blocks.len() ==> (#[trigger] blocks[i]).header.digest() == blocks[i
                - 1].header.parent_hash@,
{
    if forall|hash: B256, block: BscBlock| #[trigger]
        found(hash, None, Some(block)) ==> block.header.digest() == hash@ {
        assert forall|i: int| 0 < i < blocks.len() implies (#[trigger] blocks[i]).header.digest()
            == blocks[i - 1].header.parent_hash@ by {
            assert(found_in_place(req, found, blocks, i));
        }
    }
}

/// A response holds no more blocks than were asked for, and never more than may be sent at once.
pub proof fn law_response_is_bounded(
    req: GetBlocksByRangePacket,
    found: Found,
    blocks: Seq<BscBlock>,
)
    requires
        answers(req, found, blocks),
    ensures
        blocks.len() <= req.count,
        blocks.len() <= MAX_REQUEST_RANGE_BLOCKS_COUNT,
{
}

/// A response starts with the block that the request names, by its hash or, where the hash is zero,
/// by its number; each block behind it was looked up by the hash that the one before names as its
/// parent's, and the parent of a block without one is not looked up.
pub proof fn law_response_goes_from_block_to_parent(
    req: GetBlocksByRangePacket,
    found: Found,
    blocks: Seq<BscBlock>,
    i: int,
)
    requires
        answers(req, found, blocks),
    ensures
        blocks.len() > 0 && req.start_block_hash != zero_bytes::<32>() ==> found(
            req.start_block_hash,
            None,
            Some(blocks[0]),
        ),
        blocks.len() > 0 && req.start_block_hash == zero_bytes::<32>() ==> found(
            zero_bytes::<32>(),
            Some(req.start_block_height),
            Some(blocks[0]),
        ),
        0 < i < blocks.len() ==> {
            &&& blocks[i - 1].header.parent_hash != zero_bytes::<32>()
            &&& found(blocks[i - 1].header.parent_hash, None, Some(blocks[i]))
        },
{
    if blocks.len() > 0 {
        assert(found_in_place(req, found, blocks, 0));
    }
    if 0 < i < blocks.len() {
        assert(found_in_place(req, found, blocks, i));
    }
}

/// A response holds no more than 64 blocks and no more than were asked for; it holds fewer only
/// where a block could not be found or the last one has no parent.
pub proof fn law_response_is_no_shorter_than_it_must_be(
    req: GetBlocksByRangePacket,
    found: Found,
    blocks: Seq<BscBlock>,
)
    requires
        answers(req, found, blocks),
    ensures
        blocks.len() <= 64,
        blocks.len() <= req.count,
        blocks.len() < 64 && blocks.len() < req.count ==> {
            ||| blocks.len() == 0 && req.start_block_hash != zero_bytes::<32>() && found(
                req.start_block_hash,
                None,
                None,
            )
            ||| blocks.len() == 0 && req.start_block_hash == zero_bytes::<32>() && found(
                zero_bytes::<32>(),
                Some(req.start_block_height),
                None,
            )
            ||| blocks.len() > 0 && blocks.last().header.parent_hash == zero_bytes::<32>()
            ||| blocks.len() > 0 && found(blocks.last().header.parent_hash, None, None)
        },
{
}

} // verus!
