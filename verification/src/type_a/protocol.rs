//! Generic ISO14443-4 block protocol handler.
//!
//! Role-agnostic: manages block numbering, block construction (with optional
//! CID), and chain accumulation. Returns [`Action`]s that the caller (PCD or
//! PICC transport layer) must execute.

use super::block::{
    lemma_block_serialize_parse, lemma_block_serialize_parse_crc, spec_block_bytes_without_crc, spec_block_parse, spec_sent_pcb, Block,
    BlockModel,
};
use super::crc::{crc_accepted, with_crc_a};
use super::crc::extend_bytes;
use super::pcb::{
    spec_pcb_byte, spec_pcb_parse, BlockNumber, BlockType, Pcb, PcbFlags, RBlockSubtype, SBlockSubtype,
};
use super::vec::{ChainVec, FrameVec};
use super::{Cid, TypeAError};
use vstd::prelude::*;

verus! {

broadcast use super::pcb::group_block_number;

/// Action the caller must take after processing a received block.
#[derive(Debug)]
pub enum Action {
    /// The received I-Block completes the exchange (single block or final
    /// block of a chain). The assembled payload is returned.
    Complete(ChainVec),
    /// The caller must send this block to continue the protocol:
    /// R(ACK) during chaining, S(WTX) echo, or S(DESELECT) echo.
    Reply(Block),
    /// R(ACK) received with matching block number during our chaining.
    /// Caller should send the next chained I-Block.
    ChainingAck,
    /// R(ACK) received with non-matching block number during our chaining.
    /// Caller should retransmit the last I-Block.
    ChainingRetransmit,
}

/// The content of an action.
pub enum ActionModel {
    Complete(Seq<u8>),
    Reply(BlockModel),
    ChainingAck,
    ChainingRetransmit,
}

impl View for Action {
    type V = ActionModel;

    open spec fn view(&self) -> ActionModel {
        match self {
            Action::Complete(d) => ActionModel::Complete(d@),
            Action::Reply(b) => ActionModel::Reply(b@),
            Action::ChainingAck => ActionModel::ChainingAck,
            Action::ChainingRetransmit => ActionModel::ChainingRetransmit,
        }
    }
}

/// The view of an action result.
pub open spec fn spec_action_result(r: Result<Action, TypeAError>) -> Result<ActionModel, TypeAError> {
    match r {
        Ok(a) => Ok(a@),
        Err(e) => Err(e),
    }
}

/// Generic ISO14443-4 block protocol state.
///
/// Tracks block numbering, optional CID, and chain accumulation.
/// Both PCD and PICC transport layers use this for the shared block-level
/// protocol, adding their role-specific logic (I/O, CRC, error recovery)
/// on top.
#[derive(Debug, PartialEq, Eq)]
pub struct ProtocolHandler {
    cid: Option<Cid>,
    block_number: BlockNumber,
    chain: ChainVec,
}

/// The state of a protocol handler.
pub struct HandlerModel {
    pub cid: Option<Cid>,
    /// The current block number, 0 or 1.
    pub block_number: u8,
    /// The payload received so far in a chain of I-blocks.
    pub chain: Seq<u8>,
}

impl View for ProtocolHandler {
    type V = HandlerModel;

    closed spec fn view(&self) -> HandlerModel {
        HandlerModel { cid: self.cid, block_number: self.block_number.spec_get(), chain: self.chain@ }
    }
}

/// The PCB of an I-block with the given block number (0 or 1) and chaining.
pub open spec fn spec_iblock_pcb(block_number: u8, chaining: bool) -> Pcb {
    Pcb {
        flags: PcbFlags(
            (if block_number == 1 {
                PcbFlags::BLOCK_NUMBER
            } else {
                0u8
            }) | (if chaining {
                PcbFlags::CHAINING
            } else {
                0u8
            }),
        ),
        block_type: BlockType::IBlock,
        block_number: BlockNumber::spec_new(block_number),
        chaining,
        r_subtype: None,
        s_subtype: None,
    }
}

/// The PCB of an R-block with the given block number (0 or 1) and subtype.
pub open spec fn spec_rblock_pcb(block_number: u8, subtype: RBlockSubtype) -> Pcb {
    Pcb {
        flags: PcbFlags(
            if block_number == 1 {
                PcbFlags::BLOCK_NUMBER
            } else {
                0u8
            },
        ),
        block_type: BlockType::RBlock,
        block_number: BlockNumber::spec_new(block_number),
        chaining: false,
        r_subtype: Some(subtype),
        s_subtype: None,
    }
}

/// The PCB of an S-block with the given subtype.
pub open spec fn spec_sblock_pcb(subtype: SBlockSubtype) -> Pcb {
    Pcb {
        flags: PcbFlags(0),
        block_type: BlockType::SBlock,
        block_number: BlockNumber::spec_new(0),
        chaining: false,
        r_subtype: None,
        s_subtype: Some(subtype),
    }
}

/// A block with the given PCB, the handler's CID, no NAD, the given
/// payload and a zero CRC field.
pub open spec fn spec_built_block(h: HandlerModel, pcb: Pcb, payload: Seq<u8>) -> BlockModel {
    BlockModel { pcb, cid: h.cid, nad: None, payload, crc: (0, 0) }
}

/// The I-block that carries `payload`.
pub open spec fn spec_iblock(h: HandlerModel, payload: Seq<u8>, chaining: bool) -> BlockModel {
    spec_built_block(h, spec_iblock_pcb(h.block_number, chaining), payload)
}

/// The R-block with the current block number.
pub open spec fn spec_rblock(h: HandlerModel, subtype: RBlockSubtype) -> BlockModel {
    spec_built_block(h, spec_rblock_pcb(h.block_number, subtype), Seq::empty())
}

/// The S-block of the given subtype, with the given payload.
pub open spec fn spec_sblock(h: HandlerModel, subtype: SBlockSubtype, payload: Seq<u8>) -> BlockModel {
    spec_built_block(h, spec_sblock_pcb(subtype), payload)
}

/// The handler with its block number toggled.
pub open spec fn spec_toggled(h: HandlerModel) -> HandlerModel {
    HandlerModel { block_number: (1 - h.block_number) as u8, ..h }
}

/// The handler after a reset: block number 0, empty chain.
pub open spec fn spec_reset(h: HandlerModel) -> HandlerModel {
    HandlerModel { block_number: 0, chain: Seq::empty(), ..h }
}

/// What processing a received block does: the next state and the result.
///
/// - I-block: its payload is added to the chain and the block number
///   toggles; a chaining block is answered with R(ACK) carrying the block
///   number before the toggle, a final block completes with the whole
///   chain, which is emptied.
/// - R(ACK) with the current block number: toggle, `ChainingAck`; R(ACK)
///   with the other number, or R(NAK): `ChainingRetransmit`.
/// - S(WTX): answered with S(WTX) carrying the same payload.
/// - S(DESELECT): answered with S(DESELECT); the handler resets.
pub open spec fn spec_process(h: HandlerModel, b: BlockModel) -> (HandlerModel, Result<ActionModel, TypeAError>) {
    match b.pcb.block_type {
        BlockType::IBlock => {
            let h1 = HandlerModel { chain: h.chain + b.payload, ..h };
            if b.pcb.chaining {
                (spec_toggled(h1), Ok(ActionModel::Reply(spec_rblock(h1, RBlockSubtype::Ack))))
            } else {
                (
                    HandlerModel { chain: Seq::empty(), ..spec_toggled(h1) },
                    Ok(ActionModel::Complete(h1.chain)),
                )
            }
        },
        BlockType::RBlock => match b.pcb.r_subtype {
            Some(RBlockSubtype::Ack) => if b.pcb.block_number.spec_get() == h.block_number {
                (spec_toggled(h), Ok(ActionModel::ChainingAck))
            } else {
                (h, Ok(ActionModel::ChainingRetransmit))
            },
            Some(RBlockSubtype::Nak) => (h, Ok(ActionModel::ChainingRetransmit)),
            None => (h, Err(TypeAError::InvalidPcb)),
        },
        BlockType::SBlock => match b.pcb.s_subtype {
            Some(SBlockSubtype::Wtx) => (
                h,
                Ok(ActionModel::Reply(spec_sblock(h, SBlockSubtype::Wtx, b.payload))),
            ),
            Some(SBlockSubtype::Deselect) => (
                spec_reset(h),
                Ok(ActionModel::Reply(spec_sblock(h, SBlockSubtype::Deselect, Seq::empty()))),
            ),
            _ => (h, Err(TypeAError::Other)),
        },
    }
}

/// Every block that the handler answers with is addressed like the
/// handler itself: it carries the handler's CID and no NAD. In particular
/// the R(ACK) that answers a chaining I-block carries the block number the
/// handler had when that I-block arrived.
pub proof fn lemma_reply_carries_cid(h: HandlerModel, b: BlockModel)
    ensures
        spec_process(h, b).1 matches Ok(ActionModel::Reply(r)) ==> r.cid == h.cid && r.nad is None,
        b.pcb.block_type == BlockType::IBlock && b.pcb.chaining ==> (spec_process(h, b).1 matches Ok(
            ActionModel::Reply(r),
        ) && r.pcb.block_type == BlockType::RBlock && r.pcb.r_subtype == Some(RBlockSubtype::Ack)
            && r.pcb.block_number.spec_get() == h.block_number),
{
}

proof fn lemma_flag_bits()
    ensures
        0u8 | PcbFlags::BLOCK_NUMBER == PcbFlags::BLOCK_NUMBER,
        PcbFlags::BLOCK_NUMBER | PcbFlags::CHAINING == (PcbFlags::BLOCK_NUMBER | PcbFlags::CHAINING),
        0u8 | PcbFlags::CHAINING == PcbFlags::CHAINING,
        PcbFlags::BLOCK_NUMBER | 0u8 == PcbFlags::BLOCK_NUMBER,
        0u8 | 0u8 == 0u8,
        1u8 & 1u8 == 1u8,
        0u8 & 1u8 == 0u8,
{
    assert(0u8 | 1u8 == 1u8 && 0u8 | 0x10u8 == 0x10u8 && 1u8 | 0u8 == 1u8 && 0u8 | 0u8 == 0u8 && 1u8
        & 1u8 == 1u8 && 0u8 & 1u8 == 0u8) by (bit_vector);
}

impl ProtocolHandler {
    pub fn new(cid: Option<Cid>) -> (r: Self)
        ensures
            r@ == (HandlerModel { cid, block_number: 0, chain: Seq::empty() }),
    {
        Self { cid, block_number: BlockNumber::zero(), chain: Vec::new() }
    }

    /// The current block number, 0 or 1.
    pub fn block_number(&self) -> (r: u8)
        ensures
            r == self@.block_number,
            r <= 1,
    {
        self.block_number.get()
    }

    /// The handler's CID.
    pub fn cid(&self) -> (r: Option<Cid>)
        ensures
            r == self@.cid,
    {
        self.cid
    }

    pub fn toggle_block_number(&mut self)
        ensures
            final(self)@ == spec_toggled(old(self)@),
    {
        self.block_number = self.block_number.toggled();
    }

    pub fn reset(&mut self)
        ensures
            final(self)@ == spec_reset(old(self)@),
    {
        self.block_number = BlockNumber::zero();
        self.chain.clear();
    }

    /// Reset chain accumulator between exchanges.
    pub fn reset_chain(&mut self)
        ensures
            final(self)@ == (HandlerModel { chain: Seq::empty(), ..old(self)@ }),
    {
        self.chain.clear();
    }

    // ── Block builders ──────────────────────────────────────────────────
    pub fn build_iblock(&self, payload: &[u8], chaining: bool) -> (r: Result<Block, TypeAError>)
        ensures
            r matches Ok(b) && b@ == spec_iblock(self@, payload@, chaining),
    {
        proof {
            lemma_flag_bits();
        }
        let pcb = Pcb::new(BlockType::IBlock).with_block_number(self.block_number.get()).with_chaining(
            chaining,
        );
        let mut block = Block::new(pcb);
        if let Some(cid) = self.cid {
            block = block.with_cid(cid);
        }
        let mut p: Vec<u8> = Vec::new();
        extend_bytes(&mut p, payload);
        assert(p@ =~= payload@);
        Ok(block.with_payload(p))
    }

    fn build_rblock(&self, subtype: RBlockSubtype) -> (r: Block)
        ensures
            r@ == spec_rblock(self@, subtype),
    {
        proof {
            lemma_flag_bits();
        }
        let pcb = Pcb::new(BlockType::RBlock).with_block_number(self.block_number.get()).with_r_subtype(
            subtype,
        );
        let mut block = Block::new(pcb);
        if let Some(cid) = self.cid {
            block = block.with_cid(cid);
        }
        block
    }

    pub fn build_rack(&self) -> (r: Result<Block, TypeAError>)
        ensures
            r matches Ok(b) && b@ == spec_rblock(self@, RBlockSubtype::Ack),
    {
        Ok(self.build_rblock(RBlockSubtype::Ack))
    }

    pub fn build_rnak(&self) -> (r: Result<Block, TypeAError>)
        ensures
            r matches Ok(b) && b@ == spec_rblock(self@, RBlockSubtype::Nak),
    {
        Ok(self.build_rblock(RBlockSubtype::Nak))
    }

    pub fn build_sblock(&self, subtype: SBlockSubtype) -> (r: Result<Block, TypeAError>)
        ensures
            r matches Ok(b) && b@ == spec_sblock(self@, subtype, Seq::empty()),
    {
        let pcb = Pcb::new(BlockType::SBlock).with_s_subtype(subtype);
        let mut block = Block::new(pcb);
        if let Some(cid) = self.cid {
            block = block.with_cid(cid);
        }
        Ok(block)
    }

    pub fn build_wtx_response(&self, request: &Block) -> (r: Result<Block, TypeAError>)
        ensures
            r matches Ok(b) && b@ == spec_sblock(self@, SBlockSubtype::Wtx, request.payload@),
    {
        let pcb = Pcb::new(BlockType::SBlock).with_s_subtype(SBlockSubtype::Wtx);
        let mut block = Block::new(pcb);
        if let Some(cid) = self.cid {
            block = block.with_cid(cid);
        }
        let mut p: Vec<u8> = Vec::new();
        extend_bytes(&mut p, request.payload.as_slice());
        Ok(block.with_payload(p))
    }

    // ── Incoming block processing ───────────────────────────────────────
    /// Process a received block and return the action the caller must take.
    ///
    /// Handles:
    /// - I-Block (single or chained) → accumulate, return [`Action::Complete`]
    ///   or [`Action::Reply`] with R(ACK).
    /// - R(ACK) → return [`Action::ChainingAck`] or
    ///   [`Action::ChainingRetransmit`] based on block number match.
    /// - S(WTX) → return [`Action::Reply`] with S(WTX) echo.
    /// - S(DESELECT) → return [`Action::Reply`] with S(DESELECT) echo, reset.
    pub fn process_received(&mut self, block: Block) -> (r: Result<Action, TypeAError>)
        ensures
            (final(self)@, spec_action_result(r)) == spec_process(old(self)@, block@),
    {
        match block.block_type() {
            BlockType::IBlock => self.process_iblock(block),
            BlockType::RBlock => self.process_rblock(block),
            BlockType::SBlock => self.process_sblock(block),
        }
    }

    fn process_iblock(&mut self, block: Block) -> (r: Result<Action, TypeAError>)
        requires
            block.pcb.block_type == BlockType::IBlock,
        ensures
            (final(self)@, spec_action_result(r)) == spec_process(old(self)@, block@),
    {
        extend_bytes(&mut self.chain, block.payload.as_slice());
        if block.is_chaining() {
            // R(ACK) carries the received block's number (before toggle)
            let rack = self.build_rblock(RBlockSubtype::Ack);
            self.toggle_block_number();
            Ok(Action::Reply(rack))
        } else {
            self.toggle_block_number();
            let mut data: Vec<u8> = Vec::new();
            std::mem::swap(&mut data, &mut self.chain);
            Ok(Action::Complete(data))
        }
    }

    fn process_rblock(&mut self, block: Block) -> (r: Result<Action, TypeAError>)
        requires
            block.pcb.block_type == BlockType::RBlock,
        ensures
            (final(self)@, spec_action_result(r)) == spec_process(old(self)@, block@),
    {
        match block.pcb.r_subtype {
            Some(RBlockSubtype::Ack) => {
                if block.block_number() == self.block_number.get() {
                    self.toggle_block_number();
                    Ok(Action::ChainingAck)
                } else {
                    Ok(Action::ChainingRetransmit)
                }
            },
            Some(RBlockSubtype::Nak) => {
                // NAK → caller should retransmit last block
                Ok(Action::ChainingRetransmit)
            },
            None => Err(TypeAError::InvalidPcb),
        }
    }

    fn process_sblock(&mut self, block: Block) -> (r: Result<Action, TypeAError>)
        requires
            block.pcb.block_type == BlockType::SBlock,
        ensures
            (final(self)@, spec_action_result(r)) == spec_process(old(self)@, block@),
    {
        match block.pcb.s_subtype {
            Some(SBlockSubtype::Wtx) => {
                match self.build_wtx_response(&block) {
                    Ok(resp) => Ok(Action::Reply(resp)),
                    Err(e) => Err(e),
                }
            },
            Some(SBlockSubtype::Deselect) => {
                match self.build_sblock(SBlockSubtype::Deselect) {
                    Ok(resp) => {
                        self.reset();
                        Ok(Action::Reply(resp))
                    },
                    Err(e) => Err(e),
                }
            },
            _ => Err(TypeAError::Other),
        }
    }
}

impl Default for ProtocolHandler {
    fn default() -> (r: Self)
        ensures
            r@ == (HandlerModel { cid: None, block_number: 0, chain: Seq::empty() }),
    {
        Self::new(None)
    }
}

/// Toggling the block number twice gives back the handler.
pub proof fn lemma_toggle_twice(h: HandlerModel)
    requires
        h.block_number <= 1,
    ensures
        spec_toggled(spec_toggled(h)) == h,
{
}

/// The state and the last result after processing `bs` in order (the
/// result is `Err(Other)` when nothing is processed).
pub open spec fn spec_process_all(h: HandlerModel, bs: Seq<BlockModel>) -> (HandlerModel, Result<ActionModel, TypeAError>)
    decreases bs.len(),
{
    if bs.len() == 0 {
        (h, Err(TypeAError::Other))
    } else {
        spec_process(spec_process_all(h, bs.drop_last()).0, bs.last())
    }
}

/// The payloads of `bs`, one after the other.
pub open spec fn spec_payloads(bs: Seq<BlockModel>) -> Seq<u8>
    decreases bs.len(),
{
    if bs.len() == 0 {
        Seq::empty()
    } else {
        spec_payloads(bs.drop_last()) + bs.last().payload
    }
}

/// Whether `bs` is a chain of I-blocks: every block but the last has its
/// chaining bit set, the last has not.
pub open spec fn spec_is_iblock_chain(bs: Seq<BlockModel>) -> bool {
    &&& bs.len() >= 1
    &&& forall|i: int| 0 <= i < bs.len() ==> (#[trigger] bs[i]).pcb.block_type == BlockType::IBlock
    &&& forall|i: int| 0 <= i < bs.len() - 1 ==> (#[trigger] bs[i]).pcb.chaining
    &&& !bs.last().pcb.chaining
}

proof fn lemma_chain_prefix(h: HandlerModel, bs: Seq<BlockModel>)
    requires
        h.block_number <= 1,
        forall|i: int| 0 <= i < bs.len() ==> (#[trigger] bs[i]).pcb.block_type == BlockType::IBlock,
        forall|i: int| 0 <= i < bs.len() ==> (#[trigger] bs[i]).pcb.chaining,
    ensures
        spec_process_all(h, bs).0 == (HandlerModel {
            cid: h.cid,
            block_number: if bs.len() % 2 == 0 {
                h.block_number
            } else {
                (1 - h.block_number) as u8
            },
            chain: h.chain + spec_payloads(bs),
        }),
    decreases bs.len(),
{
    if bs.len() == 0 {
        assert(h.chain + spec_payloads(bs) =~= h.chain);
    } else {
        let init = bs.drop_last();
        assert forall|i: int| 0 <= i < init.len() implies (#[trigger] init[i]).pcb.block_type
            == BlockType::IBlock && init[i].pcb.chaining by {
            assert(init[i] == bs[i]);
        }
        lemma_chain_prefix(h, init);
        assert(bs.last() == bs[bs.len() - 1]);
        assert(h.chain + spec_payloads(init) + bs.last().payload =~= h.chain + spec_payloads(bs));
    }
}

/// Receiving a chain of I-blocks completes with the chain received before
/// followed by the payloads of the blocks, in order; the chain is then
/// empty and the block number has toggled once per block.
pub proof fn lemma_chain_assembly(h: HandlerModel, bs: Seq<BlockModel>)
    requires
        h.block_number <= 1,
        spec_is_iblock_chain(bs),
    ensures
        spec_process_all(h, bs).1 == Ok::<ActionModel, TypeAError>(
            ActionModel::Complete(h.chain + spec_payloads(bs)),
        ),
        spec_process_all(h, bs).0 == (HandlerModel {
            cid: h.cid,
            block_number: if bs.len() % 2 == 0 {
                h.block_number
            } else {
                (1 - h.block_number) as u8
            },
            chain: Seq::empty(),
        }),
{
    let init = bs.drop_last();
    assert forall|i: int| 0 <= i < init.len() implies (#[trigger] init[i]).pcb.block_type
        == BlockType::IBlock && init[i].pcb.chaining by {
        assert(init[i] == bs[i]);
    }
    lemma_chain_prefix(h, init);
    assert(bs.last() == bs[bs.len() - 1]);
    assert(h.chain + spec_payloads(init) + bs.last().payload =~= h.chain + spec_payloads(bs));
}

/// Whether a PCB is one that the handler builds: an I-block or R-block
/// PCB with block number 0 or 1, or the PCB of S(WTX) or S(DESELECT).
pub open spec fn spec_is_built_pcb(p: Pcb) -> bool {
    &&& p.block_number.spec_get() <= 1
    &&& {
        ||| p == spec_iblock_pcb(p.block_number.spec_get(), p.chaining)
        ||| (p.r_subtype matches Some(st) && p == spec_rblock_pcb(p.block_number.spec_get(), st))
        ||| p == spec_sblock_pcb(SBlockSubtype::Wtx)
        ||| p == spec_sblock_pcb(SBlockSubtype::Deselect)
    }
}

/// The blocks that the handler builds have PCBs of the kind it builds.
pub proof fn lemma_handler_builds(h: HandlerModel, payload: Seq<u8>, chaining: bool)
    requires
        h.block_number <= 1,
    ensures
        spec_is_built_pcb(spec_iblock(h, payload, chaining).pcb),
        spec_is_built_pcb(spec_rblock(h, RBlockSubtype::Ack).pcb),
        spec_is_built_pcb(spec_rblock(h, RBlockSubtype::Nak).pcb),
        spec_is_built_pcb(spec_sblock(h, SBlockSubtype::Wtx, payload).pcb),
        spec_is_built_pcb(spec_sblock(h, SBlockSubtype::Deselect, payload).pcb),
{
}

/// Whether two PCBs say the same: block type, block number, chaining and
/// subtype.
pub open spec fn spec_same_pcb(p: Pcb, q: Pcb) -> bool {
    &&& p.block_type == q.block_type
    &&& p.block_number == q.block_number
    &&& p.chaining == q.chaining
    &&& p.r_subtype == q.r_subtype
    &&& p.s_subtype == q.s_subtype
}

proof fn lemma_built_pcb_parses(b: BlockModel)
    requires
        spec_is_built_pcb(b.pcb),
        b.nad is None,
    ensures
        spec_pcb_parse(spec_pcb_byte(spec_sent_pcb(b))) matches Ok(q) && spec_same_pcb(q, b.pcb),
{
    let p = b.pcb;
    let cid = b.cid is Some;
    let bn = p.block_number.spec_get();
    let n: u8 = if bn == 1 {
        0x01u8
    } else {
        0u8
    };
    let f = p.flags.0;
    let g: u8 = (if cid {
        f | 0x08
    } else {
        f & !0x08u8
    }) & !0x04u8;
    assert(spec_sent_pcb(b).flags.0 == g);
    let byte = spec_pcb_byte(spec_sent_pcb(b));
    if p == spec_iblock_pcb(bn, p.chaining) {
        let c: u8 = if p.chaining {
            0x10u8
        } else {
            0u8
        };
        assert(byte == (0x02u8 | 0x00u8 | n | c | (g & 0x0c)) as u8);
        assert({
            let x = (0x02u8 | 0x00u8 | n | c | (g & 0x0c)) as u8;
            &&& x & 0xC0 == 0x00
            &&& x & 0x02 != 0
            &&& x & 0x20 == 0
            &&& x & 0x01 == n
            &&& (x & 0x10 != 0) == (c == 0x10)
        }) by (bit_vector)
            requires
                n == 0 || n == 1,
                c == 0 || c == 0x10,
                g == (if cid {
                    f | 0x08
                } else {
                    f & !0x08u8
                }) & !0x04u8,
                f == (if n == 1 {
                    0x01u8
                } else {
                    0u8
                }) | c,
        ;
    } else if p.r_subtype matches Some(st) && p == spec_rblock_pcb(bn, st) {
        let base = (0x02u8 | 0x80u8 | n | 0u8 | (g & 0x0c)) as u8;
        assert({
            let x = base | 0x20;
            &&& (x & 0xEF) & 0xC0 == 0x80
            &&& (x & 0xEF) & 0x02 != 0
            &&& (x & 0xEF) & 0x20 != 0
            &&& (x & 0xEF) & 0x01 == n
            &&& ((x & 0xEF) >> 4u8) & 0x01 == 0
            &&& (x | 0x10) & 0xC0 == 0x80
            &&& (x | 0x10) & 0x02 != 0
            &&& (x | 0x10) & 0x20 != 0
            &&& (x | 0x10) & 0x01 == n
            &&& ((x | 0x10) >> 4u8) & 0x01 == 1
        }) by (bit_vector)
            requires
                n == 0 || n == 1,
                base == (0x02u8 | 0x80u8 | n | 0u8 | (g & 0x0c)) as u8,
                g == (if cid {
                    f | 0x08
                } else {
                    f & !0x08u8
                }) & !0x04u8,
                f == n,
        ;
    } else {
        let base = (0x02u8 | 0xC0u8 | 0u8 | 0u8 | (g & 0x0c)) as u8;
        assert({
            &&& base & 0xC0 == 0xC0
            &&& base & 0x02 != 0
            &&& base & 0x01 == 0
            &&& (base >> 4u8) & 0x03 == 0
            &&& (base | 0x30) & 0xC0 == 0xC0
            &&& (base | 0x30) & 0x02 != 0
            &&& (base | 0x30) & 0x01 == 0
            &&& ((base | 0x30) >> 4u8) & 0x03 == 3
        }) by (bit_vector)
            requires
                base == (0x02u8 | 0xC0u8 | 0u8 | 0u8 | (g & 0x0c)) as u8,
                g == (if cid {
                    f | 0x08
                } else {
                    f & !0x08u8
                }) & !0x04u8,
                f == 0,
        ;
    }
}

/// A block that the handler builds (an I-block, R-block, S(WTX) or
/// S(DESELECT)), sent with its CRC_A, is parsed by the peer as a block
/// with the same type, block number, chaining, subtype, CID and payload,
/// and no NAD.
pub proof fn lemma_built_block_roundtrip(b: BlockModel)
    requires
        spec_is_built_pcb(b.pcb),
        b.nad is None,
        b.cid matches Some(c) ==> c.spec_value() <= 14,
    ensures
        spec_block_parse(with_crc_a(spec_block_bytes_without_crc(b))) matches Ok(m) && spec_same_pcb(
            m.pcb,
            b.pcb,
        ) && m.cid == b.cid && m.nad is None && m.payload == b.payload,
{
    lemma_built_pcb_parses(b);
    lemma_block_serialize_parse(b);
}

/// A block that the handler builds, followed by any CRC pair accepted for
/// its bytes (their CRC_A, or `(0, 0)` for a CRC that the hardware
/// checked), is parsed by the peer as a block with the same type, block
/// number, chaining, subtype, CID and payload, and no NAD.
pub proof fn lemma_built_block_parses(b: BlockModel, crc: (u8, u8))
    requires
        spec_is_built_pcb(b.pcb),
        b.nad is None,
        b.cid matches Some(c) ==> c.spec_value() <= 14,
        crc_accepted(spec_block_bytes_without_crc(b), crc),
    ensures
        spec_block_parse(spec_block_bytes_without_crc(b) + seq![crc.0, crc.1]) matches Ok(m)
            && spec_same_pcb(m.pcb, b.pcb) && m.cid == b.cid && m.nad is None && m.payload == b.payload,
{
    lemma_built_pcb_parses(b);
    lemma_block_serialize_parse_crc(b, crc);
}

} // verus!
