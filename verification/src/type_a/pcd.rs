//! ISO14443-4 PCD (reader) transport layer.
//!
//! The decisions of the half-duplex block protocol on the reader side:
//! RATS/ATS negotiation, optional PPS, APDU exchange with chaining in both
//! directions, WTX handling, error recovery, and DESELECT. Each step takes
//! what the transceiver answered and says what to send next; the loop that
//! drives the transceiver stands outside this library.

use super::ats::{spec_ats_parse, Ats, AtsModel};
use super::block::{spec_block_bytes_without_crc, spec_block_parse, Block, BlockModel};
use super::crc::{append_crc_a, extend_bytes, spec_crc_a, with_crc_a};
use super::pcb::{BlockType, RBlockSubtype, SBlockSubtype};
use super::pps::{spec_pps1_byte, spec_pps_parse, spec_pps_resp_parse, Dxi, PpsParam, PpsResp};
use super::protocol::{
    lemma_built_block_parses, lemma_handler_builds, spec_action_result, spec_iblock, spec_process, spec_rblock, spec_sblock, spec_toggled, Action,
    ActionModel, HandlerModel, ProtocolHandler,
};
use super::rats::{spec_rats_byte, Fsdi, RatsParam};
use super::vec::{ChainVec, FrameVec};
use super::{Cid, Frame, TypeAError};
use vstd::prelude::*;
use vstd::slice::slice_subrange;
use vstd::std_specs::convert::FromSpecImpl;

verus! {

broadcast use super::group_cid;

/// Number of R(ACK) recovery attempts after a failed reception.
pub const MAX_RETRIES: u8 = 2;

/// Error during PCD protocol operations.
#[derive(Debug)]
pub enum PcdError<E> {
    /// The transceiver returned an error.
    PcdTransceiver(E),
    /// ISO14443 protocol violation.
    Protocol(TypeAError),
}

impl<E> FromSpecImpl<TypeAError> for PcdError<E> {
    open spec fn obeys_from_spec() -> bool {
        true
    }

    open spec fn from_spec(e: TypeAError) -> Self {
        PcdError::Protocol(e)
    }
}

impl<E> From<TypeAError> for PcdError<E> {
    fn from(e: TypeAError) -> (r: Self) {
        PcdError::Protocol(e)
    }
}

/// The bytes of a frame that carries `data` in a standard frame: as they
/// are when the transceiver adds the CRC, with CRC_A appended otherwise.
pub open spec fn spec_standard_bytes(data: Seq<u8>, hw_crc: bool) -> Seq<u8> {
    if hw_crc {
        data
    } else {
        with_crc_a(data)
    }
}

/// The bytes to parse for a received standard frame: when the transceiver
/// has checked and stripped the CRC, two zero bytes stand in for it.
pub open spec fn spec_received_bytes(raw: Seq<u8>, hw_crc: bool) -> Seq<u8> {
    if hw_crc {
        raw + seq![0u8, 0u8]
    } else {
        raw
    }
}

/// The bytes of the RATS command.
pub open spec fn spec_rats_bytes(fsdi: Fsdi, cid: Cid, hw_crc: bool) -> Seq<u8> {
    spec_standard_bytes(seq![0xe0u8, spec_rats_byte(fsdi, cid)], hw_crc)
}

/// A standard frame that carries `data`.
fn standard_frame(data: Vec<u8>, hw_crc: bool) -> (r: Frame)
    ensures
        r is Standard,
        r.spec_data() == spec_standard_bytes(data@, hw_crc),
{
    if hw_crc {
        Frame::Standard(data)
    } else {
        Frame::Standard(append_crc_a(data.as_slice()))
    }
}

/// The bytes of a received standard frame, ready to parse.
fn received_bytes(raw: &[u8], hw_crc: bool) -> (r: Vec<u8>)
    ensures
        r@ == spec_received_bytes(raw@, hw_crc),
{
    let mut buf: Vec<u8> = Vec::new();
    extend_bytes(&mut buf, raw);
    if hw_crc {
        // HW already validated and stripped CRC; append (0,0), which the
        // parsers accept in place of a CRC.
        buf.push(0);
        buf.push(0);
    }
    assert(buf@ =~= spec_received_bytes(raw@, hw_crc));
    buf
}

/// ISO14443-4 PCD session state: CRC strategy, the frame size the PICC
/// accepts, and the generic block protocol handler.
#[derive(Debug)]
pub struct PcdSession {
    hw_crc: bool,
    /// Maximum frame size the PICC accepts (from ATS FSCI).
    fsc: usize,
    handler: ProtocolHandler,
}

/// The state of a PCD session.
pub struct PcdSessionModel {
    pub hw_crc: bool,
    pub fsc: usize,
    pub handler: HandlerModel,
}

impl View for PcdSession {
    type V = PcdSessionModel;

    closed spec fn view(&self) -> PcdSessionModel {
        PcdSessionModel { hw_crc: self.hw_crc, fsc: self.fsc, handler: self.handler@ }
    }
}

/// Where an APDU exchange stands.
#[derive(Debug, Clone, Copy, PartialEq, Eq, Structural)]
pub enum ExchangePhase {
    /// The I-block with `apdu[offset..end]` was sent; its answer is awaited.
    Sending { offset: usize, end: usize },
    /// A reply (R(ACK) or S(WTX)) was sent while receiving the answer.
    Awaiting,
    /// An R(ACK) was sent to recover from a failed reception, `retries`
    /// times so far.
    Recovering { retries: u8 },
    /// The exchange is over.
    Finished,
}

/// An APDU exchange in progress.
#[derive(Debug)]
pub struct PcdExchange {
    apdu: Vec<u8>,
    max_inf: usize,
    phase: ExchangePhase,
}

/// The state of an APDU exchange.
pub struct ExchangeModel {
    pub apdu: Seq<u8>,
    pub max_inf: usize,
    pub phase: ExchangePhase,
}

impl PcdExchange {
    /// The chunk being sent lies within the APDU and is as long as the
    /// frame size allows.
    #[verifier::type_invariant]
    spec fn chunk_in_range(self) -> bool {
        self.phase matches ExchangePhase::Sending { offset, end } ==> offset <= end
            <= self.apdu@.len() && end == spec_chunk_end(
            offset as int,
            self.max_inf as int,
            self.apdu@.len() as int,
        )
    }
}

impl View for PcdExchange {
    type V = ExchangeModel;

    closed spec fn view(&self) -> ExchangeModel {
        ExchangeModel { apdu: self.apdu@, max_inf: self.max_inf, phase: self.phase }
    }
}

/// What to do after a step of an exchange.
#[derive(Debug)]
pub enum ExchangeStep {
    /// Send this frame and hand its answer to the next step.
    Send(Frame),
    /// The exchange is complete: the response APDU.
    Done(ChainVec),
    /// The transceiver failed: the exchange ends with its error.
    TransceiverFailed,
    /// The exchange ends with this protocol error.
    Failed(TypeAError),
}

/// The content of an exchange step.
pub enum StepModel {
    Send(Seq<u8>),
    Done(Seq<u8>),
    TransceiverFailed,
    Failed(TypeAError),
}

impl View for ExchangeStep {
    type V = StepModel;

    open spec fn view(&self) -> StepModel {
        match self {
            ExchangeStep::Send(f) => StepModel::Send(f.spec_data()),
            ExchangeStep::Done(d) => StepModel::Done(d@),
            ExchangeStep::TransceiverFailed => StepModel::TransceiverFailed,
            ExchangeStep::Failed(e) => StepModel::Failed(*e),
        }
    }
}

/// The bytes that carry a block in a standard frame.
pub open spec fn spec_block_frame(s: PcdSessionModel, b: BlockModel) -> Seq<u8> {
    spec_standard_bytes(spec_block_bytes_without_crc(b), s.hw_crc)
}

/// The result of parsing a received block.
pub open spec fn spec_block_response(s: PcdSessionModel, raw: Seq<u8>) -> Result<BlockModel, TypeAError> {
    spec_block_parse(spec_received_bytes(raw, s.hw_crc))
}

/// The largest information field of an I-block sent to the PICC: FSC
/// minus the prologue (PCB and optional CID) and the two CRC bytes, or 0.
pub open spec fn spec_max_inf(s: PcdSessionModel) -> int {
    let overhead: int = 1 + (if s.handler.cid is Some {
        1int
    } else {
        0
    }) + 2;
    if s.fsc >= overhead {
        s.fsc - overhead
    } else {
        0
    }
}

/// The end of the chunk of `apdu` that starts at `offset`.
pub open spec fn spec_chunk_end(offset: int, max_inf: int, len: int) -> int {
    if offset + max_inf < len {
        offset + max_inf
    } else {
        len
    }
}

/// The pieces that `apdu[offset..]` is sent in: each I-block carries the
/// bytes from where the previous one ended up to `spec_chunk_end`.
pub open spec fn spec_chunks(apdu: Seq<u8>, max_inf: int, offset: int) -> Seq<Seq<u8>>
    decreases apdu.len() - offset,
{
    if max_inf <= 0 || offset < 0 || offset >= apdu.len() {
        Seq::empty()
    } else {
        let end = spec_chunk_end(offset, max_inf, apdu.len() as int);
        seq![apdu.subrange(offset, end)] + spec_chunks(apdu, max_inf, end)
    }
}

/// Chaining loses and repeats nothing: the pieces an APDU is sent in
/// follow each other to make up the whole APDU, and each holds at least
/// one and at most `max_inf` bytes.
pub proof fn lemma_chunks_cover(apdu: Seq<u8>, max_inf: int, offset: int)
    requires
        0 < max_inf,
        0 <= offset <= apdu.len(),
    ensures
        spec_chunks(apdu, max_inf, offset).flatten() == apdu.subrange(offset, apdu.len() as int),
        forall|i: int|
            0 <= i < spec_chunks(apdu, max_inf, offset).len() ==> 0 < (#[trigger] spec_chunks(
                apdu,
                max_inf,
                offset,
            )[i]).len() <= max_inf,
    decreases apdu.len() - offset,
{
    let c = spec_chunks(apdu, max_inf, offset);
    if offset < apdu.len() {
        let end = spec_chunk_end(offset, max_inf, apdu.len() as int);
        lemma_chunks_cover(apdu, max_inf, end);
        let rest = spec_chunks(apdu, max_inf, end);
        assert(c.drop_first() =~= rest);
        assert(apdu.subrange(offset, end) + apdu.subrange(end, apdu.len() as int) =~= apdu.subrange(
            offset,
            apdu.len() as int,
        ));
        assert forall|i: int| 0 <= i < c.len() implies 0 < (#[trigger] c[i]).len() <= max_inf by {
            if i > 0 {
                assert(c[i] == rest[i - 1]);
            }
        }
    } else {
        assert(apdu.subrange(offset, apdu.len() as int) =~= Seq::<u8>::empty());
    }
}

/// The I-block that carries `apdu[offset..end]`, chaining when more follows.
pub open spec fn spec_chunk_block(h: HandlerModel, apdu: Seq<u8>, offset: int, end: int) -> BlockModel {
    spec_iblock(h, apdu.subrange(offset, end), end < apdu.len())
}

/// The next state and step after processing a block received as (part
/// of) the answer: a complete chain ends the exchange, a reply is sent
/// and its answer awaited.
pub open spec fn spec_collect(s: PcdSessionModel, x: ExchangeModel, b: BlockModel) -> (PcdSessionModel, ExchangeModel, StepModel) {
    let (h2, res) = spec_process(s.handler, b);
    let s2 = PcdSessionModel { handler: h2, ..s };
    match res {
        Err(e) => (s2, ExchangeModel { phase: ExchangePhase::Finished, ..x }, StepModel::Failed(e)),
        Ok(ActionModel::Complete(d)) => (
            s2,
            ExchangeModel { phase: ExchangePhase::Finished, ..x },
            StepModel::Done(d),
        ),
        Ok(ActionModel::Reply(r)) => (
            s2,
            ExchangeModel { phase: ExchangePhase::Awaiting, ..x },
            StepModel::Send(spec_block_frame(s2, r)),
        ),
        Ok(_) => (
            s2,
            ExchangeModel { phase: ExchangePhase::Finished, ..x },
            StepModel::Failed(TypeAError::Other),
        ),
    }
}

/// The next state and step after a failed reception while receiving the
/// answer: up to `MAX_RETRIES` R(ACK)s are sent, then the exchange fails.
pub open spec fn spec_recover(s: PcdSessionModel, x: ExchangeModel, retries: u8) -> (PcdSessionModel, ExchangeModel, StepModel) {
    if retries >= MAX_RETRIES {
        (s, ExchangeModel { phase: ExchangePhase::Finished, ..x }, StepModel::Failed(TypeAError::Other))
    } else {
        (
            s,
            ExchangeModel { phase: ExchangePhase::Recovering { retries: (retries + 1) as u8 }, ..x },
            StepModel::Send(spec_block_frame(s, spec_rblock(s.handler, RBlockSubtype::Ack))),
        )
    }
}

/// One step of an APDU exchange: what the session and the exchange become,
/// and what to do, given the answer to the last frame sent (`None` when
/// the transceiver failed).
///
/// - While sending the APDU in I-blocks of at most `max_inf` bytes: a
///   transceiver failure or an unparsable answer ends the exchange. The
///   answer to a chaining I-block must be R(ACK): with the current block
///   number the next chunk is sent, with the other number (or R(NAK)) the
///   same chunk is sent again. The answer to the last I-block starts the
///   answer: the block number toggles and it is collected.
/// - While receiving the answer, a failed or unparsable reception is
///   recovered by R(ACK), at most `MAX_RETRIES` times.
pub open spec fn spec_exchange_step(s: PcdSessionModel, x: ExchangeModel, resp: Option<Seq<u8>>) -> (PcdSessionModel, ExchangeModel, StepModel) {
    let finished = ExchangeModel { phase: ExchangePhase::Finished, ..x };
    match x.phase {
        ExchangePhase::Sending { offset, end } => match resp {
            None => (s, finished, StepModel::TransceiverFailed),
            Some(raw) => match spec_block_response(s, raw) {
                Err(e) => (s, finished, StepModel::Failed(e)),
                Ok(b) => if end < x.apdu.len() {
                    let (h2, res) = spec_process(s.handler, b);
                    let s2 = PcdSessionModel { handler: h2, ..s };
                    match res {
                        Err(e) => (s2, finished, StepModel::Failed(e)),
                        Ok(ActionModel::ChainingAck) => {
                            let end2 = spec_chunk_end(end as int, x.max_inf as int, x.apdu.len() as int);
                            (
                                s2,
                                ExchangeModel {
                                    phase: ExchangePhase::Sending { offset: end, end: end2 as usize },
                                    ..x
                                },
                                StepModel::Send(
                                    spec_block_frame(
                                        s2,
                                        spec_chunk_block(h2, x.apdu, end as int, end2),
                                    ),
                                ),
                            )
                        },
                        Ok(ActionModel::ChainingRetransmit) => (
                            s2,
                            x,
                            StepModel::Send(
                                spec_block_frame(
                                    s2,
                                    spec_chunk_block(h2, x.apdu, offset as int, end as int),
                                ),
                            ),
                        ),
                        Ok(_) => (s2, finished, StepModel::Failed(TypeAError::Other)),
                    }
                } else {
                    spec_collect(PcdSessionModel { handler: spec_toggled(s.handler), ..s }, x, b)
                },
            },
        },
        ExchangePhase::Awaiting => match resp {
            Some(raw) => match spec_block_response(s, raw) {
                Ok(b) => spec_collect(s, x, b),
                Err(_) => spec_recover(s, x, 0),
            },
            None => spec_recover(s, x, 0),
        },
        ExchangePhase::Recovering { retries } => match resp {
            Some(raw) => match spec_block_response(s, raw) {
                Ok(b) => spec_collect(s, x, b),
                Err(_) => spec_recover(s, x, retries),
            },
            None => spec_recover(s, x, retries),
        },
        ExchangePhase::Finished => (s, x, StepModel::Failed(TypeAError::Other)),
    }
}

/// The result of parsing the answer to RATS.
pub open spec fn spec_ats_response(raw: Seq<u8>, hw_crc: bool) -> Result<AtsModel, TypeAError> {
    spec_ats_parse(spec_received_bytes(raw, hw_crc))
}

/// The CID that PPS carries: the session's, or 0 without one.
pub open spec fn spec_pps_cid(s: PcdSessionModel) -> Cid {
    match s.handler.cid {
        Some(c) => c,
        None => Cid::spec_new(0),
    }
}

/// The bytes of the PPS request: PPSS (0xD0 | CID), PPS0 = 0x11, PPS1.
pub open spec fn spec_pps_bytes(s: PcdSessionModel, dri: Dxi, dsi: Dxi) -> Seq<u8> {
    let cid = spec_pps_cid(s);
    spec_standard_bytes(
        seq![(0xd0 + cid.spec_value()) as u8, 0x11u8, spec_pps1_byte(PpsParam { cid, dri, dsi })],
        s.hw_crc,
    )
}

/// The PPS request that the reader builds for `(dri, dsi)` tells the card
/// exactly those divisors: received as the card receives it (with `(0, 0)`
/// standing for a CRC that the hardware checked), it parses to the
/// session's CID with DRI `dri` and DSI `dsi`.
pub proof fn lemma_pps_request_parses(s: PcdSessionModel, dri: Dxi, dsi: Dxi)
    requires
        s.handler.cid matches Some(c) ==> c.spec_value() <= 14,
    ensures
        spec_pps_parse(spec_received_bytes(spec_pps_bytes(s, dri, dsi), s.hw_crc)) == Ok::<
            PpsParam,
            TypeAError,
        >(PpsParam { cid: spec_pps_cid(s), dri, dsi }),
{
    let p = PpsParam { cid: spec_pps_cid(s), dri, dsi };
    let body = seq![(0xd0 + p.cid.spec_value()) as u8, 0x11u8, spec_pps1_byte(p)];
    let crc: (u8, u8) = if s.hw_crc {
        (0u8, 0u8)
    } else {
        spec_crc_a(body)
    };
    super::pps::lemma_pps_request_roundtrip(p, crc);
    assert(spec_received_bytes(spec_pps_bytes(s, dri, dsi), s.hw_crc) =~= seq![
        body[0],
        body[1],
        body[2],
        crc.0,
        crc.1,
    ]);
}

/// A reception that fails, or does not parse, while the answer is awaited
/// is recovered: below `MAX_RETRIES` R(ACK)s sent for it, the reader sends
/// an R(ACK) that the card reads as R(ACK) with the session's block number
/// and CID, and counts one retry more; once `MAX_RETRIES` were sent the
/// exchange fails. The session itself is left as it was.
pub proof fn lemma_recovery(s: PcdSessionModel, x: ExchangeModel, resp: Option<Seq<u8>>)
    requires
        s.handler.block_number <= 1,
        s.handler.cid matches Some(c) ==> c.spec_value() <= 14,
        x.phase is Awaiting || x.phase is Recovering,
        resp matches Some(raw) ==> spec_block_response(s, raw) is Err,
    ensures
        ({
            let retries: u8 = match x.phase {
                ExchangePhase::Recovering { retries } => retries,
                _ => 0,
            };
            let (s2, x2, st) = spec_exchange_step(s, x, resp);
            &&& s2 == s
            &&& retries < MAX_RETRIES ==> {
                &&& x2.phase == ExchangePhase::Recovering { retries: (retries + 1) as u8 }
                &&& st matches StepModel::Send(f) && spec_block_parse(spec_received_bytes(f, s.hw_crc)) matches Ok(b)
                    && b.pcb.block_type == BlockType::RBlock && b.pcb.r_subtype == Some(RBlockSubtype::Ack)
                    && b.pcb.block_number.spec_get() == s.handler.block_number && b.cid == s.handler.cid
            }
            &&& retries >= MAX_RETRIES ==> x2.phase == ExchangePhase::Finished && st == StepModel::Failed(
                TypeAError::Other,
            )
        }),
{
    broadcast use super::pcb::group_block_number;

    let r = spec_rblock(s.handler, RBlockSubtype::Ack);
    lemma_handler_builds(s.handler, Seq::empty(), false);
    let body = spec_block_bytes_without_crc(r);
    let crc: (u8, u8) = if s.hw_crc {
        (0u8, 0u8)
    } else {
        spec_crc_a(body)
    };
    assert(spec_received_bytes(spec_block_frame(s, r), s.hw_crc) =~= body + seq![crc.0, crc.1]);
    lemma_built_block_parses(r, crc);
}

/// What follows an answer to S(DESELECT).
#[derive(Debug, Clone, Copy, PartialEq, Eq)]
pub enum DeselectStep {
    /// The PICC acknowledged: the session is closed.
    Done,
    /// Send S(DESELECT) once more (ISO14443-4 rule 8).
    Retry,
    /// The transceiver failed on the second attempt.
    TransceiverFailed,
    /// The second answer was not S(DESELECT).
    Failed(TypeAError),
}

/// Whether a block answers S(DESELECT) with S(DESELECT).
pub open spec fn spec_is_deselect(b: BlockModel) -> bool {
    b.pcb.block_type == BlockType::SBlock && b.pcb.s_subtype == Some(SBlockSubtype::Deselect)
}

impl PcdSession {
    /// The RATS command (FSDI and CID in its parameter byte).
    pub fn rats_frame(fsdi: Fsdi, cid: Cid, hw_crc: bool) -> (r: Result<Frame, TypeAError>)
        ensures
            r matches Ok(f) && f is Standard && f.spec_data() == spec_rats_bytes(fsdi, cid, hw_crc),
    {
        let rats = RatsParam::new(fsdi, cid);
        let rats_byte = u8::from(&rats);
        let mut v: Vec<u8> = Vec::new();
        v.push(0xe0);
        v.push(rats_byte);
        assert(v@ =~= seq![0xe0u8, spec_rats_byte(fsdi, cid)]);
        Ok(standard_frame(v, hw_crc))
    }

    /// The session that the answer to RATS opens, and the parsed ATS.
    pub fn connect_response(resp: &[u8], hw_crc: bool, cid: Cid) -> (r: Result<(Self, Ats), TypeAError>)
        ensures
            match r {
                Ok((s, ats)) => spec_ats_response(resp@, hw_crc) == Ok::<AtsModel, TypeAError>(ats@)
                    && s@ == (PcdSessionModel {
                    hw_crc,
                    fsc: ats.format.fsci.spec_fsc(),
                    handler: HandlerModel { cid: Some(cid), block_number: 0, chain: Seq::empty() },
                }),
                Err(e) => spec_ats_response(resp@, hw_crc) == Err::<AtsModel, TypeAError>(e),
            },
    {
        let buf = received_bytes(resp, hw_crc);
        let ats = match Ats::try_from(buf.as_slice()) {
            Ok(a) => a,
            Err(e) => {
                return Err(e);
            },
        };
        let fsc = ats.format.fsci.fsc();
        Ok((Self { hw_crc, fsc, handler: ProtocolHandler::new(Some(cid)) }, ats))
    }

    /// Manual setup for callers who have already handled RATS/ATS
    /// externally (e.g. via the CLI parser).
    pub fn new(ats: &Ats, cid: Option<Cid>, hw_crc: bool) -> (r: Self)
        ensures
            r@ == (PcdSessionModel {
                hw_crc,
                fsc: ats.format.fsci.spec_fsc(),
                handler: HandlerModel { cid, block_number: 0, chain: Seq::empty() },
            }),
    {
        Self { hw_crc, fsc: ats.format.fsci.fsc(), handler: ProtocolHandler::new(cid) }
    }

    /// The frame that carries a block.
    pub fn block_frame(&self, block: &Block) -> (r: Result<Frame, TypeAError>)
        ensures
            r matches Ok(f) && f is Standard && f.spec_data() == spec_block_frame(self@, block@),
    {
        let data = match block.to_bytes_without_crc() {
            Ok(d) => d,
            Err(e) => {
                return Err(e);
            },
        };
        Ok(standard_frame(data, self.hw_crc))
    }

    /// Parse a raw response into a Block, handling the CRC strategy.
    pub fn parse_block_response(&self, raw: &[u8]) -> (r: Result<Block, TypeAError>)
        ensures
            match r {
                Ok(b) => spec_block_response(self@, raw@) == Ok::<BlockModel, TypeAError>(b@),
                Err(e) => spec_block_response(self@, raw@) == Err::<BlockModel, TypeAError>(e),
            },
    {
        let buf = received_bytes(raw, self.hw_crc);
        Block::try_from(buf.as_slice())
    }

    /// The PPS request for the given bit rate divisors.
    pub fn pps_frame(&self, dri: Dxi, dsi: Dxi) -> (r: Result<Frame, TypeAError>)
        ensures
            r matches Ok(f) && f is Standard && f.spec_data() == spec_pps_bytes(self@, dri, dsi),
    {
        let cid = match self.handler.cid() {
            Some(c) => c,
            None => Cid::new(0).unwrap(),
        };
        let param = PpsParam { cid, dri, dsi };
        let pps1 = u8::from(&param);
        let cid_byte = 0xd0 + cid.value();
        let mut v: Vec<u8> = Vec::new();
        v.push(cid_byte);
        v.push(0x11);
        v.push(pps1);
        assert(v@ =~= seq![(0xd0 + cid.spec_value()) as u8, 0x11u8, spec_pps1_byte(param)]);
        Ok(standard_frame(v, self.hw_crc))
    }

    /// Validate the PPS response.
    pub fn pps_response(&self, resp: &[u8]) -> (r: Result<(), TypeAError>)
        ensures
            match spec_pps_resp_parse(spec_received_bytes(resp@, self@.hw_crc)) {
                Ok(_) => r is Ok,
                Err(e) => r == Err::<(), TypeAError>(e),
            },
    {
        let buf = received_bytes(resp, self.hw_crc);
        match PpsResp::try_from(buf.as_slice()) {
            Ok(_) => Ok(()),
            Err(e) => Err(e),
        }
    }

    /// The S(DESELECT) request.
    pub fn deselect_frame(&self) -> (r: Result<Frame, TypeAError>)
        ensures
            r matches Ok(f) && f is Standard && f.spec_data() == spec_block_frame(
                self@,
                spec_sblock(self@.handler, SBlockSubtype::Deselect, Seq::empty()),
            ),
    {
        let deselect = match self.handler.build_sblock(SBlockSubtype::Deselect) {
            Ok(b) => b,
            Err(e) => {
                return Err(e);
            },
        };
        self.block_frame(&deselect)
    }

    /// Check the answer to S(DESELECT): it must parse as S(DESELECT).
    pub fn deselect_response(&self, raw: &[u8]) -> (r: Result<(), TypeAError>)
        ensures
            match spec_block_response(self@, raw@) {
                Ok(b) => if spec_is_deselect(b) {
                    r is Ok
                } else {
                    r == Err::<(), TypeAError>(TypeAError::Other)
                },
                Err(e) => r == Err::<(), TypeAError>(e),
            },
    {
        match self.parse_block_response(raw) {
            Ok(resp) => {
                if resp.block_type() == BlockType::SBlock && resp.pcb.s_subtype == Some(
                    SBlockSubtype::Deselect,
                ) {
                    Ok(())
                } else {
                    Err(TypeAError::Other)
                }
            },
            Err(e) => Err(e),
        }
    }

    /// What an answer to S(DESELECT) leads to (`None` when the transceiver
    /// failed): on the first attempt, anything but an S(DESELECT) answer
    /// is retried once; on the second, it is an error.
    pub fn deselect_step(&self, first_attempt: bool, resp: Option<&[u8]>) -> (r: DeselectStep)
        ensures
            match resp {
                None => r == (if first_attempt {
                    DeselectStep::Retry
                } else {
                    DeselectStep::TransceiverFailed
                }),
                Some(raw) => match spec_block_response(self@, raw@) {
                    Ok(b) => if spec_is_deselect(b) {
                        r == DeselectStep::Done
                    } else if first_attempt {
                        r == DeselectStep::Retry
                    } else {
                        r == DeselectStep::Failed(TypeAError::Other)
                    },
                    Err(e) => r == (if first_attempt {
                        DeselectStep::Retry
                    } else {
                        DeselectStep::Failed(e)
                    }),
                },
            },
    {
        match resp {
            None => {
                if first_attempt {
                    DeselectStep::Retry
                } else {
                    DeselectStep::TransceiverFailed
                }
            },
            Some(raw) => match self.deselect_response(raw) {
                Ok(()) => DeselectStep::Done,
                Err(e) => {
                    if first_attempt {
                        // Rule 8: retry once
                        DeselectStep::Retry
                    } else {
                        DeselectStep::Failed(e)
                    }
                },
            },
        }
    }

    /// Start an APDU exchange: the first frame to send.
    ///
    /// Fails with `Other` when the FSC leaves no room for information
    /// bytes, or when the APDU is empty.
    pub fn start_exchange(&mut self, apdu: &[u8]) -> (r: Result<(PcdExchange, Frame), TypeAError>)
        ensures
            ({
                let s1 = PcdSessionModel {
                    handler: HandlerModel { chain: Seq::empty(), ..old(self)@.handler },
                    ..old(self)@
                };
                let mi = spec_max_inf(s1);
                &&& final(self)@ == s1
                &&& (mi == 0 || apdu@.len() == 0) <==> r is Err
                &&& r is Err ==> r == Err::<(PcdExchange, Frame), TypeAError>(TypeAError::Other)
                &&& r matches Ok((x, f)) ==> {
                    let end = spec_chunk_end(0, mi, apdu@.len() as int);
                    &&& x@ == (ExchangeModel {
                        apdu: apdu@,
                        max_inf: mi as usize,
                        phase: ExchangePhase::Sending { offset: 0, end: end as usize },
                    })
                    &&& f is Standard
                    &&& f.spec_data() == spec_block_frame(
                        s1,
                        spec_chunk_block(s1.handler, apdu@, 0, end),
                    )
                }
            }),
    {
        self.handler.reset_chain();
        // Max payload per I-Block: FSC minus prologue (PCB + optional CID)
        // minus epilogue (2-byte CRC).
        let cid_len: usize = if self.handler.cid().is_some() {
            1
        } else {
            0
        };
        let overhead: usize = 1 + cid_len + 2;
        let max_inf: usize = if self.fsc >= overhead {
            self.fsc - overhead
        } else {
            0
        };
        if max_inf == 0 || apdu.len() == 0 {
            return Err(TypeAError::Other);
        }
        let mut copy: Vec<u8> = Vec::new();
        extend_bytes(&mut copy, apdu);
        assert(copy@ =~= apdu@);
        let end = if max_inf < apdu.len() {
            max_inf
        } else {
            apdu.len()
        };
        let x = PcdExchange { apdu: copy, max_inf, phase: ExchangePhase::Sending { offset: 0, end } };
        let frame = match self.chunk_frame(&x, 0, end) {
            Ok(f) => f,
            Err(e) => {
                return Err(e);
            },
        };
        Ok((x, frame))
    }

    /// The frame of the I-block that carries `apdu[offset..end]`.
    fn chunk_frame(&self, x: &PcdExchange, offset: usize, end: usize) -> (r: Result<
        Frame,
        TypeAError,
    >)
        requires
            offset <= end <= x@.apdu.len(),
        ensures
            r matches Ok(f) && f is Standard && f.spec_data() == spec_block_frame(
                self@,
                spec_chunk_block(self@.handler, x@.apdu, offset as int, end as int),
            ),
    {
        let chaining = end < x.apdu.len();
        let chunk = slice_subrange(x.apdu.as_slice(), offset, end);
        let iblock = match self.handler.build_iblock(chunk, chaining) {
            Ok(b) => b,
            Err(e) => {
                return Err(e);
            },
        };
        self.block_frame(&iblock)
    }

    /// Process a block received as (part of) the answer.
    fn collect(&mut self, x: &mut PcdExchange, block: Block) -> (r: ExchangeStep)
        ensures
            (final(self)@, final(x)@, r@) == spec_collect(old(self)@, old(x)@, block@),
            r matches ExchangeStep::Send(f) ==> f is Standard,
    {
        let res = self.handler.process_received(block);
        match res {
            Err(e) => {
                x.phase = ExchangePhase::Finished;
                ExchangeStep::Failed(e)
            },
            Ok(Action::Complete(d)) => {
                x.phase = ExchangePhase::Finished;
                ExchangeStep::Done(d)
            },
            Ok(Action::Reply(reply)) => {
                x.phase = ExchangePhase::Awaiting;
                match self.block_frame(&reply) {
                    Ok(f) => ExchangeStep::Send(f),
                    Err(e) => ExchangeStep::Failed(e),
                }
            },
            Ok(_) => {
                x.phase = ExchangePhase::Finished;
                ExchangeStep::Failed(TypeAError::Other)
            },
        }
    }

    /// Recover from a failed reception with R(ACK), `retries` sent so far.
    fn recover(&mut self, x: &mut PcdExchange, retries: u8) -> (r: ExchangeStep)
        ensures
            (final(self)@, final(x)@, r@) == spec_recover(old(self)@, old(x)@, retries),
            r matches ExchangeStep::Send(f) ==> f is Standard,
    {
        if retries >= MAX_RETRIES {
            x.phase = ExchangePhase::Finished;
            return ExchangeStep::Failed(TypeAError::Other);
        }
        x.phase = ExchangePhase::Recovering { retries: retries + 1 };
        let recovery = match self.handler.build_rack() {
            Ok(b) => b,
            Err(e) => {
                return ExchangeStep::Failed(e);
            },
        };
        match self.block_frame(&recovery) {
            Ok(f) => ExchangeStep::Send(f),
            Err(e) => ExchangeStep::Failed(e),
        }
    }

    /// One step of an APDU exchange, given the answer to the frame sent
    /// last (`None` when the transceiver failed); see `spec_exchange_step`.
    pub fn exchange_step(&mut self, x: &mut PcdExchange, resp: Option<&[u8]>) -> (r: ExchangeStep)
        ensures
            (final(self)@, final(x)@, r@) == spec_exchange_step(
                old(self)@,
                old(x)@,
                match resp {
                    Some(raw) => Some(raw@),
                    None => None,
                },
            ),
            r matches ExchangeStep::Send(f) ==> f is Standard,
    {
        proof {
            use_type_invariant(&*x);
        }
        match x.phase {
            ExchangePhase::Sending { offset, end } => {
                let raw = match resp {
                    None => {
                        x.phase = ExchangePhase::Finished;
                        return ExchangeStep::TransceiverFailed;
                    },
                    Some(raw) => raw,
                };
                let block = match self.parse_block_response(raw) {
                    Ok(b) => b,
                    Err(e) => {
                        x.phase = ExchangePhase::Finished;
                        return ExchangeStep::Failed(e);
                    },
                };
                if end < x.apdu.len() {
                    match self.handler.process_received(block) {
                        Err(e) => {
                            x.phase = ExchangePhase::Finished;
                            ExchangeStep::Failed(e)
                        },
                        Ok(Action::ChainingAck) => {
                            let end2 = if x.max_inf < x.apdu.len() - end {
                                end + x.max_inf
                            } else {
                                x.apdu.len()
                            };
                            x.phase = ExchangePhase::Sending { offset: end, end: end2 };
                            match self.chunk_frame(x, end, end2) {
                                Ok(f) => ExchangeStep::Send(f),
                                Err(e) => ExchangeStep::Failed(e),
                            }
                        },
                        Ok(Action::ChainingRetransmit) => {
                            // Retransmit the same chunk.
                            match self.chunk_frame(x, offset, end) {
                                Ok(f) => ExchangeStep::Send(f),
                                Err(e) => ExchangeStep::Failed(e),
                            }
                        },
                        Ok(_) => {
                            x.phase = ExchangePhase::Finished;
                            ExchangeStep::Failed(TypeAError::Other)
                        },
                    }
                } else {
                    self.handler.toggle_block_number();
                    self.collect(x, block)
                }
            },
            ExchangePhase::Awaiting => {
                match resp {
                    Some(raw) => match self.parse_block_response(raw) {
                        Ok(b) => self.collect(x, b),
                        Err(_) => self.recover(x, 0),
                    },
                    None => self.recover(x, 0),
                }
            },
            ExchangePhase::Recovering { retries } => {
                match resp {
                    Some(raw) => match self.parse_block_response(raw) {
                        Ok(b) => self.collect(x, b),
                        Err(_) => self.recover(x, retries),
                    },
                    None => self.recover(x, retries),
                }
            },
            ExchangePhase::Finished => ExchangeStep::Failed(TypeAError::Other),
        }
    }
}

} // verus!
