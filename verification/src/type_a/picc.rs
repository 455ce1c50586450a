//! ISO14443 PICC (card emulation) transport layer.
//!
//! The decisions of the card side of the protocol: responding to
//! activation (REQA/anticollision/SELECT), RATS/ATS, PPS and ISO14443-4
//! block exchange. Each step takes the frame the PCD sent and says what to
//! send back; the loop that drives the transceiver stands outside this
//! library.

use super::activation::{spec_anticollision_check, spec_uid_from_levels};
use super::anticol_select::{CASCADE_TAG, SEL_CL1, SEL_CL2, SEL_CL3};
use super::atqa::{spec_atqa_bytes, AtqA, BitFrameAntiCollision, UidSize};
use super::ats::{spec_ats_bytes, Ats, AtsModel};
use super::block::{spec_block_bytes_without_crc, BlockModel};
use super::crc::{crc_a, crc_accepted, extend_bytes, spec_crc_a};
use super::pcb::SBlockSubtype;
use super::pcd::{spec_block_response, spec_received_bytes, spec_standard_bytes, PcdSessionModel};
use super::pps::{spec_pps_parse, PpsParam};
use super::protocol::{
    spec_iblock, spec_process, spec_toggled, Action, ActionModel, HandlerModel, ProtocolHandler,
};
use super::rats::{spec_rats_param_parse, RatsParam};
use super::sak::{spec_sak_byte, Sak};
use super::block::Block;
use super::vec::ChainVec;
use super::{Cid, Frame, TypeAError};
use vstd::prelude::*;
use vstd::slice::slice_subrange;
use vstd::std_specs::convert::FromSpecImpl;

verus! {

broadcast use super::group_cid, super::rats::lemma_rats_param_fields;

/// Error during PICC protocol operations.
#[derive(Debug)]
pub enum PiccError<E> {
    /// The transceiver returned an error.
    PiccTransceiver(E),
    /// ISO14443 protocol violation.
    Protocol(TypeAError),
    /// The PCD sent S(DESELECT); session is over.
    Deselected,
}

impl<E> FromSpecImpl<TypeAError> for PiccError<E> {
    open spec fn obeys_from_spec() -> bool {
        true
    }

    open spec fn from_spec(e: TypeAError) -> Self {
        PiccError::Protocol(e)
    }
}

impl<E> From<TypeAError> for PiccError<E> {
    fn from(e: TypeAError) -> (r: Self) {
        PiccError::Protocol(e)
    }
}

/// PICC activation state.
#[derive(Debug, Clone, Copy, PartialEq, Eq, Structural)]
pub enum PiccState {
    /// Waiting for REQA/WUPA.
    Idle,
    /// Received REQA/WUPA, handling anticollision cascade.
    Ready { cascade_level: u8 },
    /// Fully selected (SAK sent with uid_complete), waiting for RATS.
    Active,
    /// RATS/ATS exchanged, in ISO14443-4 block protocol.
    Protocol,
    /// Halted by HLTA.
    Halted,
}

/// UID with compile-time size enforcement per ISO14443-3.
#[derive(Debug, Clone, Copy)]
pub enum Uid {
    /// Single-size UID (4 bytes, 1 cascade level).
    Single([u8; 4]),
    /// Double-size UID (7 bytes, 2 cascade levels).
    Double([u8; 7]),
    /// Triple-size UID (10 bytes, 3 cascade levels).
    Triple([u8; 10]),
}

impl Uid {
    /// The bytes of the UID.
    pub open spec fn spec_bytes(self) -> Seq<u8> {
        match self {
            Uid::Single(u) => u@,
            Uid::Double(u) => u@,
            Uid::Triple(u) => u@,
        }
    }

    /// The number of cascade levels of the UID.
    pub open spec fn spec_levels(self) -> u8 {
        match self {
            Uid::Single(_) => 1,
            Uid::Double(_) => 2,
            Uid::Triple(_) => 3,
        }
    }

    /// The UID size that ATQA announces.
    pub open spec fn spec_uid_size(self) -> UidSize {
        match self {
            Uid::Single(_) => UidSize::Single,
            Uid::Double(_) => UidSize::Double,
            Uid::Triple(_) => UidSize::Triple,
        }
    }

    pub fn uid_size(&self) -> (r: UidSize)
        ensures
            r == self.spec_uid_size(),
    {
        match self {
            Uid::Single(_) => UidSize::Single,
            Uid::Double(_) => UidSize::Double,
            Uid::Triple(_) => UidSize::Triple,
        }
    }

    pub fn as_slice(&self) -> (r: &[u8])
        ensures
            r@ == self.spec_bytes(),
    {
        match self {
            Uid::Single(u) => u,
            Uid::Double(u) => u,
            Uid::Triple(u) => u,
        }
    }

    pub fn cascade_levels(&self) -> (r: u8)
        ensures
            r == self.spec_levels(),
    {
        match self {
            Uid::Single(_) => 1,
            Uid::Double(_) => 2,
            Uid::Triple(_) => 3,
        }
    }
}

/// Card identity and capabilities.
#[derive(Debug)]
pub struct PiccConfig {
    /// Card UID.
    pub uid: Uid,
    /// Bit-frame anticollision coding for ATQA.
    pub bit_frame_ac: BitFrameAntiCollision,
    /// ISO14443-4 configuration: ATS to send after RATS.
    /// Set via [`PiccConfig::enable_14443_4`]. When `None`, the tag behaves
    /// as a non-ISO14443-4 card (e.g. NFC Forum Type 2).
    ats: Option<Ats>,
}

/// The content of a card configuration.
pub struct PiccConfigModel {
    pub uid: Uid,
    pub bit_frame_ac: BitFrameAntiCollision,
    pub ats: Option<AtsModel>,
}

impl View for PiccConfig {
    type V = PiccConfigModel;

    closed spec fn view(&self) -> PiccConfigModel {
        PiccConfigModel {
            uid: self.uid,
            bit_frame_ac: self.bit_frame_ac,
            ats: match self.ats {
                Some(a) => Some(a@),
                None => None,
            },
        }
    }
}

impl Clone for PiccConfig {
    fn clone(&self) -> (r: Self)
        ensures
            r@ == self@,
    {
        PiccConfig {
            uid: self.uid,
            bit_frame_ac: self.bit_frame_ac,
            ats: match &self.ats {
                Some(a) => Some(a.clone()),
                None => None,
            },
        }
    }
}

/// The ATQA of a card: its UID size, its anticollision slots, no
/// proprietary coding.
pub open spec fn spec_config_atqa(c: PiccConfigModel) -> AtqA {
    AtqA { uid_size: c.uid.spec_uid_size(), bit_frame_ac: c.bit_frame_ac, proprietary_coding: 0 }
}

impl PiccConfig {
    /// Create a new PICC configuration.
    ///
    /// Defaults to 1 anticollision time slot. The ATQA is built
    /// automatically from the UID size.
    pub fn new(uid: Uid) -> (r: Self)
        ensures
            r@ == (PiccConfigModel { uid, bit_frame_ac: BitFrameAntiCollision::Slot1, ats: None }),
    {
        Self { uid, bit_frame_ac: BitFrameAntiCollision::Slot1, ats: None }
    }

    /// Set the number of anticollision time slots advertised in ATQA.
    ///
    /// Defaults to `BitFrameAntiCollision::Slot1`.
    pub fn set_bit_frame_anticollision(&mut self, slot: BitFrameAntiCollision)
        ensures
            final(self)@ == (PiccConfigModel { bit_frame_ac: slot, ..old(self)@ }),
    {
        self.bit_frame_ac = slot;
    }

    /// Enable ISO14443-4 support with the given ATS.
    ///
    /// When enabled, the SAK will advertise ISO14443-4 compliance and
    /// the PICC will handle RATS/ATS negotiation.
    pub fn enable_14443_4(&mut self, ats: Ats)
        ensures
            final(self)@ == (PiccConfigModel { ats: Some(ats@), ..old(self)@ }),
    {
        self.ats = Some(ats);
    }

    /// Whether this card advertises ISO14443-4 compliance.
    pub fn is_14443_4(&self) -> (r: bool)
        ensures
            r == self@.ats is Some,
    {
        self.ats.is_some()
    }

    /// The ATQA the card answers REQA/WUPA with.
    pub fn atqa(&self) -> (r: AtqA)
        ensures
            r == spec_config_atqa(self@),
    {
        AtqA { uid_size: self.uid.uid_size(), bit_frame_ac: self.bit_frame_ac, proprietary_coding: 0 }
    }

    /// Replace the UID.
    pub fn set_uid(&mut self, uid: Uid)
        ensures
            final(self)@ == (PiccConfigModel { uid, ..old(self)@ }),
    {
        self.uid = uid;
    }
}

/// The four UID bytes (or cascade tag and three UID bytes) of a cascade
/// level: a single UID in one level; a double UID as CT + 3 bytes, then 4
/// bytes; a triple UID as CT + 3, CT + 3, then 4 bytes.
pub open spec fn spec_uid_level(uid: Uid, level: u8) -> Option<Seq<u8>> {
    let u = uid.spec_bytes();
    let levels = uid.spec_levels();
    if levels == 1 && level == 0 {
        Some(u.subrange(0, 4))
    } else if levels == 2 && level == 0 {
        Some(seq![CASCADE_TAG] + u.subrange(0, 3))
    } else if levels == 2 && level == 1 {
        Some(u.subrange(3, 7))
    } else if levels == 3 && level == 0 {
        Some(seq![CASCADE_TAG] + u.subrange(0, 3))
    } else if levels == 3 && level == 1 {
        Some(seq![CASCADE_TAG] + u.subrange(3, 6))
    } else if levels == 3 && level == 2 {
        Some(u.subrange(6, 10))
    } else {
        None
    }
}

/// Four bytes followed by their BCC (exclusive or).
pub open spec fn spec_with_bcc(b: Seq<u8>) -> Seq<u8> {
    b + seq![b[0] ^ b[1] ^ b[2] ^ b[3]]
}

/// The answer to ANTICOLLISION at a cascade level: the level's four bytes
/// and their BCC.
pub open spec fn spec_uid_bcc(uid: Uid, level: u8) -> Result<Seq<u8>, TypeAError> {
    match spec_uid_level(uid, level) {
        Some(b) => Ok(spec_with_bcc(b)),
        None => Err(TypeAError::Other),
    }
}

/// Build the 5-byte UID+BCC response for a given cascade level.
pub fn uid_bcc_for_level(uid: &Uid, level: u8) -> (r: Result<[u8; 5], TypeAError>)
    ensures
        match r {
            Ok(a) => spec_uid_bcc(*uid, level) == Ok::<Seq<u8>, TypeAError>(a@),
            Err(e) => spec_uid_bcc(*uid, level) == Err::<Seq<u8>, TypeAError>(e),
        },
{
    let u = uid.as_slice();
    let levels = uid.cascade_levels();
    let mut bytes: [u8; 4] = [0; 4];
    if levels == 1 && level == 0 {
        bytes = [u[0], u[1], u[2], u[3]];
    } else if levels == 2 && level == 0 {
        bytes = [0x88, u[0], u[1], u[2]];  // cascade tag
    } else if levels == 2 && level == 1 {
        bytes = [u[3], u[4], u[5], u[6]];
    } else if levels == 3 && level == 0 {
        bytes = [0x88, u[0], u[1], u[2]];
    } else if levels == 3 && level == 1 {
        bytes = [0x88, u[3], u[4], u[5]];
    } else if levels == 3 && level == 2 {
        bytes = [u[6], u[7], u[8], u[9]];
    } else {
        return Err(TypeAError::Other);
    }
    assert(bytes@ =~= spec_uid_level(*uid, level)->Some_0);
    let bcc = bytes[0] ^ bytes[1] ^ bytes[2] ^ bytes[3];
    let r = [bytes[0], bytes[1], bytes[2], bytes[3], bcc];
    assert(r@ =~= spec_with_bcc(bytes@));
    Ok(r)
}

/// The answers of a card to ANTICOLLISION, one per cascade level.
pub open spec fn spec_uid_answers(uid: Uid) -> Seq<Seq<u8>> {
    Seq::new(uid.spec_levels() as nat, |l: int| spec_uid_bcc(uid, l as u8)->Ok_0)
}

/// The answers of a card to ANTICOLLISION at each of its cascade levels
/// pass the reader's BCC check, and the reader rebuilds the card's UID
/// from them.
pub proof fn lemma_uid_cascade_roundtrip(uid: Uid)
    ensures
        forall|l: u8|
            l < uid.spec_levels() ==> (#[trigger] spec_uid_bcc(uid, l) matches Ok(b)
                && spec_anticollision_check(b) == Ok::<Seq<u8>, TypeAError>(b)),
        spec_uid_from_levels(spec_uid_answers(uid)) == uid.spec_bytes(),
{
    assert forall|l: u8| l < uid.spec_levels() implies (#[trigger] spec_uid_bcc(uid, l) matches Ok(
        b,
    ) && spec_anticollision_check(b) == Ok::<Seq<u8>, TypeAError>(b)) by {
        let x = spec_uid_level(uid, l)->Some_0;
        let (b0, b1, b2, b3) = (x[0], x[1], x[2], x[3]);
        assert(b0 ^ b1 ^ b2 ^ b3 ^ (b0 ^ b1 ^ b2 ^ b3) == 0) by (bit_vector);
    }
    let u = uid.spec_bytes();
    let cls = spec_uid_answers(uid);
    reveal_with_fuel(spec_uid_from_levels, 3);
    if uid is Single {
        assert(cls.len() == 1);
        assert(cls[0].subrange(0, 4) =~= u);
        assert(spec_uid_from_levels(cls) == u);
    } else if uid is Double {
        assert(cls.drop_first().len() == 1);
        assert(cls.drop_first()[0] == cls[1]);
        assert(cls[0].subrange(1, 4) + cls[1].subrange(0, 4) =~= u);
        assert(spec_uid_from_levels(cls) == u);
    } else {
        let c1 = cls.drop_first();
        assert(c1.len() == 2 && c1[0] == cls[1] && c1[1] == cls[2]);
        assert(c1.drop_first().len() == 1 && c1.drop_first()[0] == cls[2]);
        assert(cls[0].subrange(1, 4) + (cls[1].subrange(1, 4) + cls[2].subrange(0, 4)) =~= u);
        assert(spec_uid_from_levels(cls) == u);
    }
}

/// The reader rebuilds the card's UID from the card's own answers to
/// ANTICOLLISION, one per cascade level (what `uid_bcc_for_level` gives
/// and `build_activation` takes).
pub proof fn lemma_rebuilt_uid(uid: Uid, cls: Seq<[u8; 5]>)
    requires
        cls.len() == uid.spec_levels(),
        forall|l: int|
            0 <= l < cls.len() ==> spec_uid_bcc(uid, l as u8) == Ok::<Seq<u8>, TypeAError>(
                #[trigger] cls[l]@,
            ),
    ensures
        spec_uid_from_levels(cls.map_values(|cl: [u8; 5]| cl@)) == uid.spec_bytes(),
{
    let m = cls.map_values(|cl: [u8; 5]| cl@);
    let a = spec_uid_answers(uid);
    assert forall|l: int| 0 <= l < m.len() implies m[l] == a[l] by {
        assert(spec_uid_bcc(uid, l as u8) == Ok::<Seq<u8>, TypeAError>(cls[l]@));
    }
    assert(m =~= a);
    lemma_uid_cascade_roundtrip(uid);
}

/// ISO14443 PICC session state, without the transceiver: CRC strategy,
/// configuration, block protocol handler, activation state, and the PCD's
/// frame size.
#[derive(Debug)]
pub struct PiccCore {
    hw_crc: bool,
    config: PiccConfig,
    handler: ProtocolHandler,
    state: PiccState,
    /// PCD's max frame size (from RATS FSDI), used for chaining responses.
    fsd: usize,
}

/// The state of a PICC session.
pub struct PiccModel {
    pub hw_crc: bool,
    pub config: PiccConfigModel,
    pub handler: HandlerModel,
    pub state: PiccState,
    pub fsd: usize,
}

impl View for PiccCore {
    type V = PiccModel;

    closed spec fn view(&self) -> PiccModel {
        PiccModel {
            hw_crc: self.hw_crc,
            config: self.config@,
            handler: self.handler@,
            state: self.state,
            fsd: self.fsd,
        }
    }
}

/// The frame formats a PICC answers with.
pub enum FrameKind {
    Short,
    Standard,
    BitOriented,
}

/// The kind and bytes of a frame.
pub open spec fn spec_frame(f: Frame) -> (FrameKind, Seq<u8>) {
    match f {
        Frame::Short(d) => (FrameKind::Short, d@),
        Frame::Standard(d) => (FrameKind::Standard, d@),
        Frame::BitOriented(d) => (FrameKind::BitOriented, d@),
    }
}

/// The view of an optional frame to send.
pub open spec fn spec_out(r: Result<Option<Frame>, TypeAError>) -> Result<Option<(FrameKind, Seq<u8>)>, TypeAError> {
    match r {
        Ok(Some(f)) => Ok(Some(spec_frame(f))),
        Ok(None) => Ok(None),
        Err(e) => Err(e),
    }
}

/// The SEL code expected at each cascade level.
pub open spec fn spec_expected_sel(level: u8) -> Option<u8> {
    if level == 0 {
        Some(SEL_CL1)
    } else if level == 1 {
        Some(SEL_CL2)
    } else if level == 2 {
        Some(SEL_CL3)
    } else {
        None
    }
}

/// The answer to REQA/WUPA: ATQA in a short frame; the card becomes Ready.
pub open spec fn spec_answer_atqa(p: PiccModel) -> (PiccModel, Result<Option<(FrameKind, Seq<u8>)>, TypeAError>) {
    (
        PiccModel { state: PiccState::Ready { cascade_level: 0 }, ..p },
        Ok(Some((FrameKind::Short, spec_atqa_bytes(spec_config_atqa(p.config))))),
    )
}

/// What a Ready card at a cascade level does with a frame: ANTICOLLISION
/// (SEL, NVB) is answered with the level's UID bytes and BCC; SELECT (SEL,
/// 0x70, UID, BCC, CRC) is answered with SAK, after which the card is
/// Active at the last level or Ready at the next one. Frames with another
/// SEL, or shorter than two bytes, are ignored.
pub open spec fn spec_on_ready(p: PiccModel, raw: Seq<u8>, level: u8) -> (PiccModel, Result<Option<(FrameKind, Seq<u8>)>, TypeAError>) {
    if raw.len() < 2 {
        (p, Ok(None))
    } else {
        match spec_expected_sel(level) {
            None => (p, Err(TypeAError::Other)),
            Some(sel) => if raw[0] != sel {
                (p, Ok(None))
            } else if raw.len() == 2 {
                match spec_uid_bcc(p.config.uid, level) {
                    Ok(b) => (p, Ok(Some((FrameKind::BitOriented, b)))),
                    Err(e) => (p, Err(e)),
                }
            } else if raw.len() == 9 && raw[1] == 0x70 {
                if !p.hw_crc && !crc_accepted(raw.take(7), (raw[7], raw[8])) {
                    (p, Err(TypeAError::InvalidCrc(spec_crc_a(raw.take(7)))))
                } else {
                    let last = level + 1 >= p.config.uid.spec_levels();
                    let sak = Sak { uid_complete: last, iso14443_4_compliant: p.config.ats is Some };
                    (
                        PiccModel {
                            state: if last {
                                PiccState::Active
                            } else {
                                PiccState::Ready { cascade_level: (level + 1) as u8 }
                            },
                            ..p
                        },
                        Ok(
                            Some(
                                (
                                    FrameKind::Standard,
                                    spec_standard_bytes(seq![spec_sak_byte(sak)], p.hw_crc),
                                ),
                            ),
                        ),
                    )
                }
            } else {
                (p, Ok(None))
            },
        }
    }
}

/// What the card does with a frame during activation: Idle answers REQA
/// and WUPA, Halted answers WUPA only, Ready runs the cascade.
pub open spec fn spec_on_activation(p: PiccModel, raw: Seq<u8>) -> (PiccModel, Result<Option<(FrameKind, Seq<u8>)>, TypeAError>) {
    match p.state {
        PiccState::Idle => if raw =~= seq![0x26u8] || raw =~= seq![0x52u8] {
            spec_answer_atqa(p)
        } else {
            (p, Ok(None))
        },
        PiccState::Halted => if raw =~= seq![0x52u8] {
            spec_answer_atqa(p)
        } else {
            (p, Ok(None))
        },
        PiccState::Ready { cascade_level } => spec_on_ready(p, raw, cascade_level),
        _ => (p, Ok(None)),
    }
}

/// What an Active card does with a frame: RATS (0xE0, parameter, CRC) sets
/// the PCD's frame size and the CID and is answered with the ATS, after
/// which the card is in the block protocol; HLTA (0x50 ...) halts it.
/// Other frames are ignored.
pub open spec fn spec_on_rats(p: PiccModel, raw: Seq<u8>) -> (PiccModel, Result<Option<(FrameKind, Seq<u8>)>, TypeAError>) {
    if raw.len() == 0 {
        (p, Ok(None))
    } else if raw[0] == 0xe0 {
        let param: u8 = if raw.len() >= 2 {
            raw[1]
        } else {
            0
        };
        if !p.hw_crc && raw.len() == 4 && !crc_accepted(raw.take(2), (raw[2], raw[3])) {
            (p, Err(TypeAError::InvalidCrc(spec_crc_a(raw.take(2)))))
        } else {
            match spec_rats_param_parse(param) {
                Err(e) => (p, Err(e)),
                Ok((fsdi, cid)) => {
                    let p2 = PiccModel {
                        fsd: fsdi.spec_fsd(),
                        handler: HandlerModel { cid: Some(cid), block_number: 0, chain: Seq::empty() },
                        ..p
                    };
                    match p.config.ats {
                        None => (p2, Err(TypeAError::Other)),
                        Some(ats) => (
                            PiccModel { state: PiccState::Protocol, ..p2 },
                            Ok(
                                Some(
                                    (
                                        FrameKind::Standard,
                                        spec_standard_bytes(spec_ats_bytes(ats), p.hw_crc),
                                    ),
                                ),
                            ),
                        ),
                    }
                },
            }
        }
    } else if raw[0] == 0x50 {
        (PiccModel { state: PiccState::Halted, ..p }, Ok(None))
    } else {
        (p, Ok(None))
    }
}

/// The largest frame, in bytes, that a reader announcing FSDI `code` can
/// receive (ISO14443-4 Table 1); 0 for the codes not defined.
pub open spec fn spec_fsd_table(code: u8) -> int {
    if code == 0 {
        16
    } else if code == 1 {
        24
    } else if code == 2 {
        32
    } else if code == 3 {
        40
    } else if code == 4 {
        48
    } else if code == 5 {
        64
    } else if code == 6 {
        96
    } else if code == 7 {
        128
    } else if code == 8 {
        256
    } else {
        0
    }
}

/// A card that answers RATS with its ATS takes from the parameter byte the
/// reader's frame size (FSDI, high nibble, per Table 1) and the CID (low
/// nibble), starts the block protocol with block number 0, and enters the
/// protocol state.
pub proof fn lemma_rats_sets_fsd(p: PiccModel, raw: Seq<u8>)
    requires
        raw.len() >= 2,
        spec_on_rats(p, raw).1 matches Ok(Some(_)),
    ensures
        raw[0] == 0xe0,
        spec_on_rats(p, raw).0.fsd == spec_fsd_table(raw[1] >> 4u8),
        spec_on_rats(p, raw).0.handler.cid matches Some(c) && c.spec_value() == raw[1] & 0x0f,
        spec_on_rats(p, raw).0.handler.block_number == 0,
        spec_on_rats(p, raw).0.state == PiccState::Protocol,
{
}

/// Every I-block of a response fits in the frame size that the card
/// recorded from the reader: the frame that carries the next piece is at
/// most `fsd` bytes long.
pub proof fn lemma_response_fits(p: PiccModel, s: SenderModel)
    requires
        s.max_inf == spec_picc_max_inf(p),
        s.max_inf > 0,
        s.offset < s.data.len(),
    ensures
        spec_standard_bytes(
            spec_block_bytes_without_crc(
                spec_iblock(
                    p.handler,
                    s.data.subrange(s.offset as int, spec_sender_end(s)),
                    spec_sender_end(s) < s.data.len(),
                ),
            ),
            p.hw_crc,
        ).len() <= p.fsd,
{
}

/// What to do after a frame received in the block protocol.
#[derive(Debug)]
pub enum CommandStep {
    /// Send this frame and keep receiving.
    Continue(Frame),
    /// The command APDU is complete.
    Complete(ChainVec),
    /// Send this S(DESELECT) answer: the session is over, the card halted.
    Deselected(Frame),
}

/// The content of a command step.
pub enum CommandStepModel {
    Continue(Seq<u8>),
    Complete(Seq<u8>),
    Deselected(Seq<u8>),
}

/// The view of a command step result.
pub open spec fn spec_command_step(r: Result<CommandStep, TypeAError>) -> Result<CommandStepModel, TypeAError> {
    match r {
        Ok(CommandStep::Continue(f)) => Ok(CommandStepModel::Continue(f.spec_data())),
        Ok(CommandStep::Complete(d)) => Ok(CommandStepModel::Complete(d@)),
        Ok(CommandStep::Deselected(f)) => Ok(CommandStepModel::Deselected(f.spec_data())),
        Err(e) => Err(e),
    }
}

/// The session model of the PCD side with the card's CRC strategy and
/// block protocol state (the frame size does not matter for frames).
pub open spec fn spec_as_session(p: PiccModel) -> PcdSessionModel {
    PcdSessionModel { hw_crc: p.hw_crc, fsc: p.fsd, handler: p.handler }
}

/// What the card does with a frame in the block protocol: a PPS request
/// (first byte 0xDx) is answered with PPSS (0xD0 | CID); a block is
/// processed by the block protocol: a complete I-block chain ends the
/// command, a reply is sent, and S(DESELECT) is answered and halts the
/// card.
pub open spec fn spec_on_command(p: PiccModel, raw: Seq<u8>) -> (PiccModel, Result<CommandStepModel, TypeAError>) {
    if raw.len() > 0 && raw[0] & 0xF0 == 0xD0 {
        match spec_pps_parse(spec_received_bytes(raw, p.hw_crc)) {
            Err(e) => (p, Err(e)),
            Ok(pps) => (
                p,
                Ok(
                    CommandStepModel::Continue(
                        spec_standard_bytes(seq![(0xd0 + pps.cid.spec_value()) as u8], p.hw_crc),
                    ),
                ),
            ),
        }
    } else {
        match spec_block_response(spec_as_session(p), raw) {
            Err(e) => (p, Err(e)),
            Ok(b) => {
                let (h2, res) = spec_process(p.handler, b);
                let p2 = PiccModel { handler: h2, ..p };
                match res {
                    Err(e) => (p2, Err(e)),
                    Ok(ActionModel::Complete(d)) => (p2, Ok(CommandStepModel::Complete(d))),
                    Ok(ActionModel::Reply(r)) => {
                        let bytes = spec_standard_bytes(spec_block_bytes_without_crc(r), p.hw_crc);
                        if r.pcb.s_subtype == Some(SBlockSubtype::Deselect) {
                            (
                                PiccModel { state: PiccState::Halted, ..p2 },
                                Ok(CommandStepModel::Deselected(bytes)),
                            )
                        } else {
                            (p2, Ok(CommandStepModel::Continue(bytes)))
                        }
                    },
                    Ok(_) => (p2, Err(TypeAError::Other)),
                }
            },
        }
    }
}

/// A response APDU being sent in I-blocks.
#[derive(Debug)]
pub struct ResponseSender {
    data: Vec<u8>,
    max_inf: usize,
    offset: usize,
}

/// The state of a response being sent.
pub struct SenderModel {
    pub data: Seq<u8>,
    pub max_inf: usize,
    pub offset: usize,
}

impl ResponseSender {
    #[verifier::type_invariant]
    spec fn offset_in_range(self) -> bool {
        self.offset <= self.data@.len() && self.max_inf > 0
    }

    /// Whether the whole response was sent.
    pub fn is_done(&self) -> (r: bool)
        ensures
            r == (self@.offset >= self@.data.len()),
    {
        self.offset >= self.data.len()
    }

    /// Whether the block to send next is chaining, so that an R(ACK) is
    /// awaited after it.
    pub fn awaits_ack(&self) -> (r: bool)
        ensures
            r == (spec_sender_end(self@) < self@.data.len()),
    {
        proof {
            use_type_invariant(self);
        }
        self.end() < self.data.len()
    }

    fn end(&self) -> (r: usize)
        ensures
            r == spec_sender_end(self@),
    {
        proof {
            use_type_invariant(self);
        }
        if self.max_inf < self.data.len() - self.offset {
            self.offset + self.max_inf
        } else {
            self.data.len()
        }
    }
}

impl View for ResponseSender {
    type V = SenderModel;

    closed spec fn view(&self) -> SenderModel {
        SenderModel { data: self.data@, max_inf: self.max_inf, offset: self.offset }
    }
}

/// The end of the next chunk of the response.
pub open spec fn spec_sender_end(s: SenderModel) -> int {
    if s.offset + s.max_inf < s.data.len() {
        s.offset + s.max_inf
    } else {
        s.data.len() as int
    }
}

/// The largest information field of an I-block sent to the PCD: FSD minus
/// the prologue (PCB and optional CID) and the two CRC bytes, or 0.
pub open spec fn spec_picc_max_inf(p: PiccModel) -> int {
    let overhead: int = 1 + (if p.handler.cid is Some {
        1int
    } else {
        0
    }) + 2;
    if p.fsd >= overhead {
        p.fsd - overhead
    } else {
        0
    }
}

impl PiccCore {
    /// Create a new PICC session.
    pub fn new(config: PiccConfig, hw_crc: bool) -> (r: Self)
        ensures
            r@ == (PiccModel {
                hw_crc,
                config: config@,
                handler: HandlerModel { cid: None, block_number: 0, chain: Seq::empty() },
                state: PiccState::Idle,
                fsd: 256,
            }),
    {
        Self {
            hw_crc,
            config,
            handler: ProtocolHandler::new(None),
            state: PiccState::Idle,
            fsd: 256,  // default until RATS
        }
    }

    /// The activation state.
    pub fn state(&self) -> (r: PiccState)
        ensures
            r == self@.state,
    {
        self.state
    }

    /// The card configuration.
    pub fn config(&self) -> (r: &PiccConfig)
        ensures
            r@ == self@.config,
    {
        &self.config
    }

    /// Start waiting for activation: the card is Idle, unless it is halted
    /// (after HLTA or DESELECT), where it stays halted and answers WUPA
    /// only.
    pub fn begin_activation(&mut self)
        ensures
            final(self)@ == (if old(self)@.state == PiccState::Halted {
                old(self)@
            } else {
                PiccModel { state: PiccState::Idle, ..old(self)@ }
            }),
    {
        match self.state {
            PiccState::Halted => {},
            _ => {
                self.state = PiccState::Idle;
            },
        }
    }

    /// Handle a frame during activation; see `spec_on_activation`.
    pub fn on_activation_frame(&mut self, raw: &[u8]) -> (r: Result<Option<Frame>, TypeAError>)
        ensures
            (final(self)@, spec_out(r)) == spec_on_activation(old(self)@, raw@),
    {
        match self.state {
            PiccState::Idle => self.handle_idle(raw),
            PiccState::Halted => {
                // Only WUPA can wake from halted
                if raw.len() == 1 && raw[0] == 0x52 {
                    assert(raw@ =~= seq![0x52u8]);
                    self.answer_atqa()
                } else {
                    proof {
                        if raw@ =~= seq![0x52u8] {
                            assert(raw@[0] == 0x52);
                        }
                    }
                    Ok(None)
                }
            },
            PiccState::Ready { cascade_level } => self.handle_ready(raw, cascade_level),
            _ => Ok(None),
        }
    }

    fn answer_atqa(&mut self) -> (r: Result<Option<Frame>, TypeAError>)
        ensures
            (final(self)@, spec_out(r)) == spec_answer_atqa(old(self)@),
    {
        let bytes = self.config.atqa().to_bytes();
        let mut data: Vec<u8> = Vec::new();
        extend_bytes(&mut data, &bytes);
        self.state = PiccState::Ready { cascade_level: 0 };
        Ok(Some(Frame::Short(data)))
    }

    fn handle_idle(&mut self, raw: &[u8]) -> (r: Result<Option<Frame>, TypeAError>)
        requires
            old(self)@.state == PiccState::Idle,
        ensures
            (final(self)@, spec_out(r)) == spec_on_activation(old(self)@, raw@),
    {
        if raw.len() == 1 && (raw[0] == 0x26 || raw[0] == 0x52) {
            // REQA or WUPA
            assert(raw@ =~= seq![0x26u8] || raw@ =~= seq![0x52u8]);
            self.answer_atqa()
        } else {
            // Ignore unknown commands in idle
            proof {
                if raw@ =~= seq![0x26u8] || raw@ =~= seq![0x52u8] {
                    assert(raw@[0] == 0x26 || raw@[0] == 0x52);
                }
            }
            Ok(None)
        }
    }

    fn handle_ready(&mut self, raw: &[u8], cascade_level: u8) -> (r: Result<Option<Frame>, TypeAError>)
        ensures
            (final(self)@, spec_out(r)) == spec_on_ready(old(self)@, raw@, cascade_level),
    {
        if raw.len() < 2 {
            return Ok(None);  // Ignore short frames
        }
        let sel = raw[0];
        let expected_sel = if cascade_level == 0 {
            SEL_CL1
        } else if cascade_level == 1 {
            SEL_CL2
        } else if cascade_level == 2 {
            SEL_CL3
        } else {
            return Err(TypeAError::Other);
        };
        if sel != expected_sel {
            return Ok(None);  // Wrong cascade level, ignore
        }
        if raw.len() == 2 {
            // Anticollision: SEL + NVB(0x20) → respond with UID+BCC
            let uid_bcc = match uid_bcc_for_level(&self.config.uid, cascade_level) {
                Ok(u) => u,
                Err(e) => {
                    return Err(e);
                },
            };
            let mut resp: Vec<u8> = Vec::new();
            extend_bytes(&mut resp, &uid_bcc);
            Ok(Some(Frame::BitOriented(resp)))
        } else if raw.len() == 9 && raw[1] == 0x70 {
            // SELECT: SEL + NVB(0x70) + UID[4] + BCC + CRC
            if !self.hw_crc {
                let head = slice_subrange(raw, 0, 7);
                let good = crc_a(head);
                assert(head@ =~= raw@.take(7));
                if !((good.0 == raw[7] && good.1 == raw[8]) || (raw[7] == 0 && raw[8] == 0)) {
                    return Err(TypeAError::InvalidCrc(good));
                }
            }
            // Respond with SAK
            let is_last_level = cascade_level + 1 >= self.config.uid.cascade_levels();
            let sak = Sak { uid_complete: is_last_level, iso14443_4_compliant: self.config.is_14443_4() };
            let byte = sak.to_byte();
            let mut data: Vec<u8> = Vec::new();
            data.push(byte);
            let frame = if self.hw_crc {
                Frame::Standard(data)
            } else {
                Frame::Standard(super::crc::append_crc_a(data.as_slice()))
            };
            assert(data@ =~= seq![spec_sak_byte(sak)]);
            if is_last_level {
                self.state = PiccState::Active;
            } else {
                self.state = PiccState::Ready { cascade_level: cascade_level + 1 };
            }
            Ok(Some(frame))
        } else {
            Ok(None)
        }
    }

    /// Handle a frame while Active, waiting for RATS; see `spec_on_rats`.
    pub fn on_rats_frame(&mut self, raw: &[u8]) -> (r: Result<Option<Frame>, TypeAError>)
        ensures
            (final(self)@, spec_out(r)) == spec_on_rats(old(self)@, raw@),
    {
        if raw.len() == 0 {
            return Ok(None);
        }
        if raw[0] == 0xe0 {
            // RATS
            let param_byte = if raw.len() >= 2 {
                raw[1]
            } else {
                0
            };
            if !self.hw_crc && raw.len() == 4 {
                let head = slice_subrange(raw, 0, 2);
                let good = crc_a(head);
                assert(head@ =~= raw@.take(2));
                if !((good.0 == raw[2] && good.1 == raw[3]) || (raw[2] == 0 && raw[3] == 0)) {
                    return Err(TypeAError::InvalidCrc(good));
                }
            }
            let rats = match RatsParam::try_from(param_byte) {
                Ok(r) => r,
                Err(e) => {
                    return Err(e);
                },
            };
            self.fsd = rats.fsdi().fsd();
            let cid = Cid::new(rats.cid().value());
            self.handler = ProtocolHandler::new(cid);
            // Send ATS
            let ats_bytes = match &self.config.ats {
                None => {
                    return Err(TypeAError::Other);
                },
                Some(ats) => match ats.to_bytes() {
                    Ok(b) => b,
                    Err(e) => {
                        return Err(e);
                    },
                },
            };
            let frame = if self.hw_crc {
                Frame::Standard(ats_bytes)
            } else {
                Frame::Standard(super::crc::append_crc_a(ats_bytes.as_slice()))
            };
            self.state = PiccState::Protocol;
            Ok(Some(frame))
        } else if raw[0] == 0x50 {
            // HLTA
            self.state = PiccState::Halted;
            Ok(None)
        } else {
            Ok(None)  // Ignore unknown in Active state
        }
    }

    /// Start receiving a command APDU: the chain accumulator is emptied.
    pub fn begin_command(&mut self)
        ensures
            final(self)@ == (PiccModel {
                handler: HandlerModel { chain: Seq::empty(), ..old(self)@.handler },
                ..old(self)@
            }),
    {
        self.handler.reset_chain();
    }

    fn received_bytes(&self, raw: &[u8]) -> (r: Vec<u8>)
        ensures
            r@ == spec_received_bytes(raw@, self@.hw_crc),
    {
        let mut buf: Vec<u8> = Vec::new();
        extend_bytes(&mut buf, raw);
        if self.hw_crc {
            buf.push(0);
            buf.push(0);
        }
        assert(buf@ =~= spec_received_bytes(raw@, self@.hw_crc));
        buf
    }

    fn standard_frame(&self, data: Vec<u8>) -> (r: Frame)
        ensures
            r is Standard,
            r.spec_data() == spec_standard_bytes(data@, self@.hw_crc),
    {
        if self.hw_crc {
            Frame::Standard(data)
        } else {
            Frame::Standard(super::crc::append_crc_a(data.as_slice()))
        }
    }

    /// Handle a frame in the block protocol; see `spec_on_command`.
    pub fn on_command_frame(&mut self, raw: &[u8]) -> (r: Result<CommandStep, TypeAError>)
        ensures
            (final(self)@, spec_command_step(r)) == spec_on_command(old(self)@, raw@),
            r matches Ok(CommandStep::Continue(f)) ==> f is Standard,
            r matches Ok(CommandStep::Deselected(f)) ==> f is Standard,
    {
        // PPS: starts with 0xDx where x is CID
        if raw.len() > 0 && raw[0] & 0xF0 == 0xD0 {
            let buf = self.received_bytes(raw);
            let pps = match PpsParam::try_from(buf.as_slice()) {
                Ok(p) => p,
                Err(e) => {
                    return Err(e);
                },
            };
            // Respond with PPSS byte (0xD0 + CID)
            let ppss = 0xd0 + pps.cid.value();
            let mut data: Vec<u8> = Vec::new();
            data.push(ppss);
            assert(data@ =~= seq![(0xd0 + pps.cid.spec_value()) as u8]);
            return Ok(CommandStep::Continue(self.standard_frame(data)));
        }
        let buf = self.received_bytes(raw);
        let block = match Block::try_from(buf.as_slice()) {
            Ok(b) => b,
            Err(e) => {
                return Err(e);
            },
        };
        match self.handler.process_received(block) {
            Err(e) => Err(e),
            Ok(Action::Complete(data)) => Ok(CommandStep::Complete(data)),
            Ok(Action::Reply(reply)) => {
                let data = match reply.to_bytes_without_crc() {
                    Ok(d) => d,
                    Err(e) => {
                        return Err(e);
                    },
                };
                let frame = self.standard_frame(data);
                if reply.pcb.s_subtype == Some(SBlockSubtype::Deselect) {
                    // Per ISO14443-3: after DESELECT the PICC enters
                    // HALT state (only responds to WUPA, not REQA).
                    self.state = PiccState::Halted;
                    Ok(CommandStep::Deselected(frame))
                } else {
                    // R(ACK) for chaining or S(WTX) echo
                    Ok(CommandStep::Continue(frame))
                }
            },
            Ok(_) => Err(TypeAError::Other),
        }
    }

    /// Start sending a response APDU, chained in I-blocks that fit the
    /// PCD's frame size. Fails with `Other` when the FSD leaves no room for
    /// information bytes.
    pub fn begin_response(&self, data: &[u8]) -> (r: Result<ResponseSender, TypeAError>)
        ensures
            spec_picc_max_inf(self@) == 0 <==> r is Err,
            r is Err ==> r == Err::<ResponseSender, TypeAError>(TypeAError::Other),
            r matches Ok(s) ==> s@ == (SenderModel {
                data: data@,
                max_inf: spec_picc_max_inf(self@) as usize,
                offset: 0,
            }),
    {
        let cid_len: usize = if self.handler.cid().is_some() {
            1
        } else {
            0
        };
        let overhead: usize = 1 + cid_len + 2;  // PCB + optional CID + CRC
        let max_inf: usize = if self.fsd >= overhead {
            self.fsd - overhead
        } else {
            0
        };
        if max_inf == 0 {
            return Err(TypeAError::Other);
        }
        let mut copy: Vec<u8> = Vec::new();
        extend_bytes(&mut copy, data);
        assert(copy@ =~= data@);
        Ok(ResponseSender { data: copy, max_inf, offset: 0 })
    }

    /// The frame of the next I-block of the response.
    pub fn response_frame(&self, s: &ResponseSender) -> (r: Result<Frame, TypeAError>)
        requires
            s@.offset < s@.data.len(),
        ensures
            r matches Ok(f) && f is Standard && f.spec_data() == spec_standard_bytes(
                spec_block_bytes_without_crc(
                    spec_iblock(
                        self@.handler,
                        s@.data.subrange(s@.offset as int, spec_sender_end(s@)),
                        spec_sender_end(s@) < s@.data.len(),
                    ),
                ),
                self@.hw_crc,
            ),
    {
        proof {
            use_type_invariant(s);
        }
        let end = s.end();
        let chaining = end < s.data.len();
        let chunk = slice_subrange(s.data.as_slice(), s.offset, end);
        let iblock = match self.handler.build_iblock(chunk, chaining) {
            Ok(b) => b,
            Err(e) => {
                return Err(e);
            },
        };
        let data = match iblock.to_bytes_without_crc() {
            Ok(d) => d,
            Err(e) => {
                return Err(e);
            },
        };
        Ok(self.standard_frame(data))
    }

    /// The last I-block of the response was sent: the block number toggles
    /// and the response is done.
    pub fn response_sent(&mut self, s: &mut ResponseSender)
        requires
            old(s)@.offset < old(s)@.data.len(),
            spec_sender_end(old(s)@) == old(s)@.data.len(),
        ensures
            final(self)@ == (PiccModel { handler: spec_toggled(old(self)@.handler), ..old(self)@ }),
            final(s)@ == (SenderModel { offset: old(s)@.data.len() as usize, ..old(s)@ }),
    {
        self.handler.toggle_block_number();
        s.offset = s.data.len();
    }

    /// The answer to a chaining I-block of the response: it must be R(ACK)
    /// with the current block number, and the next chunk follows.
    pub fn on_response_ack(&mut self, s: &mut ResponseSender, raw: &[u8]) -> (r: Result<(), TypeAError>)
        requires
            old(s)@.offset < old(s)@.data.len(),
            spec_sender_end(old(s)@) < old(s)@.data.len(),
        ensures
            match spec_block_response(spec_as_session(old(self)@), raw@) {
                Err(e) => r == Err::<(), TypeAError>(e) && final(self)@ == old(self)@ && final(s)@
                    == old(s)@,
                Ok(b) => {
                    let (h2, res) = spec_process(old(self)@.handler, b);
                    &&& final(self)@ == (PiccModel { handler: h2, ..old(self)@ })
                    &&& match res {
                        Ok(ActionModel::ChainingAck) => r is Ok && final(s)@ == (SenderModel {
                            offset: spec_sender_end(old(s)@) as usize,
                            ..old(s)@
                        }),
                        Err(e) => r == Err::<(), TypeAError>(e) && final(s)@ == old(s)@,
                        _ => r == Err::<(), TypeAError>(TypeAError::Other) && final(s)@ == old(s)@,
                    }
                },
            },
    {
        let buf = self.received_bytes(raw);
        let block = match Block::try_from(buf.as_slice()) {
            Ok(b) => b,
            Err(e) => {
                return Err(e);
            },
        };
        match self.handler.process_received(block) {
            Ok(Action::ChainingAck) => {
                proof {
                    use_type_invariant(&*s);
                }
                let end = s.end();
                s.offset = end;
                Ok(())
            },
            Err(e) => Err(e),
            _ => Err(TypeAError::Other),
        }
    }
}

} // verus!
