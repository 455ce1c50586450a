//! ISO14443-3A tag activation: REQA → anticollision cascade → SELECT.

use super::anticol_select::{
    lemma_select_nvb, spec_is_sel, spec_nvb_byte, spec_uid_cl_parse, Cascade, NumberOfValidBits, SEL_CL1,
    SEL_CL2, SEL_CL3,
};
use super::pcd::spec_received_bytes;
use super::atqa::{spec_atqa_parse, AtqA, BitFrameAntiCollision, UidSize};
use super::crc::{append_crc_a, extend_bytes, with_crc_a};
use super::sak::{spec_sak_from_byte, spec_sak_parse, Sak};
use super::vec::FrameVec;
use super::{spec_command_parse, CommandModel, Frame, PcdTransceiver, TypeAError, REQA, WUPA};
use vstd::prelude::*;
use vstd::slice::slice_subrange;
use vstd::std_specs::convert::FromSpecImpl;

verus! {

/// Error during tag activation.
#[derive(Debug)]
pub enum ActivationError<E> {
    /// The transceiver returned an error.
    PcdTransceiver(E),
    /// ISO14443 protocol violation (invalid BCC, CRC, length, etc.).
    Protocol(TypeAError),
}

impl<E> FromSpecImpl<TypeAError> for ActivationError<E> {
    open spec fn obeys_from_spec() -> bool {
        true
    }

    open spec fn from_spec(e: TypeAError) -> Self {
        ActivationError::Protocol(e)
    }
}

impl<E> From<TypeAError> for ActivationError<E> {
    fn from(e: TypeAError) -> (r: Self) {
        ActivationError::Protocol(e)
    }
}

/// Result of a successful ISO14443-3A tag activation.
#[derive(Debug)]
pub struct Activation {
    /// ATQA response from the tag.
    pub atqa: AtqA,
    /// Final SAK indicating tag capabilities.
    pub sak: Sak,
    /// Reconstructed UID (4, 7, or 10 bytes).
    pub uid: FrameVec,
}

/// The NVB of the ANTICOLLISION command: two valid bytes (SEL and NVB).
pub open spec fn spec_anticollision_nvb() -> u8 {
    spec_nvb_byte(NumberOfValidBits::spec_make(2, 0))
}

/// The NVB of the SELECT command: seven valid bytes.
pub open spec fn spec_select_nvb() -> u8 {
    spec_nvb_byte(NumberOfValidBits::spec_make(7, 0))
}

/// The bytes of the ANTICOLLISION command of a cascade level.
pub open spec fn spec_anticollision_bytes(sel: u8) -> Seq<u8> {
    seq![sel, spec_anticollision_nvb()]
}

/// The bytes of the SELECT command of a cascade level, with software CRC
/// appended unless the transceiver adds it.
pub open spec fn spec_select_bytes(sel: u8, uid_bcc: Seq<u8>, hw_crc: bool) -> Seq<u8> {
    let data = seq![sel, spec_select_nvb()] + uid_bcc;
    if hw_crc {
        data
    } else {
        with_crc_a(data)
    }
}

/// The result of checking the answer to ANTICOLLISION: five bytes (four
/// UID bytes and their BCC) whose exclusive or is zero.
pub open spec fn spec_anticollision_check(resp: Seq<u8>) -> Result<Seq<u8>, TypeAError> {
    if resp.len() != 5 {
        Err(TypeAError::InvalidLength)
    } else if resp[0] ^ resp[1] ^ resp[2] ^ resp[3] ^ resp[4] != 0 {
        Err(TypeAError::InvalidBcc)
    } else {
        Ok(resp)
    }
}

/// The result of parsing the answer to SELECT: a bare SAK byte when the
/// transceiver checks and strips the CRC, a SAK frame otherwise.
pub open spec fn spec_select_check(resp: Seq<u8>, hw_crc: bool) -> Result<Sak, TypeAError> {
    if hw_crc {
        if resp.len() != 1 {
            Err(TypeAError::InvalidLength)
        } else {
            Ok(spec_sak_from_byte(resp[0]))
        }
    } else {
        spec_sak_parse(resp)
    }
}

/// The UID that the cascade levels `cls` (each five bytes) code: three
/// bytes after the cascade tag of each level but the last, then the four
/// bytes of the last level.
pub open spec fn spec_uid_from_levels(cls: Seq<Seq<u8>>) -> Seq<u8>
    decreases cls.len(),
{
    if cls.len() == 0 {
        Seq::empty()
    } else if cls.len() == 1 {
        cls[0].subrange(0, 4)
    } else {
        cls[0].subrange(1, 4) + spec_uid_from_levels(cls.drop_first())
    }
}

/// Whether `cls` are answers to ANTICOLLISION that a reader accepts for a
/// cascade: one to three levels, each five bytes whose exclusive or is
/// zero.
pub open spec fn spec_valid_levels(cls: Seq<Seq<u8>>) -> bool {
    &&& 1 <= cls.len() <= 3
    &&& forall|i: int|
        0 <= i < cls.len() ==> spec_anticollision_check(#[trigger] cls[i]) == Ok::<
            Seq<u8>,
            TypeAError,
        >(cls[i])
}

/// What a successful activation holds, whatever the card answered: a
/// complete UID rebuilt from cascade levels that passed the BCC check, and
/// an ATQA parsed from the answer to REQA or WUPA.
pub open spec fn spec_activation_ok(atqa: AtqA, sak: Sak, uid: Seq<u8>) -> bool {
    &&& sak.uid_complete
    &&& exists|cls: Seq<Seq<u8>>| spec_valid_levels(cls) && #[trigger] spec_uid_from_levels(cls) == uid
    &&& exists|raw: Seq<u8>| #[trigger] spec_atqa_parse(raw) == Ok::<AtqA, TypeAError>(atqa)
    &&& (uid.len() == 4 || uid.len() == 7 || uid.len() == 10)
}

/// The frame of the ANTICOLLISION command of the cascade level `sel`.
pub fn anticollision_frame(sel: u8) -> (r: Frame)
    ensures
        r is BitOriented,
        r.spec_data() == spec_anticollision_bytes(sel),
{
    let nvb = u8::from(&NumberOfValidBits::anticollision());
    let mut data: Vec<u8> = Vec::new();
    data.push(sel);
    data.push(nvb);
    assert(data@ =~= spec_anticollision_bytes(sel));
    Frame::BitOriented(data)
}

/// The SELECT frame reaches the card as a SELECT of the level that the
/// UID bytes code: with the transceiver's CRC it is SEL, NVB and the five
/// UID/BCC bytes alone (seven bytes, the hardware adds the CRC), otherwise
/// those bytes and their CRC_A (nine bytes); either way the card, receiving
/// it as its transceiver hands it over, parses it back to SELECT of that
/// cascade level with that UID part.
pub proof fn lemma_select_frame_parses(sel: u8, uid_bcc: Seq<u8>, hw_crc: bool)
    requires
        spec_is_sel(sel),
        spec_anticollision_check(uid_bcc) == Ok::<Seq<u8>, TypeAError>(uid_bcc),
    ensures
        spec_select_bytes(sel, uid_bcc, hw_crc).len() == (if hw_crc {
            7int
        } else {
            9int
        }),
        spec_select_bytes(sel, uid_bcc, hw_crc).take(7) == seq![sel, 0x70u8] + uid_bcc,
        spec_command_parse(spec_received_bytes(spec_select_bytes(sel, uid_bcc, hw_crc), hw_crc))
            == Ok::<CommandModel, TypeAError>(
            CommandModel::Select(Cascade::spec_with_sel(sel, spec_uid_cl_parse(uid_bcc)->Ok_0)),
        ),
{
    lemma_select_nvb();
    let data = seq![sel, spec_select_nvb()] + uid_bcc;
    let v = spec_received_bytes(spec_select_bytes(sel, uid_bcc, hw_crc), hw_crc);
    assert(v.take(7) =~= data);
    assert(spec_select_bytes(sel, uid_bcc, hw_crc).take(7) =~= data);
    assert(v.subrange(2, 7) =~= uid_bcc);
    assert(v[0] == sel && v[1] == 0x70);
    if hw_crc {
        assert(v[7] == 0 && v[8] == 0);
    }
}

/// Check the answer to ANTICOLLISION: it must be five bytes whose
/// exclusive or (BCC check) is zero.
pub fn anticollision_response(resp: &[u8]) -> (r: Result<[u8; 5], TypeAError>)
    ensures
        match r {
            Ok(a) => spec_anticollision_check(resp@) == Ok::<Seq<u8>, TypeAError>(a@),
            Err(e) => spec_anticollision_check(resp@) == Err::<Seq<u8>, TypeAError>(e),
        },
{
    if resp.len() != 5 {
        return Err(TypeAError::InvalidLength);
    }
    // Validate BCC (XOR of all 5 bytes must be 0)
    if resp[0] ^ resp[1] ^ resp[2] ^ resp[3] ^ resp[4] != 0 {
        return Err(TypeAError::InvalidBcc);
    }
    let uid: [u8; 5] = [resp[0], resp[1], resp[2], resp[3], resp[4]];
    assert(uid@ =~= resp@);
    Ok(uid)
}

/// The frame of the SELECT command of the cascade level `sel`.
pub fn select_frame(sel: u8, uid_bcc: &[u8; 5], hw_crc: bool) -> (r: Frame)
    ensures
        r is Standard,
        r.spec_data() == spec_select_bytes(sel, uid_bcc@, hw_crc),
{
    let nvb = u8::from(&NumberOfValidBits::select());
    let mut data: Vec<u8> = Vec::new();
    data.push(sel);
    data.push(nvb);
    extend_bytes(&mut data, uid_bcc);
    assert(data@ =~= seq![sel, spec_select_nvb()] + uid_bcc@);
    if hw_crc {
        // Hardware appends CRC on TX and strips it from RX
        Frame::Standard(data)
    } else {
        // Software CRC: append CRC_A to TX data
        Frame::Standard(append_crc_a(data.as_slice()))
    }
}

/// Parse the answer to SELECT into the SAK.
pub fn select_response(resp: &[u8], hw_crc: bool) -> (r: Result<Sak, TypeAError>)
    ensures
        r == spec_select_check(resp@, hw_crc),
{
    if hw_crc {
        if resp.len() != 1 {
            return Err(TypeAError::InvalidLength);
        }
        Ok(Sak::from_raw(resp[0]))
    } else {
        Sak::try_from(resp)
    }
}

/// Reconstruct the full UID from cascade level responses.
///
/// Per ISO14443-3:
/// - 1 level (4-byte UID): uid_cl1[0..4]
/// - 2 levels (7-byte UID): uid_cl1[1..4] ++ uid_cl2[0..4] (skip cascade
///   tag 0x88)
/// - 3 levels (10-byte UID): uid_cl1[1..4] ++ uid_cl2[1..4] ++ uid_cl3[0..4]
pub fn build_activation(atqa: AtqA, sak: Sak, uid_cls: &[[u8; 5]], levels: usize) -> (r: Result<
    Activation,
    TypeAError,
>)
    requires
        1 <= levels,
        uid_cls@.len() == levels,
    ensures
        r matches Ok(a) && a.atqa == atqa && a.sak == sak && a.uid@ == spec_uid_from_levels(
            uid_cls@.map_values(|cl: [u8; 5]| cl@),
        ),
        r matches Ok(a) && a.uid@.len() == 3 * levels + 1,
{
    let ghost cls = uid_cls@.map_values(|cl: [u8; 5]| cl@);
    let mut uid: Vec<u8> = Vec::new();
    let mut i: usize = 0;
    assert(cls.subrange(0, cls.len() as int) =~= cls);
    while i < uid_cls.len()
        invariant
            i <= uid_cls@.len(),
            uid_cls@.len() == levels,
            1 <= levels,
            cls == uid_cls@.map_values(|cl: [u8; 5]| cl@),
            spec_uid_from_levels(cls) == uid@ + spec_uid_from_levels(cls.subrange(i as int, cls.len() as int)),
            i < levels ==> uid@.len() == 3 * i,
            i == levels ==> uid@.len() == 3 * levels + 1,
        decreases uid_cls.len() - i,
    {
        let cl = uid_cls[i];
        let ghost rest = cls.subrange(i as int, cls.len() as int);
        assert(cls[i as int] == cl@);
        assert(rest[0] == cl@);
        assert(rest.drop_first() =~= cls.subrange(i + 1, cls.len() as int));
        if i < levels - 1 {
            // Intermediate level: skip cascade tag (0x88), take bytes 1..4
            extend_bytes(&mut uid, slice_subrange(&cl, 1, 4));
        } else {
            // Final level: take bytes 0..4 (no cascade tag)
            extend_bytes(&mut uid, slice_subrange(&cl, 0, 4));
            assert(cls.subrange(i + 1, cls.len() as int) =~= Seq::<Seq<u8>>::empty());
        }
        i = i + 1;
    }
    assert(cls.subrange(i as int, cls.len() as int) =~= Seq::<Seq<u8>>::empty());
    Ok(Activation { atqa, sak, uid })
}

/// Where an activation stands: the frame last sent awaits its answer.
#[derive(Debug, Clone, Copy, PartialEq, Eq, Structural)]
pub enum ActivationPhase {
    /// REQA or WUPA was sent; the ATQA is awaited.
    AwaitAtqa,
    /// ANTICOLLISION of cascade level `level` (0 to 2) was sent.
    AwaitUid { level: u8 },
    /// SELECT of cascade level `level` (0 to 2) was sent.
    AwaitSak { level: u8 },
    /// The activation is over.
    Finished,
}

/// An activation in progress, without the transceiver: the CRC strategy,
/// the ATQA received, and the cascade levels resolved so far.
#[derive(Debug)]
pub struct ActivationSession {
    hw_crc: bool,
    atqa: AtqA,
    levels: Vec<[u8; 5]>,
    phase: ActivationPhase,
}

/// The state of an activation.
pub struct ActivationModel {
    pub hw_crc: bool,
    pub atqa: AtqA,
    pub levels: Seq<Seq<u8>>,
    pub phase: ActivationPhase,
}

impl View for ActivationSession {
    type V = ActivationModel;

    closed spec fn view(&self) -> ActivationModel {
        ActivationModel {
            hw_crc: self.hw_crc,
            atqa: self.atqa,
            levels: self.levels@.map_values(|cl: [u8; 5]| cl@),
            phase: self.phase,
        }
    }
}

/// What to do after an answer during activation.
#[derive(Debug)]
pub enum ActivationStep {
    /// Send this frame and hand its answer to the next step.
    Send(Frame),
    /// The card is activated.
    Done(Activation),
    /// The activation ends with this protocol error.
    Failed(TypeAError),
}

/// The content of an activation step.
pub enum ActivationStepModel {
    Send(Seq<u8>),
    Done(AtqA, Sak, Seq<u8>),
    Failed(TypeAError),
}

impl View for ActivationStep {
    type V = ActivationStepModel;

    open spec fn view(&self) -> ActivationStepModel {
        match self {
            ActivationStep::Send(f) => ActivationStepModel::Send(f.spec_data()),
            ActivationStep::Done(a) => ActivationStepModel::Done(a.atqa, a.sak, a.uid@),
            ActivationStep::Failed(e) => ActivationStepModel::Failed(*e),
        }
    }
}

/// The SEL code of cascade level `level` (0 to 2).
pub open spec fn spec_sel(level: u8) -> u8 {
    if level == 0 {
        SEL_CL1
    } else if level == 1 {
        SEL_CL2
    } else {
        SEL_CL3
    }
}

/// The first frame of an activation: WUPA to wake a halted card as well,
/// REQA otherwise.
pub open spec fn spec_request_bytes(wake: bool) -> Seq<u8> {
    if wake {
        seq![0x52u8]
    } else {
        seq![0x26u8]
    }
}

/// A well-formed activation state: every level resolved so far passed
/// the BCC check, as many levels as the phase says, and, while levels are
/// resolved, an ATQA parsed from an answer.
pub open spec fn spec_activation_wf(m: ActivationModel) -> bool {
    &&& forall|i: int|
        0 <= i < m.levels.len() ==> spec_anticollision_check(#[trigger] m.levels[i]) == Ok::<
            Seq<u8>,
            TypeAError,
        >(m.levels[i])
    &&& match m.phase {
        ActivationPhase::AwaitAtqa => m.levels.len() == 0,
        ActivationPhase::AwaitUid { level } => level < 3 && m.levels.len() == level,
        ActivationPhase::AwaitSak { level } => level < 3 && m.levels.len() == level + 1,
        ActivationPhase::Finished => m.levels.len() <= 3,
    }
    &&& (m.phase is AwaitUid || m.phase is AwaitSak) ==> exists|raw: Seq<u8>|
        #[trigger] spec_atqa_parse(raw) == Ok::<AtqA, TypeAError>(m.atqa)
}

/// How many frames an activation may still send at most.
pub open spec fn spec_activation_rank(p: ActivationPhase) -> int {
    match p {
        ActivationPhase::AwaitAtqa => 7,
        ActivationPhase::AwaitUid { level } => 6 - 2 * level,
        ActivationPhase::AwaitSak { level } => 5 - 2 * level,
        ActivationPhase::Finished => 0,
    }
}

/// One step of an activation, given the answer to the frame sent last:
///
/// - the ATQA is followed by ANTICOLLISION of cascade level 1;
/// - a UID level that passes the BCC check is followed by its SELECT;
/// - a SAK whose UID is complete ends the activation with the UID rebuilt
///   from the levels; otherwise ANTICOLLISION of the next level follows,
///   and after the third level the activation fails;
/// - an answer that does not parse ends the activation with its error.
pub open spec fn spec_activation_step(m: ActivationModel, resp: Seq<u8>) -> (ActivationModel, ActivationStepModel) {
    let finished = ActivationModel { phase: ActivationPhase::Finished, ..m };
    match m.phase {
        ActivationPhase::AwaitAtqa => match spec_atqa_parse(resp) {
            Err(e) => (finished, ActivationStepModel::Failed(e)),
            Ok(a) => (
                ActivationModel { atqa: a, phase: ActivationPhase::AwaitUid { level: 0 }, ..m },
                ActivationStepModel::Send(spec_anticollision_bytes(SEL_CL1)),
            ),
        },
        ActivationPhase::AwaitUid { level } => match spec_anticollision_check(resp) {
            Err(e) => (finished, ActivationStepModel::Failed(e)),
            Ok(u) => (
                ActivationModel {
                    levels: m.levels.push(u),
                    phase: ActivationPhase::AwaitSak { level },
                    ..m
                },
                ActivationStepModel::Send(spec_select_bytes(spec_sel(level), u, m.hw_crc)),
            ),
        },
        ActivationPhase::AwaitSak { level } => match spec_select_check(resp, m.hw_crc) {
            Err(e) => (finished, ActivationStepModel::Failed(e)),
            Ok(sak) => if sak.uid_complete {
                (finished, ActivationStepModel::Done(m.atqa, sak, spec_uid_from_levels(m.levels)))
            } else if level < 2 {
                (
                    ActivationModel { phase: ActivationPhase::AwaitUid { level: (level + 1) as u8 }, ..m },
                    ActivationStepModel::Send(spec_anticollision_bytes(spec_sel((level + 1) as u8))),
                )
            } else {
                (finished, ActivationStepModel::Failed(TypeAError::Other))
            },
        },
        ActivationPhase::Finished => (m, ActivationStepModel::Failed(TypeAError::Other)),
    }
}

/// The state of a new activation: the same whether it starts with REQA or
/// WUPA (the ATQA is a placeholder until one is received).
pub open spec fn spec_initial_activation(hw_crc: bool) -> ActivationModel {
    ActivationModel {
        hw_crc,
        atqa: AtqA {
            uid_size: UidSize::Single,
            bit_frame_ac: BitFrameAntiCollision::Slot1,
            proprietary_coding: 0,
        },
        levels: Seq::empty(),
        phase: ActivationPhase::AwaitAtqa,
    }
}

/// The frames sent and how the activation ends when, from state `m`, the
/// card gives `answers` in turn: each answer goes to a step; a frame to
/// send goes on to the next answer, any other step ends the run (`None`
/// when the answers run out first).
pub open spec fn spec_activation_run(m: ActivationModel, answers: Seq<Seq<u8>>) -> (
    Seq<Seq<u8>>,
    Option<ActivationStepModel>,
)
    decreases answers.len(),
{
    if answers.len() == 0 {
        (Seq::empty(), None)
    } else {
        let (m2, st) = spec_activation_step(m, answers[0]);
        match st {
            ActivationStepModel::Send(f) => {
                let (fs, out) = spec_activation_run(m2, answers.drop_first());
                (seq![f] + fs, out)
            },
            _ => (Seq::empty(), Some(st)),
        }
    }
}

/// The frames that an activation sends, and how it ends, for the answers
/// `answers`: the request (WUPA when `wake`, else REQA), then what the
/// steps give.
pub open spec fn spec_activation_transcript(wake: bool, hw_crc: bool, answers: Seq<Seq<u8>>) -> (
    Seq<Seq<u8>>,
    Option<ActivationStepModel>,
) {
    let (fs, out) = spec_activation_run(spec_initial_activation(hw_crc), answers);
    (seq![spec_request_bytes(wake)] + fs, out)
}

/// Waking a card (WUPA) and activating it (REQA) differ in the request
/// alone: for the same answers, every later frame and the outcome are the
/// same.
pub proof fn lemma_wake_only_request(hw_crc: bool, answers: Seq<Seq<u8>>)
    ensures
        spec_activation_transcript(true, hw_crc, answers).0[0] == seq![WUPA],
        spec_activation_transcript(false, hw_crc, answers).0[0] == seq![REQA],
        spec_activation_transcript(true, hw_crc, answers).0.drop_first()
            == spec_activation_transcript(false, hw_crc, answers).0.drop_first(),
        spec_activation_transcript(true, hw_crc, answers).1 == spec_activation_transcript(
            false,
            hw_crc,
            answers,
        ).1,
{
    let fs = spec_activation_run(spec_initial_activation(hw_crc), answers).0;
    assert((seq![spec_request_bytes(true)] + fs).drop_first() =~= fs);
    assert((seq![spec_request_bytes(false)] + fs).drop_first() =~= fs);
}

impl ActivationSession {
    /// Start an activation: the REQA frame, or WUPA when `wake` (to wake
    /// a halted card too).
    pub fn start(wake: bool, hw_crc: bool) -> (r: (Self, Frame))
        ensures
            r.1 is Short,
            r.1.spec_data() == spec_request_bytes(wake),
            r.0@ == spec_initial_activation(hw_crc),
            spec_activation_wf(r.0@),
    {
        let mut v: Vec<u8> = Vec::new();
        v.push(if wake { WUPA } else { REQA });
        assert(v@ =~= spec_request_bytes(wake));
        let frame = Frame::Short(v);
        let levels: Vec<[u8; 5]> = Vec::new();
        let s = ActivationSession {
            hw_crc,
            atqa: AtqA {
                uid_size: UidSize::Single,
                bit_frame_ac: BitFrameAntiCollision::Slot1,
                proprietary_coding: 0,
            },
            levels,
            phase: ActivationPhase::AwaitAtqa,
        };
        assert(s@.levels =~= Seq::<Seq<u8>>::empty());
        (s, frame)
    }

    /// The phase of the activation.
    pub fn phase(&self) -> (r: ActivationPhase)
        ensures
            r == self@.phase,
    {
        self.phase
    }

    /// One step of an activation; see `spec_activation_step`. A frame to
    /// send is bit-oriented for ANTICOLLISION and standard for SELECT; an
    /// activation that ends well holds a complete UID of 4, 7 or 10 bytes
    /// rebuilt from levels that passed the BCC check.
    pub fn step(&mut self, resp: &[u8]) -> (r: ActivationStep)
        requires
            spec_activation_wf(old(self)@),
        ensures
            (final(self)@, r@) == spec_activation_step(old(self)@, resp@),
            spec_activation_wf(final(self)@),
            r matches ActivationStep::Send(f) ==> (f is BitOriented <==> final(self)@.phase is AwaitUid)
                && (f is Standard <==> final(self)@.phase is AwaitSak) && !(f is Short),
            r matches ActivationStep::Send(_) ==> spec_activation_rank(final(self)@.phase)
                < spec_activation_rank(old(self)@.phase) && final(self)@.phase != ActivationPhase::Finished,
            r matches ActivationStep::Done(a) ==> spec_activation_ok(a.atqa, a.sak, a.uid@),
    {
        let ghost m = self@;
        match self.phase {
            ActivationPhase::AwaitAtqa => match AtqA::try_from(resp) {
                Err(e) => {
                    self.phase = ActivationPhase::Finished;
                    ActivationStep::Failed(e)
                },
                Ok(a) => {
                    assert(spec_atqa_parse(resp@) == Ok::<AtqA, TypeAError>(a));
                    self.atqa = a;
                    self.phase = ActivationPhase::AwaitUid { level: 0 };
                    ActivationStep::Send(anticollision_frame(SEL_CL1))
                },
            },
            ActivationPhase::AwaitUid { level } => match anticollision_response(resp) {
                Err(e) => {
                    self.phase = ActivationPhase::Finished;
                    ActivationStep::Failed(e)
                },
                Ok(u) => {
                    self.levels.push(u);
                    self.phase = ActivationPhase::AwaitSak { level };
                    proof {
                        assert(self@.levels =~= m.levels.push(u@));
                        assert(spec_anticollision_check(u@) == Ok::<Seq<u8>, TypeAError>(u@));
                        assert forall|i: int| 0 <= i < self@.levels.len() implies spec_anticollision_check(
                            #[trigger] self@.levels[i],
                        ) == Ok::<Seq<u8>, TypeAError>(self@.levels[i]) by {
                            if i < m.levels.len() {
                                assert(self@.levels[i] == m.levels[i]);
                            }
                        }
                    }
                    ActivationStep::Send(select_frame(sel_code(level), &u, self.hw_crc))
                },
            },
            ActivationPhase::AwaitSak { level } => match select_response(resp, self.hw_crc) {
                Err(e) => {
                    self.phase = ActivationPhase::Finished;
                    ActivationStep::Failed(e)
                },
                Ok(sak) => {
                    if sak.uid_complete {
                        self.phase = ActivationPhase::Finished;
                        let n = self.levels.len();
                        match build_activation(self.atqa, sak, self.levels.as_slice(), n) {
                            Ok(a) => {
                                proof {
                                    assert(spec_valid_levels(m.levels));
                                }
                                ActivationStep::Done(a)
                            },
                            Err(e) => ActivationStep::Failed(e),
                        }
                    } else if level < 2 {
                        self.phase = ActivationPhase::AwaitUid { level: level + 1 };
                        ActivationStep::Send(anticollision_frame(sel_code(level + 1)))
                    } else {
                        self.phase = ActivationPhase::Finished;
                        ActivationStep::Failed(TypeAError::Other)
                    }
                },
            },
            ActivationPhase::Finished => ActivationStep::Failed(TypeAError::Other),
        }
    }
}

/// The SEL code of cascade level `level` (0 to 2).
fn sel_code(level: u8) -> (r: u8)
    ensures
        r == spec_sel(level),
{
    if level == 0 {
        SEL_CL1
    } else if level == 1 {
        SEL_CL2
    } else {
        SEL_CL3
    }
}

/// Perform ISO14443-3A tag detection, anticollision, and activation.
///
/// Sends REQA, then resolves the full UID through up to 3 cascade levels
/// (supporting 4, 7, and 10-byte UIDs per ISO14443-3). Each frame sent is
/// the one that `ActivationSession` gives for the answers so far.
pub fn activate<T: PcdTransceiver>(t: &mut T) -> (r: Result<Activation, ActivationError<T::Error>>)
    ensures
        r matches Ok(a) ==> spec_activation_ok(a.atqa, a.sak, a.uid@),
{
    do_activate(t, false)
}

/// Re-activate a halted tag using WUPA.
///
/// Same as [`activate`] but sends WUPA (0x52) instead of REQA (0x26),
/// which wakes tags in the HALT state. Use after DESELECT or HLTA.
pub fn wakeup<T: PcdTransceiver>(t: &mut T) -> (r: Result<Activation, ActivationError<T::Error>>)
    ensures
        r matches Ok(a) ==> spec_activation_ok(a.atqa, a.sak, a.uid@),
{
    do_activate(t, true)
}

/// Run an activation over the transceiver: probe hardware CRC, send the
/// request (WUPA when `wake`), then send each frame that the session gives
/// for the answer received, until it ends.
fn do_activate<T: PcdTransceiver>(t: &mut T, wake: bool) -> (r: Result<
    Activation,
    ActivationError<T::Error>,
>)
    ensures
        r matches Ok(a) ==> spec_activation_ok(a.atqa, a.sak, a.uid@),
{
    let hw_crc = t.try_enable_hw_crc().is_ok();
    let (mut session, mut frame) = ActivationSession::start(wake, hw_crc);
    loop
        invariant
            spec_activation_wf(session@),
            session@.phase != ActivationPhase::Finished,
        decreases spec_activation_rank(session@.phase),
    {
        let resp = match t.transceive(&frame) {
            Ok(resp) => resp,
            Err(e) => {
                return Err(ActivationError::PcdTransceiver(e));
            },
        };
        match session.step(resp.as_slice()) {
            ActivationStep::Send(f) => {
                frame = f;
            },
            ActivationStep::Done(a) => {
                return Ok(a);
            },
            ActivationStep::Failed(e) => {
                return Err(ActivationError::Protocol(e));
            },
        }
    }
}

} // verus!
