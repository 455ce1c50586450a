//! ISO/IEC 14443 Type A.


pub mod activation;
pub mod anticol_select;
pub mod atqa;
pub mod ats;
pub mod block;
pub mod crc;
pub mod pcb;
pub mod pcd;
pub mod picc;
pub mod pps;
pub mod protocol;
pub mod rats;
pub mod sak;
pub mod vec;

pub use anticol_select::{
    spec_is_sel, spec_nvb_byte, spec_nvb_parse, spec_uid_cl_bytes, spec_uid_cl_parse, Cascade,
    NumberOfValidBits, UidCl, CASCADE_TAG,
};
pub use atqa::{spec_atqa_parse, AtqA};
pub use ats::{spec_ats_parse, Ats, AtsModel, Fsci};
pub use block::{spec_block_bytes, spec_block_bytes_without_crc, spec_block_parse, Block, BlockModel};
use crc::{append_crc_a, crc_a, crc_accepted, spec_crc_a, with_crc_a};
pub use pcb::{BlockType, Pcb};
use pps::{spec_pps1_byte, spec_pps_parse, spec_pps_resp_parse, PpsParam, PpsResp};
pub use rats::{spec_rats_byte, RatsParam};
pub use sak::{spec_sak_parse, Sak};
use vec::FrameVec;
use vstd::prelude::*;
use vstd::slice::slice_subrange;

pub use anticol_select::{SEL_CL1, SEL_CL2, SEL_CL3};
pub use ats::{Fwi, Sfgi, Ta, Tb, Tc};
pub use pcb::{PcbFlags, RBlockSubtype, SBlockSubtype};
pub use pcd::{PcdError, PcdSession};
pub use picc::{PiccConfig, PiccCore, PiccError, Uid};
pub use pps::Dxi;
pub use protocol::{Action, ProtocolHandler};
pub use rats::Fsdi;
use vstd::std_specs::convert::{TryFromSpec, TryFromSpecImpl};

verus! {

/// Errors of the Type A codecs and protocol logic.
#[derive(Debug, Clone, Copy, PartialEq, Eq)]
pub enum TypeAError {
    InvalidLength,
    UnknownOpcode(u8),
    InvalidCrc((u8, u8)),
    InvalidBcc,
    UnknownSel,
    InvalidPcb,
    BufferFull,
    Other,
}

/// Card identifier (ISO14443-4), in the range 0..=14.
#[derive(Debug, Clone, Copy, PartialEq, Eq, Structural)]
pub struct Cid(u8);

impl Cid {
    #[verifier::type_invariant]
    spec fn in_range(self) -> bool {
        self.0 <= 14
    }

    /// The identifier as a number.
    pub closed spec fn spec_value(self) -> u8 {
        self.0
    }

    /// The identifier with the given number (meaningful for numbers up to 14).
    pub closed spec fn spec_new(value: u8) -> Cid {
        Cid(value)
    }

    /// `Some` exactly when `value <= 14`.
    pub fn new(value: u8) -> (r: Option<Self>)
        ensures
            r == (if value <= 14 { Some(Cid::spec_new(value)) } else { None::<Cid> }),
    {
        if value <= 14 {
            Some(Cid(value))
        } else {
            None
        }
    }

    pub fn value(&self) -> (r: u8)
        ensures
            r == self.spec_value(),
            r <= 14,
    {
        proof {
            use_type_invariant(self);
        }
        self.0
    }
}

/// 6.1.5 Frame formats
///
/// Each variant carries the data to be transmitted.
#[derive(Debug)]
pub enum Frame {
    /// Short frame: 7 significant bits, no CRC (REQA, WUPA).
    Short(FrameVec),
    /// Standard frame: full bytes with CRC (SELECT, RATS, HLTA, blocks).
    Standard(FrameVec),
    /// Bit-oriented frame: full bytes, no CRC (anticollision).
    BitOriented(FrameVec),
}

impl Frame {
    /// The bytes of the frame.
    pub open spec fn spec_data(&self) -> Seq<u8> {
        match self {
            Frame::Short(d) => d@,
            Frame::Standard(d) => d@,
            Frame::BitOriented(d) => d@,
        }
    }

    /// Borrow the frame data.
    pub fn data(&self) -> (r: &[u8])
        ensures
            r@ == self.spec_data(),
    {
        match self {
            Frame::Short(d) => d.as_slice(),
            Frame::Standard(d) => d.as_slice(),
            Frame::BitOriented(d) => d.as_slice(),
        }
    }
}

#[derive(Debug)]
pub enum Answer {
    AtqA(AtqA),
    UidCl(UidCl),
    Sak(Sak),
    Ats(Ats),
    Pps(PpsResp),
    Block(Block),
}

/// The content of an answer.
pub enum AnswerModel {
    AtqA(AtqA),
    UidCl(UidCl),
    Sak(Sak),
    Ats(AtsModel),
    Pps(PpsResp),
    Block(BlockModel),
}

impl View for Answer {
    type V = AnswerModel;

    open spec fn view(&self) -> AnswerModel {
        match self {
            Answer::AtqA(a) => AnswerModel::AtqA(*a),
            Answer::UidCl(u) => AnswerModel::UidCl(*u),
            Answer::Sak(s) => AnswerModel::Sak(*s),
            Answer::Ats(a) => AnswerModel::Ats(a@),
            Answer::Pps(p) => AnswerModel::Pps(*p),
            Answer::Block(b) => AnswerModel::Block(b@),
        }
    }
}

#[derive(Debug)]
pub enum Command {
    ReqA,
    WupA,
    AntiCollision((Cascade, NumberOfValidBits)),
    Select(Cascade),
    HltA,
    Rats(RatsParam),
    Pps(PpsParam),
    IBlock(Block),
    RBlock(Block),
    SBlock(Block),
}

/// The content of a command.
pub enum CommandModel {
    ReqA,
    WupA,
    AntiCollision((Cascade, NumberOfValidBits)),
    Select(Cascade),
    HltA,
    Rats(RatsParam),
    Pps(PpsParam),
    IBlock(BlockModel),
    RBlock(BlockModel),
    SBlock(BlockModel),
}

impl View for Command {
    type V = CommandModel;

    open spec fn view(&self) -> CommandModel {
        match self {
            Command::ReqA => CommandModel::ReqA,
            Command::WupA => CommandModel::WupA,
            Command::AntiCollision(x) => CommandModel::AntiCollision(*x),
            Command::Select(c) => CommandModel::Select(*c),
            Command::HltA => CommandModel::HltA,
            Command::Rats(p) => CommandModel::Rats(*p),
            Command::Pps(p) => CommandModel::Pps(*p),
            Command::IBlock(b) => CommandModel::IBlock(b@),
            Command::RBlock(b) => CommandModel::RBlock(b@),
            Command::SBlock(b) => CommandModel::SBlock(b@),
        }
    }
}

/// Trait for ISO14443 Type A PCD (reader) transceiver hardware.
///
/// Implementors handle the physical layer and translate
/// the ISO14443 frame types into hardware-specific commands.
pub trait PcdTransceiver {
    type Error;

    /// Send data using the specified frame format, return protocol response
    /// bytes. Hardware-specific metadata must be stripped by the
    /// implementation.
    fn transceive(&mut self, frame: &Frame) -> Result<FrameVec, Self::Error>;

    /// Probe for hardware-accelerated CRC_A support and enable it.
    ///
    /// - `Ok(())`: the chip handles CRC_A in hardware. From this point on,
    ///   callers send frame data **without** CRC_A — the transceiver appends
    ///   it on TX and validates/strips it on RX.
    /// - `Err(_)`: the chip does not support hardware CRC. Callers must
    ///   compute and append CRC_A in software and validate it on received
    ///   frames.
    fn try_enable_hw_crc(&mut self) -> Result<(), Self::Error>;
}

/// Trait for ISO14443 Type A PICC (card emulation) transceiver hardware.
pub trait PiccTransceiver {
    type Error;

    /// Wait for the next frame from the PCD and return its bytes.
    fn receive(&mut self) -> Result<FrameVec, Self::Error>;

    /// Send a frame to the PCD.
    fn send(&mut self, frame: &Frame) -> Result<(), Self::Error>;

    /// Probe for hardware-accelerated CRC_A support and enable it (see
    /// [`PcdTransceiver::try_enable_hw_crc`]).
    fn try_enable_hw_crc(&mut self) -> Result<(), Self::Error>;
}

/// REQA and WUPA short-frame codes.
pub const REQA: u8 = 0x26;

pub const WUPA: u8 = 0x52;

/// The bytes of a command on the wire. Standard frames end with a CRC_A
/// computed in software; a block command sends the block's bytes without
/// CRC followed by their CRC_A.
pub open spec fn spec_command_bytes(c: CommandModel) -> Seq<u8> {
    match c {
        CommandModel::ReqA => seq![REQA],
        CommandModel::WupA => seq![WUPA],
        CommandModel::AntiCollision((cascade, nvb)) => cascade.spec_raw(spec_nvb_byte(nvb)),
        CommandModel::Select(cascade) => with_crc_a(cascade.spec_raw(0x70)),
        CommandModel::HltA => with_crc_a(seq![0x50u8, 0x00u8]),
        CommandModel::Rats(p) => with_crc_a(seq![0xe0u8, spec_rats_byte(p.spec_fsdi(), p.spec_cid())]),
        CommandModel::Pps(p) => with_crc_a(
            seq![(0xd0 + p.cid.spec_value()) as u8, 0x11u8, spec_pps1_byte(p)],
        ),
        CommandModel::IBlock(b) => with_crc_a(spec_block_bytes_without_crc(b)),
        CommandModel::RBlock(b) => with_crc_a(spec_block_bytes_without_crc(b)),
        CommandModel::SBlock(b) => with_crc_a(spec_block_bytes_without_crc(b)),
    }
}

/// The result of parsing the bytes of a command.
pub open spec fn spec_command_parse(v: Seq<u8>) -> Result<CommandModel, TypeAError> {
    if v.len() == 1 && v[0] == REQA {
        Ok(CommandModel::ReqA)
    } else if v.len() == 1 && v[0] == WUPA {
        Ok(CommandModel::WupA)
    } else if v.len() == 4 && v[0] == 0x50 && v[1] == 0x00 {
        if crc_accepted(v.take(2), (v[2], v[3])) {
            Ok(CommandModel::HltA)
        } else {
            Err(TypeAError::InvalidCrc(spec_crc_a(v.take(2))))
        }
    } else if v.len() == 4 && v[0] == 0xe0 {
        if crc_accepted(v.take(2), (v[2], v[3])) {
            match <RatsParam as TryFromSpec<u8>>::try_from_spec(v[1]) {
                Ok(p) => Ok(CommandModel::Rats(p)),
                Err(e) => Err(e),
            }
        } else {
            Err(TypeAError::InvalidCrc(spec_crc_a(v.take(2))))
        }
    } else if v.len() == 2 && spec_is_sel(v[0]) {
        match spec_nvb_parse(v[1]) {
            Ok(nvb) => Ok(
                CommandModel::AntiCollision(
                    (Cascade::spec_with_sel(v[0], UidCl::Final(0, 0, 0, 0)), nvb),
                ),
            ),
            Err(e) => Err(e),
        }
    } else if v.len() == 9 && spec_is_sel(v[0]) {
        if crc_accepted(v.take(7), (v[7], v[8])) {
            match spec_uid_cl_parse(v.subrange(2, 7)) {
                Err(_) => Err(TypeAError::UnknownOpcode(v[0])),
                Ok(u) => match spec_nvb_parse(v[1]) {
                    Err(e) => Err(e),
                    Ok(nvb) => if nvb.spec_byte_cnt() == 7 && nvb.spec_bit_cnt() == 0 {
                        Ok(CommandModel::Select(Cascade::spec_with_sel(v[0], u)))
                    } else {
                        Ok(CommandModel::AntiCollision((Cascade::spec_with_sel(v[0], u), nvb)))
                    },
                },
            }
        } else {
            Err(TypeAError::InvalidCrc(spec_crc_a(v.take(7))))
        }
    } else if v.len() == 0 {
        Err(TypeAError::InvalidLength)
    } else if v[0] & 0xF0 == 0xD0 {
        match spec_pps_parse(v) {
            Ok(p) => Ok(CommandModel::Pps(p)),
            Err(e) => Err(e),
        }
    } else {
        match spec_block_parse(v) {
            Ok(b) => Ok(
                match b.pcb.block_type {
                    BlockType::IBlock => CommandModel::IBlock(b),
                    BlockType::RBlock => CommandModel::RBlock(b),
                    BlockType::SBlock => CommandModel::SBlock(b),
                },
            ),
            Err(_) => Err(TypeAError::UnknownOpcode(v[0])),
        }
    }
}

/// The result of parsing the answer `raw` to a command (other than HLTA,
/// which is not answered).
pub open spec fn spec_answer_parse(c: CommandModel, raw: Seq<u8>) -> Result<AnswerModel, TypeAError> {
    match c {
        CommandModel::ReqA | CommandModel::WupA => match spec_atqa_parse(raw) {
            Ok(a) => Ok(AnswerModel::AtqA(a)),
            Err(e) => Err(e),
        },
        CommandModel::AntiCollision(_) => if raw.len() == 5 {
            match spec_uid_cl_parse(raw) {
                Ok(u) => Ok(AnswerModel::UidCl(u)),
                Err(e) => Err(e),
            }
        } else {
            Err(TypeAError::InvalidLength)
        },
        CommandModel::Select(_) => match spec_sak_parse(raw) {
            Ok(s) => Ok(AnswerModel::Sak(s)),
            Err(e) => Err(e),
        },
        CommandModel::Rats(_) => match spec_ats_parse(raw) {
            Ok(a) => Ok(AnswerModel::Ats(a)),
            Err(e) => Err(e),
        },
        CommandModel::Pps(_) => match spec_pps_resp_parse(raw) {
            Ok(p) => Ok(AnswerModel::Pps(p)),
            Err(e) => Err(e),
        },
        _ => match spec_block_parse(raw) {
            Ok(b) => Ok(AnswerModel::Block(b)),
            Err(e) => Err(e),
        },
    }
}

impl Command {
    /// Build a [`Frame`] with the command data and correct frame format.
    ///
    /// Standard frames include CRC_A computed in software.
    pub fn to_frame(&self) -> (r: Result<Frame, TypeAError>)
        ensures
            r matches Ok(f) && f.spec_data() == spec_command_bytes(self@) && match self {
                Command::ReqA | Command::WupA => f is Short,
                Command::AntiCollision(_) => f is BitOriented,
                _ => f is Standard,
            },
    {
        let v = match self.to_vec() {
            Ok(v) => v,
            Err(e) => {
                return Err(e);
            },
        };
        match self {
            Command::ReqA | Command::WupA => Ok(Frame::Short(v)),
            Command::AntiCollision(_) => Ok(Frame::BitOriented(v)),
            _ => Ok(Frame::Standard(v)),
        }
    }

    /// The bytes of the command on the wire.
    pub fn to_vec(&self) -> (r: Result<FrameVec, TypeAError>)
        ensures
            r matches Ok(v) && v@ == spec_command_bytes(self@),
    {
        match self {
            Command::ReqA => {
                let mut v: Vec<u8> = Vec::new();
                v.push(0x26);
                Ok(v)
            },
            Command::WupA => {
                let mut v: Vec<u8> = Vec::new();
                v.push(0x52);
                Ok(v)
            },
            Command::AntiCollision((cascade, nvb)) => cascade.raw(u8::from(nvb)),
            Command::Select(cascade) => match cascade.raw(0x70) {
                Ok(raw) => Ok(append_crc_a(raw.as_slice())),
                Err(e) => Err(e),
            },
            Command::HltA => {
                let d: [u8; 2] = [0x50, 0x00];
                let r = append_crc_a(&d);
                assert(d@ =~= seq![0x50u8, 0x00u8]);
                Ok(r)
            },
            Command::Rats(param) => {
                let d: [u8; 2] = [0xe0, u8::from(param)];
                let r = append_crc_a(&d);
                assert(d@ =~= seq![0xe0u8, spec_rats_byte(param.spec_fsdi(), param.spec_cid())]);
                Ok(r)
            },
            Command::Pps(param) => {
                let c = param.cid.value();
                let d: [u8; 3] = [0xd0 + c, 0x11, u8::from(param)];
                let r = append_crc_a(&d);
                assert(d@ =~= seq![(0xd0 + param.cid.spec_value()) as u8, 0x11u8, spec_pps1_byte(*param)]);
                Ok(r)
            },
            Command::IBlock(block) | Command::RBlock(block) | Command::SBlock(block) => {
                match block.to_bytes_without_crc() {
                    Ok(b) => Ok(append_crc_a(b.as_slice())),
                    Err(e) => Err(e),
                }
            },
        }
    }

    /// Parse the answer `raw` to this command. HLTA is not answered, so it
    /// has no answer to parse.
    pub fn parse_answer(&self, raw: &[u8]) -> (r: Result<Answer, TypeAError>)
        requires
            !(self is HltA),
        ensures
            match r {
                Ok(a) => spec_answer_parse(self@, raw@) == Ok::<AnswerModel, TypeAError>(a@),
                Err(e) => spec_answer_parse(self@, raw@) == Err::<AnswerModel, TypeAError>(e),
            },
    {
        match self {
            Command::ReqA | Command::WupA => match AtqA::try_from(raw) {
                Ok(a) => Ok(Answer::AtqA(a)),
                Err(e) => Err(e),
            },
            Command::AntiCollision(_) => match UidCl::try_from(raw) {
                Ok(u) => Ok(Answer::UidCl(u)),
                Err(e) => Err(e),
            },
            Command::Select(_) => match Sak::try_from(raw) {
                Ok(s) => Ok(Answer::Sak(s)),
                Err(e) => Err(e),
            },
            Command::Rats(_) => match Ats::try_from(raw) {
                Ok(a) => Ok(Answer::Ats(a)),
                Err(e) => Err(e),
            },
            Command::Pps(_) => match PpsResp::try_from(raw) {
                Ok(p) => Ok(Answer::Pps(p)),
                Err(e) => Err(e),
            },
            _ => match Block::try_from(raw) {
                Ok(b) => Ok(Answer::Block(b)),
                Err(e) => Err(e),
            },
        }
    }
}

impl TryFromSpecImpl<&[u8]> for Command {
    /// A command can hold a `Vec`, which no spec function builds: what
    /// parsing gives is stated over the view of the command, by
    /// `spec_command_parse` in the `ensures` of `try_from`, not by this trait.
    open spec fn obeys_try_from_spec() -> bool {
        false
    }

    open spec fn try_from_spec(value: &[u8]) -> Result<Self, TypeAError> {
        arbitrary()
    }
}

impl TryFrom<&[u8]> for Command {
    type Error = TypeAError;

    fn try_from(value: &[u8]) -> (r: Result<Self, TypeAError>)
        ensures
            match r {
                Ok(c) => spec_command_parse(value@) == Ok::<CommandModel, TypeAError>(c@),
                Err(e) => spec_command_parse(value@) == Err::<CommandModel, TypeAError>(e),
            },
    {
        let n = value.len();
        if n == 1 && value[0] == 0x26 {
            return Ok(Command::ReqA);
        }
        if n == 1 && value[0] == 0x52 {
            return Ok(Command::WupA);
        }
        if n == 4 && value[0] == 0x50 && value[1] == 0x00 {
            let head = slice_subrange(value, 0, 2);
            let good = crc_a(head);
            assert(head@ =~= value@.take(2));
            let (crc1, crc2) = (value[2], value[3]);
            return if (good.0 == crc1 && good.1 == crc2) || (crc1 == 0 && crc2 == 0) {
                Ok(Command::HltA)
            } else {
                Err(TypeAError::InvalidCrc(good))
            };
        }
        if n == 4 && value[0] == 0xe0 {
            let head = slice_subrange(value, 0, 2);
            let good = crc_a(head);
            assert(head@ =~= value@.take(2));
            let (crc1, crc2) = (value[2], value[3]);
            return if (good.0 == crc1 && good.1 == crc2) || (crc1 == 0 && crc2 == 0) {
                match RatsParam::try_from(value[1]) {
                    Ok(p) => Ok(Command::Rats(p)),
                    Err(e) => Err(e),
                }
            } else {
                Err(TypeAError::InvalidCrc(good))
            };
        }
        if n == 2 && Cascade::check_sel(value[0]) {
            let sel = value[0];
            let zeros: [u8; 5] = [0, 0, 0, 0, 0];
            assert(0u8 ^ 0u8 ^ 0u8 ^ 0u8 ^ 0u8 == 0u8) by (bit_vector);
            let cascade = match Cascade::try_from(sel, &zeros) {
                Ok(c) => c,
                Err(_) => {
                    return Err(TypeAError::UnknownOpcode(sel));
                },
            };
            return match NumberOfValidBits::try_from(value[1]) {
                Ok(nvb) => Ok(Command::AntiCollision((cascade, nvb))),
                Err(e) => Err(e),
            };
        }
        if n == 9 && Cascade::check_sel(value[0]) {
            let sel = value[0];
            let head = slice_subrange(value, 0, 7);
            let good = crc_a(head);
            assert(head@ =~= value@.take(7));
            let (crc1, crc2) = (value[7], value[8]);
            if (good.0 == crc1 && good.1 == crc2) || (crc1 == 0 && crc2 == 0) {
                let uid: [u8; 5] = [value[2], value[3], value[4], value[5], value[6]];
                assert(uid@ =~= value@.subrange(2, 7));
                let cascade = match Cascade::try_from(sel, &uid) {
                    Ok(c) => c,
                    Err(_) => {
                        return Err(TypeAError::UnknownOpcode(sel));
                    },
                };
                let nvb = match NumberOfValidBits::try_from(value[1]) {
                    Ok(nvb) => nvb,
                    Err(e) => {
                        return Err(e);
                    },
                };
                return if nvb.has_40_data_bits() {
                    Ok(Command::Select(cascade))
                } else {
                    Ok(Command::AntiCollision((cascade, nvb)))
                };
            } else {
                return Err(TypeAError::InvalidCrc(good));
            }
        }
        if n == 0 {
            Err(TypeAError::InvalidLength)
        } else if value[0] & 0xF0 == 0xD0 {
            match PpsParam::try_from(value) {
                Ok(p) => Ok(Command::Pps(p)),
                Err(e) => Err(e),
            }
        } else {
            // Try to parse as a block
            match Block::try_from(value) {
                Ok(block) => match block.block_type() {
                    BlockType::IBlock => Ok(Command::IBlock(block)),
                    BlockType::RBlock => Ok(Command::RBlock(block)),
                    BlockType::SBlock => Ok(Command::SBlock(block)),
                },
                Err(_) => Err(TypeAError::UnknownOpcode(value[0])),
            }
        }
    }
}

/// The number of the identifier made from a number is that number.
pub broadcast proof fn lemma_cid_new_value(value: u8)
    ensures
        #[trigger] Cid::spec_new(value).spec_value() == value,
{
}

/// An identifier is the one made from its number.
pub broadcast proof fn lemma_cid_from_value(c: Cid)
    ensures
        Cid::spec_new(#[trigger] c.spec_value()) == c,
{
}

/// What the reader sends for REQA, WUPA, HLTA, RATS, PPS or SELECT, the
/// card parses back to the same command (a SELECT of a final level whose
/// first byte is the cascade tag reads as a level with more to follow).
pub proof fn lemma_command_roundtrip(c: CommandModel)
    requires
        c is ReqA || c is WupA || c is HltA || c is Rats || c is Pps || c is Select,
        c matches CommandModel::Rats(p) ==> p.spec_cid().spec_value() <= 14,
        c matches CommandModel::Pps(p) ==> p.cid.spec_value() <= 14,
        c matches CommandModel::Select(cas) ==> !(cas.spec_uid_cl() matches UidCl::Final(a, _, _, _)
            && a == CASCADE_TAG),
    ensures
        spec_command_parse(spec_command_bytes(c)) == Ok::<CommandModel, TypeAError>(c),
{
    let v = spec_command_bytes(c);
    match c {
        CommandModel::HltA => {
            assert(v.take(2) =~= seq![0x50u8, 0x00u8]);
        },
        CommandModel::Rats(p) => {
            assert(v.take(2) =~= seq![0xe0u8, spec_rats_byte(p.spec_fsdi(), p.spec_cid())]);
            rats::lemma_rats_param_roundtrip(p);
        },
        CommandModel::Select(cas) => {
            let body = cas.spec_raw(0x70);
            assert(v.take(7) =~= body);
            assert(v.subrange(2, 7) =~= spec_uid_cl_bytes(cas.spec_uid_cl()));
            anticol_select::lemma_uid_cl_roundtrip(cas.spec_uid_cl());
            anticol_select::lemma_select_nvb();
            assert(Cascade::spec_with_sel(v[0], cas.spec_uid_cl()) == cas);
        },
        CommandModel::Pps(p) => {
            let body = seq![(0xd0 + p.cid.spec_value()) as u8, 0x11u8, spec_pps1_byte(p)];
            pps::lemma_pps_request_roundtrip(p, spec_crc_a(body));
            assert(v =~= body + seq![spec_crc_a(body).0, spec_crc_a(body).1]);
            assert(v =~= seq![body[0], body[1], body[2], spec_crc_a(body).0, spec_crc_a(body).1]);
            broadcast use group_cid;
        },
        _ => {},
    }
}

pub broadcast group group_cid {
    lemma_cid_new_value,
    lemma_cid_from_value,
}

} // verus!
