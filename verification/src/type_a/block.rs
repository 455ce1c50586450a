//! ISO14443-4 7.1: block format.

use super::crc::{crc_a, crc_accepted, extend_bytes, spec_crc_a, with_crc_a};
use super::pcb::{lemma_pcb_byte_following, lemma_pcb_parse_serialize, spec_pcb_byte, spec_pcb_parse, BlockType, Pcb, PcbFlags};
use super::vec::FrameVec;
use super::{Cid, TypeAError};
use vstd::prelude::*;
use vstd::slice::slice_subrange;
use vstd::std_specs::convert::TryFromSpecImpl;

verus! {

broadcast use super::pcb::group_block_number, super::group_cid;

#[derive(Debug, PartialEq, Eq)]
pub struct Block {
    pub pcb: Pcb,
    pub cid: Option<Cid>,
    pub nad: Option<u8>,
    pub payload: FrameVec,
    pub crc: (u8, u8),
}

impl Clone for Block {
    fn clone(&self) -> (r: Self)
        ensures
            r@ == self@,
    {
        Block {
            pcb: self.pcb,
            cid: self.cid,
            nad: self.nad,
            payload: self.payload.clone(),
            crc: (self.crc.0, self.crc.1),
        }
    }
}

/// The content of a block, with its payload as a sequence.
pub struct BlockModel {
    pub pcb: Pcb,
    pub cid: Option<Cid>,
    pub nad: Option<u8>,
    pub payload: Seq<u8>,
    pub crc: (u8, u8),
}

impl View for Block {
    type V = BlockModel;

    open spec fn view(&self) -> BlockModel {
        BlockModel {
            pcb: self.pcb,
            cid: self.cid,
            nad: self.nad,
            payload: self.payload@,
            crc: self.crc,
        }
    }
}

/// The PCB of a block as sent: its CID and NAD following bits set exactly
/// when the block carries a CID and a NAD.
pub open spec fn spec_sent_pcb(b: BlockModel) -> Pcb {
    Pcb {
        flags: PcbFlags(
            if b.nad is Some {
                (if b.cid is Some {
                    b.pcb.flags.0 | PcbFlags::CID_FOLLOWING
                } else {
                    b.pcb.flags.0 & !PcbFlags::CID_FOLLOWING
                }) | PcbFlags::NAD_FOLLOWING
            } else {
                (if b.cid is Some {
                    b.pcb.flags.0 | PcbFlags::CID_FOLLOWING
                } else {
                    b.pcb.flags.0 & !PcbFlags::CID_FOLLOWING
                }) & !PcbFlags::NAD_FOLLOWING
            },
        ),
        ..b.pcb
    }
}

/// The prologue and information field of a block: PCB, optional CID,
/// optional NAD, payload.
pub open spec fn spec_block_bytes_without_crc(b: BlockModel) -> Seq<u8> {
    seq![spec_pcb_byte(spec_sent_pcb(b))] + (match b.cid {
        Some(c) => seq![c.spec_value()],
        None => Seq::<u8>::empty(),
    }) + (match b.nad {
        Some(n) => seq![n],
        None => Seq::<u8>::empty(),
    }) + b.payload
}

/// The whole block on the wire: prologue, information field, then the
/// two bytes of its `crc` field.
pub open spec fn spec_block_bytes(b: BlockModel) -> Seq<u8> {
    spec_block_bytes_without_crc(b) + seq![b.crc.0, b.crc.1]
}

/// The result of parsing a block frame.
pub open spec fn spec_block_parse(d: Seq<u8>) -> Result<BlockModel, TypeAError> {
    if d.len() < 3 {
        Err(TypeAError::InvalidLength)
    } else {
        match spec_pcb_parse(d[0]) {
            Err(e) => Err(e),
            Ok(pcb) => {
                let cidf = pcb.flags.0 & 0x08 == 0x08;
                let nadf = pcb.flags.0 & 0x04 == 0x04;
                let off1: int = if cidf {
                    2
                } else {
                    1
                };
                if cidf && d[1] & 0x0f > 14 {
                    Err(TypeAError::UnknownOpcode(d[1]))
                } else if nadf && pcb.block_type != BlockType::IBlock {
                    Err(TypeAError::Other)
                } else if nadf && !cidf {
                    Err(TypeAError::Other)
                } else if nadf && off1 >= d.len() {
                    Err(TypeAError::InvalidLength)
                } else {
                    let off2: int = if nadf {
                        off1 + 1
                    } else {
                        off1
                    };
                    if d.len() - off2 < 2 {
                        Err(TypeAError::InvalidLength)
                    } else {
                        let m = BlockModel {
                            pcb,
                            cid: if cidf {
                                Some(Cid::spec_new(d[1] & 0x0f))
                            } else {
                                None
                            },
                            nad: if nadf {
                                Some(d[off1])
                            } else {
                                None
                            },
                            payload: d.subrange(off2, d.len() - 2),
                            crc: (d[d.len() - 2], d[d.len() - 1]),
                        };
                        let body = spec_block_bytes_without_crc(m);
                        if crc_accepted(body, m.crc) {
                            Ok(m)
                        } else {
                            Err(TypeAError::InvalidCrc(spec_crc_a(body)))
                        }
                    }
                }
            },
        }
    }
}

impl Block {
    pub fn new(pcb: Pcb) -> (r: Self)
        ensures
            r@ == (BlockModel { pcb, cid: None, nad: None, payload: Seq::empty(), crc: (0, 0) }),
    {
        Self { pcb, cid: None, nad: None, payload: Vec::new(), crc: (0, 0) }
    }

    pub fn with_cid(self, cid: Cid) -> (r: Self)
        ensures
            r@ == (BlockModel { cid: Some(cid), ..self@ }),
    {
        let mut s = self;
        s.cid = Some(cid);
        s
    }

    pub fn with_nad(self, nad: u8) -> (r: Self)
        ensures
            r@ == (BlockModel { nad: Some(nad), ..self@ }),
    {
        let mut s = self;
        s.nad = Some(nad);
        s
    }

    pub fn with_payload(self, payload: FrameVec) -> (r: Self)
        ensures
            r@ == (BlockModel { payload: payload@, ..self@ }),
    {
        let mut s = self;
        s.payload = payload;
        s
    }

    pub fn with_crc(self, crc: (u8, u8)) -> (r: Self)
        ensures
            r@ == (BlockModel { crc, ..self@ }),
    {
        let mut s = self;
        s.crc = crc;
        s
    }

    pub fn is_chaining(&self) -> (r: bool)
        ensures
            r == self.pcb.chaining,
    {
        self.pcb.is_chaining()
    }

    pub fn block_number(&self) -> (r: u8)
        ensures
            r == self.pcb.block_number.spec_get(),
    {
        self.pcb.block_number()
    }

    pub fn block_type(&self) -> (r: BlockType)
        ensures
            r == self.pcb.block_type,
    {
        self.pcb.block_type
    }

    /// Serialize the block prologue (PCB + optional CID/NAD) and payload,
    /// without CRC bytes. Use this when the transceiver handles CRC in
    /// hardware, or to compute software CRC over the correct data.
    pub fn to_bytes_without_crc(&self) -> (r: Result<FrameVec, TypeAError>)
        ensures
            r matches Ok(v) && v@ == spec_block_bytes_without_crc(self@),
    {
        let mut bytes: Vec<u8> = Vec::new();
        let pcb = self.pcb.with_cid_following(self.cid.is_some());
        let pcb = pcb.with_nad_following(self.nad.is_some());
        assert(pcb == spec_sent_pcb(self@));
        bytes.push(u8::from(pcb));
        if let Some(cid) = &self.cid {
            bytes.push(cid.value());
        }
        if let Some(nad) = self.nad {
            bytes.push(nad);
        }
        extend_bytes(&mut bytes, self.payload.as_slice());
        assert(bytes@ =~= spec_block_bytes_without_crc(self@));
        Ok(bytes)
    }

    pub fn to_vec(&self) -> (r: Result<FrameVec, TypeAError>)
        ensures
            r matches Ok(v) && v@ == spec_block_bytes(self@),
    {
        let mut bytes = match self.to_bytes_without_crc() {
            Ok(b) => b,
            Err(e) => {
                return Err(e);
            },
        };
        bytes.push(self.crc.0);
        bytes.push(self.crc.1);
        assert(bytes@ =~= spec_block_bytes(self@));
        Ok(bytes)
    }

    /// The CRC_A of the block's prologue and information field.
    pub fn calculate_crc(&self) -> (r: Result<(u8, u8), TypeAError>)
        ensures
            r == Ok::<(u8, u8), TypeAError>(spec_crc_a(spec_block_bytes_without_crc(self@))),
    {
        let data = match self.to_vec() {
            Ok(d) => d,
            Err(e) => {
                return Err(e);
            },
        };
        let body = slice_subrange(data.as_slice(), 0, data.len() - 2);
        assert(body@ =~= spec_block_bytes_without_crc(self@));
        Ok(crc_a(body))
    }

    /// Whether the `crc` field is the CRC_A of the block, or `(0, 0)`.
    pub fn validate_crc(&self) -> (r: Result<bool, TypeAError>)
        ensures
            r == Ok::<bool, TypeAError>(crc_accepted(spec_block_bytes_without_crc(self@), self.crc)),
    {
        let calculated = match self.calculate_crc() {
            Ok(c) => c,
            Err(e) => {
                return Err(e);
            },
        };
        Ok((calculated.0 == self.crc.0 && calculated.1 == self.crc.1) || (self.crc.0 == 0
            && self.crc.1 == 0))
    }
}

impl TryFromSpecImpl<&[u8]> for Block {
    /// A block holds a `Vec`, which no spec function builds: what parsing
    /// gives is stated over the view of the block, by `spec_block_parse`
    /// in the `ensures` of `try_from`, not by this trait.
    open spec fn obeys_try_from_spec() -> bool {
        false
    }

    open spec fn try_from_spec(data: &[u8]) -> Result<Self, TypeAError> {
        arbitrary()
    }
}

impl TryFrom<&[u8]> for Block {
    type Error = TypeAError;

    fn try_from(data: &[u8]) -> (r: Result<Self, TypeAError>)
        ensures
            match r {
                Ok(b) => spec_block_parse(data@) == Ok::<BlockModel, TypeAError>(b@),
                Err(e) => spec_block_parse(data@) == Err::<BlockModel, TypeAError>(e),
            },
    {
        if data.len() < 3 {
            return Err(TypeAError::InvalidLength);
        }
        let mut offset: usize = 0;

        // Parse PCB
        let pcb = match Pcb::try_from(data[offset]) {
            Ok(p) => p,
            Err(e) => {
                return Err(e);
            },
        };
        offset = offset + 1;

        // Parse optional CID - only present if PCB indicates CID following
        let mut cid: Option<Cid> = None;
        if pcb.cid_following() {
            if offset < data.len() {
                let cid_value = data[offset] & 0x0F;
                if cid_value <= 14 {
                    cid = Cid::new(cid_value);
                    offset = offset + 1;
                } else {
                    return Err(TypeAError::UnknownOpcode(data[offset]));
                }
            } else {
                return Err(TypeAError::InvalidLength);
            }
        }
        // Parse optional NAD - only present for I-blocks when PCB indicates NAD following
        let mut nad: Option<u8> = None;
        if pcb.nad_following() {
            // NAD should only be present for I-blocks and only when CID is present
            if pcb.block_type() != BlockType::IBlock {
                return Err(TypeAError::Other);
            }
            if cid.is_none() {
                return Err(TypeAError::Other);
            }
            if offset < data.len() {
                nad = Some(data[offset]);
                offset = offset + 1;
            } else {
                return Err(TypeAError::InvalidLength);
            }
        }
        // Extract payload and CRC

        let remaining_len = data.len() - offset;
        if remaining_len < 2 {
            return Err(TypeAError::InvalidLength);
        }
        let payload_end = data.len() - 2;
        let mut payload: Vec<u8> = Vec::new();
        extend_bytes(&mut payload, slice_subrange(data, offset, payload_end));
        let crc = (data[payload_end], data[payload_end + 1]);

        let block = Self { pcb, cid, nad, payload, crc };
        proof {
            assert(block@.payload =~= data@.subrange(offset as int, data.len() - 2));
        }
        // Validate CRC
        let valid = match block.validate_crc() {
            Ok(v) => v,
            Err(e) => {
                return Err(e);
            },
        };
        if !valid {
            return match block.calculate_crc() {
                Ok(c) => Err(TypeAError::InvalidCrc(c)),
                Err(e) => Err(e),
            };
        }
        Ok(block)
    }
}

/// A block frame that parses is the frame of the block it parses to, when
/// its CID byte (if any) holds nothing but the CID: serializing a parsed
/// block gives back the frame.
pub proof fn lemma_block_parse_serialize(d: Seq<u8>)
    requires
        spec_block_parse(d) is Ok,
        spec_block_parse(d)->Ok_0.cid is Some ==> d[1] <= 0x0f,
    ensures
        spec_block_bytes(spec_block_parse(d)->Ok_0) == d,
{
    let m = spec_block_parse(d)->Ok_0;
    let pcb = spec_pcb_parse(d[0])->Ok_0;
    lemma_pcb_parse_serialize(d[0]);
    let f = pcb.flags.0;
    assert((f & 0x08 == 0x08 ==> f | 0x08 == f) && (f & 0x08 != 0x08 ==> f & !0x08u8 == f)
        && (f & 0x04 == 0x04 ==> f | 0x04 == f) && (f & 0x04 != 0x04 ==> f & !0x04u8 == f))
        by (bit_vector);
    assert(spec_sent_pcb(m) == pcb);
    if m.cid is Some {
        let c = d[1];
        assert(c <= 0x0f ==> c & 0x0f == c) by (bit_vector);
    }
    assert(spec_block_bytes(m) =~= d);
}

proof fn lemma_sent_flags(f: u8, cid: bool, nad: bool)
    ensures
        ({
            let g: u8 = if nad {
                (if cid {
                    f | 0x08
                } else {
                    f & !0x08u8
                }) | 0x04
            } else {
                (if cid {
                    f | 0x08
                } else {
                    f & !0x08u8
                }) & !0x04u8
            };
            &&& (g & 0x08 == 0x08) == cid
            &&& (g & 0x04 == 0x04) == nad
            &&& (if nad {
                (if cid {
                    g | 0x08
                } else {
                    g & !0x08u8
                }) | 0x04
            } else {
                (if cid {
                    g | 0x08
                } else {
                    g & !0x08u8
                }) & !0x04u8
            }) == g
        }),
{
    assert(((f | 0x08) | 0x04) & 0x08 == 0x08 && ((f | 0x08) | 0x04) & 0x04 == 0x04
        && (((f | 0x08) | 0x04) | 0x08) | 0x04 == (f | 0x08) | 0x04
        && ((f & !0x08u8) | 0x04) & 0x08 != 0x08 && ((f & !0x08u8) | 0x04) & 0x04 == 0x04
        && ((((f & !0x08u8) | 0x04) & !0x08u8) | 0x04) == (f & !0x08u8) | 0x04
        && ((f | 0x08) & !0x04u8) & 0x08 == 0x08 && ((f | 0x08) & !0x04u8) & 0x04 != 0x04
        && ((((f | 0x08) & !0x04u8) | 0x08) & !0x04u8) == (f | 0x08) & !0x04u8
        && ((f & !0x08u8) & !0x04u8) & 0x08 != 0x08 && ((f & !0x08u8) & !0x04u8) & 0x04 != 0x04
        && ((((f & !0x08u8) & !0x04u8) & !0x08u8) & !0x04u8) == (f & !0x08u8) & !0x04u8)
        by (bit_vector);
}

/// A block whose PCB as sent parses, and that carries a NAD only as an
/// I-block with a CID, is parsed from its bytes followed by any CRC pair
/// accepted for them (their CRC_A, or `(0, 0)` for a CRC that the hardware
/// checked) as the same block, with the PCB that its PCB byte parses to
/// and that CRC pair.
pub proof fn lemma_block_serialize_parse_crc(m: BlockModel, crc: (u8, u8))
    requires
        m.nad is Some ==> m.cid is Some && m.pcb.block_type == BlockType::IBlock,
        m.cid matches Some(c) ==> c.spec_value() <= 14,
        spec_pcb_parse(spec_pcb_byte(spec_sent_pcb(m))) is Ok,
        crc_accepted(spec_block_bytes_without_crc(m), crc),
    ensures
        spec_block_parse(spec_block_bytes_without_crc(m) + seq![crc.0, crc.1]) == Ok::<
            BlockModel,
            TypeAError,
        >(BlockModel { pcb: spec_pcb_parse(spec_pcb_byte(spec_sent_pcb(m)))->Ok_0, crc, ..m }),
{
    let body = spec_block_bytes_without_crc(m);
    let d = body + seq![crc.0, crc.1];
    let p = spec_sent_pcb(m);
    let b = spec_pcb_byte(p);
    let q = spec_pcb_parse(b)->Ok_0;
    lemma_pcb_parse_serialize(b);
    lemma_sent_flags(m.pcb.flags.0, m.cid is Some, m.nad is Some);
    let g = p.flags.0;
    let qf = q.flags.0;
    // The PCB byte keeps the CID and NAD following bits of the flags.
    lemma_pcb_byte_following(p);
    assert(qf == b & 0xDF);
    assert(b & 0x0c == g & 0x0c && qf == b & 0xDF ==> (qf & 0x08 == 0x08) == (g & 0x08 == 0x08)
        && (qf & 0x04 == 0x04) == (g & 0x04 == 0x04)) by (bit_vector);
    lemma_sent_flags(qf, m.cid is Some, m.nad is Some);
    assert((qf & 0x08 == 0x08 ==> qf | 0x08 == qf) && (qf & 0x08 != 0x08 ==> qf & !0x08u8 == qf)
        && (qf & 0x04 != 0x04 ==> qf & !0x04u8 == qf) && (qf & 0x04 == 0x04 ==> qf | 0x04 == qf)
        && (qf & 0x08 == 0x08 && qf & 0x04 == 0x04 ==> (qf | 0x08) | 0x04 == qf) && (qf & 0x08
        != 0x08 && qf & 0x04 == 0x04 ==> (qf & !0x08u8) | 0x04 == qf)) by (bit_vector);
    let m2 = BlockModel { pcb: q, crc, ..m };
    assert(spec_sent_pcb(m2) == q);
    assert(spec_block_bytes_without_crc(m2) =~= body);
    assert(d.take(d.len() - 2) =~= body);
    if let Some(c) = m.cid {
        let v = c.spec_value();
        assert(v <= 14 ==> v & 0x0f == v) by (bit_vector);
        assert(d[1] == v);
        if let Some(n) = m.nad {
            // An I-block's PCB byte keeps the I-block type bits.
            let nb: u8 = if p.block_number.spec_get() == 1 {
                1
            } else {
                0
            };
            let ch: u8 = if p.chaining {
                0x10
            } else {
                0
            };
            assert(b == (0x02u8 | 0u8 | nb | ch | (g & 0x0c)) as u8);
            assert((((0x02u8 | 0u8 | nb | ch | (g & 0x0c)) as u8) & 0xC0) == 0) by (bit_vector)
                requires
                    nb <= 1,
                    ch == 0 || ch == 0x10,
            ;
            assert(q.block_type == BlockType::IBlock);
            assert(d[2] == n);
            assert(d.subrange(3, d.len() - 2) =~= m.payload);
        } else {
            assert(d.subrange(2, d.len() - 2) =~= m.payload);
        }
    } else {
        assert(d.subrange(1, d.len() - 2) =~= m.payload);
    }
}

/// A block whose PCB as sent parses, and that carries a NAD only as an
/// I-block with a CID, is parsed from its bytes followed by their CRC_A as
/// the same block, with the PCB that its PCB byte parses to and that CRC.
pub proof fn lemma_block_serialize_parse(m: BlockModel)
    requires
        m.nad is Some ==> m.cid is Some && m.pcb.block_type == BlockType::IBlock,
        m.cid matches Some(c) ==> c.spec_value() <= 14,
        spec_pcb_parse(spec_pcb_byte(spec_sent_pcb(m))) is Ok,
    ensures
        spec_block_parse(with_crc_a(spec_block_bytes_without_crc(m))) == Ok::<BlockModel, TypeAError>(
            BlockModel {
                pcb: spec_pcb_parse(spec_pcb_byte(spec_sent_pcb(m)))->Ok_0,
                crc: spec_crc_a(spec_block_bytes_without_crc(m)),
                ..m
            },
        ),
{
    let body = spec_block_bytes_without_crc(m);
    lemma_block_serialize_parse_crc(m, spec_crc_a(body));
    assert(with_crc_a(body) =~= body + seq![spec_crc_a(body).0, spec_crc_a(body).1]);
}

} // verus!
