//! ISO14443-4 7.1.1.1: PCB (protocol control byte).

use super::TypeAError;
use vstd::prelude::*;
use vstd::std_specs::convert::{FromSpecImpl, TryFromSpecImpl};

verus! {

#[derive(Debug, Clone, Copy, PartialEq, Eq, Structural)]
pub enum BlockType {
    IBlock,  // Information block
    RBlock,  // Receive acknowledgment block
    SBlock,  // Supervisory block
}

#[derive(Debug, Clone, Copy, PartialEq, Eq, Structural)]
pub enum RBlockSubtype {
    Ack,  // Acknowledgment
    Nak,  // Negative acknowledgment
}

#[derive(Debug, Clone, Copy, PartialEq, Eq, Structural)]
pub enum SBlockSubtype {
    Deselect,  // DESELECT
    Wtx,  // Waiting time extension
    RBlock,  // R-block response
    SBlock,  // S-block response
}

/// The bits of a PCB byte.
#[derive(Debug, Clone, Copy, PartialEq, Eq, Structural)]
pub struct PcbFlags(pub u8);

/// All the bits that `PcbFlags` names.
pub const PCB_FLAGS_ALL: u8 = 0xDF;

impl PcbFlags {
    pub const BLOCK_NUMBER: u8 = 0b0000_0001;
    pub const BIT_1_RESERVED: u8 = 0b0000_0010;
    pub const CID_FOLLOWING: u8 = 0b0000_1000;
    pub const NAD_FOLLOWING: u8 = 0b0000_0100;
    pub const CHAINING: u8 = 0b0001_0000;
    pub const BLOCK_TYPE_MASK: u8 = 0b1100_0000;

    /// No bit set.
    pub fn empty() -> (r: Self)
        ensures
            r.0 == 0,
    {
        PcbFlags(0)
    }

    /// The named bits of `bits`; the others are dropped.
    pub fn from_bits_truncate(bits: u8) -> (r: Self)
        ensures
            r.0 == bits & PCB_FLAGS_ALL,
    {
        PcbFlags(bits & PCB_FLAGS_ALL)
    }

    pub fn bits(&self) -> (r: u8)
        ensures
            r == self.0,
    {
        self.0
    }

    /// Whether all bits of `mask` are set.
    pub fn contains(&self, mask: u8) -> (r: bool)
        ensures
            r == (self.0 & mask == mask),
    {
        self.0 & mask == mask
    }

    /// Set the bits of `mask`.
    pub fn insert(&mut self, mask: u8)
        ensures
            final(self).0 == old(self).0 | mask,
    {
        self.0 = self.0 | mask;
    }

    /// Clear the bits of `mask`.
    pub fn remove(&mut self, mask: u8)
        ensures
            final(self).0 == old(self).0 & !mask,
    {
        self.0 = self.0 & !mask;
    }
}

/// A block number: 0 or 1.
#[derive(Debug, Clone, Copy, PartialEq, Eq, Structural)]
pub struct BlockNumber(u8);

impl BlockNumber {
    #[verifier::type_invariant]
    spec fn in_range(self) -> bool {
        self.0 <= 1
    }

    /// The number (0 or 1 for every block number that exists).
    pub closed spec fn spec_get(self) -> u8 {
        self.0
    }

    /// The block number with the given number (meaningful for 0 and 1).
    pub closed spec fn spec_new(v: u8) -> BlockNumber {
        BlockNumber(v)
    }

    /// Block number 0.
    pub fn zero() -> (r: Self)
        ensures
            r == BlockNumber::spec_new(0),
    {
        BlockNumber(0)
    }

    /// The block number that the low bit of `v` gives.
    pub fn from_bit(v: u8) -> (r: Self)
        ensures
            r == BlockNumber::spec_new(
                if v & 1 == 1 {
                    1u8
                } else {
                    0u8
                },
            ),
    {
        if v & 1 == 1 {
            BlockNumber(1)
        } else {
            BlockNumber(0)
        }
    }

    /// The number, 0 or 1.
    pub fn get(&self) -> (r: u8)
        ensures
            r == self.spec_get(),
            r <= 1,
    {
        proof {
            use_type_invariant(self);
        }
        self.0
    }

    /// The other block number.
    pub fn toggled(&self) -> (r: Self)
        ensures
            r == BlockNumber::spec_new((1 - self.spec_get()) as u8),
            self.spec_get() <= 1,
    {
        proof {
            use_type_invariant(self);
        }
        BlockNumber(1 - self.0)
    }
}

/// The number of the block number made from a number is that number.
pub broadcast proof fn lemma_block_number_new_get(v: u8)
    ensures
        #[trigger] BlockNumber::spec_new(v).spec_get() == v,
{
}

/// A block number is the one made from its number.
pub broadcast proof fn lemma_block_number_from_get(b: BlockNumber)
    ensures
        BlockNumber::spec_new(#[trigger] b.spec_get()) == b,
{
}

pub broadcast group group_block_number {
    lemma_block_number_new_get,
    lemma_block_number_from_get,
}

#[derive(Debug, Clone, Copy, PartialEq, Eq, Structural)]
pub struct Pcb {
    pub flags: PcbFlags,
    pub block_type: BlockType,
    pub block_number: BlockNumber,
    pub chaining: bool,
    pub r_subtype: Option<RBlockSubtype>,
    pub s_subtype: Option<SBlockSubtype>,
}

/// The block type bits (7-8) of each block type.
pub open spec fn spec_block_type_bits(t: BlockType) -> u8 {
    match t {
        BlockType::IBlock => 0x00,
        BlockType::RBlock => 0x80,
        BlockType::SBlock => 0xC0,
    }
}

/// The PCB byte that a PCB is sent as: bit 2 set, block type in bits 7-8,
/// block number in bit 1, chaining in bit 5, the CID and NAD following
/// bits taken from the flags, and the R-block (ACK/NAK) or S-block
/// (DESELECT/WTX) subtype.
pub open spec fn spec_pcb_byte(p: Pcb) -> u8 {
    let base: u8 = (0x02u8 | spec_block_type_bits(p.block_type) | (if p.block_number.spec_get() == 1 {
        0x01u8
    } else {
        0u8
    }) | (if p.chaining {
        0x10u8
    } else {
        0u8
    }) | (p.flags.0 & 0x0c)) as u8;
    match p.block_type {
        BlockType::RBlock => {
            let b1: u8 = base | 0x20;
            match p.r_subtype {
                Some(RBlockSubtype::Ack) => b1 & 0xEF,
                Some(RBlockSubtype::Nak) => b1 | 0x10,
                None => b1,
            }
        },
        BlockType::SBlock => match p.s_subtype {
            Some(SBlockSubtype::Wtx) => base | 0x30,
            _ => base,
        },
        BlockType::IBlock => base,
    }
}

/// The result of parsing a PCB byte.
pub open spec fn spec_pcb_parse(b: u8) -> Result<Pcb, TypeAError> {
    let bt = b & 0xC0;
    let sub = (b >> 4u8) & 0x03;
    if bt != 0x00 && bt != 0x80 && bt != 0xC0 {
        Err(TypeAError::InvalidPcb)
    } else if b & 0x02 == 0 {
        Err(TypeAError::InvalidPcb)
    } else if bt == 0x00 && b & 0x20 != 0 {
        Err(TypeAError::InvalidPcb)
    } else if bt == 0x80 && b & 0x20 == 0 {
        Err(TypeAError::InvalidPcb)
    } else if bt == 0xC0 && sub != 0 && sub != 3 {
        Err(TypeAError::InvalidPcb)
    } else {
        let block_type = if bt == 0x00 {
            BlockType::IBlock
        } else if bt == 0x80 {
            BlockType::RBlock
        } else {
            BlockType::SBlock
        };
        Ok(
            Pcb {
                flags: PcbFlags(b & PCB_FLAGS_ALL),
                block_type,
                block_number: BlockNumber::spec_new(b & 0x01),
                chaining: bt == 0x00 && b & 0x10 != 0,
                r_subtype: if bt == 0x80 {
                    Some(
                        if (b >> 4u8) & 0x01 == 0 {
                            RBlockSubtype::Ack
                        } else {
                            RBlockSubtype::Nak
                        },
                    )
                } else {
                    None
                },
                s_subtype: if bt == 0xC0 {
                    Some(
                        if sub == 0 {
                            SBlockSubtype::Deselect
                        } else {
                            SBlockSubtype::Wtx
                        },
                    )
                } else {
                    None
                },
            },
        )
    }
}

impl Pcb {
    pub fn new(block_type: BlockType) -> (r: Self)
        ensures
            r == (Pcb {
                flags: PcbFlags(0),
                block_type,
                block_number: BlockNumber::spec_new(0),
                chaining: false,
                r_subtype: None,
                s_subtype: None,
            }),
    {
        Self {
            flags: PcbFlags::empty(),
            block_type,
            block_number: BlockNumber::zero(),
            chaining: false,
            r_subtype: None,
            s_subtype: None,
        }
    }

    /// Set the block number to the low bit of `block_number`.
    pub fn with_block_number(self, block_number: u8) -> (r: Self)
        ensures
            r == (Pcb {
                block_number: BlockNumber::spec_new(
                    if block_number & 1 == 1 {
                        1u8
                    } else {
                        0u8
                    },
                ),
                flags: if block_number & 1 == 1 {
                    PcbFlags(self.flags.0 | PcbFlags::BLOCK_NUMBER)
                } else {
                    self.flags
                },
                ..self
            }),
    {
        let mut s = self;
        s.block_number = BlockNumber::from_bit(block_number);
        if block_number & 1 == 1 {
            s.flags.insert(PcbFlags::BLOCK_NUMBER);
        }
        s
    }

    pub fn with_chaining(self, chaining: bool) -> (r: Self)
        ensures
            r == (Pcb {
                chaining,
                flags: if chaining {
                    PcbFlags(self.flags.0 | PcbFlags::CHAINING)
                } else {
                    self.flags
                },
                ..self
            }),
    {
        let mut s = self;
        s.chaining = chaining;
        if chaining {
            s.flags.insert(PcbFlags::CHAINING);
        }
        s
    }

    pub fn with_r_subtype(self, subtype: RBlockSubtype) -> (r: Self)
        ensures
            r == (Pcb { r_subtype: Some(subtype), ..self }),
    {
        let mut s = self;
        s.r_subtype = Some(subtype);
        s
    }

    pub fn with_s_subtype(self, subtype: SBlockSubtype) -> (r: Self)
        ensures
            r == (Pcb { s_subtype: Some(subtype), ..self }),
    {
        let mut s = self;
        s.s_subtype = Some(subtype);
        s
    }

    pub fn with_cid_following(self, cid_following: bool) -> (r: Self)
        ensures
            r == (Pcb {
                flags: if cid_following {
                    PcbFlags(self.flags.0 | PcbFlags::CID_FOLLOWING)
                } else {
                    PcbFlags(self.flags.0 & !PcbFlags::CID_FOLLOWING)
                },
                ..self
            }),
    {
        let mut s = self;
        if cid_following {
            s.flags.insert(PcbFlags::CID_FOLLOWING);
        } else {
            s.flags.remove(PcbFlags::CID_FOLLOWING);
        }
        s
    }

    pub fn with_nad_following(self, nad_following: bool) -> (r: Self)
        ensures
            r == (Pcb {
                flags: if nad_following {
                    PcbFlags(self.flags.0 | PcbFlags::NAD_FOLLOWING)
                } else {
                    PcbFlags(self.flags.0 & !PcbFlags::NAD_FOLLOWING)
                },
                ..self
            }),
    {
        let mut s = self;
        if nad_following {
            s.flags.insert(PcbFlags::NAD_FOLLOWING);
        } else {
            s.flags.remove(PcbFlags::NAD_FOLLOWING);
        }
        s
    }

    pub fn is_chaining(&self) -> (r: bool)
        ensures
            r == self.chaining,
    {
        self.chaining
    }

    pub fn block_number(&self) -> (r: u8)
        ensures
            r == self.block_number.spec_get(),
            r <= 1,
    {
        self.block_number.get()
    }

    pub fn cid_following(&self) -> (r: bool)
        ensures
            r == (self.flags.0 & 0x08 == 0x08),
    {
        self.flags.contains(PcbFlags::CID_FOLLOWING)
    }

    pub fn nad_following(&self) -> (r: bool)
        ensures
            r == (self.flags.0 & 0x04 == 0x04),
    {
        self.flags.contains(PcbFlags::NAD_FOLLOWING)
    }

    pub fn block_type(&self) -> (r: BlockType)
        ensures
            r == self.block_type,
    {
        self.block_type
    }
}

impl TryFromSpecImpl<u8> for Pcb {
    open spec fn obeys_try_from_spec() -> bool {
        true
    }

    open spec fn try_from_spec(b: u8) -> Result<Self, TypeAError> {
        spec_pcb_parse(b)
    }
}

impl TryFrom<u8> for Pcb {
    type Error = TypeAError;

    fn try_from(byte: u8) -> (r: Result<Self, TypeAError>) {
        let flags = PcbFlags::from_bits_truncate(byte);
        let block_type_bits = byte & PcbFlags::BLOCK_TYPE_MASK;

        let block_type = if block_type_bits == 0b0000_0000 {
            BlockType::IBlock
        } else if block_type_bits == 0b1000_0000 {
            BlockType::RBlock
        } else if block_type_bits == 0b1100_0000 {
            BlockType::SBlock
        } else {
            return Err(TypeAError::InvalidPcb);
        };

        // Bit 1 is always set for I-blocks, R-blocks and S-blocks.
        if byte & 0b0000_0010 == 0 {
            return Err(TypeAError::InvalidPcb);
        }
        // For I-blocks, bit 5 is always 0.
        if block_type == BlockType::IBlock && (byte & 0b0010_0000 != 0) {
            return Err(TypeAError::InvalidPcb);
        }
        // For R-blocks, bit 5 is always 1.
        if block_type == BlockType::RBlock && (byte & 0b0010_0000 == 0) {
            return Err(TypeAError::InvalidPcb);
        }

        let block_number = BlockNumber::from_bit(byte);

        // Chaining is only valid for I-blocks.
        let chaining = if block_type == BlockType::IBlock {
            flags.contains(PcbFlags::CHAINING)
        } else {
            false
        };

        let mut r_subtype: Option<RBlockSubtype> = None;
        let mut s_subtype: Option<SBlockSubtype> = None;
        match block_type {
            BlockType::RBlock => {
                // R-block: bit 4 indicates ACK/NAK (0=ACK, 1=NAK)
                let subtype_bits = (byte >> 4) & 0x01;
                r_subtype = Some(
                    if subtype_bits == 0 {
                        RBlockSubtype::Ack
                    } else {
                        RBlockSubtype::Nak
                    },
                );
            },
            BlockType::SBlock => {
                // S-block: bits 4-5 indicate subtype (00=DESELECT, 11=WTX)
                let subtype_bits = (byte >> 4) & 0x03;
                if subtype_bits == 0b00 {
                    s_subtype = Some(SBlockSubtype::Deselect);
                } else if subtype_bits == 0b11 {
                    s_subtype = Some(SBlockSubtype::Wtx);
                } else {
                    return Err(TypeAError::InvalidPcb);
                }
            },
            BlockType::IBlock => {},
        }
        proof {
            let b = byte;
            assert((b & 0x01 == 0x01) == (b & 0x01 != 0) && (b & 0xDF) & 0x01 == b & 0x01
                && ((b & 0xDF) & 0x10 == 0x10) == (b & 0x10 != 0) && (b & 0x01 == 0x01 ==> b & 0x01 == 1)
                && (b & 0x01 != 0x01 ==> b & 0x01 == 0)) by (bit_vector);
        }
        Ok(Self { flags, block_type, block_number, chaining, r_subtype, s_subtype })
    }
}

impl FromSpecImpl<Pcb> for u8 {
    open spec fn obeys_from_spec() -> bool {
        true
    }

    open spec fn from_spec(p: Pcb) -> u8 {
        spec_pcb_byte(p)
    }
}

impl From<Pcb> for u8 {
    fn from(pcb: Pcb) -> (r: u8) {
        let type_bits: u8 = match pcb.block_type {
            BlockType::IBlock => 0b0000_0000,
            BlockType::RBlock => 0b1000_0000,
            BlockType::SBlock => 0b1100_0000,
        };
        let number_bit: u8 = if pcb.block_number.get() == 1 {
            PcbFlags::BLOCK_NUMBER
        } else {
            0
        };
        // Chaining bit (bit 5), set only on I-blocks.
        let chaining_bit: u8 = if pcb.chaining {
            PcbFlags::CHAINING
        } else {
            0
        };
        // CID and NAD following bits (CID_FOLLOWING | NAD_FOLLOWING) from the flags.
        let following = pcb.flags.bits() & 0b0000_1100;
        let byte: u8 = 0b0000_0010 | type_bits | number_bit | chaining_bit | following;
        match pcb.block_type {
            BlockType::RBlock => {
                let b1 = byte | 0b0010_0000;
                assert(!0b0001_0000u8 == 0xEFu8) by (bit_vector);

                match pcb.r_subtype {
                    Some(RBlockSubtype::Ack) => b1 & !0b0001_0000u8,
                    Some(RBlockSubtype::Nak) => b1 | 0b0001_0000,
                    None => b1,
                }
            },
            BlockType::SBlock => match pcb.s_subtype {
                Some(SBlockSubtype::Wtx) => byte | 0b0011_0000,
                _ => byte,
            },
            BlockType::IBlock => byte,
        }
    }
}

/// The PCB byte carries the CID and NAD following bits of the flags.
pub proof fn lemma_pcb_byte_following(p: Pcb)
    ensures
        spec_pcb_byte(p) & 0x0c == p.flags.0 & 0x0c,
{
    let t = spec_block_type_bits(p.block_type);
    let n: u8 = if p.block_number.spec_get() == 1 {
        0x01u8
    } else {
        0u8
    };
    let c: u8 = if p.chaining {
        0x10u8
    } else {
        0u8
    };
    let g = p.flags.0;
    let base = (0x02u8 | t | n | c | (g & 0x0c)) as u8;
    assert(base & 0x0c == g & 0x0c && ((base | 0x20) & 0xEF) & 0x0c == g & 0x0c && ((base | 0x20)
        | 0x10) & 0x0c == g & 0x0c && (base | 0x20) & 0x0c == g & 0x0c && (base | 0x30) & 0x0c == g
        & 0x0c) by (bit_vector)
        requires
            t == 0 || t == 0x80 || t == 0xC0,
            n == 0 || n == 1,
            c == 0 || c == 0x10,
            base == (0x02u8 | t | n | c | (g & 0x0c)) as u8,
    ;
}

/// Every PCB byte that parses is the byte of the PCB it parses to: the
/// parser keeps every bit that the serializer writes.
pub proof fn lemma_pcb_parse_serialize(b: u8)
    ensures
        spec_pcb_parse(b) matches Ok(p) ==> spec_pcb_byte(p) == b,
{
    if let Ok(p) = spec_pcb_parse(b) {
        let bt = b & 0xC0;
        if bt == 0x00 {
            assert(b & 0x20 == 0 && b & 0x02 != 0 ==> (0x02u8 | 0x00u8 | (if b & 0x01 == 1 { 0x01u8 } else { 0u8 })
                | (if b & 0x10 != 0 { 0x10u8 } else { 0u8 }) | ((b & 0xDF) & 0x0c)) as u8 == b) by (bit_vector)
                requires
                    b & 0xC0 == 0x00,
            ;
        } else if bt == 0x80 {
            assert(b & 0x20 != 0 && b & 0x02 != 0 ==> {
                let base = (0x02u8 | 0x80u8 | (if b & 0x01 == 1 { 0x01u8 } else { 0u8 }) | 0u8 | ((b & 0xDF)
                    & 0x0c)) as u8;
                &&& ((b >> 4u8) & 0x01 == 0 ==> ((base | 0x20) & 0xEF) == b)
                &&& ((b >> 4u8) & 0x01 != 0 ==> ((base | 0x20) | 0x10) == b)
            }) by (bit_vector)
                requires
                    b & 0xC0 == 0x80,
            ;
        } else {
            assert(b & 0x02 != 0 ==> {
                let base = (0x02u8 | 0xC0u8 | (if b & 0x01 == 1 { 0x01u8 } else { 0u8 }) | 0u8 | ((b & 0xDF)
                    & 0x0c)) as u8;
                &&& ((b >> 4u8) & 0x03 == 0 ==> base == b)
                &&& ((b >> 4u8) & 0x03 == 3 ==> (base | 0x30) == b)
            }) by (bit_vector)
                requires
                    b & 0xC0 == 0xC0,
            ;
        }
    }
}

} // verus!
