//! ISO14443-3 6.4.3: anticollision and SELECT.

use super::vec::FrameVec;
use super::TypeAError;
use vstd::prelude::*;
use vstd::std_specs::convert::{FromSpecImpl, TryFromSpecImpl};

verus! {

/// One cascade level of a UID: either the last four UID bytes, or the
/// cascade tag followed by three UID bytes when more levels follow.
#[derive(Debug, Clone, Copy, PartialEq, Eq, Structural)]
pub enum UidCl {
    Final(u8, u8, u8, u8),
    Next(u8, u8, u8),
}

/// The cascade tag (CT) that opens a UID level when more levels follow.
pub const CASCADE_TAG: u8 = 0x88;

/// The five bytes of a cascade level: four UID (or CT + UID) bytes and
/// their BCC (exclusive or of the four).
pub open spec fn spec_uid_cl_bytes(u: UidCl) -> Seq<u8> {
    match u {
        UidCl::Final(a, b, c, d) => seq![a, b, c, d, a ^ b ^ c ^ d],
        UidCl::Next(a, b, c) => seq![CASCADE_TAG, a, b, c, a ^ b ^ c ^ CASCADE_TAG],
    }
}

/// The result of parsing the five bytes of a cascade level.
pub open spec fn spec_uid_cl_parse(v: Seq<u8>) -> Result<UidCl, TypeAError> {
    if v[0] ^ v[1] ^ v[2] ^ v[3] ^ v[4] != 0 {
        Err(TypeAError::InvalidBcc)
    } else if v[0] == CASCADE_TAG {
        Ok(UidCl::Next(v[1], v[2], v[3]))
    } else {
        Ok(UidCl::Final(v[0], v[1], v[2], v[3]))
    }
}

impl TryFromSpecImpl<&[u8; 5]> for UidCl {
    open spec fn obeys_try_from_spec() -> bool {
        true
    }

    open spec fn try_from_spec(value: &[u8; 5]) -> Result<Self, TypeAError> {
        spec_uid_cl_parse(value@)
    }
}

impl TryFrom<&[u8; 5]> for UidCl {
    type Error = TypeAError;

    fn try_from(value: &[u8; 5]) -> (r: Result<Self, TypeAError>) {
        if value[0] ^ value[1] ^ value[2] ^ value[3] ^ value[4] != 0 {
            return Err(TypeAError::InvalidBcc);
        }
        if value[0] == 0x88 {
            Ok(Self::Next(value[1], value[2], value[3]))
        } else {
            Ok(Self::Final(value[0], value[1], value[2], value[3]))
        }
    }
}

impl TryFromSpecImpl<&[u8]> for UidCl {
    open spec fn obeys_try_from_spec() -> bool {
        true
    }

    open spec fn try_from_spec(value: &[u8]) -> Result<Self, TypeAError> {
        if value@.len() == 5 {
            spec_uid_cl_parse(value@)
        } else {
            Err(TypeAError::InvalidLength)
        }
    }
}

impl TryFrom<&[u8]> for UidCl {
    type Error = TypeAError;

    fn try_from(value: &[u8]) -> (r: Result<Self, TypeAError>) {
        if value.len() == 5 {
            let arr: [u8; 5] = [value[0], value[1], value[2], value[3], value[4]];
            assert(arr@ =~= value@);
            Self::try_from(&arr)
        } else {
            Err(TypeAError::InvalidLength)
        }
    }
}

/// SEL command codes for each cascade level (ISO14443-3 Table 6).
pub const SEL_CL1: u8 = 0x93;

pub const SEL_CL2: u8 = 0x95;

pub const SEL_CL3: u8 = 0x97;

/// Table 6 - Coding of SEL
#[derive(Debug, Clone, Copy, PartialEq, Eq, Structural)]
pub enum Cascade {
    Level1(UidCl),
    Level2(UidCl),
    Level3(UidCl),
}

/// Whether `sel` is the SEL code of a cascade level.
pub open spec fn spec_is_sel(sel: u8) -> bool {
    sel == SEL_CL1 || sel == SEL_CL2 || sel == SEL_CL3
}

impl Cascade {
    /// The SEL code of the level.
    pub open spec fn spec_code(self) -> u8 {
        match self {
            Cascade::Level1(_) => SEL_CL1,
            Cascade::Level2(_) => SEL_CL2,
            Cascade::Level3(_) => SEL_CL3,
        }
    }

    /// The UID part of the level.
    pub open spec fn spec_uid_cl(self) -> UidCl {
        match self {
            Cascade::Level1(u) => u,
            Cascade::Level2(u) => u,
            Cascade::Level3(u) => u,
        }
    }

    /// The level with SEL code `sel` and UID part `u`.
    pub open spec fn spec_with_sel(sel: u8, u: UidCl) -> Cascade {
        if sel == SEL_CL1 {
            Cascade::Level1(u)
        } else if sel == SEL_CL2 {
            Cascade::Level2(u)
        } else {
            Cascade::Level3(u)
        }
    }

    /// The frame of an ANTICOLLISION or SELECT command at this level, with
    /// the given NVB byte.
    pub open spec fn spec_raw(self, nvb: u8) -> Seq<u8> {
        seq![self.spec_code(), nvb] + spec_uid_cl_bytes(self.spec_uid_cl())
    }

    pub fn check_sel(sel: u8) -> (r: bool)
        ensures
            r == spec_is_sel(sel),
    {
        sel == SEL_CL1 || sel == SEL_CL2 || sel == SEL_CL3
    }

    /// The level with SEL code `sel` and the UID part that `uid_cl` codes.
    pub fn try_from(sel: u8, uid_cl: &[u8; 5]) -> (r: Result<Self, TypeAError>)
        ensures
            r == (if !spec_is_sel(sel) {
                Err(TypeAError::UnknownOpcode(sel))
            } else {
                match spec_uid_cl_parse(uid_cl@) {
                    Ok(u) => Ok(Cascade::spec_with_sel(sel, u)),
                    Err(e) => Err(e),
                }
            }),
    {
        if sel == SEL_CL1 {
            match UidCl::try_from(uid_cl) {
                Ok(u) => Ok(Cascade::Level1(u)),
                Err(e) => Err(e),
            }
        } else if sel == SEL_CL2 {
            match UidCl::try_from(uid_cl) {
                Ok(u) => Ok(Cascade::Level2(u)),
                Err(e) => Err(e),
            }
        } else if sel == SEL_CL3 {
            match UidCl::try_from(uid_cl) {
                Ok(u) => Ok(Cascade::Level3(u)),
                Err(e) => Err(e),
            }
        } else {
            Err(TypeAError::UnknownOpcode(sel))
        }
    }

    pub fn code(&self) -> (r: u8)
        ensures
            r == self.spec_code(),
    {
        match self {
            Cascade::Level1(_) => SEL_CL1,
            Cascade::Level2(_) => SEL_CL2,
            Cascade::Level3(_) => SEL_CL3,
        }
    }

    pub fn uid_cl(&self) -> (r: &UidCl)
        ensures
            *r == self.spec_uid_cl(),
    {
        match self {
            Cascade::Level1(uid_cl) => uid_cl,
            Cascade::Level2(uid_cl) => uid_cl,
            Cascade::Level3(uid_cl) => uid_cl,
        }
    }

    /// SEL, NVB, the four UID bytes of the level and their BCC.
    pub fn raw(&self, nvb: u8) -> (r: Result<FrameVec, TypeAError>)
        ensures
            r matches Ok(v) && v@ == self.spec_raw(nvb),
    {
        let mut raw: Vec<u8> = Vec::new();
        raw.push(self.code());
        raw.push(nvb);
        match self.uid_cl() {
            UidCl::Final(uid0, uid1, uid2, uid3) => {
                raw.push(*uid0);
                raw.push(*uid1);
                raw.push(*uid2);
                raw.push(*uid3);
                raw.push(*uid0 ^ *uid1 ^ *uid2 ^ *uid3);
            },
            UidCl::Next(uid0, uid1, uid2) => {
                raw.push(0x88);
                raw.push(*uid0);
                raw.push(*uid1);
                raw.push(*uid2);
                raw.push(*uid0 ^ *uid1 ^ *uid2 ^ 0x88);
            },
        }
        assert(raw@ =~= self.spec_raw(nvb));
        Ok(raw)
    }
}

/// Table 7 - Coding of NVB
#[derive(Debug, Clone, Copy, PartialEq, Eq, Structural)]
pub struct NumberOfValidBits {
    byte_cnt: u8,
    bit_cnt: u8,
}

impl NumberOfValidBits {
    #[verifier::type_invariant]
    spec fn in_range(self) -> bool {
        2 <= self.byte_cnt <= 7 && self.bit_cnt <= 7
    }

    /// Number of valid bytes (2 to 7).
    pub closed spec fn spec_byte_cnt(self) -> u8 {
        self.byte_cnt
    }

    /// Number of valid bits in the last byte (0 to 7).
    pub closed spec fn spec_bit_cnt(self) -> u8 {
        self.bit_cnt
    }

    /// The NVB with the given counts.
    pub closed spec fn spec_make(byte_cnt: u8, bit_cnt: u8) -> NumberOfValidBits {
        NumberOfValidBits { byte_cnt, bit_cnt }
    }

    /// NVB for initial anticollision: 2 bytes valid (SEL + NVB), no UID bits
    /// known yet. ISO14443-3 Table 7.
    pub fn anticollision() -> (r: Self)
        ensures
            r == NumberOfValidBits::spec_make(2, 0),
    {
        Self { byte_cnt: 2, bit_cnt: 0 }
    }

    /// NVB for SELECT: 7 bytes valid (SEL + NVB + UID\[4\] + BCC).
    /// ISO14443-3 Table 7.
    pub fn select() -> (r: Self)
        ensures
            r == NumberOfValidBits::spec_make(7, 0),
    {
        Self { byte_cnt: 7, bit_cnt: 0 }
    }

    /// Whether the NVB counts all 40 data bits of a cascade level.
    pub fn has_40_data_bits(&self) -> (r: bool)
        ensures
            r == (self.spec_byte_cnt() == 7 && self.spec_bit_cnt() == 0),
    {
        self.byte_cnt == 7 && self.bit_cnt == 0
    }
}

/// The NVB byte: byte count in the high nibble, bit count in the low one.
pub open spec fn spec_nvb_byte(n: NumberOfValidBits) -> u8 {
    ((n.spec_byte_cnt() << 4u8) | n.spec_bit_cnt()) as u8
}

/// The result of parsing an NVB byte.
pub open spec fn spec_nvb_parse(v: u8) -> Result<NumberOfValidBits, TypeAError> {
    if !(2 <= v >> 4u8 <= 7) {
        Err(TypeAError::UnknownOpcode(v >> 4u8))
    } else if v & 0x0f > 7 {
        Err(TypeAError::UnknownOpcode(v & 0x0f))
    } else {
        Ok(NumberOfValidBits::spec_make(v >> 4u8, v & 0x0f))
    }
}

impl FromSpecImpl<&NumberOfValidBits> for u8 {
    open spec fn obeys_from_spec() -> bool {
        true
    }

    open spec fn from_spec(v: &NumberOfValidBits) -> u8 {
        spec_nvb_byte(*v)
    }
}

impl From<&NumberOfValidBits> for u8 {
    fn from(value: &NumberOfValidBits) -> (r: u8) {
        proof {
            use_type_invariant(value);
        }
        let b = value.byte_cnt;
        assert(b << 4u8 <= 0x70u8) by (bit_vector)
            requires
                b <= 7,
        ;
        (value.byte_cnt << 4) | value.bit_cnt
    }
}

impl TryFromSpecImpl<u8> for NumberOfValidBits {
    open spec fn obeys_try_from_spec() -> bool {
        true
    }

    open spec fn try_from_spec(v: u8) -> Result<Self, TypeAError> {
        spec_nvb_parse(v)
    }
}

impl TryFrom<u8> for NumberOfValidBits {
    type Error = TypeAError;

    fn try_from(value: u8) -> (r: Result<Self, TypeAError>) {
        let byte_cnt = value >> 4;
        if !(2 <= byte_cnt && byte_cnt <= 7) {
            return Err(TypeAError::UnknownOpcode(value >> 4));
        }
        let bit_cnt = value & 0xf;
        if bit_cnt > 7 {
            return Err(TypeAError::UnknownOpcode(value & 0xf));
        }
        Ok(Self { byte_cnt, bit_cnt })
    }
}

/// Parsing the five bytes of a cascade level gives back the level, unless
/// a final level starts with the cascade tag (then it reads as a level
/// with more to follow).
pub proof fn lemma_uid_cl_roundtrip(u: UidCl)
    requires
        !(u matches UidCl::Final(a, _, _, _) && a == CASCADE_TAG),
    ensures
        spec_uid_cl_parse(spec_uid_cl_bytes(u)) == Ok::<UidCl, TypeAError>(u),
{
    match u {
        UidCl::Final(a, b, c, d) => {
            assert(a ^ b ^ c ^ d ^ (a ^ b ^ c ^ d) == 0) by (bit_vector);
        },
        UidCl::Next(a, b, c) => {
            assert(CASCADE_TAG ^ a ^ b ^ c ^ (a ^ b ^ c ^ CASCADE_TAG) == 0) by (bit_vector);
        },
    }
}

/// The NVB byte of SELECT (0x70) reads as all 40 data bits of a level.
pub(crate) proof fn lemma_select_nvb()
    ensures
        spec_nvb_parse(0x70) matches Ok(n) && n.spec_byte_cnt() == 7 && n.spec_bit_cnt() == 0,
        spec_nvb_byte(NumberOfValidBits::spec_make(7, 0)) == 0x70,
{
    assert(0x70u8 >> 4u8 == 7u8 && 0x70u8 & 0x0fu8 == 0u8 && ((7u8 << 4u8) | 0u8) as u8 == 0x70u8)
        by (bit_vector);
}

/// Reading back the NVB byte gives the same NVB.
pub proof fn lemma_nvb_roundtrip(n: NumberOfValidBits)
    requires
        2 <= n.spec_byte_cnt() <= 7,
        n.spec_bit_cnt() <= 7,
    ensures
        spec_nvb_parse(spec_nvb_byte(n)) == Ok::<NumberOfValidBits, TypeAError>(n),
{
    let b = n.spec_byte_cnt();
    let c = n.spec_bit_cnt();
    assert((((b << 4u8) | c) as u8) >> 4u8 == b && (((b << 4u8) | c) as u8) & 0x0f == c) by (bit_vector)
        requires
            b <= 7,
            c <= 7,
    ;
}

} // verus!
