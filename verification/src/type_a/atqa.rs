//! ISO14443-3 6.4.2: ATQA (answer to request).

use super::TypeAError;
use vstd::prelude::*;
use vstd::std_specs::convert::{FromSpecImpl, TryFromSpecImpl};

verus! {

/// Table 4 - Coding of b7,b8 for UID size bit frame
#[derive(Debug, Clone, Copy, PartialEq, Eq, Structural)]
pub enum UidSize {
    Single,
    Double,
    Triple,
}

impl UidSize {
    /// The 2-bit code of the UID size.
    pub open spec fn spec_code(self) -> u8 {
        match self {
            UidSize::Single => 0,
            UidSize::Double => 1,
            UidSize::Triple => 2,
        }
    }

    /// The UID size with the given code, if any.
    pub open spec fn spec_from_code(v: u8) -> Option<UidSize> {
        if v == 0 {
            Some(UidSize::Single)
        } else if v == 1 {
            Some(UidSize::Double)
        } else if v == 2 {
            Some(UidSize::Triple)
        } else {
            None
        }
    }
}

impl FromSpecImpl<UidSize> for u8 {
    open spec fn obeys_from_spec() -> bool {
        true
    }

    open spec fn from_spec(v: UidSize) -> u8 {
        v.spec_code()
    }
}

impl From<UidSize> for u8 {
    fn from(v: UidSize) -> (r: u8) {
        match v {
            UidSize::Single => 0,
            UidSize::Double => 1,
            UidSize::Triple => 2,
        }
    }
}

impl TryFromSpecImpl<u8> for UidSize {
    open spec fn obeys_try_from_spec() -> bool {
        true
    }

    open spec fn try_from_spec(v: u8) -> Result<Self, u8> {
        match UidSize::spec_from_code(v) {
            Some(s) => Ok(s),
            None => Err(v),
        }
    }
}

impl TryFrom<u8> for UidSize {
    /// The rejected number.
    type Error = u8;

    fn try_from(v: u8) -> (r: Result<Self, u8>) {
        if v == 0 {
            Ok(UidSize::Single)
        } else if v == 1 {
            Ok(UidSize::Double)
        } else if v == 2 {
            Ok(UidSize::Triple)
        } else {
            Err(v)
        }
    }
}

/// Number of anticollision time slots supported by the PICC.
///
/// ISO14443-3 Table 5 — Coding of b1-b5 for bit frame anticollision.
/// Most tags support a single slot.
#[derive(Debug, Clone, Copy, PartialEq, Eq, Structural)]
pub enum BitFrameAntiCollision {
    /// 1 time slot.
    Slot1,
    /// 2 time slots.
    Slot2,
    /// 4 time slots.
    Slot4,
    /// 8 time slots.
    Slot8,
    /// 16 time slots.
    Slot16,
}

impl BitFrameAntiCollision {
    /// The 5-bit code: one bit set, at the position of log2 of the number
    /// of slots.
    pub open spec fn spec_code(self) -> u8 {
        match self {
            BitFrameAntiCollision::Slot1 => 1,
            BitFrameAntiCollision::Slot2 => 2,
            BitFrameAntiCollision::Slot4 => 4,
            BitFrameAntiCollision::Slot8 => 8,
            BitFrameAntiCollision::Slot16 => 16,
        }
    }

    /// The slot count with the given code, if any.
    pub open spec fn spec_from_code(v: u8) -> Option<BitFrameAntiCollision> {
        if v == 1 {
            Some(BitFrameAntiCollision::Slot1)
        } else if v == 2 {
            Some(BitFrameAntiCollision::Slot2)
        } else if v == 4 {
            Some(BitFrameAntiCollision::Slot4)
        } else if v == 8 {
            Some(BitFrameAntiCollision::Slot8)
        } else if v == 16 {
            Some(BitFrameAntiCollision::Slot16)
        } else {
            None
        }
    }
}

impl FromSpecImpl<BitFrameAntiCollision> for u8 {
    open spec fn obeys_from_spec() -> bool {
        true
    }

    open spec fn from_spec(v: BitFrameAntiCollision) -> u8 {
        v.spec_code()
    }
}

impl From<BitFrameAntiCollision> for u8 {
    fn from(v: BitFrameAntiCollision) -> (r: u8) {
        match v {
            BitFrameAntiCollision::Slot1 => 1,
            BitFrameAntiCollision::Slot2 => 2,
            BitFrameAntiCollision::Slot4 => 4,
            BitFrameAntiCollision::Slot8 => 8,
            BitFrameAntiCollision::Slot16 => 16,
        }
    }
}

impl TryFromSpecImpl<u8> for BitFrameAntiCollision {
    open spec fn obeys_try_from_spec() -> bool {
        true
    }

    open spec fn try_from_spec(v: u8) -> Result<Self, u8> {
        match BitFrameAntiCollision::spec_from_code(v) {
            Some(s) => Ok(s),
            None => Err(v),
        }
    }
}

impl TryFrom<u8> for BitFrameAntiCollision {
    /// The rejected number.
    type Error = u8;

    fn try_from(v: u8) -> (r: Result<Self, u8>) {
        if v == 1 {
            Ok(BitFrameAntiCollision::Slot1)
        } else if v == 2 {
            Ok(BitFrameAntiCollision::Slot2)
        } else if v == 4 {
            Ok(BitFrameAntiCollision::Slot4)
        } else if v == 8 {
            Ok(BitFrameAntiCollision::Slot8)
        } else if v == 16 {
            Ok(BitFrameAntiCollision::Slot16)
        } else {
            Err(v)
        }
    }
}

/// Table 3 - Coding of ATQA
#[derive(Debug, Clone, Copy, PartialEq, Eq, Structural)]
pub struct AtqA {
    pub uid_size: UidSize,
    pub bit_frame_ac: BitFrameAntiCollision,
    pub proprietary_coding: u8,
}

/// The two ATQA bytes: UID size in bits 7-8 and anticollision slots in
/// bits 1-5 of the first byte, proprietary coding (4 bits) in the second.
pub open spec fn spec_atqa_bytes(a: AtqA) -> Seq<u8> {
    seq![((a.uid_size.spec_code() << 6u8) | a.bit_frame_ac.spec_code()) as u8, a.proprietary_coding & 0x0f]
}

/// The result of parsing two ATQA bytes.
pub open spec fn spec_atqa_parse(v: Seq<u8>) -> Result<AtqA, TypeAError> {
    if v.len() == 2 {
        match UidSize::spec_from_code((v[0] >> 6u8) & 0x03) {
            None => Err(TypeAError::UnknownOpcode(v[0] >> 6u8)),
            Some(uid_size) => match BitFrameAntiCollision::spec_from_code(v[0] & 0x1f) {
                None => Err(TypeAError::UnknownOpcode(v[0] & 0x1f)),
                Some(bit_frame_ac) => Ok(
                    AtqA { uid_size, bit_frame_ac, proprietary_coding: v[1] & 0x0f },
                ),
            },
        }
    } else {
        Err(TypeAError::InvalidLength)
    }
}

impl AtqA {
    /// Serialize ATQA to its 2-byte wire representation.
    pub fn to_bytes(&self) -> (r: [u8; 2])
        ensures
            r@ == spec_atqa_bytes(*self),
    {
        let u: u8 = u8::from(self.uid_size);
        let b: u8 = u8::from(self.bit_frame_ac);
        assert(u <= 2 && b <= 16);
        assert((u << 6u8) <= 0x80u8) by (bit_vector)
            requires
                u <= 2;
        let byte0 = (u << 6) | b;
        let byte1 = self.proprietary_coding & 0b1111;
        let r = [byte0, byte1];
        assert(r@ =~= spec_atqa_bytes(*self));
        r
    }
}

impl TryFromSpecImpl<&[u8]> for AtqA {
    open spec fn obeys_try_from_spec() -> bool {
        true
    }

    open spec fn try_from_spec(value: &[u8]) -> Result<Self, TypeAError> {
        spec_atqa_parse(value@)
    }
}

impl TryFrom<&[u8]> for AtqA {
    type Error = TypeAError;

    fn try_from(value: &[u8]) -> (r: Result<Self, TypeAError>) {
        if value.len() == 2 {
            let uid_size = match UidSize::try_from((value[0] >> 6) & 0b11) {
                Ok(s) => s,
                Err(_) => {
                    return Err(TypeAError::UnknownOpcode(value[0] >> 6));
                },
            };
            let bit_frame_ac = match BitFrameAntiCollision::try_from(value[0] & 0b11111) {
                Ok(s) => s,
                Err(_) => {
                    return Err(TypeAError::UnknownOpcode(value[0] & 0b11111));
                },
            };
            Ok(Self { uid_size, bit_frame_ac, proprietary_coding: value[1] & 0b1111 })
        } else {
            Err(TypeAError::InvalidLength)
        }
    }
}

/// Parsing the bytes of an ATQA gives back the ATQA, with its proprietary
/// coding cut to the 4 bits that the wire format holds.
pub proof fn lemma_atqa_roundtrip(a: AtqA)
    ensures
        spec_atqa_parse(spec_atqa_bytes(a)) == Ok::<AtqA, TypeAError>(
            AtqA { proprietary_coding: a.proprietary_coding & 0x0f, ..a },
        ),
{
    let u = a.uid_size.spec_code();
    let b = a.bit_frame_ac.spec_code();
    let p = a.proprietary_coding;
    assert(((((u << 6u8) | b) as u8 >> 6u8) & 0x03) == u && (((u << 6u8) | b) as u8 & 0x1f) == b
        && (p & 0x0f) & 0x0f == p & 0x0f) by (bit_vector)
        requires
            u <= 2,
            b <= 16,
    ;
}

} // verus!
