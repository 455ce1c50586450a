//! ISO14443-3 6.4.3: SAK (select acknowledge).

use super::crc::{crc_a, crc_accepted, spec_crc_a};
use super::TypeAError;
use vstd::prelude::*;
use vstd::slice::slice_subrange;
use vstd::std_specs::convert::TryFromSpecImpl;

verus! {

/// Table 8 - Coding of SAK
#[derive(Debug, Clone, Copy, PartialEq, Eq, Structural)]
pub struct Sak {
    pub uid_complete: bool,
    pub iso14443_4_compliant: bool,
}

/// The SAK that a raw SAK byte codes: bit 3 (0x04) set means the UID is
/// not complete, bit 6 (0x20) set means ISO14443-4 compliance.
pub open spec fn spec_sak_from_byte(b: u8) -> Sak {
    Sak { uid_complete: b & 0x04 != 0x04, iso14443_4_compliant: b & 0x20 == 0x20 }
}

/// The SAK byte for a SAK.
pub open spec fn spec_sak_byte(s: Sak) -> u8 {
    (if s.uid_complete { 0u8 } else { 0x04u8 }) | (if s.iso14443_4_compliant { 0x20u8 } else { 0u8 })
}

/// The result of parsing a SAK frame (SAK byte followed by CRC_A).
pub open spec fn spec_sak_parse(v: Seq<u8>) -> Result<Sak, TypeAError> {
    if v.len() == 3 {
        if crc_accepted(v.take(1), (v[1], v[2])) {
            Ok(spec_sak_from_byte(v[0]))
        } else {
            Err(TypeAError::InvalidCrc(spec_crc_a(v.take(1))))
        }
    } else {
        Err(TypeAError::InvalidLength)
    }
}

impl Sak {
    /// Parse SAK from a raw byte (no CRC). Use when hardware CRC is enabled
    /// and the transceiver has already validated and stripped the CRC.
    pub fn from_raw(sak: u8) -> (r: Self)
        ensures
            r == spec_sak_from_byte(sak),
    {
        Self { uid_complete: sak & 0x04 != 0x04, iso14443_4_compliant: sak & 0x20 == 0x20 }
    }

    /// Serialize SAK to its single-byte wire representation (without CRC).
    pub fn to_byte(&self) -> (r: u8)
        ensures
            r == spec_sak_byte(*self),
    {
        let incomplete: u8 = if !self.uid_complete { 0x04 } else { 0 };
        let level4: u8 = if self.iso14443_4_compliant { 0x20 } else { 0 };
        incomplete | level4
    }
}

impl TryFromSpecImpl<&[u8]> for Sak {
    open spec fn obeys_try_from_spec() -> bool {
        true
    }

    open spec fn try_from_spec(value: &[u8]) -> Result<Self, TypeAError> {
        spec_sak_parse(value@)
    }
}

impl TryFrom<&[u8]> for Sak {
    type Error = TypeAError;

    /// Parse a SAK frame: the SAK byte followed by its CRC_A (or `(0, 0)`).
    fn try_from(value: &[u8]) -> (r: Result<Self, TypeAError>) {
        if value.len() == 3 {
            let crc1 = value[1];
            let crc2 = value[2];
            let first = slice_subrange(value, 0, 1);
            let good = crc_a(first);
            proof {
                assert(first@ =~= value@.take(1));
            }
            if (good.0 == crc1 && good.1 == crc2) || (crc1 == 0 && crc2 == 0) {
                Ok(Self::from_raw(value[0]))
            } else {
                Err(TypeAError::InvalidCrc(good))
            }
        } else {
            Err(TypeAError::InvalidLength)
        }
    }
}

/// Reading back the byte of a SAK gives the same SAK.
pub proof fn lemma_sak_byte_roundtrip(s: Sak)
    ensures
        spec_sak_from_byte(spec_sak_byte(s)) == s,
{
    let u = s.uid_complete;
    let i = s.iso14443_4_compliant;
    let b = spec_sak_byte(s);
    assert(b == (if u { 0u8 } else { 0x04u8 }) | (if i { 0x20u8 } else { 0u8 }));
    assert((b & 0x04 != 0x04) == u && (b & 0x20 == 0x20) == i) by (bit_vector)
        requires
            b == (if u { 0u8 } else { 0x04u8 }) | (if i { 0x20u8 } else { 0u8 });
}

} // verus!
