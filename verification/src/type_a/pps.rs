//! ISO14443-4 5.3 and 5.4: PPS (protocol and parameter selection).

use super::crc::{crc_a, crc_accepted, spec_crc_a};
use super::{Cid, TypeAError};
use vstd::prelude::*;
use vstd::slice::slice_subrange;
use vstd::std_specs::convert::{FromSpecImpl, TryFromSpecImpl};

verus! {

broadcast use super::group_cid;

impl FromSpecImpl<&Cid> for u8 {
    open spec fn obeys_from_spec() -> bool {
        true
    }

    open spec fn from_spec(v: &Cid) -> u8 {
        v.spec_value()
    }
}

impl From<&Cid> for u8 {
    fn from(value: &Cid) -> (r: u8) {
        value.value()
    }
}

/// ISO/IEC 14443-4
/// Table 2 - DRI, DSI to D conversion
#[derive(Debug, Clone, Copy, PartialEq, Eq, Structural)]
pub enum Dxi {
    Dx1,
    Dx2,
    Dx4,
    Dx8,
}

impl Dxi {
    /// The 2-bit code of the divisor.
    pub open spec fn spec_code(self) -> u8 {
        match self {
            Dxi::Dx1 => 0,
            Dxi::Dx2 => 1,
            Dxi::Dx4 => 2,
            Dxi::Dx8 => 3,
        }
    }

    /// The divisor with the given code (codes 0 to 3).
    pub open spec fn spec_from_code(v: u8) -> Option<Dxi> {
        if v == 0 {
            Some(Dxi::Dx1)
        } else if v == 1 {
            Some(Dxi::Dx2)
        } else if v == 2 {
            Some(Dxi::Dx4)
        } else if v == 3 {
            Some(Dxi::Dx8)
        } else {
            None
        }
    }

    /// The bit rate multiplier.
    pub open spec fn spec_dx(self) -> usize {
        match self {
            Dxi::Dx1 => 1,
            Dxi::Dx2 => 2,
            Dxi::Dx4 => 4,
            Dxi::Dx8 => 8,
        }
    }

    /// The DS defines the bit rate capability of the PICC for the direction from PICC to PCD.
    /// The DR defines the bit rate capability of the PICC for the direction from PCD to PICC.
    pub fn dx(&self) -> (r: usize)
        ensures
            r == self.spec_dx(),
    {
        match self {
            Dxi::Dx1 => 1,
            Dxi::Dx2 => 2,
            Dxi::Dx4 => 4,
            Dxi::Dx8 => 8,
        }
    }
}

impl Default for Dxi {
    fn default() -> (r: Self)
        ensures
            r == Dxi::Dx1,
    {
        Dxi::Dx1
    }
}

impl FromSpecImpl<Dxi> for u8 {
    open spec fn obeys_from_spec() -> bool {
        true
    }

    open spec fn from_spec(v: Dxi) -> u8 {
        v.spec_code()
    }
}

impl From<Dxi> for u8 {
    fn from(v: Dxi) -> (r: u8) {
        match v {
            Dxi::Dx1 => 0,
            Dxi::Dx2 => 1,
            Dxi::Dx4 => 2,
            Dxi::Dx8 => 3,
        }
    }
}

impl TryFromSpecImpl<u8> for Dxi {
    open spec fn obeys_try_from_spec() -> bool {
        true
    }

    open spec fn try_from_spec(v: u8) -> Result<Self, u8> {
        match Dxi::spec_from_code(v) {
            Some(d) => Ok(d),
            None => Err(v),
        }
    }
}

impl TryFrom<u8> for Dxi {
    /// The rejected number.
    type Error = u8;

    fn try_from(v: u8) -> (r: Result<Self, u8>) {
        if v == 0 {
            Ok(Dxi::Dx1)
        } else if v == 1 {
            Ok(Dxi::Dx2)
        } else if v == 2 {
            Ok(Dxi::Dx4)
        } else if v == 3 {
            Ok(Dxi::Dx8)
        } else {
            Err(v)
        }
    }
}

/// ISO/IEC 14443-4
/// 5.3 Protocol and parameter selection request
/// Figure 9 - Protocol and parameter selection request
#[derive(Debug, Clone, Copy, PartialEq, Eq, Structural)]
pub struct PpsParam {
    pub cid: Cid,
    pub dri: Dxi,
    pub dsi: Dxi,
}

/// The PPS1 byte: DSI in bits 3-4, DRI in bits 1-2.
pub open spec fn spec_pps1_byte(p: PpsParam) -> u8 {
    ((p.dsi.spec_code() << 2u8) | p.dri.spec_code()) as u8
}

impl FromSpecImpl<&PpsParam> for u8 {
    open spec fn obeys_from_spec() -> bool {
        true
    }

    open spec fn from_spec(v: &PpsParam) -> u8 {
        spec_pps1_byte(*v)
    }
}

impl From<&PpsParam> for u8 {
    fn from(value: &PpsParam) -> (r: u8) {
        let s = u8::from(value.dsi);
        let r = u8::from(value.dri);
        assert(s << 2u8 <= 12u8) by (bit_vector)
            requires
                s <= 3,
        ;
        (s << 2) | r
    }
}

/// The result of parsing a PPS request: PPSS (0xD0 | CID), PPS0, an
/// optional PPS1 (present when PPS0 is 0x11), then CRC_A (or `(0, 0)`).
pub open spec fn spec_pps_parse(v: Seq<u8>) -> Result<PpsParam, TypeAError> {
    if v.len() < 4 {
        Err(TypeAError::InvalidLength)
    } else if v[0] & 0x0f > 14 {
        Err(TypeAError::Other)
    } else if v[1] == 0x11 && v.len() != 5 {
        Err(TypeAError::InvalidLength)
    } else {
        let body = v.take(v.len() - 2);
        if !crc_accepted(body, (v[v.len() - 2], v[v.len() - 1])) {
            Err(TypeAError::InvalidCrc(spec_crc_a(body)))
        } else if v[1] == 0x11 {
            Ok(
                PpsParam {
                    cid: Cid::spec_new(v[0] & 0x0f),
                    dsi: Dxi::spec_from_code((v[2] >> 2u8) & 0x03).unwrap(),
                    dri: Dxi::spec_from_code(v[2] & 0x03).unwrap(),
                },
            )
        } else {
            Ok(PpsParam { cid: Cid::spec_new(v[0] & 0x0f), dsi: Dxi::Dx1, dri: Dxi::Dx1 })
        }
    }
}

/// The PPS request for `p` (PPSS = 0xD0 | CID, PPS0 = 0x11, PPS1) followed
/// by an accepted CRC pair parses back to `p`: the card learns the CID, DRI
/// and DSI that the reader sent.
pub proof fn lemma_pps_request_roundtrip(p: PpsParam, crc: (u8, u8))
    requires
        p.cid.spec_value() <= 14,
        crc_accepted(seq![(0xd0 + p.cid.spec_value()) as u8, 0x11u8, spec_pps1_byte(p)], crc),
    ensures
        spec_pps_parse(seq![(0xd0 + p.cid.spec_value()) as u8, 0x11u8, spec_pps1_byte(p), crc.0, crc.1])
            == Ok::<PpsParam, TypeAError>(p),
        (0xd0 + p.cid.spec_value()) as u8 & 0xF0 == 0xD0,
{
    let c0 = p.cid.spec_value();
    let b0 = (0xd0 + c0) as u8;
    let s = p.dsi.spec_code();
    let r = p.dri.spec_code();
    let b2 = spec_pps1_byte(p);
    assert(b0 & 0xF0 == 0xD0 && b0 & 0x0f == c0) by (bit_vector)
        requires
            c0 <= 14,
            b0 == (0xd0 + c0) as u8,
    ;
    assert((b2 >> 2u8) & 0x03 == s && b2 & 0x03 == r) by (bit_vector)
        requires
            s <= 3,
            r <= 3,
            b2 == ((s << 2u8) | r) as u8,
    ;
    let v = seq![b0, 0x11u8, b2, crc.0, crc.1];
    assert(v.take(3) =~= seq![b0, 0x11u8, b2]);
}

impl TryFromSpecImpl<&[u8]> for PpsParam {
    open spec fn obeys_try_from_spec() -> bool {
        true
    }

    open spec fn try_from_spec(value: &[u8]) -> Result<Self, TypeAError> {
        spec_pps_parse(value@)
    }
}

impl TryFrom<&[u8]> for PpsParam {
    type Error = TypeAError;

    fn try_from(value: &[u8]) -> (r: Result<Self, TypeAError>) {
        if value.len() < 4 {
            return Err(TypeAError::InvalidLength);
        }
        let cid = match Cid::new(value[0] & 0xf) {
            Some(c) => c,
            None => {
                return Err(TypeAError::Other);
            },
        };
        let pps1_present = value[1] == 0x11;
        let mut dsi = Dxi::Dx1;
        let mut dri = Dxi::Dx1;
        if pps1_present {
            if value.len() != 5 {
                return Err(TypeAError::InvalidLength);
            }
            let p1 = value[2];
            assert(((p1 >> 2u8) & 0x03) <= 3 && p1 & 0x03 <= 3) by (bit_vector);
            dsi = match Dxi::try_from((p1 >> 2) & 0b11) {
                Ok(d) => d,
                Err(_) => {
                    return Err(TypeAError::Other);
                },
            };
            dri = match Dxi::try_from(p1 & 0b11) {
                Ok(d) => d,
                Err(_) => {
                    return Err(TypeAError::Other);
                },
            };
        }
        let len = value.len();
        let crc1 = value[len - 2];
        let crc2 = value[len - 1];
        let body = slice_subrange(value, 0, len - 2);
        let good = crc_a(body);
        proof {
            assert(body@ =~= value@.take(len - 2));
        }
        if !((good.0 == crc1 && good.1 == crc2) || (crc1 == 0 && crc2 == 0)) {
            return Err(TypeAError::InvalidCrc(good));
        }
        Ok(Self { cid, dri, dsi })
    }
}

/// ISO/IEC 14443-4
/// 5.4 - Protocol and parameter selection response
#[derive(Debug, Clone, Copy, PartialEq, Eq, Structural)]
pub struct PpsResp(pub Cid);

/// The result of parsing a PPS response: PPSS followed by CRC_A (or `(0, 0)`).
pub open spec fn spec_pps_resp_parse(v: Seq<u8>) -> Result<PpsResp, TypeAError> {
    if v.len() != 3 {
        Err(TypeAError::InvalidLength)
    } else if !crc_accepted(v.take(1), (v[1], v[2])) {
        Err(TypeAError::InvalidCrc(spec_crc_a(v.take(1))))
    } else if v[0] & 0x0f > 14 {
        Err(TypeAError::Other)
    } else {
        Ok(PpsResp(Cid::spec_new(v[0] & 0x0f)))
    }
}

impl TryFromSpecImpl<&[u8]> for PpsResp {
    open spec fn obeys_try_from_spec() -> bool {
        true
    }

    open spec fn try_from_spec(value: &[u8]) -> Result<Self, TypeAError> {
        spec_pps_resp_parse(value@)
    }
}

/// ISO/IEC 14443-4
/// Figure 13 - Protocol and parameter selection response
impl TryFrom<&[u8]> for PpsResp {
    type Error = TypeAError;

    fn try_from(value: &[u8]) -> (r: Result<Self, TypeAError>) {
        if value.len() != 3 {
            return Err(TypeAError::InvalidLength);
        }
        let crc1 = value[1];
        let crc2 = value[2];
        let first = slice_subrange(value, 0, 1);
        let good = crc_a(first);
        proof {
            assert(first@ =~= value@.take(1));
        }
        if !((good.0 == crc1 && good.1 == crc2) || (crc1 == 0 && crc2 == 0)) {
            return Err(TypeAError::InvalidCrc(good));
        }
        match Cid::new(value[0] & 0xf) {
            Some(c) => Ok(Self(c)),
            None => Err(TypeAError::Other),
        }
    }
}

} // verus!
