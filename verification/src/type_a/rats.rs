//! ISO14443-4 5.1: RATS (request for answer to select).

use super::{Cid, TypeAError};
use vstd::prelude::*;
use vstd::std_specs::convert::{FromSpecImpl, TryFromSpec, TryFromSpecImpl};

verus! {

broadcast use super::group_cid;

/// ISO/IEC 14443-4
/// Table 1 - FSDI to FSD conversion
#[derive(Debug, Clone, Copy, PartialEq, Eq, Structural)]
pub enum Fsdi {
    Fsd16,
    Fsd24,
    Fsd32,
    Fsd40,
    Fsd48,
    Fsd64,
    Fsd96,
    Fsd128,
    Fsd256,
}

impl Fsdi {
    /// The 4-bit code of the FSDI.
    pub open spec fn spec_code(self) -> u8 {
        match self {
            Fsdi::Fsd16 => 0,
            Fsdi::Fsd24 => 1,
            Fsdi::Fsd32 => 2,
            Fsdi::Fsd40 => 3,
            Fsdi::Fsd48 => 4,
            Fsdi::Fsd64 => 5,
            Fsdi::Fsd96 => 6,
            Fsdi::Fsd128 => 7,
            Fsdi::Fsd256 => 8,
        }
    }

    /// The FSDI with the given code (codes 0 to 8).
    pub open spec fn spec_from_code(v: u8) -> Option<Fsdi> {
        if v == 0 {
            Some(Fsdi::Fsd16)
        } else if v == 1 {
            Some(Fsdi::Fsd24)
        } else if v == 2 {
            Some(Fsdi::Fsd32)
        } else if v == 3 {
            Some(Fsdi::Fsd40)
        } else if v == 4 {
            Some(Fsdi::Fsd48)
        } else if v == 5 {
            Some(Fsdi::Fsd64)
        } else if v == 6 {
            Some(Fsdi::Fsd96)
        } else if v == 7 {
            Some(Fsdi::Fsd128)
        } else if v == 8 {
            Some(Fsdi::Fsd256)
        } else {
            None
        }
    }

    /// The frame size in bytes.
    pub open spec fn spec_fsd(self) -> usize {
        match self {
            Fsdi::Fsd16 => 16,
            Fsdi::Fsd24 => 24,
            Fsdi::Fsd32 => 32,
            Fsdi::Fsd40 => 40,
            Fsdi::Fsd48 => 48,
            Fsdi::Fsd64 => 64,
            Fsdi::Fsd96 => 96,
            Fsdi::Fsd128 => 128,
            Fsdi::Fsd256 => 256,
        }
    }

    /// The FSD defines the maximum size of a frame the PCD is able to receive.
    pub fn fsd(&self) -> (r: usize)
        ensures
            r == self.spec_fsd(),
    {
        match self {
            Fsdi::Fsd16 => 16,
            Fsdi::Fsd24 => 24,
            Fsdi::Fsd32 => 32,
            Fsdi::Fsd40 => 40,
            Fsdi::Fsd48 => 48,
            Fsdi::Fsd64 => 64,
            Fsdi::Fsd96 => 96,
            Fsdi::Fsd128 => 128,
            Fsdi::Fsd256 => 256,
        }
    }
}

impl FromSpecImpl<Fsdi> for u8 {
    open spec fn obeys_from_spec() -> bool {
        true
    }

    open spec fn from_spec(v: Fsdi) -> u8 {
        v.spec_code()
    }
}

impl From<Fsdi> for u8 {
    fn from(v: Fsdi) -> (r: u8) {
        match v {
            Fsdi::Fsd16 => 0,
            Fsdi::Fsd24 => 1,
            Fsdi::Fsd32 => 2,
            Fsdi::Fsd40 => 3,
            Fsdi::Fsd48 => 4,
            Fsdi::Fsd64 => 5,
            Fsdi::Fsd96 => 6,
            Fsdi::Fsd128 => 7,
            Fsdi::Fsd256 => 8,
        }
    }
}

impl TryFromSpecImpl<u8> for Fsdi {
    open spec fn obeys_try_from_spec() -> bool {
        true
    }

    open spec fn try_from_spec(v: u8) -> Result<Self, u8> {
        match Fsdi::spec_from_code(v) {
            Some(f) => Ok(f),
            None => Err(v),
        }
    }
}

impl TryFrom<u8> for Fsdi {
    /// The rejected number.
    type Error = u8;

    fn try_from(v: u8) -> (r: Result<Self, u8>) {
        if v == 0 {
            Ok(Fsdi::Fsd16)
        } else if v == 1 {
            Ok(Fsdi::Fsd24)
        } else if v == 2 {
            Ok(Fsdi::Fsd32)
        } else if v == 3 {
            Ok(Fsdi::Fsd40)
        } else if v == 4 {
            Ok(Fsdi::Fsd48)
        } else if v == 5 {
            Ok(Fsdi::Fsd64)
        } else if v == 6 {
            Ok(Fsdi::Fsd96)
        } else if v == 7 {
            Ok(Fsdi::Fsd128)
        } else if v == 8 {
            Ok(Fsdi::Fsd256)
        } else {
            Err(v)
        }
    }
}

/// ISO/IEC 14443-4
/// 5.1 Request for answer to select
/// Figure 3 - Coding of RATS paramter byte
#[derive(Debug, Clone, Copy, PartialEq, Eq, Structural)]
pub struct RatsParam(Fsdi, Cid);

/// The RATS parameter byte: FSDI in the high nibble, CID in the low one.
pub open spec fn spec_rats_byte(fsdi: Fsdi, cid: Cid) -> u8 {
    ((fsdi.spec_code() << 4u8) | cid.spec_value()) as u8
}

impl RatsParam {
    pub closed spec fn spec_fsdi(self) -> Fsdi {
        self.0
    }

    pub closed spec fn spec_cid(self) -> Cid {
        self.1
    }

    /// The parameter with the given FSDI and CID.
    pub closed spec fn spec_make(fsdi: Fsdi, cid: Cid) -> RatsParam {
        RatsParam(fsdi, cid)
    }

    /// The parameter with the given FSDI and CID.
    pub fn new(fsdi: Fsdi, cid: Cid) -> (r: Self)
        ensures
            r == RatsParam::spec_make(fsdi, cid),
            r.spec_fsdi() == fsdi,
            r.spec_cid() == cid,
    {
        RatsParam(fsdi, cid)
    }

    pub fn fsdi(&self) -> (r: Fsdi)
        ensures
            r == self.spec_fsdi(),
    {
        self.0
    }

    pub fn cid(&self) -> (r: Cid)
        ensures
            r == self.spec_cid(),
    {
        self.1
    }
}

/// The result of parsing a RATS parameter byte.
pub open spec fn spec_rats_param_parse(v: u8) -> Result<(Fsdi, Cid), TypeAError> {
    match Fsdi::spec_from_code(v >> 4u8) {
        None => Err(TypeAError::Other),
        Some(fsdi) => if v & 0x0f <= 14 {
            Ok((fsdi, Cid::spec_new(v & 0x0f)))
        } else {
            Err(TypeAError::Other)
        },
    }
}

impl FromSpecImpl<&RatsParam> for u8 {
    open spec fn obeys_from_spec() -> bool {
        true
    }

    open spec fn from_spec(v: &RatsParam) -> u8 {
        spec_rats_byte(v.spec_fsdi(), v.spec_cid())
    }
}

impl From<&RatsParam> for u8 {
    fn from(value: &RatsParam) -> (r: u8) {
        let f = u8::from(value.0);
        let c = value.1.value();
        assert(f << 4u8 <= 0x80u8) by (bit_vector)
            requires
                f <= 8,
        ;
        (f << 4) | c
    }
}

impl TryFromSpecImpl<u8> for RatsParam {
    open spec fn obeys_try_from_spec() -> bool {
        true
    }

    open spec fn try_from_spec(v: u8) -> Result<Self, TypeAError> {
        match spec_rats_param_parse(v) {
            Ok((fsdi, cid)) => Ok(RatsParam::spec_make(fsdi, cid)),
            Err(e) => Err(e),
        }
    }
}

impl TryFrom<u8> for RatsParam {
    type Error = TypeAError;

    fn try_from(value: u8) -> (r: Result<Self, TypeAError>) {
        let fsdi = match Fsdi::try_from(value >> 4) {
            Ok(f) => f,
            Err(_) => {
                return Err(TypeAError::Other);
            },
        };
        let cid = match Cid::new(value & 0xf) {
            Some(c) => c,
            None => {
                return Err(TypeAError::Other);
            },
        };
        Ok(Self(fsdi, cid))
    }
}

/// The FSDI and CID of the parameter made from them.
pub broadcast proof fn lemma_rats_param_fields(fsdi: Fsdi, cid: Cid)
    ensures
        #[trigger] RatsParam::spec_make(fsdi, cid).spec_fsdi() == fsdi,
        RatsParam::spec_make(fsdi, cid).spec_cid() == cid,
{
}

/// Reading back the parameter byte of a RATS gives the same parameter.
pub proof fn lemma_rats_param_roundtrip(p: RatsParam)
    requires
        p.spec_cid().spec_value() <= 14,
    ensures
        <RatsParam as TryFromSpec<u8>>::try_from_spec(spec_rats_byte(p.spec_fsdi(), p.spec_cid()))
            == Ok::<RatsParam, TypeAError>(p),
{
    let fsdi = p.spec_fsdi();
    let cid = p.spec_cid();
    let f = fsdi.spec_code();
    let c = cid.spec_value();
    assert((((f << 4u8) | c) as u8) >> 4u8 == f && (((f << 4u8) | c) as u8) & 0x0f == c) by (bit_vector)
        requires
            f <= 8,
            c <= 14,
    ;
}

} // verus!
