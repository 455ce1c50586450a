//! ISO14443-4 5.2: ATS (answer to select).

use super::crc::{crc_a, crc_accepted, extend_bytes, spec_crc_a, with_crc_a};
use super::vec::FrameVec;
use super::TypeAError;
use std::time::Duration;
use vstd::prelude::*;
use vstd::slice::slice_subrange;
use vstd::std_specs::convert::TryFromSpecImpl;

verus! {

/// What `Duration::from_micros` returns for a number of microseconds.
pub uninterp spec fn duration_from_micros(micros: u64) -> Duration;

/// `std::time::Duration::from_micros`: the duration of `micros`
/// microseconds.
#[verifier::external_body]
fn micros_to_duration(micros: u64) -> (r: Duration)
    ensures
        r == duration_from_micros(micros),
{
    Duration::from_micros(micros)
}

/// ISO/IEC 14443-4
/// Table 1 - FSCI to FSC conversion
#[derive(Debug, Clone, Copy, PartialEq, Eq, Structural)]
pub enum Fsci {
    Fsc16,
    Fsc24,
    Fsc32,
    Fsc40,
    Fsc48,
    Fsc64,
    Fsc96,
    Fsc128,
    Fsc256,
}

impl Fsci {
    /// The 4-bit code of the FSCI.
    pub open spec fn spec_code(self) -> u8 {
        match self {
            Fsci::Fsc16 => 0,
            Fsci::Fsc24 => 1,
            Fsci::Fsc32 => 2,
            Fsci::Fsc40 => 3,
            Fsci::Fsc48 => 4,
            Fsci::Fsc64 => 5,
            Fsci::Fsc96 => 6,
            Fsci::Fsc128 => 7,
            Fsci::Fsc256 => 8,
        }
    }

    /// The FSCI with the given code (codes 0 to 8).
    pub open spec fn spec_from_code(v: u8) -> Option<Fsci> {
        if v == 0 {
            Some(Fsci::Fsc16)
        } else if v == 1 {
            Some(Fsci::Fsc24)
        } else if v == 2 {
            Some(Fsci::Fsc32)
        } else if v == 3 {
            Some(Fsci::Fsc40)
        } else if v == 4 {
            Some(Fsci::Fsc48)
        } else if v == 5 {
            Some(Fsci::Fsc64)
        } else if v == 6 {
            Some(Fsci::Fsc96)
        } else if v == 7 {
            Some(Fsci::Fsc128)
        } else if v == 8 {
            Some(Fsci::Fsc256)
        } else {
            None
        }
    }

    /// The frame size in bytes.
    pub open spec fn spec_fsc(self) -> usize {
        match self {
            Fsci::Fsc16 => 16,
            Fsci::Fsc24 => 24,
            Fsci::Fsc32 => 32,
            Fsci::Fsc40 => 40,
            Fsci::Fsc48 => 48,
            Fsci::Fsc64 => 64,
            Fsci::Fsc96 => 96,
            Fsci::Fsc128 => 128,
            Fsci::Fsc256 => 256,
        }
    }

    /// The FSC defines the maximum size of a frame accepted by the PICC.
    pub fn fsc(&self) -> (r: usize)
        ensures
            r == self.spec_fsc(),
    {
        match self {
            Fsci::Fsc16 => 16,
            Fsci::Fsc24 => 24,
            Fsci::Fsc32 => 32,
            Fsci::Fsc40 => 40,
            Fsci::Fsc48 => 48,
            Fsci::Fsc64 => 64,
            Fsci::Fsc96 => 96,
            Fsci::Fsc128 => 128,
            Fsci::Fsc256 => 256,
        }
    }

    /// The 4-bit code of the FSCI.
    pub fn code(&self) -> (r: u8)
        ensures
            r == self.spec_code(),
    {
        match self {
            Fsci::Fsc16 => 0,
            Fsci::Fsc24 => 1,
            Fsci::Fsc32 => 2,
            Fsci::Fsc40 => 3,
            Fsci::Fsc48 => 4,
            Fsci::Fsc64 => 5,
            Fsci::Fsc96 => 6,
            Fsci::Fsc128 => 7,
            Fsci::Fsc256 => 8,
        }
    }

    /// The FSCI with the given code (codes 0 to 8).
    pub fn from_code(v: u8) -> (r: Option<Fsci>)
        ensures
            r == Fsci::spec_from_code(v),
    {
        if v == 0 {
            Some(Fsci::Fsc16)
        } else if v == 1 {
            Some(Fsci::Fsc24)
        } else if v == 2 {
            Some(Fsci::Fsc32)
        } else if v == 3 {
            Some(Fsci::Fsc40)
        } else if v == 4 {
            Some(Fsci::Fsc48)
        } else if v == 5 {
            Some(Fsci::Fsc64)
        } else if v == 6 {
            Some(Fsci::Fsc96)
        } else if v == 7 {
            Some(Fsci::Fsc128)
        } else if v == 8 {
            Some(Fsci::Fsc256)
        } else {
            None
        }
    }
}

impl Default for Fsci {
    fn default() -> (r: Self)
        ensures
            r == Fsci::Fsc32,
    {
        Fsci::Fsc32
    }
}

/// ISO/IEC 14443-4
/// Figure 5 - Coding of format byte
#[derive(Debug, Clone, Copy, PartialEq, Eq, Structural)]
pub struct Format {
    pub fsci: Fsci,
    pub ta_transmitted: bool,
    pub tb_transmitted: bool,
    pub tc_transmitted: bool,
}

/// The format used when the ATS carries no format byte.
pub open spec fn spec_default_format() -> Format {
    Format { fsci: Fsci::Fsc32, ta_transmitted: false, tb_transmitted: false, tc_transmitted: false }
}

impl Default for Format {
    fn default() -> (r: Self)
        ensures
            r == spec_default_format(),
    {
        Format {
            fsci: Fsci::Fsc32,
            ta_transmitted: false,
            tb_transmitted: false,
            tc_transmitted: false,
        }
    }
}

/// The result of parsing the format byte T0.
pub open spec fn spec_format_parse(b: u8) -> Result<Format, TypeAError> {
    match Fsci::spec_from_code(b & 0x0f) {
        None => Err(TypeAError::Other),
        Some(fsci) => Ok(
            Format {
                fsci,
                ta_transmitted: b & 0x10 == 0x10,
                tb_transmitted: b & 0x20 == 0x20,
                tc_transmitted: b & 0x40 == 0x40,
            },
        ),
    }
}

/// The format byte T0 of a format.
pub open spec fn spec_format_byte(f: Format) -> u8 {
    (f.fsci.spec_code() | (if f.ta_transmitted {
        0x10u8
    } else {
        0u8
    }) | (if f.tb_transmitted {
        0x20u8
    } else {
        0u8
    }) | (if f.tc_transmitted {
        0x40u8
    } else {
        0u8
    })) as u8
}

impl TryFromSpecImpl<u8> for Format {
    open spec fn obeys_try_from_spec() -> bool {
        true
    }

    open spec fn try_from_spec(b: u8) -> Result<Self, TypeAError> {
        spec_format_parse(b)
    }
}

impl TryFrom<u8> for Format {
    type Error = TypeAError;

    fn try_from(value: u8) -> (r: Result<Self, TypeAError>) {
        let fsci = match Fsci::from_code(value & 0b0000_1111) {
            Some(f) => f,
            None => {
                return Err(TypeAError::Other);
            },
        };
        Ok(
            Self {
                fsci,
                ta_transmitted: value & 0b0001_0000 == 0b0001_0000,
                tb_transmitted: value & 0b0010_0000 == 0b0010_0000,
                tc_transmitted: value & 0b0100_0000 == 0b0100_0000,
            },
        )
    }
}

impl Format {
    /// The format byte T0.
    pub fn to_byte(&self) -> (r: u8)
        ensures
            r == spec_format_byte(*self),
    {
        let ta: u8 = if self.ta_transmitted {
            0x10
        } else {
            0
        };
        let tb: u8 = if self.tb_transmitted {
            0x20
        } else {
            0
        };
        let tc: u8 = if self.tc_transmitted {
            0x40
        } else {
            0
        };
        self.fsci.code() | ta | tb | tc
    }
}

/// ISO/IEC 14443-4
/// 5.2.4 Interface byte TA(1)
/// Figure 6 - Coding of interface byte TA(1)
#[derive(Debug, Clone, Copy, PartialEq, Eq, Structural)]
pub struct Ta(pub u8);

/// All the bits that `Ta` names.
pub const TA_ALL: u8 = 0xF7;

impl Ta {
    // The named bits.
    pub const DR2_SUPP: u8 = 0b0000_0001;
    pub const DR4_SUPP: u8 = 0b0000_0010;
    pub const DR8_SUPP: u8 = 0b0000_0100;
    pub const DS2_SUPP: u8 = 0b0001_0000;
    pub const DS4_SUPP: u8 = 0b0010_0000;
    pub const DS8_SUPP: u8 = 0b0100_0000;
    pub const SAME_D_SUPP: u8 = 0b1000_0000;

    /// The named bits of `bits`; the others are dropped.
    pub fn from_bits_truncate(bits: u8) -> (r: Self)
        ensures
            r.0 == bits & TA_ALL,
    {
        Ta(bits & TA_ALL)
    }

    pub fn bits(&self) -> (r: u8)
        ensures
            r == self.0,
    {
        self.0
    }
}

impl Default for Ta {
    fn default() -> (r: Self)
        ensures
            r.0 == 0,
    {
        Ta(0)
    }
}

/// SFGI, coded in the range from 0 to 14.
#[derive(Debug, Clone, Copy, PartialEq, Eq, Structural)]
pub struct Sfgi(u8);

/// FWI, coded in the range from 0 to 14.
#[derive(Debug, Clone, Copy, PartialEq, Eq, Structural)]
pub struct Fwi(u8);

/// (256 x 16 / fc) in microseconds, with fc = 13.56 MHz, truncated: the
/// unit of the frame waiting time and of the start-up frame guard time.
pub const TIME_UNIT_MICROS: u64 = 302;

/// `unit x 2^e` microseconds.
pub open spec fn spec_scaled_micros(e: u8) -> u64 {
    (TIME_UNIT_MICROS * (1u64 << e)) as u64
}

proof fn lemma_scaled_micros(e: u8)
    requires
        e <= 14,
    ensures
        (1u64 << e) <= 16384,
        TIME_UNIT_MICROS * (1u64 << e) <= 302 * 16384,
{
    assert((1u64 << e) <= 16384) by (bit_vector)
        requires
            e <= 14,
    ;
}

impl Sfgi {
    #[verifier::type_invariant]
    spec fn in_range(self) -> bool {
        self.0 <= 14
    }

    pub closed spec fn spec_value(self) -> u8 {
        self.0
    }

    /// The SFGI with the given code (meaningful for codes up to 14).
    pub closed spec fn spec_new(v: u8) -> Sfgi {
        Sfgi(v)
    }

    /// The SFGT in microseconds: none for 0, else unit x 2^SFGI.
    pub open spec fn spec_sfgt_micros(self) -> u64 {
        if self.spec_value() > 0 {
            spec_scaled_micros(self.spec_value())
        } else {
            0
        }
    }

    pub fn value(&self) -> (r: u8)
        ensures
            r == self.spec_value(),
            r <= 14,
    {
        proof {
            use_type_invariant(self);
        }
        self.0
    }

    /// The SFGT defines a specific guard time needed by the PICC before it is ready to receive the next frame after it has sent the ATS.
    pub fn sfgt(&self) -> (r: Duration)
        ensures
            r == duration_from_micros(self.spec_sfgt_micros()),
    {
        let s = self.value();
        // The value of 0 indicates no SFGT needed and the values in the range from 1 to 14 are used to calculate the SFGT with the formula given below.
        if s > 0 {
            proof {
                lemma_scaled_micros(s);
            }
            micros_to_duration(TIME_UNIT_MICROS * (1u64 << s))
        } else {
            micros_to_duration(0)
        }
    }
}

impl Default for Sfgi {
    fn default() -> (r: Self)
        ensures
            r.spec_value() == 0,
    {
        Sfgi(0)
    }
}

impl TryFromSpecImpl<u8> for Sfgi {
    open spec fn obeys_try_from_spec() -> bool {
        true
    }

    open spec fn try_from_spec(v: u8) -> Result<Self, TypeAError> {
        if v <= 14 {
            Ok(Sfgi::spec_new(v))
        } else {
            Err(TypeAError::Other)
        }
    }
}

impl TryFrom<u8> for Sfgi {
    type Error = TypeAError;

    fn try_from(value: u8) -> (r: Result<Self, TypeAError>) {
        if value <= 14 {
            Ok(Self(value))
        } else {
            Err(TypeAError::Other)
        }
    }
}

impl Fwi {
    #[verifier::type_invariant]
    spec fn in_range(self) -> bool {
        self.0 <= 14
    }

    pub closed spec fn spec_value(self) -> u8 {
        self.0
    }

    /// The FWI with the given code (meaningful for codes up to 14).
    pub closed spec fn spec_new(v: u8) -> Fwi {
        Fwi(v)
    }

    /// The FWT in microseconds: unit x 2^FWI.
    pub open spec fn spec_fwt_micros(self) -> u64 {
        spec_scaled_micros(self.spec_value())
    }

    pub fn value(&self) -> (r: u8)
        ensures
            r == self.spec_value(),
            r <= 14,
    {
        proof {
            use_type_invariant(self);
        }
        self.0
    }

    /// FWT is calculated by the following formula:
    /// FWT = (256 x 16 / fc) x 2^FWI
    pub fn fwt(&self) -> (r: Duration)
        ensures
            r == duration_from_micros(self.spec_fwt_micros()),
    {
        let f = self.value();
        proof {
            lemma_scaled_micros(f);
        }
        micros_to_duration(TIME_UNIT_MICROS * (1u64 << f))
    }
}

/// The default value of FWI is 4, which gives a FWT value of ~ 4,8 ms.
impl Default for Fwi {
    fn default() -> (r: Self)
        ensures
            r.spec_value() == 4,
    {
        Fwi(4)
    }
}

impl TryFromSpecImpl<u8> for Fwi {
    open spec fn obeys_try_from_spec() -> bool {
        true
    }

    open spec fn try_from_spec(v: u8) -> Result<Self, TypeAError> {
        if v <= 14 {
            Ok(Fwi::spec_new(v))
        } else {
            Err(TypeAError::Other)
        }
    }
}

impl TryFrom<u8> for Fwi {
    type Error = TypeAError;

    fn try_from(value: u8) -> (r: Result<Self, TypeAError>) {
        if value <= 14 {
            Ok(Self(value))
        } else {
            Err(TypeAError::Other)
        }
    }
}

/// ISO/IEC 14443-4
/// 5.2.5 Interface byte TB(1)
/// Figure 7 - Coding of interface byte TB(1)
#[derive(Debug, Clone, Copy, PartialEq, Eq, Structural)]
pub struct Tb {
    pub sfgi: Sfgi,
    pub fwi: Fwi,
}

/// The TB used when the ATS carries none: SFGI 0, FWI 4.
pub open spec fn spec_default_tb() -> Tb {
    Tb { sfgi: Sfgi::spec_new(0), fwi: Fwi::spec_new(4) }
}

impl Default for Tb {
    fn default() -> (r: Self)
        ensures
            r == spec_default_tb(),
    {
        Tb { sfgi: Sfgi(0), fwi: Fwi(4) }
    }
}

/// The result of parsing the TB byte: SFGI in the low nibble, FWI in the
/// high one, each at most 14.
pub open spec fn spec_tb_parse(b: u8) -> Result<Tb, TypeAError> {
    if b & 0x0f > 14 {
        Err(TypeAError::Other)
    } else if b >> 4u8 > 14 {
        Err(TypeAError::Other)
    } else {
        Ok(Tb { sfgi: Sfgi::spec_new(b & 0x0f), fwi: Fwi::spec_new(b >> 4u8) })
    }
}

/// The TB byte.
pub open spec fn spec_tb_byte(t: Tb) -> u8 {
    ((t.fwi.spec_value() << 4u8) | t.sfgi.spec_value()) as u8
}

impl TryFromSpecImpl<u8> for Tb {
    open spec fn obeys_try_from_spec() -> bool {
        true
    }

    open spec fn try_from_spec(b: u8) -> Result<Self, TypeAError> {
        spec_tb_parse(b)
    }
}

impl TryFrom<u8> for Tb {
    type Error = TypeAError;

    fn try_from(value: u8) -> (r: Result<Self, TypeAError>) {
        let sfgi = match Sfgi::try_from(value & 0xf) {
            Ok(s) => s,
            Err(e) => {
                return Err(e);
            },
        };
        let fwi = match Fwi::try_from(value >> 4) {
            Ok(f) => f,
            Err(e) => {
                return Err(e);
            },
        };
        Ok(Self { sfgi, fwi })
    }
}

impl Tb {
    /// The TB byte.
    pub fn to_byte(&self) -> (r: u8)
        ensures
            r == spec_tb_byte(*self),
    {
        let f = self.fwi.value();
        let s = self.sfgi.value();
        assert(f << 4u8 <= 0xE0u8) by (bit_vector)
            requires
                f <= 14,
        ;
        (f << 4) | s
    }
}

/// ISO/IEC 14443-4
/// 5.2.6 Interface byte TC(1)
/// Figure 8 - Coding of interface byte TC(1)
#[derive(Debug, Clone, Copy, PartialEq, Eq, Structural)]
pub struct Tc(pub u8);

/// All the bits that `Tc` names.
pub const TC_ALL: u8 = 0x03;

impl Tc {
    // The named bits.
    pub const NAD_SUPP: u8 = 0b0000_0001;
    pub const CID_SUPP: u8 = 0b0000_0010;

    /// The named bits of `bits`; the others are dropped.
    pub fn from_bits_truncate(bits: u8) -> (r: Self)
        ensures
            r.0 == bits & TC_ALL,
    {
        Tc(bits & TC_ALL)
    }

    pub fn bits(&self) -> (r: u8)
        ensures
            r == self.0,
    {
        self.0
    }
}

/// The default value shall be (10)b indicating CID supported and NAD not supported.
impl Default for Tc {
    fn default() -> (r: Self)
        ensures
            r.0 == 0x02,
    {
        Tc(0b0000_0010)
    }
}

/// ISO/IEC 14443-4
/// 5.2 Answer to select
#[derive(Debug, PartialEq, Eq)]
pub struct Ats {
    pub length: u8,
    pub format: Format,
    pub ta: Ta,
    pub tb: Tb,
    pub tc: Tc,
    pub historical_bytes: Vec<u8>,
}

/// The content of an ATS, with its historical bytes as a sequence.
pub struct AtsModel {
    pub length: u8,
    pub format: Format,
    pub ta: Ta,
    pub tb: Tb,
    pub tc: Tc,
    pub historical_bytes: Seq<u8>,
}

impl View for Ats {
    type V = AtsModel;

    open spec fn view(&self) -> AtsModel {
        AtsModel {
            length: self.length,
            format: self.format,
            ta: self.ta,
            tb: self.tb,
            tc: self.tc,
            historical_bytes: self.historical_bytes@,
        }
    }
}

impl Clone for Ats {
    fn clone(&self) -> (r: Self)
        ensures
            r@ == self@,
    {
        Ats {
            length: self.length,
            format: self.format,
            ta: self.ta,
            tb: self.tb,
            tc: self.tc,
            historical_bytes: self.historical_bytes.clone(),
        }
    }
}

/// The result of parsing an ATS frame: TL, then T0 when TL > 1 (else the
/// default format, with no interface bytes), then the interface bytes that
/// T0 announces, the historical bytes, and CRC_A (or
/// `(0, 0)`), with TL the length of the frame without its CRC.
pub open spec fn spec_ats_parse(v: Seq<u8>) -> Result<AtsModel, TypeAError> {
    if v.len() == 0 {
        Err(TypeAError::InvalidLength)
    } else if v.len() != v[0] + 2 {
        Err(TypeAError::InvalidLength)
    } else {
        let length = v[0];
        let fr = if length > 1 {
            spec_format_parse(v[1])
        } else {
            Ok(spec_default_format())
        };
        // The interface bytes follow T0, or TL when there is no T0.
        let o0: int = if length > 1 {
            2
        } else {
            1
        };
        match fr {
            Err(e) => Err(e),
            Ok(format) => {
                // TA
                if format.ta_transmitted && v.len() < o0 + 2 {
                    Err(TypeAError::InvalidLength)
                } else {
                    let ta = if format.ta_transmitted {
                        Ta(v[o0] & TA_ALL)
                    } else {
                        Ta(0)
                    };
                    let o1: int = if format.ta_transmitted {
                        o0 + 1
                    } else {
                        o0
                    };
                    // TB
                    if format.tb_transmitted && v.len() < o1 + 2 {
                        Err(TypeAError::InvalidLength)
                    } else {
                        let tbr = if format.tb_transmitted {
                            spec_tb_parse(v[o1])
                        } else {
                            Ok(spec_default_tb())
                        };
                        match tbr {
                            Err(e) => Err(e),
                            Ok(tb) => {
                                let o2: int = if format.tb_transmitted {
                                    o1 + 1
                                } else {
                                    o1
                                };
                                // TC
                                if format.tc_transmitted && v.len() < o2 + 2 {
                                    Err(TypeAError::InvalidLength)
                                } else {
                                    let tc = if format.tc_transmitted {
                                        Tc(v[o2] & TC_ALL)
                                    } else {
                                        Tc(0x02)
                                    };
                                    let o3: int = if format.tc_transmitted {
                                        o2 + 1
                                    } else {
                                        o2
                                    };
                                    if v.len() < o3 + 2 {
                                        Err(TypeAError::InvalidLength)
                                    } else {
                                        let body = v.take(v.len() - 2);
                                        if crc_accepted(body, (v[v.len() - 2], v[v.len() - 1])) {
                                            Ok(
                                                AtsModel {
                                                    length,
                                                    format,
                                                    ta,
                                                    tb,
                                                    tc,
                                                    historical_bytes: v.subrange(o3, v.len() - 2),
                                                },
                                            )
                                        } else {
                                            Err(TypeAError::InvalidCrc(spec_crc_a(body)))
                                        }
                                    }
                                }
                            },
                        }
                    }
                }
            },
        }
    }
}

/// The ATS bytes without CRC: TL, T0, the interface bytes that T0
/// announces, then the historical bytes.
pub open spec fn spec_ats_bytes(a: AtsModel) -> Seq<u8> {
    seq![a.length, spec_format_byte(a.format)] + (if a.format.ta_transmitted {
        seq![a.ta.0]
    } else {
        Seq::<u8>::empty()
    }) + (if a.format.tb_transmitted {
        seq![spec_tb_byte(a.tb)]
    } else {
        Seq::<u8>::empty()
    }) + (if a.format.tc_transmitted {
        seq![a.tc.0]
    } else {
        Seq::<u8>::empty()
    }) + a.historical_bytes
}

impl Ats {
    /// An ATS with all three interface bytes and no historical bytes.
    pub fn new(fsci: Fsci, ta: Ta, tb: Tb, tc: Tc) -> (r: Self)
        ensures
            r@ == (AtsModel {
                length: 5,
                format: Format {
                    fsci,
                    ta_transmitted: true,
                    tb_transmitted: true,
                    tc_transmitted: true,
                },
                ta,
                tb,
                tc,
                historical_bytes: Seq::empty(),
            }),
    {
        Ats {
            length: 5,
            format: Format {
                fsci,
                ta_transmitted: true,
                tb_transmitted: true,
                tc_transmitted: true,
            },
            ta,
            tb,
            tc,
            historical_bytes: Vec::new(),
        }
    }

    /// The ATS bytes without CRC.
    pub fn to_bytes(&self) -> (r: Result<FrameVec, TypeAError>)
        ensures
            r matches Ok(v) && v@ == spec_ats_bytes(self@),
    {
        let mut v: Vec<u8> = Vec::new();
        v.push(self.length);
        v.push(self.format.to_byte());
        if self.format.ta_transmitted {
            v.push(self.ta.bits());
        }
        if self.format.tb_transmitted {
            v.push(self.tb.to_byte());
        }
        if self.format.tc_transmitted {
            v.push(self.tc.bits());
        }
        extend_bytes(&mut v, self.historical_bytes.as_slice());
        assert(v@ =~= spec_ats_bytes(self@));
        Ok(v)
    }
}

impl TryFromSpecImpl<&[u8]> for Ats {
    /// An ATS holds a `Vec`, which no spec function builds: what parsing
    /// gives is stated over the view of the ATS, by `spec_ats_parse` in the
    /// `ensures` of `try_from`, not by this trait.
    open spec fn obeys_try_from_spec() -> bool {
        false
    }

    open spec fn try_from_spec(value: &[u8]) -> Result<Self, TypeAError> {
        arbitrary()
    }
}

impl TryFrom<&[u8]> for Ats {
    type Error = TypeAError;

    fn try_from(value: &[u8]) -> (r: Result<Self, TypeAError>)
        ensures
            match r {
                Ok(a) => spec_ats_parse(value@) == Ok::<AtsModel, TypeAError>(a@),
                Err(e) => spec_ats_parse(value@) == Err::<AtsModel, TypeAError>(e),
            },
    {
        if value.len() == 0 {
            return Err(TypeAError::InvalidLength);
        }
        let length = value[0];
        if value.len() != length as usize + 2 {
            return Err(TypeAError::InvalidLength);
        }
        let format = if length > 1 {
            match Format::try_from(value[1]) {
                Ok(f) => f,
                Err(e) => {
                    return Err(e);
                },
            }
        } else {
            Format::default()
        };
        // The interface bytes follow T0, or TL when there is no T0.
        let mut offset: usize = if length > 1 {
            2
        } else {
            1
        };
        let ta = if format.ta_transmitted {
            if value.len() >= offset + 2 {
                offset = offset + 1;
                Ta::from_bits_truncate(value[offset - 1])
            } else {
                return Err(TypeAError::InvalidLength);
            }
        } else {
            Ta::default()
        };
        let tb = if format.tb_transmitted {
            if value.len() >= offset + 2 {
                offset = offset + 1;
                match Tb::try_from(value[offset - 1]) {
                    Ok(t) => t,
                    Err(e) => {
                        return Err(e);
                    },
                }
            } else {
                return Err(TypeAError::InvalidLength);
            }
        } else {
            Tb::default()
        };
        let tc = if format.tc_transmitted {
            if value.len() >= offset + 2 {
                offset = offset + 1;
                Tc::from_bits_truncate(value[offset - 1])
            } else {
                return Err(TypeAError::InvalidLength);
            }
        } else {
            Tc::default()
        };
        // The frame must still hold its two CRC bytes.
        if value.len() < offset + 2 {
            return Err(TypeAError::InvalidLength);
        }
        let historical_bytes_len = value.len() - offset - 2;
        let mut historical_bytes: Vec<u8> = Vec::new();
        extend_bytes(
            &mut historical_bytes,
            slice_subrange(value, offset, offset + historical_bytes_len),
        );
        offset = offset + historical_bytes_len;
        let body = slice_subrange(value, 0, offset);
        let good = crc_a(body);
        proof {
            assert(body@ =~= value@.take(value.len() - 2));
        }
        let crc1 = value[offset];
        let crc2 = value[offset + 1];
        if (good.0 == crc1 && good.1 == crc2) || (crc1 == 0 && crc2 == 0) {
            Ok(Self { length, format, ta, tb, tc, historical_bytes })
        } else {
            Err(TypeAError::InvalidCrc(good))
        }
    }
}

/// Whether an ATS is one that its bytes code exactly: TL is the length of
/// the frame without CRC, the interface bytes not sent hold their default,
/// and those sent hold only named bits and codes up to 14.
pub open spec fn spec_ats_canonical(a: AtsModel) -> bool {
    &&& a.length as int == 2 + (if a.format.ta_transmitted {
        1int
    } else {
        0
    }) + (if a.format.tb_transmitted {
        1int
    } else {
        0
    }) + (if a.format.tc_transmitted {
        1int
    } else {
        0
    }) + a.historical_bytes.len()
    &&& if a.format.ta_transmitted {
        a.ta.0 & TA_ALL == a.ta.0
    } else {
        a.ta.0 == 0
    }
    &&& if a.format.tb_transmitted {
        a.tb.sfgi.spec_value() <= 14 && a.tb.fwi.spec_value() <= 14
    } else {
        a.tb == spec_default_tb()
    }
    &&& if a.format.tc_transmitted {
        a.tc.0 & TC_ALL == a.tc.0
    } else {
        a.tc.0 == 0x02
    }
}

proof fn lemma_format_roundtrip(f: Format)
    ensures
        spec_format_parse(spec_format_byte(f)) == Ok::<Format, TypeAError>(f),
{
    let c = f.fsci.spec_code();
    let a = f.ta_transmitted;
    let b = f.tb_transmitted;
    let d = f.tc_transmitted;
    let x = spec_format_byte(f);
    assert(x & 0x0f == c && (x & 0x10 == 0x10) == a && (x & 0x20 == 0x20) == b && (x & 0x40
        == 0x40) == d) by (bit_vector)
        requires
            c <= 8,
            x == (c | (if a {
                0x10u8
            } else {
                0u8
            }) | (if b {
                0x20u8
            } else {
                0u8
            }) | (if d {
                0x40u8
            } else {
                0u8
            })) as u8,
    ;
}

proof fn lemma_tb_roundtrip(t: Tb)
    requires
        t.sfgi.spec_value() <= 14,
        t.fwi.spec_value() <= 14,
    ensures
        spec_tb_parse(spec_tb_byte(t)) == Ok::<Tb, TypeAError>(t),
{
    let s = t.sfgi.spec_value();
    let f = t.fwi.spec_value();
    assert((((f << 4u8) | s) as u8) & 0x0f == s && (((f << 4u8) | s) as u8) >> 4u8 == f) by (bit_vector)
        requires
            s <= 14,
            f <= 14,
    ;
    assert(Sfgi::spec_new(s) == t.sfgi);
    assert(Fwi::spec_new(f) == t.fwi);
}

/// An ATS of TL alone (TL 1, no T0), followed by its CRC_A or by `(0, 0)`,
/// is accepted with the default format (FSC 32, no interface bytes) and no
/// historical bytes.
pub proof fn lemma_minimal_ats(c: (u8, u8))
    requires
        crc_accepted(seq![1u8], c),
    ensures
        spec_ats_parse(seq![1u8, c.0, c.1]) == Ok::<AtsModel, TypeAError>(
            AtsModel {
                length: 1,
                format: spec_default_format(),
                ta: Ta(0),
                tb: spec_default_tb(),
                tc: Tc(0x02),
                historical_bytes: Seq::empty(),
            },
        ),
{
    let v = seq![1u8, c.0, c.1];
    assert(v.take(1) =~= seq![1u8]);
    assert(v.subrange(1, 1) =~= Seq::<u8>::empty());
}

/// The code of the SFGI made from a code is that code.
pub broadcast proof fn lemma_sfgi_new_value(v: u8)
    ensures
        #[trigger] Sfgi::spec_new(v).spec_value() == v,
{
}

/// An SFGI is the one made from its code.
pub broadcast proof fn lemma_sfgi_from_value(s: Sfgi)
    ensures
        Sfgi::spec_new(#[trigger] s.spec_value()) == s,
{
}

/// The code of the FWI made from a code is that code.
pub broadcast proof fn lemma_fwi_new_value(v: u8)
    ensures
        #[trigger] Fwi::spec_new(v).spec_value() == v,
{
}

/// An FWI is the one made from its code.
pub broadcast proof fn lemma_fwi_from_value(f: Fwi)
    ensures
        Fwi::spec_new(#[trigger] f.spec_value()) == f,
{
}

pub broadcast group group_time_codes {
    lemma_sfgi_new_value,
    lemma_sfgi_from_value,
    lemma_fwi_new_value,
    lemma_fwi_from_value,
}

/// Parsing the bytes of an ATS, followed by their CRC_A, gives back the
/// ATS, for every ATS that its bytes code exactly.
pub proof fn lemma_ats_roundtrip(a: AtsModel)
    requires
        spec_ats_canonical(a),
    ensures
        spec_ats_parse(with_crc_a(spec_ats_bytes(a))) == Ok::<AtsModel, TypeAError>(a),
{
    let body = spec_ats_bytes(a);
    let v = with_crc_a(body);
    lemma_format_roundtrip(a.format);
    if a.format.tb_transmitted {
        lemma_tb_roundtrip(a.tb);
    }
    let t = a.ta.0;
    let u = a.tc.0;
    assert(t & TA_ALL == t ==> t & TA_ALL & TA_ALL == t) by (bit_vector);
    assert(u & TC_ALL == u ==> u & TC_ALL & TC_ALL == u) by (bit_vector);
    assert(v.take(v.len() - 2) =~= body);
    let o1: int = if a.format.ta_transmitted {
        3
    } else {
        2
    };
    let o2: int = if a.format.tb_transmitted {
        o1 + 1
    } else {
        o1
    };
    let o3: int = if a.format.tc_transmitted {
        o2 + 1
    } else {
        o2
    };
    assert(v.subrange(o3, v.len() - 2) =~= a.historical_bytes);
}

} // verus!
