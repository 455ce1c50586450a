//! ISO14443-3 6.1.6: CRC_A.

use vstd::prelude::*;

verus! {

/// Reflected CRC_A polynomial (x^16 + x^12 + x^5 + 1).
pub const CRC_A_POLY: u16 = 0x8408;

/// Initial register value of CRC_A.
pub const CRC_A_INIT: u16 = 0x6363;

/// One shift of the CRC register.
pub open spec fn crc_a_shift(crc: u16) -> u16 {
    if crc & 1 != 0 {
        (crc >> 1) ^ CRC_A_POLY
    } else {
        crc >> 1
    }
}

/// `n` shifts of the CRC register.
pub open spec fn crc_a_shifts(crc: u16, n: nat) -> u16
    decreases n,
{
    if n == 0 {
        crc
    } else {
        crc_a_shift(crc_a_shifts(crc, (n - 1) as nat))
    }
}

/// The register after feeding one byte.
pub open spec fn crc_a_feed(crc: u16, b: u8) -> u16 {
    crc_a_shifts(crc ^ (b as u16), 8)
}

/// The register after feeding all of `data`, starting from `CRC_A_INIT`.
pub open spec fn crc_a_register(data: Seq<u8>) -> u16
    decreases data.len(),
{
    if data.len() == 0 {
        CRC_A_INIT
    } else {
        crc_a_feed(crc_a_register(data.drop_last()), data.last())
    }
}

/// CRC_A of `data` as the two bytes sent on the wire: (low byte, high byte).
pub open spec fn spec_crc_a(data: Seq<u8>) -> (u8, u8) {
    let r = crc_a_register(data);
    ((r & 0xff) as u8, (r >> 8) as u8)
}

/// `data` followed by its CRC_A.
pub open spec fn with_crc_a(data: Seq<u8>) -> Seq<u8> {
    data + seq![spec_crc_a(data).0, spec_crc_a(data).1]
}

/// Whether a received CRC pair is accepted for `data`: either the CRC_A of
/// `data`, or `(0, 0)`, which stands for a CRC already checked and
/// stripped by the transceiver hardware.
pub open spec fn crc_accepted(data: Seq<u8>, crc: (u8, u8)) -> bool {
    crc == spec_crc_a(data) || crc == (0u8, 0u8)
}

/// Compute CRC_A over `data`, returned as (low byte, high byte).
pub fn crc_a(data: &[u8]) -> (r: (u8, u8))
    ensures
        r == spec_crc_a(data@),
{
    let mut crc: u16 = CRC_A_INIT;
    let mut i: usize = 0;
    while i < data.len()
        invariant
            i <= data.len(),
            crc == crc_a_register(data@.take(i as int)),
        decreases data.len() - i,
    {
        let b = data[i];
        let ghost start: u16 = crc ^ (b as u16);
        crc = crc ^ (b as u16);
        let mut k: u8 = 0;
        while k < 8
            invariant
                k <= 8,
                crc == crc_a_shifts(start, k as nat),
            decreases 8 - k,
        {
            if (crc & 0x0001) != 0 {
                crc = (crc >> 1) ^ CRC_A_POLY;
            } else {
                crc = crc >> 1;
            }
            k = k + 1;
        }
        assert(data@.take(i + 1).drop_last() =~= data@.take(i as int));
        i = i + 1;
    }
    assert(data@.take(data.len() as int) =~= data@);
    ((crc & 0x00FF) as u8, (crc >> 8) as u8)
}

/// Eight shifts of a register whose low byte is zero move its high byte
/// down.
proof fn lemma_shifts_low_zero(x: u16)
    requires
        x & 0xff == 0,
    ensures
        crc_a_shifts(x, 8) == x >> 8,
{
    let y1 = x >> 1u16;
    let y2 = y1 >> 1u16;
    let y3 = y2 >> 1u16;
    let y4 = y3 >> 1u16;
    let y5 = y4 >> 1u16;
    let y6 = y5 >> 1u16;
    let y7 = y6 >> 1u16;
    let y8 = y7 >> 1u16;
    assert(x & 1 == 0 && y1 & 1 == 0 && y2 & 1 == 0 && y3 & 1 == 0 && y4 & 1 == 0 && y5 & 1 == 0
        && y6 & 1 == 0 && y7 & 1 == 0 && y8 == x >> 8) by (bit_vector)
        requires
            x & 0xff == 0,
            y1 == x >> 1u16,
            y2 == y1 >> 1u16,
            y3 == y2 >> 1u16,
            y4 == y3 >> 1u16,
            y5 == y4 >> 1u16,
            y6 == y5 >> 1u16,
            y7 == y6 >> 1u16,
            y8 == y7 >> 1u16,
    ;
    assert(crc_a_shifts(x, 0) == x);
    assert(crc_a_shift(x) == y1);
    assert(crc_a_shifts(x, 1) == y1);
    assert(crc_a_shifts(x, 2) == y2);
    assert(crc_a_shifts(x, 3) == y3);
    assert(crc_a_shifts(x, 4) == y4);
    assert(crc_a_shifts(x, 5) == y5);
    assert(crc_a_shifts(x, 6) == y6);
    assert(crc_a_shifts(x, 7) == y7);
    assert(crc_a_shifts(x, 8) == y8);
}

/// CRC_A over data followed by its own CRC_A (low byte first) is zero.
pub proof fn lemma_crc_residue(data: Seq<u8>)
    ensures
        crc_a_register(with_crc_a(data)) == 0,
        spec_crc_a(with_crc_a(data)) == (0u8, 0u8),
{
    let r = crc_a_register(data);
    let lo = spec_crc_a(data).0;
    let hi = spec_crc_a(data).1;
    let v = with_crc_a(data);
    let v1 = data.push(lo);
    assert(v.drop_last() =~= v1);
    assert(v1.drop_last() =~= data);
    let x = r ^ (lo as u16);
    assert(x & 0xff == 0 && x >> 8 == hi as u16) by (bit_vector)
        requires
            lo == (r & 0xff) as u8,
            hi == (r >> 8) as u8,
            x == r ^ (lo as u16),
    ;
    lemma_shifts_low_zero(x);
    assert(crc_a_register(v1) == hi as u16);
    let z = (hi as u16) ^ (hi as u16);
    assert(z == 0 && z & 0xff == 0 && z >> 8 == 0 && (0u16 & 0xff) as u8 == 0 && (0u16 >> 8) as u8
        == 0) by (bit_vector)
        requires
            z == (hi as u16) ^ (hi as u16),
    ;
    lemma_shifts_low_zero(z);
    assert(crc_a_register(v) == 0);
}

/// Append `bytes` to `v`.
pub fn extend_bytes(v: &mut Vec<u8>, bytes: &[u8])
    ensures
        final(v)@ == old(v)@ + bytes@,
{
    let mut i: usize = 0;
    while i < bytes.len()
        invariant
            i <= bytes.len(),
            v@ == old(v)@ + bytes@.take(i as int),
        decreases bytes.len() - i,
    {
        v.push(bytes[i]);
        assert(bytes@.take(i + 1) =~= bytes@.take(i as int).push(bytes[i as int]));
        i = i + 1;
    }
    assert(bytes@.take(bytes.len() as int) =~= bytes@);
}

/// `data` followed by its CRC_A (low byte first).
pub fn append_crc_a(data: &[u8]) -> (r: Vec<u8>)
    ensures
        r@ == with_crc_a(data@),
        spec_crc_a(r@) == (0u8, 0u8),
{
    proof {
        lemma_crc_residue(data@);
    }
    let (lsb, msb) = crc_a(data);
    let mut res: Vec<u8> = Vec::new();
    extend_bytes(&mut res, data);
    res.push(lsb);
    res.push(msb);
    assert(res@ =~= with_crc_a(data@));
    res
}

} // verus!
