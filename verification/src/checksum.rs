//! Cyclic redundancy checks: CRC-32 (IEEE 802.3) and CRC-32C (Castagnoli), both
//! reflected, started from all ones and complemented at the end.

use vstd::prelude::*;

use crate::text::{hex, hex8};

verus! {

/// The reflected polynomial of CRC-32.
pub const IEEE: u32 = 0xEDB8_8320;

/// The reflected polynomial of CRC-32C.
pub const CASTAGNOLI: u32 = 0x82F6_3B78;

/// One bit shifted out of the register.
pub open spec fn step(poly: u32, crc: u32) -> u32 {
    if crc & 1 == 1 {
        (crc >> 1) ^ poly
    } else {
        crc >> 1
    }
}

/// `n` bits shifted out of the register.
pub open spec fn steps(poly: u32, crc: u32, n: nat) -> u32
    decreases n,
{
    if n == 0 {
        crc
    } else {
        step(poly, steps(poly, crc, (n - 1) as nat))
    }
}

/// The register after `data`.
pub open spec fn register(poly: u32, data: Seq<u8>) -> u32
    decreases data.len(),
{
    if data.len() == 0 {
        0xFFFF_FFFF
    } else {
        steps(poly, register(poly, data.drop_last()) ^ (data.last() as u32), 8)
    }
}

/// The checksum of `data` under the reflected polynomial `poly`.
pub open spec fn checksum(poly: u32, data: Seq<u8>) -> u32 {
    !register(poly, data)
}

/// The CRC-32 of `data`.
pub open spec fn crc32(data: Seq<u8>) -> u32 {
    checksum(IEEE, data)
}

fn compute(poly: u32, data: &[u8]) -> (r: u32)
    ensures
        r == checksum(poly, data@),
{
    let mut crc: u32 = 0xFFFF_FFFF;
    let mut i: usize = 0;
    assert(data@.take(0) =~= Seq::<u8>::empty());
    while i < data.len()
        invariant
            0 <= i <= data@.len(),
            crc == register(poly, data@.take(i as int)),
        decreases data@.len() - i,
    {
        assert(data@.take(i + 1).drop_last() =~= data@.take(i as int));
        let start: u32 = crc ^ (data[i] as u32);
        crc = start;
        let mut k: u8 = 0;
        while k < 8
            invariant
                0 <= k <= 8,
                crc == steps(poly, start, k as nat),
            decreases 8 - k,
        {
            if crc & 1 == 1 {
                crc = (crc >> 1) ^ poly;
            } else {
                crc = crc >> 1;
            }
            k = k + 1;
        }
        i = i + 1;
    }
    assert(data@.take(i as int) =~= data@);
    !crc
}

/// The CRC-32 of `data` as eight lower-case hexadecimal digits.
pub fn crc32_hex(data: &[u8]) -> (r: String)
    ensures
        r@ == hex(crc32(data@) as nat, 8),
{
    hex8(compute(IEEE, data))
}

/// The CRC-32C of `data`.
pub fn crc32c(data: &[u8]) -> (r: u32)
    ensures
        r == checksum(CASTAGNOLI, data@),
{
    compute(CASTAGNOLI, data)
}

} // verus!
