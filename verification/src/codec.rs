//! Decoding of the sensor's register bytes.
//!
//! Calibration coefficients are stored as little-endian 16-bit pairs (least
//! significant byte at the lower register address), some unsigned and some
//! two's-complement signed. The ADC result registers hold a 20-bit reading
//! packed most-significant-byte-first into three bytes; the assembled 24-bit
//! value is right-shifted by four before use.

use vstd::prelude::*;

verus! {

/// The unsigned value of a little-endian 16-bit register pair.
pub open spec fn u16_le(lo: u8, hi: u8) -> int {
    lo + 256 * hi
}

/// The two's-complement signed value of a little-endian 16-bit register pair.
pub open spec fn i16_le(lo: u8, hi: u8) -> int {
    if u16_le(lo, hi) >= 32768 {
        u16_le(lo, hi) - 65536
    } else {
        u16_le(lo, hi)
    }
}

/// The 20-bit ADC reading held in three result-register bytes: the 24-bit
/// value assembled most-significant-byte-first, shifted right by four to drop
/// the fractional/status bits.
pub open spec fn adc20(b0: u8, b1: u8, b2: u8) -> int {
    (b0 * 65536 + b1 * 256 + b2) / 16
}

/// Decodes an unsigned little-endian 16-bit register pair.
pub fn read16_le(lo: u8, hi: u8) -> (v: u16)
    ensures
        v == u16_le(lo, hi),
{
    (lo as u16) + (hi as u16) * 256
}

/// Decodes a signed (two's-complement) little-endian 16-bit register pair.
pub fn read_s16_le(lo: u8, hi: u8) -> (v: i16)
    ensures
        v == i16_le(lo, hi),
{
    let w: u16 = read16_le(lo, hi);
    if w >= 32768 {
        ((w as i32) - 65536) as i16
    } else {
        w as i16
    }
}

/// Assembles a 20-bit ADC reading from the three result-register bytes,
/// most significant byte first.
pub fn read24(b0: u8, b1: u8, b2: u8) -> (v: u32)
    ensures
        v == adc20(b0, b1, b2),
        v < 0x100000,
{
    ((b0 as u32) * 65536 + (b1 as u32) * 256 + (b2 as u32)) / 16
}

} // verus!
