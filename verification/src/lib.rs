//! Driver core for a barometric pressure/temperature sensor that is reached
//! over a register-addressed two-wire bus.
//!
//! The crate holds the parts of the driver that are pure computation: decoding
//! the little-endian calibration registers and the big-endian ADC registers
//! (`codec`), and the fixed-point compensation pipeline that turns raw ADC
//! readings into calibrated temperature and pressure (`bmp280`). Bus
//! transactions, delays and the floating-point altitude formula live with the
//! caller, which hands this crate plain bytes and integers.

pub mod bmp280;
pub mod codec;
