//! Calibration data model and the fixed-point compensation engine.
//!
//! The sensor ships twelve factory calibration coefficients in registers
//! 0x88 through 0x9E, each a little-endian 16-bit value. Raw ADC readings are
//! turned into calibrated temperature and pressure by the datasheet's integer
//! fixed-point pipeline: every shift and every truncating division matters,
//! so the contracts here state the pipeline exactly over mathematical
//! integers, with `/` on positive powers of two standing for the arithmetic
//! right shifts (they agree, including on negative values).

use vstd::prelude::*;

use crate::codec::{i16_le, read16_le, read_s16_le, u16_le};

verus! {

/// What can go wrong inside the driver core.
///
/// `Transport` reports a bus transfer that did not deliver the bytes asked
/// for. `Arithmetic` reports a pressure compensation whose refined divisor is
/// zero, or whose 64-bit intermediate values leave the 64-bit range.
/// `Precondition` reports an operation that was called before the state it
/// consumes was established.
#[derive(Clone, Copy, Debug, PartialEq, Eq, Structural)]
pub enum Bmp280Error {
    Transport,
    Arithmetic,
    Precondition,
}

/// The twelve factory calibration coefficients, immutable once read.
#[derive(Clone, Copy, Debug, PartialEq, Eq, Structural)]
pub struct Bmp280Calibration {
    pub dig_t1: u16,
    pub dig_t2: i16,
    pub dig_t3: i16,
    pub dig_p1: u16,
    pub dig_p2: i16,
    pub dig_p3: i16,
    pub dig_p4: i16,
    pub dig_p5: i16,
    pub dig_p6: i16,
    pub dig_p7: i16,
    pub dig_p8: i16,
    pub dig_p9: i16,
}

/// The coefficient set encoded by the first 24 bytes of the calibration
/// block, registers 0x88 through 0x9F in ascending order.
pub open spec fn spec_calibration(s: Seq<u8>) -> Bmp280Calibration {
    Bmp280Calibration {
        dig_t1: u16_le(s[0], s[1]) as u16,
        dig_t2: i16_le(s[2], s[3]) as i16,
        dig_t3: i16_le(s[4], s[5]) as i16,
        dig_p1: u16_le(s[6], s[7]) as u16,
        dig_p2: i16_le(s[8], s[9]) as i16,
        dig_p3: i16_le(s[10], s[11]) as i16,
        dig_p4: i16_le(s[12], s[13]) as i16,
        dig_p5: i16_le(s[14], s[15]) as i16,
        dig_p6: i16_le(s[16], s[17]) as i16,
        dig_p7: i16_le(s[18], s[19]) as i16,
        dig_p8: i16_le(s[20], s[21]) as i16,
        dig_p9: i16_le(s[22], s[23]) as i16,
    }
}

impl Bmp280Calibration {
    /// Decodes the coefficient block read from the calibration registers.
    ///
    /// `data` holds the bytes of registers 0x88 upward in ascending register
    /// order. A block shorter than the 24 bytes of the twelve register pairs
    /// is a failed transfer and is rejected whole: no partial coefficient set
    /// is ever produced.
    pub fn new(data: &[u8]) -> (r: Result<Bmp280Calibration, Bmp280Error>)
        ensures
            data@.len() >= 24 ==> r == Ok::<Bmp280Calibration, Bmp280Error>(
                spec_calibration(data@),
            ),
            data@.len() < 24 ==> r == Err::<Bmp280Calibration, Bmp280Error>(
                Bmp280Error::Transport,
            ),
    {
        if data.len() < 24 {
            return Err(Bmp280Error::Transport);
        }
        Ok(
            Bmp280Calibration {
                dig_t1: read16_le(data[0], data[1]),
                dig_t2: read_s16_le(data[2], data[3]),
                dig_t3: read_s16_le(data[4], data[5]),
                dig_p1: read16_le(data[6], data[7]),
                dig_p2: read_s16_le(data[8], data[9]),
                dig_p3: read_s16_le(data[10], data[11]),
                dig_p4: read_s16_le(data[12], data[13]),
                dig_p5: read_s16_le(data[14], data[15]),
                dig_p6: read_s16_le(data[16], data[17]),
                dig_p7: read_s16_le(data[18], data[19]),
                dig_p8: read_s16_le(data[20], data[21]),
                dig_p9: read_s16_le(data[22], data[23]),
            },
        )
    }
}

/// The fine-temperature value the temperature pipeline computes from a 20-bit
/// ADC reading: two coefficient-weighted terms, each cut down by an arithmetic
/// right shift (floor division by a power of two).
pub open spec fn spec_t_fine(c: Bmp280Calibration, adc_t: int) -> int {
    let part1: int = ((adc_t / 8 - 2 * c.dig_t1) * c.dig_t2) / 2048;
    let d: int = adc_t / 16 - c.dig_t1;
    let part2: int = (((d * d) / 4096) * c.dig_t3) / 16384;
    part1 + part2
}

/// The calibrated temperature in hundredths of a degree Celsius.
pub open spec fn spec_temperature(c: Bmp280Calibration, adc_t: int) -> int {
    (spec_t_fine(c, adc_t) * 5 + 128) / 256
}

/// Truncating (round-toward-zero) division: what the machine's signed
/// division instruction computes, as opposed to the floor division written
/// `/` on `int`.
pub open spec fn tdiv(x: int, d: int) -> int {
    if x == 0 {
        0
    } else if x > 0 && d > 0 {
        x / d
    } else if x < 0 && d < 0 {
        (x * -1) / (d * -1)
    } else if x < 0 {
        ((x * -1) / d) * -1
    } else {
        (x / (d * -1)) * -1
    }
}

/// Whether a value lies in the signed 64-bit range the pressure pipeline
/// computes in.
pub open spec fn fits_i64(x: int) -> bool {
    -0x8000000000000000 <= x <= 0x7fffffffffffffff
}

/// The first correction accumulator of the pressure pipeline.
pub open spec fn spec_p_var2(c: Bmp280Calibration, t_fine: int) -> int {
    let v1: int = t_fine - 128000;
    v1 * v1 * c.dig_p6 + v1 * c.dig_p5 * 131072 + c.dig_p4 * 34359738368
}

/// The refined divisor of the pressure pipeline; a zero here makes the
/// pressure undefined.
pub open spec fn spec_p_denom(c: Bmp280Calibration, t_fine: int) -> int {
    let v1: int = t_fine - 128000;
    let refined: int = (v1 * v1 * c.dig_p3) / 256 + v1 * c.dig_p2 * 4096;
    ((140737488355328 + refined) * c.dig_p1) / 8589934592
}

/// The dividend of the pressure pipeline's central division.
pub open spec fn spec_p_num(c: Bmp280Calibration, t_fine: int, adc_p: int) -> int {
    ((1048576 - adc_p) * 2147483648 - spec_p_var2(c, t_fine)) * 3125
}

/// The uncorrected pressure: the central truncating division.
pub open spec fn spec_p_quot(c: Bmp280Calibration, t_fine: int, adc_p: int) -> int {
    tdiv(spec_p_num(c, t_fine, adc_p), spec_p_denom(c, t_fine))
}

/// The quadratic final correction term.
pub open spec fn spec_p_corr1(c: Bmp280Calibration, t_fine: int, adc_p: int) -> int {
    let p: int = spec_p_quot(c, t_fine, adc_p);
    (c.dig_p9 * (p / 8192) * (p / 8192)) / 33554432
}

/// The linear final correction term.
pub open spec fn spec_p_corr2(c: Bmp280Calibration, t_fine: int, adc_p: int) -> int {
    (c.dig_p8 * spec_p_quot(c, t_fine, adc_p)) / 524288
}

/// The calibrated pressure in the pipeline's integer unit: 1/256 pascal.
pub open spec fn spec_pressure(c: Bmp280Calibration, t_fine: int, adc_p: int) -> int {
    let p: int = spec_p_quot(c, t_fine, adc_p);
    (p + spec_p_corr1(c, t_fine, adc_p) + spec_p_corr2(c, t_fine, adc_p)) / 256 + c.dig_p7 * 16
}

/// Whether the pressure pipeline is defined for these values: the refined
/// divisor is not zero and every value assigned to a 64-bit variable stays in
/// the 64-bit range.
pub open spec fn spec_pressure_ok(c: Bmp280Calibration, t_fine: int, adc_p: int) -> bool {
    spec_p_denom(c, t_fine) != 0 && fits_i64(spec_p_num(c, t_fine, adc_p)) && fits_i64(
        spec_p_quot(c, t_fine, adc_p),
    ) && fits_i64(spec_p_corr1(c, t_fine, adc_p))
}

/// The compensation engine: the coefficient set plus the running
/// fine-temperature value and the ground-reference pressure.
pub struct Bmp280 {
    calib: Bmp280Calibration,
    t_fine: i64,
    t_fine_set: bool,
    ground_pressure: i64,
    ground_set: bool,
}

impl Bmp280 {
    /// The coefficient set the engine was built with.
    pub closed spec fn calibration(self) -> Bmp280Calibration {
        self.calib
    }

    /// The fine-temperature value the last temperature compensation stored.
    pub closed spec fn fine_temperature(self) -> int {
        self.t_fine as int
    }

    /// Whether a temperature compensation has run since construction.
    pub closed spec fn temperature_ready(self) -> bool {
        self.t_fine_set
    }

    /// The stored ground-reference pressure, in the pipeline's integer unit.
    pub closed spec fn ground_reference(self) -> int {
        self.ground_pressure as int
    }

    /// Whether the ground reference has been established by `zero`.
    pub closed spec fn ground_ready(self) -> bool {
        self.ground_set
    }

    /// The engine invariant: the stored fine temperature is one the
    /// temperature pipeline can produce from a 20-bit reading, so the
    /// pressure pipeline's fixed 64-bit intermediates cannot overflow before
    /// their explicit range checks.
    pub closed spec fn wf(self) -> bool {
        -4194304 <= self.t_fine <= 4194304
    }

    /// Builds an engine around a coefficient set, with no temperature history
    /// and no ground reference yet.
    pub fn new(calib: Bmp280Calibration) -> (s: Bmp280)
        ensures
            s.wf(),
            s.calibration() == calib,
            s.fine_temperature() == 0,
            !s.temperature_ready(),
            s.ground_reference() == 0,
            !s.ground_ready(),
    {
        Bmp280 { calib, t_fine: 0, t_fine_set: false, ground_pressure: 0, ground_set: false }
    }

    /// Turns a 20-bit raw temperature ADC reading into the calibrated
    /// temperature, in hundredths of a degree Celsius, and stores the fine
    /// temperature that the pressure pipeline consumes.
    ///
    /// The result is a function of the reading and the coefficient set alone:
    /// neither the previous fine temperature nor the ground reference enters
    /// the computation.
    pub fn compensate_temperature(&mut self, adc_t: i32) -> (t: i32)
        requires
            old(self).wf(),
            0 <= adc_t < 0x100000,
        ensures
            final(self).wf(),
            final(self).calibration() == old(self).calibration(),
            final(self).fine_temperature() == spec_t_fine(old(self).calibration(), adc_t as int),
            final(self).temperature_ready(),
            final(self).ground_reference() == old(self).ground_reference(),
            final(self).ground_ready() == old(self).ground_ready(),
            t == spec_temperature(old(self).calibration(), adc_t as int),
    {
        let a: i64 = adc_t as i64;
        let t1: i64 = self.calib.dig_t1 as i64;
        let t2: i64 = self.calib.dig_t2 as i64;
        let t3: i64 = self.calib.dig_t3 as i64;

        let a3: i64 = div_floor(a, 8);
        let a4: i64 = div_floor(a, 16);
        proof {
            lemma_div_range(a as int, 0x100000, 8);
            lemma_div_range(a as int, 0x100000, 16);
        }
        let d1: i64 = a3 - 2 * t1;
        proof {
            lemma_mul_bound(d1 as int, t2 as int, 131071int, 32768int);
        }
        let m1: i64 = d1 * t2;
        let part1: i64 = div_floor(m1, 2048);
        proof {
            lemma_div_range(m1 as int, 4294934528int, 2048);
        }

        let d2: i64 = a4 - t1;
        proof {
            lemma_mul_bound(d2 as int, d2 as int, 65535int, 65535int);
            assert(d2 as int * (d2 as int) >= 0) by (nonlinear_arith);
        }
        let sq: i64 = d2 * d2;
        let sq12: i64 = div_floor(sq, 4096);
        proof {
            lemma_div_range(sq as int, 4294836225int, 4096);
            vstd::arithmetic::div_mod::lemma_div_pos_is_pos(sq as int, 4096);
            lemma_mul_bound(sq12 as int, t3 as int, 1048544int, 32768int);
        }
        let m2: i64 = sq12 * t3;
        let part2: i64 = div_floor(m2, 16384);
        proof {
            lemma_div_range(m2 as int, 34358689792int, 16384);
        }

        let fine: i64 = part1 + part2;
        self.t_fine = fine;
        self.t_fine_set = true;

        let centi: i64 = div_floor(fine * 5 + 128, 256);
        proof {
            lemma_div_range(fine as int * 5 + 128, 20971258int, 256);
        }
        centi as i32
    }

    /// Turns a 20-bit raw pressure ADC reading into the calibrated pressure,
    /// in units of 1/256 pascal, using 64-bit signed arithmetic and the fine
    /// temperature stored by the last temperature compensation.
    ///
    /// Fails with `Precondition` before any temperature compensation has run,
    /// and with `Arithmetic` exactly when the pipeline is undefined for the
    /// stored fine temperature and this reading: a zero refined divisor, or a
    /// 64-bit intermediate out of range. The engine state is never changed.
    pub fn compensate_pressure(&mut self, adc_p: i32) -> (r: Result<i64, Bmp280Error>)
        requires
            old(self).wf(),
            0 <= adc_p < 0x100000,
        ensures
            *final(self) == *old(self),
            !old(self).temperature_ready() ==> r == Err::<i64, Bmp280Error>(
                Bmp280Error::Precondition,
            ),
            old(self).temperature_ready() && spec_pressure_ok(
                old(self).calibration(),
                old(self).fine_temperature(),
                adc_p as int,
            ) ==> (r matches Ok(p) && p == spec_pressure(
                old(self).calibration(),
                old(self).fine_temperature(),
                adc_p as int,
            )),
            old(self).temperature_ready() && !spec_pressure_ok(
                old(self).calibration(),
                old(self).fine_temperature(),
                adc_p as int,
            ) ==> r == Err::<i64, Bmp280Error>(Bmp280Error::Arithmetic),
    {
        if !self.t_fine_set {
            return Err(Bmp280Error::Precondition);
        }
        let ghost c: Bmp280Calibration = self.calib;
        let ghost tf: int = self.t_fine as int;
        let ghost adci: int = adc_p as int;

        let p1: i64 = self.calib.dig_p1 as i64;
        let p2: i64 = self.calib.dig_p2 as i64;
        let p3: i64 = self.calib.dig_p3 as i64;
        let p4: i64 = self.calib.dig_p4 as i64;
        let p5: i64 = self.calib.dig_p5 as i64;
        let p6: i64 = self.calib.dig_p6 as i64;
        let p7: i64 = self.calib.dig_p7 as i64;
        let p8: i64 = self.calib.dig_p8 as i64;
        let p9: i64 = self.calib.dig_p9 as i64;

        let v1: i64 = self.t_fine - 128000;
        proof {
            lemma_mul_bound(v1 as int, v1 as int, 4322304int, 4322304int);
        }
        let sq: i64 = v1 * v1;
        proof {
            lemma_mul_bound(sq as int, p6 as int, 18682311868416int, 32768int);
            lemma_mul_bound(v1 as int, p5 as int, 4322304int, 32768int);
            lemma_mul_bound(v1 as int, p2 as int, 4322304int, 32768int);
            lemma_mul_bound(sq as int, p3 as int, 18682311868416int, 32768int);
        }
        let var2: i64 = sq * p6 + (v1 * p5) * 131072 + p4 * 34359738368;
        assert(var2 == spec_p_var2(c, tf));

        let mp3: i64 = sq * p3;
        let ra: i64 = div_floor(mp3, 256);
        proof {
            lemma_div_range(mp3 as int, 612181995304255488int, 256);
        }
        let refined: i64 = ra + (v1 * p2) * 4096;
        let t47: i64 = 140737488355328 + refined;
        proof {
            lemma_mul_bound(t47 as int, p1 as int, 3112203230117888int, 65535int);
        }
        let dnw: i128 = (t47 as i128) * (p1 as i128);
        let denomw: i128 = div_floor_wide(dnw, 8589934592);
        proof {
            lemma_div_range(dnw as int, 203958238685775790080int, 8589934592);
        }
        let denom: i64 = denomw as i64;
        assert(denom == spec_p_denom(c, tf));
        if denom == 0 {
            return Err(Bmp280Error::Arithmetic);
        }
        let base: i64 = (1048576 - (adc_p as i64)) * 2147483648;
        let diff: i64 = base - var2;
        let numw: i128 = (diff as i128) * 3125;
        assert(numw == spec_p_num(c, tf, adci));
        if numw < -0x8000000000000000i128 || numw > 0x7fffffffffffffffi128 {
            return Err(Bmp280Error::Arithmetic);
        }
        let num: i64 = numw as i64;
        let p: i64 = match num.checked_div(denom) {
            Some(v) => v,
            None => {
                proof {
                    assert(!fits_i64(spec_p_quot(c, tf, adci)));
                }
                return Err(Bmp280Error::Arithmetic);
            },
        };
        assert(p == spec_p_quot(c, tf, adci));

        let p13: i64 = div_floor(p, 8192);
        proof {
            lemma_div_range(p as int, 0x8000000000000000int, 8192);
            lemma_mul_bound(p9 as int, p13 as int, 32768int, 1125899906842625int);
        }
        let c1a: i128 = (p9 as i128) * (p13 as i128);
        proof {
            lemma_mul_bound(c1a as int, p13 as int, 36893488147419136000int, 1125899906842625int);
        }
        let c1b: i128 = c1a * (p13 as i128);
        let corr1w: i128 = div_floor_wide(c1b, 33554432);
        assert(corr1w == spec_p_corr1(c, tf, adci));
        if corr1w < -0x8000000000000000i128 || corr1w > 0x7fffffffffffffffi128 {
            return Err(Bmp280Error::Arithmetic);
        }
        let corr1: i64 = corr1w as i64;

        proof {
            lemma_mul_bound(p8 as int, p as int, 32768int, 0x8000000000000000int);
        }
        let c2w: i128 = (p8 as i128) * (p as i128);
        let corr2w: i128 = div_floor_wide(c2w, 524288);
        proof {
            lemma_div_range(c2w as int, 302231454903657293676544int, 524288);
        }
        let corr2: i64 = corr2w as i64;
        assert(corr2 == spec_p_corr2(c, tf, adci));

        let sum: i128 = (p as i128) + (corr1 as i128) + (corr2 as i128);
        let pfw: i128 = div_floor_wide(sum, 256);
        proof {
            lemma_div_range(sum as int, 19023204826012975105int, 256);
        }
        let pf: i64 = pfw as i64;
        let result: i64 = pf + p7 * 16;
        assert(result == spec_pressure(c, tf, adci));
        Ok(result)
    }

    /// Computes the calibrated pressure for the given raw reading and stores
    /// it as the ground reference for relative-altitude queries, returning
    /// the stored value. The reference is kept in the pipeline's integer unit
    /// (1/256 pascal); the caller's presentational scaling cancels out of the
    /// pressure ratio that altitude is computed from.
    ///
    /// On failure the previous ground reference, if any, is kept.
    pub fn zero(&mut self, adc_p: i32) -> (r: Result<i64, Bmp280Error>)
        requires
            old(self).wf(),
            0 <= adc_p < 0x100000,
        ensures
            final(self).wf(),
            final(self).calibration() == old(self).calibration(),
            final(self).fine_temperature() == old(self).fine_temperature(),
            final(self).temperature_ready() == old(self).temperature_ready(),
            !old(self).temperature_ready() ==> r == Err::<i64, Bmp280Error>(
                Bmp280Error::Precondition,
            ),
            old(self).temperature_ready() && spec_pressure_ok(
                old(self).calibration(),
                old(self).fine_temperature(),
                adc_p as int,
            ) ==> (r matches Ok(p) && p == spec_pressure(
                old(self).calibration(),
                old(self).fine_temperature(),
                adc_p as int,
            ) && final(self).ground_reference() == p && final(self).ground_ready()),
            old(self).temperature_ready() && !spec_pressure_ok(
                old(self).calibration(),
                old(self).fine_temperature(),
                adc_p as int,
            ) ==> r == Err::<i64, Bmp280Error>(Bmp280Error::Arithmetic),
            r is Err ==> final(self).ground_reference() == old(self).ground_reference()
                && final(self).ground_ready() == old(self).ground_ready(),
    {
        match self.compensate_pressure(adc_p) {
            Ok(p) => {
                self.ground_pressure = p;
                self.ground_set = true;
                Ok(p)
            },
            Err(e) => Err(e),
        }
    }

    /// The stored ground-reference pressure, in units of 1/256 pascal.
    ///
    /// Fails with `Precondition` until `zero` has established a reference:
    /// an absolute-altitude query before zeroing has no meaningful baseline.
    pub fn ground_pressure(&self) -> (r: Result<i64, Bmp280Error>)
        ensures
            self.ground_ready() ==> (r matches Ok(g) && g == self.ground_reference()),
            !self.ground_ready() ==> r == Err::<i64, Bmp280Error>(Bmp280Error::Precondition),
    {
        if self.ground_set {
            Ok(self.ground_pressure)
        } else {
            Err(Bmp280Error::Precondition)
        }
    }
}

/// Temperature compensation is a pure function of the raw reading and the
/// coefficient set: two engines that hold the same coefficients compute the
/// same fine temperature and the same calibrated temperature for the same
/// reading, whatever the rest of their state.
pub proof fn lemma_temperature_pure(s1: Bmp280, s2: Bmp280, adc_t: int)
    requires
        s1.calibration() == s2.calibration(),
    ensures
        spec_t_fine(s1.calibration(), adc_t) == spec_t_fine(s2.calibration(), adc_t),
        spec_temperature(s1.calibration(), adc_t) == spec_temperature(s2.calibration(), adc_t),
{
}

/// Zeroing is idempotent. A successful `zero` leaves the coefficient set and
/// the fine temperature unchanged, so a second `zero` with the same raw
/// reading computes the same calibrated pressure and stores the same ground
/// reference — and every later absolute-altitude query, which depends on the
/// engine only through that reference, sees the same baseline.
pub proof fn lemma_zero_idempotent(s0: Bmp280, s1: Bmp280, s2: Bmp280, adc_p: int)
    requires
        s1.calibration() == s0.calibration(),
        s1.fine_temperature() == s0.fine_temperature(),
        s1.ground_reference() == spec_pressure(
            s0.calibration(),
            s0.fine_temperature(),
            adc_p,
        ),
        s2.ground_reference() == spec_pressure(
            s1.calibration(),
            s1.fine_temperature(),
            adc_p,
        ),
    ensures
        s2.ground_reference() == s1.ground_reference(),
{
}

/// Bounds a product from bounds on its factors.
proof fn lemma_mul_bound(x: int, y: int, a: int, b: int)
    by (nonlinear_arith)
    requires
        -a <= x <= a,
        -b <= y <= b,
        0 <= a,
        0 <= b,
    ensures
        -(a * b) <= x * y <= a * b,
{
}

/// Bounds a floor quotient from a bound on the dividend.
proof fn lemma_div_range(x: int, a: int, d: int)
    requires
        1 <= d,
        0 <= a,
        -a <= x <= a,
    ensures
        -(a / d) - 1 <= x / d <= a / d,
{
    vstd::arithmetic::div_mod::lemma_div_is_ordered(x, a, d);
    vstd::arithmetic::div_mod::lemma_div_is_ordered(-a, x, d);
    vstd::arithmetic::div_mod::lemma_fundamental_div_mod(a, d);
    let q: int = a / d;
    let r: int = a % d;
    if r == 0 {
        assert(-a == d * (-q) + 0) by (nonlinear_arith)
            requires
                a == d * q + r,
                r == 0,
        ;
        vstd::arithmetic::div_mod::lemma_fundamental_div_mod_converse(-a, d, -q, 0);
    } else {
        assert(-a == d * (-q - 1) + (d - r)) by (nonlinear_arith)
            requires
                a == d * q + r,
        ;
        vstd::arithmetic::div_mod::lemma_fundamental_div_mod_converse(-a, d, -q - 1, d - r);
    }
}

/// Floor division of a wide signed value by a positive divisor; on a two's
/// complement machine this is exactly the arithmetic right shift when the
/// divisor is a power of two.
fn div_floor_wide(x: i128, d: u64) -> (q: i128)
    requires
        1 <= d,
        x > i128::MIN,
    ensures
        q == (x as int) / (d as int),
        x >= 0 ==> 0 <= q <= x,
        x < 0 ==> x <= q <= 0,
{
    let dw: u128 = d as u128;
    if x >= 0 {
        let m: u128 = x as u128;
        let qu: u128 = m / dw;
        proof {
            vstd::arithmetic::div_mod::lemma_div_pos_is_pos(m as int, dw as int);
            vstd::arithmetic::div_mod::lemma_div_nonincreasing(m as int, dw as int);
        }
        qu as i128
    } else {
        let m: u128 = (-x) as u128;
        let qu: u128 = (m + (dw - 1)) / dw;
        proof {
            let mi: int = m as int;
            let di: int = dw as int;
            vstd::arithmetic::div_mod::lemma_fundamental_div_mod(mi, di);
            let q0: int = mi / di;
            let r0: int = mi % di;
            vstd::arithmetic::div_mod::lemma_div_pos_is_pos(mi, di);
            if r0 == 0 {
                assert(-mi == di * (-q0) + 0) by (nonlinear_arith)
                    requires
                        mi == di * q0 + r0,
                        r0 == 0,
                ;
                vstd::arithmetic::div_mod::lemma_fundamental_div_mod_converse(-mi, di, -q0, 0);
                assert(mi + di - 1 == di * q0 + (di - 1)) by (nonlinear_arith)
                    requires
                        mi == di * q0 + r0,
                        r0 == 0,
                ;
                vstd::arithmetic::div_mod::lemma_fundamental_div_mod_converse(
                    mi + di - 1,
                    di,
                    q0,
                    di - 1,
                );
            } else {
                assert(-mi == di * (-q0 - 1) + (di - r0)) by (nonlinear_arith)
                    requires
                        mi == di * q0 + r0,
                ;
                vstd::arithmetic::div_mod::lemma_fundamental_div_mod_converse(
                    -mi,
                    di,
                    -q0 - 1,
                    di - r0,
                );
                assert(mi + di - 1 == di * (q0 + 1) + (r0 - 1)) by (nonlinear_arith)
                    requires
                        mi == di * q0 + r0,
                ;
                vstd::arithmetic::div_mod::lemma_fundamental_div_mod_converse(
                    mi + di - 1,
                    di,
                    q0 + 1,
                    r0 - 1,
                );
            }
            // the quotient of the adjusted dividend never exceeds the magnitude
            assert(mi + di - 1 <= mi * di) by (nonlinear_arith)
                requires
                    mi >= 1,
                    di >= 1,
            ;
            vstd::arithmetic::div_mod::lemma_div_is_ordered(mi + di - 1, mi * di, di);
            vstd::arithmetic::div_mod::lemma_div_multiples_vanish(mi, di);
            assert(mi * di == di * mi) by (nonlinear_arith);
        }
        -(qu as i128)
    }
}

/// Floor division of a 64-bit signed value by a positive divisor: the
/// arithmetic right shift of the compensation formulas.
fn div_floor(x: i64, d: u64) -> (q: i64)
    requires
        1 <= d,
    ensures
        q == (x as int) / (d as int),
{
    let qw: i128 = div_floor_wide(x as i128, d);
    qw as i64
}

} // verus!
