use bmp280_driver::bmp280::{Bmp280, Bmp280Calibration, Bmp280Error};
use bmp280_driver::codec::{read16_le, read24, read_s16_le};

/// The sensor datasheet's worked-example coefficient set.
fn datasheet_calibration() -> Bmp280Calibration {
    Bmp280Calibration {
        dig_t1: 27504,
        dig_t2: 26435,
        dig_t3: -1000,
        dig_p1: 36477,
        dig_p2: -10685,
        dig_p3: 3024,
        dig_p4: 2855,
        dig_p5: 140,
        dig_p6: -7,
        dig_p7: 15500,
        dig_p8: -14600,
        dig_p9: 6000,
    }
}

#[test]
fn decode_unsigned_pair() {
    assert_eq!(read16_le(0x01, 0x02), 0x0201);
    assert_eq!(read16_le(0x00, 0x00), 0);
    assert_eq!(read16_le(0xFF, 0x80), 0x80FF);
}

#[test]
fn decode_signed_pair() {
    assert_eq!(read_s16_le(0x01, 0x02), 0x0201);
    // negative boundary: 0x80FF reinterpreted as two's complement
    assert_eq!(read_s16_le(0xFF, 0x80), -32513);
    assert_eq!(read_s16_le(0xFF, 0xFF), -1);
    assert_eq!(read_s16_le(0x00, 0x80), i16::MIN);
}

#[test]
fn read24_assembles_msb_first_and_shifts() {
    // 519888 << 4 == 0x7EED00, most significant byte at the lower register
    assert_eq!(read24(0x7E, 0xED, 0x00), 519888);
    // 415148 << 4 == 0x655AC0
    assert_eq!(read24(0x65, 0x5A, 0xC0), 415148);
    assert_eq!(read24(0x00, 0x00, 0x0F), 0);
    assert_eq!(read24(0xFF, 0xFF, 0xFF), 0xFFFFF);
    // the four fractional/status bits are discarded, not rounded
    assert_eq!(read24(0x7E, 0xED, 0x0F), 519888);
}

#[test]
fn calibration_decodes_signed_boundary() {
    let expected = Bmp280Calibration {
        dig_t2: -32513, // bytes 0xFF, 0x80 in the block
        dig_t3: i16::MIN,
        ..datasheet_calibration()
    };
    let block = encode_block(&expected);
    assert_eq!(block[2], 0xFF);
    assert_eq!(block[3], 0x80);
    let decoded = Bmp280Calibration::new(&block).unwrap();
    assert_eq!(decoded, expected);
}

/// Encodes a coefficient set as the 24-byte little-endian register block.
fn encode_block(c: &Bmp280Calibration) -> Vec<u8> {
    let words: [u16; 12] = [
        c.dig_t1,
        c.dig_t2 as u16,
        c.dig_t3 as u16,
        c.dig_p1,
        c.dig_p2 as u16,
        c.dig_p3 as u16,
        c.dig_p4 as u16,
        c.dig_p5 as u16,
        c.dig_p6 as u16,
        c.dig_p7 as u16,
        c.dig_p8 as u16,
        c.dig_p9 as u16,
    ];
    let mut block: Vec<u8> = Vec::new();
    for w in words {
        block.push((w & 0xFF) as u8);
        block.push((w >> 8) as u8);
    }
    block
}

#[test]
fn calibration_decodes_block() {
    let expected = datasheet_calibration();
    let block = encode_block(&expected);
    let decoded = Bmp280Calibration::new(&block).unwrap();
    assert_eq!(decoded, expected);
}

#[test]
fn calibration_rejects_short_block() {
    let block = encode_block(&datasheet_calibration());
    assert_eq!(
        Bmp280Calibration::new(&block[..23]),
        Err(Bmp280Error::Transport)
    );
    assert_eq!(Bmp280Calibration::new(&[]), Err(Bmp280Error::Transport));
}

#[test]
fn temperature_datasheet_example() {
    let mut engine = Bmp280::new(datasheet_calibration());
    let centi = engine.compensate_temperature(519888);
    assert_eq!(centi, 2508);
    let celsius = centi as f64 / 100.0;
    assert!((celsius - 25.08).abs() < 1e-9);
}

#[test]
fn pressure_datasheet_example() {
    let mut engine = Bmp280::new(datasheet_calibration());
    engine.compensate_temperature(519888);
    let p = engine.compensate_pressure(415148).unwrap();
    assert_eq!(p, 25767233);
    // 1/256 pascal units: about 1006.53 hPa
    let pascal = p as f64 / 256.0;
    assert!((pascal - 100653.27).abs() < 0.1);
}

#[test]
fn pressure_requires_temperature_first() {
    let mut engine = Bmp280::new(datasheet_calibration());
    assert_eq!(
        engine.compensate_pressure(415148),
        Err(Bmp280Error::Precondition)
    );
}

#[test]
fn pressure_zero_divisor_reported() {
    let mut calib = datasheet_calibration();
    // a zero gain coefficient forces the refined divisor to zero
    calib.dig_p1 = 0;
    let mut engine = Bmp280::new(calib);
    engine.compensate_temperature(519888);
    assert_eq!(
        engine.compensate_pressure(415148),
        Err(Bmp280Error::Arithmetic)
    );
}

#[test]
fn pressure_range_overflow_reported() {
    // extreme coefficients drive the central dividend past the 64-bit range
    let calib = Bmp280Calibration {
        dig_t1: 0,
        dig_t2: 32767,
        dig_t3: 32767,
        dig_p1: 1,
        dig_p2: 0,
        dig_p3: 0,
        dig_p4: -32768,
        dig_p5: -32768,
        dig_p6: -32768,
        dig_p7: 0,
        dig_p8: 0,
        dig_p9: 0,
    };
    let mut engine = Bmp280::new(calib);
    engine.compensate_temperature(0xFFFFF);
    assert_eq!(
        engine.compensate_pressure(0xFFFFF),
        Err(Bmp280Error::Arithmetic)
    );
}

#[test]
fn ground_reference_requires_zero() {
    let mut engine = Bmp280::new(datasheet_calibration());
    engine.compensate_temperature(519888);
    assert_eq!(engine.ground_pressure(), Err(Bmp280Error::Precondition));
}

#[test]
fn zero_requires_temperature_first() {
    let mut engine = Bmp280::new(datasheet_calibration());
    assert_eq!(engine.zero(415148), Err(Bmp280Error::Precondition));
    assert_eq!(engine.ground_pressure(), Err(Bmp280Error::Precondition));
}

#[test]
fn zero_stores_and_returns_pressure() {
    let mut engine = Bmp280::new(datasheet_calibration());
    engine.compensate_temperature(519888);
    let stored = engine.zero(415148).unwrap();
    assert_eq!(stored, 25767233);
    assert_eq!(engine.ground_pressure(), Ok(25767233));
}

#[test]
fn zero_is_idempotent() {
    let mut engine = Bmp280::new(datasheet_calibration());
    engine.compensate_temperature(519888);
    let first = engine.zero(415148).unwrap();
    let ground_first = engine.ground_pressure().unwrap();
    let second = engine.zero(415148).unwrap();
    let ground_second = engine.ground_pressure().unwrap();
    assert_eq!(first, second);
    assert_eq!(ground_first, ground_second);
}

#[test]
fn zero_failure_keeps_previous_reference() {
    let mut engine = Bmp280::new(datasheet_calibration());
    engine.compensate_temperature(519888);
    engine.zero(415148).unwrap();
    // a later temperature excursion can make a reading undefined; the old
    // baseline must survive the failed zeroing
    let calib = datasheet_calibration();
    let mut broken = Bmp280::new(Bmp280Calibration { dig_p1: 0, ..calib });
    broken.compensate_temperature(519888);
    assert_eq!(broken.zero(415148), Err(Bmp280Error::Arithmetic));
    assert_eq!(broken.ground_pressure(), Err(Bmp280Error::Precondition));
    assert_eq!(engine.ground_pressure(), Ok(25767233));
}
