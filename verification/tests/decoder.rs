use read_ahtx0_rs::sample::{RawSensorData, CODE_SPAN, SAMPLE_LEN};

fn pack(status: u8, humidity: u32, temperature: u32) -> [u8; 6] {
    [
        status,
        (humidity >> 12) as u8,
        (humidity >> 4) as u8,
        (((humidity & 0x0F) << 4) | (temperature >> 16)) as u8,
        (temperature >> 8) as u8,
        temperature as u8,
    ]
}

fn nearest_humidity_code(micro_percent: u64) -> u32 {
    let code = (micro_percent * 1_048_576 + 50_000_000) / 100_000_000;
    if code > 0xF_FFFF {
        0xF_FFFF
    } else {
        code as u32
    }
}

fn nearest_temperature_code(micro_celsius: i64) -> u32 {
    let code = ((micro_celsius + 50_000_000) * 1_048_576 + 100_000_000) / 200_000_000;
    if code > 0xF_FFFF {
        0xF_FFFF
    } else {
        code as u32
    }
}

fn percent(sample: &RawSensorData) -> f64 {
    sample.raw_humidity as f64 / CODE_SPAN as f64 * 100.0
}

fn celsius(sample: &RawSensorData) -> f64 {
    sample.raw_temp as f64 / CODE_SPAN as f64 * 200.0 - 50.0
}

#[test]
fn code_span_is_two_to_the_twentieth() {
    assert_eq!(CODE_SPAN, 1 << 20);
    assert_eq!(SAMPLE_LEN, 6);
}

#[test]
fn known_vector_humidity_is_half_scale() {
    let sample = RawSensorData::from_raw_bytes([0x1C, 0x80, 0x00, 0x00, 0x80, 0x00]);
    assert_eq!(sample.raw_humidity, 0x80000);
    assert_eq!(sample.humidity_micro_percent(), 50_000_000);
    assert_eq!(percent(&sample), 50.0);
}

#[test]
fn known_vector_temperature_follows_the_byte_layout() {
    // Bytes 3 to 5 are 00 80 00: the low nibble of byte 3 is 0, so the code
    // is 0x08000, a thirty-second of the scale.
    let sample = RawSensorData::from_raw_bytes([0x1C, 0x80, 0x00, 0x00, 0x80, 0x00]);
    assert_eq!(sample.raw_temp, 0x08000);
    assert_eq!(sample.temperature_micro_celsius(), -43_750_000);
    assert_eq!(celsius(&sample), -43.75);
}

#[test]
fn half_scale_temperature_is_fifty_degrees() {
    let sample = RawSensorData::from_raw_bytes([0x1C, 0x80, 0x00, 0x08, 0x00, 0x00]);
    assert_eq!(sample.raw_humidity, 0x80000);
    assert_eq!(sample.raw_temp, 0x80000);
    assert_eq!(sample.humidity_micro_percent(), 50_000_000);
    assert_eq!(sample.temperature_micro_celsius(), 50_000_000);
    assert_eq!(percent(&sample), 50.0);
    assert_eq!(celsius(&sample), 50.0);
}

#[test]
fn lowest_codes_are_the_bottom_of_both_scales() {
    let sample = RawSensorData::from_raw_bytes([0x00; 6]);
    assert_eq!(sample.raw_humidity, 0);
    assert_eq!(sample.raw_temp, 0);
    assert_eq!(sample.humidity_micro_percent(), 0);
    assert_eq!(sample.temperature_micro_celsius(), -50_000_000);
    assert_eq!(percent(&sample), 0.0);
    assert_eq!(celsius(&sample), -50.0);
}

#[test]
fn highest_codes_are_just_under_the_top_of_both_scales() {
    let sample = RawSensorData::from_raw_bytes([0x00, 0xFF, 0xFF, 0xFF, 0xFF, 0xFF]);
    assert_eq!(sample.raw_humidity, 0xF_FFFF);
    assert_eq!(sample.raw_temp, 0xF_FFFF);
    assert_eq!(sample.humidity_micro_percent(), 99_999_904);
    assert_eq!(sample.temperature_micro_celsius(), 149_999_809);
    assert!((percent(&sample) - 99.99990).abs() < 1e-5);
    assert!((celsius(&sample) - 149.99981).abs() < 1e-5);
    assert!(percent(&sample) < 100.0);
    assert!(celsius(&sample) < 150.0);
}

#[test]
fn byte_three_is_split_between_the_codes() {
    let sample = RawSensorData::from_raw_bytes([0x00, 0x00, 0x00, 0xAB, 0x00, 0x00]);
    assert_eq!(sample.raw_humidity, 0x0000A);
    assert_eq!(sample.raw_temp, 0xB0000);
}

#[test]
fn each_byte_lands_in_its_place() {
    let sample = RawSensorData::from_raw_bytes([0xFF, 0x12, 0x34, 0x56, 0x78, 0x9A]);
    assert_eq!(sample.raw_humidity, 0x12345);
    assert_eq!(sample.raw_temp, 0x6789A);
    assert_eq!(sample.humidity_micro_percent(), 0x12345u64 * 100_000_000 / 1_048_576);
    assert_eq!(sample.humidity_micro_percent(), 7_111_072);
    assert_eq!(sample.temperature_micro_celsius(), 30_888_748);
}

#[test]
fn status_byte_plays_no_part() {
    for status in 0..=255u8 {
        let sample = RawSensorData::from_raw_bytes([status, 0x80, 0x00, 0x08, 0x00, 0x00]);
        assert_eq!(sample, RawSensorData { raw_humidity: 0x80000, raw_temp: 0x80000 });
    }
}

#[test]
fn packed_codes_decode_to_themselves() {
    let mut code: u32 = 0;
    while code < CODE_SPAN {
        let other = CODE_SPAN - 1 - code;
        let sample = RawSensorData::from_raw_bytes(pack(0x1C, code, other));
        assert_eq!(sample.raw_humidity, code);
        assert_eq!(sample.raw_temp, other);
        code += 7;
    }
}

#[test]
fn humidity_round_trip_stays_within_one_step() {
    let mut micro_percent: u64 = 0;
    while micro_percent <= 100_000_000 {
        let code = nearest_humidity_code(micro_percent);
        let sample = RawSensorData::from_raw_bytes(pack(0x00, code, 0));
        let back = sample.humidity_micro_percent() as i64;
        assert!((back - micro_percent as i64).abs() <= 96);
        assert!((percent(&sample) - micro_percent as f64 / 1e6).abs() <= 9.6e-5);
        micro_percent += 9_973;
    }
    let top = RawSensorData::from_raw_bytes(pack(0x00, nearest_humidity_code(100_000_000), 0));
    assert_eq!(top.raw_humidity, 0xF_FFFF);
    assert_eq!(top.humidity_micro_percent(), 100_000_000 - 96);
}

#[test]
fn temperature_round_trip_stays_within_one_step() {
    let mut micro_celsius: i64 = -50_000_000;
    while micro_celsius <= 150_000_000 {
        let code = nearest_temperature_code(micro_celsius);
        let sample = RawSensorData::from_raw_bytes(pack(0x00, 0, code));
        let back = sample.temperature_micro_celsius();
        assert!((back - micro_celsius).abs() <= 191);
        assert!((celsius(&sample) - micro_celsius as f64 / 1e6).abs() <= 1.91e-4);
        micro_celsius += 9_973;
    }
    let top = RawSensorData::from_raw_bytes(pack(0x00, 0, nearest_temperature_code(150_000_000)));
    assert_eq!(top.raw_temp, 0xF_FFFF);
    assert_eq!(top.temperature_micro_celsius(), 150_000_000 - 191);
}

#[test]
fn values_grow_with_the_codes() {
    let mut last_humidity: u64 = 0;
    let mut last_temperature: i64 = -50_000_000;
    let mut code: u32 = 0;
    while code < CODE_SPAN {
        let sample = RawSensorData::from_raw_bytes(pack(0x00, code, code));
        assert!(sample.humidity_micro_percent() >= last_humidity);
        assert!(sample.temperature_micro_celsius() >= last_temperature);
        last_humidity = sample.humidity_micro_percent();
        last_temperature = sample.temperature_micro_celsius();
        code += 1_021;
    }
}

#[test]
fn nothing_is_clamped_outside_twenty_bits() {
    let sample = RawSensorData { raw_humidity: 0x10_0000, raw_temp: 0x20_0000 };
    assert_eq!(sample.humidity_micro_percent(), 100_000_000);
    assert_eq!(sample.temperature_micro_celsius(), 350_000_000);
}
