use read_ahtx0_rs::status::{StatusByte, STATUS_BUSY, STATUS_CALIBRATED};

#[test]
fn flag_masks() {
    assert_eq!(STATUS_BUSY, 0x80);
    assert_eq!(STATUS_CALIBRATED, 0x08);
}

#[test]
fn idle_uncalibrated_byte() {
    let status = StatusByte(0x00);
    assert!(!status.is_busy());
    assert!(!status.is_calibrated());
}

#[test]
fn calibrated_flag_alone() {
    let status = StatusByte(0x08);
    assert!(!status.is_busy());
    assert!(status.is_calibrated());
}

#[test]
fn busy_flag_alone() {
    let status = StatusByte(0x80);
    assert!(status.is_busy());
    assert!(!status.is_calibrated());
}

#[test]
fn other_bits_are_ignored() {
    assert!(!StatusByte(0x77).is_busy());
    assert!(!StatusByte(0x77).is_calibrated());
    assert!(StatusByte(0xFF).is_busy());
    assert!(StatusByte(0xFF).is_calibrated());
    assert!(!StatusByte(0x1C).is_busy());
    assert!(StatusByte(0x1C).is_calibrated());
}

#[test]
fn flags_follow_their_bits_for_every_byte() {
    for bits in 0..=255u8 {
        let status = StatusByte(bits);
        assert_eq!(status.is_busy(), bits >= 128);
        assert_eq!(status.is_calibrated(), (bits / 8) % 2 == 1);
    }
}
