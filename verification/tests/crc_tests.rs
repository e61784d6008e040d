use watercontroller::crc::crc16;

#[test]
fn test_crc16() {
    // Test vector from datasheet: read empty height command
    // 01 03 00 01 00 01 -> CRC should be D5 CA (0xCAD5 little-endian)
    let data = [0x01, 0x03, 0x00, 0x01, 0x00, 0x01];
    let crc = crc16(&data);
    assert_eq!(crc, 0xCAD5);
}

#[test]
fn test_crc16_write_installation_height() {
    // Test vector: write installation height 1000cm
    // 01 06 00 05 03 E8 -> CRC should be 99 75 (0x7599 little-endian)
    let data = [0x01, 0x06, 0x00, 0x05, 0x03, 0xE8];
    let crc = crc16(&data);
    assert_eq!(crc, 0x7599);
}

#[test]
fn test_crc16_empty_is_seed() {
    assert_eq!(crc16(&[]), 0xFFFF);
}

#[test]
fn test_crc16_detects_corruption() {
    let good = [0x01, 0x03, 0x00, 0x01, 0x00, 0x01];
    let reference = crc16(&good);
    for i in 0..good.len() {
        let mut bad = good;
        bad[i] ^= 0x40;
        assert_ne!(crc16(&bad), reference);
    }
}
