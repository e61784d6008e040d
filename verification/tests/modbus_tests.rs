use watercontroller::crc::crc16;
use watercontroller::modbus::{
    decode_read_response, decode_write_response, encode_read_request, encode_write_request, Error,
};

fn with_crc(mut frame: Vec<u8>) -> Vec<u8> {
    let crc = crc16(&frame);
    frame.push(crc as u8);
    frame.push((crc >> 8) as u8);
    frame
}

#[test]
fn test_encode_read_request_exact_bytes() {
    let frame = encode_read_request(0x01, 0x0001);
    assert_eq!(frame, vec![0x01, 0x03, 0x00, 0x01, 0x00, 0x01, 0xD5, 0xCA]);
}

#[test]
fn test_encode_write_request_exact_bytes() {
    let frame = encode_write_request(0x01, 0x0005, 1000);
    assert_eq!(frame, vec![0x01, 0x06, 0x00, 0x05, 0x03, 0xE8, 0x99, 0x75]);
}

#[test]
fn test_write_request_fields_round_trip() {
    // Re-deriving the register and value fields from the encoded frame
    // yields what went in, and the trailing CRC covers the first 6 bytes.
    let register: u16 = 0x03F6;
    let value: u16 = 1152;
    let frame = encode_write_request(0x07, register, value);
    assert_eq!(frame.len(), 8);
    assert_eq!(((frame[2] as u16) << 8) | frame[3] as u16, register);
    assert_eq!(((frame[4] as u16) << 8) | frame[5] as u16, value);
    let crc = crc16(&frame[0..6]);
    assert_eq!(frame[6], crc as u8);
    assert_eq!(frame[7], (crc >> 8) as u8);
}

#[test]
fn test_decode_read_response_ok() {
    let resp = with_crc(vec![0x01, 0x03, 0x02, 0x04, 0xD2]);
    assert_eq!(decode_read_response(0x01, &resp), Ok(1234));
}

#[test]
fn test_decode_read_response_crc_mismatch() {
    let mut resp = with_crc(vec![0x01, 0x03, 0x02, 0x04, 0xD2]);
    resp[3] ^= 0x10;
    assert_eq!(decode_read_response(0x01, &resp), Err(Error::CrcMismatch));
}

#[test]
fn test_decode_read_response_every_flip_caught() {
    let good = with_crc(vec![0x01, 0x03, 0x02, 0x04, 0xD2]);
    for i in 0..7 {
        let mut bad = good.clone();
        bad[i] ^= 0x08;
        assert_eq!(decode_read_response(0x01, &bad), Err(Error::CrcMismatch));
    }
}

#[test]
fn test_decode_read_response_exception() {
    let resp = with_crc(vec![0x01, 0x83, 0x02, 0x00, 0x00]);
    assert_eq!(decode_read_response(0x01, &resp), Err(Error::ModbusException(0x02)));
}

#[test]
fn test_decode_read_response_address_mismatch() {
    let resp = with_crc(vec![0x02, 0x03, 0x02, 0x04, 0xD2]);
    assert_eq!(decode_read_response(0x01, &resp), Err(Error::AddressMismatch));
}

#[test]
fn test_decode_read_response_function_mismatch() {
    let resp = with_crc(vec![0x01, 0x04, 0x02, 0x04, 0xD2]);
    assert_eq!(decode_read_response(0x01, &resp), Err(Error::FunctionMismatch));
}

#[test]
fn test_decode_read_response_invalid_length() {
    let resp = with_crc(vec![0x01, 0x03, 0x03, 0x04, 0xD2]);
    assert_eq!(decode_read_response(0x01, &resp), Err(Error::InvalidLength));
}

#[test]
fn test_decode_write_response_ok() {
    let resp = with_crc(vec![0x01, 0x06, 0x00, 0x05, 0x03, 0xE8]);
    assert_eq!(decode_write_response(0x01, &resp), Ok(()));
}

#[test]
fn test_decode_write_response_errors() {
    let mut corrupted = with_crc(vec![0x01, 0x06, 0x00, 0x05, 0x03, 0xE8]);
    corrupted[7] ^= 0x01;
    assert_eq!(decode_write_response(0x01, &corrupted), Err(Error::CrcMismatch));

    let exception = with_crc(vec![0x01, 0x86, 0x04, 0x00, 0x00, 0x00]);
    assert_eq!(decode_write_response(0x01, &exception), Err(Error::ModbusException(0x04)));

    let wrong_addr = with_crc(vec![0x03, 0x06, 0x00, 0x05, 0x03, 0xE8]);
    assert_eq!(decode_write_response(0x01, &wrong_addr), Err(Error::AddressMismatch));

    let wrong_fn = with_crc(vec![0x01, 0x10, 0x00, 0x05, 0x03, 0xE8]);
    assert_eq!(decode_write_response(0x01, &wrong_fn), Err(Error::FunctionMismatch));
}
