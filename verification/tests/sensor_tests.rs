use watercontroller::crc::crc16;
use watercontroller::modbus::Error;
use watercontroller::sen0676::Sen0676;
use watercontroller::transport::MemTransport;

fn with_crc(mut frame: Vec<u8>) -> Vec<u8> {
    let crc = crc16(&frame);
    frame.push(crc as u8);
    frame.push((crc >> 8) as u8);
    frame
}

fn read_response(addr: u8, value: u16) -> Vec<u8> {
    with_crc(vec![addr, 0x03, 0x02, (value >> 8) as u8, value as u8])
}

fn write_echo(addr: u8, register: u16, value: u16) -> Vec<u8> {
    with_crc(vec![
        addr,
        0x06,
        (register >> 8) as u8,
        register as u8,
        (value >> 8) as u8,
        value as u8,
    ])
}

#[test]
fn test_read_empty_height_ok() {
    let mut uart = MemTransport::new();
    uart.queue(&read_response(0x01, 1234));
    let mut sensor = Sen0676::new_default(uart);
    assert_eq!(sensor.read_empty_height(), Ok(1234));
    assert_eq!(
        sensor.transport().sent(),
        &vec![0x01, 0x03, 0x00, 0x01, 0x00, 0x01, 0xD5, 0xCA],
    );
}

#[test]
fn test_read_water_level_chunked_delivery() {
    let mut uart = MemTransport::new();
    uart.queue(&read_response(0x01, 777));
    uart.set_chunk(3);
    let mut sensor = Sen0676::new_default(uart);
    assert_eq!(sensor.read_water_level(), Ok(777));
}

#[test]
fn test_read_response_crc_mismatch() {
    let mut resp = read_response(0x01, 1234);
    resp[3] ^= 0x20;
    let mut uart = MemTransport::new();
    uart.queue(&resp);
    let mut sensor = Sen0676::new_default(uart);
    assert_eq!(sensor.read_empty_height(), Err(Error::CrcMismatch));
}

#[test]
fn test_read_modbus_exception() {
    // The driver always reads 7 bytes, so the exception frame is padded
    // with two bytes that the CRC then covers.
    let resp = with_crc(vec![0x01, 0x83, 0x03, 0x00, 0x00]);
    let mut uart = MemTransport::new();
    uart.queue(&resp);
    let mut sensor = Sen0676::new_default(uart);
    assert_eq!(sensor.read_empty_height(), Err(Error::ModbusException(0x03)));
}

#[test]
fn test_read_timeout_when_no_data() {
    let uart = MemTransport::new();
    let mut sensor = Sen0676::new_default(uart);
    assert_eq!(sensor.read_water_level(), Err(Error::Timeout));
}

#[test]
fn test_read_timeout_on_short_response() {
    let mut uart = MemTransport::new();
    uart.queue(&[0x01, 0x03, 0x02]);
    let mut sensor = Sen0676::new_default(uart);
    assert_eq!(sensor.read_water_level(), Err(Error::Timeout));
}

#[test]
fn test_read_io_error() {
    let mut uart = MemTransport::new();
    uart.queue(&read_response(0x01, 5));
    uart.set_read_ok(false);
    let mut sensor = Sen0676::new_default(uart);
    assert_eq!(sensor.read_range(), Err(Error::Io));
}

#[test]
fn test_write_io_error_without_response() {
    let mut uart = MemTransport::new();
    uart.set_write_ok(false);
    let mut sensor = Sen0676::new_default(uart);
    assert_eq!(sensor.set_range(10), Err(Error::Io));
    assert_eq!(sensor.transport().sent(), &Vec::<u8>::new());
}

#[test]
fn test_set_installation_height_ok() {
    let mut uart = MemTransport::new();
    uart.queue(&write_echo(0x01, 0x0005, 1000));
    let mut sensor = Sen0676::new_default(uart);
    assert_eq!(sensor.set_installation_height(1000), Ok(()));
    assert_eq!(
        sensor.transport().sent(),
        &vec![0x01, 0x06, 0x00, 0x05, 0x03, 0xE8, 0x99, 0x75],
    );
}

#[test]
fn test_set_device_address_rejects_zero() {
    let uart = MemTransport::new();
    let mut sensor = Sen0676::new_default(uart);
    assert_eq!(sensor.set_device_address(0x00), Err(Error::InvalidAddress));
    assert_eq!(sensor.transport().sent(), &Vec::<u8>::new());
}

#[test]
fn test_set_device_address_rejects_high() {
    let uart = MemTransport::new();
    let mut sensor = Sen0676::new_default(uart);
    assert_eq!(sensor.set_device_address(0xFE), Err(Error::InvalidAddress));
    assert_eq!(sensor.set_device_address(0xFF), Err(Error::InvalidAddress));
    assert_eq!(sensor.transport().sent(), &Vec::<u8>::new());
}

#[test]
fn test_set_device_address_switches_address() {
    let mut uart = MemTransport::new();
    // Echo for the write under the old address, then a response for a
    // read under the new address.
    uart.queue(&write_echo(0x01, 0x03F4, 0x0005));
    uart.queue(&read_response(0x05, 42));
    let mut sensor = Sen0676::new_default(uart);
    assert_eq!(sensor.set_device_address(0x05), Ok(()));
    assert_eq!(sensor.read_empty_height(), Ok(42));
    // The second request frame carries the new address.
    let sent = sensor.transport().sent();
    assert_eq!(sent.len(), 16);
    assert_eq!(sent[0], 0x01);
    assert_eq!(sent[8], 0x05);
}

#[test]
fn test_set_device_address_keeps_address_on_failure() {
    let mut uart = MemTransport::new();
    // A truncated echo: the write exchange times out, and the next
    // request still carries the old address.
    uart.queue(&[0xAA, 0xBB, 0xCC]);
    let mut sensor = Sen0676::new_default(uart);
    assert_eq!(sensor.set_device_address(0x05), Err(Error::Timeout));
    assert_eq!(sensor.read_empty_height(), Err(Error::Timeout));
    let sent = sensor.transport().sent();
    assert_eq!(sent.len(), 16);
    assert_eq!(sent[0], 0x01);
    assert_eq!(sent[8], 0x01);
}

#[test]
fn test_set_baud_rate_rejects_unsupported() {
    let uart = MemTransport::new();
    let mut sensor = Sen0676::new_default(uart);
    assert_eq!(sensor.set_baud_rate(100000), Err(Error::InvalidBaudRate));
    assert_eq!(sensor.transport().sent(), &Vec::<u8>::new());
}

#[test]
fn test_set_baud_rate_115200_writes_1152() {
    let mut uart = MemTransport::new();
    uart.queue(&write_echo(0x01, 0x03F6, 1152));
    let mut sensor = Sen0676::new_default(uart);
    assert_eq!(sensor.set_baud_rate(115200), Ok(()));
    // Exactly one write request to the baud-rate register, value 1152.
    let expected = {
        let mut frame = vec![0x01, 0x06, 0x03, 0xF6, 0x04, 0x80];
        let crc = crc16(&frame);
        frame.push(crc as u8);
        frame.push((crc >> 8) as u8);
        frame
    };
    assert_eq!(sensor.transport().sent(), &expected);
}

#[test]
fn test_read_baud_rate_scales_by_100() {
    let mut uart = MemTransport::new();
    uart.queue(&read_response(0x01, 1152));
    let mut sensor = Sen0676::new_default(uart);
    assert_eq!(sensor.read_baud_rate(), Ok(115200));
}

#[test]
fn test_read_device_address_truncates() {
    let mut uart = MemTransport::new();
    uart.queue(&read_response(0x01, 0x0005));
    let mut sensor = Sen0676::new_default(uart);
    assert_eq!(sensor.read_device_address(), Ok(0x05));
}

#[test]
fn test_read_installation_height_and_range() {
    let mut uart = MemTransport::new();
    uart.queue(&read_response(0x01, 200));
    uart.queue(&read_response(0x01, 10));
    let mut sensor = Sen0676::new_default(uart);
    assert_eq!(sensor.read_installation_height(), Ok(200));
    assert_eq!(sensor.read_range(), Ok(10));
}

#[test]
fn test_drain_ascii_messages_splits_and_trims() {
    let mut uart = MemTransport::new();
    uart.queue(b"  boot ok \r\nver 1.2\n\nrest");
    let mut sensor = Sen0676::new_default(uart);
    let lines = sensor.drain_ascii_messages();
    assert_eq!(
        lines,
        vec![b"boot ok".to_vec(), b"ver 1.2".to_vec(), b"rest".to_vec()],
    );
    // Nothing was written.
    assert_eq!(sensor.transport().sent(), &Vec::<u8>::new());
}

#[test]
fn test_drain_ascii_messages_drops_non_printable() {
    let mut uart = MemTransport::new();
    uart.queue(&[0x01, b'h', 0x02, b'i', 0x0A]);
    let mut sensor = Sen0676::new_default(uart);
    let lines = sensor.drain_ascii_messages();
    assert_eq!(lines, vec![b"hi".to_vec()]);
}

#[test]
fn test_drain_ascii_messages_empty() {
    let uart = MemTransport::new();
    let mut sensor = Sen0676::new_default(uart);
    let lines = sensor.drain_ascii_messages();
    assert_eq!(lines, Vec::<Vec<u8>>::new());
}
