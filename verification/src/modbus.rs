//! Modbus-RTU frame layout: request encoding and response validation.
//!
//! Frames are laid out as `[address][function][payload...][crc_lo][crc_hi]`.
//! A read request carries register and count (always 1) big-endian; a read
//! response carries a byte count and one big-endian register value; a write
//! request carries register and value big-endian and is echoed verbatim by
//! the device.
//!
//! The encoders return the exact wire bytes ([`read_request`],
//! [`write_request`]); the decoders apply the validation chain of the
//! protocol — CRC, exception bit, address echo, function echo, byte count —
//! and report the first failure ([`parse_read_response`],
//! [`parse_write_response`]).

use vstd::prelude::*;

use crate::crc::{crc16, crc16_spec, lemma_crc16_single_flip};

verus! {

/// Function code for reading a holding register.
pub const FN_READ_HOLDING_REGISTERS: u8 = 0x03;

/// Function code for writing a single holding register.
pub const FN_WRITE_SINGLE_REGISTER: u8 = 0x06;

/// Errors that can occur during communication with the device.
#[derive(Debug, Clone, Copy, PartialEq, Eq, Structural)]
pub enum Error {
    /// Serial transport failure.
    Io,
    /// CRC mismatch in a response frame.
    CrcMismatch,
    /// Unexpected byte-count field in a response frame.
    InvalidLength,
    /// Unexpected device address in a response frame.
    AddressMismatch,
    /// Unexpected function code in a response frame.
    FunctionMismatch,
    /// Modbus exception response, carrying the device-reported code.
    ModbusException(u8),
    /// Timeout waiting for a response.
    Timeout,
    /// Unsupported baud rate value.
    InvalidBaudRate,
    /// Invalid device address (must be 0x01-0xFD).
    InvalidAddress,
}

/// High byte of a 16-bit value.
pub open spec fn hi_byte(v: u16) -> u8 {
    (v >> 8) as u8
}

/// Low byte of a 16-bit value.
pub open spec fn lo_byte(v: u16) -> u8 {
    (v & 0xFF) as u8
}

/// Big-endian combination of two bytes.
pub open spec fn be16(hi: u8, lo: u8) -> u16 {
    ((hi as u16) << 8) | (lo as u16)
}

/// A frame body followed by its CRC, appended low byte first.
pub open spec fn frame_with_crc(body: Seq<u8>) -> Seq<u8> {
    body + seq![lo_byte(crc16_spec(body)), hi_byte(crc16_spec(body))]
}

/// The 8-byte request frame for reading one holding register.
pub open spec fn read_request(addr: u8, register: u16) -> Seq<u8> {
    frame_with_crc(
        seq![addr, FN_READ_HOLDING_REGISTERS, hi_byte(register), lo_byte(register), 0x00, 0x01],
    )
}

/// The 8-byte request frame for writing one holding register.
pub open spec fn write_request(addr: u8, register: u16, value: u16) -> Seq<u8> {
    frame_with_crc(
        seq![
            addr,
            FN_WRITE_SINGLE_REGISTER,
            hi_byte(register),
            lo_byte(register),
            hi_byte(value),
            lo_byte(value),
        ],
    )
}

/// Validation chain for a 7-byte read response, in protocol order:
/// CRC match, exception bit, device-address echo, function-code echo,
/// byte count equal to 2; on success the big-endian register value.
pub open spec fn parse_read_response(addr: u8, s: Seq<u8>) -> Result<u16, Error>
    recommends
        s.len() == 7,
{
    if be16(s[6], s[5]) != crc16_spec(s.take(5)) {
        Err(Error::CrcMismatch)
    } else if s[1] & 0x80 != 0 {
        Err(Error::ModbusException(s[2]))
    } else if s[0] != addr {
        Err(Error::AddressMismatch)
    } else if s[1] != FN_READ_HOLDING_REGISTERS {
        Err(Error::FunctionMismatch)
    } else if s[2] != 2 {
        Err(Error::InvalidLength)
    } else {
        Ok(be16(s[3], s[4]))
    }
}

/// Validation chain for the 8-byte echo of a write request: CRC match,
/// exception bit, device-address echo, function-code echo.
pub open spec fn parse_write_response(addr: u8, s: Seq<u8>) -> Result<(), Error>
    recommends
        s.len() == 8,
{
    if be16(s[7], s[6]) != crc16_spec(s.take(6)) {
        Err(Error::CrcMismatch)
    } else if s[1] & 0x80 != 0 {
        Err(Error::ModbusException(s[2]))
    } else if s[0] != addr {
        Err(Error::AddressMismatch)
    } else if s[1] != FN_WRITE_SINGLE_REGISTER {
        Err(Error::FunctionMismatch)
    } else {
        Ok(())
    }
}

/// Build the read request `[addr] [0x03] [reg_hi] [reg_lo] [0x00] [0x01]
/// [crc_lo] [crc_hi]`.
pub fn encode_read_request(addr: u8, register: u16) -> (frame: Vec<u8>)
    ensures
        frame@ == read_request(addr, register),
{
    let mut frame: Vec<u8> = Vec::new();
    frame.push(addr);
    frame.push(FN_READ_HOLDING_REGISTERS);
    frame.push((register >> 8) as u8);
    frame.push((register & 0xFF) as u8);
    frame.push(0x00);
    frame.push(0x01);
    proof {
        assert(frame@ =~= seq![
            addr,
            FN_READ_HOLDING_REGISTERS,
            hi_byte(register),
            lo_byte(register),
            0x00u8,
            0x01u8,
        ]);
    }
    let crc = crc16(frame.as_slice());
    frame.push((crc & 0xFF) as u8);
    frame.push((crc >> 8) as u8);
    proof {
        assert(frame@ =~= read_request(addr, register));
    }
    frame
}

/// Build the write request `[addr] [0x06] [reg_hi] [reg_lo] [val_hi]
/// [val_lo] [crc_lo] [crc_hi]`.
pub fn encode_write_request(addr: u8, register: u16, value: u16) -> (frame: Vec<u8>)
    ensures
        frame@ == write_request(addr, register, value),
{
    let mut frame: Vec<u8> = Vec::new();
    frame.push(addr);
    frame.push(FN_WRITE_SINGLE_REGISTER);
    frame.push((register >> 8) as u8);
    frame.push((register & 0xFF) as u8);
    frame.push((value >> 8) as u8);
    frame.push((value & 0xFF) as u8);
    proof {
        assert(frame@ =~= seq![
            addr,
            FN_WRITE_SINGLE_REGISTER,
            hi_byte(register),
            lo_byte(register),
            hi_byte(value),
            lo_byte(value),
        ]);
    }
    let crc = crc16(frame.as_slice());
    frame.push((crc & 0xFF) as u8);
    frame.push((crc >> 8) as u8);
    proof {
        assert(frame@ =~= write_request(addr, register, value));
    }
    frame
}

/// Validate a 7-byte read response and extract the register value.
pub fn decode_read_response(addr: u8, resp: &[u8]) -> (r: Result<u16, Error>)
    requires
        resp@.len() == 7,
    ensures
        r == parse_read_response(addr, resp@),
{
    let received = ((resp[6] as u16) << 8) | (resp[5] as u16);
    let computed = crc16(&resp[0..5]);
    proof {
        assert(resp@.subrange(0, 5) =~= resp@.take(5));
    }
    if received != computed {
        return Err(Error::CrcMismatch);
    }
    if resp[1] & 0x80 != 0 {
        return Err(Error::ModbusException(resp[2]));
    }
    if resp[0] != addr {
        return Err(Error::AddressMismatch);
    }
    if resp[1] != FN_READ_HOLDING_REGISTERS {
        return Err(Error::FunctionMismatch);
    }
    if resp[2] != 2 {
        return Err(Error::InvalidLength);
    }
    Ok(((resp[3] as u16) << 8) | (resp[4] as u16))
}

/// Validate the 8-byte echo of a write request.
pub fn decode_write_response(addr: u8, resp: &[u8]) -> (r: Result<(), Error>)
    requires
        resp@.len() == 8,
    ensures
        r == parse_write_response(addr, resp@),
{
    let received = ((resp[7] as u16) << 8) | (resp[6] as u16);
    let computed = crc16(&resp[0..6]);
    proof {
        assert(resp@.subrange(0, 6) =~= resp@.take(6));
    }
    if received != computed {
        return Err(Error::CrcMismatch);
    }
    if resp[1] & 0x80 != 0 {
        return Err(Error::ModbusException(resp[2]));
    }
    if resp[0] != addr {
        return Err(Error::AddressMismatch);
    }
    if resp[1] != FN_WRITE_SINGLE_REGISTER {
        return Err(Error::FunctionMismatch);
    }
    Ok(())
}

/// Round trip of a write request: the register and value fields of the
/// encoded frame recombine to exactly the encoded register and value, and
/// the transmitted CRC matches the checksum of the first six bytes.
pub proof fn lemma_write_request_round_trip(addr: u8, register: u16, value: u16)
    ensures
        write_request(addr, register, value).len() == 8,
        write_request(addr, register, value)[0] == addr,
        write_request(addr, register, value)[1] == FN_WRITE_SINGLE_REGISTER,
        be16(write_request(addr, register, value)[2], write_request(addr, register, value)[3])
            == register,
        be16(write_request(addr, register, value)[4], write_request(addr, register, value)[5])
            == value,
        be16(write_request(addr, register, value)[7], write_request(addr, register, value)[6])
            == crc16_spec(write_request(addr, register, value).take(6)),
{
    let body = seq![
        addr,
        FN_WRITE_SINGLE_REGISTER,
        hi_byte(register),
        lo_byte(register),
        hi_byte(value),
        lo_byte(value),
    ];
    let frame = write_request(addr, register, value);
    assert(frame.take(6) =~= body);
    lemma_be16_of_split(register);
    lemma_be16_of_split(value);
    lemma_be16_of_split(crc16_spec(body));
}

/// The same round trip for a read request: register field and CRC.
pub proof fn lemma_read_request_round_trip(addr: u8, register: u16)
    ensures
        read_request(addr, register).len() == 8,
        read_request(addr, register)[0] == addr,
        read_request(addr, register)[1] == FN_READ_HOLDING_REGISTERS,
        be16(read_request(addr, register)[2], read_request(addr, register)[3]) == register,
        read_request(addr, register)[4] == 0x00,
        read_request(addr, register)[5] == 0x01,
        be16(read_request(addr, register)[7], read_request(addr, register)[6])
            == crc16_spec(read_request(addr, register).take(6)),
{
    let body = seq![
        addr,
        FN_READ_HOLDING_REGISTERS,
        hi_byte(register),
        lo_byte(register),
        0x00u8,
        0x01u8,
    ];
    let frame = read_request(addr, register);
    assert(frame.take(6) =~= body);
    lemma_be16_of_split(register);
    lemma_be16_of_split(crc16_spec(body));
}

/// Splitting a 16-bit value into its bytes and recombining them big-endian
/// yields the value back.
pub proof fn lemma_be16_of_split(v: u16)
    ensures
        be16(hi_byte(v), lo_byte(v)) == v,
{
    assert(((((v >> 8) as u8) as u16) << 8) | (((v & 0xFF) as u8) as u16) == v) by (bit_vector);
}

/// A well-formed read response — correct CRC, no exception bit, matching
/// address and function, byte count 2 — is accepted, and the returned value
/// is the big-endian combination of its two data bytes.
pub proof fn lemma_read_response_accepts_well_formed(addr: u8, s: Seq<u8>)
    requires
        s.len() == 7,
        be16(s[6], s[5]) == crc16_spec(s.take(5)),
        s[1] & 0x80 == 0,
        s[0] == addr,
        s[1] == FN_READ_HOLDING_REGISTERS,
        s[2] == 2,
    ensures
        parse_read_response(addr, s) == Ok::<u16, Error>(be16(s[3], s[4])),
{
}

/// Flipping any single byte of a well-formed read response makes the
/// validation chain fail with `CrcMismatch`: a corrupted payload or address
/// no longer matches the transmitted CRC, and a corrupted CRC field no
/// longer matches the payload.
pub proof fn lemma_read_response_detects_single_flip(addr: u8, s: Seq<u8>, t: Seq<u8>, i: int)
    requires
        s.len() == 7,
        parse_read_response(addr, s) is Ok,
        t.len() == 7,
        0 <= i < 7,
        t[i] != s[i],
        forall|j: int| 0 <= j < 7 && j != i ==> t[j] == s[j],
    ensures
        parse_read_response(addr, t) == Err::<u16, Error>(Error::CrcMismatch),
{
    if i < 5 {
        // A data byte changed: the checksum of the first five bytes moves,
        // while the transmitted CRC stays put.
        assert(s.take(5).len() == 5);
        assert(t.take(5)[i] == t[i] && s.take(5)[i] == s[i]);
        lemma_crc16_single_flip(s.take(5), t.take(5), i);
        assert(be16(t[6], t[5]) == be16(s[6], s[5]));
    } else {
        // A CRC byte changed: the payload checksum stays put, while the
        // transmitted CRC moves.
        assert(t.take(5) =~= s.take(5));
        if be16(t[6], t[5]) == be16(s[6], s[5]) {
            lemma_be16_injective(t[6], t[5], s[6], s[5]);
        }
    }
}

/// Big-endian combination is injective in both bytes.
pub proof fn lemma_be16_injective(h1: u8, l1: u8, h2: u8, l2: u8)
    requires
        be16(h1, l1) == be16(h2, l2),
    ensures
        h1 == h2,
        l1 == l2,
{
    assert((((h1 as u16) << 8) | (l1 as u16)) == (((h2 as u16) << 8) | (l2 as u16)) ==> h1 == h2
        && l1 == l2) by (bit_vector);
}

} // verus!
