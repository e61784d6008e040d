//! Modbus-RTU register client for a radar liquid-level sensor.
//!
//! The driver owns a byte-stream [`Transport`] and exposes named accessors
//! for the sensor's holding registers. Every exchange is a single
//! request/response round trip: the request frame is written, the fixed-size
//! response is read back, and the response runs through the validation chain
//! of [`crate::modbus`]. No retry happens inside the driver; callers decide.
//!
//! The contracts speak of the transport's ghost transcript: which request
//! bytes a call appends to `tx`, how many response bytes it consumes from
//! `rx`, and how the result relates to exactly those consumed bytes.

use vstd::prelude::*;

use crate::modbus::{
    decode_read_response, decode_write_response, encode_read_request, encode_write_request,
    parse_read_response, parse_write_response, read_request, write_request, Error,
};
use crate::transport::Transport;

verus! {

/// Holding register: empty height (mm, read-only).
pub const REG_EMPTY_HEIGHT: u16 = 0x0001;

/// Holding register: water level (mm, read-only).
pub const REG_WATER_LEVEL: u16 = 0x0003;

/// Holding register: installation height (cm, read-write).
pub const REG_INSTALLATION_HEIGHT: u16 = 0x0005;

/// Holding register: device address (read-write).
pub const REG_DEVICE_ADDRESS: u16 = 0x03F4;

/// Holding register: baud rate divided by 100 (read-write).
pub const REG_BAUD_RATE: u16 = 0x03F6;

/// Holding register: maximum range (m, read-write).
pub const REG_RANGE: u16 = 0x07D4;

/// Default Modbus device address.
pub const DEFAULT_ADDRESS: u8 = 0x01;

/// Default communication baud rate.
pub const DEFAULT_BAUD_RATE: u32 = 115200;

/// The register value a supported baud rate is encoded as (the rate divided
/// by 100), or `None` for an unsupported rate.
pub open spec fn baud_code(baud: u32) -> Option<u16> {
    if baud == 4800 {
        Some(48u16)
    } else if baud == 9600 {
        Some(96u16)
    } else if baud == 14400 {
        Some(144u16)
    } else if baud == 19200 {
        Some(192u16)
    } else if baud == 38400 {
        Some(384u16)
    } else if baud == 56000 {
        Some(560u16)
    } else if baud == 57600 {
        Some(576u16)
    } else if baud == 115200 {
        Some(1152u16)
    } else if baud == 129000 {
        Some(1290u16)
    } else {
        None
    }
}

/// Printable ASCII: space through tilde.
pub open spec fn is_printable(b: u8) -> bool {
    0x20 <= b < 0x7F
}

/// The partial diagnostic line accumulated after the given bytes: the
/// printable bytes since the last newline, every other byte dropped.
pub open spec fn pending_line(bytes: Seq<u8>) -> Seq<u8>
    decreases bytes.len(),
{
    if bytes.len() == 0 {
        Seq::empty()
    } else if bytes.last() == 0x0A {
        Seq::empty()
    } else if is_printable(bytes.last()) {
        pending_line(bytes.drop_last()).push(bytes.last())
    } else {
        pending_line(bytes.drop_last())
    }
}

/// The diagnostic lines completed by newlines in the given bytes, each
/// trimmed of surrounding spaces; a newline on an empty accumulator emits
/// nothing.
pub open spec fn completed_lines(bytes: Seq<u8>) -> Seq<Seq<u8>>
    decreases bytes.len(),
{
    if bytes.len() == 0 {
        Seq::empty()
    } else if bytes.last() == 0x0A {
        if pending_line(bytes.drop_last()).len() > 0 {
            completed_lines(bytes.drop_last()).push(trim_spaces(pending_line(bytes.drop_last())))
        } else {
            completed_lines(bytes.drop_last())
        }
    } else {
        completed_lines(bytes.drop_last())
    }
}

/// All diagnostic lines in the given bytes: the completed ones, and the
/// pending line where input ends in the middle of one.
pub open spec fn ascii_lines(bytes: Seq<u8>) -> Seq<Seq<u8>> {
    if pending_line(bytes).len() > 0 {
        completed_lines(bytes).push(trim_spaces(pending_line(bytes)))
    } else {
        completed_lines(bytes)
    }
}

/// A byte sequence without its leading spaces.
pub open spec fn trim_leading(s: Seq<u8>) -> Seq<u8>
    decreases s.len(),
{
    if s.len() > 0 && s[0] == 0x20 {
        trim_leading(s.skip(1))
    } else {
        s
    }
}

/// A byte sequence without its trailing spaces.
pub open spec fn trim_trailing(s: Seq<u8>) -> Seq<u8>
    decreases s.len(),
{
    if s.len() > 0 && s.last() == 0x20 {
        trim_trailing(s.drop_last())
    } else {
        s
    }
}

/// A byte sequence without its surrounding spaces. Space is the only
/// white-space byte a pending line can hold: everything below 0x20 is
/// dropped as non-printable before it reaches a line.
pub open spec fn trim_spaces(s: Seq<u8>) -> Seq<u8> {
    trim_trailing(trim_leading(s))
}

/// Trimming the leading spaces keeps exactly the suffix from the first
/// non-space position on.
proof fn lemma_trim_leading_skip(s: Seq<u8>, k: int)
    requires
        0 <= k <= s.len(),
        forall|j: int| 0 <= j < k ==> s[j] == 0x20,
        k == s.len() || s[k] != 0x20,
    ensures
        trim_leading(s) == s.skip(k),
    decreases k,
{
    if k == 0 {
        assert(s.skip(0) =~= s);
    } else {
        assert(forall|j: int| 0 <= j < k - 1 ==> s.skip(1)[j] == s[j + 1]);
        lemma_trim_leading_skip(s.skip(1), k - 1);
        assert(s.skip(1).skip(k - 1) =~= s.skip(k));
    }
}

/// Trimming the trailing spaces keeps exactly the prefix up to the last
/// non-space position.
proof fn lemma_trim_trailing_take(s: Seq<u8>, m: int)
    requires
        0 <= m <= s.len(),
        forall|j: int| m <= j < s.len() ==> s[j] == 0x20,
        m == 0 || s[m - 1] != 0x20,
    ensures
        trim_trailing(s) == s.take(m),
    decreases s.len(),
{
    if m == s.len() {
        assert(s.take(m) =~= s);
    } else {
        assert(s.last() == 0x20);
        assert(forall|j: int| m <= j < s.len() - 1 ==> s.drop_last()[j] == s[j]);
        lemma_trim_trailing_take(s.drop_last(), m);
        assert(s.drop_last().take(m) =~= s.take(m));
    }
}

/// Copy of `v` without its surrounding spaces.
fn trim_ascii_spaces(v: &Vec<u8>) -> (r: Vec<u8>)
    ensures
        r@ == trim_spaces(v@),
{
    let mut start: usize = 0;
    while start < v.len() && v[start] == 0x20
        invariant
            start <= v@.len(),
            forall|j: int| 0 <= j < start ==> v@[j] == 0x20,
        decreases v@.len() - start,
    {
        start += 1;
    }
    let mut end: usize = v.len();
    while end > start && v[end - 1] == 0x20
        invariant
            start <= end <= v@.len(),
            forall|j: int| end <= j < v@.len() ==> v@[j] == 0x20,
        decreases end,
    {
        end -= 1;
    }
    let mut r: Vec<u8> = Vec::new();
    let mut i: usize = start;
    while i < end
        invariant
            start <= i <= end,
            end <= v@.len(),
            r@ == v@.subrange(start as int, i as int),
        decreases end - i,
    {
        r.push(v[i]);
        proof {
            assert(v@.subrange(start as int, i as int).push(v@[i as int]) =~= v@.subrange(
                start as int,
                i + 1,
            ));
        }
        i += 1;
    }
    proof {
        lemma_trim_leading_skip(v@, start as int);
        assert(forall|j: int|
            end - start <= j < v@.len() - start ==> v@.skip(start as int)[j] == v@[start + j]);
        lemma_trim_trailing_take(v@.skip(start as int), end - start);
        assert(v@.skip(start as int).take(end - start) =~= v@.subrange(start as int, end as int));
    }
    r
}

/// Radar liquid-level sensor driver over a byte-stream transport.
pub struct Sen0676<U> {
    uart: U,
    address: u8,
}

impl<U: Transport> Sen0676<U> {
    /// The device address used for request frames.
    pub closed spec fn addr(&self) -> u8 {
        self.address
    }

    /// All bytes the driver has written to the transport.
    pub closed spec fn tx(&self) -> Seq<u8> {
        self.uart.tx()
    }

    /// All bytes the driver has consumed from the transport.
    pub closed spec fn rx(&self) -> Seq<u8> {
        self.uart.rx()
    }

    /// What one read exchange for `register` does: the device address is
    /// kept; consumed bytes only grow; at most one request frame goes out.
    /// Unless the transport itself failed (`Io`) or ran dry (`Timeout`),
    /// exactly the request frame was written, exactly 7 response bytes were
    /// consumed, and the result is the validation chain applied to them.
    pub open spec fn read_outcome(
        pre: Self,
        post: Self,
        register: u16,
        r: Result<u16, Error>,
    ) -> bool {
        &&& post.addr() == pre.addr()
        &&& pre.rx().is_prefix_of(post.rx())
        &&& (post.tx() == pre.tx() || post.tx() == pre.tx() + read_request(pre.addr(), register))
        &&& (!(r == Err::<u16, Error>(Error::Io) || r == Err::<u16, Error>(Error::Timeout))
            ==> {
            &&& post.tx() == pre.tx() + read_request(pre.addr(), register)
            &&& post.rx().len() == pre.rx().len() + 7
            &&& r == parse_read_response(pre.addr(), post.rx().skip(pre.rx().len() as int))
        })
    }

    /// What one write exchange for `register` and `value` does, as
    /// [`Self::read_outcome`] but with an 8-byte echo. The device address
    /// field is left to the caller (address changes on success of
    /// [`Self::set_device_address`]).
    pub open spec fn write_outcome(
        pre: Self,
        post: Self,
        register: u16,
        value: u16,
        r: Result<(), Error>,
    ) -> bool {
        &&& pre.rx().is_prefix_of(post.rx())
        &&& (post.tx() == pre.tx() || post.tx() == pre.tx() + write_request(
            pre.addr(),
            register,
            value,
        ))
        &&& (!(r == Err::<(), Error>(Error::Io) || r == Err::<(), Error>(Error::Timeout))
            ==> {
            &&& post.tx() == pre.tx() + write_request(pre.addr(), register, value)
            &&& post.rx().len() == pre.rx().len() + 8
            &&& r == parse_write_response(pre.addr(), post.rx().skip(pre.rx().len() as int))
        })
    }

    /// Create a new sensor instance for a transport and device address.
    pub fn new(uart: U, address: u8) -> (s: Self)
        ensures
            s.addr() == address,
            s.tx() == uart.tx(),
            s.rx() == uart.rx(),
    {
        Sen0676 { uart, address }
    }

    /// Create a new sensor instance with the default address (0x01).
    pub fn new_default(uart: U) -> (s: Self)
        ensures
            s.addr() == DEFAULT_ADDRESS,
            s.tx() == uart.tx(),
            s.rx() == uart.rx(),
    {
        Sen0676 { uart, address: DEFAULT_ADDRESS }
    }

    /// The transport, for inspection.
    pub fn transport(&self) -> (r: &U)
        ensures
            r.tx() == self.tx(),
            r.rx() == self.rx(),
    {
        &self.uart
    }

    /// Read and collect any ASCII diagnostic lines from the sensor. Some
    /// sensors output status messages on boot; calling this before normal
    /// Modbus communication drains them. Bytes are read one at a time
    /// until the transport reports no data; printable bytes accumulate
    /// into lines, newlines complete them, and everything else (carriage
    /// returns included) is discarded silently. Register protocol state is
    /// untouched: nothing is written.
    pub fn drain_ascii_messages(&mut self) -> (lines: Vec<Vec<u8>>)
        ensures
            final(self).addr() == old(self).addr(),
            final(self).tx() == old(self).tx(),
            old(self).rx().is_prefix_of(final(self).rx()),
            lines.deep_view() == ascii_lines(
                final(self).rx().skip(old(self).rx().len() as int),
            ),
    {
        let mut lines: Vec<Vec<u8>> = Vec::new();
        let mut line: Vec<u8> = Vec::new();
        let ghost start = self.uart.rx().len() as int;
        let mut done = false;
        proof {
            assert(self.uart.rx().skip(start) =~= Seq::<u8>::empty());
            assert(lines.deep_view() =~= Seq::<Seq<u8>>::empty());
            assert(self.uart.rx().take(start) =~= old(self).uart.rx());
        }
        while !done
            invariant
                self.address == old(self).address,
                self.uart.tx() == old(self).uart.tx(),
                start == old(self).uart.rx().len(),
                start <= self.uart.rx().len(),
                self.uart.rx().take(start) == old(self).uart.rx(),
                line@ == pending_line(self.uart.rx().skip(start)),
                lines.deep_view() == completed_lines(self.uart.rx().skip(start)),
            decreases self.uart.avail(), (if done {
                0int
            } else {
                1int
            }),
        {
            let ghost prev_rx = self.uart.rx();
            let ghost prev_lines = lines.deep_view();
            let ghost prev_line = line@;
            let r = self.uart.read_some(1);
            match r {
                Some(chunk) => {
                    if chunk.len() == 1 {
                        let b = chunk[0];
                        proof {
                            assert(chunk@ =~= seq![b]);
                            assert(self.uart.rx().skip(start) =~= prev_rx.skip(start).push(b));
                            assert(self.uart.rx().skip(start).drop_last() =~= prev_rx.skip(
                                start,
                            ));
                            assert(self.uart.rx().take(start) =~= prev_rx.take(start));
                        }
                        if b == 0x0A {
                            if line.len() > 0 {
                                let trimmed = trim_ascii_spaces(&line);
                                lines.push(trimmed);
                                line = Vec::new();
                                proof {
                                    assert(lines.deep_view() =~~= prev_lines.push(trimmed@));
                                }
                            }
                        } else if b >= 0x20 && b < 0x7F {
                            line.push(b);
                        }
                    } else {
                        done = true;
                        proof {
                            assert(self.uart.rx().skip(start) =~= prev_rx.skip(start));
                            assert(self.uart.rx().take(start) =~= prev_rx.take(start));
                        }
                    }
                },
                None => {
                    done = true;
                },
            }
        }
        if line.len() > 0 {
            let trimmed = trim_ascii_spaces(&line);
            lines.push(trimmed);
            proof {
                assert(lines.deep_view() =~~= completed_lines(
                    self.uart.rx().skip(start),
                ).push(trimmed@));
            }
        }
        proof {
            lemma_concat_prefix(old(self).uart.rx(), self.uart.rx().skip(start));
            assert(old(self).uart.rx() + self.uart.rx().skip(start) =~= self.uart.rx());
        }
        lines
    }

    /// Read the empty height (distance from sensor to liquid surface),
    /// in millimeters.
    pub fn read_empty_height(&mut self) -> (r: Result<u16, Error>)
        ensures
            Self::read_outcome(*old(self), *final(self), REG_EMPTY_HEIGHT, r),
    {
        self.read_register(REG_EMPTY_HEIGHT)
    }

    /// Read the calculated water level, in millimeters.
    pub fn read_water_level(&mut self) -> (r: Result<u16, Error>)
        ensures
            Self::read_outcome(*old(self), *final(self), REG_WATER_LEVEL, r),
    {
        self.read_register(REG_WATER_LEVEL)
    }

    /// Read the configured installation height, in centimeters.
    pub fn read_installation_height(&mut self) -> (r: Result<u16, Error>)
        ensures
            Self::read_outcome(*old(self), *final(self), REG_INSTALLATION_HEIGHT, r),
    {
        self.read_register(REG_INSTALLATION_HEIGHT)
    }

    /// Set the installation height (distance from sensor to tank bottom),
    /// in centimeters.
    pub fn set_installation_height(&mut self, cm: u16) -> (r: Result<(), Error>)
        ensures
            Self::write_outcome(*old(self), *final(self), REG_INSTALLATION_HEIGHT, cm, r),
            final(self).addr() == old(self).addr(),
    {
        self.write_register(REG_INSTALLATION_HEIGHT, cm)
    }

    /// Read the current device address (the low byte of the register).
    pub fn read_device_address(&mut self) -> (r: Result<u8, Error>)
        ensures
            final(self).addr() == old(self).addr(),
            match r {
                Ok(a) => exists|raw: u16|
                    Self::read_outcome(*old(self), *final(self), REG_DEVICE_ADDRESS, Ok(raw))
                        && a == (raw & 0xFF) as u8,
                Err(e) => Self::read_outcome(
                    *old(self),
                    *final(self),
                    REG_DEVICE_ADDRESS,
                    Err(e),
                ),
            },
    {
        match self.read_register(REG_DEVICE_ADDRESS) {
            Ok(value) => {
                proof {
                    assert(value as u8 == (value & 0xFF) as u8) by (bit_vector);
                }
                Ok(value as u8)
            },
            Err(e) => Err(e),
        }
    }

    /// Set a new device address (0x01-0xFD). Addresses 0x00 and above 0xFD
    /// are rejected without touching the transport. Only a successful write
    /// changes the address used for subsequent frames; the caller still has
    /// to re-address the physical device by creating a new instance.
    pub fn set_device_address(&mut self, addr: u8) -> (r: Result<(), Error>)
        ensures
            (addr == 0 || addr > 0xFD) ==> r == Err::<(), Error>(Error::InvalidAddress)
                && *final(self) == *old(self),
            !(addr == 0 || addr > 0xFD) ==> {
                &&& Self::write_outcome(
                    *old(self),
                    *final(self),
                    REG_DEVICE_ADDRESS,
                    addr as u16,
                    r,
                )
                &&& (r is Ok ==> final(self).addr() == addr)
                &&& (r is Err ==> final(self).addr() == old(self).addr())
            },
    {
        if addr == 0 || addr > 0xFD {
            return Err(Error::InvalidAddress);
        }
        match self.write_register(REG_DEVICE_ADDRESS, addr as u16) {
            Ok(()) => {
                self.address = addr;
                Ok(())
            },
            Err(e) => Err(e),
        }
    }

    /// Read the current baud rate (the register value times 100).
    pub fn read_baud_rate(&mut self) -> (r: Result<u32, Error>)
        ensures
            final(self).addr() == old(self).addr(),
            match r {
                Ok(baud) => exists|raw: u16|
                    Self::read_outcome(*old(self), *final(self), REG_BAUD_RATE, Ok(raw))
                        && baud == raw as u32 * 100,
                Err(e) => Self::read_outcome(*old(self), *final(self), REG_BAUD_RATE, Err(e)),
            },
    {
        match self.read_register(REG_BAUD_RATE) {
            Ok(value) => Ok(value as u32 * 100),
            Err(e) => Err(e),
        }
    }

    /// Set the baud rate. Only the fixed supported set (4800, 9600, 14400,
    /// 19200, 38400, 56000, 57600, 115200, 129000) is accepted; any other
    /// rate is rejected without touching the transport.
    pub fn set_baud_rate(&mut self, baud: u32) -> (r: Result<(), Error>)
        ensures
            baud_code(baud) is None ==> r == Err::<(), Error>(Error::InvalidBaudRate)
                && *final(self) == *old(self),
            baud_code(baud) matches Some(code) ==> Self::write_outcome(
                *old(self),
                *final(self),
                REG_BAUD_RATE,
                code,
                r,
            ) && final(self).addr() == old(self).addr(),
    {
        let value: u16 = match baud {
            4800 => 48,
            9600 => 96,
            14400 => 144,
            19200 => 192,
            38400 => 384,
            56000 => 560,
            57600 => 576,
            115200 => 1152,
            129000 => 1290,
            _ => {
                return Err(Error::InvalidBaudRate);
            },
        };
        self.write_register(REG_BAUD_RATE, value)
    }

    /// Read the maximum measurement range, in meters.
    pub fn read_range(&mut self) -> (r: Result<u16, Error>)
        ensures
            Self::read_outcome(*old(self), *final(self), REG_RANGE, r),
    {
        self.read_register(REG_RANGE)
    }

    /// Set the maximum measurement range, in meters.
    pub fn set_range(&mut self, meters: u16) -> (r: Result<(), Error>)
        ensures
            Self::write_outcome(*old(self), *final(self), REG_RANGE, meters, r),
            final(self).addr() == old(self).addr(),
    {
        self.write_register(REG_RANGE, meters)
    }

    /// Read a single holding register: write the request frame, read the
    /// 7-byte response, validate it.
    fn read_register(&mut self, register: u16) -> (r: Result<u16, Error>)
        ensures
            Self::read_outcome(*old(self), *final(self), register, r),
    {
        let frame = encode_read_request(self.address, register);
        if !self.uart.write_all(frame.as_slice()) {
            return Err(Error::Io);
        }
        let resp = match self.read_exact(7) {
            Ok(data) => data,
            Err(e) => {
                return Err(e);
            },
        };
        proof {
            assert(self.uart.rx().skip(old(self).uart.rx().len() as int) =~= resp@);
        }
        decode_read_response(self.address, resp.as_slice())
    }

    /// Write a single holding register: write the request frame, read the
    /// 8-byte echo, validate it.
    fn write_register(&mut self, register: u16, value: u16) -> (r: Result<(), Error>)
        ensures
            Self::write_outcome(*old(self), *final(self), register, value, r),
            final(self).addr() == old(self).addr(),
    {
        let frame = encode_write_request(self.address, register, value);
        if !self.uart.write_all(frame.as_slice()) {
            return Err(Error::Io);
        }
        let resp = match self.read_exact(8) {
            Ok(data) => data,
            Err(e) => {
                return Err(e);
            },
        };
        proof {
            assert(self.uart.rx().skip(old(self).uart.rx().len() as int) =~= resp@);
        }
        decode_write_response(self.address, resp.as_slice())
    }

    /// Read exactly `n` bytes from the transport, accumulating partial
    /// deliveries. A read that hands over nothing is a timeout; a transport
    /// failure is an I/O error.
    fn read_exact(&mut self, n: usize) -> (r: Result<Vec<u8>, Error>)
        ensures
            final(self).addr() == old(self).addr(),
            final(self).tx() == old(self).tx(),
            old(self).rx().is_prefix_of(final(self).rx()),
            match r {
                Ok(data) => data@.len() == n && final(self).rx() == old(self).rx() + data@,
                Err(e) => e == Error::Io || e == Error::Timeout,
            },
    {
        let mut data: Vec<u8> = Vec::new();
        proof {
            assert(old(self).uart.rx() + data@ =~= old(self).uart.rx());
        }
        while data.len() < n
            invariant
                data@.len() <= n,
                self.address == old(self).address,
                self.uart.tx() == old(self).uart.tx(),
                self.uart.rx() == old(self).uart.rx() + data@,
            decreases n - data@.len(),
        {
            let want = n - data.len();
            match self.uart.read_some(want) {
                None => {
                    proof {
                        lemma_concat_prefix(old(self).uart.rx(), data@);
                    }
                    return Err(Error::Io);
                },
                Some(mut chunk) => {
                    if chunk.len() == 0 {
                        proof {
                            lemma_concat_prefix(old(self).uart.rx(), data@);
                        }
                        return Err(Error::Timeout);
                    }
                    proof {
                        assert(old(self).uart.rx() + data@ + chunk@ =~= old(self).uart.rx() + (
                        data@ + chunk@));
                    }
                    data.append(&mut chunk);
                },
            }
        }
        proof {
            lemma_concat_prefix(old(self).uart.rx(), data@);
        }
        Ok(data)
    }
}

/// A sequence is a prefix of itself followed by anything.
proof fn lemma_concat_prefix(a: Seq<u8>, b: Seq<u8>)
    ensures
        a.is_prefix_of(a + b),
{
    assert((a + b).take(a.len() as int) =~= a);
}

} // verus!
