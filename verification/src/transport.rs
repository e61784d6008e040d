//! Byte-stream transport capability for the sensor driver.
//!
//! The Modbus client is generic over anything that can write bytes out and
//! read bytes in, so the protocol engine is verified once and runs against
//! real serial hardware as well as against the in-memory [`MemTransport`]
//! provided here.
//!
//! The trait carries three ghost projections: `tx`, the bytes written so
//! far; `rx`, the bytes consumed so far; and `avail`, an upper bound on the
//! bytes still to be delivered. A serial port read with a finite timeout
//! satisfies this model between polls: each read hands over at most what the
//! receive buffer holds, and an empty read means no data arrived in time.

use vstd::prelude::*;

verus! {

/// A byte-stream transport: write bytes out, read bytes in.
///
/// The ghost projections have placeholder defaults so that unverified glue
/// code (a real serial port) can implement the trait by providing only the
/// two executable methods; nothing proved here relies on the defaults.
pub trait Transport: Sized {
    /// All bytes written to the transport so far.
    open spec fn tx(&self) -> Seq<u8> {
        Seq::empty()
    }

    /// All bytes consumed from the transport so far.
    open spec fn rx(&self) -> Seq<u8> {
        Seq::empty()
    }

    /// Upper bound on the bytes still to be delivered.
    open spec fn avail(&self) -> nat {
        0
    }

    /// Write all of `data`, returning whether the write went through.
    /// A failed write hands nothing over.
    fn write_all(&mut self, data: &[u8]) -> (ok: bool)
        ensures
            final(self).rx() == old(self).rx(),
            final(self).avail() == old(self).avail(),
            ok ==> final(self).tx() == old(self).tx() + data@,
            !ok ==> final(self).tx() == old(self).tx(),
    ;

    /// Read up to `max` bytes. `None` reports a transport failure; an empty
    /// vector reports that no data arrived within the transport's timeout.
    fn read_some(&mut self, max: usize) -> (r: Option<Vec<u8>>)
        requires
            max >= 1,
        ensures
            final(self).tx() == old(self).tx(),
            match r {
                Some(data) => {
                    &&& data@.len() <= max
                    &&& data@.len() <= old(self).avail()
                    &&& final(self).rx() == old(self).rx() + data@
                    &&& final(self).avail() == old(self).avail() - data@.len()
                },
                None => {
                    &&& final(self).rx() == old(self).rx()
                    &&& final(self).avail() == old(self).avail()
                },
            },
    ;
}

/// In-memory transport: records every byte written and serves reads from a
/// queue of scripted incoming bytes. Failures are injectable for exercising
/// the error paths of the drivers.
pub struct MemTransport {
    sent: Vec<u8>,
    served: Vec<u8>,
    incoming: Vec<u8>,
    chunk: usize,
    write_ok: bool,
    read_ok: bool,
}

impl MemTransport {
    /// A fresh transport: nothing written, nothing scripted, all
    /// operations succeeding.
    pub fn new() -> (t: MemTransport)
        ensures
            t.tx() == Seq::<u8>::empty(),
            t.rx() == Seq::<u8>::empty(),
            t.avail() == 0,
    {
        MemTransport {
            sent: Vec::new(),
            served: Vec::new(),
            incoming: Vec::new(),
            chunk: 0,
            write_ok: true,
            read_ok: true,
        }
    }

    /// Script further incoming bytes, to be served by later reads.
    pub fn queue(&mut self, data: &[u8])
        ensures
            final(self).tx() == old(self).tx(),
            final(self).rx() == old(self).rx(),
            final(self).avail() == old(self).avail() + data@.len(),
    {
        let mut i: usize = 0;
        while i < data.len()
            invariant
                i <= data@.len(),
                self.incoming@ == old(self).incoming@ + data@.take(i as int),
                self.sent == old(self).sent,
                self.served == old(self).served,
                self.chunk == old(self).chunk,
                self.write_ok == old(self).write_ok,
                self.read_ok == old(self).read_ok,
            decreases data@.len() - i,
        {
            self.incoming.push(data[i]);
            proof {
                assert(old(self).incoming@ + data@.take(i as int) + seq![data@[i as int]]
                    =~= old(self).incoming@ + data@.take(i + 1));
            }
            i += 1;
        }
        proof {
            assert(data@.take(data@.len() as int) =~= data@);
        }
    }

    /// Cap every read at `chunk` bytes (0 lifts the cap), to exercise
    /// drivers against fragmented deliveries.
    pub fn set_chunk(&mut self, chunk: usize)
        ensures
            final(self).tx() == old(self).tx(),
            final(self).rx() == old(self).rx(),
            final(self).avail() == old(self).avail(),
    {
        self.chunk = chunk;
    }

    /// Make every later write fail or succeed.
    pub fn set_write_ok(&mut self, ok: bool)
        ensures
            final(self).tx() == old(self).tx(),
            final(self).rx() == old(self).rx(),
            final(self).avail() == old(self).avail(),
    {
        self.write_ok = ok;
    }

    /// Make every later read fail or succeed.
    pub fn set_read_ok(&mut self, ok: bool)
        ensures
            final(self).tx() == old(self).tx(),
            final(self).rx() == old(self).rx(),
            final(self).avail() == old(self).avail(),
    {
        self.read_ok = ok;
    }

    /// Everything written to the transport so far.
    pub fn sent(&self) -> (r: &Vec<u8>)
        ensures
            r@ == self.tx(),
    {
        &self.sent
    }
}

impl Transport for MemTransport {
    closed spec fn tx(&self) -> Seq<u8> {
        self.sent@
    }

    closed spec fn rx(&self) -> Seq<u8> {
        self.served@
    }

    closed spec fn avail(&self) -> nat {
        self.incoming@.len()
    }

    fn write_all(&mut self, data: &[u8]) -> (ok: bool) {
        if !self.write_ok {
            return false;
        }
        let ghost old_sent = self.sent@;
        let mut i: usize = 0;
        while i < data.len()
            invariant
                i <= data@.len(),
                self.sent@ == old_sent + data@.take(i as int),
                self.served == old(self).served,
                self.incoming == old(self).incoming,
                self.chunk == old(self).chunk,
                self.write_ok == old(self).write_ok,
                self.read_ok == old(self).read_ok,
            decreases data@.len() - i,
        {
            self.sent.push(data[i]);
            proof {
                assert(old_sent + data@.take(i as int) + seq![data@[i as int]]
                    =~= old_sent + data@.take(i + 1));
            }
            i += 1;
        }
        proof {
            assert(data@.take(data@.len() as int) =~= data@);
        }
        true
    }

    fn read_some(&mut self, max: usize) -> (r: Option<Vec<u8>>) {
        if !self.read_ok {
            return None;
        }
        let mut count = if self.incoming.len() < max {
            self.incoming.len()
        } else {
            max
        };
        if self.chunk != 0 && self.chunk < count {
            count = self.chunk;
        }
        let mut data: Vec<u8> = Vec::new();
        let mut i: usize = 0;
        while i < count
            invariant
                i <= count,
                count <= old(self).incoming@.len(),
                data@ == old(self).incoming@.take(i as int),
                self.incoming@ == old(self).incoming@.skip(i as int),
                self.served@ == old(self).served@ + data@,
                self.sent == old(self).sent,
                self.chunk == old(self).chunk,
                self.write_ok == old(self).write_ok,
                self.read_ok == old(self).read_ok,
            decreases count - i,
        {
            let b = self.incoming.remove(0);
            self.served.push(b);
            data.push(b);
            proof {
                assert(old(self).incoming@.skip(i as int).remove(0) =~= old(self).incoming@.skip(
                    i + 1,
                ));
                assert(old(self).incoming@.take(i as int).push(b) =~= old(self).incoming@.take(
                    i + 1,
                ));
            }
            i += 1;
        }
        Some(data)
    }
}

} // verus!
