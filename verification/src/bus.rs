//! Synchronous serial bus capability for the display engine.
//!
//! The display engine is generic over anything that can clock out one
//! transaction — the bytes between asserting and de-asserting the
//! chip-select line — so the protocol logic is verified once and runs
//! against real hardware as well as against the in-memory [`MemBus`]
//! provided here.
//!
//! The trait carries one ghost projection, `transactions`: the transcript
//! of every transaction sent so far. A failed transfer appends nothing,
//! which is what lets the engine promise untouched dirty state and polarity
//! on failure.

use vstd::prelude::*;

verus! {

/// A failed bus transfer, as reported by the display engine.
#[derive(Debug, Clone, Copy, PartialEq, Eq, Structural)]
pub struct BusError;

/// A synchronous serial bus with a chip-select line.
///
/// The ghost projection has a placeholder default so that unverified glue
/// code (a real SPI device) can implement the trait by providing only the
/// executable method; nothing proved here relies on the default.
pub trait DisplayBus: Sized {
    /// Every transaction sent over the bus so far.
    open spec fn transactions(&self) -> Seq<Seq<u8>> {
        Seq::empty()
    }

    /// Send one transaction: assert the select line, clock out `data`,
    /// de-assert the select line. Returns whether the transfer went
    /// through; a failed transfer appends nothing.
    fn transact(&mut self, data: &[u8]) -> (ok: bool)
        ensures
            ok ==> final(self).transactions() == old(self).transactions().push(data@),
            !ok ==> final(self).transactions() == old(self).transactions(),
    ;
}

/// In-memory bus: records every transaction. Failures are injectable for
/// exercising the error paths of the display engine.
pub struct MemBus {
    log: Vec<Vec<u8>>,
    ok: bool,
    fail_count: usize,
}

impl MemBus {
    /// A fresh bus with an empty transcript, all transfers succeeding.
    pub fn new() -> (b: MemBus)
        ensures
            b.transactions() == Seq::<Seq<u8>>::empty(),
    {
        let b = MemBus { log: Vec::new(), ok: true, fail_count: 0 };
        proof {
            assert(b.log.deep_view() =~= Seq::<Seq<u8>>::empty());
        }
        b
    }

    /// Make every later transfer fail or succeed.
    pub fn set_ok(&mut self, ok: bool)
        ensures
            final(self).transactions() == old(self).transactions(),
    {
        self.ok = ok;
    }

    /// Make exactly the next `n` transfers fail, then succeed again.
    pub fn fail_next(&mut self, n: usize)
        ensures
            final(self).transactions() == old(self).transactions(),
    {
        self.fail_count = n;
    }

    /// The recorded transactions.
    pub fn transcript(&self) -> (r: &Vec<Vec<u8>>)
        ensures
            r.deep_view() == self.transactions(),
    {
        &self.log
    }
}

impl DisplayBus for MemBus {
    closed spec fn transactions(&self) -> Seq<Seq<u8>> {
        self.log.deep_view()
    }

    fn transact(&mut self, data: &[u8]) -> (ok: bool) {
        if !self.ok {
            return false;
        }
        if self.fail_count > 0 {
            self.fail_count = self.fail_count - 1;
            return false;
        }
        let mut copy: Vec<u8> = Vec::new();
        let mut i: usize = 0;
        while i < data.len()
            invariant
                i <= data@.len(),
                copy@ == data@.take(i as int),
                self.log == old(self).log,
                self.ok == old(self).ok,
            decreases data@.len() - i,
        {
            copy.push(data[i]);
            proof {
                assert(data@.take(i as int).push(data@[i as int]) =~= data@.take(i + 1));
            }
            i += 1;
        }
        proof {
            assert(copy@ =~= data@);
        }
        self.log.push(copy);
        proof {
            assert(self.log.deep_view() =~~= old(self).log.deep_view().push(data@));
        }
        true
    }
}

} // verus!
