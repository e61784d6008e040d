//! Sharp LS027B7DH01 memory LCD driver.
//!
//! A 400x240 monochrome memory display over a synchronous serial bus. The
//! driver keeps a packed framebuffer (1 bit per pixel, 50 bytes per line,
//! bit 0 the leftmost pixel of each byte group; bit value 1 = light, 0 =
//! dark — a hardware convention that must be preserved exactly), a per-line
//! dirty bitmap, and the VCOM polarity bit that must invert on every bus
//! transaction to protect the panel from DC bias.
//!
//! Three transaction kinds exist: a hardware clear, a polarity-only toggle,
//! and a partial write that sends exactly the dirty lines. A failed
//! transfer leaves dirty state and polarity untouched, so the caller can
//! retry without skewing the alternation. Well-formedness ties the polarity
//! bit to the count of successful transactions: after `n` transactions from
//! a fresh engine the polarity equals `n` mod 2.

use vstd::prelude::*;

use crate::bus::{BusError, DisplayBus};

verus! {

/// Display width in pixels.
pub const WIDTH: u16 = 400;

/// Display height in pixels.
pub const HEIGHT: u16 = 240;

/// Bytes per line (400 pixels / 8 bits).
pub const BYTES_PER_LINE: usize = 50;

/// Total framebuffer size (50 bytes per line, 240 lines).
pub const FRAMEBUFFER_SIZE: usize = 12000;

/// Dirty line bitmap size (240 lines / 8 bits per byte).
pub const DIRTY_BITMAP_SIZE: usize = 30;

/// Mode bit (LSB-first wire format): write dirty lines.
pub const CMD_WRITE: u8 = 0x01;

/// Mode bit (LSB-first wire format): VCOM polarity.
pub const CMD_VCOM: u8 = 0x02;

/// Mode bit (LSB-first wire format): hardware clear.
pub const CMD_CLEAR: u8 = 0x04;

/// Whether bit `bit` of `byte` is set.
pub open spec fn bit_set(byte: u8, bit: u8) -> bool
    recommends
        bit < 8,
{
    byte & (1u8 << bit) != 0
}

/// Whether the pixel at `(x, y)` of a packed framebuffer is light.
pub open spec fn pixel_lit(fb: Seq<u8>, x: int, y: int) -> bool
    recommends
        fb.len() == FRAMEBUFFER_SIZE,
        0 <= x < WIDTH,
        0 <= y < HEIGHT,
{
    bit_set(fb[y * BYTES_PER_LINE + x / 8], (x % 8) as u8)
}

/// The mode byte of a transaction: the command bits, with the VCOM bit
/// mixed in when the polarity is high.
pub open spec fn mode_byte(cmd: u8, vcom: bool) -> u8 {
    if vcom {
        cmd | CMD_VCOM
    } else {
        cmd
    }
}

/// The 2-byte hardware-clear transaction.
pub open spec fn clear_payload(vcom: bool) -> Seq<u8> {
    seq![mode_byte(CMD_CLEAR, vcom), 0u8]
}

/// The 2-byte polarity-toggle transaction.
pub open spec fn toggle_payload(vcom: bool) -> Seq<u8> {
    seq![mode_byte(0, vcom), 0u8]
}

/// The wire chunk for one line: the 1-indexed line address, the 50 packed
/// bytes, and a trailing filler byte.
pub open spec fn line_chunk(fb: Seq<u8>, line: int) -> Seq<u8>
    recommends
        fb.len() == FRAMEBUFFER_SIZE,
        0 <= line < HEIGHT,
{
    seq![(line + 1) as u8] + fb.subrange(line * BYTES_PER_LINE, line * BYTES_PER_LINE + 50)
        + seq![0u8]
}

/// The chunks of all lines below `n`, in order (used by the full-redraw
/// transaction of [`Ls027b7dh01::fill_black`]).
pub open spec fn all_lines_payload(fb: Seq<u8>, n: int) -> Seq<u8>
    decreases n,
{
    if n <= 0 {
        Seq::empty()
    } else {
        all_lines_payload(fb, n - 1) + line_chunk(fb, n - 1)
    }
}

/// The partial-write transaction that sends every line of `fb`.
pub open spec fn full_write_payload(fb: Seq<u8>, vcom: bool) -> Seq<u8> {
    seq![mode_byte(CMD_WRITE, vcom)] + all_lines_payload(fb, HEIGHT as int) + seq![0u8]
}

/// Sharp memory LCD driver over a synchronous serial bus.
pub struct Ls027b7dh01<B> {
    bus: B,
    framebuffer: Vec<u8>,
    dirty_lines: Vec<u8>,
    vcom: bool,
    txn_count: Ghost<nat>,
}

impl<B: DisplayBus> Ls027b7dh01<B> {
    /// The packed framebuffer contents.
    pub closed spec fn fb(&self) -> Seq<u8> {
        self.framebuffer@
    }

    /// The VCOM polarity bit.
    pub closed spec fn polarity(&self) -> bool {
        self.vcom
    }

    /// The transcript of the underlying bus.
    pub closed spec fn txns(&self) -> Seq<Seq<u8>> {
        self.bus.transactions()
    }

    /// How many transactions this engine has successfully sent.
    pub closed spec fn txn_count(&self) -> nat {
        self.txn_count@
    }

    /// Whether `line` is marked dirty.
    pub closed spec fn line_dirty(&self, line: int) -> bool
        recommends
            0 <= line < HEIGHT,
    {
        bit_set(self.dirty_lines@[line / 8], (line % 8) as u8)
    }

    /// The dirty bitmap has its fixed size.
    pub closed spec fn dirty_ok(&self) -> bool {
        self.dirty_lines@.len() == DIRTY_BITMAP_SIZE
    }

    /// Well-formedness: fixed buffer sizes, and the polarity bit equal to
    /// the parity of the successful-transaction count — polarity alternates
    /// strictly, so after `n` transactions from a fresh engine it is
    /// `n` mod 2.
    pub open spec fn wf(&self) -> bool {
        &&& self.fb().len() == FRAMEBUFFER_SIZE
        &&& self.dirty_ok()
        &&& (self.polarity() <==> self.txn_count() % 2 == 1)
    }

    /// Whether any line is marked dirty.
    pub open spec fn any_dirty(&self) -> bool {
        exists|l: int| 0 <= l < HEIGHT && self.line_dirty(l)
    }

    /// The partial-write transaction for the current framebuffer, dirty
    /// bitmap and polarity: the mode byte, the chunks of the dirty lines
    /// below `n` in order, and the trailing filler byte.
    pub open spec fn lines_payload(&self, n: int) -> Seq<u8>
        decreases n,
    {
        if n <= 0 {
            Seq::empty()
        } else {
            self.lines_payload(n - 1) + if self.line_dirty(n - 1) {
                line_chunk(self.fb(), n - 1)
            } else {
                Seq::empty()
            }
        }
    }

    /// The complete partial-write transaction the next flush would send.
    pub open spec fn write_payload(&self) -> Seq<u8> {
        seq![mode_byte(CMD_WRITE, self.polarity())] + self.lines_payload(HEIGHT as int)
            + seq![0u8]
    }

    /// Software state the engine promises to keep on a failed transfer:
    /// framebuffer, dirty bitmap, polarity, transaction count and bus
    /// transcript all unchanged.
    pub open spec fn same_state(pre: Self, post: Self) -> bool {
        &&& post.fb() == pre.fb()
        &&& (forall|l: int| 0 <= l < HEIGHT ==> post.line_dirty(l) == pre.line_dirty(l))
        &&& post.polarity() == pre.polarity()
        &&& post.txn_count() == pre.txn_count()
        &&& post.txns() == pre.txns()
    }

    /// Create a new display driver: an all-white framebuffer, no dirty
    /// lines, polarity low, and no transaction sent yet.
    pub fn new(bus: B) -> (d: Self)
        ensures
            d.wf(),
            d.fb() == Seq::new(FRAMEBUFFER_SIZE as nat, |i: int| 0xFFu8),
            forall|l: int| 0 <= l < HEIGHT ==> !d.line_dirty(l),
            d.polarity() == false,
            d.txn_count() == 0,
            d.txns() == bus.transactions(),
    {
        let d = Ls027b7dh01 {
            bus,
            framebuffer: filled(FRAMEBUFFER_SIZE, 0xFF),
            dirty_lines: filled(DIRTY_BITMAP_SIZE, 0x00),
            vcom: false,
            txn_count: Ghost(0),
        };
        proof {
            lemma_zero_byte_has_no_bits();
        }
        d
    }

    /// The underlying bus, for inspection.
    pub fn bus(&self) -> (r: &B)
        ensures
            r.transactions() == self.txns(),
    {
        &self.bus
    }

    /// The raw framebuffer bytes.
    pub fn framebuffer(&self) -> (r: &Vec<u8>)
        ensures
            r@ == self.fb(),
    {
        &self.framebuffer
    }

    /// Polarity alternates strictly: well-formedness ties the polarity bit
    /// to the parity of the successful-transaction count, every constructor
    /// starts both at zero, and every transaction flips the bit exactly
    /// when it increments the count.
    pub proof fn lemma_polarity_parity(&self)
        requires
            self.wf(),
        ensures
            self.polarity() <==> self.txn_count() % 2 == 1,
    {
    }

    /// Mark `line` dirty.
    fn mark_dirty(&mut self, line: u16)
        requires
            old(self).dirty_ok(),
            line < HEIGHT,
        ensures
            final(self).dirty_ok(),
            final(self).fb() == old(self).fb(),
            final(self).polarity() == old(self).polarity(),
            final(self).txns() == old(self).txns(),
            final(self).txn_count() == old(self).txn_count(),
            final(self).line_dirty(line as int),
            forall|l: int|
                0 <= l < HEIGHT && l != line ==> final(self).line_dirty(l) == old(
                    self,
                ).line_dirty(l),
    {
        let byte_idx = (line / 8) as usize;
        let bit_idx = (line % 8) as u8;
        let cur = self.dirty_lines[byte_idx];
        self.dirty_lines.set(byte_idx, cur | (1u8 << bit_idx));
        proof {
            assert forall|l: int| 0 <= l < HEIGHT && l != line implies final(self).line_dirty(l)
                == old(self).line_dirty(l) by {
                if l / 8 == line as int / 8 {
                    lemma_bit_ops(cur, bit_idx, (l % 8) as u8);
                }
            }
            lemma_bit_ops(cur, bit_idx, bit_idx);
        }
    }

    /// Whether `line` is marked dirty.
    fn is_dirty(&self, line: u16) -> (d: bool)
        requires
            self.dirty_ok(),
            line < HEIGHT,
        ensures
            d == self.line_dirty(line as int),
    {
        let byte_idx = (line / 8) as usize;
        let bit_idx = (line % 8) as u8;
        (self.dirty_lines[byte_idx] & (1u8 << bit_idx)) != 0
    }

    /// Mark all lines dirty, forcing a full redraw on the next flush.
    pub fn mark_all_dirty(&mut self)
        requires
            old(self).wf(),
        ensures
            final(self).wf(),
            final(self).fb() == old(self).fb(),
            final(self).polarity() == old(self).polarity(),
            final(self).txns() == old(self).txns(),
            final(self).txn_count() == old(self).txn_count(),
            forall|l: int| 0 <= l < HEIGHT ==> final(self).line_dirty(l),
    {
        self.dirty_lines = filled(DIRTY_BITMAP_SIZE, 0xFF);
        proof {
            lemma_full_byte_has_all_bits();
        }
    }

    /// Clear the framebuffer to white without touching the display; the
    /// next flush sends the change.
    pub fn clear_framebuffer(&mut self)
        requires
            old(self).wf(),
        ensures
            final(self).wf(),
            final(self).fb() == Seq::new(FRAMEBUFFER_SIZE as nat, |i: int| 0xFFu8),
            final(self).polarity() == old(self).polarity(),
            final(self).txns() == old(self).txns(),
            final(self).txn_count() == old(self).txn_count(),
            forall|l: int| 0 <= l < HEIGHT ==> final(self).line_dirty(l),
    {
        self.framebuffer = filled(FRAMEBUFFER_SIZE, 0xFF);
        self.mark_all_dirty();
    }

    /// Set a pixel in the framebuffer; call a flush to update the display.
    /// Out-of-bounds coordinates are ignored. The pixel's line is marked
    /// dirty exactly when the pixel's byte actually changed.
    pub fn set_pixel(&mut self, x: u16, y: u16, color: bool)
        requires
            old(self).wf(),
        ensures
            final(self).wf(),
            final(self).polarity() == old(self).polarity(),
            final(self).txns() == old(self).txns(),
            final(self).txn_count() == old(self).txn_count(),
            (x >= WIDTH || y >= HEIGHT) ==> *final(self) == *old(self),
            (x < WIDTH && y < HEIGHT) ==> {
                &&& (forall|xx: int, yy: int|
                    0 <= xx < WIDTH && 0 <= yy < HEIGHT ==> pixel_lit(final(self).fb(), xx, yy)
                        == (if xx == x && yy == y {
                        color
                    } else {
                        pixel_lit(old(self).fb(), xx, yy)
                    }))
                &&& (forall|l: int|
                    0 <= l < HEIGHT && l != y ==> final(self).line_dirty(l) == old(
                        self,
                    ).line_dirty(l))
                &&& final(self).line_dirty(y as int) == (old(self).line_dirty(y as int)
                    || pixel_lit(old(self).fb(), x as int, y as int) != color)
            },
    {
        if x >= WIDTH || y >= HEIGHT {
            return ;
        }
        let byte_idx = y as usize * BYTES_PER_LINE + (x / 8) as usize;
        let bit_idx = (x % 8) as u8;
        let old_byte = self.framebuffer[byte_idx];
        let new_byte = if color {
            old_byte | (1u8 << bit_idx)
        } else {
            old_byte & !(1u8 << bit_idx)
        };
        self.framebuffer.set(byte_idx, new_byte);
        if new_byte != old_byte {
            self.mark_dirty(y);
        }
        proof {
            let idx = y as int * BYTES_PER_LINE + x as int / 8;
            assert(byte_idx as int == idx);
            assert(old_byte == old(self).fb()[idx]);
            assert(self.fb() == old(self).fb().update(idx, new_byte));
            lemma_pixel_update(old(self).fb(), x as int, y as int, color, self.fb());
            lemma_bit_ops(old_byte, bit_idx, bit_idx);
        }
    }

    /// Hardware clear: send the 2-byte clear transaction, reset the
    /// software framebuffer to white, drop all dirty marks, flip polarity.
    /// On a failed transfer nothing changes.
    pub fn clear_display(&mut self) -> (r: Result<(), BusError>)
        requires
            old(self).wf(),
        ensures
            final(self).wf(),
            r is Ok ==> {
                &&& final(self).txns() == old(self).txns().push(
                    clear_payload(old(self).polarity()),
                )
                &&& final(self).txn_count() == old(self).txn_count() + 1
                &&& final(self).polarity() == !old(self).polarity()
                &&& final(self).fb() == Seq::new(FRAMEBUFFER_SIZE as nat, |i: int| 0xFFu8)
                &&& (forall|l: int| 0 <= l < HEIGHT ==> !final(self).line_dirty(l))
            },
            r is Err ==> Self::same_state(*old(self), *final(self)),
    {
        let mode = if self.vcom {
            CMD_CLEAR | CMD_VCOM
        } else {
            CMD_CLEAR
        };
        let mut payload: Vec<u8> = Vec::new();
        payload.push(mode);
        payload.push(0x00);
        proof {
            assert(payload@ =~= clear_payload(self.vcom));
        }
        if !self.bus.transact(payload.as_slice()) {
            return Err(BusError);
        }
        self.framebuffer = filled(FRAMEBUFFER_SIZE, 0xFF);
        self.dirty_lines = filled(DIRTY_BITMAP_SIZE, 0x00);
        self.vcom = !self.vcom;
        self.txn_count = Ghost(self.txn_count@ + 1);
        proof {
            lemma_zero_byte_has_no_bits();
        }
        Ok(())
    }

    /// Toggle VCOM without pixel data: the mandatory periodic transaction
    /// when nothing is dirty. On a failed transfer nothing changes.
    pub fn toggle_vcom(&mut self) -> (r: Result<(), BusError>)
        requires
            old(self).wf(),
        ensures
            final(self).wf(),
            final(self).fb() == old(self).fb(),
            forall|l: int|
                0 <= l < HEIGHT ==> final(self).line_dirty(l) == old(self).line_dirty(l),
            r is Ok ==> {
                &&& final(self).txns() == old(self).txns().push(
                    toggle_payload(old(self).polarity()),
                )
                &&& final(self).txn_count() == old(self).txn_count() + 1
                &&& final(self).polarity() == !old(self).polarity()
            },
            r is Err ==> Self::same_state(*old(self), *final(self)),
    {
        let mode = if self.vcom {
            CMD_VCOM
        } else {
            0
        };
        let mut payload: Vec<u8> = Vec::new();
        payload.push(mode);
        payload.push(0x00);
        proof {
            assert(0u8 | CMD_VCOM == CMD_VCOM) by (bit_vector);
            assert(payload@ =~= toggle_payload(self.vcom));
        }
        if !self.bus.transact(payload.as_slice()) {
            return Err(BusError);
        }
        self.vcom = !self.vcom;
        self.txn_count = Ghost(self.txn_count@ + 1);
        Ok(())
    }

    /// Write only the dirty lines to the display. With no dirty line the
    /// call degrades to a polarity toggle and sends no pixel data. On
    /// success all dirty marks are dropped and polarity flips; on a failed
    /// transfer nothing changes, so the flush can be retried.
    #[verifier::loop_isolation(false)]
    pub fn flush(&mut self) -> (r: Result<(), BusError>)
        requires
            old(self).wf(),
        ensures
            final(self).wf(),
            final(self).fb() == old(self).fb(),
            r is Ok ==> {
                &&& final(self).polarity() == !old(self).polarity()
                &&& final(self).txn_count() == old(self).txn_count() + 1
                &&& (forall|l: int| 0 <= l < HEIGHT ==> !final(self).line_dirty(l))
                &&& (old(self).any_dirty() ==> final(self).txns() == old(self).txns().push(
                    old(self).write_payload(),
                ))
                &&& (!old(self).any_dirty() ==> final(self).txns() == old(self).txns().push(
                    toggle_payload(old(self).polarity()),
                ))
            },
            r is Err ==> Self::same_state(*old(self), *final(self)),
    {
        let mut has_dirty = false;
        let mut l: u16 = 0;
        while l < HEIGHT
            invariant
                l <= HEIGHT,
                has_dirty == exists|j: int| 0 <= j < l && self.line_dirty(j),
            decreases HEIGHT - l,
        {
            if self.is_dirty(l) {
                has_dirty = true;
            }
            proof {
                if has_dirty {
                    if self.line_dirty(l as int) {
                        let w: int = l as int;
                        assert(0 <= w < l + 1 && self.line_dirty(w));
                    } else {
                        let j = choose|j: int| 0 <= j < l && self.line_dirty(j);
                        assert(0 <= j < l + 1 && self.line_dirty(j));
                    }
                } else {
                    assert(forall|j: int| 0 <= j < l + 1 ==> !self.line_dirty(j));
                }
            }
            l += 1;
        }
        if !has_dirty {
            return self.toggle_vcom();
        }
        let mode = if self.vcom {
            CMD_WRITE | CMD_VCOM
        } else {
            CMD_WRITE
        };
        let mut payload: Vec<u8> = Vec::new();
        payload.push(mode);
        proof {
            assert(payload@ =~= seq![mode_byte(CMD_WRITE, self.vcom)] + self.lines_payload(0));
        }
        let mut line: u16 = 0;
        while line < HEIGHT
            invariant
                line <= HEIGHT,
                payload@ == seq![mode_byte(CMD_WRITE, self.vcom)] + self.lines_payload(
                    line as int,
                ),
            decreases HEIGHT - line,
        {
            let ghost chunk_start = payload@;
            if self.is_dirty(line) {
                payload.push(line as u8 + 1);
                let start = line as usize * BYTES_PER_LINE;
                let mut k: usize = 0;
                while k < BYTES_PER_LINE
                    invariant
                        k <= BYTES_PER_LINE,
                        payload@ == chunk_start + seq![(line + 1) as u8] + self.fb().subrange(
                            line as int * BYTES_PER_LINE,
                            line as int * BYTES_PER_LINE + k,
                        ),
                    decreases BYTES_PER_LINE - k,
                {
                    payload.push(self.framebuffer[start + k]);
                    proof {
                        assert(self.fb().subrange(
                            line as int * BYTES_PER_LINE,
                            line as int * BYTES_PER_LINE + k,
                        ).push(self.fb()[line as int * BYTES_PER_LINE + k]) =~= self.fb().subrange(
                            line as int * BYTES_PER_LINE,
                            line as int * BYTES_PER_LINE + (k + 1),
                        ));
                        assert(payload@ =~= chunk_start + seq![(line + 1) as u8]
                            + self.fb().subrange(
                            line as int * BYTES_PER_LINE,
                            line as int * BYTES_PER_LINE + (k + 1),
                        ));
                    }
                    k += 1;
                }
                payload.push(0x00);
                proof {
                    assert(payload@ =~= chunk_start + line_chunk(self.fb(), line as int));
                }
            }
            proof {
                if self.line_dirty(line as int) {
                    assert(payload@ =~= seq![mode_byte(CMD_WRITE, self.vcom)]
                        + self.lines_payload(line + 1));
                } else {
                    assert(self.lines_payload(line + 1) =~= self.lines_payload(line as int));
                }
            }
            line += 1;
        }
        payload.push(0x00);
        proof {
            assert(payload@ =~= self.write_payload());
        }
        if !self.bus.transact(payload.as_slice()) {
            return Err(BusError);
        }
        self.dirty_lines = filled(DIRTY_BITMAP_SIZE, 0x00);
        self.vcom = !self.vcom;
        self.txn_count = Ghost(self.txn_count@ + 1);
        proof {
            lemma_zero_byte_has_no_bits();
        }
        Ok(())
    }

    /// Fill the framebuffer with black and flush the full image. On a
    /// failed transfer the framebuffer stays black with every line dirty,
    /// so a later flush still sends the whole image.
    pub fn fill_black(&mut self) -> (r: Result<(), BusError>)
        requires
            old(self).wf(),
        ensures
            final(self).wf(),
            final(self).fb() == Seq::new(FRAMEBUFFER_SIZE as nat, |i: int| 0u8),
            r is Ok ==> {
                &&& final(self).txns() == old(self).txns().push(
                    full_write_payload(
                        Seq::new(FRAMEBUFFER_SIZE as nat, |i: int| 0u8),
                        old(self).polarity(),
                    ),
                )
                &&& final(self).txn_count() == old(self).txn_count() + 1
                &&& final(self).polarity() == !old(self).polarity()
                &&& (forall|l: int| 0 <= l < HEIGHT ==> !final(self).line_dirty(l))
            },
            r is Err ==> {
                &&& final(self).txns() == old(self).txns()
                &&& final(self).txn_count() == old(self).txn_count()
                &&& final(self).polarity() == old(self).polarity()
                &&& (forall|l: int| 0 <= l < HEIGHT ==> final(self).line_dirty(l))
            },
    {
        self.framebuffer = filled(FRAMEBUFFER_SIZE, 0x00);
        self.mark_all_dirty();
        proof {
            assert(self.line_dirty(0));
            self.lemma_all_dirty_payload(HEIGHT as int);
        }
        self.flush()
    }

    /// With every line dirty, the flush payload is the full-image payload.
    proof fn lemma_all_dirty_payload(&self, n: int)
        requires
            self.dirty_ok(),
            forall|l: int| 0 <= l < HEIGHT ==> self.line_dirty(l),
            0 <= n <= HEIGHT,
        ensures
            self.lines_payload(n) == all_lines_payload(self.fb(), n),
            self.write_payload() == full_write_payload(self.fb(), self.polarity()),
        decreases n,
    {
        if n > 0 {
            self.lemma_all_dirty_payload(n - 1);
        } else {
            assert(self.lines_payload(HEIGHT as int) =~= all_lines_payload(
                self.fb(),
                HEIGHT as int,
            )) by {
                self.lemma_all_dirty_lines(HEIGHT as int);
            }
        }
    }

    /// Helper induction for [`Self::lemma_all_dirty_payload`].
    proof fn lemma_all_dirty_lines(&self, n: int)
        requires
            self.dirty_ok(),
            forall|l: int| 0 <= l < HEIGHT ==> self.line_dirty(l),
            0 <= n <= HEIGHT,
        ensures
            self.lines_payload(n) == all_lines_payload(self.fb(), n),
        decreases n,
    {
        if n > 0 {
            self.lemma_all_dirty_lines(n - 1);
        }
    }
}

/// A vector of `n` copies of `value`.
fn filled(n: usize, value: u8) -> (v: Vec<u8>)
    ensures
        v@ == Seq::new(n as nat, |i: int| value),
{
    let mut v: Vec<u8> = Vec::new();
    let mut i: usize = 0;
    while i < n
        invariant
            i <= n,
            v@ == Seq::new(i as nat, |j: int| value),
        decreases n - i,
    {
        v.push(value);
        proof {
            assert(v@ =~= Seq::new((i + 1) as nat, |j: int| value));
        }
        i += 1;
    }
    v
}

/// How setting or clearing one bit changes a byte, bit by bit.
proof fn lemma_bit_ops(b: u8, k: u8, j: u8)
    requires
        k < 8,
        j < 8,
    ensures
        bit_set(b | (1u8 << k), j) == (j == k || bit_set(b, j)),
        bit_set(b & !(1u8 << k), j) == (j != k && bit_set(b, j)),
        (b | (1u8 << k) == b) <==> bit_set(b, k),
        (b & !(1u8 << k) == b) <==> !bit_set(b, k),
{
    assert((b | (1u8 << k)) & (1u8 << j) != 0 <==> (j == k || b & (1u8 << j) != 0))
        by (bit_vector)
        requires
            k < 8,
            j < 8,
    ;
    assert((b & !(1u8 << k)) & (1u8 << j) != 0 <==> (j != k && b & (1u8 << j) != 0))
        by (bit_vector)
        requires
            k < 8,
            j < 8,
    ;
    assert((b | (1u8 << k) == b) <==> b & (1u8 << k) != 0)
        by (bit_vector)
        requires
            k < 8,
    ;
    assert((b & !(1u8 << k) == b) <==> b & (1u8 << k) == 0)
        by (bit_vector)
        requires
            k < 8,
    ;
}

/// Every pixel of an all-white framebuffer is light.
pub proof fn lemma_white_framebuffer_all_lit(fb: Seq<u8>)
    requires
        fb.len() == FRAMEBUFFER_SIZE,
        forall|i: int| 0 <= i < fb.len() ==> fb[i] == 0xFF,
    ensures
        forall|x: int, y: int|
            0 <= x < WIDTH && 0 <= y < HEIGHT ==> #[trigger] pixel_lit(fb, x, y),
{
    lemma_full_byte_has_all_bits();
}

/// Every pixel of an all-black framebuffer is dark.
pub proof fn lemma_black_framebuffer_all_dark(fb: Seq<u8>)
    requires
        fb.len() == FRAMEBUFFER_SIZE,
        forall|i: int| 0 <= i < fb.len() ==> fb[i] == 0,
    ensures
        forall|x: int, y: int|
            0 <= x < WIDTH && 0 <= y < HEIGHT ==> ! #[trigger] pixel_lit(fb, x, y),
{
    lemma_zero_byte_has_no_bits();
}

/// A zero byte has no bit set.
proof fn lemma_zero_byte_has_no_bits()
    ensures
        forall|bit: u8| bit < 8 ==> !bit_set(0u8, bit),
{
    assert(forall|bit: u8| bit < 8 ==> (0u8 & (1u8 << bit)) == 0) by (bit_vector);
}

/// A full byte has every bit set.
proof fn lemma_full_byte_has_all_bits()
    ensures
        forall|bit: u8| bit < 8 ==> bit_set(0xFFu8, bit),
{
    assert(forall|bit: u8| bit < 8 ==> (0xFFu8 & (1u8 << bit)) != 0) by (bit_vector);
}

/// How writing one pixel's bit changes the framebuffer, pixel by pixel.
proof fn lemma_pixel_update(fb: Seq<u8>, x: int, y: int, color: bool, fb2: Seq<u8>)
    requires
        fb.len() == FRAMEBUFFER_SIZE,
        0 <= x < WIDTH,
        0 <= y < HEIGHT,
        fb2 == fb.update(
            y * BYTES_PER_LINE + x / 8,
            if color {
                fb[y * BYTES_PER_LINE + x / 8] | (1u8 << ((x % 8) as u8))
            } else {
                fb[y * BYTES_PER_LINE + x / 8] & !(1u8 << ((x % 8) as u8))
            },
        ),
    ensures
        forall|xx: int, yy: int|
            0 <= xx < WIDTH && 0 <= yy < HEIGHT ==> pixel_lit(fb2, xx, yy) == (if xx == x && yy
                == y {
                color
            } else {
                pixel_lit(fb, xx, yy)
            }),
{
    let idx = y * BYTES_PER_LINE + x / 8;
    let k = (x % 8) as u8;
    assert forall|xx: int, yy: int| 0 <= xx < WIDTH && 0 <= yy < HEIGHT implies pixel_lit(
        fb2,
        xx,
        yy,
    ) == (if xx == x && yy == y {
        color
    } else {
        pixel_lit(fb, xx, yy)
    }) by {
        let idx2 = yy * BYTES_PER_LINE + xx / 8;
        if idx2 == idx {
            assert(yy == y);
            lemma_bit_ops(fb[idx], k, (xx % 8) as u8);
            if xx == x {
                assert(pixel_lit(fb2, xx, yy) == color);
            } else {
                assert((xx % 8) as u8 != k);
            }
        } else {
            assert(fb2[idx2] == fb[idx2]);
        }
    }
}

} // verus!
