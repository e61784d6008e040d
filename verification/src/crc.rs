//! CRC16 integrity function used by the Modbus-RTU framing.
//!
//! The checksum is the reflected Modbus CRC16: seed `0xFFFF`, polynomial
//! `0xA001`, each input byte folded into the low byte of the accumulator and
//! shifted out least-significant-bit first.
//!
//! Besides the executable [`crc16`] and its defining specification
//! [`crc16_spec`], the module proves that the checksum detects every
//! single-byte corruption ([`lemma_crc16_single_flip`]): two equal-length
//! byte sequences that differ in exactly one position never share a CRC.

use vstd::prelude::*;

verus! {

/// One shift round: shift right, folding in the polynomial when the
/// low bit was set.
pub open spec fn crc16_round(c: u16) -> u16 {
    if c & 1 == 1 {
        (c >> 1) ^ 0xA001
    } else {
        c >> 1
    }
}

/// `k` successive shift rounds applied to `c`.
pub open spec fn crc16_rounds(c: u16, k: nat) -> u16
    decreases k,
{
    if k == 0 {
        c
    } else {
        crc16_rounds(crc16_round(c), (k - 1) as nat)
    }
}

/// Folding one input byte into the accumulator: XOR into the low byte,
/// then eight shift rounds.
pub open spec fn crc16_byte(c: u16, b: u8) -> u16 {
    crc16_rounds(c ^ (b as u16), 8)
}

/// Checksum of the first `n` bytes of `s`, starting from the seed `0xFFFF`.
pub open spec fn crc16_prefix(s: Seq<u8>, n: int) -> u16
    decreases n,
{
    if n <= 0 {
        0xFFFF
    } else {
        crc16_byte(crc16_prefix(s, n - 1), s[n - 1])
    }
}

/// Checksum of a whole byte sequence.
pub open spec fn crc16_spec(s: Seq<u8>) -> u16 {
    crc16_prefix(s, s.len() as int)
}

/// Calculate CRC16 with the Modbus polynomial (0xA001) over `data`.
pub fn crc16(data: &[u8]) -> (crc: u16)
    ensures
        crc == crc16_spec(data@),
{
    let mut crc: u16 = 0xFFFF;
    let mut i: usize = 0;
    while i < data.len()
        invariant
            i <= data@.len(),
            crc == crc16_prefix(data@, i as int),
        decreases data@.len() - i,
    {
        crc = crc ^ (data[i] as u16);
        let ghost folded = crc16_byte(crc16_prefix(data@, i as int), data@[i as int]);
        let mut j: usize = 0;
        while j < 8
            invariant
                j <= 8,
                crc16_rounds(crc, (8 - j) as nat) == folded,
            decreases 8 - j,
        {
            if crc & 1 == 1 {
                crc = (crc >> 1) ^ 0xA001;
            } else {
                crc = crc >> 1;
            }
            j += 1;
        }
        i += 1;
    }
    crc
}

/// A shift round is injective: distinct accumulators stay distinct.
proof fn lemma_round_injective(a: u16, b: u16)
    requires
        crc16_round(a) == crc16_round(b),
    ensures
        a == b,
{
    assert(crc16_round(a) == crc16_round(b) ==> a == b) by (bit_vector);
}

/// Any number of shift rounds is injective.
proof fn lemma_rounds_injective(a: u16, b: u16, k: nat)
    requires
        crc16_rounds(a, k) == crc16_rounds(b, k),
    ensures
        a == b,
    decreases k,
{
    if k > 0 {
        lemma_rounds_injective(crc16_round(a), crc16_round(b), (k - 1) as nat);
        lemma_round_injective(a, b);
    }
}

/// Folding the same byte into distinct accumulators keeps them distinct.
proof fn lemma_byte_state_injective(a: u16, b: u16, x: u8)
    requires
        crc16_byte(a, x) == crc16_byte(b, x),
    ensures
        a == b,
{
    lemma_rounds_injective(a ^ (x as u16), b ^ (x as u16), 8);
    assert(a ^ (x as u16) == b ^ (x as u16) ==> a == b) by (bit_vector);
}

/// Folding distinct bytes into the same accumulator gives distinct results.
proof fn lemma_byte_byte_injective(c: u16, x: u8, y: u8)
    requires
        crc16_byte(c, x) == crc16_byte(c, y),
    ensures
        x == y,
{
    lemma_rounds_injective(c ^ (x as u16), c ^ (y as u16), 8);
    assert(c ^ (x as u16) == c ^ (y as u16) ==> x == y) by (bit_vector);
}

/// The checksum of a prefix only depends on the bytes of that prefix.
proof fn lemma_prefix_depends_on_prefix(s: Seq<u8>, t: Seq<u8>, n: int)
    requires
        0 <= n <= s.len(),
        n <= t.len(),
        forall|j: int| 0 <= j < n ==> s[j] == t[j],
    ensures
        crc16_prefix(s, n) == crc16_prefix(t, n),
    decreases n,
{
    if n > 0 {
        lemma_prefix_depends_on_prefix(s, t, n - 1);
    }
}

/// Once two sequences' running checksums differ, appending equal bytes
/// keeps them different.
proof fn lemma_prefix_propagates_difference(s: Seq<u8>, t: Seq<u8>, k: int, n: int)
    requires
        0 <= k <= n,
        n <= s.len(),
        n <= t.len(),
        crc16_prefix(s, k) != crc16_prefix(t, k),
        forall|j: int| k <= j < n ==> s[j] == t[j],
    ensures
        crc16_prefix(s, n) != crc16_prefix(t, n),
    decreases n - k,
{
    if k < n {
        if crc16_prefix(s, k + 1) == crc16_prefix(t, k + 1) {
            lemma_byte_state_injective(crc16_prefix(s, k), crc16_prefix(t, k), s[k]);
        }
        lemma_prefix_propagates_difference(s, t, k + 1, n);
    }
}

/// CRC16 detects every single-byte corruption: two equal-length sequences
/// that differ in exactly one position have different checksums.
pub proof fn lemma_crc16_single_flip(s: Seq<u8>, t: Seq<u8>, i: int)
    requires
        s.len() == t.len(),
        0 <= i < s.len(),
        s[i] != t[i],
        forall|j: int| 0 <= j < s.len() && j != i ==> s[j] == t[j],
    ensures
        crc16_spec(s) != crc16_spec(t),
{
    lemma_prefix_depends_on_prefix(s, t, i);
    if crc16_prefix(s, i + 1) == crc16_prefix(t, i + 1) {
        lemma_byte_byte_injective(crc16_prefix(s, i), s[i], t[i]);
    }
    lemma_prefix_propagates_difference(s, t, i + 1, s.len() as int);
}

} // verus!
