//! Form-data helpers for the configuration front end.
//!
//! Only the pure part lives here: percent-decoding of
//! `application/x-www-form-urlencoded` values. `+` becomes a space, `%`
//! followed by two hexadecimal digits becomes the encoded byte, and a `%`
//! that is not followed by two hexadecimal digits is kept literally.

use vstd::prelude::*;

verus! {

/// The value of an ASCII hexadecimal digit, upper or lower case.
pub open spec fn hex_digit(b: u8) -> Option<u8> {
    if 0x30 <= b <= 0x39 {
        Some((b - 0x30) as u8)
    } else if 0x41 <= b <= 0x46 {
        Some((b - 0x41 + 10) as u8)
    } else if 0x61 <= b <= 0x66 {
        Some((b - 0x61 + 10) as u8)
    } else {
        None
    }
}

/// Percent-decoding from position `i` on: `+` is a space, `%xy` with two
/// hexadecimal digits (and at least one byte after them) is the byte
/// `16*x + y`, anything else stands for itself.
pub open spec fn decode_from(s: Seq<u8>, i: int) -> Seq<u8>
    decreases s.len() - i,
{
    if i < 0 || i >= s.len() {
        Seq::empty()
    } else if s[i] == 0x2B {
        seq![0x20u8] + decode_from(s, i + 1)
    } else if s[i] == 0x25 && i + 2 < s.len() && hex_digit(s[i + 1]) is Some && hex_digit(
        s[i + 2],
    ) is Some {
        seq![(hex_digit(s[i + 1]).unwrap() * 16 + hex_digit(s[i + 2]).unwrap()) as u8]
            + decode_from(s, i + 3)
    } else {
        seq![s[i]] + decode_from(s, i + 1)
    }
}

/// Percent-decoding of a whole byte string.
pub open spec fn url_decode_spec(s: Seq<u8>) -> Seq<u8> {
    decode_from(s, 0)
}

/// The value of an ASCII hexadecimal digit, executable.
fn hex_digit_value(b: u8) -> (r: Option<u8>)
    ensures
        r == hex_digit(b),
{
    if 0x30 <= b && b <= 0x39 {
        Some(b - 0x30)
    } else if 0x41 <= b && b <= 0x46 {
        Some(b - 0x41 + 10)
    } else if 0x61 <= b && b <= 0x66 {
        Some(b - 0x61 + 10)
    } else {
        None
    }
}

/// Minimal URL percent-decoding and `+` to space conversion.
pub fn url_decode(input: &[u8]) -> (out: Vec<u8>)
    ensures
        out@ == url_decode_spec(input@),
{
    let mut out: Vec<u8> = Vec::new();
    let mut i: usize = 0;
    while i < input.len()
        invariant
            i <= input@.len(),
            url_decode_spec(input@) == out@ + decode_from(input@, i as int),
        decreases input@.len() - i,
    {
        let ghost prev_out = out@;
        let ghost prev_i = i as int;
        let b = input[i];
        if b == 0x2B {
            out.push(0x20);
            i += 1;
        } else if b == 0x25 && input.len() - i > 2 {
            let d1 = hex_digit_value(input[i + 1]);
            let d2 = hex_digit_value(input[i + 2]);
            match (d1, d2) {
                (Some(x), Some(y)) => {
                    out.push(x * 16 + y);
                    i += 3;
                },
                _ => {
                    out.push(0x25);
                    i += 1;
                },
            }
        } else {
            out.push(b);
            i += 1;
        }
        proof {
            let w = out@.last();
            assert(decode_from(input@, prev_i) == seq![w] + decode_from(input@, i as int));
            assert(prev_out + (seq![w] + decode_from(input@, i as int)) =~= out@ + decode_from(
                input@,
                i as int,
            ));
        }
    }
    proof {
        assert(out@ + decode_from(input@, input@.len() as int) =~= out@);
    }
    out
}

} // verus!
