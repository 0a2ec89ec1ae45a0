//! The device's 96-bit unique id: three 32-bit words read from the chip,
//! turned into twelve bytes and into 24 upper-case hexadecimal digits.
use vstd::prelude::*;

verus! {

/// Byte `j` (0 = least significant) of a word.
pub open spec fn word_byte(w: u32, j: int) -> int {
    if j == 0 {
        (w as int) % 0x100
    } else if j == 1 {
        (w as int / 0x100) % 0x100
    } else if j == 2 {
        (w as int / 0x1_0000) % 0x100
    } else {
        (w as int / 0x100_0000) % 0x100
    }
}

/// The ASCII code of the upper-case hexadecimal digit of a value below 16
/// (`0x30` is `0`, `0x41` is `A`).
pub open spec fn hex_digit(d: int) -> int {
    if d < 10 {
        0x30 + d
    } else {
        0x41 + d - 10
    }
}

/// The id as bytes: each word in turn, least significant byte first.
pub fn uid(words: [u32; 3]) -> (r: [u8; 12])
    ensures
        forall|k: int| 0 <= k < 12 ==> r@[k] == word_byte(#[trigger] words@[k / 4], k % 4),
{
    let mut out = [0u8; 12];
    let mut i: usize = 0;
    while i < 3
        invariant
            0 <= i <= 3,
            out@.len() == 12,
            forall|k: int| 0 <= k < 4 * i ==> out@[k] == word_byte(#[trigger] words@[k / 4], k % 4),
        decreases 3 - i,
    {
        let w = words[i];
        assert((w & 0xff) == w % 0x100) by (bit_vector);
        assert(((w >> 8) & 0xff) == (w / 0x100) % 0x100) by (bit_vector);
        assert(((w >> 16) & 0xff) == (w / 0x1_0000) % 0x100) by (bit_vector);
        assert(((w >> 24) & 0xff) == (w / 0x100_0000) % 0x100) by (bit_vector);
        out[4 * i] = (w & 0xff) as u8;
        out[4 * i + 1] = ((w >> 8) & 0xff) as u8;
        out[4 * i + 2] = ((w >> 16) & 0xff) as u8;
        out[4 * i + 3] = ((w >> 24) & 0xff) as u8;
        assert forall|k: int| 0 <= k < 4 * (i + 1) implies out@[k] == word_byte(#[trigger] words@[k / 4], k % 4) by {
            if k >= 4 * i {
                assert(k / 4 == i);
            }
        }
        i = i + 1;
    }
    out
}

/// The id as hexadecimal ASCII: two digits per byte, high nibble first.
pub fn uid_hex_bytes(uid: &[u8; 12]) -> (r: [u8; 24])
    ensures
        forall|i: int| 0 <= i < 12 ==> r@[2 * i] == hex_digit(#[trigger] uid@[i] as int / 16),
        forall|i: int| 0 <= i < 12 ==> r@[2 * i + 1] == hex_digit(#[trigger] uid@[i] as int % 16),
{
    let mut out = [0u8; 24];
    let mut i: usize = 0;
    while i < 12
        invariant
            0 <= i <= 12,
            out@.len() == 24,
            forall|j: int| 0 <= j < i ==> out@[2 * j] == hex_digit(#[trigger] uid@[j] as int / 16),
            forall|j: int| 0 <= j < i ==> out@[2 * j + 1] == hex_digit(#[trigger] uid@[j] as int % 16),
        decreases 12 - i,
    {
        let v = uid[i];
        let hi = v / 16;
        let lo = v % 16;
        out[2 * i] = if hi < 10 {
            0x30 + hi
        } else {
            0x41 + hi - 10
        };
        out[2 * i + 1] = if lo < 10 {
            0x30 + lo
        } else {
            0x41 + lo - 10
        };
        i = i + 1;
    }
    out
}

} // verus!
