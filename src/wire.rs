//! The tag-length-value encoding used on the control channel: varints, tags,
//! 32-bit integers and length-delimited byte strings.
//!
//! The primitives are those of `quick_protobuf`; each call goes through one of
//! the small wrappers at the bottom of this file. A read is made on the window
//! `bytes[pos..end]` and reports how many bytes of the window are left, so the
//! caller always knows its position as a plain index.
use vstd::prelude::*;
use quick_protobuf::sizeofs::{sizeof_int32, sizeof_len};
use quick_protobuf::{BytesReader, Writer};

verus! {

/// 2^32, the modulus of the 32-bit reads.
pub open spec fn two_pow_32() -> int {
    0x1_0000_0000
}

/// 2^64, the modulus of the 64-bit reads.
pub open spec fn two_pow_64() -> int {
    0x1_0000_0000_0000_0000
}

/// 128^k: the first value that needs more than `k` varint bytes.
pub open spec fn pow128(k: nat) -> nat
    decreases k,
{
    if k == 0 {
        1
    } else {
        128 * pow128((k - 1) as nat)
    }
}

/// Decodes a varint at the start of `s`, reading at most `budget` bytes.
/// Gives the value and the number of bytes it took.
pub open spec fn varint_within(s: Seq<u8>, budget: nat) -> Option<(nat, nat)>
    decreases budget,
{
    if budget == 0 || s.len() == 0 {
        None
    } else if s[0] < 128 {
        Some((s[0] as nat, 1nat))
    } else {
        match varint_within(s.drop_first(), (budget - 1) as nat) {
            Some((v, n)) => Some(((s[0] - 128) as nat + 128 * v, n + 1)),
            None => None,
        }
    }
}

/// A varint is at most ten bytes long; a longer run of continuation bytes is an error.
pub open spec fn decode_varint(s: Seq<u8>) -> Option<(nat, nat)> {
    varint_within(s, 10)
}

/// The varint at `pos` in the window `s[pos..end]`: its value and the position after it.
pub open spec fn varint_at(s: Seq<u8>, pos: int, end: int) -> Option<(nat, int)> {
    if 0 <= pos <= end <= s.len() {
        match decode_varint(s.subrange(pos, end)) {
            Some((v, n)) => Some((v, pos + n)),
            None => None,
        }
    } else {
        None
    }
}

/// A decoded varint read as a 32-bit signed integer (its low 32 bits).
pub open spec fn as_int32(v: nat) -> int {
    let m = (v as int) % two_pow_32();
    if m >= 0x8000_0000 {
        m - two_pow_32()
    } else {
        m
    }
}

/// The varint that a 32-bit signed integer is written as: sign-extended to 64 bits.
pub open spec fn int32_wire(v: int) -> nat {
    if v < 0 {
        (v + two_pow_64()) as nat
    } else {
        v as nat
    }
}

/// The varint encoding of `v`: seven bits per byte, least significant first,
/// the high bit set on every byte but the last.
pub open spec fn varint_bytes(v: nat) -> Seq<u8>
    decreases v,
{
    if v < 128 {
        seq![v as u8]
    } else {
        seq![(v % 128 + 128) as u8] + varint_bytes(v / 128)
    }
}

/// Where an unknown field's value ends, by the wire type in the low three bits
/// of its tag: a varint, 8 or 4 fixed bytes, or a length and that many bytes.
/// Group and reserved wire types are refused.
pub open spec fn skip_unknown(s: Seq<u8>, pos: int, end: int, tag: int) -> Option<int> {
    let wire_type = tag % 8;
    if wire_type == 0 {
        match varint_at(s, pos, end) {
            Some((_, q)) => Some(q),
            None => None,
        }
    } else if wire_type == 1 {
        if 0 <= pos && pos + 8 <= end {
            Some(pos + 8)
        } else {
            None
        }
    } else if wire_type == 2 {
        match varint_at(s, pos, end) {
            Some((len, q)) => if q + (len as int) % two_pow_64() <= end {
                Some(q + (len as int) % two_pow_64())
            } else {
                None
            },
            None => None,
        }
    } else if wire_type == 5 {
        if 0 <= pos && pos + 4 <= end {
            Some(pos + 4)
        } else {
            None
        }
    } else {
        None
    }
}

/// The length-delimited bytes at `pos`: a varint length (its low 32 bits), then the bytes.
pub open spec fn bytes_at(s: Seq<u8>, pos: int, end: int) -> Option<(Seq<u8>, int)> {
    match varint_at(s, pos, end) {
        Some((len, q)) => {
            let l = (len as int) % two_pow_32();
            if q + l <= end {
                Some((s.subrange(q, q + l), q + l))
            } else {
                None
            }
        },
        None => None,
    }
}

pub proof fn lemma_varint_within_bounds(s: Seq<u8>, budget: nat)
    ensures
        varint_within(s, budget) matches Some((v, n)) ==> 1 <= n <= s.len() && n <= budget,
    decreases budget,
{
    if budget > 0 && s.len() > 0 && s[0] >= 128 {
        lemma_varint_within_bounds(s.drop_first(), (budget - 1) as nat);
    }
}

/// A varint read in a window moves forward and stays inside the window.
pub proof fn lemma_varint_at_bounds(s: Seq<u8>, pos: int, end: int)
    ensures
        varint_at(s, pos, end) matches Some((v, q)) ==> 0 <= pos < q <= end <= s.len(),
{
    if 0 <= pos <= end <= s.len() {
        lemma_varint_within_bounds(s.subrange(pos, end), 10);
    }
}

pub proof fn lemma_pow128_ten()
    ensures
        two_pow_64() < pow128(10),
{
    reveal_with_fuel(pow128, 11);
}

/// Decoding the encoding of `v` gives `v` back, whatever follows it.
pub proof fn lemma_varint_round_trip(v: nat, rest: Seq<u8>, budget: nat)
    requires
        v < pow128(budget),
        budget >= 1,
    ensures
        varint_within(varint_bytes(v) + rest, budget) == Some((v, varint_bytes(v).len())),
        1 <= varint_bytes(v).len() <= budget,
    decreases v,
{
    let s = varint_bytes(v) + rest;
    if v < 128 {
        assert(varint_bytes(v) == seq![v as u8]);
        assert(s[0] == v as u8);
        assert(budget > 0);
    } else {
        let b = (v % 128 + 128) as u8;
        assert(varint_bytes(v) == seq![b] + varint_bytes(v / 128));
        assert(budget > 0);
        assert(pow128(budget) == 128 * pow128((budget - 1) as nat));
        assert(v / 128 < pow128((budget - 1) as nat));
        assert(budget - 1 >= 1) by {
            if budget == 1 {
                assert(pow128(0) == 1);
            }
        }
        lemma_varint_round_trip(v / 128, rest, (budget - 1) as nat);
        assert(s[0] == b);
        assert(s.drop_first() =~= varint_bytes(v / 128) + rest);
        assert(v % 128 + 128 * (v / 128) == v);
    }
}

/// The encoding of a 64-bit value is decoded back from any window that starts with it.
pub proof fn lemma_varint_at_encoded(s: Seq<u8>, pos: int, end: int, v: nat)
    requires
        v < two_pow_64(),
        0 <= pos,
        pos + varint_bytes(v).len() <= end <= s.len(),
        s.subrange(pos, pos + varint_bytes(v).len()) == varint_bytes(v),
    ensures
        varint_at(s, pos, end) == Some((v, pos + varint_bytes(v).len())),
{
    let n = varint_bytes(v).len();
    lemma_pow128_ten();
    let rest = s.subrange(pos + n, end);
    assert(s.subrange(pos, end) =~= varint_bytes(v) + rest);
    lemma_varint_round_trip(v, rest, 10);
}

/// Every 64-bit value takes between one and ten bytes.
pub proof fn lemma_varint_len(v: nat)
    requires
        v < two_pow_64(),
    ensures
        1 <= varint_bytes(v).len() <= 10,
        v < 128 ==> varint_bytes(v) == seq![v as u8],
{
    lemma_pow128_ten();
    lemma_varint_round_trip(v, Seq::empty(), 10);
}

/// A 32-bit integer written as a sign-extended varint reads back unchanged.
pub proof fn lemma_int32_round_trip(v: int)
    requires
        -0x8000_0000 <= v < 0x8000_0000,
    ensures
        as_int32(int32_wire(v)) == v,
        int32_wire(v) < two_pow_64(),
{
    if v < 0 {
        let w = v + two_pow_64();
        assert(w == (two_pow_32() - 1) * two_pow_32() + (two_pow_32() + v));
        assert(w % two_pow_32() == two_pow_32() + v) by (nonlinear_arith)
            requires
                w == (two_pow_32() - 1) * two_pow_32() + (two_pow_32() + v),
                0 <= two_pow_32() + v < two_pow_32(),
                two_pow_32() == 0x1_0000_0000,
        ;
    }
}

/// Relies on `BytesReader::read_varint32`: reads a varint of at most ten
/// bytes and keeps its low 32 bits; fails at the end of the input or after
/// ten continuation bytes.
#[verifier::external_body]
pub(crate) fn pb_read_varint32(bytes: &[u8], pos: usize, end: usize) -> (r: Option<(u32, usize)>)
    requires
        pos <= end <= bytes@.len(),
    ensures
        r is None <==> varint_at(bytes@, pos as int, end as int) is None,
        r matches Some((x, left)) ==> (varint_at(bytes@, pos as int, end as int) matches Some((v, q)) && x == (v as int) % two_pow_32() && left == end - q),
{
    let window = &bytes[pos..end];
    let mut reader = BytesReader::from_bytes(window);
    match reader.read_varint32(window) {
        Ok(v) => Some((v, reader.len())),
        Err(_) => None,
    }
}

/// Relies on `BytesReader::next_tag`, which reads the tag as `read_varint32` does.
#[verifier::external_body]
pub(crate) fn pb_next_tag(bytes: &[u8], pos: usize, end: usize) -> (r: Option<(u32, usize)>)
    requires
        pos <= end <= bytes@.len(),
    ensures
        r is None <==> varint_at(bytes@, pos as int, end as int) is None,
        r matches Some((x, left)) ==> (varint_at(bytes@, pos as int, end as int) matches Some((v, q)) && x == (v as int) % two_pow_32() && left == end - q),
{
    let window = &bytes[pos..end];
    let mut reader = BytesReader::from_bytes(window);
    match reader.next_tag(window) {
        Ok(t) => Some((t, reader.len())),
        Err(_) => None,
    }
}

/// Relies on `BytesReader::read_int32`: `read_varint32`, the 32 bits taken as signed.
#[verifier::external_body]
pub(crate) fn pb_read_int32(bytes: &[u8], pos: usize, end: usize) -> (r: Option<(i32, usize)>)
    requires
        pos <= end <= bytes@.len(),
    ensures
        r is None <==> varint_at(bytes@, pos as int, end as int) is None,
        r matches Some((x, left)) ==> (varint_at(bytes@, pos as int, end as int) matches Some((v, q)) && x == as_int32(v) && left == end - q),
{
    let window = &bytes[pos..end];
    let mut reader = BytesReader::from_bytes(window);
    match reader.read_int32(window) {
        Ok(v) => Some((v, reader.len())),
        Err(_) => None,
    }
}

/// Relies on `BytesReader::read_bytes`: a `read_varint32` length, then that
/// many bytes. The caller has checked that they lie inside the window, so the
/// end position the reader computes cannot overflow on a 32-bit target.
#[verifier::external_body]
pub(crate) fn pb_read_bytes(bytes: &[u8], pos: usize, end: usize) -> (r: Option<(Vec<u8>, usize)>)
    requires
        pos <= end <= bytes@.len(),
        bytes_at(bytes@, pos as int, end as int) is Some,
    ensures
        r is Some,
        r matches Some((x, left)) ==> (bytes_at(bytes@, pos as int, end as int) matches Some((b, q)) && x@ == b && left == end - q),
{
    let window = &bytes[pos..end];
    let mut reader = BytesReader::from_bytes(window);
    match reader.read_bytes(window) {
        Ok(b) => Some((b.to_vec(), reader.len())),
        Err(_) => None,
    }
}

/// Relies on `BytesReader::read_unknown`: skips the value of a field whose
/// tag is not known, by the wire type in the tag.
#[verifier::external_body]
pub(crate) fn pb_read_unknown(bytes: &[u8], pos: usize, end: usize, tag: u32) -> (r: Option<usize>)
    requires
        pos <= end <= bytes@.len(),
    ensures
        r is None <==> skip_unknown(bytes@, pos as int, end as int, tag as int) is None,
        r matches Some(left) ==> (skip_unknown(bytes@, pos as int, end as int, tag as int) matches Some(q) && left == end - q),
{
    let window = &bytes[pos..end];
    let mut reader = BytesReader::from_bytes(window);
    match reader.read_unknown(window, tag) {
        Ok(()) => Some(reader.len()),
        Err(_) => None,
    }
}

/// Relies on `Writer::write_varint`, which on a `Vec` backend appends the
/// varint encoding and cannot fail.
#[verifier::external_body]
pub(crate) fn pb_write_varint(out: &mut Vec<u8>, v: u64)
    ensures
        final(out)@ == old(out)@ + varint_bytes(v as nat),
{
    let _ = Writer::new(out).write_varint(v);
}

/// Relies on `Writer::write_tag`: the tag written as a varint.
#[verifier::external_body]
pub(crate) fn pb_write_tag(out: &mut Vec<u8>, tag: u32)
    ensures
        final(out)@ == old(out)@ + varint_bytes(tag as nat),
{
    let _ = Writer::new(out).write_tag(tag);
}

/// Relies on `Writer::write_int32`: the value sign-extended to 64 bits, as a varint.
#[verifier::external_body]
pub(crate) fn pb_write_int32(out: &mut Vec<u8>, v: i32)
    ensures
        final(out)@ == old(out)@ + varint_bytes(int32_wire(v as int)),
{
    let _ = Writer::new(out).write_int32(v);
}

/// Relies on `Writer::write_bytes`: the length as a varint, then the bytes.
#[verifier::external_body]
pub(crate) fn pb_write_bytes(out: &mut Vec<u8>, b: &[u8])
    ensures
        final(out)@ == old(out)@ + varint_bytes(b@.len()) + b@,
{
    let _ = Writer::new(out).write_bytes(b);
}

/// Relies on `sizeofs::sizeof_int32`: the length of the varint that `write_int32` writes.
#[verifier::external_body]
pub(crate) fn pb_sizeof_int32(v: i32) -> (r: usize)
    ensures
        r == varint_bytes(int32_wire(v as int)).len(),
{
    sizeof_int32(v)
}

/// Relies on `sizeofs::sizeof_len`: a length-delimited chunk's varint length plus the chunk.
#[verifier::external_body]
pub(crate) fn pb_sizeof_len(len: usize) -> (r: usize)
    requires
        len + 10 <= usize::MAX,
    ensures
        r == varint_bytes(len as nat).len() + len,
{
    sizeof_len(len)
}

} // verus!
