//! The four messages of the control channel and their encoding.
//!
//! Each message has three fields with tags 1, 2 and 3. The first two are
//! 32-bit integers; the third is an integer in the control and status
//! payloads and a byte string in the request and response. A field that holds
//! zero (or no bytes) is left out. On the channel a message is preceded by its
//! length as a varint.
use vstd::prelude::*;
use crate::wire::{
    as_int32, bytes_at, int32_wire, pb_next_tag, pb_read_bytes, pb_read_int32, pb_read_unknown,
    pb_read_varint32, pb_sizeof_int32, pb_sizeof_len, pb_write_bytes, pb_write_int32,
    pb_write_tag, pb_write_varint, skip_unknown, two_pow_32, varint_at, varint_bytes,
};

verus! {

/// What the third field of a message holds.
#[derive(PartialEq, Eq, Structural, Clone, Copy, Debug)]
pub enum Shape {
    /// A 32-bit integer (tag byte 24).
    Ints,
    /// A byte string (tag byte 26).
    Blob,
}

/// Tag byte of field 1 as a varint.
pub const TAG_FIRST: u32 = 8;

/// Tag byte of field 2 as a varint.
pub const TAG_SECOND: u32 = 16;

/// Tag byte of field 3 when it is a varint.
pub const TAG_THIRD_INT: u32 = 24;

/// Tag byte of field 3 when it is length-delimited.
pub const TAG_THIRD_BYTES: u32 = 26;

/// The longest byte string a message may carry, so that every length and
/// size computed over it fits in 32 bits.
pub const MAX_BLOB_LEN: usize = 0xffff_ff00;

/// Decoded field values: the three integer fields and the byte-string field.
pub type Fields = (int, int, int, Seq<u8>);

/// The fields of a message before any field was read.
pub open spec fn no_fields() -> Fields {
    (0, 0, 0, Seq::empty())
}

/// The model of an executable field tuple.
pub open spec fn fields_of(f: (i32, i32, i32, Vec<u8>)) -> Fields {
    (f.0 as int, f.1 as int, f.2 as int, f.3@)
}

/// Reads the value of the field whose tag was just read; fields of unknown
/// tag are skipped by their wire type. Gives the fields and the position after the value.
pub open spec fn read_field(s: Seq<u8>, pos: int, end: int, shape: Shape, tag: int, acc: Fields) -> Option<(Fields, int)> {
    if tag == TAG_FIRST {
        match varint_at(s, pos, end) {
            Some((v, q)) => Some(((as_int32(v), acc.1, acc.2, acc.3), q)),
            None => None,
        }
    } else if tag == TAG_SECOND {
        match varint_at(s, pos, end) {
            Some((v, q)) => Some(((acc.0, as_int32(v), acc.2, acc.3), q)),
            None => None,
        }
    } else if tag == TAG_THIRD_INT && shape == Shape::Ints {
        match varint_at(s, pos, end) {
            Some((v, q)) => Some(((acc.0, acc.1, as_int32(v), acc.3), q)),
            None => None,
        }
    } else if tag == TAG_THIRD_BYTES && shape == Shape::Blob {
        match bytes_at(s, pos, end) {
            Some((b, q)) => Some(((acc.0, acc.1, acc.2, b), q)),
            None => None,
        }
    } else {
        match skip_unknown(s, pos, end, tag) {
            Some(q) => Some((acc, q)),
            None => None,
        }
    }
}

/// Reads fields from `pos` up to `end`; a later field overrides an earlier one of the same tag.
pub open spec fn parse_fields(s: Seq<u8>, pos: int, end: int, shape: Shape, acc: Fields) -> Option<Fields>
    decreases end - pos,
{
    if pos >= end {
        Some(acc)
    } else {
        match varint_at(s, pos, end) {
            Some((t, p)) => match read_field(s, p, end, shape, (t as int) % two_pow_32(), acc) {
                Some((next, q)) => if pos < q <= end {
                    parse_fields(s, q, end, shape, next)
                } else {
                    None
                },
                None => None,
            },
            None => None,
        }
    }
}

/// The fields of a whole message body.
pub open spec fn parse_body(s: Seq<u8>, shape: Shape) -> Option<Fields> {
    parse_fields(s, 0, s.len() as int, shape, no_fields())
}

/// A length-prefixed message: a varint length (its low 32 bits), then the
/// fields in that many bytes. Bytes after them are ignored.
pub open spec fn parse_message(s: Seq<u8>, shape: Shape) -> Option<Fields> {
    match varint_at(s, 0, s.len() as int) {
        Some((len, p)) => {
            let l = (len as int) % two_pow_32();
            if p + l <= s.len() {
                parse_fields(s, p, p + l, shape, no_fields())
            } else {
                None
            }
        },
        None => None,
    }
}

/// An integer field: the tag, then the value; nothing when the value is zero.
pub open spec fn int_field(tag: nat, v: int) -> Seq<u8> {
    if v == 0 {
        Seq::empty()
    } else {
        varint_bytes(tag) + varint_bytes(int32_wire(v))
    }
}

/// A byte-string field: the tag, the length, the bytes; nothing when there are no bytes.
pub open spec fn blob_field(tag: nat, b: Seq<u8>) -> Seq<u8> {
    if b.len() == 0 {
        Seq::empty()
    } else {
        varint_bytes(tag) + varint_bytes(b.len()) + b
    }
}

/// The third field as the shape has it.
pub open spec fn third_field(f: Fields, shape: Shape) -> Seq<u8> {
    if shape == Shape::Ints {
        int_field(TAG_THIRD_INT as nat, f.2)
    } else {
        blob_field(TAG_THIRD_BYTES as nat, f.3)
    }
}

/// The encoding of a message body: its fields in tag order.
pub open spec fn encode_fields(f: Fields, shape: Shape) -> Seq<u8> {
    int_field(TAG_FIRST as nat, f.0) + int_field(TAG_SECOND as nat, f.1) + third_field(f, shape)
}

/// A body preceded by its length.
pub open spec fn frame(body: Seq<u8>) -> Seq<u8> {
    varint_bytes(body.len()) + body
}

/// Field values that a message of the shape can carry: 32-bit integers, the
/// unused third field left empty, and a byte string within the size limit.
pub open spec fn fields_fit(f: Fields, shape: Shape) -> bool {
    &&& -0x8000_0000 <= f.0 < 0x8000_0000
    &&& -0x8000_0000 <= f.1 < 0x8000_0000
    &&& -0x8000_0000 <= f.2 < 0x8000_0000
    &&& f.3.len() <= MAX_BLOB_LEN
    &&& shape == Shape::Ints ==> f.3.len() == 0
    &&& shape == Shape::Blob ==> f.2 == 0
}

fn write_int_field(out: &mut Vec<u8>, tag: u32, v: i32)
    ensures
        final(out)@ == old(out)@ + int_field(tag as nat, v as int),
{
    if v != 0 {
        pb_write_tag(out, tag);
        pb_write_int32(out, v);
        assert(out@ =~= old(out)@ + int_field(tag as nat, v as int));
    } else {
        assert(out@ =~= old(out)@ + int_field(tag as nat, v as int));
    }
}

fn write_blob_field(out: &mut Vec<u8>, tag: u32, b: &[u8])
    ensures
        final(out)@ == old(out)@ + blob_field(tag as nat, b@),
{
    if b.len() != 0 {
        pb_write_tag(out, tag);
        pb_write_bytes(out, b);
        assert(out@ =~= old(out)@ + blob_field(tag as nat, b@));
    } else {
        assert(out@ =~= old(out)@ + blob_field(tag as nat, b@));
    }
}

/// Appends the encoding of a message body.
pub(crate) fn write_fields(out: &mut Vec<u8>, first: i32, second: i32, third: i32, blob: &[u8], shape: Shape)
    ensures
        final(out)@ == old(out)@ + encode_fields((first as int, second as int, third as int, blob@), shape),
{
    let ghost start = out@;
    write_int_field(out, TAG_FIRST, first);
    write_int_field(out, TAG_SECOND, second);
    if shape == Shape::Ints {
        write_int_field(out, TAG_THIRD_INT, third);
    } else {
        write_blob_field(out, TAG_THIRD_BYTES, blob);
    }
    assert(out@ =~= start + encode_fields((first as int, second as int, third as int, blob@), shape));
}

fn int_field_size(v: i32) -> (r: usize)
    ensures
        r == int_field(TAG_FIRST as nat, v as int).len(),
        r <= 11,
{
    if v == 0 {
        0
    } else {
        let n = pb_sizeof_int32(v);
        proof {
            crate::wire::lemma_int32_round_trip(v as int);
            crate::wire::lemma_varint_len(int32_wire(v as int));
            crate::wire::lemma_varint_len(TAG_FIRST as nat);
        }
        1 + n
    }
}

/// The length of the encoding of a message body.
pub(crate) fn fields_size(first: i32, second: i32, third: i32, blob_len: usize, shape: Shape) -> (r: usize)
    requires
        blob_len <= MAX_BLOB_LEN,
    ensures
        forall|b: Seq<u8>| b.len() == blob_len ==> r == #[trigger] encode_fields((first as int, second as int, third as int, b), shape).len(),
        r <= 33 + blob_len,
{
    proof {
        crate::wire::lemma_varint_len(TAG_FIRST as nat);
        crate::wire::lemma_varint_len(TAG_SECOND as nat);
        crate::wire::lemma_varint_len(TAG_THIRD_INT as nat);
        crate::wire::lemma_varint_len(TAG_THIRD_BYTES as nat);
    }
    let a = int_field_size(first);
    let b = int_field_size(second);
    let c = if shape == Shape::Ints {
        int_field_size(third)
    } else if blob_len == 0 {
        0
    } else {
        let n = pb_sizeof_len(blob_len);
        proof {
            crate::wire::lemma_varint_len(blob_len as nat);
        }
        1 + n
    };
    a + b + c
}

/// Reads the fields in `bytes[start..end]`.
pub(crate) fn read_fields(bytes: &[u8], start: usize, end: usize, shape: Shape) -> (r: Option<(i32, i32, i32, Vec<u8>)>)
    requires
        start <= end <= bytes@.len(),
    ensures
        r is None <==> parse_fields(bytes@, start as int, end as int, shape, no_fields()) is None,
        r matches Some(f) ==> parse_fields(bytes@, start as int, end as int, shape, no_fields()) == Some(fields_of(f)),
        r matches Some(f) ==> (shape == Shape::Ints ==> f.3@.len() == 0),
        r matches Some(f) ==> (shape == Shape::Blob ==> f.2 == 0),
{
    let mut pos = start;
    let mut first: i32 = 0;
    let mut second: i32 = 0;
    let mut third: i32 = 0;
    let mut blob: Vec<u8> = Vec::new();
    while pos < end
        invariant
            start <= pos <= end <= bytes@.len(),
            parse_fields(bytes@, start as int, end as int, shape, no_fields())
                == parse_fields(bytes@, pos as int, end as int, shape, (first as int, second as int, third as int, blob@)),
            shape == Shape::Ints ==> blob@.len() == 0,
            shape == Shape::Blob ==> third == 0,
        decreases end - pos,
    {
        let ghost acc: Fields = (first as int, second as int, third as int, blob@);
        proof {
            crate::wire::lemma_varint_at_bounds(bytes@, pos as int, end as int);
        }
        let (tag, left) = match pb_next_tag(bytes, pos, end) {
            Some(t) => t,
            None => return None,
        };
        let p = end - left;
        proof {
            crate::wire::lemma_varint_at_bounds(bytes@, p as int, end as int);
        }
        let next: usize;
        if tag == TAG_FIRST {
            match pb_read_int32(bytes, p, end) {
                Some((v, rest)) => {
                    first = v;
                    next = end - rest;
                },
                None => return None,
            }
        } else if tag == TAG_SECOND {
            match pb_read_int32(bytes, p, end) {
                Some((v, rest)) => {
                    second = v;
                    next = end - rest;
                },
                None => return None,
            }
        } else if tag == TAG_THIRD_INT && shape == Shape::Ints {
            match pb_read_int32(bytes, p, end) {
                Some((v, rest)) => {
                    third = v;
                    next = end - rest;
                },
                None => return None,
            }
        } else if tag == TAG_THIRD_BYTES && shape == Shape::Blob {
            // The declared length is checked against the window before the
            // bytes are read, so no position past the window is ever computed.
            let (len, left) = match pb_read_varint32(bytes, p, end) {
                Some(x) => x,
                None => return None,
            };
            if len as usize > left {
                return None;
            }
            match pb_read_bytes(bytes, p, end) {
                Some((b, rest)) => {
                    blob = b;
                    next = end - rest;
                },
                None => return None,
            }
        } else {
            match pb_read_unknown(bytes, p, end, tag) {
                Some(rest) => {
                    next = end - rest;
                },
                None => return None,
            }
        }
        assert(read_field(bytes@, p as int, end as int, shape, tag as int, acc)
            == Some(((first as int, second as int, third as int, blob@), next as int)));
        pos = next;
    }
    Some((first, second, third, blob))
}

/// Reads a length-prefixed message at the start of `bytes`.
pub(crate) fn read_message(bytes: &[u8], shape: Shape) -> (r: Option<(i32, i32, i32, Vec<u8>)>)
    ensures
        r is None <==> parse_message(bytes@, shape) is None,
        r matches Some(f) ==> parse_message(bytes@, shape) == Some(fields_of(f)),
        r matches Some(f) ==> (shape == Shape::Ints ==> f.3@.len() == 0),
        r matches Some(f) ==> (shape == Shape::Blob ==> f.2 == 0),
{
    proof {
        crate::wire::lemma_varint_at_bounds(bytes@, 0, bytes@.len() as int);
    }
    let (len, left) = match pb_read_varint32(bytes, 0, bytes.len()) {
        Some(x) => x,
        None => return None,
    };
    let p = bytes.len() - left;
    let len = len as usize;
    if len > bytes.len() - p {
        return None;
    }
    read_fields(bytes, p, p + len, shape)
}

/// The length-prefixed encoding of a message body.
fn serialize_fields(first: i32, second: i32, third: i32, blob: &[u8], shape: Shape) -> (r: Vec<u8>)
    requires
        blob@.len() <= MAX_BLOB_LEN,
    ensures
        r@ == frame(encode_fields((first as int, second as int, third as int, blob@), shape)),
{
    let size = fields_size(first, second, third, blob.len(), shape);
    let mut out: Vec<u8> = Vec::new();
    pb_write_varint(&mut out, size as u64);
    write_fields(&mut out, first, second, third, blob, shape);
    assert(out@ =~= frame(encode_fields((first as int, second as int, third as int, blob@), shape)));
    out
}

/// A request on the control channel: an id chosen by the caller, an
/// operation code, and the operation's payload (possibly empty).
#[derive(Debug, Clone, PartialEq, Eq)]
pub struct QRequest {
    pub id: i32,
    pub op: i32,
    pub data: Vec<u8>,
}

impl QRequest {
    pub open spec fn fields(&self) -> Fields {
        (self.id as int, self.op as int, 0, self.data@)
    }

    /// Reads a request body: its fields, without a length prefix.
    pub fn decode(bytes: &[u8]) -> (r: Option<QRequest>)
        ensures
            r is None <==> parse_body(bytes@, Shape::Blob) is None,
            r matches Some(m) ==> parse_body(bytes@, Shape::Blob) == Some(m.fields()),
    {
        match read_fields(bytes, 0, bytes.len(), Shape::Blob) {
            Some((id, op, _, data)) => Some(QRequest { id, op, data }),
            None => None,
        }
    }

    /// Reads a length-prefixed request, as it arrives in a packet.
    pub fn deserialize(bytes: &[u8]) -> (r: Option<QRequest>)
        ensures
            r is None <==> parse_message(bytes@, Shape::Blob) is None,
            r matches Some(m) ==> parse_message(bytes@, Shape::Blob) == Some(m.fields()),
    {
        match read_message(bytes, Shape::Blob) {
            Some((id, op, _, data)) => Some(QRequest { id, op, data }),
            None => None,
        }
    }

    /// The length of the encoded body.
    pub fn get_size(&self) -> (r: usize)
        requires
            self.data@.len() <= MAX_BLOB_LEN,
        ensures
            r == encode_fields(self.fields(), Shape::Blob).len(),
    {
        fields_size(self.id, self.op, 0, self.data.len(), Shape::Blob)
    }

    /// Appends the encoded body.
    pub fn write_message(&self, out: &mut Vec<u8>)
        ensures
            final(out)@ == old(out)@ + encode_fields(self.fields(), Shape::Blob),
    {
        write_fields(out, self.id, self.op, 0, self.data.as_slice(), Shape::Blob);
    }

    /// The length-prefixed encoding, as it is sent in a packet.
    pub fn serialize(&self) -> (r: Vec<u8>)
        requires
            self.data@.len() <= MAX_BLOB_LEN,
        ensures
            r@ == frame(encode_fields(self.fields(), Shape::Blob)),
    {
        serialize_fields(self.id, self.op, 0, self.data.as_slice(), Shape::Blob)
    }
}

/// A response on the control channel: the request's id, an error code
/// (zero on success) and the result payload (possibly empty).
#[derive(Debug, Clone, PartialEq, Eq)]
pub struct QResponse {
    pub id: i32,
    pub error: i32,
    pub data: Vec<u8>,
}

impl QResponse {
    pub open spec fn fields(&self) -> Fields {
        (self.id as int, self.error as int, 0, self.data@)
    }

    /// Reads a response body: its fields, without a length prefix.
    pub fn decode(bytes: &[u8]) -> (r: Option<QResponse>)
        ensures
            r is None <==> parse_body(bytes@, Shape::Blob) is None,
            r matches Some(m) ==> parse_body(bytes@, Shape::Blob) == Some(m.fields()),
    {
        match read_fields(bytes, 0, bytes.len(), Shape::Blob) {
            Some((id, error, _, data)) => Some(QResponse { id, error, data }),
            None => None,
        }
    }

    /// Reads a length-prefixed response.
    pub fn deserialize(bytes: &[u8]) -> (r: Option<QResponse>)
        ensures
            r is None <==> parse_message(bytes@, Shape::Blob) is None,
            r matches Some(m) ==> parse_message(bytes@, Shape::Blob) == Some(m.fields()),
    {
        match read_message(bytes, Shape::Blob) {
            Some((id, error, _, data)) => Some(QResponse { id, error, data }),
            None => None,
        }
    }

    /// The length of the encoded body.
    pub fn get_size(&self) -> (r: usize)
        requires
            self.data@.len() <= MAX_BLOB_LEN,
        ensures
            r == encode_fields(self.fields(), Shape::Blob).len(),
    {
        fields_size(self.id, self.error, 0, self.data.len(), Shape::Blob)
    }

    /// Appends the encoded body.
    pub fn write_message(&self, out: &mut Vec<u8>)
        ensures
            final(out)@ == old(out)@ + encode_fields(self.fields(), Shape::Blob),
    {
        write_fields(out, self.id, self.error, 0, self.data.as_slice(), Shape::Blob);
    }

    /// The length-prefixed encoding, as it is sent in a packet.
    pub fn serialize(&self) -> (r: Vec<u8>)
        requires
            self.data@.len() <= MAX_BLOB_LEN,
        ensures
            r@ == frame(encode_fields(self.fields(), Shape::Blob)),
    {
        serialize_fields(self.id, self.error, 0, self.data.as_slice(), Shape::Blob)
    }
}

impl Default for QResponse {
    /// An empty response: id 0, no error, no data.
    fn default() -> (r: QResponse)
        ensures
            r.id == 0,
            r.error == 0,
            r.data@.len() == 0,
    {
        QResponse { id: 0, error: 0, data: Vec::new() }
    }
}

/// The payload of a control request: the rail enable flag and the duty
/// percentage of the two PWM outputs.
#[derive(Debug, Clone, Copy, PartialEq, Eq, Structural)]
pub struct QControl {
    pub state_1v2: i32,
    pub pwm1: i32,
    pub pwm2: i32,
}

impl QControl {
    pub open spec fn fields(&self) -> Fields {
        (self.state_1v2 as int, self.pwm1 as int, self.pwm2 as int, Seq::empty())
    }

    /// Reads a control payload body: its fields, without a length prefix.
    pub fn decode(bytes: &[u8]) -> (r: Option<QControl>)
        ensures
            r is None <==> parse_body(bytes@, Shape::Ints) is None,
            r matches Some(m) ==> parse_body(bytes@, Shape::Ints) == Some(m.fields()),
    {
        match read_fields(bytes, 0, bytes.len(), Shape::Ints) {
            Some((state_1v2, pwm1, pwm2, blob)) => {
                assert(blob@ =~= Seq::<u8>::empty());
                Some(QControl { state_1v2, pwm1, pwm2 })
            },
            None => None,
        }
    }

    /// Reads a length-prefixed control payload, as a request carries it.
    pub fn deserialize(bytes: &[u8]) -> (r: Option<QControl>)
        ensures
            r is None <==> parse_message(bytes@, Shape::Ints) is None,
            r matches Some(m) ==> parse_message(bytes@, Shape::Ints) == Some(m.fields()),
    {
        match read_message(bytes, Shape::Ints) {
            Some((state_1v2, pwm1, pwm2, blob)) => {
                assert(blob@ =~= Seq::<u8>::empty());
                Some(QControl { state_1v2, pwm1, pwm2 })
            },
            None => None,
        }
    }

    /// The length of the encoded body.
    pub fn get_size(&self) -> (r: usize)
        ensures
            r == encode_fields(self.fields(), Shape::Ints).len(),
    {
        fields_size(self.state_1v2, self.pwm1, self.pwm2, 0, Shape::Ints)
    }

    /// Appends the encoded body.
    pub fn write_message(&self, out: &mut Vec<u8>)
        ensures
            final(out)@ == old(out)@ + encode_fields(self.fields(), Shape::Ints),
    {
        let none: Vec<u8> = Vec::new();
        write_fields(out, self.state_1v2, self.pwm1, self.pwm2, none.as_slice(), Shape::Ints);
        assert(encode_fields((self.state_1v2 as int, self.pwm1 as int, self.pwm2 as int, none@), Shape::Ints)
            == encode_fields(self.fields(), Shape::Ints));
    }

    /// The length-prefixed encoding.
    pub fn serialize(&self) -> (r: Vec<u8>)
        ensures
            r@ == frame(encode_fields(self.fields(), Shape::Ints)),
    {
        let none: Vec<u8> = Vec::new();
        let r = serialize_fields(self.state_1v2, self.pwm1, self.pwm2, none.as_slice(), Shape::Ints);
        assert(encode_fields((self.state_1v2 as int, self.pwm1 as int, self.pwm2 as int, none@), Shape::Ints)
            == encode_fields(self.fields(), Shape::Ints));
        r
    }
}

/// The payload of a status response: the power-good flag and the two
/// temperature readings.
#[derive(Debug, Clone, Copy, PartialEq, Eq, Structural)]
pub struct QState {
    pub pgood_1v2: i32,
    pub temp1: i32,
    pub temp2: i32,
}

impl QState {
    pub open spec fn fields(&self) -> Fields {
        (self.pgood_1v2 as int, self.temp1 as int, self.temp2 as int, Seq::empty())
    }

    /// Reads a status payload body: its fields, without a length prefix.
    pub fn decode(bytes: &[u8]) -> (r: Option<QState>)
        ensures
            r is None <==> parse_body(bytes@, Shape::Ints) is None,
            r matches Some(m) ==> parse_body(bytes@, Shape::Ints) == Some(m.fields()),
    {
        match read_fields(bytes, 0, bytes.len(), Shape::Ints) {
            Some((pgood_1v2, temp1, temp2, blob)) => {
                assert(blob@ =~= Seq::<u8>::empty());
                Some(QState { pgood_1v2, temp1, temp2 })
            },
            None => None,
        }
    }

    /// Reads a length-prefixed status payload, as a response carries it.
    pub fn deserialize(bytes: &[u8]) -> (r: Option<QState>)
        ensures
            r is None <==> parse_message(bytes@, Shape::Ints) is None,
            r matches Some(m) ==> parse_message(bytes@, Shape::Ints) == Some(m.fields()),
    {
        match read_message(bytes, Shape::Ints) {
            Some((pgood_1v2, temp1, temp2, blob)) => {
                assert(blob@ =~= Seq::<u8>::empty());
                Some(QState { pgood_1v2, temp1, temp2 })
            },
            None => None,
        }
    }

    /// The length of the encoded body.
    pub fn get_size(&self) -> (r: usize)
        ensures
            r == encode_fields(self.fields(), Shape::Ints).len(),
    {
        fields_size(self.pgood_1v2, self.temp1, self.temp2, 0, Shape::Ints)
    }

    /// Appends the encoded body.
    pub fn write_message(&self, out: &mut Vec<u8>)
        ensures
            final(out)@ == old(out)@ + encode_fields(self.fields(), Shape::Ints),
    {
        let none: Vec<u8> = Vec::new();
        write_fields(out, self.pgood_1v2, self.temp1, self.temp2, none.as_slice(), Shape::Ints);
        assert(encode_fields((self.pgood_1v2 as int, self.temp1 as int, self.temp2 as int, none@), Shape::Ints)
            == encode_fields(self.fields(), Shape::Ints));
    }

    /// The length-prefixed encoding, as a status response carries it.
    pub fn serialize(&self) -> (r: Vec<u8>)
        ensures
            r@ == frame(encode_fields(self.fields(), Shape::Ints)),
    {
        let none: Vec<u8> = Vec::new();
        let r = serialize_fields(self.pgood_1v2, self.temp1, self.temp2, none.as_slice(), Shape::Ints);
        assert(encode_fields((self.pgood_1v2 as int, self.temp1 as int, self.temp2 as int, none@), Shape::Ints)
            == encode_fields(self.fields(), Shape::Ints));
        r
    }
}

/// An integer field written at `x` is read back by the parser, which then goes on after it.
proof fn lemma_parse_int_field(s: Seq<u8>, x: int, e: int, shape: Shape, tag: nat, v: int, acc: Fields)
    requires
        tag == TAG_FIRST || tag == TAG_SECOND || (tag == TAG_THIRD_INT && shape == Shape::Ints),
        v != 0,
        -0x8000_0000 <= v < 0x8000_0000,
        0 <= x,
        x + int_field(tag, v).len() <= e <= s.len(),
        s.subrange(x, x + int_field(tag, v).len()) == int_field(tag, v),
    ensures
        ({
            let q = x + int_field(tag, v).len();
            &&& tag == TAG_FIRST ==> parse_fields(s, x, e, shape, acc) == parse_fields(s, q, e, shape, (v, acc.1, acc.2, acc.3))
            &&& tag == TAG_SECOND ==> parse_fields(s, x, e, shape, acc) == parse_fields(s, q, e, shape, (acc.0, v, acc.2, acc.3))
            &&& tag == TAG_THIRD_INT ==> parse_fields(s, x, e, shape, acc) == parse_fields(s, q, e, shape, (acc.0, acc.1, v, acc.3))
        }),
{
    let w = int32_wire(v);
    crate::wire::lemma_int32_round_trip(v);
    crate::wire::lemma_varint_len(tag);
    crate::wire::lemma_varint_len(w);
    let f = int_field(tag, v);
    assert(f == varint_bytes(tag) + varint_bytes(w));
    assert(s.subrange(x, x + 1) =~= f.subrange(0, 1));
    assert(f.subrange(0, 1) =~= varint_bytes(tag));
    crate::wire::lemma_varint_at_encoded(s, x, e, tag);
    let n = varint_bytes(w).len();
    assert(s.subrange(x + 1, x + 1 + n) =~= f.subrange(1, 1 + n as int));
    assert(f.subrange(1, 1 + n as int) =~= varint_bytes(w));
    crate::wire::lemma_varint_at_encoded(s, x + 1, e, w);
    assert((tag as int) % two_pow_32() == tag);
}

/// A byte-string field written at `x` is read back by the parser, which then goes on after it.
proof fn lemma_parse_blob_field(s: Seq<u8>, x: int, e: int, b: Seq<u8>, acc: Fields)
    requires
        0 < b.len() <= MAX_BLOB_LEN,
        0 <= x,
        x + blob_field(TAG_THIRD_BYTES as nat, b).len() <= e <= s.len(),
        s.subrange(x, x + blob_field(TAG_THIRD_BYTES as nat, b).len()) == blob_field(TAG_THIRD_BYTES as nat, b),
    ensures
        parse_fields(s, x, e, Shape::Blob, acc) == parse_fields(
            s,
            x + blob_field(TAG_THIRD_BYTES as nat, b).len(),
            e,
            Shape::Blob,
            (acc.0, acc.1, acc.2, b),
        ),
{
    let tag = TAG_THIRD_BYTES as nat;
    crate::wire::lemma_varint_len(tag);
    crate::wire::lemma_varint_len(b.len());
    let f = blob_field(tag, b);
    let n = varint_bytes(b.len()).len();
    assert(f == varint_bytes(tag) + varint_bytes(b.len()) + b);
    assert(s.subrange(x, x + 1) =~= f.subrange(0, 1));
    assert(f.subrange(0, 1) =~= varint_bytes(tag));
    crate::wire::lemma_varint_at_encoded(s, x, e, tag);
    assert(s.subrange(x + 1, x + 1 + n) =~= f.subrange(1, 1 + n as int));
    assert(f.subrange(1, 1 + n as int) =~= varint_bytes(b.len()));
    crate::wire::lemma_varint_at_encoded(s, x + 1, e, b.len());
    assert((b.len() as int) % two_pow_32() == b.len());
    assert(f.subrange(1 + n as int, f.len() as int) =~= b);
    assert(s.subrange(x + 1 + n, x + f.len()) =~= f.subrange(1 + n as int, f.len() as int));
    assert(s.subrange(x + 1 + n, x + 1 + n + b.len()) =~= b);
    assert((tag as int) % two_pow_32() == tag);
}

/// The parser reads back every field of an encoded body placed at `p`.
proof fn lemma_parse_encoded(s: Seq<u8>, p: int, f: Fields, shape: Shape)
    requires
        fields_fit(f, shape),
        0 <= p,
        p + encode_fields(f, shape).len() <= s.len(),
        s.subrange(p, p + encode_fields(f, shape).len()) == encode_fields(f, shape),
    ensures
        parse_fields(s, p, p + encode_fields(f, shape).len(), shape, no_fields()) == Some(f),
{
    let a = int_field(TAG_FIRST as nat, f.0);
    let b = int_field(TAG_SECOND as nat, f.1);
    let c = third_field(f, shape);
    let enc = encode_fields(f, shape);
    let e = p + enc.len();
    let pa = p + a.len();
    let pb = pa + b.len();
    assert(enc == a + b + c);
    assert(s.subrange(p, pa) =~= enc.subrange(0, a.len() as int));
    assert(enc.subrange(0, a.len() as int) =~= a);
    assert(s.subrange(pa, pb) =~= enc.subrange(a.len() as int, (a.len() + b.len()) as int));
    assert(enc.subrange(a.len() as int, (a.len() + b.len()) as int) =~= b);
    assert(s.subrange(pb, e) =~= enc.subrange((a.len() + b.len()) as int, enc.len() as int));
    assert(enc.subrange((a.len() + b.len()) as int, enc.len() as int) =~= c);
    let acc0 = no_fields();
    let acc1: Fields = (f.0, 0, 0, Seq::empty());
    let acc2: Fields = (f.0, f.1, 0, Seq::empty());
    if f.0 != 0 {
        lemma_parse_int_field(s, p, e, shape, TAG_FIRST as nat, f.0, acc0);
    } else {
        assert(acc1 == acc0);
    }
    if f.1 != 0 {
        lemma_parse_int_field(s, pa, e, shape, TAG_SECOND as nat, f.1, acc1);
    } else {
        assert(acc2 == acc1);
    }
    if shape == Shape::Ints {
        if f.2 != 0 {
            lemma_parse_int_field(s, pb, e, shape, TAG_THIRD_INT as nat, f.2, acc2);
        }
        assert(f.3 =~= Seq::<u8>::empty());
    } else {
        if f.3.len() != 0 {
            lemma_parse_blob_field(s, pb, e, f.3, acc2);
        } else {
            assert(f.3 =~= Seq::<u8>::empty());
        }
    }
}

/// Decoding an encoded body, with or without its length prefix, gives back
/// the fields it was made from.
pub proof fn lemma_fields_round_trip(f: Fields, shape: Shape)
    requires
        fields_fit(f, shape),
    ensures
        parse_body(encode_fields(f, shape), shape) == Some(f),
        parse_message(frame(encode_fields(f, shape)), shape) == Some(f),
{
    let enc = encode_fields(f, shape);
    assert(enc.subrange(0, enc.len() as int) =~= enc);
    lemma_parse_encoded(enc, 0, f, shape);
    let s = frame(enc);
    let n = varint_bytes(enc.len()).len();
    crate::wire::lemma_varint_len(TAG_FIRST as nat);
    crate::wire::lemma_varint_len(TAG_SECOND as nat);
    crate::wire::lemma_varint_len(TAG_THIRD_INT as nat);
    crate::wire::lemma_varint_len(TAG_THIRD_BYTES as nat);
    crate::wire::lemma_varint_len(int32_wire(f.0));
    crate::wire::lemma_varint_len(int32_wire(f.1));
    crate::wire::lemma_varint_len(int32_wire(f.2));
    crate::wire::lemma_int32_round_trip(f.0);
    crate::wire::lemma_int32_round_trip(f.1);
    crate::wire::lemma_int32_round_trip(f.2);
    crate::wire::lemma_varint_len(f.3.len());
    assert(enc.len() <= 33 + MAX_BLOB_LEN);
    crate::wire::lemma_varint_len(enc.len());
    assert(s.subrange(0, n as int) =~= varint_bytes(enc.len()));
    crate::wire::lemma_varint_at_encoded(s, 0, s.len() as int, enc.len());
    assert((enc.len() as int) % two_pow_32() == enc.len());
    assert(s.subrange(n as int, (n + enc.len()) as int) =~= enc);
    lemma_parse_encoded(s, n as int, f, shape);
}

/// A control payload read back from its encoding is the payload that was encoded.
pub proof fn control_round_trip(c: QControl)
    ensures
        parse_message(frame(encode_fields(c.fields(), Shape::Ints)), Shape::Ints) == Some(c.fields()),
        parse_body(encode_fields(c.fields(), Shape::Ints), Shape::Ints) == Some(c.fields()),
        forall|m: QControl| m.fields() == c.fields() ==> m == c,
{
    lemma_fields_round_trip(c.fields(), Shape::Ints);
}

/// A control payload whose fields are all zero encodes to no field bytes at all.
pub proof fn empty_control_encodes_to_nothing(c: QControl)
    requires
        c.state_1v2 == 0,
        c.pwm1 == 0,
        c.pwm2 == 0,
    ensures
        encode_fields(c.fields(), Shape::Ints).len() == 0,
{
    assert(encode_fields(c.fields(), Shape::Ints) =~= Seq::<u8>::empty());
}

/// A request read back from its encoding is the request that was encoded.
pub proof fn request_round_trip(q: QRequest)
    requires
        q.data@.len() <= MAX_BLOB_LEN,
    ensures
        parse_message(frame(encode_fields(q.fields(), Shape::Blob)), Shape::Blob) == Some(q.fields()),
{
    lemma_fields_round_trip(q.fields(), Shape::Blob);
}

} // verus!
