//! The tagged-field writer, the schema-agnostic scanner and the framed,
//! gzip-compressed transport.

use bytes::BufMut;
use crate::text::texts_of;
use crate::varint::{
    bit_length, decoded_value, encode_varint, lemma_encoded_len, lemma_encoded_shape,
    lemma_scale_mod, lemma_step_mod, lemma_varint_len_bound, lemma_varint_round_trip,
    lemma_varint_value_push, pow128, two_64, varint_len, varint_value,
};
use flate2::Compression;
use flate2::read::GzDecoder;
use flate2::write::GzEncoder;
use std::io::Read;
use std::io::Write;
use vstd::prelude::*;
use vstd::slice::{slice_subrange, slice_to_vec};
use vstd::utf8::{decode_utf8, encode_utf8, valid_utf8};

verus! {

/// `bytes::BytesMut`, a growable byte buffer. Its inside is not visible here:
/// what the library knows of a buffer is `buffer_contents`.
#[verifier::external_type_specification]
#[verifier::external_body]
pub struct ExBytesMut(bytes::BytesMut);

/// The bytes that a buffer holds, in the order in which they were written.
pub uninterp spec fn buffer_contents(buf: bytes::BytesMut) -> Seq<u8>;

/// `BytesMut::new`: the new buffer holds no byte.
#[verifier::external_body]
fn buffer_new() -> (buf: bytes::BytesMut)
    ensures
        buffer_contents(buf) == Seq::<u8>::empty(),
{
    bytes::BytesMut::new()
}

/// `BufMut::put_u8` on a `BytesMut`: the byte is appended; the buffer grows
/// as needed.
#[verifier::external_body]
fn buffer_put_u8(buf: &mut bytes::BytesMut, byte: u8)
    ensures
        buffer_contents(*final(buf)) == buffer_contents(*old(buf)).push(byte),
{
    buf.put_u8(byte)
}

/// `BytesMut::extend_from_slice`: the bytes of the slice are appended in
/// order.
#[verifier::external_body]
fn buffer_extend(buf: &mut bytes::BytesMut, data: &[u8])
    ensures
        buffer_contents(*final(buf)) == buffer_contents(*old(buf)) + data@,
{
    buf.extend_from_slice(data)
}

/// `Deref` of `BytesMut`: the slice shows exactly the bytes held.
#[verifier::external_body]
fn buffer_slice(buf: &bytes::BytesMut) -> (s: &[u8])
    ensures
        s@ == buffer_contents(*buf),
{
    buf
}

/// The wire tag of a field: the field number shifted left by three bits, or'ed
/// with the wire type, both taken as 32-bit values.
pub open spec fn tag_value(field: u32, wire: u32) -> nat {
    ((field << 3) | wire) as nat
}

/// The bytes of a varint field: tag with wire type 0, then the value.
pub open spec fn varint_field(field: u32, value: u64) -> Seq<u8> {
    encode_varint(tag_value(field, 0)) + encode_varint(value as nat)
}

/// The bytes of a length-delimited field: tag with wire type 2, the length of
/// the payload as a varint, then the payload.
pub open spec fn bytes_field(field: u32, payload: Seq<u8>) -> Seq<u8> {
    encode_varint(tag_value(field, 2)) + encode_varint(payload.len()) + payload
}

/// An append-only buffer of tagged fields.
pub struct ProtobufEncoder {
    buf: bytes::BytesMut,
}

impl View for ProtobufEncoder {
    type V = Seq<u8>;

    closed spec fn view(&self) -> Seq<u8> {
        buffer_contents(self.buf)
    }
}

impl ProtobufEncoder {
    /// An encoder that holds no field yet.
    pub fn new() -> (e: Self)
        ensures
            e@ == Seq::<u8>::empty(),
    {
        ProtobufEncoder { buf: buffer_new() }
    }

    /// Appends `value` as a varint: one byte for every seven binary digits
    /// of the value, rounded up, and one byte for 0; the continuation bit set
    /// on every byte but the last; and a last byte that is zero only for 0.
    fn write_varint_raw(buf: &mut bytes::BytesMut, value: u64)
        ensures
            buffer_contents(*final(buf)) == buffer_contents(*old(buf)) + encode_varint(
                value as nat,
            ),
            buffer_contents(*final(buf)).len() == buffer_contents(*old(buf)).len() + (if value
                == 0 {
                1
            } else {
                (bit_length(value as nat) + 6) / 7
            }),
            forall|i: int|
                buffer_contents(*old(buf)).len() <= i < buffer_contents(*final(buf)).len() - 1
                    ==> #[trigger] buffer_contents(*final(buf))[i] >= 128,
            buffer_contents(*final(buf)).last() < 128,
            value >= 1 ==> buffer_contents(*final(buf)).last() != 0,
    {
        proof {
            lemma_encoded_len(value as nat);
            lemma_encoded_shape(value as nat);
            let before = buffer_contents(*old(buf));
            let added = encode_varint(value as nat);
            assert forall|i: int| before.len() <= i < (before + added).len() - 1 implies #[trigger] (
            before + added)[i] >= 128 by {
                assert((before + added)[i] == added[i - before.len()]);
            }
            assert((before + added).last() == added.last());
        }
        let mut rest: u64 = value;
        while rest > 0x7f
            invariant
                buffer_contents(*buf) + encode_varint(rest as nat) == buffer_contents(*old(buf))
                    + encode_varint(value as nat),
            decreases rest,
        {
            let ghost before = buffer_contents(*buf);
            let byte: u8 = ((rest % 128) as u8) + 128;
            buffer_put_u8(buf, byte);
            proof {
                assert(before.push(byte) + encode_varint((rest / 128) as nat) =~= before
                    + encode_varint(rest as nat));
            }
            rest = rest / 128;
        }
        let ghost before = buffer_contents(*buf);
        buffer_put_u8(buf, rest as u8);
        proof {
            assert(before.push(rest as u8) =~= before + encode_varint(rest as nat));
        }
    }

    /// Appends the tag of `field` with wire type `wire`.
    fn write_tag(&mut self, field: u32, wire: u32)
        ensures
            final(self)@ == old(self)@ + encode_varint(tag_value(field, wire)),
    {
        Self::write_varint_raw(&mut self.buf, ((field << 3) | wire) as u64);
    }

    /// Appends a varint field: the tag, then the value in one byte for every
    /// seven of its binary digits, rounded up, the last of these bytes without
    /// the continuation bit and zero only for the value 0.
    pub fn write_varint(&mut self, field: u32, value: u64) -> (ret: &mut Self)
        ensures
            ret@ == old(self)@ + varint_field(field, value),
            ret@.len() == old(self)@.len() + encode_varint(tag_value(field, 0)).len() + (if value
                == 0 {
                1
            } else {
                (bit_length(value as nat) + 6) / 7
            }),
            ret@.last() < 128,
            value >= 1 ==> ret@.last() != 0,
            *final(self) == *final(ret),
    {
        self.write_tag(field, 0);
        Self::write_varint_raw(&mut self.buf, value);
        proof {
            assert(self@ =~= old(self)@ + varint_field(field, value));
        }
        self
    }

    /// Appends a string field: the UTF-8 bytes of `value`, length-delimited.
    pub fn write_string(&mut self, field: u32, value: &str) -> (ret: &mut Self)
        ensures
            ret@ == old(self)@ + bytes_field(field, encode_utf8(value@)),
            *final(self) == *final(ret),
    {
        self.write_bytes(field, value.as_bytes())
    }

    /// Appends a bytes field, length-delimited.
    pub fn write_bytes(&mut self, field: u32, value: &[u8]) -> (ret: &mut Self)
        ensures
            ret@ == old(self)@ + bytes_field(field, value@),
            *final(self) == *final(ret),
    {
        self.write_tag(field, 2);
        Self::write_varint_raw(&mut self.buf, value.len() as u64);
        buffer_extend(&mut self.buf, value);
        proof {
            assert(self@ =~= old(self)@ + bytes_field(field, value@));
        }
        self
    }

    /// Appends an embedded message: the bytes of `sub`, length-delimited. The
    /// sub-buffer is complete when it is embedded, so its length is known.
    pub fn write_message(&mut self, field: u32, sub: &ProtobufEncoder) -> (ret: &mut Self)
        ensures
            ret@ == old(self)@ + bytes_field(field, sub@),
            *final(self) == *final(ret),
    {
        self.write_bytes(field, sub.as_bytes())
    }

    /// The bytes written so far.
    pub fn as_bytes(&self) -> (s: &[u8])
        ensures
            s@ == self@,
    {
        buffer_slice(&self.buf)
    }

    /// A copy of the bytes written so far.
    pub fn to_vec(&self) -> (v: Vec<u8>)
        ensures
            v@ == self@,
    {
        slice_to_vec(self.as_bytes())
    }
}

/// Reads one varint from `data` at `offset`. Returns its value, reduced to 64
/// bits, and the offset behind it. At or past the end nothing is read.
pub fn decode_varint(data: &[u8], offset: usize) -> (r: (u64, usize))
    ensures
        r.0 as nat == decoded_value(data@, offset as int),
        r.1 == offset + varint_len(data@, offset as int),
{
    let mut value: u64 = 0;
    let mut scale: u64 = 1;
    let mut pos: usize = offset;
    let mut open: bool = true;
    proof {
        if offset < data@.len() {
            assert(data@.subrange(offset as int, offset as int) =~= Seq::<u8>::empty());
            lemma_varint_len_bound(data@, offset as int);
        }
    }
    while open && pos < data.len()
        invariant
            offset <= pos,
            offset < data@.len() ==> pos <= data@.len(),
            offset >= data@.len() ==> pos == offset && value == 0,
            offset < data@.len() ==> value as nat == varint_value(
                data@.subrange(offset as int, pos as int),
            ) % two_64(),
            offset < data@.len() ==> scale as nat == pow128((pos - offset) as nat) % two_64(),
            offset < data@.len() && open ==> pos - offset + varint_len(data@, pos as int)
                == varint_len(data@, offset as int),
            offset < data@.len() && !open ==> pos - offset == varint_len(data@, offset as int),
        decreases (if open { 1int } else { 0int }) + data@.len() - pos,
    {
        let b: u8 = data[pos];
        let low: u64 = (b % 128) as u64;
        let ghost before = data@.subrange(offset as int, pos as int);
        proof {
            assert(data@.subrange(offset as int, pos + 1) =~= before.push(b));
            lemma_varint_value_push(before, b);
            lemma_step_mod(varint_value(before), low as nat, pow128(before.len()));
            lemma_scale_mod(pow128(before.len()));
        }
        value = value.wrapping_add(low.wrapping_mul(scale));
        scale = scale.wrapping_mul(128);
        pos = pos + 1;
        if b < 128 {
            open = false;
        }
    }
    (value, pos)
}

/// `String::from_utf8`: the bytes are accepted exactly when they are valid
/// UTF-8, and the text then holds the characters that they encode.
#[verifier::external_body]
pub(crate) fn text_from_utf8(bytes: &[u8]) -> (r: Option<String>)
    ensures
        r is Some <==> valid_utf8(bytes@),
        r matches Some(s) ==> s@ == decode_utf8(bytes@),
{
    String::from_utf8(bytes.to_vec()).ok()
}

/// What one length-delimited segment gives the scanner: its text, if it is
/// valid UTF-8 of more than five bytes, else nothing.
pub open spec fn segment_text(segment: Seq<u8>) -> Seq<Seq<char>> {
    if segment.len() > 5 && valid_utf8(segment) {
        seq![decode_utf8(segment)]
    } else {
        Seq::empty()
    }
}

/// The texts that a scan of `data` from offset `i` collects. The scan walks
/// tag by tag: a varint field and the two fixed-width fields are passed over, a
/// length-delimited field that lies within the data is looked at as a segment.
/// It ends, without failing, at the end of the data, at an unknown wire type,
/// or at a segment that would reach past the end.
pub open spec fn scanned_strings(data: Seq<u8>, i: int) -> Seq<Seq<char>>
    decreases
        (if i < data.len() {
            data.len() - i
        } else {
            0
        }),
{
    if i < 0 || i >= data.len() {
        Seq::empty()
    } else {
        let body = i + varint_len(data, i);
        let wire = decoded_value(data, i) % 8;
        proof {
            lemma_varint_len_bound(data, i);
        }
        if wire == 0 {
            scanned_strings(data, body + varint_len(data, body))
        } else if wire == 1 {
            scanned_strings(data, body + 8)
        } else if wire == 5 {
            scanned_strings(data, body + 4)
        } else if wire == 2 {
            let start = body + varint_len(data, body);
            let end = start + decoded_value(data, body);
            if end <= data.len() {
                segment_text(data.subrange(start, end)) + scanned_strings(data, end)
            } else {
                Seq::empty()
            }
        } else {
            Seq::empty()
        }
    }
}

/// Collects, from data whose schema is unknown, every length-delimited
/// segment that is valid UTF-8 and longer than five bytes.
pub fn extract_strings(data: &[u8]) -> (strings: Vec<String>)
    ensures
        texts_of(strings@) == scanned_strings(data@, 0),
{
    let mut strings: Vec<String> = Vec::new();
    let mut i: usize = 0;
    let mut done: bool = false;
    proof {
        assert(texts_of(strings@) =~= Seq::<Seq<char>>::empty());
    }
    while !done && i < data.len()
        invariant
            i <= data@.len() || done,
            !done ==> texts_of(strings@) + scanned_strings(data@, i as int) == scanned_strings(
                data@,
                0,
            ),
            done ==> texts_of(strings@) == scanned_strings(data@, 0),
        decreases (if done { 0int } else { 1int }) + data@.len() - i,
    {
        let ghost at = i as int;
        let ghost found = texts_of(strings@);
        proof {
            lemma_varint_len_bound(data@, at);
        }
        let (tag, body) = decode_varint(data, i);
        proof {
            lemma_varint_len_bound(data@, body as int);
        }
        let wire: u64 = tag % 8;
        if wire == 0 {
            let (_, next) = decode_varint(data, body);
            i = next;
        } else if wire == 1 || wire == 5 {
            let width: usize = if wire == 1 { 8 } else { 4 };
            if data.len() - body < width {
                done = true;
                proof {
                    assert(scanned_strings(data@, body + width) =~= Seq::<Seq<char>>::empty());
                    assert(found + Seq::<Seq<char>>::empty() =~= found);
                }
            } else {
                i = body + width;
            }
        } else if wire == 2 {
            let (length, start) = decode_varint(data, body);
            if length > (data.len() - start) as u64 {
                done = true;
                proof {
                    assert(found + Seq::<Seq<char>>::empty() =~= found);
                }
            } else {
                let end: usize = start + length as usize;
                let segment = slice_subrange(data, start, end);
                let ghost seen = segment_text(segment@);
                if length > 5 {
                    match text_from_utf8(segment) {
                        Some(text) => {
                            strings.push(text);
                            proof {
                                assert(texts_of(strings@) =~= found + seen);
                            }
                        },
                        None => {
                            proof {
                                assert(found + seen =~= found);
                            }
                        },
                    }
                } else {
                    proof {
                        assert(found + seen =~= found);
                    }
                }
                proof {
                    assert((found + seen) + scanned_strings(data@, end as int) =~= found + (seen
                        + scanned_strings(data@, end as int)));
                }
                i = end;
            }
        } else {
            done = true;
            proof {
                assert(found + Seq::<Seq<char>>::empty() =~= found);
            }
        }
    }
    proof {
        if !done {
            assert(texts_of(strings@) + Seq::<Seq<char>>::empty() =~= texts_of(strings@));
        }
    }
    strings
}

/// What the encoder writes, the scanner finds: a string field whose text
/// takes more than five bytes is scanned as exactly that text, whatever the
/// number of the field.
pub proof fn lemma_scan_finds_string(field: u32, text: Seq<char>)
    requires
        5 < encode_utf8(text).len() <= u64::MAX,
    ensures
        scanned_strings(bytes_field(field, encode_utf8(text)), 0) == seq![text],
{
    let payload = encode_utf8(text);
    let tag = ((field << 3) | 2u32) as u64;
    let head = encode_varint(tag as nat);
    let len = encode_varint(payload.len());
    let data = bytes_field(field, payload);
    assert(tag % 8 == 2) by (bit_vector)
        requires
            tag == ((field << 3) | 2u32) as u64,
    ;
    assert(data =~= Seq::<u8>::empty() + head + (len + payload));
    lemma_varint_round_trip(Seq::empty(), tag, len + payload);
    assert(data =~= head + len + payload);
    lemma_varint_round_trip(head, payload.len() as u64, payload);
    let start = head.len() + len.len();
    let end = start + payload.len();
    assert(end == data.len());
    assert(data.subrange(start as int, end as int) =~= payload);
    vstd::utf8::encode_utf8_valid_utf8(text);
    vstd::utf8::encode_utf8_decode_utf8(text);
    assert(scanned_strings(data, end as int) =~= Seq::<Seq<char>>::empty());
    assert(segment_text(payload) =~= seq![text]);
    assert(seq![text] + Seq::<Seq<char>>::empty() =~= seq![text]);
}

/// The gzip stream that the encoder makes of `data`, at the default
/// compression level.
pub uninterp spec fn gzip_bytes(data: Seq<u8>) -> Seq<u8>;

/// What the gzip decoder reads out of `data`: the content of its first member,
/// or nothing where `data` is no well-formed gzip stream.
pub uninterp spec fn gunzip_bytes(data: Seq<u8>) -> Option<Seq<u8>>;

/// `flate2::write::GzEncoder` at `Compression::default()`, written to once
/// and finished: the result is the gzip stream of `data`, and the gzip decoder
/// reads `data` back out of it.
#[verifier::external_body]
pub fn gzip_compress(data: &[u8]) -> (packed: Vec<u8>)
    ensures
        packed@ == gzip_bytes(data@),
        gunzip_bytes(packed@) == Some(data@),
{
    let mut encoder = GzEncoder::new(Vec::new(), Compression::default());
    encoder.write_all(data).unwrap();
    encoder.finish().unwrap()
}

/// `flate2::read::GzDecoder`, read to its end: the content of the stream, or
/// `None` where the decoder reports an error.
#[verifier::external_body]
fn gzip_expand(data: &[u8]) -> (r: Option<Vec<u8>>)
    ensures
        r matches Some(content) ==> gunzip_bytes(data@) == Some(content@),
        r is None ==> gunzip_bytes(data@) is None,
{
    let mut decoder = GzDecoder::new(data);
    let mut content = Vec::new();
    match decoder.read_to_end(&mut content) {
        Ok(_) => Some(content),
        Err(_) => None,
    }
}

/// The four bytes of `n`, most significant first; `n` is taken modulo two to
/// the thirty-second.
pub open spec fn be32_bytes(n: nat) -> Seq<u8> {
    seq![
        ((n / 0x100_0000) % 256) as u8,
        ((n / 0x1_0000) % 256) as u8,
        ((n / 0x100) % 256) as u8,
        (n % 256) as u8,
    ]
}

/// The number that four bytes stand for, most significant first.
pub open spec fn be32_value(b0: u8, b1: u8, b2: u8, b3: u8) -> nat {
    (b0 as nat) * 0x100_0000 + (b1 as nat) * 0x1_0000 + (b2 as nat) * 0x100 + (b3 as nat)
}

/// One frame: the flag byte, the length of the payload in four bytes, the
/// payload.
pub open spec fn frame_bytes(flags: u8, payload: Seq<u8>) -> Seq<u8> {
    seq![flags] + be32_bytes(payload.len()) + payload
}

/// Whether bit 0 of the flag byte, which marks a gzip payload, is set.
pub open spec fn is_packed(flags: u8) -> bool {
    flags % 2 == 1
}

/// The content of a frame: a payload marked as gzip is expanded, and stands as
/// it is where it does not expand; any other payload stands as it is.
pub open spec fn frame_content(flags: u8, payload: Seq<u8>) -> Seq<u8> {
    if is_packed(flags) {
        match gunzip_bytes(payload) {
            Some(content) => content,
            None => payload,
        }
    } else {
        payload
    }
}

/// The length that the header at the start of `data` declares.
pub open spec fn declared_len(data: Seq<u8>) -> nat
    recommends
        data.len() >= 5,
{
    be32_value(data[1], data[2], data[3], data[4])
}

/// Whether `data` starts with a frame that is wholly present.
pub open spec fn has_frame(data: Seq<u8>) -> bool {
    data.len() >= 5 && 5 + declared_len(data) <= data.len()
}

/// The contents of the frames of `data`, in order. Reading ends at the end of
/// the data or at the first frame that is not wholly present, which is dropped.
pub open spec fn decoded_frames(data: Seq<u8>) -> Seq<Seq<u8>>
    decreases data.len(),
{
    if has_frame(data) {
        let end = 5 + declared_len(data);
        seq![frame_content(data[0], data.subrange(5, end as int))] + decoded_frames(
            data.skip(end as int),
        )
    } else {
        Seq::empty()
    }
}

/// The bytes of each item of a list.
pub open spec fn byte_lists(list: Seq<Vec<u8>>) -> Seq<Seq<u8>> {
    list.map_values(|v: Vec<u8>| v@)
}

/// Wraps a payload that is already compressed into one frame with the gzip
/// flag. The length field holds the length modulo two to the thirty-second.
pub fn frame_packed(packed: &[u8]) -> (frame: Vec<u8>)
    ensures
        frame@ == frame_bytes(1, packed@),
{
    let len: u64 = packed.len() as u64;
    let mut frame: Vec<u8> = Vec::with_capacity(5);
    frame.push(1);
    frame.push(((len / 0x100_0000) % 256) as u8);
    frame.push(((len / 0x1_0000) % 256) as u8);
    frame.push(((len / 0x100) % 256) as u8);
    frame.push((len % 256) as u8);
    frame.extend_from_slice(packed);
    proof {
        assert(frame@ =~= frame_bytes(1, packed@));
    }
    frame
}

/// Encodes one message as one frame: the payload is gzip-compressed, the
/// gzip flag is set and the length is put in front. The payload expands to
/// the message again; where it is shorter than two to the thirty-second
/// bytes, decoding the frame gives the message back.
pub fn connect_frame_encode(proto_bytes: &[u8]) -> (frame: Vec<u8>)
    ensures
        frame@ == frame_bytes(1, gzip_bytes(proto_bytes@)),
        gunzip_bytes(gzip_bytes(proto_bytes@)) == Some(proto_bytes@),
        gzip_bytes(proto_bytes@).len() < 0x1_0000_0000 ==> decoded_frames(frame@) == seq![
            proto_bytes@,
        ],
{
    let packed = gzip_compress(proto_bytes);
    proof {
        if packed@.len() < 0x1_0000_0000 {
            lemma_frame_round_trip(proto_bytes@, packed@);
        }
    }
    frame_packed(packed.as_slice())
}

/// Splits a message body into its frames and gives the content of each.
/// A frame whose declared length reaches past the end ends the reading and is
/// dropped; a gzip payload that does not expand is given as it is.
pub fn connect_frame_decode(data: &[u8]) -> (frames: Vec<Vec<u8>>)
    ensures
        byte_lists(frames@) == decoded_frames(data@),
{
    let mut frames: Vec<Vec<u8>> = Vec::new();
    let mut i: usize = 0;
    let mut done: bool = false;
    proof {
        assert(byte_lists(frames@) =~= Seq::<Seq<u8>>::empty());
        assert(data@.skip(0) =~= data@);
    }
    while !done && data.len() - i >= 5
        invariant
            i <= data@.len(),
            !done ==> byte_lists(frames@) + decoded_frames(data@.skip(i as int))
                == decoded_frames(data@),
            done ==> byte_lists(frames@) == decoded_frames(data@),
        decreases (if done { 0int } else { 1int }) + data@.len() - i,
    {
        let ghost rest = data@.skip(i as int);
        let ghost found = byte_lists(frames@);
        let flags: u8 = data[i];
        let length: u64 = (data[i + 1] as u64) * 0x100_0000 + (data[i + 2] as u64) * 0x1_0000 + (
        data[i + 3] as u64) * 0x100 + (data[i + 4] as u64);
        let start: usize = i + 5;
        assert(length == declared_len(rest));
        if length > (data.len() - start) as u64 {
            done = true;
            proof {
                assert(found + Seq::<Seq<u8>>::empty() =~= found);
            }
        } else {
            let end: usize = start + length as usize;
            let payload = slice_subrange(data, start, end);
            proof {
                assert(payload@ =~= rest.subrange(5, 5 + length as int));
                assert(rest.skip(5 + length as int) =~= data@.skip(end as int));
            }
            let content: Vec<u8> = if flags % 2 == 1 {
                match gzip_expand(payload) {
                    Some(content) => content,
                    None => slice_to_vec(payload),
                }
            } else {
                slice_to_vec(payload)
            };
            let ghost one = seq![content@];
            frames.push(content);
            proof {
                assert(byte_lists(frames@) =~= found + one);
                assert((found + one) + decoded_frames(data@.skip(end as int)) =~= found + (one
                    + decoded_frames(data@.skip(end as int))));
            }
            i = end;
        }
    }
    proof {
        if !done {
            assert(byte_lists(frames@) + Seq::<Seq<u8>>::empty() =~= byte_lists(frames@));
        }
    }
    frames
}

/// The length field of a frame reads back as the length it was written from.
pub proof fn lemma_be32_round_trip(n: nat)
    requires
        n < 0x1_0000_0000,
    ensures
        be32_value(be32_bytes(n)[0], be32_bytes(n)[1], be32_bytes(n)[2], be32_bytes(n)[3]) == n,
{
}

/// A frame around any payload that expands to `message` decodes to exactly
/// that message.
pub proof fn lemma_frame_round_trip(message: Seq<u8>, packed: Seq<u8>)
    requires
        gunzip_bytes(packed) == Some(message),
        packed.len() < 0x1_0000_0000,
    ensures
        decoded_frames(frame_bytes(1, packed)) == seq![message],
{
    let frame = frame_bytes(1, packed);
    lemma_be32_round_trip(packed.len());
    assert(declared_len(frame) == packed.len());
    assert(frame.subrange(5, 5 + packed.len() as int) =~= packed);
    assert(frame.skip(5 + packed.len() as int) =~= Seq::<u8>::empty());
    assert(decoded_frames(frame.skip(5 + packed.len() as int)) =~= Seq::<Seq<u8>>::empty());
    assert(decoded_frames(frame) =~= seq![message]);
}

/// Whether `data` is made of whole frames and nothing else.
pub open spec fn whole_frames(data: Seq<u8>) -> bool
    decreases data.len(),
{
    data.len() == 0 || (has_frame(data) && whole_frames(data.skip(5 + declared_len(data) as int)))
}

/// Bytes that follow whole frames do not change what those frames decode to:
/// the frames come first, then whatever the rest decodes to.
pub proof fn lemma_frames_then_rest(whole: Seq<u8>, rest: Seq<u8>)
    requires
        whole_frames(whole),
    ensures
        decoded_frames(whole + rest) == decoded_frames(whole) + decoded_frames(rest),
    decreases whole.len(),
{
    if whole.len() == 0 {
        assert(whole + rest =~= rest);
        assert(decoded_frames(whole) =~= Seq::<Seq<u8>>::empty());
        assert(decoded_frames(whole) + decoded_frames(rest) =~= decoded_frames(rest));
    } else {
        let end = 5 + declared_len(whole);
        let all = whole + rest;
        assert(declared_len(all) == declared_len(whole));
        assert(all.subrange(5, end as int) =~= whole.subrange(5, end as int));
        assert(all.skip(end as int) =~= whole.skip(end as int) + rest);
        lemma_frames_then_rest(whole.skip(end as int), rest);
        let first = seq![frame_content(whole[0], whole.subrange(5, end as int))];
        assert(first + (decoded_frames(whole.skip(end as int)) + decoded_frames(rest)) =~= (first
            + decoded_frames(whole.skip(end as int))) + decoded_frames(rest));
    }
}

/// A stream cut inside a frame decodes to the frames that are wholly present
/// before the cut, and to no more: the part of the cut frame is dropped.
pub proof fn lemma_cut_frame_dropped(whole: Seq<u8>, next: Seq<u8>, cut: int)
    requires
        whole_frames(whole),
        has_frame(next),
        0 <= cut < 5 + declared_len(next),
    ensures
        decoded_frames(whole + next.subrange(0, cut)) == decoded_frames(whole),
{
    let part = next.subrange(0, cut);
    lemma_frames_then_rest(whole, part);
    if part.len() >= 5 {
        assert(declared_len(part) == declared_len(next));
    }
    assert(!has_frame(part));
    assert(decoded_frames(whole) + decoded_frames(part) =~= decoded_frames(whole));
}

} // verus!
