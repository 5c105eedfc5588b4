//! Protocol Buffers field encodings, as the host's ABI messages use them.
//!
//! Each field is written by `prost`'s field encoder; the spec functions here say
//! which bytes each one appends: a key (the tag and wire type as a varint),
//! then either a varint or a length and the bytes it counts.

use vstd::prelude::*;
use vstd::utf8::{encode_scalar, encode_utf8};

use crate::allocator::{frame, SharedMem};

verus! {

/// The largest field tag that Protocol Buffers allows.
pub const MAX_TAG: u32 = 536870911;

/// The two wire types that the ABI's request messages use.
#[derive(Clone, Copy, PartialEq, Eq)]
pub enum WireKind {
    Varint,
    LengthDelimited,
}

/// The number that stands for a wire type in a key.
pub open spec fn wire_number(wire: WireKind) -> nat {
    match wire {
        WireKind::Varint => 0,
        WireKind::LengthDelimited => 2,
    }
}

/// LEB128: seven bits per byte, least significant first, the high bit set on
/// every byte but the last.
pub open spec fn varint(v: u64) -> Seq<u8>
    decreases v,
{
    if v < 128 {
        seq![v as u8]
    } else {
        seq![(v % 128 + 128) as u8] + varint(v / 128)
    }
}

/// A field's key: its tag and wire type, as one varint.
pub open spec fn key(tag: u32, wire: WireKind) -> Seq<u8> {
    varint((tag * 8 + wire_number(wire)) as u64)
}

/// A varint field.
pub open spec fn varint_field(tag: u32, v: u64) -> Seq<u8> {
    key(tag, WireKind::Varint) + varint(v)
}

/// A length-delimited field: key, length of `body`, then `body`.
pub open spec fn delimited_field(tag: u32, body: Seq<u8>) -> Seq<u8> {
    key(tag, WireKind::LengthDelimited) + varint(body.len() as u64) + body
}

/// A scalar field as a message writes it: left out when it holds zero.
pub open spec fn scalar_field(tag: u32, v: u64) -> Seq<u8> {
    if v == 0 {
        Seq::empty()
    } else {
        varint_field(tag, v)
    }
}

/// A bytes or string field as a message writes it: left out when empty.
pub open spec fn bytes_field(tag: u32, body: Seq<u8>) -> Seq<u8> {
    if body.len() == 0 {
        Seq::empty()
    } else {
        delimited_field(tag, body)
    }
}

/// An optional embedded message: left out when absent, written even when empty.
pub open spec fn message_field(tag: u32, body: Option<Seq<u8>>) -> Seq<u8> {
    match body {
        Some(b) => delimited_field(tag, b),
        None => Seq::empty(),
    }
}

/// `prost::encoding::encode_varint`: appends `value` in LEB128.
#[verifier::external_body]
pub(crate) fn encode_varint(value: u64, buf: &mut Vec<u8>)
    ensures
        final(buf)@ == old(buf)@ + varint(value),
{
    prost::encoding::encode_varint(value, buf);
}

/// `prost::encoding::encode_key`: appends the key of field `tag` with the given
/// wire type, `(tag << 3) | wire_type` as a varint. `prost` asserts in debug
/// builds that the tag is in range.
#[verifier::external_body]
pub(crate) fn encode_key(tag: u32, wire: WireKind, buf: &mut Vec<u8>)
    requires
        1 <= tag <= MAX_TAG,
    ensures
        final(buf)@ == old(buf)@ + key(tag, wire),
{
    let wire_type = match wire {
        WireKind::Varint => prost::encoding::WireType::Varint,
        WireKind::LengthDelimited => prost::encoding::WireType::LengthDelimited,
    };
    prost::encoding::encode_key(tag, wire_type, buf);
}

/// `prost::encoding::uint64::encode`: appends the key, then `value` as a varint.
#[verifier::external_body]
pub(crate) fn encode_uint64(tag: u32, value: &u64, buf: &mut Vec<u8>)
    requires
        1 <= tag <= MAX_TAG,
    ensures
        final(buf)@ == old(buf)@ + varint_field(tag, *value),
{
    prost::encoding::uint64::encode(tag, value, buf);
}

/// `prost::encoding::uint32::encode`: appends the key, then `value` widened to
/// `u64` as a varint.
#[verifier::external_body]
pub(crate) fn encode_uint32(tag: u32, value: &u32, buf: &mut Vec<u8>)
    requires
        1 <= tag <= MAX_TAG,
    ensures
        final(buf)@ == old(buf)@ + varint_field(tag, *value as u64),
{
    prost::encoding::uint32::encode(tag, value, buf);
}

/// `prost::encoding::int32::encode`: appends the key, then `value` sign-extended
/// to `u64` as a varint (so a negative value takes ten bytes).
#[verifier::external_body]
pub(crate) fn encode_int32(tag: u32, value: &i32, buf: &mut Vec<u8>)
    requires
        1 <= tag <= MAX_TAG,
    ensures
        final(buf)@ == old(buf)@ + varint_field(tag, *value as u64),
{
    prost::encoding::int32::encode(tag, value, buf);
}

/// `prost::encoding::bytes::encode`: appends the key, the length, then the bytes.
#[verifier::external_body]
pub(crate) fn encode_bytes(tag: u32, value: &Vec<u8>, buf: &mut Vec<u8>)
    requires
        1 <= tag <= MAX_TAG,
    ensures
        final(buf)@ == old(buf)@ + delimited_field(tag, value@),
{
    prost::encoding::bytes::encode(tag, value, buf);
}

/// `prost::encoding::string::encode`: appends the key, the length of the UTF-8
/// encoding, then the UTF-8 encoding.
#[verifier::external_body]
pub(crate) fn encode_string(tag: u32, value: &String, buf: &mut Vec<u8>)
    requires
        1 <= tag <= MAX_TAG,
    ensures
        final(buf)@ == old(buf)@ + delimited_field(tag, encode_utf8(value@)),
{
    prost::encoding::string::encode(tag, value, buf);
}

/// Appends an embedded message whose encoding is `body`: the key, the length,
/// then `body`, as `prost::encoding::message::encode` writes it.
pub fn encode_embedded(tag: u32, body: &Vec<u8>, buf: &mut Vec<u8>)
    requires
        1 <= tag <= MAX_TAG,
    ensures
        final(buf)@ == old(buf)@ + delimited_field(tag, body@),
{
    encode_key(tag, WireKind::LengthDelimited, buf);
    encode_varint(body.len() as u64, buf);
    buf.extend_from_slice(body.as_slice());
    proof {
        assert(buf@ =~= old(buf)@ + delimited_field(tag, body@));
    }
}

/// A text encodes to no bytes exactly when it has no characters.
pub proof fn lemma_utf8_empty(chars: Seq<char>)
    ensures
        (encode_utf8(chars).len() == 0) == (chars.len() == 0),
{
    if chars.len() > 0 {
        assert(encode_utf8(chars) == encode_scalar(chars[0] as u32) + encode_utf8(
            chars.drop_first(),
        ));
    }
}

/// A message of the host's ABI, with the bytes that Protocol Buffers makes of it.
pub trait AbiMessage {
    /// The message's encoding: its fields in tag order, each left out when it
    /// holds its default value.
    spec fn spec_encode(&self) -> Seq<u8>;

    /// Encodes the message.
    fn encode_to_vec(&self) -> (bytes: Vec<u8>)
        ensures
            bytes@ == self.spec_encode(),
    ;

    /// Encodes the message into the shared buffer, framed with its length, and
    /// returns the buffer's address for the host.
    fn encode_length_prefixed(&self, mem: &mut SharedMem) -> (ptr: u32)
        requires
            self.spec_encode().len() + 4 <= u32::MAX,
        ensures
            final(mem).delivers(ptr, frame(self.spec_encode())),
    {
        let bytes = self.encode_to_vec();
        mem.encode_length_prefixed(bytes)
    }
}

/// The encoding of an optional embedded message, if it is present.
pub open spec fn embedded<M: AbiMessage>(message: Option<M>) -> Option<Seq<u8>> {
    match message {
        Some(m) => Some(m.spec_encode()),
        None => None,
    }
}

/// Appends an optional embedded message, if it is present.
pub fn encode_optional<M: AbiMessage>(tag: u32, message: &Option<M>, buf: &mut Vec<u8>)
    requires
        1 <= tag <= MAX_TAG,
    ensures
        final(buf)@ == old(buf)@ + message_field(tag, embedded(*message)),
{
    match message {
        Some(m) => {
            let body = m.encode_to_vec();
            encode_embedded(tag, &body, buf);
        },
        None => {
            assert(buf@ =~= old(buf)@ + message_field(tag, embedded(*message)));
        },
    }
}

// Reading encodings back.
//
// A reference reader for the encodings above: it reads a sequence of fields, each
// a key and either a varint or a length and that many bytes, and the value of a
// field is the last one given for its tag, or the default when there is none.

/// Reads a LEB128 varint at the start of `s`: its value and the number of bytes
/// it takes.
pub open spec fn parse_varint(s: Seq<u8>) -> Option<(int, int)>
    decreases s.len(),
{
    if s.len() == 0 {
        None
    } else if s[0] < 128 {
        Some((s[0] as int, 1))
    } else {
        match parse_varint(s.drop_first()) {
            Some((v, n)) => Some((s[0] - 128 + 128 * v, n + 1)),
            None => None,
        }
    }
}

/// A varint that reads at all takes at least one byte, and no more than there are.
pub proof fn lemma_parse_varint_len(s: Seq<u8>)
    ensures
        parse_varint(s) matches Some((v, n)) ==> 1 <= n <= s.len() && v >= 0,
    decreases s.len(),
{
    if s.len() > 0 && s[0] >= 128 {
        lemma_parse_varint_len(s.drop_first());
    }
}

/// Reading the varint of `v` gives back `v`, whatever follows it.
pub proof fn lemma_varint_roundtrip(v: u64, rest: Seq<u8>)
    ensures
        parse_varint(varint(v) + rest) == Some((v as int, varint(v).len() as int)),
    decreases v,
{
    let s = varint(v) + rest;
    if v < 128 {
        assert(s[0] == v as u8);
    } else {
        lemma_varint_roundtrip(v / 128, rest);
        assert(s.drop_first() =~= varint(v / 128) + rest);
        assert(s[0] == (v % 128 + 128) as u8);
    }
}

/// A field as the reader sees it.
pub enum Field {
    Scalar(int, int),
    Delimited(int, Seq<u8>),
}

/// `fields` with `field` in front, if there are fields.
pub open spec fn prepend(field: Field, fields: Option<Seq<Field>>) -> Option<Seq<Field>> {
    match fields {
        Some(fs) => Some(seq![field] + fs),
        None => None,
    }
}

/// Reads `s` as a whole sequence of varint and length-delimited fields.
pub open spec fn parse_fields(s: Seq<u8>) -> Option<Seq<Field>>
    decreases s.len(),
{
    if s.len() == 0 {
        Some(Seq::empty())
    } else {
        match parse_varint(s) {
            None => None,
            Some((k, n)) => {
                let tag = k / 8;
                let rest = s.skip(n);
                if tag < 1 {
                    None
                } else {
                    match parse_varint(rest) {
                        None => None,
                        Some((v, m)) => {
                            proof {
                                lemma_parse_varint_len(s);
                                lemma_parse_varint_len(rest);
                            }
                            if k % 8 == 0 {
                                prepend(Field::Scalar(tag, v), parse_fields(rest.skip(m)))
                            } else if k % 8 == 2 && m + v <= rest.len() {
                                prepend(
                                    Field::Delimited(tag, rest.subrange(m, m + v)),
                                    parse_fields(rest.skip(m + v)),
                                )
                            } else {
                                None
                            }
                        },
                    }
                }
            },
        }
    }
}

/// The last scalar given for `tag`, if any.
pub open spec fn last_scalar(fs: Seq<Field>, tag: int) -> Option<int>
    decreases fs.len(),
{
    if fs.len() == 0 {
        None
    } else {
        match last_scalar(fs.drop_first(), tag) {
            Some(v) => Some(v),
            None => match fs[0] {
                Field::Scalar(t, v) => if t == tag {
                    Some(v)
                } else {
                    None
                },
                Field::Delimited(_, _) => None,
            },
        }
    }
}

/// The last length-delimited body given for `tag`, if any.
pub open spec fn last_delimited(fs: Seq<Field>, tag: int) -> Option<Seq<u8>>
    decreases fs.len(),
{
    if fs.len() == 0 {
        None
    } else {
        match last_delimited(fs.drop_first(), tag) {
            Some(b) => Some(b),
            None => match fs[0] {
                Field::Delimited(t, b) => if t == tag {
                    Some(b)
                } else {
                    None
                },
                Field::Scalar(_, _) => None,
            },
        }
    }
}

/// The value of scalar field `tag`: zero when it is absent.
pub open spec fn scalar_value(fs: Seq<Field>, tag: int) -> int {
    match last_scalar(fs, tag) {
        Some(v) => v,
        None => 0,
    }
}

/// The value of bytes field `tag`: empty when it is absent.
pub open spec fn bytes_value(fs: Seq<Field>, tag: int) -> Seq<u8> {
    match last_delimited(fs, tag) {
        Some(b) => b,
        None => Seq::empty(),
    }
}

/// Reading a field in front of other fields adds it in front of theirs.
pub proof fn lemma_parse_varint_field(tag: u32, v: u64, rest: Seq<u8>)
    requires
        1 <= tag <= MAX_TAG,
    ensures
        parse_fields(varint_field(tag, v) + rest) == prepend(
            Field::Scalar(tag as int, v as int),
            parse_fields(rest),
        ),
{
    let k = (tag * 8 + 0) as u64;
    let s = varint_field(tag, v) + rest;
    let after_key = varint(v) + rest;
    assert(s =~= varint(k) + after_key);
    lemma_varint_roundtrip(k, after_key);
    lemma_varint_roundtrip(v, rest);
    assert(s.skip(varint(k).len() as int) =~= after_key);
    assert(after_key.skip(varint(v).len() as int) =~= rest);
    assert(k / 8 == tag && k % 8 == 0);
}

/// Reading a length-delimited field in front of other fields adds it in front.
pub proof fn lemma_parse_delimited_field(tag: u32, body: Seq<u8>, rest: Seq<u8>)
    requires
        1 <= tag <= MAX_TAG,
        body.len() <= u64::MAX,
    ensures
        parse_fields(delimited_field(tag, body) + rest) == prepend(
            Field::Delimited(tag as int, body),
            parse_fields(rest),
        ),
{
    let k = (tag * 8 + 2) as u64;
    let len = body.len() as u64;
    let s = delimited_field(tag, body) + rest;
    let after_key = varint(len) + (body + rest);
    assert(s =~= varint(k) + after_key);
    lemma_varint_roundtrip(k, after_key);
    lemma_varint_roundtrip(len, body + rest);
    let m = varint(len).len() as int;
    assert(s.skip(varint(k).len() as int) =~= after_key);
    assert(after_key.subrange(m, m + len) =~= body);
    assert(after_key.skip(m + len) =~= rest);
    assert(k / 8 == tag && k % 8 == 2);
}

/// `fields` with `front` in front, if there are fields.
pub open spec fn join(front: Seq<Field>, fields: Option<Seq<Field>>) -> Option<Seq<Field>> {
    match fields {
        Some(fs) => Some(front + fs),
        None => None,
    }
}

/// The one field `f` when `cond` holds, else nothing.
pub open spec fn present(cond: bool, f: Field) -> Seq<Field> {
    if cond {
        seq![f]
    } else {
        Seq::empty()
    }
}

/// Reading a scalar field as messages write it, in front of other fields.
pub proof fn lemma_parse_scalar_field(tag: u32, v: u64, rest: Seq<u8>)
    requires
        1 <= tag <= MAX_TAG,
    ensures
        parse_fields(scalar_field(tag, v) + rest) == join(
            present(v != 0, Field::Scalar(tag as int, v as int)),
            parse_fields(rest),
        ),
{
    if v == 0 {
        assert(scalar_field(tag, v) + rest =~= rest);
    } else {
        lemma_parse_varint_field(tag, v, rest);
    }
    match parse_fields(rest) {
        Some(fs) => assert(Seq::<Field>::empty() + fs =~= fs),
        None => {},
    }
}

/// Reading a bytes field as messages write it, in front of other fields.
pub proof fn lemma_parse_bytes_field(tag: u32, body: Seq<u8>, rest: Seq<u8>)
    requires
        1 <= tag <= MAX_TAG,
        body.len() <= u64::MAX,
    ensures
        parse_fields(bytes_field(tag, body) + rest) == join(
            present(body.len() != 0, Field::Delimited(tag as int, body)),
            parse_fields(rest),
        ),
{
    if body.len() == 0 {
        assert(bytes_field(tag, body) + rest =~= rest);
    } else {
        lemma_parse_delimited_field(tag, body, rest);
    }
    match parse_fields(rest) {
        Some(fs) => assert(Seq::<Field>::empty() + fs =~= fs),
        None => {},
    }
}

/// The fields an optional embedded message reads as.
pub open spec fn message_fields(tag: u32, body: Option<Seq<u8>>) -> Seq<Field> {
    match body {
        Some(b) => seq![Field::Delimited(tag as int, b)],
        None => Seq::empty(),
    }
}

/// Reading an optional embedded message, in front of other fields.
pub proof fn lemma_parse_message_field(tag: u32, body: Option<Seq<u8>>, rest: Seq<u8>)
    requires
        1 <= tag <= MAX_TAG,
        body matches Some(b) ==> b.len() <= u64::MAX,
    ensures
        parse_fields(message_field(tag, body) + rest) == join(
            message_fields(tag, body),
            parse_fields(rest),
        ),
{
    match body {
        Some(b) => lemma_parse_delimited_field(tag, b, rest),
        None => {
            assert(message_field(tag, body) + rest =~= rest);
        },
    }
    match parse_fields(rest) {
        Some(fs) => assert(Seq::<Field>::empty() + fs =~= fs),
        None => {},
    }
}

/// Looking up a field in two runs of fields: the later run wins.
pub proof fn lemma_lookup_concat(a: Seq<Field>, b: Seq<Field>, tag: int)
    ensures
        last_scalar(a + b, tag) == match last_scalar(b, tag) {
            Some(v) => Some(v),
            None => last_scalar(a, tag),
        },
        last_delimited(a + b, tag) == match last_delimited(b, tag) {
            Some(v) => Some(v),
            None => last_delimited(a, tag),
        },
    decreases a.len(),
{
    if a.len() == 0 {
        assert(a + b =~= b);
    } else {
        lemma_lookup_concat(a.drop_first(), b, tag);
        assert((a + b).drop_first() =~= a.drop_first() + b);
    }
}

/// Looking up a field in one field or none.
pub proof fn lemma_lookup_single(f: Field, tag: int)
    ensures
        last_scalar(seq![f], tag) == match f {
            Field::Scalar(t, v) => if t == tag {
                Some(v)
            } else {
                None
            },
            Field::Delimited(_, _) => None,
        },
        last_delimited(seq![f], tag) == match f {
            Field::Delimited(t, b) => if t == tag {
                Some(b)
            } else {
                None
            },
            Field::Scalar(_, _) => None,
        },
        last_scalar(Seq::<Field>::empty(), tag) == None::<int>,
        last_delimited(Seq::<Field>::empty(), tag) == None::<Seq<u8>>,
{
    assert(seq![f].drop_first() =~= Seq::<Field>::empty());
}

} // verus!
