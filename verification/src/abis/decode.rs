//! Reading the ABI's requests back: what the host finds in each request, read
//! with the reference reader of `crate::proto`, and the laws that it finds
//! exactly what the contract asked for.

use vstd::prelude::*;
use vstd::utf8::{decode_utf8, encode_utf8, encode_utf8_decode_utf8};

use super::call::{call_request_bytes, CallRequest};
use super::create_sc::{create_sc_request_bytes, CreateScRequest};
use super::generate_event::{generate_event_request_bytes, GenerateEventRequest};
use super::native_address::{address_to_string_request_bytes, NativeAddress, NativeAddressToStringRequest};
use super::native_amount::NativeAmount;
use super::transfer_coins::{transfer_coins_request_bytes, TransferCoinsRequest};
use crate::proto::{
    bytes_field, bytes_value, embedded, last_delimited, last_scalar, lemma_lookup_concat,
    lemma_lookup_single, lemma_parse_bytes_field, lemma_parse_message_field,
    lemma_parse_scalar_field, message_field, message_fields, parse_fields, present, scalar_field,
    scalar_value, AbiMessage, Field,
};

verus! {

/// An address as the host reads it: category, version, content.
pub open spec fn address_value(a: NativeAddress) -> (i32, int, Seq<u8>) {
    (a.category, a.version as int, a.content@)
}

/// An amount as the host reads it: mantissa, scale.
pub open spec fn amount_value(a: NativeAmount) -> (int, int) {
    (a.mantissa as int, a.scale as int)
}

/// Reads an encoded amount.
pub open spec fn decode_native_amount(bytes: Seq<u8>) -> Option<(int, int)> {
    match parse_fields(bytes) {
        Some(fs) => Some((scalar_value(fs, 1), scalar_value(fs, 2))),
        None => None,
    }
}

/// Reads an encoded address; the category is the low 32 bits of its varint, as
/// an `int32` field is read.
pub open spec fn decode_native_address(bytes: Seq<u8>) -> Option<(i32, int, Seq<u8>)> {
    match parse_fields(bytes) {
        Some(fs) => Some(
            ((scalar_value(fs, 1) as u64) as i32, scalar_value(fs, 2), bytes_value(fs, 3)),
        ),
        None => None,
    }
}

/// Reads the embedded address of field `tag`: `Some(None)` when it is absent.
pub open spec fn embedded_address(fs: Seq<Field>, tag: int) -> Option<Option<(i32, int, Seq<u8>)>> {
    match last_delimited(fs, tag) {
        None => Some(None),
        Some(b) => match decode_native_address(b) {
            Some(a) => Some(Some(a)),
            None => None,
        },
    }
}

/// Reads the embedded amount of field `tag`: `Some(None)` when it is absent.
pub open spec fn embedded_amount(fs: Seq<Field>, tag: int) -> Option<Option<(int, int)>> {
    match last_delimited(fs, tag) {
        None => Some(None),
        Some(b) => match decode_native_amount(b) {
            Some(a) => Some(Some(a)),
            None => None,
        },
    }
}

/// An optional address as the host reads it.
pub open spec fn optional_address(a: Option<NativeAddress>) -> Option<(i32, int, Seq<u8>)> {
    match a {
        Some(a) => Some(address_value(a)),
        None => None,
    }
}

/// An optional amount as the host reads it.
pub open spec fn optional_amount(a: Option<NativeAmount>) -> Option<(int, int)> {
    match a {
        Some(a) => Some(amount_value(a)),
        None => None,
    }
}

/// Reads a request for the text form of an address: the address, if present.
pub open spec fn decode_address_to_string_request(bytes: Seq<u8>) -> Option<Option<(i32, int, Seq<u8>)>> {
    match parse_fields(bytes) {
        Some(fs) => embedded_address(fs, 1),
        None => None,
    }
}

/// Reads a call request: target address, function name (UTF-8), argument, coins.
pub open spec fn decode_call_request(bytes: Seq<u8>) -> Option<
    (Option<(i32, int, Seq<u8>)>, Seq<u8>, Seq<u8>, Option<(int, int)>),
> {
    match parse_fields(bytes) {
        Some(fs) => match (embedded_address(fs, 1), embedded_amount(fs, 4)) {
            (Some(address), Some(coins)) => Some(
                (address, bytes_value(fs, 2), bytes_value(fs, 3), coins),
            ),
            _ => None,
        },
        None => None,
    }
}

/// Reads a deployment request: the bytecode.
pub open spec fn decode_create_sc_request(bytes: Seq<u8>) -> Option<Seq<u8>> {
    match parse_fields(bytes) {
        Some(fs) => Some(bytes_value(fs, 1)),
        None => None,
    }
}

/// Reads an event request: the event's UTF-8 bytes.
pub open spec fn decode_generate_event_request(bytes: Seq<u8>) -> Option<Seq<u8>> {
    match parse_fields(bytes) {
        Some(fs) => Some(bytes_value(fs, 1)),
        None => None,
    }
}

/// Reads a transfer request: recipient and amount, if present.
pub open spec fn decode_transfer_coins_request(bytes: Seq<u8>) -> Option<
    (Option<(i32, int, Seq<u8>)>, Option<(int, int)>),
> {
    match parse_fields(bytes) {
        Some(fs) => match (embedded_address(fs, 1), embedded_amount(fs, 2)) {
            (Some(address), Some(amount)) => Some((address, amount)),
            _ => None,
        },
        None => None,
    }
}

/// Looking up a tag in up to four runs of fields: the last run that has it wins.
proof fn lemma_lookup_runs(a: Seq<Field>, b: Seq<Field>, c: Seq<Field>, d: Seq<Field>, tag: int)
    ensures
        last_scalar(a + (b + (c + (d + Seq::empty()))), tag) == match last_scalar(d, tag) {
            Some(v) => Some(v),
            None => match last_scalar(c, tag) {
                Some(v) => Some(v),
                None => match last_scalar(b, tag) {
                    Some(v) => Some(v),
                    None => last_scalar(a, tag),
                },
            },
        },
        last_delimited(a + (b + (c + (d + Seq::empty()))), tag) == match last_delimited(d, tag) {
            Some(v) => Some(v),
            None => match last_delimited(c, tag) {
                Some(v) => Some(v),
                None => match last_delimited(b, tag) {
                    Some(v) => Some(v),
                    None => last_delimited(a, tag),
                },
            },
        },
{
    let e = Seq::<Field>::empty();
    assert(d + e =~= d);
    lemma_lookup_concat(c, d, tag);
    lemma_lookup_concat(b, c + d, tag);
    lemma_lookup_concat(a, b + (c + d), tag);
}

/// The empty encoding reads as no fields.
proof fn lemma_parse_empty()
    ensures
        parse_fields(Seq::empty()) == Some(Seq::<Field>::empty()),
{
}

/// Every amount reads back as itself, the full 64-bit mantissa and the scale.
pub proof fn lemma_native_amount_roundtrip(a: NativeAmount)
    ensures
        decode_native_amount(a.spec_encode()) == Some(amount_value(a)),
{
    let e = Seq::<u8>::empty();
    let f1 = scalar_field(1, a.mantissa);
    let f2 = scalar_field(2, a.scale as u64);
    assert(a.spec_encode() =~= f1 + (f2 + e));
    lemma_parse_empty();
    lemma_parse_scalar_field(2, a.scale as u64, e);
    lemma_parse_scalar_field(1, a.mantissa, f2 + e);
    let pa = present(a.mantissa != 0, Field::Scalar(1, a.mantissa as int));
    let pb = present(a.scale != 0, Field::Scalar(2, a.scale as int));
    let none = Seq::<Field>::empty();
    assert(pa + (pb + Seq::<Field>::empty()) =~= pa + (pb + (none + (none + Seq::empty()))));
    lemma_lookup_runs(pa, pb, none, none, 1);
    lemma_lookup_runs(pa, pb, none, none, 2);
    lemma_lookup_single(Field::Scalar(1, a.mantissa as int), 1);
    lemma_lookup_single(Field::Scalar(1, a.mantissa as int), 2);
    lemma_lookup_single(Field::Scalar(2, a.scale as int), 1);
    lemma_lookup_single(Field::Scalar(2, a.scale as int), 2);
}

/// Every address reads back as itself: category, version and content.
pub proof fn lemma_native_address_roundtrip(a: NativeAddress)
    requires
        a.content@.len() <= u64::MAX,
    ensures
        decode_native_address(a.spec_encode()) == Some(address_value(a)),
{
    let e = Seq::<u8>::empty();
    let c = a.category as u64;
    let f1 = scalar_field(1, c);
    let f2 = scalar_field(2, a.version);
    let f3 = bytes_field(3, a.content@);
    assert(a.spec_encode() =~= f1 + (f2 + (f3 + e)));
    lemma_parse_empty();
    lemma_parse_bytes_field(3, a.content@, e);
    lemma_parse_scalar_field(2, a.version, f3 + e);
    lemma_parse_scalar_field(1, c, f2 + (f3 + e));
    let x1 = Field::Scalar(1, c as int);
    let x2 = Field::Scalar(2, a.version as int);
    let x3 = Field::Delimited(3, a.content@);
    let pa = present(c != 0, x1);
    let pb = present(a.version != 0, x2);
    let pc = present(a.content@.len() != 0, x3);
    let none = Seq::<Field>::empty();
    assert(pa + (pb + (pc + none)) =~= pa + (pb + (pc + (none + Seq::empty()))));
    lemma_lookup_runs(pa, pb, pc, none, 1);
    lemma_lookup_runs(pa, pb, pc, none, 2);
    lemma_lookup_runs(pa, pb, pc, none, 3);
    lemma_lookup_single(x1, 1);
    lemma_lookup_single(x1, 2);
    lemma_lookup_single(x1, 3);
    lemma_lookup_single(x2, 1);
    lemma_lookup_single(x2, 2);
    lemma_lookup_single(x2, 3);
    lemma_lookup_single(x3, 1);
    lemma_lookup_single(x3, 2);
    lemma_lookup_single(x3, 3);
    let cat = a.category;
    assert(((cat as u64) as i32) == cat) by (bit_vector);
    assert(((0u64) as i32) == 0i32) by (bit_vector);
}

/// Looking up a tag in the fields of an optional embedded message.
proof fn lemma_lookup_message_fields(tag: u32, body: Option<Seq<u8>>, t: int)
    ensures
        last_delimited(message_fields(tag, body), t) == if t == tag as int {
            body
        } else {
            None
        },
        last_scalar(message_fields(tag, body), t) == None::<int>,
{
    lemma_lookup_single(Field::Delimited(tag as int, Seq::empty()), t);
    match body {
        Some(b) => lemma_lookup_single(Field::Delimited(tag as int, b), t),
        None => {},
    }
}

/// Looking up a tag in a bytes field that may be left out.
proof fn lemma_lookup_present_bytes(tag: u32, body: Seq<u8>, t: int)
    ensures
        last_delimited(present(body.len() != 0, Field::Delimited(tag as int, body)), t) == if t
            == tag as int && body.len() != 0 {
            Some(body)
        } else {
            None
        },
        last_scalar(present(body.len() != 0, Field::Delimited(tag as int, body)), t) == None::<
            int,
        >,
{
    lemma_lookup_single(Field::Delimited(tag as int, body), t);
}

/// An embedded address field reads back as the optional address it holds.
proof fn lemma_embedded_address(fs: Seq<Field>, tag: int, o: Option<NativeAddress>)
    requires
        last_delimited(fs, tag) == embedded(o),
        o matches Some(a) ==> a.spec_encode().len() <= u64::MAX,
    ensures
        embedded_address(fs, tag) == Some(optional_address(o)),
{
    match o {
        Some(a) => {
            assert(a.spec_encode().len() >= a.content@.len());
            lemma_native_address_roundtrip(a);
        },
        None => {},
    }
}

/// An embedded amount field reads back as the optional amount it holds.
proof fn lemma_embedded_amount(fs: Seq<Field>, tag: int, o: Option<NativeAmount>)
    requires
        last_delimited(fs, tag) == embedded(o),
    ensures
        embedded_amount(fs, tag) == Some(optional_amount(o)),
{
    match o {
        Some(a) => lemma_native_amount_roundtrip(a),
        None => {},
    }
}

/// Every request for the text form of an address carries that very address, or
/// none when it has none.
pub proof fn lemma_address_to_string_request_roundtrip(r: NativeAddressToStringRequest)
    requires
        r.spec_encode().len() <= u64::MAX,
    ensures
        decode_address_to_string_request(r.spec_encode()) == Some(
            optional_address(r.address_to_convert),
        ),
{
    let e = Seq::<u8>::empty();
    let body = embedded(r.address_to_convert);
    let m1 = message_field(1, body);
    assert(r.spec_encode() =~= m1 + e);
    lemma_parse_empty();
    lemma_parse_message_field(1, body, e);
    let none = Seq::<Field>::empty();
    let pa = message_fields(1, body);
    assert(pa + none =~= pa + (none + (none + (none + Seq::empty()))));
    lemma_lookup_runs(pa, none, none, none, 1);
    lemma_lookup_message_fields(1, body, 1);
    let fs = parse_fields(r.spec_encode()).unwrap();
    lemma_embedded_address(fs, 1, r.address_to_convert);
}

/// The request that the host gets for the text form of `address` carries that
/// very address: category, version and content unchanged.
pub proof fn lemma_address_to_string_request_carries_address(address: NativeAddress)
    requires
        address_to_string_request_bytes(address).len() <= u64::MAX,
    ensures
        decode_address_to_string_request(address_to_string_request_bytes(address)) == Some(
            Some(address_value(address)),
        ),
{
    lemma_address_to_string_request_roundtrip(
        NativeAddressToStringRequest { address_to_convert: Some(address) },
    );
}

/// Reading the fields of a call request, from its four parts.
proof fn lemma_call_fields(
    address: Option<Seq<u8>>,
    name: Seq<u8>,
    arg: Seq<u8>,
    coins: Option<Seq<u8>>,
)
    requires
        (message_field(1, address) + bytes_field(2, name) + bytes_field(3, arg) + message_field(
            4,
            coins,
        )).len() <= u64::MAX,
    ensures
        ({
            let bytes = message_field(1, address) + bytes_field(2, name) + bytes_field(3, arg)
                + message_field(4, coins);
            &&& parse_fields(bytes) is Some
            &&& last_delimited(parse_fields(bytes).unwrap(), 1) == address
            &&& bytes_value(parse_fields(bytes).unwrap(), 2) == name
            &&& bytes_value(parse_fields(bytes).unwrap(), 3) == arg
            &&& last_delimited(parse_fields(bytes).unwrap(), 4) == coins
        }),
{
    let e = Seq::<u8>::empty();
    let m1 = message_field(1, address);
    let b2 = bytes_field(2, name);
    let b3 = bytes_field(3, arg);
    let m4 = message_field(4, coins);
    let bytes = m1 + b2 + b3 + m4;
    assert(bytes =~= m1 + (b2 + (b3 + (m4 + e))));
    lemma_parse_empty();
    lemma_parse_message_field(4, coins, e);
    lemma_parse_bytes_field(3, arg, m4 + e);
    lemma_parse_bytes_field(2, name, b3 + (m4 + e));
    lemma_parse_message_field(1, address, b2 + (b3 + (m4 + e)));
    let pa = message_fields(1, address);
    let pb = present(name.len() != 0, Field::Delimited(2, name));
    let pc = present(arg.len() != 0, Field::Delimited(3, arg));
    let pd = message_fields(4, coins);
    assert(parse_fields(bytes) == Some(pa + (pb + (pc + (pd + Seq::empty())))));
    lemma_lookup_runs(pa, pb, pc, pd, 1);
    lemma_lookup_message_fields(1, address, 1);
    lemma_lookup_message_fields(4, coins, 1);
    lemma_lookup_present_bytes(2, name, 1);
    lemma_lookup_present_bytes(3, arg, 1);
    lemma_lookup_runs(pa, pb, pc, pd, 2);
    lemma_lookup_message_fields(1, address, 2);
    lemma_lookup_message_fields(4, coins, 2);
    lemma_lookup_present_bytes(2, name, 2);
    lemma_lookup_present_bytes(3, arg, 2);
    lemma_lookup_runs(pa, pb, pc, pd, 3);
    lemma_lookup_message_fields(1, address, 3);
    lemma_lookup_message_fields(4, coins, 3);
    lemma_lookup_present_bytes(2, name, 3);
    lemma_lookup_present_bytes(3, arg, 3);
    lemma_lookup_runs(pa, pb, pc, pd, 4);
    lemma_lookup_message_fields(1, address, 4);
    lemma_lookup_message_fields(4, coins, 4);
    lemma_lookup_present_bytes(2, name, 4);
    lemma_lookup_present_bytes(3, arg, 4);
    let fs = pa + (pb + (pc + (pd + Seq::empty())));
    assert(last_delimited(fs, 1) == address);
    assert(last_delimited(fs, 2) == if name.len() != 0 { Some(name) } else { None::<Seq<u8>> });
    assert(last_delimited(fs, 3) == if arg.len() != 0 { Some(arg) } else { None::<Seq<u8>> });
    assert(last_delimited(fs, 4) == coins);
}

/// Every call request carries its target, its function name, its argument and its
/// coins unchanged, each present exactly when the request has it.
pub proof fn lemma_call_request_roundtrip(r: CallRequest)
    requires
        r.spec_encode().len() <= u64::MAX,
    ensures
        decode_call_request(r.spec_encode()) == Some(
            (
                optional_address(r.target_sc_address),
                encode_utf8(r.target_function_name@),
                r.function_arg@,
                optional_amount(r.call_coins),
            ),
        ),
        decode_utf8(encode_utf8(r.target_function_name@)) == r.target_function_name@,
{
    lemma_call_fields(
        embedded(r.target_sc_address),
        encode_utf8(r.target_function_name@),
        r.function_arg@,
        embedded(r.call_coins),
    );
    let fs = parse_fields(r.spec_encode()).unwrap();
    lemma_embedded_address(fs, 1, r.target_sc_address);
    lemma_embedded_amount(fs, 4, r.call_coins);
    encode_utf8_decode_utf8(r.target_function_name@);
}

/// The request that the host gets for a call carries the target address, the
/// function name, the argument and the coins unchanged, the coins always present,
/// even when the amount is zero.
pub proof fn lemma_call_request_carries_all(
    address: NativeAddress,
    function: Seq<char>,
    arg: Seq<u8>,
    coins: NativeAmount,
)
    requires
        call_request_bytes(address, function, arg, coins).len() <= u64::MAX,
    ensures
        decode_call_request(call_request_bytes(address, function, arg, coins)) == Some(
            (Some(address_value(address)), encode_utf8(function), arg, Some(amount_value(coins))),
        ),
        decode_utf8(encode_utf8(function)) == function,
{
    lemma_call_fields(
        Some(address.spec_encode()),
        encode_utf8(function),
        arg,
        Some(coins.spec_encode()),
    );
    let fs = parse_fields(call_request_bytes(address, function, arg, coins)).unwrap();
    lemma_embedded_address(fs, 1, Some(address));
    lemma_embedded_amount(fs, 4, Some(coins));
    encode_utf8_decode_utf8(function);
}

/// A message of one bytes field reads back as that field's bytes, whatever their
/// length.
proof fn lemma_single_bytes_field(body: Seq<u8>)
    requires
        body.len() <= u64::MAX,
    ensures
        parse_fields(bytes_field(1, body)) is Some,
        bytes_value(parse_fields(bytes_field(1, body)).unwrap(), 1) == body,
{
    let e = Seq::<u8>::empty();
    assert(bytes_field(1, body) =~= bytes_field(1, body) + e);
    lemma_parse_empty();
    lemma_parse_bytes_field(1, body, e);
    let none = Seq::<Field>::empty();
    let pa = present(body.len() != 0, Field::Delimited(1, body));
    assert(pa + none =~= pa + (none + (none + (none + Seq::empty()))));
    lemma_lookup_runs(pa, none, none, none, 1);
    lemma_lookup_present_bytes(1, body, 1);
    lemma_lookup_single(Field::Delimited(1, body), 1);
}

/// Every deployment request carries its bytecode unchanged, whatever its length.
pub proof fn lemma_create_sc_request_roundtrip(r: CreateScRequest)
    requires
        r.bytecode@.len() <= u64::MAX,
    ensures
        decode_create_sc_request(r.spec_encode()) == Some(r.bytecode@),
{
    lemma_single_bytes_field(r.bytecode@);
}

/// The request that the host gets for a deployment carries the bytecode
/// unchanged, whatever its length.
pub proof fn lemma_create_sc_request_carries_bytecode(bytecode: Seq<u8>)
    requires
        bytecode.len() <= u64::MAX,
    ensures
        decode_create_sc_request(create_sc_request_bytes(bytecode)) == Some(bytecode),
{
    lemma_single_bytes_field(bytecode);
}

/// Every event request carries the event's text unchanged, whatever its length:
/// its UTF-8 bytes, which decode to the event.
pub proof fn lemma_generate_event_request_roundtrip(r: GenerateEventRequest)
    requires
        encode_utf8(r.event@).len() <= u64::MAX,
    ensures
        decode_generate_event_request(r.spec_encode()) == Some(encode_utf8(r.event@)),
        decode_utf8(encode_utf8(r.event@)) == r.event@,
{
    lemma_single_bytes_field(encode_utf8(r.event@));
    encode_utf8_decode_utf8(r.event@);
}

/// The request that the host gets for an event carries the event's text
/// unchanged, whatever its length.
pub proof fn lemma_generate_event_request_carries_event(event: Seq<char>)
    requires
        encode_utf8(event).len() <= u64::MAX,
    ensures
        decode_generate_event_request(generate_event_request_bytes(event)) == Some(
            encode_utf8(event),
        ),
        decode_utf8(encode_utf8(event)) == event,
{
    lemma_single_bytes_field(encode_utf8(event));
    encode_utf8_decode_utf8(event);
}

/// Reading the fields of a transfer request, from its two parts.
proof fn lemma_transfer_fields(address: Option<Seq<u8>>, amount: Option<Seq<u8>>)
    requires
        (message_field(1, address) + message_field(2, amount)).len() <= u64::MAX,
    ensures
        ({
            let bytes = message_field(1, address) + message_field(2, amount);
            &&& parse_fields(bytes) is Some
            &&& last_delimited(parse_fields(bytes).unwrap(), 1) == address
            &&& last_delimited(parse_fields(bytes).unwrap(), 2) == amount
        }),
{
    let e = Seq::<u8>::empty();
    let m1 = message_field(1, address);
    let m2 = message_field(2, amount);
    assert(m1 + m2 =~= m1 + (m2 + e));
    lemma_parse_empty();
    lemma_parse_message_field(2, amount, e);
    lemma_parse_message_field(1, address, m2 + e);
    let none = Seq::<Field>::empty();
    let pa = message_fields(1, address);
    let pb = message_fields(2, amount);
    assert(pa + (pb + none) =~= pa + (pb + (none + (none + Seq::empty()))));
    lemma_lookup_runs(pa, pb, none, none, 1);
    lemma_lookup_runs(pa, pb, none, none, 2);
    lemma_lookup_message_fields(1, address, 1);
    lemma_lookup_message_fields(1, address, 2);
    lemma_lookup_message_fields(2, amount, 1);
    lemma_lookup_message_fields(2, amount, 2);
}

/// Every transfer request carries its recipient and its amount unchanged, each
/// present exactly when the request has it.
pub proof fn lemma_transfer_coins_request_roundtrip(r: TransferCoinsRequest)
    requires
        r.spec_encode().len() <= u64::MAX,
    ensures
        decode_transfer_coins_request(r.spec_encode()) == Some(
            (optional_address(r.to_address), optional_amount(r.raw_amount)),
        ),
{
    lemma_transfer_fields(embedded(r.to_address), embedded(r.raw_amount));
    let fs = parse_fields(r.spec_encode()).unwrap();
    lemma_embedded_address(fs, 1, r.to_address);
    lemma_embedded_amount(fs, 2, r.raw_amount);
}

/// The request that the host gets for a transfer carries the recipient and the
/// full amount unchanged, both always present.
pub proof fn lemma_transfer_coins_request_carries_all(address: NativeAddress, amount: NativeAmount)
    requires
        transfer_coins_request_bytes(address, amount).len() <= u64::MAX,
    ensures
        decode_transfer_coins_request(transfer_coins_request_bytes(address, amount)) == Some(
            (Some(address_value(address)), Some(amount_value(amount))),
        ),
{
    lemma_transfer_fields(Some(address.spec_encode()), Some(amount.spec_encode()));
    let fs = parse_fields(transfer_coins_request_bytes(address, amount)).unwrap();
    lemma_embedded_address(fs, 1, Some(address));
    lemma_embedded_amount(fs, 2, Some(amount));
}

} // verus!
