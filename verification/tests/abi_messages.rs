use massa_sc_sdk::abis::abort::abort_request;
use massa_sc_sdk::abis::call::{call_request, call_result, CallRequest, CallResponse};
use massa_sc_sdk::abis::create_sc::{
    create_sc_request, create_sc_result, CreateScRequest, CreateScResponse,
};
use massa_sc_sdk::abis::generate_event::{generate_event, GenerateEventRequest};
use massa_sc_sdk::abis::native_address::{
    native_address_to_string_request, native_address_to_string_result,
    NativeAddressToStringRequest, NativeAddressToStringResponse,
};
use massa_sc_sdk::abis::transfer_coins::{transfer_coins_request, TransferCoinsRequest};
use massa_sc_sdk::abis::{Address, Amount, NativeAddress, NativeAmount};
use massa_sc_sdk::allocator::SharedMem;
use massa_sc_sdk::get_parameters;
use massa_sc_sdk::proto::AbiMessage;

fn address() -> NativeAddress {
    NativeAddress { category: 1, version: 0, content: vec![0xde, 0xad] }
}

#[test]
fn native_amount_encoding() {
    let amount = NativeAmount { mantissa: 300, scale: 2 };
    assert_eq!(amount.encode_to_vec(), vec![0x08, 0xac, 0x02, 0x10, 0x02]);
}

#[test]
fn default_fields_are_left_out() {
    let amount = NativeAmount { mantissa: 0, scale: 0 };
    assert_eq!(amount.encode_to_vec(), Vec::<u8>::new());
    let address = NativeAddress { category: 0, version: 0, content: vec![] };
    assert_eq!(address.encode_to_vec(), Vec::<u8>::new());
}

#[test]
fn native_address_encoding() {
    let address = NativeAddress { category: 2, version: 1, content: vec![1, 2, 3] };
    assert_eq!(
        address.encode_to_vec(),
        vec![0x08, 0x02, 0x10, 0x01, 0x1a, 0x03, 1, 2, 3]
    );
}

#[test]
fn negative_category_takes_ten_bytes() {
    let address = NativeAddress { category: -1, version: 0, content: vec![] };
    let mut expected = vec![0x08];
    expected.extend_from_slice(&[0xff; 9]);
    expected.push(0x01);
    assert_eq!(address.encode_to_vec(), expected);
}

#[test]
fn large_version_varint() {
    let address = NativeAddress { category: 0, version: u64::MAX, content: vec![] };
    let mut expected = vec![0x10];
    expected.extend_from_slice(&[0xff; 9]);
    expected.push(0x01);
    assert_eq!(address.encode_to_vec(), expected);
}

#[test]
fn call_request_encoding() {
    let request = CallRequest {
        target_sc_address: Some(address()),
        target_function_name: "f".to_string(),
        function_arg: vec![9],
        call_coins: Some(NativeAmount { mantissa: 5, scale: 0 }),
    };
    assert_eq!(
        request.encode_to_vec(),
        vec![
            0x0a, 0x06, 0x08, 0x01, 0x1a, 0x02, 0xde, 0xad, // address
            0x12, 0x01, b'f', // function name
            0x1a, 0x01, 9, // argument
            0x22, 0x02, 0x08, 0x05, // coins
        ]
    );
}

#[test]
fn empty_embedded_message_is_still_written() {
    let request = TransferCoinsRequest {
        to_address: Some(NativeAddress { category: 0, version: 0, content: vec![] }),
        raw_amount: None,
    };
    assert_eq!(request.encode_to_vec(), vec![0x0a, 0x00]);
}

#[test]
fn call_request_is_framed_in_shared_memory() {
    let mut mem = SharedMem::new();
    let ptr = call_request(
        &mut mem,
        Address::from(address()),
        "go".to_string(),
        vec![],
        Amount::from(NativeAmount { mantissa: 1, scale: 0 }),
    );
    assert_eq!(
        get_parameters(&mut mem, ptr),
        vec![
            16, 0, 0, 0, // length
            0x0a, 0x06, 0x08, 0x01, 0x1a, 0x02, 0xde, 0xad, 0x12, 0x02, b'g', b'o', 0x22, 0x02,
            0x08, 0x01,
        ]
    );
}

#[test]
fn generate_event_frames_the_event() {
    let mut mem = SharedMem::new();
    let ptr = generate_event(&mut mem, "hé".to_string());
    assert_eq!(
        get_parameters(&mut mem, ptr),
        vec![5, 0, 0, 0, 0x0a, 0x03, b'h', 0xc3, 0xa9]
    );
}

#[test]
fn generate_event_with_empty_event() {
    let mut mem = SharedMem::new();
    let ptr = generate_event(&mut mem, String::new());
    assert_eq!(get_parameters(&mut mem, ptr), vec![0, 0, 0, 0]);
    let request = GenerateEventRequest { event: String::new() };
    assert_eq!(request.encode_to_vec(), Vec::<u8>::new());
}

#[test]
fn create_sc_request_frames_the_bytecode() {
    let mut mem = SharedMem::new();
    let ptr = create_sc_request(&mut mem, vec![0, 97, 115, 109]);
    assert_eq!(
        get_parameters(&mut mem, ptr),
        vec![6, 0, 0, 0, 0x0a, 0x04, 0, 97, 115, 109]
    );
    let request = CreateScRequest { bytecode: vec![] };
    assert_eq!(request.encode_to_vec(), Vec::<u8>::new());
}

#[test]
fn transfer_coins_request_frames_address_and_amount() {
    let mut mem = SharedMem::new();
    let ptr = transfer_coins_request(
        &mut mem,
        Address::from(address()),
        Amount::from(NativeAmount { mantissa: 0, scale: 9 }),
    );
    assert_eq!(
        get_parameters(&mut mem, ptr),
        vec![
            12, 0, 0, 0, 0x0a, 0x06, 0x08, 0x01, 0x1a, 0x02, 0xde, 0xad, 0x12, 0x02, 0x10, 0x09,
        ]
    );
}

#[test]
fn native_address_to_string_request_frames_the_address() {
    let mut mem = SharedMem::new();
    let ptr = native_address_to_string_request(&mut mem, address());
    assert_eq!(
        get_parameters(&mut mem, ptr),
        vec![8, 0, 0, 0, 0x0a, 0x06, 0x08, 0x01, 0x1a, 0x02, 0xde, 0xad]
    );
    let request = NativeAddressToStringRequest { address_to_convert: None };
    assert_eq!(request.encode_to_vec(), Vec::<u8>::new());
}

#[test]
fn abort_request_frames_the_message_as_utf8() {
    let mut mem = SharedMem::new();
    let ptr = abort_request(&mut mem, "oops".to_string());
    assert_eq!(
        get_parameters(&mut mem, ptr),
        vec![4, 0, 0, 0, b'o', b'o', b'p', b's']
    );
}

#[test]
fn call_result_cases() {
    assert_eq!(
        call_result(Some(CallResponse { data: vec![1, 2] })),
        Ok(vec![1, 2])
    );
    assert_eq!(
        call_result(None),
        Err("Create SC response decode error".to_string())
    );
}

#[test]
fn create_sc_result_cases() {
    assert_eq!(
        create_sc_result(Some(CreateScResponse { sc_address: Some(address()) })),
        Ok(Address(address()))
    );
    assert_eq!(
        create_sc_result(Some(CreateScResponse { sc_address: None })),
        Err("No address return".to_string())
    );
    assert_eq!(
        create_sc_result(None),
        Err("Create SC response decode error".to_string())
    );
}

#[test]
fn native_address_to_string_result_cases() {
    assert_eq!(
        native_address_to_string_result(Some(NativeAddressToStringResponse {
            converted_address: "AU12".to_string()
        })),
        Ok("AU12".to_string())
    );
    assert_eq!(
        native_address_to_string_result(None),
        Err("Error decoding NativeAddressToStringResponse".to_string())
    );
}

#[test]
fn address_and_amount_conversions() {
    let a = Address::from(address());
    assert_eq!(NativeAddress::from(a.clone()), address());
    let native: NativeAddress = a.into();
    assert_eq!(native.content, vec![0xde, 0xad]);
    let amount = Amount::from(NativeAmount { mantissa: 3, scale: 1 });
    assert_eq!(NativeAmount::from(amount), NativeAmount { mantissa: 3, scale: 1 });
}
