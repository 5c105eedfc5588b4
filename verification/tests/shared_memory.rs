use massa_sc_sdk::allocator::SharedMem;
use massa_sc_sdk::test::{host_read_buffer, host_write_buffer};
use massa_sc_sdk::{encode_length_prefixed, get_parameters};

#[test]
fn test_basic_build() {
    println!("test_basic: ok");
}

#[test]
fn host_write_then_get_parameters_returns_the_bytes() {
    let mut mem = SharedMem::new();
    let ptr = host_write_buffer(&mut mem, &[7, 8, 9]);
    assert_eq!(get_parameters(&mut mem, ptr), vec![7, 8, 9]);
}

#[test]
fn get_parameters_empties_the_buffer() {
    let mut mem = SharedMem::new();
    let ptr = host_write_buffer(&mut mem, &[1, 2]);
    assert_eq!(get_parameters(&mut mem, ptr), vec![1, 2]);
    // a new write is needed before the next read
    let ptr = host_write_buffer(&mut mem, &[]);
    assert_eq!(get_parameters(&mut mem, ptr), Vec::<u8>::new());
}

#[test]
fn myalloc_gives_zeroed_bytes_of_the_requested_size() {
    let mut mem = SharedMem::new();
    let ptr = mem.myalloc(5);
    assert_eq!(get_parameters(&mut mem, ptr), vec![0, 0, 0, 0, 0]);
}

#[test]
fn encode_length_prefixed_puts_the_length_first() {
    let mut mem = SharedMem::new();
    let ptr = encode_length_prefixed(&mut mem, vec![0xaa, 0xbb, 0xcc]);
    assert_eq!(
        get_parameters(&mut mem, ptr),
        vec![3, 0, 0, 0, 0xaa, 0xbb, 0xcc]
    );
}

#[test]
fn encode_length_prefixed_little_endian_length() {
    let mut mem = SharedMem::new();
    let data = vec![5u8; 0x0102];
    let ptr = encode_length_prefixed(&mut mem, data.clone());
    let framed = get_parameters(&mut mem, ptr);
    assert_eq!(&framed[..4], &[0x02, 0x01, 0, 0]);
    assert_eq!(&framed[4..], &data[..]);
}

#[test]
fn encode_length_prefixed_empty_payload() {
    let mut mem = SharedMem::new();
    let ptr = encode_length_prefixed(&mut mem, vec![]);
    assert_eq!(get_parameters(&mut mem, ptr), vec![0, 0, 0, 0]);
}

#[test]
fn frame_then_host_read_gives_the_payload_back() {
    let mut mem = SharedMem::new();
    let ptr = encode_length_prefixed(&mut mem, b"hello".to_vec());
    assert_eq!(host_read_buffer(&mut mem, ptr), b"hello".to_vec());
}

#[test]
fn host_read_of_an_empty_frame() {
    let mut mem = SharedMem::new();
    let ptr = encode_length_prefixed(&mut mem, vec![]);
    assert_eq!(host_read_buffer(&mut mem, ptr), Vec::<u8>::new());
}

#[test]
fn host_read_of_a_frame_the_host_wrote() {
    let mut mem = SharedMem::new();
    let ptr = host_write_buffer(&mut mem, &[2, 0, 0, 0, 41, 42]);
    assert_eq!(host_read_buffer(&mut mem, ptr), vec![41, 42]);
}

#[test]
fn method_forms_agree_with_free_functions() {
    let mut mem = SharedMem::new();
    let ptr = mem.host_write_buffer(&[4, 5]);
    assert_eq!(mem.get_parameters(ptr), vec![4, 5]);
    let ptr = mem.encode_length_prefixed(vec![6]);
    assert_eq!(mem.host_read_buffer(ptr), vec![6]);
}

#[test]
fn state_queries_follow_the_protocol() {
    let mut mem = SharedMem::new();
    assert!(mem.is_shared_mem_consumed());
    let ptr = mem.myalloc(2);
    assert!(!mem.is_shared_mem_consumed());
    assert_eq!(mem.get_shared_mem_as_u32(), ptr);
    get_parameters(&mut mem, ptr);
    assert!(mem.is_shared_mem_consumed());
}

#[test]
fn holds_frame_checks_the_length_prefix() {
    let mut mem = SharedMem::new();
    assert!(!mem.holds_frame());
    host_write_buffer(&mut mem, &[1, 0, 0, 0, 9]);
    assert!(mem.holds_frame());
    host_write_buffer(&mut mem, &[2, 0, 0, 0, 9]);
    assert!(!mem.holds_frame());
    host_write_buffer(&mut mem, &[0, 0, 0]);
    assert!(!mem.holds_frame());
    encode_length_prefixed(&mut mem, vec![1, 2, 3]);
    assert!(mem.holds_frame());
}
