use io_uring::opcode;
use rusty::encoder::{
    correlation_id, descriptor_of, encode_accept, encode_poll_readable, encode_receive,
    encode_send, Operation,
};

#[test]
fn correlation_id_is_the_descriptors_value() {
    assert_eq!(correlation_id(0), 0);
    assert_eq!(correlation_id(5), 5);
    assert_eq!(correlation_id(i32::MAX), 2147483647);
}

#[test]
fn descriptor_of_gives_the_descriptor_back() {
    assert_eq!(descriptor_of(0), Some(0));
    assert_eq!(descriptor_of(5), Some(5));
    assert_eq!(descriptor_of(2147483647), Some(i32::MAX));
    assert_eq!(descriptor_of(correlation_id(1023)), Some(1023));
}

#[test]
fn identifier_beyond_every_descriptor_has_none() {
    assert_eq!(descriptor_of(2147483648), None);
    assert_eq!(descriptor_of(1 << 32), None);
    assert_eq!(descriptor_of((1 << 32) + 5), None);
    assert_eq!(descriptor_of(u64::MAX), None);
}

#[test]
fn operation_knows_its_descriptor() {
    assert_eq!(Operation::Accept { fd: 3 }.descriptor(), 3);
    assert_eq!(Operation::PollReadable { fd: 4 }.descriptor(), 4);
    assert_eq!(Operation::Receive { fd: 5, len: 2048 }.descriptor(), 5);
    assert_eq!(Operation::Send { fd: 6, len: 10 }.descriptor(), 6);
}

#[test]
fn poll_entry_is_tagged_with_the_descriptor() {
    let submission = encode_poll_readable(5);
    assert_eq!(submission.operation, Operation::PollReadable { fd: 5 });
    assert_eq!(submission.entry.get_user_data(), 5);
    assert_eq!(submission.entry.get_opcode(), opcode::PollAdd::CODE as u32);
    assert_eq!(submission.entry.get_opcode(), 6);
}

#[test]
fn receive_entry_asks_for_the_whole_buffer() {
    let mut buffer = vec![7u8; 2048];
    let submission = encode_receive(9, &mut buffer);
    assert_eq!(submission.operation, Operation::Receive { fd: 9, len: 2048 });
    assert_eq!(submission.entry.get_user_data(), 9);
    assert_eq!(submission.entry.get_opcode(), opcode::Recv::CODE as u32);
    assert_eq!(submission.entry.get_opcode(), 27);
    assert_eq!(buffer, vec![7u8; 2048]);
}

#[test]
fn receive_entry_leaves_a_zeroed_buffer_zeroed() {
    let mut buffer = vec![0u8; 2048];
    let submission = encode_receive(5, &mut buffer);
    assert_eq!(submission.operation, Operation::Receive { fd: 5, len: 2048 });
    assert_eq!(submission.entry.get_user_data(), 5);
    assert_eq!(buffer, vec![0u8; 2048]);
}

#[test]
fn receive_entry_leaves_the_bytes_of_the_buffer() {
    let mut buffer: Vec<u8> = (0..=255).collect();
    let before = buffer.clone();
    encode_receive(9, &mut buffer);
    assert_eq!(buffer, before);
}

#[test]
fn receive_entry_for_an_empty_buffer() {
    let mut buffer = Vec::new();
    let submission = encode_receive(9, &mut buffer);
    assert_eq!(submission.operation, Operation::Receive { fd: 9, len: 0 });
    assert!(buffer.is_empty());
}

#[test]
fn send_entry_asks_for_all_the_bytes() {
    let bytes = b"HTTP/1.1 200 OK\r\nContent-Length: 0\r\n\r\n".to_vec();
    let submission = encode_send(12, &bytes);
    assert_eq!(submission.operation, Operation::Send { fd: 12, len: 38 });
    assert_eq!(submission.entry.get_user_data(), 12);
    assert_eq!(submission.entry.get_opcode(), opcode::Send::CODE as u32);
    assert_eq!(submission.entry.get_opcode(), 26);
}

#[test]
fn accept_entry_is_tagged_with_the_listening_descriptor() {
    let mut address =
        libc::sockaddr { sa_family: libc::AF_INET as libc::sa_family_t, sa_data: [0; 14] };
    let mut address_len: libc::socklen_t = 16;
    let submission = encode_accept(3, &mut address, &mut address_len);
    assert_eq!(submission.operation, Operation::Accept { fd: 3 });
    assert_eq!(submission.entry.get_user_data(), 3);
    assert_eq!(submission.entry.get_opcode(), opcode::Accept::CODE as u32);
    assert_eq!(submission.entry.get_opcode(), 13);
}

#[test]
fn accept_entry_leaves_the_address_and_its_length() {
    let mut address =
        libc::sockaddr { sa_family: libc::AF_INET as libc::sa_family_t, sa_data: [7; 14] };
    let mut address_len: libc::socklen_t = 16;
    encode_accept(3, &mut address, &mut address_len);
    assert_eq!(address_len, 16);
    assert_eq!(address.sa_family, libc::AF_INET as libc::sa_family_t);
    assert_eq!(address.sa_data, [7; 14]);
    let mut short: libc::socklen_t = 4;
    encode_accept(3, &mut address, &mut short);
    assert_eq!(short, 4);
}

#[test]
fn entries_of_different_operations_differ_in_their_opcode() {
    let poll = encode_poll_readable(4);
    let send = encode_send(4, &vec![1, 2, 3]);
    let mut buffer = vec![0u8; 16];
    let receive = encode_receive(4, &mut buffer);
    assert_ne!(poll.entry.get_opcode(), send.entry.get_opcode());
    assert_ne!(poll.entry.get_opcode(), receive.entry.get_opcode());
    assert_ne!(send.entry.get_opcode(), receive.entry.get_opcode());
}
