//! The operation encoder: one ring submission entry for each of the four kinds of
//! operation, tagged with the correlation identifier of the descriptor that owns the
//! completion.

use vstd::prelude::*;

verus! {

/// A submission queue entry of the ring.
#[verifier::external_type_specification]
#[verifier::external_body]
pub struct ExSubmissionEntry(io_uring::squeue::Entry);

/// A socket address as the operating system lays it out.
#[verifier::external_type_specification]
#[verifier::external_body]
pub struct ExSocketAddress(libc::sockaddr);

/// The user data that an entry carries: what `io_uring::squeue::Entry::get_user_data`
/// returns of it.
pub uninterp spec fn entry_user_data(entry: io_uring::squeue::Entry) -> u64;

/// The opcode of an entry: what `io_uring::squeue::Entry::get_opcode` returns of it.
pub uninterp spec fn entry_opcode(entry: io_uring::squeue::Entry) -> u32;

/// The correlation identifier of a descriptor: its value in the ring's tagging width.
pub open spec fn tag(fd: i32) -> u64
    recommends
        fd >= 0,
{
    fd as u64
}

/// The descriptor that a correlation identifier stands for, if it stands for one.
pub open spec fn descriptor(user_data: u64) -> Option<i32> {
    if user_data <= i32::MAX as u64 {
        Some(user_data as i32)
    } else {
        None
    }
}

/// A length as the ring takes it: lengths beyond its width are cut to the largest one.
pub open spec fn ring_len(len: nat) -> u32 {
    if len <= u32::MAX as nat {
        len as u32
    } else {
        u32::MAX
    }
}

/// What the ring is asked to do.
#[derive(Clone, Copy, PartialEq, Eq, Debug, Structural)]
pub enum Operation {
    /// Accept one pending connection on the listening descriptor `fd`.
    Accept { fd: i32 },
    /// Complete once `fd` has data to read, without consuming any.
    PollReadable { fd: i32 },
    /// Read up to `len` bytes from `fd` into its receive buffer.
    Receive { fd: i32, len: u32 },
    /// Write the first `len` bytes of the response pending for `fd`.
    Send { fd: i32, len: u32 },
}

impl Operation {
    /// The descriptor that owns the operation's completion.
    pub open spec fn fd(self) -> i32 {
        match self {
            Operation::Accept { fd } => fd,
            Operation::PollReadable { fd } => fd,
            Operation::Receive { fd, .. } => fd,
            Operation::Send { fd, .. } => fd,
        }
    }

    /// The ring's opcode of the operation.
    pub open spec fn opcode(self) -> u32 {
        match self {
            Operation::Accept { .. } => 13,
            Operation::PollReadable { .. } => 6,
            Operation::Receive { .. } => 27,
            Operation::Send { .. } => 26,
        }
    }

    /// The descriptor that owns the operation's completion.
    pub fn descriptor(&self) -> (fd: i32)
        ensures
            fd == self.fd(),
    {
        match self {
            Operation::Accept { fd } => *fd,
            Operation::PollReadable { fd } => *fd,
            Operation::Receive { fd, .. } => *fd,
            Operation::Send { fd, .. } => *fd,
        }
    }
}

/// An operation together with the entry that asks the ring for it.
#[derive(Debug)]
pub struct Submission {
    /// What the entry asks for.
    pub operation: Operation,
    /// The entry to push on the submission queue. It refers to the buffers it was
    /// encoded with, which stay where they are until the operation has completed.
    pub entry: io_uring::squeue::Entry,
}

impl Submission {
    /// Whether the entry is one of the operation: it has the operation's opcode, and
    /// is tagged with the correlation identifier of the operation's descriptor.
    pub open spec fn agrees(self) -> bool {
        &&& entry_opcode(self.entry) == self.operation.opcode()
        &&& entry_user_data(self.entry) == tag(self.operation.fd())
    }
}

/// The correlation identifier under which operations on `fd` are submitted.
pub fn correlation_id(fd: i32) -> (user_data: u64)
    requires
        fd >= 0,
    ensures
        user_data == tag(fd),
        descriptor(user_data) == Some(fd),
{
    fd as u64
}

/// The descriptor whose operation completed with this correlation identifier, or
/// `None` where no descriptor has that identifier.
pub fn descriptor_of(user_data: u64) -> (fd: Option<i32>)
    ensures
        fd == descriptor(user_data),
        fd matches Some(d) ==> d >= 0 && tag(d) == user_data,
{
    if user_data <= i32::MAX as u64 {
        Some(user_data as i32)
    } else {
        None
    }
}

/// The length of `bytes` as the ring takes it.
fn ring_len_of(bytes: &Vec<u8>) -> (len: u32)
    ensures
        len == ring_len(bytes@.len()),
{
    if bytes.len() <= u32::MAX as usize {
        bytes.len() as u32
    } else {
        u32::MAX
    }
}

/// Builds with `io_uring::opcode::PollAdd` the entry of a poll on `fd` for the event
/// `libc::POLLIN`, data to read, and sets its user data. The entry has the opcode of a
/// poll, which is 6, and the user data given. Nothing is claimed of the rest of the
/// entry.
#[verifier::external_body]
fn poll_readable_entry(fd: i32, user_data: u64) -> (entry: io_uring::squeue::Entry)
    ensures
        entry_opcode(entry) == 6,
        entry_user_data(entry) == user_data,
{
    io_uring::opcode::PollAdd::new(io_uring::types::Fd(fd), libc::POLLIN as u32)
        .build()
        .user_data(user_data)
}

/// Builds with `io_uring::opcode::Recv` the entry of a receive of up to `len` bytes
/// from `fd` into `buffer`, and sets its user data. The entry has the opcode of a
/// receive, which is 27, and the user data given; nothing is claimed of the rest of
/// it. Building the entry performs no I/O: the buffer is returned as it was.
#[verifier::external_body]
fn recv_entry(fd: i32, buffer: &mut Vec<u8>, len: u32, user_data: u64) -> (entry:
    io_uring::squeue::Entry)
    ensures
        final(buffer)@ == old(buffer)@,
        entry_opcode(entry) == 27,
        entry_user_data(entry) == user_data,
{
    io_uring::opcode::Recv::new(io_uring::types::Fd(fd), buffer.as_mut_ptr(), len)
        .build()
        .user_data(user_data)
}

/// Builds with `io_uring::opcode::Send` the entry of a send of the first `len` bytes
/// of `bytes` to `fd`, and sets its user data. The entry has the opcode of a send,
/// which is 26, and the user data given. Nothing is claimed of the rest of the entry.
#[verifier::external_body]
fn send_entry(fd: i32, bytes: &Vec<u8>, len: u32, user_data: u64) -> (entry:
    io_uring::squeue::Entry)
    ensures
        entry_opcode(entry) == 26,
        entry_user_data(entry) == user_data,
{
    io_uring::opcode::Send::new(io_uring::types::Fd(fd), bytes.as_ptr(), len)
        .build()
        .user_data(user_data)
}

/// Builds with `io_uring::opcode::Accept` the entry of an accept on `fd` that writes
/// the peer's address to `address` and its length to `address_len`, and sets its user
/// data. The entry has the opcode of an accept, which is 13, and the user data given;
/// nothing is claimed of the rest of it. Building the entry performs no I/O: the
/// address and its length are returned as they were.
#[verifier::external_body]
fn accept_entry(
    fd: i32,
    address: &mut libc::sockaddr,
    address_len: &mut libc::socklen_t,
    user_data: u64,
) -> (entry: io_uring::squeue::Entry)
    ensures
        *final(address) == *old(address),
        *final(address_len) == *old(address_len),
        entry_opcode(entry) == 13,
        entry_user_data(entry) == user_data,
{
    io_uring::opcode::Accept::new(io_uring::types::Fd(fd), address, address_len)
        .build()
        .user_data(user_data)
}

/// Asks for one pending connection on `listening_fd` to be accepted. The peer's
/// address goes to `address` and its length to `address_len`; both stay in place until
/// the completion arrives, and encoding changes neither. The completion is tagged with
/// the listening descriptor.
pub fn encode_accept(
    listening_fd: i32,
    address: &mut libc::sockaddr,
    address_len: &mut libc::socklen_t,
) -> (submission: Submission)
    requires
        listening_fd >= 0,
    ensures
        submission.operation == (Operation::Accept { fd: listening_fd }),
        submission.agrees(),
        *final(address) == *old(address),
        *final(address_len) == *old(address_len),
{
    let user_data: u64 = correlation_id(listening_fd);
    let entry = accept_entry(listening_fd, address, address_len, user_data);
    Submission { operation: Operation::Accept { fd: listening_fd }, entry }
}

/// Asks for a completion once `fd` has data to read. No data is consumed.
pub fn encode_poll_readable(fd: i32) -> (submission: Submission)
    requires
        fd >= 0,
    ensures
        submission.operation == (Operation::PollReadable { fd }),
        submission.agrees(),
{
    let user_data: u64 = correlation_id(fd);
    let entry = poll_readable_entry(fd, user_data);
    Submission { operation: Operation::PollReadable { fd }, entry }
}

/// Asks for a read from `fd` of as many bytes as `buffer` holds, at most the ring's
/// largest length. Encoding performs no I/O and leaves the buffer as it is. From the
/// push of the entry until the completion arrives the buffer stays in place and is
/// the operation's alone.
pub fn encode_receive(fd: i32, buffer: &mut Vec<u8>) -> (submission: Submission)
    requires
        fd >= 0,
    ensures
        submission.operation == (Operation::Receive { fd, len: ring_len(old(buffer)@.len()) }),
        submission.agrees(),
        final(buffer)@ == old(buffer)@,
{
    let user_data: u64 = correlation_id(fd);
    let len: u32 = ring_len_of(buffer);
    let entry = recv_entry(fd, buffer, len, user_data);
    Submission { operation: Operation::Receive { fd, len }, entry }
}

/// Asks for `bytes` to be written to `fd`, at most the ring's largest length of them.
/// The bytes stay in place until the completion arrives.
pub fn encode_send(fd: i32, bytes: &Vec<u8>) -> (submission: Submission)
    requires
        fd >= 0,
    ensures
        submission.operation == (Operation::Send { fd, len: ring_len(bytes@.len()) }),
        submission.agrees(),
{
    let user_data: u64 = correlation_id(fd);
    let len: u32 = ring_len_of(bytes);
    let entry = send_entry(fd, bytes, len, user_data);
    Submission { operation: Operation::Send { fd, len }, entry }
}

} // verus!
