use vstd::prelude::*;

verus! {

/// Opcode of a read at an offset.
pub const IORING_OP_READ: u8 = 22;

/// Opcode of a write at an offset.
pub const IORING_OP_WRITE: u8 = 23;

/// Opcode of a socket send.
pub const IORING_OP_SEND: u8 = 26;

/// Opcode of a socket receive.
pub const IORING_OP_RECV: u8 = 27;

/// Submission flag asking the kernel to pick a buffer from a buffer group.
pub const IOSQE_BUFFER_SELECT: u8 = 32;

/// Receive flag (held in `ioprio`) that keeps a receive armed for many completions.
pub const IORING_RECV_MULTISHOT: u16 = 2;

/// Socket flag asking to wait for the full request.
pub const MSG_WAITALL: i32 = 0x100;

/// A submission queue entry, field by field as the kernel reads it.
///
/// Fields that share storage in the kernel's layout share one field here:
/// `off` (also `addr2`), `addr`, `op_flags` (`rw_flags`, `msg_flags`, ...),
/// `buf_index` (also `buf_group`) and `file_index` (also `splice_fd_in`).
#[derive(Clone, Copy, PartialEq, Eq, Structural, Debug)]
pub struct SubmissionEntry {
    pub opcode: u8,
    pub flags: u8,
    pub ioprio: u16,
    pub fd: i32,
    pub off: u64,
    pub addr: u64,
    pub len: u32,
    pub op_flags: u32,
    pub user_data: u64,
    pub buf_index: u16,
    pub personality: u16,
    pub file_index: u32,
    pub addr3: u64,
    pub pad2: u64,
}

/// The 32-bit pattern of a signed flag word, as the kernel stores it.
pub open spec fn flag_bits(flags: i32) -> u32 {
    flags as u32
}

impl SubmissionEntry {
    /// An entry with every field zero.
    pub fn zeroed() -> (e: SubmissionEntry)
        ensures
            e == SubmissionEntry::spec_zeroed(),
    {
        SubmissionEntry {
            opcode: 0,
            flags: 0,
            ioprio: 0,
            fd: 0,
            off: 0,
            addr: 0,
            len: 0,
            op_flags: 0,
            user_data: 0,
            buf_index: 0,
            personality: 0,
            file_index: 0,
            addr3: 0,
            pad2: 0,
        }
    }

    pub open spec fn spec_zeroed() -> SubmissionEntry {
        SubmissionEntry {
            opcode: 0,
            flags: 0,
            ioprio: 0,
            fd: 0,
            off: 0,
            addr: 0,
            len: 0,
            op_flags: 0,
            user_data: 0,
            buf_index: 0,
            personality: 0,
            file_index: 0,
            addr3: 0,
            pad2: 0,
        }
    }
}

fn flags_to_bits(flags: i32) -> (b: u32)
    ensures
        b == flag_bits(flags),
{
    flags as u32
}

/// Prepares `sqe` for a read of `len` bytes at `offset` of `fd` into the buffer at `addr`.
pub fn read_at(sqe: &mut SubmissionEntry, fd: i32, addr: u64, len: u32, offset: u64)
    ensures
        *final(sqe) == (SubmissionEntry {
            opcode: IORING_OP_READ,
            fd,
            off: offset,
            addr,
            len,
            ..*old(sqe)
        }),
{
    sqe.opcode = IORING_OP_READ;
    sqe.fd = fd;
    sqe.off = offset;
    sqe.addr = addr;
    sqe.len = len;
}

/// Prepares `sqe` for a receive of at most `len` bytes from socket `fd` into the
/// buffer at `addr`, with the socket flags `flags`.
pub fn recv(sqe: &mut SubmissionEntry, fd: i32, addr: u64, len: u32, flags: i32)
    ensures
        *final(sqe) == (SubmissionEntry {
            opcode: IORING_OP_RECV,
            fd,
            addr,
            op_flags: flag_bits(flags),
            len,
            ..*old(sqe)
        }),
{
    sqe.opcode = IORING_OP_RECV;
    sqe.fd = fd;
    sqe.addr = addr;
    sqe.op_flags = flags_to_bits(flags);
    sqe.len = len;
}

/// Prepares `sqe` for a write of `len` bytes from the buffer at `addr` to `fd` at `offset`.
pub fn write_at(sqe: &mut SubmissionEntry, fd: i32, addr: u64, len: u32, offset: u64)
    ensures
        *final(sqe) == (SubmissionEntry {
            opcode: IORING_OP_WRITE,
            fd,
            off: offset,
            addr,
            len,
            ..*old(sqe)
        }),
{
    sqe.opcode = IORING_OP_WRITE;
    sqe.fd = fd;
    sqe.off = offset;
    sqe.addr = addr;
    sqe.len = len;
}

/// Prepares `sqe` for a send of `len` bytes from the buffer at `addr` on socket `fd`,
/// with the socket flags `flags`.
pub fn send(sqe: &mut SubmissionEntry, fd: i32, addr: u64, len: u32, flags: i32)
    ensures
        *final(sqe) == (SubmissionEntry {
            opcode: IORING_OP_SEND,
            fd,
            addr,
            op_flags: flag_bits(flags),
            len,
            ..*old(sqe)
        }),
{
    sqe.opcode = IORING_OP_SEND;
    sqe.fd = fd;
    sqe.addr = addr;
    sqe.op_flags = flags_to_bits(flags);
    sqe.len = len;
}

/// Prepares `sqe` for a multishot receive on socket `fd` that takes its buffers
/// from the group `buf_group`. `MSG_WAITALL` cannot be combined with it.
pub fn multishot_recv(sqe: &mut SubmissionEntry, fd: i32, flags: i32, buf_group: u16)
    requires
        flags & MSG_WAITALL == 0,
    ensures
        *final(sqe) == (SubmissionEntry {
            opcode: IORING_OP_RECV,
            fd,
            op_flags: flag_bits(flags),
            ioprio: IORING_RECV_MULTISHOT,
            buf_index: buf_group,
            flags: old(sqe).flags | IOSQE_BUFFER_SELECT,
            ..*old(sqe)
        }),
{
    sqe.opcode = IORING_OP_RECV;
    sqe.fd = fd;
    sqe.op_flags = flags_to_bits(flags);
    sqe.ioprio = IORING_RECV_MULTISHOT;
    sqe.buf_index = buf_group;
    sqe.flags = sqe.flags | IOSQE_BUFFER_SELECT;
}

/// The flag word the kernel reads is the 32-bit two's-complement pattern of
/// the signed flags: the same number when it is not negative, and 2^32 more
/// when it is.
pub proof fn lemma_flag_bits_pattern(flags: i32)
    ensures
        flag_bits(flags) as int == if flags >= 0 {
            flags as int
        } else {
            flags as int + 0x1_0000_0000
        },
{
    let b: u32 = flags as u32;
    assert(flags >= 0 ==> b == flags) by (bit_vector)
        requires
            b == flags as u32,
    ;
    assert(flags < 0 ==> b as int == flags as int + 0x1_0000_0000) by (bit_vector)
        requires
            b == flags as u32,
    ;
}

} // verus!
