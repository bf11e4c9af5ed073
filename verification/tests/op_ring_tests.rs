use ws_uring::op::{
    multishot_recv, read_at, recv, send, write_at, SubmissionEntry, IORING_OP_READ,
    IORING_OP_RECV, IORING_OP_SEND, IORING_OP_WRITE, IORING_RECV_MULTISHOT, IOSQE_BUFFER_SELECT,
};
use ws_uring::ring::{
    io_uring_get_sqe, io_uring_initialize_sqe, io_uring_sqe_set_data, IoUring, Ring,
    SubmissionQueue,
};

fn dirty_entry() -> SubmissionEntry {
    SubmissionEntry {
        opcode: 9,
        flags: 7,
        ioprio: 5,
        fd: 42,
        off: 11,
        addr: 12,
        len: 13,
        op_flags: 14,
        user_data: 15,
        buf_index: 16,
        personality: 17,
        file_index: 18,
        addr3: 19,
        pad2: 20,
    }
}

fn queue(entries: u32, tail: u32) -> IoUring {
    IoUring {
        sq: SubmissionQueue {
            sqe_tail: tail,
            ring_mask: entries - 1,
            ring_entries: entries,
            sqes: vec![dirty_entry(); entries as usize],
        },
    }
}

#[test]
fn read_at_sets_read_fields() {
    let mut e = SubmissionEntry::zeroed();
    read_at(&mut e, 3, 0x1000, 64, 128);
    assert_eq!(e.opcode, IORING_OP_READ);
    assert_eq!(e.fd, 3);
    assert_eq!(e.addr, 0x1000);
    assert_eq!(e.len, 64);
    assert_eq!(e.off, 128);
    assert_eq!(e.op_flags, 0);
}

#[test]
fn write_at_sets_write_fields_and_keeps_others() {
    let mut e = dirty_entry();
    write_at(&mut e, 4, 0x2000, 32, 256);
    assert_eq!(e.opcode, IORING_OP_WRITE);
    assert_eq!(e.fd, 4);
    assert_eq!(e.addr, 0x2000);
    assert_eq!(e.len, 32);
    assert_eq!(e.off, 256);
    assert_eq!(e.user_data, 15);
    assert_eq!(e.flags, 7);
}

#[test]
fn recv_and_send_store_flag_bits() {
    let mut r = SubmissionEntry::zeroed();
    recv(&mut r, 5, 0x3000, 100, 0x40);
    assert_eq!(r.opcode, IORING_OP_RECV);
    assert_eq!(r.op_flags, 0x40);
    assert_eq!(r.len, 100);
    let mut s = SubmissionEntry::zeroed();
    send(&mut s, 6, 0x4000, 200, -1);
    assert_eq!(s.opcode, IORING_OP_SEND);
    assert_eq!(s.op_flags, u32::MAX);
    assert_eq!(s.fd, 6);
    assert_eq!(s.addr, 0x4000);
    assert_eq!(s.len, 200);
}

#[test]
fn multishot_recv_selects_a_buffer_group() {
    let mut e = dirty_entry();
    multishot_recv(&mut e, 8, 0, 3);
    assert_eq!(e.opcode, IORING_OP_RECV);
    assert_eq!(e.fd, 8);
    assert_eq!(e.op_flags, 0);
    assert_eq!(e.ioprio, IORING_RECV_MULTISHOT);
    assert_eq!(e.buf_index, 3);
    assert_eq!(e.flags, 7 | IOSQE_BUFFER_SELECT);
    assert_eq!(e.addr, 12);
}

#[test]
fn initialize_clears_only_inherited_fields() {
    let mut e = dirty_entry();
    io_uring_initialize_sqe(&mut e);
    assert_eq!(e.flags, 0);
    assert_eq!(e.ioprio, 0);
    assert_eq!(e.op_flags, 0);
    assert_eq!(e.buf_index, 0);
    assert_eq!(e.personality, 0);
    assert_eq!(e.file_index, 0);
    assert_eq!(e.addr3, 0);
    assert_eq!(e.pad2, 0);
    assert_eq!(e.opcode, 9);
    assert_eq!(e.fd, 42);
    assert_eq!(e.user_data, 15);
}

#[test]
fn set_data_sets_user_data() {
    let mut e = SubmissionEntry::zeroed();
    io_uring_sqe_set_data(&mut e, 0xABCD);
    assert_eq!(e.user_data, 0xABCD);
}

#[test]
fn get_sqe_hands_out_slots_in_order() {
    let mut ring = queue(4, 0);
    assert_eq!(io_uring_get_sqe(&mut ring, 0), Ok(0));
    assert_eq!(io_uring_get_sqe(&mut ring, 0), Ok(1));
    assert_eq!(ring.sq.sqe_tail, 2);
    assert_eq!(ring.sq.sqes[0].flags, 0);
    assert_eq!(ring.sq.sqes[2].flags, 7);
}

#[test]
fn get_sqe_refuses_when_full_and_changes_nothing() {
    let mut ring = queue(4, 4);
    let r = io_uring_get_sqe(&mut ring, 0);
    assert_eq!(r, Err("sq ring entries overflow"));
    assert_eq!(ring.sq.sqe_tail, 4);
    assert_eq!(ring.sq.sqes[0].flags, 7);
    // once the kernel consumed one entry there is room again
    assert_eq!(io_uring_get_sqe(&mut ring, 1), Ok(0));
    assert_eq!(ring.sq.sqe_tail, 5);
}

#[test]
fn get_sqe_wraps_the_tail_counter() {
    let mut ring = queue(8, u32::MAX);
    assert_eq!(io_uring_get_sqe(&mut ring, u32::MAX - 2), Ok(7));
    assert_eq!(ring.sq.sqe_tail, 0);
    assert_eq!(io_uring_get_sqe(&mut ring, u32::MAX - 2), Ok(0));
    assert_eq!(ring.sq.sqe_tail, 1);
}

#[test]
fn reserved_slot_differs_from_in_flight_slots() {
    // head 6, tail 9 on a ring of 4: positions 6, 7, 8 are in flight in slots 2, 3, 0
    let mut ring = queue(4, 9);
    let r = io_uring_get_sqe(&mut ring, 6);
    assert_eq!(r, Ok(1));
    assert!(![2usize, 3, 0].contains(&r.unwrap()));
}

#[test]
fn prep_send_fills_a_send_slot() {
    let mut ring = Ring::from_raw_ptr(queue(4, 2));
    let idx = ring._prep_send(10, 0x5000, 48, 0x100, 0);
    assert_eq!(idx, 2);
    let state = ring.as_ref_mut();
    let e = state.sq.sqes[2];
    assert_eq!(e.opcode, IORING_OP_SEND);
    assert_eq!(e.fd, 10);
    assert_eq!(e.addr, 0x5000);
    assert_eq!(e.len, 48);
    assert_eq!(e.op_flags, 0x100);
    assert_eq!(e.flags, 0);
    assert_eq!(e.user_data, 15);
    assert_eq!(state.sq.sqe_tail, 3);
}

#[test]
fn get_sqe_takes_the_last_free_slot_then_refuses() {
    let mut ring = queue(4, 5);
    assert_eq!(io_uring_get_sqe(&mut ring, 2), Ok(1));
    assert_eq!(io_uring_get_sqe(&mut ring, 2), Err("sq ring entries overflow"));
    assert_eq!(ring.sq.sqe_tail, 6);
}
