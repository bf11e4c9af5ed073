use ws_uring::cqe::{
    BufferRequest, Completion, CompletionEntry, IORING_CQE_F_BUFFER, IORING_CQE_F_BUF_MORE,
};
use ws_uring::net::{StreamState, WouldBlock, FIRST_SEND_ID};
use ws_uring::op::{
    IORING_OP_RECV, IORING_OP_SEND, IORING_RECV_MULTISHOT, IOSQE_BUFFER_SELECT, MSG_WAITALL,
};
use ws_uring::read_buf::KernelBuffer;
use ws_uring::ring::{IoUring, Ring, SubmissionQueue};
use ws_uring::user_data::{Event, UserData};
use ws_uring::SubmissionEntry;

fn recv_cqe(owner: u16, req: u32, bid: u16, res: i32) -> CompletionEntry {
    CompletionEntry {
        user_data: UserData::from_parts(Event::MultishortRecv.as_u8(), owner, req).as_u64(),
        res,
        flags: ((bid as u32) << 16) | IORING_CQE_F_BUFFER,
    }
}

fn kbuf(bytes: &[u8], bid: u16, bgid: u16) -> KernelBuffer {
    KernelBuffer { data: bytes.to_vec(), data_len: bytes.len(), bid, bgid, buf_len: 1500 }
}

fn ring(entries: u32) -> Ring {
    Ring::from_raw_ptr(IoUring {
        sq: SubmissionQueue {
            sqe_tail: 0,
            ring_mask: entries - 1,
            ring_entries: entries,
            sqes: vec![SubmissionEntry::zeroed(); entries as usize],
        },
    })
}

#[test]
fn accepted_completions() {
    assert!(recv_cqe(1, 2, 3, 10).is_accepted());
    assert!(!recv_cqe(1, 2, 3, 0).is_accepted());
    assert!(!recv_cqe(1, 2, 3, -104).is_accepted());
    let more = CompletionEntry { user_data: 0, res: 5, flags: IORING_CQE_F_BUF_MORE };
    assert!(!more.is_accepted());
    let plain = CompletionEntry { user_data: 0, res: 0, flags: 0 };
    assert!(plain.is_accepted());
}

#[test]
fn buffer_request_reads_bid_and_group() {
    let cqe = recv_cqe(4, 1204, 17, 300);
    assert_eq!(
        cqe.buffer_request(),
        Some(BufferRequest { bgid: 4, bid: 17, data_len: 300 })
    );
    let plain = CompletionEntry { user_data: 5, res: 8, flags: 0 };
    assert_eq!(plain.buffer_request(), None);
}

#[test]
fn completion_hands_over_its_buffer_once() {
    let cqe = recv_cqe(2, 1202, 5, 3);
    let mut c = Completion::from_raw_event(cqe, Some(kbuf(b"xyz", 5, 2)));
    assert_eq!(*c.as_cqe_ref(), cqe);
    assert_eq!(c.user_data.owner(), 2);
    assert_eq!(c.user_data.req(), 1202);
    let b = c.take_kernel_buf();
    assert_eq!(b.map(|b| b.data), Some(b"xyz".to_vec()));
    assert!(c.take_kernel_buf().is_none());
}

#[test]
fn new_stream_state() {
    let s = StreamState::new(3, 1203);
    assert_eq!(s.owner_id, 3);
    assert_eq!(s.multishort_recv_id, 1203);
    assert_eq!(s.send_id, FIRST_SEND_ID);
    assert!(s.pending_sent.is_empty());
    assert!(!s.nonblocking);
}

#[test]
fn send_ids_wrap_around() {
    let mut s = StreamState::new(0, 0);
    s.send_id = u32::MAX;
    assert_eq!(s.next_send_id(), u32::MAX);
    assert_eq!(s.next_send_id(), 0);
    assert_eq!(s.send_id, 1);
}

#[test]
fn set_nonblocking_records_the_mode() {
    let mut s = StreamState::new(0, 0);
    s.set_nonblocking(true);
    assert!(s.nonblocking);
    s.set_nonblocking(false);
    assert!(!s.nonblocking);
}

#[test]
fn write_queues_a_send_and_its_completion_retires_it() {
    let mut s = StreamState::new(2, 1202);
    let mut r = ring(4);
    let (n, idx) = s.write_nonblocking(&mut r, 9, b"ping".to_vec(), 0x7000, 0);
    assert_eq!((n, idx), (4, 0));
    let user_data = UserData::from_parts(0, 2, FIRST_SEND_ID).as_u64();
    assert_eq!(s.pending_sent.get(&user_data), Some(&b"ping".to_vec()));
    assert_eq!(s.send_id, FIRST_SEND_ID + 1);
    let e = r.as_ref_mut().sq.sqes[0];
    assert_eq!(e.opcode, IORING_OP_SEND);
    assert_eq!(e.fd, 9);
    assert_eq!(e.addr, 0x7000);
    assert_eq!(e.len, 4);
    assert_eq!(e.op_flags, MSG_WAITALL as u32);
    assert_eq!(e.user_data, user_data);

    let cqe = CompletionEntry { user_data, res: 4, flags: 0 };
    let c = Completion::from_raw_event(cqe, None);
    s.on_completion(c);
    assert!(s.pending_sent.is_empty());
}

#[test]
fn received_bytes_are_read_in_order_then_would_block() {
    let mut s = StreamState::new(1, 1201);
    s.set_nonblocking(true);
    let mut dst = [0u8; 4];
    assert_eq!(s.read_nonblocking(&mut dst).0, Err(WouldBlock));

    let c1 = Completion::from_raw_event(recv_cqe(1, 1201, 0, 3), Some(kbuf(b"abc", 0, 1)));
    s.on_completion(c1);
    let c2 = Completion::from_raw_event(recv_cqe(1, 1201, 1, 2), Some(kbuf(b"de", 1, 1)));
    s.on_completion(c2);

    let (r, released) = s.read_nonblocking(&mut dst);
    assert_eq!(r, Ok(3));
    assert_eq!(&dst[..3], b"abc");
    assert_eq!(released.map(|b| b.bid), Some(0));
    let (r, released) = s.read_nonblocking(&mut dst);
    assert_eq!(r, Ok(2));
    assert_eq!(&dst[..2], b"de");
    assert_eq!(released.map(|b| b.bid), Some(1));
    assert_eq!(s.read_nonblocking(&mut dst).0, Err(WouldBlock));
}

#[test]
fn armed_receive_is_tagged_for_its_stream() {
    let s = StreamState::new(3, 1203);
    let mut r = ring(4);
    let idx = s.arm_multishot_recv(&mut r, 11, 0);
    assert_eq!(idx, 0);
    let e = r.as_ref_mut().sq.sqes[0];
    assert_eq!(e.opcode, IORING_OP_RECV);
    assert_eq!(e.fd, 11);
    assert_eq!(e.ioprio, IORING_RECV_MULTISHOT);
    assert_eq!(e.buf_index, 3);
    assert_eq!(e.flags, IOSQE_BUFFER_SELECT);
    let u = UserData::from_packed(e.user_data);
    assert_eq!((u.event(), u.owner(), u.req()), (1, 3, 1203));
    assert_eq!(r.as_ref_mut().sq.sqe_tail, 1);
}

#[test]
fn every_received_byte_comes_out_once_and_every_buffer_goes_back() {
    let mut s = StreamState::new(1, 1201);
    s.set_nonblocking(true);
    let chunks: [&[u8]; 3] = [b"hello ", b"ring", b"!"];
    for (bid, chunk) in chunks.iter().enumerate() {
        let cqe = recv_cqe(1, 1201, bid as u16, chunk.len() as i32);
        let c = Completion::from_raw_event(cqe, Some(kbuf(chunk, bid as u16, 1)));
        s.on_completion(c);
    }
    let mut out = Vec::new();
    let mut returned = Vec::new();
    let mut dst = [0u8; 3];
    loop {
        let (r, released) = s.read_nonblocking(&mut dst);
        if let Some(b) = released {
            returned.push(b.bid);
        }
        match r {
            Ok(n) => out.extend_from_slice(&dst[..n]),
            Err(WouldBlock) => break,
        }
    }
    assert_eq!(out, b"hello ring!".to_vec());
    assert_eq!(returned, vec![0, 1, 2]);
}
