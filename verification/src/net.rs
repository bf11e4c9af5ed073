use vstd::prelude::*;
use std::collections::HashMap;
use crate::cqe::{Completion, IORING_CQE_F_BUFFER};
use crate::op::{
    flag_bits, multishot_recv, SubmissionEntry, IORING_OP_RECV, IORING_OP_SEND, IORING_RECV_MULTISHOT,
    IOSQE_BUFFER_SELECT, MSG_WAITALL,
};
use crate::read_buf::{read_step, KernelBuffer, KernelBufferVecReader};
use crate::ring::{
    counter_range, has_free_slot, initialized, io_uring_get_sqe, io_uring_sqe_set_data, Ring,
};
use crate::user_data::{event_of, owner_of, pack, req_of, Event, UserData};
use crate::RING_POOL_SIZE;

verus! {

/// The identifier of the first send of a stream.
pub const FIRST_SEND_ID: u32 = 1000;

/// A read found no data yet; the caller should try again later.
#[derive(Clone, Copy, PartialEq, Eq, Structural, Debug)]
pub struct WouldBlock;

/// The state of a stream that the ring drives: its received buffers, its
/// identifiers and the sends still in flight, keyed by their user data.
pub struct StreamState {
    pub inner: KernelBufferVecReader,
    pub owner_id: u16,
    pub multishort_recv_id: u32,
    pub send_id: u32,
    pub pending_sent: HashMap<u64, Vec<u8>>,
    pub nonblocking: bool,
}

impl StreamState {
    /// The received buffers are well formed and each has bytes left.
    pub open spec fn wf(&self) -> bool {
        self.inner.wf() && self.inner.all_have_bytes()
    }

    /// What a completion must be for this stream to handle it: its owner is
    /// this stream and its event is known; a send completion answers a send in
    /// flight with the full length sent and carries no buffer; a receive
    /// completion answers this stream's multishot receive with a buffer.
    pub open spec fn can_handle(&self, c: Completion) -> bool {
        let d = c.user_data@;
        &&& c.wf()
        &&& owner_of(d) == self.owner_id
        &&& event_of(d) <= 1
        &&& event_of(d) == 0 ==> {
            &&& c.cqe.res != 0
            &&& self.pending_sent@.contains_key(d)
            &&& self.pending_sent@[d]@.len() == c.cqe.res as usize
            &&& c.kernel_buf is None
        }
        &&& event_of(d) == 1 ==> {
            &&& req_of(d) == self.multishort_recv_id
            &&& c.cqe.res != 0
            &&& c.cqe.flags & IORING_CQE_F_BUFFER != 0
            &&& c.kernel_buf is Some
        }
    }

    /// A new stream state for `owner_id`, whose multishot receive carries `recv_id`.
    pub fn new(owner_id: u16, recv_id: u32) -> (s: StreamState)
        ensures
            s.wf(),
            s.inner.pending() == Seq::<u8>::empty(),
            s.inner.readers().len() == 0,
            s.owner_id == owner_id,
            s.multishort_recv_id == recv_id,
            s.send_id == FIRST_SEND_ID,
            s.pending_sent@ == Map::<u64, Vec<u8>>::empty(),
            !s.nonblocking,
    {
        StreamState {
            inner: KernelBufferVecReader::new(RING_POOL_SIZE as usize),
            owner_id,
            multishort_recv_id: recv_id,
            send_id: FIRST_SEND_ID,
            pending_sent: HashMap::new(),
            nonblocking: false,
        }
    }

    /// Records whether the stream is driven by the ring.
    pub fn set_nonblocking(&mut self, v: bool)
        ensures
            *final(self) == (StreamState { nonblocking: v, ..*old(self) }),
    {
        self.nonblocking = v;
    }

    /// Hands out the next send identifier; identifiers wrap around.
    pub fn next_send_id(&mut self) -> (id: u32)
        ensures
            id == old(self).send_id,
            final(self).send_id == (old(self).send_id + 1) % counter_range(),
            final(self).inner == old(self).inner,
            final(self).owner_id == old(self).owner_id,
            final(self).multishort_recv_id == old(self).multishort_recv_id,
            final(self).pending_sent@ == old(self).pending_sent@,
            final(self).nonblocking == old(self).nonblocking,
    {
        let ret = self.send_id;
        self.send_id = self.send_id.wrapping_add(1);
        ret
    }

    /// Consumes a completion owned by this stream. A send completion retires
    /// its pending send; a receive completion queues its buffer for reading.
    pub fn on_completion(&mut self, completion: Completion)
        requires
            old(self).wf(),
            old(self).can_handle(completion),
        ensures
            final(self).wf(),
            final(self).owner_id == old(self).owner_id,
            final(self).multishort_recv_id == old(self).multishort_recv_id,
            final(self).send_id == old(self).send_id,
            final(self).nonblocking == old(self).nonblocking,
            event_of(completion.user_data@) == 0 ==> {
                &&& final(self).pending_sent@ == old(self).pending_sent@.remove(
                    completion.user_data@,
                )
                &&& final(self).inner == old(self).inner
            },
            event_of(completion.user_data@) == 1 ==> {
                &&& final(self).pending_sent@ == old(self).pending_sent@
                &&& final(self).inner.pending() == old(self).inner.pending()
                    + completion.kernel_buf->0.bytes()
                &&& final(self).inner.readers().len() == old(self).inner.readers().len() + 1
                &&& final(self).inner.readers().drop_last() == old(self).inner.readers()
                &&& final(self).inner.readers().last().buffer() == completion.kernel_buf->0
            },
    {
        let mut completion = completion;
        let user_data = completion.user_data;
        match Event::from_u8(user_data.event()) {
            Event::Send => {
                let key = user_data.as_u64();
                let _pending = self.pending_sent.remove(&key);
            },
            Event::MultishortRecv => {
                let read_buf = completion.take_kernel_buf();
                match read_buf {
                    Some(b) => {
                        self.inner.push(b);
                    },
                    None => {
                        assert(false);
                    },
                }
            },
        }
    }

    /// The ring-driven half of a write: queues a send of `copied`, whose bytes
    /// sit at `addr`, on socket `fd`, waiting for the full length. The send's
    /// user data packs the send event, this stream's owner id and the next
    /// send id; the bytes stay in `pending_sent` under that user data until
    /// the send completes. Returns the number of bytes queued and the slot.
    pub fn write_nonblocking(
        &mut self,
        ring: &mut Ring,
        fd: i32,
        copied: Vec<u8>,
        addr: u64,
        kernel_head: u32,
    ) -> (r: (usize, usize))
        requires
            copied@.len() > 0,
            old(ring).state().sq.wf(),
            has_free_slot(
                old(ring).state().sq.sqe_tail,
                kernel_head,
                old(ring).state().sq.ring_entries,
            ),
        ensures
            r.0 == copied@.len(),
            r.1 == old(ring).state().sq.slot(old(ring).state().sq.sqe_tail),
            final(ring).state().sq.wf(),
            final(ring).state().sq.ring_mask == old(ring).state().sq.ring_mask,
            final(ring).state().sq.ring_entries == old(ring).state().sq.ring_entries,
            final(ring).state().sq.sqe_tail == (old(ring).state().sq.sqe_tail + 1)
                % counter_range(),
            final(ring).state().sq.sqes@ == old(ring).state().sq.sqes@.update(
                r.1 as int,
                SubmissionEntry {
                    opcode: IORING_OP_SEND,
                    fd,
                    addr,
                    op_flags: flag_bits(MSG_WAITALL),
                    len: copied@.len() as u32,
                    user_data: pack(0, old(self).owner_id, old(self).send_id),
                    ..initialized(old(ring).state().sq.sqes@[r.1 as int])
                },
            ),
            final(self).pending_sent@ == old(self).pending_sent@.insert(
                pack(0, old(self).owner_id, old(self).send_id),
                copied,
            ),
            final(self).send_id == (old(self).send_id + 1) % counter_range(),
            final(self).inner == old(self).inner,
            final(self).owner_id == old(self).owner_id,
            final(self).multishort_recv_id == old(self).multishort_recv_id,
            final(self).nonblocking == old(self).nonblocking,
    {
        let data_len = copied.len();
        let mut flags = 0i32;
        flags = flags | MSG_WAITALL;
        assert(0i32 | 0x100i32 == 0x100i32) by (bit_vector);
        let idx = ring._prep_send(fd, addr, data_len, flags, kernel_head);
        let send_id = self.next_send_id();
        let user_data = UserData::from_parts(Event::Send.as_u8(), self.owner_id, send_id);
        let sqe_ref = ring.as_ref_mut();
        let mut entry = sqe_ref.sq.sqes[idx];
        io_uring_sqe_set_data(&mut entry, user_data.as_u64());
        sqe_ref.sq.sqes.set(idx, entry);
        self.pending_sent.insert(user_data.as_u64(), copied);
        (data_len, idx)
    }

    /// Queues this stream's multishot receive on socket `fd`: takes a slot,
    /// tags it with user data packing the receive event, this stream's owner id
    /// and its receive id, and prepares a multishot receive that takes its
    /// buffers from the group numbered like the owner. Returns the slot.
    pub fn arm_multishot_recv(&self, ring: &mut Ring, fd: i32, kernel_head: u32) -> (idx: usize)
        requires
            old(ring).state().sq.wf(),
            has_free_slot(
                old(ring).state().sq.sqe_tail,
                kernel_head,
                old(ring).state().sq.ring_entries,
            ),
        ensures
            idx == old(ring).state().sq.slot(old(ring).state().sq.sqe_tail),
            final(ring).state().sq.wf(),
            final(ring).state().sq.ring_mask == old(ring).state().sq.ring_mask,
            final(ring).state().sq.ring_entries == old(ring).state().sq.ring_entries,
            final(ring).state().sq.sqe_tail == (old(ring).state().sq.sqe_tail + 1)
                % counter_range(),
            final(ring).state().sq.sqes@ == old(ring).state().sq.sqes@.update(
                idx as int,
                SubmissionEntry {
                    opcode: IORING_OP_RECV,
                    fd,
                    op_flags: 0,
                    ioprio: IORING_RECV_MULTISHOT,
                    buf_index: self.owner_id,
                    flags: IOSQE_BUFFER_SELECT,
                    user_data: pack(1, self.owner_id, self.multishort_recv_id),
                    ..initialized(old(ring).state().sq.sqes@[idx as int])
                },
            ),
    {
        let state = ring.as_ref_mut();
        let r = io_uring_get_sqe(state, kernel_head);
        let idx = match r {
            Ok(i) => i,
            Err(_) => {
                assert(false);
                0
            },
        };
        let user_data = UserData::from_parts(
            Event::MultishortRecv.as_u8(),
            self.owner_id,
            self.multishort_recv_id,
        );
        let mut entry = state.sq.sqes[idx];
        io_uring_sqe_set_data(&mut entry, user_data.as_u64());
        assert(0i32 & 0x100i32 == 0i32) by (bit_vector);
        multishot_recv(&mut entry, fd, 0, self.owner_id);
        assert(0u8 | 32u8 == 32u8) by (bit_vector);
        assert(flag_bits(0) == 0);
        state.sq.sqes.set(idx, entry);
        idx
    }

    /// The ring-driven half of a read: copies the next received bytes into
    /// `dst`, or answers `WouldBlock` when none has arrived. A buffer that the
    /// read drains is handed back, to be returned to the kernel.
    pub fn read_nonblocking(&mut self, dst: &mut [u8]) -> (r: (Result<usize, WouldBlock>, Option<KernelBuffer>))
        requires
            old(self).wf(),
            old(self).inner.readers().len() > 0 ==> old(dst)@.len() > 0,
        ensures
            final(self).wf(),
            final(self).owner_id == old(self).owner_id,
            final(self).multishort_recv_id == old(self).multishort_recv_id,
            final(self).send_id == old(self).send_id,
            final(self).pending_sent@ == old(self).pending_sent@,
            final(self).nonblocking == old(self).nonblocking,
            read_step(
                old(self).inner,
                final(self).inner,
                final(dst)@.subrange(0, match r.0 { Ok(n) => n as int, Err(_) => 0 }),
                r.1,
            ),
            r.1 is None && old(self).inner.readers().len() > 0 ==> {
                &&& final(self).inner.readers().len() == old(self).inner.readers().len()
                &&& final(self).inner.readers()[0].buffer() == old(self).inner.readers()[0].buffer()
                &&& final(self).inner.readers().drop_first() == old(self).inner.readers().drop_first()
            },
            old(self).inner.readers().len() == 0 ==> {
                &&& r.0 == Err::<usize, WouldBlock>(WouldBlock)
                &&& r.1 is None
                &&& final(dst)@ == old(dst)@
                &&& final(self).inner.pending() == old(self).inner.pending()
            },
            old(self).inner.readers().len() > 0 ==> {
                let front = old(self).inner.readers()[0].remaining_bytes();
                let pending = old(self).inner.pending();
                &&& r.0 matches Ok(n) && n == if old(dst)@.len() < front.len() {
                    old(dst)@.len() as int
                } else {
                    front.len() as int
                } && final(dst)@ == pending.subrange(0, n as int) + old(dst)@.subrange(
                    n as int,
                    old(dst)@.len() as int,
                ) && final(self).inner.pending() == pending.subrange(n as int, pending.len() as int)
                    && (r.1 is Some <==> n == front.len()) && (r.1 matches Some(b) ==> b
                    == old(self).inner.readers()[0].buffer())
            },
    {
        let (len, released) = self.inner.read(dst);
        if len == 0 {
            (Err(WouldBlock), released)
        } else {
            (Ok(len), released)
        }
    }
}

/// The completions of the receive queued by `arm_multishot_recv` are
/// addressed to the stream: one that echoes its user data, succeeded and
/// carries a buffer holding data is one the stream can handle.
pub proof fn lemma_recv_completion_is_handled(s: StreamState, c: Completion)
    requires
        c.user_data@ == pack(1, s.owner_id, s.multishort_recv_id),
        c.wf(),
        c.cqe.res != 0,
        c.cqe.flags & IORING_CQE_F_BUFFER != 0,
        c.kernel_buf is Some,
    ensures
        s.can_handle(c),
{
    crate::user_data::lemma_unpack_pack(1, s.owner_id, s.multishort_recv_id);
}

/// A send queued by `write_nonblocking` is retired by its completion: when
/// the kernel echoes the send's user data with the full length sent, the
/// stream can handle that completion, and handling it removes exactly the
/// bytes the write added, so the in-flight sends are again those from before
/// the write (when no earlier send had the same user data).
pub proof fn lemma_send_completion_retires_write(
    before: StreamState,
    after: StreamState,
    copied: Vec<u8>,
    c: Completion,
)
    requires
        after.wf(),
        after.owner_id == before.owner_id,
        after.pending_sent@ == before.pending_sent@.insert(
            pack(0, before.owner_id, before.send_id),
            copied,
        ),
        c.user_data@ == pack(0, before.owner_id, before.send_id),
        c.cqe.res as int == copied@.len(),
        0 < copied@.len(),
        c.kernel_buf is None,
    ensures
        after.can_handle(c),
        !before.pending_sent@.contains_key(c.user_data@) ==> after.pending_sent@.remove(
            c.user_data@,
        ) == before.pending_sent@,
{
    crate::user_data::lemma_unpack_pack(0, before.owner_id, before.send_id);
    if !before.pending_sent@.contains_key(c.user_data@) {
        assert(after.pending_sent@.remove(c.user_data@) =~= before.pending_sent@);
    }
}

} // verus!
