use vstd::prelude::*;
use std::collections::VecDeque;

verus! {

/// A buffer that the kernel filled from a buffer group and handed over with a completion.
pub struct KernelBuffer {
    /// The buffer's memory, as the kernel left it.
    pub data: Vec<u8>,
    /// How many bytes at the start of `data` the operation delivered.
    pub data_len: usize,
    /// Buffer id within its group.
    pub bid: u16,
    /// Buffer group id.
    pub bgid: u16,
    /// Length allocated for the buffer.
    pub buf_len: u32,
}

impl KernelBuffer {
    /// The delivered length fits in the buffer's memory.
    pub open spec fn wf(&self) -> bool {
        self.data_len <= self.data@.len()
    }

    /// The delivered bytes.
    pub open spec fn bytes(&self) -> Seq<u8> {
        self.data@.subrange(0, self.data_len as int)
    }

    /// How many bytes the operation delivered.
    pub fn data_len(&self) -> (n: usize)
        ensures
            n == self.data_len,
    {
        self.data_len
    }

    /// The delivered bytes from `offset` on.
    pub fn data(&self, offset: usize) -> (d: &[u8])
        requires
            self.wf(),
            offset <= self.data_len,
        ensures
            d@ == self.bytes().subrange(offset as int, self.data_len as int),
    {
        let d = vstd::slice::slice_subrange(self.data.as_slice(), offset, self.data_len);
        assert(d@ =~= self.bytes().subrange(offset as int, self.data_len as int));
        d
    }

    /// The first `data_len` bytes of the buffer's memory, for writing.
    pub fn data_mut(&mut self, data_len: usize) -> (d: &mut [u8])
        requires
            data_len <= old(self).data@.len(),
        ensures
            d@ == old(self).data@.subrange(0, data_len as int),
            final(self).data@ == final(d)@ + old(self).data@.subrange(
                data_len as int,
                old(self).data@.len() as int,
            ),
            final(self).data_len == old(self).data_len,
            final(self).bid == old(self).bid,
            final(self).bgid == old(self).bgid,
            final(self).buf_len == old(self).buf_len,
    {
        let (head, _tail) = self.data.as_mut_slice().split_at_mut(data_len);
        head
    }
}

/// A cursor over the delivered bytes of one kernel buffer.
pub struct KernelBufferReader {
    buf: KernelBuffer,
    claimed: usize,
}

impl KernelBufferReader {
    /// The buffer read from.
    pub closed spec fn buffer(&self) -> KernelBuffer {
        self.buf
    }

    /// How many bytes have been consumed.
    pub closed spec fn claimed_count(&self) -> nat {
        self.claimed as nat
    }

    /// The cursor lies within the delivered bytes.
    pub open spec fn wf(&self) -> bool {
        self.claimed_count() <= self.buffer().data_len
    }

    /// The delivered bytes not consumed yet.
    pub open spec fn remaining_bytes(&self) -> Seq<u8> {
        self.buffer().bytes().subrange(self.claimed_count() as int, self.buffer().data_len as int)
    }

    /// A cursor at the start of `buf`.
    pub fn new(buf: KernelBuffer) -> (r: KernelBufferReader)
        ensures
            r.buffer() == buf,
            r.claimed_count() == 0,
    {
        KernelBufferReader { buf, claimed: 0 }
    }

    /// Marks `len` more bytes as consumed; the cursor must stay within the delivered bytes.
    pub fn commit(&mut self, len: usize)
        requires
            old(self).claimed_count() + len <= old(self).buffer().data_len,
        ensures
            final(self).claimed_count() == old(self).claimed_count() + len,
            final(self).buffer() == old(self).buffer(),
            cursor_step(*old(self), *final(self)),
    {
        self.claimed = self.claimed + len;
    }

    /// How many bytes have been consumed.
    pub fn claimed(&self) -> (n: usize)
        ensures
            n == self.claimed_count(),
    {
        self.claimed
    }

    /// How many delivered bytes are left.
    pub fn remaining(&self) -> (n: usize)
        requires
            self.wf(),
        ensures
            n == self.buffer().data_len - self.claimed_count(),
    {
        self.buf.data_len() - self.claimed()
    }

    /// Mutable access to the buffer.
    pub fn buf_ref_mut(&mut self) -> (b: &mut KernelBuffer)
        ensures
            *b == old(self).buffer(),
            final(self).buffer() == *final(b),
            final(self).claimed_count() == old(self).claimed_count(),
    {
        &mut self.buf
    }

    /// The buffer.
    pub fn buf_ref(&self) -> (b: &KernelBuffer)
        ensures
            *b == self.buffer(),
    {
        &self.buf
    }

    /// Gives up the cursor and hands the buffer back, to be returned to the kernel.
    pub fn release(self) -> (b: KernelBuffer)
        ensures
            b == self.buffer(),
    {
        self.buf
    }

    /// Copies as many of the remaining bytes as `dst` holds into the start of
    /// `dst` and consumes them; returns how many were copied. Some bytes must
    /// remain.
    pub fn read(&mut self, dst: &mut [u8]) -> (n: usize)
        requires
            old(self).wf(),
            old(self).buffer().wf(),
            old(self).remaining_bytes().len() > 0,
        ensures
            final(self).wf(),
            n == if old(dst)@.len() < old(self).remaining_bytes().len() {
                old(dst)@.len()
            } else {
                old(self).remaining_bytes().len()
            },
            final(dst)@ == old(self).remaining_bytes().subrange(0, n as int) + old(dst)@.subrange(
                n as int,
                old(dst)@.len() as int,
            ),
            final(self).buffer() == old(self).buffer(),
            final(self).claimed_count() == old(self).claimed_count() + n,
            final(self).remaining_bytes() == old(self).remaining_bytes().subrange(
                n as int,
                old(self).remaining_bytes().len() as int,
            ),
            cursor_step(*old(self), *final(self)),
    {
        let data = self.buf.data(self.claimed);
        let n = if dst.len() < data.len() {
            dst.len()
        } else {
            data.len()
        };
        let mut i: usize = 0;
        while i < n
            invariant
                n <= dst@.len(),
                n <= data@.len(),
                i <= n,
                dst@.len() == old(dst)@.len(),
                forall|j: int| 0 <= j < i ==> dst@[j] == data@[j],
                forall|j: int| i <= j < dst@.len() ==> dst@[j] == old(dst)@[j],
            decreases n - i,
        {
            dst[i] = data[i];
            i = i + 1;
        }
        assert(dst@ =~= data@.subrange(0, n as int) + old(dst)@.subrange(
            n as int,
            old(dst)@.len() as int,
        ));
        self.commit(n);
        assert(self.remaining_bytes() =~= old(self).remaining_bytes().subrange(
            n as int,
            old(self).remaining_bytes().len() as int,
        ));
        n
    }
}

/// One consuming step of a cursor (a `commit` or a `read`): the buffer stays
/// the same and the cursor moves forward without passing the delivered bytes.
pub open spec fn cursor_step(before: KernelBufferReader, after: KernelBufferReader) -> bool {
    &&& after.buffer() == before.buffer()
    &&& before.claimed_count() <= after.claimed_count()
    &&& after.claimed_count() <= after.buffer().data_len
}

/// Entry `i` of the run `rs` steps to entry `i + 1` by a commit or a read.
pub open spec fn cursor_steps_at(rs: Seq<KernelBufferReader>, i: int) -> bool {
    cursor_step(rs[i], rs[i + 1])
}

/// Through any run of commits and reads, a cursor keeps the buffer it was
/// made with, never moves back, and stays within the delivered bytes.
pub proof fn lemma_cursor_keeps_buffer(rs: Seq<KernelBufferReader>)
    requires
        rs.len() > 0,
        rs[0].wf(),
        forall|i: int| 0 <= i < rs.len() - 1 ==> #[trigger] cursor_steps_at(rs, i),
    ensures
        forall|i: int|
            0 <= i < rs.len() ==> {
                &&& #[trigger] rs[i].buffer() == rs[0].buffer()
                &&& rs[0].claimed_count() <= rs[i].claimed_count()
                &&& rs[i].wf()
            },
    decreases rs.len(),
{
    if rs.len() > 1 {
        let tail = rs.drop_first();
        assert forall|i: int| 0 <= i < tail.len() - 1 implies #[trigger] cursor_steps_at(
            tail,
            i,
        ) by {
            assert(cursor_steps_at(rs, i + 1));
            assert(tail[i] == rs[i + 1] && tail[i + 1] == rs[i + 2]);
        }
        assert(cursor_steps_at(rs, 0));
        lemma_cursor_keeps_buffer(tail);
        assert forall|i: int| 0 <= i < rs.len() implies {
            &&& #[trigger] rs[i].buffer() == rs[0].buffer()
            &&& rs[0].claimed_count() <= rs[i].claimed_count()
            &&& rs[i].wf()
        } by {
            if i > 0 {
                assert(rs[i] == tail[i - 1]);
            }
        }
    }
}

/// The bytes not consumed yet of the readers `rs`, in queue order.
pub open spec fn pending_of(rs: Seq<KernelBufferReader>) -> Seq<u8>
    decreases rs.len(),
{
    if rs.len() == 0 {
        Seq::empty()
    } else {
        rs[0].remaining_bytes() + pending_of(rs.drop_first())
    }
}

/// Appending a reader appends its remaining bytes.
pub proof fn lemma_pending_of_push(rs: Seq<KernelBufferReader>, r: KernelBufferReader)
    ensures
        pending_of(rs.push(r)) == pending_of(rs) + r.remaining_bytes(),
    decreases rs.len(),
{
    if rs.len() == 0 {
        assert(rs.push(r).drop_first() =~= Seq::<KernelBufferReader>::empty());
        assert(pending_of(rs.push(r).drop_first()) == Seq::<u8>::empty());
        assert(pending_of(rs) == Seq::<u8>::empty());
        assert(pending_of(rs.push(r)) =~= r.remaining_bytes());
    } else {
        assert(rs.push(r).drop_first() =~= rs.drop_first().push(r));
        lemma_pending_of_push(rs.drop_first(), r);
        assert(pending_of(rs.push(r)) =~= pending_of(rs) + r.remaining_bytes());
    }
}

/// The buffers of the readers `rs`, in queue order.
pub open spec fn buffers_of(rs: Seq<KernelBufferReader>) -> Seq<KernelBuffer> {
    rs.map_values(|r: KernelBufferReader| r.buffer())
}

/// The buffer handed back by one read, as a sequence of zero or one buffers.
pub open spec fn released_seq(released: Option<KernelBuffer>) -> Seq<KernelBuffer> {
    match released {
        Some(b) => seq![b],
        None => Seq::empty(),
    }
}

/// The buffers a run of reads handed back, in the order they came.
pub open spec fn handed_back(rels: Seq<Option<KernelBuffer>>) -> Seq<KernelBuffer>
    decreases rels.len(),
{
    if rels.len() == 0 {
        Seq::empty()
    } else {
        released_seq(rels[0]) + handed_back(rels.drop_first())
    }
}

/// One read of a queue: `before` becomes `after`, the bytes `out` come out of
/// the front of the pending bytes, and `released` is the front buffer when the
/// read drained it. When every queued buffer has bytes left, a read that gives
/// nothing found the queue empty.
pub open spec fn read_step(
    before: KernelBufferVecReader,
    after: KernelBufferVecReader,
    out: Seq<u8>,
    released: Option<KernelBuffer>,
) -> bool {
    &&& before.pending() == out + after.pending()
    &&& buffers_of(before.readers()) == released_seq(released) + buffers_of(after.readers())
    &&& before.all_have_bytes() ==> {
        &&& after.all_have_bytes()
        &&& out.len() == 0 <==> before.readers().len() == 0
    }
}

/// Read `i` of a run of reads: queue `qs[i]` becomes `qs[i + 1]`, giving the
/// bytes `outs[i]` and handing back `rels[i]`.
pub open spec fn read_step_at(
    qs: Seq<KernelBufferVecReader>,
    outs: Seq<Seq<u8>>,
    rels: Seq<Option<KernelBuffer>>,
    i: int,
) -> bool {
    read_step(qs[i], qs[i + 1], outs[i], rels[i])
}

/// Over any run of reads, the bytes that come out, in order, are a prefix of
/// the pending bytes and the rest is still pending: nothing is lost, repeated
/// or reordered. The buffers handed back are the queue's front buffers, in
/// queue order, each once. When every buffer had bytes and the last read gave
/// nothing, the queue is empty: all pending bytes came out and every buffer
/// was handed back.
pub proof fn lemma_reads_drain_in_order(
    qs: Seq<KernelBufferVecReader>,
    outs: Seq<Seq<u8>>,
    rels: Seq<Option<KernelBuffer>>,
)
    requires
        qs.len() == outs.len() + 1,
        rels.len() == outs.len(),
        forall|i: int| 0 <= i < outs.len() ==> #[trigger] read_step_at(qs, outs, rels, i),
    ensures
        qs[0].pending() == outs.flatten() + qs.last().pending(),
        buffers_of(qs[0].readers()) == handed_back(rels) + buffers_of(qs.last().readers()),
        qs[0].all_have_bytes() ==> qs.last().all_have_bytes(),
        qs[0].all_have_bytes() && outs.len() > 0 && outs.last().len() == 0 ==> {
            &&& qs.last().readers().len() == 0
            &&& outs.flatten() == qs[0].pending()
            &&& handed_back(rels) == buffers_of(qs[0].readers())
        },
    decreases outs.len(),
{
    if outs.len() == 0 {
        assert(outs.flatten() =~= Seq::<u8>::empty());
        assert(handed_back(rels) =~= Seq::<KernelBuffer>::empty());
        assert(qs[0].pending() =~= outs.flatten() + qs.last().pending());
        assert(buffers_of(qs[0].readers()) =~= handed_back(rels) + buffers_of(qs.last().readers()));
    } else {
        let qt = qs.drop_first();
        let ot = outs.drop_first();
        let rt = rels.drop_first();
        assert forall|i: int| 0 <= i < ot.len() implies #[trigger] read_step_at(qt, ot, rt, i) by {
            assert(read_step_at(qs, outs, rels, i + 1));
            assert(qt[i] == qs[i + 1] && qt[i + 1] == qs[i + 2]);
        }
        assert(read_step_at(qs, outs, rels, 0));
        lemma_reads_drain_in_order(qt, ot, rt);
        assert(qt.last() == qs.last());
        assert(outs.flatten() == outs[0] + ot.flatten());
        assert(handed_back(rels) == released_seq(rels[0]) + handed_back(rt));
        assert(qs[0].pending() =~= outs.flatten() + qs.last().pending());
        assert(buffers_of(qs[0].readers()) =~= handed_back(rels) + buffers_of(qs.last().readers()));
        if qs[0].all_have_bytes() && outs.last().len() == 0 {
            assert(qt[0].all_have_bytes());
            if ot.len() == 0 {
                assert(outs[0].len() == 0);
                assert(qs[0].readers().len() == 0);
                assert(buffers_of(qs[0].readers()).len() == 0);
                assert(buffers_of(qs.last().readers()).len() == 0);
            } else {
                assert(ot.last() == outs.last());
            }
            assert(qs.last().readers().len() == 0);
            assert(qs.last().pending() == Seq::<u8>::empty());
            assert(buffers_of(qs.last().readers()) =~= Seq::<KernelBuffer>::empty());
            assert(outs.flatten() =~= qs[0].pending());
            assert(handed_back(rels) =~= buffers_of(qs[0].readers()));
        }
    }
}

proof fn lemma_front_wf(q: KernelBufferVecReader)
    requires
        q.wf(),
        q.readers().len() > 0,
    ensures
        q.readers()[0].wf() && q.readers()[0].buffer().wf(),
{
}

/// A queue of received kernel buffers, read in the order they arrived.
pub struct KernelBufferVecReader {
    buf_vec: VecDeque<KernelBufferReader>,
}

impl KernelBufferVecReader {
    /// The readers in queue order.
    pub closed spec fn readers(&self) -> Seq<KernelBufferReader> {
        self.buf_vec@
    }

    /// The bytes not read yet, in the order they arrived.
    pub open spec fn pending(&self) -> Seq<u8> {
        pending_of(self.readers())
    }

    /// Every queued reader is well formed over a well-formed buffer.
    pub open spec fn wf(&self) -> bool {
        forall|i: int|
            0 <= i < self.readers().len() ==> #[trigger] self.readers()[i].wf()
                && self.readers()[i].buffer().wf()
    }

    /// The next read can make progress: the front buffer, if any, has bytes left.
    pub open spec fn front_has_bytes(&self) -> bool {
        self.readers().len() > 0 ==> self.readers()[0].remaining_bytes().len() > 0
    }

    /// Every queued buffer has bytes left.
    pub open spec fn all_have_bytes(&self) -> bool {
        forall|i: int|
            0 <= i < self.readers().len() ==> #[trigger] self.readers()[i].remaining_bytes().len()
                > 0
    }

    /// How many buffers are queued.
    pub fn len(&self) -> (n: usize)
        ensures
            n == self.readers().len(),
    {
        self.buf_vec.len()
    }

    /// An empty queue, with room for `capacity` buffers.
    pub fn new(capacity: usize) -> (r: KernelBufferVecReader)
        ensures
            r.readers().len() == 0,
            r.pending() == Seq::<u8>::empty(),
            r.wf(),
            r.all_have_bytes(),
    {
        KernelBufferVecReader { buf_vec: VecDeque::with_capacity(capacity) }
    }

    /// Queues `buf` behind the buffers already queued.
    pub fn push(&mut self, buf: KernelBuffer)
        requires
            old(self).wf(),
            buf.wf(),
        ensures
            final(self).wf(),
            final(self).readers().len() == old(self).readers().len() + 1,
            final(self).readers().drop_last() == old(self).readers(),
            final(self).readers().last().buffer() == buf,
            final(self).readers().last().claimed_count() == 0,
            final(self).pending() == old(self).pending() + buf.bytes(),
            old(self).front_has_bytes() && buf.data_len > 0 ==> final(self).front_has_bytes(),
            old(self).all_have_bytes() && buf.data_len > 0 ==> final(self).all_have_bytes(),
    {
        let ghost gbuf = buf;
        let r = KernelBufferReader::new(buf);
        proof {
            lemma_pending_of_push(self.buf_vec@, r);
            assert(r.remaining_bytes() =~= gbuf.bytes());
        }
        self.buf_vec.push_back(r);
        proof {
            let rs = self.readers();
            assert(rs.drop_last() =~= old(self).readers());
            assert forall|i: int| 0 <= i < rs.len() implies #[trigger] rs[i].wf()
                && rs[i].buffer().wf() by {
                if i < rs.len() - 1 {
                    assert(rs[i] == old(self).readers()[i]);
                }
            }
            if old(self).all_have_bytes() && gbuf.data_len > 0 {
                assert forall|i: int| 0 <= i < rs.len() implies #[trigger] rs[i].remaining_bytes().len()
                    > 0 by {
                    if i < rs.len() - 1 {
                        assert(rs[i] == old(self).readers()[i]);
                    }
                }
            }
        }
    }

    /// Reads from the front buffer: copies as many of its remaining bytes as
    /// `dst` holds into the start of `dst` and returns how many. When that
    /// drains the front buffer it leaves the queue and is handed back, to be
    /// returned to the kernel. An empty queue reads nothing.
    pub fn read(&mut self, dst: &mut [u8]) -> (r: (usize, Option<KernelBuffer>))
        requires
            old(self).wf(),
            old(self).front_has_bytes(),
            old(self).readers().len() > 0 ==> old(dst)@.len() > 0,
        ensures
            final(self).wf(),
            old(self).all_have_bytes() ==> final(self).all_have_bytes(),
            read_step(*old(self), *final(self), final(dst)@.subrange(0, r.0 as int), r.1),
            old(self).readers().len() == 0 ==> {
                &&& r.0 == 0
                &&& r.1 is None
                &&& final(self).readers() == old(self).readers()
                &&& final(dst)@ == old(dst)@
            },
            old(self).readers().len() > 0 ==> {
                let front = old(self).readers()[0].remaining_bytes();
                let n = r.0 as int;
                &&& n == if old(dst)@.len() < front.len() {
                    old(dst)@.len() as int
                } else {
                    front.len() as int
                }
                &&& 0 < n
                &&& final(dst)@ == old(self).pending().subrange(0, n) + old(dst)@.subrange(
                    n,
                    old(dst)@.len() as int,
                )
                &&& final(self).pending() == old(self).pending().subrange(
                    n,
                    old(self).pending().len() as int,
                )
                &&& (n == front.len()) == (r.1 is Some)
                &&& r.1 is Some ==> {
                    &&& r.1->0 == old(self).readers()[0].buffer()
                    &&& final(self).readers() == old(self).readers().drop_first()
                }
                &&& r.1 is None ==> {
                    &&& final(self).readers().len() == old(self).readers().len()
                    &&& final(self).readers().drop_first() == old(self).readers().drop_first()
                    &&& final(self).readers()[0].buffer() == old(self).readers()[0].buffer()
                    &&& final(self).readers()[0].claimed_count() == old(self).readers()[0].claimed_count() + n
                }
            },
    {
        let ghost old_rs = self.readers();
        match self.buf_vec.pop_front() {
            None => {
                proof {
                    assert(dst@.subrange(0, 0) =~= Seq::<u8>::empty());
                    assert(self.pending() =~= Seq::<u8>::empty() + self.pending());
                    assert(buffers_of(old_rs) =~= released_seq(None) + buffers_of(self.readers()));
                    assert(read_step(*old(self), *self, dst@.subrange(0, 0), None));
                }
                (0, None)
            },
            Some(mut v) => {
                proof {
                    assert(old_rs[0] == v);
                    lemma_front_wf(*old(self));
                    assert(v.wf() && v.buffer().wf());
                    assert(self.buf_vec@ =~= old_rs.drop_first());
                }
                let bytes = v.read(dst);
                let drained = v.remaining() == 0;
                proof {
                    let front = old_rs[0].remaining_bytes();
                    assert(pending_of(old_rs) == front + pending_of(old_rs.drop_first()));
                    assert(old_rs.drop_first() == self.buf_vec@);
                    assert(front.subrange(0, bytes as int) =~= pending_of(old_rs).subrange(
                        0,
                        bytes as int,
                    ));
                }
                if drained {
                    proof {
                        assert(v.remaining_bytes().len() == 0);
                        assert(pending_of(old_rs).subrange(
                            bytes as int,
                            pending_of(old_rs).len() as int,
                        ) =~= pending_of(self.buf_vec@));
                    }
                    proof {
                        let rs = self.readers();
                        assert forall|i: int| 0 <= i < rs.len() implies #[trigger] rs[i].wf()
                            && rs[i].buffer().wf() by {
                            assert(rs[i] == old_rs[i + 1]);
                        }
                        if old(self).all_have_bytes() {
                            assert forall|i: int| 0 <= i < rs.len() implies #[trigger] rs[
                                i].remaining_bytes().len() > 0 by {
                                assert(rs[i] == old_rs[i + 1]);
                            }
                        }
                    }
                    proof {
                        let rs = self.readers();
                        assert(buffers_of(old_rs) =~= released_seq(Some(v.buffer())) + buffers_of(rs));
                        assert(dst@.subrange(0, bytes as int) =~= pending_of(old_rs).subrange(0, bytes as int));
                        assert(pending_of(old_rs) =~= dst@.subrange(0, bytes as int) + pending_of(rs));
                        assert(read_step(*old(self), *self, dst@.subrange(0, bytes as int), Some(v.buffer())));
                    }
                    (bytes, Some(v.release()))
                } else {
                    self.buf_vec.push_front(v);
                    proof {
                        let rs = self.buf_vec@;
                        assert(rs.drop_first() =~= old_rs.drop_first());
                        assert(pending_of(rs) == v.remaining_bytes() + pending_of(rs.drop_first()));
                        assert(pending_of(rs) =~= pending_of(old_rs).subrange(
                            bytes as int,
                            pending_of(old_rs).len() as int,
                        ));
                        assert forall|i: int| 0 <= i < rs.len() implies #[trigger] rs[i].wf()
                            && rs[i].buffer().wf() by {
                            if i > 0 {
                                assert(rs[i] == old_rs[i]);
                            }
                        }
                        if old(self).all_have_bytes() {
                            assert forall|i: int| 0 <= i < rs.len() implies #[trigger] rs[
                                i].remaining_bytes().len() > 0 by {
                                if i > 0 {
                                    assert(rs[i] == old_rs[i]);
                                }
                            }
                        }
                    }
                    proof {
                        let rs = self.readers();
                        assert(buffers_of(old_rs) =~= released_seq(None) + buffers_of(rs)) by {
                            assert(rs[0].buffer() == old_rs[0].buffer());
                            assert forall|i: int| 0 < i < rs.len() implies rs[i] == old_rs[i] by {
                                assert(rs[i] == rs.drop_first()[i - 1]);
                            }
                        }
                        assert(dst@.subrange(0, bytes as int) =~= pending_of(old_rs).subrange(0, bytes as int));
                        assert(pending_of(old_rs) =~= dst@.subrange(0, bytes as int) + pending_of(rs));
                        assert(read_step(*old(self), *self, dst@.subrange(0, bytes as int), None));
                    }
                    (bytes, None)
                }
            },
        }
    }
}

} // verus!
