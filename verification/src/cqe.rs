use vstd::prelude::*;
use crate::read_buf::KernelBuffer;
use crate::user_data::{owner_of, UserData};

verus! {

/// Completion flag: the operation used a buffer from a buffer group.
pub const IORING_CQE_F_BUFFER: u32 = 1;

/// Completion flag: the buffer was only partly consumed and more completions will use it.
pub const IORING_CQE_F_BUF_MORE: u32 = 16;

/// Position of the buffer id in the completion flags.
pub const IORING_CQE_BUFFER_SHIFT: u32 = 16;

/// A completion queue entry, field by field as the kernel writes it.
#[derive(Clone, Copy, PartialEq, Eq, Structural, Debug)]
pub struct CompletionEntry {
    pub user_data: u64,
    pub res: i32,
    pub flags: u32,
}

/// The buffer that a completion names: its group, its id and how many bytes it holds.
#[derive(Clone, Copy, PartialEq, Eq, Structural, Debug)]
pub struct BufferRequest {
    pub bgid: u16,
    pub bid: u16,
    pub data_len: usize,
}

impl CompletionEntry {
    /// A completion this library handles: the operation succeeded, the kernel
    /// is done with any buffer it used, and a used buffer holds data.
    pub open spec fn accepted(&self) -> bool {
        &&& self.res >= 0
        &&& self.flags & IORING_CQE_F_BUF_MORE == 0
        &&& self.flags & IORING_CQE_F_BUFFER != 0 ==> self.res > 0
    }

    /// The buffer the completion names, if it used one; the group is the
    /// owner field of the user data.
    pub open spec fn requested_buffer(&self) -> Option<BufferRequest> {
        if self.flags & IORING_CQE_F_BUFFER != 0 {
            Some(
                BufferRequest {
                    bgid: owner_of(self.user_data),
                    bid: (self.flags >> IORING_CQE_BUFFER_SHIFT) as u16,
                    data_len: self.res as usize,
                },
            )
        } else {
            None
        }
    }

    /// Tells whether the completion is one this library handles.
    pub fn is_accepted(&self) -> (b: bool)
        ensures
            b == self.accepted(),
    {
        self.res >= 0 && self.flags & IORING_CQE_F_BUF_MORE == 0 && (self.flags
            & IORING_CQE_F_BUFFER == 0 || self.res > 0)
    }

    /// The buffer the completion names, if it used one.
    pub fn buffer_request(&self) -> (r: Option<BufferRequest>)
        requires
            self.accepted(),
        ensures
            r == self.requested_buffer(),
    {
        if self.flags & IORING_CQE_F_BUFFER != 0 {
            let user_data = UserData::from_packed(self.user_data);
            let data_len = self.res as usize;
            let buffer_id = (self.flags >> IORING_CQE_BUFFER_SHIFT) as u16;
            Some(BufferRequest { bgid: user_data.owner(), bid: buffer_id, data_len })
        } else {
            None
        }
    }
}

/// `buf` is the buffer that `req` names, holding the bytes it announces.
pub open spec fn buffer_matches(buf: KernelBuffer, req: BufferRequest) -> bool {
    &&& buf.wf()
    &&& buf.bid == req.bid
    &&& buf.bgid == req.bgid
    &&& buf.data_len == req.data_len
}

/// A completion taken off the ring, with the buffer it used, if any.
pub struct Completion {
    pub cqe: CompletionEntry,
    pub kernel_buf: Option<KernelBuffer>,
    pub user_data: UserData,
}

impl Completion {
    /// The attached buffer, if any, is well formed and holds data.
    pub open spec fn wf(&self) -> bool {
        self.kernel_buf matches Some(b) ==> b.wf() && b.data_len > 0
    }

    /// Builds a completion from an accepted entry and the buffer it names.
    pub fn from_raw_event(cqe: CompletionEntry, kernel_buf: Option<KernelBuffer>) -> (c: Completion)
        requires
            cqe.accepted(),
            kernel_buf is Some <==> cqe.requested_buffer() is Some,
            kernel_buf matches Some(b) ==> buffer_matches(b, cqe.requested_buffer()->0),
        ensures
            c.wf(),
            c.cqe == cqe,
            c.kernel_buf == kernel_buf,
            c.user_data@ == cqe.user_data,
    {
        let user_data = UserData::from_packed(cqe.user_data);
        Completion { cqe, kernel_buf, user_data }
    }

    /// The completion queue entry.
    pub fn as_cqe_ref(&self) -> (e: &CompletionEntry)
        ensures
            *e == self.cqe,
    {
        &self.cqe
    }

    /// Takes the attached buffer; whoever takes it returns it to the kernel.
    pub fn take_kernel_buf(&mut self) -> (b: Option<KernelBuffer>)
        ensures
            b == old(self).kernel_buf,
            final(self).kernel_buf is None,
            final(self).cqe == old(self).cqe,
            final(self).user_data == old(self).user_data,
    {
        self.kernel_buf.take()
    }
}

/// Which completions are handled: exactly those whose result is not an
/// error code, whose buffer-more bit (16) is clear, and that carry data when
/// they name a buffer (bit 1). No other flag bit matters.
pub proof fn lemma_accepted_exactly(e: CompletionEntry)
    ensures
        e.accepted() <==> (e.res >= 0 && e.flags % 32 < 16 && (e.flags % 2 == 0 || e.res > 0)),
        e.res < 0 ==> !e.accepted(),
{
    let f = e.flags;
    assert((f & 16u32 == 0) == (f % 32 < 16)) by (bit_vector);
    assert((f & 1u32 != 0) == (f % 2 == 1)) by (bit_vector);
}

/// Whether a completion is handled does not depend on the bit that says
/// more completions follow (value 2), nor on the buffer id in the upper half.
pub proof fn lemma_accepted_ignores_more_and_bid(e: CompletionEntry, bid: u16)
    ensures
        (CompletionEntry { flags: e.flags | 2, ..e }).accepted() == e.accepted(),
        (CompletionEntry { flags: (e.flags % 0x10000 + bid * 0x10000) as u32, ..e }).accepted()
            == e.accepted(),
{
    let f = e.flags;
    let g: u32 = (f % 0x10000 + bid * 0x10000) as u32;
    assert(((f | 2u32) & 16u32) == (f & 16u32) && ((f | 2u32) & 1u32) == (f & 1u32))
        by (bit_vector);
    assert((g & 16u32) == (f & 16u32) && (g & 1u32) == (f & 1u32)) by (bit_vector)
        requires
            g == (f % 0x10000) + (bid as u32) * 0x10000,
    ;
}

/// The buffer a completion names: when bit 1 of the flags is set, the buffer
/// id is the whole upper half of the flags, the group is bits 40..56 of the
/// user data and the length is the result; otherwise it names no buffer.
pub proof fn lemma_requested_buffer_fields(e: CompletionEntry)
    ensures
        e.flags % 2 == 1 ==> {
            &&& e.requested_buffer() is Some
            &&& e.requested_buffer()->0.bid as int == e.flags as int / 0x10000
            &&& e.requested_buffer()->0.bgid as int == (e.user_data as int / 0x100_0000_0000)
                % 0x10000
        },
        e.flags % 2 == 0 ==> e.requested_buffer() is None,
        e.res >= 0 && e.flags % 2 == 1 ==> e.requested_buffer()->0.data_len as int
            == e.res as int,
{
    let f = e.flags;
    assert((f & 1u32 != 0) == (f % 2 == 1)) by (bit_vector);
    assert(((f >> 16u32) as u16) as u32 == f / 0x10000) by (bit_vector);
    assert(f >> IORING_CQE_BUFFER_SHIFT == f >> 16u32);
}

} // verus!
