use vstd::prelude::*;

pub mod cqe;
pub mod net;
pub mod op;
pub mod read_buf;
pub mod ring;
pub mod user_data;

pub use cqe::{BufferRequest, Completion, CompletionEntry};
pub use net::{StreamState, WouldBlock};
pub use op::SubmissionEntry;
pub use read_buf::{KernelBuffer, KernelBufferReader, KernelBufferVecReader};
pub use ring::{io_uring_get_sqe, io_uring_initialize_sqe, io_uring_sqe_set_data, IoUring, Ring, SubmissionQueue};
pub use user_data::{Event, UserData};

verus! {

/// Identifier of the owner of a submission (a stream).
pub type OwnID = u16;

/// Identifier of a group of kernel-provided buffers.
pub type BufferGroupID = u16;

/// Number of buffer groups the buffer ring pool can hold.
pub const MAX_BUFFER_GROUP: usize = 256;

/// Number of completion queue entries requested from the kernel.
pub const CQ_ENTRIES: u32 = 1024;

/// Default buffer group identifier.
pub const BGID: u16 = 0;

/// Size of a provided buffer: large enough to fit one datagram.
pub const BUF_SIZE: u32 = 1500;

/// Size of a stream's queue of received buffers; increase if submissions are backpressured.
pub const RING_POOL_SIZE: u16 = 1024;

/// Number of completions to wait for when none is ready.
pub const CQE_WAIT_NR: u32 = 1;

} // verus!
