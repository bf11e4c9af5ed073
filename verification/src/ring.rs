use vstd::prelude::*;
use crate::op::{send, SubmissionEntry};
use vstd::arithmetic::power2::pow2;

verus! {

/// 2^32: the size of the circle the 32-bit ring counters run on.
pub open spec fn counter_range() -> int {
    0x1_0000_0000
}

/// How far `to` is ahead of `from` on the 32-bit counter circle.
pub open spec fn ring_distance(to: u32, from: u32) -> int {
    (to - from) % counter_range()
}

/// The test for a free slot: one more entry after `tail` keeps the distance
/// from the kernel's `head` within `entries`.
pub open spec fn has_free_slot(tail: u32, head: u32, entries: u32) -> bool {
    (tail + 1 - head) % counter_range() <= entries
}

/// The entry `e` with the fields that a fresh submission must not inherit cleared.
pub open spec fn initialized(e: SubmissionEntry) -> SubmissionEntry {
    SubmissionEntry {
        flags: 0,
        ioprio: 0,
        op_flags: 0,
        buf_index: 0,
        personality: 0,
        file_index: 0,
        addr3: 0,
        pad2: 0,
        ..e
    }
}

/// The submission side of a ring: the local tail, the slot mask and count, and the slots.
pub struct SubmissionQueue {
    pub sqe_tail: u32,
    pub ring_mask: u32,
    pub ring_entries: u32,
    pub sqes: Vec<SubmissionEntry>,
}

/// `n` is a power of two below 2^32.
pub open spec fn is_power_of_two(n: u32) -> bool {
    exists|k: nat| k < 32 && pow2(k) == n
}

impl SubmissionQueue {
    /// The kernel's layout: a power-of-two number of slots and the matching mask.
    pub open spec fn wf(&self) -> bool {
        &&& is_power_of_two(self.ring_entries)
        &&& self.ring_mask == self.ring_entries - 1
        &&& self.sqes@.len() == self.ring_entries
    }

    /// Tells whether a slot can be reserved while the kernel's consumer head is `kernel_head`.
    pub fn can_reserve(&self, kernel_head: u32) -> (b: bool)
        ensures
            b == has_free_slot(self.sqe_tail, kernel_head, self.ring_entries),
    {
        self.sqe_tail.wrapping_add(1).wrapping_sub(kernel_head) <= self.ring_entries
    }

    /// The slot that the logical position `pos` maps to.
    pub open spec fn slot(&self, pos: u32) -> int {
        (pos % self.ring_entries) as int
    }
}

/// The state of a ring that the submission logic reads and writes.
pub struct IoUring {
    pub sq: SubmissionQueue,
}

/// For a power-of-two ring size: masking with `n - 1` is taking the rest
/// modulo `n`, and `n` divides 2^32.
proof fn lemma_mask_is_mod(x: u32, n: u32)
    requires
        is_power_of_two(n),
    ensures
        x & ((n - 1) as u32) == x % n,
        counter_range() % (n as int) == 0,
        0 < n <= 0x8000_0000,
{
    let k = choose|k: nat| k < 32 && pow2(k) == n;
    vstd::arithmetic::power2::lemma_pow2_pos(k);
    vstd::bits::lemma_u32_low_bits_mask_is_mod(x, k);
    assert(vstd::bits::low_bits_mask(k) == n - 1);
    vstd::arithmetic::power2::lemma_pow2_adds(k, (32 - k) as nat);
    vstd::arithmetic::power2::lemma2_to64();
    vstd::arithmetic::power2::lemma_pow2_pos((32 - k) as nat);
    assert(pow2(32) == counter_range());
    assert(counter_range() == pow2(k) * pow2((32 - k) as nat));
    vstd::arithmetic::div_mod::lemma_mod_multiples_basic(pow2((32 - k) as nat) as int, n as int);
    vstd::arithmetic::mul::lemma_mul_is_commutative(pow2((32 - k) as nat) as int, n as int);
    if k < 31 {
        vstd::arithmetic::power2::lemma_pow2_strictly_increases(k, 31);
    }
}

/// Clears the fields of `sqe` that a new submission must not inherit.
pub fn io_uring_initialize_sqe(sqe: &mut SubmissionEntry)
    ensures
        *final(sqe) == initialized(*old(sqe)),
{
    sqe.flags = 0;
    sqe.ioprio = 0;
    sqe.op_flags = 0;
    sqe.buf_index = 0;
    sqe.personality = 0;
    sqe.file_index = 0;
    sqe.addr3 = 0;
    sqe.pad2 = 0;
}

/// Attaches `data` to `sqe`; its completion carries it back.
pub fn io_uring_sqe_set_data(sqe: &mut SubmissionEntry, data: u64)
    ensures
        *final(sqe) == (SubmissionEntry { user_data: data, ..*old(sqe) }),
{
    sqe.user_data = data;
}

/// Reserves the next submission slot, given the kernel's current consumer
/// head. On success it returns the slot's index, clears the slot for a new
/// submission and advances the tail by one; when the ring has no free slot it
/// changes nothing.
pub fn io_uring_get_sqe(ring: &mut IoUring, kernel_head: u32) -> (r: Result<usize, &'static str>)
    requires
        old(ring).sq.wf(),
    ensures
        final(ring).sq.wf(),
        final(ring).sq.ring_mask == old(ring).sq.ring_mask,
        final(ring).sq.ring_entries == old(ring).sq.ring_entries,
        has_free_slot(old(ring).sq.sqe_tail, kernel_head, old(ring).sq.ring_entries) ==> {
            let idx = old(ring).sq.slot(old(ring).sq.sqe_tail);
            &&& r == Ok::<usize, &'static str>(idx as usize)
            &&& final(ring).sq.sqe_tail == (old(ring).sq.sqe_tail + 1) % counter_range()
            &&& final(ring).sq.sqes@ == old(ring).sq.sqes@.update(
                idx,
                initialized(old(ring).sq.sqes@[idx]),
            )
        },
        !has_free_slot(old(ring).sq.sqe_tail, kernel_head, old(ring).sq.ring_entries) ==> {
            &&& r == Err::<usize, &'static str>("sq ring entries overflow")
            &&& *final(ring) == *old(ring)
        },
{
    let next = ring.sq.sqe_tail.wrapping_add(1);
    let shift: u32 = 0;
    if next.wrapping_sub(kernel_head) <= ring.sq.ring_entries {
        let idx = ((ring.sq.sqe_tail & ring.sq.ring_mask) << shift) as usize;
        proof {
            lemma_mask_is_mod(ring.sq.sqe_tail, ring.sq.ring_entries);
            let t = ring.sq.sqe_tail;
            let m = ring.sq.ring_mask;
            assert((t & m) << 0u32 == t & m) by (bit_vector);
        }
        ring.sq.sqe_tail = next;
        let mut entry = ring.sq.sqes[idx];
        io_uring_initialize_sqe(&mut entry);
        ring.sq.sqes.set(idx, entry);
        Ok(idx)
    } else {
        Err("sq ring entries overflow")
    }
}

/// While the entries between the kernel's head and the tail fit in the ring,
/// a successful reservation keeps them fitting and hands out a slot that none
/// of them occupies: the `k`-th entry after the head, for any `k` before the
/// tail, sits in another slot than the one reserved.
pub proof fn lemma_reserved_slot_is_free(sq: SubmissionQueue, kernel_head: u32, k: int)
    requires
        sq.wf(),
        ring_distance(sq.sqe_tail, kernel_head) <= sq.ring_entries,
        has_free_slot(sq.sqe_tail, kernel_head, sq.ring_entries),
        0 <= k < ring_distance(sq.sqe_tail, kernel_head),
    ensures
        ring_distance(((sq.sqe_tail + 1) % counter_range()) as u32, kernel_head) == ring_distance(
            sq.sqe_tail,
            kernel_head,
        ) + 1,
        ring_distance(((sq.sqe_tail + 1) % counter_range()) as u32, kernel_head)
            <= sq.ring_entries,
        sq.slot(((kernel_head + k) % counter_range()) as u32) != sq.slot(sq.sqe_tail),
{
    let n = sq.ring_entries as int;
    let m = counter_range();
    let t = sq.sqe_tail as int;
    let h = kernel_head as int;
    let d = ring_distance(sq.sqe_tail, kernel_head);
    let e = sq.ring_entries;
    // the ring size divides 2^32
    lemma_mask_is_mod(sq.sqe_tail, e);
    let q = m / n;
    vstd::arithmetic::div_mod::lemma_fundamental_div_mod(m, n);
    assert(m == n * q);
    assert(q > 0) by (nonlinear_arith)
        requires
            m == n * q,
            n > 0,
            m > 0,
    ;
    // the distance grows by one
    assert(0 <= d < m);
    assert(d <= n);
    assert((t + 1 - h) % m == d + 1) by {
        vstd::arithmetic::div_mod::lemma_fundamental_div_mod(t - h, m);
        vstd::arithmetic::div_mod::lemma_fundamental_div_mod(t + 1 - h, m);
        if t - h >= 0 {
            vstd::arithmetic::div_mod::lemma_small_mod((t - h) as nat, m as nat);
            vstd::arithmetic::div_mod::lemma_small_mod((t + 1 - h) as nat, m as nat);
        } else {
            assert((t - h) % m == t - h + m) by {
                vstd::arithmetic::div_mod::lemma_small_mod((t - h + m) as nat, m as nat);
                vstd::arithmetic::div_mod::lemma_mod_add_multiples_vanish(t - h, m);
            }
            assert((t + 1 - h) % m == t + 1 - h + m) by {
                vstd::arithmetic::div_mod::lemma_small_mod((t + 1 - h + m) as nat, m as nat);
                vstd::arithmetic::div_mod::lemma_mod_add_multiples_vanish(t + 1 - h, m);
            }
        }
    }
    let t1 = (t + 1) % m;
    assert((t1 - h) % m == (t + 1 - h) % m) by {
        if t + 1 < m {
            vstd::arithmetic::div_mod::lemma_small_mod((t + 1) as nat, m as nat);
        } else {
            assert(t1 == t + 1 - m) by {
                vstd::arithmetic::div_mod::lemma_small_mod((t + 1 - m) as nat, m as nat);
                vstd::arithmetic::div_mod::lemma_mod_sub_multiples_vanish(t + 1, m);
            }
            vstd::arithmetic::div_mod::lemma_mod_add_multiples_vanish(t1 - h, m);
        }
    }
    // slots agree with positions modulo the ring size
    let p = (h + k) % m;
    assert(p % n == (h + k) % n) by {
        vstd::arithmetic::div_mod::lemma_mod_mod(h + k, n, q);
    }
    assert(t == (h + d) % m) by {
        vstd::arithmetic::div_mod::lemma_fundamental_div_mod(t - h, m);
        vstd::arithmetic::div_mod::lemma_small_mod(t as nat, m as nat);
        vstd::arithmetic::div_mod::lemma_mod_multiples_vanish((t - h) / m, h + d, m);
        assert(h + d == t - m * ((t - h) / m));
        assert(h + d + m * ((t - h) / m) == t);
    }
    assert(t % n == (h + d) % n) by {
        vstd::arithmetic::div_mod::lemma_mod_mod(h + d, n, q);
    }
    assert((h + k) % n != (h + d) % n) by {
        vstd::arithmetic::div_mod::lemma_mod_equivalence(h + d, h + k, n);
        vstd::arithmetic::div_mod::lemma_small_mod((d - k) as nat, n as nat);
    }
}

/// A handle on a ring, through which submissions are prepared.
pub struct Ring {
    ring: IoUring,
}

impl Ring {
    /// The handle's view of the ring state.
    pub closed spec fn state(&self) -> IoUring {
        self.ring
    }

    /// Wraps the ring state.
    pub fn from_raw_ptr(ring: IoUring) -> (r: Ring)
        ensures
            r.state() == ring,
    {
        Ring { ring }
    }

    /// Mutable access to the ring state.
    pub fn as_ref_mut(&mut self) -> (r: &mut IoUring)
        ensures
            *r == old(self).state(),
            final(self).state() == *final(r),
    {
        &mut self.ring
    }

    /// Reserves a slot and prepares it as a send of `len` bytes from `addr` on
    /// socket `fd`, returning the slot's index. The ring must have a free slot.
    pub fn _prep_send(&mut self, fd: i32, addr: u64, len: usize, flags: i32, kernel_head: u32) -> (idx: usize)
        requires
            old(self).state().sq.wf(),
            has_free_slot(
                old(self).state().sq.sqe_tail,
                kernel_head,
                old(self).state().sq.ring_entries,
            ),
        ensures
            final(self).state().sq.wf(),
            idx == old(self).state().sq.slot(old(self).state().sq.sqe_tail),
            final(self).state().sq.ring_mask == old(self).state().sq.ring_mask,
            final(self).state().sq.ring_entries == old(self).state().sq.ring_entries,
            final(self).state().sq.sqe_tail == (old(self).state().sq.sqe_tail + 1) % counter_range(),
            final(self).state().sq.sqes@ == old(self).state().sq.sqes@.update(
                idx as int,
                SubmissionEntry {
                    opcode: crate::op::IORING_OP_SEND,
                    fd,
                    addr,
                    op_flags: crate::op::flag_bits(flags),
                    len: len as u32,
                    ..initialized(old(self).state().sq.sqes@[idx as int])
                },
            ),
    {
        let r = io_uring_get_sqe(&mut self.ring, kernel_head);
        let idx = match r {
            Ok(i) => i,
            Err(_) => {
                assert(false);
                0
            },
        };
        let mut entry = self.ring.sq.sqes[idx];
        send(&mut entry, fd, addr, len as u32, flags);
        self.ring.sq.sqes.set(idx, entry);
        idx
    }
}

} // verus!
