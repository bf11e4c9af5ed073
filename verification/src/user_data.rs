use vstd::prelude::*;

verus! {

/// 2^56: the weight of the event byte in a packed user data word.
pub open spec fn event_weight() -> int {
    0x100_0000_0000_0000
}

/// 2^40: the weight of the owner field in a packed user data word.
pub open spec fn owner_weight() -> int {
    0x100_0000_0000
}

/// 2^32: one past the largest request identifier.
pub open spec fn req_bound() -> int {
    0x1_0000_0000
}

/// The word that packs `event` into bits 56..64, `owner` into bits 40..56
/// and `req` into bits 0..32.
pub open spec fn pack(event: u8, owner: u16, req: u32) -> u64 {
    (event * event_weight() + owner * owner_weight() + req) as u64
}

/// The event byte of a packed word: its bits 56..64.
pub open spec fn event_of(data: u64) -> u8 {
    (data as int / event_weight()) as u8
}

/// The owner field of a packed word: its bits 40..56.
pub open spec fn owner_of(data: u64) -> u16 {
    ((data as int / owner_weight()) % 0x10000) as u16
}

/// The request field of a packed word: its bits 0..32.
pub open spec fn req_of(data: u64) -> u32 {
    (data as int % req_bound()) as u32
}

/// Bits 32..40 of a packed word, which no field uses.
pub open spec fn unused_bits_of(data: u64) -> int {
    (data as int / req_bound()) % 0x100
}

/// The kind of operation a completion answers.
#[derive(Clone, Copy, PartialEq, Eq, Structural, Debug)]
pub enum Event {
    Send,
    MultishortRecv,
}

impl Event {
    /// The byte that encodes this event.
    pub open spec fn code(self) -> u8 {
        match self {
            Event::Send => 0,
            Event::MultishortRecv => 1,
        }
    }

    /// Decodes an event byte; only 0 and 1 encode an event.
    pub fn from_u8(v: u8) -> (e: Event)
        requires
            v <= 1,
        ensures
            e.code() == v,
    {
        match v {
            0 => Event::Send,
            _ => Event::MultishortRecv,
        }
    }

    /// Encodes this event as a byte.
    pub fn as_u8(self) -> (v: u8)
        ensures
            v == self.code(),
    {
        match self {
            Event::Send => 0,
            Event::MultishortRecv => 1,
        }
    }
}

/// An event is determined by its code, so decoding an encoded event gives it back.
pub proof fn lemma_event_code_injective(a: Event, b: Event)
    ensures
        a.code() == b.code() ==> a == b,
        a.code() <= 1,
{
}

/// The 64-bit word attached to a submission and echoed back by its completion.
#[derive(Clone, Copy, PartialEq, Eq, Structural, Hash, PartialOrd, Ord, Debug)]
pub struct UserData {
    data: u64,
}

impl View for UserData {
    type V = u64;

    closed spec fn view(&self) -> u64 {
        self.data
    }
}

proof fn lemma_pack_bits(event: u8, owner: u16, req: u32)
    ensures
        ((event as u64) << 56u64) | ((owner as u64) << 40u64) | (req as u64) == pack(
            event,
            owner,
            req,
        ),
{
    let e = event as u64;
    let o = owner as u64;
    let r = req as u64;
    assert(e < 0x100 && o < 0x10000 && r < 0x1_0000_0000);
    assert((e << 56u64) | (o << 40u64) | r == e * 0x100_0000_0000_0000u64 + o * 0x100_0000_0000u64
        + r) by (bit_vector)
        requires
            e < 0x100,
            o < 0x10000,
            r < 0x1_0000_0000,
    ;
}

impl UserData {
    /// Wraps a packed word.
    pub fn from_packed(data: u64) -> (u: UserData)
        ensures
            u@ == data,
    {
        UserData { data }
    }

    /// Packs an event, an owner and a request identifier into one word.
    pub fn from_parts(event: u8, owner: u16, req: u32) -> (u: UserData)
        ensures
            u@ == pack(event, owner, req),
    {
        let mut data = 0u64;
        data |= (event as u64) << 56u64;
        data |= (owner as u64) << 40u64;
        data |= req as u64;
        proof {
            let e = event as u64;
            let o = owner as u64;
            let r = req as u64;
            assert(0u64 | (e << 56u64) | (o << 40u64) | r == (e << 56u64) | (o << 40u64) | r)
                by (bit_vector);
            lemma_pack_bits(event, owner, req);
        }
        UserData { data }
    }

    /// The packed word.
    pub fn as_u64(&self) -> (data: u64)
        ensures
            data == self@,
    {
        self.data
    }

    /// The event byte: bits 56..64.
    pub fn event(&self) -> (e: u8)
        ensures
            e == event_of(self@),
    {
        let d = self.data;
        assert((d >> 56u64) == d / 0x100_0000_0000_0000u64) by (bit_vector);
        (d >> 56u64) as u8
    }

    /// The owner field: bits 40..56.
    pub fn owner(&self) -> (o: u16)
        ensures
            o == owner_of(self@),
    {
        let d = self.data;
        assert(((d >> 40u64) & 0xFFFFu64) == (d / 0x100_0000_0000u64) % 0x10000u64)
            by (bit_vector);
        ((d >> 40u64) & 0xFFFFu64) as u16
    }

    /// The request identifier: bits 0..32.
    pub fn req(&self) -> (r: u32)
        ensures
            r == req_of(self@),
    {
        let d = self.data;
        assert((d & 0xFFFF_FFFFu64) == d % 0x1_0000_0000u64) by (bit_vector);
        (d & 0xFFFF_FFFFu64) as u32
    }
}

/// Unpacking a packed word gives back each of its parts.
pub proof fn lemma_unpack_pack(event: u8, owner: u16, req: u32)
    ensures
        event_of(pack(event, owner, req)) == event,
        owner_of(pack(event, owner, req)) == owner,
        req_of(pack(event, owner, req)) == req,
        unused_bits_of(pack(event, owner, req)) == 0,
{
    let e: u64 = event as u64;
    let o: u64 = owner as u64;
    let r: u64 = req as u64;
    let d: u64 = pack(event, owner, req);
    assert(d == e * 0x100_0000_0000_0000 + o * 0x100_0000_0000 + r);
    assert(d / 0x100_0000_0000_0000 == e && (d / 0x100_0000_0000) % 0x10000 == o && d
        % 0x1_0000_0000 == r && (d / 0x1_0000_0000) % 0x100 == 0) by (bit_vector)
        requires
            e < 0x100,
            o < 0x10000,
            r < 0x1_0000_0000,
            d == e * 0x100_0000_0000_0000 + o * 0x100_0000_0000 + r,
    ;
}

/// The word layout: the event is the top byte, the owner the next 16 bits
/// after 8 unused ones, the request the low 32 bits; so different parts always
/// give different words.
pub proof fn lemma_pack_layout(e1: u8, o1: u16, r1: u32, e2: u8, o2: u16, r2: u32)
    ensures
        pack(e1, o1, r1) as int / 0x100_0000_0000_0000 == e1,
        (pack(e1, o1, r1) as int / 0x100_0000_0000) % 0x10000 == o1,
        pack(e1, o1, r1) as int % 0x1_0000_0000 == r1,
        (pack(e1, o1, r1) as int / 0x1_0000_0000) % 0x100 == 0,
        pack(e1, o1, r1) == pack(e2, o2, r2) ==> e1 == e2 && o1 == o2 && r1 == r2,
{
    lemma_unpack_pack(e1, o1, r1);
    lemma_unpack_pack(e2, o2, r2);
}

/// Packing the parts of a word gives back the word exactly when its unused
/// bits 32..40 are zero.
pub proof fn lemma_pack_unpack(data: u64)
    ensures
        pack(event_of(data), owner_of(data), req_of(data)) == data <==> unused_bits_of(data) == 0,
{
    let e: u64 = data / 0x100_0000_0000_0000;
    let o: u64 = (data / 0x100_0000_0000) % 0x10000;
    let r: u64 = data % 0x1_0000_0000;
    assert(e < 0x100 && (e * 0x100_0000_0000_0000 + o * 0x100_0000_0000 + r == data <==> (data
        / 0x1_0000_0000) % 0x100 == 0)) by (bit_vector)
        requires
            e == data / 0x100_0000_0000_0000,
            o == (data / 0x100_0000_0000) % 0x10000,
            r == data % 0x1_0000_0000,
    ;
    assert(event_of(data) == e);
    assert(owner_of(data) == o);
    assert(req_of(data) == r);
}

impl From<UserData> for u64 {
    fn from(value: UserData) -> (r: u64) {
        value.data
    }
}

impl vstd::std_specs::convert::FromSpecImpl<UserData> for u64 {
    open spec fn obeys_from_spec() -> bool {
        true
    }

    open spec fn from_spec(v: UserData) -> u64 {
        v@
    }
}

} // verus!
