use vstd::prelude::*;
use crate::error::{eof_at, ErrorKind, Fault, ParserError};

verus! {

/// A cursor over an immutable message buffer.
///
/// The cursor keeps the whole original buffer, its absolute position `idx`
/// in it, and the end `end` of the region it may read. Its view is
/// `input[idx..end]`. A byte cursor has `B = ()`; a bit cursor has
/// `B = usize`, the number of bits already read from the byte at `idx`.
#[derive(Debug, Clone, Copy)]
pub struct IndexedInput<'a, B> {
    input: &'a [u8],
    idx: usize,
    end: usize,
    bit_offset: B,
}

pub type IByteInput<'a> = IndexedInput<'a, ()>;

pub type IBitInput<'a> = IndexedInput<'a, usize>;

/// A decode step on a byte cursor: the advanced cursor and the value, or a fault.
pub type PResult<'a, O> = Result<(IByteInput<'a>, O), Fault>;

/// The big-endian 16-bit integer at `b[p..p + 2]`.
pub open spec fn be16(b: Seq<u8>, p: int) -> u16 {
    (b[p] as int * 256 + b[p + 1] as int) as u16
}

/// The big-endian 32-bit integer at `b[p..p + 4]`.
pub open spec fn be32(b: Seq<u8>, p: int) -> u32 {
    (b[p] as int * 16777216 + b[p + 1] as int * 65536 + b[p + 2] as int * 256 + b[p + 3] as int) as u32
}

/// The bit `t` places after the most significant bit of `b[i]` (0 or 1).
pub open spec fn bit_at(b: Seq<u8>, i: int, t: int) -> u8 {
    (b[i + t / 8] >> (7 - t % 8) as u8) & 1u8
}

/// The `n` bits from bit `t` after the start of `b[i]`, most significant first.
pub open spec fn bits_value(b: Seq<u8>, i: int, t: int, n: nat) -> nat
    decreases n,
{
    if n == 0 {
        0
    } else {
        bits_value(b, i, t, (n - 1) as nat) * 2 + bit_at(b, i, t + n - 1) as nat
    }
}

impl<'a, B> IndexedInput<'a, B> {
    /// The whole original buffer.
    pub closed spec fn bytes(&self) -> Seq<u8> {
        self.input@
    }

    /// The absolute position of the cursor in the original buffer.
    pub closed spec fn pos(&self) -> int {
        self.idx as int
    }

    /// The absolute end of the region the cursor may read.
    pub closed spec fn limit(&self) -> int {
        self.end as int
    }

    /// The bytes left to read.
    pub open spec fn rest(&self) -> Seq<u8> {
        self.bytes().subrange(self.pos(), self.limit())
    }

    /// The cursor lies within its buffer.
    pub open spec fn inside(&self) -> bool {
        0 <= self.pos() <= self.limit() <= self.bytes().len() <= usize::MAX
    }
}

impl<'a> IndexedInput<'a, usize> {
    /// Bits already read from the byte at the cursor.
    pub closed spec fn bits(&self) -> int {
        self.bit_offset as int
    }

    /// A well-formed bit cursor: a pending partial byte lies inside the region.
    pub open spec fn bit_wf(&self) -> bool {
        &&& self.inside()
        &&& 0 <= self.bits() < 8
        &&& self.bits() > 0 ==> self.pos() < self.limit()
    }

    /// The absolute byte position a bit cursor rounds up to.
    pub open spec fn rounded(&self) -> int {
        if self.bits() == 0 { self.pos() } else { self.pos() + 1 }
    }
}

impl<'a> IndexedInput<'a, ()> {
    /// A cursor at the start of `input`, able to read all of it.
    pub fn new(input: &'a [u8]) -> (r: IByteInput<'a>)
        ensures
            r.bytes() == input@,
            r.pos() == 0,
            r.limit() == input@.len(),
            r.inside(),
    {
        IndexedInput { input, idx: 0, end: input.len(), bit_offset: () }
    }

    /// The absolute position in the original buffer.
    pub fn idx(&self) -> (r: usize)
        ensures
            r == self.pos(),
    {
        self.idx
    }

    /// The bytes left to read.
    pub fn input(&self) -> (r: &'a [u8])
        requires
            self.inside(),
        ensures
            r@ == self.rest(),
    {
        vstd::slice::slice_subrange(self.input, self.idx, self.end)
    }

    /// The same position, read bit by bit.
    pub fn to_bits(&self) -> (r: IBitInput<'a>)
        requires
            self.inside(),
        ensures
            r.bytes() == self.bytes(),
            r.pos() == self.pos(),
            r.limit() == self.limit(),
            r.bits() == 0,
            r.bit_wf(),
    {
        IndexedInput { input: self.input, idx: self.idx, end: self.end, bit_offset: 0 }
    }

    /// The original buffer, from its start to the end of this cursor's region.
    pub fn get_original_slice(&self) -> (r: &'a [u8])
        requires
            self.inside(),
        ensures
            r@ == self.bytes().subrange(0, self.limit()),
    {
        vstd::slice::slice_subrange(self.input, 0, self.end)
    }

    /// A cursor re-anchored at absolute position `offset` of the same buffer,
    /// with the same end.
    pub fn offset_original(&self, offset: usize) -> (r: IByteInput<'a>)
        requires
            self.inside(),
            offset <= self.limit(),
        ensures
            r.bytes() == self.bytes(),
            r.pos() == offset,
            r.limit() == self.limit(),
            r.inside(),
    {
        IndexedInput { input: self.input, idx: offset, end: self.end, bit_offset: () }
    }

    /// The end-of-input fault at this cursor.
    fn eof(&self) -> (r: Fault)
        ensures
            r == eof_at(self.idx),
    {
        Fault::Error(ParserError::from_error_kind(self.idx, ErrorKind::Eof))
    }

    /// Reads the byte at the cursor without moving it.
    pub fn peek_u8(&self) -> (r: Result<u8, Fault>)
        requires
            self.inside(),
        ensures
            self.pos() < self.limit() ==> r == Ok::<u8, Fault>(self.bytes()[self.pos()]),
            self.pos() >= self.limit() ==> r == Err::<u8, Fault>(eof_at(self.pos() as usize)),
    {
        if self.idx < self.end {
            Ok(self.input[self.idx])
        } else {
            Err(self.eof())
        }
    }

    /// Reads a byte.
    pub fn be_u8(&self) -> (r: PResult<'a, u8>)
        requires
            self.inside(),
        ensures
            self.limit() - self.pos() >= 1 ==> r is Ok && r->Ok_0.1 == self.bytes()[self.pos()]
                && r->Ok_0.0.pos() == self.pos() + 1 && r->Ok_0.0.same_region(*self),
            self.limit() - self.pos() < 1 ==> r == Err::<(IByteInput, u8), Fault>(eof_at(self.pos() as usize)),
    {
        if self.end - self.idx >= 1 {
            let v = self.input[self.idx];
            Ok((IndexedInput { input: self.input, idx: self.idx + 1, end: self.end, bit_offset: () }, v))
        } else {
            Err(self.eof())
        }
    }

    /// Reads a big-endian 16-bit integer.
    pub fn be_u16(&self) -> (r: PResult<'a, u16>)
        requires
            self.inside(),
        ensures
            self.limit() - self.pos() >= 2 ==> r is Ok && r->Ok_0.1 == be16(self.bytes(), self.pos())
                && r->Ok_0.0.pos() == self.pos() + 2 && r->Ok_0.0.same_region(*self),
            self.limit() - self.pos() < 2 ==> r == Err::<(IByteInput, u16), Fault>(eof_at(self.pos() as usize)),
    {
        if self.end - self.idx >= 2 {
            let v = (self.input[self.idx] as u16) * 256 + self.input[self.idx + 1] as u16;
            Ok((IndexedInput { input: self.input, idx: self.idx + 2, end: self.end, bit_offset: () }, v))
        } else {
            Err(self.eof())
        }
    }

    /// Reads a big-endian 32-bit integer.
    pub fn be_u32(&self) -> (r: PResult<'a, u32>)
        requires
            self.inside(),
        ensures
            self.limit() - self.pos() >= 4 ==> r is Ok && r->Ok_0.1 == be32(self.bytes(), self.pos())
                && r->Ok_0.0.pos() == self.pos() + 4 && r->Ok_0.0.same_region(*self),
            self.limit() - self.pos() < 4 ==> r == Err::<(IByteInput, u32), Fault>(eof_at(self.pos() as usize)),
    {
        if self.end - self.idx >= 4 {
            let i = self.idx;
            let v = (self.input[i] as u32) * 16777216 + (self.input[i + 1] as u32) * 65536
                + (self.input[i + 2] as u32) * 256 + self.input[i + 3] as u32;
            Ok((IndexedInput { input: self.input, idx: i + 4, end: self.end, bit_offset: () }, v))
        } else {
            Err(self.eof())
        }
    }

    /// Splits off the next `count` bytes: the cursor after them, and a cursor
    /// that may read only them.
    pub fn take_split(&self, count: usize) -> (r: Result<(IByteInput<'a>, IByteInput<'a>), Fault>)
        requires
            self.inside(),
        ensures
            self.limit() - self.pos() >= count ==> r is Ok
                && r->Ok_0.0.pos() == self.pos() + count && r->Ok_0.0.same_region(*self)
                && r->Ok_0.1.bytes() == self.bytes() && r->Ok_0.1.pos() == self.pos()
                && r->Ok_0.1.limit() == self.pos() + count && r->Ok_0.1.inside(),
            self.limit() - self.pos() < count ==> r == Err::<(IByteInput, IByteInput), Fault>(eof_at(self.pos() as usize)),
    {
        if self.end - self.idx >= count {
            let rest = IndexedInput { input: self.input, idx: self.idx + count, end: self.end, bit_offset: () };
            let taken = IndexedInput { input: self.input, idx: self.idx, end: self.idx + count, bit_offset: () };
            Ok((rest, taken))
        } else {
            Err(self.eof())
        }
    }
}

impl<'a, B> IndexedInput<'a, B> {
    /// `self` reads the same buffer and region end as `other`, and lies inside it.
    pub open spec fn same_region<C>(&self, other: IndexedInput<'a, C>) -> bool {
        &&& self.bytes() == other.bytes()
        &&& self.limit() == other.limit()
        &&& self.inside()
    }
}

impl<'a> IndexedInput<'a, usize> {
    /// The byte cursor at this position; a partly read byte is skipped whole.
    pub fn to_bytes(&self) -> (r: IByteInput<'a>)
        requires
            self.bit_wf(),
        ensures
            r.pos() == self.rounded(),
            r.same_region(*self),
    {
        let next = if self.bit_offset % 8 != 0 { self.idx + 1 + self.bit_offset / 8 } else { self.idx + self.bit_offset / 8 };
        IndexedInput { input: self.input, idx: next, end: self.end, bit_offset: () }
    }

    /// Reads `count` bits, most significant first, into an integer.
    pub fn take(&self, count: usize) -> (r: Result<(IBitInput<'a>, u16), Fault>)
        requires
            self.bit_wf(),
            count <= 16,
        ensures
            count == 0 ==> r == Ok::<(IBitInput, u16), Fault>((*self, 0u16)),
            count > 0 && (self.limit() - self.pos()) * 8 >= count + self.bits() ==> r is Ok
                && r->Ok_0.1 == bits_value(self.bytes(), self.pos(), self.bits(), count as nat)
                && r->Ok_0.0.pos() == self.pos() + (self.bits() + count) / 8
                && r->Ok_0.0.bits() == (self.bits() + count) % 8
                && r->Ok_0.0.same_region(*self) && r->Ok_0.0.bit_wf(),
            count > 0 && (self.limit() - self.pos()) * 8 < count + self.bits()
                ==> r == Err::<(IBitInput, u16), Fault>(eof_at(self.rounded() as usize)),
    {
        if count == 0 {
            return Ok((*self, 0u16));
        }
        if (self.end - self.idx) < (count + self.bit_offset + 7) / 8 {
            let here = self.to_bytes();
            return Err(Fault::Error(ParserError::from_error_kind(here.idx, ErrorKind::Eof)));
        }
        let ghost b = self.input@;
        let mut acc: u32 = 0;
        let mut k: usize = 0;
        assert(0u32 < (1u32 << 0u32)) by (bit_vector);
        while k < count
            invariant
                self.bit_wf(),
                b == self.input@,
                count <= 16,
                k <= count,
                (self.end - self.idx) * 8 >= count + self.bit_offset,
                acc < (1u32 << (k as u32)),
                acc as nat == bits_value(b, self.idx as int, self.bit_offset as int, k as nat),
            decreases count - k,
        {
            let t: usize = self.bit_offset + k;
            let byte = self.input[self.idx + t / 8];
            let bit = (byte >> ((7 - t % 8) as u8)) & 1u8;
            assert(bit <= 1u8) by (bit_vector)
                requires bit == (byte >> ((7 - t % 8) as u8)) & 1u8;
            let ghost kk = k as u32;
            let ghost kk1 = (k + 1) as u32;
            assert(acc < (1u32 << kk) && kk < 16 && kk1 == kk + 1 && bit <= 1
                ==> acc * 2 + (bit as u32) < (1u32 << kk1)) by (bit_vector);
            acc = acc * 2 + bit as u32;
            k = k + 1;
        }
        let ghost kk = count as u32;
        assert(acc < (1u32 << kk) && kk <= 16 ==> acc < 65536) by (bit_vector);
        let total = self.bit_offset + count;
        let next = IndexedInput { input: self.input, idx: self.idx + total / 8, end: self.end, bit_offset: total % 8 };
        Ok((next, acc as u16))
    }
}

} // verus!
