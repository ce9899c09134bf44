//! Bounds-checked primitives: a cursor over a byte slice and a lazy view of
//! fixed-size records.
use crate::Error;
use vstd::prelude::*;
use vstd::slice::slice_subrange;

verus! {

/// The unsigned 16-bit value stored big-endian in the bytes `hi`, `lo`.
pub open spec fn be_u16(hi: u8, lo: u8) -> u16 {
    (hi as int * 256 + lo as int) as u16
}

/// The big-endian `u16` that starts at byte `i` of `b`.
pub open spec fn u16_at(b: Seq<u8>, i: int) -> u16 {
    be_u16(b[i], b[i + 1])
}

/// Reads the big-endian `u16` at byte `i` of `data`.
pub fn read_u16_at(data: &[u8], i: usize) -> (r: u16)
    requires
        i + 2 <= data@.len(),
    ensures
        r == u16_at(data@, i as int),
{
    let hi = data[i] as u16;
    let lo = data[i + 1] as u16;
    hi * 256 + lo
}

/// A sequential, bounds-checked reader over a borrowed byte slice.
#[derive(Clone, Copy)]
pub struct Stream<'a> {
    data: &'a [u8],
    offset: usize,
}

impl<'a> Stream<'a> {
    /// The bytes the stream reads.
    pub closed spec fn bytes(&self) -> Seq<u8> {
        self.data@
    }

    /// The current read position.
    pub closed spec fn pos(&self) -> int {
        self.offset as int
    }

    /// The position never passes the end of the bytes.
    pub open spec fn wf(&self) -> bool {
        0 <= self.pos() <= self.bytes().len()
    }

    /// A stream at the start of `data`.
    pub fn new(data: &'a [u8]) -> (s: Stream<'a>)
        ensures
            s.bytes() == data@,
            s.pos() == 0,
            s.wf(),
    {
        Stream { data, offset: 0 }
    }

    /// Whether every byte has been read.
    pub fn at_end(&self) -> (r: bool)
        requires
            self.wf(),
        ensures
            r == (self.pos() == self.bytes().len()),
    {
        self.offset == self.data.len()
    }

    /// Reads a big-endian `u16` and moves past it.
    pub fn read_u16(&mut self) -> (r: Result<u16, Error>)
        requires
            old(self).wf(),
        ensures
            final(self).wf(),
            final(self).bytes() == old(self).bytes(),
            old(self).pos() + 2 <= old(self).bytes().len() ==> r == Ok::<u16, Error>(
                u16_at(old(self).bytes(), old(self).pos()),
            ) && final(self).pos() == old(self).pos() + 2,
            old(self).pos() + 2 > old(self).bytes().len() ==> r == Err::<u16, Error>(
                Error::ReadOutOfBounds,
            ) && final(self).pos() == old(self).pos(),
    {
        if self.data.len() - self.offset < 2 {
            return Err(Error::ReadOutOfBounds);
        }
        let v = read_u16_at(self.data, self.offset);
        self.offset = self.offset + 2;
        Ok(v)
    }

    /// Reads a big-endian `i16` and moves past it.
    pub fn read_i16(&mut self) -> (r: Result<i16, Error>)
        requires
            old(self).wf(),
        ensures
            final(self).wf(),
            final(self).bytes() == old(self).bytes(),
            old(self).pos() + 2 <= old(self).bytes().len() ==> r == Ok::<i16, Error>(
                u16_at(old(self).bytes(), old(self).pos()) as i16,
            ) && final(self).pos() == old(self).pos() + 2,
            old(self).pos() + 2 > old(self).bytes().len() ==> r == Err::<i16, Error>(
                Error::ReadOutOfBounds,
            ) && final(self).pos() == old(self).pos(),
    {
        match self.read_u16() {
            Ok(v) => Ok(v as i16),
            Err(e) => Err(e),
        }
    }

    /// Reads one byte and moves past it.
    pub fn read_u8(&mut self) -> (r: Result<u8, Error>)
        requires
            old(self).wf(),
        ensures
            final(self).wf(),
            final(self).bytes() == old(self).bytes(),
            old(self).pos() < old(self).bytes().len() ==> r == Ok::<u8, Error>(
                old(self).bytes()[old(self).pos()],
            ) && final(self).pos() == old(self).pos() + 1,
            old(self).pos() >= old(self).bytes().len() ==> r == Err::<u8, Error>(
                Error::ReadOutOfBounds,
            ) && final(self).pos() == old(self).pos(),
    {
        if self.offset >= self.data.len() {
            return Err(Error::ReadOutOfBounds);
        }
        let v = self.data[self.offset];
        self.offset = self.offset + 1;
        Ok(v)
    }

    /// Moves past `n` bytes without reading them.
    pub fn advance(&mut self, n: usize) -> (r: Result<(), Error>)
        requires
            old(self).wf(),
        ensures
            final(self).wf(),
            final(self).bytes() == old(self).bytes(),
            old(self).pos() + n <= old(self).bytes().len() ==> r == Ok::<(), Error>(())
                && final(self).pos() == old(self).pos() + n,
            old(self).pos() + n > old(self).bytes().len() ==> r == Err::<(), Error>(
                Error::ReadOutOfBounds,
            ) && final(self).pos() == old(self).pos(),
    {
        if self.data.len() - self.offset < n {
            return Err(Error::ReadOutOfBounds);
        }
        self.offset = self.offset + n;
        Ok(())
    }

    /// Moves past one `u16` without reading it.
    pub fn skip_u16(&mut self) -> (r: Result<(), Error>)
        requires
            old(self).wf(),
        ensures
            final(self).wf(),
            final(self).bytes() == old(self).bytes(),
            old(self).pos() + 2 <= old(self).bytes().len() ==> r == Ok::<(), Error>(())
                && final(self).pos() == old(self).pos() + 2,
            old(self).pos() + 2 > old(self).bytes().len() ==> r == Err::<(), Error>(
                Error::ReadOutOfBounds,
            ) && final(self).pos() == old(self).pos(),
    {
        self.advance(2)
    }

    /// Returns the next `n` bytes and moves past them.
    pub fn read_bytes(&mut self, n: usize) -> (r: Result<&'a [u8], Error>)
        requires
            old(self).wf(),
        ensures
            final(self).wf(),
            final(self).bytes() == old(self).bytes(),
            old(self).pos() + n <= old(self).bytes().len() ==> r is Ok && r->Ok_0@ == old(
                self,
            ).bytes().subrange(old(self).pos(), old(self).pos() + n) && final(self).pos()
                == old(self).pos() + n,
            old(self).pos() + n > old(self).bytes().len() ==> r == Err::<&'a [u8], Error>(
                Error::ReadOutOfBounds,
            ) && final(self).pos() == old(self).pos(),
    {
        if self.data.len() - self.offset < n {
            return Err(Error::ReadOutOfBounds);
        }
        let start = self.offset;
        self.offset = self.offset + n;
        Ok(slice_subrange(self.data, start, start + n))
    }

    /// Returns every byte that has not been read yet.
    pub fn tail(&self) -> (r: Result<&'a [u8], Error>)
        ensures
            self.wf() ==> r is Ok && r->Ok_0@ == self.bytes().subrange(
                self.pos(),
                self.bytes().len() as int,
            ),
            !self.wf() ==> r == Err::<&'a [u8], Error>(Error::ReadOutOfBounds),
    {
        if self.offset > self.data.len() {
            return Err(Error::ReadOutOfBounds);
        }
        Ok(slice_subrange(self.data, self.offset, self.data.len()))
    }
}

/// `i * w + w <= l` whenever `i` is below `l / w`.
proof fn lemma_record_in_bounds(i: int, w: int, l: int)
    requires
        w > 0,
        l >= 0,
        0 <= i < l / w,
    ensures
        0 <= i * w,
        i * w + w <= l,
{
    assert(0 <= i * w) by (nonlinear_arith)
        requires
            0 <= i,
            w > 0,
    ;
    assert(i * w + w <= (l / w) * w) by (nonlinear_arith)
        requires
            i + 1 <= l / w,
            w > 0,
    ;
    assert((l / w) * w <= l) by (nonlinear_arith)
        requires
            w > 0,
            l >= 0,
    ;
}

/// A read-only view of a byte region as a sequence of records of one width.
///
/// Nothing is decoded until a record is asked for; a trailing partial record
/// is ignored.
#[derive(Clone, Copy)]
pub struct LazyArray<'a> {
    data: &'a [u8],
    stride: usize,
}

/// The record at index `i` of `data`, for records of width `w`.
pub open spec fn record_at(data: Seq<u8>, w: int, i: int) -> Seq<u8> {
    data.subrange(i * w, i * w + w)
}

impl<'a> LazyArray<'a> {
    /// The region the records are read from.
    pub closed spec fn bytes(&self) -> Seq<u8> {
        self.data@
    }

    /// The width of each record.
    pub closed spec fn stride(&self) -> int {
        self.stride as int
    }

    /// The number of whole records in the region.
    pub open spec fn spec_len(&self) -> int {
        self.bytes().len() as int / self.stride()
    }

    /// A view of `data` as records of `stride` bytes.
    pub fn new(data: &'a [u8], stride: usize) -> (r: LazyArray<'a>)
        requires
            stride > 0,
        ensures
            r.bytes() == data@,
            r.stride() == stride,
    {
        LazyArray { data, stride }
    }

    /// The number of whole records.
    pub fn len(&self) -> (r: usize)
        requires
            self.stride() > 0,
        ensures
            r == self.spec_len(),
    {
        self.data.len() / self.stride
    }

    /// The record at `index`, or `None` past the last whole record.
    pub fn get(&self, index: usize) -> (r: Option<&'a [u8]>)
        requires
            self.stride() > 0,
        ensures
            index < self.spec_len() ==> r is Some && r->Some_0@ == record_at(
                self.bytes(),
                self.stride(),
                index as int,
            ),
            index >= self.spec_len() ==> r is None,
    {
        if index >= self.data.len() / self.stride {
            return None;
        }
        proof {
            lemma_record_in_bounds(index as int, self.stride as int, self.data@.len() as int);
        }
        let start = index * self.stride;
        Some(slice_subrange(self.data, start, start + self.stride))
    }
}

} // verus!
