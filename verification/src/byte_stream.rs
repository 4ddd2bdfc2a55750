use crate::error::BingrepError;
use vstd::pervasive::VecAdditionalExecFns;
use vstd::prelude::*;

verus! {

/// How many bytes a read of `count` transfers: all of them, or whatever
/// remains before the end of the stream.
pub open spec fn read_amount(count: int, remaining: int) -> int {
    if count <= remaining {
        count
    } else {
        remaining
    }
}

/// A seekable source of bytes. A value stands for a fixed byte sequence
/// (`contents`) and a cursor into it; reads return the bytes at the cursor
/// and advance it. The scanner works against this contract alone, so a
/// caller may back it with a memory buffer, a file, or anything else that
/// keeps the promises below. An implementation whose operations cannot
/// fail says so with `never_fails`.
pub trait ByteStream: Sized {
    /// The whole byte sequence behind the stream. The default bodies
    /// here only spare unverified implementations the ghost items; a
    /// verified implementation overrides them.
    open spec fn contents(&self) -> Seq<u8> {
        Seq::empty()
    }

    /// The current read position.
    open spec fn cursor(&self) -> int {
        0
    }

    /// Whether the operations below always return `Ok`.
    open spec fn never_fails(&self) -> bool {
        false
    }

    /// The cursor lies within the contents, and the contents fit the
    /// 64-bit offsets the scanner reports.
    open spec fn wf(&self) -> bool {
        true
    }

    /// The total length of the stream, as its size query reports it.
    fn stream_len(&self) -> (r: Result<u64, BingrepError>)
        requires
            self.wf(),
        ensures
            r is Ok ==> r->Ok_0 == self.contents().len(),
            self.never_fails() ==> r is Ok,
            r is Err ==> r->Err_0 is Io,
    ;

    /// The current read position. A position query only succeeds while
    /// the cursor lies within the contents and the stream's length fits
    /// the 64-bit offsets the scanner reports.
    fn stream_position(&self) -> (r: Result<u64, BingrepError>)
        requires
            self.wf(),
        ensures
            r is Ok ==> r->Ok_0 == self.cursor() && self.cursor() <= self.contents().len()
                && self.contents().len() <= u64::MAX,
            self.never_fails() ==> r is Ok,
            r is Err ==> r->Err_0 is Io,
    ;

    /// Moves the cursor to an absolute position within the contents.
    fn seek_to(&mut self, pos: u64) -> (r: Result<(), BingrepError>)
        requires
            old(self).wf(),
            pos <= old(self).contents().len(),
        ensures
            final(self).wf(),
            final(self).contents() == old(self).contents(),
            final(self).never_fails() == old(self).never_fails(),
            r is Ok ==> final(self).cursor() == pos,
            old(self).never_fails() ==> r is Ok,
            r is Err ==> r->Err_0 is Io,
    ;

    /// Reads up to `count` bytes at the cursor into the front of `buf`,
    /// advancing the cursor. A successful read transfers exactly the
    /// requested count, or all bytes left before the end of the stream;
    /// only the end of the stream makes it short.
    fn read_into(&mut self, buf: &mut Vec<u8>, count: usize) -> (r: Result<usize, BingrepError>)
        requires
            old(self).wf(),
            count <= old(buf).len(),
        ensures
            final(self).wf(),
            final(self).contents() == old(self).contents(),
            final(self).never_fails() == old(self).never_fails(),
            final(buf).len() == old(buf).len(),
            r is Ok ==> ({
                let n = r->Ok_0 as int;
                let c = old(self).cursor();
                &&& n == read_amount(count as int, old(self).contents().len() - c)
                &&& final(self).cursor() == c + n
                &&& final(buf)@ == old(self).contents().subrange(c, c + n) + old(buf)@.skip(n)
            }),
            old(self).never_fails() ==> r is Ok,
            r is Err ==> r->Err_0 is Io,
    ;
}

/// A stream over bytes held in memory. Its operations never fail; tests
/// and the standard-input path use it.
pub struct MemStream {
    data: Vec<u8>,
    pos: usize,
}

impl MemStream {
    /// A stream over the given bytes, with the cursor at the start.
    pub fn new(data: Vec<u8>) -> (r: MemStream)
        ensures
            r.contents() == data@,
            r.cursor() == 0,
            r.wf(),
            r.never_fails(),
    {
        MemStream { data, pos: 0 }
    }
}

impl ByteStream for MemStream {
    closed spec fn contents(&self) -> Seq<u8> {
        self.data@
    }

    closed spec fn cursor(&self) -> int {
        self.pos as int
    }

    open spec fn never_fails(&self) -> bool {
        true
    }

    closed spec fn wf(&self) -> bool {
        self.pos <= self.data.len()
    }

    fn stream_len(&self) -> (r: Result<u64, BingrepError>) {
        Ok(self.data.len() as u64)
    }

    fn stream_position(&self) -> (r: Result<u64, BingrepError>) {
        Ok(self.pos as u64)
    }

    fn seek_to(&mut self, pos: u64) -> (r: Result<(), BingrepError>) {
        self.pos = pos as usize;
        Ok(())
    }

    fn read_into(&mut self, buf: &mut Vec<u8>, count: usize) -> (r: Result<
        usize,
        BingrepError,
    >) {
        let remaining = self.data.len() - self.pos;
        let n = if count <= remaining {
            count
        } else {
            remaining
        };
        let mut j: usize = 0;
        while j < n
            invariant
                j <= n,
                n <= count <= buf@.len(),
                self.pos + n <= self.data.len(),
                buf@.len() == old(buf)@.len(),
                self == old(self),
                forall|k: int|
                    0 <= k < j ==> buf@[k] == self.data@[self.pos + k],
                forall|k: int| j <= k < buf@.len() ==> buf@[k] == old(buf)@[k],
            decreases n - j,
        {
            buf.set(j, self.data[self.pos + j]);
            j += 1;
        }
        self.pos = self.pos + n;
        proof {
            assert(buf@ =~= old(self).contents().subrange(
                old(self).cursor(),
                old(self).cursor() + n,
            ) + old(buf)@.skip(n as int));
        }
        Ok(n)
    }
}

} // verus!
