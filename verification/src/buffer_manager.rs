use crate::byte_stream::{read_amount, ByteStream};
use crate::error::BingrepError;
use vstd::prelude::*;

verus! {

/// Owns the three byte regions a scan reuses: the main window, the extra
/// (tail) buffer for display bytes past the window, and a scratch buffer
/// that joins the two into one contiguous slice. Keeping them here makes
/// the steady state of a large scan allocation-free.
pub struct BufferManager {
    pub main_buffer: Vec<u8>,
    pub extra_buffer: Vec<u8>,
    pub temp_buffer: Vec<u8>,
}

impl BufferManager {
    pub fn new(buffer_size: usize, max_extra_size: usize) -> (r: BufferManager)
        ensures
            r.main_buffer@ == Seq::new(buffer_size as nat, |i: int| 0u8),
            r.extra_buffer@ == Seq::new(max_extra_size as nat, |i: int| 0u8),
            r.temp_buffer@ == Seq::<u8>::empty(),
    {
        let r = BufferManager {
            main_buffer: zero_bytes(buffer_size),
            extra_buffer: zero_bytes(max_extra_size),
            temp_buffer: Vec::new(),
        };
        r
    }

    /// A view of the whole main window.
    pub fn get_main_buffer(&self) -> (r: &Vec<u8>)
        ensures
            r@ == self.main_buffer@,
    {
        &self.main_buffer
    }

    /// Grows the extra buffer to at least `needed_size`, zero-filling the
    /// new region; it never shrinks, so the allocation is amortized over
    /// many boundary-spanning matches.
    pub fn get_extra_buffer(&mut self, needed_size: usize) -> (r: &Vec<u8>)
        ensures
            final(self).main_buffer == old(self).main_buffer,
            final(self).temp_buffer == old(self).temp_buffer,
            final(self).extra_buffer@.len() == if old(self).extra_buffer@.len() >= needed_size {
                old(self).extra_buffer@.len()
            } else {
                needed_size as nat
            },
            final(self).extra_buffer@.take(old(self).extra_buffer@.len() as int) == old(
                self,
            ).extra_buffer@,
            forall|i: int|
                old(self).extra_buffer@.len() <= i < final(self).extra_buffer@.len()
                    ==> final(self).extra_buffer@[i] == 0,
            r@ == final(self).extra_buffer@,
    {
        while self.extra_buffer.len() < needed_size
            invariant
                self.main_buffer == old(self).main_buffer,
                self.temp_buffer == old(self).temp_buffer,
                self.extra_buffer@.len() >= old(self).extra_buffer@.len(),
                self.extra_buffer@.len() <= needed_size || self.extra_buffer@.len() == old(
                    self,
                ).extra_buffer@.len(),
                self.extra_buffer@.take(old(self).extra_buffer@.len() as int) == old(
                    self,
                ).extra_buffer@,
                forall|i: int|
                    old(self).extra_buffer@.len() <= i < self.extra_buffer@.len()
                        ==> self.extra_buffer@[i] == 0,
            decreases needed_size - self.extra_buffer@.len(),
        {
            self.extra_buffer.push(0u8);
            proof {
                assert(self.extra_buffer@.take(old(self).extra_buffer@.len() as int) =~= old(
                    self,
                ).extra_buffer@);
            }
        }
        &self.extra_buffer
    }

    /// Fills the main window from the stream: up to its full capacity,
    /// short only at the end of the stream.
    pub fn read_into_main<R: ByteStream>(&mut self, reader: &mut R) -> (r: Result<
        usize,
        BingrepError,
    >)
        requires
            old(reader).wf(),
        ensures
            final(reader).wf(),
            final(reader).contents() == old(reader).contents(),
            final(reader).never_fails() == old(reader).never_fails(),
            final(self).extra_buffer == old(self).extra_buffer,
            final(self).temp_buffer == old(self).temp_buffer,
            final(self).main_buffer@.len() == old(self).main_buffer@.len(),
            r is Ok ==> ({
                let n = r->Ok_0 as int;
                let c = old(reader).cursor();
                &&& n == read_amount(
                    old(self).main_buffer@.len() as int,
                    old(reader).contents().len() - c,
                )
                &&& final(reader).cursor() == c + n
                &&& final(self).main_buffer@ == old(reader).contents().subrange(c, c + n) + old(
                    self,
                ).main_buffer@.skip(n)
            }),
            old(reader).never_fails() ==> r is Ok,
            r is Err ==> r->Err_0 is Io,
    {
        let count = self.main_buffer.len();
        reader.read_into(&mut self.main_buffer, count)
    }

    /// Reads up to `size` bytes from the stream into the front of the
    /// extra buffer, growing it first if it is smaller than `size`.
    pub fn read_into_extra<R: ByteStream>(&mut self, reader: &mut R, size: usize) -> (r: Result<
        usize,
        BingrepError,
    >)
        requires
            old(reader).wf(),
        ensures
            final(reader).wf(),
            final(reader).contents() == old(reader).contents(),
            final(reader).never_fails() == old(reader).never_fails(),
            final(self).main_buffer == old(self).main_buffer,
            final(self).temp_buffer == old(self).temp_buffer,
            final(self).extra_buffer@.len() == if old(self).extra_buffer@.len() >= size {
                old(self).extra_buffer@.len()
            } else {
                size as nat
            },
            r is Ok ==> ({
                let n = r->Ok_0 as int;
                let c = old(reader).cursor();
                &&& n == read_amount(size as int, old(reader).contents().len() - c)
                &&& final(reader).cursor() == c + n
                &&& final(self).extra_buffer@.subrange(0, n) == old(reader).contents().subrange(
                    c,
                    c + n,
                )
            }),
            old(reader).never_fails() ==> r is Ok,
            r is Err ==> r->Err_0 is Io,
    {
        self.get_extra_buffer(size);
        let r = reader.read_into(&mut self.extra_buffer, size);
        proof {
            if r is Ok {
                let n = r->Ok_0 as int;
                let c = old(reader).cursor();
                assert(self.extra_buffer@.subrange(0, n) =~= old(reader).contents().subrange(
                    c,
                    c + n,
                ));
            }
        }
        r
    }

    /// Overwrites the scratch buffer with `main[main_start..main_end]`
    /// followed by `extra[..extra_size]` and hands it out as one
    /// contiguous view.
    pub fn combine_buffers(&mut self, main_start: usize, main_end: usize, extra_size: usize) -> (r:
        &Vec<u8>)
        requires
            main_start <= main_end <= old(self).main_buffer@.len(),
            extra_size <= old(self).extra_buffer@.len(),
        ensures
            final(self).main_buffer == old(self).main_buffer,
            final(self).extra_buffer == old(self).extra_buffer,
            final(self).temp_buffer@ == old(self).main_buffer@.subrange(
                main_start as int,
                main_end as int,
            ) + old(self).extra_buffer@.subrange(0, extra_size as int),
            r@ == final(self).temp_buffer@,
    {
        self.temp_buffer.clear();
        let main_part = slice_part(self.main_buffer.as_slice(), main_start, main_end);
        self.temp_buffer.extend_from_slice(main_part);
        let extra_part = slice_part(self.extra_buffer.as_slice(), 0, extra_size);
        self.temp_buffer.extend_from_slice(extra_part);
        proof {
            assert(self.temp_buffer@ =~= self.main_buffer@.subrange(
                main_start as int,
                main_end as int,
            ) + self.extra_buffer@.subrange(0, extra_size as int));
        }
        &self.temp_buffer
    }

    /// A view of `main[start..end]`.
    pub fn get_main_slice(&self, start: usize, end: usize) -> (r: &[u8])
        requires
            start <= end <= self.main_buffer@.len(),
        ensures
            r@ == self.main_buffer@.subrange(start as int, end as int),
    {
        slice_part(self.main_buffer.as_slice(), start, end)
    }

    /// A view of `extra[..size]`.
    pub fn get_extra_slice(&self, size: usize) -> (r: &[u8])
        requires
            size <= self.extra_buffer@.len(),
        ensures
            r@ == self.extra_buffer@.subrange(0, size as int),
    {
        slice_part(self.extra_buffer.as_slice(), 0, size)
    }
}

/// A vector of `n` zero bytes.
fn zero_bytes(n: usize) -> (r: Vec<u8>)
    ensures
        r@ == Seq::new(n as nat, |i: int| 0u8),
{
    let mut v: Vec<u8> = Vec::new();
    let mut i: usize = 0;
    while i < n
        invariant
            i <= n,
            v@ == Seq::new(i as nat, |j: int| 0u8),
        decreases n - i,
    {
        v.push(0u8);
        proof {
            assert(v@ =~= Seq::new((i + 1) as nat, |j: int| 0u8));
        }
        i += 1;
    }
    v
}

/// The subslice `s[i..j]`.
fn slice_part<'a>(s: &'a [u8], i: usize, j: usize) -> (r: &'a [u8])
    requires
        i <= j <= s@.len(),
    ensures
        r@ == s@.subrange(i as int, j as int),
{
    vstd::slice::slice_subrange(s, i, j)
}

} // verus!
