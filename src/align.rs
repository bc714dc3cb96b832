use vstd::prelude::*;
use crate::eof::{EofReadExactExt, is_suffix};
use crate::error::{Error, IoError, IoErrorKind};
use crate::source::ByteSource;

verus! {

/// How many bytes must be skipped from `offset` on to reach a multiple of
/// `alignment`.
pub open spec fn padding(offset: nat, alignment: nat) -> nat
    recommends
        alignment > 0,
{
    if offset % alignment == 0 {
        0
    } else {
        (alignment - offset % alignment) as nat
    }
}

/// Skipping the padding from any offset lands on a multiple of the
/// alignment, skips fewer bytes than the alignment, and skips nothing from
/// an offset that already is a multiple.
pub proof fn law_padding_aligns(offset: nat, alignment: nat)
    requires
        alignment > 0,
    ensures
        (offset + padding(offset, alignment)) % alignment == 0,
        padding(offset, alignment) < alignment,
        offset % alignment == 0 ==> padding(offset, alignment) == 0,
{
    let e = offset % alignment;
    if e != 0 {
        assert((offset + (alignment - e)) % (alignment as int) == 0) by (nonlinear_arith)
            requires
                e == offset % alignment,
                alignment > 0,
        ;
    }
}

/// A byte source that counts the bytes it has produced since it was made,
/// so that padding can be skipped up to a multiple of a given alignment.
///
/// The count is kept here, not asked of the inner source: a source that was
/// partly read before it was wrapped starts again from zero.
pub struct AligningReader<R: ByteSource> {
    inner: R,
    offset: u64,
}

impl<R: ByteSource> AligningReader<R> {

    /// The number of bytes produced since the reader was made.
    pub closed spec fn spec_offset(self) -> u64 {
        self.offset
    }

    /// The wrapped source.
    pub closed spec fn spec_inner(self) -> R {
        self.inner
    }

    /// Wraps `inner`, with a count of zero. The count is a `u64`, so the
    /// stream may not hold more bytes than that.
    pub fn new(inner: R) -> (r: Self)
        requires
            inner.wf(),
            inner.pending().len() <= u64::MAX,
        ensures
            r.wf(),
            r.spec_offset() == 0,
            r.spec_inner() == inner,
    {
        AligningReader { inner, offset: 0 }
    }

    /// Gives the wrapped source back.
    pub fn into_inner(self) -> (r: R)
        ensures
            r == self.spec_inner(),
    {
        self.inner
    }

    /// The number of bytes produced since the reader was made.
    pub fn offset(&self) -> (r: u64)
        ensures
            r == self.spec_offset(),
    {
        self.offset
    }

    /// Skips bytes until the count is a multiple of `alignment`, which lies
    /// in 1 to 64.
    ///
    /// Returns `Ok(true)` when the count already was a multiple, without
    /// reading anything, and `Ok(false)` when padding was skipped. A stream
    /// that ends within the padding, even before its first byte, gives
    /// `Error::UnexpectedEof`. On failure the count is left as it was.
    pub fn align_to(&mut self, alignment: usize) -> (r: Result<bool, Error>)
        requires
            old(self).wf(),
            0 < alignment <= 64,
        ensures
            final(self).wf(),
            ({
                let o = old(self).spec_offset() as nat;
                let p = old(self).spec_inner().pending();
                let pad = padding(o, alignment as nat);
                &&& final(self).spec_inner().infallible() == old(self).spec_inner().infallible()
                &&& is_suffix(final(self).spec_inner().pending(), p)
                &&& pad == 0 ==> r == Ok::<bool, Error>(true) && *final(self) == *old(self)
                &&& pad > 0 ==> match r {
                    Ok(already) => {
                        &&& !already
                        &&& p.len() >= pad
                        &&& final(self).spec_offset() == o + pad
                        &&& final(self).spec_inner().pending() == p.skip(pad as int)
                    },
                    Err(Error::UnexpectedEof) => {
                        &&& p.len() < pad
                        &&& final(self).spec_offset() == o
                    },
                    Err(Error::Io(e)) => {
                        &&& e.kind != IoErrorKind::Interrupted
                        &&& !old(self).spec_inner().infallible()
                        &&& final(self).spec_offset() == o
                    },
                    Err(Error::NotFound) => false,
                }
                &&& old(self).spec_inner().infallible() ==> (r is Ok <==> p.len() >= pad)
                &&& r is Ok ==> final(self).spec_offset() + final(self).spec_inner().pending().len()
                    == o + p.len()
                &&& r is Ok ==> (final(self).spec_offset() as nat) % (alignment as nat) == 0
            }),
    {
        let ghost start: nat = self.offset as nat;
        let excess: usize = (self.offset % (alignment as u64)) as usize;
        if excess == 0 {
            assert(self.inner.pending().skip(0) =~= self.inner.pending());
            return Ok(true);
        }
        let amount: usize = alignment - excess;
        let mut scratch: Vec<u8> = vec![0u8; amount];
        let got = self.inner.eof_read_exact(scratch.as_mut_slice());
        match got {
            Ok(true) => {
                self.offset = self.offset + amount as u64;
                let ghost end: nat = self.offset as nat;
                assert(end % (alignment as nat) == 0) by (nonlinear_arith)
                    requires
                        end == start + amount,
                        amount == alignment - excess,
                        excess == start % (alignment as nat),
                        alignment > 0,
                ;
                Ok(false)
            },
            Ok(false) => Err(Error::UnexpectedEof),
            Err(e) => Err(e),
        }
    }
}

impl<R: ByteSource> ByteSource for AligningReader<R> {
    /// The inner source is well formed, and the count and what is still to
    /// come fit together in a `u64`.
    open spec fn wf(&self) -> bool {
        &&& self.spec_inner().wf()
        &&& self.spec_offset() + self.spec_inner().pending().len() <= u64::MAX
    }

    open spec fn pending(&self) -> Seq<u8> {
        self.spec_inner().pending()
    }

    open spec fn produced(&self) -> nat {
        self.spec_offset() as nat
    }

    open spec fn infallible(&self) -> bool {
        self.spec_inner().infallible()
    }

    open spec fn interrupts_left(&self) -> nat {
        self.spec_inner().interrupts_left()
    }

    /// Reads from the wrapped source and adds what it produced to the count.
    fn read(&mut self, buf: &mut [u8]) -> (r: Result<usize, IoError>)
        ensures
            match r {
                Ok(n) => final(self).spec_offset() == old(self).spec_offset() + n,
                Err(_) => final(self).spec_offset() == old(self).spec_offset(),
            },
    {
        let result = self.inner.read(buf);
        match result {
            Ok(n) => {
                self.offset = self.offset + n as u64;
                Ok(n)
            },
            Err(e) => Err(e),
        }
    }
}

} // verus!
