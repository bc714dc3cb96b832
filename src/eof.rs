use vstd::prelude::*;
use vstd::slice::slice_subrange;
use crate::decode::{be_i64_of, be_u32_of, read_be_i64, read_be_u32};
use crate::error::{Error, IoErrorKind};
use crate::source::ByteSource;

verus! {

/// `q` is what is left of `p` after some prefix of it was consumed.
pub open spec fn is_suffix(q: Seq<u8>, p: Seq<u8>) -> bool {
    q.len() <= p.len() && q == p.skip(p.len() - q.len())
}

/// Dropping a prefix leaves a suffix.
pub proof fn lemma_skip_is_suffix(p: Seq<u8>, i: int)
    requires
        0 <= i <= p.len(),
    ensures
        is_suffix(p.skip(i), p),
{
    assert(p.skip(i) =~= p.skip(p.len() - p.skip(i).len()));
}

/// What an attempt to read exactly `n` bytes may end in, given the bytes `p`
/// pending before it and `q` pending after it. `value_read` is whether the
/// attempt returned the bytes, `clean_stop` whether it reported the end of
/// the stream with nothing consumed, `truncated` whether it reported a
/// stream that ended part way. A source that never fails ends in one of
/// these three.
pub open spec fn exact_outcome(
    p: Seq<u8>,
    q: Seq<u8>,
    n: nat,
    infallible: bool,
    value_read: bool,
    clean_stop: bool,
    truncated: bool,
) -> bool {
    &&& is_suffix(q, p)
    &&& value_read ==> p.len() >= n && q == p.skip(n as int)
    &&& clean_stop ==> n > 0 && p.len() == 0 && q == p
    &&& truncated ==> 0 < p.len() < n && q.len() == 0
    &&& infallible ==> value_read || clean_stop || truncated
}

/// Exact reads that tell a clean end of stream, met before any byte of the
/// read, from a stream that ends in the middle of it.
pub trait EofReadExactExt: ByteSource {
    /// Fills all of `buf` from the stream. Returns `Ok(true)` when it was
    /// filled, `Ok(false)` when the stream had ended before the first byte,
    /// and `Error::UnexpectedEof` when it ended part way. Interruptions are
    /// retried; any other failure of the source is passed on.
    fn eof_read_exact(&mut self, buf: &mut [u8]) -> (r: Result<bool, Error>)
        requires
            old(self).wf(),
        ensures
            final(self).wf(),
            final(self).produced() + final(self).pending().len() == old(self).produced()
                + old(self).pending().len(),
            final(buf)@.len() == old(buf)@.len(),
            final(self).infallible() == old(self).infallible(),
            match r {
                Ok(true) => final(buf)@ == old(self).pending().take(old(buf)@.len() as int),
                Err(Error::Io(e)) => e.kind != IoErrorKind::Interrupted && !old(self).infallible(),
                Err(Error::NotFound) => false,
                _ => true,
            },
            exact_outcome(
                old(self).pending(),
                final(self).pending(),
                old(buf)@.len(),
                old(self).infallible(),
                r == Ok::<bool, Error>(true),
                r == Ok::<bool, Error>(false),
                r matches Err(Error::UnexpectedEof),
            ),
    {
        let n: usize = buf.len();
        let mut ofs: usize = 0;
        let ghost p = self.pending();
        while ofs < n
            invariant
                ofs <= n,
                n == old(buf)@.len(),
                buf@.len() == n,
                p == old(self).pending(),
                p.len() >= ofs,
                buf@.take(ofs as int) == p.take(ofs as int),
                self.pending() == p.skip(ofs as int),
                self.infallible() == old(self).infallible(),
                self.wf(),
                self.produced() + self.pending().len() == old(self).produced() + p.len(),
            decreases n - ofs, self.interrupts_left(),
        {
            let want: usize = n - ofs;
            let mut tmp: Vec<u8> = vec![0u8; want];
            let res = self.read(tmp.as_mut_slice());
            match res {
                Err(e) => {
                    if e.kind == IoErrorKind::Interrupted {
                        continue;
                    }
                    proof {
                        lemma_skip_is_suffix(p, ofs as int);
                    }
                    return Err(Error::Io(e));
                },
                Ok(k) => {
                    if k == 0 {
                        assert(self.pending() =~= p.skip(ofs as int));
                        proof {
                            lemma_skip_is_suffix(p, ofs as int);
                        }
                        if ofs == 0 {
                            assert(p.skip(0) =~= p);
                            return Ok(false);
                        } else {
                            return Err(Error::UnexpectedEof);
                        }
                    }
                    copy_into(buf, ofs, &tmp, k);
                    assert(buf@.take(ofs + k) =~= p.take(ofs + k)) by {
                        assert forall|j: int| 0 <= j < ofs + k implies buf@[j] == p[j] by {
                            if j < ofs {
                                assert(buf@.take(ofs as int)[j] == p.take(ofs as int)[j]);
                            } else {
                                assert(tmp@.take(k as int)[j - ofs] == p.skip(
                                    ofs as int,
                                ).take(k as int)[j - ofs]);
                            }
                        }
                    }
                    assert(self.pending() =~= p.skip(ofs + k));
                    ofs = ofs + k;
                },
            }
        }
        assert(buf@ =~= buf@.take(n as int));
        proof {
            lemma_skip_is_suffix(p, n as int);
        }
        Ok(true)
    }

    /// Reads a big-endian signed 64-bit integer: `Some` of it, or `None`
    /// when the stream had ended before its first byte.
    fn eof_read_be_i64(&mut self) -> (r: Result<Option<i64>, Error>)
        requires
            old(self).wf(),
        ensures
            final(self).wf(),
            final(self).produced() + final(self).pending().len() == old(self).produced()
                + old(self).pending().len(),
            final(self).infallible() == old(self).infallible(),
            match r {
                Ok(Some(v)) => v as int == be_i64_of(old(self).pending()),
                Err(Error::Io(e)) => e.kind != IoErrorKind::Interrupted && !old(self).infallible(),
                Err(Error::NotFound) => false,
                _ => true,
            },
            exact_outcome(
                old(self).pending(),
                final(self).pending(),
                8,
                old(self).infallible(),
                r matches Ok(Some(_)),
                r matches Ok(None),
                r matches Err(Error::UnexpectedEof),
            ),
    {
        let mut buf: Vec<u8> = vec![0u8; 8];
        let got = self.eof_read_exact(buf.as_mut_slice());
        match got {
            Err(e) => Err(e),
            Ok(false) => Ok(None),
            Ok(true) => {
                let ghost p = old(self).pending();
                assert(buf@.take(8) =~= p.take(8));
                Ok(Some(read_be_i64(buf.as_slice())))
            },
        }
    }

    /// Reads a big-endian unsigned 32-bit integer: `Some` of it, or `None`
    /// when the stream had ended before its first byte. A big-endian IEEE
    /// single-precision number is read as its bits in this way.
    fn eof_read_be_u32(&mut self) -> (r: Result<Option<u32>, Error>)
        requires
            old(self).wf(),
        ensures
            final(self).wf(),
            final(self).produced() + final(self).pending().len() == old(self).produced()
                + old(self).pending().len(),
            final(self).infallible() == old(self).infallible(),
            match r {
                Ok(Some(v)) => v as nat == be_u32_of(old(self).pending()),
                Err(Error::Io(e)) => e.kind != IoErrorKind::Interrupted && !old(self).infallible(),
                Err(Error::NotFound) => false,
                _ => true,
            },
            exact_outcome(
                old(self).pending(),
                final(self).pending(),
                4,
                old(self).infallible(),
                r matches Ok(Some(_)),
                r matches Ok(None),
                r matches Err(Error::UnexpectedEof),
            ),
    {
        let mut buf: Vec<u8> = vec![0u8; 4];
        let got = self.eof_read_exact(buf.as_mut_slice());
        match got {
            Err(e) => Err(e),
            Ok(false) => Ok(None),
            Ok(true) => {
                let ghost p = old(self).pending();
                assert(buf@.take(4) =~= p.take(4));
                Ok(Some(read_be_u32(buf.as_slice())))
            },
        }
    }

    /// Reads the bits of a complex number stored as two big-endian IEEE
    /// single-precision numbers, the real part first: `Some((re, im))`, or
    /// `None` when the stream had ended before its first byte.
    fn eof_read_be_c64_bits(&mut self) -> (r: Result<Option<(u32, u32)>, Error>)
        requires
            old(self).wf(),
        ensures
            final(self).wf(),
            final(self).produced() + final(self).pending().len() == old(self).produced()
                + old(self).pending().len(),
            final(self).infallible() == old(self).infallible(),
            match r {
                Ok(Some((re, im))) => {
                    &&& re as nat == be_u32_of(old(self).pending())
                    &&& im as nat == be_u32_of(old(self).pending().skip(4))
                },
                Err(Error::Io(e)) => e.kind != IoErrorKind::Interrupted && !old(self).infallible(),
                Err(Error::NotFound) => false,
                _ => true,
            },
            exact_outcome(
                old(self).pending(),
                final(self).pending(),
                8,
                old(self).infallible(),
                r matches Ok(Some(_)),
                r matches Ok(None),
                r matches Err(Error::UnexpectedEof),
            ),
    {
        let mut buf: Vec<u8> = vec![0u8; 8];
        let got = self.eof_read_exact(buf.as_mut_slice());
        match got {
            Err(e) => Err(e),
            Ok(false) => Ok(None),
            Ok(true) => {
                let ghost p = old(self).pending();
                let first = slice_subrange(buf.as_slice(), 0, 4);
                let second = slice_subrange(buf.as_slice(), 4, 8);
                assert(first@.take(4) =~= p.take(4));
                assert(second@.take(4) =~= p.skip(4).take(4));
                Ok(Some((read_be_u32(first), read_be_u32(second))))
            },
        }
    }
}

impl<R: ByteSource> EofReadExactExt for R {

}

/// Writes the first `k` bytes of `src` into `dst` from position `at` on.
fn copy_into(dst: &mut [u8], at: usize, src: &Vec<u8>, k: usize)
    requires
        k <= src@.len(),
        at + k <= old(dst)@.len(),
    ensures
        final(dst)@.len() == old(dst)@.len(),
        forall|j: int| 0 <= j < at ==> final(dst)@[j] == old(dst)@[j],
        forall|j: int| at <= j < at + k ==> final(dst)@[j] == src@[j - at],
{
    let len: usize = dst.len();
    let mut i: usize = 0;
    while i < k
        invariant
            i <= k,
            dst@.len() == len,
            k <= src@.len(),
            at + k <= dst@.len(),
            dst@.len() == old(dst)@.len(),
            forall|j: int| 0 <= j < at ==> dst@[j] == old(dst)@[j],
            forall|j: int| at <= j < at + i ==> dst@[j] == src@[j - at],
        decreases k - i,
    {
        dst[at + i] = src[i];
        i = i + 1;
    }
}


/// An exact read of `n` bytes from a source that never fails and holds
/// exactly `n` bytes returns them, and an exact read of any positive length
/// after it reports a clean stop rather than an error.
pub proof fn law_clean_stop_after_last_record(
    p: Seq<u8>,
    q1: Seq<u8>,
    q2: Seq<u8>,
    n: nat,
    m: nat,
    r1: Result<bool, Error>,
    r2: Result<bool, Error>,
)
    requires
        p.len() == n,
        m > 0,
        exact_outcome(
            p,
            q1,
            n,
            true,
            r1 == Ok::<bool, Error>(true),
            r1 == Ok::<bool, Error>(false),
            r1 matches Err(Error::UnexpectedEof),
        ),
        exact_outcome(
            q1,
            q2,
            m,
            true,
            r2 == Ok::<bool, Error>(true),
            r2 == Ok::<bool, Error>(false),
            r2 matches Err(Error::UnexpectedEof),
        ),
    ensures
        r1 == Ok::<bool, Error>(true),
        r2 == Ok::<bool, Error>(false),
{
}

/// An exact read of `n` bytes from a source that never fails and holds
/// only `k` bytes, with `0 < k < n`, fails with `Error::UnexpectedEof`: it
/// neither succeeds nor reports a clean stop.
pub proof fn law_truncation_is_fatal(p: Seq<u8>, q: Seq<u8>, n: nat, r: Result<bool, Error>)
    requires
        0 < p.len() < n,
        exact_outcome(
            p,
            q,
            n,
            true,
            r == Ok::<bool, Error>(true),
            r == Ok::<bool, Error>(false),
            r matches Err(Error::UnexpectedEof),
        ),
    ensures
        r matches Err(Error::UnexpectedEof),
{
}

} // verus!
