use vstd::prelude::*;
use crate::error::{IoError, IoErrorKind};

verus! {

/// A sequential producer of bytes.
///
/// A source is modelled by the bytes it will still produce, in order
/// (`pending`). Each call of `read` hands out a prefix of them; a result of 0
/// for a non-empty buffer means that nothing is left. A failed read consumes
/// nothing. An interrupted read may be retried, and a source is interrupted
/// only finitely often (`interrupts_left` falls with each interruption), so
/// that retrying always ends.
pub trait ByteSource {
    /// The well-formedness of the source, which every read keeps.
    spec fn wf(&self) -> bool;

    /// The bytes that this source will still produce.
    spec fn pending(&self) -> Seq<u8>;

    /// How many bytes this source has produced so far; with `pending`, it
    /// always adds up to the same total.
    spec fn produced(&self) -> nat;

    /// Whether this source never reports a failure.
    spec fn infallible(&self) -> bool;

    /// A bound on how often this source may still report an interruption.
    spec fn interrupts_left(&self) -> nat;

    /// Fills a prefix of `buf` with the next bytes of the stream and returns
    /// their number.
    fn read(&mut self, buf: &mut [u8]) -> (r: Result<usize, IoError>)
        requires
            old(self).wf(),
        ensures
            final(self).wf(),
            final(buf)@.len() == old(buf)@.len(),
            final(self).produced() + final(self).pending().len() == old(self).produced()
                + old(self).pending().len(),
            match r {
                Ok(n) => {
                    &&& n <= old(buf)@.len()
                    &&& n <= old(self).pending().len()
                    &&& (n == 0 ==> old(buf)@.len() == 0 || old(self).pending().len() == 0)
                    &&& final(buf)@.take(n as int) == old(self).pending().take(n as int)
                    &&& final(self).pending() == old(self).pending().skip(n as int)
                    &&& final(self).infallible() == old(self).infallible()
                    &&& final(self).interrupts_left() <= old(self).interrupts_left()
                },
                Err(e) => {
                    &&& !old(self).infallible()
                    &&& final(self).pending() == old(self).pending()
                    &&& final(self).infallible() == old(self).infallible()
                    &&& e.kind == IoErrorKind::Interrupted ==> final(self).interrupts_left()
                        < old(self).interrupts_left()
                    &&& e.kind != IoErrorKind::Interrupted ==> final(self).interrupts_left()
                        <= old(self).interrupts_left()
                },
            },
    ;
}

/// A byte source over bytes held in memory. It never fails.
pub struct SliceSource {
    data: Vec<u8>,
    pos: usize,
}

impl SliceSource {
    /// A source that will produce the bytes of `data`, in order.
    pub fn new(data: Vec<u8>) -> (r: SliceSource)
        ensures
            r.wf(),
            r.pending() == data@,
            r.infallible(),
    {
        SliceSource { data, pos: 0 }
    }

    /// How many bytes are left to produce.
    pub fn remaining(&self) -> (r: usize)
        requires
            self.wf(),
        ensures
            r == self.pending().len(),
    {
        self.data.len() - self.pos
    }
}

impl ByteSource for SliceSource {
    /// The position lies within the data.
    closed spec fn wf(&self) -> bool {
        self.pos <= self.data@.len()
    }

    closed spec fn pending(&self) -> Seq<u8> {
        self.data@.skip(self.pos as int)
    }

    closed spec fn produced(&self) -> nat {
        self.pos as nat
    }

    open spec fn infallible(&self) -> bool {
        true
    }

    open spec fn interrupts_left(&self) -> nat {
        0
    }

    fn read(&mut self, buf: &mut [u8]) -> (r: Result<usize, IoError>) {
        let avail: usize = self.data.len() - self.pos;
        let n: usize = if buf.len() < avail { buf.len() } else { avail };
        let start: usize = self.pos;
        let len: usize = self.data.len();
        let mut i: usize = 0;
        while i < n
            invariant
                i <= n,
                n <= buf@.len(),
                buf@.len() == old(buf)@.len(),
                self.pos == start,
                start + n <= self.data@.len(),
                self.data@.len() == len,
                forall|j: int| 0 <= j < i ==> buf@[j] == self.data@[start + j],
            decreases n - i,
        {
            buf[i] = self.data[start + i];
            i = i + 1;
        }
        self.pos = self.pos + n;
        assert(buf@.take(n as int) =~= old(self).pending().take(n as int));
        assert(self.pending() =~= old(self).pending().skip(n as int));
        Ok(n)
    }
}

} // verus!
