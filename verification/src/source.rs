//! Byte sources: the sequential, fallible streams that an adapter pulls its
//! input from, together with two concrete sources and the read-ahead layer
//! that amortises small pulls.

use vstd::prelude::*;

use crate::error::Error;

verus! {

/// How many bytes the read-ahead layer pulls from its inner source at once.
pub const READ_AHEAD: usize = 8192;

/// A sequential byte stream. `remaining` is the sequence of bytes the
/// stream will still deliver, in order; a read takes a prefix of it.
pub trait ByteSource: Sized {
    /// The source's own well-formedness. The default says nothing; a
    /// verified source overrides it with its own invariant.
    open spec fn wf(&self) -> bool {
        true
    }

    /// The bytes this source will still deliver, in order. The default is
    /// arbitrary; a verified source overrides it.
    open spec fn remaining(&self) -> Seq<u8> {
        Seq::empty()
    }

    /// Reads at most `max` bytes. The bytes returned are the front of
    /// `remaining`, which they leave; an empty result means the stream has
    /// ended (or `max` was zero), never that data was skipped. On failure
    /// the stream is left as it was.
    fn read_chunk(&mut self, max: usize) -> (r: Result<Vec<u8>, Error>)
        requires
            old(self).wf(),
        ensures
            final(self).wf(),
            match r {
                Ok(chunk) => chunk@.len() <= max && chunk@.len() <= old(self).remaining().len()
                    && chunk@ === old(self).remaining().take(chunk@.len() as int)
                    && final(self).remaining() === old(self).remaining().skip(chunk@.len() as int)
                    && (chunk@.len() == 0 <==> (old(self).remaining().len() == 0 || max == 0)),
                Err(e) => e == Error::Io && final(self).remaining() === old(self).remaining(),
            },
    ;
}

/// An in-memory source: delivers the bytes of a vector, front to back.
pub struct SliceSource {
    data: Vec<u8>,
    pos: usize,
}

impl SliceSource {
    /// Wraps `data` as a source that will deliver exactly its bytes.
    pub fn new(data: Vec<u8>) -> (s: SliceSource)
        ensures
            s.wf(),
            s.remaining() === data@,
    {
        SliceSource { data, pos: 0 }
    }

    /// The bytes not yet delivered, as a fresh vector.
    pub fn rest(&self) -> (r: Vec<u8>)
        requires
            self.wf(),
        ensures
            r@ === self.remaining(),
    {
        let mut r: Vec<u8> = Vec::new();
        let mut i: usize = self.pos;
        while i < self.data.len()
            invariant
                self.pos <= i <= self.data.len(),
                r@ === self.data@.subrange(self.pos as int, i as int),
            decreases self.data.len() - i,
        {
            r.push(self.data[i]);
            i = i + 1;
            proof {
                assert(r@ =~= self.data@.subrange(self.pos as int, i as int));
            }
        }
        proof {
            assert(r@ =~= self.remaining());
        }
        r
    }
}

impl ByteSource for SliceSource {
    closed spec fn wf(&self) -> bool {
        self.pos <= self.data@.len()
    }

    closed spec fn remaining(&self) -> Seq<u8> {
        self.data@.skip(self.pos as int)
    }

    fn read_chunk(&mut self, max: usize) -> (r: Result<Vec<u8>, Error>) {
        let avail = self.data.len() - self.pos;
        let n = if max < avail {
            max
        } else {
            avail
        };
        let mut chunk: Vec<u8> = Vec::new();
        let mut i: usize = 0;
        while i < n
            invariant
                self.pos + n <= self.data.len(),
                i <= n,
                chunk@ === self.data@.subrange(self.pos as int, self.pos + i),
            decreases n - i,
        {
            chunk.push(self.data[self.pos + i]);
            i = i + 1;
            proof {
                assert(chunk@ =~= self.data@.subrange(self.pos as int, self.pos + i));
            }
        }
        self.pos = self.pos + n;
        proof {
            assert(chunk@ =~= old(self).remaining().take(n as int));
            assert(self.remaining() =~= old(self).remaining().skip(n as int));
        }
        Ok(chunk)
    }
}

/// A source that always fails with an I/O error and never delivers a byte.
/// It exists to exercise error propagation through the adapters.
pub struct FailingSource {}

impl FailingSource {
    /// A fresh failing source.
    pub fn new() -> (s: FailingSource)
        ensures
            s.wf(),
    {
        FailingSource {  }
    }
}

impl ByteSource for FailingSource {
    closed spec fn wf(&self) -> bool {
        true
    }

    closed spec fn remaining(&self) -> Seq<u8> {
        Seq::empty()
    }

    fn read_chunk(&mut self, _max: usize) -> (r: Result<Vec<u8>, Error>) {
        Err(Error::Io)
    }
}

/// The read-ahead layer: wraps a source and pulls from it in large chunks,
/// so that many small reads cost one inner read. The bytes seen through it
/// are exactly the inner source's bytes, in order.
pub struct BufSource<S: ByteSource> {
    inner: S,
    buf: Vec<u8>,
    pos: usize,
}

impl<S: ByteSource> BufSource<S> {
    /// The wrapped source as it stands now. Bytes already pulled off it
    /// into the read-ahead buffer are no longer part of its remainder.
    pub closed spec fn inner_view(&self) -> S {
        self.inner
    }

    /// Wraps `inner`; no bytes are read until the first `read_chunk`.
    pub fn new(inner: S) -> (s: BufSource<S>)
        requires
            inner.wf(),
        ensures
            s.wf(),
            s.remaining() === inner.remaining(),
            s.inner_view() === inner,
    {
        let s = BufSource { inner, buf: Vec::new(), pos: 0 };
        proof {
            assert(s.remaining() =~= inner.remaining());
        }
        s
    }

    /// Hands the wrapped source back, untouched by this call; bytes sitting
    /// in the read-ahead buffer are discarded with the layer. In particular
    /// the source has nothing left once this layer has nothing left.
    pub fn into_inner(self) -> (r: S)
        requires
            self.wf(),
        ensures
            r === self.inner_view(),
            r.remaining().len() <= self.remaining().len(),
    {
        let BufSource { inner, buf, pos } = self;
        inner
    }
}

impl<S: ByteSource> ByteSource for BufSource<S> {
    closed spec fn wf(&self) -> bool {
        self.inner.wf() && self.pos <= self.buf@.len()
    }

    closed spec fn remaining(&self) -> Seq<u8> {
        self.buf@.skip(self.pos as int) + self.inner.remaining()
    }

    fn read_chunk(&mut self, max: usize) -> (r: Result<Vec<u8>, Error>) {
        if self.pos == self.buf.len() {
            match self.inner.read_chunk(READ_AHEAD) {
                Ok(filled) => {
                    proof {
                        let l: int = filled@.len() as int;
                        assert(filled@ === old(self).inner.remaining().take(l));
                        assert(self.inner.remaining() === old(self).inner.remaining().skip(l));
                        assert(filled@ + self.inner.remaining() =~= old(self).inner.remaining());
                    }
                    self.buf = filled;
                    self.pos = 0;
                    proof {
                        assert(self.remaining() =~= old(self).remaining());
                    }
                },
                Err(e) => {
                    proof {
                        assert(self.remaining() =~= old(self).remaining());
                    }
                    return Err(e);
                },
            }
        }
        let ghost buf0: Seq<u8> = self.buf@;
        let ghost p0: int = self.pos as int;
        let ghost inrem0: Seq<u8> = self.inner.remaining();
        proof {
            assert(buf0.skip(p0) + inrem0 === self.remaining());
            assert(self.remaining() === old(self).remaining());
        }
        let avail = self.buf.len() - self.pos;
        let n = if max < avail {
            max
        } else {
            avail
        };
        let mut chunk: Vec<u8> = Vec::new();
        let mut i: usize = 0;
        while i < n
            invariant
                self.pos + n <= self.buf.len(),
                i <= n,
                buf0 === self.buf@,
                p0 == self.pos as int,
                chunk@ === self.buf@.subrange(self.pos as int, self.pos + i),
            decreases n - i,
        {
            chunk.push(self.buf[self.pos + i]);
            i = i + 1;
            proof {
                assert(chunk@ =~= self.buf@.subrange(self.pos as int, self.pos + i));
            }
        }
        self.pos = self.pos + n;
        proof {
            assert(chunk@ =~= (buf0.skip(p0) + inrem0).take(n as int));
            assert(self.remaining() =~= (buf0.skip(p0) + inrem0).skip(n as int));
        }
        Ok(chunk)
    }
}

} // verus!
