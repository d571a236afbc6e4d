use vstd::prelude::*;

use crate::errors::Error;

verus! {

/// A buffered pull source of bytes: peek at the next available chunk, then
/// mark how many of its bytes were consumed.
pub trait ByteSource: Sized {
    /// The bytes this source still holds for its consumer.
    spec fn remaining(&self) -> Seq<u8>;

    /// Returns a chunk of bytes: a prefix of `remaining`, empty exactly when
    /// the source is exhausted (true end of input, not merely an empty
    /// internal buffer). The chunk is not yet consumed.
    fn peek(&mut self) -> (r: Result<Vec<u8>, Error>)
        ensures
            match r {
                Ok(chunk) => final(self).remaining() == old(self).remaining() && chunk@.len()
                    <= old(self).remaining().len() && chunk@ == old(self).remaining().take(
                    chunk@.len() as int,
                ) && (chunk@.len() == 0 <==> old(self).remaining().len() == 0),
                Err(_) => final(self).remaining() == old(self).remaining(),
            },
    ;

    /// Marks `n` bytes as consumed: they will not be handed out again.
    fn advance(&mut self, n: usize)
        requires
            n <= old(self).remaining().len(),
        ensures
            final(self).remaining() == old(self).remaining().skip(n as int),
    ;
}

/// A push sink of bytes: accepts some prefix of what it is offered.
pub trait ByteSink: Sized {
    /// All bytes this sink has accepted so far, in order.
    spec fn received(&self) -> Seq<u8>;

    /// Offers `data`; the sink accepts some prefix of it (possibly none) and
    /// returns how many bytes it accepted.
    fn accept(&mut self, data: &[u8]) -> (r: Result<usize, Error>)
        ensures
            match r {
                Ok(n) => n <= data@.len() && final(self).received() == old(self).received()
                    + data@.take(n as int),
                Err(_) => final(self).received() == old(self).received(),
            },
    ;
}

/// An in-memory source over a byte buffer, delivering at most `chunk` bytes
/// per peek: `chunk == 1` models a source that trickles one byte at a time.
pub struct SliceSource {
    data: Vec<u8>,
    pos: usize,
    chunk: usize,
}

impl SliceSource {
    #[verifier::type_invariant]
    spec fn type_inv(&self) -> bool {
        self.pos <= self.data@.len() && self.chunk >= 1
    }

    /// A source over `data`, handing out everything available at each peek.
    pub fn new(data: Vec<u8>) -> (r: SliceSource)
        ensures
            r.remaining() == data@,
    {
        let s = SliceSource { data, pos: 0, chunk: usize::MAX };
        proof {
            assert(s.remaining() =~= s.data@);
        }
        s
    }

    /// A source over `data` that hands out at most `chunk` bytes per peek.
    pub fn with_chunk(data: Vec<u8>, chunk: usize) -> (r: SliceSource)
        requires
            chunk >= 1,
        ensures
            r.remaining() == data@,
    {
        let s = SliceSource { data, pos: 0, chunk };
        proof {
            assert(s.remaining() =~= s.data@);
        }
        s
    }
}

impl ByteSource for SliceSource {
    closed spec fn remaining(&self) -> Seq<u8> {
        self.data@.skip(self.pos as int)
    }

    fn peek(&mut self) -> (r: Result<Vec<u8>, Error>) {
        proof {
            use_type_invariant(&*self);
        }
        let n = self.data.len();
        let avail = n - self.pos;
        let k = if self.chunk < avail {
            self.chunk
        } else {
            avail
        };
        let mut out: Vec<u8> = Vec::new();
        let mut i: usize = 0;
        while i < k
            invariant
                i <= k,
                self.pos + k <= n,
                n == self.data@.len(),
                out@ == self.data@.subrange(self.pos as int, self.pos + i),
            decreases k - i,
        {
            out.push(self.data[self.pos + i]);
            assert(out@ =~= self.data@.subrange(self.pos as int, self.pos + i + 1));
            i = i + 1;
        }
        proof {
            assert(out@ =~= self.remaining().take(k as int));
        }
        Ok(out)
    }

    fn advance(&mut self, n: usize) {
        proof {
            use_type_invariant(&*self);
        }
        let ghost before = self.remaining();
        // Binds the buffer length as a machine integer: the new position is
        // bounded by it, so the addition cannot overflow.
        let bound = self.data.len();
        self.pos = self.pos + n;
        proof {
            assert(self.pos <= bound);
        }
        proof {
            assert(self.remaining() =~= before.skip(n as int));
        }
    }
}

/// An in-memory sink over a growable byte buffer, accepting at most `limit`
/// bytes per call: `limit == 1` models a slow sink, `limit == 0` a stalled
/// one.
pub struct VecSink {
    data: Vec<u8>,
    limit: usize,
}

impl VecSink {
    /// A sink that accepts everything it is offered.
    pub fn new() -> (r: VecSink)
        ensures
            r.received().len() == 0,
    {
        VecSink { data: Vec::new(), limit: usize::MAX }
    }

    /// A sink that accepts at most `limit` bytes per call.
    pub fn with_limit(limit: usize) -> (r: VecSink)
        ensures
            r.received().len() == 0,
    {
        VecSink { data: Vec::new(), limit }
    }

    /// The bytes accepted so far.
    pub fn bytes(&self) -> (r: &Vec<u8>)
        ensures
            r@ == self.received(),
    {
        &self.data
    }

    /// Returns the accepted bytes, consuming the sink.
    pub fn into_bytes(self) -> (r: Vec<u8>)
        ensures
            r@ == self.received(),
    {
        self.data
    }

    /// Hands out the accepted bytes and empties the sink.
    pub fn take_bytes(&mut self) -> (r: Vec<u8>)
        ensures
            r@ == old(self).received(),
            final(self).received().len() == 0,
    {
        let mut out: Vec<u8> = Vec::new();
        let mut i: usize = 0;
        let n = self.data.len();
        while i < n
            invariant
                i <= n,
                n == self.data@.len(),
                out@ == self.data@.take(i as int),
            decreases n - i,
        {
            out.push(self.data[i]);
            assert(out@ =~= self.data@.take(i + 1));
            i = i + 1;
        }
        proof {
            assert(out@ =~= self.data@);
        }
        self.data.clear();
        out
    }
}

impl ByteSink for VecSink {
    closed spec fn received(&self) -> Seq<u8> {
        self.data@
    }

    fn accept(&mut self, data: &[u8]) -> (r: Result<usize, Error>) {
        let k = if self.limit < data.len() {
            self.limit
        } else {
            data.len()
        };
        let ghost before = self.data@;
        let mut i: usize = 0;
        while i < k
            invariant
                i <= k,
                k <= data@.len(),
                self.data@ == before + data@.take(i as int),
            decreases k - i,
        {
            self.data.push(data[i]);
            assert(self.data@ =~= before + data@.take(i + 1));
            i = i + 1;
        }
        Ok(k)
    }
}

} // verus!
