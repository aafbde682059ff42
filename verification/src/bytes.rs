//! Byte sources and byte sinks: the stream endpoints the adapters drive.
//!
//! The adapters only need two capabilities of the outside world: pulling a
//! bounded chunk of bytes from somewhere, and pushing bytes to somewhere.
//! Both are stated abstractly here, so the adapters' bookkeeping is verified
//! once for every endpoint. [`SliceSource`] and [`VecSink`] are the in-memory
//! endpoints used by the one-shot helpers; callers with real I/O endpoints
//! implement the same traits outside this crate and are then bound by the
//! same contracts.

use vstd::prelude::*;

use crate::error::Error;

verus! {

/// A pull endpoint: a stream of bytes read in bounded chunks, in order.
///
/// `avail()` is the sequence of bytes the source still holds. An empty chunk
/// signals end-of-data; a source that merely has nothing ready yet must block
/// instead of returning an empty chunk.
pub trait ByteSource {
    /// Which error values this endpoint can produce of its own. The default
    /// allows any; an endpoint that cannot fail says so by returning false,
    /// and every adapter then reports an endpoint-kind error only when the
    /// endpoint itself produced it, unchanged.
    open spec fn can_err(e: Error) -> bool {
        true
    }

    /// The bytes this source has not yet delivered. Implementations inside
    /// this crate say what it is; an unverified endpoint outside it may leave
    /// the default, whose contract then promises nothing useful.
    open spec fn avail(&self) -> Seq<u8> {
        Seq::empty()
    }

    /// Pulls at most `max` bytes: the next prefix of `avail()`, which the
    /// source then drops. An empty chunk means the source is exhausted.
    fn read_some(&mut self, max: usize) -> (r: Result<Vec<u8>, Error>)
        requires
            max >= 1,
        ensures
            r matches Ok(chunk) ==> {
                &&& chunk@.len() <= max
                &&& chunk@.len() <= old(self).avail().len()
                &&& chunk@ == old(self).avail().take(chunk@.len() as int)
                &&& final(self).avail() == old(self).avail().skip(chunk@.len() as int)
                &&& (chunk@.len() == 0 ==> old(self).avail().len() == 0)
            },
            r matches Err(e) ==> final(self).avail() == old(self).avail() && Self::can_err(e),
    ;
}

/// A push endpoint: accepts bytes in order, possibly only part of each offer.
///
/// `out()` is the sequence of bytes the sink has accepted so far: it only
/// ever grows, by a prefix of what was offered.
pub trait ByteSink {
    /// Which error values this endpoint can produce of its own. The default
    /// allows any; an endpoint that cannot fail says so by returning false,
    /// and every adapter then reports an endpoint-kind error only when the
    /// endpoint itself produced it, unchanged.
    open spec fn can_err(e: Error) -> bool {
        true
    }

    /// The bytes this sink has accepted, in order. Implementations inside
    /// this crate say what it is; an unverified endpoint outside it may leave
    /// the default, whose contract then promises nothing useful.
    open spec fn out(&self) -> Seq<u8> {
        Seq::empty()
    }

    /// Offers `buf`; the sink accepts some prefix of it and reports how long
    /// that prefix was. An error means nothing was accepted.
    fn write_some(&mut self, buf: &[u8]) -> (r: Result<usize, Error>)
        ensures
            r matches Ok(n) ==> {
                &&& n <= buf@.len()
                &&& final(self).out() == old(self).out() + buf@.take(n as int)
            },
            r matches Err(e) ==> final(self).out() == old(self).out() && Self::can_err(e),
    ;
}

/// An in-memory [`ByteSource`]: a buffer handed out from front to back.
pub struct SliceSource {
    data: Vec<u8>,
    pos: usize,
}

impl SliceSource {
    #[verifier::type_invariant]
    spec fn wf(&self) -> bool {
        self.pos <= self.data@.len()
    }

    /// Wraps a buffer so the adapters can consume it as a source.
    pub fn new(data: Vec<u8>) -> (r: SliceSource)
        ensures
            r.avail() == data@,
    {
        SliceSource { data, pos: 0 }
    }
}

impl ByteSource for SliceSource {
    open spec fn can_err(e: Error) -> bool {
        false
    }

    closed spec fn avail(&self) -> Seq<u8> {
        if self.pos <= self.data@.len() {
            self.data@.skip(self.pos as int)
        } else {
            Seq::empty()
        }
    }

    fn read_some(&mut self, max: usize) -> (r: Result<Vec<u8>, Error>) {
        proof {
            use_type_invariant(&*self);
        }
        let remaining = self.data.len() - self.pos;
        let n = if max < remaining {
            max
        } else {
            remaining
        };
        let mut chunk: Vec<u8> = Vec::new();
        let mut i: usize = 0;
        while i < n
            invariant
                0 <= i <= n,
                *self == *old(self),
                self.pos + n <= self.data@.len(),
                self.pos + n <= usize::MAX,
                chunk@.len() == i,
                forall|j: int| 0 <= j < i ==> chunk@[j] == self.data@[self.pos + j],
            decreases n - i,
        {
            chunk.push(self.data[self.pos + i]);
            i += 1;
        }
        proof {
            assert(chunk@ =~= self.data@.skip(self.pos as int).take(n as int));
        }
        self.pos = self.pos + n;
        proof {
            assert(self.data@.skip(self.pos as int) =~= old(self).avail().skip(n as int));
        }
        Ok(chunk)
    }
}

/// An in-memory [`ByteSink`]: appends everything it is offered to a buffer.
pub struct VecSink {
    data: Vec<u8>,
}

impl VecSink {
    /// An empty sink.
    pub fn new() -> (r: VecSink)
        ensures
            r.out() == Seq::<u8>::empty(),
    {
        VecSink { data: Vec::new() }
    }

    /// Hands the accepted bytes back.
    pub fn into_vec(self) -> (r: Vec<u8>)
        ensures
            r@ == self.out(),
    {
        self.data
    }
}

impl ByteSink for VecSink {
    open spec fn can_err(e: Error) -> bool {
        false
    }

    closed spec fn out(&self) -> Seq<u8> {
        self.data@
    }

    fn write_some(&mut self, buf: &[u8]) -> (r: Result<usize, Error>) {
        let mut i: usize = 0;
        while i < buf.len()
            invariant
                0 <= i <= buf@.len(),
                self.data@ == old(self).data@ + buf@.take(i as int),
            decreases buf@.len() - i,
        {
            self.data.push(buf[i]);
            proof {
                assert(old(self).data@ + buf@.take(i as int) + seq![buf@[i as int]] =~= old(
                    self,
                ).data@ + buf@.take(i + 1));
            }
            i += 1;
        }
        proof {
            assert(buf@.take(i as int) =~= buf@);
        }
        Ok(buf.len())
    }
}

} // verus!
