//! The readable end users see: a decompression stream.

use vstd::prelude::*;

use crate::bytes::ByteSource;
use crate::engine::zstd_decode;
use crate::error::Error;
use crate::stream::{valid_window_log_max, MAX_WINDOW_LOG_MAX, MIN_WINDOW_LOG_MAX};
use crate::zio::extends;
use crate::zio::reader::Reader;

verus! {

/// A readable decompression stream over a [`ByteSource`].
///
/// Construction takes the source and the engine's default window limits;
/// everything else delegates to the [`Reader`] adapter.
pub struct Decoder<S: ByteSource> {
    reader: Reader<S>,
}

impl<S: ByteSource> Decoder<S> {
    /// The decoder's internal bookkeeping is intact; established by
    /// [`Decoder::new`], preserved by every call.
    pub closed spec fn wf(&self) -> bool {
        self.reader.wf()
    }

    /// The compressed bytes handed to the engine so far, in order.
    pub closed spec fn fed(&self) -> Seq<u8> {
        self.reader.fed()
    }

    /// The plaintext bytes handed out to callers so far, in order.
    pub closed spec fn delivered(&self) -> Seq<u8> {
        self.reader.delivered()
    }

    /// The compressed bytes not yet handed to the engine.
    pub closed spec fn upcoming(&self) -> Seq<u8> {
        self.reader.upcoming()
    }

    /// The engine has reached the end of the compressed frame.
    pub closed spec fn is_frame_done(&self) -> bool {
        self.reader.is_frame_done()
    }

    /// A fault made the stream unusable.
    pub closed spec fn is_errored(&self) -> bool {
        self.reader.is_errored()
    }

    /// What the underlying source still holds, beyond the staging buffer.
    pub closed spec fn src_avail(&self) -> Seq<u8> {
        self.reader.src_avail()
    }

    /// Builds a decoder pulling compressed bytes from `source`, at the
    /// engine's default window-size limit.
    pub fn new(source: S) -> (r: Result<Decoder<S>, Error>)
        ensures
            r matches Ok(d) ==> {
                &&& d.wf()
                &&& d.fed() == Seq::<u8>::empty()
                &&& d.delivered() == Seq::<u8>::empty()
                &&& d.upcoming() == source.avail()
                &&& !d.is_frame_done()
                &&& !d.is_errored()
            },
            r matches Err(e) ==> e == Error::Alloc || e matches Error::Engine(_),
    {
        match Reader::new(source, None) {
            Ok(reader) => Ok(Decoder { reader }),
            Err(e) => Err(e),
        }
    }

    /// Builds a decoder that refuses frames needing a window larger than two
    /// to the given power of bytes.
    ///
    /// Powers outside the engine's documented `10..=31` are refused with
    /// [`Error::Config`], and only they are; 0 selects the engine's default
    /// limit.
    pub fn with_window_log_max(source: S, log: u32) -> (r: Result<Decoder<S>, Error>)
        ensures
            r == Err::<Decoder<S>, Error>(Error::Config) <==> !valid_window_log_max(log as int),
            r matches Ok(d) ==> {
                &&& d.wf()
                &&& d.fed() == Seq::<u8>::empty()
                &&& d.delivered() == Seq::<u8>::empty()
                &&& d.upcoming() == source.avail()
                &&& !d.is_frame_done()
                &&& !d.is_errored()
            },
    {
        if log != 0 && (log < MIN_WINDOW_LOG_MAX || log > MAX_WINDOW_LOG_MAX) {
            return Err(Error::Config);
        }
        match Reader::new(source, Some(log)) {
            Ok(reader) => Ok(Decoder { reader }),
            Err(e) => Err(e),
        }
    }

    /// Decompresses into `dest[..n]` and returns `n`. `Ok(0)` with a
    /// non-empty `dest` means the frame ended cleanly; a source that runs dry
    /// mid-frame is [`Error::Truncated`]. See [`Reader::read`].
    pub fn read(&mut self, dest: &mut Vec<u8>) -> (r: Result<usize, Error>)
        requires
            old(self).wf(),
        ensures
            final(self).wf(),
            final(dest)@.len() == old(dest)@.len(),
            final(self).fed() + final(self).upcoming() == old(self).fed() + old(
                self,
            ).upcoming(),
            extends(final(self).fed(), old(self).fed()),
            old(self).is_errored() ==> r == Err::<usize, Error>(Error::Misuse) && *final(self)
                == *old(self) && final(dest)@ == old(dest)@,
            old(self).is_frame_done() && !old(self).is_errored() ==> r == Ok::<usize, Error>(0)
                && *final(self) == *old(self) && final(dest)@ == old(dest)@,
            r matches Ok(n) ==> {
                &&& n <= old(dest)@.len()
                &&& (forall|i: int| n <= i < final(dest)@.len() ==> final(dest)@[i] == old(
                    dest,
                )@[i])
                &&& final(self).delivered() == old(self).delivered() + final(dest)@.take(n as int)
                &&& !final(self).is_errored()
                &&& (n == 0 && old(dest)@.len() > 0 ==> final(self).is_frame_done())
            },
            final(self).is_frame_done() && !final(self).is_errored() ==> zstd_decode(
                final(self).fed(),
            ) == Some(final(self).delivered()),
            r is Err ==> final(self).delivered() == old(self).delivered(),
            r is Err && !old(self).is_errored() ==> final(self).is_errored(),
            r == Err::<usize, Error>(Error::Truncated) ==> !final(self).is_frame_done(),
            r matches Err(e) ==> (!old(self).is_errored() ==> e == Error::Truncated || e
                == Error::Stalled || e matches Error::Engine(_) || S::can_err(e)),
            old(self).upcoming().len() == 0 && !old(self).is_frame_done()
                && !old(self).is_errored() ==> r == Err::<usize, Error>(Error::Truncated) || (
            r matches Err(e) && S::can_err(e)),
            r == Err::<usize, Error>(Error::Truncated) && !S::can_err(Error::Truncated)
                ==> final(self).upcoming().len() == 0,
    {
        self.reader.read(dest)
    }

    /// Gives the source back, abandoning the stream; compressed bytes that
    /// were staged but never fed to the engine are dropped with it.
    pub fn into_source(self) -> (r: S)
        ensures
            r.avail() == self.src_avail(),
    {
        self.reader.into_source()
    }
}

} // verus!
