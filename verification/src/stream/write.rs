//! The writable end users see: a compression stream with an explicit finish.

use vstd::prelude::*;

use crate::bytes::ByteSink;
use crate::engine::zstd_decode;
use crate::error::Error;
use crate::stream::{valid_level, MAX_COMPRESSION_LEVEL, MIN_COMPRESSION_LEVEL};
use crate::zio::extends;
use crate::zio::writer::Writer;

verus! {

/// A writable compression stream over a [`ByteSink`].
///
/// Construction validates the level; everything else delegates to the
/// [`Writer`] adapter. The frame is only complete once [`Encoder::finish`]
/// has succeeded; an encoder dropped without it leaves an incomplete frame
/// in the sink, which is the caller's responsibility.
pub struct Encoder<S: ByteSink> {
    writer: Writer<S>,
}

impl<S: ByteSink> Encoder<S> {
    /// The plaintext bytes the engine has consumed so far, in order.
    pub closed spec fn accepted(&self) -> Seq<u8> {
        self.writer.accepted()
    }

    /// The compressed bytes the engine has produced so far, in order.
    pub closed spec fn emitted(&self) -> Seq<u8> {
        self.writer.emitted()
    }

    /// What the underlying sink has accepted so far.
    pub closed spec fn sink_out(&self) -> Seq<u8> {
        self.writer.sink_out()
    }

    /// What the sink already held when this encoder was built.
    pub closed spec fn sink_base(&self) -> Seq<u8> {
        self.writer.sink_base()
    }

    /// Still accepting writes.
    pub closed spec fn is_active(&self) -> bool {
        self.writer.is_active()
    }

    /// `finish` has closed the frame.
    pub closed spec fn is_finished(&self) -> bool {
        self.writer.is_finished()
    }

    /// A fault made the stream unusable.
    pub closed spec fn is_errored(&self) -> bool {
        self.writer.is_errored()
    }

    /// The encoder's bookkeeping is intact; established by [`Encoder::new`],
    /// preserved by every call.
    pub closed spec fn wf(&self) -> bool {
        self.writer.wf()
    }

    /// Builds an encoder writing to `sink` at the given compression level.
    ///
    /// Levels outside the engine's accepted range are refused with
    /// [`Error::Config`], and only they are; level 0 selects the engine's
    /// default, and negative levels are its fast modes.
    pub fn new(sink: S, level: i32) -> (r: Result<Encoder<S>, Error>)
        ensures
            r == Err::<Encoder<S>, Error>(Error::Config) <==> !valid_level(level as int),
            r matches Err(e) ==> e == Error::Config || e == Error::Alloc || e
                matches Error::Engine(_),
            r matches Ok(e) ==> {
                &&& e.wf()
                &&& e.is_active()
                &&& e.accepted() == Seq::<u8>::empty()
                &&& e.emitted() == Seq::<u8>::empty()
                &&& e.sink_out() == sink.out()
                &&& e.sink_base() == sink.out()
            },
    {
        if level < MIN_COMPRESSION_LEVEL || level > MAX_COMPRESSION_LEVEL {
            return Err(Error::Config);
        }
        match Writer::new(sink, level) {
            Ok(writer) => Ok(Encoder { writer }),
            Err(e) => Err(e),
        }
    }

    /// Offers `buf` to the compressor; consumes and reports a prefix, which
    /// is appended to [`Encoder::accepted`]. See [`Writer::write`].
    pub fn write(&mut self, buf: &[u8]) -> (r: Result<usize, Error>)
        requires
            old(self).wf(),
        ensures
            final(self).wf(),
            final(self).sink_base() == old(self).sink_base(),
            !old(self).is_active() ==> r == Err::<usize, Error>(Error::Misuse) && *final(self)
                == *old(self),
            r matches Ok(n) ==> {
                &&& n <= buf@.len()
                &&& old(self).is_active() && final(self).is_active()
                &&& !final(self).is_finished() && !final(self).is_errored()
                &&& final(self).accepted() == old(self).accepted() + buf@.take(n as int)
            },
            r is Err ==> extends(final(self).accepted(), old(self).accepted()),
            r is Err && old(self).is_active() ==> final(self).is_errored()
                && !final(self).is_active(),
            r matches Err(e) ==> (old(self).is_active() ==> e == Error::Stalled || e
                matches Error::Engine(_) || S::can_err(e)),
            extends(final(self).sink_out(), old(self).sink_out()),
    {
        self.writer.write(buf)
    }

    /// Forces buffered compressed bytes out to the sink without ending the
    /// frame: the stream stays active and further writes remain valid. See
    /// [`Writer::flush`].
    pub fn flush(&mut self) -> (r: Result<(), Error>)
        requires
            old(self).wf(),
        ensures
            final(self).wf(),
            final(self).sink_base() == old(self).sink_base(),
            !old(self).is_active() ==> r == Err::<(), Error>(Error::Misuse) && *final(self)
                == *old(self),
            r matches Ok(()) ==> old(self).is_active() && final(self).is_active()
                && !final(self).is_finished() && !final(self).is_errored(),
            r is Err && old(self).is_active() ==> final(self).is_errored()
                && !final(self).is_active(),
            r matches Err(e) ==> (old(self).is_active() ==> e == Error::Stalled || e
                matches Error::Engine(_) || S::can_err(e)),
            final(self).accepted() == old(self).accepted(),
            extends(final(self).sink_out(), old(self).sink_out()),
    {
        self.writer.flush()
    }

    /// Ends the frame and drains it to the sink: afterwards the sink holds
    /// what it held at construction followed by exactly one complete frame
    /// that decodes back to everything this encoder accepted. Succeeds at
    /// most once: on a finished (or errored) encoder it is refused with
    /// [`Error::Misuse`], never a silent success. See [`Writer::finish`].
    pub fn finish(&mut self) -> (r: Result<(), Error>)
        requires
            old(self).wf(),
        ensures
            final(self).wf(),
            final(self).sink_base() == old(self).sink_base(),
            !old(self).is_active() ==> r == Err::<(), Error>(Error::Misuse) && *final(self)
                == *old(self),
            r matches Ok(()) ==> {
                &&& old(self).is_active()
                &&& final(self).is_finished() && !final(self).is_active()
                    && !final(self).is_errored()
                &&& final(self).sink_out() == final(self).sink_base() + final(self).emitted()
                &&& zstd_decode(final(self).emitted()) == Some(final(self).accepted())
                &&& (forall|k: int|
                    0 <= k < final(self).emitted().len() ==> zstd_decode(
                        #[trigger] final(self).emitted().take(k),
                    ) is None)
            },
            r is Err && old(self).is_active() ==> final(self).is_errored()
                && !final(self).is_active(),
            r matches Err(e) ==> (old(self).is_active() ==> e == Error::Stalled || e
                matches Error::Engine(_) || S::can_err(e)),
            final(self).accepted() == old(self).accepted(),
            extends(final(self).sink_out(), old(self).sink_out()),
    {
        self.writer.finish()
    }

    /// Gives the sink back, abandoning the stream. Unless `finish` has
    /// succeeded, the sink holds an incomplete frame.
    pub fn into_sink(self) -> (r: S)
        ensures
            r.out() == self.sink_out(),
    {
        self.writer.into_sink()
    }
}

} // verus!
