//! The push side of the stream contract: compression.
//!
//! A [`Writer`] owns a compression context and a staging buffer. Each `write`
//! hands the caller's bytes to the engine once, drains whatever the engine
//! emitted to the sink before returning, and reports how long a prefix of the
//! offer the engine consumed; the caller re-offers the unconsumed tail.
//! `flush` forces buffered compressed bytes out without closing the frame;
//! `finish` closes the frame, after which the sink holds exactly the engine's
//! emitted bytes — one complete frame decoding back to everything accepted.
//! The first error is terminal: afterwards every call reports misuse.

use vstd::prelude::*;
use vstd::slice::slice_subrange;

use crate::bytes::ByteSink;
use crate::engine;
use crate::engine::zstd_decode;
use crate::error::Error;
use crate::zio::{
    extends, lemma_extends_append, lemma_extends_refl, lemma_extends_trans, zeroed, StreamState,
    ENGINE_ROUND_LIMIT, STAGING_CAPACITY,
};

verus! {

/// Compression push adapter over a [`ByteSink`].
pub struct Writer<S: ByteSink> {
    ctx: engine::CompressCtx,
    sink: S,
    staging: Vec<u8>,
    state: StreamState,
    base: Ghost<Seq<u8>>,
}

impl<S: ByteSink> Writer<S> {
    /// The plaintext bytes the engine has consumed so far, in order: always
    /// the concatenation of the consumed prefixes of every `write` offer.
    pub closed spec fn accepted(&self) -> Seq<u8> {
        self.ctx.fed()
    }

    /// The compressed bytes the engine has produced so far, in order.
    pub closed spec fn emitted(&self) -> Seq<u8> {
        self.ctx.emitted()
    }

    /// What the underlying sink has accepted so far.
    pub closed spec fn sink_out(&self) -> Seq<u8> {
        self.sink.out()
    }

    /// What the sink already held when this writer was built.
    pub closed spec fn sink_base(&self) -> Seq<u8> {
        self.base@
    }

    /// Still accepting writes.
    pub closed spec fn is_active(&self) -> bool {
        self.state == StreamState::Active
    }

    /// `finish` has closed the frame.
    pub closed spec fn is_finished(&self) -> bool {
        self.state == StreamState::Finished
    }

    /// A fault made the stream unusable.
    pub closed spec fn is_errored(&self) -> bool {
        self.state == StreamState::Errored
    }

    /// The writer's bookkeeping is intact: while the stream lives, the sink
    /// holds its original contents followed by exactly the engine's emitted
    /// bytes, and once finished, those bytes are one complete frame decoding
    /// back to the accepted plaintext. Established by [`Writer::new`],
    /// preserved by every call.
    pub closed spec fn wf(&self) -> bool {
        &&& (self.state == StreamState::Active ==> !self.ctx.done() && self.sink.out() == self.base@
            + self.ctx.emitted())
        &&& (self.state == StreamState::Finished ==> self.ctx.done() && self.sink.out()
            == self.base@ + self.ctx.emitted() && zstd_decode(self.ctx.emitted()) == Some(
            self.ctx.fed(),
        ))
    }

    /// Builds a writer around a sink, with a fresh compression context at the
    /// given level (0 selects the engine's default; the engine clamps levels
    /// outside its range). [`Error::Alloc`] if the engine cannot allocate;
    /// [`Error::Engine`] if it rejects the setup.
    pub fn new(sink: S, level: i32) -> (r: Result<Writer<S>, Error>)
        ensures
            r matches Ok(w) ==> {
                &&& w.wf()
                &&& w.is_active()
                &&& w.accepted() == Seq::<u8>::empty()
                &&& w.emitted() == Seq::<u8>::empty()
                &&& w.sink_out() == sink.out()
                &&& w.sink_base() == sink.out()
            },
            r matches Err(e) ==> e == Error::Alloc || e matches Error::Engine(_),
    {
        let mut ctx = match engine::cctx_new() {
            Some(ctx) => ctx,
            None => {
                return Err(Error::Alloc);
            },
        };
        match engine::cctx_init(&mut ctx, level) {
            Ok(()) => {},
            Err(code) => {
                return Err(Error::Engine(code));
            },
        }
        let ghost base = sink.out();
        let w = Writer {
            ctx,
            sink,
            staging: zeroed(STAGING_CAPACITY),
            state: StreamState::Active,
            base: Ghost(base),
        };
        proof {
            assert(base + w.ctx.emitted() =~= base);
        }
        Ok(w)
    }

    /// Sends `self.staging[..upto]` to the sink, whole, retrying short
    /// writes. On failure the stream is marked errored.
    fn drain(&mut self, upto: usize) -> (r: Result<(), Error>)
        requires
            upto <= old(self).staging@.len(),
            old(self).state == StreamState::Active,
        ensures
            final(self).ctx == old(self).ctx,
            final(self).base == old(self).base,
            final(self).staging@ == old(self).staging@,
            r matches Ok(()) ==> {
                &&& final(self).state == StreamState::Active
                &&& final(self).sink_out() == old(self).sink_out() + old(self).staging@.take(
                    upto as int,
                )
            },
            r is Err ==> final(self).state == StreamState::Errored,
            r matches Err(e) ==> e == Error::Stalled || S::can_err(e),
            extends(final(self).sink_out(), old(self).sink_out()),
    {
        let mut off: usize = 0;
        proof {
            assert(self.sink.out() + self.staging@.take(0) =~= self.sink.out());
            lemma_extends_refl(self.sink.out());
        }
        while off < upto
            invariant
                0 <= off <= upto <= self.staging@.len(),
                self.ctx == old(self).ctx,
                self.base == old(self).base,
                self.staging@ == old(self).staging@,
                self.state == StreamState::Active,
                self.sink.out() == old(self).sink.out() + old(self).staging@.take(off as int),
                extends(self.sink.out(), old(self).sink.out()),
            decreases upto - off,
        {
            let part = slice_subrange(self.staging.as_slice(), off, upto);
            let ghost sink_before = self.sink.out();
            match self.sink.write_some(part) {
                Ok(n) => {
                    if n == 0 {
                        self.state = StreamState::Errored;
                        return Err(Error::Stalled);
                    }
                    proof {
                        assert(sink_before + part@.take(n as int) =~= old(self).sink.out() + old(
                            self,
                        ).staging@.take(off + n as int));
                        lemma_extends_append(
                            old(self).sink.out(),
                            old(self).staging@.take(off + n as int),
                        );
                    }
                    off += n;
                },
                Err(e) => {
                    self.state = StreamState::Errored;
                    return Err(e);
                },
            }
        }
        Ok(())
    }

    /// Offers `buf` to the engine once, drains the engine's output to the
    /// sink, and reports how long a prefix of `buf` the engine consumed.
    ///
    /// Exactly that prefix is appended to [`Writer::accepted`]: consumed
    /// bytes are never reordered or dropped, and the unconsumed tail is the
    /// caller's to re-offer. Writing to a finished or errored stream is
    /// refused with [`Error::Misuse`] and changes nothing.
    pub fn write(&mut self, buf: &[u8]) -> (r: Result<usize, Error>)
        requires
            old(self).wf(),
        ensures
            final(self).wf(),
            final(self).sink_base() == old(self).sink_base(),
            !old(self).is_active() ==> r == Err::<usize, Error>(Error::Misuse) && *final(self)
                == *old(self),
            r matches Ok(n) ==> {
                &&& n <= buf@.len()
                &&& old(self).is_active() && final(self).is_active()
                &&& !final(self).is_finished() && !final(self).is_errored()
                &&& final(self).accepted() == old(self).accepted() + buf@.take(n as int)
            },
            r is Err ==> extends(final(self).accepted(), old(self).accepted()),
            r matches Err(e) ==> (old(self).is_active() ==> e == Error::Stalled || e
                matches Error::Engine(_) || S::can_err(e)),
            r is Err && old(self).is_active() ==> final(self).is_errored()
                && !final(self).is_active(),
            extends(final(self).sink_out(), old(self).sink_out()),
    {
        proof {
            lemma_extends_refl(self.sink.out());
            lemma_extends_refl(self.ctx.fed());
        }
        match self.state {
            StreamState::Active => {},
            _ => {
                return Err(Error::Misuse);
            },
        }
        let ghost emitted_before = self.ctx.emitted();
        match engine::cctx_process(&mut self.ctx, buf, 0, &mut self.staging, 0) {
            Err(code) => {
                self.state = StreamState::Errored;
                return Err(Error::Engine(code));
            },
            Ok((consumed, produced)) => {
                proof {
                    assert(self.ctx.fed().take(old(self).ctx.fed().len() as int) =~= old(
                        self,
                    ).ctx.fed());
                }
                let dr = self.drain(produced);
                match dr {
                    Ok(()) => {},
                    Err(e) => {
                        return Err(e);
                    },
                }
                proof {
                    assert(self.staging@.take(produced as int) =~= self.staging@.subrange(
                        0,
                        produced as int,
                    ));
                    assert((old(self).base@ + emitted_before) + self.staging@.take(produced as int)
                        =~= old(self).base@ + self.ctx.emitted());
                    assert(buf@.take(consumed as int) =~= buf@.subrange(0, consumed as int));
                }
                Ok(consumed)
            },
        }
    }

    /// Forces the engine's internally buffered compressed bytes out to the
    /// sink without ending the frame: afterwards the stream is still active
    /// and further writes remain valid. On a finished or errored stream it
    /// is refused with [`Error::Misuse`] and changes nothing.
    pub fn flush(&mut self) -> (r: Result<(), Error>)
        requires
            old(self).wf(),
        ensures
            final(self).wf(),
            final(self).sink_base() == old(self).sink_base(),
            !old(self).is_active() ==> r == Err::<(), Error>(Error::Misuse) && *final(self)
                == *old(self),
            r matches Ok(()) ==> old(self).is_active() && final(self).is_active()
                && !final(self).is_finished() && !final(self).is_errored(),
            r is Err && old(self).is_active() ==> final(self).is_errored()
                && !final(self).is_active(),
            r matches Err(e) ==> (old(self).is_active() ==> e == Error::Stalled || e
                matches Error::Engine(_) || S::can_err(e)),
            final(self).accepted() == old(self).accepted(),
            extends(final(self).sink_out(), old(self).sink_out()),
    {
        proof {
            lemma_extends_refl(self.sink.out());
        }
        match self.state {
            StreamState::Active => {},
            _ => {
                return Err(Error::Misuse);
            },
        }
        let mut rounds: usize = 0;
        while rounds < ENGINE_ROUND_LIMIT
            invariant
                old(self).state == StreamState::Active,
                old(self).wf(),
                self.state == StreamState::Active,
                !self.ctx.done(),
                self.ctx.fed() == old(self).ctx.fed(),
                self.base@ == old(self).base@,
                self.sink.out() == self.base@ + self.ctx.emitted(),
                extends(self.sink_out(), old(self).sink_out()),
            decreases ENGINE_ROUND_LIMIT - rounds,
        {
            rounds += 1;
            let ghost emitted_before = self.ctx.emitted();
            let ghost sink_before = self.sink_out();
            match engine::cctx_flush(&mut self.ctx, &mut self.staging, 0) {
                Err(code) => {
                    self.state = StreamState::Errored;
                    return Err(Error::Engine(code));
                },
                Ok((produced, remaining)) => {
                    let dr = self.drain(produced);
                    proof {
                        lemma_extends_trans(self.sink_out(), sink_before, old(self).sink_out());
                    }
                    match dr {
                        Ok(()) => {},
                        Err(e) => {
                            return Err(e);
                        },
                    }
                    proof {
                        assert(self.staging@.take(produced as int) =~= self.staging@.subrange(
                            0,
                            produced as int,
                        ));
                        assert((self.base@ + emitted_before) + self.staging@.take(produced as int)
                            =~= self.base@ + self.ctx.emitted());
                    }
                    if remaining == 0 {
                        return Ok(());
                    }
                },
            }
        }
        self.state = StreamState::Errored;
        Err(Error::Stalled)
    }

    /// Signals end-of-input to the engine and drains the whole frame epilogue
    /// to the sink. On success the stream is finished: the sink now holds its
    /// original contents followed by exactly one complete compressed frame
    /// that decodes back to everything the writer accepted, and any further
    /// `write`, `flush` or `finish` is refused with [`Error::Misuse`].
    /// Calling `finish` a second time is exactly such a refusal, never a
    /// silent success.
    pub fn finish(&mut self) -> (r: Result<(), Error>)
        requires
            old(self).wf(),
        ensures
            final(self).wf(),
            final(self).sink_base() == old(self).sink_base(),
            !old(self).is_active() ==> r == Err::<(), Error>(Error::Misuse) && *final(self)
                == *old(self),
            r matches Ok(()) ==> {
                &&& old(self).is_active()
                &&& final(self).is_finished() && !final(self).is_active()
                    && !final(self).is_errored()
                &&& final(self).sink_out() == final(self).sink_base() + final(self).emitted()
                &&& zstd_decode(final(self).emitted()) == Some(final(self).accepted())
                &&& (forall|k: int|
                    0 <= k < final(self).emitted().len() ==> zstd_decode(
                        #[trigger] final(self).emitted().take(k),
                    ) is None)
            },
            r is Err && old(self).is_active() ==> final(self).is_errored()
                && !final(self).is_active(),
            r matches Err(e) ==> (old(self).is_active() ==> e == Error::Stalled || e
                matches Error::Engine(_) || S::can_err(e)),
            final(self).accepted() == old(self).accepted(),
            extends(final(self).sink_out(), old(self).sink_out()),
    {
        proof {
            lemma_extends_refl(self.sink.out());
        }
        match self.state {
            StreamState::Active => {},
            _ => {
                return Err(Error::Misuse);
            },
        }
        let mut rounds: usize = 0;
        while rounds < ENGINE_ROUND_LIMIT
            invariant
                old(self).state == StreamState::Active,
                old(self).wf(),
                self.state == StreamState::Active,
                !self.ctx.done(),
                self.ctx.fed() == old(self).ctx.fed(),
                self.base@ == old(self).base@,
                self.sink.out() == self.base@ + self.ctx.emitted(),
                extends(self.sink_out(), old(self).sink_out()),
            decreases ENGINE_ROUND_LIMIT - rounds,
        {
            rounds += 1;
            let ghost emitted_before = self.ctx.emitted();
            let ghost sink_before = self.sink_out();
            match engine::cctx_end(&mut self.ctx, &mut self.staging, 0) {
                Err(code) => {
                    self.state = StreamState::Errored;
                    return Err(Error::Engine(code));
                },
                Ok((produced, remaining)) => {
                    let dr = self.drain(produced);
                    proof {
                        lemma_extends_trans(self.sink_out(), sink_before, old(self).sink_out());
                    }
                    match dr {
                        Ok(()) => {},
                        Err(e) => {
                            return Err(e);
                        },
                    }
                    proof {
                        assert(self.staging@.take(produced as int) =~= self.staging@.subrange(
                            0,
                            produced as int,
                        ));
                        assert((self.base@ + emitted_before) + self.staging@.take(produced as int)
                            =~= self.base@ + self.ctx.emitted());
                    }
                    if remaining == 0 {
                        self.state = StreamState::Finished;
                        return Ok(());
                    }
                },
            }
        }
        self.state = StreamState::Errored;
        Err(Error::Stalled)
    }

    /// Gives the sink back, abandoning the stream. If `finish` has not
    /// succeeded, the bytes in the sink do not form a complete frame.
    pub fn into_sink(self) -> (r: S)
        ensures
            r.out() == self.sink_out(),
    {
        let Writer { ctx: _, sink, staging: _, state: _, base: _ } = self;
        sink
    }
}

} // verus!
