//! The pull side of the stream contract: decompression.
//!
//! A [`Reader`] owns a decompression context, a staging buffer of compressed
//! bytes pulled from a [`ByteSource`], and a cursor over that buffer. Each
//! `read` loops: refill the staging buffer when it is empty, hand its
//! unconsumed tail to the engine, and return as soon as the engine produces
//! any plaintext (or finishes the frame); once the frame is done, everything
//! delivered is exactly the decode of the consumed frame bytes. A source
//! that ends while the engine is still mid-frame is a truncated stream and
//! fails with [`Error::Truncated`], never a silently shortened result.
//! Errors of the source itself are returned unchanged.

use vstd::prelude::*;

use crate::bytes::ByteSource;
use crate::engine;
use crate::engine::zstd_decode;
use crate::error::Error;
use crate::zio::{extends, lemma_extends_refl, ENGINE_ROUND_LIMIT, STAGING_CAPACITY};

verus! {

/// Decompression pull adapter over a [`ByteSource`].
pub struct Reader<S: ByteSource> {
    ctx: engine::DecompressCtx,
    source: S,
    staging: Vec<u8>,
    cursor: usize,
    source_done: bool,
    frame_done: bool,
    errored: bool,
}

impl<S: ByteSource> Reader<S> {
    /// The reader's bookkeeping is intact: the cursor stays inside the
    /// staging buffer, an exhausted source stays exhausted, the frame flag
    /// mirrors the engine's, and a completed frame's delivered bytes are
    /// exactly the decode of its consumed bytes. Established by
    /// [`Reader::new`], preserved by every call.
    pub closed spec fn wf(&self) -> bool {
        &&& self.cursor <= self.staging@.len()
        &&& (self.source_done ==> self.source.avail().len() == 0)
        &&& (!self.errored ==> self.frame_done == self.ctx.done())
        &&& (!self.errored && self.frame_done ==> zstd_decode(self.ctx.fed()) == Some(
            self.ctx.delivered(),
        ))
        &&& (!self.errored ==> self.cursor + self.ctx.pending().len() <= self.staging@.len()
            && self.staging@.skip(self.cursor as int).take(self.ctx.pending().len() as int)
            == self.ctx.pending())
    }

    /// The compressed bytes handed to the engine so far, in order.
    pub closed spec fn fed(&self) -> Seq<u8> {
        self.ctx.fed()
    }

    /// The plaintext bytes handed out to callers so far, in order.
    pub closed spec fn delivered(&self) -> Seq<u8> {
        self.ctx.delivered()
    }

    /// The compressed bytes not yet handed to the engine: the unconsumed
    /// tail of the staging buffer, then whatever the source still holds.
    pub closed spec fn upcoming(&self) -> Seq<u8> {
        if self.cursor <= self.staging@.len() {
            self.staging@.skip(self.cursor as int) + self.source.avail()
        } else {
            self.source.avail()
        }
    }

    /// The engine has reached the end of the compressed frame.
    pub closed spec fn is_frame_done(&self) -> bool {
        self.frame_done
    }

    /// A fault made the stream unusable.
    pub closed spec fn is_errored(&self) -> bool {
        self.errored
    }

    /// What the underlying source still holds, beyond the staging buffer.
    pub closed spec fn src_avail(&self) -> Seq<u8> {
        self.source.avail()
    }

    /// Builds a reader around a source of compressed bytes, with a fresh
    /// decompression context at the engine's default window limits, or at a
    /// cap of two to `window_log_max` bytes when one is given.
    /// [`Error::Alloc`] if the engine cannot allocate; [`Error::Engine`] if
    /// it rejects the setup.
    pub fn new(source: S, window_log_max: Option<u32>) -> (r: Result<Reader<S>, Error>)
        ensures
            r matches Ok(rd) ==> {
                &&& rd.wf()
                &&& rd.fed() == Seq::<u8>::empty()
                &&& rd.delivered() == Seq::<u8>::empty()
                &&& rd.upcoming() == source.avail()
                &&& !rd.is_frame_done()
                &&& !rd.is_errored()
            },
            r matches Err(e) ==> e == Error::Alloc || e matches Error::Engine(_),
    {
        let mut ctx = match engine::dctx_new() {
            Some(ctx) => ctx,
            None => {
                return Err(Error::Alloc);
            },
        };
        match engine::dctx_init(&mut ctx) {
            Ok(()) => {},
            Err(code) => {
                return Err(Error::Engine(code));
            },
        }
        match window_log_max {
            None => {},
            Some(log) => {
                match engine::dctx_set_window_log_max(&mut ctx, log) {
                    Ok(()) => {},
                    Err(code) => {
                        return Err(Error::Engine(code));
                    },
                }
            },
        }
        let rd = Reader {
            ctx,
            source,
            staging: Vec::new(),
            cursor: 0,
            source_done: false,
            frame_done: false,
            errored: false,
        };
        proof {
            assert(rd.upcoming() =~= source.avail());
            assert(rd.staging@.skip(0).take(0) =~= rd.ctx.pending());
        }
        Ok(rd)
    }

    /// Decompresses into `dest[..n]` and returns `n`, never touching
    /// `dest[n..]` or its length.
    ///
    /// Exactly the returned bytes are appended to [`Reader::delivered`], and
    /// the engine is fed a prefix of [`Reader::upcoming`]: compressed bytes
    /// are never skipped, reordered or invented. `Ok(0)` with a non-empty
    /// `dest` means the frame ended cleanly, and then everything delivered is
    /// exactly the decode of the consumed frame bytes. A source that runs dry
    /// mid-frame is [`Error::Truncated`]; a source's own error is returned
    /// unchanged. After an error the reader refuses further use with
    /// [`Error::Misuse`].
    pub fn read(&mut self, dest: &mut Vec<u8>) -> (r: Result<usize, Error>)
        requires
            old(self).wf(),
        ensures
            final(self).wf(),
            final(dest)@.len() == old(dest)@.len(),
            final(self).fed() + final(self).upcoming() == old(self).fed() + old(self).upcoming(),
            extends(final(self).fed(), old(self).fed()),
            old(self).is_errored() ==> r == Err::<usize, Error>(Error::Misuse) && *final(self)
                == *old(self) && final(dest)@ == old(dest)@,
            old(self).is_frame_done() && !old(self).is_errored() ==> r == Ok::<usize, Error>(0)
                && *final(self) == *old(self) && final(dest)@ == old(dest)@,
            r matches Ok(n) ==> {
                &&& n <= old(dest)@.len()
                &&& (forall|i: int|
                    n <= i < final(dest)@.len() ==> final(dest)@[i] == old(dest)@[i])
                &&& final(self).delivered() == old(self).delivered() + final(dest)@.take(n as int)
                &&& !final(self).is_errored()
                &&& (n == 0 && old(dest)@.len() > 0 ==> final(self).is_frame_done())
            },
            final(self).is_frame_done() && !final(self).is_errored() ==> zstd_decode(
                final(self).fed(),
            ) == Some(final(self).delivered()),
            r is Err ==> final(self).delivered() == old(self).delivered(),
            r is Err && !old(self).is_errored() ==> final(self).is_errored(),
            r == Err::<usize, Error>(Error::Truncated) ==> !final(self).is_frame_done(),
            r matches Err(e) ==> (!old(self).is_errored() ==> e == Error::Truncated || e
                == Error::Stalled || e matches Error::Engine(_) || S::can_err(e)),
            old(self).upcoming().len() == 0 && !old(self).is_frame_done()
                && !old(self).is_errored() ==> r == Err::<usize, Error>(Error::Truncated) || (
            r matches Err(e) && S::can_err(e)),
            r == Err::<usize, Error>(Error::Truncated) && !S::can_err(Error::Truncated)
                ==> final(self).upcoming().len() == 0,
    {
        proof {
            lemma_extends_refl(self.ctx.fed());
        }
        if self.errored {
            return Err(Error::Misuse);
        }
        if self.frame_done {
            proof {
                assert(self.ctx.delivered() + dest@.take(0) =~= self.ctx.delivered());
            }
            return Ok(0);
        }
        let mut rounds: usize = 0;
        while rounds < ENGINE_ROUND_LIMIT
            invariant
                old(self).wf(),
                !old(self).is_errored(),
                !old(self).frame_done,
                self.wf(),
                !self.errored,
                !self.frame_done,
                self.ctx.delivered() == old(self).ctx.delivered(),
                self.ctx.fed() + self.upcoming() == old(self).fed() + old(self).upcoming(),
                extends(self.ctx.fed(), old(self).ctx.fed()),
                dest@ == old(dest)@,
                rounds >= 1 ==> old(self).upcoming().len() > 0,
            decreases ENGINE_ROUND_LIMIT - rounds,
        {
            rounds += 1;
            if self.cursor == self.staging.len() {
                if !self.source_done {
                    let ghost avail_before = self.source.avail();
                    match self.source.read_some(STAGING_CAPACITY) {
                        Ok(chunk) => {
                            if chunk.len() == 0 {
                                self.source_done = true;
                                proof {
                                    assert(self.source.avail() =~= avail_before);
                                }
                            } else {
                                self.cursor = 0;
                                let ghost staging_before = self.staging@;
                                self.staging = chunk;
                                proof {
                                    assert(self.ctx.pending().len() == 0);
                                    assert(self.staging@.skip(0).take(0) =~= self.ctx.pending());
                                    let k = self.staging@.len() as int;
                                    assert(staging_before.skip(staging_before.len() as int)
                                        =~= Seq::<u8>::empty());
                                    assert(self.staging@ =~= avail_before.take(k));
                                    assert(self.source.avail() =~= avail_before.skip(k));
                                    assert(0 <= k <= avail_before.len());
                                    avail_before.lemma_split_at(k);
                                    assert(avail_before.take(k) =~= avail_before.subrange(0, k));
                                    assert(avail_before.skip(k) =~= avail_before.subrange(
                                        k,
                                        avail_before.len() as int,
                                    ));
                                    assert(avail_before.take(k) + avail_before.skip(k)
                                        =~= avail_before);
                                    assert(self.staging@.skip(0) =~= self.staging@);
                                    assert(self.upcoming() =~= self.staging@ + self.source.avail());
                                }
                            }
                        },
                        Err(e) => {
                            self.errored = true;
                            return Err(e);
                        },
                    }
                }
                if self.source_done && self.cursor == self.staging.len() {
                    self.errored = true;
                    proof {
                        assert(self.staging@.skip(self.cursor as int) =~= Seq::<u8>::empty());
                        assert(self.upcoming() =~= Seq::<u8>::empty());
                    }
                    return Err(Error::Truncated);
                }
            }
            proof {
                assert(self.cursor < self.staging@.len());
                assert(self.upcoming().len() > 0);
                assert(old(self).upcoming().len() > 0);
            }
            let ghost fed_before = self.ctx.fed();
            let ghost staging_now = self.staging@;
            let ghost cursor_before = self.cursor as int;
            let ghost dest_before = dest@;
            let in_from = self.cursor;
            let step = engine::dctx_process(
                &mut self.ctx,
                self.staging.as_slice(),
                in_from,
                dest,
                0,
            );
            match step {
                Err(code) => {
                    self.errored = true;
                    return Err(Error::Engine(code));
                },
                Ok((consumed, produced, remaining)) => {
                    self.cursor = self.cursor + consumed;
                    proof {
                        assert(staging_now.skip(cursor_before) =~= staging_now.subrange(
                            cursor_before,
                            cursor_before + consumed as int,
                        ) + staging_now.skip(cursor_before + consumed as int));
                        assert(self.ctx.fed() + self.upcoming() =~= fed_before + (staging_now.skip(
                            cursor_before,
                        ) + self.source.avail()));
                        assert(fed_before + staging_now.skip(cursor_before) + self.source.avail()
                            =~= old(self).fed() + old(self).upcoming());
                        assert(self.ctx.fed() + self.upcoming() =~= old(self).fed() + old(
                            self,
                        ).upcoming());
                        assert(self.ctx.fed().take(fed_before.len() as int) =~= fed_before);
                        lemma_extends_refl(fed_before);
                        crate::zio::lemma_extends_trans(
                            self.ctx.fed(),
                            fed_before,
                            old(self).ctx.fed(),
                        );
                        assert(dest@.subrange(0, produced as int) =~= dest@.take(produced as int));
                    }
                    if remaining == 0 {
                        self.frame_done = true;
                        return Ok(produced);
                    }
                    if produced > 0 {
                        return Ok(produced);
                    }
                    proof {
                        assert(dest@ =~= dest_before);
                    }
                },
            }
        }
        self.errored = true;
        Err(Error::Stalled)
    }

    /// Gives the source back, abandoning the stream; compressed bytes that
    /// were staged but never fed to the engine are dropped with it.
    pub fn into_source(self) -> (r: S)
        ensures
            r.avail() == self.src_avail(),
    {
        let Reader {
            ctx: _,
            source,
            staging: _,
            cursor: _,
            source_done: _,
            frame_done: _,
            errored: _,
        } = self;
        source
    }
}

} // verus!
