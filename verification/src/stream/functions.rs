//! One-shot helpers: drive an [`Encoder`] or [`Decoder`] to completion over
//! whole buffers, pumping a fixed-size transfer chunk at a time.

use vstd::prelude::*;
use vstd::slice::{slice_subrange, slice_to_vec};

use crate::bytes::{ByteSink, ByteSource, SliceSource, VecSink};
use crate::engine::zstd_decode;
use crate::error::Error;
use crate::stream::read::Decoder;
use crate::stream::valid_level;
use crate::stream::write::Encoder;
use crate::zio::{
    extends, lemma_extends_append, lemma_extends_refl, lemma_extends_trans, zeroed,
    ENGINE_ROUND_LIMIT, STAGING_CAPACITY,
};

verus! {

/// Compresses everything `source` holds into `sink`, as if written through
/// an [`Encoder`], then finishes the frame and hands the sink back.
///
/// A level of 0 uses the engine's default; levels outside the engine's
/// accepted range are refused with [`Error::Config`]. On success the sink
/// holds what it held before, followed by exactly one complete compressed
/// frame that decodes back to all the source's bytes.
pub fn copy_encode<S: ByteSource, W: ByteSink>(source: S, sink: W, level: i32) -> (r: Result<
    W,
    Error,
>)
    ensures
        !valid_level(level as int) ==> r == Err::<W, Error>(Error::Config),
        r == Err::<W, Error>(Error::Config) ==> !valid_level(level as int) || S::can_err(
            Error::Config,
        ) || W::can_err(Error::Config),
        r matches Err(e) ==> e == Error::Config || e == Error::Alloc || e == Error::Stalled || e
            matches Error::Engine(_) || S::can_err(e) || W::can_err(e),
        r matches Ok(w) ==> {
            &&& extends(w.out(), sink.out())
            &&& zstd_decode(w.out().skip(sink.out().len() as int)) == Some(source.avail())
            &&& (forall|k: int|
                0 <= k < w.out().len() - sink.out().len() ==> zstd_decode(
                    #[trigger] w.out().skip(sink.out().len() as int).take(k),
                ) is None)
        },
{
    let mut src = source;
    let mut enc = match Encoder::new(sink, level) {
        Ok(enc) => enc,
        Err(e) => {
            return Err(e);
        },
    };
    proof {
        lemma_extends_refl(enc.sink_out());
        assert(enc.accepted() + src.avail() =~= source.avail());
    }
    loop
        invariant_except_break
            valid_level(level as int),
            enc.wf(),
            enc.is_active(),
            enc.sink_base() == sink.out(),
            enc.accepted() + src.avail() == source.avail(),
            extends(enc.sink_out(), sink.out()),
        ensures
            valid_level(level as int),
            enc.wf(),
            enc.is_active(),
            enc.sink_base() == sink.out(),
            enc.accepted() == source.avail(),
            extends(enc.sink_out(), sink.out()),
        decreases src.avail().len(),
    {
        let ghost avail_before = src.avail();
        let chunk = match src.read_some(STAGING_CAPACITY) {
            Ok(chunk) => chunk,
            Err(e) => {
                return Err(e);
            },
        };
        if chunk.len() == 0 {
            proof {
                assert(enc.accepted() + src.avail() =~= enc.accepted());
            }
            break;
        }
        proof {
            let k = chunk@.len() as int;
            assert(0 <= k <= avail_before.len());
            avail_before.lemma_split_at(k);
            assert(avail_before.take(k) =~= avail_before.subrange(0, k));
            assert(avail_before.skip(k) =~= avail_before.subrange(k, avail_before.len() as int));
            assert(chunk@ + src.avail() =~= avail_before);
        }
        let ghost acc_start = enc.accepted();
        let mut off: usize = 0;
        let mut rounds: usize = 0;
        proof {
            assert(acc_start + chunk@.take(0) =~= acc_start);
        }
        while off < chunk.len() && rounds < ENGINE_ROUND_LIMIT
            invariant
                valid_level(level as int),
                0 <= off <= chunk@.len(),
                enc.wf(),
                enc.is_active(),
                enc.sink_base() == sink.out(),
                enc.accepted() == acc_start + chunk@.take(off as int),
                acc_start + (chunk@ + src.avail()) == source.avail(),
                extends(enc.sink_out(), sink.out()),
            decreases ENGINE_ROUND_LIMIT - rounds,
        {
            rounds += 1;
            let part = slice_subrange(chunk.as_slice(), off, chunk.len());
            let ghost out_before = enc.sink_out();
            match enc.write(part) {
                Ok(n) => {
                    proof {
                        lemma_extends_trans(enc.sink_out(), out_before, sink.out());
                        assert(part@.take(n as int) =~= chunk@.subrange(off as int, off + n));
                        assert(acc_start + chunk@.take(off as int) + chunk@.subrange(
                            off as int,
                            off + n,
                        ) =~= acc_start + chunk@.take(off + n));
                    }
                    off += n;
                },
                Err(e) => {
                    return Err(e);
                },
            }
        }
        if off < chunk.len() {
            return Err(Error::Stalled);
        }
        proof {
            assert(chunk@.take(chunk@.len() as int) =~= chunk@);
            assert(enc.accepted() + src.avail() =~= source.avail());
        }
    }
    let ghost out_before = enc.sink_out();
    match enc.finish() {
        Ok(()) => {},
        Err(e) => {
            return Err(e);
        },
    }
    proof {
        lemma_extends_trans(enc.sink_out(), out_before, sink.out());
        assert(enc.sink_out().skip(sink.out().len() as int) =~= enc.emitted());
    }
    Ok(enc.into_sink())
}

/// Decompresses everything `source` holds into `sink`, as if read through a
/// [`Decoder`], and hands the sink back once the frame ends cleanly. A
/// source that runs dry mid-frame is [`Error::Truncated`], never a silently
/// shortened result; a source's own error is returned unchanged. On success
/// the sink holds what it held before, followed by exactly the decode of the
/// frame that forms a prefix of the source's bytes.
pub fn copy_decode<S: ByteSource, W: ByteSink>(source: S, sink: W) -> (r: Result<W, Error>)
    ensures
        source.avail().len() == 0 ==> r is Err,
        r matches Err(e) ==> e == Error::Alloc || e == Error::Truncated || e == Error::Stalled
            || e matches Error::Engine(_) || S::can_err(e) || W::can_err(e),
        r matches Ok(w) ==> {
            &&& extends(w.out(), sink.out())
            &&& exists|k: int|
                0 <= k <= source.avail().len() && zstd_decode(source.avail().take(k)) == Some(
                    w.out().skip(sink.out().len() as int),
                )
        },
{
    let mut dec = match Decoder::new(source) {
        Ok(dec) => dec,
        Err(e) => {
            return Err(e);
        },
    };
    let mut out = sink;
    proof {
        lemma_extends_refl(out.out());
        assert(out.out() + dec.delivered() =~= out.out());
        assert(dec.fed() + dec.upcoming() =~= source.avail());
    }
    let mut dest = zeroed(STAGING_CAPACITY);
    let mut rounds: usize = 0;
    while rounds < ENGINE_ROUND_LIMIT
        invariant
            dec.wf(),
            !dec.is_errored(),
            dest@.len() == STAGING_CAPACITY,
            out.out() == sink.out() + dec.delivered(),
            dec.fed() + dec.upcoming() == source.avail(),
            source.avail().len() == 0 ==> dec.upcoming().len() == 0 && !dec.is_frame_done(),
            extends(out.out(), sink.out()),
        decreases ENGINE_ROUND_LIMIT - rounds,
    {
        rounds += 1;
        let ghost delivered_before = dec.delivered();
        let n = match dec.read(&mut dest) {
            Ok(n) => n,
            Err(e) => {
                return Err(e);
            },
        };
        if n == 0 {
            let w = out;
            proof {
                let k = dec.fed().len() as int;
                assert(delivered_before + dest@.take(0) =~= delivered_before);
                assert(0 <= k <= source.avail().len());
                assert(source.avail().take(k) =~= dec.fed());
                assert(w.out().skip(sink.out().len() as int) =~= dec.delivered());
            }
            return Ok(w);
        }
        let ghost target = dec.delivered();
        let mut off: usize = 0;
        proof {
            assert((sink.out() + delivered_before) + dest@.take(0) =~= sink.out()
                + delivered_before);
        }
        while off < n
            invariant
                0 <= off <= n <= dest@.len(),
                out.out() == (sink.out() + delivered_before) + dest@.take(off as int),
                extends(out.out(), sink.out()),
            decreases n - off,
        {
            let part = slice_subrange(dest.as_slice(), off, n);
            let ghost out_before = out.out();
            match out.write_some(part) {
                Ok(k) => {
                    if k == 0 {
                        return Err(Error::Stalled);
                    }
                    proof {
                        assert(part@.take(k as int) =~= dest@.subrange(off as int, off + k));
                        assert((sink.out() + delivered_before) + dest@.take(off as int)
                            + dest@.subrange(off as int, off + k) =~= (sink.out()
                            + delivered_before) + dest@.take(off + k));
                        lemma_extends_append(out_before, part@.take(k as int));
                        lemma_extends_trans(out.out(), out_before, sink.out());
                    }
                    off += k;
                },
                Err(e) => {
                    return Err(e);
                },
            }
        }
        proof {
            assert((sink.out() + delivered_before) + dest@.take(n as int) =~= sink.out() + target);
        }
    }
    Err(Error::Stalled)
}

/// Compresses `data` into one complete frame, as if streamed through an
/// [`Encoder`] into a fresh buffer: on success the result decodes back to
/// exactly `data`. A level of 0 uses the engine's default; levels outside
/// the engine's accepted range are refused with [`Error::Config`].
pub fn encode_all(data: &[u8], level: i32) -> (r: Result<Vec<u8>, Error>)
    ensures
        r == Err::<Vec<u8>, Error>(Error::Config) <==> !valid_level(level as int),
        r matches Err(e) ==> e == Error::Config || e == Error::Alloc || e == Error::Stalled || e
            matches Error::Engine(_),
        r matches Ok(v) ==> zstd_decode(v@) == Some(data@) && (forall|k: int|
            0 <= k < v@.len() ==> zstd_decode(#[trigger] v@.take(k)) is None),
{
    let src = SliceSource::new(slice_to_vec(data));
    match copy_encode(src, VecSink::new(), level) {
        Ok(sink) => {
            let v = sink.into_vec();
            proof {
                assert(v@.skip(0) =~= v@);
            }
            Ok(v)
        },
        Err(e) => Err(e),
    }
}

/// Decompresses one complete frame held in `data`, as if streamed through a
/// [`Decoder`] into a fresh buffer: on success the result is exactly the
/// decode of the frame that forms a prefix of `data`. A frame cut short is
/// [`Error::Truncated`], never a silently shortened result; no bytes at all
/// means no frame, so that too is [`Error::Truncated`].
pub fn decode_all(data: &[u8]) -> (r: Result<Vec<u8>, Error>)
    ensures
        data@.len() == 0 ==> r == Err::<Vec<u8>, Error>(Error::Truncated),
        r matches Err(e) ==> e == Error::Alloc || e == Error::Truncated || e == Error::Stalled
            || e matches Error::Engine(_),
        r matches Ok(v) ==> exists|k: int|
            0 <= k <= data@.len() && zstd_decode(data@.take(k)) == Some(v@),
{
    if data.len() == 0 {
        return Err(Error::Truncated);
    }
    let src = SliceSource::new(slice_to_vec(data));
    match copy_decode(src, VecSink::new()) {
        Ok(sink) => {
            let v = sink.into_vec();
            proof {
                assert(v@.skip(0) =~= v@);
            }
            Ok(v)
        },
        Err(e) => Err(e),
    }
}

/// The one-shot round trip: an encoded frame decodes only as a whole, so
/// whatever a decoder reads back from a prefix of it is exactly the encoded
/// payload. The two premises are what [`encode_all`] ensures of its result;
/// the third is what [`decode_all`] ensures of its input; together they pin
/// the decoded bytes to the original data.
pub proof fn lemma_one_shot_round_trip(frame: Seq<u8>, payload: Seq<u8>, decoded: Seq<u8>, k: int)
    requires
        zstd_decode(frame) == Some(payload),
        forall|j: int| 0 <= j < frame.len() ==> zstd_decode(#[trigger] frame.take(j)) is None,
        0 <= k <= frame.len(),
        zstd_decode(frame.take(k)) == Some(decoded),
    ensures
        decoded == payload,
{
    if k < frame.len() {
        assert(zstd_decode(frame.take(k)) is None);
    } else {
        assert(frame.take(k) =~= frame);
    }
}

} // verus!
