//! Trusted boundary to the zstd engine.
//!
//! Every executable function here is a thin wrapper around one `zstd-safe`
//! call. Each engine context travels inside a model struct that carries its
//! ghost history: which bytes the engine has consumed and produced since its
//! stream began. The wrappers' contracts say how one call moves the caller's
//! buffers and extends that history; the only facts assumed about what the
//! bytes *mean* are the two frame-completion clauses, which restate the
//! engine's documented lossless round trip through [`zstd_decode`]. All
//! other frame-format knowledge stays behind this boundary.

use vstd::prelude::*;

verus! {

#[verifier::external_type_specification]
#[verifier::external_body]
pub struct ExCCtx<'a>(zstd_safe::CCtx<'a>);

#[verifier::external_type_specification]
#[verifier::external_body]
pub struct ExDCtx<'a>(zstd_safe::DCtx<'a>);

/// What a byte sequence means to the engine's decoder: the decompressed
/// payload when the bytes form exactly one complete compressed frame, and
/// `None` otherwise. The frame format is fully specified and self-delimited,
/// so decoding is a pure function of the frame bytes alone; everything
/// assumed of this name stands in the two frame-completion clauses below
/// ([`cctx_end`] and [`dctx_process`]).
pub uninterp spec fn zstd_decode(frame: Seq<u8>) -> Option<Seq<u8>>;

/// The engine's diagnostic text for an error code: a fixed table lookup,
/// a function of the code alone.
pub uninterp spec fn engine_diagnostic(code: int) -> Seq<char>;

/// A compression context together with its ghost history: the plaintext the
/// engine has consumed (`fed`), the compressed bytes it has produced
/// (`emitted`), and whether this history is closed (`done`) — by the frame
/// ending or by an engine fault, after which no wrapper accepts the context
/// again and nothing further is assumed of it.
pub struct CompressCtx {
    inner: zstd_safe::CCtx<'static>,
    fed: Ghost<Seq<u8>>,
    emitted: Ghost<Seq<u8>>,
    done: Ghost<bool>,
}

impl CompressCtx {
    /// The plaintext bytes the engine has consumed since the stream began.
    pub closed spec fn fed(&self) -> Seq<u8> {
        self.fed@
    }

    /// The compressed bytes the engine has produced since the stream began.
    pub closed spec fn emitted(&self) -> Seq<u8> {
        self.emitted@
    }

    /// The history is closed: the frame was completed, or a fault ended it.
    pub closed spec fn done(&self) -> bool {
        self.done@
    }
}

/// A decompression context together with its ghost history: the compressed
/// bytes the engine has reported consumed (`fed`), the plaintext it has
/// produced (`delivered`), bytes it has examined beyond what it reported
/// (`pending` — the engine may withhold the frame's last byte from its
/// consumed count until all output is flushed, re-counting it on a later
/// call without reading it again), and whether this history is closed
/// (`done`).
pub struct DecompressCtx {
    inner: zstd_safe::DCtx<'static>,
    fed: Ghost<Seq<u8>>,
    delivered: Ghost<Seq<u8>>,
    pending: Ghost<Seq<u8>>,
    done: Ghost<bool>,
}

impl DecompressCtx {
    /// The compressed bytes the engine has reported consumed since the
    /// stream began.
    pub closed spec fn fed(&self) -> Seq<u8> {
        self.fed@
    }

    /// The plaintext bytes the engine has produced since the stream began.
    pub closed spec fn delivered(&self) -> Seq<u8> {
        self.delivered@
    }

    /// Bytes the engine has already examined but not yet reported consumed;
    /// every later call must offer exactly these bytes first, or the
    /// reported history diverges from what the engine truly read.
    pub closed spec fn pending(&self) -> Seq<u8> {
        self.pending@
    }

    /// The history is closed: the frame was completed, or a fault ended it.
    pub closed spec fn done(&self) -> bool {
        self.done@
    }
}

/// Relies on `zstd_safe::CCtx::try_create`: a fresh compression context, or
/// `None` if the engine could not allocate one.
#[verifier::external_body]
fn raw_cctx_new() -> Option<zstd_safe::CCtx<'static>> {
    zstd_safe::CCtx::try_create()
}

/// Relies on `zstd_safe::DCtx::try_create`: a fresh decompression context,
/// or `None` if the engine could not allocate one.
#[verifier::external_body]
fn raw_dctx_new() -> Option<zstd_safe::DCtx<'static>> {
    zstd_safe::DCtx::try_create()
}

/// A fresh compression context with an empty history.
pub(crate) fn cctx_new() -> (r: Option<CompressCtx>)
    ensures
        r matches Some(c) ==> {
            &&& c.fed() == Seq::<u8>::empty()
            &&& c.emitted() == Seq::<u8>::empty()
            &&& !c.done()
        },
{
    match raw_cctx_new() {
        Some(inner) => Some(
            CompressCtx {
                inner,
                fed: Ghost(Seq::empty()),
                emitted: Ghost(Seq::empty()),
                done: Ghost(false),
            },
        ),
        None => None,
    }
}

/// A fresh decompression context with an empty history.
pub(crate) fn dctx_new() -> (r: Option<DecompressCtx>)
    ensures
        r matches Some(c) ==> {
            &&& c.fed() == Seq::<u8>::empty()
            &&& c.delivered() == Seq::<u8>::empty()
            &&& c.pending() == Seq::<u8>::empty()
            &&& !c.done()
        },
{
    match raw_dctx_new() {
        Some(inner) => Some(
            DecompressCtx {
                inner,
                fed: Ghost(Seq::empty()),
                delivered: Ghost(Seq::empty()),
                pending: Ghost(Seq::empty()),
                done: Ghost(false),
            },
        ),
        None => None,
    }
}

/// Relies on `zstd_safe::CCtx::init` (`ZSTD_initCStream`): resets the stream
/// and sets the compression level (0 selects the engine's documented
/// default; out-of-range levels are clamped, never a panic). On success the
/// history is empty again.
#[verifier::external_body]
pub(crate) fn cctx_init(ctx: &mut CompressCtx, level: i32) -> (r: Result<(), usize>)
    ensures
        r matches Ok(()) ==> {
            &&& final(ctx).fed() == Seq::<u8>::empty()
            &&& final(ctx).emitted() == Seq::<u8>::empty()
            &&& !final(ctx).done()
        },
        r is Err ==> final(ctx).done(),
{
    match ctx.inner.init(level) {
        Ok(_) => Ok(()),
        Err(code) => Err(code),
    }
}

/// Relies on `zstd_safe::DCtx::init` (`ZSTD_initDStream`): readies the
/// context for a new frame. On success the history is empty again.
#[verifier::external_body]
pub(crate) fn dctx_init(ctx: &mut DecompressCtx) -> (r: Result<(), usize>)
    ensures
        r matches Ok(()) ==> {
            &&& final(ctx).fed() == Seq::<u8>::empty()
            &&& final(ctx).delivered() == Seq::<u8>::empty()
            &&& final(ctx).pending() == Seq::<u8>::empty()
            &&& !final(ctx).done()
        },
        r is Err ==> final(ctx).done(),
{
    match ctx.inner.init() {
        Ok(_) => Ok(()),
        Err(code) => Err(code),
    }
}

/// Relies on `zstd_safe::DCtx::set_parameter`: caps the window size the
/// decoder will accept at two to the given power of bytes (0 restores the
/// engine's default limit); out-of-range values come back as an error code,
/// not a panic. The history is untouched.
#[verifier::external_body]
pub(crate) fn dctx_set_window_log_max(ctx: &mut DecompressCtx, value: u32) -> (r: Result<
    (),
    usize,
>)
    ensures
        r matches Ok(()) ==> {
            &&& final(ctx).fed() == old(ctx).fed()
            &&& final(ctx).delivered() == old(ctx).delivered()
            &&& final(ctx).pending() == old(ctx).pending()
            &&& final(ctx).done() == old(ctx).done()
        },
        r is Err ==> final(ctx).done(),
{
    match ctx.inner.set_parameter(zstd_safe::DParameter::WindowLogMax(value)) {
        Ok(_) => Ok(()),
        Err(code) => Err(code),
    }
}

/// Relies on `zstd_safe::CCtx::compress_stream`: one compression step. It
/// reads from `input[in_from..]`, writes engine-chosen bytes into
/// `out[out_from..]`, and reports `(consumed, produced)`. The call never
/// moves outside those ranges, never resizes `out`, and extends the
/// context's history by exactly the consumed and produced bytes; on an
/// engine fault the history is closed unchanged.
#[verifier::external_body]
pub(crate) fn cctx_process(
    ctx: &mut CompressCtx,
    input: &[u8],
    in_from: usize,
    out: &mut Vec<u8>,
    out_from: usize,
) -> (r: Result<(usize, usize), usize>)
    requires
        in_from <= input@.len(),
        out_from <= old(out)@.len(),
        !old(ctx).done(),
    ensures
        final(out)@.len() == old(out)@.len(),
        r matches Ok((consumed, produced)) ==> {
            &&& in_from + consumed <= input@.len()
            &&& out_from + produced <= final(out)@.len()
            &&& forall|i: int| 0 <= i < out_from ==> final(out)@[i] == old(out)@[i]
            &&& forall|i: int|
                out_from + produced <= i < final(out)@.len() ==> final(out)@[i] == old(out)@[i]
            &&& final(ctx).fed() == old(ctx).fed() + input@.subrange(
                in_from as int,
                in_from + consumed,
            )
            &&& final(ctx).emitted() == old(ctx).emitted() + final(out)@.subrange(
                out_from as int,
                out_from + produced,
            )
            &&& !final(ctx).done()
        },
        r is Err ==> {
            &&& final(ctx).fed() == old(ctx).fed()
            &&& final(ctx).emitted() == old(ctx).emitted()
            &&& final(ctx).done()
        },
{
    let mut ib = zstd_safe::InBuffer::around(&input[in_from..]);
    let mut ob = zstd_safe::OutBuffer::around_pos(&mut out[..], out_from);
    match ctx.inner.compress_stream(&mut ob, &mut ib) {
        Ok(_) => {
            let produced = ob.pos() - out_from;
            Ok((ib.pos(), produced))
        }
        Err(code) => Err(code),
    }
}

/// Relies on `zstd_safe::CCtx::flush_stream`: forces out internally buffered
/// compressed bytes without ending the frame. Writes into `out[out_from..]`
/// and reports `(produced, remaining)`; `remaining == 0` means the engine's
/// buffers are fully flushed. Never moves outside that range, never resizes
/// `out`; the history gains exactly the produced bytes.
#[verifier::external_body]
pub(crate) fn cctx_flush(ctx: &mut CompressCtx, out: &mut Vec<u8>, out_from: usize) -> (r: Result<
    (usize, usize),
    usize,
>)
    requires
        out_from <= old(out)@.len(),
        !old(ctx).done(),
    ensures
        final(out)@.len() == old(out)@.len(),
        r matches Ok((produced, remaining)) ==> {
            &&& out_from + produced <= final(out)@.len()
            &&& forall|i: int| 0 <= i < out_from ==> final(out)@[i] == old(out)@[i]
            &&& forall|i: int|
                out_from + produced <= i < final(out)@.len() ==> final(out)@[i] == old(out)@[i]
            &&& final(ctx).fed() == old(ctx).fed()
            &&& final(ctx).emitted() == old(ctx).emitted() + final(out)@.subrange(
                out_from as int,
                out_from + produced,
            )
            &&& !final(ctx).done()
        },
        r is Err ==> {
            &&& final(ctx).fed() == old(ctx).fed()
            &&& final(ctx).emitted() == old(ctx).emitted()
            &&& final(ctx).done()
        },
{
    let mut ob = zstd_safe::OutBuffer::around_pos(&mut out[..], out_from);
    match ctx.inner.flush_stream(&mut ob) {
        Ok(remaining) => {
            let produced = ob.pos() - out_from;
            Ok((produced, remaining))
        }
        Err(code) => Err(code),
    }
}

/// Relies on `zstd_safe::CCtx::end_stream`: signals end-of-input and drains
/// the frame epilogue. Writes into `out[out_from..]` and reports
/// `(produced, remaining)`; `remaining == 0` means the frame is complete and
/// fully flushed, and then — the engine's documented lossless round trip —
/// the emitted bytes form one complete frame whose payload is exactly the
/// fed bytes: `zstd_decode(emitted) == Some(fed)`. The frame is
/// self-delimited, so no proper prefix of it is itself a complete frame.
#[verifier::external_body]
pub(crate) fn cctx_end(ctx: &mut CompressCtx, out: &mut Vec<u8>, out_from: usize) -> (r: Result<
    (usize, usize),
    usize,
>)
    requires
        out_from <= old(out)@.len(),
        !old(ctx).done(),
    ensures
        final(out)@.len() == old(out)@.len(),
        r matches Ok((produced, remaining)) ==> {
            &&& out_from + produced <= final(out)@.len()
            &&& forall|i: int| 0 <= i < out_from ==> final(out)@[i] == old(out)@[i]
            &&& forall|i: int|
                out_from + produced <= i < final(out)@.len() ==> final(out)@[i] == old(out)@[i]
            &&& final(ctx).fed() == old(ctx).fed()
            &&& final(ctx).emitted() == old(ctx).emitted() + final(out)@.subrange(
                out_from as int,
                out_from + produced,
            )
            &&& (final(ctx).done() <==> remaining == 0)
            &&& (remaining == 0 ==> zstd_decode(final(ctx).emitted()) == Some(final(ctx).fed()))
            &&& (remaining == 0 ==> forall|k: int|
                0 <= k < final(ctx).emitted().len() ==> zstd_decode(
                    #[trigger] final(ctx).emitted().take(k),
                ) is None)
        },
        r is Err ==> {
            &&& final(ctx).fed() == old(ctx).fed()
            &&& final(ctx).emitted() == old(ctx).emitted()
            &&& final(ctx).done()
        },
{
    let mut ob = zstd_safe::OutBuffer::around_pos(&mut out[..], out_from);
    match ctx.inner.end_stream(&mut ob) {
        Ok(remaining) => {
            let produced = ob.pos() - out_from;
            Ok((produced, remaining))
        }
        Err(code) => Err(code),
    }
}

/// Relies on `zstd_safe::DCtx::decompress_stream`: one decompression step.
/// It reads from `input[in_from..]`, writes engine-chosen bytes into
/// `out[out_from..]`, and reports `(consumed, produced, remaining)`. The
/// call never moves outside those ranges, never resizes `out`, never
/// consumes past the end of the current frame, and extends the history by
/// exactly the consumed and produced bytes. The engine may examine input
/// beyond what it reports consumed (it withholds the frame's last byte while
/// output is still being flushed and re-counts it later, unread); those
/// examined bytes are tracked as `pending`, always a prefix of the offer's
/// unconsumed tail, and each call must be offered them again first — hence
/// the `requires` below — so the reported history stays the true byte
/// stream. `remaining == 0` means the frame was just completely decoded, and
/// then — the engine's documented lossless round trip — the consumed bytes
/// form one complete frame whose payload is exactly the delivered bytes:
/// `zstd_decode(fed) == Some(delivered)`.
#[verifier::external_body]
pub(crate) fn dctx_process(
    ctx: &mut DecompressCtx,
    input: &[u8],
    in_from: usize,
    out: &mut Vec<u8>,
    out_from: usize,
) -> (r: Result<(usize, usize, usize), usize>)
    requires
        in_from <= input@.len(),
        out_from <= old(out)@.len(),
        !old(ctx).done(),
        in_from + old(ctx).pending().len() <= input@.len(),
        input@.skip(in_from as int).take(old(ctx).pending().len() as int) == old(ctx).pending(),
    ensures
        final(out)@.len() == old(out)@.len(),
        r matches Ok((consumed, produced, remaining)) ==> {
            &&& in_from + consumed <= input@.len()
            &&& out_from + produced <= final(out)@.len()
            &&& forall|i: int| 0 <= i < out_from ==> final(out)@[i] == old(out)@[i]
            &&& forall|i: int|
                out_from + produced <= i < final(out)@.len() ==> final(out)@[i] == old(out)@[i]
            &&& final(ctx).fed() == old(ctx).fed() + input@.subrange(
                in_from as int,
                in_from + consumed,
            )
            &&& final(ctx).delivered() == old(ctx).delivered() + final(out)@.subrange(
                out_from as int,
                out_from + produced,
            )
            &&& in_from + consumed + final(ctx).pending().len() <= input@.len()
            &&& input@.skip(in_from + consumed).take(final(ctx).pending().len() as int)
                == final(ctx).pending()
            &&& (final(ctx).done() <==> remaining == 0)
            &&& (remaining == 0 ==> zstd_decode(final(ctx).fed()) == Some(final(ctx).delivered()))
        },
        r is Err ==> {
            &&& final(ctx).fed() == old(ctx).fed()
            &&& final(ctx).delivered() == old(ctx).delivered()
            &&& final(ctx).done()
        },
{
    let mut ib = zstd_safe::InBuffer::around(&input[in_from..]);
    let mut ob = zstd_safe::OutBuffer::around_pos(&mut out[..], out_from);
    match ctx.inner.decompress_stream(&mut ob, &mut ib) {
        Ok(remaining) => {
            let produced = ob.pos() - out_from;
            Ok((ib.pos(), produced, remaining))
        }
        Err(code) => Err(code),
    }
}

/// Relies on `zstd_safe::get_error_name`: the engine's diagnostic text for
/// an error code, a fixed table lookup whose entries — the fallback for
/// unknown codes included — are all non-empty.
#[verifier::external_body]
pub(crate) fn error_name(code: usize) -> (r: String)
    ensures
        r@ == engine_diagnostic(code as int),
        r@.len() > 0,
{
    zstd_safe::get_error_name(code).to_string()
}

} // verus!
