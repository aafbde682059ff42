//! The streaming adapters around the engine: [`writer::Writer`] pushes bytes
//! through a compression context into a [`crate::bytes::ByteSink`], and
//! [`reader::Reader`] pulls bytes out of a decompression context fed from a
//! [`crate::bytes::ByteSource`].

use vstd::prelude::*;

pub mod reader;
pub mod writer;

verus! {

/// Where a stream stands in its life.
#[derive(Clone, Copy, Debug, PartialEq, Eq, Structural)]
pub enum StreamState {
    /// Accepting work.
    Active,
    /// `finish` completed: the frame is closed, no further writes.
    Finished,
    /// A fault was reported: the adapter refuses further use.
    Errored,
}

/// `longer` is `shorter` with zero or more bytes appended.
pub open spec fn extends(longer: Seq<u8>, shorter: Seq<u8>) -> bool {
    shorter.len() <= longer.len() && longer.take(shorter.len() as int) == shorter
}

/// Appending never disturbs what was already there.
pub proof fn lemma_extends_append(base: Seq<u8>, tail: Seq<u8>)
    ensures
        extends(base + tail, base),
{
    assert((base + tail).take(base.len() as int) =~= base);
}

/// Extension is transitive.
pub proof fn lemma_extends_trans(a: Seq<u8>, b: Seq<u8>, c: Seq<u8>)
    requires
        extends(a, b),
        extends(b, c),
    ensures
        extends(a, c),
{
    assert(a.take(c.len() as int) =~= b.take(c.len() as int));
}

/// Every sequence extends itself.
pub proof fn lemma_extends_refl(a: Seq<u8>)
    ensures
        extends(a, a),
{
    assert(a.take(a.len() as int) =~= a);
}

/// A byte buffer of the given length, zero-filled.
pub(crate) fn zeroed(n: usize) -> (r: Vec<u8>)
    ensures
        r@.len() == n,
{
    let mut v: Vec<u8> = Vec::new();
    let mut i: usize = 0;
    while i < n
        invariant
            v@.len() == i,
            0 <= i <= n,
        decreases n - i,
    {
        v.push(0);
        i += 1;
    }
    v
}

/// How many bytes the staging buffer between the engine and the byte stream
/// holds.
pub const STAGING_CAPACITY: usize = 4096;

/// How many engine calls a single drain loop may take before the adapter
/// gives up and reports [`crate::Error::Stalled`]; a bound so the loops
/// provably terminate, far beyond what any frame can need.
pub const ENGINE_ROUND_LIMIT: usize = 67108864;

} // verus!
