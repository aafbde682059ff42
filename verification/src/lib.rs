//! Streaming adapters that bridge a block-oriented compression engine to a
//! byte-stream interface.
//!
//! The engine (zstd, reached through `zstd-safe`) consumes and produces data
//! one bounded step at a time; the adapters in [`zio`] turn that into the
//! ordinary stream contract of `read`-like and `write`-like calls, with the
//! [`stream`] facades adding construction, parameter validation and the
//! explicit `finish` that closes a compressed frame.

use vstd::prelude::*;

pub mod bytes;
pub mod engine;
pub mod error;
pub mod stream;
pub mod zio;

pub use error::Error;
pub use stream::{copy_decode, copy_encode, decode_all, encode_all, Decoder, Encoder};

verus! {

/// The compression level the engine uses when asked for level 0.
pub const DEFAULT_COMPRESSION_LEVEL: i32 = 3;

/// Compares two byte slices for equality, element by element.
pub fn bytes_eq(a: &[u8], b: &[u8]) -> (r: bool)
    ensures
        r <==> a@ == b@,
{
    if a.len() != b.len() {
        proof {
            assert(a@.len() != b@.len());
        }
        return false;
    }
    let mut i: usize = 0;
    while i < a.len()
        invariant
            0 <= i <= a@.len(),
            a@.len() == b@.len(),
            forall|j: int| 0 <= j < i ==> a@[j] == b@[j],
        decreases a@.len() - i,
    {
        if a[i] != b[i] {
            return false;
        }
        i += 1;
    }
    proof {
        assert(a@ =~= b@);
    }
    true
}

/// Runs one full cycle: applies `f` to `data`, applies `g` to `f`'s output,
/// and reports whether the cycle reproduced `data` byte for byte — the shape
/// of every round-trip check over an encode function and a decode function.
pub fn test_cycle<F: Fn(&[u8]) -> Vec<u8>, G: Fn(&[u8]) -> Vec<u8>>(data: &[u8], f: F, g: G) -> (ok:
    bool)
    requires
        call_requires(f, (data,)),
        forall|mid: Vec<u8>, s: &[u8]|
            call_ensures(f, (data,), mid) && s@ == mid@ ==> call_requires(g, (s,)),
    ensures
        exists|mid: Vec<u8>, s: &[u8], end: Vec<u8>|
            call_ensures(f, (data,), mid) && s@ == mid@ && call_ensures(g, (s,), end) && (ok
                <==> end@ == data@),
{
    let mid = f(data);
    let s = mid.as_slice();
    let end = g(s);
    let ok = bytes_eq(end.as_slice(), data);
    proof {
        assert(call_ensures(f, (data,), mid) && s@ == mid@ && call_ensures(g, (s,), end) && (ok
            <==> end@ == data@));
    }
    ok
}

/// [`test_cycle`] for fallible encode and decode functions: the first error
/// either side reports is returned instead of a verdict.
pub fn test_cycle_unwrap<
    F: Fn(&[u8]) -> Result<Vec<u8>, Error>,
    G: Fn(&[u8]) -> Result<Vec<u8>, Error>,
>(data: &[u8], f: F, g: G) -> (r: Result<bool, Error>)
    requires
        call_requires(f, (data,)),
        forall|mid: Vec<u8>, s: &[u8]|
            call_ensures(f, (data,), Ok(mid)) && s@ == mid@ ==> call_requires(g, (s,)),
    ensures
        r matches Ok(ok) ==> exists|mid: Vec<u8>, s: &[u8], end: Vec<u8>|
            call_ensures(f, (data,), Ok(mid)) && s@ == mid@ && call_ensures(g, (s,), Ok(end)) && (
            ok <==> end@ == data@),
        r matches Err(e) ==> call_ensures(f, (data,), Err::<Vec<u8>, Error>(e)) || exists|
            mid: Vec<u8>,
            s: &[u8],
        |
            call_ensures(f, (data,), Ok(mid)) && s@ == mid@ && call_ensures(
                g,
                (s,),
                Err::<Vec<u8>, Error>(e),
            ),
{
    let mid = match f(data) {
        Ok(v) => v,
        Err(e) => {
            return Err(e);
        },
    };
    let s = mid.as_slice();
    let end = match g(s) {
        Ok(v) => v,
        Err(e) => {
            proof {
                assert(call_ensures(f, (data,), Ok(mid)) && s@ == mid@);
            }
            return Err(e);
        },
    };
    let ok = bytes_eq(end.as_slice(), data);
    proof {
        assert(call_ensures(f, (data,), Ok(mid)) && s@ == mid@ && call_ensures(g, (s,), Ok(end))
            && (ok <==> end@ == data@));
    }
    Ok(ok)
}

} // verus!

