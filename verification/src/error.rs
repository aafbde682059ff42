//! The error type shared by every adapter and facade of this crate.

use vstd::prelude::*;

verus! {

/// What can go wrong while compressing or decompressing a stream.
///
/// The first error reported on a stream is terminal for that stream: the
/// adapter that produced it refuses further use with [`Error::Misuse`].
#[derive(Clone, Copy, Debug, PartialEq, Eq, Structural)]
pub enum Error {
    /// A construction parameter was outside the range the engine accepts.
    Config,
    /// The engine could not allocate a context.
    Alloc,
    /// The engine reported a fault mid-stream (corrupt data, checksum
    /// mismatch, ...), with the engine's own error code.
    Engine(usize),
    /// The compressed input ended in the middle of a frame.
    Truncated,
    /// The underlying sink accepted a write but consumed no bytes, or the
    /// engine stopped making progress.
    Stalled,
    /// The underlying source or sink failed, with a caller-chosen code.
    Io(u64),
    /// A call that the stream's state forbids: writing after `finish`,
    /// calling `finish` twice, or reusing an adapter after an error.
    Misuse,
}

impl Error {
    /// A readable description of the error, never empty; for engine faults,
    /// the engine's own diagnostic text for the carried code.
    pub fn message(&self) -> (r: String)
        ensures
            r@.len() > 0,
            self matches Error::Engine(code) ==> r@ == crate::engine::engine_diagnostic(
                code as int,
            ),
    {
        broadcast use vstd::string::group_string_axioms;

        match self {
            Error::Config => {
                proof {
                    reveal_strlit("parameter outside the engine's accepted range");
                }
                "parameter outside the engine's accepted range".to_string()
            },
            Error::Alloc => {
                proof {
                    reveal_strlit("engine context allocation failed");
                }
                "engine context allocation failed".to_string()
            },
            Error::Engine(code) => crate::engine::error_name(*code),
            Error::Truncated => {
                proof {
                    reveal_strlit("compressed stream ended mid-frame");
                }
                "compressed stream ended mid-frame".to_string()
            },
            Error::Stalled => {
                proof {
                    reveal_strlit("stream stopped making progress");
                }
                "stream stopped making progress".to_string()
            },
            Error::Io(_) => {
                proof {
                    reveal_strlit("underlying stream failure");
                }
                "underlying stream failure".to_string()
            },
            Error::Misuse => {
                proof {
                    reveal_strlit("call not permitted in this stream state");
                }
                "call not permitted in this stream state".to_string()
            },
        }
    }
}

} // verus!
