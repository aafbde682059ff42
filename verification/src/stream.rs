//! The public stream interface: the [`Encoder`](write::Encoder) and
//! [`Decoder`](read::Decoder) facades over the adapters, and the one-shot
//! helpers that drive a whole buffer through them.

use vstd::prelude::*;

pub mod functions;
pub mod read;
pub mod write;

pub use functions::{copy_decode, copy_encode, decode_all, encode_all};
pub use read::Decoder;
pub use write::Encoder;

verus! {

/// The lowest compression level the engine accepts: its fastest mode.
pub const MIN_COMPRESSION_LEVEL: i32 = -131072;

/// The largest compression level the engine accepts.
pub const MAX_COMPRESSION_LEVEL: i32 = 22;

/// The levels a new [`Encoder`](write::Encoder) accepts: the engine's
/// accepted range, with 0 standing for its default level and negative
/// levels selecting its fast modes.
pub open spec fn valid_level(level: int) -> bool {
    MIN_COMPRESSION_LEVEL <= level <= MAX_COMPRESSION_LEVEL
}

/// The smallest window-size power a [`Decoder`](read::Decoder) limit may
/// name.
pub const MIN_WINDOW_LOG_MAX: u32 = 10;

/// The largest window-size power a [`Decoder`](read::Decoder) limit may
/// name.
pub const MAX_WINDOW_LOG_MAX: u32 = 31;

/// The window-size limits a [`Decoder`](read::Decoder) accepts: the engine's
/// documented powers of two, with 0 standing for its default limit.
pub open spec fn valid_window_log_max(log: int) -> bool {
    log == 0 || MIN_WINDOW_LOG_MAX <= log <= MAX_WINDOW_LOG_MAX
}

} // verus!
