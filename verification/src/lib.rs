//! A JSON encoder for a dynamically-typed, host-managed value graph: a
//! recursive classify-and-serialize engine. Each value is assigned one
//! semantic kind, leaf kinds are rendered by dedicated formatters, and
//! containers are walked depth-first under a bounded nesting depth, with
//! an optional user-supplied fallback converter for unrecognized kinds,
//! itself bounded by an invocation count. The encoder produces one
//! complete minified JSON text per call, or the first error it meets.

pub mod encode;
pub mod errors;
pub mod ident;
pub mod kinds;
pub mod temporal;
pub mod text;
pub mod value;

pub use encode::serialize;
pub use encode::Fallback;
pub use encode::NoFallback;
pub use errors::EncodeError;
pub use errors::ErrSpec;
pub use kinds::classify;
pub use kinds::SemanticKind;
pub use value::Date;
pub use value::DateTime;
pub use value::Time;
pub use value::Value;
pub use value::Zone;

use vstd::prelude::*;

verus! {

/// Configuration bit: restrict integers to the range exactly representable
/// by an IEEE-754 double, `[-(2^53)+1, (2^53)-1]`.
pub const STRICT_INTEGER: u8 = 1;

/// Configuration bit: enable detection of structured-record values.
pub const SERIALIZE_DATACLASS: u8 = 16;

/// Configuration bit: enable detection of 128-bit identifier values.
pub const SERIALIZE_UUID: u8 = 32;

/// Largest integer a double can represent exactly.
pub const STRICT_INT_MAX: i64 = 9007199254740991;

/// Smallest integer a double can represent exactly.
pub const STRICT_INT_MIN: i64 = -9007199254740991;

/// True when `i` lies in the exact-double-representable integer range.
pub open spec fn strict_int_in_range(i: int) -> bool {
    STRICT_INT_MIN <= i <= STRICT_INT_MAX
}

/// True when the configuration bit `flag` is set in `opts`.
pub open spec fn opt_set(opts: u8, flag: u8) -> bool {
    opts & flag == flag
}

/// Tests a configuration bit.
pub fn opt_enabled(opts: u8, flag: u8) -> (r: bool)
    ensures
        r == opt_set(opts, flag),
{
    opts & flag == flag
}

} // verus!
