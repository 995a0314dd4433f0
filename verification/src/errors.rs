use vstd::prelude::*;

verus! {

use vstd::string::StringExecFns;

/// Mathematical model of an encoding error: the same taxonomy as
/// `EncodeError`, with type names as character sequences.
pub enum ErrSpec {
    InvalidString,
    IntegerOverflow,
    IntegerRangeExceeded,
    NonStringKey,
    RecursionLimitReached,
    FallbackRecursionLimitReached,
    FallbackHookFailed(Seq<char>),
    TypeNotSerializable(Seq<char>),
    TimeMustNotHaveTimezone,
    UnsupportedTimezoneLibrary,
}

/// Why one encoding call failed. Every error is terminal for the call:
/// no partial output is returned. The variants that blame a specific host
/// type carry that type's name.
#[derive(Debug)]
pub enum EncodeError {
    /// A host string whose bytes could not be decoded.
    InvalidString,
    /// A host integer wider than 64 signed bits.
    IntegerOverflow,
    /// Strict mode only: an integer outside the exact-double range.
    IntegerRangeExceeded,
    /// A key of a key-value container that is not a string.
    NonStringKey,
    /// Container nesting went past the depth bound.
    RecursionLimitReached,
    /// The fallback hook was invoked more times than the bound allows.
    FallbackRecursionLimitReached,
    /// The fallback hook could not convert the named type.
    FallbackHookFailed(String),
    /// An unrecognized type with no fallback hook configured.
    TypeNotSerializable(String),
    /// A bare time value carried timezone information.
    TimeMustNotHaveTimezone,
    /// A date-time value carried a timezone representation that is not
    /// UTC or a fixed offset.
    UnsupportedTimezoneLibrary,
}

impl View for EncodeError {
    type V = ErrSpec;

    open spec fn view(&self) -> ErrSpec {
        match self {
            EncodeError::InvalidString => ErrSpec::InvalidString,
            EncodeError::IntegerOverflow => ErrSpec::IntegerOverflow,
            EncodeError::IntegerRangeExceeded => ErrSpec::IntegerRangeExceeded,
            EncodeError::NonStringKey => ErrSpec::NonStringKey,
            EncodeError::RecursionLimitReached => ErrSpec::RecursionLimitReached,
            EncodeError::FallbackRecursionLimitReached => ErrSpec::FallbackRecursionLimitReached,
            EncodeError::FallbackHookFailed(name) => ErrSpec::FallbackHookFailed(name@),
            EncodeError::TypeNotSerializable(name) => ErrSpec::TypeNotSerializable(name@),
            EncodeError::TimeMustNotHaveTimezone => ErrSpec::TimeMustNotHaveTimezone,
            EncodeError::UnsupportedTimezoneLibrary => ErrSpec::UnsupportedTimezoneLibrary,
        }
    }
}

/// The message text each error is surfaced with.
pub open spec fn err_text(e: ErrSpec) -> Seq<char> {
    match e {
        ErrSpec::InvalidString => "str is not valid UTF-8: surrogates not allowed"@,
        ErrSpec::IntegerOverflow => "Integer exceeds 64-bit range"@,
        ErrSpec::IntegerRangeExceeded => "Integer exceeds 53-bit range"@,
        ErrSpec::NonStringKey => "Dict key must be str"@,
        ErrSpec::RecursionLimitReached => "Recursion limit reached"@,
        ErrSpec::FallbackRecursionLimitReached => "default serializer exceeds recursion limit"@,
        ErrSpec::FallbackHookFailed(name) => "Type raised exception in default function: "@ + name,
        ErrSpec::TypeNotSerializable(name) => "Type is not JSON serializable: "@ + name,
        ErrSpec::TimeMustNotHaveTimezone => "datetime.time must not have tzinfo set"@,
        ErrSpec::UnsupportedTimezoneLibrary => "datetime's timezone library is not supported: use datetime.timezone.utc, pendulum, pytz, or dateutil"@,
    }
}

impl EncodeError {
    /// The caller-visible message for this error.
    pub fn message(&self) -> (r: String)
        ensures
            r@ == err_text(self@),
    {
        match self {
            EncodeError::InvalidString => String::from_str(
                "str is not valid UTF-8: surrogates not allowed",
            ),
            EncodeError::IntegerOverflow => String::from_str("Integer exceeds 64-bit range"),
            EncodeError::IntegerRangeExceeded => String::from_str("Integer exceeds 53-bit range"),
            EncodeError::NonStringKey => String::from_str("Dict key must be str"),
            EncodeError::RecursionLimitReached => String::from_str("Recursion limit reached"),
            EncodeError::FallbackRecursionLimitReached => String::from_str(
                "default serializer exceeds recursion limit",
            ),
            EncodeError::FallbackHookFailed(name) => String::from_str(
                "Type raised exception in default function: ",
            ).concat(name.as_str()),
            EncodeError::TypeNotSerializable(name) => String::from_str(
                "Type is not JSON serializable: ",
            ).concat(name.as_str()),
            EncodeError::TimeMustNotHaveTimezone => String::from_str(
                "datetime.time must not have tzinfo set",
            ),
            EncodeError::UnsupportedTimezoneLibrary => String::from_str(
                "datetime's timezone library is not supported: use datetime.timezone.utc, pendulum, pytz, or dateutil",
            ),
        }
    }
}

} // verus!
