//! What can go wrong while encoding or decoding a value.
use vstd::prelude::*;

verus! {

/// An encoding or decoding failure.
#[derive(Debug, Clone, Copy, PartialEq, Eq, Structural)]
pub enum Error {
    /// The value has no representation in this format (a boolean, a
    /// character, an optional value, a map, a byte blob, a unit).
    Unsupported,
    /// Fewer bytes were left than the format requires.
    ShortRead,
    /// A tagged union began with an identifier that no variant carries.
    UnknownDiscriminator(u32),
    /// A length does not fit in its header: a string over three bytes of
    /// length, or a sequence over four.
    TooLong,
    /// The bytes of a string are not valid UTF-8.
    InvalidUtf8,
}

impl Error {
    /// A short description of the failure.
    pub fn message(&self) -> (r: String)
        ensures
            r@ == match self {
                Error::Unsupported => "value not supported by this format"@,
                Error::ShortRead => "unexpected end of input"@,
                Error::UnknownDiscriminator(_) => "unknown constructor identifier"@,
                Error::TooLong => "length does not fit in its header"@,
                Error::InvalidUtf8 => "string is not valid UTF-8"@,
            },
    {
        match self {
            Error::Unsupported => String::from_str("value not supported by this format"),
            Error::ShortRead => String::from_str("unexpected end of input"),
            Error::UnknownDiscriminator(_) => String::from_str("unknown constructor identifier"),
            Error::TooLong => String::from_str("length does not fit in its header"),
            Error::InvalidUtf8 => String::from_str("string is not valid UTF-8"),
        }
    }
}

} // verus!
