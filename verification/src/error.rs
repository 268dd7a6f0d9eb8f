use vstd::prelude::*;

verus! {

/// Why a run of digits could not be read as an integer
/// (the same cases as `std::num::IntErrorKind` for the inputs this library reads).
#[derive(Debug, Clone, Copy, PartialEq, Eq, Structural)]
pub enum IntErrorKind {
    /// Nothing to read.
    Empty,
    /// A character that is not a digit of the radix, or a lone sign.
    InvalidDigit,
    /// The value is larger than the type can hold.
    PosOverflow,
    /// The value is smaller than the type can hold.
    NegOverflow,
}

/// Errors of the log-line parsers.
#[derive(Debug, Clone, PartialEq, Eq, Structural)]
pub enum ParsingError {
    /// An empty identifier.
    ParseUserIdError,
    /// A run of digits that is not a valid integer.
    ParseIntError(IntErrorKind),
    /// The integer read was zero.
    ParseNonZeroIntError,
    /// The input could not be cut at the requested place.
    SplitStringError,
    /// The text does not start with a quote or the quote is never closed.
    ParseQuotedString,
    /// The expected fixed text is missing.
    ParseTagError,
    /// A malformed `[item, ...]` list.
    ParseListError,
    /// The line was read but input was left over.
    TrailingInput,
    /// The authorized capital is below the allowed minimum.
    CapitalTooLow,
    /// The liquidity is below the allowed minimum.
    LiquidityTooLow,
}

/// Errors of the log reader.
#[derive(Debug, Clone, PartialEq, Eq, Structural)]
pub enum Error {
    /// The requested read mode is not known.
    UnknownReadMode,
    /// A line could not be parsed.
    Parsing(ParsingError),
}

impl From<ParsingError> for Error {
    fn from(value: ParsingError) -> (r: Error) {
        Error::Parsing(value)
    }
}

impl vstd::std_specs::convert::FromSpecImpl<ParsingError> for Error {
    open spec fn obeys_from_spec() -> bool {
        true
    }

    open spec fn from_spec(v: ParsingError) -> Error {
        Error::Parsing(v)
    }
}

} // verus!
