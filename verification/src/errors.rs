use vstd::prelude::*;

verus! {

/// Malformed textual encoding of a body, a metadata record or a command
/// envelope. Surfaced to the caller of the parse operation; never affects the
/// simulation state.
#[derive(Clone, PartialEq, Eq, Debug)]
pub enum ParseError {
    /// The text does not begin with `{` and end with `}`.
    MissingBraces,
    /// A key/value pair has no `:` separator.
    MissingColon,
    /// A key is not wrapped in double quotes.
    UnquotedKey,
    /// A value is empty or holds a byte that can never occur in a number.
    BadNumber,
    /// A key that does not exist on type `Body`; carries the offending key.
    UnknownBodyKey(Vec<u8>),
    /// A key that does not exist on type `SimMetaData`; carries the key.
    UnknownMetaKey(Vec<u8>),
    /// An `event_type` other than `Add`, `Remove`, `Update` or `Meta`;
    /// carries the name that was found.
    BadEventType(Vec<u8>),
    /// A `Remove`/`Update` envelope whose target index is not a decimal
    /// number that fits the platform's word size.
    BadIndex,
    /// A command envelope without the expected `body`/`metadata` field.
    MissingField,
}

/// Spec-level image of a [`ParseError`], with sequences for the carried keys.
pub enum ParseErrorV {
    MissingBraces,
    MissingColon,
    UnquotedKey,
    BadNumber,
    UnknownBodyKey(Seq<u8>),
    UnknownMetaKey(Seq<u8>),
    BadEventType(Seq<u8>),
    BadIndex,
    MissingField,
}

impl View for ParseError {
    type V = ParseErrorV;

    open spec fn view(&self) -> ParseErrorV {
        match self {
            ParseError::MissingBraces => ParseErrorV::MissingBraces,
            ParseError::MissingColon => ParseErrorV::MissingColon,
            ParseError::UnquotedKey => ParseErrorV::UnquotedKey,
            ParseError::BadNumber => ParseErrorV::BadNumber,
            ParseError::UnknownBodyKey(k) => ParseErrorV::UnknownBodyKey(k@),
            ParseError::UnknownMetaKey(k) => ParseErrorV::UnknownMetaKey(k@),
            ParseError::BadEventType(k) => ParseErrorV::BadEventType(k@),
            ParseError::BadIndex => ParseErrorV::BadIndex,
            ParseError::MissingField => ParseErrorV::MissingField,
        }
    }
}

/// A mutation command that violates the protocol contract: `Add`/`Update`
/// without a body payload. Fatal to that one command, never to the owner
/// loop.
#[derive(Clone, Copy, PartialEq, Eq, Structural, Debug)]
pub enum ProtocolError {
    MissingPayload,
}

/// A worker pool cannot be built: its requested size is zero.
#[derive(Clone, Copy, PartialEq, Eq, Structural, Debug)]
pub enum ConfigurationError {
    ZeroWorkers,
}

} // verus!
