//! Why a header line was rejected.

use vstd::prelude::*;

verus! {

/// The ways in which parsing a header group fails. Each one aborts the whole group.
#[derive(Clone, Copy, Debug, PartialEq, Eq, Structural)]
pub enum SipParseError {
    /// No token characters before the separator, or the colon is missing.
    Name,
    /// The value grammar chosen by the header name rejected its input.
    ValueGrammar,
    /// After a value, the next byte is none of comma, semicolon, space or line end,
    /// or the input has run out.
    Terminator,
    /// The input ran out after a value instead of reaching the line end.
    EmptyInput,
    /// A `;`-introduced parameter list is malformed.
    ParameterGrammar,
    /// The bytes of a value are not valid UTF-8.
    Decode,
}

} // verus!
