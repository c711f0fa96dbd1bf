//! The ways a decode can fail. Every failure is an ordinary reported value:
//! the decoder never panics on malformed input.

use vstd::prelude::*;

verus! {

/// A failure of one decoding frame, propagated to the top-level call.
#[derive(Clone, Copy, Debug, PartialEq, Eq, Structural)]
pub enum DecodeError {
    /// Fewer than 8 bytes remain where a record header must start.
    MalformedHeader,
    /// A header's wire type tag byte is not in the recognized set.
    UnknownType,
    /// A complex record appeared before any type-template record of the
    /// same frame.
    NoTypeTemplate,
    /// A read needs more bytes than remain in the buffer.
    TruncatedInput,
    /// A 16-byte timestamp field does not hold text of the fixed layout
    /// `yymmddhhmmss.sss` naming a valid UTC calendar time.
    InvalidTimestamp,
    /// Nested records go deeper than the configured maximum recursion
    /// depth.
    DepthExceeded,
}

impl DecodeError {
    /// A short description of this failure, as a freshly allocated string.
    pub fn message(&self) -> String {
        match self {
            DecodeError::MalformedHeader => "truncated record header".to_owned(),
            DecodeError::UnknownType => "unrecognized wire type tag".to_owned(),
            DecodeError::NoTypeTemplate => "complex record before any type template".to_owned(),
            DecodeError::TruncatedInput => "payload truncated".to_owned(),
            DecodeError::InvalidTimestamp => "malformed timestamp text".to_owned(),
            DecodeError::DepthExceeded => "nesting deeper than the configured maximum".to_owned(),
        }
    }
}

} // verus!
