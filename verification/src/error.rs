//! The failures of an encode or decode call.
use vstd::prelude::*;
use binary_rw::BinaryError;
use crate::stream::binary_error_text;

verus! {

/// The three kinds of failure. No two of them overlap.
#[derive(Clone, Copy, Debug, PartialEq, Eq, Structural)]
pub enum ErrorKind {
    /// The bytes or the value do not fit the expected shape.
    Message,
    /// A length does not fit the four bytes of a length prefix.
    TooManyItems,
    /// The byte stream failed.
    Binary,
}

/// Why an encode or decode call failed.
#[derive(Debug)]
pub enum Error {
    /// A failure of shape or format, described in words.
    Message(String),
    /// A sequence, map, string or byte sequence has 2^32 items or more.
    TooManyItems,
    /// A failure of the byte stream, as the stream reported it.
    Binary(BinaryError),
}

impl Error {
    /// The kind of this failure.
    pub open spec fn spec_kind(&self) -> ErrorKind {
        match self {
            Error::Message(_) => ErrorKind::Message,
            Error::TooManyItems => ErrorKind::TooManyItems,
            Error::Binary(_) => ErrorKind::Binary,
        }
    }

    /// The failure in words: the description that a format failure
    /// carries, a fixed sentence for the length limit, and the stream's own
    /// words for a failure of the stream.
    pub fn to_string(&self) -> (text: String)
        ensures
            self matches Error::Message(description) ==> text@ == description@,
            self is TooManyItems ==> text@ == "sequence has too many items, limit is 2^32"@,
    {
        match self {
            Error::Message(description) => description.clone(),
            Error::TooManyItems => "sequence has too many items, limit is 2^32".to_owned(),
            Error::Binary(error) => binary_error_text(error),
        }
    }

    /// The kind of this failure.
    #[verifier::when_used_as_spec(spec_kind)]
    pub fn kind(&self) -> (kind: ErrorKind)
        ensures
            kind == self.spec_kind(),
    {
        match self {
            Error::Message(_) => ErrorKind::Message,
            Error::TooManyItems => ErrorKind::TooManyItems,
            Error::Binary(_) => ErrorKind::Binary,
        }
    }
}

} // verus!
