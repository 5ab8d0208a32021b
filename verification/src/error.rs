//! The one error type of the library.
use vstd::prelude::*;

verus! {

/// What can go wrong on a connection or in the server's tables.
#[derive(Debug, PartialEq, Eq)]
pub enum ProtoError {
    /// The payload of a received frame is not valid UTF-8.
    InvalidString,
    /// A payload to be sent holds the terminator byte and cannot be framed.
    TerminatorInPayload,
    /// Every slot of the connection table is taken.
    RegistryFull,
    /// No further connection can be numbered.
    GenerationsExhausted,
    /// The business logic failed; the text is its reason.
    Failed(String),
}

impl ProtoError {
    /// The description of the error as a sequence of characters.
    pub open spec fn text(&self) -> Seq<char> {
        match *self {
            ProtoError::InvalidString => "invalid string"@,
            ProtoError::TerminatorInPayload => "terminator in payload"@,
            ProtoError::RegistryFull => "connection table is full"@,
            ProtoError::GenerationsExhausted => "connection numbers are used up"@,
            ProtoError::Failed(reason) => reason@,
        }
    }

    /// A short description for diagnostics. For a failure of the business
    /// logic it is the reason itself.
    pub fn message(&self) -> (text: String)
        ensures
            text@ == self.text(),
    {
        match self {
            ProtoError::InvalidString => "invalid string".to_owned(),
            ProtoError::TerminatorInPayload => "terminator in payload".to_owned(),
            ProtoError::RegistryFull => "connection table is full".to_owned(),
            ProtoError::GenerationsExhausted => "connection numbers are used up".to_owned(),
            ProtoError::Failed(reason) => reason.clone(),
        }
    }
}

} // verus!
