//! What can go wrong, and how it is worded.

use vstd::prelude::*;

verus! {

/// The argument that was refused.
#[derive(Debug, Clone, Copy, PartialEq, Eq)]
pub enum Input {
    /// The seed is empty or longer than twenty bytes.
    Seed,
    /// The hash is not thirty-two bytes long.
    Hash,
}

/// Failure of an operation of this crate.
#[derive(Debug, PartialEq, Eq)]
pub enum WorkError {
    /// An argument has a length that is not allowed.
    InvalidInput(Input),
    /// The hash function refused what it was given; the text is its own.
    HashingFailure(String),
}

impl WorkError {
    /// The wording of each failure.
    pub open spec fn text(self) -> Seq<char> {
        match self {
            WorkError::InvalidInput(Input::Seed) => "seed should be between 1 and 20 bytes"@,
            WorkError::InvalidInput(Input::Hash) => "hash must be 32 bytes"@,
            WorkError::HashingFailure(text) => text@,
        }
    }

    /// A message for the user.
    pub fn message(&self) -> (text: String)
        ensures
            text@ == self.text(),
    {
        match self {
            WorkError::InvalidInput(Input::Seed) => "seed should be between 1 and 20 bytes".to_owned(),
            WorkError::InvalidInput(Input::Hash) => "hash must be 32 bytes".to_owned(),
            WorkError::HashingFailure(text) => text.clone(),
        }
    }
}

} // verus!
