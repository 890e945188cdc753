//! The ways in which a request can be refused.

use vstd::prelude::*;

verus! {

/// A constraint of a generation request that the caller did not meet.
#[derive(Clone, Copy, Debug, PartialEq, Eq, Structural)]
pub enum ConfigurationError {
    /// No character class is enabled, so there is nothing to draw from.
    EmptyAlphabet,
    /// A password of zero characters was asked for.
    InvalidLength,
    /// A passphrase of zero words was asked for.
    InvalidWordCount,
    /// A batch of zero secrets was asked for.
    InvalidCount,
}

impl ConfigurationError {
    /// The sentence that `message` returns for each variant.
    pub open spec fn message_text(self) -> Seq<char> {
        match self {
            ConfigurationError::EmptyAlphabet => "at least one character class must be enabled"@,
            ConfigurationError::InvalidLength => "the password length must be at least 1"@,
            ConfigurationError::InvalidWordCount => "the number of words must be at least 1"@,
            ConfigurationError::InvalidCount => "the number of secrets must be at least 1"@,
        }
    }

    /// Names the violated constraint in words fit for the person who made the request.
    pub fn message(&self) -> (text: String)
        ensures
            text@ == self.message_text(),
    {
        match self {
            ConfigurationError::EmptyAlphabet => String::from_str(
                "at least one character class must be enabled",
            ),
            ConfigurationError::InvalidLength => String::from_str(
                "the password length must be at least 1",
            ),
            ConfigurationError::InvalidWordCount => String::from_str(
                "the number of words must be at least 1",
            ),
            ConfigurationError::InvalidCount => String::from_str(
                "the number of secrets must be at least 1",
            ),
        }
    }
}

} // verus!
