//! Whole requests: validation, and the generation of a batch of secrets from
//! one random source.

use crate::alphabet::{alphabet_of, build_alphabet, CharClasses};
use crate::error::ConfigurationError;
use crate::passphrase::{generate_passphrase, is_passphrase_over};
use crate::password::{generate_password, is_password_over};
use crate::words::{builtin_words, WordList};
use rand::rngs::StdRng;
use vstd::prelude::*;

verus! {

/// The kind of secret to generate.
#[derive(Clone, Copy, Debug, PartialEq, Eq, Structural)]
pub enum Mode {
    /// Characters drawn from an alphabet.
    Password,
    /// Words drawn from the built-in vocabulary, with a space between each two.
    Passphrase,
}

/// One generation run. Only the fields of the chosen mode are read.
#[derive(Clone, Copy, Debug, PartialEq, Eq, Structural)]
pub struct GenerationRequest {
    pub mode: Mode,
    /// Characters per password.
    pub length: usize,
    pub include_lowercase: bool,
    pub include_uppercase: bool,
    pub include_digits: bool,
    pub include_symbols: bool,
    /// Words per passphrase.
    pub word_count: usize,
    /// How many secrets to generate.
    pub count: usize,
}

impl GenerationRequest {
    /// The character classes that the request enables.
    pub open spec fn classes(self) -> CharClasses {
        CharClasses {
            digits: self.include_digits,
            lowercase: self.include_lowercase,
            uppercase: self.include_uppercase,
            symbols: self.include_symbols,
        }
    }

    /// The first constraint that the request breaks, if it breaks any. The
    /// constraints of the mode come first, in the order in which the
    /// generator of that mode checks them, and the count comes last.
    pub open spec fn violation(self) -> Option<ConfigurationError> {
        match self.mode {
            Mode::Password => {
                if !self.classes().any() {
                    Some(ConfigurationError::EmptyAlphabet)
                } else if self.length == 0 {
                    Some(ConfigurationError::InvalidLength)
                } else if self.count == 0 {
                    Some(ConfigurationError::InvalidCount)
                } else {
                    None
                }
            },
            Mode::Passphrase => {
                if self.word_count == 0 {
                    Some(ConfigurationError::InvalidWordCount)
                } else if self.count == 0 {
                    Some(ConfigurationError::InvalidCount)
                } else {
                    None
                }
            },
        }
    }

    /// Whether `secret` is one that the request asks for.
    pub open spec fn admits(self, secret: Seq<char>) -> bool {
        match self.mode {
            Mode::Password => is_password_over(
                secret,
                alphabet_of(self.classes()),
                self.length as nat,
            ),
            Mode::Passphrase => is_passphrase_over(
                secret,
                builtin_words(),
                self.word_count as nat,
                " "@,
            ),
        }
    }

    /// The character classes that the request enables.
    pub fn char_classes(&self) -> (flags: CharClasses)
        ensures
            flags == self.classes(),
    {
        CharClasses {
            digits: self.include_digits,
            lowercase: self.include_lowercase,
            uppercase: self.include_uppercase,
            symbols: self.include_symbols,
        }
    }

    /// Checks every constraint of the request, and names the first one broken.
    pub fn validate(&self) -> (r: Result<(), ConfigurationError>)
        ensures
            r == match self.violation() {
                Some(e) => Err::<(), ConfigurationError>(e),
                None => Ok::<(), ConfigurationError>(()),
            },
    {
        match self.mode {
            Mode::Password => {
                if !(self.include_digits || self.include_lowercase || self.include_uppercase
                    || self.include_symbols) {
                    return Err(ConfigurationError::EmptyAlphabet);
                }
                if self.length == 0 {
                    return Err(ConfigurationError::InvalidLength);
                }
            },
            Mode::Passphrase => {
                if self.word_count == 0 {
                    return Err(ConfigurationError::InvalidWordCount);
                }
            },
        }
        if self.count == 0 {
            return Err(ConfigurationError::InvalidCount);
        }
        Ok(())
    }
}

/// Generates the `request.count` secrets of `request`, in generation order,
/// all from the one stream of `rng`.
///
/// A request that breaks a constraint is refused as a whole, before anything
/// is drawn.
pub fn generate_batch(request: &GenerationRequest, rng: &mut StdRng) -> (r: Result<
    Vec<String>,
    ConfigurationError,
>)
    ensures
        request.violation() matches Some(e) ==> r == Err::<Vec<String>, ConfigurationError>(e)
            && *final(rng) == *old(rng),
        request.violation() is None ==> r is Ok,
        r matches Ok(batch) ==> {
            &&& batch@.len() == request.count
            &&& forall|i: int| 0 <= i < batch@.len() ==> request.admits(#[trigger] batch@[i]@)
        },
{
    request.validate()?;
    let mut batch: Vec<String> = Vec::new();
    match request.mode {
        Mode::Password => {
            let alphabet = build_alphabet(request.char_classes())?;
            while batch.len() < request.count
                invariant
                    request.mode == Mode::Password,
                    request.length > 0,
                    alphabet@ == alphabet_of(request.classes()),
                    alphabet@.len() > 0,
                    batch@.len() <= request.count,
                    forall|i: int| 0 <= i < batch@.len() ==> request.admits(#[trigger] batch@[i]@),
                decreases request.count - batch@.len(),
            {
                let secret = generate_password(&alphabet, request.length, rng)?;
                batch.push(secret);
            }
        },
        Mode::Passphrase => {
            let list = WordList::builtin();
            while batch.len() < request.count
                invariant
                    request.mode == Mode::Passphrase,
                    request.word_count > 0,
                    list@ == builtin_words(),
                    batch@.len() <= request.count,
                    forall|i: int| 0 <= i < batch@.len() ==> request.admits(#[trigger] batch@[i]@),
                decreases request.count - batch@.len(),
            {
                let secret = generate_passphrase(&list, request.word_count, " ", rng)?;
                batch.push(secret);
            }
        },
    }
    Ok(batch)
}

} // verus!
