//! Passwords: independent draws from an alphabet, spelled out in draw order.

use crate::alphabet::{alphabet_of, build_alphabet, Alphabet, CharClasses};
use crate::error::ConfigurationError;
use crate::random::{draw_picks, picks_in_range};
use rand::rngs::StdRng;
use vstd::prelude::*;

verus! {

/// `String::push` appends the character to the end of the string.
pub assume_specification[ String::push ](s: &mut String, ch: char)
    ensures
        final(s)@ == old(s)@.push(ch),
;

/// The password that a sequence of picks spells over `alphabet`: the
/// character under each pick, in the order of the picks.
pub open spec fn password_of(alphabet: Seq<char>, picks: Seq<usize>) -> Seq<char> {
    Seq::new(picks.len(), |i: int| alphabet[picks[i] as int])
}

/// Whether `secret` is `length` characters long and made of characters of
/// `alphabet` only.
pub open spec fn is_password_over(secret: Seq<char>, alphabet: Seq<char>, length: nat) -> bool {
    &&& secret.len() == length
    &&& forall|i: int| 0 <= i < secret.len() ==> alphabet.contains(#[trigger] secret[i])
}

/// Every in-range sequence of picks spells a password over the alphabet, as
/// long as the sequence of picks.
pub proof fn lemma_password_of_is_over(alphabet: Seq<char>, picks: Seq<usize>)
    requires
        picks_in_range(picks, alphabet.len()),
    ensures
        is_password_over(password_of(alphabet, picks), alphabet, picks.len()),
{
    let secret = password_of(alphabet, picks);
    assert forall|i: int| 0 <= i < secret.len() implies alphabet.contains(#[trigger] secret[i]) by {
        assert(alphabet[picks[i] as int] == secret[i]);
    }
}

/// Spells the password that `picks` selects from `alphabet`.
///
/// This is the whole of generation but for the drawing: the same alphabet
/// and the same picks always give the same password.
pub fn password_from_picks(alphabet: &Alphabet, picks: &Vec<usize>) -> (secret: String)
    requires
        picks_in_range(picks@, alphabet@.len()),
    ensures
        secret@ == password_of(alphabet@, picks@),
{
    let mut secret = String::new();
    let mut i: usize = 0;
    while i < picks.len()
        invariant
            i <= picks@.len(),
            picks_in_range(picks@, alphabet@.len()),
            secret@ == password_of(alphabet@, picks@.take(i as int)),
        decreases picks@.len() - i,
    {
        secret.push(alphabet.chars[picks[i]]);
        i += 1;
        assert(secret@ == password_of(alphabet@, picks@.take(i as int)));
    }
    assert(picks@.take(i as int) == picks@);
    secret
}

/// Generates a password of `length` characters, each drawn independently
/// from `alphabet` with `rng`.
///
/// Repeats are allowed, and no class is guaranteed to appear. An empty
/// alphabet or a zero length is refused before anything is drawn.
pub fn generate_password(alphabet: &Alphabet, length: usize, rng: &mut StdRng) -> (r: Result<
    String,
    ConfigurationError,
>)
    ensures
        alphabet@.len() == 0 ==> r == Err::<String, ConfigurationError>(
            ConfigurationError::EmptyAlphabet,
        ),
        alphabet@.len() > 0 && length == 0 ==> r == Err::<String, ConfigurationError>(
            ConfigurationError::InvalidLength,
        ),
        alphabet@.len() > 0 && length > 0 ==> r is Ok,
        r matches Ok(secret) ==> is_password_over(secret@, alphabet@, length as nat),
        r is Err ==> *final(rng) == *old(rng),
{
    if alphabet.len() == 0 {
        return Err(ConfigurationError::EmptyAlphabet);
    }
    if length == 0 {
        return Err(ConfigurationError::InvalidLength);
    }
    let picks = draw_picks(rng, alphabet.len(), length);
    proof {
        lemma_password_of_is_over(alphabet@, picks@);
    }
    Ok(password_from_picks(alphabet, &picks))
}

/// What to put into one password, and where the caller means to keep it.
#[derive(Debug)]
pub struct PassConfig {
    /// The number of characters.
    pub length: usize,
    /// Whether digits may appear.
    pub has_nums: bool,
    /// Whether symbols may appear.
    pub has_symbols: bool,
    /// Whether lowercase letters may appear.
    pub has_lowercase: bool,
    /// Whether uppercase letters may appear.
    pub has_uppercase: bool,
    /// The file the caller wants the result saved to, if any. Generation
    /// does not read it.
    pub filename: Option<String>,
}

impl PassConfig {
    /// The character classes that the configuration enables.
    pub open spec fn classes(self) -> CharClasses {
        CharClasses {
            digits: self.has_nums,
            lowercase: self.has_lowercase,
            uppercase: self.has_uppercase,
            symbols: self.has_symbols,
        }
    }

    /// The character classes that the configuration enables.
    pub fn char_classes(&self) -> (flags: CharClasses)
        ensures
            flags == self.classes(),
    {
        CharClasses {
            digits: self.has_nums,
            lowercase: self.has_lowercase,
            uppercase: self.has_uppercase,
            symbols: self.has_symbols,
        }
    }
}

/// Generates one password as `config` describes it.
///
/// The alphabet is built from the enabled classes and `config.length`
/// characters are drawn from it. A configuration with no class enabled, or
/// with a zero length, is refused before anything is drawn.
pub fn create_pass(config: &PassConfig, rng: &mut StdRng) -> (r: Result<String, ConfigurationError>)
    ensures
        !config.classes().any() ==> r == Err::<String, ConfigurationError>(
            ConfigurationError::EmptyAlphabet,
        ),
        config.classes().any() && config.length == 0 ==> r == Err::<String, ConfigurationError>(
            ConfigurationError::InvalidLength,
        ),
        config.classes().any() && config.length > 0 ==> r is Ok,
        r matches Ok(secret) ==> {
            &&& is_password_over(secret@, alphabet_of(config.classes()), config.length as nat)
            &&& forall|i: int| 0 <= i < secret@.len() ==> config.classes().admits(#[trigger] secret@[i])
        },
        r is Err ==> *final(rng) == *old(rng),
{
    match build_alphabet(config.char_classes()) {
        Ok(alphabet) => generate_password(&alphabet, config.length, rng),
        Err(e) => Err(e),
    }
}

} // verus!
