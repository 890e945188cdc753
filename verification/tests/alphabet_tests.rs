use passgen::alphabet::{build_alphabet, Alphabet, CharClasses};
use passgen::error::ConfigurationError;

fn classes(digits: bool, lowercase: bool, uppercase: bool, symbols: bool) -> CharClasses {
    CharClasses { digits, lowercase, uppercase, symbols }
}

fn text_of(alphabet: &Alphabet) -> String {
    alphabet.chars.iter().collect()
}

#[test]
fn all_classes_in_fixed_order() {
    let alphabet = build_alphabet(classes(true, true, true, true)).unwrap();
    assert_eq!(
        text_of(&alphabet),
        "0123456789abcdefghijklmnopqrstuvwxyzABCDEFGHIJKLMNOPQRSTUVWXYZ!\"#$%&'()*+,-./:;<=>?@[\\]^_`{|}~"
    );
    assert_eq!(alphabet.len(), 94);
}

#[test]
fn each_class_alone() {
    assert_eq!(text_of(&build_alphabet(classes(true, false, false, false)).unwrap()), "0123456789");
    assert_eq!(
        text_of(&build_alphabet(classes(false, true, false, false)).unwrap()),
        "abcdefghijklmnopqrstuvwxyz"
    );
    assert_eq!(
        text_of(&build_alphabet(classes(false, false, true, false)).unwrap()),
        "ABCDEFGHIJKLMNOPQRSTUVWXYZ"
    );
    assert_eq!(
        text_of(&build_alphabet(classes(false, false, false, true)).unwrap()),
        "!\"#$%&'()*+,-./:;<=>?@[\\]^_`{|}~"
    );
}

#[test]
fn digits_and_lowercase_have_36_characters() {
    let alphabet = build_alphabet(classes(true, true, false, false)).unwrap();
    assert_eq!(alphabet.len(), 36);
    assert_eq!(text_of(&alphabet), "0123456789abcdefghijklmnopqrstuvwxyz");
}

#[test]
fn every_selection_has_the_expected_size_and_no_duplicates() {
    for mask in 1u8..16 {
        let flags = classes(mask & 1 != 0, mask & 2 != 0, mask & 4 != 0, mask & 8 != 0);
        let alphabet = build_alphabet(flags).unwrap();
        let mut expected = 0;
        if flags.digits {
            expected += 10;
        }
        if flags.lowercase {
            expected += 26;
        }
        if flags.uppercase {
            expected += 26;
        }
        if flags.symbols {
            expected += 32;
        }
        assert_eq!(alphabet.len(), expected);
        assert!(alphabet.len() > 0);
        let mut seen = alphabet.chars.clone();
        seen.sort();
        seen.dedup();
        assert_eq!(seen.len(), alphabet.len());
    }
}

#[test]
fn symbols_are_exactly_the_ascii_punctuation() {
    let alphabet = build_alphabet(classes(false, false, false, true)).unwrap();
    assert_eq!(alphabet.len(), 32);
    for code in 0x21u8..0x7f {
        let c = code as char;
        assert_eq!(alphabet.chars.contains(&c), c.is_ascii_punctuation());
    }
    assert!(!alphabet.chars.contains(&' '));
    assert!(alphabet.chars.iter().all(|c| !c.is_ascii_alphanumeric()));
}

#[test]
fn no_class_enabled_is_refused() {
    let r = build_alphabet(classes(false, false, false, false));
    assert!(matches!(r, Err(ConfigurationError::EmptyAlphabet)));
}

#[test]
fn char_at_inside_and_outside() {
    let alphabet = build_alphabet(classes(true, false, false, false)).unwrap();
    assert_eq!(alphabet.char_at(0), Some('0'));
    assert_eq!(alphabet.char_at(9), Some('9'));
    assert_eq!(alphabet.char_at(10), None);
}

#[test]
fn messages_name_the_constraint() {
    assert_eq!(
        ConfigurationError::EmptyAlphabet.message(),
        "at least one character class must be enabled"
    );
    assert_eq!(ConfigurationError::InvalidLength.message(), "the password length must be at least 1");
    assert_eq!(
        ConfigurationError::InvalidWordCount.message(),
        "the number of words must be at least 1"
    );
    assert_eq!(ConfigurationError::InvalidCount.message(), "the number of secrets must be at least 1");
}
