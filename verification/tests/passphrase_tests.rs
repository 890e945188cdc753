use passgen::error::ConfigurationError;
use passgen::passphrase::{create_passphrase, generate_passphrase, passphrase_from_picks};
use passgen::words::WordList;
use rand::rngs::StdRng;
use rand::SeedableRng;

fn owned(words: &[&str]) -> Vec<String> {
    words.iter().map(|w| w.to_string()).collect()
}

#[test]
fn builtin_list_is_fixed() {
    let list = WordList::builtin();
    assert_eq!(list.len(), 64);
    assert_eq!(list.word(0), "able");
    assert_eq!(list.word(1), "acid");
    assert_eq!(list.word(32), "delta");
    assert_eq!(list.word(63), "willow");
    for i in 0..list.len() {
        let word = list.word(i);
        assert!(!word.is_empty());
        assert!(word.chars().all(|c| c.is_ascii_lowercase()));
        assert!(list.contains(word));
    }
    assert!(!list.contains("zebra"));
    assert!(!list.contains(""));
    assert!(!list.contains("Able"));
}

#[test]
fn picks_select_words_in_order() {
    let list = WordList::builtin();
    assert_eq!(passphrase_from_picks(&list, &vec![0, 63, 1, 0], " "), "able willow acid able");
    assert_eq!(passphrase_from_picks(&list, &vec![32], " "), "delta");
    assert_eq!(passphrase_from_picks(&list, &vec![], " "), "");
}

#[test]
fn separator_goes_between_words_only() {
    let list = WordList::builtin();
    assert_eq!(passphrase_from_picks(&list, &vec![3, 4, 5], "--"), "apple--arrow--autumn");
    assert_eq!(passphrase_from_picks(&list, &vec![3, 4], ""), "applearrow");
}

#[test]
fn four_words_are_four_tokens_of_the_list() {
    let list = WordList::builtin();
    let mut rng = StdRng::seed_from_u64(11);
    for _ in 0..50 {
        let secret = generate_passphrase(&list, 4, " ", &mut rng).unwrap();
        let tokens: Vec<&str> = secret.split(' ').collect();
        assert_eq!(tokens.len(), 4);
        for token in tokens {
            assert!(list.contains(token));
        }
    }
}

#[test]
fn one_word_has_no_separator() {
    let list = WordList::builtin();
    let mut rng = StdRng::seed_from_u64(12);
    let secret = generate_passphrase(&list, 1, " ", &mut rng).unwrap();
    assert!(list.contains(&secret));
}

#[test]
fn zero_words_are_refused_and_nothing_is_drawn() {
    let list = WordList::builtin();
    let mut rng = StdRng::seed_from_u64(13);
    let untouched = rng.clone();
    assert_eq!(
        generate_passphrase(&list, 0, " ", &mut rng),
        Err(ConfigurationError::InvalidWordCount)
    );
    assert_eq!(create_passphrase(0, &mut rng), Err(ConfigurationError::InvalidWordCount));
    assert_eq!(rng, untouched);
}

#[test]
fn same_seed_same_passphrase() {
    let mut first = StdRng::seed_from_u64(14);
    let mut second = StdRng::seed_from_u64(14);
    assert_eq!(create_passphrase(6, &mut first), create_passphrase(6, &mut second));
}

#[test]
fn create_passphrase_uses_the_builtin_list_and_spaces() {
    let list = WordList::builtin();
    let mut rng = StdRng::seed_from_u64(15);
    let secret = create_passphrase(7, &mut rng).unwrap();
    let tokens: Vec<&str> = secret.split(' ').collect();
    assert_eq!(tokens.len(), 7);
    assert!(tokens.iter().all(|t| list.contains(t)));
}

#[test]
fn own_word_list_is_checked() {
    let list = WordList::from_words(owned(&["red", "green", "blue"])).unwrap();
    assert_eq!(list.len(), 3);
    assert_eq!(list.word(1), "green");
    assert_eq!(passphrase_from_picks(&list, &vec![2, 0], "+"), "blue+red");
    assert!(WordList::from_words(owned(&[])).is_none());
    assert!(WordList::from_words(owned(&["red", ""])).is_none());
    assert!(WordList::from_words(owned(&["red", "Green"])).is_none());
    assert!(WordList::from_words(owned(&["two words"])).is_none());
    assert!(WordList::from_words(owned(&["caf\u{e9}"])).is_none());
}

#[test]
fn single_word_list_repeats_its_word() {
    let list = WordList::from_words(owned(&["echo"])).unwrap();
    let mut rng = StdRng::seed_from_u64(16);
    assert_eq!(generate_passphrase(&list, 3, " ", &mut rng).unwrap(), "echo echo echo");
}
