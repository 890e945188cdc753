use passgen::alphabet::{build_alphabet, Alphabet, CharClasses};
use passgen::error::ConfigurationError;
use passgen::password::{create_pass, generate_password, password_from_picks, PassConfig};
use rand::rngs::StdRng;
use rand::SeedableRng;

fn all_classes() -> CharClasses {
    CharClasses { digits: true, lowercase: true, uppercase: true, symbols: true }
}

fn config(length: usize, nums: bool, symbols: bool, lower: bool, upper: bool) -> PassConfig {
    PassConfig {
        length,
        has_nums: nums,
        has_symbols: symbols,
        has_lowercase: lower,
        has_uppercase: upper,
        filename: None,
    }
}

#[test]
fn picks_spell_the_password_in_draw_order() {
    let alphabet = build_alphabet(all_classes()).unwrap();
    let picks = vec![0, 10, 36, 62, 93, 9, 35, 61];
    assert_eq!(password_from_picks(&alphabet, &picks), "0aA!~9zZ");
}

#[test]
fn repeated_picks_repeat_characters() {
    let alphabet = build_alphabet(all_classes()).unwrap();
    assert_eq!(password_from_picks(&alphabet, &vec![11, 11, 11]), "bbb");
    assert_eq!(password_from_picks(&alphabet, &vec![]), "");
}

#[test]
fn generated_password_has_the_length_and_the_alphabet() {
    let flags = CharClasses { digits: true, lowercase: true, uppercase: false, symbols: false };
    let alphabet = build_alphabet(flags).unwrap();
    let mut rng = StdRng::seed_from_u64(1);
    for length in [1usize, 2, 12, 64, 500] {
        let secret = generate_password(&alphabet, length, &mut rng).unwrap();
        assert_eq!(secret.chars().count(), length);
        assert!(secret.chars().all(|c| c.is_ascii_digit() || c.is_ascii_lowercase()));
    }
}

#[test]
fn length_one_gives_one_character() {
    let alphabet = build_alphabet(all_classes()).unwrap();
    let mut rng = StdRng::seed_from_u64(2);
    let secret = generate_password(&alphabet, 1, &mut rng).unwrap();
    assert_eq!(secret.chars().count(), 1);
    assert!(alphabet.chars.contains(&secret.chars().next().unwrap()));
}

#[test]
fn single_character_alphabet_gives_that_character() {
    let alphabet = Alphabet { chars: vec!['x'] };
    let mut rng = StdRng::seed_from_u64(3);
    assert_eq!(generate_password(&alphabet, 5, &mut rng).unwrap(), "xxxxx");
}

#[test]
fn empty_alphabet_is_refused_and_nothing_is_drawn() {
    let alphabet = Alphabet { chars: vec![] };
    let mut rng = StdRng::seed_from_u64(4);
    let untouched = rng.clone();
    assert_eq!(generate_password(&alphabet, 8, &mut rng), Err(ConfigurationError::EmptyAlphabet));
    assert_eq!(generate_password(&alphabet, 0, &mut rng), Err(ConfigurationError::EmptyAlphabet));
    assert_eq!(rng, untouched);
}

#[test]
fn zero_length_is_refused_and_nothing_is_drawn() {
    let alphabet = build_alphabet(all_classes()).unwrap();
    let mut rng = StdRng::seed_from_u64(5);
    let untouched = rng.clone();
    assert_eq!(generate_password(&alphabet, 0, &mut rng), Err(ConfigurationError::InvalidLength));
    assert_eq!(rng, untouched);
}

#[test]
fn same_seed_same_password() {
    let alphabet = build_alphabet(all_classes()).unwrap();
    let mut first = StdRng::seed_from_u64(99);
    let mut second = StdRng::seed_from_u64(99);
    let a = generate_password(&alphabet, 40, &mut first).unwrap();
    let b = generate_password(&alphabet, 40, &mut second).unwrap();
    assert_eq!(a, b);
    let c = generate_password(&alphabet, 40, &mut first).unwrap();
    assert_ne!(a, c);
}

#[test]
fn drawing_advances_the_source() {
    let alphabet = build_alphabet(all_classes()).unwrap();
    let mut rng = StdRng::seed_from_u64(6);
    let before = rng.clone();
    generate_password(&alphabet, 4, &mut rng).unwrap();
    assert_ne!(rng, before);
}

#[test]
fn create_pass_follows_the_configuration() {
    let mut rng = StdRng::seed_from_u64(7);
    let secret = create_pass(&config(10, true, false, false, false), &mut rng).unwrap();
    assert_eq!(secret.len(), 10);
    assert!(secret.chars().all(|c| c.is_ascii_digit()));
    let secret = create_pass(&config(30, false, true, false, true), &mut rng).unwrap();
    assert_eq!(secret.chars().count(), 30);
    assert!(secret.chars().all(|c| c.is_ascii_punctuation() || c.is_ascii_uppercase()));
}

#[test]
fn create_pass_ignores_the_filename() {
    let mut with_name = config(16, true, true, true, true);
    with_name.filename = Some(String::from("out.json"));
    let without_name = config(16, true, true, true, true);
    let mut first = StdRng::seed_from_u64(8);
    let mut second = StdRng::seed_from_u64(8);
    assert_eq!(create_pass(&with_name, &mut first), create_pass(&without_name, &mut second));
}

#[test]
fn create_pass_refuses_bad_configurations() {
    let mut rng = StdRng::seed_from_u64(9);
    let untouched = rng.clone();
    assert_eq!(
        create_pass(&config(10, false, false, false, false), &mut rng),
        Err(ConfigurationError::EmptyAlphabet)
    );
    assert_eq!(
        create_pass(&config(0, false, false, false, false), &mut rng),
        Err(ConfigurationError::EmptyAlphabet)
    );
    assert_eq!(
        create_pass(&config(0, true, true, true, true), &mut rng),
        Err(ConfigurationError::InvalidLength)
    );
    assert_eq!(rng, untouched);
}
