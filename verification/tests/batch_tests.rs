use passgen::batch::{generate_batch, GenerationRequest, Mode};
use passgen::error::ConfigurationError;
use passgen::words::WordList;
use rand::rngs::StdRng;
use rand::SeedableRng;

fn password_request(length: usize, count: usize) -> GenerationRequest {
    GenerationRequest {
        mode: Mode::Password,
        length,
        include_lowercase: true,
        include_uppercase: true,
        include_digits: true,
        include_symbols: false,
        word_count: 0,
        count,
    }
}

fn passphrase_request(word_count: usize, count: usize) -> GenerationRequest {
    GenerationRequest {
        mode: Mode::Passphrase,
        length: 0,
        include_lowercase: false,
        include_uppercase: false,
        include_digits: false,
        include_symbols: false,
        word_count,
        count,
    }
}

#[test]
fn three_alphanumeric_passwords_of_twelve() {
    let request = password_request(12, 3);
    let mut rng = StdRng::seed_from_u64(2024);
    let batch = generate_batch(&request, &mut rng).unwrap();
    assert_eq!(batch.len(), 3);
    for secret in &batch {
        assert_eq!(secret.len(), 12);
        assert!(secret.chars().all(|c| c.is_ascii_alphanumeric()));
    }
    let mut again = StdRng::seed_from_u64(2024);
    assert_eq!(generate_batch(&request, &mut again).unwrap(), batch);
}

#[test]
fn same_seed_same_batch() {
    for request in [password_request(20, 5), passphrase_request(4, 5)] {
        let mut first = StdRng::seed_from_u64(77);
        let mut second = StdRng::seed_from_u64(77);
        let a = generate_batch(&request, &mut first).unwrap();
        let b = generate_batch(&request, &mut second).unwrap();
        assert_eq!(a, b);
        assert_eq!(first, second);
    }
}

#[test]
fn batch_draws_from_one_stream() {
    let mut whole = StdRng::seed_from_u64(5);
    let batch = generate_batch(&password_request(9, 4), &mut whole).unwrap();
    let mut parts = StdRng::seed_from_u64(5);
    let mut one_by_one = Vec::new();
    for _ in 0..4 {
        one_by_one.extend(generate_batch(&password_request(9, 1), &mut parts).unwrap());
    }
    assert_eq!(batch, one_by_one);
    assert_ne!(batch[0], batch[1]);
}

#[test]
fn smallest_requests_succeed() {
    let mut rng = StdRng::seed_from_u64(1);
    let batch = generate_batch(&password_request(1, 1), &mut rng).unwrap();
    assert_eq!(batch.len(), 1);
    assert_eq!(batch[0].len(), 1);
    let batch = generate_batch(&passphrase_request(1, 1), &mut rng).unwrap();
    assert_eq!(batch.len(), 1);
    assert!(WordList::builtin().contains(&batch[0]));
}

#[test]
fn passphrase_batch_has_words_of_the_list() {
    let list = WordList::builtin();
    let mut rng = StdRng::seed_from_u64(8);
    let batch = generate_batch(&passphrase_request(4, 10), &mut rng).unwrap();
    assert_eq!(batch.len(), 10);
    for secret in &batch {
        let tokens: Vec<&str> = secret.split(' ').collect();
        assert_eq!(tokens.len(), 4);
        assert!(tokens.iter().all(|t| list.contains(t)));
    }
}

#[test]
fn broken_requests_are_refused_before_any_draw() {
    let mut rng = StdRng::seed_from_u64(3);
    let untouched = rng.clone();
    assert_eq!(
        generate_batch(&password_request(0, 3), &mut rng),
        Err(ConfigurationError::InvalidLength)
    );
    assert_eq!(
        generate_batch(&password_request(8, 0), &mut rng),
        Err(ConfigurationError::InvalidCount)
    );
    let mut no_class = password_request(8, 3);
    no_class.include_lowercase = false;
    no_class.include_uppercase = false;
    no_class.include_digits = false;
    assert_eq!(generate_batch(&no_class, &mut rng), Err(ConfigurationError::EmptyAlphabet));
    assert_eq!(
        generate_batch(&passphrase_request(0, 3), &mut rng),
        Err(ConfigurationError::InvalidWordCount)
    );
    assert_eq!(
        generate_batch(&passphrase_request(4, 0), &mut rng),
        Err(ConfigurationError::InvalidCount)
    );
    assert_eq!(rng, untouched);
}

#[test]
fn first_broken_constraint_is_named() {
    let mut request = password_request(0, 0);
    assert_eq!(request.validate(), Err(ConfigurationError::InvalidLength));
    request.include_lowercase = false;
    request.include_uppercase = false;
    request.include_digits = false;
    assert_eq!(request.validate(), Err(ConfigurationError::EmptyAlphabet));
    assert_eq!(passphrase_request(0, 0).validate(), Err(ConfigurationError::InvalidWordCount));
    assert_eq!(password_request(1, 1).validate(), Ok(()));
}

#[test]
fn only_the_fields_of_the_mode_count() {
    let mut request = passphrase_request(2, 2);
    request.length = 0;
    assert_eq!(request.validate(), Ok(()));
    let mut request = password_request(4, 2);
    request.word_count = 0;
    assert_eq!(request.validate(), Ok(()));
    let classes = request.char_classes();
    assert!(classes.digits && classes.lowercase && classes.uppercase && !classes.symbols);
}
