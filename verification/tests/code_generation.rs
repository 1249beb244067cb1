use shortener::DEFAULT_CODE_LENGTH;
use shortener::GenerationError;
use shortener::MAX_ATTEMPTS;
use shortener::UrlStore;
use shortener::generate_random_string;
use shortener::generate_unique_short_code;
use shortener::generate_unique_short_code_with_probe;

fn is_alphanumeric_ascii(code: &str) -> bool {
    code.chars().all(|c| c.is_ascii_uppercase() || c.is_ascii_lowercase() || c.is_ascii_digit())
}

#[test]
fn generated_codes_have_the_requested_shape() {
    for length in [1usize, 5, DEFAULT_CODE_LENGTH, 40] {
        let code = generate_random_string(length);
        assert_eq!(code.len(), length);
        assert!(is_alphanumeric_ascii(&code));
    }
}

#[test]
fn generated_codes_vary() {
    // With 62^20 possibilities two equal draws would all but prove the
    // generator ignores its randomness source.
    let a = generate_random_string(20);
    let b = generate_random_string(20);
    assert_ne!(a, b);
}

#[test]
fn generation_against_an_empty_store_succeeds() {
    let store = UrlStore::new();
    let code = generate_unique_short_code(&store, DEFAULT_CODE_LENGTH)
        .expect("no live code can collide with an empty store");
    assert_eq!(code.len(), DEFAULT_CODE_LENGTH);
    assert!(is_alphanumeric_ascii(&code));
    assert!(!store.exists_by_code(&code));
}

#[test]
fn generation_avoids_codes_of_other_lengths() {
    let mut store = UrlStore::new();
    store
        .insert(None, String::from("short"), String::from("https://example.com"))
        .unwrap();
    let code = generate_unique_short_code(&store, DEFAULT_CODE_LENGTH)
        .expect("a store whose only code is shorter cannot collide");
    assert!(!store.exists_by_code(&code));
}

#[test]
fn probe_succeeds_on_the_tenth_attempt() {
    let mut taken = vec![true; 9];
    taken.push(false);
    let (code, attempts) =
        generate_unique_short_code_with_probe(DEFAULT_CODE_LENGTH, &taken).unwrap();
    assert_eq!(attempts, MAX_ATTEMPTS as usize);
    assert_eq!(code.len(), DEFAULT_CODE_LENGTH);
    assert!(is_alphanumeric_ascii(&code));
}

#[test]
fn probe_exhausts_when_every_attempt_collides() {
    let taken = vec![true; 10];
    let result = generate_unique_short_code_with_probe(DEFAULT_CODE_LENGTH, &taken);
    assert!(matches!(result, Err(GenerationError::GenerationExhausted)));
}

#[test]
fn probe_succeeds_immediately_when_nothing_collides() {
    let taken = vec![false; 10];
    let (_, attempts) =
        generate_unique_short_code_with_probe(DEFAULT_CODE_LENGTH, &taken).unwrap();
    assert_eq!(attempts, 1);
}
