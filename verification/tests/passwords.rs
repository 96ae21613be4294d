use store_inventory::password::{create_hashed_password, hash_or_words, HASH_COST};

#[test]
fn hash_has_the_bcrypt_shape() {
    let hash = create_hashed_password("correct horse").unwrap();
    assert_eq!(hash.len(), 60);
    assert_eq!(hash.chars().count(), 60);
    assert!(hash.starts_with("$2b$12$"));
    assert_ne!(hash, "correct horse");
    assert_eq!(HASH_COST, 12);
}

#[test]
fn hash_verifies_against_its_password_only() {
    let hash = create_hashed_password("correct horse").unwrap();
    assert!(bcrypt::verify("correct horse", &hash).unwrap());
    assert!(!bcrypt::verify("wrong horse", &hash).unwrap());
}

#[test]
fn hashes_of_one_password_differ() {
    let first = create_hashed_password("").unwrap();
    let second = create_hashed_password("").unwrap();
    assert_ne!(first, second);
}

#[test]
fn a_hash_passes_through_unchanged() {
    let hash = "$2b$12$abcdefghijklmnopqrstuuABCDEFGHIJKLMNOPQRSTUVWXYZ01234".to_string();
    assert_eq!(hash_or_words(Ok(hash.clone())), Ok(hash));
}

#[test]
fn a_failure_comes_in_its_own_words() {
    assert_eq!(
        hash_or_words(Err(bcrypt::BcryptError::CostNotAllowed(3))),
        Err("Cost needs to be between 4 and 31, got 3".to_string())
    );
    assert_eq!(
        hash_or_words(Err(bcrypt::BcryptError::Truncation(73))),
        Err("Expected 72 bytes or fewer; found 73 bytes".to_string())
    );
    assert_eq!(
        hash_or_words(Err(bcrypt::BcryptError::InvalidHash("short"))),
        Err("Invalid hash: short".to_string())
    );
}
