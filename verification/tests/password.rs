use argon2::{Argon2, PasswordHash, PasswordVerifier};
use web_server::password::{check_password, hash_password, PasswordCheck};

#[test]
fn test_hash_password_is_different_each_time() {
    let hash1 = hash_password("same_password").unwrap();
    let hash2 = hash_password("same_password").unwrap();

    assert_ne!(hash1, hash2);
}

#[test]
fn test_verify_password_correct() {
    let hash = hash_password("correct_password").unwrap();
    let parsed_hash = PasswordHash::new(&hash).unwrap();

    let result = Argon2::default().verify_password(b"correct_password", &parsed_hash);
    assert!(result.is_ok());
}

#[test]
fn test_verify_password_incorrect() {
    let hash = hash_password("correct_password").unwrap();
    let parsed_hash = PasswordHash::new(&hash).unwrap();

    let result = Argon2::default().verify_password(b"wrong_password", &parsed_hash);
    assert!(result.is_err());
}

#[test]
fn check_accepts_the_hashed_password() {
    let hash = hash_password("hunter42").unwrap();
    assert_eq!(check_password("hunter42", &hash), PasswordCheck::Accepted);
}

#[test]
fn check_refuses_another_password() {
    let hash = hash_password("hunter42").unwrap();
    assert_eq!(check_password("hunter43", &hash), PasswordCheck::Refused);
}

#[test]
fn check_finds_text_that_is_no_hash_unreadable() {
    assert_eq!(check_password("x", "not a phc string"), PasswordCheck::Unreadable);
    assert_eq!(check_password("x", ""), PasswordCheck::Unreadable);
}

#[test]
fn hash_is_a_phc_string_that_argon2_reads() {
    let hash = hash_password("pw").unwrap();
    assert!(hash.starts_with("$argon2id$"));
    assert!(PasswordHash::new(&hash).is_ok());
}
