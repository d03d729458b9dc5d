//! Hashing, verification, and input validation.

use itemshop::models::{NewItem, NewUser, hash_password, verify_password};

const SECRET: &str = "test-secret-key";

#[test]
fn hash_then_verify_accepts_the_same_password() {
    let digest = hash_password("password1", SECRET).expect("hashing must succeed");
    assert!(verify_password("password1", &digest, SECRET));
}

#[test]
fn verify_rejects_a_different_password() {
    let digest = hash_password("password1", SECRET).expect("hashing must succeed");
    assert!(!verify_password("password2", &digest, SECRET));
}

#[test]
fn verify_rejects_a_different_secret() {
    let digest = hash_password("password1", SECRET).expect("hashing must succeed");
    assert!(!verify_password("password1", &digest, "another-secret"));
}

#[test]
fn verify_rejects_a_malformed_digest() {
    assert!(!verify_password("password1", "not-a-digest", SECRET));
}

#[test]
fn hashing_twice_gives_distinct_digests_that_both_verify() {
    let d1 = hash_password("password1", SECRET).expect("hashing must succeed");
    let d2 = hash_password("password1", SECRET).expect("hashing must succeed");
    assert_ne!(d1, d2, "a fresh random salt must make digests differ");
    assert!(verify_password("password1", &d1, SECRET));
    assert!(verify_password("password1", &d2, SECRET));
}

#[test]
fn digest_never_contains_the_plaintext() {
    let digest = hash_password("password1", SECRET).expect("hashing must succeed");
    assert!(!digest.contains("password1"));
}

#[test]
fn new_user_validation_accepts_a_proper_input() {
    let input = NewUser { email: "alice@example.com".to_string(), password: "password1".to_string() };
    assert!(input.validate().is_ok());
}

#[test]
fn new_user_validation_rejects_a_malformed_email() {
    let input = NewUser { email: "not-an-email".to_string(), password: "password1".to_string() };
    let errs = input.validate().expect_err("must be rejected").errors;
    assert_eq!(errs.len(), 1);
    assert_eq!(errs[0].field, "email");
    assert_eq!(errs[0].code, "email");
    assert_eq!(errs[0].message, "email is invalid");
}

#[test]
fn new_user_validation_rejects_a_short_password() {
    let input = NewUser { email: "alice@example.com".to_string(), password: "short".to_string() };
    let errs = input.validate().expect_err("must be rejected").errors;
    assert_eq!(errs.len(), 1);
    assert_eq!(errs[0].field, "password");
    assert_eq!(errs[0].code, "length");
    assert_eq!(errs[0].message, "password must be at least 8 characters");
}

#[test]
fn new_user_validation_reports_email_before_password() {
    let input = NewUser { email: "nope".to_string(), password: "short".to_string() };
    let errs = input.validate().expect_err("must be rejected").errors;
    assert_eq!(errs.len(), 2);
    assert_eq!(errs[0].field, "email");
    assert_eq!(errs[1].field, "password");
}

#[test]
fn new_user_validation_rejects_an_empty_email() {
    let input = NewUser { email: String::new(), password: "password1".to_string() };
    assert!(input.validate().is_err());
}

#[test]
fn new_item_validation_checks_name_and_price() {
    let good = NewItem {
        user_id: 1,
        name: "sword".to_string(),
        price: 10,
        protection_ends_at: 0,
    };
    assert!(good.validate().is_ok());

    let long_name: String = std::iter::repeat('x').take(251).collect();
    let bad = NewItem { user_id: 1, name: long_name, price: -1, protection_ends_at: 0 };
    let errs = bad.validate().expect_err("must be rejected").errors;
    assert_eq!(errs.len(), 2);
    assert_eq!(errs[0].field, "name");
    assert_eq!(errs[0].code, "length");
    assert_eq!(errs[1].field, "price");
    assert_eq!(errs[1].code, "range");
}
