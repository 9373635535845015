//! Tests for the e-mail and password value objects.

use spade_api::AuthError;
use spade_api::Email;
use spade_api::Password;

#[test]
fn email_parse_accepts_and_normalizes() {
    let e = Email::parse("Alice.Smith@Example.COM".to_string()).unwrap();
    assert_eq!(e.as_str(), "alice.smith@example.com");
}

#[test]
fn email_parse_accepts_simple_address() {
    let e = Email::parse("a@b.com".to_string()).unwrap();
    assert_eq!(e.as_str(), "a@b.com");
}

#[test]
fn email_parse_accepts_hyphens_underscores_and_subdomains() {
    let e = Email::parse("first-last_1@mail.sub-domain.example.org".to_string()).unwrap();
    assert_eq!(e.as_str(), "first-last_1@mail.sub-domain.example.org");
}

#[test]
fn email_parse_is_idempotent_under_reparsing() {
    let first = Email::parse("MixedCase@Domain.Com".to_string()).unwrap();
    let second = Email::parse(first.as_str().to_string()).unwrap();
    assert_eq!(first.as_str(), second.as_str());
}

#[test]
fn email_parse_rejects_malformed_input() {
    let bad = [
        "",
        "plainaddress",
        "@no-local.com",
        "no-domain@",
        "a@b",
        "a@b.c",
        "a@.com",
        "a@b..com",
        "a@b.com.",
        "two@signs@x.com",
        "spa ce@x.com",
        "a@x.com,b@y.com",
    ];
    for raw in bad {
        let r = Email::parse(raw.to_string());
        assert!(r.is_err(), "accepted {:?}", raw);
        assert_eq!(r.unwrap_err(), AuthError::ValidationError);
    }
}

#[test]
fn password_parse_accepts_policy_passwords() {
    assert!(Password::parse("Abcdef1!".to_string()).is_ok());
    assert!(Password::parse("xY9#long-enough-pass".to_string()).is_ok());
    assert!(Password::parse("Aa1%Aa1%Aa1%Aa1%Aa1%Aa1%".to_string()).is_ok());
}

#[test]
fn password_parse_rejects_policy_violations() {
    let bad = [
        "",
        "Abcde1!",
        "Aa1%Aa1%Aa1%Aa1%Aa1%Aa1%x",
        "abcdefg1!",
        "ABCDEFG1!",
        "Abcdefgh!",
        "Abcdefg12",
        "Abcdefg1?",
    ];
    for raw in bad {
        let r = Password::parse(raw.to_string());
        assert!(r.is_err(), "accepted {:?}", raw);
        assert_eq!(r.unwrap_err(), AuthError::ValidationError);
    }
}

#[test]
fn password_hash_then_verify_succeeds() {
    let p = Password::parse("Abcdef1!".to_string()).unwrap();
    let hash = p.hash().unwrap();
    assert!(p.verify(&hash).is_ok());
}

#[test]
fn password_verify_with_other_password_fails() {
    let p = Password::parse("Abcdef1!".to_string()).unwrap();
    let other = Password::parse("Abcdef2!".to_string()).unwrap();
    let hash = p.hash().unwrap();
    let r = other.verify(&hash);
    assert!(r.is_err());
    assert_eq!(r.unwrap_err(), AuthError::VerificationError);
}

#[test]
fn password_verify_rejects_malformed_hash() {
    let p = Password::parse("Abcdef1!".to_string()).unwrap();
    assert!(p.verify("not-a-phc-hash").is_err());
}

#[test]
fn password_hash_twice_differs() {
    let p = Password::parse("Abcdef1!".to_string()).unwrap();
    let h1 = p.hash().unwrap();
    let h2 = p.hash().unwrap();
    assert_ne!(h1, h2);
    assert!(p.verify(&h1).is_ok());
    assert!(p.verify(&h2).is_ok());
}

#[test]
fn password_hash_is_not_the_raw_password() {
    let p = Password::parse("Abcdef1!".to_string()).unwrap();
    let hash = p.hash().unwrap();
    assert_ne!(hash, "Abcdef1!");
    assert!(hash.starts_with("$argon2"));
}

#[test]
fn error_messages_are_fixed_per_kind() {
    assert_eq!(AuthError::DuplicateUser.message(), "User already exists");
    assert_eq!(
        AuthError::BadRequest.message(),
        "Please enter a valid email or password"
    );
    assert_eq!(AuthError::ServerError.message(), "Server error. Please try again");
    assert_eq!(AuthError::InvalidToken.message(), "Invalid token.");
}
