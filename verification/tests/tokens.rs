//! Tests for the token manager: issuing, decoding, expiry boundaries.

use spade_api::AccessToken;
use spade_api::AuthError;
use spade_api::RefreshToken;

const ACCESS_SECRET: &str = "access-secret-for-tests";
const REFRESH_SECRET: &str = "refresh-secret-for-tests";
const NOW: u64 = 1_700_000_000;
const DAY: u64 = 86_400;
const FOURTEEN_DAYS: u64 = 1_209_600;

#[test]
fn access_token_round_trip() {
    let t = AccessToken::new("subject-1", ACCESS_SECRET, NOW).unwrap();
    let claims = AccessToken::decode(t.as_str(), ACCESS_SECRET, NOW).unwrap();
    assert_eq!(claims.sub, "subject-1");
    assert_eq!(claims.iat, NOW);
    assert_eq!(claims.exp, NOW + DAY);
    assert_eq!(claims.aud, "spadementalhealth.com");
    assert_eq!(claims.iss, "auth.spadementalhealth.com");
}

#[test]
fn access_token_succeeds_one_second_before_expiry() {
    let t = AccessToken::new("subject-1", ACCESS_SECRET, NOW).unwrap();
    let claims = AccessToken::decode(t.as_str(), ACCESS_SECRET, NOW + DAY - 1).unwrap();
    assert_eq!(claims.sub, "subject-1");
}

#[test]
fn access_token_fails_at_expiry_boundary() {
    let t = AccessToken::new("subject-1", ACCESS_SECRET, NOW).unwrap();
    let r = AccessToken::decode(t.as_str(), ACCESS_SECRET, NOW + DAY);
    assert_eq!(r.unwrap_err(), AuthError::InvalidToken);
    let r = AccessToken::decode(t.as_str(), ACCESS_SECRET, NOW + DAY + 5000);
    assert_eq!(r.unwrap_err(), AuthError::InvalidToken);
}

#[test]
fn access_token_rejects_wrong_secret() {
    let t = AccessToken::new("subject-1", ACCESS_SECRET, NOW).unwrap();
    let r = AccessToken::decode(t.as_str(), "some-other-secret", NOW);
    assert_eq!(r.unwrap_err(), AuthError::InvalidToken);
}

#[test]
fn access_token_rejects_tampering() {
    let t = AccessToken::new("subject-1", ACCESS_SECRET, NOW).unwrap();
    let mut s: String = t.as_str().to_string();
    // Flip the final signature character.
    let last = s.pop().unwrap();
    let replacement = if last == 'A' { 'B' } else { 'A' };
    s.push(replacement);
    assert!(AccessToken::decode(&s, ACCESS_SECRET, NOW).is_err());
}

#[test]
fn access_token_rejects_garbage() {
    assert!(AccessToken::decode("", ACCESS_SECRET, NOW).is_err());
    assert!(AccessToken::decode("not-a-token", ACCESS_SECRET, NOW).is_err());
    assert!(AccessToken::decode("a.b.c", ACCESS_SECRET, NOW).is_err());
}

#[test]
fn refresh_token_round_trip_and_expiry() {
    let t = RefreshToken::new("account-9", REFRESH_SECRET, NOW).unwrap();
    let claims = RefreshToken::decode(t.as_str(), REFRESH_SECRET, NOW + FOURTEEN_DAYS - 1)
        .unwrap();
    assert_eq!(claims.sub, "account-9");
    assert_eq!(claims.exp, NOW + FOURTEEN_DAYS);
    let r = RefreshToken::decode(t.as_str(), REFRESH_SECRET, NOW + FOURTEEN_DAYS);
    assert_eq!(r.unwrap_err(), AuthError::InvalidToken);
}

#[test]
fn access_and_refresh_secrets_are_not_interchangeable() {
    let at = AccessToken::new("subject-1", ACCESS_SECRET, NOW).unwrap();
    let rt = RefreshToken::new("account-1", REFRESH_SECRET, NOW).unwrap();
    assert!(RefreshToken::decode(at.as_str(), REFRESH_SECRET, NOW).is_err());
    assert!(AccessToken::decode(rt.as_str(), ACCESS_SECRET, NOW).is_err());
}

#[test]
fn refresh_token_empty_stands_for_logged_out() {
    let t = RefreshToken::empty();
    assert_eq!(t.as_str(), "");
    assert!(RefreshToken::decode(t.as_str(), REFRESH_SECRET, NOW).is_err());
}
