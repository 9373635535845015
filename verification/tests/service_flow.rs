//! End-to-end tests of the auth service over the two stores.

use spade_api::AccessToken;
use spade_api::Auth;
use spade_api::AuthError;
use spade_api::AuthResponse;
use spade_api::DbController;
use spade_api::Email;
use spade_api::Password;
use spade_api::RefreshToken;

const ACCESS_SECRET: &str = "access-secret-for-tests";
const REFRESH_SECRET: &str = "refresh-secret-for-tests";
const NOW: u64 = 1_700_000_000;
const DAY: u64 = 86_400;

fn email(raw: &str) -> Email {
    Email::parse(raw.to_string()).unwrap()
}

fn password(raw: &str) -> Password {
    Password::parse(raw.to_string()).unwrap()
}

fn register_one(db: &mut DbController, raw_email: &str, raw_password: &str, username: &str) {
    Auth::register(
        db,
        email(raw_email),
        password(raw_password),
        username.to_string(),
        ACCESS_SECRET,
        REFRESH_SECRET,
        NOW,
    )
    .unwrap();
}

#[test]
fn register_end_to_end() {
    let mut db = DbController::new();
    let (at, rt) = Auth::register(
        &mut db,
        email("a@b.com"),
        password("Abcdef1!"),
        "user-one".to_string(),
        ACCESS_SECRET,
        REFRESH_SECRET,
        NOW,
    )
    .unwrap();

    // One credential row, keyed by fresh ids.
    assert_eq!(db.auths.len(), 1);
    let rec = db.auths.record_at(0);
    assert_eq!(rec.email.as_str(), "a@b.com");
    assert_eq!(rec.id.len(), 36);
    assert_eq!(rec.community_id.len(), 26);
    assert!(rec.hash.starts_with("$argon2"));

    // One matching profile row.
    assert_eq!(db.profiles.len(), 1);
    let profile = db.profiles.profile_at(0);
    assert_eq!(profile.id, rec.community_id);
    assert_eq!(profile.username, "user-one");
    assert_eq!(
        profile.avatar,
        format!("https://api.multiavatar.com/${}.svg", rec.community_id)
    );
    assert!(profile.likes.is_empty());

    // The access token is bound to the community id, the refresh token
    // to the account id, and the refresh token is the stored one.
    let at_claims = AccessToken::decode(at.as_str(), ACCESS_SECRET, NOW).unwrap();
    assert_eq!(at_claims.sub, rec.community_id);
    assert_eq!(at_claims.exp, NOW + DAY);
    let rt_claims = RefreshToken::decode(rt.as_str(), REFRESH_SECRET, NOW).unwrap();
    assert_eq!(rt_claims.sub, rec.id);
    assert_eq!(rec.refresh_token.as_str(), rt.as_str());
}

#[test]
fn register_duplicate_email_leaves_one_row() {
    let mut db = DbController::new();
    register_one(&mut db, "a@b.com", "Abcdef1!", "user-one");
    let r = Auth::register(
        &mut db,
        email("a@b.com"),
        password("Abcdef1!"),
        "user-two".to_string(),
        ACCESS_SECRET,
        REFRESH_SECRET,
        NOW,
    );
    assert_eq!(r.unwrap_err(), AuthError::DuplicateUser);
    assert_eq!(db.auths.len(), 1);
    assert_eq!(db.profiles.len(), 1);
}

#[test]
fn register_duplicate_email_after_normalization() {
    let mut db = DbController::new();
    register_one(&mut db, "a@b.com", "Abcdef1!", "user-one");
    let r = Auth::register(
        &mut db,
        email("A@B.COM"),
        password("Abcdef1!"),
        "user-two".to_string(),
        ACCESS_SECRET,
        REFRESH_SECRET,
        NOW,
    );
    assert_eq!(r.unwrap_err(), AuthError::DuplicateUser);
    assert_eq!(db.auths.len(), 1);
}

#[test]
fn register_compensates_when_profile_creation_fails() {
    let mut db = DbController::new();
    // A profile already holds the username, so profile creation fails
    // after the credential insert.
    db.profiles
        .register("occupied-id".to_string(), "taken-name".to_string())
        .unwrap();
    let r = Auth::register(
        &mut db,
        email("fresh@mail.com"),
        password("Abcdef1!"),
        "taken-name".to_string(),
        ACCESS_SECRET,
        REFRESH_SECRET,
        NOW,
    );
    assert!(r.is_err());
    // The compensating delete removed the credential row again.
    assert!(!db.auths.does_email_exist("fresh@mail.com"));
    assert_eq!(db.auths.len(), 0);
    assert_eq!(db.profiles.len(), 1);
}

#[test]
fn login_issues_tokens_and_rotates_stored_refresh_token() {
    let mut db = DbController::new();
    register_one(&mut db, "a@b.com", "Abcdef1!", "user-one");
    let first_stored = db.auths.record_at(0).refresh_token.as_str().to_string();

    let (at, rt) = Auth::login(
        &mut db,
        email("a@b.com"),
        password("Abcdef1!"),
        ACCESS_SECRET,
        REFRESH_SECRET,
        NOW + 10,
    )
    .unwrap();
    let rec = db.auths.record_at(0);
    assert_eq!(rec.refresh_token.as_str(), rt.as_str());
    assert_ne!(rec.refresh_token.as_str(), first_stored);
    let at_claims = AccessToken::decode(at.as_str(), ACCESS_SECRET, NOW + 10).unwrap();
    assert_eq!(at_claims.sub, rec.community_id);
    let rt_claims = RefreshToken::decode(rt.as_str(), REFRESH_SECRET, NOW + 10).unwrap();
    assert_eq!(rt_claims.sub, rec.id);
}

#[test]
fn login_with_wrong_password_fails_generically() {
    let mut db = DbController::new();
    register_one(&mut db, "a@b.com", "Abcdef1!", "user-one");
    let r = Auth::login(
        &mut db,
        email("a@b.com"),
        password("Wrong9pw$"),
        ACCESS_SECRET,
        REFRESH_SECRET,
        NOW,
    );
    assert_eq!(r.unwrap_err(), AuthError::BadRequest);
}

#[test]
fn login_with_unknown_email_fails_with_same_error_as_wrong_password() {
    let mut db = DbController::new();
    register_one(&mut db, "a@b.com", "Abcdef1!", "user-one");
    let unknown = Auth::login(
        &mut db,
        email("nobody@b.com"),
        password("Abcdef1!"),
        ACCESS_SECRET,
        REFRESH_SECRET,
        NOW,
    )
    .unwrap_err();
    let wrong = Auth::login(
        &mut db,
        email("a@b.com"),
        password("Wrong9pw$"),
        ACCESS_SECRET,
        REFRESH_SECRET,
        NOW,
    )
    .unwrap_err();
    assert_eq!(unknown, wrong);
    assert_eq!(unknown, AuthError::BadRequest);
}

#[test]
fn logout_clears_stored_refresh_token() {
    let mut db = DbController::new();
    register_one(&mut db, "a@b.com", "Abcdef1!", "user-one");
    let cid = db.auths.record_at(0).community_id.clone();
    assert!(!db.auths.record_at(0).refresh_token.as_str().is_empty());
    Auth::logout(&mut db, &cid).unwrap();
    assert_eq!(db.auths.record_at(0).refresh_token.as_str(), "");
}

#[test]
fn refresh_checks_subject_match_not_token_equality() {
    let mut db = DbController::new();
    register_one(&mut db, "a@b.com", "Abcdef1!", "user-one");
    let rec_id = db.auths.record_at(0).id.clone();
    let cid = db.auths.record_at(0).community_id.clone();
    let pre_logout_refresh = db.auths.record_at(0).refresh_token.as_str().to_string();

    Auth::logout(&mut db, &cid).unwrap();

    // The pre-logout refresh token still decodes, and the refresh path
    // only checks that its subject matches a stored account, so it
    // still mints a new access token, bound to the account's community
    // (subject) id.
    let claims = RefreshToken::decode(&pre_logout_refresh, REFRESH_SECRET, NOW + 5).unwrap();
    assert_eq!(claims.sub, rec_id);
    let at = Auth::refresh(&db, &claims.sub, ACCESS_SECRET, NOW + 5).unwrap();
    let at_claims = AccessToken::decode(at.as_str(), ACCESS_SECRET, NOW + 5).unwrap();
    assert_eq!(at_claims.sub, cid);
}

#[test]
fn refresh_binds_the_access_token_to_the_subject_id() {
    let mut db = DbController::new();
    register_one(&mut db, "a@b.com", "Abcdef1!", "user-one");
    let rec_id = db.auths.record_at(0).id.clone();
    let cid = db.auths.record_at(0).community_id.clone();
    let at = Auth::refresh(&db, &rec_id, ACCESS_SECRET, NOW).unwrap();
    let at_claims = AccessToken::decode(at.as_str(), ACCESS_SECRET, NOW).unwrap();
    // The new access token carries the externally visible identity, not
    // the account id the refresh token presented.
    assert_eq!(at_claims.sub, cid);
    assert_ne!(at_claims.sub, rec_id);
}

#[test]
fn refresh_with_unknown_subject_is_forbidden() {
    let db = DbController::new();
    let r = Auth::refresh(&db, "no-such-account", ACCESS_SECRET, NOW);
    assert_eq!(r.unwrap_err(), AuthError::Forbidden);
}

#[test]
fn update_email_changes_exactly_that_field() {
    let mut db = DbController::new();
    register_one(&mut db, "a@b.com", "Abcdef1!", "user-one");
    let cid = db.auths.record_at(0).community_id.clone();
    let hash_before = db.auths.record_at(0).hash.clone();
    let r = Auth::update_email(&mut db, email("new@b.com"), cid).unwrap();
    assert!(r);
    let rec = db.auths.record_at(0);
    assert_eq!(rec.email.as_str(), "new@b.com");
    assert_eq!(rec.hash, hash_before);
    assert!(!db.auths.does_email_exist("a@b.com"));
}

#[test]
fn update_email_rejects_an_email_held_by_another_account() {
    let mut db = DbController::new();
    register_one(&mut db, "a@b.com", "Abcdef1!", "user-one");
    register_one(&mut db, "c@d.com", "Abcdef1!", "user-two");
    let cid_two = db.auths.record_at(1).community_id.clone();
    let r = Auth::update_email(&mut db, email("a@b.com"), cid_two);
    assert_eq!(r.unwrap_err(), AuthError::ServerError);
    assert_eq!(db.auths.record_at(1).email.as_str(), "c@d.com");
}

#[test]
fn update_password_takes_effect_on_next_login() {
    let mut db = DbController::new();
    register_one(&mut db, "a@b.com", "Abcdef1!", "user-one");
    let cid = db.auths.record_at(0).community_id.clone();
    let r = Auth::update_password(&mut db, password("Newpass9#"), cid).unwrap();
    assert!(r);
    assert!(Auth::login(
        &mut db,
        email("a@b.com"),
        password("Newpass9#"),
        ACCESS_SECRET,
        REFRESH_SECRET,
        NOW,
    )
    .is_ok());
    let old = Auth::login(
        &mut db,
        email("a@b.com"),
        password("Abcdef1!"),
        ACCESS_SECRET,
        REFRESH_SECRET,
        NOW,
    );
    assert_eq!(old.unwrap_err(), AuthError::BadRequest);
}

#[test]
fn delete_removes_credential_and_profile_together() {
    let mut db = DbController::new();
    register_one(&mut db, "a@b.com", "Abcdef1!", "user-one");
    register_one(&mut db, "c@d.com", "Abcdef1!", "user-two");
    let rec_id = db.auths.record_at(0).id.clone();
    let cid = db.auths.record_at(0).community_id.clone();
    let r = Auth::delete(&mut db, cid.clone()).unwrap();
    assert!(r);
    assert_eq!(db.auths.len(), 1);
    assert_eq!(db.profiles.len(), 1);
    assert!(!db.auths.does_email_exist("a@b.com"));
    assert!(db.profiles.get_by_id(&cid).is_none());
    assert_eq!(
        Auth::refresh(&db, &rec_id, ACCESS_SECRET, NOW).unwrap_err(),
        AuthError::Forbidden
    );
    // The other account is untouched.
    assert!(db.auths.does_email_exist("c@d.com"));
}

#[test]
fn delete_of_absent_account_changes_nothing() {
    let mut db = DbController::new();
    register_one(&mut db, "a@b.com", "Abcdef1!", "user-one");
    assert!(Auth::delete(&mut db, "no-such-cid".to_string()).unwrap());
    assert_eq!(db.auths.len(), 1);
    assert_eq!(db.profiles.len(), 1);
}

#[test]
fn profile_get_by_id_returns_the_registered_profile() {
    let mut db = DbController::new();
    register_one(&mut db, "a@b.com", "Abcdef1!", "user-one");
    let cid = db.auths.record_at(0).community_id.clone();
    let p = db.profiles.get_by_id(&cid).unwrap();
    assert_eq!(p.username, "user-one");
    assert!(db.profiles.get_by_id("missing").is_none());
}

#[test]
fn auth_response_carries_its_parts() {
    let ok = AuthResponse::new(true, None);
    assert!(ok.success);
    assert!(ok.message.is_none());
    let err = AuthResponse::new(false, Some("Server error. Please try again".to_string()));
    assert!(!err.success);
    assert_eq!(err.message.unwrap(), "Server error. Please try again");
}

#[test]
fn update_email_with_unknown_subject_updates_nothing() {
    let mut db = DbController::new();
    register_one(&mut db, "a@b.com", "Abcdef1!", "user-one");
    // An update keyed by an unknown subject id touches no row and still
    // reports success, as an update of zero rows does.
    let r = Auth::update_email(&mut db, email("other@b.com"), "no-such-cid".to_string()).unwrap();
    assert!(r);
    assert_eq!(db.auths.record_at(0).email.as_str(), "a@b.com");
}

#[test]
fn registration_request_carries_raw_credentials() {
    let request = spade_api::AuthRegistrationRequest {
        email: "A@B.com".to_string(),
        password: "Abcdef1!".to_string(),
        username: "user-one".to_string(),
    };
    let mut db = DbController::new();
    Auth::register(
        &mut db,
        email(&request.email),
        password(&request.password),
        request.username,
        ACCESS_SECRET,
        REFRESH_SECRET,
        NOW,
    )
    .unwrap();
    assert!(db.auths.does_email_exist("a@b.com"));

    let login_request = spade_api::AuthAccessRequest {
        email: "a@b.com".to_string(),
        password: "Abcdef1!".to_string(),
    };
    assert!(Auth::login(
        &mut db,
        email(&login_request.email),
        password(&login_request.password),
        ACCESS_SECRET,
        REFRESH_SECRET,
        NOW,
    )
    .is_ok());
}
