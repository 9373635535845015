//! Auth service.
//!
//! Orchestrates registration, login, logout, token refresh, credential
//! update and account deletion by composing the value objects, the token
//! manager and the two stores.  Registration and deletion span both
//! stores; there is no distributed transaction, so the service restores
//! the invariant "a credential record exists only with a profile record
//! for the same subject" by an explicit compensating delete when the
//! second step fails.

use vstd::prelude::*;

use crate::email::Email;
use crate::error::AuthError;
use crate::jwt::jwt_payload;
use crate::jwt::AccessToken;
use crate::jwt::RefreshToken;
use crate::jwt::ACCESS_TOKEN_TTL_SECONDS;
use crate::jwt::REFRESH_TOKEN_TTL_SECONDS;
use crate::password::password_verifies;
use crate::password::Password;
use crate::profile::avatar_of;
use crate::profile::contains_profile_id;
use crate::profile::contains_username;
use crate::profile::ProfileStore;
use crate::profile::ProfileView;
use crate::store::contains_community_id;
use crate::store::contains_email;
use crate::store::contains_id;
use crate::store::Auth;
use crate::store::AuthView;
use crate::store::CredentialStore;

verus! {

/// The authentication store and the community store, owned together by
/// the service.
pub struct DbController {
    pub auths: CredentialStore,
    pub profiles: ProfileStore,
}

/// A credential record exists exactly with a profile record for the
/// same community (subject) id: every credential record has a profile
/// keyed by its community id, and every profile has a credential record
/// keyed by its id.
pub open spec fn stores_consistent(auths: Seq<AuthView>, profiles: Seq<ProfileView>) -> bool {
    &&& forall|i: int|
        0 <= i < auths.len() ==> contains_profile_id(profiles, #[trigger] auths[i].community_id)
    &&& forall|i: int|
        0 <= i < profiles.len() ==> contains_community_id(auths, #[trigger] profiles[i].id)
}

impl DbController {
    /// Both stores well-formed.
    pub open spec fn wf(&self) -> bool {
        self.auths.wf() && self.profiles.wf()
    }

    /// A controller over two empty stores.
    pub fn new() -> (r: DbController)
        ensures
            r.auths@ == Seq::<AuthView>::empty(),
            r.profiles@ == Seq::<ProfileView>::empty(),
            r.wf(),
    {
        DbController { auths: CredentialStore::new(), profiles: ProfileStore::new() }
    }
}

/// Raw login credentials as a transport layer hands them in.
#[derive(Debug, Default)]
pub struct AuthAccessRequest {
    pub email: String,
    pub password: String,
}

/// Raw registration input as a transport layer hands it in.
#[derive(Debug, Default)]
pub struct AuthRegistrationRequest {
    pub email: String,
    pub password: String,
    pub username: String,
}

/// A plain success-or-message reply for transport layers.
#[derive(Debug)]
pub struct AuthResponse {
    pub success: bool,
    pub message: Option<String>,
}

impl AuthResponse {
    /// Builds a reply from its parts.
    pub fn new(success: bool, message: Option<String>) -> (r: AuthResponse)
        ensures
            r.success == success,
            r.message == message,
    {
        AuthResponse { success, message }
    }
}

impl Auth {
    /// Builds a fresh credential record: a new account id, a new
    /// community (subject) id, a refresh token bound to the account id
    /// and an access token bound to the community id.
    pub fn new(
        email: Email,
        hash: String,
        access_secret: &str,
        refresh_secret: &str,
        now: u64,
    ) -> (r: Result<(Auth, AccessToken), AuthError>)
        requires
            now <= u64::MAX - REFRESH_TOKEN_TTL_SECONDS,
        ensures
            r is Ok,
            r matches Ok((auth, at)) ==> {
                &&& auth@.email == email@
                &&& auth@.hash == hash@
                &&& auth@.id.len() == 36
                &&& auth@.community_id.len() == 26
                &&& jwt_payload(auth@.refresh_token, refresh_secret@) == Some(
                    (auth@.id, now as int, now + REFRESH_TOKEN_TTL_SECONDS),
                )
                &&& jwt_payload(at@, access_secret@) == Some(
                    (auth@.community_id, now as int, now + ACCESS_TOKEN_TTL_SECONDS),
                )
            },
    {
        let auth_id = new_uuid();
        let community_id = new_ulid();
        let refresh_token = match RefreshToken::new(auth_id.as_str(), refresh_secret, now) {
            Ok(t) => t,
            Err(e) => return Err(e),
        };
        let access_token = match AccessToken::new(community_id.as_str(), access_secret, now) {
            Ok(t) => t,
            Err(e) => return Err(e),
        };
        let auth = Auth { id: auth_id, email, hash, community_id, refresh_token };
        Ok((auth, access_token))
    }

    /// Registration.  Rejects a known e-mail before any side effect;
    /// otherwise hashes the password, inserts the credential record and
    /// creates the profile.  When profile creation fails after the
    /// credential insert, a compensating delete removes the fresh
    /// credential record, so a failed registration never leaves a trace
    /// in either store.
    pub fn register(
        db: &mut DbController,
        email: Email,
        password: Password,
        username: String,
        access_secret: &str,
        refresh_secret: &str,
        now: u64,
    ) -> (r: Result<(AccessToken, RefreshToken), AuthError>)
        requires
            old(db).wf(),
            now <= u64::MAX - REFRESH_TOKEN_TTL_SECONDS,
        ensures
            final(db).wf(),
            contains_email(old(db).auths@, email@) <==> r == Err::<
                (AccessToken, RefreshToken),
                AuthError,
            >(AuthError::DuplicateUser),
            r is Err ==> final(db).auths@ == old(db).auths@ && final(db).profiles@ == old(
                db,
            ).profiles@,
            !contains_email(old(db).auths@, email@) && contains_username(
                old(db).profiles@,
                username@,
            ) ==> r == Err::<(AccessToken, RefreshToken), AuthError>(AuthError::ServerError),
            r matches Ok((at, rt)) ==> ({
                let a = final(db).auths@.last();
                &&& final(db).auths@ == old(db).auths@.push(a)
                &&& !contains_email(old(db).auths@, email@)
                &&& a.email == email@
                &&& password_verifies(password@, a.hash)
                &&& a.refresh_token == rt@
                &&& jwt_payload(rt@, refresh_secret@) == Some(
                    (a.id, now as int, now + REFRESH_TOKEN_TTL_SECONDS),
                )
                &&& jwt_payload(at@, access_secret@) == Some(
                    (a.community_id, now as int, now + ACCESS_TOKEN_TTL_SECONDS),
                )
                &&& final(db).profiles@ == old(db).profiles@.push(
                    ProfileView {
                        id: a.community_id,
                        username: username@,
                        avatar: avatar_of(a.community_id),
                        likes: Seq::<Seq<char>>::empty(),
                    },
                )
            }),
            stores_consistent(old(db).auths@, old(db).profiles@) ==> stores_consistent(
                final(db).auths@,
                final(db).profiles@,
            ),
    {
        if db.auths.does_email_exist(email.as_str()) {
            return Err(AuthError::DuplicateUser);
        }
        let hash = match password.hash() {
            Ok(h) => h,
            Err(e) => return Err(e),
        };
        let (auth, access_token) = match Auth::new(email, hash, access_secret, refresh_secret, now)
            {
            Ok(p) => p,
            Err(e) => return Err(e),
        };
        let refresh_token = auth.refresh_token.duplicate();
        let community_id = String::from_str(auth.community_id.as_str());
        let ghost a = auth@;
        if !db.auths.insert(auth) {
            // A randomly generated id collided with an existing record.
            return Err(AuthError::ServerError);
        }
        let ghost auths1 = db.auths@;
        match db.profiles.register(String::from_str(community_id.as_str()), username) {
            Ok(_) => {
                proof {
                    assert(final(db).auths@.last() == a);
                    if stores_consistent(old(db).auths@, old(db).profiles@) {
                        lemma_consistent_after_push(
                            old(db).auths@,
                            old(db).profiles@,
                            a,
                            final(db).profiles@.last(),
                        );
                    }
                }
                Ok((access_token, refresh_token))
            },
            Err(_) => {
                // Compensating delete: the credential insert is not
                // rolled back by the store, so remove it explicitly.
                db.auths.delete_by_community_id(community_id.as_str());
                proof {
                    assert(contains_community_id(auths1, a.community_id));
                    let i = choose|i: int|
                        0 <= i < auths1.len() && #[trigger] auths1[i].community_id
                            == a.community_id && db.auths@ == auths1.remove(i);
                    if i < old(db).auths@.len() {
                        assert(auths1[i] == old(db).auths@[i]);
                        assert(old(db).auths@[i].community_id == a.community_id);
                        assert(false);
                    }
                    assert(auths1.remove(i) =~= old(db).auths@);
                }
                Err(AuthError::ServerError)
            },
        }
    }

    /// Login.  Succeeds exactly when a record carries the e-mail and the
    /// password verifies against its hash; an unknown e-mail and a wrong
    /// password fail with the same generic error and no side effect.  On
    /// success new tokens are issued and the stored refresh token is
    /// overwritten, so at most one refresh token per account is ever
    /// valid against the store.
    pub fn login(
        db: &mut DbController,
        email: Email,
        password: Password,
        access_secret: &str,
        refresh_secret: &str,
        now: u64,
    ) -> (r: Result<(AccessToken, RefreshToken), AuthError>)
        requires
            old(db).wf(),
            now <= u64::MAX - REFRESH_TOKEN_TTL_SECONDS,
        ensures
            final(db).wf(),
            final(db).profiles@ == old(db).profiles@,
            r is Ok <==> (contains_email(old(db).auths@, email@) && forall|i: int|
                0 <= i < old(db).auths@.len() && #[trigger] old(db).auths@[i].email == email@
                    ==> password_verifies(password@, old(db).auths@[i].hash)),
            r matches Err(e) ==> e == AuthError::BadRequest && final(db).auths@ == old(
                db,
            ).auths@,
            r matches Ok((at, rt)) ==> ({
                &&& contains_email(old(db).auths@, email@)
                &&& final(db).auths@.len() == old(db).auths@.len()
                &&& forall|i: int|
                    0 <= i < old(db).auths@.len() ==> final(db).auths@[i] == (if old(
                        db,
                    ).auths@[i].email == email@ {
                        (AuthView { refresh_token: rt@, ..old(db).auths@[i] })
                    } else {
                        old(db).auths@[i]
                    })
                &&& forall|i: int|
                    0 <= i < old(db).auths@.len() && #[trigger] old(db).auths@[i].email == email@
                        ==> password_verifies(password@, old(db).auths@[i].hash) && jwt_payload(
                        at@,
                        access_secret@,
                    ) == Some(
                        (old(db).auths@[i].community_id, now as int, now + ACCESS_TOKEN_TTL_SECONDS),
                    ) && jwt_payload(rt@, refresh_secret@) == Some(
                        (old(db).auths@[i].id, now as int, now + REFRESH_TOKEN_TTL_SECONDS),
                    )
            }),
    {
        let idx = match db.auths.index_of_email(email.as_str()) {
            None => return Err(AuthError::BadRequest),
            Some(i) => i,
        };
        let rec_hash = String::from_str(db.auths.record_at(idx).hash.as_str());
        let rec_id = String::from_str(db.auths.record_at(idx).id.as_str());
        let rec_cid = String::from_str(db.auths.record_at(idx).community_id.as_str());
        proof {
            // The matching record is unique, so every e-mail match is
            // the record at `idx`.
            assert forall|i: int|
                0 <= i < db.auths@.len() && #[trigger] db.auths@[i].email
                    == email@ implies i == idx as int by {
                if i != idx as int {
                    assert(db.auths@[i].email != db.auths@[idx as int].email);
                }
            }
        }
        if password.verify(rec_hash.as_str()).is_err() {
            proof {
                assert(db.auths@[idx as int].email == email@ && !password_verifies(
                    password@,
                    db.auths@[idx as int].hash,
                ));
            }
            return Err(AuthError::BadRequest);
        }
        let access_token = match AccessToken::new(rec_cid.as_str(), access_secret, now) {
            Ok(t) => t,
            Err(e) => return Err(e),
        };
        let refresh_token = match RefreshToken::new(rec_id.as_str(), refresh_secret, now) {
            Ok(t) => t,
            Err(e) => return Err(e),
        };
        db.auths.set_refresh_token_by_email(email.as_str(), &refresh_token);
        Ok((access_token, refresh_token))
    }

    /// Logout.  Clears the stored refresh token of the account with this
    /// community (subject) id; this is the sole revocation mechanism.
    /// Access tokens already issued stay valid until their own expiry.
    pub fn logout(db: &mut DbController, id: &str) -> (r: Result<(), AuthError>)
        requires
            old(db).wf(),
        ensures
            final(db).wf(),
            final(db).profiles@ == old(db).profiles@,
            r is Ok,
            final(db).auths@.len() == old(db).auths@.len(),
            forall|i: int|
                0 <= i < old(db).auths@.len() ==> final(db).auths@[i] == (if old(
                    db,
                ).auths@[i].community_id == id@ {
                    (AuthView { refresh_token: Seq::<char>::empty(), ..old(db).auths@[i] })
                } else {
                    old(db).auths@[i]
                }),
    {
        db.auths.clear_refresh_token_by_community_id(id);
        Ok(())
    }

    /// Access-token refresh.  Looks the account up by the refresh
    /// token's subject (the account id) and issues a new access token
    /// bound to that record's community (subject) id, the externally
    /// visible identity; the stored refresh token is read but not
    /// rotated, and the store is never changed.  An unknown subject is
    /// forbidden.
    pub fn refresh(db: &DbController, id: &str, access_secret: &str, now: u64) -> (r: Result<
        AccessToken,
        AuthError,
    >)
        requires
            db.wf(),
            now <= u64::MAX - ACCESS_TOKEN_TTL_SECONDS,
        ensures
            r is Ok <==> contains_id(db.auths@, id@),
            r matches Err(e) ==> e == AuthError::Forbidden,
            r matches Ok(t) ==> forall|i: int|
                0 <= i < db.auths@.len() && #[trigger] db.auths@[i].id == id@ ==> jwt_payload(
                    t@,
                    access_secret@,
                ) == Some(
                    (db.auths@[i].community_id, now as int, now + ACCESS_TOKEN_TTL_SECONDS),
                ),
    {
        let idx = match db.auths.index_of_id(id) {
            None => return Err(AuthError::Forbidden),
            Some(i) => i,
        };
        let community_id = String::from_str(db.auths.record_at(idx).community_id.as_str());
        proof {
            // Account ids are unique, so every id match is the record
            // at `idx`.
            assert forall|i: int|
                0 <= i < db.auths@.len() && #[trigger] db.auths@[i].id
                    == id@ implies i == idx as int by {
                if i != idx as int {
                    assert(db.auths@[i].id != db.auths@[idx as int].id);
                }
            }
        }
        AccessToken::new(community_id.as_str(), access_secret, now)
    }

    /// E-mail update, keyed by community (subject) id.  Fails only where
    /// the store would: when another account already holds the new
    /// e-mail.
    pub fn update_email(db: &mut DbController, email: Email, community_id: String) -> (r: Result<
        bool,
        AuthError,
    >)
        requires
            old(db).wf(),
        ensures
            final(db).wf(),
            final(db).profiles@ == old(db).profiles@,
            r is Ok <==> !(exists|i: int|
                0 <= i < old(db).auths@.len() && #[trigger] old(db).auths@[i].email == email@
                    && old(db).auths@[i].community_id != community_id@),
            r matches Err(e) ==> e == AuthError::ServerError && final(db).auths@ == old(
                db,
            ).auths@,
            r matches Ok(b) ==> b && final(db).auths@.len() == old(db).auths@.len() && forall|
                i: int,
            |
                0 <= i < old(db).auths@.len() ==> final(db).auths@[i] == (if old(
                    db,
                ).auths@[i].community_id == community_id@ {
                    (AuthView { email: email@, ..old(db).auths@[i] })
                } else {
                    old(db).auths@[i]
                }),
    {
        if db.auths.set_email_by_community_id(community_id.as_str(), email) {
            Ok(true)
        } else {
            Err(AuthError::ServerError)
        }
    }

    /// Password update, keyed by community (subject) id.  The new value
    /// is hashed with a fresh salt and only the hash is stored.
    pub fn update_password(db: &mut DbController, password: Password, community_id: String) -> (r:
        Result<bool, AuthError>)
        requires
            old(db).wf(),
        ensures
            final(db).wf(),
            final(db).profiles@ == old(db).profiles@,
            r matches Err(e) ==> e == AuthError::ServerError && final(db).auths@ == old(
                db,
            ).auths@,
            r matches Ok(b) ==> b && final(db).auths@.len() == old(db).auths@.len() && (forall|
                i: int,
            |
                0 <= i < old(db).auths@.len() ==> final(db).auths@[i] == (if old(
                    db,
                ).auths@[i].community_id == community_id@ {
                    (AuthView { hash: final(db).auths@[i].hash, ..old(db).auths@[i] })
                } else {
                    old(db).auths@[i]
                })) && (forall|i: int|
                0 <= i < old(db).auths@.len() && #[trigger] old(db).auths@[i].community_id
                    == community_id@ ==> password_verifies(password@, final(db).auths@[i].hash)),
    {
        let hash = match password.hash() {
            Ok(h) => h,
            Err(e) => return Err(e),
        };
        db.auths.set_hash_by_community_id(community_id.as_str(), hash.as_str());
        Ok(true)
    }

    /// Account deletion.  Removes the credential record and the profile
    /// record keyed by this community (subject) id together.
    pub fn delete(db: &mut DbController, community_id: String) -> (r: Result<bool, AuthError>)
        requires
            old(db).wf(),
        ensures
            final(db).wf(),
            r == Ok::<bool, AuthError>(true),
            !contains_community_id(final(db).auths@, community_id@),
            !contains_profile_id(final(db).profiles@, community_id@),
            !contains_community_id(old(db).auths@, community_id@) ==> final(db).auths@ == old(
                db,
            ).auths@,
            contains_community_id(old(db).auths@, community_id@) ==> exists|i: int|
                0 <= i < old(db).auths@.len() && #[trigger] old(db).auths@[i].community_id
                    == community_id@ && final(db).auths@ == old(db).auths@.remove(i),
            !contains_profile_id(old(db).profiles@, community_id@) ==> final(db).profiles@ == old(
                db,
            ).profiles@,
            contains_profile_id(old(db).profiles@, community_id@) ==> exists|i: int|
                0 <= i < old(db).profiles@.len() && #[trigger] old(db).profiles@[i].id
                    == community_id@ && final(db).profiles@ == old(db).profiles@.remove(i),
            stores_consistent(old(db).auths@, old(db).profiles@) ==> stores_consistent(
                final(db).auths@,
                final(db).profiles@,
            ),
    {
        db.auths.delete_by_community_id(community_id.as_str());
        db.profiles.delete(community_id.as_str());
        proof {
            if stores_consistent(old(db).auths@, old(db).profiles@) {
                lemma_consistent_after_delete(
                    old(db).auths@,
                    old(db).profiles@,
                    final(db).auths@,
                    final(db).profiles@,
                    community_id@,
                );
            }
        }
        Ok(true)
    }
}

/// Pushing a credential record together with a profile record keyed by
/// the same community id preserves the cross-store invariant.
proof fn lemma_consistent_after_push(
    auths: Seq<AuthView>,
    profiles: Seq<ProfileView>,
    a: AuthView,
    p: ProfileView,
)
    requires
        stores_consistent(auths, profiles),
        p.id == a.community_id,
    ensures
        stores_consistent(auths.push(a), profiles.push(p)),
{
    let auths1 = auths.push(a);
    let profiles1 = profiles.push(p);
    assert forall|i: int| 0 <= i < auths1.len() implies contains_profile_id(
        profiles1,
        #[trigger] auths1[i].community_id,
    ) by {
        if i < auths.len() {
            assert(auths1[i] == auths[i]);
            assert(contains_profile_id(profiles, auths[i].community_id));
            let k = choose|k: int|
                0 <= k < profiles.len() && #[trigger] profiles[k].id == auths[i].community_id;
            assert(profiles1[k].id == auths1[i].community_id);
        } else {
            assert(profiles1[profiles.len() as int].id == auths1[i].community_id);
        }
    }
    assert forall|i: int| 0 <= i < profiles1.len() implies contains_community_id(
        auths1,
        #[trigger] profiles1[i].id,
    ) by {
        if i < profiles.len() {
            assert(profiles1[i] == profiles[i]);
            assert(contains_community_id(auths, profiles[i].id));
            let k = choose|k: int|
                0 <= k < auths.len() && #[trigger] auths[k].community_id == profiles[i].id;
            assert(auths1[k].community_id == profiles1[i].id);
        } else {
            assert(auths1[auths.len() as int].community_id == profiles1[i].id);
        }
    }
}

/// Removing the credential record and the profile record keyed by one
/// community id preserves the cross-store invariant.
proof fn lemma_consistent_after_delete(
    auths0: Seq<AuthView>,
    profiles0: Seq<ProfileView>,
    auths1: Seq<AuthView>,
    profiles1: Seq<ProfileView>,
    cid: Seq<char>,
)
    requires
        stores_consistent(auths0, profiles0),
        !contains_community_id(auths1, cid),
        !contains_profile_id(profiles1, cid),
        !contains_community_id(auths0, cid) ==> auths1 == auths0,
        contains_community_id(auths0, cid) ==> exists|i: int|
            0 <= i < auths0.len() && #[trigger] auths0[i].community_id == cid && auths1
                == auths0.remove(i),
        !contains_profile_id(profiles0, cid) ==> profiles1 == profiles0,
        contains_profile_id(profiles0, cid) ==> exists|i: int|
            0 <= i < profiles0.len() && #[trigger] profiles0[i].id == cid && profiles1
                == profiles0.remove(i),
    ensures
        stores_consistent(auths1, profiles1),
{
    assert forall|i: int| 0 <= i < auths1.len() implies contains_profile_id(
        profiles1,
        #[trigger] auths1[i].community_id,
    ) by {
        // The record at `i` survived the deletion, so it comes from
        // `auths0` and its community id is not `cid`.
        let i0: int = if contains_community_id(auths0, cid) {
            let d = choose|d: int|
                0 <= d < auths0.len() && #[trigger] auths0[d].community_id == cid && auths1
                    == auths0.remove(d);
            auths0.remove_ensures(d);
            assert(auths1[i] == auths0.remove(d)[i]);
            if i < d {
                i
            } else {
                i + 1
            }
        } else {
            i
        };
        assert(auths1[i] == auths0[i0]);
        assert(auths1[i].community_id != cid);
        assert(contains_profile_id(profiles0, auths0[i0].community_id));
        let k = choose|k: int|
            0 <= k < profiles0.len() && #[trigger] profiles0[k].id == auths0[i0].community_id;
        if contains_profile_id(profiles0, cid) {
            let e = choose|e: int|
                0 <= e < profiles0.len() && #[trigger] profiles0[e].id == cid && profiles1
                    == profiles0.remove(e);
            profiles0.remove_ensures(e);
            let k1: int = if k < e {
                k
            } else {
                k - 1
            };
            assert(k != e);
            assert(profiles1[k1] == profiles0.remove(e)[k1]);
            assert(profiles1[k1].id == auths1[i].community_id);
        } else {
            assert(profiles1[k].id == auths1[i].community_id);
        }
    }
    assert forall|i: int| 0 <= i < profiles1.len() implies contains_community_id(
        auths1,
        #[trigger] profiles1[i].id,
    ) by {
        // The profile at `i` survived the deletion, so it comes from
        // `profiles0` and its id is not `cid`.
        let i0: int = if contains_profile_id(profiles0, cid) {
            let e = choose|e: int|
                0 <= e < profiles0.len() && #[trigger] profiles0[e].id == cid && profiles1
                    == profiles0.remove(e);
            profiles0.remove_ensures(e);
            assert(profiles1[i] == profiles0.remove(e)[i]);
            if i < e {
                i
            } else {
                i + 1
            }
        } else {
            i
        };
        assert(profiles1[i] == profiles0[i0]);
        assert(profiles1[i].id != cid);
        assert(contains_community_id(auths0, profiles0[i0].id));
        let k = choose|k: int|
            0 <= k < auths0.len() && #[trigger] auths0[k].community_id == profiles0[i0].id;
        if contains_community_id(auths0, cid) {
            let d = choose|d: int|
                0 <= d < auths0.len() && #[trigger] auths0[d].community_id == cid && auths1
                    == auths0.remove(d);
            auths0.remove_ensures(d);
            let k1: int = if k < d {
                k
            } else {
                k - 1
            };
            assert(k != d);
            assert(auths1[k1] == auths0.remove(d)[k1]);
            assert(auths1[k1].community_id == profiles1[i].id);
        } else {
            assert(auths1[k].community_id == profiles1[i].id);
        }
    }
}

/// Relies on `Uuid::new_v4` and its `Display` form: a freshly generated
/// random version-4 UUID, rendered in the 36-character hyphenated form.
/// Nothing is assumed about which value comes back.
#[verifier::external_body]
fn new_uuid() -> (r: String)
    ensures
        r@.len() == 36,
{
    uuid::Uuid::new_v4().to_string()
}

/// Relies on `Ulid::generate` and `Ulid::to_string`: a freshly generated
/// ULID, rendered in the 26-character Crockford base32 form.  Nothing is
/// assumed about which value comes back.
#[verifier::external_body]
fn new_ulid() -> (r: String)
    ensures
        r@.len() == 26,
{
    ulid::Ulid::generate().to_string()
}

} // verus!
