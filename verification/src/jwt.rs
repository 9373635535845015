//! Token manager.
//!
//! Issues and validates signed, time-limited access and refresh tokens.
//! A token carries the claims `{aud, iss, iat, exp, sub}` in a signed,
//! three-part compact form; `aud` and `iss` are fixed constants for the
//! deployment and the signature is a symmetric HMAC under a secret that
//! the caller supplies (distinct secrets for access and refresh tokens).
//! Signature, audience and expiry must all validate before the subject
//! claim is trusted; any failure collapses to a single invalid-token
//! error so that callers cannot distinguish the reasons.

use vstd::prelude::*;

use crate::error::AuthError;

verus! {

/// Access tokens live one day.
pub const ACCESS_TOKEN_TTL_SECONDS: u64 = 86400;

/// Refresh tokens live fourteen days.
pub const REFRESH_TOKEN_TTL_SECONDS: u64 = 1209600;

/// The claims `(sub, iat, exp)` that signature-and-audience validation
/// under `secret` recovers from `token`, or `None` when the token is
/// malformed, carries the wrong audience or is not signed under
/// `secret`.  This names the outcome of the token library's
/// deterministic, time-independent part; expiry is checked separately
/// against a caller-supplied clock reading.
pub uninterp spec fn jwt_payload(token: Seq<char>, secret: Seq<char>) -> Option<
    (Seq<char>, int, int),
>;

/// Full validation outcome at time `now`: the payload when signature and
/// audience validate and `now` is strictly before the expiry, `None`
/// otherwise.
pub open spec fn token_decode_spec(token: Seq<char>, secret: Seq<char>, now: int) -> Option<
    (Seq<char>, int, int),
> {
    match jwt_payload(token, secret) {
        Some((sub, iat, exp)) => if now < exp {
            Some((sub, iat, exp))
        } else {
            None
        },
        None => None,
    }
}

/// A token decoded at or after its expiry boundary fails, whatever the
/// clock reading; decoded strictly before the boundary it succeeds and
/// yields exactly the claims it was issued with.
pub proof fn lemma_token_expiry_boundary(
    token: Seq<char>,
    secret: Seq<char>,
    sub: Seq<char>,
    iat: int,
    exp: int,
    now: int,
)
    requires
        jwt_payload(token, secret) == Some((sub, iat, exp)),
    ensures
        now >= exp ==> token_decode_spec(token, secret, now) is None,
        now < exp ==> token_decode_spec(token, secret, now) == Some((sub, iat, exp)),
{
}

/// Claims carried by an access token.
#[derive(Debug)]
pub struct AccessTokenClaims {
    pub aud: String,
    pub exp: u64,
    pub iat: u64,
    pub iss: String,
    pub sub: String,
}

/// Claims carried by a refresh token.
#[derive(Debug)]
pub struct RefreshTokenClaims {
    pub aud: String,
    pub exp: u64,
    pub iat: u64,
    pub iss: String,
    pub sub: String,
}

/// A signed access token, opaque to every other component.
#[derive(Debug)]
pub struct AccessToken {
    s: String,
}

impl View for AccessToken {
    type V = Seq<char>;

    closed spec fn view(&self) -> Seq<char> {
        self.s@
    }
}

impl AccessToken {
    /// Issues an access token bound to `id`, issued at `now` and
    /// expiring one day later, signed with the access secret.
    pub fn new(id: &str, secret: &str, now: u64) -> (r: Result<AccessToken, AuthError>)
        requires
            now <= u64::MAX - ACCESS_TOKEN_TTL_SECONDS,
        ensures
            r is Ok,
            r matches Ok(t) ==> jwt_payload(t@, secret@) == Some(
                (id@, now as int, now + ACCESS_TOKEN_TTL_SECONDS),
            ),
    {
        match jwt_encode(id, now, now + ACCESS_TOKEN_TTL_SECONDS, secret) {
            Some(t) => Ok(AccessToken { s: t }),
            None => Err(AuthError::ServerError),
        }
    }

    /// Validates signature, audience and expiry in one pass and returns
    /// the claims; any failure collapses to a single invalid-token
    /// error.
    pub fn decode(encoded_token: &str, secret: &str, now: u64) -> (r: Result<
        AccessTokenClaims,
        AuthError,
    >)
        ensures
            r is Ok <==> token_decode_spec(encoded_token@, secret@, now as int) is Some,
            r matches Ok(c) ==> token_decode_spec(encoded_token@, secret@, now as int) == Some(
                (c.sub@, c.iat as int, c.exp as int),
            ) && c.aud@ == "spadementalhealth.com"@ && c.iss@ == "auth.spadementalhealth.com"@,
            r matches Err(err) ==> err == AuthError::InvalidToken,
    {
        match decode_claims(encoded_token, secret, now) {
            Some((sub, iat, exp)) => Ok(
                AccessTokenClaims {
                    aud: String::from_str("spadementalhealth.com"),
                    exp,
                    iat,
                    iss: String::from_str("auth.spadementalhealth.com"),
                    sub,
                },
            ),
            None => Err(AuthError::InvalidToken),
        }
    }

    /// Read-only access to the signed compact form.
    pub fn as_str(&self) -> (r: &str)
        ensures
            r@ == self@,
    {
        self.s.as_str()
    }
}

/// A signed refresh token, opaque to every other component.  An empty
/// string stands for "logged out" in a stored credential record.
#[derive(Debug)]
pub struct RefreshToken {
    s: String,
}

impl View for RefreshToken {
    type V = Seq<char>;

    closed spec fn view(&self) -> Seq<char> {
        self.s@
    }
}

impl RefreshToken {
    /// Issues a refresh token bound to `id`, issued at `now` and
    /// expiring fourteen days later, signed with the refresh secret.
    pub fn new(id: &str, secret: &str, now: u64) -> (r: Result<RefreshToken, AuthError>)
        requires
            now <= u64::MAX - REFRESH_TOKEN_TTL_SECONDS,
        ensures
            r is Ok,
            r matches Ok(t) ==> jwt_payload(t@, secret@) == Some(
                (id@, now as int, now + REFRESH_TOKEN_TTL_SECONDS),
            ),
    {
        match jwt_encode(id, now, now + REFRESH_TOKEN_TTL_SECONDS, secret) {
            Some(t) => Ok(RefreshToken { s: t }),
            None => Err(AuthError::ServerError),
        }
    }

    /// Validates signature, audience and expiry in one pass and returns
    /// the claims; any failure collapses to a single invalid-token
    /// error.
    pub fn decode(encoded_token: &str, secret: &str, now: u64) -> (r: Result<
        RefreshTokenClaims,
        AuthError,
    >)
        ensures
            r is Ok <==> token_decode_spec(encoded_token@, secret@, now as int) is Some,
            r matches Ok(c) ==> token_decode_spec(encoded_token@, secret@, now as int) == Some(
                (c.sub@, c.iat as int, c.exp as int),
            ) && c.aud@ == "spadementalhealth.com"@ && c.iss@ == "auth.spadementalhealth.com"@,
            r matches Err(err) ==> err == AuthError::InvalidToken,
    {
        match decode_claims(encoded_token, secret, now) {
            Some((sub, iat, exp)) => Ok(
                RefreshTokenClaims {
                    aud: String::from_str("spadementalhealth.com"),
                    exp,
                    iat,
                    iss: String::from_str("auth.spadementalhealth.com"),
                    sub,
                },
            ),
            None => Err(AuthError::InvalidToken),
        }
    }

    /// The empty token, standing for "logged out" in a stored record.
    pub fn empty() -> (r: RefreshToken)
        ensures
            r@ == Seq::<char>::empty(),
    {
        RefreshToken { s: String::new() }
    }

    /// A second value carrying the same signed compact form, for storing
    /// the token while also returning it to the caller.
    pub fn duplicate(&self) -> (r: RefreshToken)
        ensures
            r@ == self@,
    {
        RefreshToken { s: String::from_str(self.s.as_str()) }
    }

    /// Read-only access to the signed compact form.
    pub fn as_str(&self) -> (r: &str)
        ensures
            r@ == self@,
    {
        self.s.as_str()
    }
}

/// Shared verified step of the two `decode` entry points: recover the
/// signature-and-audience-checked payload, then check expiry against the
/// supplied clock reading.
fn decode_claims(encoded_token: &str, secret: &str, now: u64) -> (r: Option<(String, u64, u64)>)
    ensures
        r is Some <==> token_decode_spec(encoded_token@, secret@, now as int) is Some,
        r matches Some(p) ==> token_decode_spec(encoded_token@, secret@, now as int) == Some(
            (p.0@, p.1 as int, p.2 as int),
        ),
{
    match jwt_decode(encoded_token, secret) {
        Some((sub, iat, exp)) => if now < exp {
            Some((sub, iat, exp))
        } else {
            None
        },
        None => None,
    }
}

/// Relies on `jsonwebtoken::encode` with an HS256 header: it serializes
/// the claims `{aud, iss, sub, iat, exp}` (with the deployment's fixed
/// audience and issuer) and signs them with the given secret, so that
/// `jsonwebtoken::decode` under the same secret and audience recovers
/// exactly these claims.  On this path encoding cannot fail: the key and
/// header families agree, a map of string and integer claims always
/// serializes, and the HMAC signer never errors.
#[verifier::external_body]
fn jwt_encode(sub: &str, iat: u64, exp: u64, secret: &str) -> (r: Option<String>)
    ensures
        r is Some,
        r matches Some(t) ==> jwt_payload(t@, secret@) == Some((sub@, iat as int, exp as int)),
{
    let mut claims = serde_json::Map::new();
    claims.insert("aud".to_string(), serde_json::Value::String("spadementalhealth.com".to_string()));
    claims.insert("iss".to_string(), serde_json::Value::String("auth.spadementalhealth.com".to_string()));
    claims.insert("sub".to_string(), serde_json::Value::String(sub.to_string()));
    claims.insert("iat".to_string(), serde_json::Value::from(iat));
    claims.insert("exp".to_string(), serde_json::Value::from(exp));
    let key = jsonwebtoken::EncodingKey::from_secret(secret.as_bytes());
    jsonwebtoken::encode(&jsonwebtoken::Header::default(), &claims, &key).ok()
}

/// Relies on `jsonwebtoken::decode` with HS256, the deployment's fixed
/// audience and expiry validation turned off: it verifies the signature
/// under the given secret, checks the audience claim, and returns the
/// carried claims; the outcome is a deterministic function of the token
/// and the secret alone.
#[verifier::external_body]
fn jwt_decode(token: &str, secret: &str) -> (r: Option<(String, u64, u64)>)
    ensures
        r matches Some(p) ==> jwt_payload(token@, secret@) == Some((p.0@, p.1 as int, p.2 as int)),
        r is None ==> jwt_payload(token@, secret@) is None,
{
    let mut validation = jsonwebtoken::Validation::new(jsonwebtoken::Algorithm::HS256);
    validation.set_audience(&["spadementalhealth.com"]);
    validation.validate_exp = false;
    let key = jsonwebtoken::DecodingKey::from_secret(secret.as_bytes());
    let data = jsonwebtoken::decode::<serde_json::Value>(token, &key, &validation).ok()?;
    let sub = data.claims.get("sub")?.as_str()?.to_string();
    let iat = data.claims.get("iat")?.as_u64()?;
    let exp = data.claims.get("exp")?.as_u64()?;
    Some((sub, iat, exp))
}

} // verus!
