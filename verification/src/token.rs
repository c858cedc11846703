//! The token service: issuing and validating signed identity tokens.
//!
//! A token is an opaque signed string carrying the claims `user_id`
//! (subject), `message` (display label, informational only), `exp` and
//! `iat` (seconds). Signing and signature checking are done by the
//! `jsonwebtoken` crate behind two trusted wrappers whose shared
//! vocabulary is `decode_of`: what signature checking and claim parsing
//! yield for a given secret and token, a function of those two alone.
//! The expiry decision is made here, in verified code, against an
//! explicit `now` — issuing and validating are pure functions of their
//! inputs plus the wall-clock second handed in.

use vstd::prelude::*;
use crate::errors::{AppError, AuthError};

verus! {

/// The decoded payload of a bearer token.
#[derive(Debug)]
pub struct Claims {
    /// The subject: the user identifier, the only claim authorization
    /// may rely on.
    pub user_id: String,
    /// A display label echoed for convenience; never trusted for
    /// authorization.
    pub message: String,
    /// Expiry, seconds since the epoch.
    pub exp: u64,
    /// Issued-at, seconds since the epoch.
    pub iat: u64,
}

impl Claims {
    /// The claim fields as plain mathematical values.
    pub open spec fn view_tuple(self) -> (Seq<char>, Seq<char>, u64, u64) {
        (self.user_id@, self.message@, self.exp, self.iat)
    }
}

impl Clone for Claims {
    fn clone(&self) -> (r: Self)
        ensures
            r == *self,
    {
        Claims {
            user_id: self.user_id.clone(),
            message: self.message.clone(),
            exp: self.exp,
            iat: self.iat,
        }
    }
}

/// What signature checking and claim parsing yield for a given secret and
/// token: `None` when the token does not parse or its signature does not
/// match the secret, otherwise the `(user_id, message, exp, iat)` claims.
pub uninterp spec fn decode_of(secret: Seq<char>, token: Seq<char>) -> Option<
    (Seq<char>, Seq<char>, u64, u64),
>;

/// Sign the four claims into a token.
///
/// Relies on `jsonwebtoken::encode` with the default HS256 header, and on
/// `jsonwebtoken::decode` inverting it: decoding the returned token under
/// the same secret verifies the freshly made signature and yields exactly
/// the claims that were signed.
#[verifier::external_body]
fn encode_signed(secret: &str, user_id: &str, message: &str, exp: u64, iat: u64) -> (r: Option<
    String,
>)
    ensures
        r matches Some(t) ==> decode_of(secret@, t@) == Some((user_id@, message@, exp, iat)),
{
    let mut claims = serde_json::Map::new();
    claims.insert("user_id".to_owned(), serde_json::Value::String(user_id.to_owned()));
    claims.insert("message".to_owned(), serde_json::Value::String(message.to_owned()));
    claims.insert("exp".to_owned(), serde_json::Value::from(exp));
    claims.insert("iat".to_owned(), serde_json::Value::from(iat));
    let key = jsonwebtoken::EncodingKey::from_secret(secret.as_bytes());
    jsonwebtoken::encode(&jsonwebtoken::Header::default(), &serde_json::Value::Object(claims), &key)
        .ok()
}

/// Check a token's signature and parse its claims, without any expiry
/// decision.
///
/// Relies on `jsonwebtoken::decode` under HS256: it verifies the
/// signature (a constant-time comparison) before deserializing, and with
/// expiry validation switched off the outcome is a function of the secret
/// and the token alone. A token whose signature does not match is never
/// accepted, whatever its claims say.
#[verifier::external_body]
fn decode_signed(secret: &str, token: &str) -> (r: Option<Claims>)
    ensures
        r matches Some(c) ==> decode_of(secret@, token@) == Some(
            (c.user_id@, c.message@, c.exp, c.iat),
        ),
        r is None ==> decode_of(secret@, token@) is None,
{
    let mut validation = jsonwebtoken::Validation::default();
    validation.validate_exp = false;
    let key = jsonwebtoken::DecodingKey::from_secret(secret.as_bytes());
    let data = jsonwebtoken::decode::<serde_json::Value>(token, &key, &validation).ok()?;
    let user_id = data.claims.get("user_id")?.as_str()?.to_owned();
    let message = data.claims.get("message")?.as_str()?.to_owned();
    let exp = data.claims.get("exp")?.as_u64()?;
    let iat = data.claims.get("iat")?.as_u64()?;
    Some(Claims { user_id, message, exp, iat })
}

/// The validation decision over decoded claims: a token that does not
/// decode is `Malformed`; one that decodes is accepted exactly while
/// `now < exp`, and `Expired` from `exp` on.
pub open spec fn validation_of(d: Option<(Seq<char>, Seq<char>, u64, u64)>, now: u64) -> Result<
    (Seq<char>, Seq<char>, u64, u64),
    AuthError,
> {
    match d {
        None => Err(AuthError::Malformed),
        Some(c) => if now < c.2 {
            Ok(c)
        } else {
            Err(AuthError::Expired)
        },
    }
}

/// Issue a token for `user_id` with display label `username`, valid for
/// `ttl` seconds from `now`. Fails only when the signing subsystem does.
pub fn generate_token(secret: &str, user_id: &str, username: &str, ttl: u64, now: u64) -> (r:
    Result<String, AppError>)
    requires
        now + ttl <= u64::MAX,
    ensures
        r matches Ok(t) ==> decode_of(secret@, t@) == Some(
            (user_id@, username@, (now + ttl) as u64, now),
        ),
        r is Err ==> r == Err::<String, AppError>(AppError::Internal),
{
    let exp = now + ttl;
    match encode_signed(secret, user_id, username, exp, now) {
        Some(t) => Ok(t),
        None => Err(AppError::Internal),
    }
}

/// Validate a token at time `now`: signature first, then expiry. The
/// result is exactly `validation_of` applied to what the signature check
/// yields.
pub fn decode_token(secret: &str, token: &str, now: u64) -> (r: Result<Claims, AuthError>)
    ensures
        r matches Ok(c) ==> validation_of(decode_of(secret@, token@), now) == Ok::<
            _,
            AuthError,
        >(c.view_tuple()),
        r matches Err(e) ==> validation_of(decode_of(secret@, token@), now) == Err::<
            (Seq<char>, Seq<char>, u64, u64),
            _,
        >(e),
{
    match decode_signed(secret, token) {
        None => Err(AuthError::Malformed),
        Some(c) => {
            if now < c.exp {
                Ok(c)
            } else {
                Err(AuthError::Expired)
            }
        },
    }
}

/// A token as issued — carrying its subject, label, and expiry
/// `iat + ttl` — validates, at any time before that expiry, to exactly
/// its subject and label.
pub proof fn lemma_fresh_token_validates(
    secret: Seq<char>,
    token: Seq<char>,
    subject: Seq<char>,
    label: Seq<char>,
    ttl: u64,
    iat: u64,
    now: u64,
)
    requires
        ttl > 0,
        iat + ttl <= u64::MAX,
        decode_of(secret, token) == Some((subject, label, (iat + ttl) as u64, iat)),
        now < iat + ttl,
    ensures
        validation_of(decode_of(secret, token), now) == Ok::<_, AuthError>(
            (subject, label, (iat + ttl) as u64, iat),
        ),
{
}

/// Once `now` has reached `issued_at + ttl`, a token issued with that
/// time-to-live validates to `Expired`, whatever its claims say.
pub proof fn lemma_expired_token_rejected(
    secret: Seq<char>,
    token: Seq<char>,
    subject: Seq<char>,
    label: Seq<char>,
    ttl: u64,
    iat: u64,
    now: u64,
)
    requires
        iat + ttl <= u64::MAX,
        decode_of(secret, token) == Some((subject, label, (iat + ttl) as u64, iat)),
        now >= iat + ttl,
    ensures
        validation_of(decode_of(secret, token), now) == Err::<
            (Seq<char>, Seq<char>, u64, u64),
            AuthError,
        >(AuthError::Expired),
{
}

} // verus!
