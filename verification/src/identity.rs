//! The identity resolver: from a raw `Authorization` header value to
//! validated claims.
//!
//! Two contracts over the same logic, both pinned to `resolution_of`:
//! the required variant fails with `Unauthorized` when no identity can be
//! derived, the optional variant yields "no identity" instead and never
//! fails. Neither touches storage.

use vstd::prelude::*;
use vstd::string::StrSliceExecFns;
use crate::errors::AppError;
use crate::token::{Claims, decode_of, decode_token, validation_of};

verus! {

/// An identity that a request must carry: the claims of a validated
/// bearer token.
pub struct JwtAuth(pub Claims);

/// An identity that a request may carry: `None` when the header is
/// missing, the prefix malformed, or the token invalid or expired.
pub struct MaybeJwtAuth(pub Option<Claims>);

/// Whether a header value begins with the literal bearer scheme prefix.
pub open spec fn has_bearer_prefix(s: Seq<char>) -> bool {
    s.len() >= 7 && s.subrange(0, 7) == "Bearer "@
}

/// Strip the literal `"Bearer "` prefix from a header value; `None` when
/// the prefix is missing.
pub fn extract_token_from_header(auth_header: &str) -> (r: Option<String>)
    ensures
        has_bearer_prefix(auth_header@) ==> (r matches Some(t) && t@ == auth_header@.skip(7)),
        !has_bearer_prefix(auth_header@) ==> r is None,
{
    proof {
        reveal_strlit("Bearer ");
    }
    let len = auth_header.unicode_len();
    if len < 7 {
        return None;
    }
    let prefix = "Bearer ";
    let mut i: usize = 0;
    while i < 7
        invariant
            len == auth_header@.len(),
            len >= 7,
            i <= 7,
            prefix@ == "Bearer "@,
            prefix@.len() == 7,
            forall|j: int| 0 <= j < i ==> auth_header@[j] == prefix@[j],
        decreases 7 - i,
    {
        if auth_header.get_char(i) != prefix.get_char(i) {
            proof {
                assert(auth_header@.subrange(0, 7)[i as int] == auth_header@[i as int]);
            }
            return None;
        }
        i = i + 1;
    }
    proof {
        assert(auth_header@.subrange(0, 7) =~= "Bearer "@);
    }
    let token = auth_header.substring_char(7, len);
    Some(String::from_str(token))
}

/// The identity an `Authorization` header value yields at time `now`
/// under `secret`: the validated claims, or nothing.
pub open spec fn resolution_of(secret: Seq<char>, header: Option<Seq<char>>, now: u64) -> Option<
    (Seq<char>, Seq<char>, u64, u64),
> {
    match header {
        None => None,
        Some(h) => if has_bearer_prefix(h) {
            match validation_of(decode_of(secret, h.skip(7)), now) {
                Ok(c) => Some(c),
                Err(_) => None,
            }
        } else {
            None
        },
    }
}

/// The header value as a mathematical value.
pub open spec fn header_view(header: Option<&str>) -> Option<Seq<char>> {
    match header {
        None => None,
        Some(h) => Some(h@),
    }
}

/// Resolve a mandatory identity: a missing header, a missing `"Bearer "`
/// prefix, and a malformed or expired token all yield `Unauthorized`,
/// indistinguishably.
pub fn resolve_required(secret: &str, header: Option<&str>, now: u64) -> (r: Result<
    JwtAuth,
    AppError,
>)
    ensures
        r matches Ok(a) ==> resolution_of(secret@, header_view(header), now) == Some(
            a.0.view_tuple(),
        ),
        r is Err ==> r == Err::<JwtAuth, AppError>(AppError::Unauthorized) && resolution_of(
            secret@,
            header_view(header),
            now,
        ) is None,
{
    let header_value = match header {
        Some(h) => h,
        None => {
            return Err(AppError::Unauthorized);
        },
    };
    let token = match extract_token_from_header(header_value) {
        Some(t) => t,
        None => {
            return Err(AppError::Unauthorized);
        },
    };
    match decode_token(secret, token.as_str(), now) {
        Ok(claims) => Ok(JwtAuth(claims)),
        Err(_) => Err(AppError::Unauthorized),
    }
}

/// Resolve an optional identity: the same derivation, but every failure
/// yields "no identity" instead of an error. Used by read paths that
/// personalize output without requiring login.
pub fn resolve_optional(secret: &str, header: Option<&str>, now: u64) -> (r: MaybeJwtAuth)
    ensures
        r.0 matches Some(c) ==> resolution_of(secret@, header_view(header), now) == Some(
            c.view_tuple(),
        ),
        r.0 is None ==> resolution_of(secret@, header_view(header), now) is None,
{
    match resolve_required(secret, header, now) {
        Ok(JwtAuth(claims)) => MaybeJwtAuth(Some(claims)),
        Err(_) => MaybeJwtAuth(None),
    }
}

} // verus!
