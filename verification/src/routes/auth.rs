//! Registration, login, and current-user lookup.
//!
//! Login failure is one generic `Unauthorized` whether the username is
//! unknown or the password wrong: no username enumeration. Registration
//! rejects whitespace-only usernames, passwords shorter than three
//! bytes, unknown role spellings, and taken usernames, all as
//! `BadRequest`.

use vstd::prelude::*;
use crate::credentials::{hash_password, password_matches, verify_password};
use crate::errors::AppError;
use crate::roles::{Role, role_from_str, spec_role_of};
use crate::state::{AppState, fresh_uuid};
use crate::strutil::{all_blank, str_all_blank};
use crate::token::{decode_of, generate_token, validation_of};
use crate::users::{NewUser, UserPublic, UserView, public_of};

verus! {

/// The registration request: role only when an admin page creates the
/// account, else the default applies.
#[derive(Debug)]
pub struct RegisterPayload {
    pub username: String,
    pub password: String,
    pub identity: Option<String>,
}

/// The login request.
#[derive(Debug)]
pub struct LoginPayload {
    pub password: String,
    pub username: String,
}

/// What a successful registration or login returns: a bearer token and
/// the public user.
#[derive(Debug)]
pub struct AuthResponse {
    pub token: String,
    pub user: UserPublic,
}

/// Whether a registration is rejected outright: a username that a
/// whitespace trim leaves empty, a password of fewer than three bytes,
/// an unknown role spelling, or a username already registered.
pub open spec fn register_rejected(
    s: AppState,
    username: Seq<char>,
    password: Seq<char>,
    identity: Option<Seq<char>>,
) -> bool {
    ||| all_blank(username)
    ||| vstd::utf8::encode_utf8(password).len() < 3
    ||| (identity matches Some(l) && spec_role_of(l) is None)
    ||| s.users.contains_username(username)
}

/// The role a registration chooses: the supplied one, or `User` when
/// none is supplied. (Meaningful only when the payload is not
/// rejected.)
pub open spec fn chosen_role(identity: Option<Seq<char>>) -> Role {
    match identity {
        None => Role::User,
        Some(l) => match spec_role_of(l) {
            Some(role) => role,
            None => Role::Visitor,
        },
    }
}

/// What a successful registration guarantees about a later login: in a
/// well-formed store that holds the freshly registered row, the
/// credentials check of `login` accepts exactly the registered password
/// for that username, and resolves it to the registered subject — the
/// same subject the registration token carries.
pub proof fn lemma_registered_credentials_hold(
    s: crate::users::UserStore,
    prev: Seq<UserView>,
    u: UserView,
    password: Seq<char>,
)
    requires
        s.wf(),
        s.rows() == prev.push(u),
        password_matches(password, u.password),
    ensures
        s.contains_username(u.username),
        s.user_by_username(u.username).id == u.id,
        password_matches(password, s.user_by_username(u.username).password),
{
    let n = s.rows().len() - 1;
    assert(s.rows()[n] == u);
    assert(s.contains_username(u.username));
    let j = s.idx_of_username(u.username);
    assert(s.rows()[j].username == u.username);
    if j < n {
        assert(s.rows()[j].username != s.rows()[n].username);
    }
    assert(j == n);
}

impl AppState {
    /// Register a new account: validate, hash the password, issue a
    /// token, store the row. Only the hashing, signing and id-drawing
    /// subsystems can fail once the payload is accepted, and then
    /// nothing has been stored.
    pub fn register(&mut self, payload: &RegisterPayload, now: u64) -> (r: Result<
        AuthResponse,
        AppError,
    >)
        requires
            old(self).wf(),
            now + old(self).cfg.jwt_ttl <= u64::MAX,
        ensures
            final(self).wf(),
            final(self).cfg == old(self).cfg,
            final(self).articles == old(self).articles,
            final(self).comments == old(self).comments,
            r == Err::<AuthResponse, AppError>(AppError::BadRequest) <==> register_rejected(
                *old(self),
                payload.username@,
                payload.password@,
                crate::articles::opt_view(payload.identity),
            ),
            r is Err ==> r == Err::<AuthResponse, AppError>(AppError::BadRequest) || r == Err::<
                AuthResponse,
                AppError,
            >(AppError::Internal),
            r is Err ==> final(self).users.rows() == old(self).users.rows(),
            r matches Ok(resp) ==> exists|h: Seq<char>|
                #[trigger] password_matches(payload.password@, h) && final(self).users.rows()
                    == old(self).users.rows().push(
                    UserView {
                        id: resp.user@.id,
                        username: payload.username@,
                        password: h,
                        identity: chosen_role(crate::articles::opt_view(payload.identity)),
                    },
                ) && resp.user@ == public_of(
                    UserView {
                        id: resp.user@.id,
                        username: payload.username@,
                        password: h,
                        identity: chosen_role(crate::articles::opt_view(payload.identity)),
                    },
                ) && decode_of(old(self).cfg.jwt_secret@, resp.token@) == Some(
                    (
                        resp.user@.id,
                        payload.username@,
                        (now + old(self).cfg.jwt_ttl) as u64,
                        now,
                    ),
                ),
    {
        if str_all_blank(payload.username.as_str()) || payload.password.as_str().as_bytes().len()
            < 3 {
            return Err(AppError::BadRequest);
        }
        let identity = match &payload.identity {
            Some(l) => match role_from_str(l.as_str()) {
                Some(role) => role,
                None => {
                    return Err(AppError::BadRequest);
                },
            },
            None => Role::User,
        };
        if self.users.find_user_by_username(payload.username.as_str()).is_some() {
            return Err(AppError::BadRequest);
        }
        let hash = match hash_password(payload.password.as_str()) {
            Some(h) => h,
            None => {
                return Err(AppError::Internal);
            },
        };
        let id = fresh_uuid();
        let token = match generate_token(
            self.cfg.jwt_secret.as_str(),
            id.as_str(),
            payload.username.as_str(),
            self.cfg.jwt_ttl,
            now,
        ) {
            Ok(t) => t,
            Err(_) => {
                return Err(AppError::Internal);
            },
        };
        let new_user = NewUser { username: payload.username.clone(), password: hash, identity };
        let user = match self.users.insert_common_user(&new_user, id.as_str()) {
            Ok(u) => u,
            Err(_) => {
                return Err(AppError::Internal);
            },
        };
        let public = UserPublic { id: user.id, username: user.username, identity: user.identity };
        Ok(AuthResponse { token, user: public })
    }

    /// Log an account in: both an unknown username and a wrong password
    /// yield the same generic `Unauthorized`.
    pub fn login(&self, payload: &LoginPayload, now: u64) -> (r: Result<AuthResponse, AppError>)
        requires
            self.wf(),
            now + self.cfg.jwt_ttl <= u64::MAX,
        ensures
            ({
                let ok = self.users.contains_username(payload.username@) && password_matches(
                    payload.password@,
                    self.users.user_by_username(payload.username@).password,
                );
                let row = self.users.user_by_username(payload.username@);
                &&& (r == Err::<AuthResponse, AppError>(AppError::Unauthorized) <==> !ok)
                &&& (ok ==> r is Ok || r == Err::<AuthResponse, AppError>(AppError::Internal))
                &&& (r matches Ok(resp) ==> ok && resp.user@ == public_of(row) && decode_of(
                    self.cfg.jwt_secret@,
                    resp.token@,
                ) == Some((row.id, row.username, (now + self.cfg.jwt_ttl) as u64, now)))
            }),
    {
        let user = match self.users.find_user_by_username(payload.username.as_str()) {
            Some(u) => u,
            None => {
                return Err(AppError::Unauthorized);
            },
        };
        if !verify_password(payload.password.as_str(), user.password.as_str()) {
            return Err(AppError::Unauthorized);
        }
        let token = match generate_token(
            self.cfg.jwt_secret.as_str(),
            user.id.as_str(),
            user.username.as_str(),
            self.cfg.jwt_ttl,
            now,
        ) {
            Ok(t) => t,
            Err(_) => {
                return Err(AppError::Internal);
            },
        };
        Ok(
            AuthResponse {
                token,
                user: UserPublic {
                    id: user.id,
                    username: user.username,
                    identity: user.identity,
                },
            },
        )
    }

    /// The public user a bearer token names right now: `Unauthorized`
    /// for an invalid or expired token, `NotFound` when the subject no
    /// longer resolves.
    pub fn get_current_user(&self, token: &str, now: u64) -> (r: Result<UserPublic, AppError>)
        requires
            self.wf(),
        ensures
            ({
                match validation_of(decode_of(self.cfg.jwt_secret@, token@), now) {
                    Err(_) => r == Err::<UserPublic, AppError>(AppError::Unauthorized),
                    Ok(c) => if self.users.contains_id(c.0) {
                        (r matches Ok(p) && p@ == public_of(self.users.user_by_id(c.0)))
                    } else {
                        r == Err::<UserPublic, AppError>(AppError::NotFound)
                    },
                }
            }),
    {
        let claims = match crate::token::decode_token(self.cfg.jwt_secret.as_str(), token, now) {
            Ok(c) => c,
            Err(_) => {
                return Err(AppError::Unauthorized);
            },
        };
        match self.users.find_user_by_id(claims.user_id.as_str()) {
            Some(u) => Ok(
                UserPublic { id: u.id, username: u.username, identity: u.identity },
            ),
            None => Err(AppError::NotFound),
        }
    }

    /// The role behind a subject identifier, freshly looked up; an
    /// unresolvable subject behaves as a visitor for every check.
    pub fn get_ident_by_id(&self, id: &str) -> (r: Role)
        requires
            self.wf(),
        ensures
            r == self.role_of_subject(id@),
    {
        match self.users.find_user_by_id(id) {
            Some(u) => u.identity,
            None => Role::Visitor,
        }
    }
}

} // verus!
