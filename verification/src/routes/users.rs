//! User administration: list, delete, edit. All admin-only.
//!
//! An account edit may change username, password and role; the password
//! is hashed before it is stored. No edit may change the role of the
//! bootstrap admin account, identifier `1`, in any direction.

use vstd::prelude::*;
use crate::credentials::{hash_password, password_matches};
use crate::errors::AppError;
use crate::roles::{Role, role_from_str, spec_role_of};
use crate::state::AppState;
use crate::strutil::str_eq;
use crate::token::Claims;
use crate::users::{UserPublic, UserStore, opt_string_view, public_of};
use vstd::string::StrSliceExecFns;

verus! {

/// The listing response.
#[derive(Debug)]
pub struct ListUsersResponse {
    pub users: Vec<UserPublic>,
}

/// The listing query: how many rows at most; ten when absent.
#[derive(Debug)]
pub struct UsersQuery {
    pub limit: Option<i32>,
}

/// An admin's account edit: absent fields stay as they are.
#[derive(Debug)]
pub struct AdminEditAccountPayload {
    /// Must be present; the transport's proof that a session exists.
    pub current_token: Option<String>,
    pub edited_id: String,
    pub edited_username: Option<String>,
    pub edited_password: Option<String>,
    pub edited_identity: Option<String>,
}

/// How a supplied password field relates to the hash that is stored:
/// absent or empty means the stored hash stays untouched, anything else
/// is stored as a hash of the supplied plaintext.
pub open spec fn password_edit_ok(supplied: Option<Seq<char>>, stored: Option<Seq<char>>) -> bool {
    match supplied {
        None => stored is None,
        Some(p) => if p.len() == 0 {
            stored is None
        } else {
            stored matches Some(h) && password_matches(p, h)
        },
    }
}

/// Whether an edit targets the protected bootstrap account's role: any
/// role change on account id `1` is refused.
pub open spec fn protected_account_edit(id: Seq<char>, identity: Option<Seq<char>>) -> bool {
    id == "1"@ && identity is Some
}

impl AppState {
    /// The first `limit` users (ten when unspecified, all when
    /// negative) as public rows; admin only.
    pub fn get_users(&self, auth: &Claims, query: &UsersQuery) -> (r: Result<
        ListUsersResponse,
        AppError,
    >)
        requires
            self.wf(),
        ensures
            self.role_of_subject(auth.user_id@) != Role::Admin <==> r == Err::<
                ListUsersResponse,
                AppError,
            >(AppError::Forbidden),
            self.role_of_subject(auth.user_id@) == Role::Admin ==> r is Ok,
            r matches Ok(resp) ==> ({
                let cap = self.users.list_len(
                    match query.limit {
                        Some(l) => l,
                        None => 10,
                    },
                );
                resp.users@.len() == cap && exists|sorted: Seq<crate::users::UserView>|
                    #[trigger] sorted.to_multiset() == self.users.rows().to_multiset()
                        && crate::users::sorted_by_id(sorted) && (forall|k: int|
                        0 <= k < resp.users@.len() ==> (#[trigger] resp.users@[k])@ == public_of(
                            sorted[k],
                        ))
            }),
    {
        if !matches!(self.get_ident_by_id(auth.user_id.as_str()), Role::Admin) {
            return Err(AppError::Forbidden);
        }
        let limit = match query.limit {
            Some(l) => l,
            None => 10,
        };
        Ok(ListUsersResponse { users: self.users.list_users(limit) })
    }

    /// Delete a user row; admin only. Deleting an absent id is a no-op,
    /// as the underlying delete touches no row.
    pub fn delete_users(&mut self, auth: &Claims, user_id: &str) -> (r: Result<(), AppError>)
        requires
            old(self).wf(),
        ensures
            final(self).wf(),
            final(self).cfg == old(self).cfg,
            final(self).articles == old(self).articles,
            final(self).comments == old(self).comments,
            old(self).role_of_subject(auth.user_id@) != Role::Admin <==> r == Err::<(), AppError>(
                AppError::Forbidden,
            ),
            old(self).role_of_subject(auth.user_id@) == Role::Admin ==> r is Ok,
            r is Err ==> final(self).users.rows() == old(self).users.rows(),
            r is Ok && !old(self).users.contains_id(user_id@) ==> final(self).users.rows() == old(self).users.rows(),
            r is Ok && old(self).users.contains_id(user_id@) ==> final(self).users.rows() == old(self).users.rows().remove(old(self).users.idx_of_id(user_id@)),
    {
        if !matches!(self.get_ident_by_id(auth.user_id.as_str()), Role::Admin) {
            return Err(AppError::Forbidden);
        }
        self.users.delete_user_by_id(user_id);
        Ok(())
    }

    /// Edit an account; admin only, with a token echo required in the
    /// payload. A role change on the bootstrap account is `Forbidden`;
    /// an unknown role spelling is `BadRequest`; a username clash or a
    /// hashing failure is `Internal`; an unknown id is a no-op.
    pub fn edit_account(&mut self, auth: &Claims, payload: &AdminEditAccountPayload) -> (r: Result<
        (),
        AppError,
    >)
        requires
            old(self).wf(),
        ensures
            final(self).wf(),
            final(self).cfg == old(self).cfg,
            final(self).articles == old(self).articles,
            final(self).comments == old(self).comments,
            r is Err ==> final(self).users.rows() == old(self).users.rows(),
            ({
                let admin = old(self).role_of_subject(auth.user_id@) == Role::Admin;
                let uname = crate::articles::opt_view(payload.edited_username);
                let ident = crate::articles::opt_view(payload.edited_identity);
                let pw = crate::articles::opt_view(payload.edited_password);
                let role_known = !(ident matches Some(l) && spec_role_of(l) is None);
                let valid = payload.current_token is Some && admin && !protected_account_edit(
                    payload.edited_id@,
                    ident,
                ) && role_known;
                let conflicting = old(self).users.contains_id(payload.edited_id@) && old(
                    self,
                ).users.username_conflict(payload.edited_id@, uname);
                let keeps_password = pw is None || pw.unwrap().len() == 0;
                &&& (valid && conflicting ==> r == Err::<(), AppError>(AppError::Internal))
                &&& (valid && !conflicting && keeps_password ==> r is Ok)
                &&& (valid && !conflicting && !keeps_password ==> r is Ok || r == Err::<
                    (),
                    AppError,
                >(AppError::Internal))
                &&& (payload.current_token is None ==> r == Err::<(), AppError>(
                    AppError::BadRequest,
                ))
                &&& (payload.current_token is Some && !admin ==> r == Err::<(), AppError>(
                    AppError::Forbidden,
                ))
                &&& (payload.current_token is Some && admin && protected_account_edit(
                    payload.edited_id@,
                    ident,
                ) ==> r == Err::<(), AppError>(AppError::Forbidden))
                &&& (payload.current_token is Some && admin && !protected_account_edit(
                    payload.edited_id@,
                    ident,
                ) && (ident matches Some(l) && spec_role_of(l) is None) ==> r == Err::<
                    (),
                    AppError,
                >(AppError::BadRequest))
                &&& (r is Ok ==> payload.current_token is Some && admin
                    && !protected_account_edit(payload.edited_id@, ident))
                &&& (r is Ok && !old(self).users.contains_id(payload.edited_id@) ==> final(self).users.rows() == old(self).users.rows())
                &&& (r is Ok && old(self).users.contains_id(payload.edited_id@) ==> exists|
                    hp: Option<Seq<char>>,
                |
                    #[trigger] password_edit_ok(crate::articles::opt_view(payload.edited_password), hp)
                        && !old(self).users.username_conflict(payload.edited_id@, uname) && final(self).users.rows() == old(self).users.rows().update(
                        old(self).users.idx_of_id(payload.edited_id@),
                        UserStore::edited_row(
                            old(self).users.user_by_id(payload.edited_id@),
                            uname,
                            hp,
                            match ident {
                                Some(l) => spec_role_of(l),
                                None => None,
                            },
                        ),
                    ))
            }),
    {
        if payload.current_token.is_none() {
            return Err(AppError::BadRequest);
        }
        if !matches!(self.get_ident_by_id(auth.user_id.as_str()), Role::Admin) {
            return Err(AppError::Forbidden);
        }
        if payload.edited_identity.is_some() && str_eq(payload.edited_id.as_str(), "1") {
            return Err(AppError::Forbidden);
        }
        let identity: Option<Role> = match &payload.edited_identity {
            Some(l) => match role_from_str(l.as_str()) {
                Some(role) => Some(role),
                None => {
                    return Err(AppError::BadRequest);
                },
            },
            None => None,
        };
        let hashed: Option<String> = match &payload.edited_password {
            Some(p) => {
                if p.as_str().unicode_len() == 0 {
                    None
                } else {
                    match hash_password(p.as_str()) {
                        Some(h) => Some(h),
                        None => {
                            return Err(AppError::Internal);
                        },
                    }
                }
            },
            None => None,
        };
        let ghost hp = crate::articles::opt_view(hashed);
        let uname_ref = payload.edited_username.as_ref();
        let pw_ref = hashed.as_ref();
        proof {
            assert(opt_string_view(uname_ref) == crate::articles::opt_view(
                payload.edited_username,
            ));
            assert(opt_string_view(pw_ref) == hp);
            assert(password_edit_ok(crate::articles::opt_view(payload.edited_password), hp));
        }
        match self.users.edit_user_account(payload.edited_id.as_str(), uname_ref, pw_ref, identity) {
            Ok(_) => {
                proof {
                    if old(self).users.contains_id(payload.edited_id@) {
                        assert(password_edit_ok(
                            crate::articles::opt_view(payload.edited_password),
                            hp,
                        ) && !old(self).users.username_conflict(
                            payload.edited_id@,
                            crate::articles::opt_view(payload.edited_username),
                        ) && self.users.rows() == old(self).users.rows().update(
                            old(self).users.idx_of_id(payload.edited_id@),
                            UserStore::edited_row(
                                old(self).users.user_by_id(payload.edited_id@),
                                crate::articles::opt_view(payload.edited_username),
                                hp,
                                match crate::articles::opt_view(payload.edited_identity) {
                                    Some(l) => spec_role_of(l),
                                    None => None,
                                },
                            ),
                        ));
                    }
                }
                Ok(())
            },
            Err(e) => Err(e),
        }
    }
}

} // verus!
