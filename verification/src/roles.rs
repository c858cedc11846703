//! Roles and the permission decision table.
//!
//! A role is a closed enumeration; unknown role strings are rejected at the
//! boundary rather than silently defaulted. Every permission check matches
//! exhaustively on the role, and the decision table is a single spec
//! function that the guarded operations are proved against.

use vstd::prelude::*;
use crate::errors::AppError;

verus! {

/// The three tiers of the platform. `Visitor` is the default for
/// unauthenticated or unresolved identities.
#[derive(Clone, Copy, Debug, PartialEq, Eq, Structural)]
pub enum Role {
    Admin,
    User,
    Visitor,
}

/// The actions that the permission guard decides on.
#[derive(Clone, Copy, Debug, PartialEq, Eq, Structural)]
pub enum Action {
    /// Create, update, delete an article or toggle its status.
    ManageArticles,
    /// See draft articles in listings as well as published ones.
    ListAllArticles,
    /// Post a comment on an article.
    CreateComment,
    /// Delete any comment.
    DeleteComment,
    /// Toggle the like marker on a comment.
    ToggleLike,
    /// List, delete or edit user accounts.
    ManageUsers,
}

/// The decision table: which role may perform which action.
pub open spec fn role_allows(role: Role, action: Action) -> bool {
    match action {
        Action::ManageArticles => role is Admin,
        Action::ListAllArticles => role is Admin,
        Action::CreateComment => role is Admin || role is User,
        Action::DeleteComment => role is Admin,
        Action::ToggleLike => role is Admin || role is User,
        Action::ManageUsers => role is Admin,
    }
}

/// Whether a role string is one of the three accepted spellings.
pub open spec fn spec_role_of(s: Seq<char>) -> Option<Role> {
    if s == "admin"@ {
        Some(Role::Admin)
    } else if s == "user"@ {
        Some(Role::User)
    } else if s == "visitor"@ {
        Some(Role::Visitor)
    } else {
        None
    }
}

/// Parse a role string, rejecting anything but the three known spellings.
pub fn role_from_str(s: &str) -> (r: Option<Role>)
    ensures
        r == spec_role_of(s@),
{
    if crate::strutil::str_eq(s, "admin") {
        Some(Role::Admin)
    } else if crate::strutil::str_eq(s, "user") {
        Some(Role::User)
    } else if crate::strutil::str_eq(s, "visitor") {
        Some(Role::Visitor)
    } else {
        None
    }
}

/// The canonical spelling of each role.
pub open spec fn spec_role_str(role: Role) -> Seq<char> {
    match role {
        Role::Admin => "admin"@,
        Role::User => "user"@,
        Role::Visitor => "visitor"@,
    }
}

impl Role {
    /// The canonical spelling of this role.
    pub fn as_str(&self) -> (r: &'static str)
        ensures
            r@ == spec_role_str(*self),
    {
        match *self {
            Role::Admin => "admin",
            Role::User => "user",
            Role::Visitor => "visitor",
        }
    }
}

/// Check a role against the decision table, reporting `Forbidden` when the
/// role is insufficient: the caller was authenticated, only its tier is
/// lacking.
pub fn check_permission(role: Role, action: Action) -> (r: Result<(), AppError>)
    ensures
        r is Ok <==> role_allows(role, action),
        r is Err ==> r == Err::<(), AppError>(AppError::Forbidden),
{
    let allowed = match action {
        Action::ManageArticles => matches!(role, Role::Admin),
        Action::ListAllArticles => matches!(role, Role::Admin),
        Action::CreateComment => matches!(role, Role::Admin | Role::User),
        Action::DeleteComment => matches!(role, Role::Admin),
        Action::ToggleLike => matches!(role, Role::Admin | Role::User),
        Action::ManageUsers => matches!(role, Role::Admin),
    };
    if allowed {
        Ok(())
    } else {
        Err(AppError::Forbidden)
    }
}

} // verus!
