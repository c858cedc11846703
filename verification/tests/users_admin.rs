//! User administration: listing, deletion, account edits, and the
//! protected bootstrap account.

use content_core::errors::AppError;
use content_core::roles::{Role, role_from_str};
use content_core::routes::auth::LoginPayload;
use content_core::routes::users::{AdminEditAccountPayload, UsersQuery};
use content_core::state::{AppState, Config};
use content_core::token::Claims;
use content_core::users::NewUser;

fn test_state() -> AppState {
    AppState::new(Config {
        host: "127.0.0.1".to_string(),
        port: 3000,
        jwt_secret: "users-test-secret".to_string(),
        jwt_ttl: 3600,
    })
}

fn seed_user(state: &mut AppState, id: &str, username: &str, identity: Role) -> Claims {
    state
        .users
        .insert_common_user(
            &NewUser {
                username: username.to_string(),
                password: "unused-hash".to_string(),
                identity,
            },
            id,
        )
        .expect("seeding a user");
    Claims {
        user_id: id.to_string(),
        message: username.to_string(),
        exp: 2_000_000_000,
        iat: 1_700_000_000,
    }
}

fn edit(id: &str) -> AdminEditAccountPayload {
    AdminEditAccountPayload {
        current_token: Some("present".to_string()),
        edited_id: id.to_string(),
        edited_username: None,
        edited_password: None,
        edited_identity: None,
    }
}

#[test]
fn listing_is_admin_only_and_capped() {
    let mut state = test_state();
    let admin = seed_user(&mut state, "1", "root", Role::Admin);
    let user = seed_user(&mut state, "u1", "alice", Role::User);
    seed_user(&mut state, "u2", "bob", Role::User);
    seed_user(&mut state, "u3", "carl", Role::User);

    let r = state.get_users(&user, &UsersQuery { limit: None });
    assert_eq!(r.unwrap_err(), AppError::Forbidden);

    let all = state.get_users(&admin, &UsersQuery { limit: None }).unwrap();
    assert_eq!(all.users.len(), 4);
    assert_eq!(all.users[0].username, "root");
    assert_eq!(all.users[1].username, "alice");

    let two = state.get_users(&admin, &UsersQuery { limit: Some(2) }).unwrap();
    assert_eq!(two.users.len(), 2);

    let unlimited = state.get_users(&admin, &UsersQuery { limit: Some(-1) }).unwrap();
    assert_eq!(unlimited.users.len(), 4);
}

#[test]
fn listing_orders_by_id_ascending() {
    let mut state = test_state();
    // Seed out of insertion order: ids compare as strings.
    seed_user(&mut state, "z9", "zoe", Role::User);
    let admin = seed_user(&mut state, "1", "root", Role::Admin);
    seed_user(&mut state, "a2", "abe", Role::User);
    seed_user(&mut state, "a10", "ann", Role::User);

    let all = state.get_users(&admin, &UsersQuery { limit: None }).unwrap();
    let ids: Vec<&str> = all.users.iter().map(|u| u.id.as_str()).collect();
    assert_eq!(ids, vec!["1", "a10", "a2", "z9"]);

    // The cap keeps the smallest ids.
    let two = state.get_users(&admin, &UsersQuery { limit: Some(2) }).unwrap();
    let ids: Vec<&str> = two.users.iter().map(|u| u.id.as_str()).collect();
    assert_eq!(ids, vec!["1", "a10"]);
}

#[test]
fn deletion_is_admin_only() {
    let mut state = test_state();
    let admin = seed_user(&mut state, "1", "root", Role::Admin);
    let user = seed_user(&mut state, "u1", "alice", Role::User);
    seed_user(&mut state, "u2", "bob", Role::User);

    let r = state.delete_users(&user, "u2");
    assert_eq!(r.unwrap_err(), AppError::Forbidden);
    state.delete_users(&admin, "u2").expect("admin deletes");
    let listing = state.get_users(&admin, &UsersQuery { limit: None }).unwrap();
    assert_eq!(listing.users.len(), 2);
    // Deleting an absent id is a quiet no-op.
    state.delete_users(&admin, "u2").expect("no-op");
}

#[test]
fn bootstrap_account_role_is_immutable() {
    let mut state = test_state();
    let admin = seed_user(&mut state, "1", "root", Role::Admin);

    let mut downgrade = edit("1");
    downgrade.edited_identity = Some("user".to_string());
    assert_eq!(state.edit_account(&admin, &downgrade).unwrap_err(), AppError::Forbidden);

    let mut re_grant = edit("1");
    re_grant.edited_identity = Some("admin".to_string());
    assert_eq!(state.edit_account(&admin, &re_grant).unwrap_err(), AppError::Forbidden);

    // Without a role change the bootstrap account may be edited.
    let mut rename = edit("1");
    rename.edited_username = Some("superroot".to_string());
    state.edit_account(&admin, &rename).expect("rename is fine");
    let listing = state.get_users(&admin, &UsersQuery { limit: None }).unwrap();
    assert_eq!(listing.users[0].username, "superroot");
    assert_eq!(listing.users[0].identity, Role::Admin);
}

#[test]
fn account_edits_change_role_username_and_password() {
    let mut state = test_state();
    let admin = seed_user(&mut state, "1", "root", Role::Admin);
    let user = seed_user(&mut state, "u1", "alice", Role::User);
    seed_user(&mut state, "u2", "bob", Role::User);

    // The transport must echo a token.
    let mut no_token = edit("u1");
    no_token.current_token = None;
    assert_eq!(state.edit_account(&admin, &no_token).unwrap_err(), AppError::BadRequest);

    // Only admins edit accounts.
    assert_eq!(state.edit_account(&user, &edit("u2")).unwrap_err(), AppError::Forbidden);

    // Unknown role spellings are rejected at the boundary.
    let mut bad_role = edit("u1");
    bad_role.edited_identity = Some("superuser".to_string());
    assert_eq!(state.edit_account(&admin, &bad_role).unwrap_err(), AppError::BadRequest);

    // A username clash with another account is a constraint failure.
    let mut clash = edit("u1");
    clash.edited_username = Some("bob".to_string());
    assert_eq!(state.edit_account(&admin, &clash).unwrap_err(), AppError::Internal);
    assert_eq!(AppError::Internal.status_code(), 500);

    // A real edit: new username, new password, new role.
    let mut change = edit("u1");
    change.edited_username = Some("alicia".to_string());
    change.edited_password = Some("fresh-pass".to_string());
    change.edited_identity = Some("admin".to_string());
    state.edit_account(&admin, &change).expect("edit succeeds");

    let login = state
        .login(
            &LoginPayload { password: "fresh-pass".to_string(), username: "alicia".to_string() },
            1_700_000_300,
        )
        .expect("new credentials work");
    assert_eq!(login.user.id, "u1");
    assert_eq!(login.user.identity, Role::Admin);

    // An empty password field leaves the stored hash untouched.
    let mut keep = edit("u1");
    keep.edited_password = Some("".to_string());
    state.edit_account(&admin, &keep).expect("no-op password");
    state
        .login(
            &LoginPayload { password: "fresh-pass".to_string(), username: "alicia".to_string() },
            1_700_000_400,
        )
        .expect("old password still works");

    // Editing an unknown id is a quiet no-op.
    state.edit_account(&admin, &edit("missing")).expect("no-op");
}

#[test]
fn error_messages_are_generic() {
    assert_eq!(AppError::NotFound.message(), "not found");
    assert_eq!(AppError::Unauthorized.message(), "unauthorized");
    assert_eq!(AppError::BadRequest.message(), "bad request");
    assert_eq!(AppError::Forbidden.message(), "insufficient privileges");
    assert_eq!(AppError::Internal.message(), "internal server error");
}

#[test]
fn role_strings_round_trip() {
    assert_eq!(role_from_str("admin"), Some(Role::Admin));
    assert_eq!(role_from_str("user"), Some(Role::User));
    assert_eq!(role_from_str("visitor"), Some(Role::Visitor));
    assert_eq!(role_from_str("Admin"), None);
    assert_eq!(role_from_str(""), None);
    assert_eq!(Role::Admin.as_str(), "admin");
    assert_eq!(Role::User.as_str(), "user");
    assert_eq!(Role::Visitor.as_str(), "visitor");
}
