//! Registration and login flows over the application state.

use content_core::errors::AppError;
use content_core::roles::Role;
use content_core::routes::auth::{LoginPayload, RegisterPayload};
use content_core::state::{AppState, Config};
use content_core::token::decode_token;

fn test_state() -> AppState {
    AppState::new(Config {
        host: "127.0.0.1".to_string(),
        port: 3000,
        jwt_secret: "flow-test-secret".to_string(),
        jwt_ttl: 3600,
    })
}

#[test]
fn register_login_and_wrong_password() {
    let mut state = test_state();
    let now: u64 = 1_700_000_000;

    let reg = state
        .register(
            &RegisterPayload {
                username: "alice".to_string(),
                password: "secret1".to_string(),
                identity: None,
            },
            now,
        )
        .expect("registration should succeed");
    assert_eq!(reg.user.username, "alice");
    assert_eq!(reg.user.identity, Role::User);
    let subject1 = decode_token("flow-test-secret", &reg.token, now).unwrap().user_id;
    assert_eq!(subject1, reg.user.id);

    let login = state
        .login(
            &LoginPayload { password: "secret1".to_string(), username: "alice".to_string() },
            now + 10,
        )
        .expect("login should succeed");
    let subject2 = decode_token("flow-test-secret", &login.token, now + 10).unwrap().user_id;
    assert_eq!(subject1, subject2);

    let wrong = state.login(
        &LoginPayload { password: "wrong".to_string(), username: "alice".to_string() },
        now + 20,
    );
    assert_eq!(wrong.unwrap_err(), AppError::Unauthorized);
    assert_eq!(AppError::Unauthorized.status_code(), 401);

    let unknown = state.login(
        &LoginPayload { password: "secret1".to_string(), username: "bob".to_string() },
        now + 20,
    );
    assert_eq!(unknown.unwrap_err(), AppError::Unauthorized);
}

#[test]
fn register_rejects_bad_payloads() {
    let mut state = test_state();
    let now: u64 = 1_700_000_000;

    let blank = state.register(
        &RegisterPayload {
            username: "   ".to_string(),
            password: "secret1".to_string(),
            identity: None,
        },
        now,
    );
    assert_eq!(blank.unwrap_err(), AppError::BadRequest);

    let short = state.register(
        &RegisterPayload { username: "carl".to_string(), password: "ab".to_string(), identity: None },
        now,
    );
    assert_eq!(short.unwrap_err(), AppError::BadRequest);

    // A username of Unicode whitespace only trims to empty.
    let nbsp = state.register(
        &RegisterPayload {
            username: "\u{a0}\u{2003}".to_string(),
            password: "secret1".to_string(),
            identity: None,
        },
        now,
    );
    assert_eq!(nbsp.unwrap_err(), AppError::BadRequest);

    // Password length counts bytes: two characters of three bytes pass.
    state
        .register(
            &RegisterPayload {
                username: "didi".to_string(),
                password: "\u{e9}1".to_string(),
                identity: None,
            },
            now,
        )
        .expect("three-byte password accepted");

    let bad_role = state.register(
        &RegisterPayload {
            username: "carl".to_string(),
            password: "secret1".to_string(),
            identity: Some("root".to_string()),
        },
        now,
    );
    assert_eq!(bad_role.unwrap_err(), AppError::BadRequest);

    state
        .register(
            &RegisterPayload {
                username: "carl".to_string(),
                password: "secret1".to_string(),
                identity: Some("visitor".to_string()),
            },
            now,
        )
        .expect("valid registration");

    let duplicate = state.register(
        &RegisterPayload {
            username: "carl".to_string(),
            password: "secret2".to_string(),
            identity: None,
        },
        now,
    );
    assert_eq!(duplicate.unwrap_err(), AppError::BadRequest);
    assert_eq!(AppError::BadRequest.status_code(), 400);
}

#[test]
fn current_user_follows_token_and_store() {
    let mut state = test_state();
    let now: u64 = 1_700_000_000;

    let reg = state
        .register(
            &RegisterPayload {
                username: "dora".to_string(),
                password: "secret1".to_string(),
                identity: Some("admin".to_string()),
            },
            now,
        )
        .expect("registration should succeed");

    let me = state.get_current_user(&reg.token, now + 1).expect("token still valid");
    assert_eq!(me.id, reg.user.id);
    assert_eq!(me.identity, Role::Admin);

    let expired = state.get_current_user(&reg.token, now + 7200);
    assert_eq!(expired.unwrap_err(), AppError::Unauthorized);

    let garbage = state.get_current_user("no.such.token", now);
    assert_eq!(garbage.unwrap_err(), AppError::Unauthorized);

    // Delete the subject: the token still validates but the user is gone.
    let admin_claims = content_core::token::Claims {
        user_id: reg.user.id.clone(),
        message: "dora".to_string(),
        exp: now + 3600,
        iat: now,
    };
    state.delete_users(&admin_claims, &reg.user.id.clone()).expect("admin may delete");
    let gone = state.get_current_user(&reg.token, now + 1);
    assert_eq!(gone.unwrap_err(), AppError::NotFound);
}
