//! The article lifecycle: draft, publish, edit, and who sees what.

use content_core::articles::{GetArticlesParams, NewArticle, NewStatus};
use content_core::errors::AppError;
use content_core::roles::Role;
use content_core::state::{AppState, Config};
use content_core::token::Claims;
use content_core::users::NewUser;

fn test_state() -> AppState {
    AppState::new(Config {
        host: "127.0.0.1".to_string(),
        port: 3000,
        jwt_secret: "articles-test-secret".to_string(),
        jwt_ttl: 3600,
    })
}

fn seed_user(state: &mut AppState, id: &str, username: &str, identity: Role) -> Claims {
    state
        .users
        .insert_common_user(
            &NewUser {
                username: username.to_string(),
                password: "unused-hash".to_string(),
                identity,
            },
            id,
        )
        .expect("seeding a user");
    Claims {
        user_id: id.to_string(),
        message: username.to_string(),
        exp: 2_000_000_000,
        iat: 1_700_000_000,
    }
}

fn payload(title: &str, content: &str) -> NewArticle {
    NewArticle {
        id: None,
        title: Some(title.to_string()),
        content: Some(content.to_string()),
        summary: Some("a summary".to_string()),
        status: None,
        tags: Some("tag1".to_string()),
    }
}

#[test]
fn lifecycle_draft_publish_edit() {
    let mut state = test_state();
    let admin = seed_user(&mut state, "1", "root", Role::Admin);
    let now: u64 = 1_700_000_100;

    // Admin creates article A: status starts as draft.
    let created = state.handle_post_article(&admin, &payload("Hello", "body"), now).unwrap();
    let id = created.id.clone().unwrap();
    let row = state.handle_get_article(&id).unwrap();
    assert_eq!(row.status.as_str(), "draft");
    assert_eq!(row.created_at, now);

    // Drafts are hidden from non-admin listings, admins see them.
    let visitor_list = state.articles(&GetArticlesParams { identity: "user".to_string(), condition: None });
    assert_eq!(visitor_list.articles.len(), 0);
    let admin_list = state.articles(&GetArticlesParams { identity: "admin".to_string(), condition: None });
    assert_eq!(admin_list.articles.len(), 1);

    // Toggle to published: now everyone sees it.
    let toggled = state
        .handle_patch_article(&admin, &id, &NewStatus { toggle: "published".to_string() })
        .unwrap();
    assert_eq!(toggled.status.as_str(), "published");
    let visitor_list = state.articles(&GetArticlesParams { identity: "visitor".to_string(), condition: None });
    assert_eq!(visitor_list.articles.len(), 1);
    assert_eq!(visitor_list.articles[0].title, "Hello");
    let admin_list = state.articles(&GetArticlesParams { identity: "admin".to_string(), condition: None });
    assert_eq!(admin_list.articles.len(), 1);

    // Editing the content reverts the status to draft and hides it
    // again until re-published.
    let mut edit = payload("Hello again", "new body");
    edit.id = Some(id.clone());
    let edited = state.handle_put_article(&admin, &id, &edit, now + 50).unwrap();
    assert_eq!(edited.status.as_str(), "draft");
    assert_eq!(edited.title.as_deref(), Some("Hello again"));
    assert_eq!(edited.update_at, Some(now + 50));
    let visitor_list = state.articles(&GetArticlesParams { identity: "user".to_string(), condition: None });
    assert_eq!(visitor_list.articles.len(), 0);
}

#[test]
fn keyword_filter_is_case_sensitive_substring() {
    let mut state = test_state();
    let admin = seed_user(&mut state, "1", "root", Role::Admin);
    let now: u64 = 1_700_000_100;

    let a = state.handle_post_article(&admin, &payload("Rust in practice", "b"), now).unwrap();
    let b = state.handle_post_article(&admin, &payload("Cooking for two", "b"), now).unwrap();
    for id in [a.id.clone().unwrap(), b.id.clone().unwrap()] {
        state
            .handle_patch_article(&admin, &id, &NewStatus { toggle: "published".to_string() })
            .unwrap();
    }

    let hit = state.articles(&GetArticlesParams {
        identity: "user".to_string(),
        condition: Some("Rust".to_string()),
    });
    assert_eq!(hit.articles.len(), 1);
    assert_eq!(hit.articles[0].title, "Rust in practice");

    let lower = state.articles(&GetArticlesParams {
        identity: "user".to_string(),
        condition: Some("rust".to_string()),
    });
    assert_eq!(lower.articles.len(), 0);

    let infix = state.articles(&GetArticlesParams {
        identity: "user".to_string(),
        condition: Some("ing for".to_string()),
    });
    assert_eq!(infix.articles.len(), 1);

    let all = state.articles(&GetArticlesParams {
        identity: "user".to_string(),
        condition: Some("".to_string()),
    });
    assert_eq!(all.articles.len(), 2);
}

#[test]
fn non_admin_mutations_are_forbidden() {
    let mut state = test_state();
    let admin = seed_user(&mut state, "1", "root", Role::Admin);
    let user = seed_user(&mut state, "2", "bob", Role::User);
    let visitor = seed_user(&mut state, "3", "eve", Role::Visitor);
    let ghost = Claims {
        user_id: "no-such-user".to_string(),
        message: "ghost".to_string(),
        exp: 2_000_000_000,
        iat: 1_700_000_000,
    };
    let now: u64 = 1_700_000_100;

    let created = state.handle_post_article(&admin, &payload("T", "b"), now).unwrap();
    let id = created.id.clone().unwrap();

    for claims in [&user, &visitor, &ghost] {
        let r = state.handle_post_article(claims, &payload("X", "y"), now);
        assert_eq!(r.unwrap_err(), AppError::Forbidden);
        let r = state.handle_put_article(claims, &id, &payload("X", "y"), now);
        assert_eq!(r.unwrap_err(), AppError::Forbidden);
        let r = state.handle_patch_article(claims, &id, &NewStatus { toggle: "published".to_string() });
        assert_eq!(r.unwrap_err(), AppError::Forbidden);
        let r = state.handle_delete_article(claims, &id);
        assert_eq!(r.unwrap_err(), AppError::Forbidden);
    }
    assert_eq!(AppError::Forbidden.status_code(), 403);

    // The article survived all of it.
    assert!(state.handle_get_article(&id).is_ok());
}

#[test]
fn article_error_paths() {
    let mut state = test_state();
    let admin = seed_user(&mut state, "1", "root", Role::Admin);
    let now: u64 = 1_700_000_100;

    let created = state.handle_post_article(&admin, &payload("T", "b"), now).unwrap();
    let id = created.id.clone().unwrap();

    // Path id and payload id must agree.
    let mut mismatched = payload("X", "y");
    mismatched.id = Some("some-other-id".to_string());
    let r = state.handle_put_article(&admin, &id, &mismatched, now);
    assert_eq!(r.unwrap_err(), AppError::BadRequest);

    // Unknown status spelling.
    let r = state.handle_patch_article(&admin, &id, &NewStatus { toggle: "archived".to_string() });
    assert_eq!(r.unwrap_err(), AppError::BadRequest);

    // Unknown article id.
    assert_eq!(state.handle_get_article("missing").unwrap_err(), AppError::NotFound);
    let r = state.handle_put_article(&admin, "missing", &payload("X", "y"), now);
    assert_eq!(r.unwrap_err(), AppError::NotFound);
    let r = state.handle_patch_article(&admin, "missing", &NewStatus { toggle: "draft".to_string() });
    assert_eq!(r.unwrap_err(), AppError::NotFound);
    assert_eq!(state.handle_delete_article(&admin, "missing").unwrap_err(), AppError::NotFound);
    assert_eq!(AppError::NotFound.status_code(), 404);

    // Deleting the real one works exactly once.
    state.handle_delete_article(&admin, &id).unwrap();
    assert_eq!(state.handle_delete_article(&admin, &id).unwrap_err(), AppError::NotFound);
}
