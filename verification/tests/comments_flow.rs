//! Threaded comments, permissions, and the like toggle.

use content_core::comments::CommentIncome;
use content_core::errors::AppError;
use content_core::roles::Role;
use content_core::routes::comments::LikeCommentPayload;
use content_core::state::{AppState, Config};
use content_core::token::Claims;
use content_core::users::NewUser;

fn test_state() -> AppState {
    AppState::new(Config {
        host: "127.0.0.1".to_string(),
        port: 3000,
        jwt_secret: "comments-test-secret".to_string(),
        jwt_ttl: 3600,
    })
}

fn seed_user(state: &mut AppState, id: &str, username: &str, identity: Role) -> Claims {
    state
        .users
        .insert_common_user(
            &NewUser {
                username: username.to_string(),
                password: "unused-hash".to_string(),
                identity,
            },
            id,
        )
        .expect("seeding a user");
    Claims {
        user_id: id.to_string(),
        message: username.to_string(),
        exp: 2_000_000_000,
        iat: 1_700_000_000,
    }
}

fn seed_article(state: &mut AppState, admin: &Claims, title: &str) -> String {
    let created = state
        .handle_post_article(
            admin,
            &content_core::articles::NewArticle {
                id: None,
                title: Some(title.to_string()),
                content: Some("body".to_string()),
                summary: None,
                status: None,
                tags: None,
            },
            1_700_000_050,
        )
        .expect("creating an article");
    created.id.unwrap()
}

fn income(article_id: &str, content: &str, parent_id: Option<String>) -> CommentIncome {
    CommentIncome {
        article_id: article_id.to_string(),
        user_id: None,
        content: content.to_string(),
        parent_id,
    }
}

#[test]
fn thread_with_reply_and_admin_only_delete() {
    let mut state = test_state();
    let admin = seed_user(&mut state, "1", "root", Role::Admin);
    let user1 = seed_user(&mut state, "u1", "alice", Role::User);
    let user2 = seed_user(&mut state, "u2", "bob", Role::User);
    let article = seed_article(&mut state, &admin, "A");

    let c1 = state
        .handle_post_comment(&user1, &income(&article, "first!", None), 1_700_000_100)
        .expect("top-level comment");
    assert_eq!(c1.user, "alice");
    assert_eq!(c1.parent_id, None);

    let c2 = state
        .handle_post_comment(
            &user2,
            &income(&article, "replying", Some(c1.comment_id.clone())),
            1_700_000_200,
        )
        .expect("reply");
    assert_eq!(c2.parent_id.as_deref(), Some(c1.comment_id.as_str()));

    let listing = state.handle_get_comments(Some(&user2), &article).expect("listing");
    assert_eq!(listing.comments.len(), 2);
    // Newest first: the reply precedes the top-level comment.
    assert_eq!(listing.comments[0].comment_id, c2.comment_id);
    assert_eq!(listing.comments[0].parent_id.as_deref(), Some(c1.comment_id.as_str()));
    assert_eq!(listing.comments[1].comment_id, c1.comment_id);

    // Deleting C1 as a non-admin fails Forbidden; as admin succeeds.
    let r = state.handle_delete_comment(&user2, &c1.comment_id);
    assert_eq!(r.unwrap_err(), AppError::Forbidden);
    let done = state.handle_delete_comment(&admin, &c1.comment_id).expect("admin delete");
    assert_eq!(done.comment_id, c1.comment_id);
    assert_eq!(done.message.as_deref(), Some("deletion operation completed"));
    let listing = state.handle_get_comments(Some(&user2), &article).expect("listing");
    assert_eq!(listing.comments.len(), 1);
    assert_eq!(listing.comments[0].comment_id, c2.comment_id);
}

#[test]
fn like_toggle_is_an_involution_on_the_counter() {
    let mut state = test_state();
    let admin = seed_user(&mut state, "1", "root", Role::Admin);
    let user1 = seed_user(&mut state, "u1", "alice", Role::User);
    let user2 = seed_user(&mut state, "u2", "bob", Role::User);
    let article = seed_article(&mut state, &admin, "A");
    let c = state
        .handle_post_comment(&user1, &income(&article, "like me", None), 1_700_000_100)
        .expect("comment");
    assert_eq!(c.like_count, 0);
    let payload = LikeCommentPayload { comment_id: c.comment_id.clone() };

    // user2 likes: count 1, flagged for user2, not for user1.
    let r = state.like_comment(&user2, &payload).expect("toggle");
    assert_eq!(r.like_or_unlike, "liked");
    let seen_by_2 = state.handle_get_comments(Some(&user2), &article).unwrap();
    assert_eq!(seen_by_2.comments[0].like_count, 1);
    assert!(seen_by_2.comments[0].liked_by_me);
    let seen_by_1 = state.handle_get_comments(Some(&user1), &article).unwrap();
    assert_eq!(seen_by_1.comments[0].like_count, 1);
    assert!(!seen_by_1.comments[0].liked_by_me);

    // A second user's like raises the count independently.
    let r = state.like_comment(&user1, &payload).expect("toggle");
    assert_eq!(r.like_or_unlike, "liked");
    let seen = state.handle_get_comments(None, &article).unwrap();
    assert_eq!(seen.comments[0].like_count, 2);
    assert!(!seen.comments[0].liked_by_me);

    // user2 toggles again: back to one row, the flag gone, user1's kept.
    let r = state.like_comment(&user2, &payload).expect("toggle");
    assert_eq!(r.like_or_unlike, "unliked");
    let seen_by_2 = state.handle_get_comments(Some(&user2), &article).unwrap();
    assert_eq!(seen_by_2.comments[0].like_count, 1);
    assert!(!seen_by_2.comments[0].liked_by_me);
    let seen_by_1 = state.handle_get_comments(Some(&user1), &article).unwrap();
    assert!(seen_by_1.comments[0].liked_by_me);
}

#[test]
fn visitors_cannot_post_or_like() {
    let mut state = test_state();
    let admin = seed_user(&mut state, "1", "root", Role::Admin);
    let user1 = seed_user(&mut state, "u1", "alice", Role::User);
    let visitor = seed_user(&mut state, "v1", "eve", Role::Visitor);
    let ghost = Claims {
        user_id: "no-such-user".to_string(),
        message: "ghost".to_string(),
        exp: 2_000_000_000,
        iat: 1_700_000_000,
    };
    let article = seed_article(&mut state, &admin, "A");
    let c = state
        .handle_post_comment(&user1, &income(&article, "hi", None), 1_700_000_100)
        .expect("comment");

    let r = state.handle_post_comment(&visitor, &income(&article, "nope", None), 1_700_000_200);
    assert_eq!(r.unwrap_err(), AppError::Unauthorized);
    let r = state.handle_post_comment(&ghost, &income(&article, "nope", None), 1_700_000_200);
    assert_eq!(r.unwrap_err(), AppError::Unauthorized);

    let payload = LikeCommentPayload { comment_id: c.comment_id.clone() };
    let r = state.like_comment(&visitor, &payload);
    assert_eq!(r.unwrap_err(), AppError::Forbidden);
    let r = state.like_comment(&ghost, &payload);
    assert_eq!(r.unwrap_err(), AppError::Forbidden);
}

#[test]
fn comment_error_paths() {
    let mut state = test_state();
    let admin = seed_user(&mut state, "1", "root", Role::Admin);
    let user1 = seed_user(&mut state, "u1", "alice", Role::User);
    let article_a = seed_article(&mut state, &admin, "A");
    let article_b = seed_article(&mut state, &admin, "B");
    let c1 = state
        .handle_post_comment(&user1, &income(&article_a, "on A", None), 1_700_000_100)
        .expect("comment");

    // Posting on a missing article.
    let r = state.handle_post_comment(&user1, &income("missing", "x", None), 1_700_000_200);
    assert_eq!(r.unwrap_err(), AppError::NotFound);

    // Listing a missing article.
    let r = state.handle_get_comments(None, "missing");
    assert_eq!(r.unwrap_err(), AppError::NotFound);

    // A parent must exist.
    let r = state.handle_post_comment(
        &user1,
        &income(&article_a, "reply", Some("missing-parent".to_string())),
        1_700_000_200,
    );
    assert_eq!(r.unwrap_err(), AppError::BadRequest);

    // ... and must live in the same article.
    let r = state.handle_post_comment(
        &user1,
        &income(&article_b, "cross reply", Some(c1.comment_id.clone())),
        1_700_000_200,
    );
    assert_eq!(r.unwrap_err(), AppError::BadRequest);

    // Liking or deleting a missing comment.
    let r = state.like_comment(&user1, &LikeCommentPayload { comment_id: "missing".to_string() });
    assert_eq!(r.unwrap_err(), AppError::NotFound);
    let r = state.handle_delete_comment(&admin, "missing");
    assert_eq!(r.unwrap_err(), AppError::NotFound);

    // An anonymous viewer sees no like flags.
    state
        .like_comment(&user1, &LikeCommentPayload { comment_id: c1.comment_id.clone() })
        .expect("toggle");
    let listing = state.handle_get_comments(None, &article_a).unwrap();
    assert_eq!(listing.comments[0].like_count, 1);
    assert!(!listing.comments[0].liked_by_me);
}
