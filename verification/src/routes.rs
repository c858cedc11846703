//! The request-level operations, grouped as the transport exposes them:
//! registration and login, article management, comments and likes, and
//! user administration. Each is a method on [`crate::state::AppState`]
//! that resolves the caller's current role from the user store — never
//! from token claims — before touching anything.

pub mod articles;
pub mod auth;
pub mod comments;
pub mod users;
