//! Core of a small content platform: token-based authentication, password
//! handling, role-based permission checks, and the permission-guarded stores
//! for articles and threaded comments with a like counter.

pub mod articles;
pub mod comments;
pub mod credentials;
pub mod errors;
pub mod identity;
pub mod roles;
pub mod routes;
pub mod state;
pub mod strutil;
pub mod token;
pub mod users;
