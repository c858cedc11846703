//! The application state: configuration and the three stores.
//!
//! All shared state is one explicit value, constructed once at startup
//! and handed by reference into every operation — no component reaches
//! for ambient or global state. The wall-clock second is likewise an
//! explicit argument everywhere it matters, so every operation is a
//! function of its inputs.

use vstd::prelude::*;
use crate::articles::ArticleStore;
use crate::comments::CommentStore;
use crate::roles::Role;
use crate::users::{UserStore, UserView};

verus! {

/// The process-wide configuration: where to serve, the token secret and
/// the token time-to-live in seconds.
#[derive(Debug)]
pub struct Config {
    pub host: String,
    pub port: u16,
    pub jwt_secret: String,
    /// Seconds a fresh token stays valid.
    pub jwt_ttl: u64,
}

impl Clone for Config {
    fn clone(&self) -> (r: Self)
        ensures
            r == *self,
    {
        Config {
            host: self.host.clone(),
            port: self.port,
            jwt_secret: self.jwt_secret.clone(),
            jwt_ttl: self.jwt_ttl,
        }
    }
}

/// The whole application state.
pub struct AppState {
    pub cfg: Config,
    pub users: UserStore,
    pub articles: ArticleStore,
    pub comments: CommentStore,
}

impl AppState {
    /// All three stores are well-formed.
    pub open spec fn wf(self) -> bool {
        self.users.wf() && self.articles.wf() && self.comments.wf()
    }

    /// A fresh state around the given configuration, with empty stores.
    pub fn new(cfg: Config) -> (r: AppState)
        ensures
            r.wf(),
            r.cfg == cfg,
            r.users.rows() =~= Seq::<UserView>::empty(),
            r.articles.rows() =~= Seq::<crate::articles::ArticleView>::empty(),
            r.comments.rows() =~= Seq::<crate::comments::CommentView>::empty(),
            r.comments.like_pairs() =~= Seq::<(Seq<char>, Seq<char>)>::empty(),
    {
        AppState {
            cfg,
            users: UserStore::new(),
            articles: ArticleStore::new(),
            comments: CommentStore::new(),
        }
    }

    /// The role a subject identifier carries right now: the stored role
    /// of its user row, or `Visitor` when the row no longer resolves.
    pub open spec fn role_of_subject(self, id: Seq<char>) -> Role {
        if self.users.contains_id(id) {
            self.users.user_by_id(id).identity
        } else {
            Role::Visitor
        }
    }
}

/// A fresh opaque identifier for a new row.
///
/// Relies on `uuid::Uuid::now_v7` and its hyphenated `Display` form:
/// a 36-character identifier drawn from the clock and randomness.
/// Uniqueness holds only in practice, so nothing of it is assumed;
/// every caller checks for a clash.
#[verifier::external_body]
pub(crate) fn fresh_uuid() -> (r: String)
    ensures
        r@.len() == 36,
{
    uuid::Uuid::now_v7().to_string()
}

} // verus!
