//! Article listing and the admin-gated article mutations.
//!
//! Every mutation resolves the caller's role from the user store and
//! requires `Admin`; an insufficient role is `Forbidden` before any
//! storage is touched.

use vstd::prelude::*;
use crate::articles::{
    ArticleModel, ArticleStatus, ArticleStore, GetArticlesParams, NewArticle, NewStatus,
    PubArticles, pub_view, spec_status_of, status_from_str,
};
use crate::errors::AppError;
use crate::roles::Role;
use crate::state::{AppState, fresh_uuid};
use crate::strutil::str_eq;
use crate::token::Claims;

verus! {

/// The listing response.
#[derive(Debug)]
pub struct ArticleResponse {
    pub articles: Vec<PubArticles>,
}

impl AppState {
    /// The article listing for a caller who claims the given identity
    /// string: only the exact spelling `admin` sees drafts, everyone
    /// else published rows only, filtered by the optional keyword.
    pub fn articles(&self, params: &GetArticlesParams) -> (r: ArticleResponse)
        ensures
            ({
                let ls = self.articles.listing(
                    params.identity@ == "admin"@,
                    crate::articles::opt_view(params.condition),
                );
                r.articles@.len() == ls.len() && forall|k: int|
                    0 <= k < ls.len() ==> (#[trigger] r.articles@[k])@ == pub_view(ls[k])
            }),
    {
        let admin = str_eq(params.identity.as_str(), "admin");
        let rows = self.articles.get_articles(admin, params.condition.as_ref());
        ArticleResponse { articles: rows }
    }

    /// The article with this id, for anyone; `NotFound` when absent.
    pub fn handle_get_article(&self, id: &str) -> (r: Result<ArticleModel, AppError>)
        requires
            self.wf(),
        ensures
            match r {
                Ok(a) => self.articles.contains_id(id@) && a@ == self.articles.article_by_id(id@),
                Err(e) => e == AppError::NotFound && !self.articles.contains_id(id@),
            },
    {
        match self.articles.find_article_by_id(id) {
            Some(a) => Ok(a),
            None => Err(AppError::NotFound),
        }
    }

    /// Create an article as a draft; admin only. Only the id-drawing
    /// subsystem can fail past the role check, and then nothing is
    /// stored. The response echoes the stored row as a payload.
    pub fn handle_post_article(&mut self, auth: &Claims, payload: &NewArticle, now: u64) -> (r:
        Result<NewArticle, AppError>)
        requires
            old(self).wf(),
        ensures
            final(self).wf(),
            final(self).cfg == old(self).cfg,
            final(self).users == old(self).users,
            final(self).comments == old(self).comments,
            r == Err::<NewArticle, AppError>(AppError::Forbidden) <==> old(self).role_of_subject(
                auth.user_id@,
            ) != Role::Admin,
            r is Err ==> final(self).articles.rows() == old(self).articles.rows() && (r == Err::<
                NewArticle,
                AppError,
            >(AppError::Forbidden) || r == Err::<NewArticle, AppError>(AppError::Internal)),
            r matches Ok(a) ==> (a.id matches Some(id) && final(self).articles.rows() == old(self).articles.rows().push(
                crate::articles::ArticleView {
                    id: id@,
                    title: crate::articles::opt_view(payload.title),
                    content: crate::articles::opt_view(payload.content),
                    summary: crate::articles::opt_view(payload.summary),
                    created_at: now,
                    update_at: None,
                    status: ArticleStatus::Draft,
                    views: 0,
                    tags: crate::articles::opt_view(payload.tags),
                },
            ) && crate::articles::opt_view(a.title) == crate::articles::opt_view(payload.title)
                && crate::articles::opt_view(a.content) == crate::articles::opt_view(
                payload.content,
            ) && crate::articles::opt_view(a.summary) == crate::articles::opt_view(payload.summary)
                && crate::articles::opt_view(a.tags) == crate::articles::opt_view(payload.tags)
                && a.status is None),
    {
        if !matches!(self.get_ident_by_id(auth.user_id.as_str()), Role::Admin) {
            return Err(AppError::Forbidden);
        }
        let id = fresh_uuid();
        let article = match self.articles.post_article(payload, id.as_str(), now) {
            Ok(a) => a,
            Err(_) => {
                return Err(AppError::Internal);
            },
        };
        Ok(NewArticle::from(article))
    }

    /// Delete an article; admin only, `NotFound` when absent.
    pub fn handle_delete_article(&mut self, auth: &Claims, id: &str) -> (r: Result<(), AppError>)
        requires
            old(self).wf(),
        ensures
            final(self).wf(),
            final(self).cfg == old(self).cfg,
            final(self).users == old(self).users,
            final(self).comments == old(self).comments,
            old(self).role_of_subject(auth.user_id@) != Role::Admin ==> r == Err::<(), AppError>(
                AppError::Forbidden,
            ) && final(self).articles.rows() == old(self).articles.rows(),
            old(self).role_of_subject(auth.user_id@) == Role::Admin && !old(self).articles.contains_id(id@) ==> r == Err::<(), AppError>(AppError::NotFound) && final(self).articles.rows() == old(self).articles.rows(),
            old(self).role_of_subject(auth.user_id@) == Role::Admin && old(self).articles.contains_id(id@) ==> r is Ok && final(self).articles.rows() == old(self).articles.rows().remove(old(self).articles.idx_of_id(id@)),
    {
        if !matches!(self.get_ident_by_id(auth.user_id.as_str()), Role::Admin) {
            return Err(AppError::Forbidden);
        }
        self.articles.delete_article_by_id(id)
    }

    /// Edit an article's content; admin only. A payload id that
    /// disagrees with the path id is `BadRequest` before anything else;
    /// the edit resets the status to draft.
    pub fn handle_put_article(
        &mut self,
        auth: &Claims,
        id: &str,
        payload: &NewArticle,
        now: u64,
    ) -> (r: Result<ArticleModel, AppError>)
        requires
            old(self).wf(),
        ensures
            final(self).wf(),
            final(self).cfg == old(self).cfg,
            final(self).users == old(self).users,
            final(self).comments == old(self).comments,
            r is Err ==> final(self).articles.rows() == old(self).articles.rows(),
            (payload.id matches Some(p) && p@ != id@) ==> r == Err::<ArticleModel, AppError>(
                AppError::BadRequest,
            ),
            ({
                let id_ok = !(payload.id matches Some(p) && p@ != id@);
                let admin = old(self).role_of_subject(auth.user_id@) == Role::Admin;
                &&& (id_ok && !admin ==> r == Err::<ArticleModel, AppError>(AppError::Forbidden))
                &&& (id_ok && admin && !old(self).articles.contains_id(id@) ==> r == Err::<
                    ArticleModel,
                    AppError,
                >(AppError::NotFound))
                &&& (id_ok && admin && old(self).articles.contains_id(id@) ==> (r matches Ok(a)
                    && a@ == ArticleStore::edited_article(
                    old(self).articles.article_by_id(id@),
                    *payload,
                    now,
                ) && final(self).articles.rows() == old(self).articles.rows().update(
                    old(self).articles.idx_of_id(id@),
                    a@,
                )))
            }),
    {
        if let Some(p) = &payload.id {
            if !str_eq(p.as_str(), id) {
                return Err(AppError::BadRequest);
            }
        }
        if !matches!(self.get_ident_by_id(auth.user_id.as_str()), Role::Admin) {
            return Err(AppError::Forbidden);
        }
        self.articles.put_article_by_id(id, payload, now)
    }

    /// Toggle an article's status to the named target; admin only. An
    /// unknown status spelling is `BadRequest`; `NotFound` when the
    /// article is absent.
    pub fn handle_patch_article(&mut self, auth: &Claims, id: &str, payload: &NewStatus) -> (r:
        Result<ArticleModel, AppError>)
        requires
            old(self).wf(),
        ensures
            final(self).wf(),
            final(self).cfg == old(self).cfg,
            final(self).users == old(self).users,
            final(self).comments == old(self).comments,
            r is Err ==> final(self).articles.rows() == old(self).articles.rows(),
            ({
                let admin = old(self).role_of_subject(auth.user_id@) == Role::Admin;
                &&& (!admin ==> r == Err::<ArticleModel, AppError>(AppError::Forbidden))
                &&& (admin && spec_status_of(payload.toggle@) is None ==> r == Err::<
                    ArticleModel,
                    AppError,
                >(AppError::BadRequest))
                &&& (admin && spec_status_of(payload.toggle@) is Some && !old(self).articles.contains_id(id@) ==> r == Err::<ArticleModel, AppError>(
                    AppError::NotFound,
                ))
                &&& (admin && spec_status_of(payload.toggle@) is Some && old(self).articles.contains_id(id@) ==> (r matches Ok(a) && a@ == ArticleStore::with_status(
                    old(self).articles.article_by_id(id@),
                    spec_status_of(payload.toggle@).unwrap(),
                ) && final(self).articles.rows() == old(self).articles.rows().update(
                    old(self).articles.idx_of_id(id@),
                    a@,
                )))
            }),
    {
        if !matches!(self.get_ident_by_id(auth.user_id.as_str()), Role::Admin) {
            return Err(AppError::Forbidden);
        }
        let status = match status_from_str(payload.toggle.as_str()) {
            Some(s) => s,
            None => {
                return Err(AppError::BadRequest);
            },
        };
        self.articles.patch_article_by_id(id, status)
    }
}

} // verus!
