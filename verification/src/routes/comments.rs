//! Comment listing, posting, deletion, and the like toggle.
//!
//! Posting and liking are for admins and users, never visitors; an
//! unresolvable subject behaves as a visitor. Deleting is admin-only.
//! Every check happens before the store is touched.

use vstd::prelude::*;
use crate::comments::{
    Comment, CommentIncome, CommentWithLike, LikeToggle, cwl_views, parent_ok,
    sorted_desc, toggle_transition,
};
use crate::errors::AppError;
use crate::roles::Role;
use crate::state::{AppState, fresh_uuid};
use crate::token::Claims;

verus! {

/// The listing response of one article's thread.
#[derive(Debug)]
pub struct CommentsResponse {
    pub comments: Vec<CommentWithLike>,
}

/// What deleting a comment reports back.
#[derive(Debug)]
pub struct DeleteCommentParams {
    pub comment_id: String,
    pub message: Option<String>,
}

/// The like-toggle request.
#[derive(Debug)]
pub struct LikeCommentPayload {
    pub comment_id: String,
}

/// What a like toggle reports back: the comment and which way it went.
#[derive(Debug)]
pub struct CommentsLikeResponse {
    pub comment_id: String,
    pub like_or_unlike: String,
}

impl AppState {
    /// The thread of one article as the viewer sees it, newest first;
    /// without a viewer identity no comment is flagged as liked.
    /// `NotFound` when the article does not exist.
    pub fn handle_get_comments(&self, viewer: Option<&Claims>, article_id: &str) -> (r: Result<
        CommentsResponse,
        AppError,
    >)
        requires
            self.wf(),
        ensures
            !self.articles.contains_id(article_id@) <==> r == Err::<CommentsResponse, AppError>(
                AppError::NotFound,
            ),
            self.articles.contains_id(article_id@) ==> r is Ok,
            r matches Ok(resp) ==> cwl_views(resp.comments@).to_multiset()
                == self.comments.thread_of(article_id@, viewer_id(viewer)).to_multiset()
                && sorted_desc(cwl_views(resp.comments@)),
    {
        if self.articles.find_article_by_id(article_id).is_none() {
            return Err(AppError::NotFound);
        }
        let rows = match viewer {
            Some(claims) => self.comments.fetch_comments_by_article_id(
                article_id,
                claims.user_id.as_str(),
            ),
            None => self.comments.fetch_comments_by_article_id(article_id, ""),
        };
        Ok(CommentsResponse { comments: rows })
    }

    /// Post a comment: the author must resolve to an admin or user —
    /// visitors and unresolvable subjects get `Unauthorized` — and the
    /// display name comes from the author's user row, never from the
    /// token label. `NotFound` when the article does not exist; a bad
    /// parent reference is `BadRequest`.
    pub fn handle_post_comment(&mut self, auth: &Claims, payload: &CommentIncome, now: u64) -> (r:
        Result<Comment, AppError>)
        requires
            old(self).wf(),
        ensures
            final(self).wf(),
            final(self).cfg == old(self).cfg,
            final(self).users == old(self).users,
            final(self).articles == old(self).articles,
            final(self).comments.like_pairs() == old(self).comments.like_pairs(),
            r is Err ==> final(self).comments.rows() == old(self).comments.rows(),
            ({
                let role = old(self).role_of_subject(auth.user_id@);
                let may_post = role == Role::Admin || role == Role::User;
                &&& (!may_post <==> r == Err::<Comment, AppError>(AppError::Unauthorized))
                &&& (may_post && !old(self).articles.contains_id(payload.article_id@) ==> r
                    == Err::<Comment, AppError>(AppError::NotFound))
                &&& (may_post && old(self).articles.contains_id(payload.article_id@) && !parent_ok(
                    old(self).comments,
                    crate::articles::opt_view(payload.parent_id),
                    payload.article_id@,
                ) ==> r == Err::<Comment, AppError>(AppError::BadRequest))
                &&& (may_post && old(self).articles.contains_id(payload.article_id@) && parent_ok(
                    old(self).comments,
                    crate::articles::opt_view(payload.parent_id),
                    payload.article_id@,
                ) ==> r is Ok || r == Err::<Comment, AppError>(AppError::Internal))
                &&& (r matches Ok(c) ==> may_post && old(self).articles.contains_id(
                    payload.article_id@,
                ) && c@.article_id == payload.article_id@ && c@.content == payload.content@
                    && c@.user == old(self).users.user_by_id(auth.user_id@).username
                    && c@.parent_id == crate::articles::opt_view(payload.parent_id)
                    && c@.created_at == now && c@.like_count == 0 && final(self).comments.rows()
                    == old(self).comments.rows().push(c@))
            }),
    {
        let author = match self.users.find_user_by_id(auth.user_id.as_str()) {
            Some(u) => u,
            None => {
                return Err(AppError::Unauthorized);
            },
        };
        if matches!(author.identity, Role::Visitor) {
            return Err(AppError::Unauthorized);
        }
        if self.articles.find_article_by_id(payload.article_id.as_str()).is_none() {
            return Err(AppError::NotFound);
        }
        let id = fresh_uuid();
        match self.comments.post_comment_by_article_id(
            payload,
            author.username.as_str(),
            id.as_str(),
            now,
        ) {
            Ok(c) => Ok(c),
            Err(e) => Err(e),
        }
    }

    /// Delete a comment and its like rows; admin only, `NotFound` when
    /// the comment does not exist.
    pub fn handle_delete_comment(&mut self, auth: &Claims, comment_id: &str) -> (r: Result<
        DeleteCommentParams,
        AppError,
    >)
        requires
            old(self).wf(),
        ensures
            final(self).wf(),
            final(self).cfg == old(self).cfg,
            final(self).users == old(self).users,
            final(self).articles == old(self).articles,
            r is Err ==> final(self).comments.rows() == old(self).comments.rows() && final(self).comments.like_pairs() == old(self).comments.like_pairs(),
            ({
                let admin = old(self).role_of_subject(auth.user_id@) == Role::Admin;
                &&& (!admin <==> r == Err::<DeleteCommentParams, AppError>(AppError::Forbidden))
                &&& (admin && !old(self).comments.contains_comment(comment_id@) ==> r == Err::<
                    DeleteCommentParams,
                    AppError,
                >(AppError::NotFound))
                &&& (admin && old(self).comments.contains_comment(comment_id@) ==> r is Ok)
                &&& (r matches Ok(out) ==> admin && old(self).comments.contains_comment(
                    comment_id@,
                ) && out.comment_id@ == comment_id@ && final(self).comments.rows() == old(self).comments.rows().remove(old(self).comments.idx_of_comment(comment_id@)) && final(self).comments.like_pairs() == old(self).comments.like_pairs().filter(
                    crate::comments::not_of_comment(comment_id@),
                ))
            }),
    {
        if !matches!(self.get_ident_by_id(auth.user_id.as_str()), Role::Admin) {
            return Err(AppError::Forbidden);
        }
        match self.comments.delete_comment_by_comment_id(comment_id) {
            Ok(_) => Ok(
                DeleteCommentParams {
                    comment_id: String::from_str(comment_id),
                    message: Some(String::from_str("deletion operation completed")),
                },
            ),
            Err(e) => Err(e),
        }
    }

    /// Toggle the caller's like on a comment: one insert-and-increment
    /// or delete-and-decrement, decided and applied under the exclusive
    /// borrow. Visitors and unresolvable subjects get `Forbidden`;
    /// `NotFound` when the comment does not exist.
    pub fn like_comment(&mut self, auth: &Claims, payload: &LikeCommentPayload) -> (r: Result<
        CommentsLikeResponse,
        AppError,
    >)
        requires
            old(self).wf(),
        ensures
            final(self).wf(),
            final(self).cfg == old(self).cfg,
            final(self).users == old(self).users,
            final(self).articles == old(self).articles,
            r is Err ==> final(self).comments.rows() == old(self).comments.rows() && final(self).comments.like_pairs() == old(self).comments.like_pairs(),
            ({
                let role = old(self).role_of_subject(auth.user_id@);
                let may_like = role == Role::Admin || role == Role::User;
                &&& (!may_like <==> r == Err::<CommentsLikeResponse, AppError>(AppError::Forbidden))
                &&& (may_like && !old(self).comments.contains_comment(payload.comment_id@) ==> r
                    == Err::<CommentsLikeResponse, AppError>(AppError::NotFound))
                &&& (may_like && old(self).comments.contains_comment(payload.comment_id@) ==> r
                    is Ok)
                &&& (r matches Ok(out) ==> may_like && out.comment_id@ == payload.comment_id@ && ((
                out.like_or_unlike@ == "liked"@ && toggle_transition(
                    old(self).comments,
                    final(self).comments,
                    payload.comment_id@,
                    auth.user_id@,
                    LikeToggle::Liked,
                )) || (out.like_or_unlike@ == "unliked"@ && toggle_transition(
                    old(self).comments,
                    final(self).comments,
                    payload.comment_id@,
                    auth.user_id@,
                    LikeToggle::Unliked,
                ))))
            }),
    {
        let role = self.get_ident_by_id(auth.user_id.as_str());
        if !matches!(role, Role::Admin | Role::User) {
            return Err(AppError::Forbidden);
        }
        match self.comments.like_comment_db(payload.comment_id.as_str(), auth.user_id.as_str()) {
            Ok(LikeToggle::Liked) => Ok(
                CommentsLikeResponse {
                    comment_id: payload.comment_id.clone(),
                    like_or_unlike: String::from_str("liked"),
                },
            ),
            Ok(LikeToggle::Unliked) => Ok(
                CommentsLikeResponse {
                    comment_id: payload.comment_id.clone(),
                    like_or_unlike: String::from_str("unliked"),
                },
            ),
            Err(e) => Err(e),
        }
    }
}

/// The subject a viewer's flags are computed for: the claims' subject,
/// or an id no like row carries when there is no viewer.
pub open spec fn viewer_id(viewer: Option<&Claims>) -> Seq<char> {
    match viewer {
        Some(c) => c.user_id@,
        None => ""@,
    }
}

} // verus!
