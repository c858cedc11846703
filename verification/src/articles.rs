//! Articles and the article store.
//!
//! An article is created as a draft, and its status moves between draft
//! and published only through an explicit toggle — with one deliberate
//! exception: a content edit resets the status to draft as an editorial
//! re-review step. Listings show drafts to admins only, and an optional
//! keyword filters the visible rows by case-sensitive substring match on
//! the title, after the role filter.

use vstd::prelude::*;
use vstd::pervasive::VecAdditionalExecFns;
use crate::errors::AppError;
use crate::strutil::{contains_seq, str_contains, str_eq};

verus! {

/// The lifecycle state of an article.
#[derive(Clone, Copy, Debug, PartialEq, Eq, Structural)]
pub enum ArticleStatus {
    /// Initial state; hidden from non-admin listings.
    Draft,
    /// Visible to everyone.
    Published,
}

/// Which status a status string names.
pub open spec fn spec_status_of(s: Seq<char>) -> Option<ArticleStatus> {
    if s == "draft"@ {
        Some(ArticleStatus::Draft)
    } else if s == "published"@ {
        Some(ArticleStatus::Published)
    } else {
        None
    }
}

/// Parse a status string, rejecting anything but the two known
/// spellings.
pub fn status_from_str(s: &str) -> (r: Option<ArticleStatus>)
    ensures
        r == spec_status_of(s@),
{
    if str_eq(s, "draft") {
        Some(ArticleStatus::Draft)
    } else if str_eq(s, "published") {
        Some(ArticleStatus::Published)
    } else {
        None
    }
}

impl ArticleStatus {
    /// The canonical spelling of this status.
    pub fn as_str(&self) -> (r: &'static str)
        ensures
            spec_status_of(r@) == Some(*self),
    {
        proof {
            reveal_strlit("draft");
            reveal_strlit("published");
            assert("draft"@.len() == 5);
        }
        match *self {
            ArticleStatus::Draft => "draft",
            ArticleStatus::Published => "published",
        }
    }
}

/// A stored article row. Timestamps are seconds since the epoch.
#[derive(Debug)]
pub struct ArticleModel {
    pub id: String,
    pub title: Option<String>,
    pub content: Option<String>,
    pub summary: Option<String>,
    pub created_at: u64,
    pub update_at: Option<u64>,
    pub status: ArticleStatus,
    pub views: i32,
    pub tags: Option<String>,
}

/// An article row as plain mathematical values.
pub ghost struct ArticleView {
    pub id: Seq<char>,
    pub title: Option<Seq<char>>,
    pub content: Option<Seq<char>>,
    pub summary: Option<Seq<char>>,
    pub created_at: u64,
    pub update_at: Option<u64>,
    pub status: ArticleStatus,
    pub views: i32,
    pub tags: Option<Seq<char>>,
}

/// An optional owned string as an optional mathematical value.
pub open spec fn opt_view(o: Option<String>) -> Option<Seq<char>> {
    match o {
        None => None,
        Some(s) => Some(s@),
    }
}

/// An optional string, or empty when absent.
pub open spec fn opt_or_empty(o: Option<Seq<char>>) -> Seq<char> {
    match o {
        Some(s) => s,
        None => Seq::<char>::empty(),
    }
}

impl View for ArticleModel {
    type V = ArticleView;

    open spec fn view(&self) -> ArticleView {
        ArticleView {
            id: self.id@,
            title: opt_view(self.title),
            content: opt_view(self.content),
            summary: opt_view(self.summary),
            created_at: self.created_at,
            update_at: self.update_at,
            status: self.status,
            views: self.views,
            tags: opt_view(self.tags),
        }
    }
}

/// Clone an optional string, preserving the value exactly.
pub fn clone_opt_string(o: &Option<String>) -> (r: Option<String>)
    ensures
        r == *o,
{
    match o {
        Some(s) => Some(s.clone()),
        None => None,
    }
}

impl Clone for ArticleModel {
    fn clone(&self) -> (r: Self)
        ensures
            r == *self,
    {
        ArticleModel {
            id: self.id.clone(),
            title: clone_opt_string(&self.title),
            content: clone_opt_string(&self.content),
            summary: clone_opt_string(&self.summary),
            created_at: self.created_at,
            update_at: self.update_at,
            status: self.status,
            views: self.views,
            tags: clone_opt_string(&self.tags),
        }
    }
}

/// The listing row for an article: absent text fields appear empty.
#[derive(Debug)]
pub struct PubArticles {
    pub id: String,
    pub title: String,
    pub summary: String,
    pub created_at: u64,
    pub status: ArticleStatus,
    pub views: i32,
    pub tags: String,
}

/// A listing row as plain mathematical values.
pub ghost struct PubArticlesView {
    pub id: Seq<char>,
    pub title: Seq<char>,
    pub summary: Seq<char>,
    pub created_at: u64,
    pub status: ArticleStatus,
    pub views: i32,
    pub tags: Seq<char>,
}

impl View for PubArticles {
    type V = PubArticlesView;

    open spec fn view(&self) -> PubArticlesView {
        PubArticlesView {
            id: self.id@,
            title: self.title@,
            summary: self.summary@,
            created_at: self.created_at,
            status: self.status,
            views: self.views,
            tags: self.tags@,
        }
    }
}

/// The listing projection of an article row.
pub open spec fn pub_view(a: ArticleView) -> PubArticlesView {
    PubArticlesView {
        id: a.id,
        title: opt_or_empty(a.title),
        summary: opt_or_empty(a.summary),
        created_at: a.created_at,
        status: a.status,
        views: a.views,
        tags: opt_or_empty(a.tags),
    }
}

/// The payload an article is created from or edited to. The `id` is
/// ignored on creation and only checked for consistency on edits; a
/// supplied `status` is ignored — status moves only through the explicit
/// toggle or the edit-time draft reset.
#[derive(Debug)]
pub struct NewArticle {
    pub id: Option<String>,
    pub title: Option<String>,
    pub content: Option<String>,
    pub summary: Option<String>,
    pub status: Option<String>,
    pub tags: Option<String>,
}

impl From<ArticleModel> for NewArticle {
    fn from(v: ArticleModel) -> (r: NewArticle) {
        NewArticle {
            id: Some(v.id),
            title: v.title,
            content: v.content,
            summary: v.summary,
            status: None,
            tags: v.tags,
        }
    }
}

impl vstd::std_specs::convert::FromSpecImpl<ArticleModel> for NewArticle {
    open spec fn obeys_from_spec() -> bool {
        true
    }

    open spec fn from_spec(v: ArticleModel) -> NewArticle {
        NewArticle {
            id: Some(v.id),
            title: v.title,
            content: v.content,
            summary: v.summary,
            status: None,
            tags: v.tags,
        }
    }
}

/// The status-toggle payload: the target status as a string.
#[derive(Debug)]
pub struct NewStatus {
    pub toggle: String,
}

/// The query of a listing request: the caller's claimed identity string
/// and an optional keyword.
#[derive(Debug)]
pub struct GetArticlesParams {
    pub identity: String,
    pub condition: Option<String>,
}

/// Whether a row passes the listing filter: visible for the caller's
/// tier, and matching the keyword if one was supplied.
pub open spec fn listing_pred(admin: bool, kw: Option<Seq<char>>) -> spec_fn(ArticleView) -> bool {
    |a: ArticleView|
        (admin || a.status is Published) && match kw {
            None => true,
            Some(k) => contains_seq(opt_or_empty(a.title), k),
        }
}

/// The store of article rows.
pub struct ArticleStore {
    articles: Vec<ArticleModel>,
}

impl ArticleStore {
    /// The rows as plain values, in insertion order.
    pub closed spec fn rows(self) -> Seq<ArticleView> {
        self.articles@.map_values(|a: ArticleModel| a@)
    }

    /// Well-formedness: no two rows share an id.
    pub open spec fn wf(self) -> bool {
        forall|i: int, j: int|
            0 <= i < j < self.rows().len() ==> (#[trigger] self.rows()[i]).id != (
            #[trigger] self.rows()[j]).id
    }

    /// Whether some row has the given id.
    pub open spec fn contains_id(self, id: Seq<char>) -> bool {
        exists|i: int| 0 <= i < self.rows().len() && (#[trigger] self.rows()[i]).id == id
    }

    /// The index of the row with the given id.
    pub open spec fn idx_of_id(self, id: Seq<char>) -> int {
        choose|i: int| 0 <= i < self.rows().len() && (#[trigger] self.rows()[i]).id == id
    }

    /// The row with the given id.
    pub open spec fn article_by_id(self, id: Seq<char>) -> ArticleView {
        self.rows()[self.idx_of_id(id)]
    }

    /// The rows a caller sees: the role filter, then the keyword filter.
    pub open spec fn listing(self, admin: bool, kw: Option<Seq<char>>) -> Seq<ArticleView> {
        self.rows().filter(listing_pred(admin, kw))
    }

    /// An empty store.
    pub fn new() -> (r: ArticleStore)
        ensures
            r.rows() =~= Seq::<ArticleView>::empty(),
            r.wf(),
    {
        let r = ArticleStore { articles: Vec::new() };
        proof {
            assert(r.rows() =~= Seq::<ArticleView>::empty());
        }
        r
    }

    /// The index of the first row with this id, if any.
    fn position_of_id(&self, id: &str) -> (r: Option<usize>)
        ensures
            match r {
                Some(i) => i < self.rows().len() && self.rows()[i as int].id == id@,
                None => !self.contains_id(id@),
            },
    {
        let mut i: usize = 0;
        let n = self.articles.len();
        while i < n
            invariant
                n == self.articles.len(),
                i <= n,
                forall|j: int| 0 <= j < i ==> (#[trigger] self.rows()[j]).id != id@,
            decreases n - i,
        {
            if str_eq(self.articles[i].id.as_str(), id) {
                return Some(i);
            }
            i = i + 1;
        }
        None
    }

    /// Look an article up by id; `None` when no row has it.
    pub fn find_article_by_id(&self, id: &str) -> (r: Option<ArticleModel>)
        requires
            self.wf(),
        ensures
            match r {
                Some(a) => self.contains_id(id@) && a@ == self.article_by_id(id@),
                None => !self.contains_id(id@),
            },
    {
        match self.position_of_id(id) {
            Some(i) => {
                let a = self.articles[i].clone();
                proof {
                    let j = self.idx_of_id(id@);
                    assert(self.rows()[j].id == id@);
                    assert(j == i as int);
                }
                Some(a)
            },
            None => None,
        }
    }

    /// The listing a caller sees, with absent text fields shown empty.
    /// Admins see every row; everyone else only published ones; a
    /// keyword then filters by substring match on the title.
    #[verifier::loop_isolation(false)]
    pub fn get_articles(&self, admin: bool, condition: Option<&String>) -> (r: Vec<PubArticles>)
        ensures
            r@.len() == self.listing(admin, crate::users::opt_string_view(condition)).len(),
            forall|k: int|
                0 <= k < r@.len() ==> (#[trigger] r@[k])@ == pub_view(
                    self.listing(admin, crate::users::opt_string_view(condition))[k],
                ),
    {
        let ghost kw = crate::users::opt_string_view(condition);
        let ghost pred = listing_pred(admin, kw);
        let n = self.articles.len();
        let mut out: Vec<PubArticles> = Vec::new();
        let mut i: usize = 0;
        while i < n
            invariant
                i <= n,
                out@.len() == self.rows().take(i as int).filter(pred).len(),
                forall|k: int|
                    0 <= k < out@.len() ==> (#[trigger] out@[k])@ == pub_view(
                        self.rows().take(i as int).filter(pred)[k],
                    ),
            decreases n - i,
        {
            let a = &self.articles[i];
            let visible = admin || matches!(a.status, ArticleStatus::Published);
            let keyword_ok = match condition {
                None => true,
                Some(k) => match &a.title {
                    Some(t) => str_contains(t.as_str(), k.as_str()),
                    None => str_contains("", k.as_str()),
                },
            };
            proof {
                reveal(Seq::filter);
                reveal_strlit("");
                assert(""@ =~= Seq::<char>::empty());
                assert(self.rows()[i as int] == self.articles@[i as int]@);
                assert(self.rows().take(i + 1).drop_last() =~= self.rows().take(i as int));
                assert(self.rows().take(i + 1).last() == self.rows()[i as int]);
                assert((visible && keyword_ok) == pred(self.rows()[i as int]));
            }
            if visible && keyword_ok {
                out.push(
                    PubArticles {
                        id: a.id.clone(),
                        title: match &a.title {
                            Some(t) => t.clone(),
                            None => String::new(),
                        },
                        summary: match &a.summary {
                            Some(s) => s.clone(),
                            None => String::new(),
                        },
                        created_at: a.created_at,
                        status: a.status,
                        views: a.views,
                        tags: match &a.tags {
                            Some(t) => t.clone(),
                            None => String::new(),
                        },
                    },
                );
            }
            i = i + 1;
        }
        proof {
            assert(self.rows().take(n as int) =~= self.rows());
        }
        out
    }

    /// Create an article from the payload under the given fresh id:
    /// status starts as draft, the view counter at zero, and the payload
    /// status and id are ignored. An id clash is a storage-constraint
    /// failure, reported as `Internal` with the store unchanged.
    pub fn post_article(&mut self, new: &NewArticle, id: &str, now: u64) -> (r: Result<
        ArticleModel,
        AppError,
    >)
        requires
            old(self).wf(),
        ensures
            final(self).wf(),
            r is Err ==> r == Err::<ArticleModel, AppError>(AppError::Internal) && final(self).rows() == old(self).rows(),
            r is Err <==> old(self).contains_id(id@),
            r matches Ok(a) ==> a@ == (ArticleView {
                id: id@,
                title: opt_view(new.title),
                content: opt_view(new.content),
                summary: opt_view(new.summary),
                created_at: now,
                update_at: None,
                status: ArticleStatus::Draft,
                views: 0,
                tags: opt_view(new.tags),
            }) && final(self).rows() =~= old(self).rows().push(a@),
    {
        if self.position_of_id(id).is_some() {
            return Err(AppError::Internal);
        }
        let article = ArticleModel {
            id: String::from_str(id),
            title: clone_opt_string(&new.title),
            content: clone_opt_string(&new.content),
            summary: clone_opt_string(&new.summary),
            created_at: now,
            update_at: None,
            status: ArticleStatus::Draft,
            views: 0,
            tags: clone_opt_string(&new.tags),
        };
        let out = article.clone();
        self.articles.push(article);
        proof {
            assert(self.rows() =~= old(self).rows().push(out@));
        }
        Ok(out)
    }

    /// Delete the row with this id; `NotFound` when no row has it.
    pub fn delete_article_by_id(&mut self, id: &str) -> (r: Result<(), AppError>)
        requires
            old(self).wf(),
        ensures
            final(self).wf(),
            !old(self).contains_id(id@) ==> r == Err::<(), AppError>(AppError::NotFound) && final(self).rows() == old(self).rows(),
            old(self).contains_id(id@) ==> r is Ok && final(self).rows() =~= old(self).rows().remove(old(self).idx_of_id(id@)),
    {
        match self.position_of_id(id) {
            Some(i) => {
                proof {
                    let j = self.idx_of_id(id@);
                    assert(self.rows()[j].id == id@);
                    assert(j == i as int);
                }
                self.articles.remove(i);
                proof {
                    assert(self.rows() =~= old(self).rows().remove(i as int));
                    assert forall|p: int, q: int|
                        0 <= p < q < self.rows().len() implies (#[trigger] self.rows()[p]).id != (
                    #[trigger] self.rows()[q]).id by {
                        old(self).rows().remove_ensures(i as int);
                    }
                }
                Ok(())
            },
            None => Err(AppError::NotFound),
        }
    }

    /// The row as a content edit leaves it: the text fields replaced by
    /// the payload's (absent ones becoming absent), the update stamp set,
    /// and the status reset to draft for editorial re-review.
    pub open spec fn edited_article(a: ArticleView, new: NewArticle, now: u64) -> ArticleView {
        ArticleView {
            id: a.id,
            title: opt_view(new.title),
            content: opt_view(new.content),
            summary: opt_view(new.summary),
            created_at: a.created_at,
            update_at: Some(now),
            status: ArticleStatus::Draft,
            views: a.views,
            tags: opt_view(new.tags),
        }
    }

    /// Edit the row with this id as `edited_article` describes; the
    /// status reset to draft is unconditional. `NotFound` when no row
    /// has the id.
    #[verifier::loop_isolation(false)]
    pub fn put_article_by_id(&mut self, id: &str, new: &NewArticle, now: u64) -> (r: Result<
        ArticleModel,
        AppError,
    >)
        requires
            old(self).wf(),
        ensures
            final(self).wf(),
            !old(self).contains_id(id@) ==> r == Err::<ArticleModel, AppError>(AppError::NotFound)
                && final(self).rows() == old(self).rows(),
            old(self).contains_id(id@) ==> (r matches Ok(a) && a@ == ArticleStore::edited_article(
                old(self).article_by_id(id@),
                *new,
                now,
            ) && final(self).rows() =~= old(self).rows().update(old(self).idx_of_id(id@), a@)),
    {
        let i = match self.position_of_id(id) {
            Some(i) => i,
            None => {
                return Err(AppError::NotFound);
            },
        };
        proof {
            let j = old(self).idx_of_id(id@);
            assert(old(self).rows()[j].id == id@);
            if j < i as int {
                assert(old(self).rows()[j].id != old(self).rows()[i as int].id);
            }
            if (i as int) < j {
                assert(old(self).rows()[i as int].id != old(self).rows()[j].id);
            }
            assert(j == i as int);
        }
        let row = ArticleModel {
            id: self.articles[i].id.clone(),
            title: clone_opt_string(&new.title),
            content: clone_opt_string(&new.content),
            summary: clone_opt_string(&new.summary),
            created_at: self.articles[i].created_at,
            update_at: Some(now),
            status: ArticleStatus::Draft,
            views: self.articles[i].views,
            tags: clone_opt_string(&new.tags),
        };
        let out = row.clone();
        self.articles.set(i, row);
        proof {
            assert(self.rows() =~= old(self).rows().update(i as int, out@));
            assert forall|p: int, q: int|
                0 <= p < q < self.rows().len() implies (#[trigger] self.rows()[p]).id != (
            #[trigger] self.rows()[q]).id by {
                assert(old(self).rows()[p].id != old(self).rows()[q].id);
            }
        }
        Ok(out)
    }

    /// The row with only its status replaced.
    pub open spec fn with_status(a: ArticleView, status: ArticleStatus) -> ArticleView {
        ArticleView {
            id: a.id,
            title: a.title,
            content: a.content,
            summary: a.summary,
            created_at: a.created_at,
            update_at: a.update_at,
            status,
            views: a.views,
            tags: a.tags,
        }
    }

    /// Set the status of the row with this id to the given target, the
    /// explicit toggle of the lifecycle; everything else stays.
    /// `NotFound` when no row has the id.
    #[verifier::loop_isolation(false)]
    pub fn patch_article_by_id(&mut self, id: &str, status: ArticleStatus) -> (r: Result<
        ArticleModel,
        AppError,
    >)
        requires
            old(self).wf(),
        ensures
            final(self).wf(),
            !old(self).contains_id(id@) ==> r == Err::<ArticleModel, AppError>(AppError::NotFound)
                && final(self).rows() == old(self).rows(),
            old(self).contains_id(id@) ==> (r matches Ok(a) && a@ == ArticleStore::with_status(
                old(self).article_by_id(id@),
                status,
            ) && final(self).rows() =~= old(self).rows().update(old(self).idx_of_id(id@), a@)),
    {
        let i = match self.position_of_id(id) {
            Some(i) => i,
            None => {
                return Err(AppError::NotFound);
            },
        };
        proof {
            let j = old(self).idx_of_id(id@);
            assert(old(self).rows()[j].id == id@);
            if j < i as int {
                assert(old(self).rows()[j].id != old(self).rows()[i as int].id);
            }
            if (i as int) < j {
                assert(old(self).rows()[i as int].id != old(self).rows()[j].id);
            }
            assert(j == i as int);
        }
        let mut row = self.articles[i].clone();
        row.status = status;
        let out = row.clone();
        self.articles.set(i, row);
        proof {
            assert(self.rows() =~= old(self).rows().update(i as int, out@));
            assert forall|p: int, q: int|
                0 <= p < q < self.rows().len() implies (#[trigger] self.rows()[p]).id != (
            #[trigger] self.rows()[q]).id by {
                assert(old(self).rows()[p].id != old(self).rows()[q].id);
            }
        }
        Ok(out)
    }
}

} // verus!
