//! Threaded comments, the like table, and the like counter.
//!
//! Comments form a reply tree per article through `parent_id`; a non-null
//! parent must reference an existing comment of the same article, checked
//! at write time. Likes are a membership table of `(comment, user)` pairs
//! with at most one row per pair, and every comment's `like_count` always
//! equals the number of rows referencing it — that is the store's
//! well-formedness invariant, established by the constructor and
//! preserved by every operation. The toggle is a single operation behind
//! `&mut self`: callers hold the store exclusively for its whole
//! check-then-act sequence, so two toggles can never interleave.

use vstd::prelude::*;
use vstd::pervasive::VecAdditionalExecFns;
use crate::errors::AppError;
use crate::strutil::str_eq;

verus! {

/// A stored comment row.
#[derive(Debug)]
pub struct Comment {
    pub comment_id: String,
    /// The article this comment belongs to.
    pub article_id: String,
    /// The author's display name, resolved from the user record at post
    /// time.
    pub user: String,
    pub content: String,
    /// Seconds since the epoch.
    pub created_at: u64,
    /// The parent comment for replies; `None` for top-level comments.
    pub parent_id: Option<String>,
    /// Always equal to the number of like rows referencing this comment.
    pub like_count: u64,
}

/// A comment row as plain mathematical values.
pub ghost struct CommentView {
    pub comment_id: Seq<char>,
    pub article_id: Seq<char>,
    pub user: Seq<char>,
    pub content: Seq<char>,
    pub created_at: u64,
    pub parent_id: Option<Seq<char>>,
    pub like_count: u64,
}

impl View for Comment {
    type V = CommentView;

    open spec fn view(&self) -> CommentView {
        CommentView {
            comment_id: self.comment_id@,
            article_id: self.article_id@,
            user: self.user@,
            content: self.content@,
            created_at: self.created_at,
            parent_id: crate::articles::opt_view(self.parent_id),
            like_count: self.like_count,
        }
    }
}

impl Clone for Comment {
    fn clone(&self) -> (r: Self)
        ensures
            r == *self,
    {
        Comment {
            comment_id: self.comment_id.clone(),
            article_id: self.article_id.clone(),
            user: self.user.clone(),
            content: self.content.clone(),
            created_at: self.created_at,
            parent_id: crate::articles::clone_opt_string(&self.parent_id),
            like_count: self.like_count,
        }
    }
}

/// A comment as a viewer sees it: the row plus whether this viewer has
/// liked it.
#[derive(Debug)]
pub struct CommentWithLike {
    pub comment_id: String,
    pub article_id: String,
    pub user: String,
    pub content: String,
    pub created_at: u64,
    pub parent_id: Option<String>,
    pub like_count: u64,
    pub liked_by_me: bool,
}

/// A viewer's comment as plain mathematical values.
pub ghost struct CommentWithLikeView {
    pub comment_id: Seq<char>,
    pub article_id: Seq<char>,
    pub user: Seq<char>,
    pub content: Seq<char>,
    pub created_at: u64,
    pub parent_id: Option<Seq<char>>,
    pub like_count: u64,
    pub liked_by_me: bool,
}

impl View for CommentWithLike {
    type V = CommentWithLikeView;

    open spec fn view(&self) -> CommentWithLikeView {
        CommentWithLikeView {
            comment_id: self.comment_id@,
            article_id: self.article_id@,
            user: self.user@,
            content: self.content@,
            created_at: self.created_at,
            parent_id: crate::articles::opt_view(self.parent_id),
            like_count: self.like_count,
            liked_by_me: self.liked_by_me,
        }
    }
}

impl Clone for CommentWithLike {
    fn clone(&self) -> (r: Self)
        ensures
            r == *self,
    {
        CommentWithLike {
            comment_id: self.comment_id.clone(),
            article_id: self.article_id.clone(),
            user: self.user.clone(),
            content: self.content.clone(),
            created_at: self.created_at,
            parent_id: crate::articles::clone_opt_string(&self.parent_id),
            like_count: self.like_count,
            liked_by_me: self.liked_by_me,
        }
    }
}

/// A comment row with the viewer flag attached.
pub open spec fn with_flag(c: CommentView, liked: bool) -> CommentWithLikeView {
    CommentWithLikeView {
        comment_id: c.comment_id,
        article_id: c.article_id,
        user: c.user,
        content: c.content,
        created_at: c.created_at,
        parent_id: c.parent_id,
        like_count: c.like_count,
        liked_by_me: liked,
    }
}

/// A comment row with only its like counter replaced.
pub open spec fn with_count(c: CommentView, n: u64) -> CommentView {
    CommentView {
        comment_id: c.comment_id,
        article_id: c.article_id,
        user: c.user,
        content: c.content,
        created_at: c.created_at,
        parent_id: c.parent_id,
        like_count: n,
    }
}

/// One row of the like membership table.
#[derive(Debug)]
pub struct CommentLike {
    pub comment_id: String,
    pub user_id: String,
}

/// The data a new comment is posted from.
#[derive(Debug)]
pub struct CommentIncome {
    pub article_id: String,
    /// Ignored for authorization; the author is the resolved identity.
    pub user_id: Option<String>,
    pub content: String,
    pub parent_id: Option<String>,
}

/// What a toggle did.
#[derive(Clone, Copy, Debug, PartialEq, Eq, Structural)]
pub enum LikeToggle {
    /// No row existed: one was inserted and the counter went up by one.
    Liked,
    /// A row existed: it was deleted and the counter went down by one.
    Unliked,
}

/// How often pairs with the given comment id occur in a pair table.
pub open spec fn count_likes(s: Seq<(Seq<char>, Seq<char>)>, cid: Seq<char>) -> nat
    decreases s.len(),
{
    if s.len() == 0 {
        0
    } else {
        count_likes(s.drop_last(), cid) + if s.last().0 == cid {
            1nat
        } else {
            0nat
        }
    }
}

/// Appending a pair raises exactly the count of its comment.
pub proof fn lemma_count_push(s: Seq<(Seq<char>, Seq<char>)>, p: (Seq<char>, Seq<char>), cid: Seq<char>)
    ensures
        count_likes(s.push(p), cid) == count_likes(s, cid) + if p.0 == cid {
            1nat
        } else {
            0nat
        },
{
    assert(s.push(p).drop_last() =~= s);
    assert(s.push(p).last() == p);
}

/// Removing a pair lowers exactly the count of its comment.
pub proof fn lemma_count_remove(s: Seq<(Seq<char>, Seq<char>)>, i: int, cid: Seq<char>)
    requires
        0 <= i < s.len(),
    ensures
        count_likes(s.remove(i), cid) + if s[i].0 == cid {
            1nat
        } else {
            0nat
        } == count_likes(s, cid),
    decreases s.len(),
{
    if i == s.len() - 1 {
        assert(s.remove(i) =~= s.drop_last());
    } else {
        assert(s.remove(i).drop_last() =~= s.drop_last().remove(i));
        assert(s.remove(i).last() == s.last());
        lemma_count_remove(s.drop_last(), i, cid);
    }
}

/// A count never exceeds the table's length.
pub proof fn lemma_count_le_len(s: Seq<(Seq<char>, Seq<char>)>, cid: Seq<char>)
    ensures
        count_likes(s, cid) <= s.len(),
    decreases s.len(),
{
    if s.len() > 0 {
        lemma_count_le_len(s.drop_last(), cid);
    }
}

/// A comment no pair references has count zero.
pub proof fn lemma_count_zero(s: Seq<(Seq<char>, Seq<char>)>, cid: Seq<char>)
    requires
        forall|k: int| 0 <= k < s.len() ==> (#[trigger] s[k]).0 != cid,
    ensures
        count_likes(s, cid) == 0,
    decreases s.len(),
{
    if s.len() > 0 {
        assert(s.last() == s[s.len() - 1]);
        lemma_count_zero(s.drop_last(), cid);
    }
}

/// The pairs that do not reference the given comment.
pub open spec fn not_of_comment(cid: Seq<char>) -> spec_fn((Seq<char>, Seq<char>)) -> bool {
    |p: (Seq<char>, Seq<char>)| p.0 != cid
}

/// Dropping every pair of one comment leaves all other counts alone.
pub proof fn lemma_count_filter_other(
    s: Seq<(Seq<char>, Seq<char>)>,
    cid: Seq<char>,
    other: Seq<char>,
)
    requires
        other != cid,
    ensures
        count_likes(s.filter(not_of_comment(cid)), other) == count_likes(s, other),
    decreases s.len(),
{
    reveal(Seq::filter);
    if s.len() > 0 {
        lemma_count_filter_other(s.drop_last(), cid, other);
        let pred = not_of_comment(cid);
        if pred(s.last()) {
            lemma_count_push(s.drop_last().filter(pred), s.last(), other);
        }
    }
}

/// A duplicate-free table stays duplicate-free under any filter.
pub proof fn lemma_filter_no_dup<A>(s: Seq<A>, pred: spec_fn(A) -> bool)
    requires
        s.no_duplicates(),
    ensures
        s.filter(pred).no_duplicates(),
    decreases s.len(),
{
    reveal(Seq::filter);
    if s.len() > 0 {
        let rest = s.drop_last();
        lemma_filter_no_dup(rest, pred);
        if pred(s.last()) {
            if rest.filter(pred).contains(s.last()) {
                rest.lemma_filter_contains_rev(pred, s.last());
                let j = choose|j: int| 0 <= j < rest.len() && rest[j] == s.last();
                assert(s[j] == s[s.len() - 1]);
                assert(false);
            }
        }
    }
}

/// The store of comments and like rows.
pub struct CommentStore {
    comments: Vec<Comment>,
    likes: Vec<CommentLike>,
}

impl CommentStore {
    /// The comment rows as plain values, in insertion order.
    pub closed spec fn rows(self) -> Seq<CommentView> {
        self.comments@.map_values(|c: Comment| c@)
    }

    /// The like table as `(comment_id, user_id)` pairs.
    pub closed spec fn like_pairs(self) -> Seq<(Seq<char>, Seq<char>)> {
        self.likes@.map_values(|l: CommentLike| (l.comment_id@, l.user_id@))
    }

    /// Whether some comment row has the given id.
    pub open spec fn contains_comment(self, cid: Seq<char>) -> bool {
        exists|i: int| 0 <= i < self.rows().len() && (#[trigger] self.rows()[i]).comment_id == cid
    }

    /// The index of the comment row with the given id.
    pub open spec fn idx_of_comment(self, cid: Seq<char>) -> int {
        choose|i: int|
            0 <= i < self.rows().len() && (#[trigger] self.rows()[i]).comment_id == cid
    }

    /// Well-formedness: comment ids are unique; the like table has at
    /// most one row per pair; every like row references an existing
    /// comment; and every comment's counter equals the number of like
    /// rows referencing it.
    pub open spec fn wf(self) -> bool {
        &&& forall|i: int, j: int|
            0 <= i < j < self.rows().len() ==> (#[trigger] self.rows()[i]).comment_id != (
            #[trigger] self.rows()[j]).comment_id
        &&& self.like_pairs().no_duplicates()
        &&& forall|k: int|
            0 <= k < self.like_pairs().len() ==> self.contains_comment(
                (#[trigger] self.like_pairs()[k]).0,
            )
        &&& forall|i: int|
            0 <= i < self.rows().len() ==> (#[trigger] self.rows()[i]).like_count == count_likes(
                self.like_pairs(),
                self.rows()[i].comment_id,
            )
    }

    /// An empty store.
    pub fn new() -> (r: CommentStore)
        ensures
            r.rows() =~= Seq::<CommentView>::empty(),
            r.like_pairs() =~= Seq::<(Seq<char>, Seq<char>)>::empty(),
            r.wf(),
    {
        let r = CommentStore { comments: Vec::new(), likes: Vec::new() };
        proof {
            assert(r.rows() =~= Seq::<CommentView>::empty());
            assert(r.like_pairs() =~= Seq::<(Seq<char>, Seq<char>)>::empty());
        }
        r
    }

    /// The index of the first comment row with this id, if any.
    fn position_of_comment(&self, cid: &str) -> (r: Option<usize>)
        ensures
            match r {
                Some(i) => i < self.rows().len() && self.rows()[i as int].comment_id == cid@,
                None => !self.contains_comment(cid@),
            },
    {
        let mut i: usize = 0;
        let n = self.comments.len();
        while i < n
            invariant
                n == self.comments.len(),
                i <= n,
                forall|j: int| 0 <= j < i ==> (#[trigger] self.rows()[j]).comment_id != cid@,
            decreases n - i,
        {
            if str_eq(self.comments[i].comment_id.as_str(), cid) {
                return Some(i);
            }
            i = i + 1;
        }
        None
    }

    /// The index of the like row for this pair, if any.
    fn position_of_like(&self, cid: &str, uid: &str) -> (r: Option<usize>)
        ensures
            match r {
                Some(i) => i < self.like_pairs().len() && self.like_pairs()[i as int] == (
                    cid@,
                    uid@,
                ),
                None => !self.like_pairs().contains((cid@, uid@)),
            },
    {
        let mut i: usize = 0;
        let n = self.likes.len();
        while i < n
            invariant
                n == self.likes.len(),
                i <= n,
                forall|j: int| 0 <= j < i ==> (#[trigger] self.like_pairs()[j]) != (cid@, uid@),
            decreases n - i,
        {
            if str_eq(self.likes[i].comment_id.as_str(), cid) && str_eq(
                self.likes[i].user_id.as_str(),
                uid,
            ) {
                return Some(i);
            }
            i = i + 1;
        }
        proof {
            assert forall|j: int| 0 <= j < self.like_pairs().len() implies (
            #[trigger] self.like_pairs()[j]) != (cid@, uid@) by {}
        }
        None
    }

    /// The flag a viewer's listing attaches to a comment row.
    pub open spec fn flagged(self, uid: Seq<char>) -> spec_fn(CommentView) -> CommentWithLikeView {
        |c: CommentView| with_flag(c, self.like_pairs().contains((c.comment_id, uid)))
    }

    /// What a viewer sees of one article before ordering: its comments
    /// in insertion order, each flagged with whether this viewer liked
    /// it. A viewer with no identity is passed an id no like row holds,
    /// so every flag is false.
    pub open spec fn thread_of(self, aid: Seq<char>, uid: Seq<char>) -> Seq<CommentWithLikeView> {
        self.rows().filter(of_article(aid)).map_values(self.flagged(uid))
    }

    /// The comments of one article as viewer `uid` sees them: exactly
    /// the article's comments with their like flags, ordered
    /// newest-first by creation time.
    #[verifier::loop_isolation(false)]
    pub fn fetch_comments_by_article_id(&self, article_id: &str, uid: &str) -> (r: Vec<
        CommentWithLike,
    >)
        ensures
            cwl_views(r@).to_multiset() == self.thread_of(article_id@, uid@).to_multiset(),
            sorted_desc(cwl_views(r@)),
    {
        let ghost aid = article_id@;
        let ghost pred = of_article(aid);
        let ghost flag = self.flagged(uid@);
        let n = self.comments.len();
        let mut pool: Vec<CommentWithLike> = Vec::new();
        let mut k: usize = 0;
        while k < n
            invariant
                k <= n,
                cwl_views(pool@) =~= self.rows().take(k as int).filter(pred).map_values(flag),
            decreases n - k,
        {
            proof {
                reveal(Seq::filter);
                assert(self.rows()[k as int] == self.comments@[k as int]@);
                assert(self.rows().take(k + 1).drop_last() =~= self.rows().take(k as int));
                assert(self.rows().take(k + 1).last() == self.rows()[k as int]);
            }
            let c = &self.comments[k];
            if str_eq(c.article_id.as_str(), article_id) {
                let lk = self.position_of_like(c.comment_id.as_str(), uid);
                let liked = lk.is_some();
                proof {
                    if lk is Some {
                        assert(self.like_pairs()[lk.unwrap() as int] == (c.comment_id@, uid@));
                        assert(self.like_pairs().contains((c.comment_id@, uid@)));
                    }
                    assert(liked == self.like_pairs().contains((c.comment_id@, uid@)));
                }
                let ghost vpool0 = cwl_views(pool@);
                pool.push(
                    CommentWithLike {
                        comment_id: c.comment_id.clone(),
                        article_id: c.article_id.clone(),
                        user: c.user.clone(),
                        content: c.content.clone(),
                        created_at: c.created_at,
                        parent_id: crate::articles::clone_opt_string(&c.parent_id),
                        like_count: c.like_count,
                        liked_by_me: liked,
                    },
                );
                proof {
                    reveal(Seq::filter);
                    let s1 = self.rows().take(k + 1);
                    assert(pred(self.rows()[k as int]));
                    assert(s1.filter(pred) == s1.drop_last().filter(pred).push(s1.last()));
                    assert(s1.drop_last().filter(pred) == self.rows().take(k as int).filter(pred));
                    assert(pool@.last()@ == flag(self.rows()[k as int]));
                    assert(cwl_views(pool@) =~= vpool0.push(flag(self.rows()[k as int])));
                    assert(cwl_views(pool@) =~= s1.filter(pred).map_values(flag));
                }
            }
            k = k + 1;
        }
        proof {
            assert(self.rows().take(n as int) =~= self.rows());
            assert(cwl_views(pool@) == self.thread_of(aid, uid@));
        }
        let ghost whole = self.thread_of(aid, uid@);
        let mut out: Vec<CommentWithLike> = Vec::new();
        proof {
            let ve = cwl_views(out@);
            ve.to_multiset_ensures();
            assert(ve =~= Seq::<CommentWithLikeView>::empty());
            assert forall|v: CommentWithLikeView|
                ve.to_multiset().add(cwl_views(pool@).to_multiset()).count(v) == whole.to_multiset().count(
                    v,
                ) by {
                assert(!ve.contains(v));
                assert(ve.to_multiset().count(v) == 0);
            }
            assert(ve.to_multiset().add(cwl_views(pool@).to_multiset()) =~= whole.to_multiset());
        }
        while pool.len() > 0
            invariant
                cwl_views(out@).to_multiset().add(cwl_views(pool@).to_multiset())
                    == whole.to_multiset(),
                sorted_desc(cwl_views(out@)),
                forall|p: int, q: int|
                    0 <= p < out@.len() && 0 <= q < pool@.len() ==> (#[trigger] cwl_views(
                        out@,
                    )[p]).created_at >= (#[trigger] cwl_views(pool@)[q]).created_at,
            decreases pool.len(),
        {
            let mut imax: usize = 0;
            let mut m: usize = 1;
            while m < pool.len()
                invariant
                    imax < pool@.len(),
                    m <= pool@.len(),
                    forall|q: int|
                        0 <= q < m ==> (#[trigger] cwl_views(pool@)[q]).created_at <= cwl_views(
                            pool@,
                        )[imax as int].created_at,
                decreases pool@.len() - m,
            {
                if pool[m].created_at > pool[imax].created_at {
                    imax = m;
                }
                m = m + 1;
            }
            let ghost vpool = cwl_views(pool@);
            let ghost vout = cwl_views(out@);
            let x = pool.remove(imax);
            out.push(x);
            proof {
                assert(cwl_views(pool@) =~= vpool.remove(imax as int));
                assert(cwl_views(out@) =~= vout.push(x@));
                assert(x@ == vpool[imax as int]);
                vpool.to_multiset_ensures();
                vout.to_multiset_ensures();
                assert(vpool.contains(vpool[imax as int]));
                assert(vpool.to_multiset().count(x@) > 0);
                assert(cwl_views(out@).to_multiset().add(cwl_views(pool@).to_multiset())
                    =~= whole.to_multiset());
            }
        }
        proof {
            let vp = cwl_views(pool@);
            vp.to_multiset_ensures();
            assert(vp =~= Seq::<CommentWithLikeView>::empty());
            assert forall|v: CommentWithLikeView|
                cwl_views(out@).to_multiset().count(v) == whole.to_multiset().count(v) by {
                assert(!vp.contains(v));
                assert(vp.to_multiset().count(v) == 0);
                assert(cwl_views(out@).to_multiset().add(vp.to_multiset()).count(v)
                    == whole.to_multiset().count(v));
            }
            assert(cwl_views(out@).to_multiset() =~= whole.to_multiset());
        }
        out
    }

    /// Post a comment under the given fresh id: the counter starts at
    /// zero. A non-null parent must name an existing comment of the same
    /// article, else `BadRequest`; an id clash is a storage-constraint
    /// failure, reported as `Internal`. The store is unchanged on every
    /// error.
    #[verifier::loop_isolation(false)]
    pub fn post_comment_by_article_id(
        &mut self,
        new: &CommentIncome,
        username: &str,
        id: &str,
        now: u64,
    ) -> (r: Result<Comment, AppError>)
        requires
            old(self).wf(),
        ensures
            final(self).wf(),
            final(self).like_pairs() == old(self).like_pairs(),
            r is Err ==> final(self).rows() == old(self).rows(),
            !parent_ok(*old(self), crate::articles::opt_view(new.parent_id), new.article_id@)
                ==> r == Err::<Comment, AppError>(AppError::BadRequest),
            parent_ok(*old(self), crate::articles::opt_view(new.parent_id), new.article_id@)
                && old(self).contains_comment(id@) ==> r == Err::<Comment, AppError>(
                AppError::Internal,
            ),
            !old(self).contains_comment(id@) && parent_ok(
                *old(self),
                crate::articles::opt_view(new.parent_id),
                new.article_id@,
            ) ==> (r matches Ok(c) && c@ == (CommentView {
                comment_id: id@,
                article_id: new.article_id@,
                user: username@,
                content: new.content@,
                created_at: now,
                parent_id: crate::articles::opt_view(new.parent_id),
                like_count: 0,
            }) && final(self).rows() =~= old(self).rows().push(c@)),
    {
        match &new.parent_id {
            Some(p) => {
                match self.position_of_comment(p.as_str()) {
                    Some(pi) => {
                        if !str_eq(
                            self.comments[pi].article_id.as_str(),
                            new.article_id.as_str(),
                        ) {
                            proof {
                                let j = self.idx_of_comment(p@);
                                assert(self.rows()[j].comment_id == p@);
                                if j < pi as int {
                                    assert(self.rows()[j].comment_id != self.rows()[
                                    pi as int].comment_id);
                                }
                                if (pi as int) < j {
                                    assert(self.rows()[pi as int].comment_id
                                        != self.rows()[j].comment_id);
                                }
                                assert(j == pi as int);
                            }
                            return Err(AppError::BadRequest);
                        }
                    },
                    None => {
                        return Err(AppError::BadRequest);
                    },
                }
            },
            None => {},
        }
        if self.position_of_comment(id).is_some() {
            return Err(AppError::Internal);
        }
        let comment = Comment {
            comment_id: String::from_str(id),
            article_id: new.article_id.clone(),
            user: String::from_str(username),
            content: new.content.clone(),
            created_at: now,
            parent_id: crate::articles::clone_opt_string(&new.parent_id),
            like_count: 0,
        };
        let out = comment.clone();
        self.comments.push(comment);
        proof {
            assert(self.rows() =~= old(self).rows().push(out@));
            assert(self.like_pairs() =~= old(self).like_pairs());
            lemma_count_zero(self.like_pairs(), id@);
            assert forall|k: int|
                0 <= k < self.like_pairs().len() implies self.contains_comment(
                (#[trigger] self.like_pairs()[k]).0,
            ) by {
                assert(old(self).contains_comment(old(self).like_pairs()[k].0));
                let j = choose|j: int|
                    0 <= j < old(self).rows().len() && (#[trigger] old(self).rows()[j]).comment_id
                        == old(self).like_pairs()[k].0;
                assert(self.rows()[j].comment_id == self.like_pairs()[k].0);
            }
        }
        Ok(out)
    }

    /// Delete the comment with this id together with its like rows;
    /// `NotFound` when no row has it, the store unchanged.
    #[verifier::loop_isolation(false)]
    pub fn delete_comment_by_comment_id(&mut self, comment_id: &str) -> (r: Result<(), AppError>)
        requires
            old(self).wf(),
        ensures
            final(self).wf(),
            !old(self).contains_comment(comment_id@) ==> r == Err::<(), AppError>(
                AppError::NotFound,
            ) && final(self).rows() == old(self).rows() && final(self).like_pairs() == old(self).like_pairs(),
            old(self).contains_comment(comment_id@) ==> r is Ok && final(self).rows() =~= old(self).rows().remove(old(self).idx_of_comment(comment_id@)) && final(self).like_pairs()
                =~= old(self).like_pairs().filter(not_of_comment(comment_id@)),
    {
        let i = match self.position_of_comment(comment_id) {
            Some(i) => i,
            None => {
                return Err(AppError::NotFound);
            },
        };
        proof {
            let j = old(self).idx_of_comment(comment_id@);
            assert(old(self).rows()[j].comment_id == comment_id@);
            if j < i as int {
                assert(old(self).rows()[j].comment_id != old(self).rows()[i as int].comment_id);
            }
            if (i as int) < j {
                assert(old(self).rows()[i as int].comment_id != old(self).rows()[j].comment_id);
            }
            assert(j == i as int);
        }
        let ghost pred = not_of_comment(comment_id@);
        let mut kept: Vec<CommentLike> = Vec::new();
        let mut k: usize = 0;
        let n = self.likes.len();
        while k < n
            invariant
                k <= n,
                kept@.map_values(|l: CommentLike| (l.comment_id@, l.user_id@)) =~= old(self).like_pairs().take(k as int).filter(pred),
            decreases n - k,
        {
            proof {
                reveal(Seq::filter);
                assert(old(self).like_pairs().take(k + 1).drop_last() =~= old(self).like_pairs().take(k as int));
                assert(old(self).like_pairs().take(k + 1).last() == old(self).like_pairs()[
                k as int]);
            }
            if !str_eq(self.likes[k].comment_id.as_str(), comment_id) {
                kept.push(
                    CommentLike {
                        comment_id: self.likes[k].comment_id.clone(),
                        user_id: self.likes[k].user_id.clone(),
                    },
                );
                proof {
                    assert(kept@.map_values(|l: CommentLike| (l.comment_id@, l.user_id@)) =~= old(self).like_pairs().take(k + 1).filter(pred));
                }
            }
            k = k + 1;
        }
        proof {
            assert(old(self).like_pairs().take(n as int) =~= old(self).like_pairs());
        }
        self.likes = kept;
        self.comments.remove(i);
        proof {
            let r0 = old(self).rows();
            let p0 = old(self).like_pairs();
            assert(self.rows() =~= r0.remove(i as int));
            assert(self.like_pairs() =~= p0.filter(pred));
            r0.remove_ensures(i as int);
            lemma_filter_no_dup(p0, pred);
            assert forall|p: int, q: int|
                0 <= p < q < self.rows().len() implies (#[trigger] self.rows()[p]).comment_id != (
            #[trigger] self.rows()[q]).comment_id by {}
            assert forall|kk: int|
                0 <= kk < self.like_pairs().len() implies self.contains_comment(
                (#[trigger] self.like_pairs()[kk]).0,
            ) by {
                p0.lemma_filter_pred(pred, kk);
                p0.lemma_filter_contains_rev(pred, self.like_pairs()[kk]);
                let m = choose|m: int| 0 <= m < p0.len() && p0[m] == self.like_pairs()[kk];
                assert(old(self).contains_comment(p0[m].0));
                let j = choose|j: int|
                    0 <= j < r0.len() && (#[trigger] r0[j]).comment_id == p0[m].0;
                assert(r0[j].comment_id != comment_id@ || j == i as int);
                assert(j != i as int);
                if j < i as int {
                    assert(self.rows()[j].comment_id == r0[j].comment_id);
                } else {
                    assert(self.rows()[j - 1].comment_id == r0[j].comment_id);
                }
            }
            assert forall|ii: int|
                0 <= ii < self.rows().len() implies (#[trigger] self.rows()[ii]).like_count
                == count_likes(self.like_pairs(), self.rows()[ii].comment_id) by {
                let oi = if ii < i as int {
                    ii
                } else {
                    ii + 1
                };
                assert(self.rows()[ii] == r0[oi]);
                if oi < i as int {
                    assert(r0[oi].comment_id != r0[i as int].comment_id);
                } else {
                    assert(r0[i as int].comment_id != r0[oi].comment_id);
                }
                assert(r0[oi].like_count == count_likes(p0, r0[oi].comment_id));
                lemma_count_filter_other(p0, comment_id@, r0[oi].comment_id);
            }
        }
        Ok(())
    }

    /// Toggle the like of `user_id` on the comment `comment_id`:
    /// check-then-act as one operation under the exclusive borrow.
    /// `NotFound` when the comment does not exist, the store unchanged.
    #[verifier::loop_isolation(false)]
    pub fn like_comment_db(&mut self, comment_id: &str, user_id: &str) -> (r: Result<
        LikeToggle,
        AppError,
    >)
        requires
            old(self).wf(),
        ensures
            final(self).wf(),
            !old(self).contains_comment(comment_id@) ==> r == Err::<LikeToggle, AppError>(
                AppError::NotFound,
            ) && final(self).rows() == old(self).rows() && final(self).like_pairs() == old(self).like_pairs(),
            old(self).contains_comment(comment_id@) ==> (r matches Ok(t) && toggle_transition(
                *old(self),
                *final(self),
                comment_id@,
                user_id@,
                t,
            )),
    {
        let i = match self.position_of_comment(comment_id) {
            Some(i) => i,
            None => {
                return Err(AppError::NotFound);
            },
        };
        proof {
            let j = old(self).idx_of_comment(comment_id@);
            assert(old(self).rows()[j].comment_id == comment_id@);
            if j < i as int {
                assert(old(self).rows()[j].comment_id != old(self).rows()[i as int].comment_id);
            }
            if (i as int) < j {
                assert(old(self).rows()[i as int].comment_id != old(self).rows()[j].comment_id);
            }
            assert(j == i as int);
        }
        let ghost p0 = old(self).like_pairs();
        let ghost r0 = old(self).rows();
        match self.position_of_like(comment_id, user_id) {
            Some(li) => {
                self.likes.remove(li);
                proof {
                    assert(self.like_pairs() =~= p0.remove(li as int));
                }
                let mut row = self.comments[i].clone();
                proof {
                    assert(row@ == r0[i as int]);
                    assert(r0[i as int].like_count == count_likes(p0, comment_id@));
                    lemma_count_remove(p0, li as int, comment_id@);
                    assert(p0[li as int].0 == comment_id@);
                    assert(row.like_count >= 1);
                }
                row.like_count = row.like_count - 1;
                let ghost newv = row@;
                self.comments.set(i, row);
                proof {
                    assert(self.rows() =~= r0.update(i as int, newv));
                    assert(newv == with_count(r0[i as int], newv.like_count));
                    assert(newv.like_count == count_likes(self.like_pairs(), comment_id@));
                    self.finish_toggle_proof(*old(self), comment_id@, user_id@, i as int, newv);
                    p0.to_multiset_ensures();
                    assert(self.like_pairs().to_multiset() =~= p0.to_multiset().remove(
                        (comment_id@, user_id@),
                    ));
                    assert(toggle_transition(
                        *old(self),
                        *self,
                        comment_id@,
                        user_id@,
                        LikeToggle::Unliked,
                    ));
                }
                Ok(LikeToggle::Unliked)
            },
            None => {
                let pair = CommentLike {
                    comment_id: String::from_str(comment_id),
                    user_id: String::from_str(user_id),
                };
                self.likes.push(pair);
                proof {
                    assert(self.like_pairs() =~= p0.push((comment_id@, user_id@)));
                }
                let n2 = self.likes.len();
                let mut row = self.comments[i].clone();
                proof {
                    assert(row@ == r0[i as int]);
                    assert(r0[i as int].like_count == count_likes(p0, comment_id@));
                    lemma_count_push(p0, (comment_id@, user_id@), comment_id@);
                    lemma_count_le_len(p0, comment_id@);
                    assert(self.like_pairs().len() == n2);
                    assert(row.like_count < u64::MAX);
                }
                row.like_count = row.like_count + 1;
                let ghost newv = row@;
                self.comments.set(i, row);
                proof {
                    assert(self.rows() =~= r0.update(i as int, newv));
                    assert(newv == with_count(r0[i as int], newv.like_count));
                    assert(newv.like_count == count_likes(self.like_pairs(), comment_id@));
                    self.finish_toggle_proof(*old(self), comment_id@, user_id@, i as int, newv);
                    p0.to_multiset_ensures();
                    assert(self.like_pairs().to_multiset() =~= p0.to_multiset().insert(
                        (comment_id@, user_id@),
                    ));
                    assert(toggle_transition(
                        *old(self),
                        *self,
                        comment_id@,
                        user_id@,
                        LikeToggle::Liked,
                    ));
                }
                Ok(LikeToggle::Liked)
            },
        }
    }

    /// The shared tail of the toggle proof: the invariant clauses that
    /// do not depend on the direction.
    proof fn finish_toggle_proof(
        self,
        pre: CommentStore,
        cid: Seq<char>,
        uid: Seq<char>,
        i: int,
        newv: CommentView,
    )
        requires
            pre.wf(),
            0 <= i < pre.rows().len(),
            pre.rows()[i].comment_id == cid,
            self.rows() == pre.rows().update(i, newv),
            newv == with_count(pre.rows()[i], newv.like_count),
            newv.like_count == count_likes(self.like_pairs(), cid),
            (self.like_pairs() == pre.like_pairs().push((cid, uid)) && !pre.like_pairs().contains(
                (cid, uid),
            )) || (exists|li: int|
                0 <= li < pre.like_pairs().len() && pre.like_pairs()[li] == (cid, uid)
                    && self.like_pairs() == pre.like_pairs().remove(li)),
        ensures
            self.wf(),
    {
        let p0 = pre.like_pairs();
        let r0 = pre.rows();
        assert forall|p: int, q: int|
            0 <= p < q < self.rows().len() implies (#[trigger] self.rows()[p]).comment_id != (
        #[trigger] self.rows()[q]).comment_id by {
            assert(r0[p].comment_id != r0[q].comment_id);
        }
        if self.like_pairs() == p0.push((cid, uid)) && !p0.contains((cid, uid)) {
            assert(self.like_pairs().no_duplicates()) by {
                assert forall|a: int, b: int|
                    0 <= a < b < self.like_pairs().len() implies self.like_pairs()[a]
                    != self.like_pairs()[b] by {
                    if b == self.like_pairs().len() - 1 {
                        assert(p0[a] == self.like_pairs()[a]);
                        if self.like_pairs()[a] == (cid, uid) {
                            assert(p0.contains((cid, uid)));
                        }
                    } else {
                        assert(p0[a] == self.like_pairs()[a]);
                        assert(p0[b] == self.like_pairs()[b]);
                    }
                }
            }
            assert forall|k: int|
                0 <= k < self.like_pairs().len() implies self.contains_comment(
                (#[trigger] self.like_pairs()[k]).0,
            ) by {
                if k < p0.len() {
                    assert(pre.contains_comment(p0[k].0));
                    let j = choose|j: int|
                        0 <= j < r0.len() && (#[trigger] r0[j]).comment_id == p0[k].0;
                    assert(self.rows()[j].comment_id == r0[j].comment_id);
                } else {
                    assert(self.like_pairs()[k].0 == cid);
                    assert(self.rows()[i].comment_id == cid);
                }
            }
            assert forall|ii: int|
                0 <= ii < self.rows().len() implies (#[trigger] self.rows()[ii]).like_count
                == count_likes(self.like_pairs(), self.rows()[ii].comment_id) by {
                lemma_count_push(p0, (cid, uid), self.rows()[ii].comment_id);
                if ii != i {
                    assert(self.rows()[ii] == r0[ii]);
                    assert(r0[ii].comment_id != cid);
                }
            }
        } else {
            let li = choose|li: int|
                0 <= li < p0.len() && p0[li] == (cid, uid) && self.like_pairs() == p0.remove(li);
            p0.remove_ensures(li);
            assert(self.like_pairs().no_duplicates()) by {
                assert forall|a: int, b: int|
                    0 <= a < b < self.like_pairs().len() implies self.like_pairs()[a]
                    != self.like_pairs()[b] by {
                    let oa = if a < li {
                        a
                    } else {
                        a + 1
                    };
                    let ob = if b < li {
                        b
                    } else {
                        b + 1
                    };
                    assert(self.like_pairs()[a] == p0[oa]);
                    assert(self.like_pairs()[b] == p0[ob]);
                }
            }
            assert forall|k: int|
                0 <= k < self.like_pairs().len() implies self.contains_comment(
                (#[trigger] self.like_pairs()[k]).0,
            ) by {
                let ok = if k < li {
                    k
                } else {
                    k + 1
                };
                assert(self.like_pairs()[k] == p0[ok]);
                assert(pre.contains_comment(p0[ok].0));
                let j = choose|j: int|
                    0 <= j < r0.len() && (#[trigger] r0[j]).comment_id == p0[ok].0;
                assert(self.rows()[j].comment_id == r0[j].comment_id);
            }
            assert forall|ii: int|
                0 <= ii < self.rows().len() implies (#[trigger] self.rows()[ii]).like_count
                == count_likes(self.like_pairs(), self.rows()[ii].comment_id) by {
                lemma_count_remove(p0, li, self.rows()[ii].comment_id);
                if ii != i {
                    assert(self.rows()[ii] == r0[ii]);
                    assert(r0[ii].comment_id != cid);
                    assert(p0[li].0 != self.rows()[ii].comment_id);
                }
            }
        }
    }
}

/// What one toggle does: when no row for the pair exists, one is
/// inserted and the comment's counter goes up by exactly one, outcome
/// `Liked`; when a row exists, it is deleted and the counter goes down
/// by exactly one, outcome `Unliked`. Nothing else changes: every other
/// pair keeps its multiplicity and every other comment its row.
pub open spec fn toggle_transition(
    pre: CommentStore,
    post: CommentStore,
    cid: Seq<char>,
    uid: Seq<char>,
    r: LikeToggle,
) -> bool {
    let i = pre.idx_of_comment(cid);
    &&& pre.contains_comment(cid)
    &&& match r {
        LikeToggle::Liked => {
            &&& !pre.like_pairs().contains((cid, uid))
            &&& post.like_pairs().to_multiset() == pre.like_pairs().to_multiset().insert(
                (cid, uid),
            )
            &&& post.rows()[i].like_count == pre.rows()[i].like_count + 1
            &&& post.rows() == pre.rows().update(
                i,
                with_count(pre.rows()[i], post.rows()[i].like_count),
            )
        },
        LikeToggle::Unliked => {
            &&& pre.like_pairs().contains((cid, uid))
            &&& post.like_pairs().to_multiset() == pre.like_pairs().to_multiset().remove(
                (cid, uid),
            )
            &&& post.rows()[i].like_count == pre.rows()[i].like_count - 1
            &&& post.rows() == pre.rows().update(
                i,
                with_count(pre.rows()[i], post.rows()[i].like_count),
            )
        },
    }
}

/// Toggling twice from a state with no like row for the pair returns the
/// store to where it began: the first toggle likes and raises the
/// counter by one, the second unlikes and restores both the counter and
/// the like table.
pub proof fn lemma_toggle_like_round_trip(
    s0: CommentStore,
    s1: CommentStore,
    s2: CommentStore,
    cid: Seq<char>,
    uid: Seq<char>,
    r1: LikeToggle,
    r2: LikeToggle,
)
    requires
        s0.wf(),
        s0.contains_comment(cid),
        !s0.like_pairs().contains((cid, uid)),
        toggle_transition(s0, s1, cid, uid, r1),
        toggle_transition(s1, s2, cid, uid, r2),
    ensures
        r1 == LikeToggle::Liked,
        r2 == LikeToggle::Unliked,
        s1.rows()[s0.idx_of_comment(cid)].like_count == s0.rows()[s0.idx_of_comment(
            cid,
        )].like_count + 1,
        s2.rows() =~= s0.rows(),
        s2.like_pairs().to_multiset() =~= s0.like_pairs().to_multiset(),
{
    let i = s0.idx_of_comment(cid);
    assert(0 <= i < s0.rows().len() && s0.rows()[i].comment_id == cid);
    assert(r1 == LikeToggle::Liked);
    s1.like_pairs().to_multiset_ensures();
    s0.like_pairs().to_multiset_ensures();
    assert(s1.like_pairs().to_multiset().count((cid, uid)) > 0);
    assert(s1.like_pairs().contains((cid, uid)));
    assert(r2 == LikeToggle::Unliked);
    let i1 = s1.idx_of_comment(cid);
    assert(s1.rows()[i].comment_id == cid);
    assert(s1.contains_comment(cid));
    assert(0 <= i1 < s1.rows().len() && s1.rows()[i1].comment_id == cid);
    if i1 != i {
        assert(s0.rows()[i1].comment_id == s1.rows()[i1].comment_id);
        if i1 < i {
            assert(s0.rows()[i1].comment_id != s0.rows()[i].comment_id);
        } else {
            assert(s0.rows()[i].comment_id != s0.rows()[i1].comment_id);
        }
    }
    assert(i1 == i);
    assert(s1.rows()[i] == with_count(s0.rows()[i], s1.rows()[i].like_count));
    assert(s2.rows()[i] == with_count(s1.rows()[i], s2.rows()[i].like_count));
    assert(s2.rows()[i].like_count == s0.rows()[i].like_count);
    assert(s2.rows()[i] =~= s0.rows()[i]);
    assert(s2.rows() =~= s0.rows());
    assert(s2.like_pairs().to_multiset() =~= s0.like_pairs().to_multiset());
}

/// In a well-formed store the like counter of every comment equals the
/// number of rows of the membership table that reference it: the counter
/// can never drift from the table.
pub proof fn lemma_like_count_consistent(s: CommentStore, cid: Seq<char>)
    requires
        s.wf(),
        s.contains_comment(cid),
    ensures
        s.rows()[s.idx_of_comment(cid)].like_count == count_likes(s.like_pairs(), cid),
{
}

/// The comments of one article.
pub open spec fn of_article(aid: Seq<char>) -> spec_fn(CommentView) -> bool {
    |c: CommentView| c.article_id == aid
}

/// The views of a vector of viewer's comments.
pub open spec fn cwl_views(s: Seq<CommentWithLike>) -> Seq<CommentWithLikeView> {
    s.map_values(|x: CommentWithLike| x@)
}

/// Ordered newest-first by creation time.
pub open spec fn sorted_desc(s: Seq<CommentWithLikeView>) -> bool {
    forall|i: int, j: int|
        0 <= i <= j < s.len() ==> (#[trigger] s[i]).created_at >= (#[trigger] s[j]).created_at
}

/// Whether a parent reference is acceptable for a new comment on the
/// given article: absent, or naming an existing comment of that article.
pub open spec fn parent_ok(s: CommentStore, parent: Option<Seq<char>>, article: Seq<char>) -> bool {
    match parent {
        None => true,
        Some(p) => s.contains_comment(p) && s.rows()[s.idx_of_comment(p)].article_id == article,
    }
}

} // verus!
