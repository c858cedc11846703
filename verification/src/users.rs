//! Users and the user store.
//!
//! A user row carries an opaque identifier, a unique username, the
//! password hash, and a role. The store keeps two invariants: no two rows
//! share an id and no two rows share a username. Roles are looked up
//! fresh from these rows on every permission decision — never trusted
//! from a token.

use vstd::prelude::*;
use vstd::pervasive::VecAdditionalExecFns;
use crate::errors::AppError;
use crate::roles::Role;
use crate::strutil::{lemma_lex_le_refl, lemma_lex_le_total, lemma_lex_le_trans, lex_le, str_eq, str_le};

verus! {

/// A stored user row.
#[derive(Debug)]
pub struct User {
    /// Opaque identifier; `"1"` is the bootstrap admin.
    pub id: String,
    /// Unique display and login name.
    pub username: String,
    /// The password hash, a PHC string embedding salt and parameters.
    pub password: String,
    /// The current role; authorization uses this, never a token claim.
    pub identity: Role,
}

/// A user row as plain mathematical values.
pub ghost struct UserView {
    pub id: Seq<char>,
    pub username: Seq<char>,
    pub password: Seq<char>,
    pub identity: Role,
}

impl View for User {
    type V = UserView;

    open spec fn view(&self) -> UserView {
        UserView {
            id: self.id@,
            username: self.username@,
            password: self.password@,
            identity: self.identity,
        }
    }
}

impl Clone for User {
    fn clone(&self) -> (r: Self)
        ensures
            r == *self,
    {
        User {
            id: self.id.clone(),
            username: self.username.clone(),
            password: self.password.clone(),
            identity: self.identity,
        }
    }
}

/// The part of a user row that is shown to callers: everything but the
/// password hash.
#[derive(Debug)]
pub struct UserPublic {
    pub id: String,
    pub username: String,
    pub identity: Role,
}

/// A public user as plain mathematical values.
pub ghost struct UserPublicView {
    pub id: Seq<char>,
    pub username: Seq<char>,
    pub identity: Role,
}

impl View for UserPublic {
    type V = UserPublicView;

    open spec fn view(&self) -> UserPublicView {
        UserPublicView { id: self.id@, username: self.username@, identity: self.identity }
    }
}

impl Clone for UserPublic {
    fn clone(&self) -> (r: Self)
        ensures
            r == *self,
    {
        UserPublic {
            id: self.id.clone(),
            username: self.username.clone(),
            identity: self.identity,
        }
    }
}

/// The public projection of a user row.
pub open spec fn public_of(u: UserView) -> UserPublicView {
    UserPublicView { id: u.id, username: u.username, identity: u.identity }
}

impl From<User> for UserPublic {
    fn from(u: User) -> (r: UserPublic) {
        UserPublic { id: u.id, username: u.username, identity: u.identity }
    }
}

impl vstd::std_specs::convert::FromSpecImpl<User> for UserPublic {
    open spec fn obeys_from_spec() -> bool {
        true
    }

    open spec fn from_spec(u: User) -> UserPublic {
        UserPublic { id: u.id, username: u.username, identity: u.identity }
    }
}

/// The data a new user is created from.
#[derive(Debug)]
pub struct NewUser {
    pub username: String,
    /// Already hashed; the store never sees a plaintext password.
    pub password: String,
    pub identity: Role,
}

/// The views of a sequence of user rows.
pub open spec fn user_views(s: Seq<User>) -> Seq<UserView> {
    s.map_values(|u: User| u@)
}

/// Ordered ascending by id in code-point order, the order a binary
/// collation on the id column yields.
pub open spec fn sorted_by_id(s: Seq<UserView>) -> bool {
    forall|i: int, j: int|
        0 <= i < j < s.len() ==> lex_le((#[trigger] s[i]).id, (#[trigger] s[j]).id)
}

/// The store of user rows.
pub struct UserStore {
    users: Vec<User>,
}

impl UserStore {
    /// The rows as plain values, in insertion order.
    pub closed spec fn rows(self) -> Seq<UserView> {
        user_views(self.users@)
    }

    /// Well-formedness: no two rows share an id, no two share a username.
    pub open spec fn wf(self) -> bool {
        forall|i: int, j: int|
            0 <= i < j < self.rows().len() ==> (#[trigger] self.rows()[i]).id != (
            #[trigger] self.rows()[j]).id && self.rows()[i].username != self.rows()[j].username
    }

    /// Whether some row has the given id.
    pub open spec fn contains_id(self, id: Seq<char>) -> bool {
        exists|i: int| 0 <= i < self.rows().len() && (#[trigger] self.rows()[i]).id == id
    }

    /// Whether some row has the given username.
    pub open spec fn contains_username(self, username: Seq<char>) -> bool {
        exists|i: int|
            0 <= i < self.rows().len() && (#[trigger] self.rows()[i]).username == username
    }

    /// The index of the row with the given id.
    pub open spec fn idx_of_id(self, id: Seq<char>) -> int {
        choose|i: int| 0 <= i < self.rows().len() && (#[trigger] self.rows()[i]).id == id
    }

    /// The row with the given id.
    pub open spec fn user_by_id(self, id: Seq<char>) -> UserView {
        self.rows()[self.idx_of_id(id)]
    }

    /// The index of the row with the given username.
    pub open spec fn idx_of_username(self, username: Seq<char>) -> int {
        choose|i: int|
            0 <= i < self.rows().len() && (#[trigger] self.rows()[i]).username == username
    }

    /// The row with the given username.
    pub open spec fn user_by_username(self, username: Seq<char>) -> UserView {
        self.rows()[self.idx_of_username(username)]
    }

    /// An empty store.
    pub fn new() -> (r: UserStore)
        ensures
            r.rows() =~= Seq::<UserView>::empty(),
            r.wf(),
    {
        let r = UserStore { users: Vec::new() };
        proof {
            assert(r.rows() =~= Seq::<UserView>::empty());
        }
        r
    }

    /// The index of the first row with this id, if any.
    fn position_of_id(&self, id: &str) -> (r: Option<usize>)
        ensures
            match r {
                Some(i) => i < self.rows().len() && self.rows()[i as int].id == id@,
                None => !self.contains_id(id@),
            },
    {
        let mut i: usize = 0;
        let n = self.users.len();
        while i < n
            invariant
                n == self.users.len(),
                i <= n,
                forall|j: int| 0 <= j < i ==> (#[trigger] self.rows()[j]).id != id@,
            decreases n - i,
        {
            if str_eq(self.users[i].id.as_str(), id) {
                return Some(i);
            }
            i = i + 1;
        }
        None
    }

    /// The index of the first row with this username, if any.
    fn position_of_username(&self, username: &str) -> (r: Option<usize>)
        ensures
            match r {
                Some(i) => i < self.rows().len() && self.rows()[i as int].username == username@,
                None => !self.contains_username(username@),
            },
    {
        let mut i: usize = 0;
        let n = self.users.len();
        while i < n
            invariant
                n == self.users.len(),
                i <= n,
                forall|j: int| 0 <= j < i ==> (#[trigger] self.rows()[j]).username != username@,
            decreases n - i,
    {
            if str_eq(self.users[i].username.as_str(), username) {
                return Some(i);
            }
            i = i + 1;
        }
        None
    }

    /// Look a user up by id; `None` when no row has it.
    pub fn find_user_by_id(&self, id: &str) -> (r: Option<User>)
        requires
            self.wf(),
        ensures
            match r {
                Some(u) => self.contains_id(id@) && u@ == self.user_by_id(id@),
                None => !self.contains_id(id@),
            },
    {
        match self.position_of_id(id) {
            Some(i) => {
                let u = self.users[i].clone();
                proof {
                    assert(self.contains_id(id@));
                    let j = self.idx_of_id(id@);
                    assert(self.rows()[j].id == id@);
                    assert(j == i as int);
                }
                Some(u)
            },
            None => None,
        }
    }

    /// Look a user up by username; `None` when no row has it.
    pub fn find_user_by_username(&self, username: &str) -> (r: Option<User>)
        requires
            self.wf(),
        ensures
            match r {
                Some(u) => self.contains_username(username@) && u@ == self.user_by_username(
                    username@,
                ),
                None => !self.contains_username(username@),
            },
    {
        match self.position_of_username(username) {
            Some(i) => {
                let u = self.users[i].clone();
                proof {
                    assert(self.contains_username(username@));
                    let j = self.idx_of_username(username@);
                    assert(self.rows()[j].username == username@);
                    assert(j == i as int);
                }
                Some(u)
            },
            None => None,
        }
    }

    /// Insert a new user row under the given fresh id. A clash on id or
    /// username is a storage-constraint failure, reported as `Internal`
    /// with the store unchanged.
    pub fn insert_common_user(&mut self, new: &NewUser, id: &str) -> (r: Result<User, AppError>)
        requires
            old(self).wf(),
        ensures
            final(self).wf(),
            r is Err ==> r == Err::<User, AppError>(AppError::Internal) && final(self).rows()
                == old(self).rows(),
            r is Err <==> old(self).contains_id(id@) || old(self).contains_username(
                new.username@,
            ),
            r matches Ok(u) ==> u@ == (UserView {
                id: id@,
                username: new.username@,
                password: new.password@,
                identity: new.identity,
            }) && final(self).rows() =~= old(self).rows().push(u@),
    {
        if self.position_of_id(id).is_some() {
            return Err(AppError::Internal);
        }
        if self.position_of_username(new.username.as_str()).is_some() {
            return Err(AppError::Internal);
        }
        let user = User {
            id: String::from_str(id),
            username: new.username.clone(),
            password: new.password.clone(),
            identity: new.identity,
        };
        let out = user.clone();
        self.users.push(user);
        proof {
            assert(self.rows() =~= old(self).rows().push(out@));
        }
        Ok(out)
    }

    /// The rows ordered ascending by id, as public users, capped at
    /// `limit` rows; a negative `limit` means no cap. The result is the
    /// prefix of the unique id-ordered arrangement of the rows.
    #[verifier::loop_isolation(false)]
    pub fn list_users(&self, limit: i32) -> (r: Vec<UserPublic>)
        ensures
            r@.len() == self.list_len(limit),
            exists|sorted: Seq<UserView>|
                #[trigger] sorted.to_multiset() == self.rows().to_multiset() && sorted_by_id(
                    sorted,
                ) && (forall|k: int|
                    0 <= k < r@.len() ==> (#[trigger] r@[k])@ == public_of(sorted[k])),
    {
        let n = self.users.len();
        let mut pool: Vec<User> = Vec::new();
        let mut i: usize = 0;
        while i < n
            invariant
                i <= n,
                pool@.len() == i,
                forall|k: int| 0 <= k < i ==> pool@[k] == self.users@[k],
            decreases n - i,
        {
            pool.push(self.users[i].clone());
            i = i + 1;
        }
        proof {
            assert(user_views(pool@) =~= self.rows());
            user_views(pool@).to_multiset_ensures();
        }
        let mut ordered: Vec<User> = Vec::new();
        proof {
            let ve = user_views(ordered@);
            ve.to_multiset_ensures();
            assert(ve =~= Seq::<UserView>::empty());
            assert forall|v: UserView|
                ve.to_multiset().add(user_views(pool@).to_multiset()).count(v)
                    == self.rows().to_multiset().count(v) by {
                assert(!ve.contains(v));
                assert(ve.to_multiset().count(v) == 0);
            }
            assert(ve.to_multiset().add(user_views(pool@).to_multiset())
                =~= self.rows().to_multiset());
        }
        while pool.len() > 0
            invariant
                user_views(ordered@).to_multiset().add(user_views(pool@).to_multiset())
                    == self.rows().to_multiset(),
                sorted_by_id(user_views(ordered@)),
                forall|p: int, q: int|
                    0 <= p < ordered@.len() && 0 <= q < pool@.len() ==> lex_le(
                        (#[trigger] user_views(ordered@)[p]).id,
                        (#[trigger] user_views(pool@)[q]).id,
                    ),
            decreases pool.len(),
        {
            let mut imin: usize = 0;
            let mut m: usize = 1;
            proof {
                lemma_lex_le_refl(user_views(pool@)[0].id);
            }
            while m < pool.len()
                invariant
                    imin < pool@.len(),
                    m <= pool@.len(),
                    forall|q: int|
                        0 <= q < m ==> lex_le(
                            user_views(pool@)[imin as int].id,
                            (#[trigger] user_views(pool@)[q]).id,
                        ),
                decreases pool@.len() - m,
            {
                if str_le(pool[m].id.as_str(), pool[imin].id.as_str()) {
                    proof {
                        assert forall|q: int|
                            0 <= q < m + 1 implies lex_le(
                            user_views(pool@)[m as int].id,
                            (#[trigger] user_views(pool@)[q]).id,
                        ) by {
                            if q < m {
                                lemma_lex_le_trans(
                                    user_views(pool@)[m as int].id,
                                    user_views(pool@)[imin as int].id,
                                    user_views(pool@)[q].id,
                                );
                            } else {
                                lemma_lex_le_refl(user_views(pool@)[m as int].id);
                            }
                        }
                    }
                    imin = m;
                } else {
                    proof {
                        lemma_lex_le_total(
                            user_views(pool@)[m as int].id,
                            user_views(pool@)[imin as int].id,
                        );
                        lemma_lex_le_refl(user_views(pool@)[m as int].id);
                    }
                }
                m = m + 1;
            }
            let ghost vpool = user_views(pool@);
            let ghost vout = user_views(ordered@);
            let u = pool.remove(imin);
            ordered.push(u);
            proof {
                assert(user_views(pool@) =~= vpool.remove(imin as int));
                assert(user_views(ordered@) =~= vout.push(u@));
                assert(u@ == vpool[imin as int]);
                vpool.to_multiset_ensures();
                vout.to_multiset_ensures();
                assert(vpool.contains(vpool[imin as int]));
                assert(vpool.to_multiset().count(u@) > 0);
                assert(user_views(ordered@).to_multiset().add(user_views(pool@).to_multiset())
                    =~= self.rows().to_multiset());
                vpool.remove_ensures(imin as int);
                assert forall|p: int, q: int|
                    0 <= p < ordered@.len() && 0 <= q < pool@.len() implies lex_le(
                    (#[trigger] user_views(ordered@)[p]).id,
                    (#[trigger] user_views(pool@)[q]).id,
                ) by {
                    let oq = if q < imin as int {
                        q
                    } else {
                        q + 1
                    };
                    assert(user_views(pool@)[q] == vpool[oq]);
                    if p < ordered@.len() - 1 {
                        assert(lex_le(vout[p].id, vpool[oq].id));
                    } else {
                        assert(lex_le(vpool[imin as int].id, vpool[oq].id));
                    }
                }
            }
        }
        proof {
            let vp = user_views(pool@);
            vp.to_multiset_ensures();
            user_views(ordered@).to_multiset_ensures();
            self.rows().to_multiset_ensures();
            assert(vp =~= Seq::<UserView>::empty());
            assert forall|v: UserView|
                user_views(ordered@).to_multiset().count(v) == self.rows().to_multiset().count(
                    v,
                ) by {
                assert(!vp.contains(v));
                assert(vp.to_multiset().count(v) == 0);
                assert(user_views(ordered@).to_multiset().add(vp.to_multiset()).count(v)
                    == self.rows().to_multiset().count(v));
            }
            assert(user_views(ordered@).to_multiset() =~= self.rows().to_multiset());
            assert(user_views(ordered@).len() == self.rows().len());
        }
        let total = ordered.len();
        let cap: usize = if limit < 0 {
            total
        } else if (limit as usize) < total {
            limit as usize
        } else {
            total
        };
        let mut out: Vec<UserPublic> = Vec::new();
        let mut k: usize = 0;
        while k < cap
            invariant
                out@.len() == k,
                k <= cap,
                cap <= total,
                total == ordered@.len(),
                forall|j: int|
                    0 <= j < k ==> (#[trigger] out@[j])@ == public_of(user_views(ordered@)[j]),
            decreases cap - k,
        {
            let u = &ordered[k];
            out.push(
                UserPublic { id: u.id.clone(), username: u.username.clone(), identity: u.identity },
            );
            k = k + 1;
        }
        proof {
            assert(cap as nat == self.list_len(limit));
            let witness = user_views(ordered@);
            assert(witness.to_multiset() == self.rows().to_multiset() && sorted_by_id(witness)
                && (forall|j: int|
                0 <= j < out@.len() ==> (#[trigger] out@[j])@ == public_of(witness[j])));
        }
        out
    }

    /// How many rows `list_users` yields for a given limit.
    pub open spec fn list_len(self, limit: i32) -> nat {
        if limit < 0 {
            self.rows().len()
        } else if (limit as nat) < self.rows().len() {
            limit as nat
        } else {
            self.rows().len()
        }
    }

    /// Remove the row with this id; a no-op when no row has it.
    pub fn delete_user_by_id(&mut self, id: &str)
        requires
            old(self).wf(),
        ensures
            final(self).wf(),
            !old(self).contains_id(id@) ==> final(self).rows() == old(self).rows(),
            old(self).contains_id(id@) ==> final(self).rows() =~= old(self).rows().remove(
                old(self).idx_of_id(id@),
            ),
    {
        match self.position_of_id(id) {
            Some(i) => {
                proof {
                    assert(self.contains_id(id@));
                    let j = self.idx_of_id(id@);
                    assert(self.rows()[j].id == id@);
                    assert(j == i as int);
                }
                self.users.remove(i);
                proof {
                    assert(self.rows() =~= old(self).rows().remove(i as int));
                    assert forall|p: int, q: int|
                        0 <= p < q < self.rows().len() implies (#[trigger] self.rows()[p]).id != (
                        #[trigger] self.rows()[q]).id && self.rows()[p].username
                        != self.rows()[q].username by {
                        old(self).rows().remove_ensures(i as int);
                    }
                }
            },
            None => {},
        }
    }

    /// The edit of a row: each supplied field replaces the stored one,
    /// the id and any absent field stay.
    pub open spec fn edited_row(
        u: UserView,
        username: Option<Seq<char>>,
        password: Option<Seq<char>>,
        identity: Option<Role>,
    ) -> UserView {
        UserView {
            id: u.id,
            username: match username {
                Some(n) => n,
                None => u.username,
            },
            password: match password {
                Some(p) => p,
                None => u.password,
            },
            identity: match identity {
                Some(r) => r,
                None => u.identity,
            },
        }
    }

    /// Whether an edit would give the row with `id` a username some other
    /// row already has.
    pub open spec fn username_conflict(
        self,
        id: Seq<char>,
        username: Option<Seq<char>>,
    ) -> bool {
        match username {
            Some(n) => exists|j: int|
                0 <= j < self.rows().len() && (#[trigger] self.rows()[j]).username == n
                    && self.rows()[j].id != id,
            None => false,
        }
    }

    /// Apply an account edit: each supplied field replaces the stored
    /// one. A username clash with another row is a storage-constraint
    /// failure, reported as `Internal` with the store unchanged; an
    /// unknown id is a no-op, as the underlying update touches no row.
    #[verifier::loop_isolation(false)]
    pub fn edit_user_account(
        &mut self,
        id: &str,
        username: Option<&String>,
        password: Option<&String>,
        identity: Option<Role>,
    ) -> (r: Result<(), AppError>)
        requires
            old(self).wf(),
        ensures
            final(self).wf(),
            !old(self).contains_id(id@) ==> r is Ok && final(self).rows() == old(self).rows(),
            old(self).contains_id(id@) && old(self).username_conflict(
                id@,
                opt_string_view(username),
            ) ==> r == Err::<(), AppError>(AppError::Internal) && final(self).rows() == old(self).rows(),
            old(self).contains_id(id@) && !old(self).username_conflict(
                id@,
                opt_string_view(username),
            ) ==> r is Ok && final(self).rows() =~= old(self).rows().update(
                old(self).idx_of_id(id@),
                UserStore::edited_row(
                    old(self).user_by_id(id@),
                    opt_string_view(username),
                    opt_string_view(password),
                    identity,
                ),
            ),
    {
        let i = match self.position_of_id(id) {
            Some(i) => i,
            None => {
                return Ok(());
            },
        };
        proof {
            assert(old(self).contains_id(id@));
            let jj = old(self).idx_of_id(id@);
            assert(old(self).rows()[jj].id == id@);
            if jj < i as int {
                assert(old(self).rows()[jj].id != old(self).rows()[i as int].id);
            }
            if (i as int) < jj {
                assert(old(self).rows()[i as int].id != old(self).rows()[jj].id);
            }
            assert(jj == i as int);
        }
        if let Some(n) = username {
            let mut j: usize = 0;
            let len = self.users.len();
            while j < len
                invariant
                    j <= len,
                    forall|k: int|
                        0 <= k < j ==> !((#[trigger] old(self).rows()[k]).username == n@ && old(self).rows()[k].id != id@),
                decreases len - j,
            {
                if j != i && str_eq(self.users[j].username.as_str(), n.as_str()) {
                    proof {
                        assert(old(self).rows()[j as int].username == n@);
                        if (j as int) < (i as int) {
                            assert(old(self).rows()[j as int].id != old(self).rows()[i as int].id);
                        }
                        if (i as int) < (j as int) {
                            assert(old(self).rows()[i as int].id != old(self).rows()[j as int].id);
                        }
                        assert(old(self).rows()[j as int].id != id@);
                    }
                    return Err(AppError::Internal);
                }
                j = j + 1;
            }
        }
        let mut row = self.users[i].clone();
        if let Some(n) = username {
            row.username = n.clone();
        }
        if let Some(p) = password {
            row.password = p.clone();
        }
        if let Some(r) = identity {
            row.identity = r;
        }
        let ghost newv = UserStore::edited_row(
            old(self).user_by_id(id@),
            opt_string_view(username),
            opt_string_view(password),
            identity,
        );
        self.users.set(i, row);
        proof {
            let r0 = old(self).rows();
            assert(self.rows() =~= r0.update(i as int, newv));
            assert forall|p: int, q: int|
                0 <= p < q < self.rows().len() implies (#[trigger] self.rows()[p]).id != (
            #[trigger] self.rows()[q]).id && self.rows()[p].username != self.rows()[q].username by {
                assert(r0[p].id != r0[q].id && r0[p].username != r0[q].username);
                if opt_string_view(username) is Some {
                    let n = opt_string_view(username).unwrap();
                    if p == i as int {
                        assert(!(r0[q].username == n && r0[q].id != id@));
                        assert(r0[q].id != r0[i as int].id);
                    }
                    if q == i as int {
                        assert(!(r0[p].username == n && r0[p].id != id@));
                        assert(r0[p].id != r0[i as int].id);
                    }
                }
            }
        }
        Ok(())
    }
}

/// An optional owned string as a mathematical value.
pub open spec fn opt_string_view(o: Option<&String>) -> Option<Seq<char>> {
    match o {
        None => None,
        Some(s) => Some(s@),
    }
}

} // verus!
