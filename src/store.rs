//! The user store: records kept in insertion order, at most one per id.
//!
//! The store is modelled as a sequence of `UserModel`s whose ids are pairwise
//! distinct; `lookup` reads it as a map from id to record.

use vstd::prelude::*;

use crate::errors::UserError;
use crate::user::{make_sample_user, models, sample_user, User, UserModel, UserRequest};

verus! {

/// Some record of `s` carries `id`.
pub open spec fn has_id(s: Seq<UserModel>, id: u32) -> bool {
    exists|i: int| 0 <= i < s.len() && s[i].id == id
}

/// No two records of `s` carry the same id.
pub open spec fn ids_unique(s: Seq<UserModel>) -> bool {
    forall|i: int, j: int| 0 <= i < s.len() && 0 <= j < s.len() && i != j ==> s[i].id != s[j].id
}

/// The place in `s` of a record that carries `id` (meaningful when `has_id`).
pub open spec fn position(s: Seq<UserModel>, id: u32) -> int {
    choose|i: int| 0 <= i < s.len() && s[i].id == id
}

/// The record that `s` holds under `id`, if any.
pub open spec fn lookup(s: Seq<UserModel>, id: u32) -> Option<UserModel> {
    if has_id(s, id) {
        Some(s[position(s, id)])
    } else {
        None
    }
}

/// `s` with `u` stored under its id: the old record replaced in place, or `u`
/// appended when the id was absent.
pub open spec fn upserted(s: Seq<UserModel>, u: UserModel) -> Seq<UserModel> {
    if has_id(s, u.id) {
        s.update(position(s, u.id), u)
    } else {
        s.push(u)
    }
}

/// `s` without the record under `id`; unchanged when there is none.
pub open spec fn removed(s: Seq<UserModel>, id: u32) -> Seq<UserModel> {
    if has_id(s, id) {
        s.remove(position(s, id))
    } else {
        s
    }
}

/// The records of `s` carry the ids 1, 2, ..., in order.
pub open spec fn ids_dense(s: Seq<UserModel>) -> bool {
    forall|k: int| 0 <= k < s.len() ==> s[k].id == k + 1
}

/// The first `n` synthetic users, ids 1 to `n`.
pub open spec fn sample_users(n: nat) -> Seq<UserModel> {
    Seq::new(n, |k: int| sample_user((k + 1) as u32))
}

/// In a sequence with distinct ids, a record carrying `id` is the one `position` picks.
proof fn lemma_position(s: Seq<UserModel>, id: u32, i: int)
    requires
        ids_unique(s),
        0 <= i < s.len(),
        s[i].id == id,
    ensures
        has_id(s, id),
        position(s, id) == i,
{
    assert(has_id(s, id));
}

proof fn lemma_upserted_unique(s: Seq<UserModel>, u: UserModel)
    requires
        ids_unique(s),
    ensures
        ids_unique(upserted(s, u)),
{
    if has_id(s, u.id) {
        let p = position(s, u.id);
        assert(s[p].id == u.id);
    }
}

proof fn lemma_removed_unique(s: Seq<UserModel>, id: u32)
    requires
        ids_unique(s),
    ensures
        ids_unique(removed(s, id)),
{
    if has_id(s, id) {
        let p = position(s, id);
        let r = s.remove(p);
        assert forall|i: int, j: int| 0 <= i < r.len() && 0 <= j < r.len() && i != j implies r[i].id
            != r[j].id by {
            let si = if i < p { i } else { i + 1 };
            let sj = if j < p { j } else { j + 1 };
            assert(r[i] == s[si]);
            assert(r[j] == s[sj]);
        }
    }
}

/// Storing a record and then looking up any id: the stored record under its
/// own id, and what was there before under every other id.
pub proof fn lemma_lookup_after_upsert(s: Seq<UserModel>, u: UserModel, id: u32)
    requires
        ids_unique(s),
    ensures
        ids_unique(upserted(s, u)),
        lookup(upserted(s, u), id) == (if id == u.id { Some(u) } else { lookup(s, id) }),
{
    lemma_upserted_unique(s, u);
    let t = upserted(s, u);
    if has_id(s, u.id) {
        let p = position(s, u.id);
        assert(t[p] == u);
        lemma_position(t, u.id, p);
        if id != u.id {
            if has_id(s, id) {
                let q = position(s, id);
                assert(t[q] == s[q]);
                lemma_position(t, id, q);
            } else if has_id(t, id) {
                let q = position(t, id);
                assert(s[q].id == id);
            }
        }
    } else {
        let n = s.len() as int;
        assert(t[n] == u);
        lemma_position(t, u.id, n);
        if id != u.id {
            if has_id(s, id) {
                let q = position(s, id);
                assert(t[q] == s[q]);
                lemma_position(t, id, q);
            } else if has_id(t, id) {
                let q = position(t, id);
                assert(s[q].id == id);
            }
        }
    }
}

/// Removing the record under `id`: a later lookup of `id` finds nothing, and
/// every other id keeps its record.
pub proof fn lemma_lookup_after_remove(s: Seq<UserModel>, id: u32, other: u32)
    requires
        ids_unique(s),
    ensures
        ids_unique(removed(s, id)),
        lookup(removed(s, id), id) == None::<UserModel>,
        lookup(removed(s, id), other) == (if other == id { None } else { lookup(s, other) }),
{
    lemma_removed_unique(s, id);
    let t = removed(s, id);
    if has_id(s, id) {
        let p = position(s, id);
        if has_id(t, id) {
            let q = position(t, id);
            let sq = if q < p { q } else { q + 1 };
            assert(t[q] == s[sq]);
        }
        if other != id {
            if has_id(s, other) {
                let q = position(s, other);
                let tq = if q < p { q } else { q - 1 };
                assert(t[tq] == s[q]);
                lemma_position(t, other, tq);
            } else if has_id(t, other) {
                let q = position(t, other);
                let sq = if q < p { q } else { q + 1 };
                assert(t[q] == s[sq]);
            }
        }
    }
}

/// Creating on a store whose ids are 1 to n gives id n + 1, appends the new
/// record, and leaves ids 1 to n + 1; so creations from empty give 1, 2, ..., N.
pub proof fn lemma_create_on_dense(s: Seq<UserModel>, name: Seq<char>, email: Seq<char>)
    requires
        ids_dense(s),
        s.len() < u32::MAX,
    ensures
        !has_id(s, (s.len() + 1) as u32),
        upserted(s, UserModel { id: (s.len() + 1) as u32, name, email }) == s.push(
            UserModel { id: (s.len() + 1) as u32, name, email },
        ),
        ids_dense(s.push(UserModel { id: (s.len() + 1) as u32, name, email })),
        ids_unique(s),
{
    let id = (s.len() + 1) as u32;
    if has_id(s, id) {
        let p = position(s, id);
        assert(s[p].id == p + 1);
    }
    let u = UserModel { id, name, email };
    assert(ids_dense(s.push(u))) by {
        assert forall|k: int| 0 <= k < s.push(u).len() implies s.push(u)[k].id == k + 1 by {
            if k < s.len() {
                assert(s.push(u)[k] == s[k]);
            }
        }
    }
}

/// The store's model after creating, on an empty store, one user for each
/// (name, email) of `reqs` in turn: each create stores the next id, the count
/// plus one, as `UserStore::create` states.
pub open spec fn after_creates(reqs: Seq<(Seq<char>, Seq<char>)>) -> Seq<UserModel>
    decreases reqs.len(),
{
    if reqs.len() == 0 {
        Seq::empty()
    } else {
        let s = after_creates(reqs.drop_last());
        upserted(s, UserModel { id: (s.len() + 1) as u32, name: reqs.last().0, email: reqs.last().1 })
    }
}

/// Creating N users one after another on an empty store gives them the ids
/// 1 to N, in order, each with its own name and email.
pub proof fn lemma_creates_from_empty(reqs: Seq<(Seq<char>, Seq<char>)>)
    requires
        reqs.len() <= u32::MAX,
    ensures
        after_creates(reqs).len() == reqs.len(),
        forall|k: int|
            0 <= k < reqs.len() ==> #[trigger] after_creates(reqs)[k] == (UserModel {
                id: (k + 1) as u32,
                name: reqs[k].0,
                email: reqs[k].1,
            }),
    decreases reqs.len(),
{
    if reqs.len() > 0 {
        let prev = reqs.drop_last();
        lemma_creates_from_empty(prev);
        let s = after_creates(prev);
        assert(ids_dense(s)) by {
            assert forall|k: int| 0 <= k < s.len() implies s[k].id == k + 1 by {
                assert(s[k] == after_creates(prev)[k]);
            }
        }
        lemma_create_on_dense(s, reqs.last().0, reqs.last().1);
        assert forall|k: int| 0 <= k < reqs.len() implies #[trigger] after_creates(reqs)[k] == (
        UserModel { id: (k + 1) as u32, name: reqs[k].0, email: reqs[k].1 }) by {
            if k < prev.len() {
                assert(prev[k] == reqs[k]);
            }
        }
    }
}

/// Every sequence of sample users carries the ids 1 to n.
proof fn lemma_sample_users_dense(n: nat)
    requires
        n <= u32::MAX,
    ensures
        ids_dense(sample_users(n)),
{
}

/// The records of `s` from place `start` on, at most `count` of them.
pub open spec fn window(s: Seq<UserModel>, start: int, count: int) -> Seq<UserModel> {
    let lo = if start < s.len() { start } else { s.len() as int };
    let hi = if lo + count < s.len() { lo + count } else { s.len() as int };
    s.subrange(lo, hi)
}

/// The in-memory store of users.
pub struct UserStore {
    users: Vec<User>,
}

impl View for UserStore {
    type V = Seq<UserModel>;

    closed spec fn view(&self) -> Seq<UserModel> {
        models(self.users@)
    }
}

impl UserStore {
    /// The store's invariant: one record per id.
    pub open spec fn wf(&self) -> bool {
        ids_unique(self@)
    }

    /// An empty store.
    pub fn new() -> (r: UserStore)
        ensures
            r@ == Seq::<UserModel>::empty(),
            r.wf(),
    {
        let r = UserStore { users: Vec::new() };
        assert(r@ =~= Seq::<UserModel>::empty());
        r
    }

    /// The number of records.
    pub fn len(&self) -> (r: usize)
        ensures
            r == self@.len(),
    {
        self.users.len()
    }

    /// The place of the record under `id`, if there is one.
    fn find(&self, id: u32) -> (r: Option<usize>)
        requires
            self.wf(),
        ensures
            match r {
                Some(i) => i < self@.len() && self@[i as int].id == id && position(self@, id) == i,
                None => !has_id(self@, id),
            },
    {
        let mut i: usize = 0;
        while i < self.users.len()
            invariant
                self.wf(),
                i <= self.users.len(),
                self.users@.len() == self@.len(),
                forall|k: int| 0 <= k < i ==> self@[k].id != id,
            decreases self.users.len() - i,
        {
            assert(self@[i as int] == self.users@[i as int]@);
            if self.users[i].id == id {
                proof {
                    lemma_position(self@, id, i as int);
                }
                return Some(i);
            }
            i = i + 1;
        }
        None
    }

    /// Stores `u` under its id, replacing in place or appending.
    fn upsert(&mut self, u: User)
        requires
            old(self).wf(),
        ensures
            final(self)@ == upserted(old(self)@, u@),
            final(self).wf(),
    {
        let ghost m = u@;
        proof {
            lemma_upserted_unique(self@, m);
        }
        match self.find(u.id) {
            Some(i) => {
                self.users.set(i, u);
                assert(self@ =~= upserted(old(self)@, m));
            },
            None => {
                self.users.push(u);
                assert(self@ =~= upserted(old(self)@, m));
            },
        }
    }

    /// The record under `id`, or `NotFound`.
    pub fn get(&self, id: u32) -> (r: Result<User, UserError>)
        requires
            self.wf(),
        ensures
            match r {
                Ok(u) => lookup(self@, id) == Some(u@),
                Err(e) => e == UserError::NotFound && lookup(self@, id) == None::<UserModel>,
            },
    {
        match self.find(id) {
            Some(i) => {
                assert(self@[i as int] == self.users@[i as int]@);
                Ok(self.users[i].duplicate())
            },
            None => Err(UserError::NotFound),
        }
    }

    /// Adds a record with the next id, the current count plus one.
    ///
    /// The id is not a high-water mark: after a deletion it may be one that is
    /// in use, and that record is then replaced.
    pub fn create(&mut self, req: UserRequest) -> (r: User)
        requires
            old(self).wf(),
            old(self)@.len() < u32::MAX,
        ensures
            r@ == (UserModel { id: (old(self)@.len() + 1) as u32, name: req.name@, email: req.email@ }),
            final(self)@ == upserted(old(self)@, r@),
            final(self).wf(),
    {
        let id: u32 = self.users.len() as u32 + 1;
        let u = User::from_request(id, req);
        let r = u.duplicate();
        self.upsert(u);
        r
    }

    /// Stores a record under `id`, whether or not one was there.
    pub fn update(&mut self, id: u32, req: UserRequest) -> (r: User)
        requires
            old(self).wf(),
        ensures
            r@ == (UserModel { id, name: req.name@, email: req.email@ }),
            final(self)@ == upserted(old(self)@, r@),
            final(self).wf(),
    {
        let u = User::from_request(id, req);
        let r = u.duplicate();
        self.upsert(u);
        r
    }

    /// Removes and returns the record under `id`, or `NotFound` with the store unchanged.
    pub fn delete(&mut self, id: u32) -> (r: Result<User, UserError>)
        requires
            old(self).wf(),
        ensures
            final(self)@ == removed(old(self)@, id),
            final(self).wf(),
            match r {
                Ok(u) => lookup(old(self)@, id) == Some(u@),
                Err(e) => e == UserError::NotFound && lookup(old(self)@, id) == None::<UserModel>,
            },
    {
        proof {
            lemma_removed_unique(self@, id);
        }
        match self.find(id) {
            Some(i) => {
                assert(self@[i as int] == self.users@[i as int]@);
                let u = self.users.remove(i);
                assert(self@ =~= removed(old(self)@, id));
                Ok(u)
            },
            None => Err(UserError::NotFound),
        }
    }

    /// Copies of the records from place `start` on, at most `count` of them.
    pub fn slice(&self, start: usize, count: usize) -> (r: Vec<User>)
        ensures
            models(r@) == window(self@, start as int, count as int),
    {
        let len = self.users.len();
        let lo = if start < len {
            start
        } else {
            len
        };
        let hi = if count < len - lo {
            lo + count
        } else {
            len
        };
        let mut out: Vec<User> = Vec::new();
        let mut i = lo;
        while i < hi
            invariant
                lo <= i <= hi <= len,
                len == self.users@.len(),
                self@.len() == len,
                models(out@) == self@.subrange(lo as int, i as int),
            decreases hi - i,
        {
            let u = self.users[i].duplicate();
            let ghost m = u@;
            assert(m == self@[i as int]);
            let ghost before = out@;
            out.push(u);
            assert(out@[before.len() as int]@ == m);
            assert(models(before).len() == before.len());
            assert(before.len() == i - lo);
            assert forall|k: int| 0 <= k < out@.len() implies #[trigger] models(out@)[k]
                == self@.subrange(lo as int, i + 1)[k] by {
                if k < before.len() {
                    assert(out@[k] == before[k]);
                    assert(models(before)[k] == self@.subrange(
                        lo as int,
                        i as int,
                    )[k]);
                }
            }
            assert(models(out@) =~= self@.subrange(lo as int, i + 1));
            i = i + 1;
        }
        out
    }

    /// Copies of all records, in the store's order.
    pub fn list(&self) -> (r: Vec<User>)
        ensures
            models(r@) == self@,
    {
        let r = self.slice(0, self.users.len());
        assert(self@.subrange(0, self@.len() as int) =~= self@);
        r
    }

    /// Stores the hundred synthetic users, ids 1 to 100, each under its id.
    pub fn populate_sample_data(&mut self)
        requires
            old(self).wf(),
        ensures
            final(self).wf(),
            forall|id: u32|
                lookup(final(self)@, id) == (if 1 <= id <= 100 {
                    Some(sample_user(id))
                } else {
                    lookup(old(self)@, id)
                }),
            old(self)@.len() == 0 ==> final(self)@ == sample_users(100),
    {
        let mut i: u32 = 1;
        while i <= 100
            invariant
                1 <= i <= 101,
                self.wf(),
                forall|id: u32|
                    lookup(self@, id) == (if 1 <= id < i {
                        Some(sample_user(id))
                    } else {
                        lookup(old(self)@, id)
                    }),
                old(self)@.len() == 0 ==> self@ == sample_users((i - 1) as nat),
            decreases 101 - i,
        {
            let u = make_sample_user(i);
            let ghost pre = self@;
            let ghost m = u@;
            self.upsert(u);
            proof {
                assert forall|id: u32|
                    lookup(self@, id) == (if 1 <= id < i + 1 {
                        Some(sample_user(id))
                    } else {
                        lookup(old(self)@, id)
                    }) by {
                    lemma_lookup_after_upsert(pre, m, id);
                }
                if old(self)@.len() == 0 {
                    lemma_sample_users_dense((i - 1) as nat);
                    lemma_create_on_dense(pre, m.name, m.email);
                    assert(self@ =~= sample_users(i as nat));
                }
            }
            i = i + 1;
        }
    }
}

} // verus!
