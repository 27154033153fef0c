//! The persistence gateway, here an executable model of the relational
//! `users` table it drives: rows in natural scan order, a serial identifier
//! column, and a uniqueness constraint on the email column. Each operation
//! mirrors one parameterized SQL statement of the real store: insert,
//! select by identifier, select all, update by identifier, delete by
//! identifier, with the store's affected-row-count semantics.

use vstd::prelude::*;

use crate::user::{User, UserView};

verus! {

/// A store-level failure. The real store reports constraint violations and
/// exhaustion of the identifier sequence this way; no kind is distinguished.
#[derive(Debug)]
pub enum StoreError {
    StoreError,
}

/// Whether some row of `rows` carries the identifier `id`.
pub open spec fn has_id(rows: Seq<UserView>, id: int) -> bool {
    exists|i: int| 0 <= i < rows.len() && #[trigger] rows[i].id == Some(id)
}

/// The index of the row carrying `id` (meaningful only when `has_id` holds;
/// under `table_wf` that row is unique).
pub open spec fn idx_of(rows: Seq<UserView>, id: int) -> int {
    choose|i: int| 0 <= i < rows.len() && #[trigger] rows[i].id == Some(id)
}

/// The row carrying `id` (meaningful only when `has_id` holds).
pub open spec fn user_at(rows: Seq<UserView>, id: int) -> UserView {
    rows[idx_of(rows, id)]
}

/// Whether some row of `rows` already uses `email`.
pub open spec fn email_taken(rows: Seq<UserView>, email: Seq<char>) -> bool {
    exists|i: int| 0 <= i < rows.len() && #[trigger] rows[i].email == email
}

/// Whether a row other than the one carrying `id` already uses `email`:
/// the condition under which an update of row `id` to `email` violates
/// the uniqueness constraint.
pub open spec fn email_taken_by_other(rows: Seq<UserView>, email: Seq<char>, id: int) -> bool {
    exists|i: int|
        0 <= i < rows.len() && #[trigger] rows[i].email == email && rows[i].id != Some(id)
}

/// The table after a successful insert: the new row, with the next serial
/// identifier, appended in scan order.
pub open spec fn insert_rows(rows: Seq<UserView>, next: int, name: Seq<char>, email: Seq<char>) -> Seq<UserView> {
    rows.push(UserView { id: Some(next), name, email })
}

/// The table after an update of row `id`: that row carries the new fields,
/// every other row and the order are untouched.
pub open spec fn update_rows(rows: Seq<UserView>, id: int, name: Seq<char>, email: Seq<char>) -> Seq<UserView> {
    rows.map_values(
        |u: UserView|
            if u.id == Some(id) {
                UserView { id: u.id, name, email }
            } else {
                u
            },
    )
}

/// The table after a delete of row `id`: the row is gone, the order of the
/// rest is untouched; a miss leaves the table as it was.
pub open spec fn delete_rows(rows: Seq<UserView>, id: int) -> Seq<UserView> {
    if has_id(rows, id) {
        rows.remove(idx_of(rows, id))
    } else {
        rows
    }
}

/// Well-formedness of the table: every row has an identifier drawn from the
/// serial sequence (so below `next`), identifiers are unique, and emails are
/// unique — the shape the schema's primary key and unique constraint force.
pub open spec fn table_wf(rows: Seq<UserView>, next: int) -> bool {
    &&& 1 <= next <= i32::MAX as int
    &&& forall|i: int|
        0 <= i < rows.len() ==> (#[trigger] rows[i].id matches Some(v) && 1 <= v < next)
    &&& forall|i: int, j: int|
        0 <= i < rows.len() && 0 <= j < rows.len() && i != j ==> #[trigger] rows[i].id
            != #[trigger] rows[j].id
    &&& forall|i: int, j: int|
        0 <= i < rows.len() && 0 <= j < rows.len() && i != j ==> #[trigger] rows[i].email
            != #[trigger] rows[j].email
}

/// The sequence of views of a sequence of users.
pub open spec fn views_of(s: Seq<User>) -> Seq<UserView> {
    s.map_values(|u: User| u@)
}

/// The persistence gateway over the modelled table: rows in scan order and
/// the next value of the identifier sequence.
pub struct UserRepository {
    rows: Vec<User>,
    next_id: i32,
}

impl UserRepository {
    /// The rows of the table, in scan order.
    pub closed spec fn rows_view(&self) -> Seq<UserView> {
        views_of(self.rows@)
    }

    /// The next value the identifier sequence will assign.
    pub closed spec fn next(&self) -> int {
        self.next_id as int
    }

    /// The table invariant; established at construction, kept by every
    /// operation.
    pub open spec fn wf(&self) -> bool {
        table_wf(self.rows_view(), self.next())
    }

    /// A gateway over an empty table; the serial sequence starts at 1.
    pub fn new() -> (r: Self)
        ensures
            r.wf(),
            r.rows_view() == Seq::<UserView>::empty(),
            r.next() == 1,
    {
        let r = Self { rows: Vec::new(), next_id: 1 };
        proof {
            assert(r.rows_view() =~= Seq::<UserView>::empty());
        }
        r
    }

    /// Whether some row uses `email`.
    fn email_in_use(&self, email: &String) -> (r: bool)
        ensures
            r == email_taken(self.rows_view(), email@),
    {
        let n = self.rows.len();
        let mut i: usize = 0;
        while i < n
            invariant
                0 <= i <= n,
                n == self.rows@.len(),
                forall|j: int| 0 <= j < i ==> views_of(self.rows@)[j].email != email@,
            decreases n - i,
        {
            if self.rows[i].email == *email {
                assert(views_of(self.rows@)[i as int].email == email@);
                return true;
            }
            i += 1;
        }
        false
    }

    /// The index of the row carrying `id`, if any.
    fn index_of_id(&self, id: i32) -> (r: Option<usize>)
        ensures
            r is Some <==> has_id(self.rows_view(), id as int),
            r matches Some(i) ==> 0 <= i < self.rows@.len() && self.rows_view()[i as int].id
                == Some(id as int),
    {
        let n = self.rows.len();
        let mut i: usize = 0;
        while i < n
            invariant
                0 <= i <= n,
                n == self.rows@.len(),
                forall|j: int| 0 <= j < i ==> #[trigger] views_of(self.rows@)[j].id != Some(
                    id as int,
                ),
            decreases n - i,
        {
            let matched = match self.rows[i].id {
                Some(v) => v == id,
                None => false,
            };
            if matched {
                assert(views_of(self.rows@)[i as int].id == Some(id as int));
                return Some(i);
            }
            i += 1;
        }
        None
    }

    /// INSERT INTO users (name, email) VALUES ($1, $2): the store assigns
    /// the identifier; a duplicate email, or an exhausted identifier
    /// sequence, is a store-level failure that leaves the table untouched.
    pub fn create(&mut self, user: &User) -> (r: Result<(), StoreError>)
        requires
            old(self).wf(),
        ensures
            final(self).wf(),
            r is Err <==> (email_taken(old(self).rows_view(), user@.email) || old(self).next()
                == i32::MAX as int),
            r is Err ==> final(self).rows_view() == old(self).rows_view() && final(self).next()
                == old(self).next(),
            r is Ok ==> final(self).rows_view() == insert_rows(
                old(self).rows_view(),
                old(self).next(),
                user@.name,
                user@.email,
            ) && final(self).next() == old(self).next() + 1,
    {
        if self.email_in_use(&user.email) {
            return Err(StoreError::StoreError);
        }
        if self.next_id == i32::MAX {
            return Err(StoreError::StoreError);
        }
        let id = self.next_id;
        let row = User::with_id(id, user.name.clone(), user.email.clone());
        let ghost old_rows = self.rows_view();
        self.rows.push(row);
        self.next_id = id + 1;
        proof {
            assert(self.rows_view() =~= insert_rows(old_rows, id as int, user@.name, user@.email));
            assert forall|i: int| 0 <= i < self.rows_view().len() implies (
            #[trigger] self.rows_view()[i].id matches Some(v) && 1 <= v < self.next()) by {
                if i < old_rows.len() {
                    assert(self.rows_view()[i] == old_rows[i]);
                }
            }
        }
        Ok(())
    }

    /// SELECT id, name, email FROM users WHERE id = $1: the matching row,
    /// or an explicit miss when no row matches; never a failure here.
    pub fn find_by_id(&mut self, id: i32) -> (r: Result<Option<User>, StoreError>)
        requires
            old(self).wf(),
        ensures
            *final(self) == *old(self),
            r is Ok,
            r matches Ok(o) ==> (o is Some <==> has_id(old(self).rows_view(), id as int)),
            r matches Ok(o) ==> (o matches Some(u) ==> u@ == user_at(
                old(self).rows_view(),
                id as int,
            )),
    {
        match self.index_of_id(id) {
            Some(i) => {
                proof {
                    let ghost k = idx_of(self.rows_view(), id as int);
                    assert(self.rows_view()[k].id == Some(id as int));
                    assert(k == i as int);
                }
                Ok(Some(self.rows[i].duplicate()))
            },
            None => Ok(None),
        }
    }

    /// SELECT id, name, email FROM users: every row, in scan order; an
    /// empty table yields an empty sequence, never a failure.
    pub fn find_all(&mut self) -> (r: Result<Vec<User>, StoreError>)
        requires
            old(self).wf(),
        ensures
            *final(self) == *old(self),
            r is Ok,
            r matches Ok(v) ==> views_of(v@) == old(self).rows_view(),
    {
        let n = self.rows.len();
        let mut out: Vec<User> = Vec::new();
        let mut i: usize = 0;
        while i < n
            invariant
                0 <= i <= n,
                n == self.rows@.len(),
                out@.len() == i,
                forall|j: int| 0 <= j < i ==> #[trigger] views_of(out@)[j] == views_of(
                    self.rows@,
                )[j],
            decreases n - i,
        {
            let ghost prev = out@;
            let d = self.rows[i].duplicate();
            out.push(d);
            proof {
                assert forall|j: int| 0 <= j <= i as int implies #[trigger] views_of(out@)[j]
                    == views_of(self.rows@)[j] by {
                    if j < i as int {
                        assert(out@[j] == prev[j]);
                        assert(views_of(prev)[j] == prev[j]@);
                    } else {
                        assert(out@[j] == d);
                    }
                }
            }
            i += 1;
        }
        proof {
            assert(views_of(out@) =~= self.rows_view());
        }
        Ok(out)
    }

    /// UPDATE users SET name = $1, email = $2 WHERE id = $3: the count of
    /// matched rows (0 or 1); moving the row onto an email another row
    /// already uses is a constraint violation that leaves the table
    /// untouched.
    pub fn update(&mut self, id: i32, user: &User) -> (r: Result<u64, StoreError>)
        requires
            old(self).wf(),
        ensures
            final(self).wf(),
            final(self).next() == old(self).next(),
            r is Err <==> (has_id(old(self).rows_view(), id as int) && email_taken_by_other(
                old(self).rows_view(),
                user@.email,
                id as int,
            )),
            r is Err ==> final(self).rows_view() == old(self).rows_view(),
            r matches Ok(n) ==> final(self).rows_view() == update_rows(
                old(self).rows_view(),
                id as int,
                user@.name,
                user@.email,
            ) && (n == if has_id(old(self).rows_view(), id as int) {
                1u64
            } else {
                0u64
            }),
    {
        let ghost old_rows = self.rows_view();
        match self.index_of_id(id) {
            Some(i) => {
                let mut conflict = false;
                let n = self.rows.len();
                let mut k: usize = 0;
                while k < n
                    invariant
                        0 <= k <= n,
                        n == self.rows@.len(),
                        i < n,
                        conflict == exists|j: int|
                            0 <= j < k && #[trigger] views_of(self.rows@)[j].email == user@.email
                                && j != i as int,
                    decreases n - k,
                {
                    if k != i && self.rows[k].email == user.email {
                        assert(views_of(self.rows@)[k as int].email == user@.email);
                        conflict = true;
                    }
                    k += 1;
                }
                proof {
                    assert(self.rows_view()[i as int].id == Some(id as int));
                    assert forall|j: int|
                        0 <= j < self.rows_view().len() && self.rows_view()[j].id == Some(
                            id as int,
                        ) implies j == i as int by {}
                    assert(conflict == email_taken_by_other(old_rows, user@.email, id as int));
                }
                if conflict {
                    return Err(StoreError::StoreError);
                }
                let updated = User::with_id(id, user.name.clone(), user.email.clone());
                self.rows.set(i, updated);
                proof {
                    assert(self.rows_view() =~= update_rows(
                        old_rows,
                        id as int,
                        user@.name,
                        user@.email,
                    ));
                    assert forall|a: int, b: int|
                        0 <= a < self.rows_view().len() && 0 <= b < self.rows_view().len() && a
                            != b implies #[trigger] self.rows_view()[a].email
                        != #[trigger] self.rows_view()[b].email by {
                        assert(old_rows[a].email != old_rows[b].email);
                    }
                }
                Ok(1)
            },
            None => {
                proof {
                    assert(self.rows_view() =~= update_rows(
                        old_rows,
                        id as int,
                        user@.name,
                        user@.email,
                    ));
                }
                Ok(0)
            },
        }
    }

    /// DELETE FROM users WHERE id = $1: the count of matched rows (0 or 1);
    /// a miss is a zero count, not a failure.
    pub fn delete(&mut self, id: i32) -> (r: Result<u64, StoreError>)
        requires
            old(self).wf(),
        ensures
            final(self).wf(),
            final(self).next() == old(self).next(),
            r is Ok,
            final(self).rows_view() == delete_rows(old(self).rows_view(), id as int),
            r matches Ok(n) ==> (n == if has_id(old(self).rows_view(), id as int) {
                1u64
            } else {
                0u64
            }),
            !has_id(final(self).rows_view(), id as int),
    {
        let ghost old_rows = self.rows_view();
        match self.index_of_id(id) {
            Some(i) => {
                self.rows.remove(i);
                proof {
                    let ghost k = idx_of(old_rows, id as int);
                    assert(old_rows[k].id == Some(id as int));
                    assert(k == i as int);
                    assert(self.rows_view() =~= old_rows.remove(i as int));
                    assert forall|j: int|
                        0 <= j < self.rows_view().len() implies #[trigger] self.rows_view()[j].id
                        != Some(id as int) by {
                        if j < i as int {
                            assert(self.rows_view()[j] == old_rows[j]);
                        } else {
                            assert(self.rows_view()[j] == old_rows[j + 1]);
                        }
                    }
                    assert forall|a: int, b: int|
                        0 <= a < self.rows_view().len() && 0 <= b < self.rows_view().len() && a
                            != b implies #[trigger] self.rows_view()[a].id
                        != #[trigger] self.rows_view()[b].id by {
                        let a0 = if a < i as int { a } else { a + 1 };
                        let b0 = if b < i as int { b } else { b + 1 };
                        assert(self.rows_view()[a] == old_rows[a0]);
                        assert(self.rows_view()[b] == old_rows[b0]);
                    }
                    assert forall|a: int, b: int|
                        0 <= a < self.rows_view().len() && 0 <= b < self.rows_view().len() && a
                            != b implies #[trigger] self.rows_view()[a].email
                        != #[trigger] self.rows_view()[b].email by {
                        let a0 = if a < i as int { a } else { a + 1 };
                        let b0 = if b < i as int { b } else { b + 1 };
                        assert(self.rows_view()[a] == old_rows[a0]);
                        assert(self.rows_view()[b] == old_rows[b0]);
                    }
                    assert forall|j: int|
                        0 <= j < self.rows_view().len() implies (
                        #[trigger] self.rows_view()[j].id matches Some(v) && 1 <= v
                            < self.next()) by {
                        let j0 = if j < i as int { j } else { j + 1 };
                        assert(self.rows_view()[j] == old_rows[j0]);
                    }
                }
                Ok(1)
            },
            None => Ok(0),
        }
    }
}

} // verus!
