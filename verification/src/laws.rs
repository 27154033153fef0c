//! The system-wide laws that relate several operations: create-then-read,
//! delete-then-read, update-then-read, the empty listing, and the fate of
//! competing creates. Each is stated over the table model that the
//! operations' own contracts speak of.

use vstd::prelude::*;

use crate::json::users_json;
use crate::repository::{
    delete_rows, email_taken, has_id, idx_of, insert_rows, table_wf, update_rows, user_at,
};
use crate::user::UserView;

verus! {

/// A successful insert keeps the table well formed under the advanced
/// identifier sequence.
pub proof fn lemma_insert_wf(rows: Seq<UserView>, next: int, name: Seq<char>, email: Seq<char>)
    requires
        table_wf(rows, next),
        !email_taken(rows, email),
        next < i32::MAX as int,
    ensures
        table_wf(insert_rows(rows, next, name, email), next + 1),
{
    let rows2 = insert_rows(rows, next, name, email);
    assert forall|i: int|
        0 <= i < rows2.len() implies (#[trigger] rows2[i].id matches Some(v) && 1 <= v < next
        + 1) by {
        if i < rows.len() {
            assert(rows2[i] == rows[i]);
        }
    }
    assert forall|i: int, j: int|
        0 <= i < rows2.len() && 0 <= j < rows2.len() && i != j implies #[trigger] rows2[i].id
        != #[trigger] rows2[j].id by {
        if i < rows.len() && j < rows.len() {
        } else if i < rows.len() {
            assert(rows2[i] == rows[i]);
        } else {
            assert(rows2[j] == rows[j]);
        }
    }
    assert forall|i: int, j: int|
        0 <= i < rows2.len() && 0 <= j < rows2.len() && i != j implies #[trigger] rows2[i].email
        != #[trigger] rows2[j].email by {
        if i < rows.len() && j < rows.len() {
        } else if i < rows.len() {
            assert(rows2[i] == rows[i]);
            assert(rows2[j].email == email);
        } else {
            assert(rows2[j] == rows[j]);
            assert(rows2[i].email == email);
        }
    }
}

/// Create then read: a user inserted under the next identifier of a well
/// formed table is found under that identifier afterwards, carrying exactly
/// the submitted name and email; and the identifier is positive, so the
/// read path never short-circuits it.
pub proof fn lemma_created_user_found(
    rows: Seq<UserView>,
    next: int,
    name: Seq<char>,
    email: Seq<char>,
)
    requires
        table_wf(rows, next),
    ensures
        has_id(insert_rows(rows, next, name, email), next),
        user_at(insert_rows(rows, next, name, email), next) == (UserView {
            id: Some(next),
            name,
            email,
        }),
        next > 0,
{
    let rows2 = insert_rows(rows, next, name, email);
    assert(rows2[rows.len() as int].id == Some(next));
    let j = idx_of(rows2, next);
    assert(0 <= j < rows2.len() && rows2[j].id == Some(next));
    if j < rows.len() {
        assert(rows2[j] == rows[j]);
        assert(false);
    }
}

/// Delete then read: after a delete of `id` from a well formed table, no
/// row carries `id`, so a read of it misses.
pub proof fn lemma_deleted_user_missing(rows: Seq<UserView>, next: int, id: int)
    requires
        table_wf(rows, next),
    ensures
        !has_id(delete_rows(rows, id), id),
{
    if has_id(rows, id) {
        let k = idx_of(rows, id);
        assert(0 <= k < rows.len() && rows[k].id == Some(id));
        let rows2 = delete_rows(rows, id);
        assert(rows2 == rows.remove(k));
        assert forall|j: int| 0 <= j < rows2.len() implies #[trigger] rows2[j].id != Some(id) by {
            if j < k {
                assert(rows2[j] == rows[j]);
            } else {
                assert(rows2[j] == rows[j + 1]);
            }
        }
    }
}

/// Update then read, hit: after an update of an existing `id` the row is
/// still found under `id` and carries exactly the submitted fields.
pub proof fn lemma_updated_user_found(
    rows: Seq<UserView>,
    next: int,
    id: int,
    name: Seq<char>,
    email: Seq<char>,
)
    requires
        table_wf(rows, next),
        has_id(rows, id),
    ensures
        has_id(update_rows(rows, id, name, email), id),
        user_at(update_rows(rows, id, name, email), id) == (UserView {
            id: Some(id),
            name,
            email,
        }),
{
    let rows2 = update_rows(rows, id, name, email);
    let k = idx_of(rows, id);
    assert(0 <= k < rows.len() && rows[k].id == Some(id));
    assert(rows2[k].id == Some(id));
    let j = idx_of(rows2, id);
    assert(0 <= j < rows2.len() && rows2[j].id == Some(id));
    if rows[j].id != Some(id) {
        assert(rows2[j] == rows[j]);
        assert(false);
    }
    assert(j == k);
}

/// Update then read, miss: an update of an identifier no row carries leaves
/// the table exactly as it was.
pub proof fn lemma_update_miss_unchanged(
    rows: Seq<UserView>,
    id: int,
    name: Seq<char>,
    email: Seq<char>,
)
    requires
        !has_id(rows, id),
    ensures
        update_rows(rows, id, name, email) == rows,
{
    let rows2 = update_rows(rows, id, name, email);
    assert forall|j: int| 0 <= j < rows.len() implies rows2[j] == rows[j] by {
        if rows[j].id == Some(id) {
            assert(has_id(rows, id));
            assert(false);
        }
    }
    assert(rows2 =~= rows);
}

/// An empty table lists as the empty JSON array.
pub proof fn lemma_empty_table_json()
    ensures
        users_json(Seq::<UserView>::empty()) == "[]"@,
{
    reveal_strlit("[]");
    assert(users_json(Seq::<UserView>::empty()) =~= "[]"@);
}

/// Competing creates with distinct fresh emails: serialized in either
/// order, both succeed, under the two distinct identifiers that the serial
/// sequence assigns, and each row keeps its own fields.
pub proof fn lemma_competing_creates_distinct(
    rows: Seq<UserView>,
    next: int,
    name1: Seq<char>,
    email1: Seq<char>,
    name2: Seq<char>,
    email2: Seq<char>,
)
    requires
        table_wf(rows, next),
        !email_taken(rows, email1),
        !email_taken(rows, email2),
        email1 != email2,
        next + 1 < i32::MAX as int,
    ensures
        !email_taken(insert_rows(rows, next, name1, email1), email2),
        user_at(
            insert_rows(insert_rows(rows, next, name1, email1), next + 1, name2, email2),
            next,
        ) == (UserView { id: Some(next), name: name1, email: email1 }),
        user_at(
            insert_rows(insert_rows(rows, next, name1, email1), next + 1, name2, email2),
            next + 1,
        ) == (UserView { id: Some(next + 1), name: name2, email: email2 }),
{
    let rows1 = insert_rows(rows, next, name1, email1);
    assert forall|i: int| 0 <= i < rows1.len() implies #[trigger] rows1[i].email != email2 by {
        if i < rows.len() {
            assert(rows1[i] == rows[i]);
        }
    }
    lemma_insert_wf(rows, next, name1, email1);
    let rows2 = insert_rows(rows1, next + 1, name2, email2);
    lemma_created_user_found(rows1, next + 1, name2, email2);
    lemma_insert_wf(rows1, next + 1, name2, email2);
    assert(rows2[rows.len() as int].id == Some(next));
    let j = idx_of(rows2, next);
    assert(0 <= j < rows2.len() && rows2[j].id == Some(next));
    if j < rows.len() {
        assert(rows2[j] == rows[j]);
        assert(false);
    }
    if j == rows2.len() - 1 {
        assert(rows2[j].id == Some(next + 1));
        assert(false);
    }
    assert(j == rows.len());
    assert(rows2[rows.len() as int] == rows1[rows.len() as int]);
}

/// Competing creates with the same email: once one has landed, the email is
/// taken, so the other's insert fails the uniqueness constraint.
pub proof fn lemma_competing_creates_same_email(
    rows: Seq<UserView>,
    next: int,
    name1: Seq<char>,
    name2: Seq<char>,
    email: Seq<char>,
)
    ensures
        email_taken(insert_rows(rows, next, name1, email), email),
{
    let rows1 = insert_rows(rows, next, name1, email);
    assert(rows1[rows.len() as int].email == email);
}

} // verus!
