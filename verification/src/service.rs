//! The validation/orchestration layer: business rules in front of the
//! persistence gateway, and the translation of its outcomes into the
//! domain vocabulary the router consumes.

use vstd::prelude::*;

use crate::repository::{
    delete_rows, email_taken, email_taken_by_other, has_id, insert_rows, update_rows, user_at,
    UserRepository,
};
use crate::user::{valid_user, User, UserView};

verus! {

/// The domain-level failure vocabulary: a business-rule violation, or any
/// store-level failure.
#[derive(Debug)]
pub enum ServiceError {
    ValidationError,
    DatabaseError,
}

/// The orchestration layer; it owns the persistence gateway.
pub struct UserService {
    user_repository: UserRepository,
}

impl UserService {
    /// The rows of the owned table, in scan order.
    pub closed spec fn rows_view(&self) -> Seq<UserView> {
        self.user_repository.rows_view()
    }

    /// The next value the owned table's identifier sequence will assign.
    pub closed spec fn next(&self) -> int {
        self.user_repository.next()
    }

    /// Validity of the owned table.
    pub closed spec fn wf(&self) -> bool {
        self.user_repository.wf()
    }

    /// What validity of the owned table means, for callers that cannot see
    /// through `wf`.
    pub proof fn lemma_wf(self)
        requires
            self.wf(),
        ensures
            crate::repository::table_wf(self.rows_view(), self.next()),
    {
    }

    pub fn new(user_repository: UserRepository) -> (r: Self)
        ensures
            r.rows_view() == user_repository.rows_view(),
            r.next() == user_repository.next(),
            r.wf() == user_repository.wf(),
    {
        Self { user_repository }
    }

    /// Create: reject an invalid payload before touching the store, else
    /// delegate to the gateway's insert; a store failure surfaces as
    /// `DatabaseError`. An invalid payload or a failed insert leaves the
    /// table exactly as it was.
    pub fn create_user(&mut self, user: &User) -> (r: Result<(), ServiceError>)
        requires
            old(self).wf(),
        ensures
            final(self).wf(),
            !valid_user(user@) ==> ((r matches Err(e) && e is ValidationError) && final(self).rows_view() == old(self).rows_view() && final(self).next() == old(self).next()),
            valid_user(user@) && (email_taken(old(self).rows_view(), user@.email) || old(self).next() == i32::MAX as int) ==> ((r matches Err(e) && e is DatabaseError) && final(self).rows_view() == old(self).rows_view() && final(self).next() == old(self).next()),
            valid_user(user@) && !email_taken(old(self).rows_view(), user@.email) && old(self).next()
                < i32::MAX as int ==> (r is Ok && final(self).rows_view() == insert_rows(
                old(self).rows_view(),
                old(self).next(),
                user@.name,
                user@.email,
            ) && final(self).next() == old(self).next() + 1),
    {
        if !crate::user::is_valid_user(user) {
            return Err(ServiceError::ValidationError);
        }
        match self.user_repository.create(user) {
            Ok(()) => Ok(()),
            Err(_) => Err(ServiceError::DatabaseError),
        }
    }

    /// Read one: a non-positive identifier can never match a row, so it is
    /// answered "not found" without a store call; otherwise delegate to the
    /// gateway's lookup. Never mutates the table.
    pub fn get_user_by_id(&mut self, id: i32) -> (r: Result<Option<User>, ServiceError>)
        requires
            old(self).wf(),
        ensures
            *final(self) == *old(self),
            r is Ok,
            id <= 0 ==> (r matches Ok(o) && o is None),
            r matches Ok(o) ==> ((o is Some <==> id > 0 && has_id(
                old(self).rows_view(),
                id as int,
            )) && (o matches Some(u) ==> u@ == user_at(old(self).rows_view(), id as int))),
    {
        if id <= 0 {
            return Ok(None);
        }
        match self.user_repository.find_by_id(id) {
            Ok(o) => Ok(o),
            Err(_) => Err(ServiceError::DatabaseError),
        }
    }

    /// Read all: delegate directly to the gateway; no filtering. Never
    /// mutates the table.
    pub fn get_all_users(&mut self) -> (r: Result<Vec<User>, ServiceError>)
        requires
            old(self).wf(),
        ensures
            *final(self) == *old(self),
            r is Ok,
            r matches Ok(v) ==> crate::repository::views_of(v@) == old(self).rows_view(),
    {
        match self.user_repository.find_all() {
            Ok(v) => Ok(v),
            Err(_) => Err(ServiceError::DatabaseError),
        }
    }

    /// Update: a non-positive identifier is "not found" before any
    /// validation or store call; an invalid payload is rejected before the
    /// store call; otherwise delegate to the gateway's update and translate
    /// its affected-row count into "updated or not". Every rejected or
    /// missed path leaves the table exactly as it was.
    pub fn update_user(&mut self, id: i32, user: &User) -> (r: Result<bool, ServiceError>)
        requires
            old(self).wf(),
        ensures
            final(self).wf(),
            final(self).next() == old(self).next(),
            id <= 0 ==> (r matches Ok(b) && b == false && final(self).rows_view() == old(self).rows_view()),
            id > 0 && !valid_user(user@) ==> ((r matches Err(e) && e is ValidationError) && final(self).rows_view() == old(self).rows_view()),
            id > 0 && valid_user(user@) && has_id(old(self).rows_view(), id as int)
                && email_taken_by_other(old(self).rows_view(), user@.email, id as int) ==> ((
            r matches Err(e) && e is DatabaseError) && final(self).rows_view() == old(self).rows_view()),
            id > 0 && valid_user(user@) && !(has_id(old(self).rows_view(), id as int)
                && email_taken_by_other(old(self).rows_view(), user@.email, id as int)) ==> (
            r matches Ok(b) && (b == has_id(old(self).rows_view(), id as int)) && final(self).rows_view() == update_rows(
                old(self).rows_view(),
                id as int,
                user@.name,
                user@.email,
            )),
    {
        if id <= 0 {
            return Ok(false);
        }
        if !crate::user::is_valid_user(user) {
            return Err(ServiceError::ValidationError);
        }
        match self.user_repository.update(id, user) {
            Ok(n) => Ok(n > 0),
            Err(_) => Err(ServiceError::DatabaseError),
        }
    }

    /// Delete: a non-positive identifier is "not found" without a store
    /// call; otherwise delegate to the gateway's delete and translate its
    /// affected-row count into "deleted or not". Afterwards no row carries
    /// the identifier.
    pub fn delete_user(&mut self, id: i32) -> (r: Result<bool, ServiceError>)
        requires
            old(self).wf(),
        ensures
            final(self).wf(),
            final(self).next() == old(self).next(),
            r is Ok,
            id <= 0 ==> (r matches Ok(b) && b == false && final(self).rows_view() == old(self).rows_view()),
            id > 0 ==> (r matches Ok(b) && (b == has_id(old(self).rows_view(), id as int)) && final(self).rows_view() == delete_rows(old(self).rows_view(), id as int) && !has_id(
                final(self).rows_view(),
                id as int,
            )),
    {
        if id <= 0 {
            return Ok(false);
        }
        match self.user_repository.delete(id) {
            Ok(n) => Ok(n > 0),
            Err(_) => Err(ServiceError::DatabaseError),
        }
    }
}

} // verus!
