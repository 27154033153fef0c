//! The router/dispatcher: fixed-order pattern matching over the raw request,
//! per-route response construction, and the mapping of domain outcomes onto
//! status lines and bodies. Each route's whole behaviour is one predicate
//! over the table before and after the call, the raw request, and the
//! response pair.

use vstd::prelude::*;

use crate::json::{get_user_from_request_body, parse_user_text, user_json, users_json,
    user_to_json, users_to_json};
use crate::parse::{body_of, has_prefix, id_text_of, spec_parse_i32, get_id_from_request,
    parse_i32, str_has_prefix};
use crate::repository::{delete_rows, email_taken, email_taken_by_other, has_id, insert_rows,
    update_rows, user_at, views_of};
use crate::service::UserService;
use crate::user::{valid_user, User, UserView};

verus! {

/// The status line of a success response; it carries the body-type header.
pub open spec fn ok_response_v() -> Seq<char> {
    "HTTP/1.1 200 OK\r\nContent-Type: application/json\r\n\r\n"@
}

pub fn ok_response() -> (r: &'static str)
    ensures
        r@ == ok_response_v(),
{
    "HTTP/1.1 200 OK\r\nContent-Type: application/json\r\n\r\n"
}

/// The status line answering a miss.
pub open spec fn not_found_v() -> Seq<char> {
    "HTTP/1.1 404 NOT FOUND\r\n\r\n"@
}

pub fn not_found() -> (r: &'static str)
    ensures
        r@ == not_found_v(),
{
    "HTTP/1.1 404 NOT FOUND\r\n\r\n"
}

/// The status line answering a server-side failure.
pub open spec fn internal_error_v() -> Seq<char> {
    "HTTP/1.1 500 INTERNAL SERVER ERROR\r\n\r\n"@
}

pub fn internal_error() -> (r: &'static str)
    ensures
        r@ == internal_error_v(),
{
    "HTTP/1.1 500 INTERNAL SERVER ERROR\r\n\r\n"
}

/// The status line answering malformed client input.
pub fn bad_request() -> (r: &'static str)
    ensures
        r@ == bad_request_v(),
{
    "HTTP/1.1 400 BAD REQUEST\r\n\r\n"
}

pub open spec fn bad_request_v() -> Seq<char> {
    "HTTP/1.1 400 BAD REQUEST\r\n\r\n"@
}

/// The five operations a request can name, or none of them.
#[derive(Clone, Copy, PartialEq, Eq, Structural, Debug)]
pub enum Route {
    Create,
    ReadOne,
    ReadAll,
    Update,
    Delete,
    Unknown,
}

/// The fixed-order routing rule: the first matching prefix wins, so the
/// create/read-all pair is split by method and the read-all/read-one pair
/// by path depth.
pub open spec fn route_of(s: Seq<char>) -> Route {
    if has_prefix(s, "POST /users"@) {
        Route::Create
    } else if has_prefix(s, "GET /users/"@) {
        Route::ReadOne
    } else if has_prefix(s, "GET /users"@) {
        Route::ReadAll
    } else if has_prefix(s, "PUT /users/"@) {
        Route::Update
    } else if has_prefix(s, "DELETE /users/"@) {
        Route::Delete
    } else {
        Route::Unknown
    }
}

/// Match a raw request against the routing rule.
pub fn match_route(request: &str) -> (r: Route)
    ensures
        r == route_of(request@),
{
    if str_has_prefix(request, "POST /users") {
        Route::Create
    } else if str_has_prefix(request, "GET /users/") {
        Route::ReadOne
    } else if str_has_prefix(request, "GET /users") {
        Route::ReadAll
    } else if str_has_prefix(request, "PUT /users/") {
        Route::Update
    } else if str_has_prefix(request, "DELETE /users/") {
        Route::Delete
    } else {
        Route::Unknown
    }
}

/// The create route: an unreadable body is the client's fault; a payload
/// that breaks a business rule, a duplicate email and an exhausted
/// identifier sequence all surface as a server-side failure (the layer does
/// not tell them apart); otherwise the row is inserted and acknowledged.
pub open spec fn create_outcome(
    pre: Seq<UserView>,
    prenext: int,
    post: Seq<UserView>,
    postnext: int,
    req: Seq<char>,
    status: Seq<char>,
    body: Seq<char>,
) -> bool {
    match parse_user_text(body_of(req)) {
        None => status == bad_request_v() && body == "Invalid JSON body"@ && post == pre && postnext
            == prenext,
        Some(u) => {
            if !valid_user(u) || email_taken(pre, u.email) || prenext == i32::MAX as int {
                status == internal_error_v() && body == "Failed to create user"@ && post == pre
                    && postnext == prenext
            } else {
                status == ok_response_v() && body == "User Created"@ && post == insert_rows(
                    pre,
                    prenext,
                    u.name,
                    u.email,
                ) && postnext == prenext + 1
            }
        },
    }
}

/// The read-one route: a non-numeric identifier is the client's fault; a
/// non-positive or unmatched identifier is a miss; a hit answers with the
/// user's JSON text. The table is never touched.
pub open spec fn read_one_outcome(
    pre: Seq<UserView>,
    post: Seq<UserView>,
    req: Seq<char>,
    status: Seq<char>,
    body: Seq<char>,
) -> bool {
    (match spec_parse_i32(id_text_of(req)) {
        None => status == bad_request_v() && body == "Invalid user ID"@,
        Some(id) => {
            if id <= 0 || !has_id(pre, id as int) {
                status == not_found_v() && body == "User not found"@
            } else {
                status == ok_response_v() && body == user_json(user_at(pre, id as int))
            }
        },
    }) && post == pre
}

/// The read-all route: always a success at this layer, answering the JSON
/// array of every row in scan order, `[]` included. The table is never
/// touched.
pub open spec fn read_all_outcome(
    pre: Seq<UserView>,
    post: Seq<UserView>,
    status: Seq<char>,
    body: Seq<char>,
) -> bool {
    status == ok_response_v() && body == users_json(pre) && post == pre
}

/// The update route: the identifier is read before the body, each fault the
/// client's; a non-positive or unmatched identifier is a miss; an invalid
/// payload or an email another row holds is a server-side failure; a hit
/// rewrites the row's fields in place. Every path but the hit leaves the
/// table as it was.
pub open spec fn update_outcome(
    pre: Seq<UserView>,
    post: Seq<UserView>,
    req: Seq<char>,
    status: Seq<char>,
    body: Seq<char>,
) -> bool {
    match spec_parse_i32(id_text_of(req)) {
        None => status == bad_request_v() && body == "Invalid user ID"@ && post == pre,
        Some(id) => match parse_user_text(body_of(req)) {
            None => status == bad_request_v() && body == "Invalid JSON body"@ && post == pre,
            Some(u) => {
                if id <= 0 {
                    status == not_found_v() && body == "User not found"@ && post == pre
                } else if !valid_user(u) {
                    status == internal_error_v() && body == "Failed to update user"@ && post == pre
                } else if has_id(pre, id as int) && email_taken_by_other(pre, u.email, id as int) {
                    status == internal_error_v() && body == "Failed to update user"@ && post == pre
                } else if !has_id(pre, id as int) {
                    status == not_found_v() && body == "User not found"@ && post == pre
                } else {
                    status == ok_response_v() && body == "User updated"@ && post == update_rows(
                        pre,
                        id as int,
                        u.name,
                        u.email,
                    )
                }
            },
        },
    }
}

/// The delete route: a non-numeric identifier is the client's fault; a
/// non-positive or unmatched identifier is a miss that changes nothing; a
/// hit removes the row and acknowledges it.
pub open spec fn delete_outcome(
    pre: Seq<UserView>,
    post: Seq<UserView>,
    req: Seq<char>,
    status: Seq<char>,
    body: Seq<char>,
) -> bool {
    match spec_parse_i32(id_text_of(req)) {
        None => status == bad_request_v() && body == "Invalid user ID"@ && post == pre,
        Some(id) => {
            if id <= 0 || !has_id(pre, id as int) {
                status == not_found_v() && body == "User not found"@ && post == pre
            } else {
                status == ok_response_v() && body == "User deleted"@ && post == delete_rows(
                    pre,
                    id as int,
                ) && !has_id(post, id as int)
            }
        },
    }
}

/// The response answering a malformed body: the client's fault.
pub fn invalid_body_response() -> (r: (String, String))
    ensures
        r.0@ == bad_request_v(),
        r.1@ == "Invalid JSON body"@,
{
    (bad_request().to_owned(), "Invalid JSON body".to_owned())
}

/// The response answering a non-numeric identifier: the client's fault.
pub fn invalid_id_response() -> (r: (String, String))
    ensures
        r.0@ == bad_request_v(),
        r.1@ == "Invalid user ID"@,
{
    (bad_request().to_owned(), "Invalid user ID".to_owned())
}

/// The response answering a create outcome.
pub fn create_result_response<E>(r: Result<(), E>) -> (resp: (String, String))
    ensures
        r is Ok ==> resp.0@ == ok_response_v() && resp.1@ == "User Created"@,
        r is Err ==> resp.0@ == internal_error_v() && resp.1@ == "Failed to create user"@,
{
    match r {
        Ok(_) => (ok_response().to_owned(), "User Created".to_owned()),
        Err(_) => (internal_error().to_owned(), "Failed to create user".to_owned()),
    }
}

/// The response answering a single-user lookup outcome: the user's JSON
/// text, a miss, or a failure.
pub fn get_result_response<E>(r: Result<Option<User>, E>) -> (resp: (String, String))
    ensures
        r matches Ok(o) ==> (match o {
            Some(u) => resp.0@ == ok_response_v() && resp.1@ == user_json(u@),
            None => resp.0@ == not_found_v() && resp.1@ == "User not found"@,
        }),
        r is Err ==> resp.0@ == internal_error_v() && resp.1@ == "Service error"@,
{
    match r {
        Ok(Some(u)) => (ok_response().to_owned(), user_to_json(&u)),
        Ok(None) => (not_found().to_owned(), "User not found".to_owned()),
        Err(_) => (internal_error().to_owned(), "Service error".to_owned()),
    }
}

/// The response answering a listing outcome: the JSON array of the rows
/// handed back, in their order.
pub fn list_result_response<E>(r: Result<Vec<User>, E>) -> (resp: (String, String))
    ensures
        r matches Ok(v) ==> resp.0@ == ok_response_v() && resp.1@ == users_json(views_of(v@)),
        r is Err ==> resp.0@ == internal_error_v() && resp.1@ == "Service error"@,
{
    match r {
        Ok(v) => (ok_response().to_owned(), users_to_json(&v)),
        Err(_) => (internal_error().to_owned(), "Service error".to_owned()),
    }
}

/// The response answering an update outcome.
pub fn update_result_response<E>(r: Result<bool, E>) -> (resp: (String, String))
    ensures
        r matches Ok(b) ==> (if b {
            resp.0@ == ok_response_v() && resp.1@ == "User updated"@
        } else {
            resp.0@ == not_found_v() && resp.1@ == "User not found"@
        }),
        r is Err ==> resp.0@ == internal_error_v() && resp.1@ == "Failed to update user"@,
{
    match r {
        Ok(true) => (ok_response().to_owned(), "User updated".to_owned()),
        Ok(false) => (not_found().to_owned(), "User not found".to_owned()),
        Err(_) => (internal_error().to_owned(), "Failed to update user".to_owned()),
    }
}

/// The response answering a delete outcome.
pub fn delete_result_response<E>(r: Result<bool, E>) -> (resp: (String, String))
    ensures
        r matches Ok(b) ==> (if b {
            resp.0@ == ok_response_v() && resp.1@ == "User deleted"@
        } else {
            resp.0@ == not_found_v() && resp.1@ == "User not found"@
        }),
        r is Err ==> resp.0@ == internal_error_v() && resp.1@ == "Failed to delete user"@,
{
    match r {
        Ok(true) => (ok_response().to_owned(), "User deleted".to_owned()),
        Ok(false) => (not_found().to_owned(), "User not found".to_owned()),
        Err(_) => (internal_error().to_owned(), "Failed to delete user".to_owned()),
    }
}

/// The router; it owns the orchestration layer.
pub struct UserController {
    user_service: UserService,
}

impl UserController {
    /// The rows of the owned table, in scan order.
    pub closed spec fn rows_view(&self) -> Seq<UserView> {
        self.user_service.rows_view()
    }

    /// The next value of the owned table's identifier sequence.
    pub closed spec fn next(&self) -> int {
        self.user_service.next()
    }

    /// Validity of the owned table.
    pub closed spec fn wf(&self) -> bool {
        self.user_service.wf()
    }

    pub fn new(user_service: UserService) -> (r: Self)
        ensures
            r.rows_view() == user_service.rows_view(),
            r.next() == user_service.next(),
            r.wf() == user_service.wf(),
    {
        Self { user_service }
    }

    /// POST /users: read the body, create the user, answer.
    pub fn create_user(&mut self, request: &str) -> (r: (String, String))
        requires
            old(self).wf(),
        ensures
            final(self).wf(),
            create_outcome(
                old(self).rows_view(),
                old(self).next(),
                final(self).rows_view(),
                final(self).next(),
                request@,
                r.0@,
                r.1@,
            ),
    {
        proof {
            old(self).user_service.lemma_wf();
        }
        match get_user_from_request_body(request) {
            None => invalid_body_response(),
            Some(user) => create_result_response(self.user_service.create_user(&user)),
        }
    }

    /// GET /users/{id}: read the identifier, look the user up, answer.
    pub fn get_user(&mut self, request: &str) -> (r: (String, String))
        requires
            old(self).wf(),
        ensures
            final(self).wf(),
            final(self).next() == old(self).next(),
            read_one_outcome(old(self).rows_view(), final(self).rows_view(), request@, r.0@, r.1@),
    {
        let id_text = get_id_from_request(request);
        match parse_i32(id_text) {
            None => invalid_id_response(),
            Some(id) => get_result_response(self.user_service.get_user_by_id(id)),
        }
    }

    /// GET /users: fetch every row, answer with the array.
    pub fn get_all_users(&mut self, _request: &str) -> (r: (String, String))
        requires
            old(self).wf(),
        ensures
            final(self).wf(),
            final(self).next() == old(self).next(),
            read_all_outcome(old(self).rows_view(), final(self).rows_view(), r.0@, r.1@),
    {
        list_result_response(self.user_service.get_all_users())
    }

    /// PUT /users/{id}: read the identifier, then the body, update, answer.
    pub fn update_user(&mut self, request: &str) -> (r: (String, String))
        requires
            old(self).wf(),
        ensures
            final(self).wf(),
            final(self).next() == old(self).next(),
            update_outcome(old(self).rows_view(), final(self).rows_view(), request@, r.0@, r.1@),
    {
        let id_text = get_id_from_request(request);
        let id = match parse_i32(id_text) {
            None => {
                return invalid_id_response();
            },
            Some(id) => id,
        };
        match get_user_from_request_body(request) {
            None => invalid_body_response(),
            Some(user) => {
                let outcome = self.user_service.update_user(id, &user);
                proof {
                    if id > 0 && !has_id(old(self).rows_view(), id as int) {
                        assert(update_rows(
                            old(self).rows_view(),
                            id as int,
                            user@.name,
                            user@.email,
                        ) =~= old(self).rows_view());
                    }
                }
                update_result_response(outcome)
            },
        }
    }

    /// DELETE /users/{id}: read the identifier, delete, answer.
    pub fn delete_user(&mut self, request: &str) -> (r: (String, String))
        requires
            old(self).wf(),
        ensures
            final(self).wf(),
            final(self).next() == old(self).next(),
            delete_outcome(old(self).rows_view(), final(self).rows_view(), request@, r.0@, r.1@),
    {
        let id_text = get_id_from_request(request);
        match parse_i32(id_text) {
            None => invalid_id_response(),
            Some(id) => delete_result_response(self.user_service.delete_user(id)),
        }
    }

    /// Dispatch one raw request through the routing rule and the matched
    /// route's own behaviour; an unmatched request is answered 404 with the
    /// table untouched.
    pub fn route_request(&mut self, request: &str) -> (r: (String, String))
        requires
            old(self).wf(),
        ensures
            final(self).wf(),
            match route_of(request@) {
                Route::Create => create_outcome(
                    old(self).rows_view(),
                    old(self).next(),
                    final(self).rows_view(),
                    final(self).next(),
                    request@,
                    r.0@,
                    r.1@,
                ),
                Route::ReadOne => read_one_outcome(
                    old(self).rows_view(),
                    final(self).rows_view(),
                    request@,
                    r.0@,
                    r.1@,
                ),
                Route::ReadAll => read_all_outcome(
                    old(self).rows_view(),
                    final(self).rows_view(),
                    r.0@,
                    r.1@,
                ),
                Route::Update => update_outcome(
                    old(self).rows_view(),
                    final(self).rows_view(),
                    request@,
                    r.0@,
                    r.1@,
                ),
                Route::Delete => delete_outcome(
                    old(self).rows_view(),
                    final(self).rows_view(),
                    request@,
                    r.0@,
                    r.1@,
                ),
                Route::Unknown => r.0@ == not_found_v() && r.1@ == "404 not found"@ && final(self).rows_view()
                    == old(self).rows_view() && final(self).next() == old(self).next(),
            },
    {
        let route = match_route(request);
        match route {
            Route::Create => self.create_user(request),
            Route::ReadOne => self.get_user(request),
            Route::ReadAll => self.get_all_users(request),
            Route::Update => self.update_user(request),
            Route::Delete => self.delete_user(request),
            Route::Unknown => (not_found().to_owned(), "404 not found".to_owned()),
        }
    }
}

} // verus!
