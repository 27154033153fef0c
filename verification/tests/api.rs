use crud_api::controller::{Route, UserController};
use crud_api::controller::{bad_request, internal_error, match_route, not_found, ok_response};
use crud_api::repository::UserRepository;
use crud_api::service::{ServiceError, UserService};
use crud_api::user::{is_valid_user, User};

fn fresh() -> UserController {
    UserController::new(UserService::new(UserRepository::new()))
}

fn post_user(name: &str, email: &str) -> String {
    format!(
        "POST /users HTTP/1.1\r\nHost: localhost\r\n\r\n{{\"name\":\"{}\",\"email\":\"{}\"}}",
        name, email
    )
}

#[test]
fn create_then_get_reflects_fields() {
    let mut c = fresh();
    let (status, body) = c.route_request(&post_user("Alice", "alice@example.com"));
    assert_eq!(status, ok_response());
    assert_eq!(body, "User Created");

    let (status, body) = c.route_request("GET /users/1 HTTP/1.1\r\n\r\n");
    assert_eq!(status, ok_response());
    assert_eq!(body, "{\"id\":1,\"name\":\"Alice\",\"email\":\"alice@example.com\"}");
}

#[test]
fn invalid_payload_does_not_mutate_store() {
    let mut c = fresh();
    let (status, _) = c.route_request(&post_user("", "a@b.c"));
    assert_eq!(status, internal_error());
    let (status, _) = c.route_request(&post_user("   ", "a@b.c"));
    assert_eq!(status, internal_error());
    let (status, _) = c.route_request(&post_user("Bob", "no-at-sign"));
    assert_eq!(status, internal_error());

    let (status, body) = c.route_request("GET /users HTTP/1.1\r\n\r\n");
    assert_eq!(status, ok_response());
    assert_eq!(body, "[]");
}

#[test]
fn get_missing_ids_are_not_found() {
    let mut c = fresh();
    for req in [
        "GET /users/7 HTTP/1.1\r\n\r\n",
        "GET /users/0 HTTP/1.1\r\n\r\n",
        "GET /users/-3 HTTP/1.1\r\n\r\n",
    ] {
        let (status, body) = c.route_request(req);
        assert_eq!(status, not_found());
        assert_eq!(body, "User not found");
    }
}

#[test]
fn get_non_numeric_id_is_bad_request() {
    let mut c = fresh();
    let (status, body) = c.route_request("GET /users/abc HTTP/1.1\r\n\r\n");
    assert_eq!(status, bad_request());
    assert_eq!(body, "Invalid user ID");
}

#[test]
fn delete_then_get_is_not_found() {
    let mut c = fresh();
    c.route_request(&post_user("Alice", "alice@example.com"));
    let (status, body) = c.route_request("DELETE /users/1 HTTP/1.1\r\n\r\n");
    assert_eq!(status, ok_response());
    assert_eq!(body, "User deleted");

    let (status, body) = c.route_request("GET /users/1 HTTP/1.1\r\n\r\n");
    assert_eq!(status, not_found());
    assert_eq!(body, "User not found");
}

#[test]
fn put_existing_updates_and_get_reflects_it() {
    let mut c = fresh();
    c.route_request(&post_user("Alice", "alice@example.com"));
    let (status, body) = c.route_request(
        "PUT /users/1 HTTP/1.1\r\n\r\n{\"name\":\"Alicia\",\"email\":\"alicia@example.com\"}",
    );
    assert_eq!(status, ok_response());
    assert_eq!(body, "User updated");

    let (_, body) = c.route_request("GET /users/1 HTTP/1.1\r\n\r\n");
    assert_eq!(body, "{\"id\":1,\"name\":\"Alicia\",\"email\":\"alicia@example.com\"}");
}

#[test]
fn put_missing_is_not_found_and_store_unchanged() {
    let mut c = fresh();
    c.route_request(&post_user("Alice", "alice@example.com"));
    let (status, body) = c.route_request(
        "PUT /users/9 HTTP/1.1\r\n\r\n{\"name\":\"X\",\"email\":\"x@y.z\"}",
    );
    assert_eq!(status, not_found());
    assert_eq!(body, "User not found");

    let (_, body) = c.route_request("GET /users HTTP/1.1\r\n\r\n");
    assert_eq!(body, "[{\"id\":1,\"name\":\"Alice\",\"email\":\"alice@example.com\"}]");
}

#[test]
fn get_all_on_empty_table_is_empty_array() {
    let mut c = fresh();
    let (status, body) = c.route_request("GET /users HTTP/1.1\r\n\r\n");
    assert_eq!(status, ok_response());
    assert_eq!(body, "[]");
}

#[test]
fn competing_creates_unique_emails_get_distinct_ids() {
    let mut c = fresh();
    let (s1, _) = c.route_request(&post_user("A", "a@example.com"));
    let (s2, _) = c.route_request(&post_user("B", "b@example.com"));
    assert_eq!(s1, ok_response());
    assert_eq!(s2, ok_response());

    let (_, body) = c.route_request("GET /users HTTP/1.1\r\n\r\n");
    assert_eq!(
        body,
        "[{\"id\":1,\"name\":\"A\",\"email\":\"a@example.com\"},{\"id\":2,\"name\":\"B\",\"email\":\"b@example.com\"}]"
    );
}

#[test]
fn competing_creates_same_email_second_fails() {
    let mut c = fresh();
    let (s1, _) = c.route_request(&post_user("A", "same@example.com"));
    let (s2, body) = c.route_request(&post_user("B", "same@example.com"));
    assert_eq!(s1, ok_response());
    assert_eq!(s2, internal_error());
    assert_eq!(body, "Failed to create user");

    let (_, body) = c.route_request("GET /users HTTP/1.1\r\n\r\n");
    assert_eq!(body, "[{\"id\":1,\"name\":\"A\",\"email\":\"same@example.com\"}]");
}

#[test]
fn unmatched_routes_are_404() {
    let mut c = fresh();
    let (status, body) = c.route_request("PATCH /users/1 HTTP/1.1\r\n\r\n");
    assert_eq!(status, not_found());
    assert_eq!(body, "404 not found");

    let (status, _) = c.route_request("GET /things HTTP/1.1\r\n\r\n");
    assert_eq!(status, not_found());
}

#[test]
fn invalid_json_body_is_bad_request() {
    let mut c = fresh();
    let (status, body) = c.route_request("POST /users HTTP/1.1\r\n\r\nnot json");
    assert_eq!(status, bad_request());
    assert_eq!(body, "Invalid JSON body");

    let (status, body) =
        c.route_request("PUT /users/1 HTTP/1.1\r\n\r\n{\"name\":\"A\"}");
    assert_eq!(status, bad_request());
    assert_eq!(body, "Invalid JSON body");

    // No blank-line separator at all: an empty body, so unreadable.
    let (status, _) = c.route_request("POST /users HTTP/1.1");
    assert_eq!(status, bad_request());
}

#[test]
fn routing_order_disambiguates_prefixes() {
    assert!(matches!(match_route("POST /users HTTP/1.1"), Route::Create));
    assert!(matches!(match_route("GET /users/1 HTTP/1.1"), Route::ReadOne));
    assert!(matches!(match_route("GET /users HTTP/1.1"), Route::ReadAll));
    assert!(matches!(match_route("PUT /users/1 HTTP/1.1"), Route::Update));
    assert!(matches!(match_route("DELETE /users/1 HTTP/1.1"), Route::Delete));
    assert!(matches!(match_route("OPTIONS /users HTTP/1.1"), Route::Unknown));
}

#[test]
fn service_rejects_invalid_users_without_store_call() {
    let mut s = UserService::new(UserRepository::new());
    let bad = User { id: None, name: String::new(), email: "a@b.c".to_string() };
    assert!(matches!(s.create_user(&bad), Err(ServiceError::ValidationError)));
    let bad2 = User { id: None, name: "A".to_string(), email: "nope".to_string() };
    assert!(matches!(s.update_user(1, &bad2), Err(ServiceError::ValidationError)));
}

#[test]
fn service_short_circuits_non_positive_ids() {
    let mut s = UserService::new(UserRepository::new());
    assert!(matches!(s.get_user_by_id(0), Ok(None)));
    assert!(matches!(s.get_user_by_id(-7), Ok(None)));
    assert!(matches!(s.update_user(0, &User {
        id: None,
        name: "A".to_string(),
        email: "a@b.c".to_string()
    }), Ok(false)));
    assert!(matches!(s.delete_user(-1), Ok(false)));
}

#[test]
fn validation_rule_matches_spec() {
    let ok = User { id: None, name: "A".to_string(), email: "a@b.c".to_string() };
    assert!(is_valid_user(&ok));
    let blank_name = User { id: None, name: " \t\r\n".to_string(), email: "a@b.c".to_string() };
    assert!(!is_valid_user(&blank_name));
    // Unicode whitespace trims away too, as the standard library's trim does.
    let unicode_blank = User { id: None, name: "\u{00A0}\u{2003}".to_string(), email: "a@b.c".to_string() };
    assert!(!is_valid_user(&unicode_blank));
    let blank_email = User { id: None, name: "A".to_string(), email: "  ".to_string() };
    assert!(!is_valid_user(&blank_email));
    let no_at = User { id: None, name: "A".to_string(), email: "a.b.c".to_string() };
    assert!(!is_valid_user(&no_at));
}
