use crud_api::json::{get_user_from_request_body, parse_user_body, user_to_json, users_to_json};
use crud_api::parse::{get_id_from_request, parse_i32, request_body};
use crud_api::repository::UserRepository;
use crud_api::user::User;
use crud_api::config::DatabaseConfig;

#[test]
fn id_segment_extraction() {
    assert_eq!(get_id_from_request("GET /users/5 HTTP/1.1\r\n\r\n"), "5");
    assert_eq!(get_id_from_request("DELETE /users/42 HTTP/1.1"), "42");
    // With no third path segment the splitter falls through to the text
    // after the second slash of the protocol version; routing never parses
    // it on that path.
    assert_eq!(get_id_from_request("GET /users HTTP/1.1"), "1.1");
    assert_eq!(get_id_from_request("GET /users"), "");
    assert_eq!(get_id_from_request("GET /users/abc HTTP/1.1"), "abc");
    assert_eq!(get_id_from_request("no slashes at all"), "");
    assert_eq!(get_id_from_request("GET /users/7/extra HTTP/1.1"), "7");
}

#[test]
fn body_extraction() {
    assert_eq!(request_body("POST /users\r\n\r\n{\"a\":1}"), "{\"a\":1}");
    assert_eq!(request_body("POST /users HTTP/1.1"), "");
    assert_eq!(request_body("X\r\n\r\n"), "");
}

#[test]
fn i32_parsing_edges() {
    assert_eq!(parse_i32("0"), Some(0));
    assert_eq!(parse_i32("42"), Some(42));
    assert_eq!(parse_i32("+7"), Some(7));
    assert_eq!(parse_i32("-42"), Some(-42));
    assert_eq!(parse_i32("2147483647"), Some(i32::MAX));
    assert_eq!(parse_i32("2147483648"), None);
    assert_eq!(parse_i32("-2147483648"), Some(i32::MIN));
    assert_eq!(parse_i32("-2147483649"), None);
    assert_eq!(parse_i32("0000000000042"), Some(42));
    assert_eq!(parse_i32(""), None);
    assert_eq!(parse_i32("-"), None);
    assert_eq!(parse_i32("1a"), None);
    assert_eq!(parse_i32(" 1"), None);
    assert_eq!(parse_i32("99999999999999999999"), None);
}

#[test]
fn user_json_text_is_exact() {
    let u = User::with_id(1, "Alice".to_string(), "alice@example.com".to_string());
    assert_eq!(user_to_json(&u), "{\"id\":1,\"name\":\"Alice\",\"email\":\"alice@example.com\"}");

    let anon = User { id: None, name: "A".to_string(), email: "a@b.c".to_string() };
    assert_eq!(user_to_json(&anon), "{\"id\":null,\"name\":\"A\",\"email\":\"a@b.c\"}");

    let neg = User::with_id(-12, "N".to_string(), "n@d.e".to_string());
    assert_eq!(user_to_json(&neg), "{\"id\":-12,\"name\":\"N\",\"email\":\"n@d.e\"}");
}

#[test]
fn user_json_escapes_specials() {
    let u = User::with_id(3, "A\"B\\C\nD".to_string(), "t\t@r\r".to_string());
    assert_eq!(
        user_to_json(&u),
        "{\"id\":3,\"name\":\"A\\\"B\\\\C\\nD\",\"email\":\"t\\t@r\\r\"}"
    );
}

#[test]
fn user_json_escapes_every_control_character() {
    let u = User::with_id(1, "a\u{0008}b\u{000C}c".to_string(), "x\u{1}y\u{1F}@z".to_string());
    assert_eq!(
        user_to_json(&u),
        "{\"id\":1,\"name\":\"a\\bb\\fc\",\"email\":\"x\\u0001y\\u001f@z\"}"
    );
}

#[test]
fn round_trip_keeps_escaped_fields() {
    let u = User::with_id(2, "A\"B\\C\nD\u{0008}".to_string(), "t\t@r\r".to_string());
    let back = parse_user_body(&user_to_json(&u)).unwrap();
    assert_eq!(back.name, u.name);
    assert_eq!(back.email, u.email);

    // Control characters leave as \u00.. escapes and come back unchanged.
    let c = User::with_id(3, "x\u{1}y\u{1F}z".to_string(), "a\u{0}@b".to_string());
    let back = parse_user_body(&user_to_json(&c)).unwrap();
    assert_eq!(back.name, c.name);
    assert_eq!(back.email, c.email);
}

#[test]
fn users_json_array_text() {
    let v: Vec<User> = Vec::new();
    assert_eq!(users_to_json(&v), "[]");
    let v = vec![
        User::with_id(1, "A".to_string(), "a@x.y".to_string()),
        User::with_id(2, "B".to_string(), "b@x.y".to_string()),
    ];
    assert_eq!(
        users_to_json(&v),
        "[{\"id\":1,\"name\":\"A\",\"email\":\"a@x.y\"},{\"id\":2,\"name\":\"B\",\"email\":\"b@x.y\"}]"
    );
}

#[test]
fn body_parsing_accepts_the_wire_shape() {
    let u = parse_user_body("{\"name\":\"Alice\",\"email\":\"a@b.c\"}").unwrap();
    assert_eq!(u.id, None);
    assert_eq!(u.name, "Alice");
    assert_eq!(u.email, "a@b.c");

    let u = parse_user_body(" { \"id\" : 7 , \"name\" : \"A\" , \"email\" : \"a@b.c\" } ").unwrap();
    assert_eq!(u.id, Some(7));

    let u = parse_user_body("{\"id\":null,\"name\":\"A\",\"email\":\"a@b.c\"}").unwrap();
    assert_eq!(u.id, None);

    let u = parse_user_body("{\"id\":-5,\"name\":\"A\",\"email\":\"a@b.c\"}").unwrap();
    assert_eq!(u.id, Some(-5));
}

#[test]
fn body_parsing_takes_members_in_any_order() {
    let u = parse_user_body("{\"email\":\"a@b.c\",\"name\":\"A\"}").unwrap();
    assert_eq!(u.id, None);
    assert_eq!(u.name, "A");
    assert_eq!(u.email, "a@b.c");

    let u = parse_user_body("{\"name\":\"A\",\"id\":3,\"email\":\"a@b.c\"}").unwrap();
    assert_eq!(u.id, Some(3));

    let u = parse_user_body("{\"email\":\"a@b.c\",\"name\":\"A\",\"id\":4}").unwrap();
    assert_eq!(u.id, Some(4));
}

#[test]
fn body_parsing_decodes_escapes() {
    let u = parse_user_body("{\"name\":\"A\\\"B\",\"email\":\"a@b.c\"}").unwrap();
    assert_eq!(u.name, "A\"B");

    let u = parse_user_body(
        "{\"name\":\"x\\n\\t\\r\\\\\\/\\b\\f\",\"email\":\"a@b.c\"}",
    )
    .unwrap();
    assert_eq!(u.name, "x\n\t\r\\/\u{0008}\u{000C}");

    // \u escapes of basic-plane code points, either hex case.
    let u = parse_user_body("{\"name\":\"\\u0041\\u00e9\\u001F\",\"email\":\"a@b.c\"}").unwrap();
    assert_eq!(u.name, "A\u{e9}\u{1f}");
}

#[test]
fn body_parsing_rejects_malformed_text() {
    assert!(parse_user_body("").is_none());
    assert!(parse_user_body("not json").is_none());
    assert!(parse_user_body("{\"name\":\"A\"}").is_none());
    assert!(parse_user_body("{\"name\":\"A\",\"email\":\"a@b.c\"} trailing").is_none());
    assert!(parse_user_body("{\"name\":\"A\",\"email\":\"a@b.c\"").is_none());
    assert!(parse_user_body("{\"id\":2147483648,\"name\":\"A\",\"email\":\"a@b.c\"}").is_none());
    // unknown member
    assert!(parse_user_body("{\"name\":\"A\",\"age\":3,\"email\":\"a@b.c\"}").is_none());
    // repeated member
    assert!(parse_user_body("{\"name\":\"A\",\"name\":\"B\",\"email\":\"a@b.c\"}").is_none());
    // unknown escape and an unterminated string
    assert!(parse_user_body("{\"name\":\"A\\q\",\"email\":\"a@b.c\"}").is_none());
    assert!(parse_user_body("{\"name\":\"A,\"email\":\"a@b.c\"}").is_none());
    // raw control character inside a string
    assert!(parse_user_body("{\"name\":\"A\u{1}B\",\"email\":\"a@b.c\"}").is_none());
    // trailing comma
    assert!(parse_user_body("{\"name\":\"A\",\"email\":\"a@b.c\",}").is_none());
    // broken unicode escapes: a lone surrogate, bad hex, a truncated escape
    assert!(parse_user_body("{\"name\":\"\\ud800\",\"email\":\"a@b.c\"}").is_none());
    assert!(parse_user_body("{\"name\":\"\\uzz11\",\"email\":\"a@b.c\"}").is_none());
    assert!(parse_user_body("{\"name\":\"\\u00").is_none());
    // a leading zero in the id member
    assert!(parse_user_body("{\"id\":07,\"name\":\"A\",\"email\":\"a@b.c\"}").is_none());
    assert!(parse_user_body("{\"id\":-01,\"name\":\"A\",\"email\":\"a@b.c\"}").is_none());
}

#[test]
fn body_of_request_parses_as_user() {
    let req = "POST /users HTTP/1.1\r\nHost: h\r\n\r\n{\"name\":\"A\",\"email\":\"a@b.c\"}";
    let u = get_user_from_request_body(req).unwrap();
    assert_eq!(u.name, "A");
    assert_eq!(u.email, "a@b.c");
    assert!(get_user_from_request_body("POST /users HTTP/1.1").is_none());
}

#[test]
fn round_trip_through_writer_and_reader() {
    let u = User::with_id(9, "Bob".to_string(), "bob@example.com".to_string());
    let text = user_to_json(&u);
    let back = parse_user_body(&text).unwrap();
    assert_eq!(back.id, Some(9));
    assert_eq!(back.name, "Bob");
    assert_eq!(back.email, "bob@example.com");
}

#[test]
fn repository_counts_and_lookup() {
    let mut r = UserRepository::new();
    let u = User { id: None, name: "A".to_string(), email: "a@b.c".to_string() };
    r.create(&u).unwrap();
    assert!(r.create(&u).is_err());

    let found = r.find_by_id(1).unwrap().unwrap();
    assert_eq!(found.id, Some(1));
    assert!(r.find_by_id(2).unwrap().is_none());
    assert_eq!(r.find_all().unwrap().len(), 1);

    let upd = User { id: None, name: "B".to_string(), email: "b@b.c".to_string() };
    assert_eq!(r.update(1, &upd).unwrap(), 1);
    assert_eq!(r.update(5, &upd).unwrap(), 0);
    assert_eq!(r.delete(1).unwrap(), 1);
    assert_eq!(r.delete(1).unwrap(), 0);
}

#[test]
fn database_config_returns_its_url() {
    let cfg = DatabaseConfig::new("postgres://localhost/users".to_string());
    assert_eq!(cfg.get_url(), "postgres://localhost/users");
}

#[test]
fn with_id_and_duplicate_keep_fields() {
    let u = User::with_id(4, "N".to_string(), "n@d.e".to_string());
    let d = u.duplicate();
    assert_eq!(d.id, Some(4));
    assert_eq!(d.name, "N");
    assert_eq!(d.email, "n@d.e");
}
