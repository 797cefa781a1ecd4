use kantan::{build_request_path, Cookie, Error, Method, Server, ServerConfig, WireRequest};

fn new_server(address: &str) -> Server {
    Server::new(address.to_string()).expect("Should create server")
}

fn wire(r: kantan::Request) -> WireRequest {
    r.into_wire().expect("Should resolve the request")
}

fn content_type_of(w: &WireRequest) -> Option<String> {
    w.headers
        .iter()
        .find(|(name, _)| name == "content-type")
        .map(|(_, value)| value.clone())
}

fn cookie_lines_of(w: &WireRequest) -> Vec<String> {
    w.headers
        .iter()
        .filter(|(name, _)| name == "cookie")
        .map(|(_, value)| value.clone())
        .collect()
}

#[test]
fn uri_join_empty_path_keeps_base() {
    assert_eq!(build_request_path("http://h", ""), "http://h");
}

#[test]
fn uri_join_leading_slash_appends_directly() {
    assert_eq!(build_request_path("http://h", "/x"), "http://h/x");
}

#[test]
fn uri_join_bare_path_inserts_one_slash() {
    assert_eq!(build_request_path("http://h", "x"), "http://h/x");
}

#[test]
fn uri_join_keeps_duplicate_slashes() {
    assert_eq!(build_request_path("http://h/", "/x"), "http://h//x");
}

#[test]
fn request_url_uses_join_rule() {
    let server = new_server("http://h");
    assert_eq!(wire(server.get("")).url, "http://h");
    assert_eq!(wire(server.get("/x")).url, "http://h/x");
    assert_eq!(wire(server.get("x")).url, "http://h/x");
}

#[test]
fn methods_carry_their_verbs() {
    let server = new_server("http://h");
    assert_eq!(wire(server.get("/p")).method, Method::Get);
    assert_eq!(wire(server.post("/p")).method, Method::Post);
    assert_eq!(wire(server.put("/p")).method, Method::Put);
    assert_eq!(wire(server.patch("/p")).method, Method::Patch);
    assert_eq!(wire(server.delete("/p")).method, Method::Delete);
    assert_eq!(wire(server.method(Method::Post, "/p")).method, Method::Post);
}

#[test]
fn method_wire_names() {
    assert_eq!(Method::Get.wire_name(), "GET");
    assert_eq!(Method::Post.wire_name(), "POST");
    assert_eq!(Method::Put.wire_name(), "PUT");
    assert_eq!(Method::Patch.wire_name(), "PATCH");
    assert_eq!(Method::Delete.wire_name(), "DELETE");
}

#[test]
fn no_content_type_by_default() {
    let server = new_server("http://h");
    let w = wire(server.get("/content_type"));
    assert_eq!(content_type_of(&w), None);
    assert!(w.body.is_empty());
}

#[test]
fn explicit_content_type_is_sent() {
    let server = new_server("http://h");
    let w = wire(server.get("/content_type").content_type("application/json"));
    assert_eq!(content_type_of(&w), Some("application/json".to_string()));
}

#[test]
fn explicit_content_type_wins_over_json() {
    let server = new_server("http://h");
    let payload = serde_json::Value::String("hello".to_string());
    let w = wire(server.post("/p").content_type("text/csv").json(&payload));
    assert_eq!(content_type_of(&w), Some("text/csv".to_string()));
}

#[test]
fn json_implies_application_json() {
    let server = new_server("http://h");
    let payload = serde_json::Value::String("hello".to_string());
    let w = wire(server.post("/p").json(&payload));
    assert_eq!(content_type_of(&w), Some("application/json".to_string()));
}

#[test]
fn text_implies_text_plain() {
    let server = new_server("http://h");
    let w = wire(server.put("/p").text("new-cookie"));
    assert_eq!(content_type_of(&w), Some("text/plain".to_string()));
    assert_eq!(w.body, b"new-cookie".to_vec());
}

#[test]
fn session_default_content_type_seeds_requests() {
    let config = ServerConfig {
        save_cookies: false,
        default_content_type: Some("application/json".to_string()),
    };
    let server =
        Server::new_with_config("http://h".to_string(), config).expect("Should create server");
    let w = wire(server.get("/p"));
    assert_eq!(content_type_of(&w), Some("application/json".to_string()));
    // A body setter's implied type outranks the session default.
    let w2 = wire(server.put("/p").text("x"));
    assert_eq!(content_type_of(&w2), Some("text/plain".to_string()));
}

#[test]
fn json_overrides_session_default_content_type() {
    let config = ServerConfig {
        save_cookies: false,
        default_content_type: Some("text/csv".to_string()),
    };
    let server =
        Server::new_with_config("http://h".to_string(), config).expect("Should create server");
    let payload = serde_json::Value::String("hello".to_string());
    let w = wire(server.post("/p").json(&payload));
    assert_eq!(content_type_of(&w), Some("application/json".to_string()));
}

#[test]
fn explicit_content_type_overrides_session_default() {
    let config = ServerConfig {
        save_cookies: false,
        default_content_type: Some("text/csv".to_string()),
    };
    let server =
        Server::new_with_config("http://h".to_string(), config).expect("Should create server");
    let w = wire(server.get("/p").content_type("text/html"));
    assert_eq!(content_type_of(&w), Some("text/html".to_string()));
}

#[test]
fn earlier_body_setter_type_survives_a_later_one() {
    let server = new_server("http://h");
    let payload = serde_json::Value::String("hello".to_string());
    let w = wire(server.post("/p").json(&payload).text("plain now"));
    assert_eq!(content_type_of(&w), Some("application/json".to_string()));
    assert_eq!(w.body, b"plain now".to_vec());
}

#[test]
fn json_replaces_an_earlier_body() {
    let server = new_server("http://h");
    let payload = serde_json::Value::String("second".to_string());
    let w = wire(server.post("/p").text("first").json(&payload));
    assert_eq!(w.body, br#""second""#.to_vec());
}

#[test]
fn json_body_is_the_exact_encoding() {
    let server = new_server("http://h");
    let mut object = serde_json::Map::new();
    object.insert(
        "username".to_string(),
        serde_json::Value::String("Terrance Pencilworth".to_string()),
    );
    let payload = serde_json::Value::Object(object);
    let w = wire(server.put("/users").json(&payload));
    assert_eq!(w.body, br#"{"username":"Terrance Pencilworth"}"#.to_vec());
}

#[test]
fn bytes_leave_content_type_unchanged() {
    let server = new_server("http://h");
    let w = wire(server.post("/p").bytes(vec![1u8, 2, 3]));
    assert_eq!(content_type_of(&w), None);
    assert_eq!(w.body, vec![1u8, 2, 3]);
}

#[test]
fn last_body_setter_wins() {
    let server = new_server("http://h");
    let w = wire(server.post("/p").text("first").bytes(b"second".to_vec()));
    assert_eq!(w.body, b"second".to_vec());
}

#[test]
fn save_cookie_flag_reaches_the_wire() {
    let server = new_server("http://h");
    assert!(!wire(server.get("/p")).save_cookies);
    assert!(wire(server.get("/p").do_save_cookies()).save_cookies);
    assert!(!wire(server.get("/p").do_save_cookies().do_not_save_cookies()).save_cookies);
}

#[test]
fn added_cookie_appears_verbatim_on_the_wire() {
    let server = new_server("http://h");
    let w = wire(
        server
            .get("/p")
            .add_cookie(Cookie::new("s".to_string(), "v".to_string())),
    );
    assert_eq!(cookie_lines_of(&w), vec!["s=v".to_string()]);
}

#[test]
fn builder_clear_cookies_empties_the_snapshot() {
    let mut server = new_server("http://h");
    server.add_cookie(Cookie::new("a".to_string(), "1".to_string()));
    let w = wire(server.get("/p").clear_cookies());
    assert_eq!(cookie_lines_of(&w), Vec::<String>::new());
}

#[test]
fn invalid_url_is_an_assembly_failure() {
    let server = new_server("http://h");
    let outcome = server.get("/a b").into_wire();
    assert_eq!(outcome.err(), Some(Error::RequestAssembly));
}

#[test]
fn unencodable_content_type_is_an_encoding_failure() {
    let server = new_server("http://h");
    let outcome = server.get("/p").content_type("bad\nvalue").into_wire();
    assert_eq!(outcome.err(), Some(Error::HeaderEncoding));
}

#[test]
fn unencodable_cookie_value_is_an_encoding_failure() {
    let server = new_server("http://h");
    let outcome = server
        .get("/p")
        .add_cookie(Cookie::new("a".to_string(), "bad\rvalue".to_string()))
        .into_wire();
    assert_eq!(outcome.err(), Some(Error::HeaderEncoding));
}

#[test]
fn default_config_saves_nothing_and_sets_no_type() {
    let config = ServerConfig::default();
    assert!(!config.save_cookies);
    assert_eq!(config.default_content_type, None);
}

#[test]
fn session_default_save_policy_seeds_requests() {
    let config = ServerConfig {
        save_cookies: true,
        default_content_type: None,
    };
    let server =
        Server::new_with_config("http://h".to_string(), config).expect("Should create server");
    assert!(wire(server.get("/p")).save_cookies);
    assert!(!wire(server.get("/p").do_not_save_cookies()).save_cookies);
}

#[test]
fn empty_body_with_explicit_content_type() {
    let server = new_server("http://h");
    let w = wire(server.post("/p").content_type("text/csv"));
    assert!(w.body.is_empty());
    assert_eq!(content_type_of(&w), Some("text/csv".to_string()));
}
