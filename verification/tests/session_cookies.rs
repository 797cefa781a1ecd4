use kantan::{Cookie, CookieJar, Error, Server, WireRequest};

fn new_server(address: &str) -> Server {
    Server::new(address.to_string()).expect("Should create server")
}

fn wire(r: kantan::Request) -> WireRequest {
    r.into_wire().expect("Should resolve the request")
}

fn cookie_lines_of(w: &WireRequest) -> Vec<String> {
    w.headers
        .iter()
        .filter(|(name, _)| name == "cookie")
        .map(|(_, value)| value.clone())
        .collect()
}

fn set_cookie(value: &str) -> (String, String) {
    ("set-cookie".to_string(), value.to_string())
}

#[test]
fn add_cookie_keeps_one_entry_per_name_last_wins() {
    let mut server = new_server("http://h");
    server.add_cookie(Cookie::new("a".to_string(), "1".to_string()));
    server.add_cookie(Cookie::new("b".to_string(), "2".to_string()));
    server.add_cookie(Cookie::new("a".to_string(), "3".to_string()));
    let lines = cookie_lines_of(&wire(server.get("/p")));
    assert_eq!(lines, vec!["a=3".to_string(), "b=2".to_string()]);
}

#[test]
fn add_cookies_upserts_in_order() {
    let mut server = new_server("http://h");
    server.add_cookie(Cookie::new("a".to_string(), "1".to_string()));
    let mut jar = CookieJar::new();
    jar.add(Cookie::new("b".to_string(), "2".to_string()));
    jar.add(Cookie::new("a".to_string(), "4".to_string()));
    server.add_cookies(jar);
    let lines = cookie_lines_of(&wire(server.get("/p")));
    assert_eq!(lines, vec!["a=4".to_string(), "b=2".to_string()]);
}

#[test]
fn clear_cookies_empties_the_session() {
    let mut server = new_server("http://h");
    server.add_cookie(Cookie::new("a".to_string(), "1".to_string()));
    server.clear_cookies();
    assert_eq!(cookie_lines_of(&wire(server.get("/p"))), Vec::<String>::new());
}

#[test]
fn returned_cookies_are_not_saved_without_opt_in() {
    let mut server = new_server("http://h");
    let headers = vec![set_cookie("a=1")];
    let outcome = server.apply_response_cookies(false, &headers);
    assert!(outcome.is_ok());
    assert_eq!(cookie_lines_of(&wire(server.get("/cookie"))), Vec::<String>::new());
}

#[test]
fn returned_cookies_are_saved_when_turned_on() {
    let mut server = new_server("http://h");
    let headers = vec![set_cookie("a=1")];
    let outcome = server.apply_response_cookies(true, &headers);
    assert!(outcome.is_ok());
    assert_eq!(
        cookie_lines_of(&wire(server.get("/cookie"))),
        vec!["a=1".to_string()]
    );
}

#[test]
fn saved_cookies_drop_their_wire_attributes() {
    let mut server = new_server("http://h");
    let headers = vec![set_cookie("sess=abc123; Path=/; HttpOnly")];
    server
        .apply_response_cookies(true, &headers)
        .expect("Should merge the cookie");
    assert_eq!(
        cookie_lines_of(&wire(server.get("/p"))),
        vec!["sess=abc123".to_string()]
    );
}

#[test]
fn merged_cookies_replace_stored_ones_by_name() {
    let mut server = new_server("http://h");
    server.add_cookie(Cookie::new("a".to_string(), "old".to_string()));
    let headers = vec![set_cookie("a=new"), set_cookie("b=2")];
    server
        .apply_response_cookies(true, &headers)
        .expect("Should merge the cookies");
    assert_eq!(
        cookie_lines_of(&wire(server.get("/p"))),
        vec!["a=new".to_string(), "b=2".to_string()]
    );
}

#[test]
fn non_set_cookie_headers_are_ignored_by_the_merge() {
    let mut server = new_server("http://h");
    let headers = vec![
        ("content-type".to_string(), "text/plain".to_string()),
        set_cookie("a=1"),
        ("server".to_string(), "test".to_string()),
    ];
    server
        .apply_response_cookies(true, &headers)
        .expect("Should merge the cookie");
    assert_eq!(cookie_lines_of(&wire(server.get("/p"))), vec!["a=1".to_string()]);
}

#[test]
fn merge_stops_at_the_first_unparsable_cookie() {
    let mut server = new_server("http://h");
    let headers = vec![
        set_cookie("a=1"),
        set_cookie("no-pair-here"),
        set_cookie("b=2"),
    ];
    let outcome = server.apply_response_cookies(true, &headers);
    assert_eq!(outcome.err(), Some(Error::CookieParse));
    // The cookie before the failure stays merged; the one after does not.
    assert_eq!(cookie_lines_of(&wire(server.get("/p"))), vec!["a=1".to_string()]);
}

#[test]
fn builders_snapshot_cookies_at_creation_time() {
    let mut server = new_server("http://h");
    let first = server.get("/p");
    let second = server.get("/p");
    // The first request completes and saves a cookie into the session.
    server
        .apply_response_cookies(true, &vec![set_cookie("late=1")])
        .expect("Should merge the cookie");
    // A builder created before the save never sees the cookie ...
    assert_eq!(cookie_lines_of(&wire(second)), Vec::<String>::new());
    assert_eq!(cookie_lines_of(&wire(first)), Vec::<String>::new());
    // ... while one created afterwards carries it.
    assert_eq!(
        cookie_lines_of(&wire(server.get("/p"))),
        vec!["late=1".to_string()]
    );
}

#[test]
fn builder_cookie_changes_leave_the_session_alone() {
    let mut server = new_server("http://h");
    server.add_cookie(Cookie::new("a".to_string(), "1".to_string()));
    let b = server
        .get("/p")
        .add_cookie(Cookie::new("extra".to_string(), "2".to_string()));
    assert_eq!(
        cookie_lines_of(&wire(b)),
        vec!["a=1".to_string(), "extra=2".to_string()]
    );
    // The session still holds only its own cookie.
    assert_eq!(cookie_lines_of(&wire(server.get("/p"))), vec!["a=1".to_string()]);
}

#[test]
fn cookie_accessors_return_name_and_value() {
    let cookie = Cookie::new("name".to_string(), "value".to_string());
    assert_eq!(cookie.name(), "name");
    assert_eq!(cookie.value(), "value");
}
