use kantan::Response;

#[test]
fn response_exposes_what_it_was_built_from() {
    let headers = vec![("content-type".to_string(), "text/plain".to_string())];
    let response = Response::new(
        "http://h/ping".to_string(),
        200,
        headers.clone(),
        b"pong!".to_vec(),
    );
    assert_eq!(response.status_code(), 200);
    assert_eq!(response.request_path(), "http://h/ping");
    assert_eq!(response.headers(), &headers);
    assert_eq!(response.body_bytes(), &b"pong!".to_vec());
}

#[test]
fn response_fields_are_plain_data() {
    let response = Response::new("http://h".to_string(), 404, Vec::new(), Vec::new());
    assert_eq!(response.status, 404);
    assert!(response.headers.is_empty());
    assert!(response.body.is_empty());
}
