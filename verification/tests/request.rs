use wasm_service::request::{DecodeError, RawRequest, Request};

fn raw(method: &str, url: &str) -> RawRequest {
    RawRequest {
        method: method.to_string(),
        url: url.to_string(),
        headers: vec![("accept".to_string(), "text/html".to_string())],
        body: "todo-new=x".to_string(),
    }
}

#[test]
fn parts_are_kept_as_they_came() {
    let request = Request::new(raw("POST", "/wasm-service/todos;add")).unwrap();
    assert_eq!(request.method(), "POST");
    assert_eq!(request.url(), "/wasm-service/todos;add");
    assert_eq!(request.headers(), &vec![("accept".to_string(), "text/html".to_string())]);
    assert_eq!(request.body(), "todo-new=x");
    assert_eq!(request.path(), "/wasm-service/todos;add");
}

#[test]
fn parts_survive_a_round_trip() {
    let first = Request::new(raw("DELETE", "http://localhost:8080/todos/3?x=y")).unwrap();
    let parts = first.into_raw();
    assert_eq!(parts.method, "DELETE");
    assert_eq!(parts.url, "http://localhost:8080/todos/3?x=y");
    assert_eq!(parts.headers, vec![("accept".to_string(), "text/html".to_string())]);
    assert_eq!(parts.body, "todo-new=x");
    let again = Request::new(parts).unwrap();
    assert_eq!(again.method(), "DELETE");
    assert_eq!(again.url(), "http://localhost:8080/todos/3?x=y");
    assert_eq!(again.path(), "/todos/3?x=y");
}

#[test]
fn path_is_the_path_and_query_of_the_url() {
    let cases = [
        ("/", "/"),
        ("/todos?x=1", "/todos?x=1"),
        ("http://example.org", "/"),
        ("http://example.org/a/b#frag", "/a/b"),
        ("https://example.org:8443/wasm-service/todos;filter=All", "/wasm-service/todos;filter=All"),
    ];
    for (url, path) in cases {
        assert_eq!(Request::new(raw("GET", url)).unwrap().path(), path, "{url}");
    }
}

#[test]
fn extension_methods_are_taken() {
    assert!(Request::new(raw("PURGE", "/")).is_ok());
    assert!(Request::new(raw("get", "/")).is_ok());
}

#[test]
fn bad_method_is_refused() {
    assert_eq!(Request::new(raw("", "/")).err(), Some(DecodeError::BadMethod));
    assert_eq!(Request::new(raw("GE T", "/")).err(), Some(DecodeError::BadMethod));
    assert_eq!(Request::new(raw("GET\n", "/")).err(), Some(DecodeError::BadMethod));
    assert_eq!(Request::new(raw("", "not a url")).err(), Some(DecodeError::BadMethod));
}

#[test]
fn bad_url_is_refused() {
    assert_eq!(Request::new(raw("GET", "")).err(), Some(DecodeError::BadUrl));
    assert_eq!(Request::new(raw("GET", "/a b")).err(), Some(DecodeError::BadUrl));
    assert_eq!(Request::new(raw("GET", "http://")).err(), Some(DecodeError::BadUrl));
}

#[test]
fn url_without_a_path_from_the_root_is_refused() {
    assert_eq!(Request::new(raw("GET", "localhost:8080")).err(), Some(DecodeError::BadUrl));
    assert_eq!(Request::new(raw("GET", "*")).err(), Some(DecodeError::BadUrl));
    assert_eq!(Request::new(raw("GET", "http://example.org?x=1")).err(), Some(DecodeError::BadUrl));
}
