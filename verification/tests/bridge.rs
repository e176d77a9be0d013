use wasm_service::bridge::{
    allocate_request, answer, fetch, get_routing_state, response_len, response_ptr, stop, Host,
    RoutingState, STATUS,
};
use wasm_service::reply::Reply;
use wasm_service::request::{DecodeError, RawRequest};
use wasm_service::site::AppState;

fn text(value: &serde_json::Value, field: &str) -> Option<String> {
    Some(value.get(field)?.as_str()?.to_string())
}

fn decode(json: String) -> Option<RawRequest> {
    let value: serde_json::Value = serde_json::from_str(&json).ok()?;
    let mut headers = Vec::new();
    for pair in value.get("headers")?.as_array()? {
        headers.push((pair.get(0)?.as_str()?.to_string(), pair.get(1)?.as_str()?.to_string()));
    }
    Some(RawRequest {
        method: text(&value, "method")?,
        url: text(&value, "url")?,
        headers,
        body: text(&value, "body")?,
    })
}

fn encode(raw: &RawRequest) -> Vec<u8> {
    let headers: Vec<serde_json::Value> = raw
        .headers
        .iter()
        .map(|(k, v)| serde_json::Value::Array(vec![k.clone().into(), v.clone().into()]))
        .collect();
    let mut object = serde_json::Map::new();
    object.insert("method".to_string(), raw.method.clone().into());
    object.insert("url".to_string(), raw.url.clone().into());
    object.insert("headers".to_string(), serde_json::Value::Array(headers));
    object.insert("body".to_string(), raw.body.clone().into());
    serde_json::to_vec(&serde_json::Value::Object(object)).unwrap()
}

fn render(reply: &Reply) -> String {
    format!("{reply:?}")
}

fn host() -> Host {
    Host { routing: RoutingState::new(), app: AppState::new() }
}

fn send(host: &mut Host, bytes: &[u8]) -> String {
    allocate_request(&mut host.routing, bytes.len()).copy_from_slice(bytes);
    assert_eq!(fetch(host, decode, render), 0);
    response_ptr(&host.routing).unwrap().to_string()
}

fn send_request(host: &mut Host, method: &str, url: &str, body: &str) -> String {
    let raw = RawRequest {
        method: method.to_string(),
        url: url.to_string(),
        headers: vec![("hx-request".to_string(), "true".to_string())],
        body: body.to_string(),
    };
    send(host, &encode(&raw))
}

#[test]
fn encoded_request_decodes_to_the_same_parts() {
    let raw = RawRequest {
        method: "POST".to_string(),
        url: "http://localhost/wasm-service/todos;add?x=\"q\"".to_string(),
        headers: vec![
            ("b".to_string(), "2".to_string()),
            ("a".to_string(), "1 é \\ \" \n".to_string()),
            ("b".to_string(), "3".to_string()),
        ],
        body: "todo-new=caf%C3%A9&\u{1F600}".to_string(),
    };
    let bytes = encode(&raw);
    let mut state = RoutingState::new();
    allocate_request(&mut state, bytes.len()).copy_from_slice(&bytes);
    let back = decode(state.request_text().unwrap()).unwrap();
    assert_eq!(back.method, raw.method);
    assert_eq!(back.url, raw.url);
    assert_eq!(back.headers, raw.headers);
    assert_eq!(back.body, raw.body);
}

#[test]
fn a_new_state_has_neither_request_nor_response() {
    let mut state = RoutingState::new();
    assert_eq!(response_len(&state), 0);
    assert_eq!(response_ptr(&state), None);
    assert!(state.request_buffer().is_none());
    assert_eq!(state.request_text(), Ok("{}".to_string()));
}

#[test]
fn allocate_gives_a_buffer_of_zeros() {
    let mut state = RoutingState::new();
    assert_eq!(*allocate_request(&mut state, 5), vec![0u8; 5]);
    assert_eq!(state.request_buffer().map(|b| b.len()), Some(5));
    assert_eq!(*allocate_request(&mut state, 0), Vec::<u8>::new());
    assert_eq!(state.request_text(), Ok(String::new()));
}

#[test]
fn allocate_replaces_the_pending_request_and_discards_the_response() {
    let mut state = RoutingState::new();
    allocate_request(&mut state, 3).copy_from_slice(b"abc");
    state.set_response("old".to_string());
    assert_eq!(response_len(&state), 3);
    allocate_request(&mut state, 2);
    assert_eq!(state.request_text(), Ok("\0\0".to_string()));
    assert_eq!(response_ptr(&state), None);
    assert_eq!(response_len(&state), 0);
}

#[test]
fn request_text_wants_utf8() {
    let mut state = RoutingState::new();
    allocate_request(&mut state, 2).copy_from_slice(&[0xc3, 0xa9]);
    assert_eq!(state.request_text(), Ok("é".to_string()));
    allocate_request(&mut state, 2).copy_from_slice(&[0xc3, 0x28]);
    assert_eq!(state.request_text(), Err(DecodeError::NotText));
    allocate_request(&mut state, 1).copy_from_slice(&[0xff]);
    assert_eq!(state.request_text(), Err(DecodeError::NotText));
}

#[test]
fn response_len_counts_bytes() {
    let mut state = RoutingState::new();
    state.set_response("é!".to_string());
    assert_eq!(response_len(&state), 3);
    assert_eq!(response_ptr(&state), Some("é!"));
    state.set_response(String::new());
    assert_eq!(response_len(&state), 0);
    assert_eq!(response_ptr(&state), Some(""));
}

#[test]
fn fetch_answers_a_request() {
    let mut host = host();
    let response = send_request(&mut host, "POST", "/wasm-service/todos;add", "todo-new=Buy+milk");
    assert!(response.starts_with("Added"), "{response}");
    assert!(response.contains("Buy milk"));
    assert_eq!(host.app.todos().len(), 1);
    assert_eq!(response_len(&host.routing), response.len());
}

#[test]
fn fetch_replaces_the_response_each_time() {
    let mut host = host();
    let first = send_request(&mut host, "POST", "/;clicked", "");
    let second = send_request(&mut host, "POST", "/;clicked", "");
    assert!(first.contains("clicks: 1"), "{first}");
    assert!(second.contains("clicks: 2"), "{second}");
    assert_eq!(response_ptr(&host.routing), Some(second.as_str()));
}

#[test]
fn fetch_without_a_request_still_responds() {
    let mut host = host();
    assert_eq!(fetch(&mut host, decode, render), STATUS);
    assert_eq!(response_ptr(&host.routing), Some("DecodeFailed"));
}

#[test]
fn fetch_on_bad_bytes_still_responds() {
    let mut host = host();
    for bytes in [
        &[0xffu8, 0xfe][..],
        b"not json",
        b"{}",
        b"[\"GET\",\"/\",[],\"\"",
        br#"{"method":"GET","url":"/","headers":[["a"]],"body":""}"#,
        br#"{"method":"GET","url":"/","headers":[],"body":7}"#,
        br#"{"method":"G T","url":"/","headers":[],"body":""}"#,
        br#"{"method":"GET","url":"","headers":[],"body":""}"#,
        br#"{"method":"GET","url":"localhost","headers":[],"body":""}"#,
    ] {
        assert_eq!(send(&mut host, bytes), "DecodeFailed");
    }
    assert_eq!(host.app.todos().len(), 0);
    assert_eq!(host.app.clicks(), 0);
}

#[test]
fn fetch_keeps_the_request_for_another_fetch() {
    let mut host = host();
    send_request(&mut host, "POST", "/;clicked", "");
    assert_eq!(fetch(&mut host, decode, render), 0);
    assert!(response_ptr(&host.routing).unwrap().contains("clicks: 2"));
}

#[test]
fn fetch_answers_unknown_paths_with_not_found() {
    let mut host = host();
    assert_eq!(send_request(&mut host, "GET", "/nowhere", ""), "NotFound");
}

#[test]
fn answer_takes_the_failure_to_decode() {
    let mut app = AppState::new();
    for error in [DecodeError::NotText, DecodeError::Malformed] {
        assert!(matches!(answer(&mut app, Err(error)), Reply::DecodeFailed));
    }
    let raw = RawRequest {
        method: "GET".to_string(),
        url: "/todos".to_string(),
        headers: vec![],
        body: String::new(),
    };
    assert!(matches!(answer(&mut app, Ok(raw)), Reply::TodosPage { .. }));
}

#[test]
fn routing_state_is_reached_through_the_host() {
    let mut host = host();
    get_routing_state(&mut host).set_response("x".to_string());
    assert_eq!(response_ptr(&host.routing), Some("x"));
    assert_eq!(response_len(get_routing_state(&mut host)), 1);
}

#[test]
fn stop_acknowledges() {
    assert_eq!(stop(), 0);
    assert_eq!(STATUS, 0);
}
