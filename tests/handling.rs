use gateway_proxy::config::{resolve_upstream, Upstream};
use gateway_proxy::handler::{
    begin, finish, route, Call, Outcome, Reply, Request, Route, Step, STATUS_OK,
    STATUS_UNAVAILABLE,
};
use gateway_proxy::header::Header;

fn upstream(base: &str) -> Upstream {
    resolve_upstream(Some(base.to_string())).unwrap()
}

fn header(name: &str, value: &str) -> Header {
    Header::new(name, value.as_bytes())
}

fn request(method: &str, tail: &str, query: &str) -> Request {
    Request {
        method: method.to_string(),
        tail: tail.to_string(),
        query: query.to_string(),
        headers: vec![header("Authorization", "Bearer t"), header("accept", "*/*")],
        body: b"payload".to_vec(),
    }
}

fn pairs(headers: &[Header]) -> Vec<(String, Vec<u8>)> {
    headers.iter().map(|h| (h.name.clone(), h.value.clone())).collect()
}

fn cors_pairs() -> Vec<(String, Vec<u8>)> {
    vec![
        ("access-control-allow-origin".to_string(), b"*".to_vec()),
        (
            "access-control-allow-methods".to_string(),
            b"POST, GET, OPTIONS, PUT, DELETE".to_vec(),
        ),
        (
            "access-control-allow-headers".to_string(),
            b"Content-Type, Authorization, Range".to_vec(),
        ),
    ]
}

fn answered(step: Step) -> Reply {
    match step {
        Step::Answer(r) => r,
        Step::Forward(_) => panic!("expected an immediate answer"),
    }
}

fn forwarded(step: Step) -> Call {
    match step {
        Step::Forward(c) => c,
        Step::Answer(_) => panic!("expected a forwarded call"),
    }
}

#[test]
fn root_probe_answers_identification_for_every_method() {
    let up = upstream("http://gateway:9000");
    for method in ["GET", "POST", "OPTIONS", "DELETE"] {
        let reply = answered(begin(&up, request(method, "", "")));
        assert_eq!(reply.status, 200);
        assert_eq!(reply.body, b"Netty server deployed by Mujahid in Rust".to_vec());
        assert_eq!(
            pairs(&reply.headers),
            vec![("content-type".to_string(), b"text/plain".to_vec())]
        );
    }
}

#[test]
fn preflight_answers_cors_fields_without_body() {
    let up = upstream("http://gateway:9000");
    let reply = answered(begin(&up, request("OPTIONS", "api/users", "")));
    assert_eq!(reply.status, STATUS_OK);
    assert!(reply.body.is_empty());
    assert_eq!(pairs(&reply.headers), cors_pairs());
}

#[test]
fn other_requests_are_forwarded_unchanged() {
    let up = upstream("http://gateway:9000/");
    let call = forwarded(begin(&up, request("POST", "api/users", "page=2")));
    assert_eq!(call.method, "POST");
    assert_eq!(call.url, "http://gateway:9000/api/users?page=2");
    assert_eq!(
        pairs(&call.headers),
        vec![
            ("Authorization".to_string(), b"Bearer t".to_vec()),
            ("accept".to_string(), b"*/*".to_vec()),
        ]
    );
    assert_eq!(call.body, b"payload".to_vec());
}

#[test]
fn lower_case_options_is_not_a_preflight() {
    assert_eq!(route("x", "options"), Route::Forward);
    assert_eq!(route("x", "OPTIONS"), Route::Preflight);
    assert_eq!(route("", "OPTIONS"), Route::Root);
    assert_eq!(route("x", "GET"), Route::Forward);
}

#[test]
fn upstream_reply_is_relayed_with_cors_fields() {
    let reply = finish(Outcome::Responded {
        status: 404,
        headers: vec![header("content-type", "application/json"), header("x-trace", "7")],
        body: Some(b"{\"error\":\"missing\"}".to_vec()),
    });
    assert_eq!(reply.status, 404);
    assert_eq!(reply.body, b"{\"error\":\"missing\"}".to_vec());
    let mut expected = cors_pairs();
    expected.push(("content-type".to_string(), b"application/json".to_vec()));
    expected.push(("x-trace".to_string(), b"7".to_vec()));
    assert_eq!(pairs(&reply.headers), expected);
}

#[test]
fn upstream_cors_field_replaces_the_policy_value_once() {
    let reply = finish(Outcome::Responded {
        status: 200,
        headers: vec![header("Access-Control-Allow-Origin", "https://app.example")],
        body: Some(Vec::new()),
    });
    let got = pairs(&reply.headers);
    assert_eq!(got.len(), 3);
    assert_eq!(
        got[0],
        ("Access-Control-Allow-Origin".to_string(), b"https://app.example".to_vec())
    );
    assert_eq!(got[1..].to_vec(), cors_pairs()[1..].to_vec());
}

#[test]
fn repeated_upstream_field_keeps_the_last_value() {
    let reply = finish(Outcome::Responded {
        status: 201,
        headers: vec![
            header("set-cookie", "a=1"),
            header("x-one", "1"),
            header("Set-Cookie", "b=2"),
        ],
        body: Some(b"ok".to_vec()),
    });
    let mut expected = cors_pairs();
    expected.push(("Set-Cookie".to_string(), b"b=2".to_vec()));
    expected.push(("x-one".to_string(), b"1".to_vec()));
    assert_eq!(pairs(&reply.headers), expected);
}

#[test]
fn unreadable_upstream_body_becomes_empty() {
    let reply = finish(Outcome::Responded {
        status: 502,
        headers: Vec::new(),
        body: None,
    });
    assert_eq!(reply.status, 502);
    assert!(reply.body.is_empty());
    assert_eq!(pairs(&reply.headers), cors_pairs());
}

#[test]
fn unreachable_upstream_gives_service_unavailable() {
    let up = upstream("http://127.0.0.1:1");
    let call = forwarded(begin(&up, request("GET", "health", "")));
    assert_eq!(call.url, "http://127.0.0.1:1/health");
    let reply = finish(Outcome::Unreachable);
    assert_eq!(reply.status, STATUS_UNAVAILABLE);
    assert_eq!(reply.status, 503);
    assert_eq!(reply.body, b"Service unavailable".to_vec());
    let mut expected = cors_pairs();
    expected.push(("content-type".to_string(), b"text/plain".to_vec()));
    assert_eq!(pairs(&reply.headers), expected);
    // the next request is handled as if nothing had happened
    let next = answered(begin(&up, request("GET", "", "")));
    assert_eq!(next.status, 200);
}

#[test]
fn same_request_twice_gets_the_same_reply() {
    let up = upstream("http://gateway:9000");
    let mut replies = Vec::new();
    for _ in 0..2 {
        let call = forwarded(begin(&up, request("GET", "items/3", "")));
        assert_eq!(call.url, "http://gateway:9000/items/3");
        replies.push(finish(Outcome::Responded {
            status: 200,
            headers: vec![header("etag", "\"v1\"")],
            body: Some(b"item three".to_vec()),
        }));
    }
    assert_eq!(replies[0].status, replies[1].status);
    assert_eq!(replies[0].body, replies[1].body);
    assert_eq!(pairs(&replies[0].headers), pairs(&replies[1].headers));
}
