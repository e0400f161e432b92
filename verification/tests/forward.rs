use pact_proxy::cli::{get_rand_port, parse_port, port_from_random};
use pact_proxy::error::ProxyError;
use pact_proxy::model::{ContentType, HttpResponse, OptionalBody};
use pact_proxy::multimap::MultiMap;
use pact_proxy::pact_to_response::pact_response_to_http_response;
use pact_proxy::response_to_pact::{
    body_with_content_type, reqwest_headers_to_pact_headers, reqwest_response_to_pact,
    UpstreamResponse,
};
use pact_proxy::web::{
    adjust_body_and_content_length, adjust_content_length, decimal_text, get_response_from_web,
    ForwardState, RetryStep, SendOutcome,
};

fn pairs(items: &[(&str, &str)]) -> Vec<(String, String)> {
    items.iter().map(|(k, v)| (k.to_string(), v.to_string())).collect()
}

fn strings(items: &[&str]) -> Vec<String> {
    items.iter().map(|s| s.to_string()).collect()
}

fn json_type() -> ContentType {
    ContentType {
        main_type: "application".to_string(),
        sub_type: "json".to_string(),
        attributes: Vec::new(),
        suffix: None,
    }
}

#[test]
fn test_pact_response_to_http_response() {
    let test_json_body = r#"{"test": "test"}"#;
    let headers = MultiMap::from_pairs(&pairs(&[("Content-Type", "application/json")]));
    let pact_response = HttpResponse {
        status: 200,
        headers: Some(headers),
        body: OptionalBody::Present(test_json_body.as_bytes().to_vec(), None),
    };
    let http_response = pact_response_to_http_response(&pact_response);
    assert!(http_response.is_ok());
    assert!(http_response.as_ref().unwrap().status == 200);
    assert!(http_response.as_ref().unwrap().headers.len() == 1);
    assert_eq!(http_response.as_ref().unwrap().body, test_json_body.as_bytes().to_vec());
}

#[test]
fn encoder_writes_one_line_per_value() {
    let headers = MultiMap::from_pairs(&pairs(&[("a", "1"), ("b", "2"), ("a", "3")]));
    for body in [OptionalBody::Missing, OptionalBody::Empty, OptionalBody::Null] {
        let response = HttpResponse { status: 404, headers: Some(headers.copy()), body };
        let wire = pact_response_to_http_response(&response).unwrap();
        assert_eq!(wire.status, 404);
        assert_eq!(wire.headers, pairs(&[("a", "1"), ("a", "3"), ("b", "2")]));
        assert_eq!(wire.body, Vec::<u8>::new());
    }
    let bare = HttpResponse { status: 204, headers: None, body: OptionalBody::Missing };
    let wire = pact_response_to_http_response(&bare).unwrap();
    assert_eq!(wire.headers, Vec::new());
}

#[test]
fn test_reqwest_response_to_pact() {
    let response = UpstreamResponse {
        status: 200,
        headers: pairs(&[("Content-Type", "application/json; charset=utf-8"), ("X-A", "b")]),
        body: b"{}".to_vec(),
    };
    let pact_response = reqwest_response_to_pact(&response).unwrap();
    assert_eq!(pact_response.status, 200);
    assert_eq!(
        pact_response.headers.as_ref().unwrap().get("content-type").unwrap()[0],
        "application/json; charset=utf-8"
    );
    assert_eq!(
        pact_response.body.content_type().unwrap().text(),
        "application/json;charset=utf-8"
    );
    match &pact_response.body {
        OptionalBody::Present(bytes, Some(content_type)) => {
            assert_eq!(bytes, &b"{}".to_vec());
            assert_eq!(content_type.main_type, "application");
            assert_eq!(content_type.sub_type, "json");
            assert_eq!(content_type.attributes, pairs(&[("charset", "utf-8")]));
            assert_eq!(content_type.suffix, None);
        }
        other => panic!("unexpected body {:?}", other),
    }
}

#[test]
fn response_header_names_are_lowered() {
    let headers = reqwest_headers_to_pact_headers(
        &pairs(&[("Set-Cookie", "a=1"), ("X-Thing", "V"), ("set-cookie", "b=2")]),
        true,
    )
    .unwrap();
    assert_eq!(headers.get("set-cookie"), Some(strings(&["a=1", "b=2"])));
    assert_eq!(headers.get("x-thing"), Some(strings(&["V"])));
    assert_eq!(headers.get("Set-Cookie"), None);
    assert_eq!(reqwest_headers_to_pact_headers(&Vec::new(), true), None);
}

#[test]
fn body_is_kept_only_under_a_content_type() {
    let plain = UpstreamResponse { status: 200, headers: pairs(&[("x", "y")]), body: b"abc".to_vec() };
    let r = reqwest_response_to_pact(&plain).unwrap();
    assert_eq!(r.body, OptionalBody::Missing);
    assert_eq!(r.status, 200);
    let bad = UpstreamResponse {
        status: 200,
        headers: pairs(&[("content-type", "not a type")]),
        body: b"abc".to_vec(),
    };
    assert_eq!(reqwest_response_to_pact(&bad), Err(ProxyError::SerializationError));
    let body = b"abc".to_vec();
    assert_eq!(body_with_content_type(&body, None), Ok(OptionalBody::Missing));
    assert_eq!(body_with_content_type(&body, Some(None)), Err(ProxyError::SerializationError));
    assert_eq!(
        body_with_content_type(&body, Some(Some(json_type()))),
        Ok(OptionalBody::Present(b"abc".to_vec(), Some(json_type())))
    );
}

#[test]
fn json_body_is_rewritten_and_length_follows() {
    let mut response = HttpResponse {
        status: 200,
        headers: Some(MultiMap::from_pairs(&pairs(&[
            ("content-type", "application/json"),
            ("content-length", "12"),
        ]))),
        body: OptionalBody::Present(b"{ \"id\" :  7 }".to_vec(), Some(json_type())),
    };
    assert_eq!(adjust_body_and_content_length(&mut response), Ok(()));
    assert_eq!(response.body, OptionalBody::Present(b"{\"id\":7}".to_vec(), Some(json_type())));
    let headers = response.headers.unwrap();
    assert_eq!(headers.get("content-length"), Some(strings(&["8"])));
    assert_eq!(headers.get("content-type"), Some(strings(&["application/json"])));
}

#[test]
fn headers_without_content_length_are_left_alone() {
    let headers = MultiMap::from_pairs(&pairs(&[("content-type", "application/json")]));
    let mut response = HttpResponse {
        status: 200,
        headers: Some(headers.copy()),
        body: OptionalBody::Present(b" [1, 2] ".to_vec(), Some(json_type())),
    };
    assert_eq!(adjust_body_and_content_length(&mut response), Ok(()));
    assert_eq!(response.headers, Some(headers));
    assert_eq!(response.body, OptionalBody::Present(b"[1,2]".to_vec(), Some(json_type())));
    let mut bare = HttpResponse {
        status: 200,
        headers: None,
        body: OptionalBody::Present(b"true".to_vec(), Some(json_type())),
    };
    assert_eq!(adjust_body_and_content_length(&mut bare), Ok(()));
    assert_eq!(bare.headers, None);
}

#[test]
fn claimed_json_that_is_none_fails() {
    let mut response = HttpResponse {
        status: 200,
        headers: Some(MultiMap::from_pairs(&pairs(&[("content-length", "3")]))),
        body: OptionalBody::Present(b"{no".to_vec(), Some(json_type())),
    };
    let before = response.copy();
    assert_eq!(adjust_body_and_content_length(&mut response), Err(ProxyError::SerializationError));
    assert_eq!(response, before);
}

#[test]
fn other_content_types_are_not_touched() {
    let text = ContentType {
        main_type: "text".to_string(),
        sub_type: "plain".to_string(),
        attributes: Vec::new(),
        suffix: None,
    };
    let mut response = HttpResponse {
        status: 200,
        headers: Some(MultiMap::from_pairs(&pairs(&[("content-length", "99")]))),
        body: OptionalBody::Present(b"{ \"a\" : 1 }".to_vec(), Some(text)),
    };
    let before = response.copy();
    assert_eq!(adjust_body_and_content_length(&mut response), Ok(()));
    assert_eq!(response, before);
    let mut untyped = HttpResponse {
        status: 200,
        headers: None,
        body: OptionalBody::Present(b"{ }".to_vec(), None),
    };
    assert_eq!(adjust_body_and_content_length(&mut untyped), Ok(()));
    assert_eq!(untyped.body, OptionalBody::Present(b"{ }".to_vec(), None));
}

#[test]
fn content_length_is_the_length_of_a_present_body() {
    let mut response = HttpResponse {
        status: 200,
        headers: Some(MultiMap::from_pairs(&pairs(&[("content-length", "1"), ("content-length", "2")]))),
        body: OptionalBody::Present(vec![0u8; 1234], None),
    };
    assert_eq!(adjust_content_length(&mut response), Ok(()));
    assert_eq!(response.headers.unwrap().get("content-length"), Some(strings(&["1234"])));
    let mut empty = HttpResponse {
        status: 200,
        headers: Some(MultiMap::from_pairs(&pairs(&[("content-length", "5")]))),
        body: OptionalBody::Empty,
    };
    assert_eq!(adjust_content_length(&mut empty), Ok(()));
    assert_eq!(empty.headers.unwrap().get("content-length"), Some(strings(&["5"])));
}

#[test]
fn numbers_are_written_in_decimal() {
    assert_eq!(decimal_text(0), "0");
    assert_eq!(decimal_text(7), "7");
    assert_eq!(decimal_text(10), "10");
    assert_eq!(decimal_text(1234567890), "1234567890");
    assert_eq!(decimal_text(usize::MAX), usize::MAX.to_string());
}

#[test]
fn answer_of_the_target_is_normalised_and_encoded() {
    let upstream = UpstreamResponse {
        status: 200,
        headers: pairs(&[("Content-Type", "application/json"), ("Content-Length", "10")]),
        body: b"{ \"id\": 7}".to_vec(),
    };
    let (recorded, wire) = get_response_from_web(&upstream).unwrap();
    assert_eq!(recorded.status, 200);
    assert_eq!(recorded.body, OptionalBody::Present(b"{\"id\":7}".to_vec(), Some(json_type())));
    assert_eq!(wire.status, 200);
    assert_eq!(wire.body, b"{\"id\":7}".to_vec());
    assert_eq!(wire.headers, pairs(&[("content-type", "application/json"), ("content-length", "8")]));
    let broken = UpstreamResponse {
        status: 200,
        headers: pairs(&[("content-type", "application/json")]),
        body: b"<html>".to_vec(),
    };
    assert_eq!(get_response_from_web(&broken), Err(ProxyError::SerializationError));
}

#[test]
fn a_target_that_always_fails_is_tried_five_times() {
    for outcome in [SendOutcome::Answered(500), SendOutcome::Failed, SendOutcome::Answered(199), SendOutcome::Answered(300)] {
        let mut state = ForwardState::new();
        let mut sends = 0;
        let mut waited = 0;
        let last = loop {
            sends += 1;
            let (next, step) = state.forward_get_request(outcome);
            state = next;
            match step {
                RetryStep::WaitThenSend(millis) => waited += millis,
                other => break other,
            }
        };
        assert_eq!(sends, 5);
        assert_eq!(state.attempts, 5);
        assert_eq!(waited, 4000);
        assert_eq!(last, RetryStep::WaitThenFail(1000, ProxyError::ForwardingExhausted));
    }
}

#[test]
fn the_first_success_is_delivered() {
    let state = ForwardState::new();
    let (state, step) = state.forward_get_request(SendOutcome::Answered(503));
    assert_eq!(step, RetryStep::WaitThenSend(1000));
    let (state, step) = state.forward_get_request(SendOutcome::Failed);
    assert_eq!(step, RetryStep::WaitThenSend(1000));
    let (state, step) = state.forward_get_request(SendOutcome::Answered(204));
    assert_eq!(step, RetryStep::Deliver);
    assert_eq!(state.attempts, 3);
    let (_, first) = ForwardState::new().forward_get_request(SendOutcome::Answered(200));
    assert_eq!(first, RetryStep::Deliver);
    let (_, edge) = ForwardState::new().forward_get_request(SendOutcome::Answered(299));
    assert_eq!(edge, RetryStep::Deliver);
}

#[test]
fn ports_come_from_the_fixed_range() {
    assert_eq!(port_from_random(0), 10000);
    assert_eq!(port_from_random(999), 10999);
    assert_eq!(port_from_random(1000), 10000);
    assert_eq!(port_from_random(65535), 10535);
    for _ in 0..50 {
        let port = get_rand_port();
        assert!((10000..11000).contains(&port));
    }
    assert_eq!(parse_port(Some("8080".to_string()), 10001), "8080");
    assert_eq!(parse_port(None, 10001), "10001");
}

#[test]
fn errors_have_their_sentences() {
    assert_eq!(ProxyError::UnsupportedMethod.message(), "Only GET requests are supported");
    assert_eq!(ProxyError::ForwardingExhausted.message(), "Could not get correct response from server");
    assert_eq!(ProxyError::TranslationError.message(), "The request path names no target URL");
    assert_eq!(ProxyError::SerializationError.message(), "The response could not be normalised");
    assert_eq!(ProxyError::StoreIOError.message(), "The pact could not be written");
    assert_eq!(ProxyError::StartupLoadError.message(), "A pact file could not be read");
}

#[test]
fn content_types_are_written_out() {
    assert_eq!(json_type().text(), "application/json");
    let full = ContentType {
        main_type: "application".to_string(),
        sub_type: "hal".to_string(),
        attributes: pairs(&[("charset", "utf-8"), ("q", "1")]),
        suffix: Some("json".to_string()),
    };
    assert_eq!(full.text(), "application/hal+json;charset=utf-8;q=1");
    assert!(json_type().is_application_json());
    assert!(!full.is_application_json());
    assert_eq!(full.copy(), full);
    assert_eq!(OptionalBody::Empty.content_type(), None);
    assert_eq!(OptionalBody::Present(Vec::new(), None).content_type(), None);
    assert_eq!(OptionalBody::Present(Vec::new(), Some(json_type())).content_type(), Some(json_type()));
    assert_eq!(OptionalBody::Present(vec![1, 2], None).wire_bytes(), vec![1, 2]);
}

#[test]
fn structured_json_content_types_are_read() {
    let response = UpstreamResponse {
        status: 201,
        headers: pairs(&[("content-type", "application/hal+json")]),
        body: b"{ }".to_vec(),
    };
    let (recorded, wire) = get_response_from_web(&response).unwrap();
    let content_type = recorded.body.content_type().unwrap();
    assert_eq!(content_type.main_type, "application");
    assert_eq!(content_type.sub_type, "hal");
    assert_eq!(content_type.suffix, Some("json".to_string()));
    assert_eq!(wire.body, b"{ }".to_vec());
    assert_eq!(wire.status, 201);
}
