use pact_proxy::error::ProxyError;
use pact_proxy::request_to_pact::InboundRequest;
use pact_proxy::response_to_pact::UpstreamResponse;
use pact_proxy::server::{get_response, PactServer, Reply, ServerAction};

fn pairs(items: &[(&str, &str)]) -> Vec<(String, String)> {
    items.iter().map(|(k, v)| (k.to_string(), v.to_string())).collect()
}

fn get(url: &str) -> InboundRequest {
    InboundRequest { method: "GET".to_string(), url: url.to_string(), headers: Vec::new() }
}

fn server() -> PactServer {
    PactServer::with_http_server("/tmp/pacts", Vec::new(), "10001".to_string())
}

#[test]
fn stop_without_start_does_nothing() {
    let mut s = server();
    assert!(!s.is_running());
    assert_eq!(s.stop(), Ok(ServerAction::Nothing));
    assert!(!s.is_running());
    s.bound();
    assert_eq!(s.stop(), Ok(ServerAction::Nothing));
    assert_eq!(s.start_non_blocking(), ServerAction::ServeInBackground);
    assert!(s.is_running());
}

#[test]
fn background_server_is_joined_on_stop_once() {
    let mut s = server();
    assert_eq!(s.port(), Ok("10001".to_string()));
    assert_eq!(s.start_non_blocking(), ServerAction::Nothing);
    s.bound();
    assert_eq!(s.start_non_blocking(), ServerAction::ServeInBackground);
    assert_eq!(s.start_non_blocking(), ServerAction::Nothing);
    assert!(s.is_running());
    assert_eq!(s.stop(), Ok(ServerAction::UnblockAndJoin));
    assert!(!s.is_running());
    assert_eq!(s.stop(), Ok(ServerAction::Nothing));
    assert_eq!(s.start_blocking(), ServerAction::Nothing);
    assert!(!s.is_running());
}

#[test]
fn blocking_server_is_unblocked_on_stop() {
    let mut s = server();
    s.bound();
    assert_eq!(s.start_blocking(), ServerAction::Serve);
    assert!(s.is_running());
    assert_eq!(s.stop(), Ok(ServerAction::Unblock));
    assert_eq!(s.stop(), Ok(ServerAction::Nothing));
}

#[test]
fn a_request_that_is_no_get_never_reaches_the_store() {
    let s = server();
    let post = InboundRequest {
        method: "POST".to_string(),
        url: "/https/example.com/widgets?id=7".to_string(),
        headers: Vec::new(),
    };
    assert_eq!(s.get_response(&post), Err(ProxyError::UnsupportedMethod));
    assert_eq!(s.get_response(&get("/nothing")), Err(ProxyError::TranslationError));
}

#[test]
fn a_miss_is_forwarded_recorded_and_then_replayed() {
    let mut s = server();
    let inbound = get("/https/example.com/widgets?id=7");
    let (request, consumer, provider) = match s.get_response(&inbound).unwrap() {
        Reply::Forward(request, consumer, provider) => (request, consumer, provider),
        other => panic!("unexpected reply {:?}", other),
    };
    assert_eq!(request.path, "https://example.com/widgets?id=7");
    assert_eq!(consumer, "consumer");
    assert_eq!(provider, "example.com");
    let upstream = UpstreamResponse {
        status: 200,
        headers: pairs(&[("content-type", "application/json"), ("content-length", "8")]),
        body: b"{\"id\":7}".to_vec(),
    };
    let key = (consumer, provider);
    let recorded = s.response_when_no_interaction(&request, &key, &upstream).unwrap();
    assert_eq!(recorded.response.status, 200);
    assert_eq!(recorded.response.body, b"{\"id\":7}".to_vec());
    assert_eq!(recorded.path.folder, "/tmp/pacts");
    assert_eq!(recorded.path.file_name, "consumer-example.com.json");
    assert_eq!(recorded.pact.consumer, "consumer");
    assert_eq!(recorded.pact.provider, "example.com");
    assert_eq!(recorded.pact.interactions.len(), 1);
    assert_eq!(recorded.pact.interactions[0].description, "https://example.com/widgets?id=7");
    match s.get_response(&inbound).unwrap() {
        Reply::Replay(wire) => {
            assert_eq!(wire, recorded.response);
            assert_eq!(wire.status, 200);
            assert_eq!(wire.body, b"{\"id\":7}".to_vec());
        }
        other => panic!("unexpected reply {:?}", other),
    }
    match s.get_response(&get("/https/example.com/widgets?id=8")).unwrap() {
        Reply::Forward(request, _, _) => assert_eq!(request.path, "https://example.com/widgets?id=8"),
        other => panic!("unexpected reply {:?}", other),
    }
}

#[test]
fn an_answer_that_cannot_be_normalised_is_not_recorded() {
    let mut s = server();
    let inbound = get("/https/example.com/widgets");
    let (request, consumer, provider) = match s.get_response(&inbound).unwrap() {
        Reply::Forward(request, consumer, provider) => (request, consumer, provider),
        other => panic!("unexpected reply {:?}", other),
    };
    let upstream = UpstreamResponse {
        status: 200,
        headers: pairs(&[("content-type", "application/json")]),
        body: b"oops".to_vec(),
    };
    let key = (consumer, provider);
    assert_eq!(
        s.response_when_no_interaction(&request, &key, &upstream),
        Err(ProxyError::SerializationError)
    );
    assert!(matches!(s.get_response(&inbound), Ok(Reply::Forward(_, _, _))));
}

#[test]
fn free_function_decides_as_the_server_does() {
    let store = pact_proxy::pacts::Pacts::load(Vec::new(), "f".to_string());
    assert!(matches!(get_response(&store, &get("/http/h.test/x")), Ok(Reply::Forward(_, _, _))));
}
