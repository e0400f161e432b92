use pact_proxy::edit::{
    add_interaction_to_pact, derive_pact_file_path, find_pact, get_consumer_provider,
    make_interaction_index_map, pact_file_name, read_pacts, save_pact,
};
use pact_proxy::error::ProxyError;
use pact_proxy::index::InteractionIndex;
use pact_proxy::model::{HttpRequest, HttpResponse, Interaction, OptionalBody, Pact};
use pact_proxy::pacts::Pacts;

fn request(path: &str) -> HttpRequest {
    HttpRequest {
        method: "GET".to_string(),
        path: path.to_string(),
        query: None,
        headers: None,
        body: OptionalBody::Missing,
    }
}

fn response(status: u16, body: &str) -> HttpResponse {
    HttpResponse {
        status,
        headers: None,
        body: OptionalBody::Present(body.as_bytes().to_vec(), None),
    }
}

fn interaction(path: &str, status: u16) -> Interaction {
    Interaction {
        description: path.to_string(),
        request: request(path),
        response: response(status, "x"),
    }
}

fn empty_store() -> Pacts {
    Pacts::new(Vec::new(), Vec::new(), "/tmp/pacts".to_string())
}

#[test]
fn test_add_interaction_to_pact() {
    let pact_request = HttpRequest {
        method: "GET".to_string(),
        path: "/test".to_string(),
        query: None,
        headers: None,
        body: OptionalBody::Empty,
    };
    let pact_response = HttpResponse { status: 200, headers: None, body: OptionalBody::Missing };
    let mut pact = Pact {
        consumer: "consumer".to_string(),
        provider: "provider".to_string(),
        interactions: Vec::new(),
    };
    let mut interaction_index = InteractionIndex::new();
    let _ = add_interaction_to_pact(&pact_request, &pact_response, &mut pact, &mut interaction_index);
    assert_eq!(pact.interactions.len(), 1);
}

#[test]
fn added_interaction_is_described_by_the_path() {
    let mut pact = Pact {
        consumer: "consumer".to_string(),
        provider: "provider".to_string(),
        interactions: Vec::new(),
    };
    let mut index = InteractionIndex::new();
    let added = add_interaction_to_pact(&request("/a"), &response(200, "one"), &mut pact, &mut index);
    assert_eq!(added, Ok(()));
    assert_eq!(pact.interactions[0].description, "/a");
    assert_eq!(pact.interactions[0].request, request("/a"));
    assert_eq!(pact.interactions[0].response, response(200, "one"));
    assert_eq!(pact.consumer, "consumer");
    assert_eq!(pact.provider, "provider");
    assert_eq!(index.position("/a"), Some(0));
    assert_eq!(index.position("/b"), None);
}

#[test]
fn index_entries_point_at_their_interactions() {
    let mut pact = Pact {
        consumer: "consumer".to_string(),
        provider: "provider".to_string(),
        interactions: Vec::new(),
    };
    let mut index = InteractionIndex::new();
    for (i, path) in ["/a", "/b", "/c", "/b"].iter().enumerate() {
        let added =
            add_interaction_to_pact(&request(path), &response(200 + i as u16, "x"), &mut pact, &mut index);
        assert_eq!(added, Ok(()));
    }
    assert_eq!(index.len(), 3);
    assert_eq!(index.position("/a"), Some(0));
    assert_eq!(index.position("/b"), Some(3));
    assert_eq!(index.position("/c"), Some(2));
    for path in ["/a", "/b", "/c"] {
        let place = index.position(path).unwrap();
        assert_eq!(pact.interactions[place].description, path);
    }
}

#[test]
fn index_of_read_documents_agrees_with_them() {
    let pact = Pact {
        consumer: "consumer".to_string(),
        provider: "p".to_string(),
        interactions: vec![interaction("/a", 200), interaction("/b", 201), interaction("/a", 202)],
    };
    let indexes = make_interaction_index_map(&vec![pact]);
    assert_eq!(indexes.len(), 1);
    assert_eq!(indexes[0].position("/a"), Some(2));
    assert_eq!(indexes[0].position("/b"), Some(1));
    assert_eq!(indexes[0].position("/c"), None);
    let index = InteractionIndex::from_interactions(&Vec::new());
    assert_eq!(index.len(), 0);
}

#[test]
fn lookup_after_insert_returns_the_response() {
    let mut store = empty_store();
    let req = request("https://example.com/widgets?id=7");
    let resp = response(200, "{\"id\":7}");
    assert_eq!(store.add_interaction("consumer", "example.com", &req, &resp), Ok(()));
    let found = store.get_pact_response("consumer", "example.com", "https://example.com/widgets?id=7");
    assert_eq!(found, Some(response(200, "{\"id\":7}")));
    assert_eq!(store.len(), 1);
}

#[test]
fn lookup_misses_without_failing() {
    let mut store = empty_store();
    assert_eq!(store.get_pact_response("consumer", "nobody", "/x"), None);
    assert_eq!(store.add_interaction("consumer", "example.com", &request("/a"), &response(200, "a")), Ok(()));
    assert_eq!(store.get_pact_response("consumer", "nobody", "/a"), None);
    assert_eq!(store.get_pact_response("other", "example.com", "/a"), None);
    assert_eq!(store.get_pact_response("consumer", "example.com", "/b"), None);
    assert_eq!(store.get_pact_response("consumer", "example.com", "/a"), Some(response(200, "a")));
}

#[test]
fn insertion_keeps_one_document_per_key() {
    let mut store = empty_store();
    store.add_interaction("consumer", "one", &request("/a"), &response(200, "a")).unwrap();
    store.add_interaction("consumer", "two", &request("/a"), &response(201, "b")).unwrap();
    store.add_interaction("consumer", "one", &request("/b"), &response(202, "c")).unwrap();
    assert_eq!(store.len(), 2);
    let one = store.get_pact("consumer", "one").unwrap();
    assert_eq!(one.interactions.len(), 2);
    assert_eq!(one.interactions[0].description, "/a");
    assert_eq!(one.interactions[1].description, "/b");
    assert_eq!(store.get_pact_response("consumer", "one", "/a"), Some(response(200, "a")));
    assert_eq!(store.get_pact_response("consumer", "two", "/a"), Some(response(201, "b")));
    assert_eq!(store.get_pact_response("consumer", "one", "/b"), Some(response(202, "c")));
    assert_eq!(store.get_pact("consumer", "three"), None);
}

#[test]
fn a_description_recorded_again_gives_the_later_response() {
    let mut store = empty_store();
    store.add_interaction("consumer", "one", &request("/a"), &response(200, "old")).unwrap();
    store.add_interaction("consumer", "one", &request("/a"), &response(200, "new")).unwrap();
    assert_eq!(store.get_pact_response("consumer", "one", "/a"), Some(response(200, "new")));
    assert_eq!(store.get_pact("consumer", "one").unwrap().interactions.len(), 2);
}

#[test]
fn documents_are_keyed_by_what_they_name() {
    let first = Pact {
        consumer: "consumer".to_string(),
        provider: "one".to_string(),
        interactions: vec![interaction("/a", 200)],
    };
    let second = Pact {
        consumer: "consumer".to_string(),
        provider: "two".to_string(),
        interactions: vec![interaction("/b", 201)],
    };
    let again = Pact {
        consumer: "consumer".to_string(),
        provider: "one".to_string(),
        interactions: vec![interaction("/c", 202)],
    };
    let pacts = read_pacts(vec![first, second, again]);
    assert_eq!(pacts.len(), 2);
    assert_eq!(pacts[0].provider, "one");
    assert_eq!(pacts[0].interactions[0].description, "/c");
    assert_eq!(pacts[1].provider, "two");
    assert_eq!(find_pact(&pacts, "consumer", "two"), Some(1));
    assert_eq!(find_pact(&pacts, "consumer", "three"), None);
}

#[test]
fn loaded_store_answers_from_the_documents() {
    let pact = Pact {
        consumer: "consumer".to_string(),
        provider: "one".to_string(),
        interactions: vec![interaction("/a", 200), interaction("/b", 201)],
    };
    let store = Pacts::load(vec![pact], "folder".to_string());
    assert_eq!(store.get_folder(), "folder");
    assert_eq!(store.get_pact_response("consumer", "one", "/b"), Some(response(201, "x")));
    assert_eq!(store.get_pact_response("consumer", "one", "/c"), None);
}

#[test]
fn save_names_the_file_after_consumer_and_provider() {
    let mut store = empty_store();
    store.add_interaction("consumer", "example.com", &request("/a"), &response(200, "a")).unwrap();
    let (path, pact) = store.save_pact("consumer", "example.com").unwrap();
    assert_eq!(path.folder, "/tmp/pacts");
    assert_eq!(path.file_name, "consumer-example.com.json");
    assert_eq!(pact.interactions.len(), 1);
    assert_eq!(pact.interactions[0].description, "/a");
    assert_eq!(store.save_pact("consumer", "unknown"), Err(ProxyError::StoreIOError));
}

#[test]
fn file_path_is_derived_from_the_document() {
    let pact = Pact { consumer: "c".to_string(), provider: "p".to_string(), interactions: Vec::new() };
    let path = derive_pact_file_path("dir", &pact);
    assert_eq!(path.folder, "dir");
    assert_eq!(path.file_name, "c-p.json");
    assert_eq!(save_pact(&pact, "dir"), path);
    assert_eq!(pact_file_name("", ""), "-.json");
}

#[test]
fn key_is_the_fixed_consumer_and_the_target_host() {
    let key = get_consumer_provider(&request("https://example.com/widgets?id=7"));
    assert_eq!(key, Ok(("consumer".to_string(), "example.com".to_string())));
    assert_eq!(get_consumer_provider(&request("/test")), Err(ProxyError::TranslationError));
    assert_eq!(get_consumer_provider(&request("mailto:a@b.c")), Err(ProxyError::TranslationError));
}

#[test]
fn copies_are_equal_to_what_was_copied() {
    let pact = Pact {
        consumer: "consumer".to_string(),
        provider: "one".to_string(),
        interactions: vec![interaction("/a", 200), interaction("/b", 201)],
    };
    assert_eq!(pact.copy(), pact);
    assert_eq!(pact.interactions[0].copy(), pact.interactions[0]);
}

#[test]
fn the_store_index_points_at_the_last_recording() {
    let mut store = empty_store();
    assert_eq!(store.get_interaction_index("consumer", "one", "/a"), None);
    for (i, path) in ["/a", "/b", "/a", "/c"].iter().enumerate() {
        store.add_interaction("consumer", "one", &request(path), &response(200 + i as u16, "x")).unwrap();
        let pact = store.get_pact("consumer", "one").unwrap();
        for known in ["/a", "/b", "/c"] {
            if let Some(place) = store.get_interaction_index("consumer", "one", known) {
                assert_eq!(pact.interactions[place].description, known);
            }
        }
    }
    assert_eq!(store.get_interaction_index("consumer", "one", "/a"), Some(2));
    assert_eq!(store.get_interaction_index("consumer", "one", "/b"), Some(1));
    assert_eq!(store.get_interaction_index("consumer", "one", "/c"), Some(3));
    assert_eq!(store.get_interaction_index("consumer", "one", "/d"), None);
    assert_eq!(store.get_interaction_index("consumer", "two", "/a"), None);
}

#[test]
fn a_saved_document_loads_into_the_same_document() {
    let mut store = empty_store();
    store.add_interaction("consumer", "one", &request("/a"), &response(200, "a")).unwrap();
    store.add_interaction("consumer", "one", &request("/b"), &response(201, "b")).unwrap();
    store.add_interaction("consumer", "two", &request("/c"), &response(202, "c")).unwrap();
    let (_, one) = store.save_pact("consumer", "one").unwrap();
    let (_, two) = store.save_pact("consumer", "two").unwrap();
    let loaded = Pacts::load(vec![one.copy(), two.copy()], store.get_folder());
    assert_eq!(loaded.len(), 2);
    assert_eq!(loaded.get_pact("consumer", "one"), Some(one));
    assert_eq!(loaded.get_pact("consumer", "two"), Some(two));
    for (provider, path) in [("one", "/a"), ("one", "/b"), ("two", "/c"), ("two", "/a")] {
        assert_eq!(
            loaded.get_pact_response("consumer", provider, path),
            store.get_pact_response("consumer", provider, path)
        );
    }
}
