use url_shortener::error::ServiceError;
use url_shortener::store::Store;
use url_shortener::{help, short_link};

#[test]
fn shorten_then_retrieve_round_trips() {
    let mut store = Store::new();
    let id = store.shorten("https://example.com/page?x=1").unwrap();
    assert_eq!(id.chars().count(), 6);
    let url = store.retrieve(&id).unwrap();
    assert_eq!(url, "https://example.com/page?x=1");
    let meta = store.get_metadata(&id).unwrap();
    assert_eq!(meta.id, id);
    assert_eq!(meta.url, "https://example.com/page?x=1");
    assert_eq!(meta.hits, 1);
}

#[test]
fn malformed_input_is_rejected_with_invalid_url() {
    let mut store = Store::new();
    let res = store.shorten("not a url");
    assert!(matches!(res, Err(ServiceError::InvalidURL(_))));
    let res = store.shorten("");
    assert!(matches!(res, Err(ServiceError::InvalidURL(_))));
    let res = store.shorten("/relative/path");
    match res {
        Err(ServiceError::InvalidURL(msg)) => assert!(!msg.is_empty()),
        other => panic!("expected InvalidURL, got {:?}", other),
    }
}

#[test]
fn unknown_identifier_is_not_found() {
    let mut store = Store::new();
    assert!(matches!(store.retrieve("zzzzzz"), Err(ServiceError::NotFound)));
    assert!(matches!(
        store.get_metadata("zzzzzz"),
        Err(ServiceError::NotFound)
    ));
}

#[test]
fn sequential_resolutions_accumulate_hits() {
    let mut store = Store::new();
    let id = store.shorten("https://example.com/a").unwrap();
    assert_eq!(store.get_metadata(&id).unwrap().hits, 0);
    for _ in 0..5 {
        store.retrieve(&id).unwrap();
    }
    let meta = store.get_metadata(&id).unwrap();
    assert_eq!(meta.hits, 5);
    assert_eq!(meta.url, "https://example.com/a");
}

#[test]
fn first_access_creates_metadata_with_one_hit() {
    let mut store = Store::new();
    let rec = store.update_metadata("abc123", "https://example.com/fresh");
    assert_eq!(rec.id, "abc123");
    assert_eq!(rec.url, "https://example.com/fresh");
    assert_eq!(rec.hits, 1);
    for _ in 0..3 {
        store.update_metadata("abc123", "https://example.com/fresh");
    }
    let meta = store.get_metadata("abc123").unwrap();
    assert_eq!(meta.hits, 4);
    assert_eq!(meta.url, "https://example.com/fresh");
}

#[test]
fn update_keeps_the_stored_url() {
    let mut store = Store::new();
    store.insert_pair("abc123", "https://example.com/original").unwrap();
    let rec = store.update_metadata("abc123", "https://example.com/other");
    assert_eq!(rec.url, "https://example.com/original");
    assert_eq!(rec.hits, 1);
}

#[test]
fn shortening_twice_yields_distinct_identifiers() {
    let mut store = Store::new();
    let id1 = store.shorten("https://example.com/same").unwrap();
    let id2 = store.shorten("https://example.com/same").unwrap();
    assert_ne!(id1, id2);
    assert_eq!(store.retrieve(&id1).unwrap(), "https://example.com/same");
    assert_eq!(store.retrieve(&id2).unwrap(), "https://example.com/same");
    assert_eq!(store.get_metadata(&id1).unwrap().hits, 1);
    assert_eq!(store.get_metadata(&id2).unwrap().hits, 1);
}

#[test]
fn identifiers_are_short_and_url_safe() {
    let mut store = Store::new();
    for _ in 0..8 {
        let id = store.shorten("https://example.com/b").unwrap();
        assert_eq!(id.chars().count(), 6);
        assert!(id
            .chars()
            .all(|c| c.is_ascii_alphanumeric() || c == '-' || c == '_'));
    }
}

#[test]
fn stored_urls_are_canonicalized() {
    let mut store = Store::new();
    let id = store.shorten("https://EXAMPLE.com").unwrap();
    assert_eq!(store.retrieve(&id).unwrap(), "https://example.com/");
}

#[test]
fn colliding_insert_fails_and_changes_nothing() {
    let mut store = Store::new();
    store.insert_pair("abc123", "https://example.com/first").unwrap();
    let res = store.insert_pair("abc123", "https://example.com/second");
    assert!(matches!(res, Err(ServiceError::InsertFailed)));
    assert!(matches!(store.retrieve("xyz789"), Err(ServiceError::NotFound)));
    assert_eq!(store.retrieve("abc123").unwrap(), "https://example.com/first");
    let meta = store.get_metadata("abc123").unwrap();
    assert_eq!(meta.url, "https://example.com/first");
    assert_eq!(meta.hits, 1);
}

#[test]
fn help_describes_the_routes() {
    let text = help();
    assert!(text.contains("/shorten"));
    assert!(text.contains("/:id"));
    assert!(text.contains("/metadata/:id"));
}

#[test]
fn short_link_joins_base_and_identifier() {
    assert_eq!(
        short_link("https://sho.rt", "ab12Cd"),
        "https://sho.rt/ab12Cd"
    );
}
