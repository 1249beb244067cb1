use shortener::InsertError;
use shortener::ShortCode;
use shortener::UrlExistsRequest;
use shortener::UrlStore;
use shortener::shorten_url;

#[test]
fn insert_then_lookup_round_trips_the_url() {
    let mut store = UrlStore::new();
    let request = UrlExistsRequest {
        url: String::from("https://example.com/some/very/long/path?q=1"),
        discord_id: Some(String::from("42")),
    };
    let ShortCode { code } = shorten_url(&mut store, request).expect("empty store must accept");
    let record = store.get_by_code(&code).expect("the code just returned must resolve");
    assert_eq!(record.original_url, "https://example.com/some/very/long/path?q=1");
    assert_eq!(record.short_code, code);
    assert_eq!(record.discord_id, Some(String::from("42")));
}

#[test]
fn duplicate_code_is_a_uniqueness_violation() {
    let mut store = UrlStore::new();
    let first = store.insert(
        None,
        String::from("abcDEF123456"),
        String::from("https://example.com/a"),
    );
    assert!(first.is_ok());
    let second = store.insert(
        Some(String::from("7")),
        String::from("abcDEF123456"),
        String::from("https://example.com/b"),
    );
    assert!(matches!(second, Err(InsertError::UniquenessViolation)));
    // The losing insert must not overwrite the winner.
    let record = store.get_by_code(&String::from("abcDEF123456")).unwrap();
    assert_eq!(record.original_url, "https://example.com/a");
    assert_eq!(record.discord_id, None);
}

#[test]
fn delete_is_terminal() {
    let mut store = UrlStore::new();
    store
        .insert(None, String::from("Xx0Yy1Zz2Ww3"), String::from("https://example.com"))
        .unwrap();
    let code = String::from("Xx0Yy1Zz2Ww3");
    assert_eq!(store.delete_by_code(&code), 1);
    assert!(store.get_by_code(&code).is_none());
    assert_eq!(store.delete_by_code(&code), 0);
    assert!(!store.exists_by_code(&code));
}

#[test]
fn delete_of_unknown_code_affects_nothing() {
    let mut store = UrlStore::new();
    store
        .insert(None, String::from("keepMe000000"), String::from("https://example.com"))
        .unwrap();
    assert_eq!(store.delete_by_code(&String::from("missing00000")), 0);
    assert!(store.exists_by_code(&String::from("keepMe000000")));
}

#[test]
fn owner_listing_returns_exactly_that_owners_records() {
    let mut store = UrlStore::new();
    let owner = String::from("42");
    let other = String::from("7");
    for (code, url) in [
        ("AAAAAAAAAAAA", "https://example.com/1"),
        ("BBBBBBBBBBBB", "https://example.com/2"),
        ("CCCCCCCCCCCC", "https://example.com/3"),
    ] {
        store
            .insert(Some(owner.clone()), String::from(code), String::from(url))
            .unwrap();
    }
    store
        .insert(Some(other.clone()), String::from("DDDDDDDDDDDD"), String::from("https://example.com/4"))
        .unwrap();

    let listed = store.list_by_owner(&owner);
    let mut codes: Vec<String> = listed.iter().map(|r| r.short_code.clone()).collect();
    codes.sort();
    assert_eq!(codes, vec![
        String::from("AAAAAAAAAAAA"),
        String::from("BBBBBBBBBBBB"),
        String::from("CCCCCCCCCCCC"),
    ]);
    for record in &listed {
        assert_eq!(record.discord_id, Some(owner.clone()));
    }
    // An owner with no records gets an empty listing; the HTTP layer is
    // what turns that into a not-found report.
    assert!(store.list_by_owner(&String::from("99")).is_empty());
}

#[test]
fn anonymous_records_belong_to_no_owner() {
    let mut store = UrlStore::new();
    store
        .insert(None, String::from("anonCode0000"), String::from("https://example.com"))
        .unwrap();
    assert!(store.list_by_owner(&String::from("42")).is_empty());
}

#[test]
fn store_stamps_records_in_insertion_order() {
    let mut store = UrlStore::new();
    store
        .insert(None, String::from("first0000000"), String::from("https://example.com/1"))
        .unwrap();
    store
        .insert(None, String::from("second000000"), String::from("https://example.com/2"))
        .unwrap();
    let first = store.get_by_code(&String::from("first0000000")).unwrap();
    let second = store.get_by_code(&String::from("second000000")).unwrap();
    assert_eq!(first.created_at, 0);
    assert_eq!(second.created_at, 1);
}

#[test]
fn exists_by_code_reflects_committed_state() {
    let mut store = UrlStore::new();
    let code = String::from("liveCode0000");
    assert!(!store.exists_by_code(&code));
    store
        .insert(None, code.clone(), String::from("https://example.com"))
        .unwrap();
    assert!(store.exists_by_code(&code));
}
