use massive_url::digest::digest_path;
use massive_url::error::UrlError;
use massive_url::service::create_link;
use massive_url::service::host_from_header;
use massive_url::service::resolve;
use massive_url::service::Response;
use massive_url::store::LinkStore;

#[test]
fn put_then_get_round_trips_exactly() {
    let destination = "https://example.com/some/page".to_string();
    let path = digest_path(&destination);
    let mut store = LinkStore::new();
    store.put(path.clone(), destination.clone());
    assert_eq!(store.get(&path), Some(destination));
}

#[test]
fn lookup_miss_is_not_found_not_an_error() {
    let store = LinkStore::new();
    let unused = "0".repeat(128);
    assert_eq!(store.get(&unused), None);
    assert_eq!(resolve(&store, &unused), Response::NotFound);
}

#[test]
fn lookup_is_exact_match_only() {
    let destination = "https://example.com".to_string();
    let path = digest_path(&destination);
    let mut store = LinkStore::new();
    store.put(path.clone(), destination);
    // No prefix matching, no case folding.
    assert_eq!(store.get(&path[..127]), None);
    assert_eq!(store.get(&path.to_uppercase()), None);
}

#[test]
fn existing_record_is_never_rebound() {
    let mut store = LinkStore::new();
    store.put("p".to_string(), "https://first".to_string());
    store.put("p".to_string(), "https://second".to_string());
    assert_eq!(store.get("p"), Some("https://first".to_string()));
}

#[test]
fn create_twice_is_idempotent() {
    let mut store = LinkStore::new();
    let first = create_link(&mut store, "https://example.com/page").unwrap();
    let second = create_link(&mut store, "https://example.com/page").unwrap();
    assert_eq!(first.path, second.path);
    assert_eq!(first.destination, second.destination);
}

#[test]
fn create_rejects_non_https() {
    let mut store = LinkStore::new();
    let r = create_link(&mut store, "javascript:alert(1)");
    assert_eq!(r.map(|l| l.path), Err(UrlError::NotHttps));
}

#[test]
fn end_to_end_upgrade_store_resolve() {
    let mut store = LinkStore::new();
    let link = create_link(&mut store, "http://example.com/page").unwrap();
    assert_eq!(link.destination, "https://example.com/page");
    assert_eq!(link.path, digest_path("https://example.com/page"));
    assert_eq!(link.id, None);
    match resolve(&store, &link.path) {
        Response::Redirect(d) => assert_eq!(d, "https://example.com/page"),
        Response::NotFound => panic!("stored path did not resolve"),
    }
}

#[test]
fn host_header_is_required() {
    assert_eq!(host_from_header(Some("sho.rt".to_string())), Ok("sho.rt".to_string()));
    assert_eq!(host_from_header(None), Err(UrlError::MissingHost));
}
