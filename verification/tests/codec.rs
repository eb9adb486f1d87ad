use wiki_core::address::decode;
use wiki_core::address::encode;
use wiki_core::address::relative_link;
use wiki_core::address::PageAddress;
use wiki_core::errors::WikiError;

fn addr(owner: &str, id: &str) -> PageAddress {
    PageAddress::new(String::from(owner), String::from(id))
}

#[test]
fn encode_builds_canonical_url() {
    let a = addr("alice", "page1");
    assert_eq!(encode(&a), "pubky://alice/pub/wiki.app/page1");
}

#[test]
fn round_trip_recovers_pair() {
    let a = addr("alice", "page1");
    let url = encode(&a);
    assert_eq!(decode(url.as_str()).unwrap(), a);
}

#[test]
fn round_trip_other_charset() {
    let a = addr("z9_X.user-42", "Notes_2024.md");
    let url = encode(&a);
    assert_eq!(decode(url.as_str()).unwrap(), a);
}

#[test]
fn decode_tolerates_trailing_slashes() {
    let got = decode("pubky://alice/pub/wiki.app/page1///").unwrap();
    assert_eq!(got, addr("alice", "page1"));
}

#[test]
fn decode_rejects_wrong_scheme() {
    assert_eq!(
        decode("https://alice/pub/wiki.app/page1"),
        Err(WikiError::MalformedAddress)
    );
}

#[test]
fn decode_rejects_missing_path() {
    assert_eq!(decode("pubky://alice"), Err(WikiError::MalformedAddress));
}

#[test]
fn decode_rejects_wrong_namespace() {
    assert_eq!(
        decode("pubky://alice/pub/other.app/page1"),
        Err(WikiError::MalformedAddress)
    );
}

#[test]
fn decode_rejects_empty_page_id() {
    assert_eq!(
        decode("pubky://alice/pub/wiki.app/"),
        Err(WikiError::MalformedAddress)
    );
}

#[test]
fn decode_rejects_empty_owner() {
    assert_eq!(
        decode("pubky:///pub/wiki.app/page1"),
        Err(WikiError::MalformedAddress)
    );
}

#[test]
fn decode_rejects_deeper_path() {
    assert_eq!(
        decode("pubky://alice/pub/wiki.app/page1/extra"),
        Err(WikiError::MalformedAddress)
    );
}

#[test]
fn decode_rejects_bad_charset() {
    assert_eq!(
        decode("pubky://al ice/pub/wiki.app/page1"),
        Err(WikiError::MalformedAddress)
    );
    assert_eq!(
        decode("pubky://alice/pub/wiki.app/pa?ge"),
        Err(WikiError::MalformedAddress)
    );
}

#[test]
fn relative_link_owner_and_page() {
    assert_eq!(
        relative_link("alice/pageX", "alice"),
        Some(addr("alice", "pageX"))
    );
}

#[test]
fn relative_link_external_is_none() {
    assert_eq!(relative_link("https://example.com", "alice"), None);
}

#[test]
fn relative_link_bare_page_uses_base_owner() {
    assert_eq!(relative_link("pageX", "bob"), Some(addr("bob", "pageX")));
}

#[test]
fn relative_link_deep_path_is_ambiguous() {
    assert_eq!(relative_link("a/b/c", "bob"), None);
}

#[test]
fn relative_link_full_url_decodes() {
    assert_eq!(
        relative_link("pubky://carol/pub/wiki.app/pg", "bob"),
        Some(addr("carol", "pg"))
    );
}

#[test]
fn relative_link_empty_is_none() {
    assert_eq!(relative_link("", "bob"), None);
}

#[test]
fn distinct_pairs_encode_differently() {
    assert_ne!(encode(&addr("alice", "p1")), encode(&addr("alice", "p2")));
    assert_ne!(encode(&addr("alice", "p1")), encode(&addr("bob", "p1")));
    assert_ne!(encode(&addr("ab", "c")), encode(&addr("a", "bc")));
}
