use webview_sessions::storage::{
    is_transient_id, normalize_url, resolve_storage_key, storage_key_from_host, store_identifier,
};

#[test]
fn stable_id_is_its_own_key() {
    assert_eq!(resolve_storage_key("chatgpt", "https://chat.openai.com"), "chatgpt");
    assert_eq!(resolve_storage_key("chatgpt", "not a url"), "chatgpt");
}

#[test]
fn transient_id_keyed_by_host() {
    assert_eq!(resolve_storage_key("tmp-1", "https://example.com/x"), "url-example.com");
}

#[test]
fn transient_id_without_scheme() {
    assert_eq!(resolve_storage_key("tmp-7", "example.org/path"), "url-example.org");
}

#[test]
fn transient_id_with_bad_url() {
    assert_eq!(resolve_storage_key("tmp-1", "not a url"), "url-tmp");
}

#[test]
fn transient_ids_share_partition_per_host() {
    let a = resolve_storage_key("tmp-1", "https://docs.rs/a");
    let b = resolve_storage_key("tmp-2", "http://docs.rs/b?c=d");
    let c = resolve_storage_key("tmp-3", "https://crates.io/");
    assert_eq!(a, b);
    assert_ne!(a, c);
}

#[test]
fn key_from_given_host() {
    assert_eq!(storage_key_from_host("tmp-x", Some("a.b".to_string())), "url-a.b");
    assert_eq!(storage_key_from_host("tmp-x", None), "url-tmp");
    assert_eq!(storage_key_from_host("gemini", Some("a.b".to_string())), "gemini");
}

#[test]
fn transient_prefix() {
    assert!(is_transient_id("tmp-1"));
    assert!(!is_transient_id("tmp"));
    assert!(!is_transient_id("chatgpt"));
}

#[test]
fn normalizing_urls() {
    assert_eq!(normalize_url("example.com"), "https://example.com");
    assert_eq!(normalize_url("http://example.com"), "http://example.com");
    assert_eq!(normalize_url("https://example.com"), "https://example.com");
}

#[test]
fn store_identifier_short_key() {
    let id = store_identifier("chatgpt");
    assert_eq!(
        id,
        [b'c', b'h', b'a', b't', b'g', b'p', 0x44, 0, 0x80, 0, 0, 0, 0, 0, 0, 0]
    );
}

#[test]
fn store_identifier_long_key() {
    let id = store_identifier("url-example.com.longer");
    let mut want = *b"url-example.com.";
    want[6] = (want[6] & 0x0f) | 0x40;
    want[8] = (want[8] & 0x3f) | 0x80;
    assert_eq!(id, want);
    assert_eq!(id[6] >> 4, 4);
    assert_eq!(id[8] >> 6, 2);
}
