use vstd::prelude::*;
use crate::text::{has_prefix, starts_with};
use vstd::string::StringSliceAdditionalSpecFns;

verus! {

/// What `url::Url::parse` makes of a string: `None` when it is not an absolute URL,
/// else `Some` of the URL's host as `Url::host_str` gives it (`None` for a URL
/// without a host).
pub uninterp spec fn parsed_host(s: Seq<char>) -> Option<Option<Seq<char>>>;

/// The view of a parsed host as the wrapper hands it out.
pub open spec fn host_view(r: Option<Option<String>>) -> Option<Option<Seq<char>>> {
    match r {
        Some(Some(h)) => Some(Some(h@)),
        Some(None) => Some(None),
        None => None,
    }
}

/// Relies on url::Url::parse, to tell whether `s` is an absolute URL, and on
/// url::Url::host_str, for that URL's host.
#[verifier::external_body]
pub(crate) fn parse_url_host(s: &str) -> (r: Option<Option<String>>)
    ensures
        host_view(r) == parsed_host(s@),
{
    url::Url::parse(s).ok().map(|u| u.host_str().map(|h| h.to_string()))
}

pub open spec fn http_prefix() -> Seq<char> {
    seq!['h', 't', 't', 'p', ':', '/', '/']
}

pub open spec fn https_prefix() -> Seq<char> {
    seq!['h', 't', 't', 'p', 's', ':', '/', '/']
}

/// Prefix of a transient platform id.
pub open spec fn transient_prefix() -> Seq<char> {
    seq!['t', 'm', 'p', '-']
}

/// Prefix of a storage key derived from a host.
pub open spec fn host_key_prefix() -> Seq<char> {
    seq!['u', 'r', 'l', '-']
}

/// Host used when a transient session's URL gives none.
pub open spec fn sentinel_host() -> Seq<char> {
    seq!['t', 'm', 'p']
}

/// `url` with `https://` in front, unless it already names http or https.
pub open spec fn normalized_url(url: Seq<char>) -> Seq<char> {
    if has_prefix(url, http_prefix()) || has_prefix(url, https_prefix()) {
        url
    } else {
        https_prefix() + url
    }
}

/// Ids that start with `tmp-` belong to transient sessions.
pub open spec fn is_transient(platform_id: Seq<char>) -> bool {
    has_prefix(platform_id, transient_prefix())
}

/// The host of a parse result: present only for a URL that parsed and has a host.
pub open spec fn host_of(parsed: Option<Option<Seq<char>>>) -> Option<Seq<char>> {
    match parsed {
        Some(Some(h)) => Some(h),
        _ => None,
    }
}

/// The storage key of a session, given the host of its URL: a stable id is its own
/// key; a transient one gets `url-` and the host, or `url-tmp` without a host.
pub open spec fn storage_key_spec(platform_id: Seq<char>, host: Option<Seq<char>>) -> Seq<char> {
    if is_transient(platform_id) {
        host_key_prefix() + match host {
            Some(h) => h,
            None => sentinel_host(),
        }
    } else {
        platform_id
    }
}

/// The storage key of a session for `platform_id` that opens `url`.
pub open spec fn resolved_key(platform_id: Seq<char>, url: Seq<char>) -> Seq<char> {
    storage_key_spec(platform_id, host_of(parsed_host(normalized_url(url))))
}

/// Puts `https://` in front of a URL that names no http or https scheme.
pub fn normalize_url(url: &str) -> (r: String)
    ensures
        r@ == normalized_url(url@),
{
    proof {
        reveal_strlit("http://");
        reveal_strlit("https://");
    }
    let plain = starts_with(url, "http://");
    let secure = starts_with(url, "https://");
    assert("http://"@ =~= http_prefix());
    assert("https://"@ =~= https_prefix());
    if plain || secure {
        String::from_str(url)
    } else {
        let mut r = String::from_str("https://");
        r.append(url);
        r
    }
}

/// Tells whether `platform_id` names a transient session.
pub fn is_transient_id(platform_id: &str) -> (r: bool)
    ensures
        r == is_transient(platform_id@),
{
    proof {
        reveal_strlit("tmp-");
    }
    assert("tmp-"@ =~= transient_prefix());
    starts_with(platform_id, "tmp-")
}

/// The storage key for `platform_id`, given the host of the session's URL.
pub fn storage_key_from_host(platform_id: &str, host: Option<String>) -> (r: String)
    ensures
        r@ == storage_key_spec(
            platform_id@,
            match host {
                Some(h) => Some(h@),
                None => None,
            },
        ),
{
    if is_transient_id(platform_id) {
        proof {
            reveal_strlit("url-");
            reveal_strlit("tmp");
        }
        let mut r = String::from_str("url-");
        match host {
            Some(h) => r.append(h.as_str()),
            None => r.append("tmp"),
        }
        assert(r@ =~= storage_key_spec(
            platform_id@,
            match host {
                Some(h) => Some(h@),
                None => None,
            },
        ));
        r
    } else {
        String::from_str(platform_id)
    }
}

/// The storage key for a session of `platform_id` that opens `url`: a stable id
/// keeps its own partition whatever the URL; a transient id shares one per host.
pub fn resolve_storage_key(platform_id: &str, url: &str) -> (r: String)
    ensures
        r@ == resolved_key(platform_id@, url@),
        !is_transient(platform_id@) ==> r@ == platform_id@,
{
    if is_transient_id(platform_id) {
        let normalized = normalize_url(url);
        let host = match parse_url_host(normalized.as_str()) {
            Some(Some(h)) => Some(h),
            _ => None,
        };
        storage_key_from_host(platform_id, host)
    } else {
        String::from_str(platform_id)
    }
}

/// The 16-byte store identifier of a storage key: its first 16 bytes, zero-padded,
/// with the version and variant bits of a random (v4) UUID.
pub open spec fn store_identifier_spec(key: Seq<u8>) -> Seq<u8> {
    Seq::new(
        16,
        |k: int|
            {
                let b: u8 = if k < key.len() { key[k] } else { 0 };
                if k == 6 {
                    (b & 0x0f) | 0x40
                } else if k == 8 {
                    (b & 0x3f) | 0x80
                } else {
                    b
                }
            },
    )
}

fn byte_or_zero(bytes: &Vec<u8>, k: usize) -> (r: u8)
    ensures
        r == if k < bytes@.len() { bytes@[k as int] } else { 0 },
{
    if k < bytes.len() { bytes[k] } else { 0 }
}

/// Derives the store identifier of a storage key.
pub fn store_identifier(key: &str) -> (r: [u8; 16])
    ensures
        r@ == store_identifier_spec(key.spec_bytes()),
{
    let bytes = key.as_bytes_vec();
    let r: [u8; 16] = [
        byte_or_zero(&bytes, 0),
        byte_or_zero(&bytes, 1),
        byte_or_zero(&bytes, 2),
        byte_or_zero(&bytes, 3),
        byte_or_zero(&bytes, 4),
        byte_or_zero(&bytes, 5),
        (byte_or_zero(&bytes, 6) & 0x0f) | 0x40,
        byte_or_zero(&bytes, 7),
        (byte_or_zero(&bytes, 8) & 0x3f) | 0x80,
        byte_or_zero(&bytes, 9),
        byte_or_zero(&bytes, 10),
        byte_or_zero(&bytes, 11),
        byte_or_zero(&bytes, 12),
        byte_or_zero(&bytes, 13),
        byte_or_zero(&bytes, 14),
        byte_or_zero(&bytes, 15),
    ];
    assert(r@ =~= store_identifier_spec(key.spec_bytes()));
    r
}

} // verus!
