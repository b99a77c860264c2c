use hwc_core::canonical::canonicalize_path;
use hwc_core::canonical::canonicalize_query;
use hwc_core::canonical::encode_rfc3986;
use hwc_core::canonical::is_unreserved;
use hwc_core::canonical::percent_encode_byte;
use hwc_core::canonical::split_path_query;

#[test]
fn canonicalize_path_encodes_reserved_and_appends_trailing_slash() {
    assert_eq!(
        canonicalize_path("/v1/project id/cloudservers"),
        "/v1/project%20id/cloudservers/"
    );
}

#[test]
fn canonicalize_query_sorts_and_encodes_params() {
    let actual = canonicalize_query(Some("z=last&name=a b&a=first"));
    assert_eq!(actual, "a=first&name=a%20b&z=last");
}

#[test]
fn canonicalize_query_handles_missing_values() {
    let actual = canonicalize_query(Some("foo&bar=baz"));
    assert_eq!(actual, "bar=baz&foo=");
}

#[test]
fn canonicalize_path_empty_input_yields_root() {
    assert_eq!(canonicalize_path(""), "/");
}

#[test]
fn canonicalize_path_keeps_trailing_slash() {
    assert_eq!(canonicalize_path("/v1/x/"), "/v1/x/");
}

#[test]
fn canonicalize_path_output_is_wellformed_for_arbitrary_input() {
    // Every output ends with '/' and holds only unreserved bytes, '/' and
    // '%' groups, whatever the input bytes were.
    let samples = [
        "",
        "/",
        "a b?c",
        "/v3/auth/projects",
        "über/päth",
        "\u{1F680} rocket",
        "%already",
        "a&b=c",
    ];
    for sample in samples {
        let out = canonicalize_path(sample);
        assert!(out.ends_with('/'), "{out}");
        for b in out.bytes() {
            let ok = b.is_ascii_alphanumeric()
                || b == b'-'
                || b == b'.'
                || b == b'_'
                || b == b'~'
                || b == b'/'
                || b == b'%';
            assert!(ok, "byte {b} in {out}");
        }
    }
}

#[test]
fn canonicalize_path_percent_encodes_multibyte_characters_bytewise() {
    assert_eq!(canonicalize_path("/ä"), "/%C3%A4/");
}

#[test]
fn canonicalize_query_absent_is_empty() {
    assert_eq!(canonicalize_query(None), "");
}

#[test]
fn canonicalize_query_skips_empty_parts() {
    assert_eq!(canonicalize_query(Some("&&a=1&&")), "a=1");
}

#[test]
fn canonicalize_query_sorts_equal_names_by_value() {
    assert_eq!(canonicalize_query(Some("k=2&k=1")), "k=1&k=2");
}

#[test]
fn canonicalize_query_splits_on_first_equals_only() {
    assert_eq!(canonicalize_query(Some("a=b=c")), "a=b%3Dc");
}

#[test]
fn encode_rfc3986_encodes_slash_and_space() {
    assert_eq!(encode_rfc3986("a/b c"), "a%2Fb%20c");
    assert_eq!(encode_rfc3986("AZaz09-._~"), "AZaz09-._~");
}

#[test]
fn percent_encode_byte_uses_uppercase_hex() {
    assert_eq!(percent_encode_byte(0x20), "%20");
    assert_eq!(percent_encode_byte(0xFF), "%FF");
    assert_eq!(percent_encode_byte(0x0A), "%0A");
}

#[test]
fn is_unreserved_matches_the_documented_set() {
    assert!(is_unreserved(b'A'));
    assert!(is_unreserved(b'z'));
    assert!(is_unreserved(b'0'));
    assert!(is_unreserved(b'-'));
    assert!(is_unreserved(b'.'));
    assert!(is_unreserved(b'_'));
    assert!(is_unreserved(b'~'));
    assert!(!is_unreserved(b'/'));
    assert!(!is_unreserved(b' '));
    assert!(!is_unreserved(b'%'));
}

#[test]
fn split_path_query_splits_at_first_question_mark() {
    let (path, query) = split_path_query("/v1/p/subnets?vpc_id=abc?x");
    assert_eq!(path, "/v1/p/subnets");
    assert_eq!(query, Some("vpc_id=abc?x"));

    let (path, query) = split_path_query("/v1/p/vpcs");
    assert_eq!(path, "/v1/p/vpcs");
    assert_eq!(query, None);
}
