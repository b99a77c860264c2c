use hwc_core::credentials::Credentials;
use hwc_core::credentials::CredentialsSource;
use hwc_core::credentials::credentials_source_label;
use hwc_core::credentials::looks_like_header;
use hwc_core::credentials::resolve_credentials;
use hwc_core::credentials::CredentialsInput;
use hwc_core::signer::build_authorization_header;
use hwc_core::signer::build_canonical_request;
use hwc_core::signer::payload_hash_hex;
use hwc_core::signer::sdk_timestamp_now;
use hwc_core::signer::sign;
use hwc_core::signer::sign_request;
use hwc_core::signer::string_to_sign;

#[test]
fn payload_hash_of_empty_body_is_the_known_sha256() {
    assert_eq!(
        payload_hash_hex(b""),
        "e3b0c44298fc1c149afbf4c8996fb92427ae41e4649b934ca495991b7852b855"
    );
}

#[test]
fn payload_hash_of_abc_is_the_known_sha256() {
    assert_eq!(
        payload_hash_hex(b"abc"),
        "ba7816bf8f01cfea414140de5dae2223b00361a396177a9cb410ff61f20015ad"
    );
}

#[test]
fn sign_matches_the_published_hmac_sha256_vector() {
    // RFC 4231 test case 2.
    assert_eq!(
        sign("Jefe", "what do ya want for nothing?"),
        "5bdcc146bf60754e6a042426089575c75a003f089d2739839dec58b964ec3843"
    );
}

#[test]
fn canonical_request_has_the_fixed_layout() {
    let request = build_canonical_request(
        "get",
        "/v1/p/cloudservers/",
        "a=1",
        "ecs.r.myhuaweicloud.com",
        "20240101T000000Z",
        "abc123",
    );
    assert_eq!(
        request,
        "GET\n/v1/p/cloudservers/\na=1\nhost:ecs.r.myhuaweicloud.com\nx-sdk-date:20240101T000000Z\n\nhost;x-sdk-date\nabc123"
    );
}

#[test]
fn string_to_sign_names_the_algorithm_and_hashes_the_request() {
    let sts = string_to_sign("20240101T000000Z", "abc");
    assert_eq!(
        sts,
        "SDK-HMAC-SHA256\n20240101T000000Z\nba7816bf8f01cfea414140de5dae2223b00361a396177a9cb410ff61f20015ad"
    );
}

#[test]
fn authorization_header_has_the_documented_shape() {
    assert_eq!(
        build_authorization_header("AKIA", "f00d"),
        "SDK-HMAC-SHA256 Access=AKIA, SignedHeaders=host;x-sdk-date, Signature=f00d"
    );
}

#[test]
fn signing_is_deterministic_for_identical_inputs() {
    let credentials = Credentials::new("ak".to_string(), "sk".to_string());
    let a = sign_request(
        &credentials,
        "GET",
        "ecs.r.myhuaweicloud.com",
        "/v1/p/cloudservers?limit=10&marker=m",
        None,
        "20240101T000000Z",
    );
    let b = sign_request(
        &credentials,
        "GET",
        "ecs.r.myhuaweicloud.com",
        "/v1/p/cloudservers?limit=10&marker=m",
        None,
        "20240101T000000Z",
    );
    assert_eq!(a.signature_hex, b.signature_hex);
    assert_eq!(a.authorization, b.authorization);
}

#[test]
fn swapped_query_order_canonicalizes_to_the_same_signature() {
    let credentials = Credentials::new("ak".to_string(), "sk".to_string());
    let a = sign_request(
        &credentials,
        "GET",
        "h",
        "/v1/p/x?b=2&a=1",
        None,
        "20240101T000000Z",
    );
    let b = sign_request(
        &credentials,
        "GET",
        "h",
        "/v1/p/x?a=1&b=2",
        None,
        "20240101T000000Z",
    );
    assert_eq!(a.canonical_query, "a=1&b=2");
    assert_eq!(a.signature_hex, b.signature_hex);
}

#[test]
fn changing_one_input_changes_the_signature() {
    let credentials = Credentials::new("ak".to_string(), "sk".to_string());
    let other_credentials = Credentials::new("ak".to_string(), "sk2".to_string());
    let base = sign_request(&credentials, "GET", "h", "/v1/p/x", None, "20240101T000000Z");
    let changed_method =
        sign_request(&credentials, "POST", "h", "/v1/p/x", None, "20240101T000000Z");
    let changed_host = sign_request(&credentials, "GET", "h2", "/v1/p/x", None, "20240101T000000Z");
    let changed_path =
        sign_request(&credentials, "GET", "h", "/v1/p/y", None, "20240101T000000Z");
    let changed_body =
        sign_request(&credentials, "GET", "h", "/v1/p/x", Some("{}"), "20240101T000000Z");
    let changed_time =
        sign_request(&credentials, "GET", "h", "/v1/p/x", None, "20240101T000001Z");
    let changed_key =
        sign_request(&other_credentials, "GET", "h", "/v1/p/x", None, "20240101T000000Z");
    assert_ne!(base.signature_hex, changed_method.signature_hex);
    assert_ne!(base.signature_hex, changed_host.signature_hex);
    assert_ne!(base.signature_hex, changed_path.signature_hex);
    assert_ne!(base.signature_hex, changed_body.signature_hex);
    assert_ne!(base.signature_hex, changed_time.signature_hex);
    assert_ne!(base.signature_hex, changed_key.signature_hex);
}

#[test]
fn sign_request_fills_every_field() {
    let credentials = Credentials::new("AK".to_string(), "SK".to_string());
    let signed = sign_request(
        &credentials,
        "post",
        "vpc.r.myhuaweicloud.com",
        "/v1/p id/x?b&a=1",
        Some("{\"k\":1}"),
        "20240101T000000Z",
    );
    assert_eq!(signed.method, "POST");
    assert_eq!(signed.host, "vpc.r.myhuaweicloud.com");
    assert_eq!(signed.canonical_path, "/v1/p%20id/x/");
    assert_eq!(signed.canonical_query, "a=1&b=");
    assert_eq!(signed.timestamp, "20240101T000000Z");
    assert_eq!(signed.payload_sha256_hex.len(), 64);
    assert_eq!(signed.signature_hex.len(), 64);
    assert!(signed
        .authorization
        .starts_with("SDK-HMAC-SHA256 Access=AK, SignedHeaders=host;x-sdk-date, Signature="));
    assert!(signed.authorization.ends_with(&signed.signature_hex));
}

#[test]
fn sdk_timestamp_has_the_compact_utc_shape() {
    let ts = sdk_timestamp_now();
    assert_eq!(ts.len(), 16);
    assert_eq!(&ts[8..9], "T");
    assert!(ts.ends_with('Z'));
}

#[test]
fn resolve_credentials_requires_both_keys() {
    assert_eq!(
        resolve_credentials(None).err().unwrap(),
        "Access Key and Secret Key are required."
    );
    let blank = resolve_credentials(Some(CredentialsInput {
        access_key: "  ".to_string(),
        secret_key: "sk".to_string(),
    }));
    assert_eq!(blank.err().unwrap(), "Provide both Access Key and Secret Key.");
    let ok = resolve_credentials(Some(CredentialsInput {
        access_key: " ak ".to_string(),
        secret_key: " sk ".to_string(),
    }))
    .ok()
    .unwrap();
    assert_eq!(ok.0.access_key, "ak");
    assert_eq!(ok.0.secret_key, "sk");
    assert!(matches!(ok.1, CredentialsSource::Explicit));
}

#[test]
fn credentials_source_labels_are_stable() {
    assert_eq!(credentials_source_label(&CredentialsSource::Explicit), "explicit");
    assert_eq!(credentials_source_label(&CredentialsSource::Environment), "environment");
}

#[test]
fn looks_like_header_spots_column_names() {
    assert!(looks_like_header("Access Key Id"));
    assert!(looks_like_header("SECRET"));
    assert!(looks_like_header("ak"));
    assert!(looks_like_header("SK"));
    assert!(!looks_like_header("AKIAEXAMPLE"));
}
