//! The request signer: SHA-256 payload and request digests, the fixed-layout
//! canonical request, the string to sign, the HMAC-SHA256 signature, and the
//! authorization header. The digests come from outside crates behind trusted
//! wrappers; everything assembled from them is verified, so a signature is a
//! function of exactly (method, host, path, query, body, timestamp, secret
//! key).

use vstd::prelude::*;
use vstd::string::StringExecFns;
use vstd::string::StringSliceAdditionalSpecFns;
use vstd::utf8::encode_utf8;

use hmac::Mac;
use sha2::Digest;

use crate::canonical::canonicalize_path;
use crate::canonical::canonicalize_query;
use crate::canonical::spec_canonical_path_chars;
use crate::canonical::spec_canonical_query_chars;
use crate::canonical::spec_first_char_index;
use crate::canonical::split_path_query;
use crate::credentials::Credentials;
use crate::strutil::ascii_upper;
use crate::strutil::spec_ascii_upper;

verus! {

/// What SHA-256 returns; a function of the input bytes alone.
pub uninterp spec fn sha256_of(data: Seq<u8>) -> Seq<u8>;

/// Relies on sha2::Sha256: a 32-byte digest that depends on the input bytes
/// alone.
#[verifier::external_body]
fn sha256_digest(data: &[u8]) -> (r: Vec<u8>)
    ensures
        r@ == sha256_of(data@),
        r@.len() == 32,
{
    let mut hasher = sha2::Sha256::new();
    hasher.update(data);
    hasher.finalize().to_vec()
}

/// What HMAC-SHA256 returns; a function of key and message alone.
pub uninterp spec fn hmac_sha256_of(key: Seq<u8>, data: Seq<u8>) -> Seq<u8>;

/// Relies on hmac::Hmac over sha2::Sha256: a 32-byte tag that depends on key
/// and message alone. HMAC accepts keys of any length, so the constructor
/// cannot fail.
#[verifier::external_body]
fn hmac_sha256(key: &[u8], data: &[u8]) -> (r: Vec<u8>)
    ensures
        r@ == hmac_sha256_of(key@, data@),
        r@.len() == 32,
{
    let mut mac = <hmac::Hmac<sha2::Sha256> as Mac>::new_from_slice(key).expect(
        "HMAC accepts keys of any length",
    );
    mac.update(data);
    mac.finalize().into_bytes().to_vec()
}

/// The lower-case hex digit for a value below 16.
pub open spec fn spec_hex_lower_digit(n: u8) -> char
    recommends
        n < 16,
{
    if n < 10 {
        ((48 + n) as u8) as char
    } else {
        ((87 + n) as u8) as char
    }
}

/// Lower-case hex encoding: two digits per byte, in order.
pub open spec fn spec_hex_lower(data: Seq<u8>) -> Seq<char>
    decreases data.len(),
{
    if data.len() == 0 {
        Seq::empty()
    } else {
        seq![spec_hex_lower_digit(data[0] / 16), spec_hex_lower_digit(data[0] % 16)]
            + spec_hex_lower(data.drop_first())
    }
}

/// Relies on hex::encode: the lower-case hex digits of the bytes, in order,
/// exactly as [`spec_hex_lower`] states.
#[verifier::external_body]
fn hex_encode(data: &[u8]) -> (r: String)
    ensures
        r@ == spec_hex_lower(data@),
{
    hex::encode(data)
}

/// The hex SHA-256 of a payload; an absent body hashes as the empty string.
pub open spec fn spec_payload_hash(body: Seq<u8>) -> Seq<char> {
    spec_hex_lower(sha256_of(body))
}

/// Hex-encoded SHA-256 of the raw payload bytes.
pub fn payload_hash_hex(body: &[u8]) -> (r: String)
    ensures
        r@ == spec_payload_hash(body@),
{
    let digest = sha256_digest(body);
    hex_encode(digest.as_slice())
}

/// The canonical request: a fixed layout of method, canonical path and
/// query, the two signed headers, the signed header names, and the payload
/// hash, joined by newlines.
pub open spec fn spec_canonical_request(
    method: Seq<char>,
    canonical_path: Seq<char>,
    canonical_query: Seq<char>,
    host: Seq<char>,
    timestamp: Seq<char>,
    payload_hash: Seq<char>,
) -> Seq<char> {
    spec_ascii_upper(method) + "\n"@ + canonical_path + "\n"@ + canonical_query + "\n"@ + "host:"@
        + host + "\n"@ + "x-sdk-date:"@ + timestamp + "\n"@ + "\n"@ + "host;x-sdk-date"@ + "\n"@
        + payload_hash
}

/// Assembles the canonical request for the signing scheme.
pub fn build_canonical_request(
    method: &str,
    canonical_path: &str,
    canonical_query: &str,
    host: &str,
    timestamp: &str,
    payload_hash: &str,
) -> (r: String)
    ensures
        r@ == spec_canonical_request(
            method@,
            canonical_path@,
            canonical_query@,
            host@,
            timestamp@,
            payload_hash@,
        ),
{
    let mut out = ascii_upper(method);
    out.append("\n");
    out.append(canonical_path);
    out.append("\n");
    out.append(canonical_query);
    out.append("\n");
    out.append("host:");
    out.append(host);
    out.append("\n");
    out.append("x-sdk-date:");
    out.append(timestamp);
    out.append("\n");
    out.append("\n");
    out.append("host;x-sdk-date");
    out.append("\n");
    out.append(payload_hash);
    proof {
        assert(out@ =~= spec_canonical_request(
            method@,
            canonical_path@,
            canonical_query@,
            host@,
            timestamp@,
            payload_hash@,
        ));
    }
    out
}

/// The string that is actually signed: algorithm, timestamp, and the hex
/// SHA-256 of the canonical request.
pub open spec fn spec_string_to_sign(timestamp: Seq<char>, canonical_request: Seq<char>) -> Seq<
    char,
> {
    "SDK-HMAC-SHA256"@ + "\n"@ + timestamp + "\n"@ + spec_hex_lower(
        sha256_of(encode_utf8(canonical_request)),
    )
}

pub fn string_to_sign(timestamp: &str, canonical_request: &str) -> (r: String)
    ensures
        r@ == spec_string_to_sign(timestamp@, canonical_request@),
{
    let digest = sha256_digest(canonical_request.as_bytes());
    let digest_hex = hex_encode(digest.as_slice());
    let mut out = String::new();
    out.append("SDK-HMAC-SHA256");
    out.append("\n");
    out.append(timestamp);
    out.append("\n");
    out.append(digest_hex.as_str());
    proof {
        assert(out@ =~= spec_string_to_sign(timestamp@, canonical_request@));
    }
    out
}

/// The hex HMAC-SHA256 signature, keyed by the raw secret key bytes.
pub open spec fn spec_signature(secret_key: Seq<char>, string_to_sign: Seq<char>) -> Seq<char> {
    spec_hex_lower(hmac_sha256_of(encode_utf8(secret_key), encode_utf8(string_to_sign)))
}

pub fn sign(secret_key: &str, sts: &str) -> (r: String)
    ensures
        r@ == spec_signature(secret_key@, sts@),
{
    let tag = hmac_sha256(secret_key.as_bytes(), sts.as_bytes());
    hex_encode(tag.as_slice())
}

/// The authorization header: algorithm, access key, signed header names, and
/// the signature.
pub open spec fn spec_authorization_header(access_key: Seq<char>, signature: Seq<char>) -> Seq<
    char,
> {
    "SDK-HMAC-SHA256 Access="@ + access_key + ", SignedHeaders=host;x-sdk-date, Signature="@
        + signature
}

pub fn build_authorization_header(access_key: &str, signature: &str) -> (r: String)
    ensures
        r@ == spec_authorization_header(access_key@, signature@),
{
    let mut out = String::new();
    out.append("SDK-HMAC-SHA256 Access=");
    out.append(access_key);
    out.append(", SignedHeaders=host;x-sdk-date, Signature=");
    out.append(signature);
    proof {
        assert(out@ =~= spec_authorization_header(access_key@, signature@));
    }
    out
}

/// A raw path split at its first `?` into path and optional query.
pub open spec fn spec_split_path(path: Seq<char>) -> (Seq<char>, Option<Seq<char>>) {
    let i = spec_first_char_index(path, '?');
    if i < 0 {
        (path, None)
    } else {
        (path.take(i), Some(path.skip(i + 1)))
    }
}

/// The payload bytes a request body hashes: the body's UTF-8 bytes, or none.
pub open spec fn spec_body_bytes(body: Option<Seq<char>>) -> Seq<u8> {
    match body {
        None => Seq::empty(),
        Some(b) => encode_utf8(b),
    }
}

/// The signature of a whole request, as a function of exactly its method,
/// host, raw path (query included), body, timestamp and secret key.
pub open spec fn spec_request_signature(
    method: Seq<char>,
    host: Seq<char>,
    path: Seq<char>,
    body: Option<Seq<char>>,
    timestamp: Seq<char>,
    secret_key: Seq<char>,
) -> Seq<char> {
    let (raw_path, raw_query) = spec_split_path(path);
    let canonical_path = spec_canonical_path_chars(encode_utf8(raw_path));
    let canonical_query = match raw_query {
        None => Seq::<char>::empty(),
        Some(q) => spec_canonical_query_chars(encode_utf8(q)),
    };
    let request = spec_canonical_request(
        method,
        canonical_path,
        canonical_query,
        host,
        timestamp,
        spec_payload_hash(spec_body_bytes(body)),
    );
    spec_signature(secret_key, spec_string_to_sign(timestamp, request))
}

/// A signed request, ready to be turned into headers: everything the signing
/// scheme derives from one request.
pub struct SignedRequest {
    pub method: String,
    pub host: String,
    pub canonical_path: String,
    pub canonical_query: String,
    pub payload_sha256_hex: String,
    pub timestamp: String,
    pub signature_hex: String,
    pub authorization: String,
}

/// Canonicalizes, hashes and signs one request. The signature and the
/// authorization header are a function of the listed inputs alone, so equal
/// inputs always sign identically.
pub fn sign_request(
    credentials: &Credentials,
    method: &str,
    host: &str,
    path: &str,
    body: Option<&str>,
    timestamp: &str,
) -> (r: SignedRequest)
    ensures
        r.method@ == spec_ascii_upper(method@),
        r.host@ == host@,
        r.canonical_path@ == spec_canonical_path_chars(encode_utf8(spec_split_path(path@).0)),
        r.canonical_query@ == (match spec_split_path(path@).1 {
            None => Seq::<char>::empty(),
            Some(q) => spec_canonical_query_chars(encode_utf8(q)),
        }),
        r.payload_sha256_hex@ == spec_payload_hash(
            spec_body_bytes(
                match body {
                    None => None,
                    Some(b) => Some(b@),
                },
            ),
        ),
        r.timestamp@ == timestamp@,
        r.signature_hex@ == spec_request_signature(
            method@,
            host@,
            path@,
            match body {
                None => None,
                Some(b) => Some(b@),
            },
            timestamp@,
            credentials.secret_key@,
        ),
        r.authorization@ == spec_authorization_header(
            credentials.access_key@,
            spec_request_signature(
                method@,
                host@,
                path@,
                match body {
                    None => None,
                    Some(b) => Some(b@),
                },
                timestamp@,
                credentials.secret_key@,
            ),
        ),
{
    let (raw_path, raw_query) = split_path_query(path);
    let canonical_path = canonicalize_path(raw_path);
    let canonical_query = canonicalize_query(raw_query);
    let payload_sha256_hex = match body {
        None => payload_hash_hex("".as_bytes()),
        Some(b) => payload_hash_hex(b.as_bytes()),
    };
    proof {
        reveal_strlit("");
        assert(""@ =~= Seq::<char>::empty());
        assert(encode_utf8(Seq::<char>::empty()) =~= Seq::<u8>::empty());
    }
    let request = build_canonical_request(
        method,
        canonical_path.as_str(),
        canonical_query.as_str(),
        host,
        timestamp,
        payload_sha256_hex.as_str(),
    );
    let sts = string_to_sign(timestamp, request.as_str());
    let signature_hex = sign(credentials.secret_key.as_str(), sts.as_str());
    let authorization = build_authorization_header(
        credentials.access_key.as_str(),
        signature_hex.as_str(),
    );
    SignedRequest {
        method: ascii_upper(method),
        host: host.to_owned(),
        canonical_path,
        canonical_query,
        payload_sha256_hex,
        timestamp: timestamp.to_owned(),
        signature_hex,
        authorization,
    }
}

/// Signing is deterministic: two requests whose method, host, path, body,
/// timestamp and secret key agree always produce the same signature.
pub proof fn lemma_signing_deterministic(
    method1: Seq<char>,
    host1: Seq<char>,
    path1: Seq<char>,
    body1: Option<Seq<char>>,
    timestamp1: Seq<char>,
    secret_key1: Seq<char>,
    method2: Seq<char>,
    host2: Seq<char>,
    path2: Seq<char>,
    body2: Option<Seq<char>>,
    timestamp2: Seq<char>,
    secret_key2: Seq<char>,
)
    requires
        method1 == method2,
        host1 == host2,
        path1 == path2,
        body1 == body2,
        timestamp1 == timestamp2,
        secret_key1 == secret_key2,
    ensures
        spec_request_signature(method1, host1, path1, body1, timestamp1, secret_key1)
            == spec_request_signature(method2, host2, path2, body2, timestamp2, secret_key2),
{
}

/// Relies on chrono::Utc::now: the current UTC time in the signing scheme's
/// `YYYYMMDDTHHMMSSZ` shape. The result depends on the clock, so nothing is
/// promised of its value; signing takes it as an explicit argument.
#[verifier::external_body]
pub fn sdk_timestamp_now() -> String {
    chrono::Utc::now().format("%Y%m%dT%H%M%SZ").to_string()
}

} // verus!
