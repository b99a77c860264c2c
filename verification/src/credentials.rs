//! Access-key/secret-key credentials and their validation. Credential file
//! discovery and reading live outside this crate; what is here is the pair
//! itself and the boundary checks on caller-supplied keys.

use vstd::prelude::*;

use crate::strutil::spec_ascii_lower;
use crate::strutil::spec_contains_seq;
use crate::strutil::spec_trim;
use crate::strutil::ascii_lower;
use crate::strutil::str_contains;
use crate::strutil::str_eq;
use crate::strutil::trim_str;

verus! {

/// One pair of API credentials. Constructed per logical operation and never
/// logged.
pub struct Credentials {
    pub access_key: String,
    pub secret_key: String,
}

impl Credentials {
    pub fn new(access_key: String, secret_key: String) -> (r: Self)
        ensures
            r.access_key == access_key,
            r.secret_key == secret_key,
    {
        Self { access_key, secret_key }
    }
}

#[verifier::external_type_specification]
#[verifier::external_body]
pub struct ExPathBuf(std::path::PathBuf);

/// Where a pair of credentials came from.
pub enum CredentialsSource {
    Environment,
    File(std::path::PathBuf),
    Explicit,
}

/// A short label for a credentials source, for log lines.
pub fn credentials_source_label(source: &CredentialsSource) -> (r: String)
    ensures
        source is Environment ==> r@ == "environment"@,
        source is File ==> r@ == "file"@,
        source is Explicit ==> r@ == "explicit"@,
{
    match source {
        CredentialsSource::Environment => "environment".to_owned(),
        CredentialsSource::File(_) => "file".to_owned(),
        CredentialsSource::Explicit => "explicit".to_owned(),
    }
}

/// Credentials as the caller hands them in, before validation.
pub struct CredentialsInput {
    pub access_key: String,
    pub secret_key: String,
}

/// Requires explicit credentials for every call: both keys must be present
/// and non-blank; the keys are trimmed.
pub fn resolve_credentials(input: Option<CredentialsInput>) -> (r: Result<
    (Credentials, CredentialsSource),
    String,
>)
    ensures
        input is None ==> (r matches Err(e) && e@ == "Access Key and Secret Key are required."@),
        input matches Some(inp) ==> {
            let a = spec_trim(inp.access_key@);
            let s = spec_trim(inp.secret_key@);
            if a.len() == 0 || s.len() == 0 {
                r matches Err(e) && e@ == "Provide both Access Key and Secret Key."@
            } else {
                r matches Ok(ok) && ok.0.access_key@ == a && ok.0.secret_key@ == s
                    && ok.1 is Explicit
            }
        },
{
    let input = match input {
        None => {
            return Err("Access Key and Secret Key are required.".to_owned());
        },
        Some(input) => input,
    };
    let access_key = trim_str(input.access_key.as_str());
    let secret_key = trim_str(input.secret_key.as_str());
    if access_key.is_empty() || secret_key.is_empty() {
        return Err("Provide both Access Key and Secret Key.".to_owned());
    }
    Ok(
        (
            Credentials::new(access_key.to_owned(), secret_key.to_owned()),
            CredentialsSource::Explicit,
        ),
    )
}

/// Whether a credentials-file field looks like a column header rather than a
/// key: it mentions `access`, `secret` or `key id`, or is exactly `ak` or
/// `sk`, after ASCII case folding.
pub open spec fn spec_looks_like_header(value: Seq<char>) -> bool {
    let v = spec_ascii_lower(value);
    spec_contains_seq(v, "access"@) || spec_contains_seq(v, "secret"@) || spec_contains_seq(
        v,
        "key id"@,
    ) || v == "ak"@ || v == "sk"@
}

pub fn looks_like_header(value: &str) -> (r: bool)
    ensures
        r == spec_looks_like_header(value@),
{
    let v = ascii_lower(value);
    str_contains(v.as_str(), "access") || str_contains(v.as_str(), "secret") || str_contains(
        v.as_str(),
        "key id",
    ) || str_eq(v.as_str(), "ak") || str_eq(v.as_str(), "sk")
}

} // verus!
