//! Operation policy: input sanitization ranges for node pools and
//! bandwidth, the stop-type rule, the raw status-and-body result shapes, the
//! retry rule for deleting a NAT gateway's elastic IP, the detection of a
//! gateway answering that an endpoint version does not exist, and the
//! aggregation of object-storage totals over pages.

use vstd::prelude::*;
use vstd::string::StringExecFns;

use crate::strutil::spec_ascii_lower;
use crate::strutil::spec_ascii_upper;
use crate::strutil::spec_contains_seq;
use crate::strutil::spec_trim;
use crate::strutil::ascii_lower;
use crate::strutil::ascii_upper;
use crate::strutil::str_contains;
use crate::strutil::str_eq;
use crate::strutil::trim_str;
use crate::session::spec_clamp_u32;

verus! {

pub const CCE_NODE_POOL_INITIAL_COUNT_DEFAULT: u32 = 0;

pub const CCE_NODE_POOL_ROOT_VOLUME_SIZE_DEFAULT: u32 = 40;

pub const CCE_NODE_POOL_ROOT_VOLUME_SIZE_MIN: u32 = 40;

pub const CCE_NODE_POOL_ROOT_VOLUME_SIZE_MAX: u32 = 1024;

pub const CCE_NODE_POOL_DATA_VOLUME_SIZE_DEFAULT: u32 = 100;

pub const CCE_NODE_POOL_DATA_VOLUME_SIZE_MIN: u32 = 100;

pub const CCE_NODE_POOL_DATA_VOLUME_SIZE_MAX: u32 = 32768;

pub const CCE_NODE_POOL_MAX_PODS_MIN: u32 = 16;

pub const CCE_NODE_POOL_MAX_PODS_MAX: u32 = 256;

/// An absent initial node count defaults to zero; node pools may start
/// empty.
pub fn sanitize_cce_node_pool_initial_count(input: Option<u32>) -> (r: u32)
    ensures
        input matches Some(v) ==> r == v,
        input is None ==> r == CCE_NODE_POOL_INITIAL_COUNT_DEFAULT,
{
    match input {
        Some(v) => v,
        None => CCE_NODE_POOL_INITIAL_COUNT_DEFAULT,
    }
}

/// A root volume defaults to 40 GB and is clamped into 40..=1024.
pub fn sanitize_cce_node_pool_root_volume_size(input: Option<u32>) -> (r: u32)
    ensures
        r == spec_clamp_u32(
            match input {
                Some(v) => v,
                None => CCE_NODE_POOL_ROOT_VOLUME_SIZE_DEFAULT,
            },
            CCE_NODE_POOL_ROOT_VOLUME_SIZE_MIN,
            CCE_NODE_POOL_ROOT_VOLUME_SIZE_MAX,
        ),
{
    let v = match input {
        Some(v) => v,
        None => CCE_NODE_POOL_ROOT_VOLUME_SIZE_DEFAULT,
    };
    if v < CCE_NODE_POOL_ROOT_VOLUME_SIZE_MIN {
        CCE_NODE_POOL_ROOT_VOLUME_SIZE_MIN
    } else if v > CCE_NODE_POOL_ROOT_VOLUME_SIZE_MAX {
        CCE_NODE_POOL_ROOT_VOLUME_SIZE_MAX
    } else {
        v
    }
}

/// A data volume defaults to 100 GB and is clamped into 100..=32768.
pub fn sanitize_cce_node_pool_data_volume_size(input: Option<u32>) -> (r: u32)
    ensures
        r == spec_clamp_u32(
            match input {
                Some(v) => v,
                None => CCE_NODE_POOL_DATA_VOLUME_SIZE_DEFAULT,
            },
            CCE_NODE_POOL_DATA_VOLUME_SIZE_MIN,
            CCE_NODE_POOL_DATA_VOLUME_SIZE_MAX,
        ),
{
    let v = match input {
        Some(v) => v,
        None => CCE_NODE_POOL_DATA_VOLUME_SIZE_DEFAULT,
    };
    if v < CCE_NODE_POOL_DATA_VOLUME_SIZE_MIN {
        CCE_NODE_POOL_DATA_VOLUME_SIZE_MIN
    } else if v > CCE_NODE_POOL_DATA_VOLUME_SIZE_MAX {
        CCE_NODE_POOL_DATA_VOLUME_SIZE_MAX
    } else {
        v
    }
}

/// A pod cap, when given, is clamped into 16..=256; absent stays absent.
pub fn sanitize_cce_node_pool_max_pods(input: Option<u32>) -> (r: Option<u32>)
    ensures
        input is None ==> r is None,
        input matches Some(v) ==> r == Some(
            spec_clamp_u32(v, CCE_NODE_POOL_MAX_PODS_MIN, CCE_NODE_POOL_MAX_PODS_MAX),
        ),
{
    match input {
        None => None,
        Some(v) => {
            if v < CCE_NODE_POOL_MAX_PODS_MIN {
                Some(CCE_NODE_POOL_MAX_PODS_MIN)
            } else if v > CCE_NODE_POOL_MAX_PODS_MAX {
                Some(CCE_NODE_POOL_MAX_PODS_MAX)
            } else {
                Some(v)
            }
        },
    }
}

pub const DEFAULT_BANDWIDTH_SIZE: u32 = 100;

pub const MIN_BANDWIDTH_SIZE: u32 = 1;

pub const MAX_BANDWIDTH_SIZE: u32 = 300;

/// Resolves a requested elastic-IP bandwidth: it defaults to 100 Mbit/s, and
/// when an elastic IP is to be allocated it must lie in 1..=300.
pub fn validate_eip_bandwidth(allocate_eip: bool, requested: Option<u32>) -> (r: Result<
    u32,
    String,
>)
    ensures
        ({
            let size = match requested {
                Some(v) => v,
                None => DEFAULT_BANDWIDTH_SIZE,
            };
            if allocate_eip && !(MIN_BANDWIDTH_SIZE <= size <= MAX_BANDWIDTH_SIZE) {
                r matches Err(e) && e@
                    == "EIP bandwidth size must be between 1 and 300 Mbit/s for charge_mode=traffic."@
            } else {
                r matches Ok(v) && v == size
            }
        }),
{
    let size = match requested {
        Some(v) => v,
        None => DEFAULT_BANDWIDTH_SIZE,
    };
    if allocate_eip && !(MIN_BANDWIDTH_SIZE <= size && size <= MAX_BANDWIDTH_SIZE) {
        return Err(
            "EIP bandwidth size must be between 1 and 300 Mbit/s for charge_mode=traffic.".to_owned(),
        );
    }
    Ok(size)
}

/// The effective stop type for a server: the request, trimmed and
/// upper-cased, must be exactly `HARD`; everything else — including nothing —
/// stops softly.
pub fn effective_stop_type(stop_type: Option<&str>) -> (r: String)
    ensures
        ({
            let requested = match stop_type {
                None => Seq::<char>::empty(),
                Some(t) => spec_trim(t@),
            };
            let normalized = if requested.len() == 0 {
                spec_ascii_upper("SOFT"@)
            } else {
                spec_ascii_upper(requested)
            };
            if normalized == "HARD"@ {
                r@ == "HARD"@
            } else {
                r@ == "SOFT"@
            }
        }),
{
    let requested = match stop_type {
        None => ascii_upper("SOFT"),
        Some(t) => {
            let trimmed = trim_str(t);
            if trimmed.is_empty() {
                ascii_upper("SOFT")
            } else {
                ascii_upper(trimmed)
            }
        },
    };
    if str_eq(requested.as_str(), "HARD") {
        "HARD".to_owned()
    } else {
        "SOFT".to_owned()
    }
}

/// The raw outcome of one mutating operation: the status line, the numeric
/// code where the request reached the server, and the raw body.
pub struct DeleteOperationResult {
    pub status: String,
    pub status_code: Option<u16>,
    pub body: String,
}

/// An outcome for a request that got an HTTP answer.
pub fn operation_result(status_text: String, status_code: u16, body: String) -> (r:
    DeleteOperationResult)
    ensures
        r.status == status_text,
        r.status_code == Some(status_code),
        r.body == body,
{
    DeleteOperationResult { status: status_text, status_code: Some(status_code), body }
}

/// An outcome for a step that never got an HTTP answer: a label such as
/// `skipped` or `error`, no status code, and a description.
pub fn operation_error_result(status: &str, body: String) -> (r: DeleteOperationResult)
    ensures
        r.status@ == status@,
        r.status_code is None,
        r.body == body,
{
    DeleteOperationResult { status: status.to_owned(), status_code: None, body }
}

/// The raw outcome of one object-storage operation.
pub struct ObsOperationResult {
    pub status: String,
    pub status_code: u16,
    pub body: String,
}

pub fn obs_operation_result(status_text: String, status_code: u16, body: String) -> (r:
    ObsOperationResult)
    ensures
        r.status == status_text,
        r.status_code == status_code,
        r.body == body,
{
    ObsOperationResult { status: status_text, status_code, body }
}

/// The raw outcome of one container-orchestration operation.
pub struct CceOperationResult {
    pub status: String,
    pub status_code: u16,
    pub body: String,
}

pub fn cce_operation_result(status_text: String, status_code: u16, body: String) -> (r:
    CceOperationResult)
    ensures
        r.status == status_text,
        r.status_code == status_code,
        r.body == body,
{
    CceOperationResult { status: status_text, status_code, body }
}

/// Case-insensitive (ASCII) substring test, as the error-body checks use.
pub open spec fn spec_contains_ascii_ci(hay: Seq<char>, needle: Seq<char>) -> bool {
    spec_contains_seq(spec_ascii_lower(hay), spec_ascii_lower(needle))
}

fn contains_ascii_ci(hay: &str, needle: &str) -> (r: bool)
    ensures
        r == spec_contains_ascii_ci(hay@, needle@),
{
    let h = ascii_lower(hay);
    let n = ascii_lower(needle);
    str_contains(h.as_str(), n.as_str())
}

/// Whether an error body says the endpoint version does not exist: the
/// gateway's code `APIGW.0101`, or a message naming a method that was not
/// found. The caller hands in the body's error code (from `error_code` or
/// `code`) and its `error_msg` text.
pub fn is_api_method_not_found(error_code: &str, error_msg: Option<&str>) -> (r: bool)
    ensures
        r == (spec_ascii_upper(spec_trim(error_code@)) == "APIGW.0101"@ || (
        match error_msg {
            Some(m) => spec_contains_ascii_ci(m@, "method"@) && spec_contains_ascii_ci(
                m@,
                "not found"@,
            ),
            None => false,
        })),
{
    let code = ascii_upper(trim_str(error_code));
    if str_eq(code.as_str(), "APIGW.0101") {
        return true;
    }
    match error_msg {
        Some(m) => contains_ascii_ci(m, "method") && contains_ascii_ci(m, "not found"),
        None => false,
    }
}

/// Whether a failed elastic-IP deletion during NAT teardown is worth another
/// attempt: only a 409 Conflict whose body carries the code `EIP.7922` or
/// mentions an associated instance — the address is still bound and will
/// free up shortly.
pub fn should_retry_nat_eip_delete(
    status: u16,
    error_code: &str,
    error_msg: Option<&str>,
    message: Option<&str>,
) -> (r: bool)
    ensures
        r == (status == 409 && (spec_ascii_upper(spec_trim(error_code@)) == "EIP.7922"@ || (
        match error_msg {
            Some(m) => spec_contains_ascii_ci(m@, "associated instance"@),
            None => false,
        }) || (match message {
            Some(m) => spec_contains_ascii_ci(m@, "associated instance"@),
            None => false,
        }))),
{
    if status != 409 {
        return false;
    }
    let code = ascii_upper(trim_str(error_code));
    if str_eq(code.as_str(), "EIP.7922") {
        return true;
    }
    let in_error_msg = match error_msg {
        Some(m) => contains_ascii_ci(m, "associated instance"),
        None => false,
    };
    if in_error_msg {
        return true;
    }
    match message {
        Some(m) => contains_ascii_ci(m, "associated instance"),
        None => false,
    }
}

pub const NAT_EIP_DELETE_MAX_ATTEMPTS: u8 = 6;

pub const NAT_EIP_DELETE_RETRY_DELAY_MS: u64 = 900;

pub const OBS_LIST_MAX_KEYS: u32 = 1000;

pub const OBS_BUCKET_TOTALS_MAX_PAGES: u32 = 10000;

pub const OBS_BUCKET_NAME_MIN: usize = 3;

pub const OBS_BUCKET_NAME_MAX: usize = 63;

/// Saturating addition on u64, as the totals use: a bucket beyond the
/// counter's range reports the maximum rather than wrapping.
pub open spec fn spec_sat_add_u64(a: u64, b: u64) -> u64 {
    if a + b > u64::MAX {
        u64::MAX
    } else {
        (a + b) as u64
    }
}

fn sat_add_u64(a: u64, b: u64) -> (r: u64)
    ensures
        r == spec_sat_add_u64(a, b),
{
    if a > u64::MAX - b {
        u64::MAX
    } else {
        a + b
    }
}

/// Running totals over an object listing's pages.
pub struct ObsTotals {
    pub total_size_bytes: u64,
    pub total_object_count: u64,
}

/// The object count after one page: the old count plus the page's length,
/// saturating.
pub open spec fn spec_count_after_page(count: u64, page_len: u64) -> u64 {
    spec_sat_add_u64(count, page_len)
}

/// The byte total after one page: every known object size added in order,
/// saturating; objects of unknown size add nothing.
pub open spec fn spec_size_after_page(size: u64, sizes: Seq<Option<u64>>) -> u64
    decreases sizes.len(),
{
    if sizes.len() == 0 {
        size
    } else {
        let first = match sizes[0] {
            Some(s) => spec_sat_add_u64(size, s),
            None => size,
        };
        spec_size_after_page(first, sizes.drop_first())
    }
}

impl ObsTotals {
    /// Zero totals, before the first page.
    pub fn new() -> (r: Self)
        ensures
            r.total_size_bytes == 0,
            r.total_object_count == 0,
    {
        ObsTotals { total_size_bytes: 0, total_object_count: 0 }
    }

    /// Folds one page of object sizes into the totals.
    pub fn absorb_page(&mut self, sizes: &Vec<Option<u64>>)
        ensures
            final(self).total_object_count == spec_count_after_page(
                old(self).total_object_count,
                sizes@.len() as u64,
            ),
            final(self).total_size_bytes == spec_size_after_page(
                old(self).total_size_bytes,
                sizes@,
            ),
    {
        self.total_object_count = sat_add_u64(self.total_object_count, sizes.len() as u64);
        let n = sizes.len();
        let mut i: usize = 0;
        proof {
            assert(sizes@.skip(0) =~= sizes@);
        }
        while i < n
            invariant
                0 <= i <= n,
                n == sizes@.len(),
                spec_size_after_page(old(self).total_size_bytes, sizes@) == spec_size_after_page(
                    self.total_size_bytes,
                    sizes@.skip(i as int),
                ),
                self.total_object_count == spec_count_after_page(
                    old(self).total_object_count,
                    sizes@.len() as u64,
                ),
            decreases n - i,
        {
            proof {
                assert(sizes@.skip(i as int)[0] == sizes@[i as int]);
                assert(sizes@.skip(i as int).drop_first() =~= sizes@.skip(i + 1));
            }
            match sizes[i] {
                Some(s) => {
                    self.total_size_bytes = sat_add_u64(self.total_size_bytes, s);
                },
                None => (),
            }
            i = i + 1;
        }
        proof {
            assert(sizes@.skip(n as int) =~= Seq::<Option<u64>>::empty());
        }
    }
}

/// The pagination decision after one object-listing page: continue with the
/// trimmed next marker only when the listing is truncated and a non-blank
/// marker was returned; otherwise the scan is done.
pub fn obs_next_marker(is_truncated: bool, next_marker: Option<&str>) -> (r: Option<String>)
    ensures
        ({
            let m = match next_marker {
                None => Seq::<char>::empty(),
                Some(nm) => spec_trim(nm@),
            };
            if is_truncated && m.len() > 0 {
                r matches Some(out) && out@ == m
            } else {
                r is None
            }
        }),
{
    if !is_truncated {
        return None;
    }
    match next_marker {
        None => None,
        Some(nm) => {
            let trimmed = trim_str(nm);
            if trimmed.is_empty() {
                None
            } else {
                Some(trimmed.to_owned())
            }
        },
    }
}

} // verus!
