//! Transport-level decisions: regional endpoint hosts, request paths and
//! query strings for the resource operations, scoped-project selection, the
//! success range, and the one automatic recovery — retrying elastic-IP calls
//! against the older endpoint version on 404 or 405. The HTTP requests
//! themselves are issued outside; every byte they carry is computed here.

use vstd::prelude::*;
use vstd::string::StringExecFns;

use crate::models::iam::Project;
use crate::models::iam::ProjectView;
use crate::strutil::spec_decimal;
use crate::strutil::str_eq;
use crate::strutil::u32_to_decimal;

verus! {

/// The logical services the client talks to.
pub enum Service {
    Compute,
    Network,
    Image,
    BlockStorage,
    Identity,
    ContainerOrchestration,
    ObjectStorage,
    NatGateway,
}

/// The host-name prefix of one service.
pub open spec fn spec_service_prefix(service: Service) -> Seq<char> {
    match service {
        Service::Compute => "ecs"@,
        Service::Network => "vpc"@,
        Service::Image => "ims"@,
        Service::BlockStorage => "evs"@,
        Service::Identity => "iam"@,
        Service::ContainerOrchestration => "cce"@,
        Service::ObjectStorage => "obs"@,
        Service::NatGateway => "nat"@,
    }
}

/// A service endpoint host: pure string substitution into
/// `service.{region}.{provider domain}`, with no discovery layer.
pub open spec fn spec_endpoint_host(service: Service, region: Seq<char>) -> Seq<char> {
    spec_service_prefix(service) + "."@ + region + ".myhuaweicloud.com"@
}

pub fn endpoint_host(service: Service, region: &str) -> (r: String)
    ensures
        r@ == spec_endpoint_host(service, region@),
{
    let mut out = String::new();
    match service {
        Service::Compute => out.append("ecs"),
        Service::Network => out.append("vpc"),
        Service::Image => out.append("ims"),
        Service::BlockStorage => out.append("evs"),
        Service::Identity => out.append("iam"),
        Service::ContainerOrchestration => out.append("cce"),
        Service::ObjectStorage => out.append("obs"),
        Service::NatGateway => out.append("nat"),
    }
    out.append(".");
    out.append(region);
    out.append(".myhuaweicloud.com");
    proof {
        assert(out@ =~= spec_endpoint_host(service, region@));
    }
    out
}

/// The identity service's project-list path; the one region-independent
/// call.
pub fn iam_projects_path() -> (r: &'static str)
    ensures
        r@ == "/v3/auth/projects"@,
{
    "/v3/auth/projects"
}

/// Whether an HTTP status is in the success range.
pub fn is_success_status(status: u16) -> (r: bool)
    ensures
        r == (200 <= status < 300),
{
    200 <= status && status < 300
}

/// Whether an HTTP status counts as success or as already-gone.
pub fn is_success_or_not_found(status: u16) -> (r: bool)
    ensures
        r == ((200 <= status < 300) || status == 404),
{
    (200 <= status && status < 300) || status == 404
}

/// The version-fallback rule for elastic-IP listing and deletion: only a
/// 404 Not Found or 405 Method Not Allowed answer to the newer endpoint is
/// retried against the older one; any other status is the result.
pub fn should_fall_back_to_v1(status: u16) -> (r: bool)
    ensures
        r == (status == 404 || status == 405),
{
    status == 404 || status == 405
}

/// Paging and filtering parameters for list calls.
pub struct ListParams {
    pub marker: Option<String>,
    pub limit: Option<u32>,
    pub offset: Option<u32>,
}

/// The mathematical image of list parameters.
pub struct ListParamsView {
    pub marker: Option<Seq<char>>,
    pub limit: Option<u32>,
    pub offset: Option<u32>,
}

impl View for ListParams {
    type V = ListParamsView;

    open spec fn view(&self) -> ListParamsView {
        ListParamsView {
            marker: match self.marker {
                Some(m) => Some(m@),
                None => None,
            },
            limit: self.limit,
            offset: self.offset,
        }
    }
}

/// Filters for image listing.
pub struct ImageListFilters {
    pub visibility: Option<String>,
    pub image_type: Option<String>,
    pub flavor_id: Option<String>,
}

/// Appends `key=value` to the parameter list, unless the value is empty.
pub fn push_query_param(params: &mut Vec<String>, key: &str, value: &str)
    ensures
        value@.len() == 0 ==> final(params)@.map_values(|s: String| s@) == old(
            params,
        )@.map_values(|s: String| s@),
        value@.len() > 0 ==> final(params)@.map_values(|s: String| s@) == old(
            params,
        )@.map_values(|s: String| s@).push(spec_query_item(key@, value@)),
{
    if !value.is_empty() {
        let mut item = String::new();
        item.append(key);
        item.append("=");
        item.append(value);
        let ghost before = params@.map_values(|s: String| s@);
        params.push(item);
        proof {
            assert(params@.map_values(|s: String| s@) =~= before.push(
                spec_query_item(key@, value@),
            ));
        }
    }
}

/// Appends `key=value` with a decimal value, when one is given.
pub fn push_query_param_u32(params: &mut Vec<String>, key: &str, value: Option<u32>)
    ensures
        value is None ==> final(params)@.map_values(|s: String| s@) == old(params)@.map_values(
            |s: String| s@,
        ),
        value matches Some(v) ==> final(params)@.map_values(|s: String| s@) == old(
            params,
        )@.map_values(|s: String| s@).push(spec_query_item(key@, spec_decimal(v as nat))),
{
    if let Some(v) = value {
        let mut item = String::new();
        item.append(key);
        item.append("=");
        let digits = u32_to_decimal(v);
        item.append(digits.as_str());
        let ghost before = params@.map_values(|s: String| s@);
        params.push(item);
        proof {
            assert(params@.map_values(|s: String| s@) =~= before.push(
                spec_query_item(key@, spec_decimal(v as nat)),
            ));
        }
    }
}

/// One query parameter, rendered `key=value`.
pub open spec fn spec_query_item(key: Seq<char>, value: Seq<char>) -> Seq<char> {
    key + "="@ + value
}

/// Parts joined with a separator.
pub open spec fn spec_join_with(parts: Seq<Seq<char>>, sep: Seq<char>) -> Seq<char>
    decreases parts.len(),
{
    if parts.len() == 0 {
        Seq::empty()
    } else if parts.len() == 1 {
        parts[0]
    } else {
        parts[0] + sep + spec_join_with(parts.drop_first(), sep)
    }
}

proof fn lemma_join_with_snoc(parts: Seq<Seq<char>>, sep: Seq<char>, p: Seq<char>)
    ensures
        parts.len() == 0 ==> spec_join_with(parts.push(p), sep) == p,
        parts.len() > 0 ==> spec_join_with(parts.push(p), sep) == spec_join_with(parts, sep) + sep
            + p,
    decreases parts.len(),
{
    if parts.len() == 0 {
        assert(spec_join_with(parts.push(p), sep) =~= p);
    } else {
        lemma_join_with_snoc(parts.drop_first(), sep, p);
        assert(parts.push(p).drop_first() =~= parts.drop_first().push(p));
        if parts.len() == 1 {
            assert(spec_join_with(parts.push(p), sep) =~= spec_join_with(parts, sep) + sep + p);
        } else {
            assert(spec_join_with(parts.push(p), sep) =~= spec_join_with(parts, sep) + sep + p);
        }
    }
}

/// Joins parts with a separator string.
pub fn join_with(parts: &Vec<String>, sep: &str) -> (r: String)
    ensures
        r@ == spec_join_with(parts@.map_values(|s: String| s@), sep@),
{
    let ghost views = parts@.map_values(|s: String| s@);
    let n = parts.len();
    let mut out = String::new();
    let mut i: usize = 0;
    while i < n
        invariant
            0 <= i <= n,
            n == parts@.len(),
            views == parts@.map_values(|s: String| s@),
            out@ =~= spec_join_with(views.take(i as int), sep@),
        decreases n - i,
    {
        if i > 0 {
            out.append(sep);
        }
        out.append(parts[i].as_str());
        proof {
            assert(views.take(i + 1).drop_last() =~= views.take(i as int));
            assert(views.take(i + 1) =~= views.take(i as int).push(views[i as int]));
            lemma_join_with_snoc(views.take(i as int), sep@, views[i as int]);
        }
        i = i + 1;
    }
    proof {
        assert(views.take(n as int) =~= views);
    }
    out
}

/// The query-string suffix a parameter list yields: nothing, or `?` and the
/// parameters joined with `&`.
pub open spec fn spec_query_suffix(parts: Seq<Seq<char>>) -> Seq<char> {
    if parts.len() == 0 {
        Seq::empty()
    } else {
        "?"@ + spec_join_with(parts, "&"@)
    }
}

fn query_suffix(params: &Vec<String>) -> (r: String)
    ensures
        r@ == spec_query_suffix(params@.map_values(|s: String| s@)),
{
    let mut out = String::new();
    if params.len() == 0 {
        proof {
            assert(out@ =~= spec_query_suffix(params@.map_values(|s: String| s@)));
        }
        return out;
    }
    out.append("?");
    let joined = join_with(params, "&");
    out.append(joined.as_str());
    proof {
        assert(out@ =~= spec_query_suffix(params@.map_values(|s: String| s@)));
    }
    out
}

/// The query parts a list call carries: `marker` when given and non-empty,
/// then `limit`, then — where the endpoint pages by offset — `offset`.
pub open spec fn spec_list_query_parts(params: Option<ListParamsView>, with_offset: bool) -> Seq<
    Seq<char>,
> {
    match params {
        None => Seq::empty(),
        Some(p) => {
            let with_marker = match p.marker {
                Some(m) => if m.len() > 0 {
                    seq![spec_query_item("marker"@, m)]
                } else {
                    Seq::<Seq<char>>::empty()
                },
                None => Seq::<Seq<char>>::empty(),
            };
            let with_limit = with_marker + (match p.limit {
                Some(l) => seq![spec_query_item("limit"@, spec_decimal(l as nat))],
                None => Seq::<Seq<char>>::empty(),
            });
            with_limit + (if with_offset {
                match p.offset {
                    Some(o) => seq![spec_query_item("offset"@, spec_decimal(o as nat))],
                    None => Seq::<Seq<char>>::empty(),
                }
            } else {
                Seq::<Seq<char>>::empty()
            })
        },
    }
}

fn list_query_params(params: Option<&ListParams>, with_offset: bool) -> (r: Vec<String>)
    ensures
        r@.map_values(|s: String| s@) == spec_list_query_parts(
            match params {
                Some(p) => Some(p@),
                None => None,
            },
            with_offset,
        ),
{
    let mut query: Vec<String> = Vec::new();
    let ghost empty_parts = query@.map_values(|s: String| s@);
    proof {
        assert(empty_parts =~= Seq::<Seq<char>>::empty());
    }
    match params {
        None => {
            proof {
                assert(query@.map_values(|s: String| s@) =~= spec_list_query_parts(
                    None,
                    with_offset,
                ));
            }
            query
        },
        Some(p) => {
            match &p.marker {
                Some(m) => push_query_param(&mut query, "marker", m.as_str()),
                None => (),
            }
            push_query_param_u32(&mut query, "limit", p.limit);
            if with_offset {
                push_query_param_u32(&mut query, "offset", p.offset);
            }
            proof {
                assert(query@.map_values(|s: String| s@) =~= spec_list_query_parts(
                    Some(p@),
                    with_offset,
                ));
            }
            query
        },
    }
}

/// The VPC-list path.
pub fn vpcs_path(project_id: &str) -> (r: String)
    ensures
        r@ == "/v1/"@ + project_id@ + "/vpcs"@,
{
    let mut out = String::new();
    out.append("/v1/");
    out.append(project_id);
    out.append("/vpcs");
    proof {
        assert(out@ =~= "/v1/"@ + project_id@ + "/vpcs"@);
    }
    out
}

/// The subnet-list path, scoped to one VPC.
pub fn subnets_path(project_id: &str, vpc_id: &str) -> (r: String)
    ensures
        r@ == "/v1/"@ + project_id@ + "/subnets?vpc_id="@ + vpc_id@,
{
    let mut out = String::new();
    out.append("/v1/");
    out.append(project_id);
    out.append("/subnets?vpc_id=");
    out.append(vpc_id);
    proof {
        assert(out@ =~= "/v1/"@ + project_id@ + "/subnets?vpc_id="@ + vpc_id@);
    }
    out
}

/// The flavor-list path; the flavor list is not paged, so one large limit.
pub fn flavors_path(project_id: &str) -> (r: String)
    ensures
        r@ == "/v1/"@ + project_id@ + "/cloudservers/flavors?limit=1000"@,
{
    let mut out = String::new();
    out.append("/v1/");
    out.append(project_id);
    out.append("/cloudservers/flavors?limit=1000");
    proof {
        assert(out@ =~= "/v1/"@ + project_id@ + "/cloudservers/flavors?limit=1000"@);
    }
    out
}

/// The image-list query parts: a fixed virtualization filter, then the
/// caller's filters, each skipped when absent or empty.
pub open spec fn spec_image_query_parts(
    visibility: Option<Seq<char>>,
    image_type: Option<Seq<char>>,
    flavor_id: Option<Seq<char>>,
) -> Seq<Seq<char>> {
    let base = seq!["virtual_env_type=FusionCompute"@];
    let a = base + (match visibility {
        Some(v) => if v.len() > 0 {
            seq![spec_query_item("visibility"@, v)]
        } else {
            Seq::<Seq<char>>::empty()
        },
        None => Seq::<Seq<char>>::empty(),
    });
    let b = a + (match image_type {
        Some(v) => if v.len() > 0 {
            seq![spec_query_item("__imagetype"@, v)]
        } else {
            Seq::<Seq<char>>::empty()
        },
        None => Seq::<Seq<char>>::empty(),
    });
    b + (match flavor_id {
        Some(v) => if v.len() > 0 {
            seq![spec_query_item("flavor_id"@, v)]
        } else {
            Seq::<Seq<char>>::empty()
        },
        None => Seq::<Seq<char>>::empty(),
    })
}

/// The image-list path under the caller's filters.
pub fn images_path(filters: Option<&ImageListFilters>) -> (r: String)
    ensures
        ({
            let (v, t, f) = match filters {
                None => (None::<Seq<char>>, None::<Seq<char>>, None::<Seq<char>>),
                Some(fl) => (
                    match fl.visibility {
                        Some(ref x) => Some(x@),
                        None => None,
                    },
                    match fl.image_type {
                        Some(ref x) => Some(x@),
                        None => None,
                    },
                    match fl.flavor_id {
                        Some(ref x) => Some(x@),
                        None => None,
                    },
                ),
            };
            r@ == "/v2/cloudimages?"@ + spec_join_with(spec_image_query_parts(v, t, f), "&"@)
        }),
{
    let mut params: Vec<String> = Vec::new();
    params.push("virtual_env_type=FusionCompute".to_owned());
    proof {
        assert(params@.map_values(|s: String| s@) =~= seq!["virtual_env_type=FusionCompute"@]);
    }
    if let Some(filters) = filters {
        match &filters.visibility {
            Some(v) => push_query_param(&mut params, "visibility", v.as_str()),
            None => (),
        }
        match &filters.image_type {
            Some(v) => push_query_param(&mut params, "__imagetype", v.as_str()),
            None => (),
        }
        match &filters.flavor_id {
            Some(v) => push_query_param(&mut params, "flavor_id", v.as_str()),
            None => (),
        }
    }
    let mut out = String::new();
    out.append("/v2/cloudimages?");
    let joined = join_with(&params, "&");
    out.append(joined.as_str());
    proof {
        match filters {
            None => {
                assert(params@.map_values(|s: String| s@) =~= spec_image_query_parts(
                    None,
                    None,
                    None,
                ));
            },
            Some(fl) => {
                assert(params@.map_values(|s: String| s@) =~= spec_image_query_parts(
                    match fl.visibility {
                        Some(ref x) => Some(x@),
                        None => None,
                    },
                    match fl.image_type {
                        Some(ref x) => Some(x@),
                        None => None,
                    },
                    match fl.flavor_id {
                        Some(ref x) => Some(x@),
                        None => None,
                    },
                ));
            },
        }
    }
    out
}

/// The elastic-IP list path on the newer endpoint version.
pub fn eip_list_path_v3(project_id: &str, params: Option<&ListParams>) -> (r: String)
    ensures
        r@ == "/v3/"@ + project_id@ + "/eip/publicips"@ + spec_query_suffix(
            spec_list_query_parts(
                match params {
                    Some(p) => Some(p@),
                    None => None,
                },
                true,
            ),
        ),
{
    let query = list_query_params(params, true);
    let suffix = query_suffix(&query);
    let mut out = String::new();
    out.append("/v3/");
    out.append(project_id);
    out.append("/eip/publicips");
    out.append(suffix.as_str());
    proof {
        assert(out@ =~= "/v3/"@ + project_id@ + "/eip/publicips"@ + suffix@);
    }
    out
}

/// The elastic-IP list path on the older endpoint version, used after a
/// fallback-worthy status.
pub fn eip_list_path_v1(project_id: &str, params: Option<&ListParams>) -> (r: String)
    ensures
        r@ == "/v1/"@ + project_id@ + "/publicips"@ + spec_query_suffix(
            spec_list_query_parts(
                match params {
                    Some(p) => Some(p@),
                    None => None,
                },
                true,
            ),
        ),
{
    let query = list_query_params(params, true);
    let suffix = query_suffix(&query);
    let mut out = String::new();
    out.append("/v1/");
    out.append(project_id);
    out.append("/publicips");
    out.append(suffix.as_str());
    proof {
        assert(out@ =~= "/v1/"@ + project_id@ + "/publicips"@ + suffix@);
    }
    out
}

/// The server-list path; this endpoint pages by marker and limit only.
pub fn ecs_list_path(project_id: &str, params: Option<&ListParams>) -> (r: String)
    ensures
        r@ == "/v1.1/"@ + project_id@ + "/cloudservers/detail"@ + spec_query_suffix(
            spec_list_query_parts(
                match params {
                    Some(p) => Some(p@),
                    None => None,
                },
                false,
            ),
        ),
{
    let query = list_query_params(params, false);
    let suffix = query_suffix(&query);
    let mut out = String::new();
    out.append("/v1.1/");
    out.append(project_id);
    out.append("/cloudservers/detail");
    out.append(suffix.as_str());
    proof {
        assert(out@ =~= "/v1.1/"@ + project_id@ + "/cloudservers/detail"@ + suffix@);
    }
    out
}

/// The volume-list path.
pub fn evs_list_path(project_id: &str, params: Option<&ListParams>) -> (r: String)
    ensures
        r@ == "/v2/"@ + project_id@ + "/cloudvolumes/detail"@ + spec_query_suffix(
            spec_list_query_parts(
                match params {
                    Some(p) => Some(p@),
                    None => None,
                },
                true,
            ),
        ),
{
    let query = list_query_params(params, true);
    let suffix = query_suffix(&query);
    let mut out = String::new();
    out.append("/v2/");
    out.append(project_id);
    out.append("/cloudvolumes/detail");
    out.append(suffix.as_str());
    proof {
        assert(out@ =~= "/v2/"@ + project_id@ + "/cloudvolumes/detail"@ + suffix@);
    }
    out
}

/// The server-creation path.
pub fn ecs_create_path(project_id: &str) -> (r: String)
    ensures
        r@ == "/v1/"@ + project_id@ + "/cloudservers"@,
{
    let mut out = String::new();
    out.append("/v1/");
    out.append(project_id);
    out.append("/cloudservers");
    proof {
        assert(out@ =~= "/v1/"@ + project_id@ + "/cloudservers"@);
    }
    out
}

/// The batch server-deletion path.
pub fn ecs_delete_path(project_id: &str) -> (r: String)
    ensures
        r@ == "/v1/"@ + project_id@ + "/cloudservers/delete"@,
{
    let mut out = String::new();
    out.append("/v1/");
    out.append(project_id);
    out.append("/cloudservers/delete");
    proof {
        assert(out@ =~= "/v1/"@ + project_id@ + "/cloudservers/delete"@);
    }
    out
}

/// The batch server-action path (stop requests go here).
pub fn ecs_action_path(project_id: &str) -> (r: String)
    ensures
        r@ == "/v1/"@ + project_id@ + "/cloudservers/action"@,
{
    let mut out = String::new();
    out.append("/v1/");
    out.append(project_id);
    out.append("/cloudservers/action");
    proof {
        assert(out@ =~= "/v1/"@ + project_id@ + "/cloudservers/action"@);
    }
    out
}

/// The elastic-IP deletion path on the newer endpoint version.
pub fn eip_delete_path_v3(project_id: &str, eip_id: &str) -> (r: String)
    ensures
        r@ == "/v3/"@ + project_id@ + "/eip/publicips/"@ + eip_id@,
{
    let mut out = String::new();
    out.append("/v3/");
    out.append(project_id);
    out.append("/eip/publicips/");
    out.append(eip_id);
    proof {
        assert(out@ =~= "/v3/"@ + project_id@ + "/eip/publicips/"@ + eip_id@);
    }
    out
}

/// The elastic-IP deletion path on the older endpoint version.
pub fn eip_delete_path_v1(project_id: &str, eip_id: &str) -> (r: String)
    ensures
        r@ == "/v1/"@ + project_id@ + "/publicips/"@ + eip_id@,
{
    let mut out = String::new();
    out.append("/v1/");
    out.append(project_id);
    out.append("/publicips/");
    out.append(eip_id);
    proof {
        assert(out@ =~= "/v1/"@ + project_id@ + "/publicips/"@ + eip_id@);
    }
    out
}

/// The first project that is enabled and named after the region, or -1.
pub open spec fn spec_first_enabled_match(projects: Seq<ProjectView>, region: Seq<char>) -> int
    decreases projects.len(),
{
    if projects.len() == 0 {
        -1
    } else if projects[0].enabled && projects[0].name == region {
        0
    } else if spec_first_enabled_match(projects.drop_first(), region) < 0 {
        -1
    } else {
        1 + spec_first_enabled_match(projects.drop_first(), region)
    }
}

proof fn lemma_first_enabled_match(projects: Seq<ProjectView>, region: Seq<char>)
    ensures
        spec_first_enabled_match(projects, region) >= 0 ==> {
            let i = spec_first_enabled_match(projects, region);
            i < projects.len() && projects[i].enabled && projects[i].name == region && (forall|
                k: int,
            |
                0 <= k < i ==> !((#[trigger] projects[k]).enabled && projects[k].name == region))
        },
        spec_first_enabled_match(projects, region) < 0 ==> forall|k: int|
            0 <= k < projects.len() ==> !((#[trigger] projects[k]).enabled && projects[k].name
                == region),
    decreases projects.len(),
{
    if projects.len() > 0 && !(projects[0].enabled && projects[0].name == region) {
        lemma_first_enabled_match(projects.drop_first(), region);
        let inner = spec_first_enabled_match(projects.drop_first(), region);
        if inner >= 0 {
            assert(projects[1 + inner] == projects.drop_first()[inner]);
            assert forall|k: int|
                0 <= k < 1 + inner implies !((#[trigger] projects[k]).enabled && projects[k].name
                == region) by {
                if k > 0 {
                    assert(projects.drop_first()[k - 1] == projects[k]);
                }
            }
        } else {
            assert forall|k: int|
                0 <= k < projects.len() implies !((#[trigger] projects[k]).enabled
                && projects[k].name == region) by {
                if k > 0 {
                    assert(projects.drop_first()[k - 1] == projects[k]);
                }
            }
        }
    }
}

/// The names of the enabled projects, in order.
pub open spec fn spec_enabled_names(projects: Seq<ProjectView>) -> Seq<Seq<char>>
    decreases projects.len(),
{
    if projects.len() == 0 {
        Seq::empty()
    } else if projects[0].enabled {
        seq![projects[0].name] + spec_enabled_names(projects.drop_first())
    } else {
        spec_enabled_names(projects.drop_first())
    }
}

proof fn lemma_enabled_names_concat(a: Seq<ProjectView>, b: Seq<ProjectView>)
    ensures
        spec_enabled_names(a + b) == spec_enabled_names(a) + spec_enabled_names(b),
    decreases a.len(),
{
    if a.len() == 0 {
        assert(a + b =~= b);
        assert(spec_enabled_names(a) + spec_enabled_names(b) =~= spec_enabled_names(b));
    } else {
        assert((a + b)[0] == a[0]);
        assert((a + b).drop_first() =~= a.drop_first() + b);
        lemma_enabled_names_concat(a.drop_first(), b);
        assert(spec_enabled_names(a + b) =~= spec_enabled_names(a) + spec_enabled_names(b));
    }
}

/// The error for a region with no enabled project, enumerating the enabled
/// project names that do exist.
pub open spec fn spec_no_project_error(region: Seq<char>, projects: Seq<ProjectView>) -> Seq<
    char,
> {
    let joined = spec_join_with(spec_enabled_names(projects), ", "@);
    "No enabled project found for region '"@ + region + "'. Enabled projects: "@ + (
    if joined.len() == 0 {
        "<none>"@
    } else {
        joined
    })
}

/// Resolves the account's scoped project for a region: the first project
/// whose name equals the region and whose enabled flag is set. With no
/// match, fails enumerating the enabled project names. Repeated per
/// operation, never cached.
pub fn select_project(projects: &Vec<Project>, region: &str) -> (r: Result<String, String>)
    ensures
        ({
            let ps = projects@.map_values(|p: Project| p@);
            let i = spec_first_enabled_match(ps, region@);
            if i >= 0 {
                r matches Ok(id) && id@ == ps[i].id
            } else {
                r matches Err(e) && e@ == spec_no_project_error(region@, ps)
            }
        }),
{
    let ghost ps = projects@.map_values(|p: Project| p@);
    let n = projects.len();
    let mut i: usize = 0;
    proof {
        lemma_first_enabled_match(ps, region@);
    }
    while i < n
        invariant
            0 <= i <= n,
            n == projects@.len(),
            ps == projects@.map_values(|p: Project| p@),
            forall|k: int| 0 <= k < i ==> !((#[trigger] ps[k]).enabled && ps[k].name == region@),
        decreases n - i,
    {
        proof {
            assert(ps[i as int] == projects@[i as int]@);
        }
        if projects[i].enabled && str_eq(projects[i].name.as_str(), region) {
            proof {
                lemma_first_enabled_match(ps, region@);
                assert(spec_first_enabled_match(ps, region@) == i as int);
            }
            return Ok(projects[i].id.clone());
        }
        i = i + 1;
    }
    proof {
        lemma_first_enabled_match(ps, region@);
    }
    let mut names: Vec<String> = Vec::new();
    let mut k: usize = 0;
    proof {
        assert(ps.take(0) =~= Seq::<ProjectView>::empty());
        assert(spec_enabled_names(Seq::<ProjectView>::empty()) =~= Seq::<Seq<char>>::empty());
        assert(names@.map_values(|s: String| s@) =~= spec_enabled_names(ps.take(0)));
    }
    while k < n
        invariant
            0 <= k <= n,
            n == projects@.len(),
            ps == projects@.map_values(|p: Project| p@),
            names@.map_values(|s: String| s@) =~= spec_enabled_names(ps.take(k as int)),
        decreases n - k,
    {
        proof {
            assert(ps[k as int] == projects@[k as int]@);
            assert(ps.take(k + 1) =~= ps.take(k as int) + seq![ps[k as int]]);
            lemma_enabled_names_concat(ps.take(k as int), seq![ps[k as int]]);
            assert(seq![ps[k as int]].drop_first() =~= Seq::<ProjectView>::empty());
            assert(spec_enabled_names(Seq::<ProjectView>::empty()) =~= Seq::<Seq<char>>::empty());
            assert(spec_enabled_names(seq![ps[k as int]]) =~= if ps[k as int].enabled {
                seq![ps[k as int].name]
            } else {
                Seq::<Seq<char>>::empty()
            });
        }
        if projects[k].enabled {
            let ghost before = names@.map_values(|s: String| s@);
            names.push(projects[k].name.clone());
            proof {
                assert(names@.map_values(|s: String| s@) =~= before.push(ps[k as int].name));
            }
        }
        k = k + 1;
    }
    proof {
        assert(ps.take(n as int) =~= ps);
    }
    let joined = join_with(&names, ", ");
    let mut msg = String::new();
    msg.append("No enabled project found for region '");
    msg.append(region);
    msg.append("'. Enabled projects: ");
    if joined.as_str().is_empty() {
        msg.append("<none>");
    } else {
        msg.append(joined.as_str());
    }
    proof {
        assert(msg@ =~= spec_no_project_error(region@, ps));
    }
    Err(msg)
}

} // verus!
