use hwc_core::models::iam::Project;
use hwc_core::policy::effective_stop_type;
use hwc_core::policy::is_api_method_not_found;
use hwc_core::policy::obs_next_marker;
use hwc_core::policy::operation_error_result;
use hwc_core::policy::operation_result;
use hwc_core::policy::sanitize_cce_node_pool_data_volume_size;
use hwc_core::policy::sanitize_cce_node_pool_initial_count;
use hwc_core::policy::sanitize_cce_node_pool_max_pods;
use hwc_core::policy::sanitize_cce_node_pool_root_volume_size;
use hwc_core::policy::should_retry_nat_eip_delete;
use hwc_core::policy::validate_eip_bandwidth;
use hwc_core::policy::ObsTotals;
use hwc_core::transport::ecs_list_path;
use hwc_core::transport::eip_delete_path_v1;
use hwc_core::transport::eip_delete_path_v3;
use hwc_core::transport::eip_list_path_v1;
use hwc_core::transport::eip_list_path_v3;
use hwc_core::transport::endpoint_host;
use hwc_core::transport::evs_list_path;
use hwc_core::transport::flavors_path;
use hwc_core::transport::iam_projects_path;
use hwc_core::transport::images_path;
use hwc_core::transport::is_success_or_not_found;
use hwc_core::transport::is_success_status;
use hwc_core::transport::select_project;
use hwc_core::transport::should_fall_back_to_v1;
use hwc_core::transport::subnets_path;
use hwc_core::transport::vpcs_path;
use hwc_core::transport::ImageListFilters;
use hwc_core::transport::ListParams;
use hwc_core::transport::Service;

fn project(id: &str, name: &str, enabled: bool) -> Project {
    Project {
        id: id.to_string(),
        name: name.to_string(),
        enabled,
    }
}

#[test]
fn endpoint_hosts_are_pure_string_substitution() {
    assert_eq!(
        endpoint_host(Service::Compute, "sa-brazil-1"),
        "ecs.sa-brazil-1.myhuaweicloud.com"
    );
    assert_eq!(
        endpoint_host(Service::Network, "sa-brazil-1"),
        "vpc.sa-brazil-1.myhuaweicloud.com"
    );
    assert_eq!(
        endpoint_host(Service::Identity, "r"),
        "iam.r.myhuaweicloud.com"
    );
    assert_eq!(endpoint_host(Service::Image, "r"), "ims.r.myhuaweicloud.com");
    assert_eq!(
        endpoint_host(Service::BlockStorage, "r"),
        "evs.r.myhuaweicloud.com"
    );
    assert_eq!(iam_projects_path(), "/v3/auth/projects");
}

#[test]
fn list_paths_carry_the_expected_versions_and_queries() {
    assert_eq!(vpcs_path("p"), "/v1/p/vpcs");
    assert_eq!(subnets_path("p", "v"), "/v1/p/subnets?vpc_id=v");
    assert_eq!(flavors_path("p"), "/v1/p/cloudservers/flavors?limit=1000");

    let params = ListParams {
        marker: Some("m1".to_string()),
        limit: Some(50),
        offset: Some(10),
    };
    assert_eq!(
        eip_list_path_v3("p", Some(&params)),
        "/v3/p/eip/publicips?marker=m1&limit=50&offset=10"
    );
    assert_eq!(
        eip_list_path_v1("p", Some(&params)),
        "/v1/p/publicips?marker=m1&limit=50&offset=10"
    );
    // The server-detail endpoint pages by marker and limit only.
    assert_eq!(
        ecs_list_path("p", Some(&params)),
        "/v1.1/p/cloudservers/detail?marker=m1&limit=50"
    );
    assert_eq!(
        evs_list_path("p", Some(&params)),
        "/v2/p/cloudvolumes/detail?marker=m1&limit=50&offset=10"
    );
    assert_eq!(eip_list_path_v3("p", None), "/v3/p/eip/publicips");
    assert_eq!(ecs_list_path("p", None), "/v1.1/p/cloudservers/detail");
}

#[test]
fn empty_markers_are_skipped_in_queries() {
    let params = ListParams {
        marker: Some("".to_string()),
        limit: None,
        offset: None,
    };
    assert_eq!(eip_list_path_v3("p", Some(&params)), "/v3/p/eip/publicips");
}

#[test]
fn image_paths_always_carry_the_virtualization_filter() {
    assert_eq!(
        images_path(None),
        "/v2/cloudimages?virtual_env_type=FusionCompute"
    );
    let filters = ImageListFilters {
        visibility: Some("public".to_string()),
        image_type: Some("gold".to_string()),
        flavor_id: Some("".to_string()),
    };
    assert_eq!(
        images_path(Some(&filters)),
        "/v2/cloudimages?virtual_env_type=FusionCompute&visibility=public&__imagetype=gold"
    );
}

#[test]
fn eip_delete_paths_cover_both_endpoint_versions() {
    assert_eq!(eip_delete_path_v3("p", "e"), "/v3/p/eip/publicips/e");
    assert_eq!(eip_delete_path_v1("p", "e"), "/v1/p/publicips/e");
}

#[test]
fn fallback_fires_only_on_not_found_and_method_not_allowed() {
    assert!(should_fall_back_to_v1(404));
    assert!(should_fall_back_to_v1(405));
    assert!(!should_fall_back_to_v1(200));
    assert!(!should_fall_back_to_v1(403));
    assert!(!should_fall_back_to_v1(500));
}

#[test]
fn success_range_is_200_to_299() {
    assert!(is_success_status(200));
    assert!(is_success_status(204));
    assert!(is_success_status(299));
    assert!(!is_success_status(199));
    assert!(!is_success_status(300));
    assert!(!is_success_status(404));
}

#[test]
fn success_or_not_found_status_helper_handles_expected_codes() {
    assert!(is_success_or_not_found(204));
    assert!(is_success_or_not_found(404));
    assert!(!is_success_or_not_found(409));
}

#[test]
fn select_project_picks_the_enabled_project_named_after_the_region() {
    let projects = vec![
        project("p0", "other-region", true),
        project("p1", "sa-brazil-1", false),
        project("p2", "sa-brazil-1", true),
        project("p3", "sa-brazil-1", true),
    ];
    // The disabled project with the right name is skipped; the first enabled
    // match wins.
    assert_eq!(select_project(&projects, "sa-brazil-1").unwrap(), "p2");
}

#[test]
fn select_project_enumerates_enabled_projects_on_failure() {
    let projects = vec![
        project("p0", "region-a", true),
        project("p1", "region-b", false),
        project("p2", "region-c", true),
    ];
    assert_eq!(
        select_project(&projects, "region-x").unwrap_err(),
        "No enabled project found for region 'region-x'. Enabled projects: region-a, region-c"
    );
    let none_enabled = vec![project("p1", "region-b", false)];
    assert_eq!(
        select_project(&none_enabled, "region-x").unwrap_err(),
        "No enabled project found for region 'region-x'. Enabled projects: <none>"
    );
}

#[test]
fn sanitize_cce_node_pool_ranges_follow_documented_limits() {
    assert_eq!(sanitize_cce_node_pool_initial_count(None), 0);
    assert_eq!(sanitize_cce_node_pool_initial_count(Some(0)), 0);
    assert_eq!(sanitize_cce_node_pool_initial_count(Some(3)), 3);

    assert_eq!(sanitize_cce_node_pool_root_volume_size(None), 40);
    assert_eq!(sanitize_cce_node_pool_root_volume_size(Some(1)), 40);
    assert_eq!(sanitize_cce_node_pool_root_volume_size(Some(40)), 40);
    assert_eq!(sanitize_cce_node_pool_root_volume_size(Some(2048)), 1024);

    assert_eq!(sanitize_cce_node_pool_data_volume_size(None), 100);
    assert_eq!(sanitize_cce_node_pool_data_volume_size(Some(10)), 100);
    assert_eq!(sanitize_cce_node_pool_data_volume_size(Some(100)), 100);
    assert_eq!(sanitize_cce_node_pool_data_volume_size(Some(50_000)), 32_768);

    assert_eq!(sanitize_cce_node_pool_max_pods(None), None);
    assert_eq!(sanitize_cce_node_pool_max_pods(Some(1)), Some(16));
    assert_eq!(sanitize_cce_node_pool_max_pods(Some(110)), Some(110));
    assert_eq!(sanitize_cce_node_pool_max_pods(Some(999)), Some(256));
}

#[test]
fn api_method_not_found_detection_handles_gateway_payload() {
    assert!(is_api_method_not_found(
        "APIGW.0101",
        Some("The API does not exist: method DELETE not found")
    ));
    assert!(!is_api_method_not_found("NAT.0007", Some("SNAT rule not found")));
}

#[test]
fn nat_eip_delete_retry_detection_matches_expected_conflict() {
    assert!(should_retry_nat_eip_delete(
        409,
        "EIP.7922",
        Some("Publicip abc has associated instance."),
        None
    ));
    assert!(!should_retry_nat_eip_delete(404, "EIP.0004", None, None));
}

#[test]
fn nat_eip_delete_retry_also_matches_the_message_text() {
    assert!(should_retry_nat_eip_delete(
        409,
        "",
        Some("Publicip abc has ASSOCIATED INSTANCE."),
        None
    ));
    assert!(should_retry_nat_eip_delete(
        409,
        "",
        None,
        Some("still has associated instance")
    ));
    assert!(!should_retry_nat_eip_delete(409, "EIP.0004", Some("other"), None));
}

#[test]
fn eip_bandwidth_is_validated_only_when_an_eip_is_allocated() {
    assert_eq!(validate_eip_bandwidth(false, None).unwrap(), 100);
    assert_eq!(validate_eip_bandwidth(true, Some(300)).unwrap(), 300);
    assert_eq!(validate_eip_bandwidth(false, Some(999)).unwrap(), 999);
    assert_eq!(
        validate_eip_bandwidth(true, Some(0)).unwrap_err(),
        "EIP bandwidth size must be between 1 and 300 Mbit/s for charge_mode=traffic."
    );
    assert!(validate_eip_bandwidth(true, Some(301)).is_err());
}

#[test]
fn stop_type_accepts_only_hard_explicitly() {
    assert_eq!(effective_stop_type(None), "SOFT");
    assert_eq!(effective_stop_type(Some(" hard ")), "HARD");
    assert_eq!(effective_stop_type(Some("HARD")), "HARD");
    assert_eq!(effective_stop_type(Some("graceful")), "SOFT");
    assert_eq!(effective_stop_type(Some("  ")), "SOFT");
}

#[test]
fn operation_results_keep_status_and_body() {
    let ok = operation_result("204 No Content".to_string(), 204, "".to_string());
    assert_eq!(ok.status, "204 No Content");
    assert_eq!(ok.status_code, Some(204));
    let skipped = operation_error_result("skipped", "ECS deletion failed first.".to_string());
    assert_eq!(skipped.status, "skipped");
    assert_eq!(skipped.status_code, None);
    assert_eq!(skipped.body, "ECS deletion failed first.");
}

#[test]
fn obs_totals_saturate_and_count_every_page() {
    let mut totals = ObsTotals::new();
    totals.absorb_page(&vec![Some(10), None, Some(5)]);
    totals.absorb_page(&vec![Some(1)]);
    assert_eq!(totals.total_object_count, 4);
    assert_eq!(totals.total_size_bytes, 16);

    let mut big = ObsTotals::new();
    big.absorb_page(&vec![Some(u64::MAX), Some(10)]);
    assert_eq!(big.total_size_bytes, u64::MAX);
}

#[test]
fn obs_pagination_continues_only_with_a_marker_on_truncated_pages() {
    assert_eq!(obs_next_marker(true, Some(" m2 ")), Some("m2".to_string()));
    assert_eq!(obs_next_marker(true, Some("  ")), None);
    assert_eq!(obs_next_marker(true, None), None);
    assert_eq!(obs_next_marker(false, Some("m2")), None);
}
