use hwc_core::validate::control_char_from_input;
use hwc_core::validate::effective_ssh_port;
use hwc_core::validate::effective_ssh_username;
use hwc_core::validate::is_ipv4_literal;
use hwc_core::validate::normalize_obs_bucket_name;
use hwc_core::validate::normalize_obs_object_key;
use hwc_core::validate::normalize_server_name;
use hwc_core::validate::normalize_ssh_session_id;
use hwc_core::validate::require_ssh_command;
use hwc_core::validate::trimmed_nonempty;
use hwc_core::validate::trimmed_or_default;
use hwc_core::validate::validate_data_volume;
use hwc_core::validate::require_ssh_host;
use hwc_core::validate::require_ssh_password;

const OBS_BUCKET_MIN: usize = 3;
const OBS_BUCKET_MAX: usize = 63;

#[test]
fn normalize_obs_bucket_name_accepts_and_lowercases_valid_names() {
    assert_eq!(
        normalize_obs_bucket_name("My-Bucket-001", OBS_BUCKET_MIN, OBS_BUCKET_MAX).expect("bucket"),
        "my-bucket-001"
    );
}

#[test]
fn normalize_obs_bucket_name_rejects_disallowed_formats() {
    assert!(normalize_obs_bucket_name("192.168.0.1", OBS_BUCKET_MIN, OBS_BUCKET_MAX).is_err());
    assert!(normalize_obs_bucket_name("bad_bucket", OBS_BUCKET_MIN, OBS_BUCKET_MAX).is_err());
    assert!(normalize_obs_bucket_name("a..b", OBS_BUCKET_MIN, OBS_BUCKET_MAX).is_err());
    assert!(normalize_obs_bucket_name("-starts-with-dash", OBS_BUCKET_MIN, OBS_BUCKET_MAX).is_err());
}

#[test]
fn normalize_obs_bucket_name_enforces_length_bounds() {
    assert!(normalize_obs_bucket_name("ab", OBS_BUCKET_MIN, OBS_BUCKET_MAX).is_err());
    let long_name = "a".repeat(OBS_BUCKET_MAX + 1);
    assert!(normalize_obs_bucket_name(&long_name, OBS_BUCKET_MIN, OBS_BUCKET_MAX).is_err());
    let min_ok = "abc";
    assert_eq!(
        normalize_obs_bucket_name(min_ok, OBS_BUCKET_MIN, OBS_BUCKET_MAX).expect("min len"),
        min_ok
    );
}

#[test]
fn normalize_obs_bucket_name_reports_each_rule() {
    assert_eq!(
        normalize_obs_bucket_name("ab", 3, 63).unwrap_err(),
        "OBS bucket name must be 3-63 characters."
    );
    assert_eq!(
        normalize_obs_bucket_name("bad_bucket", 3, 63).unwrap_err(),
        "OBS bucket name can contain only lowercase letters, digits, '.' or '-'."
    );
    assert_eq!(
        normalize_obs_bucket_name("ends-with-dash-", 3, 63).unwrap_err(),
        "OBS bucket name cannot start or end with '.' or '-'."
    );
    assert_eq!(
        normalize_obs_bucket_name("a..b", 3, 63).unwrap_err(),
        "OBS bucket name cannot contain consecutive dots."
    );
    assert_eq!(
        normalize_obs_bucket_name("192.168.0.1", 3, 63).unwrap_err(),
        "OBS bucket name cannot be formatted as an IPv4 address."
    );
}

#[test]
fn ipv4_literal_detection_follows_the_strict_dotted_quad_rules() {
    assert!(is_ipv4_literal("0.0.0.0"));
    assert!(is_ipv4_literal("255.255.255.255"));
    assert!(!is_ipv4_literal("256.1.1.1"));
    assert!(!is_ipv4_literal("1.2.3"));
    assert!(!is_ipv4_literal("1.2.3.4.5"));
    assert!(!is_ipv4_literal("01.2.3.4"));
    assert!(!is_ipv4_literal("1.2.3."));
    assert!(!is_ipv4_literal("a.b.c.d"));
}

#[test]
fn normalize_obs_object_key_trims_leading_slashes() {
    assert_eq!(
        normalize_obs_object_key("/logs/app.log").expect("key"),
        "logs/app.log"
    );
    assert_eq!(
        normalize_obs_object_key("///nested/path.txt").expect("key"),
        "nested/path.txt"
    );
}

#[test]
fn normalize_obs_object_key_requires_non_empty_value() {
    assert!(normalize_obs_object_key("  ").is_err());
    assert!(normalize_obs_object_key("/").is_err());
}

#[test]
fn normalize_ssh_session_id_trims_whitespace() {
    assert_eq!(
        normalize_ssh_session_id("  session-01  ").expect("session id"),
        "session-01"
    );
}

#[test]
fn normalize_ssh_session_id_requires_non_empty_value() {
    assert!(normalize_ssh_session_id("   ").is_err());
}

#[test]
fn trimming_matches_std_for_unicode_whitespace() {
    // The session-id trim drops the same characters as str::trim.
    let samples = [
        "\u{00A0}s1\u{3000}",
        "\t\r\n s2 \u{2028}",
        "\u{2000}\u{200A}s3",
        "\u{85}s4\u{205F}",
        "plain",
    ];
    for sample in samples {
        assert_eq!(
            normalize_ssh_session_id(sample).ok().as_deref(),
            Some(sample.trim())
        );
    }
}

#[test]
fn control_char_from_input_maps_supported_shortcuts() {
    assert_eq!(control_char_from_input("ctrl+c").expect("ctrl+c"), 0x03);
    assert_eq!(control_char_from_input("c").expect("c"), 0x03);
    assert_eq!(control_char_from_input("D").expect("d"), 0x04);
    assert_eq!(control_char_from_input(" Ctrl+U ").expect("ctrl+u"), 0x15);
}

#[test]
fn control_char_from_input_rejects_unknown_values() {
    assert!(control_char_from_input("ctrl+z").is_err());
}

#[test]
fn control_char_resolution_is_case_insensitive_for_ctrl_c() {
    assert_eq!(control_char_from_input("ctrl+c").unwrap(), 0x03);
    assert_eq!(control_char_from_input("c").unwrap(), 0x03);
    assert_eq!(control_char_from_input("C").unwrap(), 0x03);
    assert_eq!(
        control_char_from_input("ctrl+z").unwrap_err(),
        "Unsupported control sequence 'ctrl+z'. Use Ctrl+C, Ctrl+D, or Ctrl+U."
    );
}

#[test]
fn normalize_server_name_keeps_custom_value() {
    assert_eq!(normalize_server_name("my-ecs-prod"), "my-ecs-prod");
}

#[test]
fn normalize_server_name_generates_when_placeholder_or_blank() {
    let from_placeholder = normalize_server_name("ecs-<RANDOM-VALUE>");
    let from_blank = normalize_server_name("");

    assert!(from_placeholder.starts_with("ecs-"));
    assert!(from_blank.starts_with("ecs-"));
    assert_ne!(from_placeholder, from_blank);
}

#[test]
fn ssh_boundary_checks_trim_and_reject_blank_fields() {
    assert_eq!(require_ssh_host(" 10.0.0.1 ").unwrap(), "10.0.0.1");
    assert_eq!(require_ssh_host("  ").unwrap_err(), "SSH host is required.");
    assert_eq!(
        require_ssh_password("  ").unwrap_err(),
        "SSH password is required."
    );
    assert_eq!(require_ssh_password(" pw ").unwrap(), "pw");
    assert_eq!(
        require_ssh_command("").unwrap_err(),
        "SSH command is required."
    );
    assert_eq!(require_ssh_command(" uptime ").unwrap(), "uptime");
}

#[test]
fn optional_fields_trim_and_fall_back() {
    assert_eq!(trimmed_or_default(None, "VirtualMachine"), "VirtualMachine");
    assert_eq!(trimmed_or_default(Some("  "), "overlay_l2"), "overlay_l2");
    assert_eq!(trimmed_or_default(Some(" vpc-router "), "x"), "vpc-router");
    assert_eq!(trimmed_nonempty(None), None);
    assert_eq!(trimmed_nonempty(Some(" ")), None);
    assert_eq!(trimmed_nonempty(Some(" k ")), Some("k".to_string()));
}

#[test]
fn data_volume_requests_are_validated_field_by_field() {
    let ok = validate_data_volume(" GPSSD ", 100, None, None, Some(true))
        .ok()
        .unwrap();
    assert_eq!(ok.volumetype, "GPSSD");
    assert_eq!(ok.size, 100);
    assert_eq!(ok.count, Some(1));
    assert_eq!(ok.hw_passthrough, Some(true));
    assert_eq!(
        validate_data_volume("  ", 100, None, None, None).err().unwrap(),
        "Data disk volume type is required."
    );
    assert_eq!(
        validate_data_volume("SATA", 0, None, None, None).err().unwrap(),
        "Data disk size must be greater than 0 GB."
    );
    assert_eq!(
        validate_data_volume("SATA", 10, Some(0), None, None).err().unwrap(),
        "Data disk count must be at least 1."
    );
}

#[test]
fn ssh_connection_defaults_fill_port_and_user() {
    assert_eq!(effective_ssh_port(None), 22);
    assert_eq!(effective_ssh_port(Some(2222)), 2222);
    assert_eq!(effective_ssh_username(None), "root");
    assert_eq!(effective_ssh_username(Some("  ")), "root");
    assert_eq!(effective_ssh_username(Some(" admin ")), "admin");
}
