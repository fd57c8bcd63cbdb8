use direct_connectivity::config::{
    depends_on_gce, resolve_mode, should_use_direct_connectivity, DirectConnectivityMode,
};
use direct_connectivity::gce::{
    detect_gce, detection_url, instance_zone, metadata_host, zone_url, Probe, ZoneReply,
    DEFAULT_METADATA_HOST,
};

#[test]
fn test_resolve_mode_explicit_takes_precedence() {
    let mode = resolve_mode(Some(&DirectConnectivityMode::Enabled), None);
    assert!(matches!(mode, DirectConnectivityMode::Enabled));
    let mode = resolve_mode(Some(&DirectConnectivityMode::Disabled), Some("true"));
    assert!(matches!(mode, DirectConnectivityMode::Disabled));
}

#[test]
fn test_resolve_mode_default_is_disabled() {
    // Without env var set, should be disabled
    let mode = resolve_mode(None, None);
    assert!(matches!(mode, DirectConnectivityMode::Disabled));
    assert!(matches!(
        DirectConnectivityMode::default(),
        DirectConnectivityMode::Disabled
    ));
}

#[test]
fn test_resolve_mode_env_var() {
    let mode = resolve_mode(None, Some("true"));
    assert!(matches!(mode, DirectConnectivityMode::Auto));
}

#[test]
fn test_resolve_mode_env_var_false() {
    let mode = resolve_mode(None, Some("false"));
    assert!(matches!(mode, DirectConnectivityMode::Disabled));
}

#[test]
fn the_variable_is_read_without_regard_to_case() {
    for value in ["TRUE", "True", "tRuE", "1"] {
        let mode = resolve_mode(None, Some(value));
        assert!(matches!(mode, DirectConnectivityMode::Auto), "{value}");
    }
    for value in ["", "0", "11", "true ", "yes", "tru", "\u{212a}rue"] {
        let mode = resolve_mode(None, Some(value));
        assert!(matches!(mode, DirectConnectivityMode::Disabled), "{value}");
    }
}

#[test]
fn only_auto_asks_where_the_process_runs() {
    for on_gce in [false, true] {
        assert!(!should_use_direct_connectivity(&DirectConnectivityMode::Disabled, on_gce));
        assert!(should_use_direct_connectivity(&DirectConnectivityMode::Enabled, on_gce));
        assert_eq!(
            should_use_direct_connectivity(&DirectConnectivityMode::Auto, on_gce),
            on_gce
        );
    }
    assert!(depends_on_gce(&DirectConnectivityMode::Auto));
    assert!(!depends_on_gce(&DirectConnectivityMode::Enabled));
    assert!(!depends_on_gce(&DirectConnectivityMode::Disabled));
}

#[test]
fn test_metadata_host_default() {
    assert_eq!(metadata_host(None), DEFAULT_METADATA_HOST);
}

#[test]
fn test_metadata_host_env_override() {
    assert_eq!(
        metadata_host(Some("custom.host:8080".to_string())),
        "custom.host:8080"
    );
}

#[test]
fn urls_of_the_metadata_server() {
    assert_eq!(
        detection_url(&metadata_host(None)),
        "http://metadata.google.internal/computeMetadata/v1/"
    );
    assert_eq!(
        zone_url("custom.host:8080"),
        "http://custom.host:8080/computeMetadata/v1/instance/zone"
    );
}

#[test]
fn a_metadata_server_is_known_by_its_header() {
    assert!(detect_gce(&Probe::Answered(Some("Google".to_string()))));
    assert!(!detect_gce(&Probe::Answered(Some("google".to_string()))));
    assert!(!detect_gce(&Probe::Answered(None)));
    assert!(!detect_gce(&Probe::Failed));
}

#[test]
fn a_zone_takes_a_good_answer() {
    let zone = "projects/123456/zones/us-central1-a".to_string();
    assert_eq!(
        instance_zone(ZoneReply::Answered(true, Some(zone.clone()))),
        Some(zone.clone())
    );
    assert_eq!(instance_zone(ZoneReply::Answered(false, Some(zone))), None);
    assert_eq!(instance_zone(ZoneReply::Answered(true, None)), None);
    assert_eq!(instance_zone(ZoneReply::Failed), None);
}
