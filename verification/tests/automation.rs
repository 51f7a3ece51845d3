use cm3500_b_ce_exporter::automation::{
    apply_margin, max_rate_bps, non_operational_reason, AutomationOutputs, CapacityFile,
    CapacitySemantic, LinkStateFile, LinkStateTracker, LinkStatus, ScrapeObservation,
};
use cm3500_b_ce_exporter::parser::{
    CmState, DhcpInfo, ProductInfo, ScrapedData, ServiceFlowConfig, SpectrumChunk, VersionInfo,
};
use std::path::PathBuf;

fn data(cm_status: &str, dhcp_state: &str, flows: Vec<ServiceFlowConfig>) -> ScrapedData {
    ScrapedData {
        uptime_seconds: None,
        cm_status: cm_status.into(),
        version_info: VersionInfo {
            hardware_rev: String::new(),
            vendor: String::new(),
            bootloader: String::new(),
            software_rev: String::new(),
            model: String::new(),
            serial: String::new(),
            firmware_name: String::new(),
            firmware_build_time: String::new(),
        },
        dhcp_info: DhcpInfo {
            cm_ip: String::new(),
            cm_subnet: String::new(),
            cm_gateway: String::new(),
            lease_total_secs: None,
            lease_remaining_secs: None,
            rebind_total_secs: None,
            rebind_remaining_secs: None,
            renew_total_secs: None,
            renew_remaining_secs: None,
        },
        qos_flows: vec![],
        cm_state: CmState {
            overall_state: String::new(),
            phases: vec![],
            bpi_status: String::new(),
            tod_status: String::new(),
        },
        events: vec![],
        interfaces: vec![],
        product_info: ProductInfo {
            ethernet_phy_type: String::new(),
            logging_components_enabled: vec![],
        },
        spectrum: Vec::<SpectrumChunk>::new(),
        cpe_static: 0,
        cpe_dynamic: 0,
        dhcp_state: dhcp_state.into(),
        service_flow_configs: flows,
    }
}

fn flow(direction: &str, index: u32, rate: u64) -> ServiceFlowConfig {
    ServiceFlowConfig {
        direction: direction.into(),
        index,
        max_traffic_rate_bps: rate,
        max_traffic_burst: 0,
        min_reserved_rate_bps: 0,
        traffic_priority: 0,
        scheduling_type: 0,
    }
}

#[test]
fn hysteresis_transitions_to_degraded_before_down() {
    let mut tracker = LinkStateTracker::new(3, 2);
    let good = ScrapeObservation::from_data(&data("OPERATIONAL", "bound", vec![]), 100);
    let bad = ScrapeObservation::from_error("scrape_failed".into(), 100);

    assert_eq!(tracker.observe(&good).status.as_str(), "up");
    assert_eq!(tracker.observe(&bad).status.as_str(), "degraded");
    assert_eq!(tracker.observe(&bad).status.as_str(), "degraded");
    assert_eq!(tracker.observe(&bad).status.as_str(), "down");
}

#[test]
fn capacity_uses_max_service_flow_rate_with_margin() {
    let d = data(
        "OPERATIONAL",
        "bound",
        vec![
            flow("Upstream", 0, 128000),
            flow("Downstream", 1, 128000),
            flow("Downstream", 2, 1126400),
        ],
    );
    let capacity = CapacitySemantic::from_data(&d, 95);
    assert_eq!(capacity.upstream_bps, Some(128_000));
    assert_eq!(capacity.downstream_bps, Some(1_126_400));
    assert_eq!(capacity.shaped_upstream_bps, Some(121_600));
    assert_eq!(capacity.shaped_downstream_bps, Some(1_070_080));
}

#[test]
fn recovery_needs_up_threshold_good_scrapes() {
    let mut tracker = LinkStateTracker::new(1, 2);
    let good = ScrapeObservation::from_data(&data("OPERATIONAL", "", vec![]), 100);
    let bad = ScrapeObservation::from_error("timeout".into(), 100);
    assert_eq!(tracker.observe(&bad).status, LinkStatus::Down);
    assert_eq!(tracker.observe(&good).status, LinkStatus::Degraded);
    let up = tracker.observe(&good);
    assert_eq!(up.status, LinkStatus::Up);
    assert!(!up.degraded);
    // A single bad scrape brings it down with a threshold of 1.
    assert_eq!(tracker.observe(&bad).status, LinkStatus::Down);
}

#[test]
fn zero_thresholds_count_as_one() {
    let mut tracker = LinkStateTracker::new(0, 0);
    let good = ScrapeObservation::from_data(&data("operational", "BOUND", vec![]), 100);
    let bad = ScrapeObservation::from_error("x".into(), 100);
    assert_eq!(tracker.observe(&good).status, LinkStatus::Up);
    assert_eq!(tracker.observe(&bad).status, LinkStatus::Down);
    assert_eq!(tracker.observe(&good).status, LinkStatus::Up);
}

#[test]
fn observation_health_ignores_ascii_case() {
    let good = ScrapeObservation::from_data(&data("Operational", "Bound", vec![]), 100);
    assert!(good.is_good());
    let unknown_dhcp = ScrapeObservation::from_data(&data("OPERATIONAL", "", vec![]), 100);
    assert!(unknown_dhcp.is_good());
    let renewing = ScrapeObservation::from_data(&data("OPERATIONAL", "renewing", vec![]), 100);
    assert!(!renewing.is_good());
    assert!(!ScrapeObservation::from_error("e".into(), 100).is_good());
}

#[test]
fn non_operational_reasons() {
    assert_eq!(non_operational_reason("OPERATIONAL", "bound"), None);
    assert_eq!(non_operational_reason("operational", ""), None);
    assert_eq!(
        non_operational_reason("", "bound").as_deref(),
        Some("cm_status_unknown")
    );
    assert_eq!(
        non_operational_reason("Ranging In-Progress/T3", "bound").as_deref(),
        Some("cm_status_ranging_in_progress_t3")
    );
    assert_eq!(
        non_operational_reason("OPERATIONAL", "Rebind Wait").as_deref(),
        Some("dhcp_state_rebind_wait")
    );
}

#[test]
fn max_rate_and_margin() {
    let flows = vec![flow("upstream", 0, 5), flow("UPSTREAM", 1, 9), flow("Downstream", 2, 7)];
    assert_eq!(max_rate_bps(&flows, "Upstream"), Some(9));
    assert_eq!(max_rate_bps(&flows, "Downstream"), Some(7));
    assert_eq!(max_rate_bps(&flows, "Sideways"), None);
    assert_eq!(apply_margin(1_126_400, 95), 1_070_080);
    assert_eq!(apply_margin(u64::MAX, 50), u64::MAX / 100);
    assert_eq!(apply_margin(123, 0), 0);
}

#[test]
fn capacity_of_failed_scrape_is_invalid() {
    let c = CapacitySemantic::invalid(95);
    assert!(!c.valid);
    assert_eq!(c.upstream_bps, None);
    let only_down = CapacitySemantic::from_data(&data("OPERATIONAL", "", vec![flow("Downstream", 0, 100)]), 50);
    assert!(only_down.valid);
    assert_eq!(only_down.shaped_downstream_bps, Some(50));
    assert_eq!(only_down.upstream_bps, None);
}

#[test]
fn outputs_need_a_file() {
    assert!(AutomationOutputs::new(None, None, 3, 2).is_none());
    assert!(AutomationOutputs::new(Some(PathBuf::from("/tmp/state.json")), None, 3, 2).is_some());
}

#[test]
fn outputs_rewrite_only_on_change() {
    let mut outputs = AutomationOutputs::new(
        Some(PathBuf::from("/tmp/state.json")),
        Some(PathBuf::from("/tmp/capacity.json")),
        3,
        2,
    )
    .unwrap();
    let good = ScrapeObservation::from_data(
        &data("OPERATIONAL", "bound", vec![flow("Upstream", 0, 1000)]),
        90,
    );
    let plan = outputs.update(&good);
    let state = plan.state.expect("first state is written");
    assert_eq!(state.status, LinkStatus::Up);
    let capacity = plan.capacity.expect("first capacity is written");
    assert_eq!(capacity.shaped_upstream_bps, Some(900));
    outputs.record_state_written(state);
    outputs.record_capacity_written(capacity);

    let again = outputs.update(&good);
    assert!(again.state.is_none());
    assert!(again.capacity.is_none());

    // An unrecorded write is planned again.
    let bad = ScrapeObservation::from_error("down".into(), 90);
    let plan = outputs.update(&bad);
    assert_eq!(plan.state.as_ref().map(|s| s.status), Some(LinkStatus::Degraded));
    assert_eq!(plan.capacity, Some(CapacitySemantic::invalid(90)));
    let plan2 = outputs.update(&bad);
    assert!(plan2.state.is_some());
}

#[test]
fn files_carry_the_semantics() {
    let mut tracker = LinkStateTracker::new(3, 2);
    let obs = ScrapeObservation::from_error("connection refused".into(), 95);
    let semantic = tracker.observe(&obs);
    let file = LinkStateFile::from_semantic(&semantic);
    assert_eq!(file.status, "down");
    assert!(!file.modem_up);
    assert_eq!(file.reason.as_deref(), Some("connection refused"));
    assert!(!file.timestamp.is_empty() && file.timestamp.chars().all(|c| c.is_ascii_digit()));

    let cap = CapacitySemantic::from_data(&data("OPERATIONAL", "bound", vec![flow("Upstream", 0, 200)]), 95);
    let cfile = CapacityFile::from_semantic(&cap);
    assert_eq!(cfile.source, "service_flow_config");
    assert_eq!(cfile.upstream_bps, Some(200));
    assert_eq!(cfile.shaped_upstream_bps, Some(190));
    assert!(cfile.valid);
}

#[test]
fn outputs_keep_each_path_in_its_place() {
    let outputs = AutomationOutputs::new(
        Some(PathBuf::from("/run/state.json")),
        Some(PathBuf::from("/run/capacity.json")),
        3,
        2,
    )
    .unwrap();
    assert_eq!(outputs.state_file(), Some(&PathBuf::from("/run/state.json")));
    assert_eq!(outputs.capacity_file(), Some(&PathBuf::from("/run/capacity.json")));
    let only_capacity = AutomationOutputs::new(None, Some(PathBuf::from("/c")), 3, 2).unwrap();
    assert_eq!(only_capacity.state_file(), None);
    assert_eq!(only_capacity.capacity_file(), Some(&PathBuf::from("/c")));
}
