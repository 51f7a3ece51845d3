use cm3500_b_ce_exporter::client::{fetch_step, FetchAction, FetchStage};
use cm3500_b_ce_exporter::otlp::{counter_start_nanos, AttrValue, Attribute, OtlpResource};
use cm3500_b_ce_exporter::otlp_metrics::{
    event_metrics, flow_metrics, product_metrics, state_metrics, status_metrics, OtlpMetric,
    PointValue,
};
use cm3500_b_ce_exporter::parser::{
    CmState, DhcpInfo, DocsisPhase, EventLogEntry, InterfaceInfo, ProductInfo, QosFlow,
    ScrapedData, ServiceFlowConfig, VersionInfo,
};

fn om_data() -> ScrapedData {
    ScrapedData {
        uptime_seconds: Some(3600),
        cm_status: "OPERATIONAL".into(),
        version_info: VersionInfo {
            hardware_rev: "5".into(),
            vendor: "ARRIS".into(),
            bootloader: "2.5".into(),
            software_rev: "9.1".into(),
            model: "CM3500 B CE".into(),
            serial: "SN1".into(),
            firmware_name: "fw".into(),
            firmware_build_time: String::new(),
        },
        dhcp_info: DhcpInfo {
            cm_ip: String::new(),
            cm_subnet: String::new(),
            cm_gateway: String::new(),
            lease_total_secs: Some(600),
            lease_remaining_secs: Some(303),
            rebind_total_secs: None,
            rebind_remaining_secs: None,
            renew_total_secs: None,
            renew_remaining_secs: Some(3),
        },
        qos_flows: vec![],
        cm_state: CmState {
            overall_state: String::new(),
            phases: vec![],
            bpi_status: String::new(),
            tod_status: String::new(),
        },
        events: vec![],
        interfaces: vec![
            InterfaceInfo {
                name: "CABLE".into(),
                provisioned: "Enabled".into(),
                state: "Up".into(),
                mac_address: "aa:bb:cc:dd:ee:ff".into(),
            },
            InterfaceInfo {
                name: "MTA".into(),
                provisioned: "Disabled".into(),
                state: "Down".into(),
                mac_address: String::new(),
            },
        ],
        product_info: ProductInfo { ethernet_phy_type: String::new(), logging_components_enabled: vec![] },
        spectrum: vec![],
        cpe_static: 0,
        cpe_dynamic: 1,
        dhcp_state: "bound".into(),
        service_flow_configs: vec![],
    }
}

fn names(ms: &[OtlpMetric]) -> Vec<&str> {
    ms.iter().map(|m| m.name.as_str()).collect()
}

fn find<'a>(ms: &'a [OtlpMetric], name: &str) -> &'a OtlpMetric {
    ms.iter().find(|m| m.name == name).unwrap()
}

fn attr<'a>(attrs: &'a [Attribute], key: &str) -> Option<&'a AttrValue> {
    attrs.iter().find(|a| a.key == key).map(|a| &a.value)
}

#[test]
fn status_section_lists_metrics_in_order() {
    let ms = status_metrics(&om_data());
    assert_eq!(
        names(&ms),
        vec![
            "system.uptime",
            "hw.cable_modem.docsis.status",
            "system.network.interface.status",
            "system.network.interface.status",
            "hw.cable_modem.cpe.detected",
            "hw.cable_modem.provisioning.dhcp.status",
            "hw.cable_modem.provisioning.dhcp.lease.duration",
            "hw.cable_modem.provisioning.dhcp.lease.remaining",
            "hw.cable_modem.provisioning.dhcp.renew.remaining",
        ]
    );
    let uptime = &ms[0];
    assert!(uptime.cumulative);
    assert_eq!(uptime.unit, "s");
    assert_eq!(uptime.points[0].value, PointValue::Whole(3600));
    assert_eq!(ms[2].points[0].value, PointValue::Whole(1));
    assert_eq!(ms[3].points[0].value, PointValue::Whole(0));
    assert!(matches!(
        attr(&ms[2].points[0].attributes, "network.interface.name"),
        Some(AttrValue::Str(s)) if s == "CABLE"
    ));
    let cpe = find(&ms, "hw.cable_modem.cpe.detected");
    assert_eq!(cpe.points.len(), 2);
    assert_eq!(cpe.points[1].value, PointValue::Whole(1));
    assert!(matches!(attr(&cpe.points[1].attributes, "cpe.kind"), Some(AttrValue::Str(s)) if s == "dynamic"));
    let lease = find(&ms, "hw.cable_modem.provisioning.dhcp.lease.remaining");
    assert_eq!(lease.points[0].value, PointValue::Whole(303));
    assert!(!lease.cumulative);
}

#[test]
fn status_section_without_readings() {
    let mut data = om_data();
    data.uptime_seconds = None;
    data.cm_status = String::new();
    data.interfaces.clear();
    data.dhcp_state = String::new();
    data.dhcp_info.lease_total_secs = None;
    data.dhcp_info.lease_remaining_secs = None;
    data.dhcp_info.renew_remaining_secs = None;
    let ms = status_metrics(&data);
    assert_eq!(names(&ms), vec!["hw.cable_modem.cpe.detected"]);
}

#[test]
fn qos_and_docsis_state_section() {
    let flows = vec![QosFlow {
        sfid: 12,
        service_class: "Gold".into(),
        direction: "Upstream".into(),
        primary: false,
        packets: 345,
    }];
    let state = CmState {
        overall_state: "OPERATIONAL".into(),
        phases: vec![DocsisPhase { phase: "Docsis-Ranging Done/Ok".into(), status: "Completed".into() }],
        bpi_status: String::new(),
        tod_status: "Retrieved".into(),
    };
    let ms = state_metrics(&flows, &state);
    assert_eq!(
        names(&ms),
        vec![
            "hw.cable_modem.qos.packets.count",
            "hw.cable_modem.docsis.registration.status",
            "hw.cable_modem.docsis.phase.status",
            "hw.cable_modem.docsis.tod.status",
        ]
    );
    assert!(ms[0].cumulative);
    assert_eq!(ms[0].points[0].value, PointValue::Int(345));
    assert!(matches!(attr(&ms[0].points[0].attributes, "cable.qos.sfid"), Some(AttrValue::Int(12))));
    assert!(matches!(
        attr(&ms[0].points[0].attributes, "cable.qos.primary"),
        Some(AttrValue::Str(s)) if s == "false"
    ));
    assert!(matches!(
        attr(&ms[2].points[0].attributes, "docsis.phase"),
        Some(AttrValue::Str(s)) if s == "docsis_ranging_done_ok"
    ));
}

#[test]
fn qos_packet_counts_are_taken_as_signed() {
    let flows = vec![QosFlow {
        sfid: u64::MAX,
        service_class: String::new(),
        direction: "Downstream".into(),
        primary: true,
        packets: u64::MAX,
    }];
    let state = CmState { overall_state: String::new(), phases: vec![], bpi_status: String::new(), tod_status: String::new() };
    let ms = state_metrics(&flows, &state);
    assert_eq!(ms.len(), 1);
    assert_eq!(ms[0].points[0].value, PointValue::Int(-1));
    assert!(matches!(attr(&ms[0].points[0].attributes, "cable.qos.sfid"), Some(AttrValue::Int(-1))));
}

fn om_event(id: &str, description: &str) -> EventLogEntry {
    EventLogEntry { timestamp: "t".into(), event_id: id.into(), event_level: 3, description: description.into() }
}

#[test]
fn event_section_counts_and_profiles() {
    let events = vec![
        om_event("82000200", "No Ranging Response received - T3 time-out"),
        om_event("82000200", "No Ranging Response received - T3 time-out"),
        om_event("68010100", "DHCP RENEW sent - No response for IPv4"),
        om_event(
            "67061601",
            "US profile assignment change.  US Chan ID: 10; Previous Profile: 9; New Profile: 12.;CM-MAC=aa",
        ),
        om_event(
            "67061601",
            "US profile assignment change.  US Chan ID: 9; Previous Profile: 1; New Profile: 2.;CM-MAC=aa",
        ),
        om_event(
            "74010100",
            "CM-STATUS message sent.  Event Type Code: 16; Chan ID: 33; DSID: N/A; MAC Addr: N/A; OFDM/OFDMA Profile ID: 2.;CM-MAC=aa",
        ),
    ];
    let ms = event_metrics(&events);
    assert_eq!(
        names(&ms),
        vec![
            "hw.cable_modem.event_log.entries",
            "hw.cable_modem.cmts.t3_timeouts.count",
            "hw.cable_modem.cmts.t4_timeouts.count",
            "hw.cable_modem.provisioning.dhcp_failures.count",
            "hw.cable_modem.provisioning.dhcp_renew_warnings.count",
            "hw.cable_modem.provisioning.dhcp_renew_no_response.count",
            "hw.cable_modem.upstream.profile_changes.count",
            "hw.cable_modem.upstream.profile.active",
            "hw.cable_modem.upstream.ofdma.profile.active",
        ]
    );
    assert_eq!(ms[0].points.len(), 4);
    assert_eq!(ms[0].points[0].value, PointValue::Whole(2));
    assert_eq!(ms[1].points[0].value, PointValue::Whole(2));
    assert_eq!(ms[2].points[0].value, PointValue::Whole(0));
    assert_eq!(ms[5].points[0].value, PointValue::Whole(1));
    assert_eq!(ms[6].points[0].value, PointValue::Whole(2));
    // Channels ordered as text: "10" before "9".
    let us = &ms[7];
    assert_eq!(us.points.len(), 2);
    assert!(matches!(attr(&us.points[0].attributes, "cable.channel.id"), Some(AttrValue::Int(10))));
    assert_eq!(us.points[0].value, PointValue::Whole(12));
    assert!(matches!(attr(&us.points[1].attributes, "cable.channel.id"), Some(AttrValue::Int(9))));
    assert_eq!(us.points[1].value, PointValue::Whole(2));
    let ofdma = &ms[8];
    assert!(matches!(attr(&ofdma.points[0].attributes, "cable.channel.id"), Some(AttrValue::Int(33))));
    assert_eq!(ofdma.points[0].value, PointValue::Whole(2));
    assert!(event_metrics(&[]).is_empty());
}

#[test]
fn unreadable_channel_numbers_become_zero() {
    let events = vec![om_event(
        "67061601",
        "US profile assignment change.  US Chan ID: abc; Previous Profile: 9; New Profile: 12.",
    )];
    let ms = event_metrics(&events);
    let us = find(&ms, "hw.cable_modem.upstream.profile.active");
    assert!(matches!(attr(&us.points[0].attributes, "cable.channel.id"), Some(AttrValue::Int(0))));
}

#[test]
fn product_section() {
    let product = ProductInfo {
        ethernet_phy_type: "1x2.5G-GPY21X switch".into(),
        logging_components_enabled: vec![("docsis".into(), 3)],
    };
    let ms = product_metrics(&product);
    assert_eq!(
        names(&ms),
        vec!["hw.cable_modem.ethernet.phy.info", "hw.cable_modem.product.logging_components.enabled"]
    );
    assert_eq!(ms[1].points[0].value, PointValue::Whole(3));
    let none = product_metrics(&ProductInfo { ethernet_phy_type: String::new(), logging_components_enabled: vec![] });
    assert!(none.is_empty());
}

#[test]
fn flow_section_reports_rates_in_bits_per_second() {
    let flows = vec![ServiceFlowConfig {
        direction: "Upstream".into(),
        index: 4,
        max_traffic_rate_bps: 128000,
        max_traffic_burst: 3044,
        min_reserved_rate_bps: 64,
        traffic_priority: 7,
        scheduling_type: 2,
    }];
    let ms = flow_metrics(&flows);
    assert_eq!(
        names(&ms),
        vec![
            "hw.cable_modem.qos.max_traffic.rate",
            "hw.cable_modem.qos.min_reserved.rate",
            "hw.cable_modem.qos.max_traffic.burst",
            "hw.cable_modem.qos.traffic.priority",
        ]
    );
    assert_eq!(ms[0].unit, "bit/s");
    assert_eq!(ms[0].points[0].value, PointValue::Whole(128_000_000));
    assert_eq!(ms[1].points[0].value, PointValue::Whole(64_000));
    assert_eq!(ms[2].points[0].value, PointValue::Whole(3044));
    assert_eq!(ms[3].points[0].value, PointValue::Whole(7));
    assert!(matches!(attr(&ms[0].points[0].attributes, "cable.qos.flow_index"), Some(AttrValue::Int(4))));
    assert!(flow_metrics(&[]).is_empty());
}

#[test]
fn counters_start_at_boot_or_now() {
    assert_eq!(counter_start_nanos(Some(1), "3000000000"), "2000000000");
    assert_eq!(counter_start_nanos(None, "3000000000"), "3000000000");
    assert_eq!(counter_start_nanos(Some(1), "soon"), "soon");
}

fn om_pair<'a>(pairs: &'a [(String, String)], key: &str) -> Option<&'a str> {
    pairs.iter().find(|(k, _)| k == key).map(|(_, v)| v.as_str())
}

#[test]
fn fallback_resource_is_enriched_once() {
    let data = om_data();
    let mut r = OtlpResource::fallback("https://192.168.100.1", "0.1.0");
    assert_eq!(om_pair(r.attrs(), "hw.device.id"), Some("unknown"));
    r.enrich(&data, "0.1.0");
    assert_eq!(om_pair(r.attrs(), "hw.device.id"), Some("aa:bb:cc:dd:ee:ff"));
    let mut other = om_data();
    other.interfaces.clear();
    r.enrich(&other, "0.1.0");
    assert_eq!(om_pair(r.attrs(), "hw.device.id"), Some("aa:bb:cc:dd:ee:ff"));
    let mut fixed = OtlpResource::for_scrape(&other, "0.1.0");
    fixed.enrich(&data, "0.1.0");
    assert_eq!(om_pair(fixed.attrs(), "hw.device.id"), Some("SN1"));
}

#[test]
fn fetch_retries_once_after_login() {
    assert_eq!(fetch_step(FetchStage::FirstAttempt, true), (FetchStage::FirstAttempt, FetchAction::Deliver));
    assert_eq!(fetch_step(FetchStage::FirstAttempt, false), (FetchStage::LoggingIn, FetchAction::Login));
    assert_eq!(fetch_step(FetchStage::LoggingIn, false).1, FetchAction::GiveUp);
    assert_eq!(fetch_step(FetchStage::LoggingIn, true), (FetchStage::SecondAttempt, FetchAction::Attempt));
    assert_eq!(fetch_step(FetchStage::SecondAttempt, false).1, FetchAction::GiveUp);
    assert_eq!(fetch_step(FetchStage::SecondAttempt, true).1, FetchAction::Deliver);
}

fn om_sample_data() -> ScrapedData {
    let mut data = om_data();
    data.version_info = VersionInfo {
        hardware_rev: "1".into(),
        vendor: "ARRIS".into(),
        bootloader: "boot".into(),
        software_rev: "9.1.103AA65L".into(),
        model: "CM3500 B CE".into(),
        serial: "SERIAL123".into(),
        firmware_name: "firmware.bin".into(),
        firmware_build_time: "now".into(),
    };
    data.qos_flows = vec![QosFlow {
        sfid: 123,
        service_class: "BE".into(),
        direction: "Upstream".into(),
        primary: true,
        packets: 42,
    }];
    data.cm_state = CmState {
        overall_state: "Operational".into(),
        phases: vec![DocsisPhase { phase: "Docsis-Config-File".into(), status: "OK".into() }],
        bpi_status: "Authorized".into(),
        tod_status: "Acquired".into(),
    };
    data.events = vec![
        om_event("82000200", "No Ranging Response received - T3 time-out; CM-MAC=aa:bb:cc:dd:ee:ff; CMTS-MAC=11:22:33:44:55:66;"),
        om_event("68001202", "DHCP failed - Solicit sent, No Advertise received"),
        om_event("68010100", "DHCP RENEW sent - No response for IPv4"),
        om_event("67061601", "US profile assignment change.  US Chan ID: 10; Previous Profile: 9; New Profile: 12.;CM-MAC=aa:bb:cc:dd:ee:ff;CMTS-MAC=11:22:33:44:55:66;"),
        om_event("74010100", "CM-STATUS message sent.  Event Type Code: 16; Chan ID: 33; DSID: N/A; MAC Addr: N/A; OFDM/OFDMA Profile ID: 2.;CM-MAC=aa:bb:cc:dd:ee:ff;CMTS-MAC=11:22:33:44:55:66;"),
    ];
    data.interfaces = vec![InterfaceInfo {
        name: "WAN0".into(),
        provisioned: "Yes".into(),
        state: "Up".into(),
        mac_address: "aa:bb:cc:dd:ee:ff".into(),
    }];
    data.product_info = ProductInfo {
        ethernet_phy_type: "1x2.5G-GPY21X switch".into(),
        logging_components_enabled: vec![("COMMON_COMPONENTS".into(), 2)],
    };
    data.service_flow_configs = vec![ServiceFlowConfig {
        direction: "Downstream".into(),
        index: 0,
        max_traffic_rate_bps: 1126400,
        max_traffic_burst: 3044,
        min_reserved_rate_bps: 0,
        traffic_priority: 1,
        scheduling_type: 2,
    }];
    data
}

#[test]
fn otlp_sections_carry_expected_names_and_resources() {
    let data = om_sample_data();
    let resource = OtlpResource::for_scrape(&data, "0.1.0");
    let attrs = resource.attrs();
    assert_eq!(om_pair(attrs, "service.name"), Some("cm3500-exporter"));
    assert_eq!(om_pair(attrs, "hw.device.vendor"), Some("ARRIS"));
    assert_eq!(om_pair(attrs, "hw.device.model"), Some("CM3500 B CE"));
    assert_eq!(om_pair(attrs, "hw.device.id"), Some("aa:bb:cc:dd:ee:ff"));
    assert_eq!(om_pair(attrs, "network.connection.type"), Some("cable"));

    let mut all = status_metrics(&data);
    all.extend(state_metrics(&data.qos_flows, &data.cm_state));
    all.extend(event_metrics(&data.events));
    all.extend(product_metrics(&data.product_info));
    all.extend(flow_metrics(&data.service_flow_configs));
    let names = names(&all);
    for expected in [
        "system.uptime",
        "system.network.interface.status",
        "hw.cable_modem.provisioning.dhcp_failures.count",
        "hw.cable_modem.provisioning.dhcp_renew_no_response.count",
        "hw.cable_modem.upstream.profile.active",
        "hw.cable_modem.upstream.ofdma.profile.active",
        "hw.cable_modem.ethernet.phy.info",
        "hw.cable_modem.product.logging_components.enabled",
        "hw.cable_modem.qos.max_traffic.rate",
    ] {
        assert!(names.contains(&expected), "missing {}", expected);
    }
    let phase = find(&all, "hw.cable_modem.docsis.phase.status");
    assert!(matches!(
        attr(&phase.points[0].attributes, "docsis.phase"),
        Some(AttrValue::Str(s)) if s == "docsis_config_file"
    ));
}
