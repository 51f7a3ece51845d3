use cm3500_b_ce_exporter::events::extract_suffix_value;
use cm3500_b_ce_exporter::otlp::{
    boot_time_nanos, build_resource_attrs, event_key_of, log_record, new_log_records,
    normalize_otlp_endpoint, AttrValue, Attribute, LogRecord, SentEventKeys, SignalKind,
};
use cm3500_b_ce_exporter::parser::{
    CmState, DhcpInfo, EventLogEntry, InterfaceInfo, ProductInfo, ScrapedData, VersionInfo,
};

fn otlp_event(timestamp: &str, id: &str, level: u32, description: &str) -> EventLogEntry {
    EventLogEntry {
        timestamp: timestamp.into(),
        event_id: id.into(),
        event_level: level,
        description: description.into(),
    }
}

fn otlp_events() -> Vec<EventLogEntry> {
    vec![
        otlp_event(
            "6/2/2026 7:11",
            "82000200",
            3,
            "No Ranging Response received - T3 time-out; CM-MAC=aa:bb:cc:dd:ee:ff; CMTS-MAC=11:22:33:44:55:66;",
        ),
        otlp_event(
            "6/2/2026 7:12",
            "68001202",
            4,
            "DHCP failed - Solicit sent, No Advertise received",
        ),
        otlp_event("6/2/2026 7:13", "68010100", 4, "DHCP RENEW sent - No response for IPv4"),
        otlp_event(
            "6/2/2026 7:14",
            "67061601",
            6,
            "US profile assignment change.  US Chan ID: 10; Previous Profile: 9; New Profile: 12.;CM-MAC=aa:bb:cc:dd:ee:ff;CMTS-MAC=11:22:33:44:55:66;",
        ),
        otlp_event(
            "6/2/2026 7:15",
            "74010100",
            6,
            "CM-STATUS message sent.  Event Type Code: 16; Chan ID: 33; DSID: N/A; MAC Addr: N/A; OFDM/OFDMA Profile ID: 2.;CM-MAC=aa:bb:cc:dd:ee:ff;CMTS-MAC=11:22:33:44:55:66;",
        ),
    ]
}

fn otlp_data(interfaces: Vec<InterfaceInfo>) -> ScrapedData {
    ScrapedData {
        uptime_seconds: Some(3600),
        cm_status: "OPERATIONAL".into(),
        version_info: VersionInfo {
            hardware_rev: "5".into(),
            vendor: "ARRIS".into(),
            bootloader: "2.5.0".into(),
            software_rev: "9.1.103".into(),
            model: "CM3500 B CE".into(),
            serial: "SN123".into(),
            firmware_name: "fw.bin".into(),
            firmware_build_time: String::new(),
        },
        dhcp_info: DhcpInfo {
            cm_ip: String::new(),
            cm_subnet: String::new(),
            cm_gateway: String::new(),
            lease_total_secs: None,
            lease_remaining_secs: None,
            rebind_total_secs: None,
            rebind_remaining_secs: None,
            renew_total_secs: None,
            renew_remaining_secs: None,
        },
        qos_flows: vec![],
        cm_state: CmState {
            overall_state: String::new(),
            phases: vec![],
            bpi_status: String::new(),
            tod_status: String::new(),
        },
        events: otlp_events(),
        interfaces,
        product_info: ProductInfo { ethernet_phy_type: String::new(), logging_components_enabled: vec![] },
        spectrum: vec![],
        cpe_static: 0,
        cpe_dynamic: 1,
        dhcp_state: "bound".into(),
        service_flow_configs: vec![],
    }
}

fn wan(mac: &str) -> InterfaceInfo {
    InterfaceInfo {
        name: "WAN0".into(),
        provisioned: "Enabled".into(),
        state: "Up".into(),
        mac_address: mac.into(),
    }
}

fn attr_text<'a>(attrs: &'a [Attribute], key: &str) -> Option<&'a str> {
    attrs.iter().find(|a| a.key == key).and_then(|a| match &a.value {
        AttrValue::Str(s) => Some(s.as_str()),
        AttrValue::Int(_) => None,
    })
}

fn pair_text<'a>(pairs: &'a [(String, String)], key: &str) -> Option<&'a str> {
    pairs.iter().find(|(k, _)| k == key).map(|(_, v)| v.as_str())
}

#[test]
fn normalizes_otlp_endpoints() {
    assert_eq!(
        normalize_otlp_endpoint("https://example.test/otlp", SignalKind::Metrics),
        "https://example.test/otlp/v1/metrics"
    );
    assert_eq!(
        normalize_otlp_endpoint("https://example.test/otlp", SignalKind::Logs),
        "https://example.test/otlp/v1/logs"
    );
    assert_eq!(
        normalize_otlp_endpoint("https://example.test/v1/metrics", SignalKind::Logs),
        "https://example.test/v1/logs"
    );
}

#[test]
fn extracts_event_fields() {
    let desc = "No Ranging Response; CM-MAC=aa:bb:cc:dd:ee:ff; CMTS-MAC=11:22:33:44:55:66;";
    assert_eq!(extract_suffix_value(desc, "CM-MAC=").as_deref(), Some("aa:bb:cc:dd:ee:ff"));
    assert_eq!(extract_suffix_value(desc, "CMTS-MAC=").as_deref(), Some("11:22:33:44:55:66"));
}

#[test]
fn builds_otlp_log_payload_and_deduplicates() {
    let data = otlp_data(vec![wan("aa:bb:cc:dd:ee:ff")]);
    let mut sent = SentEventKeys::new();

    let records = new_log_records(&mut sent, &data.events, "1000000000");
    assert_eq!(records.len(), 5);
    let first = &records[0];
    assert_eq!(first.severity_text, "WARN");
    assert_eq!(attr_text(&first.attributes, "event.name"), Some("cable_modem.docsis_event"));
    assert_eq!(attr_text(&first.attributes, "event.domain"), Some("cable_modem"));
    assert_eq!(attr_text(&first.attributes, "cable_modem.event.type"), Some("T3_TIMEOUT"));
    assert_eq!(
        attr_text(&first.attributes, "cable_modem.cmts.mac_address"),
        Some("11:22:33:44:55:66")
    );

    assert_eq!(first.time_unix_nano, "1000000000");
    let second = new_log_records(&mut sent, &data.events, "1000000001");
    assert!(second.is_empty());
}

#[test]
fn fallback_otlp_client_enriches_resource_attrs_after_successful_scrape() {
    let data = otlp_data(vec![wan("aa:bb:cc:dd:ee:ff")]);

    let before = build_resource_attrs(None, Some("https://192.168.100.1"), "0.1.0");
    assert_eq!(pair_text(&before, "hw.device.id"), Some("unknown"));

    let after = build_resource_attrs(Some(&data), Some("https://192.168.100.1"), "0.1.0");
    assert_eq!(pair_text(&after, "hw.device.id"), Some("aa:bb:cc:dd:ee:ff"));
}

#[test]
fn endpoint_trailing_slashes_are_ignored() {
    assert_eq!(
        normalize_otlp_endpoint("https://example.test/otlp//", SignalKind::Metrics),
        "https://example.test/otlp/v1/metrics"
    );
    assert_eq!(
        normalize_otlp_endpoint("https://example.test/v1/logs/", SignalKind::Metrics),
        "https://example.test/v1/metrics"
    );
    let once = normalize_otlp_endpoint("https://example.test", SignalKind::Logs);
    assert_eq!(normalize_otlp_endpoint(&once, SignalKind::Logs), once);
}

#[test]
fn fallback_resource_names_the_modem_url() {
    let attrs = build_resource_attrs(None, Some("https://192.168.100.1"), "1.2.3");
    assert_eq!(pair_text(&attrs, "service.name"), Some("cm3500-exporter"));
    assert_eq!(pair_text(&attrs, "service.version"), Some("1.2.3"));
    assert_eq!(pair_text(&attrs, "service.instance.id"), Some("https://192.168.100.1"));
    assert_eq!(pair_text(&attrs, "hw.device.vendor"), Some("ARRIS"));
    assert_eq!(pair_text(&attrs, "hw.device.model"), Some("CM3500B CE"));
    let bare = build_resource_attrs(None, None, "1.2.3");
    assert_eq!(pair_text(&bare, "service.instance.id"), Some("unknown"));
}

#[test]
fn resource_attrs_from_a_scrape() {
    let data = otlp_data(vec![wan("aa:bb:cc:dd:ee:ff")]);
    let attrs = build_resource_attrs(Some(&data), None, "0.1.0");
    assert_eq!(pair_text(&attrs, "hw.device.vendor"), Some("ARRIS"));
    assert_eq!(pair_text(&attrs, "hw.device.model"), Some("CM3500 B CE"));
    assert_eq!(pair_text(&attrs, "service.instance.id"), Some("SN123"));
    assert_eq!(pair_text(&attrs, "network.connection.type"), Some("cable"));
    assert_eq!(pair_text(&attrs, "cm3500.firmware.version"), Some("9.1.103"));
    assert_eq!(pair_text(&attrs, "cm3500.firmware.name"), Some("fw.bin"));
}

#[test]
fn device_id_falls_back_to_serial() {
    let zero = otlp_data(vec![wan(""), wan("00:00:00:00:00:00"), wan("aa:bb:cc:dd:ee:ff")]);
    let attrs = build_resource_attrs(Some(&zero), None, "0.1.0");
    assert_eq!(pair_text(&attrs, "hw.device.id"), Some("SN123"));
    let none = otlp_data(vec![]);
    let attrs = build_resource_attrs(Some(&none), None, "0.1.0");
    assert_eq!(pair_text(&attrs, "hw.device.id"), Some("SN123"));
    let later = otlp_data(vec![wan(""), wan("11:22:33:44:55:66")]);
    let attrs = build_resource_attrs(Some(&later), None, "0.1.0");
    assert_eq!(pair_text(&attrs, "hw.device.id"), Some("11:22:33:44:55:66"));
}

#[test]
fn boot_time_subtracts_uptime() {
    assert_eq!(boot_time_nanos(Some(3600), "5000000000000").as_deref(), Some("1400000000000"));
    assert_eq!(boot_time_nanos(Some(10), "1000").as_deref(), Some("0"));
    assert_eq!(boot_time_nanos(None, "1000"), None);
    assert_eq!(boot_time_nanos(Some(1), "12ab"), None);
}

#[test]
fn event_key_joins_the_fields() {
    let e = otlp_event("t", "82000200", 3, "desc");
    assert_eq!(event_key_of(&e), "t|82000200|3|desc");
}

#[test]
fn log_record_carries_the_event() {
    let e = otlp_event(
        "6/2/2026 7:11",
        "82000200",
        3,
        "No Ranging Response received - T3 time-out; CM-MAC=aa:bb:cc:dd:ee:ff; CMTS-MAC=11:22:33:44:55:66;",
    );
    let r: LogRecord = log_record(&e, "1000000000");
    assert_eq!(r.body, e.description);
    assert_eq!(r.time_unix_nano, "1000000000");
    assert_eq!(r.observed_time_unix_nano, "1000000000");
    assert_eq!(attr_text(&r.attributes, "cable_modem.event.id"), Some("82000200"));
    assert_eq!(attr_text(&r.attributes, "cable_modem.event.timestamp"), Some("6/2/2026 7:11"));
    assert_eq!(
        attr_text(&r.attributes, "cable_modem.cm.mac_address"),
        Some("aa:bb:cc:dd:ee:ff")
    );
    let level = r.attributes.iter().find(|a| a.key == "cable_modem.event.level").unwrap();
    assert!(matches!(level.value, AttrValue::Int(3)));

    let plain = log_record(&otlp_event("t", "68010100", 4, "DHCP RENEW sent - No response for IPv4"), "5");
    assert_eq!(attr_text(&plain.attributes, "cable_modem.cm.mac_address"), None);
    assert_eq!(attr_text(&plain.attributes, "cable_modem.cmts.mac_address"), None);
}

#[test]
fn sent_keys_forget_beyond_the_window() {
    let mut sent = SentEventKeys::new();
    let many: Vec<EventLogEntry> =
        (0..300).map(|i| otlp_event(&format!("t{}", i), "1", 6, "x")).collect();
    let first = new_log_records(&mut sent, &many, "1000000000");
    assert_eq!(first.len(), 300);
    assert!(!sent.contains(&event_key_of(&many[0])));
    assert!(sent.contains(&event_key_of(&many[299])));
    assert_eq!(sent.len(), 256);
    let again = new_log_records(&mut sent, &many[..1], "1000000000");
    assert_eq!(again.len(), 1);
}

#[test]
fn duplicate_events_in_one_log_are_sent_once() {
    let mut sent = SentEventKeys::new();
    let e = otlp_event("t", "1", 6, "x");
    let records = new_log_records(&mut sent, &[e.clone(), e.clone()], "1000000000");
    assert_eq!(records.len(), 1);
}

#[test]
fn clock_readings_are_decimal_times() {
    let secs: u64 = cm3500_b_ce_exporter::clock::iso_timestamp_now().parse().unwrap();
    assert!(secs > 1_600_000_000);
    let nanos: u128 = cm3500_b_ce_exporter::clock::now_nanos().parse().unwrap();
    assert!(nanos > 1_600_000_000_000_000_000);
    assert!(nanos / 1_000_000_000 >= secs as u128);
}
