use cm3500_b_ce_exporter::channels::{
    render_channels, ChannelReadings, DownstreamOfdmReading, DownstreamQamReading,
    UpstreamOfdmReading, UpstreamQamReading,
};
use cm3500_b_ce_exporter::metrics::{
    counter, escape, format_labels, gauge, header, labeled_metric, metric, render_cm_state,
    render_configuration, render_cpe, render_dhcp, render_error_metrics, render_event_log,
    render_identity, render_interfaces, render_metrics, render_product_info, render_qos,
    render_readings, render_service_flow_configs,
};
use cm3500_b_ce_exporter::parser::parse_all;
use cm3500_b_ce_exporter::spectrum::{render_spectrum, SpectrumBinReading, SpectrumReading};
use cm3500_b_ce_exporter::parser::{
    CmState, DhcpInfo, DocsisPhase, EventLogEntry, InterfaceInfo, ProductInfo, QosFlow,
    ScrapedData, ServiceFlowConfig, VersionInfo,
};

fn metrics_event(id: &str, description: &str) -> EventLogEntry {
    EventLogEntry {
        timestamp: "6/2/2026 7:11".into(),
        event_id: id.into(),
        event_level: 5,
        description: description.into(),
    }
}

fn empty_dhcp() -> DhcpInfo {
    DhcpInfo {
        cm_ip: String::new(),
        cm_subnet: String::new(),
        cm_gateway: String::new(),
        lease_total_secs: None,
        lease_remaining_secs: None,
        rebind_total_secs: None,
        rebind_remaining_secs: None,
        renew_total_secs: None,
        renew_remaining_secs: None,
    }
}

fn metrics_data() -> ScrapedData {
    ScrapedData {
        uptime_seconds: Some(20040),
        cm_status: "OPERATIONAL".into(),
        version_info: VersionInfo {
            hardware_rev: "5".into(),
            vendor: "ARRIS".into(),
            bootloader: "2.5".into(),
            software_rev: "9.1".into(),
            model: "CM3500B".into(),
            serial: "SN1".into(),
            firmware_name: "fw".into(),
            firmware_build_time: String::new(),
        },
        dhcp_info: empty_dhcp(),
        qos_flows: vec![],
        cm_state: CmState {
            overall_state: String::new(),
            phases: vec![],
            bpi_status: String::new(),
            tod_status: String::new(),
        },
        events: vec![],
        interfaces: vec![],
        product_info: ProductInfo { ethernet_phy_type: String::new(), logging_components_enabled: vec![] },
        spectrum: vec![],
        cpe_static: 0,
        cpe_dynamic: 1,
        dhcp_state: "bound".into(),
        service_flow_configs: vec![],
    }
}

#[test]
fn test_error_metrics() {
    let duration: f64 = 2.5;
    let output = render_error_metrics("connection refused", &format!("{}", duration));
    assert!(output.contains("cm3500_up 0"));
    assert!(output.contains("cm3500_scrape_duration_seconds 2.5"));
    assert!(output.contains("cm3500_scrape_error{error=\"connection refused\"}"));
}

#[test]
fn error_metrics_exact_text() {
    let output = render_error_metrics("bad \"x\"", "1");
    assert_eq!(
        output,
        "# HELP cm3500_up Whether the modem scrape was successful\n# TYPE cm3500_up gauge\ncm3500_up 0\n\n\
# HELP cm3500_scrape_duration_seconds Duration of the last scrape in seconds\n# TYPE cm3500_scrape_duration_seconds gauge\ncm3500_scrape_duration_seconds 1\n\n\
# HELP cm3500_scrape_error Last scrape error message\n# TYPE cm3500_scrape_error gauge\ncm3500_scrape_error{error=\"bad \\\"x\\\"\"} 1\n\n"
    );
}

#[test]
fn escapes_label_values() {
    assert_eq!(escape("a\\b\"c\nd"), "a\\\\b\\\"c\\nd");
    assert_eq!(escape("plain"), "plain");
    assert_eq!(escape(""), "");
}

#[test]
fn formats_label_sets() {
    assert_eq!(format_labels(&[]), "");
    assert_eq!(format_labels(&[("a", "1")]), "{a=\"1\"}");
    assert_eq!(format_labels(&[("a", "1"), ("b", "x\"y")]), "{a=\"1\",b=\"x\\\"y\"}");
}

#[test]
fn writes_families_and_samples() {
    let mut out = String::new();
    header(&mut out, "m", "help text", "gauge");
    assert_eq!(out, "# HELP m help text\n# TYPE m gauge\n");
    let mut out = String::new();
    metric(&mut out, "m", "h", "counter", "7");
    assert_eq!(out, "# HELP m h\n# TYPE m counter\nm 7\n\n");
    let mut out = String::new();
    labeled_metric(&mut out, "m", "h", "gauge", &[("k", "v")], "1");
    assert_eq!(out, "# HELP m h\n# TYPE m gauge\nm{k=\"v\"} 1\n\n");
    let mut out = String::new();
    gauge(&mut out, "g", &[("c", "3")], 18446744073709551615);
    counter(&mut out, "c", &[], 0);
    assert_eq!(out, "g{c=\"3\"} 18446744073709551615\nc 0\n");
}

#[test]
fn renders_cpe_counts() {
    let mut out = String::new();
    render_cpe(&mut out, 0, 1);
    assert!(out.contains("cm3500_cpe_dynamic 1\n"));
    assert!(out.contains("cm3500_cpe_static 0\n"));
    assert!(out.find("cm3500_cpe_static").unwrap() < out.find("cm3500_cpe_dynamic").unwrap());
}

#[test]
fn renders_dhcp_only_known_timers() {
    let mut dhcp = empty_dhcp();
    dhcp.lease_remaining_secs = Some(303);
    dhcp.lease_total_secs = Some(600);
    let mut out = String::new();
    render_dhcp(&mut out, &dhcp, "bound");
    assert!(out.contains("cm3500_dhcp_state{state=\"bound\"} 1\n"));
    assert!(out.contains("cm3500_dhcp_lease_total_seconds 600\n"));
    assert!(out.contains("cm3500_dhcp_lease_remaining_seconds 303\n"));
    assert!(!out.contains("cm3500_dhcp_rebind_remaining_seconds"));
    let mut none = String::new();
    render_dhcp(&mut none, &empty_dhcp(), "");
    assert_eq!(none, "");
}

#[test]
fn renders_qos_flows() {
    let flows = vec![QosFlow {
        sfid: 12,
        service_class: "Gold".into(),
        direction: "Upstream".into(),
        primary: true,
        packets: 345,
    }];
    let mut out = String::new();
    render_qos(&mut out, &flows);
    assert_eq!(
        out,
        "# HELP cm3500_qos_packets_total Total packets on QoS service flow\n# TYPE cm3500_qos_packets_total counter\ncm3500_qos_packets_total{sfid=\"12\",direction=\"Upstream\",primary=\"true\",service_class=\"Gold\"} 345\n"
    );
    let mut none = String::new();
    render_qos(&mut none, &[]);
    assert_eq!(none, "");
}

#[test]
fn renders_docsis_state() {
    let state = CmState {
        overall_state: "OPERATIONAL".into(),
        phases: vec![DocsisPhase { phase: "Docsis-Downstream Scanning".into(), status: "Completed".into() }],
        bpi_status: "Enabled".into(),
        tod_status: String::new(),
    };
    let mut out = String::new();
    render_cm_state(&mut out, &state);
    assert!(out.contains("cm3500_docsis_state{state=\"OPERATIONAL\"} 1\n"));
    assert!(out.contains("cm3500_docsis_phase{phase=\"docsis_downstream_scanning\",status=\"Completed\"} 1\n"));
    assert!(out.contains("cm3500_bpi_state{status=\"Enabled\"} 1\n"));
    assert!(!out.contains("cm3500_tod_state"));
}

#[test]
fn renders_interfaces() {
    let interfaces = vec![
        InterfaceInfo {
            name: "CABLE".into(),
            provisioned: "Enabled".into(),
            state: "Up".into(),
            mac_address: "aa:bb".into(),
        },
        InterfaceInfo {
            name: "MTA".into(),
            provisioned: "Disabled".into(),
            state: "Down".into(),
            mac_address: "cc:dd".into(),
        },
    ];
    let mut out = String::new();
    render_interfaces(&mut out, &interfaces);
    assert!(out.contains("cm3500_interface_up{name=\"CABLE\",provisioned=\"Enabled\",mac_address=\"aa:bb\"} 1\n"));
    assert!(out.contains("cm3500_interface_up{name=\"MTA\",provisioned=\"Disabled\",mac_address=\"cc:dd\"} 0\n"));
}

#[test]
fn renders_product_details() {
    let product = ProductInfo {
        ethernet_phy_type: "1x2.5G-GPY21X switch".into(),
        logging_components_enabled: vec![("docsis".into(), 3), ("wifi".into(), 0)],
    };
    let mut out = String::new();
    render_product_info(&mut out, &product);
    assert!(out.contains("cm3500_product_ethernet_phy_info{phy_type=\"1x2.5G-GPY21X switch\"} 1\n"));
    assert!(out.contains("cm3500_product_logging_components_enabled{group=\"docsis\"} 3\n"));
    assert!(out.contains("cm3500_product_logging_components_enabled{group=\"wifi\"} 0\n"));
}

#[test]
fn renders_service_flow_families() {
    let flows = vec![
        ServiceFlowConfig {
            direction: "Upstream".into(),
            index: 0,
            max_traffic_rate_bps: 128000,
            max_traffic_burst: 3044,
            min_reserved_rate_bps: 0,
            traffic_priority: 1,
            scheduling_type: 2,
        },
        ServiceFlowConfig {
            direction: "Downstream".into(),
            index: 1,
            max_traffic_rate_bps: 1126400,
            max_traffic_burst: 3044,
            min_reserved_rate_bps: 0,
            traffic_priority: 1,
            scheduling_type: 0,
        },
    ];
    let mut out = String::new();
    render_service_flow_configs(&mut out, &flows);
    assert!(out.contains(
        "cm3500_qos_max_traffic_rate_kbps{direction=\"Upstream\",flow_index=\"0\"} 128000\n"
    ));
    assert!(out.contains(
        "cm3500_qos_max_traffic_rate_kbps{direction=\"Downstream\",flow_index=\"1\"} 1126400\n"
    ));
    assert!(out.contains("cm3500_qos_min_reserved_rate_kbps{direction=\"Upstream\",flow_index=\"0\"} 0\n"));
    assert!(out.contains("cm3500_qos_max_traffic_burst{direction=\"Upstream\",flow_index=\"0\"} 3044\n"));
    assert!(out.contains("cm3500_qos_traffic_priority{direction=\"Downstream\",flow_index=\"1\"} 1\n"));
    let mut none = String::new();
    render_service_flow_configs(&mut none, &[]);
    assert_eq!(none, "");
}

#[test]
fn renders_event_log_counts_and_profiles() {
    let events = vec![
        metrics_event("82000200", "No Ranging Response received - T3 time-out"),
        metrics_event("68001202", "DHCP failed"),
        metrics_event("82000200", "No Ranging Response received - T3 time-out"),
        metrics_event(
            "67061601",
            "US profile assignment change.  US Chan ID: 10; Previous Profile: 9; New Profile: 12.;CM-MAC=aa",
        ),
        metrics_event(
            "67061601",
            "US profile assignment change.  US Chan ID: 10; Previous Profile: 12; New Profile: 13.;CM-MAC=aa",
        ),
        metrics_event(
            "74010100",
            "CM-STATUS message sent.  Event Type Code: 16; Chan ID: 33; DSID: N/A; MAC Addr: N/A; OFDM/OFDMA Profile ID: 2.;CM-MAC=aa",
        ),
    ];
    let mut out = String::new();
    render_event_log(&mut out, &events);
    assert!(out.contains("cm3500_event_log_entries{event_id=\"82000200\"} 2\n"));
    assert!(out.contains("cm3500_event_log_entries{event_id=\"68001202\"} 1\n"));
    assert!(out.contains("cm3500_event_log_entries{event_id=\"67061601\"} 2\n"));
    assert!(out.contains("cm3500_event_t3_timeouts 2\n"));
    assert!(out.contains("cm3500_event_t4_timeouts 0\n"));
    assert!(out.contains("cm3500_event_dhcp_failures 1\n"));
    assert!(out.contains("cm3500_event_profile_changes 2\n"));
    assert!(out.contains("cm3500_event_upstream_active_profile{channel=\"10\"} 13\n"));
    assert!(out.contains("cm3500_event_ofdma_profile_id{channel=\"33\"} 2\n"));
    let mut none = String::new();
    render_event_log(&mut none, &[]);
    assert_eq!(none, "");
}

#[test]
fn renders_identity_and_sections() {
    let data = metrics_data();
    let mut out = String::new();
    render_identity(&mut out, &data);
    assert!(out.contains("cm3500_info{model=\"CM3500B\",serial=\"SN1\",firmware=\"9.1\",firmware_name=\"fw\",bootloader=\"2.5\",hardware_rev=\"5\",vendor=\"ARRIS\"} 1\n"));
    assert!(out.contains("cm3500_uptime_seconds 20040\n"));
    assert!(out.contains("cm3500_cm_status{status=\"OPERATIONAL\"} 1\n"));

    let mut readings = String::new();
    render_readings(&mut readings, &data);
    assert!(readings.contains("cm3500_dhcp_state{state=\"bound\"} 1\n"));

    let mut config = String::new();
    render_configuration(&mut config, &data);
    assert!(config.contains("cm3500_cpe_dynamic 1\n"));
    assert!(config.contains("cm3500_cpe_static 0\n"));
}

fn metrics_channels() -> ChannelReadings {
    ChannelReadings {
        downstream_qam: vec![DownstreamQamReading {
            channel: 1,
            dcid: 3,
            frequency_mhz: "570.00".into(),
            power_dbmv: "2.2".into(),
            snr_db: "40.37".into(),
            modulation: "256QAM".into(),
            octets: 2858,
            correcteds: 12,
            uncorrectables: 0,
        }],
        downstream_ofdm: vec![DownstreamOfdmReading {
            channel: 33,
            fft_type: "4K".into(),
            channel_width_mhz: "190".into(),
            active_subcarriers: 3800,
            rxmer_pilot_db: "44.1".into(),
            rxmer_plc_db: "40".into(),
            rxmer_data_db: "39.5".into(),
        }],
        upstream_qam: vec![UpstreamQamReading {
            channel: 2,
            ucid: 5,
            frequency_mhz: "30.80".into(),
            power_dbmv: "45.25".into(),
            channel_type: "ATDMA".into(),
            symbol_rate_ksym: "5120".into(),
            modulation: "64QAM".into(),
        }],
        upstream_ofdm: vec![UpstreamOfdmReading {
            channel: 9,
            fft_type: "2K".into(),
            channel_width_mhz: "44.4".into(),
            active_subcarriers: 880,
            first_active_subcarrier_mhz: "40.5".into(),
            last_active_subcarrier_mhz: "84.9".into(),
            tx_power_dbmv: "-1.5".into(),
        }],
    }
}

#[test]
fn renders_channel_sections() {
    let mut out = String::new();
    render_channels(&mut out, &metrics_channels());
    assert!(out.contains("cm3500_downstream_qam_power_dbmv{channel=\"1\",dcid=\"3\",frequency_mhz=\"570.00\",modulation=\"256QAM\"} 2.2\n"));
    assert!(out.contains("cm3500_downstream_qam_snr_db{channel=\"1\",dcid=\"3\",frequency_mhz=\"570.00\",modulation=\"256QAM\"} 40.37\n"));
    assert!(out.contains("# TYPE cm3500_downstream_qam_octets_total counter\ncm3500_downstream_qam_octets_total{channel=\"1\",dcid=\"3\"} 2858\n"));
    assert!(out.contains("cm3500_downstream_qam_corrected_total{channel=\"1\",dcid=\"3\"} 12\n"));
    assert!(out.contains("cm3500_downstream_qam_uncorrectable_total{channel=\"1\",dcid=\"3\"} 0\n"));
    assert!(out.contains("cm3500_downstream_ofdm_channel_width_mhz{channel=\"33\",fft_type=\"4K\"} 190\n"));
    assert!(out.contains("cm3500_downstream_ofdm_active_subcarriers{channel=\"33\"} 3800\n"));
    assert!(out.contains("cm3500_downstream_ofdm_rxmer_db{channel=\"33\",measurement=\"pilot\"} 44.1\ncm3500_downstream_ofdm_rxmer_db{channel=\"33\",measurement=\"plc\"} 40\ncm3500_downstream_ofdm_rxmer_db{channel=\"33\",measurement=\"data\"} 39.5\n"));
    assert!(out.contains("cm3500_upstream_qam_power_dbmv{channel=\"2\",ucid=\"5\",frequency_mhz=\"30.80\",modulation=\"64QAM\",channel_type=\"ATDMA\"} 45.25\n"));
    assert!(out.contains("cm3500_upstream_qam_symbol_rate_ksym{channel=\"2\",ucid=\"5\"} 5120\n"));
    assert!(out.contains("cm3500_upstream_ofdma_tx_power_dbmv{channel=\"9\",fft_type=\"2K\"} -1.5\n"));
    assert!(out.contains("cm3500_upstream_ofdma_channel_width_mhz{channel=\"9\"} 44.4\n"));
    assert!(out.contains("cm3500_upstream_ofdma_active_subcarriers{channel=\"9\"} 880\n"));
    assert!(out.contains("cm3500_upstream_ofdma_active_subcarrier_range_mhz{channel=\"9\",edge=\"first\"} 40.5\ncm3500_upstream_ofdma_active_subcarrier_range_mhz{channel=\"9\",edge=\"last\"} 84.9\n"));
    let order = [
        "# HELP cm3500_downstream_qam_power_dbmv",
        "# HELP cm3500_downstream_qam_snr_db",
        "# HELP cm3500_downstream_qam_octets_total",
        "# HELP cm3500_downstream_ofdm_channel_width_mhz",
        "# HELP cm3500_upstream_qam_power_dbmv",
        "# HELP cm3500_upstream_ofdma_tx_power_dbmv",
        "# HELP cm3500_upstream_ofdma_active_subcarrier_range_mhz",
    ];
    for pair in order.windows(2) {
        assert!(out.find(pair[0]).unwrap() < out.find(pair[1]).unwrap());
    }
    let empty = ChannelReadings { downstream_qam: vec![], downstream_ofdm: vec![], upstream_qam: vec![], upstream_ofdm: vec![] };
    let mut none = String::new();
    render_channels(&mut none, &empty);
    assert_eq!(none, "");
}

fn pipeline_output() -> String {
    let status = "System Uptime: </td><td>0 d:  5 h: 34 m</td> CM Status:</td><td>OPERATIONAL</td> staticCPE(0), dynamicCPE(1) Interface Parameters<table><tr><td>CABLE</td><td>Enabled</td><td>Up</td><td>1Gbps</td><td>aa:bb:cc:dd:ee:ff</td></tr></table>";
    let vers = "MODEL: CM3500B\nSW_REV: 9.1\n";
    let dhcp = "CM Dhcp State : </td> <td> bound</td> Lease:</td><td width=310>600 sec (303 sec remaining)</td></tr>";
    let qos = "<tr><td>12</td><td>Gold</td><td>Upstream</td><td>Yes</td><td>345</td></tr>";
    let cm_state = "<b>CM State:</b>OPERATIONAL<br><td>Docsis-Ranging</td><td>Completed</td> BPI Status</td><td>Enabled</td> Time of Day</td><td>Retrieved</td>";
    let events = "<td align=center>6/2/2026 7:11</td><td align=center>82000200</td><td align=center>3</td><td align=left>No Ranging Response received - T3 time-out;CM-MAC=aa:bb:cc:dd:ee:ff</td>\
<td align=center>6/2/2026 7:14</td><td align=center>67061601</td><td align=center>6</td><td align=left>US profile assignment change.  US Chan ID: 10; Previous Profile: 9; New Profile: 12.;CM-MAC=aa</td>\
<td align=center>6/2/2026 7:15</td><td align=center>74010100</td><td align=center>6</td><td align=left>CM-STATUS message sent.  Event Type Code: 16; Chan ID: 33; DSID: N/A; MAC Addr: N/A; OFDM/OFDMA Profile ID: 2.;CM-MAC=aa</td>";
    let config = "UpstreamServiceFlow =\n SfMaxTrafficRate = 128000\nDownstreamServiceFlow =\n SfMaxTrafficRate = 1126400\n";
    let product = r#"<tr><td width="160">Ethernet Phy Type</td><td>1x2.5G-GPY21X switch</td></tr>
        <br><b>[3] COMMON_COMPONENTS</b>: Enabled <br>
        <table><tr><td>[ 0] CLI: Enabled </td><td>[ 1] ENVOY: Enabled </td></tr></table>"#;
    let spectrum = r#"<script>var spectrum_data = ["1045a640007270e0000000040001c9c300000001fa24fa10fb64fbdc"];</script>"#;
    let data = parse_all(status, vers, dhcp, qos, cm_state, events, config, product, Some(spectrum));
    assert_eq!(data.product_info.ethernet_phy_type, "1x2.5G-GPY21X switch");
    assert_eq!(data.spectrum.len(), 1);
    render_metrics(&data, &format!("{}", 1.5_f64), &metrics_channels(), &[])
}

#[test]
fn full_page_carries_every_section() {
    let output = pipeline_output();
    assert!(output.starts_with("# HELP cm3500_up Whether the modem scrape was successful\n# TYPE cm3500_up gauge\ncm3500_up 1\n\n"));
    assert!(output.contains("cm3500_scrape_duration_seconds 1.5"));
    assert!(output.contains("cm3500_cm_status{status=\"OPERATIONAL\"}"));
    assert!(output.contains("cm3500_uptime_seconds 20040"));
    assert!(output.contains("cm3500_downstream_qam_power_dbmv{"));
    assert!(output.contains("cm3500_downstream_ofdm_rxmer_db{"));
    assert!(output.contains("cm3500_upstream_qam_power_dbmv{"));
    assert!(output.contains("cm3500_upstream_ofdma_tx_power_dbmv{"));
    assert!(output.contains("cm3500_dhcp_lease_remaining_seconds 303"));
    assert!(output.contains("cm3500_dhcp_state{state=\"bound\"}"));
    assert!(output.contains("cm3500_cpe_dynamic 1"));
    assert!(output.contains("cm3500_cpe_static 0"));
    assert!(output.contains("cm3500_interface_up{name=\"CABLE\""));
    assert!(output.contains("cm3500_event_log_entries{event_id=\"82000200\"} 1"));
    assert!(output.contains("cm3500_event_t3_timeouts 1"));
    assert!(output.contains("cm3500_event_upstream_active_profile{channel=\"10\"} 12"));
    assert!(output.contains("cm3500_event_ofdma_profile_id{channel=\"33\"} 2"));
    assert!(output.contains("cm3500_docsis_state{state=\"OPERATIONAL\"}"));
    assert!(output.contains("cm3500_bpi_state{status=\"Enabled\"}"));
    assert!(output.contains("cm3500_tod_state{status=\"Retrieved\"}"));
    assert!(output.contains("cm3500_qos_max_traffic_rate_kbps{direction=\"Upstream\",flow_index=\"0\"} 128000"));
    assert!(output.contains("cm3500_qos_max_traffic_rate_kbps{direction=\"Downstream\",flow_index=\"1\"} 1126400"));
    assert!(output.contains("# TYPE cm3500_downstream_qam_octets_total counter"));
    assert!(output.contains("# TYPE cm3500_qos_packets_total counter"));
    assert!(output.contains("cm3500_info{model=\"CM3500B\""));
    assert!(output.contains("cm3500_product_ethernet_phy_info{phy_type=\"1x2.5G-GPY21X switch\"} 1"));
    assert!(output.contains("cm3500_product_logging_components_enabled{group=\"COMMON_COMPONENTS\"} 2"));
}

#[test]
fn every_sample_line_has_a_numeric_value() {
    let output = pipeline_output();
    for line in output.lines() {
        if line.is_empty() || line.starts_with('#') {
            continue;
        }
        let parts: Vec<&str> = line.rsplitn(2, ' ').collect();
        assert_eq!(parts.len(), 2, "Line should split into metric+value: {}", line);
        assert!(parts[0].parse::<f64>().is_ok(), "Value should be a number: '{}' in line '{}'", parts[0], line);
    }
}

fn metrics_spectrum() -> Vec<SpectrumReading> {
    vec![
        SpectrumReading {
            chunk: 0,
            center_mhz: "500.000".into(),
            min_dbmv: "-1.5".into(),
            avg_dbmv: "-1.25".into(),
            max_dbmv: "-1".into(),
            span_hz: "1000000".into(),
            bin_spacing_hz: "500000".into(),
            resolution_bandwidth: "30000".into(),
            bins: vec![
                SpectrumBinReading { power_dbmv: "-1.5".into(), frequency_mhz: "499.500000".into() },
                SpectrumBinReading { power_dbmv: "-1".into(), frequency_mhz: "500.000000".into() },
            ],
        },
        SpectrumReading {
            chunk: 1,
            center_mhz: "501.000".into(),
            min_dbmv: String::new(),
            avg_dbmv: String::new(),
            max_dbmv: String::new(),
            span_hz: "1000000".into(),
            bin_spacing_hz: "500000".into(),
            resolution_bandwidth: "30000".into(),
            bins: vec![],
        },
    ]
}

#[test]
fn renders_spectrum_section() {
    let mut out = String::new();
    render_spectrum(&mut out, &metrics_spectrum());
    assert!(out.starts_with("# HELP cm3500_spectrum_chunks Number of spectrum scan chunks returned by the modem\n# TYPE cm3500_spectrum_chunks gauge\ncm3500_spectrum_chunks 2\n\n"));
    assert!(out.contains("cm3500_spectrum_chunk_power_dbmv{chunk=\"0\",center_mhz=\"500.000\",stat=\"min\"} -1.5\n"));
    assert!(out.contains("cm3500_spectrum_chunk_power_dbmv{chunk=\"0\",center_mhz=\"500.000\",stat=\"avg\"} -1.25\n"));
    assert!(out.contains("cm3500_spectrum_chunk_metadata{chunk=\"0\",center_mhz=\"500.000\",kind=\"resolution_bandwidth\"} 30000\n"));
    assert!(out.contains("cm3500_spectrum_bin_power_dbmv{chunk=\"0\",bin=\"1\",frequency_mhz=\"500.000000\"} -1\n"));
    assert!(!out.contains("chunk=\"1\""));
    let mut none = String::new();
    render_spectrum(&mut none, &[]);
    assert_eq!(none, "");
}

#[test]
fn spectrum_sits_before_the_configuration() {
    let data = parse_all("staticCPE(4), dynamicCPE(5)", "", "", "", "", "", "", "", None);
    let empty = ChannelReadings { downstream_qam: vec![], downstream_ofdm: vec![], upstream_qam: vec![], upstream_ofdm: vec![] };
    let out = render_metrics(&data, "0.25", &empty, &metrics_spectrum());
    let s = out.find("# HELP cm3500_spectrum_chunks").unwrap();
    assert!(s < out.find("# HELP cm3500_cpe_static").unwrap());
    assert!(out.find("cm3500_scrape_duration_seconds 0.25").unwrap() < s);
    assert!(out.contains("cm3500_cpe_static 4\n"));
}
