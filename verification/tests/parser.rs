use cm3500_b_ce_exporter::parser::{
    parse_cm_state, parse_cm_status, parse_cpe_counts, parse_dhcp_info, parse_dhcp_remaining,
    parse_dhcp_state, parse_dhcp_time, parse_event_log, parse_interfaces, parse_all, parse_qos,
    parse_service_flow_configs, parse_uptime, parse_version_info,
};
use cm3500_b_ce_exporter::channel_page::{
    is_float_text, parse_channels, parse_downstream_ofdm, parse_downstream_qam, parse_upstream_ofdm,
    parse_upstream_qam,
};
use cm3500_b_ce_exporter::product_page::parse_product_info;
use cm3500_b_ce_exporter::spectrum_page::{bin_extremes, bin_frequency_hz, parse_spectrum};

const PRODUCT_HTML: &str = r#"<tr><td width="160">Ethernet Phy Type</td><td>1x2.5G-GPY21X switch</td></tr>
        <br><b>[3] COMMON_COMPONENTS</b>: Enabled <br>
        <table><tr><td>[ 0] CLI: Enabled </td><td>[ 1] ENVOY: Enabled </td></tr></table>"#;

const SPECTRUM_HTML: &str = r#"<script>var spectrum_data = ["1045a640007270e0000000040001c9c300000001fa24fa10fb64fbdc"];</script>"#;

#[test]
fn test_parse_dhcp_remaining() {
    let html = r#"Lease:</td><td width=310>600 sec (303 sec remaining)</td></tr>"#;
    assert_eq!(parse_dhcp_remaining(html, "Lease:"), Some(303));
    assert_eq!(parse_dhcp_time(html, "Lease:"), Some(600));
}

#[test]
fn test_parse_uptime() {
    let html = r#"System Uptime: </td><td>0 d:  5 h: 34 m</td>"#;
    assert_eq!(parse_uptime(html), Some(5 * 3600 + 34 * 60));
}

#[test]
fn test_parse_event_log() {
    let html = r#"<td align=center>6/2/2026 7:11</td><td align=center>82000200</td><td align=center>3</td><td align=left>No Ranging Response received - T3 time-out;CM-MAC=aa:bb:cc:dd:ee:ff</td>"#;
    let events = parse_event_log(html);
    assert_eq!(events.len(), 1);
    assert_eq!(events[0].event_id, "82000200");
    assert_eq!(events[0].event_level, 3);
    assert!(events[0].description.contains("T3 time-out"));
}

#[test]
fn test_parse_cpe_counts() {
    let html = r#"Computers Detected:</td><td>staticCPE(0), dynamicCPE(1)</td>"#;
    let (s, d) = parse_cpe_counts(html);
    assert_eq!(s, 0);
    assert_eq!(d, 1);
}

#[test]
fn test_parse_dhcp_state() {
    let html = r#"CM Dhcp State : </td> <td> bound</td>"#;
    assert_eq!(parse_dhcp_state(html), "bound");
}

#[test]
fn test_parse_service_flow_configs() {
    let html = r#"
            UpstreamServiceFlow =
                SfClassName = ""
                SfMaxTrafficRate = 128000
                SfMaxTrafficBurst = 3044
                SfMinReservedRate = 0
                SfTrafficPriority = 1
                SfSchedulingType  = 2
            DownstreamServiceFlow =
                SfMaxTrafficRate = 128000
                SfMaxTrafficBurst = 3044
                SfMinReservedRate = 0
                SfTrafficPriority = 1
            DownstreamServiceFlow =
                SfMaxTrafficRate = 1126400
                SfMaxTrafficBurst = 3044
                SfMinReservedRate = 0
                SfTrafficPriority = 1
        "#;
    let flows = parse_service_flow_configs(html);
    assert_eq!(flows.len(), 3);
    assert_eq!(flows[0].direction, "Upstream");
    assert_eq!(flows[0].max_traffic_rate_bps, 128000);
    assert_eq!(flows[0].scheduling_type, 2);
    assert_eq!(flows[1].direction, "Downstream");
    assert_eq!(flows[1].max_traffic_rate_bps, 128000);
    assert_eq!(flows[2].max_traffic_rate_bps, 1126400);
}

#[test]
fn service_flows_are_numbered_and_keep_their_settings() {
    let html = "UpstreamServiceFlow =\n SfMaxTrafficRate = 5000\n SfMaxTrafficBurst = 1522\n SfMinReservedRate = 64\n SfTrafficPriority = 7\nDownstreamServiceFlow =\n";
    let flows = parse_service_flow_configs(html);
    assert_eq!(flows.len(), 2);
    assert_eq!(flows[0].index, 0);
    assert_eq!(flows[1].index, 1);
    assert_eq!(flows[0].max_traffic_burst, 1522);
    assert_eq!(flows[0].min_reserved_rate_bps, 64);
    assert_eq!(flows[0].traffic_priority, 7);
    assert_eq!(flows[0].scheduling_type, 0);
    assert_eq!(flows[1].max_traffic_rate_bps, 0);
    assert!(parse_service_flow_configs("no flows here").is_empty());
}

#[test]
fn uptime_with_days_and_missing() {
    let html = "System Uptime:</td><td>2 d: 1 h: 0 m</td>";
    assert_eq!(parse_uptime(html), Some(2 * 86400 + 3600));
    assert_eq!(parse_uptime("nothing"), None);
}

#[test]
fn missing_fields_are_empty() {
    assert_eq!(parse_cm_status("no status"), "");
    assert_eq!(parse_dhcp_state(""), "");
    assert_eq!(parse_cpe_counts(""), (0, 0));
    assert_eq!(parse_dhcp_time("", "Lease:"), None);
    assert_eq!(parse_dhcp_remaining("Lease:</td><td>600 sec</td>", "Lease:"), None);
}

#[test]
fn cm_status_is_trimmed() {
    assert_eq!(parse_cm_status("CM Status:</td><td> OPERATIONAL </td>"), "OPERATIONAL");
}

#[test]
fn dhcp_info_reads_addresses_and_timers() {
    let html = "CM IP Addr </td><td class=x>10.0.0.5</td> CM Subnet Mask</td><td>255.255.255.0</td> CM IP Gateway</td><td>10.0.0.1</td> Lease:</td><td>600 sec (303 sec remaining)</td> Rebind:</td><td>525 sec (228 sec remaining)</td> Renew:</td><td>300 sec (3 sec remaining)</td>";
    let d = parse_dhcp_info(html);
    assert_eq!(d.cm_ip, "10.0.0.5");
    assert_eq!(d.cm_subnet, "255.255.255.0");
    assert_eq!(d.cm_gateway, "10.0.0.1");
    assert_eq!(d.lease_total_secs, Some(600));
    assert_eq!(d.lease_remaining_secs, Some(303));
    assert_eq!(d.rebind_total_secs, Some(525));
    assert_eq!(d.rebind_remaining_secs, Some(228));
    assert_eq!(d.renew_total_secs, Some(300));
    assert_eq!(d.renew_remaining_secs, Some(3));
}

#[test]
fn qos_rows() {
    let html = "<tr><td>12</td><td>Gold</td><td>Upstream</td><td>Yes</td><td>345</td></tr><tr><td>13</td><td></td><td>Downstream</td><td>No</td><td>0</td></tr>";
    let flows = parse_qos(html);
    assert_eq!(flows.len(), 2);
    assert_eq!(flows[0].sfid, 12);
    assert_eq!(flows[0].service_class, "Gold");
    assert_eq!(flows[0].direction, "Upstream");
    assert!(flows[0].primary);
    assert_eq!(flows[0].packets, 345);
    assert_eq!(flows[1].service_class, "");
    assert!(!flows[1].primary);
}

#[test]
fn cm_state_reads_phases() {
    let html = "<b>CM State:</b> OPERATIONAL <br><td>Docsis-Downstream Scanning</td><td>Completed</td><td class=a>Docsis-Ranging</td> <td>Completed</td> BPI Status</td><td>Enabled</td> Time of Day</td><td>Retrieved</td>";
    let s = parse_cm_state(html);
    assert_eq!(s.overall_state, "OPERATIONAL");
    assert_eq!(s.phases.len(), 2);
    assert_eq!(s.phases[0].phase, "Docsis-Downstream Scanning");
    assert_eq!(s.phases[0].status, "Completed");
    assert_eq!(s.phases[1].phase, "Docsis-Ranging");
    assert_eq!(s.bpi_status, "Enabled");
    assert_eq!(s.tod_status, "Retrieved");
}

#[test]
fn interfaces_are_read_from_their_section() {
    let html = "<tr><td>LAN</td><td>x</td><td>y</td><td>z</td><td>w</td> Interface Parameters<table><tr><td>CABLE</td><td>Enabled</td><td>Up</td><td>1Gbps</td><td>aa:bb:cc:dd:ee:ff</td></tr><tr><td>MTA</td> <td>Disabled</td> <td>Down</td> <td></td> <td>00:00:00:00:00:00</td></tr></table>";
    let ifs = parse_interfaces(html);
    assert_eq!(ifs.len(), 2);
    assert_eq!(ifs[0].name, "CABLE");
    assert_eq!(ifs[0].provisioned, "Enabled");
    assert_eq!(ifs[0].state, "Up");
    assert_eq!(ifs[0].mac_address, "aa:bb:cc:dd:ee:ff");
    assert_eq!(ifs[1].name, "MTA");
    assert!(parse_interfaces("no section").is_empty());
}

#[test]
fn version_info_fields() {
    let vers = "HW_REV: 5\nVENDOR: ARRIS Group, Inc.\nBOOTR: 2.5.0\nSW_REV: 9.1.103\nMODEL: CM3500B\n<td>Serial Number:</td> <td>SN42</td><td>Firmware Name:</td><td>fw.bin</td><td>Firmware Build Time:</td><td>Jan 1</td>";
    let v = parse_version_info(vers, "");
    assert_eq!(v.hardware_rev, "5");
    assert_eq!(v.vendor, "ARRIS Group, Inc.");
    assert_eq!(v.bootloader, "2.5.0");
    assert_eq!(v.software_rev, "9.1.103");
    assert_eq!(v.model, "CM3500B");
    assert_eq!(v.serial, "SN42");
    assert_eq!(v.firmware_name, "fw.bin");
    assert_eq!(v.firmware_build_time, "Jan 1");
}

#[test]
fn firmware_name_falls_back_to_status_page() {
    let v = parse_version_info("", "Firmware Name:</td> <td>status.bin</td>");
    assert_eq!(v.firmware_name, "status.bin");
}

#[test]
fn pages_are_combined() {
    let status = "System Uptime: </td><td>0 d:  5 h: 34 m</td> CM Status:</td><td>OPERATIONAL</td> staticCPE(2), dynamicCPE(3)";
    let data = parse_all(status, "", "CM Dhcp State : </td> <td> bound</td>", "", "", "", "", "", None);
    assert_eq!(data.uptime_seconds, Some(5 * 3600 + 34 * 60));
    assert_eq!(data.cm_status, "OPERATIONAL");
    assert_eq!(data.dhcp_state, "bound");
    assert_eq!((data.cpe_static, data.cpe_dynamic), (2, 3));
    assert!(data.events.is_empty());
    assert!(data.spectrum.is_empty());
}

#[test]
fn dhcp_labels_are_matched_literally() {
    let html = "Lease (v4):</td><td>600 sec (303 sec remaining)</td> Lease v4:</td><td>7 sec";
    assert_eq!(parse_dhcp_time(html, "Lease (v4):"), Some(600));
    assert_eq!(parse_dhcp_remaining(html, "Lease (v4):"), Some(303));
    assert_eq!(parse_dhcp_time("Renew.x:</td><td>5 sec", "Renew?x:"), None);
}

#[test]
fn product_page_gives_phy_and_logging_groups() {
    let p = parse_product_info(PRODUCT_HTML);
    assert_eq!(p.ethernet_phy_type, "1x2.5G-GPY21X switch");
    assert_eq!(p.logging_components_enabled, vec![("COMMON_COMPONENTS".to_string(), 2)]);
    let two = "<b>[1] A</b>: Enabled [ 0] X: Enabled [ 1] Y: Disabled <b>[2] B </b> [ 0] Z: Enabled";
    let p = parse_product_info(two);
    assert_eq!(p.logging_components_enabled, vec![("A".to_string(), 1), ("B".to_string(), 1)]);
    let empty = parse_product_info("");
    assert_eq!(empty.ethernet_phy_type, "");
    assert!(empty.logging_components_enabled.is_empty());
}

#[test]
fn spectrum_response_decodes_chunks() {
    let chunks = parse_spectrum(SPECTRUM_HTML);
    assert_eq!(chunks.len(), 1);
    let c = &chunks[0];
    assert_eq!(c.chunk, 0);
    assert_eq!(c.center_freq_hz, 273_000_000);
    assert_eq!(c.span_hz, 7_500_000);
    assert_eq!(c.bin_spacing_hz, 117_187);
    assert_eq!(c.resolution_bandwidth, 1);
    assert_eq!(c.bins_raw_tenth_dbmv, vec![-1500, -1520, -1180, -1060]);
}

#[test]
fn spectrum_strings_that_do_not_decode_are_skipped() {
    let html = r#"spectrum_data = ["", "1045A640007270E000000002000000010000000A00640001", "1045a640007270e000000009"];"#;
    let chunks = parse_spectrum(html);
    assert_eq!(chunks.len(), 1);
    assert_eq!(chunks[0].chunk, 1);
    assert_eq!(chunks[0].bins_raw_tenth_dbmv, vec![100, 1]);
    assert_eq!(chunks[0].resolution_bandwidth, 10);
    assert!(parse_spectrum("no scan").is_empty());
}

#[test]
fn pages_with_product_and_spectrum() {
    let data = parse_all("", "", "", "", "", "", "", PRODUCT_HTML, Some(SPECTRUM_HTML));
    assert_eq!(data.product_info.ethernet_phy_type, "1x2.5G-GPY21X switch");
    assert_eq!(data.spectrum.len(), 1);
    let without = parse_all("", "", "", "", "", "", "", PRODUCT_HTML, None);
    assert!(without.spectrum.is_empty());
}

#[test]
fn spectrum_bin_extremes_and_frequencies() {
    let chunks = parse_spectrum(SPECTRUM_HTML);
    let c = &chunks[0];
    assert_eq!(bin_extremes(&c.bins_raw_tenth_dbmv), Some((-1520, -1060)));
    assert_eq!(bin_extremes(&[]), None);
    assert_eq!(bin_frequency_hz(c, 0), Some(273_000_000 - 3_750_000));
    assert_eq!(bin_frequency_hz(c, 3), Some(273_000_000 - 3_750_000 + 3 * 117_187));
    let mut odd = c.clone();
    odd.span_hz = -7;
    odd.center_freq_hz = 0;
    assert_eq!(bin_frequency_hz(&odd, 0), Some(3));
    odd.bin_spacing_hz = i64::MAX;
    assert_eq!(bin_frequency_hz(&odd, 2), None);
}

#[test]
fn test_parse_downstream_qam() {
    let html = r#"<tr><td>Downstream 1</td><td>3</td><td>570.00 MHz</td><td>2.20 dBmV</td><td>40.37 dB</td><td>256QAM</td><td>2858</td><td>12</td><td>0</td></tr>"#;
    let channels = parse_downstream_qam(html);
    assert_eq!(channels.len(), 1);
    assert_eq!(channels[0].dcid, 3);
    let power: f64 = channels[0].power_dbmv.parse().unwrap();
    assert!((power - 2.20).abs() < 0.01);
}

#[test]
fn test_parse_negative_power() {
    let html = r#"<tr><td>Downstream 17</td><td>18</td><td>698.00 MHz</td><td>-2.50 dBmV</td><td>36.34 dB</td><td>64QAM</td><td>370</td><td>11</td><td>0</td></tr>"#;
    let channels = parse_downstream_qam(html);
    assert_eq!(channels.len(), 1);
    let power: f64 = channels[0].power_dbmv.parse().unwrap();
    assert!((power - (-2.50)).abs() < 0.01);
}

#[test]
fn downstream_qam_row_fields() {
    let html = "<td>Downstream 1</td><td>3</td><td>570.00 MHz</td><td>2.20 dBmV</td><td>40.37 dB</td><td>256QAM</td><td>2858</td><td>12</td><td>0</td>\
<td>Downstream 2</td><td>4</td><td>5.7.0 MHz</td><td>2.20 dBmV</td><td>40.37 dB</td><td>256QAM</td><td>1</td><td>1</td><td>1</td>";
    let rows = parse_downstream_qam(html);
    assert_eq!(rows.len(), 1);
    let r = &rows[0];
    assert_eq!((r.channel, r.dcid), (1, 3));
    assert_eq!(r.freq_mhz, "570.00");
    assert_eq!(r.snr_db, "40.37");
    assert_eq!(r.modulation, "256QAM");
    assert_eq!((r.octets, r.correcteds, r.uncorrectables), (2858, 12, 0));
}

#[test]
fn other_channel_tables() {
    let ofdm = "<td>Downstream 33</td><td>4K</td><td>190</td><td>3800</td><td>1</td><td>2</td><td>44.1</td><td>40</td><td>39.5</td>";
    let d = parse_downstream_ofdm(ofdm);
    assert_eq!(d.len(), 1);
    assert_eq!((d[0].channel, d[0].fft_type.as_str(), d[0].active_subcarriers), (33, "4K", 3800));
    assert_eq!((d[0].channel_width_mhz.as_str(), d[0].rxmer_pilot_db.as_str(), d[0].rxmer_data_db.as_str()), ("190", "44.1", "39.5"));
    let usq = "<td>Upstream 2</td><td>5</td><td>30.80 MHz</td><td>45.25 dBmV</td><td> ATDMA </td><td>5120 kSym/s</td><td>64QAM</td>";
    let u = parse_upstream_qam(usq);
    assert_eq!(u.len(), 1);
    assert_eq!((u[0].ucid, u[0].channel_type.as_str(), u[0].symbol_rate_ksym.as_str()), (5, "ATDMA", "5120"));
    let uso = "<td>Upstream 9</td><td>2K</td><td>44.4</td><td>880</td><td>40.5</td><td>84.9</td><td>-1.5</td>";
    let o = parse_upstream_ofdm(uso);
    assert_eq!(o.len(), 1);
    assert_eq!((o[0].first_active_subcarrier_mhz.as_str(), o[0].last_active_subcarrier_mhz.as_str(), o[0].tx_power_dbmv.as_str()), ("40.5", "84.9", "-1.5"));
    let all = parse_channels(&format!("{}{}{}", ofdm, usq, uso));
    assert_eq!((all.downstream_ofdm.len(), all.upstream_qam.len(), all.upstream_ofdm.len()), (1, 1, 1));
    assert!(all.downstream_qam.is_empty());
}

#[test]
fn decimal_texts_are_what_f64_parsing_accepts() {
    for t in ["2.20", "-2.50", "570", "5.", ".5", "-.5", "0"] {
        assert!(is_float_text(t), "{}", t);
        assert!(t.parse::<f64>().is_ok(), "{}", t);
    }
    for t in [".", "-", "", "1.2.3", "--1", "1-2"] {
        assert!(!is_float_text(t), "{}", t);
        assert!(t.parse::<f64>().is_err(), "{}", t);
    }
}
