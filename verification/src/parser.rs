//! The modem's readings, as parsed from its status pages.
//!
//! Each reading is found by a regular expression; what a pattern matches is
//! named by `crate::pattern`, and each parser states what it makes of the
//! matches.
use vstd::prelude::*;

use crate::num::{parse_bounded, parse_digits_bounded};
use crate::product_page::{group_views, logging_groups, parse_product_info, PHY_PATTERN};
use crate::spectrum_page::{chunk_view, parse_spectrum, spectrum_chunks};
use crate::pattern::{
    all_matches, captured_view, compile, escape_literal, first_match, regex_all, regex_escape,
    regex_first, regex_valid, Captured,
};
use crate::text::{
    chars_of, keep_some, lemma_keep_some_step, opt_view, push_str, str_eq, trim, trim_str,
};

verus! {

/// One QoS service flow from the QoS page.
#[derive(Debug, Clone)]
pub struct QosFlow {
    pub sfid: u64,
    pub service_class: String,
    pub direction: String,
    pub primary: bool,
    pub packets: u64,
}

/// One DOCSIS registration phase and its status.
#[derive(Debug, Clone)]
pub struct DocsisPhase {
    pub phase: String,
    pub status: String,
}

/// Hardware and firmware identification.
#[derive(Debug, Clone)]
pub struct VersionInfo {
    pub hardware_rev: String,
    pub vendor: String,
    pub bootloader: String,
    pub software_rev: String,
    pub model: String,
    pub serial: String,
    pub firmware_name: String,
    pub firmware_build_time: String,
}

/// DHCP lease details.
#[derive(Debug, Clone)]
pub struct DhcpInfo {
    pub cm_ip: String,
    pub cm_subnet: String,
    pub cm_gateway: String,
    pub lease_total_secs: Option<u64>,
    pub lease_remaining_secs: Option<u64>,
    pub rebind_total_secs: Option<u64>,
    pub rebind_remaining_secs: Option<u64>,
    pub renew_total_secs: Option<u64>,
    pub renew_remaining_secs: Option<u64>,
}

/// DOCSIS registration state.
#[derive(Debug, Clone)]
pub struct CmState {
    pub overall_state: String,
    pub phases: Vec<DocsisPhase>,
    pub bpi_status: String,
    pub tod_status: String,
}

/// One entry of the modem's event log.
#[derive(Debug, Clone)]
pub struct EventLogEntry {
    pub timestamp: String,
    pub event_id: String,
    pub event_level: u32,
    pub description: String,
}

/// One network interface of the modem.
#[derive(Debug, Clone)]
pub struct InterfaceInfo {
    pub name: String,
    pub provisioned: String,
    pub state: String,
    pub mac_address: String,
}

/// One service flow of the modem's configuration file.
#[derive(Debug, Clone)]
pub struct ServiceFlowConfig {
    pub direction: String,
    pub index: u32,
    pub max_traffic_rate_bps: u64,
    pub max_traffic_burst: u64,
    pub min_reserved_rate_bps: u64,
    pub traffic_priority: u32,
    pub scheduling_type: u32,
}

/// Product details: the Ethernet PHY and the enabled logging components.
#[derive(Debug, Clone)]
pub struct ProductInfo {
    pub ethernet_phy_type: String,
    pub logging_components_enabled: Vec<(String, u32)>,
}

/// One chunk of a spectrum scan; bin powers are in tenths of a dBmV.
#[derive(Debug, Clone)]
pub struct SpectrumChunk {
    pub chunk: u32,
    pub center_freq_hz: i64,
    pub span_hz: i64,
    pub bin_spacing_hz: i64,
    pub resolution_bandwidth: u32,
    pub bins_raw_tenth_dbmv: Vec<i32>,
}

/// Everything one scrape read from the modem other than the analog channel
/// measurements (powers, frequencies and signal ratios), which are
/// floating-point values and travel beside this record.
#[derive(Debug, Clone)]
pub struct ScrapedData {
    pub uptime_seconds: Option<u64>,
    pub cm_status: String,
    pub version_info: VersionInfo,
    pub dhcp_info: DhcpInfo,
    pub qos_flows: Vec<QosFlow>,
    pub cm_state: CmState,
    pub events: Vec<EventLogEntry>,
    pub interfaces: Vec<InterfaceInfo>,
    pub product_info: ProductInfo,
    pub spectrum: Vec<SpectrumChunk>,
    pub cpe_static: u32,
    pub cpe_dynamic: u32,
    pub dhcp_state: String,
    pub service_flow_configs: Vec<ServiceFlowConfig>,
}

// ---------------------------------------------------------------------------
// Matching helpers
// ---------------------------------------------------------------------------

/// The UTF-8 bytes of a text.
pub open spec fn bytes_of(s: Seq<char>) -> Seq<u8> {
    vstd::utf8::encode_utf8(s)
}

/// Group `i` of a match, when it took part.
pub open spec fn grp(m: (nat, nat, Seq<Option<Seq<char>>>), i: int) -> Option<Seq<char>> {
    if 0 <= i < m.2.len() {
        m.2[i]
    } else {
        None
    }
}

/// The first match of a pattern in a text given by its bytes, when the
/// pattern compiles.
pub open spec fn first_in_bytes(pattern: Seq<char>, hay: Seq<u8>) -> Option<
    (nat, nat, Seq<Option<Seq<char>>>),
> {
    if regex_valid(pattern) {
        regex_first(pattern, hay)
    } else {
        None
    }
}

/// The first match of a pattern in a text, when the pattern compiles.
pub open spec fn first_in(pattern: Seq<char>, hay: Seq<char>) -> Option<
    (nat, nat, Seq<Option<Seq<char>>>),
> {
    first_in_bytes(pattern, bytes_of(hay))
}

/// All matches of a pattern in a text, when the pattern compiles.
pub open spec fn all_in(pattern: Seq<char>, hay: Seq<char>) -> Seq<(nat, nat, Seq<Option<Seq<char>>>)> {
    if regex_valid(pattern) {
        regex_all(pattern, bytes_of(hay))
    } else {
        Seq::empty()
    }
}

/// Group `i` of the first match of a pattern in a text.
pub open spec fn group_in(pattern: Seq<char>, hay: Seq<char>, i: int) -> Option<Seq<char>> {
    match first_in(pattern, hay) {
        Some(m) => grp(m, i),
        None => None,
    }
}

/// The trimmed first group of the first match, or the empty text.
pub open spec fn field_in(pattern: Seq<char>, hay: Seq<char>) -> Seq<char> {
    match group_in(pattern, hay, 1) {
        Some(g) => trim(g),
        None => Seq::empty(),
    }
}

/// A group as a number of at most `max`, when it took part and parses.
pub open spec fn number_in(g: Option<Seq<char>>, max: nat) -> Option<nat> {
    match g {
        Some(t) => parse_bounded(t, max),
        None => None,
    }
}

/// Group `i` of a match.
pub fn cgroup(c: &Captured, i: usize) -> (r: Option<String>)
    ensures
        opt_view(r) == grp(captured_view(*c), i as int),
{
    if i < c.groups.len() {
        match &c.groups[i] {
            Some(g) => Some(g.clone()),
            None => None,
        }
    } else {
        None
    }
}

/// The first match of a pattern in a text.
pub fn first_of(pattern: &str, hay: &str) -> (r: Option<Captured>)
    ensures
        match r {
            Some(c) => first_in(pattern@, hay@) == Some(captured_view(c)) && crate::pattern::well_placed(
                captured_view(c),
                bytes_of(hay@),
            ),
            None => first_in(pattern@, hay@) is None,
        },
{
    match compile(pattern) {
        Some(p) => first_match(&p, hay),
        None => None,
    }
}

/// All matches of a pattern in a text.
pub fn all_of(pattern: &str, hay: &str) -> (r: Vec<Captured>)
    ensures
        r@.len() == all_in(pattern@, hay@).len(),
        forall|i: int|
            0 <= i < r@.len() ==> all_in(pattern@, hay@)[i] == captured_view(#[trigger] r@[i])
                && crate::pattern::well_placed(captured_view(r@[i]), bytes_of(hay@)),
{
    match compile(pattern) {
        Some(p) => all_matches(&p, hay),
        None => Vec::new(),
    }
}

/// Group `i` of the first match of a pattern in a text.
pub fn group_of(pattern: &str, hay: &str, i: usize) -> (r: Option<String>)
    ensures
        opt_view(r) == group_in(pattern@, hay@, i as int),
{
    match first_of(pattern, hay) {
        Some(c) => cgroup(&c, i),
        None => None,
    }
}

/// The trimmed first group of the first match, or the empty string.
pub fn field_of(pattern: &str, hay: &str) -> (r: String)
    ensures
        r@ == field_in(pattern@, hay@),
{
    match group_of(pattern, hay, 1) {
        Some(g) => trim_str(g.as_str()),
        None => String::new(),
    }
}

/// A group as a number of at most `max`.
pub fn number_of(g: &Option<String>, max: u128) -> (r: Option<u128>)
    ensures
        match number_in(opt_view(*g), max as nat) {
            Some(v) => r == Some(v as u128),
            None => r is None,
        },
{
    match g {
        Some(t) => {
            let v = chars_of(t.as_str());
            assert(v@.subrange(0, v@.len() as int) =~= v@);
            parse_digits_bounded(&v, 0, v.len(), max)
        },
        None => None,
    }
}

// ---------------------------------------------------------------------------
// Single readings
// ---------------------------------------------------------------------------

/// The pattern of the CM status.
pub const CM_STATUS_PATTERN: &'static str = r"CM Status:</td><td>([^<]+)";

/// The pattern of the DHCP state.
pub const DHCP_STATE_PATTERN: &'static str = r"CM\s+Dhcp\s+State\s*:\s*</td>\s*<td>([^<]+)";

/// The pattern of the system uptime (days, hours, minutes).
pub const UPTIME_PATTERN: &'static str = r"System Uptime:\s*</td>\s*<td>(\d+)\s*d:\s*(\d+)\s*h:\s*(\d+)\s*m";

/// The pattern of the static and dynamic CPE counts.
pub const CPE_PATTERN: &'static str = r"staticCPE\((\d+)\),\s*dynamicCPE\((\d+)\)";

/// The CM status, trimmed; empty when absent.
pub fn parse_cm_status(html: &str) -> (r: String)
    ensures
        r@ == field_in(CM_STATUS_PATTERN@, html@),
{
    field_of(CM_STATUS_PATTERN, html)
}

/// The DHCP state, trimmed; empty when absent.
pub fn parse_dhcp_state(html: &str) -> (r: String)
    ensures
        r@ == field_in(DHCP_STATE_PATTERN@, html@),
{
    field_of(DHCP_STATE_PATTERN, html)
}

/// The uptime in seconds: days, hours and minutes as found, when all three
/// parse and the total fits in a `u64`.
pub open spec fn uptime_in(html: Seq<char>) -> Option<u64> {
    match (
        number_in(group_in(UPTIME_PATTERN@, html, 1), u64::MAX as nat),
        number_in(group_in(UPTIME_PATTERN@, html, 2), u64::MAX as nat),
        number_in(group_in(UPTIME_PATTERN@, html, 3), u64::MAX as nat),
    ) {
        (Some(d), Some(h), Some(m)) => {
            let t = d * 86400 + h * 3600 + m * 60;
            if t <= u64::MAX {
                Some(t as u64)
            } else {
                None
            }
        },
        _ => None,
    }
}

/// The system uptime in seconds.
pub fn parse_uptime(html: &str) -> (r: Option<u64>)
    ensures
        r == uptime_in(html@),
{
    let max: u128 = 0xffff_ffff_ffff_ffff;
    let d = match number_of(&group_of(UPTIME_PATTERN, html, 1), max) {
        Some(v) => v,
        None => return None,
    };
    let h = match number_of(&group_of(UPTIME_PATTERN, html, 2), max) {
        Some(v) => v,
        None => return None,
    };
    let m = match number_of(&group_of(UPTIME_PATTERN, html, 3), max) {
        Some(v) => v,
        None => return None,
    };
    let t: u128 = d * 86400 + h * 3600 + m * 60;
    if t <= max {
        Some(t as u64)
    } else {
        None
    }
}

/// The static and dynamic CPE counts: each as found, or 0 when it does not
/// parse; both 0 when absent.
pub open spec fn cpe_in(html: Seq<char>) -> (u32, u32) {
    match first_in(CPE_PATTERN@, html) {
        None => (0, 0),
        Some(m) => (
            match number_in(grp(m, 1), u32::MAX as nat) {
                Some(v) => v as u32,
                None => 0,
            },
            match number_in(grp(m, 2), u32::MAX as nat) {
                Some(v) => v as u32,
                None => 0,
            },
        ),
    }
}

/// The static and dynamic CPE counts.
pub fn parse_cpe_counts(html: &str) -> (r: (u32, u32))
    ensures
        r == cpe_in(html@),
{
    match first_of(CPE_PATTERN, html) {
        None => (0, 0),
        Some(c) => {
            let s = match number_of(&cgroup(&c, 1), 0xffff_ffff) {
                Some(v) => v as u32,
                None => 0,
            };
            let d = match number_of(&cgroup(&c, 2), 0xffff_ffff) {
                Some(v) => v as u32,
                None => 0,
            };
            (s, d)
        },
    }
}

/// The patterns of the version page's fields.
pub const HW_REV_PATTERN: &'static str = r"HW_REV:\s*([^\n<]+)";

pub const VENDOR_PATTERN: &'static str = r"VENDOR:\s*([^\n<]+)";

pub const BOOTR_PATTERN: &'static str = r"BOOTR:\s*([^\n<]+)";

pub const SW_REV_PATTERN: &'static str = r"SW_REV:\s*([^\n<]+)";

pub const MODEL_PATTERN: &'static str = r"MODEL:\s*([^\n<]+)";

pub const SERIAL_PATTERN: &'static str = r"Serial Number:</td>\s*<td>([^<]+)";

pub const FIRMWARE_NAME_PATTERN: &'static str = r"Firmware Name:</td><td>([^<]+)";

pub const FIRMWARE_NAME_STATUS_PATTERN: &'static str = r"Firmware Name:</td>\s*<td>([^<]+)";

pub const FIRMWARE_BUILD_PATTERN: &'static str = r"Firmware Build Time:</td><td>([^<]+)";

/// The firmware name: from the version page when it names one, else from
/// the status page.
pub open spec fn firmware_name_in(vers: Seq<char>, status: Seq<char>) -> Seq<char> {
    match first_in(FIRMWARE_NAME_PATTERN@, vers) {
        Some(m) => match grp(m, 1) {
            Some(g) => trim(g),
            None => Seq::empty(),
        },
        None => field_in(FIRMWARE_NAME_STATUS_PATTERN@, status),
    }
}

/// The version fields as found (trimmed; empty when absent).
pub open spec fn version_info_is(v: VersionInfo, vers: Seq<char>, status: Seq<char>) -> bool {
    &&& v.hardware_rev@ == field_in(HW_REV_PATTERN@, vers)
    &&& v.vendor@ == field_in(VENDOR_PATTERN@, vers)
    &&& v.bootloader@ == field_in(BOOTR_PATTERN@, vers)
    &&& v.software_rev@ == field_in(SW_REV_PATTERN@, vers)
    &&& v.model@ == field_in(MODEL_PATTERN@, vers)
    &&& v.serial@ == field_in(SERIAL_PATTERN@, vers)
    &&& v.firmware_name@ == firmware_name_in(vers, status)
    &&& v.firmware_build_time@ == field_in(FIRMWARE_BUILD_PATTERN@, vers)
}

/// The hardware and firmware identification from the version page, with the
/// firmware name taken from the status page when the version page lacks it.
pub fn parse_version_info(vers_html: &str, status_html: &str) -> (r: VersionInfo)
    ensures
        version_info_is(r, vers_html@, status_html@),
{
    let firmware_name = match first_of(FIRMWARE_NAME_PATTERN, vers_html) {
        Some(c) => match cgroup(&c, 1) {
            Some(g) => trim_str(g.as_str()),
            None => String::new(),
        },
        None => field_of(FIRMWARE_NAME_STATUS_PATTERN, status_html),
    };
    VersionInfo {
        hardware_rev: field_of(HW_REV_PATTERN, vers_html),
        vendor: field_of(VENDOR_PATTERN, vers_html),
        bootloader: field_of(BOOTR_PATTERN, vers_html),
        software_rev: field_of(SW_REV_PATTERN, vers_html),
        model: field_of(MODEL_PATTERN, vers_html),
        serial: field_of(SERIAL_PATTERN, vers_html),
        firmware_name,
        firmware_build_time: field_of(FIRMWARE_BUILD_PATTERN, vers_html),
    }
}

/// The pattern tail of a DHCP timer's total.
pub const DHCP_TIME_TAIL: &'static str = r"<\s*/td>\s*<td[^>]*>(\d+)\s*sec";

/// The pattern tail of a DHCP timer's remaining time.
pub const DHCP_REMAINING_TAIL: &'static str = r"<\s*/td>\s*<td[^>]*>\d+\s*sec\s*\((\d+)\s*sec\s*remaining\)";

/// A number in seconds after a DHCP label: the first group of the pattern
/// made of the escaped label and `tail`.
pub open spec fn dhcp_seconds_in(html: Seq<char>, label: Seq<char>, tail: Seq<char>) -> Option<u64> {
    match number_in(group_in(regex_escape(label) + tail, html, 1), u64::MAX as nat) {
        Some(v) => Some(v as u64),
        None => None,
    }
}

fn dhcp_seconds(html: &str, label: &str, tail: &str) -> (r: Option<u64>)
    ensures
        r == dhcp_seconds_in(html@, label@, tail@),
{
    let mut pattern = escape_literal(label);
    push_str(&mut pattern, tail);
    match number_of(&group_of(pattern.as_str(), html, 1), 0xffff_ffff_ffff_ffff) {
        Some(v) => Some(v as u64),
        None => None,
    }
}

/// The total of a DHCP timer (`<label></td><td ...>N sec`).
pub fn parse_dhcp_time(html: &str, label: &str) -> (r: Option<u64>)
    ensures
        r == dhcp_seconds_in(html@, label@, DHCP_TIME_TAIL@),
{
    dhcp_seconds(html, label, DHCP_TIME_TAIL)
}

/// The remaining time of a DHCP timer (`... N sec (M sec remaining)`).
pub fn parse_dhcp_remaining(html: &str, label: &str) -> (r: Option<u64>)
    ensures
        r == dhcp_seconds_in(html@, label@, DHCP_REMAINING_TAIL@),
{
    dhcp_seconds(html, label, DHCP_REMAINING_TAIL)
}

pub const CM_IP_PATTERN: &'static str = r"CM IP Addr\s*</td>\s*<td[^>]*>([^<]+)";

pub const CM_SUBNET_PATTERN: &'static str = r"CM Subnet Mask\s*</td>\s*<td>([^<]+)";

pub const CM_GATEWAY_PATTERN: &'static str = r"CM IP Gateway\s*</td>\s*<td>([^<]+)";

/// The DHCP fields as found.
pub open spec fn dhcp_info_is(d: DhcpInfo, html: Seq<char>) -> bool {
    &&& d.cm_ip@ == field_in(CM_IP_PATTERN@, html)
    &&& d.cm_subnet@ == field_in(CM_SUBNET_PATTERN@, html)
    &&& d.cm_gateway@ == field_in(CM_GATEWAY_PATTERN@, html)
    &&& d.lease_total_secs == dhcp_seconds_in(html, "Lease:"@, DHCP_TIME_TAIL@)
    &&& d.lease_remaining_secs == dhcp_seconds_in(html, "Lease:"@, DHCP_REMAINING_TAIL@)
    &&& d.rebind_total_secs == dhcp_seconds_in(html, "Rebind:"@, DHCP_TIME_TAIL@)
    &&& d.rebind_remaining_secs == dhcp_seconds_in(html, "Rebind:"@, DHCP_REMAINING_TAIL@)
    &&& d.renew_total_secs == dhcp_seconds_in(html, "Renew:"@, DHCP_TIME_TAIL@)
    &&& d.renew_remaining_secs == dhcp_seconds_in(html, "Renew:"@, DHCP_REMAINING_TAIL@)
}

/// The DHCP details from the DHCP page.
pub fn parse_dhcp_info(html: &str) -> (r: DhcpInfo)
    ensures
        dhcp_info_is(r, html@),
{
    DhcpInfo {
        cm_ip: field_of(CM_IP_PATTERN, html),
        cm_subnet: field_of(CM_SUBNET_PATTERN, html),
        cm_gateway: field_of(CM_GATEWAY_PATTERN, html),
        lease_total_secs: parse_dhcp_time(html, "Lease:"),
        lease_remaining_secs: parse_dhcp_remaining(html, "Lease:"),
        rebind_total_secs: parse_dhcp_time(html, "Rebind:"),
        rebind_remaining_secs: parse_dhcp_remaining(html, "Rebind:"),
        renew_total_secs: parse_dhcp_time(html, "Renew:"),
        renew_remaining_secs: parse_dhcp_remaining(html, "Renew:"),
    }
}

// ---------------------------------------------------------------------------
// Tables
// ---------------------------------------------------------------------------

/// The abstract content of a QoS flow.
pub open spec fn qos_view(f: QosFlow) -> (u64, Seq<char>, Seq<char>, bool, u64) {
    (f.sfid, f.service_class@, f.direction@, f.primary, f.packets)
}

pub const QOS_PATTERN: &'static str = r"<tr><td>(\d+)</td><td>([^<]*)</td><td>(Upstream|Downstream)</td><td>(Yes|No)</td><td>(\d+)</td></tr>";

/// A QoS table row: SFID, service class (trimmed), direction, whether it
/// is primary (`Yes`), and packet count; rejected when a number does not
/// parse.
pub open spec fn qos_row(m: (nat, nat, Seq<Option<Seq<char>>>)) -> Option<
    (u64, Seq<char>, Seq<char>, bool, u64),
> {
    match (
        number_in(grp(m, 1), u64::MAX as nat),
        grp(m, 2),
        grp(m, 3),
        grp(m, 4),
        number_in(grp(m, 5), u64::MAX as nat),
    ) {
        (Some(sfid), Some(class), Some(dir), Some(primary), Some(packets)) => Some(
            (sfid as u64, trim(class), dir, primary == "Yes"@, packets as u64),
        ),
        _ => None,
    }
}

/// The QoS service flows of the QoS page.
#[verifier::rlimit(30)]
pub fn parse_qos(html: &str) -> (r: Vec<QosFlow>)
    ensures
        r@.map_values(|f: QosFlow| qos_view(f)) == keep_some(
            all_in(QOS_PATTERN@, html@),
            |m: (nat, nat, Seq<Option<Seq<char>>>)| qos_row(m),
        ),
{
    let ms = all_of(QOS_PATTERN, html);
    let ghost all = all_in(QOS_PATTERN@, html@);
    let ghost f = |m: (nat, nat, Seq<Option<Seq<char>>>)| qos_row(m);
    let mut r: Vec<QosFlow> = Vec::new();
    let mut i: usize = 0;
    while i < ms.len()
        invariant
            0 <= i <= ms@.len(),
            ms@.len() == all.len(),
            forall|k: int| 0 <= k < ms@.len() ==> all[k] == captured_view(#[trigger] ms@[k]),
            f == (|m: (nat, nat, Seq<Option<Seq<char>>>)| qos_row(m)),
            r@.map_values(|f: QosFlow| qos_view(f)) == keep_some(all.take(i as int), f),
        decreases ms.len() - i,
    {
        proof {
            lemma_keep_some_step(all, i as int, f);
        }
        let c = &ms[i];
        let ghost before = r@;
        let sfid = number_of(&cgroup(c, 1), 0xffff_ffff_ffff_ffff);
        let class = cgroup(c, 2);
        let dir = cgroup(c, 3);
        let primary = cgroup(c, 4);
        let packets = number_of(&cgroup(c, 5), 0xffff_ffff_ffff_ffff);
        match (sfid, class, dir, primary, packets) {
            (Some(sfid), Some(class), Some(dir), Some(primary), Some(packets)) => {
                r.push(
                    QosFlow {
                        sfid: sfid as u64,
                        service_class: trim_str(class.as_str()),
                        direction: dir,
                        primary: str_eq(primary.as_str(), "Yes"),
                        packets: packets as u64,
                    },
                );
                assert(r@.map_values(|f: QosFlow| qos_view(f)) =~= before.map_values(
                    |f: QosFlow| qos_view(f),
                ).push(qos_view(r@[before.len() as int])));
            },
            _ => {},
        }
        i += 1;
    }
    assert(all.take(all.len() as int) =~= all);
    r
}

/// The abstract content of a DOCSIS phase.
pub open spec fn phase_view(p: DocsisPhase) -> (Seq<char>, Seq<char>) {
    (p.phase@, p.status@)
}

pub const CM_STATE_PATTERN: &'static str = r"<b>CM State:</b>([^<]+)<br>";

pub const PHASE_PATTERN: &'static str = r"<td[^>]*>(Docsis-[^<]+)</td>\s*<td[^>]*>([^<]+)</td>";

pub const BPI_PATTERN: &'static str = r"BPI Status\s*</td>\s*<td[^>]*>([^<]+)";

pub const TOD_PATTERN: &'static str = r"Time of Day\s*</td>\s*<td[^>]*>([^<]+)";

/// A registration phase row: the phase and its status, both trimmed.
pub open spec fn phase_row(m: (nat, nat, Seq<Option<Seq<char>>>)) -> Option<(Seq<char>, Seq<char>)> {
    match (grp(m, 1), grp(m, 2)) {
        (Some(p), Some(st)) => Some((trim(p), trim(st))),
        _ => None,
    }
}

/// The DOCSIS state fields as found.
pub open spec fn cm_state_is(c: CmState, html: Seq<char>) -> bool {
    &&& c.overall_state@ == field_in(CM_STATE_PATTERN@, html)
    &&& c.phases@.map_values(|p: DocsisPhase| phase_view(p)) == keep_some(
        all_in(PHASE_PATTERN@, html),
        |m: (nat, nat, Seq<Option<Seq<char>>>)| phase_row(m),
    )
    &&& c.bpi_status@ == field_in(BPI_PATTERN@, html)
    &&& c.tod_status@ == field_in(TOD_PATTERN@, html)
}

/// The DOCSIS registration state from the CM state page.
#[verifier::rlimit(30)]
pub fn parse_cm_state(html: &str) -> (r: CmState)
    ensures
        cm_state_is(r, html@),
{
    let ms = all_of(PHASE_PATTERN, html);
    let ghost all = all_in(PHASE_PATTERN@, html@);
    let ghost f = |m: (nat, nat, Seq<Option<Seq<char>>>)| phase_row(m);
    let mut phases: Vec<DocsisPhase> = Vec::new();
    let mut i: usize = 0;
    while i < ms.len()
        invariant
            0 <= i <= ms@.len(),
            ms@.len() == all.len(),
            forall|k: int| 0 <= k < ms@.len() ==> all[k] == captured_view(#[trigger] ms@[k]),
            f == (|m: (nat, nat, Seq<Option<Seq<char>>>)| phase_row(m)),
            phases@.map_values(|p: DocsisPhase| phase_view(p)) == keep_some(all.take(i as int), f),
        decreases ms.len() - i,
    {
        proof {
            lemma_keep_some_step(all, i as int, f);
        }
        let c = &ms[i];
        let ghost before = phases@;
        match (cgroup(c, 1), cgroup(c, 2)) {
            (Some(p), Some(st)) => {
                phases.push(
                    DocsisPhase { phase: trim_str(p.as_str()), status: trim_str(st.as_str()) },
                );
                assert(phases@.map_values(|p: DocsisPhase| phase_view(p)) =~= before.map_values(
                    |p: DocsisPhase| phase_view(p),
                ).push(phase_view(phases@[before.len() as int])));
            },
            _ => {},
        }
        i += 1;
    }
    assert(all.take(all.len() as int) =~= all);
    CmState {
        overall_state: field_of(CM_STATE_PATTERN, html),
        phases,
        bpi_status: field_of(BPI_PATTERN, html),
        tod_status: field_of(TOD_PATTERN, html),
    }
}

/// The abstract content of an event-log entry.
pub open spec fn event_view(e: EventLogEntry) -> (Seq<char>, Seq<char>, u32, Seq<char>) {
    (e.timestamp@, e.event_id@, e.event_level, e.description@)
}

pub const EVENT_PATTERN: &'static str = r"<td\s+align=center>([^<]+)</td>\s*<td\s+align=center>(\d+)</td>\s*<td\s+align=center>(\d+)</td>\s*<td\s+align=left>([^<]+)</td>";

/// An event-log row: time stamp (trimmed), event ID, level and
/// description (trimmed); rejected when the level does not parse.
pub open spec fn event_row(m: (nat, nat, Seq<Option<Seq<char>>>)) -> Option<
    (Seq<char>, Seq<char>, u32, Seq<char>),
> {
    match (grp(m, 1), grp(m, 2), number_in(grp(m, 3), u32::MAX as nat), grp(m, 4)) {
        (Some(t), Some(id), Some(level), Some(d)) => Some((trim(t), id, level as u32, trim(d))),
        _ => None,
    }
}

/// The entries of the modem's event log.
#[verifier::rlimit(30)]
pub fn parse_event_log(html: &str) -> (r: Vec<EventLogEntry>)
    ensures
        r@.map_values(|e: EventLogEntry| event_view(e)) == keep_some(
            all_in(EVENT_PATTERN@, html@),
            |m: (nat, nat, Seq<Option<Seq<char>>>)| event_row(m),
        ),
{
    let ms = all_of(EVENT_PATTERN, html);
    let ghost all = all_in(EVENT_PATTERN@, html@);
    let ghost f = |m: (nat, nat, Seq<Option<Seq<char>>>)| event_row(m);
    let mut r: Vec<EventLogEntry> = Vec::new();
    let mut i: usize = 0;
    while i < ms.len()
        invariant
            0 <= i <= ms@.len(),
            ms@.len() == all.len(),
            forall|k: int| 0 <= k < ms@.len() ==> all[k] == captured_view(#[trigger] ms@[k]),
            f == (|m: (nat, nat, Seq<Option<Seq<char>>>)| event_row(m)),
            r@.map_values(|e: EventLogEntry| event_view(e)) == keep_some(all.take(i as int), f),
        decreases ms.len() - i,
    {
        proof {
            lemma_keep_some_step(all, i as int, f);
        }
        let c = &ms[i];
        let ghost before = r@;
        let level = number_of(&cgroup(c, 3), 0xffff_ffff);
        match (cgroup(c, 1), cgroup(c, 2), level, cgroup(c, 4)) {
            (Some(t), Some(id), Some(level), Some(d)) => {
                r.push(
                    EventLogEntry {
                        timestamp: trim_str(t.as_str()),
                        event_id: id,
                        event_level: level as u32,
                        description: trim_str(d.as_str()),
                    },
                );
                assert(r@.map_values(|e: EventLogEntry| event_view(e)) =~= before.map_values(
                    |e: EventLogEntry| event_view(e),
                ).push(event_view(r@[before.len() as int])));
            },
            _ => {},
        }
        i += 1;
    }
    assert(all.take(all.len() as int) =~= all);
    r
}

/// The abstract content of an interface.
pub open spec fn interface_view(i: InterfaceInfo) -> (Seq<char>, Seq<char>, Seq<char>, Seq<char>) {
    (i.name@, i.provisioned@, i.state@, i.mac_address@)
}

pub const INTERFACE_SECTION_PATTERN: &'static str = r"(?s)Interface Parameters.*?</table>";

pub const INTERFACE_ROW_PATTERN: &'static str = r"<tr><td>([^<]+)</td>\s*<td>([^<]+)</td>\s*<td>([^<]+)</td>\s*<td>([^<]*)</td>\s*<td>([^<]+)</td>";

/// The interface-parameters section of the status page, or the empty text.
pub open spec fn interface_section(html: Seq<char>) -> Seq<char> {
    match group_in(INTERFACE_SECTION_PATTERN@, html, 0) {
        Some(s) => s,
        None => Seq::empty(),
    }
}

/// An interface row: name, provisioning, state and MAC address, trimmed;
/// the header row (named `Interface Name`) is skipped.
pub open spec fn interface_row(m: (nat, nat, Seq<Option<Seq<char>>>)) -> Option<
    (Seq<char>, Seq<char>, Seq<char>, Seq<char>),
> {
    match (grp(m, 1), grp(m, 2), grp(m, 3), grp(m, 5)) {
        (Some(n), Some(p), Some(st), Some(mac)) => if trim(n) == "Interface Name"@ {
            None
        } else {
            Some((trim(n), trim(p), trim(st), trim(mac)))
        },
        _ => None,
    }
}

/// The interfaces listed in the status page's interface-parameters section.
#[verifier::rlimit(30)]
pub fn parse_interfaces(html: &str) -> (r: Vec<InterfaceInfo>)
    ensures
        r@.map_values(|i: InterfaceInfo| interface_view(i)) == keep_some(
            all_in(INTERFACE_ROW_PATTERN@, interface_section(html@)),
            |m: (nat, nat, Seq<Option<Seq<char>>>)| interface_row(m),
        ),
{
    let section = match group_of(INTERFACE_SECTION_PATTERN, html, 0) {
        Some(s) => s,
        None => String::new(),
    };
    let ms = all_of(INTERFACE_ROW_PATTERN, section.as_str());
    let ghost all = all_in(INTERFACE_ROW_PATTERN@, interface_section(html@));
    let ghost f = |m: (nat, nat, Seq<Option<Seq<char>>>)| interface_row(m);
    let mut r: Vec<InterfaceInfo> = Vec::new();
    let mut i: usize = 0;
    while i < ms.len()
        invariant
            0 <= i <= ms@.len(),
            ms@.len() == all.len(),
            forall|k: int| 0 <= k < ms@.len() ==> all[k] == captured_view(#[trigger] ms@[k]),
            f == (|m: (nat, nat, Seq<Option<Seq<char>>>)| interface_row(m)),
            r@.map_values(|i: InterfaceInfo| interface_view(i)) == keep_some(all.take(i as int), f),
        decreases ms.len() - i,
    {
        proof {
            lemma_keep_some_step(all, i as int, f);
        }
        let c = &ms[i];
        let ghost before = r@;
        match (cgroup(c, 1), cgroup(c, 2), cgroup(c, 3), cgroup(c, 5)) {
            (Some(n), Some(p), Some(st), Some(mac)) => {
                let name = trim_str(n.as_str());
                if !str_eq(name.as_str(), "Interface Name") {
                    r.push(
                        InterfaceInfo {
                            name,
                            provisioned: trim_str(p.as_str()),
                            state: trim_str(st.as_str()),
                            mac_address: trim_str(mac.as_str()),
                        },
                    );
                    assert(r@.map_values(|i: InterfaceInfo| interface_view(i)) =~= before.map_values(
                        |i: InterfaceInfo| interface_view(i),
                    ).push(interface_view(r@[before.len() as int])));
                }
            },
            _ => {},
        }
        i += 1;
    }
    assert(all.take(all.len() as int) =~= all);
    r
}

// ---------------------------------------------------------------------------
// Service-flow configuration
// ---------------------------------------------------------------------------

/// The abstract content of a configured service flow.
pub open spec fn flow_view(f: ServiceFlowConfig) -> (Seq<char>, u32, u64, u64, u64, u32, u32) {
    (
        f.direction@,
        f.index,
        f.max_traffic_rate_bps,
        f.max_traffic_burst,
        f.min_reserved_rate_bps,
        f.traffic_priority,
        f.scheduling_type,
    )
}

pub const SERVICE_FLOW_PATTERN: &'static str = r"(Upstream|Downstream)ServiceFlow\s*=";

pub const MAX_RATE_PATTERN: &'static str = r"SfMaxTrafficRate\s*=\s*(\d+)";

pub const MAX_BURST_PATTERN: &'static str = r"SfMaxTrafficBurst\s*=\s*(\d+)";

pub const MIN_RATE_PATTERN: &'static str = r"SfMinReservedRate\s*=\s*(\d+)";

pub const PRIORITY_PATTERN: &'static str = r"SfTrafficPriority\s*=\s*(\d+)";

pub const SCHEDULING_PATTERN: &'static str = r"SfSchedulingType\s*=\s*(\d+)";

/// The largest character boundary of `bytes` at or below `k`.
pub open spec fn boundary_at_or_below(bytes: Seq<u8>, k: nat) -> nat
    decreases k,
{
    if k == 0 || vstd::utf8::is_char_boundary(bytes, k as int) {
        k
    } else {
        boundary_at_or_below(bytes, (k - 1) as nat)
    }
}

/// The block of a service flow, as bytes after its header: up to the next
/// service-flow header, else up to 500 bytes (cut back to a character
/// boundary).
pub open spec fn flow_block(rest: Seq<u8>) -> Seq<u8> {
    match first_in_bytes(SERVICE_FLOW_PATTERN@, rest) {
        Some(n) => rest.take(n.0 as int),
        None => rest.take(
            boundary_at_or_below(
                rest,
                if rest.len() <= 500 {
                    rest.len()
                } else {
                    500
                },
            ) as int,
        ),
    }
}

/// A setting of a block: the first number after its name, at most `max`;
/// 0 when absent or out of range.
pub open spec fn setting_in(pattern: Seq<char>, block: Seq<u8>, max: nat) -> nat {
    match first_in_bytes(pattern, block) {
        Some(m) => match number_in(grp(m, 1), max) {
            Some(v) => v,
            None => 0,
        },
        None => 0,
    }
}

/// The service flow of the `i`-th header found in the page.
pub open spec fn flow_at(html: Seq<u8>, m: (nat, nat, Seq<Option<Seq<char>>>), i: int) -> (
    Seq<char>,
    u32,
    u64,
    u64,
    u64,
    u32,
    u32,
) {
    let block = flow_block(html.skip(m.1 as int));
    (
        match grp(m, 1) {
            Some(d) => d,
            None => Seq::empty(),
        },
        i as u32,
        setting_in(MAX_RATE_PATTERN@, block, u64::MAX as nat) as u64,
        setting_in(MAX_BURST_PATTERN@, block, u64::MAX as nat) as u64,
        setting_in(MIN_RATE_PATTERN@, block, u64::MAX as nat) as u64,
        setting_in(PRIORITY_PATTERN@, block, u32::MAX as nat) as u32,
        setting_in(SCHEDULING_PATTERN@, block, u32::MAX as nat) as u32,
    )
}

fn setting(pattern: &str, block: &str, max: u128) -> (r: u128)
    ensures
        r == setting_in(pattern@, bytes_of(block@), max as nat),
{
    match first_of(pattern, block) {
        Some(c) => match number_of(&cgroup(&c, 1), max) {
            Some(v) => v,
            None => 0,
        },
        None => 0,
    }
}

fn boundary_below(s: &str, k: usize) -> (r: usize)
    requires
        k <= bytes_of(s@).len(),
    ensures
        r == boundary_at_or_below(bytes_of(s@), k as nat),
        vstd::utf8::is_char_boundary(bytes_of(s@), r as int),
        r <= k,
{
    let mut j = k;
    while j > 0 && !s.is_char_boundary(j)
        invariant
            j <= k <= bytes_of(s@).len(),
            boundary_at_or_below(bytes_of(s@), k as nat) == boundary_at_or_below(
                bytes_of(s@),
                j as nat,
            ),
        decreases j,
    {
        j -= 1;
    }
    proof {
        vstd::utf8::encode_utf8_valid_utf8(s@);
    }
    j
}

/// The service flows of the configuration page: one per service-flow
/// header, in order, with the settings found in its block.
#[verifier::rlimit(30)]
pub fn parse_service_flow_configs(html: &str) -> (r: Vec<ServiceFlowConfig>)
    ensures
        r@.len() == all_in(SERVICE_FLOW_PATTERN@, html@).len(),
        forall|i: int|
            0 <= i < r@.len() ==> flow_view(#[trigger] r@[i]) == flow_at(
                bytes_of(html@),
                all_in(SERVICE_FLOW_PATTERN@, html@)[i],
                i,
            ),
{
    let ms = all_of(SERVICE_FLOW_PATTERN, html);
    let ghost all = all_in(SERVICE_FLOW_PATTERN@, html@);
    let ghost bytes = bytes_of(html@);
    let mut flows: Vec<ServiceFlowConfig> = Vec::new();
    let mut i: usize = 0;
    while i < ms.len()
        invariant
            0 <= i <= ms@.len(),
            ms@.len() == all.len(),
            bytes == bytes_of(html@),
            forall|k: int|
                0 <= k < ms@.len() ==> all[k] == captured_view(#[trigger] ms@[k])
                    && crate::pattern::well_placed(captured_view(ms@[k]), bytes),
            flows@.len() == i,
            forall|k: int| 0 <= k < i ==> flow_view(#[trigger] flows@[k]) == flow_at(bytes, all[k], k),
        decreases ms.len() - i,
    {
        let c = &ms[i];
        assert(crate::pattern::well_placed(captured_view(ms@[i as int]), bytes));
        let direction = match cgroup(c, 1) {
            Some(d) => d,
            None => String::new(),
        };
        let (_, rest) = html.split_at(c.end);
        let ghost rb = bytes.skip(c.end as int);
        assert(bytes_of(rest@) =~= rb);
        let next = first_of(SERVICE_FLOW_PATTERN, rest);
        assert(first_in_bytes(SERVICE_FLOW_PATTERN@, rb) == first_in(SERVICE_FLOW_PATTERN@, rest@));
        let limit = match next {
            Some(n) => n.start,
            None => {
                let rest_len = rest.as_bytes().len();
                let cap = if rest_len <= 500 {
                    rest_len
                } else {
                    500
                };
                boundary_below(rest, cap)
            },
        };
        assert(limit <= rb.len());
        assert(limit as int == (match first_in_bytes(SERVICE_FLOW_PATTERN@, rb) {
            Some(n) => n.0 as int,
            None => boundary_at_or_below(
                rb,
                if rb.len() <= 500 {
                    rb.len()
                } else {
                    500
                },
            ) as int,
        }));
        let (block, _) = rest.split_at(limit);
        assert(bytes_of(block@) =~= rb.take(limit as int));
        assert(bytes_of(block@) =~= flow_block(rb));
        let max64: u128 = 0xffff_ffff_ffff_ffff;
        let max32: u128 = 0xffff_ffff;
        let flow = ServiceFlowConfig {
            direction,
            index: #[verifier::truncate] (i as u32),
            max_traffic_rate_bps: setting(MAX_RATE_PATTERN, block, max64) as u64,
            max_traffic_burst: setting(MAX_BURST_PATTERN, block, max64) as u64,
            min_reserved_rate_bps: setting(MIN_RATE_PATTERN, block, max64) as u64,
            traffic_priority: setting(PRIORITY_PATTERN, block, max32) as u32,
            scheduling_type: setting(SCHEDULING_PATTERN, block, max32) as u32,
        };
        flows.push(flow);
        assert(flow_view(flows@[i as int]) == flow_at(bytes, all[i as int], i as int));
        i += 1;
    }
    flows
}

// ---------------------------------------------------------------------------
// All pages
// ---------------------------------------------------------------------------

/// The readings of one scrape, parsed from the modem's pages: the status
/// page (uptime, CM status, interfaces, CPE counts), the version page, the
/// DHCP page, the QoS page, the CM state page, the event log, the
/// configuration page, the product page, and the spectrum scan response
/// when a scan was made (no chunk otherwise).
#[verifier::rlimit(30)]
pub fn parse_all(
    status_html: &str,
    vers_html: &str,
    dhcp_html: &str,
    qos_html: &str,
    cm_state_html: &str,
    event_html: &str,
    config_params_html: &str,
    product_html: &str,
    spectrum_html: Option<&str>,
) -> (r: ScrapedData)
    ensures
        r.uptime_seconds == uptime_in(status_html@),
        r.cm_status@ == field_in(CM_STATUS_PATTERN@, status_html@),
        version_info_is(r.version_info, vers_html@, status_html@),
        dhcp_info_is(r.dhcp_info, dhcp_html@),
        r.dhcp_state@ == field_in(DHCP_STATE_PATTERN@, dhcp_html@),
        r.qos_flows@.map_values(|f: QosFlow| qos_view(f)) == keep_some(
            all_in(QOS_PATTERN@, qos_html@),
            |m: (nat, nat, Seq<Option<Seq<char>>>)| qos_row(m),
        ),
        cm_state_is(r.cm_state, cm_state_html@),
        r.events@.map_values(|e: EventLogEntry| event_view(e)) == keep_some(
            all_in(EVENT_PATTERN@, event_html@),
            |m: (nat, nat, Seq<Option<Seq<char>>>)| event_row(m),
        ),
        r.interfaces@.map_values(|i: InterfaceInfo| interface_view(i)) == keep_some(
            all_in(INTERFACE_ROW_PATTERN@, interface_section(status_html@)),
            |m: (nat, nat, Seq<Option<Seq<char>>>)| interface_row(m),
        ),
        (r.cpe_static, r.cpe_dynamic) == cpe_in(status_html@),
        r.service_flow_configs@.len() == all_in(SERVICE_FLOW_PATTERN@, config_params_html@).len(),
        forall|i: int|
            0 <= i < r.service_flow_configs@.len() ==> flow_view(
                #[trigger] r.service_flow_configs@[i],
            ) == flow_at(
                bytes_of(config_params_html@),
                all_in(SERVICE_FLOW_PATTERN@, config_params_html@)[i],
                i,
            ),
        r.product_info.ethernet_phy_type@ == field_in(PHY_PATTERN@, product_html@),
        group_views(r.product_info.logging_components_enabled@) == logging_groups(product_html@),
        r.spectrum@.map_values(|c: SpectrumChunk| chunk_view(c)) == match spectrum_html {
            Some(h) => spectrum_chunks(h@),
            None => Seq::empty(),
        },
{
    let (cpe_static, cpe_dynamic) = parse_cpe_counts(status_html);
    let spectrum = match spectrum_html {
        Some(h) => parse_spectrum(h),
        None => {
            let none: Vec<SpectrumChunk> = Vec::new();
            assert(none@.map_values(|c: SpectrumChunk| chunk_view(c)) =~= Seq::empty());
            none
        },
    };
    ScrapedData {
        uptime_seconds: parse_uptime(status_html),
        cm_status: parse_cm_status(status_html),
        version_info: parse_version_info(vers_html, status_html),
        dhcp_info: parse_dhcp_info(dhcp_html),
        qos_flows: parse_qos(qos_html),
        cm_state: parse_cm_state(cm_state_html),
        events: parse_event_log(event_html),
        interfaces: parse_interfaces(status_html),
        product_info: parse_product_info(product_html),
        spectrum: spectrum,
        cpe_static,
        cpe_dynamic,
        dhcp_state: parse_dhcp_state(dhcp_html),
        service_flow_configs: parse_service_flow_configs(config_params_html),
    }
}

} // verus!
