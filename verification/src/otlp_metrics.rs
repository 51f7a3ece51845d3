//! The OTLP metrics that describe a scrape: which metrics are sent, with
//! which data points, attributes and units.
//!
//! The analog channel measurements and the spectrum powers are
//! floating-point values and are assembled beside these sections; every
//! metric built here carries whole numbers only.
use vstd::prelude::*;

use crate::events::{
    count_event_ids, count_id, distinct_ids, event_ids, latest_profiles, occurrences,
    profile_map, sorted_table, table_of, table_view, ProfileKind,
};
use crate::num::{parse_bounded, parse_digits_bounded};
use crate::otlp::{attr_view, attr_views, AttrValue, AttrView, Attribute};
use crate::parser::{
    CmState, DocsisPhase, InterfaceInfo, ProductInfo, QosFlow, ScrapedData, ServiceFlowConfig,
};
use crate::text::{chars_of, normalize_token, owned, str_eq, token};

verus! {

// ---------------------------------------------------------------------------
// Metrics and data points
// ---------------------------------------------------------------------------

/// The value of a data point: a whole number sent as a double, or an
/// integer sent as such.
#[derive(Debug, Clone, Copy, PartialEq, Eq, Structural)]
pub enum PointValue {
    Whole(u128),
    Int(i64),
}

/// One data point: its value and attributes. Its timestamps are those of
/// the push it is sent in.
#[derive(Debug, Clone)]
pub struct DataPoint {
    pub value: PointValue,
    pub attributes: Vec<Attribute>,
}

/// One metric: a gauge, or a cumulative monotonic sum counted from the
/// modem's boot.
#[derive(Debug, Clone)]
pub struct OtlpMetric {
    pub name: String,
    pub description: String,
    pub unit: String,
    pub cumulative: bool,
    pub points: Vec<DataPoint>,
}

/// The abstract content of a data point.
#[verifier::ext_equal]
pub struct PointView {
    pub value: PointValue,
    pub attrs: Seq<(Seq<char>, AttrView)>,
}

/// The abstract content of a metric.
#[verifier::ext_equal]
pub struct MetricView {
    pub name: Seq<char>,
    pub description: Seq<char>,
    pub unit: Seq<char>,
    pub cumulative: bool,
    pub points: Seq<PointView>,
}

/// The view of a data point.
pub open spec fn point_view(p: DataPoint) -> PointView {
    PointView { value: p.value, attrs: attr_views(p.attributes@) }
}

/// The views of a list of data points.
pub open spec fn point_views(ps: Seq<DataPoint>) -> Seq<PointView> {
    Seq::new(ps.len(), |i: int| point_view(ps[i]))
}

/// The view of a metric.
pub open spec fn metric_view(m: OtlpMetric) -> MetricView {
    MetricView {
        name: m.name@,
        description: m.description@,
        unit: m.unit@,
        cumulative: m.cumulative,
        points: point_views(m.points@),
    }
}

/// The views of a list of metrics.
pub open spec fn metric_views(ms: Seq<OtlpMetric>) -> Seq<MetricView> {
    Seq::new(ms.len(), |i: int| metric_view(ms[i]))
}

/// A gauge.
pub open spec fn gauge_v(
    name: Seq<char>,
    description: Seq<char>,
    unit: Seq<char>,
    points: Seq<PointView>,
) -> MetricView {
    MetricView { name, description, unit, cumulative: false, points }
}

/// A cumulative sum.
pub open spec fn sum_v(
    name: Seq<char>,
    description: Seq<char>,
    unit: Seq<char>,
    points: Seq<PointView>,
) -> MetricView {
    MetricView { name, description, unit, cumulative: true, points }
}

/// A data point with a whole-number value.
pub open spec fn whole_v(v: nat, attrs: Seq<(Seq<char>, AttrView)>) -> PointView {
    PointView { value: PointValue::Whole(v as u128), attrs }
}

/// A string attribute.
pub open spec fn str_av(key: Seq<char>, value: Seq<char>) -> (Seq<char>, AttrView) {
    (key, AttrView::Str(value))
}

/// An integer attribute.
pub open spec fn int_av(key: Seq<char>, value: int) -> (Seq<char>, AttrView) {
    (key, AttrView::Int(value))
}

/// A one-point `1` gauge labelled with a state, when the state is known.
pub open spec fn state_gauge_v(
    name: Seq<char>,
    description: Seq<char>,
    key: Seq<char>,
    state: Seq<char>,
) -> Seq<MetricView> {
    if state.len() == 0 {
        Seq::empty()
    } else {
        seq![gauge_v(name, description, "1"@, seq![whole_v(1, seq![str_av(key, state)])])]
    }
}

/// A one-point gauge of a number, when the number is known.
pub open spec fn opt_gauge_v(
    name: Seq<char>,
    description: Seq<char>,
    unit: Seq<char>,
    v: Option<u64>,
) -> Seq<MetricView> {
    match v {
        Some(x) => seq![gauge_v(name, description, unit, seq![whole_v(x as nat, Seq::empty())])],
        None => Seq::empty(),
    }
}

fn text_attr(key: &str, value: &str) -> (r: Attribute)
    ensures
        attr_view(r) == str_av(key@, value@),
{
    Attribute { key: owned(key), value: AttrValue::Str(owned(value)) }
}

fn int_attr(key: &str, value: i64) -> (r: Attribute)
    ensures
        attr_view(r) == int_av(key@, value as int),
{
    Attribute { key: owned(key), value: AttrValue::Int(value) }
}

fn whole_point(v: u128, attributes: Vec<Attribute>) -> (r: DataPoint)
    ensures
        point_view(r) == (PointView { value: PointValue::Whole(v), attrs: attr_views(attributes@) }),
{
    DataPoint { value: PointValue::Whole(v), attributes }
}

fn new_metric(name: &str, description: &str, unit: &str, cumulative: bool, points: Vec<DataPoint>) -> (r:
    OtlpMetric)
    ensures
        metric_view(r) == (MetricView {
            name: name@,
            description: description@,
            unit: unit@,
            cumulative,
            points: point_views(points@),
        }),
{
    OtlpMetric {
        name: owned(name),
        description: owned(description),
        unit: owned(unit),
        cumulative,
        points,
    }
}

fn push_metric(out: &mut Vec<OtlpMetric>, m: OtlpMetric)
    ensures
        metric_views(final(out)@) == metric_views(old(out)@).push(metric_view(m)),
{
    out.push(m);
    assert(metric_views(out@) =~~= metric_views(old(out)@).push(metric_view(m)));
}

fn push_state_gauge(out: &mut Vec<OtlpMetric>, name: &str, description: &str, key: &str, state: &str)
    ensures
        metric_views(final(out)@) == metric_views(old(out)@) + state_gauge_v(
            name@,
            description@,
            key@,
            state@,
        ),
{
    if state.is_empty() {
        assert(metric_views(old(out)@) + Seq::<MetricView>::empty() =~= metric_views(old(out)@));
    } else {
        let mut attrs: Vec<Attribute> = Vec::new();
        attrs.push(text_attr(key, state));
        assert(attr_views(attrs@) =~= seq![str_av(key@, state@)]);
        let mut points: Vec<DataPoint> = Vec::new();
        points.push(whole_point(1, attrs));
        assert(point_views(points@) =~~= seq![whole_v(1, seq![str_av(key@, state@)])]);
        push_metric(out, new_metric(name, description, "1", false, points));
        assert(metric_views(out@) =~~= metric_views(old(out)@) + state_gauge_v(
            name@,
            description@,
            key@,
            state@,
        ));
    }
}

fn push_opt_gauge(out: &mut Vec<OtlpMetric>, name: &str, description: &str, unit: &str, v: Option<u64>)
    ensures
        metric_views(final(out)@) == metric_views(old(out)@) + opt_gauge_v(
            name@,
            description@,
            unit@,
            v,
        ),
{
    match v {
        Some(x) => {
            let attrs: Vec<Attribute> = Vec::new();
            assert(attr_views(attrs@) =~= Seq::<(Seq<char>, AttrView)>::empty());
            let mut points: Vec<DataPoint> = Vec::new();
            points.push(whole_point(x as u128, attrs));
            assert(point_views(points@) =~~= seq![whole_v(x as nat, Seq::empty())]);
            push_metric(out, new_metric(name, description, unit, false, points));
            assert(metric_views(out@) =~~= metric_views(old(out)@) + opt_gauge_v(
                name@,
                description@,
                unit@,
                v,
            ));
        },
        None => {
            assert(metric_views(old(out)@) + Seq::<MetricView>::empty() =~= metric_views(
                old(out)@,
            ));
        },
    }
}

// ---------------------------------------------------------------------------
// Uptime, status, interfaces, CPE and DHCP
// ---------------------------------------------------------------------------

/// The status metric of one interface: `1` when its state is `Up`, else `0`.
pub open spec fn interface_status_v(i: InterfaceInfo) -> MetricView {
    gauge_v(
        "system.network.interface.status"@,
        "Network interface operational status"@,
        "1"@,
        seq![
            whole_v(
                if i.state@ == "Up"@ {
                    1
                } else {
                    0
                },
                seq![
                    str_av("network.interface.name"@, i.name@),
                    str_av("network.interface.provisioned"@, i.provisioned@),
                ],
            ),
        ],
    )
}

/// The status section: the uptime (counted since boot) when known, the
/// DOCSIS status when known, one status metric per interface, the CPE
/// counts, then the DHCP state and timers when known.
pub open spec fn status_metrics_v(data: ScrapedData) -> Seq<MetricView> {
    (match data.uptime_seconds {
        Some(u) => seq![
            sum_v("system.uptime"@, "System uptime"@, "s"@, seq![whole_v(u as nat, Seq::empty())]),
        ],
        None => Seq::empty(),
    }) + state_gauge_v(
        "hw.cable_modem.docsis.status"@,
        "Cable modem DOCSIS operational status"@,
        "docsis.state"@,
        data.cm_status@,
    ) + Seq::new(data.interfaces@.len(), |k: int| interface_status_v(data.interfaces@[k]))
        + seq![
        gauge_v(
            "hw.cable_modem.cpe.detected"@,
            "Number of detected CPE devices"@,
            "1"@,
            seq![
                whole_v(data.cpe_static as nat, seq![str_av("cpe.kind"@, "static"@)]),
                whole_v(data.cpe_dynamic as nat, seq![str_av("cpe.kind"@, "dynamic"@)]),
            ],
        ),
    ] + state_gauge_v(
        "hw.cable_modem.provisioning.dhcp.status"@,
        "DHCP state of the cable modem"@,
        "dhcp.state"@,
        data.dhcp_state@,
    ) + opt_gauge_v(
        "hw.cable_modem.provisioning.dhcp.lease.duration"@,
        "Total DHCP lease duration"@,
        "s"@,
        data.dhcp_info.lease_total_secs,
    ) + opt_gauge_v(
        "hw.cable_modem.provisioning.dhcp.lease.remaining"@,
        "DHCP lease time remaining"@,
        "s"@,
        data.dhcp_info.lease_remaining_secs,
    ) + opt_gauge_v(
        "hw.cable_modem.provisioning.dhcp.rebind.remaining"@,
        "DHCP rebind time remaining"@,
        "s"@,
        data.dhcp_info.rebind_remaining_secs,
    ) + opt_gauge_v(
        "hw.cable_modem.provisioning.dhcp.renew.remaining"@,
        "DHCP renew time remaining"@,
        "s"@,
        data.dhcp_info.renew_remaining_secs,
    )
}

fn interface_metric(i: &InterfaceInfo) -> (r: OtlpMetric)
    ensures
        metric_view(r) == interface_status_v(*i),
{
    let up: u128 = if str_eq(i.state.as_str(), "Up") {
        1
    } else {
        0
    };
    let mut attrs: Vec<Attribute> = Vec::new();
    attrs.push(text_attr("network.interface.name", i.name.as_str()));
    attrs.push(text_attr("network.interface.provisioned", i.provisioned.as_str()));
    let ghost a = seq![
        str_av("network.interface.name"@, i.name@),
        str_av("network.interface.provisioned"@, i.provisioned@),
    ];
    assert(attr_views(attrs@) =~= a);
    let mut points: Vec<DataPoint> = Vec::new();
    points.push(whole_point(up, attrs));
    assert(point_views(points@) =~~= seq![whole_v(up as nat, a)]);
    let r = new_metric(
        "system.network.interface.status",
        "Network interface operational status",
        "1",
        false,
        points,
    );
    assert(metric_view(r) =~~= interface_status_v(*i));
    r
}

/// The status section of a scrape's metrics.
#[verifier::rlimit(40)]
pub fn status_metrics(data: &ScrapedData) -> (r: Vec<OtlpMetric>)
    ensures
        metric_views(r@) == status_metrics_v(*data),
{
    let mut out: Vec<OtlpMetric> = Vec::new();
    match data.uptime_seconds {
        Some(u) => {
            let attrs: Vec<Attribute> = Vec::new();
            assert(attr_views(attrs@) =~= Seq::<(Seq<char>, AttrView)>::empty());
            let mut points: Vec<DataPoint> = Vec::new();
            points.push(whole_point(u as u128, attrs));
            assert(point_views(points@) =~~= seq![whole_v(u as nat, Seq::empty())]);
            push_metric(&mut out, new_metric("system.uptime", "System uptime", "s", true, points));
        },
        None => {},
    }
    push_state_gauge(
        &mut out,
        "hw.cable_modem.docsis.status",
        "Cable modem DOCSIS operational status",
        "docsis.state",
        data.cm_status.as_str(),
    );
    let ghost s2 = metric_views(out@);
    let ghost ifs = Seq::new(
        data.interfaces@.len(),
        |k: int| interface_status_v(data.interfaces@[k]),
    );
    let mut k: usize = 0;
    while k < data.interfaces.len()
        invariant
            0 <= k <= data.interfaces@.len(),
            ifs == Seq::new(data.interfaces@.len(), |j: int| interface_status_v(data.interfaces@[j])),
            metric_views(out@) == s2 + ifs.take(k as int),
        decreases data.interfaces.len() - k,
    {
        push_metric(&mut out, interface_metric(&data.interfaces[k]));
        assert(ifs.take(k + 1) =~= ifs.take(k as int).push(ifs[k as int]));
        k += 1;
    }
    assert(ifs.take(ifs.len() as int) =~= ifs);
    let mut cpe: Vec<DataPoint> = Vec::new();
    let mut a1: Vec<Attribute> = Vec::new();
    a1.push(text_attr("cpe.kind", "static"));
    assert(attr_views(a1@) =~= seq![str_av("cpe.kind"@, "static"@)]);
    cpe.push(whole_point(data.cpe_static as u128, a1));
    let mut a2: Vec<Attribute> = Vec::new();
    a2.push(text_attr("cpe.kind", "dynamic"));
    assert(attr_views(a2@) =~= seq![str_av("cpe.kind"@, "dynamic"@)]);
    cpe.push(whole_point(data.cpe_dynamic as u128, a2));
    assert(point_views(cpe@) =~~= seq![
        whole_v(data.cpe_static as nat, seq![str_av("cpe.kind"@, "static"@)]),
        whole_v(data.cpe_dynamic as nat, seq![str_av("cpe.kind"@, "dynamic"@)]),
    ]);
    push_metric(
        &mut out,
        new_metric("hw.cable_modem.cpe.detected", "Number of detected CPE devices", "1", false, cpe),
    );
    push_state_gauge(
        &mut out,
        "hw.cable_modem.provisioning.dhcp.status",
        "DHCP state of the cable modem",
        "dhcp.state",
        data.dhcp_state.as_str(),
    );
    push_opt_gauge(
        &mut out,
        "hw.cable_modem.provisioning.dhcp.lease.duration",
        "Total DHCP lease duration",
        "s",
        data.dhcp_info.lease_total_secs,
    );
    push_opt_gauge(
        &mut out,
        "hw.cable_modem.provisioning.dhcp.lease.remaining",
        "DHCP lease time remaining",
        "s",
        data.dhcp_info.lease_remaining_secs,
    );
    push_opt_gauge(
        &mut out,
        "hw.cable_modem.provisioning.dhcp.rebind.remaining",
        "DHCP rebind time remaining",
        "s",
        data.dhcp_info.rebind_remaining_secs,
    );
    push_opt_gauge(
        &mut out,
        "hw.cable_modem.provisioning.dhcp.renew.remaining",
        "DHCP renew time remaining",
        "s",
        data.dhcp_info.renew_remaining_secs,
    );
    assert(metric_views(out@) =~~= status_metrics_v(*data));
    out
}

// ---------------------------------------------------------------------------
// QoS flows and DOCSIS state
// ---------------------------------------------------------------------------

/// The packet counter point of one QoS flow; the numbers are taken as
/// signed 64-bit integers.
pub open spec fn qos_point_v(f: QosFlow) -> PointView {
    PointView {
        value: PointValue::Int(f.packets as i64),
        attrs: seq![
            int_av("cable.qos.sfid"@, (f.sfid as i64) as int),
            str_av("cable.qos.direction"@, f.direction@),
            str_av(
                "cable.qos.primary"@,
                if f.primary {
                    "true"@
                } else {
                    "false"@
                },
            ),
            str_av("cable.qos.service_class"@, f.service_class@),
        ],
    }
}

/// The point of one registration phase: its normalised name and status.
pub open spec fn phase_point_v(p: DocsisPhase) -> PointView {
    whole_v(
        1,
        seq![str_av("docsis.phase"@, token(p.phase@)), str_av("docsis.phase.status"@, p.status@)],
    )
}

/// The QoS and DOCSIS state section: the packet counters of the QoS flows
/// when there are any, the registration state when known, the phases when
/// there are any, then the BPI and time-of-day states when known.
pub open spec fn state_metrics_v(flows: Seq<QosFlow>, state: CmState) -> Seq<MetricView> {
    (if flows.len() == 0 {
        Seq::empty()
    } else {
        seq![
            sum_v(
                "hw.cable_modem.qos.packets.count"@,
                "QoS service flow packets"@,
                "1"@,
                Seq::new(flows.len(), |k: int| qos_point_v(flows[k])),
            ),
        ]
    }) + state_gauge_v(
        "hw.cable_modem.docsis.registration.status"@,
        "Overall DOCSIS registration state"@,
        "docsis.state"@,
        state.overall_state@,
    ) + (if state.phases@.len() == 0 {
        Seq::empty()
    } else {
        seq![
            gauge_v(
                "hw.cable_modem.docsis.phase.status"@,
                "DOCSIS registration phase status"@,
                "1"@,
                Seq::new(state.phases@.len(), |k: int| phase_point_v(state.phases@[k])),
            ),
        ]
    }) + state_gauge_v(
        "hw.cable_modem.docsis.bpi.status"@,
        "Baseline Privacy Interface state"@,
        "docsis.bpi.status"@,
        state.bpi_status@,
    ) + state_gauge_v(
        "hw.cable_modem.docsis.tod.status"@,
        "Time of Day acquisition state"@,
        "docsis.tod.status"@,
        state.tod_status@,
    )
}

fn qos_point(f: &QosFlow) -> (r: DataPoint)
    ensures
        point_view(r) == qos_point_v(*f),
{
    let mut attrs: Vec<Attribute> = Vec::new();
    attrs.push(int_attr("cable.qos.sfid", f.sfid as i64));
    attrs.push(text_attr("cable.qos.direction", f.direction.as_str()));
    let primary = if f.primary {
        "true"
    } else {
        "false"
    };
    attrs.push(text_attr("cable.qos.primary", primary));
    attrs.push(text_attr("cable.qos.service_class", f.service_class.as_str()));
    let r = DataPoint { value: PointValue::Int(f.packets as i64), attributes: attrs };
    assert(point_view(r) =~~= qos_point_v(*f));
    r
}

fn phase_point(p: &DocsisPhase) -> (r: DataPoint)
    ensures
        point_view(r) == phase_point_v(*p),
{
    let name = normalize_token(p.phase.as_str());
    let mut attrs: Vec<Attribute> = Vec::new();
    attrs.push(text_attr("docsis.phase", name.as_str()));
    attrs.push(text_attr("docsis.phase.status", p.status.as_str()));
    let r = whole_point(1, attrs);
    assert(point_view(r) =~~= phase_point_v(*p));
    r
}

/// The QoS and DOCSIS state section of a scrape's metrics.
#[verifier::rlimit(40)]
pub fn state_metrics(flows: &[QosFlow], state: &CmState) -> (r: Vec<OtlpMetric>)
    ensures
        metric_views(r@) == state_metrics_v(flows@, *state),
{
    let mut out: Vec<OtlpMetric> = Vec::new();
    if flows.len() > 0 {
        let ghost want = Seq::new(flows@.len(), |k: int| qos_point_v(flows@[k]));
        let mut points: Vec<DataPoint> = Vec::new();
        let mut k: usize = 0;
        while k < flows.len()
            invariant
                0 <= k <= flows@.len(),
                want == Seq::new(flows@.len(), |j: int| qos_point_v(flows@[j])),
                point_views(points@) == want.take(k as int),
            decreases flows.len() - k,
        {
            let p = qos_point(&flows[k]);
            let ghost before = points@;
            points.push(p);
            assert(point_views(points@) =~~= point_views(before).push(point_view(p)));
            assert(want.take(k + 1) =~~= want.take(k as int).push(want[k as int]));
            k += 1;
        }
        assert(want.take(want.len() as int) =~= want);
        push_metric(
            &mut out,
            new_metric(
                "hw.cable_modem.qos.packets.count",
                "QoS service flow packets",
                "1",
                true,
                points,
            ),
        );
    }
    push_state_gauge(
        &mut out,
        "hw.cable_modem.docsis.registration.status",
        "Overall DOCSIS registration state",
        "docsis.state",
        state.overall_state.as_str(),
    );
    let phases = &state.phases;
    if phases.len() > 0 {
        let ghost want = Seq::new(phases@.len(), |k: int| phase_point_v(phases@[k]));
        let mut points: Vec<DataPoint> = Vec::new();
        let mut k: usize = 0;
        while k < phases.len()
            invariant
                0 <= k <= phases@.len(),
                want == Seq::new(phases@.len(), |j: int| phase_point_v(phases@[j])),
                point_views(points@) == want.take(k as int),
            decreases phases.len() - k,
        {
            let p = phase_point(&phases[k]);
            let ghost before = points@;
            points.push(p);
            assert(point_views(points@) =~~= point_views(before).push(point_view(p)));
            assert(want.take(k + 1) =~~= want.take(k as int).push(want[k as int]));
            k += 1;
        }
        assert(want.take(want.len() as int) =~= want);
        push_metric(
            &mut out,
            new_metric(
                "hw.cable_modem.docsis.phase.status",
                "DOCSIS registration phase status",
                "1",
                false,
                points,
            ),
        );
    }
    push_state_gauge(
        &mut out,
        "hw.cable_modem.docsis.bpi.status",
        "Baseline Privacy Interface state",
        "docsis.bpi.status",
        state.bpi_status.as_str(),
    );
    push_state_gauge(
        &mut out,
        "hw.cable_modem.docsis.tod.status",
        "Time of Day acquisition state",
        "docsis.tod.status",
        state.tod_status.as_str(),
    );
    assert(metric_views(out@) =~~= state_metrics_v(flows@, *state));
    out
}

// ---------------------------------------------------------------------------
// Event log
// ---------------------------------------------------------------------------

/// The channel number of a profile table entry: the channel text read as a
/// `u32`, or 0 when it is not one.
pub open spec fn channel_number(channel: Seq<char>) -> int {
    match parse_bounded(channel, u32::MAX as nat) {
        Some(v) => v as int,
        None => 0,
    }
}

/// A count of one event ID as a one-point gauge.
pub open spec fn id_count_v(
    name: Seq<char>,
    description: Seq<char>,
    ids: Seq<Seq<char>>,
    id: Seq<char>,
) -> MetricView {
    gauge_v(name, description, "1"@, seq![whole_v(occurrences(ids, id), Seq::empty())])
}

/// A profile gauge: nothing without channels, else one point per channel in
/// channel order, the channel given by its number.
pub open spec fn profile_metric_v(
    name: Seq<char>,
    description: Seq<char>,
    table: Seq<(Seq<char>, u32)>,
) -> Seq<MetricView> {
    if table.len() == 0 {
        Seq::empty()
    } else {
        seq![
            gauge_v(
                name,
                description,
                "1"@,
                Seq::new(
                    table.len(),
                    |k: int|
                        whole_v(
                            table[k].1 as nat,
                            seq![int_av("cable.channel.id"@, channel_number(table[k].0))],
                        ),
                ),
            ),
        ]
    }
}

/// The event-log section: nothing without events; else the entry counts by
/// event ID (in order of first occurrence), the counts of T3 and T4
/// timeouts, DHCP failures, DHCP renew warnings, DHCP renew timeouts and
/// upstream profile changes, then the last upstream and OFDM/OFDMA profile
/// per channel.
pub open spec fn event_metrics_v(
    events: Seq<crate::parser::EventLogEntry>,
    us: Seq<(Seq<char>, u32)>,
    ofdma: Seq<(Seq<char>, u32)>,
) -> Seq<MetricView> {
    let ids = event_ids(events);
    let d = distinct_ids(ids);
    if events.len() == 0 {
        Seq::empty()
    } else {
        seq![
            gauge_v(
                "hw.cable_modem.event_log.entries"@,
                "Number of entries in the modem event log by event ID"@,
                "1"@,
                Seq::new(
                    d.len(),
                    |j: int|
                        whole_v(occurrences(ids, d[j]), seq![str_av("cable_modem.event.id"@, d[j])]),
                ),
            ),
            id_count_v(
                "hw.cable_modem.cmts.t3_timeouts.count"@,
                "T3 timeouts in the modem event log"@,
                ids,
                "82000200"@,
            ),
            id_count_v(
                "hw.cable_modem.cmts.t4_timeouts.count"@,
                "T4 timeouts in the modem event log"@,
                ids,
                "82000300"@,
            ),
            id_count_v(
                "hw.cable_modem.provisioning.dhcp_failures.count"@,
                "DHCP failures in the modem event log"@,
                ids,
                "68001202"@,
            ),
            id_count_v(
                "hw.cable_modem.provisioning.dhcp_renew_warnings.count"@,
                "DHCP renew warnings in the modem event log"@,
                ids,
                "68010300"@,
            ),
            id_count_v(
                "hw.cable_modem.provisioning.dhcp_renew_no_response.count"@,
                "DHCP renew no response events in the modem event log"@,
                ids,
                "68010100"@,
            ),
            id_count_v(
                "hw.cable_modem.upstream.profile_changes.count"@,
                "Upstream profile assignment changes in the modem event log"@,
                ids,
                "67061601"@,
            ),
        ] + profile_metric_v(
            "hw.cable_modem.upstream.profile.active"@,
            "Last seen upstream profile ID from modem event log"@,
            us,
        ) + profile_metric_v(
            "hw.cable_modem.upstream.ofdma.profile.active"@,
            "Last seen OFDM/OFDMA profile ID from modem event log"@,
            ofdma,
        )
    }
}

fn channel_id(channel: &str) -> (r: i64)
    ensures
        r as int == channel_number(channel@),
{
    let v = chars_of(channel);
    assert(v@.subrange(0, v@.len() as int) =~= v@);
    match parse_digits_bounded(&v, 0, v.len(), 0xffff_ffff) {
        Some(n) => n as i64,
        None => 0,
    }
}

fn push_id_count(
    out: &mut Vec<OtlpMetric>,
    events: &[crate::parser::EventLogEntry],
    name: &str,
    description: &str,
    id: &str,
)
    ensures
        metric_views(final(out)@) == metric_views(old(out)@).push(
            id_count_v(name@, description@, event_ids(events@), id@),
        ),
{
    let n = count_id(events, id);
    let attrs: Vec<Attribute> = Vec::new();
    assert(attr_views(attrs@) =~= Seq::<(Seq<char>, AttrView)>::empty());
    let mut points: Vec<DataPoint> = Vec::new();
    points.push(whole_point(n as u128, attrs));
    assert(point_views(points@) =~~= seq![
        whole_v(occurrences(event_ids(events@), id@), Seq::empty()),
    ]);
    let m = new_metric(name, description, "1", false, points);
    assert(metric_view(m) =~~= id_count_v(name@, description@, event_ids(events@), id@));
    push_metric(out, m);
}

fn push_profile_metric(
    out: &mut Vec<OtlpMetric>,
    name: &str,
    description: &str,
    table: &Vec<(String, u32)>,
)
    ensures
        metric_views(final(out)@) == metric_views(old(out)@) + profile_metric_v(
            name@,
            description@,
            table_view(table@),
        ),
{
    let ghost tv = table_view(table@);
    if table.len() == 0 {
        assert(metric_views(old(out)@) + Seq::<MetricView>::empty() =~= metric_views(old(out)@));
        return;
    }
    let ghost want = Seq::new(
        tv.len(),
        |k: int| whole_v(tv[k].1 as nat, seq![int_av("cable.channel.id"@, channel_number(tv[k].0))]),
    );
    let mut points: Vec<DataPoint> = Vec::new();
    let mut k: usize = 0;
    while k < table.len()
        invariant
            0 <= k <= table@.len(),
            tv == table_view(table@),
            want == Seq::new(
                tv.len(),
                |j: int|
                    whole_v(tv[j].1 as nat, seq![int_av("cable.channel.id"@, channel_number(tv[j].0))]),
            ),
            point_views(points@) == want.take(k as int),
        decreases table.len() - k,
    {
        let mut attrs: Vec<Attribute> = Vec::new();
        attrs.push(int_attr("cable.channel.id", channel_id(table[k].0.as_str())));
        assert(attr_views(attrs@) =~= seq![int_av("cable.channel.id"@, channel_number(tv[k as int].0))]);
        let p = whole_point(table[k].1 as u128, attrs);
        let ghost before = points@;
        points.push(p);
        assert(point_views(points@) =~~= point_views(before).push(point_view(p)));
        assert(want.take(k + 1) =~~= want.take(k as int).push(want[k as int]));
        k += 1;
    }
    assert(want.take(want.len() as int) =~= want);
    push_metric(out, new_metric(name, description, "1", false, points));
    assert(metric_views(out@) =~~= metric_views(old(out)@) + profile_metric_v(
        name@,
        description@,
        tv,
    ));
}

/// The event-log section of a scrape's metrics. The profile tables are
/// those of the log: sorted by channel, one entry per channel with the
/// last profile seen for it.
#[verifier::rlimit(40)]
pub fn event_metrics(events: &[crate::parser::EventLogEntry]) -> (r: Vec<OtlpMetric>)
    ensures
        exists|us: Seq<(Seq<char>, u32)>, ofdma: Seq<(Seq<char>, u32)>|
            {
                &&& sorted_table(us)
                &&& table_of(us, profile_map(events@, ProfileKind::Upstream))
                &&& sorted_table(ofdma)
                &&& table_of(ofdma, profile_map(events@, ProfileKind::Ofdma))
                &&& metric_views(r@) == event_metrics_v(events@, us, ofdma)
            },
{
    let mut out: Vec<OtlpMetric> = Vec::new();
    let us = latest_profiles(events, ProfileKind::Upstream);
    let ofdma = latest_profiles(events, ProfileKind::Ofdma);
    if events.len() == 0 {
        assert(metric_views(out@) =~~= event_metrics_v(events@, table_view(us@), table_view(ofdma@)));
        return out;
    }
    let ghost ids = event_ids(events@);
    let ghost d = distinct_ids(ids);
    let counts = count_event_ids(events);
    let ghost want = Seq::new(
        d.len(),
        |j: int| whole_v(occurrences(ids, d[j]), seq![str_av("cable_modem.event.id"@, d[j])]),
    );
    let mut points: Vec<DataPoint> = Vec::new();
    let mut k: usize = 0;
    while k < counts.len()
        invariant
            0 <= k <= counts@.len(),
            counts@.len() == d.len(),
            d == distinct_ids(ids),
            ids == event_ids(events@),
            forall|j: int|
                0 <= j < counts@.len() ==> #[trigger] counts@[j].0@ == d[j] && counts@[j].1
                    == occurrences(ids, d[j]),
            want == Seq::new(
                d.len(),
                |j: int| whole_v(occurrences(ids, d[j]), seq![str_av("cable_modem.event.id"@, d[j])]),
            ),
            point_views(points@) == want.take(k as int),
        decreases counts.len() - k,
    {
        let mut attrs: Vec<Attribute> = Vec::new();
        attrs.push(text_attr("cable_modem.event.id", counts[k].0.as_str()));
        assert(counts@[k as int].0@ == d[k as int]);
        assert(attr_views(attrs@) =~= seq![str_av("cable_modem.event.id"@, d[k as int])]);
        let p = whole_point(counts[k].1 as u128, attrs);
        let ghost before = points@;
        points.push(p);
        assert(point_views(points@) =~~= point_views(before).push(point_view(p)));
        assert(want.take(k + 1) =~~= want.take(k as int).push(want[k as int]));
        k += 1;
    }
    assert(want.take(want.len() as int) =~= want);
    push_metric(
        &mut out,
        new_metric(
            "hw.cable_modem.event_log.entries",
            "Number of entries in the modem event log by event ID",
            "1",
            false,
            points,
        ),
    );
    push_id_count(
        &mut out,
        events,
        "hw.cable_modem.cmts.t3_timeouts.count",
        "T3 timeouts in the modem event log",
        "82000200",
    );
    push_id_count(
        &mut out,
        events,
        "hw.cable_modem.cmts.t4_timeouts.count",
        "T4 timeouts in the modem event log",
        "82000300",
    );
    push_id_count(
        &mut out,
        events,
        "hw.cable_modem.provisioning.dhcp_failures.count",
        "DHCP failures in the modem event log",
        "68001202",
    );
    push_id_count(
        &mut out,
        events,
        "hw.cable_modem.provisioning.dhcp_renew_warnings.count",
        "DHCP renew warnings in the modem event log",
        "68010300",
    );
    push_id_count(
        &mut out,
        events,
        "hw.cable_modem.provisioning.dhcp_renew_no_response.count",
        "DHCP renew no response events in the modem event log",
        "68010100",
    );
    push_id_count(
        &mut out,
        events,
        "hw.cable_modem.upstream.profile_changes.count",
        "Upstream profile assignment changes in the modem event log",
        "67061601",
    );
    push_profile_metric(
        &mut out,
        "hw.cable_modem.upstream.profile.active",
        "Last seen upstream profile ID from modem event log",
        &us,
    );
    push_profile_metric(
        &mut out,
        "hw.cable_modem.upstream.ofdma.profile.active",
        "Last seen OFDM/OFDMA profile ID from modem event log",
        &ofdma,
    );
    assert(metric_views(out@) =~~= event_metrics_v(events@, table_view(us@), table_view(ofdma@)));
    out
}

// ---------------------------------------------------------------------------
// Product details and service-flow configuration
// ---------------------------------------------------------------------------

/// The product section: the Ethernet PHY when known, then the enabled
/// logging components per group when there are any.
pub open spec fn product_metrics_v(product: ProductInfo) -> Seq<MetricView> {
    state_gauge_v(
        "hw.cable_modem.ethernet.phy.info"@,
        "Ethernet PHY type reported by the modem"@,
        "network.ethernet.phy.type"@,
        product.ethernet_phy_type@,
    ) + (if product.logging_components_enabled@.len() == 0 {
        Seq::empty()
    } else {
        let g = product.logging_components_enabled@;
        seq![
            gauge_v(
                "hw.cable_modem.product.logging_components.enabled"@,
                "Number of enabled internal logging components by product debug group"@,
                "1"@,
                Seq::new(
                    g.len(),
                    |k: int|
                        whole_v(g[k].1 as nat, seq![str_av("cm3500.product.logging.group"@, g[k].0@)]),
                ),
            ),
        ]
    })
}

/// The product section of a scrape's metrics.
#[verifier::rlimit(30)]
pub fn product_metrics(product: &ProductInfo) -> (r: Vec<OtlpMetric>)
    ensures
        metric_views(r@) == product_metrics_v(*product),
{
    let mut out: Vec<OtlpMetric> = Vec::new();
    push_state_gauge(
        &mut out,
        "hw.cable_modem.ethernet.phy.info",
        "Ethernet PHY type reported by the modem",
        "network.ethernet.phy.type",
        product.ethernet_phy_type.as_str(),
    );
    let g = &product.logging_components_enabled;
    if g.len() > 0 {
        let ghost want = Seq::new(
            g@.len(),
            |k: int| whole_v(g@[k].1 as nat, seq![str_av("cm3500.product.logging.group"@, g@[k].0@)]),
        );
        let mut points: Vec<DataPoint> = Vec::new();
        let mut k: usize = 0;
        while k < g.len()
            invariant
                0 <= k <= g@.len(),
                want == Seq::new(
                    g@.len(),
                    |j: int|
                        whole_v(g@[j].1 as nat, seq![str_av("cm3500.product.logging.group"@, g@[j].0@)]),
                ),
                point_views(points@) == want.take(k as int),
            decreases g.len() - k,
        {
            let mut attrs: Vec<Attribute> = Vec::new();
            attrs.push(text_attr("cm3500.product.logging.group", g[k].0.as_str()));
            assert(attr_views(attrs@) =~= seq![str_av("cm3500.product.logging.group"@, g@[k as int].0@)]);
            let p = whole_point(g[k].1 as u128, attrs);
            let ghost before = points@;
            points.push(p);
            assert(point_views(points@) =~~= point_views(before).push(point_view(p)));
            assert(want.take(k + 1) =~~= want.take(k as int).push(want[k as int]));
            k += 1;
        }
        assert(want.take(want.len() as int) =~= want);
        push_metric(
            &mut out,
            new_metric(
                "hw.cable_modem.product.logging_components.enabled",
                "Number of enabled internal logging components by product debug group",
                "1",
                false,
                points,
            ),
        );
    }
    assert(metric_views(out@) =~~= product_metrics_v(*product));
    out
}

/// Which number of a configured service flow a metric reports.
#[derive(Debug, Clone, Copy, PartialEq, Eq, Structural)]
pub enum FlowNumber {
    MaxRate,
    MinRate,
    MaxBurst,
    Priority,
}

/// The number a metric reports for a flow: the rates are multiplied by
/// 1000, as the metrics give them in bit/s.
pub open spec fn flow_number(f: ServiceFlowConfig, which: FlowNumber) -> nat {
    match which {
        FlowNumber::MaxRate => (f.max_traffic_rate_bps * 1000) as nat,
        FlowNumber::MinRate => (f.min_reserved_rate_bps * 1000) as nat,
        FlowNumber::MaxBurst => f.max_traffic_burst as nat,
        FlowNumber::Priority => f.traffic_priority as nat,
    }
}

/// The points of one service-flow metric: one per flow, labelled with the
/// flow's direction and index.
pub open spec fn flow_points_v(flows: Seq<ServiceFlowConfig>, which: FlowNumber) -> Seq<PointView> {
    Seq::new(
        flows.len(),
        |k: int|
            whole_v(
                flow_number(flows[k], which),
                seq![
                    str_av("cable.qos.direction"@, flows[k].direction@),
                    int_av("cable.qos.flow_index"@, flows[k].index as int),
                ],
            ),
    )
}

/// The service-flow section: nothing without flows, else the maximum rate,
/// minimum reserved rate, maximum burst and priority metrics.
pub open spec fn flow_metrics_v(flows: Seq<ServiceFlowConfig>) -> Seq<MetricView> {
    if flows.len() == 0 {
        Seq::empty()
    } else {
        seq![
            gauge_v(
                "hw.cable_modem.qos.max_traffic.rate"@,
                "Maximum QoS service flow traffic rate"@,
                "bit/s"@,
                flow_points_v(flows, FlowNumber::MaxRate),
            ),
            gauge_v(
                "hw.cable_modem.qos.min_reserved.rate"@,
                "Minimum reserved QoS service flow rate"@,
                "bit/s"@,
                flow_points_v(flows, FlowNumber::MinRate),
            ),
            gauge_v(
                "hw.cable_modem.qos.max_traffic.burst"@,
                "Maximum QoS service flow traffic burst"@,
                "By"@,
                flow_points_v(flows, FlowNumber::MaxBurst),
            ),
            gauge_v(
                "hw.cable_modem.qos.traffic.priority"@,
                "QoS service flow traffic priority"@,
                "1"@,
                flow_points_v(flows, FlowNumber::Priority),
            ),
        ]
    }
}

fn flow_points(flows: &[ServiceFlowConfig], which: FlowNumber) -> (r: Vec<DataPoint>)
    ensures
        point_views(r@) == flow_points_v(flows@, which),
{
    let ghost want = flow_points_v(flows@, which);
    let mut points: Vec<DataPoint> = Vec::new();
    let mut k: usize = 0;
    while k < flows.len()
        invariant
            0 <= k <= flows@.len(),
            want == flow_points_v(flows@, which),
            point_views(points@) == want.take(k as int),
        decreases flows.len() - k,
    {
        let f = &flows[k];
        let v: u128 = match which {
            FlowNumber::MaxRate => (f.max_traffic_rate_bps as u128) * 1000,
            FlowNumber::MinRate => (f.min_reserved_rate_bps as u128) * 1000,
            FlowNumber::MaxBurst => f.max_traffic_burst as u128,
            FlowNumber::Priority => f.traffic_priority as u128,
        };
        let mut attrs: Vec<Attribute> = Vec::new();
        attrs.push(text_attr("cable.qos.direction", f.direction.as_str()));
        attrs.push(int_attr("cable.qos.flow_index", f.index as i64));
        assert(attr_views(attrs@) =~= seq![
            str_av("cable.qos.direction"@, f.direction@),
            int_av("cable.qos.flow_index"@, f.index as int),
        ]);
        let p = whole_point(v, attrs);
        let ghost before = points@;
        points.push(p);
        assert(point_views(points@) =~~= point_views(before).push(point_view(p)));
        assert(want.take(k + 1) =~~= want.take(k as int).push(want[k as int]));
        k += 1;
    }
    assert(want.take(want.len() as int) =~= want);
    points
}

/// The service-flow section of a scrape's metrics.
#[verifier::rlimit(30)]
pub fn flow_metrics(flows: &[ServiceFlowConfig]) -> (r: Vec<OtlpMetric>)
    ensures
        metric_views(r@) == flow_metrics_v(flows@),
{
    let mut out: Vec<OtlpMetric> = Vec::new();
    if flows.len() == 0 {
        assert(metric_views(out@) =~~= flow_metrics_v(flows@));
        return out;
    }
    push_metric(
        &mut out,
        new_metric(
            "hw.cable_modem.qos.max_traffic.rate",
            "Maximum QoS service flow traffic rate",
            "bit/s",
            false,
            flow_points(flows, FlowNumber::MaxRate),
        ),
    );
    push_metric(
        &mut out,
        new_metric(
            "hw.cable_modem.qos.min_reserved.rate",
            "Minimum reserved QoS service flow rate",
            "bit/s",
            false,
            flow_points(flows, FlowNumber::MinRate),
        ),
    );
    push_metric(
        &mut out,
        new_metric(
            "hw.cable_modem.qos.max_traffic.burst",
            "Maximum QoS service flow traffic burst",
            "By",
            false,
            flow_points(flows, FlowNumber::MaxBurst),
        ),
    );
    push_metric(
        &mut out,
        new_metric(
            "hw.cable_modem.qos.traffic.priority",
            "QoS service flow traffic priority",
            "1",
            false,
            flow_points(flows, FlowNumber::Priority),
        ),
    );
    assert(metric_views(out@) =~~= flow_metrics_v(flows@));
    out
}

} // verus!
