//! Prometheus text exposition of the modem's readings.
//!
//! The analog channel measurements (powers, frequencies, signal ratios and
//! spectrum powers) are floating-point values and are rendered beside these
//! sections; everything else is rendered here.
use vstd::prelude::*;

use crate::channels::{channels_text, render_channels, ChannelReadings};
use crate::spectrum::{render_spectrum, spectrum_text, SpectrumReading};
use crate::events::{
    count_event_ids, count_id, distinct_ids, event_ids, latest_profiles, occurrences,
    profile_map, sorted_table, table_of, table_view, ProfileKind,
};
use crate::num::{decimal, decimal_string};
use crate::parser::{
    CmState, DhcpInfo, DocsisPhase, EventLogEntry, InterfaceInfo, ScrapedData, VersionInfo, ProductInfo, QosFlow, ServiceFlowConfig,
};
use crate::text::{
    chars_of, joined, lemma_joined_step, normalize_token, push_char, push_str, str_eq, token,
};

verus! {

// ---------------------------------------------------------------------------
// Label escaping
// ---------------------------------------------------------------------------

/// How one character of a label value is written: `\`, `"` and newline
/// are escaped with a backslash.
pub open spec fn escape_char(c: char) -> Seq<char> {
    if c == '\\' {
        seq!['\\', '\\']
    } else if c == '"' {
        seq!['\\', '"']
    } else if c == '\n' {
        seq!['\\', 'n']
    } else {
        seq![c]
    }
}

/// A label value as written between the quotes.
pub open spec fn escaped(s: Seq<char>) -> Seq<char>
    decreases s.len(),
{
    if s.len() == 0 {
        Seq::empty()
    } else {
        escaped(s.drop_last()) + escape_char(s.last())
    }
}

/// Escapes a label value: `\` becomes `\\`, `"` becomes `\"` and a newline
/// becomes `\n`.
pub fn escape(s: &str) -> (r: String)
    ensures
        r@ == escaped(s@),
{
    let v = chars_of(s);
    let mut out = String::new();
    let mut i: usize = 0;
    while i < v.len()
        invariant
            v@ == s@,
            0 <= i <= v.len(),
            out@ == escaped(v@.take(i as int)),
        decreases v.len() - i,
    {
        let c = v[i];
        if c == '\\' {
            push_char(&mut out, '\\');
            push_char(&mut out, '\\');
        } else if c == '"' {
            push_char(&mut out, '\\');
            push_char(&mut out, '"');
        } else if c == '\n' {
            push_char(&mut out, '\\');
            push_char(&mut out, 'n');
        } else {
            push_char(&mut out, c);
        }
        assert(v@.take(i + 1).drop_last() =~= v@.take(i as int));
        assert(escaped(v@.take(i + 1)) == escaped(v@.take(i as int)) + escape_char(c));
        assert(out@ =~= escaped(v@.take(i + 1)));
        i += 1;
    }
    assert(v@.take(v@.len() as int) =~= v@);
    out
}

proof fn lemma_escaped_concat(a: Seq<char>, b: Seq<char>)
    ensures
        escaped(a + b) == escaped(a) + escaped(b),
    decreases b.len(),
{
    if b.len() == 0 {
        assert(a + b =~= a);
        assert(escaped(a) + escaped(b) =~= escaped(a));
    } else {
        lemma_escaped_concat(a, b.drop_last());
        assert((a + b).drop_last() =~= a + b.drop_last());
        assert((a + b).last() == b.last());
        assert(escaped(a) + escaped(b.drop_last()) + escape_char(b.last()) =~= escaped(a) + (
        escaped(b.drop_last()) + escape_char(b.last())));
    }
}

/// Reads an escaped label value back.
pub open spec fn unescaped(t: Seq<char>) -> Seq<char>
    decreases t.len(),
{
    if t.len() == 0 {
        Seq::empty()
    } else if t[0] == '\\' && t.len() >= 2 {
        seq![
            if t[1] == 'n' {
                '\n'
            } else {
                t[1]
            },
        ] + unescaped(t.skip(2))
    } else {
        seq![t[0]] + unescaped(t.drop_first())
    }
}

proof fn lemma_unescape_escaped(s: Seq<char>)
    ensures
        unescaped(escaped(s)) == s,
    decreases s.len(),
{
    if s.len() > 0 {
        let c = s[0];
        let rest = s.drop_first();
        assert(s =~= seq![c] + rest);
        lemma_escaped_concat(seq![c], rest);
        assert(seq![c].drop_last() =~= Seq::<char>::empty());
        assert(escaped(Seq::<char>::empty()) =~= Seq::<char>::empty());
        assert(seq![c].last() == c);
        assert(escaped(seq![c]) =~= escape_char(c));
        let t = escaped(s);
        lemma_unescape_escaped(rest);
        if c == '\\' || c == '"' || c == '\n' {
            assert(t.skip(2) =~= escaped(rest));
        } else {
            assert(t.drop_first() =~= escaped(rest));
        }
        assert(unescaped(t) =~= s);
    }
}

/// Escaping is reversible: distinct label values are written differently.
pub proof fn lemma_escape_injective(a: Seq<char>, b: Seq<char>)
    requires
        escaped(a) == escaped(b),
    ensures
        a == b,
{
    lemma_unescape_escaped(a);
    lemma_unescape_escaped(b);
}

/// An escaped label value holds no line break, so a sample stays on one line.
pub proof fn lemma_escaped_single_line(s: Seq<char>)
    ensures
        forall|i: int| 0 <= i < escaped(s).len() ==> escaped(s)[i] != '\n',
    decreases s.len(),
{
    if s.len() > 0 {
        lemma_escaped_single_line(s.drop_last());
        let p = escaped(s.drop_last());
        let q = escape_char(s.last());
        assert forall|i: int| 0 <= i < escaped(s).len() implies escaped(s)[i] != '\n' by {
            if i < p.len() {
                assert(escaped(s)[i] == p[i]);
            } else {
                assert(escaped(s)[i] == q[i - p.len()]);
            }
        }
    }
}

// ---------------------------------------------------------------------------
// Labels and lines
// ---------------------------------------------------------------------------

/// The views of label pairs.
pub open spec fn label_views(ls: Seq<(&str, &str)>) -> Seq<(Seq<char>, Seq<char>)> {
    Seq::new(ls.len(), |i: int| (ls[i].0@, ls[i].1@))
}

/// One label as `key="escaped value"`.
pub open spec fn pair_text(p: (Seq<char>, Seq<char>)) -> Seq<char> {
    p.0 + seq!['=', '"'] + escaped(p.1) + seq!['"']
}

/// Labels joined by commas.
pub open spec fn pairs_text(ls: Seq<(Seq<char>, Seq<char>)>) -> Seq<char>
    decreases ls.len(),
{
    if ls.len() == 0 {
        Seq::empty()
    } else if ls.len() == 1 {
        pair_text(ls[0])
    } else {
        pairs_text(ls.drop_last()) + seq![','] + pair_text(ls.last())
    }
}

/// A label set: empty without labels, else `{` the labels `}`.
pub open spec fn label_text(ls: Seq<(Seq<char>, Seq<char>)>) -> Seq<char> {
    if ls.len() == 0 {
        Seq::empty()
    } else {
        seq!['{'] + pairs_text(ls) + seq!['}']
    }
}

/// Renders a label set: `""` without labels, else
/// `{k1="v1",k2="v2",...}` with each value escaped.
#[verifier::rlimit(30)]
pub fn format_labels(labels: &[(&str, &str)]) -> (r: String)
    ensures
        r@ == label_text(label_views(labels@)),
{
    let ghost ls = label_views(labels@);
    if labels.len() == 0 {
        return String::new();
    }
    let mut out = String::new();
    push_char(&mut out, '{');
    let mut i: usize = 0;
    while i < labels.len()
        invariant
            ls == label_views(labels@),
            labels@.len() > 0,
            0 <= i <= labels@.len(),
            out@ == seq!['{'] + pairs_text(ls.take(i as int)),
        decreases labels.len() - i,
    {
        let (k, v) = labels[i];
        if i > 0 {
            push_char(&mut out, ',');
        }
        push_str(&mut out, k);
        push_char(&mut out, '=');
        push_char(&mut out, '"');
        let e = escape(v);
        push_str(&mut out, e.as_str());
        push_char(&mut out, '"');
        proof {
            let t = ls.take(i + 1);
            assert(t.last() == (k@, v@));
            assert(t.drop_last() =~= ls.take(i as int));
            if i == 0 {
                assert(t.len() == 1);
                assert(out@ =~= seq!['{'] + pair_text(t[0]));
            } else {
                assert(out@ =~= seq!['{'] + (pairs_text(t.drop_last()) + seq![','] + pair_text(
                    t.last(),
                )));
            }
        }
        i += 1;
    }
    push_char(&mut out, '}');
    assert(ls.take(ls.len() as int) =~= ls);
    assert(out@ =~= label_text(ls));
    out
}

/// The `# HELP` and `# TYPE` lines of a metric family.
pub open spec fn header_text(name: Seq<char>, help: Seq<char>, typ: Seq<char>) -> Seq<char> {
    "# HELP "@ + name + seq![' '] + help + seq!['\n'] + "# TYPE "@ + name + seq![' '] + typ
        + seq!['\n']
}

/// One sample line: the name, the label set, a space, the value.
pub open spec fn sample_text(
    name: Seq<char>,
    labels: Seq<(Seq<char>, Seq<char>)>,
    value: Seq<char>,
) -> Seq<char> {
    name + label_text(labels) + seq![' '] + value + seq!['\n']
}

/// A metric family with one unlabelled sample, followed by a blank line.
pub open spec fn metric_text(name: Seq<char>, help: Seq<char>, typ: Seq<char>, value: Seq<char>) -> Seq<
    char,
> {
    header_text(name, help, typ) + name + seq![' '] + value + seq!['\n', '\n']
}

/// A metric family with one labelled sample, followed by a blank line.
pub open spec fn labeled_metric_text(
    name: Seq<char>,
    help: Seq<char>,
    typ: Seq<char>,
    labels: Seq<(Seq<char>, Seq<char>)>,
    value: Seq<char>,
) -> Seq<char> {
    header_text(name, help, typ) + sample_text(name, labels, value) + seq!['\n']
}

/// Writes the `# HELP` and `# TYPE` lines of a metric family.
pub fn header(out: &mut String, name: &str, help: &str, typ: &str)
    ensures
        final(out)@ == old(out)@ + header_text(name@, help@, typ@),
{
    push_str(out, "# HELP ");
    push_str(out, name);
    push_char(out, ' ');
    push_str(out, help);
    push_char(out, '\n');
    push_str(out, "# TYPE ");
    push_str(out, name);
    push_char(out, ' ');
    push_str(out, typ);
    push_char(out, '\n');
    assert(final(out)@ =~= old(out)@ + header_text(name@, help@, typ@));
}

pub(crate) fn sample(out: &mut String, name: &str, labels: &[(&str, &str)], value: &str)
    ensures
        final(out)@ == old(out)@ + sample_text(name@, label_views(labels@), value@),
{
    push_str(out, name);
    let l = format_labels(labels);
    push_str(out, l.as_str());
    push_char(out, ' ');
    push_str(out, value);
    push_char(out, '\n');
    assert(final(out)@ =~= old(out)@ + sample_text(name@, label_views(labels@), value@));
}

/// Writes a gauge sample whose value is a whole number.
pub fn gauge(out: &mut String, name: &str, labels: &[(&str, &str)], value: u64)
    ensures
        final(out)@ == old(out)@ + sample_text(name@, label_views(labels@), decimal(value as nat)),
{
    let v = decimal_string(value as u128);
    sample(out, name, labels, v.as_str());
}

/// Writes a counter sample.
pub fn counter(out: &mut String, name: &str, labels: &[(&str, &str)], value: u64)
    ensures
        final(out)@ == old(out)@ + sample_text(name@, label_views(labels@), decimal(value as nat)),
{
    let v = decimal_string(value as u128);
    sample(out, name, labels, v.as_str());
}

/// Writes a metric family with one unlabelled sample.
pub fn metric(out: &mut String, name: &str, help: &str, typ: &str, value: &str)
    ensures
        final(out)@ == old(out)@ + metric_text(name@, help@, typ@, value@),
{
    header(out, name, help, typ);
    push_str(out, name);
    push_char(out, ' ');
    push_str(out, value);
    push_char(out, '\n');
    push_char(out, '\n');
    assert(final(out)@ =~= old(out)@ + metric_text(name@, help@, typ@, value@));
}

/// Writes a metric family with one labelled sample.
pub fn labeled_metric(
    out: &mut String,
    name: &str,
    help: &str,
    typ: &str,
    labels: &[(&str, &str)],
    value: &str,
)
    ensures
        final(out)@ == old(out)@ + labeled_metric_text(
            name@,
            help@,
            typ@,
            label_views(labels@),
            value@,
        ),
{
    header(out, name, help, typ);
    sample(out, name, labels, value);
    push_char(out, '\n');
    assert(final(out)@ =~= old(out)@ + labeled_metric_text(
        name@,
        help@,
        typ@,
        label_views(labels@),
        value@,
    ));
}

// ---------------------------------------------------------------------------
// Sections
// ---------------------------------------------------------------------------

/// Writes the static and dynamic CPE counts.
pub fn render_cpe(out: &mut String, cpe_static: u32, cpe_dynamic: u32)
    ensures
        final(out)@ == old(out)@ + metric_text(
            "cm3500_cpe_static"@,
            "Number of static CPE devices detected"@,
            "gauge"@,
            decimal(cpe_static as nat),
        ) + metric_text(
            "cm3500_cpe_dynamic"@,
            "Number of dynamic CPE devices detected"@,
            "gauge"@,
            decimal(cpe_dynamic as nat),
        ),
{
    let s = decimal_string(cpe_static as u128);
    metric(out, "cm3500_cpe_static", "Number of static CPE devices detected", "gauge", s.as_str());
    let d = decimal_string(cpe_dynamic as u128);
    metric(
        out,
        "cm3500_cpe_dynamic",
        "Number of dynamic CPE devices detected",
        "gauge",
        d.as_str(),
    );
}

/// A gauge family with one unlabelled sample when the value is known.
pub open spec fn opt_metric_text(name: Seq<char>, help: Seq<char>, v: Option<u64>) -> Seq<char> {
    match v {
        Some(x) => metric_text(name, help, "gauge"@, decimal(x as nat)),
        None => Seq::empty(),
    }
}

/// A labelled `1` gauge for a state, when the state is known.
pub open spec fn state_metric_text(
    name: Seq<char>,
    help: Seq<char>,
    key: Seq<char>,
    state: Seq<char>,
) -> Seq<char> {
    if state.len() == 0 {
        Seq::empty()
    } else {
        labeled_metric_text(name, help, "gauge"@, seq![(key, state)], "1"@)
    }
}

fn opt_metric(out: &mut String, name: &str, help: &str, v: Option<u64>)
    ensures
        final(out)@ == old(out)@ + opt_metric_text(name@, help@, v),
{
    if let Some(x) = v {
        let s = decimal_string(x as u128);
        metric(out, name, help, "gauge", s.as_str());
    } else {
        assert(old(out)@ + Seq::<char>::empty() =~= old(out)@);
    }
}

fn state_metric(out: &mut String, name: &str, help: &str, key: &str, state: &str)
    ensures
        final(out)@ == old(out)@ + state_metric_text(name@, help@, key@, state@),
{
    if state.is_empty() {
        assert(old(out)@ + Seq::<char>::empty() =~= old(out)@);
    } else {
        let labels = [(key, state)];
        assert(label_views(labels@) =~= seq![(key@, state@)]);
        labeled_metric(out, name, help, "gauge", &labels, "1");
    }
}

/// The DHCP section: the state, then the lease and its timers when known.
pub open spec fn dhcp_text(dhcp: DhcpInfo, dhcp_state: Seq<char>) -> Seq<char> {
    state_metric_text(
        "cm3500_dhcp_state"@,
        "DHCP state of the cable modem"@,
        "state"@,
        dhcp_state,
    ) + opt_metric_text(
        "cm3500_dhcp_lease_total_seconds"@,
        "Total DHCP lease duration in seconds"@,
        dhcp.lease_total_secs,
    ) + opt_metric_text(
        "cm3500_dhcp_lease_remaining_seconds"@,
        "DHCP lease time remaining in seconds"@,
        dhcp.lease_remaining_secs,
    ) + opt_metric_text(
        "cm3500_dhcp_rebind_remaining_seconds"@,
        "DHCP rebind time remaining in seconds"@,
        dhcp.rebind_remaining_secs,
    ) + opt_metric_text(
        "cm3500_dhcp_renew_remaining_seconds"@,
        "DHCP renew time remaining in seconds"@,
        dhcp.renew_remaining_secs,
    )
}

/// The renew timer is rendered as its own gauge, carrying the renew time
/// remaining: with it the DHCP section is the section without it followed
/// by one `cm3500_dhcp_renew_remaining_seconds` family of that value, and
/// without it nothing is added.
pub proof fn lemma_dhcp_renew_sample(d: DhcpInfo, d0: DhcpInfo, dhcp_state: Seq<char>)
    requires
        d.lease_total_secs == d0.lease_total_secs,
        d.lease_remaining_secs == d0.lease_remaining_secs,
        d.rebind_remaining_secs == d0.rebind_remaining_secs,
        d0.renew_remaining_secs is None,
    ensures
        d.renew_remaining_secs matches Some(x) ==> dhcp_text(d, dhcp_state) == dhcp_text(d0, dhcp_state)
            + metric_text(
            "cm3500_dhcp_renew_remaining_seconds"@,
            "DHCP renew time remaining in seconds"@,
            "gauge"@,
            decimal(x as nat),
        ),
        d.renew_remaining_secs is None ==> dhcp_text(d, dhcp_state) == dhcp_text(d0, dhcp_state),
{
    assert(dhcp_text(d, dhcp_state) =~= dhcp_text(d0, dhcp_state) + opt_metric_text(
        "cm3500_dhcp_renew_remaining_seconds"@,
        "DHCP renew time remaining in seconds"@,
        d.renew_remaining_secs,
    ));
}

/// The rebind timer is rendered as its own gauge, carrying the rebind time
/// remaining, after the lease timers (shown here with no renew timer).
pub proof fn lemma_dhcp_rebind_sample(d: DhcpInfo, d0: DhcpInfo, dhcp_state: Seq<char>)
    requires
        d.lease_total_secs == d0.lease_total_secs,
        d.lease_remaining_secs == d0.lease_remaining_secs,
        d0.rebind_remaining_secs is None,
        d.renew_remaining_secs is None,
        d0.renew_remaining_secs is None,
    ensures
        d.rebind_remaining_secs matches Some(x) ==> dhcp_text(d, dhcp_state) == dhcp_text(d0, dhcp_state)
            + metric_text(
            "cm3500_dhcp_rebind_remaining_seconds"@,
            "DHCP rebind time remaining in seconds"@,
            "gauge"@,
            decimal(x as nat),
        ),
        d.rebind_remaining_secs is None ==> dhcp_text(d, dhcp_state) == dhcp_text(d0, dhcp_state),
{
    assert(dhcp_text(d, dhcp_state) =~= dhcp_text(d0, dhcp_state) + opt_metric_text(
        "cm3500_dhcp_rebind_remaining_seconds"@,
        "DHCP rebind time remaining in seconds"@,
        d.rebind_remaining_secs,
    ));
}

/// The lease time remaining is rendered as its own gauge, after the lease
/// duration (shown here with no later timer).
pub proof fn lemma_dhcp_lease_remaining_sample(d: DhcpInfo, d0: DhcpInfo, dhcp_state: Seq<char>)
    requires
        d.lease_total_secs == d0.lease_total_secs,
        d0.lease_remaining_secs is None,
        d.rebind_remaining_secs is None,
        d0.rebind_remaining_secs is None,
        d.renew_remaining_secs is None,
        d0.renew_remaining_secs is None,
    ensures
        d.lease_remaining_secs matches Some(x) ==> dhcp_text(d, dhcp_state) == dhcp_text(d0, dhcp_state)
            + metric_text(
            "cm3500_dhcp_lease_remaining_seconds"@,
            "DHCP lease time remaining in seconds"@,
            "gauge"@,
            decimal(x as nat),
        ),
        d.lease_remaining_secs is None ==> dhcp_text(d, dhcp_state) == dhcp_text(d0, dhcp_state),
{
    assert(dhcp_text(d, dhcp_state) =~= dhcp_text(d0, dhcp_state) + opt_metric_text(
        "cm3500_dhcp_lease_remaining_seconds"@,
        "DHCP lease time remaining in seconds"@,
        d.lease_remaining_secs,
    ));
}

/// The lease duration is rendered as its own gauge, after the DHCP state
/// (shown here with no other timer).
pub proof fn lemma_dhcp_lease_total_sample(d: DhcpInfo, d0: DhcpInfo, dhcp_state: Seq<char>)
    requires
        d0.lease_total_secs is None,
        d.lease_remaining_secs is None,
        d0.lease_remaining_secs is None,
        d.rebind_remaining_secs is None,
        d0.rebind_remaining_secs is None,
        d.renew_remaining_secs is None,
        d0.renew_remaining_secs is None,
    ensures
        d.lease_total_secs matches Some(x) ==> dhcp_text(d, dhcp_state) == dhcp_text(d0, dhcp_state)
            + metric_text(
            "cm3500_dhcp_lease_total_seconds"@,
            "Total DHCP lease duration in seconds"@,
            "gauge"@,
            decimal(x as nat),
        ),
        d.lease_total_secs is None ==> dhcp_text(d, dhcp_state) == dhcp_text(d0, dhcp_state),
{
    assert(dhcp_text(d, dhcp_state) =~= dhcp_text(d0, dhcp_state) + opt_metric_text(
        "cm3500_dhcp_lease_total_seconds"@,
        "Total DHCP lease duration in seconds"@,
        d.lease_total_secs,
    ));
}

/// With no timer known, the DHCP section is the state alone: one
/// `cm3500_dhcp_state` gauge of `1` labelled with the state, or nothing
/// when the state is unknown.
pub proof fn lemma_dhcp_state_sample(d: DhcpInfo, dhcp_state: Seq<char>)
    requires
        d.lease_total_secs is None,
        d.lease_remaining_secs is None,
        d.rebind_remaining_secs is None,
        d.renew_remaining_secs is None,
    ensures
        dhcp_state.len() == 0 ==> dhcp_text(d, dhcp_state) == Seq::<char>::empty(),
        dhcp_state.len() > 0 ==> dhcp_text(d, dhcp_state) == labeled_metric_text(
            "cm3500_dhcp_state"@,
            "DHCP state of the cable modem"@,
            "gauge"@,
            seq![("state"@, dhcp_state)],
            "1"@,
        ),
{
    assert(dhcp_text(d, dhcp_state) =~= state_metric_text(
        "cm3500_dhcp_state"@,
        "DHCP state of the cable modem"@,
        "state"@,
        dhcp_state,
    ));
}

/// Writes the DHCP section.
#[verifier::rlimit(30)]
pub fn render_dhcp(out: &mut String, dhcp: &DhcpInfo, dhcp_state: &str)
    ensures
        final(out)@ == old(out)@ + dhcp_text(*dhcp, dhcp_state@),
{
    state_metric(out, "cm3500_dhcp_state", "DHCP state of the cable modem", "state", dhcp_state);
    opt_metric(
        out,
        "cm3500_dhcp_lease_total_seconds",
        "Total DHCP lease duration in seconds",
        dhcp.lease_total_secs,
    );
    opt_metric(
        out,
        "cm3500_dhcp_lease_remaining_seconds",
        "DHCP lease time remaining in seconds",
        dhcp.lease_remaining_secs,
    );
    opt_metric(
        out,
        "cm3500_dhcp_rebind_remaining_seconds",
        "DHCP rebind time remaining in seconds",
        dhcp.rebind_remaining_secs,
    );
    opt_metric(
        out,
        "cm3500_dhcp_renew_remaining_seconds",
        "DHCP renew time remaining in seconds",
        dhcp.renew_remaining_secs,
    );
    assert(final(out)@ =~= old(out)@ + dhcp_text(*dhcp, dhcp_state@));
}

/// The packet counter sample of one QoS flow.
pub open spec fn qos_sample(f: QosFlow) -> Seq<char> {
    sample_text(
        "cm3500_qos_packets_total"@,
        seq![
            ("sfid"@, decimal(f.sfid as nat)),
            ("direction"@, f.direction@),
            ("primary"@, if f.primary {
                "true"@
            } else {
                "false"@
            }),
            ("service_class"@, f.service_class@),
        ],
        decimal(f.packets as nat),
    )
}

/// The QoS section: nothing without flows, else the packet counter family.
pub open spec fn qos_text(flows: Seq<QosFlow>) -> Seq<char> {
    if flows.len() == 0 {
        Seq::empty()
    } else {
        header_text(
            "cm3500_qos_packets_total"@,
            "Total packets on QoS service flow"@,
            "counter"@,
        ) + joined(flows, |f: QosFlow| qos_sample(f))
    }
}

/// Writes the QoS packet counters.
#[verifier::rlimit(30)]
pub fn render_qos(out: &mut String, flows: &[QosFlow])
    ensures
        final(out)@ == old(out)@ + qos_text(flows@),
{
    if flows.len() == 0 {
        assert(old(out)@ + Seq::<char>::empty() =~= old(out)@);
        return;
    }
    header(out, "cm3500_qos_packets_total", "Total packets on QoS service flow", "counter");
    let ghost start = out@;
    let mut i: usize = 0;
    while i < flows.len()
        invariant
            0 <= i <= flows@.len(),
            out@ == start + joined(flows@.take(i as int), |f: QosFlow| qos_sample(f)),
        decreases flows.len() - i,
    {
        let f = &flows[i];
        let sfid = decimal_string(f.sfid as u128);
        let labels = [
            ("sfid", sfid.as_str()),
            ("direction", f.direction.as_str()),
            (
                "primary",
                if f.primary {
                    "true"
                } else {
                    "false"
                },
            ),
            ("service_class", f.service_class.as_str()),
        ];
        assert(label_views(labels@) =~= seq![
            ("sfid"@, decimal(f.sfid as nat)),
            ("direction"@, f.direction@),
            ("primary"@, if f.primary {
                "true"@
            } else {
                "false"@
            }),
            ("service_class"@, f.service_class@),
        ]);
        counter(out, "cm3500_qos_packets_total", &labels, f.packets);
        proof {
            lemma_joined_step(flows@, i as int, |f: QosFlow| qos_sample(f));
        }
        assert(out@ =~= start + joined(flows@.take(i + 1), |f: QosFlow| qos_sample(f)));
        i += 1;
    }
    assert(flows@.take(flows@.len() as int) =~= flows@);
}

/// The sample of one DOCSIS registration phase.
pub open spec fn phase_sample(p: DocsisPhase) -> Seq<char> {
    sample_text(
        "cm3500_docsis_phase"@,
        seq![("phase"@, token(p.phase@)), ("status"@, p.status@)],
        "1"@,
    )
}

/// The DOCSIS state section: the overall state, the phases, the BPI state
/// and the time-of-day state, each when known.
pub open spec fn cm_state_text(state: CmState) -> Seq<char> {
    state_metric_text(
        "cm3500_docsis_state"@,
        "Overall DOCSIS registration state"@,
        "state"@,
        state.overall_state@,
    ) + (if state.phases@.len() == 0 {
        Seq::empty()
    } else {
        header_text(
            "cm3500_docsis_phase"@,
            "DOCSIS registration phase status (1 = current status for this phase)"@,
            "gauge"@,
        ) + joined(state.phases@, |p: DocsisPhase| phase_sample(p))
    }) + state_metric_text(
        "cm3500_bpi_state"@,
        "Baseline Privacy Interface state"@,
        "status"@,
        state.bpi_status@,
    ) + state_metric_text(
        "cm3500_tod_state"@,
        "Time of Day acquisition state"@,
        "status"@,
        state.tod_status@,
    )
}

/// Writes the DOCSIS state section.
#[verifier::rlimit(30)]
pub fn render_cm_state(out: &mut String, state: &CmState)
    ensures
        final(out)@ == old(out)@ + cm_state_text(*state),
{
    state_metric(
        out,
        "cm3500_docsis_state",
        "Overall DOCSIS registration state",
        "state",
        state.overall_state.as_str(),
    );
    if state.phases.len() > 0 {
        header(
            out,
            "cm3500_docsis_phase",
            "DOCSIS registration phase status (1 = current status for this phase)",
            "gauge",
        );
        let ghost start = out@;
        let mut i: usize = 0;
        while i < state.phases.len()
            invariant
                0 <= i <= state.phases@.len(),
                out@ == start + joined(state.phases@.take(i as int), |p: DocsisPhase| phase_sample(p)),
            decreases state.phases.len() - i,
        {
            let p = &state.phases[i];
            let phase = normalize_token(p.phase.as_str());
            let labels = [("phase", phase.as_str()), ("status", p.status.as_str())];
            assert(label_views(labels@) =~= seq![("phase"@, token(p.phase@)), ("status"@, p.status@)]);
            sample(out, "cm3500_docsis_phase", &labels, "1");
            proof {
                lemma_joined_step(state.phases@, i as int, |p: DocsisPhase| phase_sample(p));
            }
            assert(out@ =~= start + joined(state.phases@.take(i + 1), |p: DocsisPhase| phase_sample(p)));
            i += 1;
        }
        assert(state.phases@.take(state.phases@.len() as int) =~= state.phases@);
    }
    state_metric(
        out,
        "cm3500_bpi_state",
        "Baseline Privacy Interface state",
        "status",
        state.bpi_status.as_str(),
    );
    state_metric(
        out,
        "cm3500_tod_state",
        "Time of Day acquisition state",
        "status",
        state.tod_status.as_str(),
    );
    assert(final(out)@ =~= old(out)@ + cm_state_text(*state));
}

/// The status sample of one interface: `1` when its state is `Up`, else `0`.
pub open spec fn interface_sample(i: InterfaceInfo) -> Seq<char> {
    sample_text(
        "cm3500_interface_up"@,
        seq![
            ("name"@, i.name@),
            ("provisioned"@, i.provisioned@),
            ("mac_address"@, i.mac_address@),
        ],
        if i.state@ == "Up"@ {
            "1"@
        } else {
            "0"@
        },
    )
}

/// The interface section: nothing without interfaces, else the status family.
pub open spec fn interfaces_text(interfaces: Seq<InterfaceInfo>) -> Seq<char> {
    if interfaces.len() == 0 {
        Seq::empty()
    } else {
        header_text(
            "cm3500_interface_up"@,
            "Interface operational status (1 = Up)"@,
            "gauge"@,
        ) + joined(interfaces, |i: InterfaceInfo| interface_sample(i))
    }
}

/// Writes the interface status section.
pub fn render_interfaces(out: &mut String, interfaces: &[InterfaceInfo])
    ensures
        final(out)@ == old(out)@ + interfaces_text(interfaces@),
{
    if interfaces.len() == 0 {
        assert(old(out)@ + Seq::<char>::empty() =~= old(out)@);
        return;
    }
    header(out, "cm3500_interface_up", "Interface operational status (1 = Up)", "gauge");
    let ghost start = out@;
    let mut k: usize = 0;
    while k < interfaces.len()
        invariant
            0 <= k <= interfaces@.len(),
            out@ == start + joined(interfaces@.take(k as int), |i: InterfaceInfo| interface_sample(i)),
        decreases interfaces.len() - k,
    {
        let iface = &interfaces[k];
        let labels = [
            ("name", iface.name.as_str()),
            ("provisioned", iface.provisioned.as_str()),
            ("mac_address", iface.mac_address.as_str()),
        ];
        assert(label_views(labels@) =~= seq![
            ("name"@, iface.name@),
            ("provisioned"@, iface.provisioned@),
            ("mac_address"@, iface.mac_address@),
        ]);
        let up = if str_eq(iface.state.as_str(), "Up") {
            "1"
        } else {
            "0"
        };
        sample(out, "cm3500_interface_up", &labels, up);
        proof {
            lemma_joined_step(interfaces@, k as int, |i: InterfaceInfo| interface_sample(i));
        }
        assert(out@ =~= start + joined(interfaces@.take(k + 1), |i: InterfaceInfo| interface_sample(i)));
        k += 1;
    }
    assert(interfaces@.take(interfaces@.len() as int) =~= interfaces@);
}

/// The sample of one product logging group.
pub open spec fn logging_sample(g: (String, u32)) -> Seq<char> {
    sample_text(
        "cm3500_product_logging_components_enabled"@,
        seq![("group"@, g.0@)],
        decimal(g.1 as nat),
    )
}

/// The product section: the Ethernet PHY when known, then the enabled
/// logging components per group when there are any.
pub open spec fn product_text(product: ProductInfo) -> Seq<char> {
    state_metric_text(
        "cm3500_product_ethernet_phy_info"@,
        "Ethernet PHY type reported by the modem"@,
        "phy_type"@,
        product.ethernet_phy_type@,
    ) + (if product.logging_components_enabled@.len() == 0 {
        Seq::empty()
    } else {
        header_text(
            "cm3500_product_logging_components_enabled"@,
            "Number of enabled internal logging components by product debug group"@,
            "gauge"@,
        ) + joined(product.logging_components_enabled@, |g: (String, u32)| logging_sample(g))
    })
}

/// Writes the product section.
#[verifier::rlimit(30)]
pub fn render_product_info(out: &mut String, product: &ProductInfo)
    ensures
        final(out)@ == old(out)@ + product_text(*product),
{
    state_metric(
        out,
        "cm3500_product_ethernet_phy_info",
        "Ethernet PHY type reported by the modem",
        "phy_type",
        product.ethernet_phy_type.as_str(),
    );
    let groups = &product.logging_components_enabled;
    if groups.len() > 0 {
        header(
            out,
            "cm3500_product_logging_components_enabled",
            "Number of enabled internal logging components by product debug group",
            "gauge",
        );
        let ghost start = out@;
        let mut k: usize = 0;
        while k < groups.len()
            invariant
                groups == &product.logging_components_enabled,
                0 <= k <= groups@.len(),
                out@ == start + joined(groups@.take(k as int), |g: (String, u32)| logging_sample(g)),
            decreases groups.len() - k,
        {
            let g = &groups[k];
            let labels = [("group", g.0.as_str())];
            assert(label_views(labels@) =~= seq![("group"@, g.0@)]);
            gauge(out, "cm3500_product_logging_components_enabled", &labels, g.1 as u64);
            proof {
                lemma_joined_step(groups@, k as int, |g: (String, u32)| logging_sample(g));
            }
            assert(out@ =~= start + joined(groups@.take(k + 1), |g: (String, u32)| logging_sample(g)));
            k += 1;
        }
        assert(groups@.take(groups@.len() as int) =~= groups@);
    }
    assert(final(out)@ =~= old(out)@ + product_text(*product));
}

/// The labels of a configured service flow.
pub open spec fn flow_labels(f: ServiceFlowConfig) -> Seq<(Seq<char>, Seq<char>)> {
    seq![("direction"@, f.direction@), ("flow_index"@, decimal(f.index as nat))]
}

/// Which number of a configured service flow a family reports.
pub enum FlowField {
    MaxRate,
    MinRate,
    MaxBurst,
    Priority,
}

/// The number that a family reports for a flow.
pub open spec fn flow_value(f: ServiceFlowConfig, field: FlowField) -> u64 {
    match field {
        FlowField::MaxRate => f.max_traffic_rate_bps,
        FlowField::MinRate => f.min_reserved_rate_bps,
        FlowField::MaxBurst => f.max_traffic_burst,
        FlowField::Priority => f.traffic_priority as u64,
    }
}

/// One family of the service-flow configuration section: a header, then
/// one sample per flow with the family's number.
pub open spec fn flow_family_text(
    flows: Seq<ServiceFlowConfig>,
    name: Seq<char>,
    help: Seq<char>,
    field: FlowField,
) -> Seq<char> {
    header_text(name, help, "gauge"@) + joined(
        flows,
        |f: ServiceFlowConfig| sample_text(name, flow_labels(f), decimal(flow_value(f, field) as nat)),
    )
}

/// The service-flow configuration section: nothing without flows, else
/// the maximum rate, minimum reserved rate, maximum burst and priority
/// families.
pub open spec fn service_flows_text(flows: Seq<ServiceFlowConfig>) -> Seq<char> {
    if flows.len() == 0 {
        Seq::empty()
    } else {
        flow_family_text(
            flows,
            "cm3500_qos_max_traffic_rate_kbps"@,
            "Maximum traffic rate for the QoS service flow from config (bps)"@,
            FlowField::MaxRate,
        ) + flow_family_text(
            flows,
            "cm3500_qos_min_reserved_rate_kbps"@,
            "Minimum reserved rate for the QoS service flow from config (bps)"@,
            FlowField::MinRate,
        ) + flow_family_text(
            flows,
            "cm3500_qos_max_traffic_burst"@,
            "Maximum traffic burst for the QoS service flow from config"@,
            FlowField::MaxBurst,
        ) + flow_family_text(
            flows,
            "cm3500_qos_traffic_priority"@,
            "Traffic priority for the QoS service flow from config"@,
            FlowField::Priority,
        )
    }
}

fn flow_family(
    out: &mut String,
    flows: &[ServiceFlowConfig],
    name: &str,
    help: &str,
    field: FlowField,
)
    ensures
        final(out)@ == old(out)@ + flow_family_text(flows@, name@, help@, field),
{
    header(out, name, help, "gauge");
    let ghost start = out@;
    let ghost line = |f: ServiceFlowConfig|
        sample_text(name@, flow_labels(f), decimal(flow_value(f, field) as nat));
    let mut k: usize = 0;
    while k < flows.len()
        invariant
            0 <= k <= flows@.len(),
            line == (|f: ServiceFlowConfig|
                sample_text(name@, flow_labels(f), decimal(flow_value(f, field) as nat))),
            out@ == start + joined(flows@.take(k as int), line),
        decreases flows.len() - k,
    {
        let f = &flows[k];
        let idx = decimal_string(f.index as u128);
        let labels = [("direction", f.direction.as_str()), ("flow_index", idx.as_str())];
        assert(label_views(labels@) =~= flow_labels(*f));
        let v: u64 = match field {
            FlowField::MaxRate => f.max_traffic_rate_bps,
            FlowField::MinRate => f.min_reserved_rate_bps,
            FlowField::MaxBurst => f.max_traffic_burst,
            FlowField::Priority => f.traffic_priority as u64,
        };
        gauge(out, name, &labels, v);
        proof {
            lemma_joined_step(flows@, k as int, line);
        }
        assert(out@ =~= start + joined(flows@.take(k + 1), line));
        k += 1;
    }
    assert(flows@.take(flows@.len() as int) =~= flows@);
    assert(out@ =~= old(out)@ + flow_family_text(flows@, name@, help@, field));
}

/// Writes the service-flow configuration section.
#[verifier::rlimit(30)]
pub fn render_service_flow_configs(out: &mut String, flows: &[ServiceFlowConfig])
    ensures
        final(out)@ == old(out)@ + service_flows_text(flows@),
{
    if flows.len() == 0 {
        assert(old(out)@ + Seq::<char>::empty() =~= old(out)@);
        return;
    }
    flow_family(
        out,
        flows,
        "cm3500_qos_max_traffic_rate_kbps",
        "Maximum traffic rate for the QoS service flow from config (bps)",
        FlowField::MaxRate,
    );
    flow_family(
        out,
        flows,
        "cm3500_qos_min_reserved_rate_kbps",
        "Minimum reserved rate for the QoS service flow from config (bps)",
        FlowField::MinRate,
    );
    flow_family(
        out,
        flows,
        "cm3500_qos_max_traffic_burst",
        "Maximum traffic burst for the QoS service flow from config",
        FlowField::MaxBurst,
    );
    flow_family(
        out,
        flows,
        "cm3500_qos_traffic_priority",
        "Traffic priority for the QoS service flow from config",
        FlowField::Priority,
    );
    assert(final(out)@ =~= old(out)@ + service_flows_text(flows@));
}

// ---------------------------------------------------------------------------
// Event log
// ---------------------------------------------------------------------------

/// The entry-count sample of one event ID.
pub open spec fn count_sample(ids: Seq<Seq<char>>, id: Seq<char>) -> Seq<char> {
    sample_text(
        "cm3500_event_log_entries"@,
        seq![("event_id"@, id)],
        decimal(occurrences(ids, id)),
    )
}

/// The sample of one channel's last profile.
pub open spec fn profile_sample(name: Seq<char>, e: (Seq<char>, u32)) -> Seq<char> {
    sample_text(name, seq![("channel"@, e.0)], decimal(e.1 as nat))
}

/// A profile family: nothing without channels, else one sample per channel
/// in channel order.
pub open spec fn profile_family_text(
    name: Seq<char>,
    help: Seq<char>,
    table: Seq<(Seq<char>, u32)>,
) -> Seq<char> {
    if table.len() == 0 {
        Seq::empty()
    } else {
        header_text(name, help, "gauge"@) + joined(
            table,
            |e: (Seq<char>, u32)| profile_sample(name, e),
        )
    }
}

/// The count of one event ID as an unlabelled gauge family.
pub open spec fn id_count_text(name: Seq<char>, help: Seq<char>, ids: Seq<Seq<char>>, id: Seq<char>) -> Seq<
    char,
> {
    metric_text(name, help, "gauge"@, decimal(occurrences(ids, id)))
}

/// The event-log section: nothing without events; else the entry counts by
/// event ID (in order of first occurrence), the counts of T3 and T4
/// timeouts, DHCP failures, DHCP renew warnings, DHCP renew timeouts and
/// upstream profile changes, then the last upstream and OFDM/OFDMA profile
/// per channel.
pub open spec fn event_log_text(
    events: Seq<EventLogEntry>,
    us: Seq<(Seq<char>, u32)>,
    ofdma: Seq<(Seq<char>, u32)>,
) -> Seq<char> {
    let ids = event_ids(events);
    if events.len() == 0 {
        Seq::empty()
    } else {
        header_text(
            "cm3500_event_log_entries"@,
            "Number of entries in the modem event log by event ID"@,
            "gauge"@,
        ) + joined(distinct_ids(ids), |id: Seq<char>| count_sample(ids, id)) + id_count_text(
            "cm3500_event_t3_timeouts"@,
            "T3 timeouts (No Ranging Response) in event log"@,
            ids,
            "82000200"@,
        ) + id_count_text(
            "cm3500_event_t4_timeouts"@,
            "T4 timeouts in event log"@,
            ids,
            "82000300"@,
        ) + id_count_text(
            "cm3500_event_dhcp_failures"@,
            "DHCP failures in event log"@,
            ids,
            "68001202"@,
        ) + id_count_text(
            "cm3500_event_dhcp_renew_warnings"@,
            "DHCP renew warnings in event log"@,
            ids,
            "68010300"@,
        ) + id_count_text(
            "cm3500_event_dhcp_renew_no_response"@,
            "DHCP renew sent with no response events in event log"@,
            ids,
            "68010100"@,
        ) + id_count_text(
            "cm3500_event_profile_changes"@,
            "Upstream profile assignment changes in event log"@,
            ids,
            "67061601"@,
        ) + profile_family_text(
            "cm3500_event_upstream_active_profile"@,
            "Last seen upstream profile ID from modem event log"@,
            us,
        ) + profile_family_text(
            "cm3500_event_ofdma_profile_id"@,
            "Last seen OFDM/OFDMA profile ID from modem event log"@,
            ofdma,
        )
    }
}

fn id_count(out: &mut String, events: &[EventLogEntry], name: &str, help: &str, id: &str)
    ensures
        final(out)@ == old(out)@ + id_count_text(name@, help@, event_ids(events@), id@),
{
    let n = count_id(events, id);
    let v = decimal_string(n as u128);
    metric(out, name, help, "gauge", v.as_str());
}

fn profile_family(out: &mut String, name: &str, help: &str, table: &Vec<(String, u32)>)
    ensures
        final(out)@ == old(out)@ + profile_family_text(name@, help@, table_view(table@)),
{
    let ghost tv = table_view(table@);
    if table.len() == 0 {
        assert(old(out)@ + Seq::<char>::empty() =~= old(out)@);
        return;
    }
    header(out, name, help, "gauge");
    let ghost start = out@;
    let ghost line = |e: (Seq<char>, u32)| profile_sample(name@, e);
    let mut k: usize = 0;
    while k < table.len()
        invariant
            0 <= k <= table@.len(),
            tv == table_view(table@),
            line == (|e: (Seq<char>, u32)| profile_sample(name@, e)),
            out@ == start + joined(tv.take(k as int), line),
        decreases table.len() - k,
    {
        let labels = [("channel", table[k].0.as_str())];
        assert(label_views(labels@) =~= seq![("channel"@, tv[k as int].0)]);
        gauge(out, name, &labels, table[k].1 as u64);
        proof {
            lemma_joined_step(tv, k as int, line);
        }
        assert(out@ =~= start + joined(tv.take(k + 1), line));
        k += 1;
    }
    assert(tv.take(tv.len() as int) =~= tv);
    assert(out@ =~= old(out)@ + profile_family_text(name@, help@, tv));
}

/// Writes the event-log section.
#[verifier::rlimit(40)]
pub fn render_event_log(out: &mut String, events: &[EventLogEntry])
    ensures
        exists|us: Seq<(Seq<char>, u32)>, ofdma: Seq<(Seq<char>, u32)>|
            {
                &&& sorted_table(us)
                &&& table_of(us, profile_map(events@, ProfileKind::Upstream))
                &&& sorted_table(ofdma)
                &&& table_of(ofdma, profile_map(events@, ProfileKind::Ofdma))
                &&& final(out)@ == old(out)@ + event_log_text(events@, us, ofdma)
            },
{
    let us = latest_profiles(events, ProfileKind::Upstream);
    let ofdma = latest_profiles(events, ProfileKind::Ofdma);
    if events.len() == 0 {
        assert(old(out)@ + Seq::<char>::empty() =~= old(out)@);
        assert(old(out)@ == old(out)@ + event_log_text(events@, table_view(us@), table_view(ofdma@)));
        return;
    }
    let ghost ids = event_ids(events@);
    let ghost line = |id: Seq<char>| count_sample(ids, id);
    header(
        out,
        "cm3500_event_log_entries",
        "Number of entries in the modem event log by event ID",
        "gauge",
    );
    let counts = count_event_ids(events);
    let ghost d = distinct_ids(ids);
    let ghost start = out@;
    let mut k: usize = 0;
    while k < counts.len()
        invariant
            0 <= k <= counts@.len(),
            counts@.len() == d.len(),
            d == distinct_ids(ids),
            ids == event_ids(events@),
            line == (|id: Seq<char>| count_sample(ids, id)),
            forall|j: int|
                0 <= j < counts@.len() ==> #[trigger] counts@[j].0@ == d[j] && counts@[j].1
                    == occurrences(ids, d[j]),
            out@ == start + joined(d.take(k as int), line),
        decreases counts.len() - k,
    {
        let labels = [("event_id", counts[k].0.as_str())];
        assert(counts@[k as int].0@ == d[k as int]);
        assert(label_views(labels@) =~= seq![("event_id"@, d[k as int])]);
        gauge(out, "cm3500_event_log_entries", &labels, counts[k].1 as u64);
        proof {
            lemma_joined_step(d, k as int, line);
        }
        assert(out@ =~= start + joined(d.take(k + 1), line));
        k += 1;
    }
    assert(d.take(d.len() as int) =~= d);
    let ghost counted = out@;
    id_count(
        out,
        events,
        "cm3500_event_t3_timeouts",
        "T3 timeouts (No Ranging Response) in event log",
        "82000200",
    );
    id_count(out, events, "cm3500_event_t4_timeouts", "T4 timeouts in event log", "82000300");
    id_count(out, events, "cm3500_event_dhcp_failures", "DHCP failures in event log", "68001202");
    id_count(
        out,
        events,
        "cm3500_event_dhcp_renew_warnings",
        "DHCP renew warnings in event log",
        "68010300",
    );
    id_count(
        out,
        events,
        "cm3500_event_dhcp_renew_no_response",
        "DHCP renew sent with no response events in event log",
        "68010100",
    );
    id_count(
        out,
        events,
        "cm3500_event_profile_changes",
        "Upstream profile assignment changes in event log",
        "67061601",
    );
    let ghost tallied = out@;
    profile_family(
        out,
        "cm3500_event_upstream_active_profile",
        "Last seen upstream profile ID from modem event log",
        &us,
    );
    profile_family(
        out,
        "cm3500_event_ofdma_profile_id",
        "Last seen OFDM/OFDMA profile ID from modem event log",
        &ofdma,
    );
    let ghost ids_text = joined(d, line);
    assert(counted == old(out)@ + header_text(
        "cm3500_event_log_entries"@,
        "Number of entries in the modem event log by event ID"@,
        "gauge"@,
    ) + ids_text);
    assert(out@ == tallied + profile_family_text(
        "cm3500_event_upstream_active_profile"@,
        "Last seen upstream profile ID from modem event log"@,
        table_view(us@),
    ) + profile_family_text(
        "cm3500_event_ofdma_profile_id"@,
        "Last seen OFDM/OFDMA profile ID from modem event log"@,
        table_view(ofdma@),
    ));
    assert(final(out)@ =~= old(out)@ + event_log_text(events@, table_view(us@), table_view(ofdma@)));
}

// ---------------------------------------------------------------------------
// Whole scrapes
// ---------------------------------------------------------------------------

/// The info labels of the modem.
pub open spec fn info_labels(v: VersionInfo) -> Seq<(Seq<char>, Seq<char>)> {
    seq![
        ("model"@, v.model@),
        ("serial"@, v.serial@),
        ("firmware"@, v.software_rev@),
        ("firmware_name"@, v.firmware_name@),
        ("bootloader"@, v.bootloader@),
        ("hardware_rev"@, v.hardware_rev@),
        ("vendor"@, v.vendor@),
    ]
}

/// The identity section: the info family, the uptime when known, and the
/// CM status when known.
pub open spec fn identity_text(data: ScrapedData) -> Seq<char> {
    labeled_metric_text(
        "cm3500_info"@,
        "Modem hardware and firmware information"@,
        "gauge"@,
        info_labels(data.version_info),
        "1"@,
    ) + opt_metric_text(
        "cm3500_uptime_seconds"@,
        "System uptime in seconds"@,
        data.uptime_seconds,
    ) + state_metric_text(
        "cm3500_cm_status"@,
        "Cable modem operational status"@,
        "status"@,
        data.cm_status@,
    )
}

/// Writes the identity section.
#[verifier::rlimit(30)]
pub fn render_identity(out: &mut String, data: &ScrapedData)
    ensures
        final(out)@ == old(out)@ + identity_text(*data),
{
    let v = &data.version_info;
    let labels = [
        ("model", v.model.as_str()),
        ("serial", v.serial.as_str()),
        ("firmware", v.software_rev.as_str()),
        ("firmware_name", v.firmware_name.as_str()),
        ("bootloader", v.bootloader.as_str()),
        ("hardware_rev", v.hardware_rev.as_str()),
        ("vendor", v.vendor.as_str()),
    ];
    assert(label_views(labels@) =~= info_labels(*v));
    labeled_metric(
        out,
        "cm3500_info",
        "Modem hardware and firmware information",
        "gauge",
        &labels,
        "1",
    );
    opt_metric(out, "cm3500_uptime_seconds", "System uptime in seconds", data.uptime_seconds);
    state_metric(
        out,
        "cm3500_cm_status",
        "Cable modem operational status",
        "status",
        data.cm_status.as_str(),
    );
    assert(final(out)@ =~= old(out)@ + identity_text(*data));
}

/// Writes the DHCP, QoS, DOCSIS state, event-log, interface and product
/// sections, in that order.
#[verifier::rlimit(40)]
pub fn render_readings(out: &mut String, data: &ScrapedData)
    ensures
        exists|us: Seq<(Seq<char>, u32)>, ofdma: Seq<(Seq<char>, u32)>|
            {
                &&& sorted_table(us)
                &&& table_of(us, profile_map(data.events@, ProfileKind::Upstream))
                &&& sorted_table(ofdma)
                &&& table_of(ofdma, profile_map(data.events@, ProfileKind::Ofdma))
                &&& final(out)@ == old(out)@ + dhcp_text(data.dhcp_info, data.dhcp_state@)
                    + qos_text(data.qos_flows@) + cm_state_text(data.cm_state) + event_log_text(
                    data.events@,
                    us,
                    ofdma,
                ) + interfaces_text(data.interfaces@) + product_text(data.product_info)
            },
{
    render_dhcp(out, &data.dhcp_info, data.dhcp_state.as_str());
    render_qos(out, data.qos_flows.as_slice());
    render_cm_state(out, &data.cm_state);
    let ghost before_events = out@;
    render_event_log(out, data.events.as_slice());
    let ghost after_events = out@;
    let ghost (us, ofdma) = choose|us: Seq<(Seq<char>, u32)>, ofdma: Seq<(Seq<char>, u32)>|
        {
            &&& sorted_table(us)
            &&& table_of(us, profile_map(data.events@, ProfileKind::Upstream))
            &&& sorted_table(ofdma)
            &&& table_of(ofdma, profile_map(data.events@, ProfileKind::Ofdma))
            &&& after_events == before_events + event_log_text(data.events@, us, ofdma)
        };
    render_interfaces(out, data.interfaces.as_slice());
    render_product_info(out, &data.product_info);
    assert(final(out)@ =~= old(out)@ + dhcp_text(data.dhcp_info, data.dhcp_state@) + qos_text(
        data.qos_flows@,
    ) + cm_state_text(data.cm_state) + event_log_text(data.events@, us, ofdma) + interfaces_text(
        data.interfaces@,
    ) + product_text(data.product_info));
}

/// The configuration sections: the CPE counts, then the service-flow
/// configuration.
pub open spec fn configuration_text(data: ScrapedData) -> Seq<char> {
    metric_text(
        "cm3500_cpe_static"@,
        "Number of static CPE devices detected"@,
        "gauge"@,
        decimal(data.cpe_static as nat),
    ) + metric_text(
        "cm3500_cpe_dynamic"@,
        "Number of dynamic CPE devices detected"@,
        "gauge"@,
        decimal(data.cpe_dynamic as nat),
    ) + service_flows_text(data.service_flow_configs@)
}

/// Writes the CPE counts and the service-flow configuration.
pub fn render_configuration(out: &mut String, data: &ScrapedData)
    ensures
        final(out)@ == old(out)@ + configuration_text(*data),
{
    render_cpe(out, data.cpe_static, data.cpe_dynamic);
    render_service_flow_configs(out, data.service_flow_configs.as_slice());
}

/// The metrics page of a successful scrape: the up gauge at 1, the scrape
/// duration as the caller wrote it, the identity section, the channel
/// sections, the DHCP, QoS, DOCSIS state, event-log, interface and product
/// sections, the spectrum section, then the configuration sections.
pub open spec fn metrics_page_text(
    data: ScrapedData,
    duration: Seq<char>,
    channels: ChannelReadings,
    spectrum: Seq<SpectrumReading>,
    us: Seq<(Seq<char>, u32)>,
    ofdma: Seq<(Seq<char>, u32)>,
) -> Seq<char> {
    metric_text("cm3500_up"@, "Whether the modem scrape was successful"@, "gauge"@, "1"@)
        + metric_text(
        "cm3500_scrape_duration_seconds"@,
        "Duration of the last scrape in seconds"@,
        "gauge"@,
        duration,
    ) + identity_text(data) + channels_text(channels) + dhcp_text(data.dhcp_info, data.dhcp_state@)
        + qos_text(data.qos_flows@) + cm_state_text(data.cm_state) + event_log_text(
        data.events@,
        us,
        ofdma,
    ) + interfaces_text(data.interfaces@) + product_text(data.product_info) + spectrum_text(
        spectrum,
    ) + configuration_text(data)
}

/// Renders the metrics page of a successful scrape; `duration` is the
/// scrape duration in seconds, already written as text. The profile tables
/// are those of the event log.
#[verifier::rlimit(40)]
pub fn render_metrics(
    data: &ScrapedData,
    duration: &str,
    channels: &ChannelReadings,
    spectrum: &[SpectrumReading],
) -> (r: String)
    ensures
        exists|us: Seq<(Seq<char>, u32)>, ofdma: Seq<(Seq<char>, u32)>|
            {
                &&& sorted_table(us)
                &&& table_of(us, profile_map(data.events@, ProfileKind::Upstream))
                &&& sorted_table(ofdma)
                &&& table_of(ofdma, profile_map(data.events@, ProfileKind::Ofdma))
                &&& r@ == metrics_page_text(*data, duration@, *channels, spectrum@, us, ofdma)
            },
{
    let mut out = String::new();
    metric(&mut out, "cm3500_up", "Whether the modem scrape was successful", "gauge", "1");
    metric(
        &mut out,
        "cm3500_scrape_duration_seconds",
        "Duration of the last scrape in seconds",
        "gauge",
        duration,
    );
    render_identity(&mut out, data);
    render_channels(&mut out, channels);
    let ghost before = out@;
    render_readings(&mut out, data);
    let ghost after = out@;
    let ghost (us, ofdma) = choose|us: Seq<(Seq<char>, u32)>, ofdma: Seq<(Seq<char>, u32)>|
        {
            &&& sorted_table(us)
            &&& table_of(us, profile_map(data.events@, ProfileKind::Upstream))
            &&& sorted_table(ofdma)
            &&& table_of(ofdma, profile_map(data.events@, ProfileKind::Ofdma))
            &&& after == before + dhcp_text(data.dhcp_info, data.dhcp_state@) + qos_text(
                data.qos_flows@,
            ) + cm_state_text(data.cm_state) + event_log_text(data.events@, us, ofdma)
                + interfaces_text(data.interfaces@) + product_text(data.product_info)
        };
    render_spectrum(&mut out, spectrum);
    render_configuration(&mut out, data);
    assert(out@ =~= metrics_page_text(*data, duration@, *channels, spectrum@, us, ofdma));
    out
}

/// The page served when a scrape failed: the up gauge at 0, the scrape
/// duration as the caller wrote it, and the error message as a label.
pub open spec fn error_metrics_text(err: Seq<char>, duration: Seq<char>) -> Seq<char> {
    metric_text(
        "cm3500_up"@,
        "Whether the modem scrape was successful"@,
        "gauge"@,
        "0"@,
    ) + metric_text(
        "cm3500_scrape_duration_seconds"@,
        "Duration of the last scrape in seconds"@,
        "gauge"@,
        duration,
    ) + labeled_metric_text(
        "cm3500_scrape_error"@,
        "Last scrape error message"@,
        "gauge"@,
        seq![("error"@, err)],
        "1"@,
    )
}

/// Renders the metrics page for a failed scrape; `duration` is the scrape
/// duration in seconds, already written as text.
pub fn render_error_metrics(err: &str, duration: &str) -> (r: String)
    ensures
        r@ == error_metrics_text(err@, duration@),
{
    let mut out = String::new();
    metric(&mut out, "cm3500_up", "Whether the modem scrape was successful", "gauge", "0");
    metric(
        &mut out,
        "cm3500_scrape_duration_seconds",
        "Duration of the last scrape in seconds",
        "gauge",
        duration,
    );
    let labels = [("error", err)];
    assert(label_views(labels@) =~= seq![("error"@, err@)]);
    labeled_metric(
        &mut out,
        "cm3500_scrape_error",
        "Last scrape error message",
        "gauge",
        &labels,
        "1",
    );
    assert(out@ =~= error_metrics_text(err@, duration@));
    out
}

} // verus!
