//! The decisions behind the OTLP push: endpoint normalisation, resource
//! attributes, the start time of counters, and which modem events become
//! log records with which attributes.
use vstd::prelude::*;

use crate::events::{
    extract_suffix_value, event_kind, kind_of, severity_for_level, severity_of, suffix_value,
};
use crate::num::{decimal, decimal_string, parse_bounded, parse_digits_bounded, push_decimal};
use crate::parser::{EventLogEntry, InterfaceInfo, ScrapedData};
use crate::text::{
    chars_of, ends_with, ends_with_chars, owned, push_str, str_eq, string_from,
};

verus! {

// ---------------------------------------------------------------------------
// Endpoints
// ---------------------------------------------------------------------------

/// The two OTLP signals.
#[derive(Debug, Clone, Copy, PartialEq, Eq, Structural)]
pub enum SignalKind {
    Metrics,
    Logs,
}

/// `s` without trailing `/` characters.
pub open spec fn trim_slashes(s: Seq<char>) -> Seq<char>
    decreases s.len(),
{
    if s.len() > 0 && s.last() == '/' {
        trim_slashes(s.drop_last())
    } else {
        s
    }
}

/// The path suffix of a signal.
pub open spec fn signal_suffix(kind: SignalKind) -> Seq<char> {
    match kind {
        SignalKind::Metrics => "/v1/metrics"@,
        SignalKind::Logs => "/v1/logs"@,
    }
}

/// The endpoint of a signal: an endpoint that already names a signal
/// (`.../v1/metrics` or `.../v1/logs`, trailing slashes ignored) is switched
/// to the wanted signal; any other is taken as a base URL and gets the
/// signal's path appended.
pub open spec fn endpoint_for(endpoint: Seq<char>, kind: SignalKind) -> Seq<char> {
    let t = trim_slashes(endpoint);
    if ends_with(t, "/v1/metrics"@) {
        t.subrange(0, t.len() - 11) + signal_suffix(kind)
    } else if ends_with(t, "/v1/logs"@) {
        t.subrange(0, t.len() - 8) + signal_suffix(kind)
    } else {
        t + signal_suffix(kind)
    }
}

fn trimmed_len(v: &[char]) -> (n: usize)
    ensures
        n <= v@.len(),
        v@.subrange(0, n as int) == trim_slashes(v@),
{
    let mut n = v.len();
    assert(v@.subrange(0, n as int) =~= v@);
    while n > 0 && v[n - 1] == '/'
        invariant
            n <= v@.len(),
            trim_slashes(v@) == trim_slashes(v@.subrange(0, n as int)),
        decreases n,
    {
        assert(v@.subrange(0, n as int).drop_last() =~= v@.subrange(0, n - 1));
        n -= 1;
    }
    assert(v@.subrange(0, n as int).len() == 0 || v@.subrange(0, n as int).last() != '/');
    n
}

/// The endpoint to which a signal is sent for a configured OTLP endpoint.
pub fn normalize_otlp_endpoint(endpoint: &str, kind: SignalKind) -> (r: String)
    ensures
        r@ == endpoint_for(endpoint@, kind),
{
    proof {
        reveal_strlit("/v1/metrics");
        reveal_strlit("/v1/logs");
    }
    let v = chars_of(endpoint);
    let n = trimmed_len(&v);
    let ghost t = v@.subrange(0, n as int);
    let metrics = chars_of("/v1/metrics");
    let logs = chars_of("/v1/logs");
    let keep = if ends_with_chars(&v, n, &metrics) {
        n - 11
    } else if ends_with_chars(&v, n, &logs) {
        n - 8
    } else {
        n
    };
    let mut r = string_from(&v, 0, keep);
    match kind {
        SignalKind::Metrics => push_str(&mut r, "/v1/metrics"),
        SignalKind::Logs => push_str(&mut r, "/v1/logs"),
    }
    assert(t.subrange(0, keep as int) =~= v@.subrange(0, keep as int));
    r
}

/// The metrics and logs endpoints of one configured endpoint share their
/// base and differ only in the signal's path.
pub proof fn lemma_endpoints_share_base(endpoint: Seq<char>)
    ensures
        exists|base: Seq<char>|
            endpoint_for(endpoint, SignalKind::Metrics) == base + "/v1/metrics"@ && endpoint_for(
                endpoint,
                SignalKind::Logs,
            ) == base + "/v1/logs"@,
{
    let t = trim_slashes(endpoint);
    let base = if ends_with(t, "/v1/metrics"@) {
        t.subrange(0, t.len() - 11)
    } else if ends_with(t, "/v1/logs"@) {
        t.subrange(0, t.len() - 8)
    } else {
        t
    };
    assert(endpoint_for(endpoint, SignalKind::Metrics) == base + "/v1/metrics"@);
}

proof fn lemma_trim_slashes_ends(s: Seq<char>)
    ensures
        trim_slashes(s).len() == 0 || trim_slashes(s).last() != '/',
        trim_slashes(s).len() <= s.len(),
    decreases s.len(),
{
    if s.len() > 0 && s.last() == '/' {
        lemma_trim_slashes_ends(s.drop_last());
    }
}

/// Normalising an endpoint that is already normalised changes nothing.
pub proof fn lemma_endpoint_idempotent(endpoint: Seq<char>, kind: SignalKind)
    ensures
        endpoint_for(endpoint_for(endpoint, kind), kind) == endpoint_for(endpoint, kind),
{
    reveal_strlit("/v1/metrics");
    reveal_strlit("/v1/logs");
    let e = endpoint_for(endpoint, kind);
    let sfx = signal_suffix(kind);
    assert(e.len() > 0 && e.last() == sfx.last());
    assert(e.last() != '/');
    assert(trim_slashes(e) == e);
    let t = trim_slashes(endpoint);
    let base = if ends_with(t, "/v1/metrics"@) {
        t.subrange(0, t.len() - 11)
    } else if ends_with(t, "/v1/logs"@) {
        t.subrange(0, t.len() - 8)
    } else {
        t
    };
    assert(e == base + sfx);
    match kind {
        SignalKind::Metrics => {
            assert(e.subrange(e.len() - 11, e.len() as int) =~= "/v1/metrics"@);
            assert(e.subrange(0, e.len() - 11) =~= base);
        },
        SignalKind::Logs => {
            assert(e.subrange(e.len() - 8, e.len() as int) =~= "/v1/logs"@);
            assert(!ends_with(e, "/v1/metrics"@)) by {
                if ends_with(e, "/v1/metrics"@) {
                    assert(e.subrange(e.len() - 11, e.len() as int)[9] == 'c');
                    assert(e[e.len() - 2] == 'g');
                }
            }
            assert(e.subrange(0, e.len() - 8) =~= base);
        },
    }
}

// ---------------------------------------------------------------------------
// Counter start time
// ---------------------------------------------------------------------------

/// The boot time in nanoseconds: `now` minus the uptime, not below zero;
/// `None` when the uptime is unknown or `now` is not a `u128`.
pub open spec fn boot_time(uptime_seconds: Option<u64>, now_nanos: Seq<char>) -> Option<Seq<char>> {
    match uptime_seconds {
        None => None,
        Some(up) => match parse_bounded(now_nanos, u128::MAX as nat) {
            None => None,
            Some(now) => Some(
                decimal(
                    if now >= up * 1_000_000_000 {
                        (now - up * 1_000_000_000) as nat
                    } else {
                        0
                    },
                ),
            ),
        },
    }
}

/// The start time of the modem's counters: its boot time in nanoseconds.
pub fn boot_time_nanos(uptime_seconds: Option<u64>, now_nanos: &str) -> (r: Option<String>)
    ensures
        match boot_time(uptime_seconds, now_nanos@) {
            None => r is None,
            Some(s) => r matches Some(t) && t@ == s,
        },
{
    let up = match uptime_seconds {
        Some(u) => u,
        None => return None,
    };
    let v = chars_of(now_nanos);
    assert(v@.subrange(0, v@.len() as int) =~= v@);
    let now = match parse_digits_bounded(&v, 0, v.len(), u128::MAX) {
        Some(n) => n,
        None => return None,
    };
    let offset: u128 = (up as u128) * 1_000_000_000;
    let boot: u128 = if now >= offset {
        now - offset
    } else {
        0
    };
    Some(decimal_string(boot))
}

/// The start time of cumulative sums: the boot time when it can be
/// computed, else `now` itself.
pub open spec fn counter_start(uptime_seconds: Option<u64>, now_nanos: Seq<char>) -> Seq<char> {
    match boot_time(uptime_seconds, now_nanos) {
        Some(b) => b,
        None => now_nanos,
    }
}

/// The start time of the cumulative sums of a push made at `now_nanos`.
pub fn counter_start_nanos(uptime_seconds: Option<u64>, now_nanos: &str) -> (r: String)
    ensures
        r@ == counter_start(uptime_seconds, now_nanos@),
{
    match boot_time_nanos(uptime_seconds, now_nanos) {
        Some(b) => b,
        None => owned(now_nanos),
    }
}

// ---------------------------------------------------------------------------
// Resource attributes
// ---------------------------------------------------------------------------

/// The device ID of a scrape: the MAC address of the first interface that
/// reports one, unless that one is all zeros; else the serial number.
pub open spec fn device_id(interfaces: Seq<InterfaceInfo>, serial: Seq<char>) -> Seq<char>
    decreases interfaces.len(),
{
    if interfaces.len() == 0 {
        serial
    } else if interfaces[0].mac_address@.len() > 0 {
        if interfaces[0].mac_address@ == "00:00:00:00:00:00"@ {
            serial
        } else {
            interfaces[0].mac_address@
        }
    } else {
        device_id(interfaces.drop_first(), serial)
    }
}

/// The views of string attribute pairs.
pub open spec fn pair_views(ps: Seq<(String, String)>) -> Seq<(Seq<char>, Seq<char>)> {
    Seq::new(ps.len(), |i: int| (ps[i].0@, ps[i].1@))
}

/// The resource attributes of the exporter: from a scrape when there is one,
/// else placeholders naming the modem's URL (or `unknown`).
pub open spec fn resource_pairs(
    data: Option<ScrapedData>,
    modem_url: Option<Seq<char>>,
    version: Seq<char>,
) -> Seq<(Seq<char>, Seq<char>)> {
    match data {
        Some(d) => seq![
            ("service.name"@, "cm3500-exporter"@),
            ("service.version"@, version),
            ("service.instance.id"@, d.version_info.serial@),
            ("hw.device.vendor"@, d.version_info.vendor@),
            ("hw.device.model"@, d.version_info.model@),
            ("hw.device.id"@, device_id(d.interfaces@, d.version_info.serial@)),
            ("network.connection.type"@, "cable"@),
            ("cm3500.firmware.version"@, d.version_info.software_rev@),
            ("cm3500.firmware.name"@, d.version_info.firmware_name@),
        ],
        None => seq![
            ("service.name"@, "cm3500-exporter"@),
            ("service.version"@, version),
            ("service.instance.id"@, match modem_url {
                Some(u) => u,
                None => "unknown"@,
            }),
            ("hw.device.vendor"@, "ARRIS"@),
            ("hw.device.model"@, "CM3500B CE"@),
            ("hw.device.id"@, "unknown"@),
            ("network.connection.type"@, "cable"@),
        ],
    }
}

fn device_id_of(data: &ScrapedData) -> (r: String)
    ensures
        r@ == device_id(data.interfaces@, data.version_info.serial@),
{
    let mut i: usize = 0;
    assert(data.interfaces@.skip(0) =~= data.interfaces@);
    while i < data.interfaces.len()
        invariant
            0 <= i <= data.interfaces@.len(),
            device_id(data.interfaces@, data.version_info.serial@) == device_id(
                data.interfaces@.skip(i as int),
                data.version_info.serial@,
            ),
        decreases data.interfaces.len() - i,
    {
        let ghost rest = data.interfaces@.skip(i as int);
        assert(rest[0] == data.interfaces@[i as int]);
        assert(rest.drop_first() =~= data.interfaces@.skip(i + 1));
        let mac = &data.interfaces[i].mac_address;
        if !mac.as_str().is_empty() {
            if str_eq(mac.as_str(), "00:00:00:00:00:00") {
                return data.version_info.serial.clone();
            }
            return mac.clone();
        }
        i += 1;
    }
    data.version_info.serial.clone()
}

/// The resource attributes, as key and value strings.
#[verifier::rlimit(30)]
pub fn build_resource_attrs(data: Option<&ScrapedData>, modem_url: Option<&str>, version: &str) -> (r:
    Vec<(String, String)>)
    ensures
        pair_views(r@) == resource_pairs(
            match data {
                Some(d) => Some(*d),
                None => None,
            },
            match modem_url {
                Some(u) => Some(u@),
                None => None,
            },
            version@,
        ),
{
    let mut r: Vec<(String, String)> = Vec::new();
    match data {
        Some(d) => {
            r.push((owned("service.name"), owned("cm3500-exporter")));
            r.push((owned("service.version"), owned(version)));
            r.push((owned("service.instance.id"), d.version_info.serial.clone()));
            r.push((owned("hw.device.vendor"), d.version_info.vendor.clone()));
            r.push((owned("hw.device.model"), d.version_info.model.clone()));
            r.push((owned("hw.device.id"), device_id_of(d)));
            r.push((owned("network.connection.type"), owned("cable")));
            r.push((owned("cm3500.firmware.version"), d.version_info.software_rev.clone()));
            r.push((owned("cm3500.firmware.name"), d.version_info.firmware_name.clone()));
        },
        None => {
            r.push((owned("service.name"), owned("cm3500-exporter")));
            r.push((owned("service.version"), owned(version)));
            let id = match modem_url {
                Some(u) => owned(u),
                None => owned("unknown"),
            };
            r.push((owned("service.instance.id"), id));
            r.push((owned("hw.device.vendor"), owned("ARRIS")));
            r.push((owned("hw.device.model"), owned("CM3500B CE")));
            r.push((owned("hw.device.id"), owned("unknown")));
            r.push((owned("network.connection.type"), owned("cable")));
        },
    }
    assert(pair_views(r@) =~= resource_pairs(
        match data {
            Some(d) => Some(*d),
            None => None,
        },
        match modem_url {
            Some(u) => Some(u@),
            None => None,
        },
        version@,
    ));
    r
}

// ---------------------------------------------------------------------------
// Log records for modem events
// ---------------------------------------------------------------------------

/// The value of an attribute: a string or an integer.
#[derive(Debug, Clone)]
pub enum AttrValue {
    Str(String),
    Int(i64),
}

/// A key and its value.
#[derive(Debug, Clone)]
pub struct Attribute {
    pub key: String,
    pub value: AttrValue,
}

/// The abstract value of an attribute.
pub enum AttrView {
    Str(Seq<char>),
    Int(int),
}

/// The view of an attribute.
pub open spec fn attr_view(a: Attribute) -> (Seq<char>, AttrView) {
    (
        a.key@,
        match a.value {
            AttrValue::Str(s) => AttrView::Str(s@),
            AttrValue::Int(i) => AttrView::Int(i as int),
        },
    )
}

/// The views of a list of attributes.
pub open spec fn attr_views(a: Seq<Attribute>) -> Seq<(Seq<char>, AttrView)> {
    Seq::new(a.len(), |i: int| attr_view(a[i]))
}

/// One log record for a modem event.
#[derive(Debug, Clone)]
pub struct LogRecord {
    pub time_unix_nano: String,
    pub observed_time_unix_nano: String,
    pub severity_number: u32,
    pub severity_text: String,
    pub body: String,
    pub attributes: Vec<Attribute>,
}

/// The identity of an event for de-duplication:
/// `timestamp|event_id|level|description`.
pub open spec fn event_key(e: EventLogEntry) -> Seq<char> {
    e.timestamp@ + seq!['|'] + e.event_id@ + seq!['|'] + decimal(e.event_level as nat) + seq!['|']
        + e.description@
}

/// An optional string attribute, present when the value is.
pub open spec fn opt_attr(key: Seq<char>, v: Option<Seq<char>>) -> Seq<(Seq<char>, AttrView)> {
    match v {
        Some(x) => seq![(key, AttrView::Str(x))],
        None => Seq::empty(),
    }
}

/// The attributes of an event's log record.
pub open spec fn record_attrs(e: EventLogEntry) -> Seq<(Seq<char>, AttrView)> {
    let kind = kind_of(e.event_id@);
    seq![
        ("event.name"@, AttrView::Str(kind.1)),
        ("event.domain"@, AttrView::Str("cable_modem"@)),
        ("cable_modem.event.id"@, AttrView::Str(e.event_id@)),
        ("cable_modem.event.type"@, AttrView::Str(kind.0)),
        ("cable_modem.event.level"@, AttrView::Int(e.event_level as int)),
        ("cable_modem.event.timestamp"@, AttrView::Str(e.timestamp@)),
    ] + opt_attr("cable_modem.cm.mac_address"@, suffix_value(e.description@, "CM-MAC="@))
        + opt_attr("cable_modem.cmts.mac_address"@, suffix_value(e.description@, "CMTS-MAC="@))
}

/// A log record describes its event as observed at `now`: both its times
/// are `now`, its severity comes from the level, its body is the
/// description, and its attributes are the event's.
pub open spec fn record_of(r: LogRecord, e: EventLogEntry, now: Seq<char>) -> bool {
    &&& r.time_unix_nano@ == now
    &&& r.observed_time_unix_nano@ == now
    &&& (r.severity_number, r.severity_text@) == severity_of(e.event_level)
    &&& r.body@ == e.description@
    &&& attr_views(r.attributes@) == record_attrs(e)
}

/// The largest number of event keys remembered.
pub open spec fn window_size() -> nat {
    256
}

/// The remembered keys after remembering `k`: the oldest are forgotten
/// beyond the window size.
pub open spec fn admitted(w: Seq<Seq<char>>, k: Seq<char>) -> Seq<Seq<char>> {
    let w2 = w.push(k);
    if w2.len() > window_size() {
        w2.skip(w2.len() - window_size())
    } else {
        w2
    }
}

/// The remembered keys after a log has been considered.
pub open spec fn window_after(w: Seq<Seq<char>>, events: Seq<EventLogEntry>) -> Seq<Seq<char>>
    decreases events.len(),
{
    if events.len() == 0 {
        w
    } else {
        let w1 = window_after(w, events.drop_last());
        let k = event_key(events.last());
        if w1.contains(k) {
            w1
        } else {
            admitted(w1, k)
        }
    }
}

/// The events of a log that are new: whose key was not remembered when
/// they were reached.
pub open spec fn fresh_events(w: Seq<Seq<char>>, events: Seq<EventLogEntry>) -> Seq<EventLogEntry>
    decreases events.len(),
{
    if events.len() == 0 {
        Seq::empty()
    } else {
        let prev = fresh_events(w, events.drop_last());
        if window_after(w, events.drop_last()).contains(event_key(events.last())) {
            prev
        } else {
            prev.push(events.last())
        }
    }
}

/// The keys of the most recently sent events.
pub struct SentEventKeys {
    keys: Vec<String>,
}

impl View for SentEventKeys {
    type V = Seq<Seq<char>>;

    closed spec fn view(&self) -> Seq<Seq<char>> {
        Seq::new(self.keys@.len(), |i: int| self.keys@[i]@)
    }
}

impl SentEventKeys {
    /// At most the window size of keys is remembered.
    #[verifier::type_invariant]
    spec fn within_window(&self) -> bool {
        self.keys@.len() <= window_size()
    }

    /// No event sent yet.
    pub fn new() -> (r: Self)
        ensures
            r@ == Seq::<Seq<char>>::empty(),
    {
        let r = SentEventKeys { keys: Vec::new() };
        assert(r@ =~= Seq::<Seq<char>>::empty());
        r
    }

    /// Whether `key` is remembered.
    pub fn contains(&self, key: &String) -> (r: bool)
        ensures
            r == self@.contains(key@),
    {
        let mut i: usize = 0;
        while i < self.keys.len()
            invariant
                0 <= i <= self.keys@.len(),
                forall|k: int| 0 <= k < i ==> self@[k] != key@,
            decreases self.keys.len() - i,
        {
            if self.keys[i] == *key {
                assert(self@[i as int] == key@);
                return true;
            }
            i += 1;
        }
        false
    }

    /// Remembers `key`, forgetting the oldest keys beyond the window size.
    pub fn remember(&mut self, key: String)
        ensures
            final(self)@ == admitted(old(self)@, key@),
            final(self)@.len() <= window_size(),
    {
        proof {
            use_type_invariant(&*self);
        }
        let mut keys: Vec<String> = Vec::new();
        std::mem::swap(&mut keys, &mut self.keys);
        let ghost kv = key@;
        let ghost w2 = old(self)@.push(kv);
        keys.push(key);
        assert(Seq::new(keys@.len(), |i: int| keys@[i]@) =~= w2);
        let mut dropped: usize = 0;
        while keys.len() > 256
            invariant
                Seq::new(keys@.len(), |i: int| keys@[i]@) == w2.skip(dropped as int),
                w2.len() == keys@.len() + dropped,
                w2.len() <= 257,
                w2.len() > 256 ==> keys@.len() >= 256,
                w2.len() <= 256 ==> dropped == 0,
            decreases keys.len(),
        {
            let ghost old_keys = keys@;
            let ghost before = Seq::new(keys@.len(), |i: int| keys@[i]@);
            keys.remove(0);
            assert(keys@ =~= old_keys.remove(0));
            assert(Seq::new(keys@.len(), |i: int| keys@[i]@) =~= before.drop_first());
            assert(before.drop_first() =~= w2.skip(dropped + 1));
            dropped += 1;
        }
        proof {
            if w2.len() > window_size() {
                assert(dropped == w2.len() - window_size());
            } else {
                assert(w2.skip(0) =~= w2);
            }
        }
        self.keys = keys;
    }

    /// How many keys are remembered; never more than the window size.
    pub fn len(&self) -> (r: usize)
        ensures
            r == self@.len(),
            r <= window_size(),
    {
        proof {
            use_type_invariant(self);
        }
        self.keys.len()
    }
}

/// The de-duplication key of an event.
pub fn event_key_of(e: &EventLogEntry) -> (r: String)
    ensures
        r@ == event_key(*e),
{
    let mut k = e.timestamp.clone();
    push_str(&mut k, "|");
    push_str(&mut k, e.event_id.as_str());
    push_str(&mut k, "|");
    push_decimal(&mut k, e.event_level as u128);
    push_str(&mut k, "|");
    push_str(&mut k, e.description.as_str());
    proof {
        reveal_strlit("|");
    }
    assert(k@ =~= event_key(*e));
    k
}

fn str_attr(key: &str, value: String) -> (r: Attribute)
    ensures
        attr_view(r) == (key@, AttrView::Str(value@)),
{
    Attribute { key: owned(key), value: AttrValue::Str(value) }
}

/// The log record of a modem event.
pub fn log_record(e: &EventLogEntry, now: &str) -> (r: LogRecord)
    ensures
        record_of(r, *e, now@),
{
    let (event_type, event_name) = event_kind(e.event_id.as_str());
    let (severity_number, severity_text) = severity_for_level(e.event_level);
    let mut attrs: Vec<Attribute> = Vec::new();
    attrs.push(str_attr("event.name", owned(event_name)));
    attrs.push(str_attr("event.domain", owned("cable_modem")));
    attrs.push(str_attr("cable_modem.event.id", e.event_id.clone()));
    attrs.push(str_attr("cable_modem.event.type", owned(event_type)));
    attrs.push(
        Attribute { key: owned("cable_modem.event.level"), value: AttrValue::Int(e.event_level as i64) },
    );
    attrs.push(str_attr("cable_modem.event.timestamp", e.timestamp.clone()));
    let ghost base = attr_views(attrs@);
    if let Some(cm_mac) = extract_suffix_value(e.description.as_str(), "CM-MAC=") {
        attrs.push(str_attr("cable_modem.cm.mac_address", cm_mac));
    }
    let ghost with_cm = attr_views(attrs@);
    assert(with_cm =~= base + opt_attr(
        "cable_modem.cm.mac_address"@,
        suffix_value(e.description@, "CM-MAC="@),
    ));
    if let Some(cmts_mac) = extract_suffix_value(e.description.as_str(), "CMTS-MAC=") {
        attrs.push(str_attr("cable_modem.cmts.mac_address", cmts_mac));
    }
    assert(attr_views(attrs@) =~= with_cm + opt_attr(
        "cable_modem.cmts.mac_address"@,
        suffix_value(e.description@, "CMTS-MAC="@),
    ));
    assert(attr_views(attrs@) =~= record_attrs(*e));
    LogRecord {
        time_unix_nano: owned(now),
        observed_time_unix_nano: owned(now),
        severity_number,
        severity_text: owned(severity_text),
        body: e.description.clone(),
        attributes: attrs,
    }
}

proof fn lemma_step_events(events: Seq<EventLogEntry>, i: int)
    requires
        0 <= i < events.len(),
    ensures
        events.take(i + 1).drop_last() == events.take(i),
        events.take(i + 1).last() == events[i],
{
    assert(events.take(i + 1).drop_last() =~= events.take(i));
}

/// The log records, observed at `now`, of the events not sent yet, each
/// remembered as sent.
#[verifier::rlimit(30)]
pub fn new_log_records(sent: &mut SentEventKeys, events: &[EventLogEntry], now: &str) -> (r: Vec<
    LogRecord,
>)
    ensures
        final(sent)@ == window_after(old(sent)@, events@),
        final(sent)@.len() <= window_size(),
        r@.len() == fresh_events(old(sent)@, events@).len(),
        forall|i: int|
            0 <= i < r@.len() ==> record_of(
                #[trigger] r@[i],
                fresh_events(old(sent)@, events@)[i],
                now@,
            ),
{
    let ghost w0 = sent@;
    let mut records: Vec<LogRecord> = Vec::new();
    let mut i: usize = 0;
    while i < events.len()
        invariant
            0 <= i <= events@.len(),
            sent@ == window_after(w0, events@.take(i as int)),
            records@.len() == fresh_events(w0, events@.take(i as int)).len(),
            forall|j: int|
                0 <= j < records@.len() ==> record_of(
                    #[trigger] records@[j],
                    fresh_events(w0, events@.take(i as int))[j],
                    now@,
                ),
        decreases events.len() - i,
    {
        proof {
            lemma_step_events(events@, i as int);
        }
        let key = event_key_of(&events[i]);
        if !sent.contains(&key) {
            records.push(log_record(&events[i], now));
            sent.remember(key);
        }
        i += 1;
    }
    assert(events@.take(events@.len() as int) =~= events@);
    proof {
        use_type_invariant(&*sent);
    }
    records
}

proof fn lemma_window_grows(w: Seq<Seq<char>>, events: Seq<EventLogEntry>)
    requires
        w.len() + events.len() <= window_size(),
    ensures
        window_after(w, events).len() <= w.len() + events.len(),
        forall|k: Seq<char>| w.contains(k) ==> window_after(w, events).contains(k),
        forall|i: int| 0 <= i < events.len() ==> window_after(w, events).contains(
            #[trigger] event_key(events[i]),
        ),
    decreases events.len(),
{
    if events.len() > 0 {
        let prefix = events.drop_last();
        lemma_window_grows(w, prefix);
        let w1 = window_after(w, prefix);
        let k = event_key(events.last());
        if !w1.contains(k) {
            let w2 = w1.push(k);
            assert(w2.len() <= window_size());
            assert(w2[w1.len() as int] == k);
            assert forall|x: Seq<char>| w1.contains(x) implies w2.contains(x) by {
                let j = choose|j: int| 0 <= j < w1.len() && w1[j] == x;
                assert(w2[j] == x);
            }
        }
        assert forall|i: int| 0 <= i < events.len() implies window_after(w, events).contains(
            #[trigger] event_key(events[i]),
        ) by {
            if i < prefix.len() {
                assert(prefix[i] == events[i]);
                assert(w1.contains(event_key(prefix[i])));
            }
        }
    }
}

proof fn lemma_nothing_fresh(w: Seq<Seq<char>>, events: Seq<EventLogEntry>)
    requires
        forall|i: int| 0 <= i < events.len() ==> w.contains(#[trigger] event_key(events[i])),
    ensures
        window_after(w, events) == w,
        fresh_events(w, events).len() == 0,
    decreases events.len(),
{
    if events.len() > 0 {
        let prefix = events.drop_last();
        assert forall|i: int| 0 <= i < prefix.len() implies w.contains(
            #[trigger] event_key(prefix[i]),
        ) by {
            assert(prefix[i] == events[i]);
        }
        lemma_nothing_fresh(w, prefix);
        assert(w.contains(event_key(events[events.len() - 1])));
    }
}

/// The remembered keys never exceed the window size: starting from a
/// window that fits, every log leaves one that fits, and a key just
/// admitted is the newest remembered one.
pub proof fn lemma_window_bounded(w: Seq<Seq<char>>, events: Seq<EventLogEntry>)
    requires
        w.len() <= window_size(),
    ensures
        window_after(w, events).len() <= window_size(),
        events.len() > 0 && !window_after(w, events.drop_last()).contains(event_key(events.last()))
            ==> window_after(w, events).last() == event_key(events.last()),
    decreases events.len(),
{
    if events.len() > 0 {
        lemma_window_bounded(w, events.drop_last());
    }
}

/// An event whose key is no longer remembered, because newer keys pushed it
/// out of the window or it was never sent, is sent again when a log reaches
/// it: it is the last fresh event of that log.
pub proof fn lemma_forgotten_resent(w: Seq<Seq<char>>, events: Seq<EventLogEntry>, e: EventLogEntry)
    requires
        !window_after(w, events).contains(event_key(e)),
    ensures
        fresh_events(w, events.push(e)).last() == e,
        fresh_events(w, events.push(e)).len() == fresh_events(w, events).len() + 1,
{
    assert(events.push(e).drop_last() =~= events);
}

/// Events already sent are not sent again: considering a log twice yields
/// no record the second time, as long as the remembered keys and the log
/// fit in the window together.
pub proof fn lemma_no_resend(w: Seq<Seq<char>>, events: Seq<EventLogEntry>)
    requires
        w.len() + events.len() <= window_size(),
    ensures
        fresh_events(window_after(w, events), events).len() == 0,
        window_after(window_after(w, events), events) == window_after(w, events),
{
    lemma_window_grows(w, events);
    lemma_nothing_fresh(window_after(w, events), events);
}

// ---------------------------------------------------------------------------
// The resource of the pushes
// ---------------------------------------------------------------------------

/// The resource attributes sent with every push, and whether they are still
/// placeholders to be replaced by those of the first successful scrape.
pub struct OtlpResource {
    attrs: Vec<(String, String)>,
    needs_enrichment: bool,
}

impl View for OtlpResource {
    type V = (Seq<(Seq<char>, Seq<char>)>, bool);

    closed spec fn view(&self) -> (Seq<(Seq<char>, Seq<char>)>, bool) {
        (pair_views(self.attrs@), self.needs_enrichment)
    }
}

impl OtlpResource {
    /// The resource of a scrape.
    pub fn for_scrape(data: &ScrapedData, version: &str) -> (r: Self)
        ensures
            r@ == (resource_pairs(Some(*data), None, version@), false),
    {
        OtlpResource { attrs: build_resource_attrs(Some(data), None, version), needs_enrichment: false }
    }

    /// Placeholders naming the modem's URL, to be replaced after the first
    /// successful scrape.
    pub fn fallback(modem_url: &str, version: &str) -> (r: Self)
        ensures
            r@ == (resource_pairs(None, Some(modem_url@), version@), true),
    {
        OtlpResource {
            attrs: build_resource_attrs(None, Some(modem_url), version),
            needs_enrichment: true,
        }
    }

    /// Replaces placeholders by the attributes of a scrape; attributes that
    /// are no placeholders stay as they are.
    pub fn enrich(&mut self, data: &ScrapedData, version: &str)
        ensures
            final(self)@ == enriched(old(self)@, *data, version@),
    {
        if self.needs_enrichment {
            self.attrs = build_resource_attrs(Some(data), None, version);
            self.needs_enrichment = false;
        }
    }

    /// The attributes, as key and value strings.
    pub fn attrs(&self) -> (r: &Vec<(String, String)>)
        ensures
            pair_views(r@) == self@.0,
    {
        &self.attrs
    }
}

/// A resource after a scrape: placeholders are replaced by the scrape's
/// attributes; attributes that are no placeholders stay.
pub open spec fn enriched(
    r: (Seq<(Seq<char>, Seq<char>)>, bool),
    data: ScrapedData,
    version: Seq<char>,
) -> (Seq<(Seq<char>, Seq<char>)>, bool) {
    if r.1 {
        (resource_pairs(Some(data), None, version), false)
    } else {
        r
    }
}

/// Enrichment happens once: after a scrape has replaced the placeholders,
/// later scrapes leave the resource as it is.
pub proof fn lemma_enrich_once(
    r: (Seq<(Seq<char>, Seq<char>)>, bool),
    first: ScrapedData,
    later: ScrapedData,
    version: Seq<char>,
)
    ensures
        enriched(enriched(r, first, version), later, version) == enriched(r, first, version),
        !enriched(r, first, version).1,
{
}

} // verus!
