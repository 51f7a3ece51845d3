//! Gateway automation: a hysteresis-aware link state and the service-flow
//! capacity, each rewritten only when its meaning changes.
use vstd::prelude::*;

use std::path::PathBuf;

use crate::clock::iso_timestamp_now;
use crate::num::decimal;
use crate::parser::{ScrapedData, ServiceFlowConfig};
use crate::text::{
    eq_ascii_nocase, eq_ignore_ascii_case, normalize_token, opt_view, owned, push_str, token,
};

verus! {

#[verifier::external_type_specification]
#[verifier::external_body]
pub struct ExPathBuf(PathBuf);

// ---------------------------------------------------------------------------
// Capacity
// ---------------------------------------------------------------------------

/// The link capacity that the modem's service flows configure, and the
/// shaped capacity after the margin.
#[derive(Debug, Clone, Copy, PartialEq, Eq, Structural)]
pub struct CapacitySemantic {
    pub upstream_bps: Option<u64>,
    pub downstream_bps: Option<u64>,
    pub shaped_upstream_bps: Option<u64>,
    pub shaped_downstream_bps: Option<u64>,
    pub valid: bool,
}

/// The largest configured rate among the flows whose direction equals
/// `dir` up to ASCII case.
pub open spec fn max_rate(flows: Seq<ServiceFlowConfig>, dir: Seq<char>) -> Option<u64>
    decreases flows.len(),
{
    if flows.len() == 0 {
        None
    } else {
        let prev = max_rate(flows.drop_last(), dir);
        let f = flows.last();
        if eq_ascii_nocase(f.direction@, dir) {
            match prev {
                Some(m) => Some(if m >= f.max_traffic_rate_bps {
                    m
                } else {
                    f.max_traffic_rate_bps
                }),
                None => Some(f.max_traffic_rate_bps),
            }
        } else {
            prev
        }
    }
}

/// `value * margin_percent / 100`, the product saturating at `u64::MAX`.
pub open spec fn margin_applied(value: u64, margin_percent: u8) -> u64 {
    let p = value * margin_percent;
    (if p > u64::MAX {
        u64::MAX as int
    } else {
        p
    } / 100) as u64
}

/// The capacity that a scrape's service flows give with a margin.
pub open spec fn capacity_of(flows: Seq<ServiceFlowConfig>, margin_percent: u8) -> CapacitySemantic {
    let up = max_rate(flows, "Upstream"@);
    let down = max_rate(flows, "Downstream"@);
    CapacitySemantic {
        upstream_bps: up,
        downstream_bps: down,
        shaped_upstream_bps: match up {
            Some(v) => Some(margin_applied(v, margin_percent)),
            None => None,
        },
        shaped_downstream_bps: match down {
            Some(v) => Some(margin_applied(v, margin_percent)),
            None => None,
        },
        valid: up is Some || down is Some,
    }
}

/// The capacity of a scrape that failed: nothing known, not valid.
pub open spec fn no_capacity() -> CapacitySemantic {
    CapacitySemantic {
        upstream_bps: None,
        downstream_bps: None,
        shaped_upstream_bps: None,
        shaped_downstream_bps: None,
        valid: false,
    }
}

/// The largest `max_traffic_rate_bps` among the flows of the given direction
/// (compared ignoring ASCII case); `None` when there is none.
pub fn max_rate_bps(flows: &[ServiceFlowConfig], direction: &str) -> (r: Option<u64>)
    ensures
        r == max_rate(flows@, direction@),
{
    let mut best: Option<u64> = None;
    let mut i: usize = 0;
    while i < flows.len()
        invariant
            0 <= i <= flows@.len(),
            best == max_rate(flows@.take(i as int), direction@),
        decreases flows.len() - i,
    {
        let f = &flows[i];
        assert(flows@.take(i + 1).drop_last() =~= flows@.take(i as int));
        assert(flows@.take(i + 1).last() == flows@[i as int]);
        if eq_ignore_ascii_case(f.direction.as_str(), direction) {
            best = match best {
                Some(m) => Some(
                    if m >= f.max_traffic_rate_bps {
                        m
                    } else {
                        f.max_traffic_rate_bps
                    },
                ),
                None => Some(f.max_traffic_rate_bps),
            };
        }
        i += 1;
    }
    assert(flows@.take(flows@.len() as int) =~= flows@);
    best
}

/// Applies a percentage margin: `value * margin_percent / 100`, with the
/// product saturating at `u64::MAX`.
pub fn apply_margin(value: u64, margin_percent: u8) -> (r: u64)
    ensures
        r == margin_applied(value, margin_percent),
{
    let product: u64 = match value.checked_mul(margin_percent as u64) {
        Some(p) => p,
        None => u64::MAX,
    };
    product / 100
}

/// A shaped rate never exceeds the configured rate when the margin is at
/// most 100 percent.
pub proof fn lemma_shaped_within_rate(value: u64, margin_percent: u8)
    requires
        margin_percent <= 100,
    ensures
        margin_applied(value, margin_percent) <= value,
{
    assert(value * margin_percent <= value * 100) by (nonlinear_arith)
        requires
            margin_percent <= 100,
    ;
}

/// The capacity of a direction is the largest configured rate of its flows:
/// no flow of that direction (ASCII case ignored) has a higher rate, one of
/// them has exactly that rate, and there is none exactly when no flow has
/// that direction.
pub proof fn lemma_max_rate_is_largest(flows: Seq<ServiceFlowConfig>, dir: Seq<char>)
    ensures
        forall|i: int|
            0 <= i < flows.len() && eq_ascii_nocase(#[trigger] flows[i].direction@, dir) ==> (
            max_rate(flows, dir) matches Some(m) && m >= flows[i].max_traffic_rate_bps),
        max_rate(flows, dir) matches Some(m) ==> exists|i: int|
            0 <= i < flows.len() && eq_ascii_nocase(#[trigger] flows[i].direction@, dir)
                && flows[i].max_traffic_rate_bps == m,
        max_rate(flows, dir) is None <==> forall|i: int|
            0 <= i < flows.len() ==> !eq_ascii_nocase(#[trigger] flows[i].direction@, dir),
    decreases flows.len(),
{
    if flows.len() > 0 {
        let prev = flows.drop_last();
        lemma_max_rate_is_largest(prev, dir);
        let n = flows.len() - 1;
        assert forall|i: int| 0 <= i < n implies #[trigger] flows[i] == prev[i] by {}
        if max_rate(flows, dir) is Some {
            let m = max_rate(flows, dir).unwrap();
            if eq_ascii_nocase(flows[n].direction@, dir) && (max_rate(prev, dir) is None || max_rate(prev, dir).unwrap() < flows[n].max_traffic_rate_bps) {
                assert(flows[n].max_traffic_rate_bps == m);
            } else {
                let k = choose|i: int|
                    0 <= i < prev.len() && eq_ascii_nocase(#[trigger] prev[i].direction@, dir)
                        && prev[i].max_traffic_rate_bps == max_rate(prev, dir).unwrap();
                assert(flows[k] == prev[k]);
            }
        }
    }
}

/// The capacity that a scrape's flows give carries, per direction, the
/// largest configured rate and that rate shaped by the margin.
pub proof fn lemma_capacity_of_largest(flows: Seq<ServiceFlowConfig>, margin_percent: u8)
    ensures
        forall|i: int|
            0 <= i < flows.len() && eq_ascii_nocase(#[trigger] flows[i].direction@, "Upstream"@)
                ==> (capacity_of(flows, margin_percent).upstream_bps matches Some(m)
                && m >= flows[i].max_traffic_rate_bps
                && capacity_of(flows, margin_percent).shaped_upstream_bps == Some(
                margin_applied(m, margin_percent),
            )),
        forall|i: int|
            0 <= i < flows.len() && eq_ascii_nocase(#[trigger] flows[i].direction@, "Downstream"@)
                ==> (capacity_of(flows, margin_percent).downstream_bps matches Some(m)
                && m >= flows[i].max_traffic_rate_bps
                && capacity_of(flows, margin_percent).shaped_downstream_bps == Some(
                margin_applied(m, margin_percent),
            )),
{
    lemma_max_rate_is_largest(flows, "Upstream"@);
    lemma_max_rate_is_largest(flows, "Downstream"@);
}

impl CapacitySemantic {
    /// The capacity configured by a scrape's service flows, shaped by
    /// `margin_percent`.
    pub fn from_data(data: &ScrapedData, margin_percent: u8) -> (r: Self)
        ensures
            r == capacity_of(data.service_flow_configs@, margin_percent),
    {
        let up = max_rate_bps(data.service_flow_configs.as_slice(), "Upstream");
        let down = max_rate_bps(data.service_flow_configs.as_slice(), "Downstream");
        CapacitySemantic {
            shaped_upstream_bps: match up {
                Some(v) => Some(apply_margin(v, margin_percent)),
                None => None,
            },
            shaped_downstream_bps: match down {
                Some(v) => Some(apply_margin(v, margin_percent)),
                None => None,
            },
            upstream_bps: up,
            downstream_bps: down,
            valid: up.is_some() || down.is_some(),
        }
    }

    /// The capacity of a failed scrape: nothing known and not valid.
    pub fn invalid(_margin_percent: u8) -> (r: Self)
        ensures
            r == no_capacity(),
    {
        CapacitySemantic {
            upstream_bps: None,
            downstream_bps: None,
            shaped_upstream_bps: None,
            shaped_downstream_bps: None,
            valid: false,
        }
    }
}

/// The capacity file's content: the capacity, where it came from, and when.
#[derive(Debug, Clone)]
pub struct CapacityFile {
    pub timestamp: String,
    pub upstream_bps: Option<u64>,
    pub downstream_bps: Option<u64>,
    pub shaped_upstream_bps: Option<u64>,
    pub shaped_downstream_bps: Option<u64>,
    pub source: String,
    pub valid: bool,
}

impl CapacityFile {
    /// The file content for a capacity, stamped with the current Unix time
    /// in seconds.
    pub fn from_semantic(semantic: &CapacitySemantic) -> (r: Self)
        ensures
            r.upstream_bps == semantic.upstream_bps,
            r.downstream_bps == semantic.downstream_bps,
            r.shaped_upstream_bps == semantic.shaped_upstream_bps,
            r.shaped_downstream_bps == semantic.shaped_downstream_bps,
            r.valid == semantic.valid,
            r.source@ == "service_flow_config"@,
            exists|n: u64| r.timestamp@ == decimal(n as nat),
    {
        CapacityFile {
            timestamp: iso_timestamp_now(),
            upstream_bps: semantic.upstream_bps,
            downstream_bps: semantic.downstream_bps,
            shaped_upstream_bps: semantic.shaped_upstream_bps,
            shaped_downstream_bps: semantic.shaped_downstream_bps,
            source: owned("service_flow_config"),
            valid: semantic.valid,
        }
    }
}

// ---------------------------------------------------------------------------
// Observations
// ---------------------------------------------------------------------------

/// Why a scrape is not healthy: the CM status when it is not
/// `OPERATIONAL`, else the DHCP state when it is set and not `bound`.
pub open spec fn reason_for(cm_status: Seq<char>, dhcp_state: Seq<char>) -> Option<Seq<char>> {
    if !eq_ascii_nocase(cm_status, "OPERATIONAL"@) {
        Some(
            if cm_status.len() == 0 {
                "cm_status_unknown"@
            } else {
                "cm_status_"@ + token(cm_status)
            },
        )
    } else if dhcp_state.len() > 0 && !eq_ascii_nocase(dhcp_state, "bound"@) {
        Some("dhcp_state_"@ + token(dhcp_state))
    } else {
        None
    }
}

/// The reason a scrape's status is not healthy, if any.
pub fn non_operational_reason(cm_status: &str, dhcp_state: &str) -> (r: Option<String>)
    ensures
        r matches Some(s) ==> reason_for(cm_status@, dhcp_state@) == Some(s@),
        r is None ==> reason_for(cm_status@, dhcp_state@) is None,
{
    if !eq_ignore_ascii_case(cm_status, "OPERATIONAL") {
        if cm_status.is_empty() {
            return Some(owned("cm_status_unknown"));
        }
        let mut s = owned("cm_status_");
        let t = normalize_token(cm_status);
        push_str(&mut s, t.as_str());
        return Some(s);
    }
    if !dhcp_state.is_empty() && !eq_ignore_ascii_case(dhcp_state, "bound") {
        let mut s = owned("dhcp_state_");
        let t = normalize_token(dhcp_state);
        push_str(&mut s, t.as_str());
        return Some(s);
    }
    None
}

/// What one scrape says about the link.
#[derive(Debug, Clone)]
pub struct ScrapeObservation {
    modem_up: bool,
    cm_status: String,
    dhcp_state: String,
    reason: Option<String>,
    capacity: CapacitySemantic,
}

/// The abstract content of an observation.
pub struct ObservationView {
    pub modem_up: bool,
    pub cm_status: Seq<char>,
    pub dhcp_state: Seq<char>,
    pub reason: Option<Seq<char>>,
    pub capacity: CapacitySemantic,
}

impl ObservationView {
    /// A scrape is good when the modem answered, its CM status is
    /// `OPERATIONAL` and its DHCP state is unknown or `bound` (ASCII case
    /// ignored).
    pub open spec fn good(self) -> bool {
        &&& self.modem_up
        &&& eq_ascii_nocase(self.cm_status, "OPERATIONAL"@)
        &&& (self.dhcp_state.len() == 0 || eq_ascii_nocase(self.dhcp_state, "bound"@))
    }
}

impl View for ScrapeObservation {
    type V = ObservationView;

    closed spec fn view(&self) -> ObservationView {
        ObservationView {
            modem_up: self.modem_up,
            cm_status: self.cm_status@,
            dhcp_state: self.dhcp_state@,
            reason: opt_view(self.reason),
            capacity: self.capacity,
        }
    }
}

fn clone_opt(s: &Option<String>) -> (r: Option<String>)
    ensures
        opt_view(r) == opt_view(*s),
{
    match s {
        Some(t) => Some(t.clone()),
        None => None,
    }
}

impl ScrapeObservation {
    /// The observation of a successful scrape.
    pub fn from_data(data: &ScrapedData, capacity_margin_percent: u8) -> (r: Self)
        ensures
            r@.modem_up,
            r@.cm_status == data.cm_status@,
            r@.dhcp_state == data.dhcp_state@,
            r@.reason == reason_for(data.cm_status@, data.dhcp_state@),
            r@.capacity == capacity_of(data.service_flow_configs@, capacity_margin_percent),
    {
        let reason = non_operational_reason(data.cm_status.as_str(), data.dhcp_state.as_str());
        ScrapeObservation {
            modem_up: true,
            cm_status: data.cm_status.clone(),
            dhcp_state: data.dhcp_state.clone(),
            reason,
            capacity: CapacitySemantic::from_data(data, capacity_margin_percent),
        }
    }

    /// The observation of a failed scrape: the modem is down for `reason`.
    pub fn from_error(reason: String, capacity_margin_percent: u8) -> (r: Self)
        ensures
            !r@.modem_up,
            r@.cm_status.len() == 0,
            r@.dhcp_state.len() == 0,
            r@.reason == Some(reason@),
            r@.capacity == no_capacity(),
            !r@.good(),
    {
        ScrapeObservation {
            modem_up: false,
            cm_status: String::new(),
            dhcp_state: String::new(),
            reason: Some(reason),
            capacity: CapacitySemantic::invalid(capacity_margin_percent),
        }
    }

    /// Whether the scrape shows a healthy link.
    pub fn is_good(&self) -> (r: bool)
        ensures
            r == self@.good(),
    {
        self.modem_up && eq_ignore_ascii_case(self.cm_status.as_str(), "OPERATIONAL") && (
        self.dhcp_state.as_str().is_empty() || eq_ignore_ascii_case(
            self.dhcp_state.as_str(),
            "bound",
        ))
    }

    /// The capacity that the scrape showed.
    pub fn capacity(&self) -> (r: CapacitySemantic)
        ensures
            r == self@.capacity,
    {
        self.capacity
    }
}

// ---------------------------------------------------------------------------
// Link state with hysteresis
// ---------------------------------------------------------------------------

/// The reported link status.
#[derive(Debug, Clone, Copy, PartialEq, Eq, Structural)]
pub enum LinkStatus {
    Up,
    Degraded,
    Down,
}

impl LinkStatus {
    /// The status's name as written to the state file.
    pub fn as_str(&self) -> (s: &'static str)
        ensures
            s@ == (match *self {
                LinkStatus::Up => "up"@,
                LinkStatus::Degraded => "degraded"@,
                LinkStatus::Down => "down"@,
            }),
    {
        match self {
            LinkStatus::Up => "up",
            LinkStatus::Degraded => "degraded",
            LinkStatus::Down => "down",
        }
    }
}

/// The meaning of the link-state file: everything but its timestamp.
#[derive(Debug, Clone)]
pub struct LinkStateSemantic {
    pub status: LinkStatus,
    pub modem_up: bool,
    pub cm_status: String,
    pub dhcp_state: String,
    pub degraded: bool,
    pub reason: Option<String>,
}

/// The abstract content of a link state.
pub struct LinkStateView {
    pub status: LinkStatus,
    pub modem_up: bool,
    pub cm_status: Seq<char>,
    pub dhcp_state: Seq<char>,
    pub degraded: bool,
    pub reason: Option<Seq<char>>,
}

impl View for LinkStateSemantic {
    type V = LinkStateView;

    open spec fn view(&self) -> LinkStateView {
        LinkStateView {
            status: self.status,
            modem_up: self.modem_up,
            cm_status: self.cm_status@,
            dhcp_state: self.dhcp_state@,
            degraded: self.degraded,
            reason: opt_view(self.reason),
        }
    }
}

fn same_opt(a: &Option<String>, b: &Option<String>) -> (r: bool)
    ensures
        r == (opt_view(*a) == opt_view(*b)),
{
    match (a, b) {
        (Some(x), Some(y)) => *x == *y,
        (None, None) => true,
        _ => false,
    }
}

impl LinkStateSemantic {
    /// Whether two link states mean the same.
    pub fn same_as(&self, other: &LinkStateSemantic) -> (r: bool)
        ensures
            r == (self@ == other@),
    {
        self.status == other.status && self.modem_up == other.modem_up && self.cm_status
            == other.cm_status && self.dhcp_state == other.dhcp_state && self.degraded
            == other.degraded && same_opt(&self.reason, &other.reason)
    }
}

/// The state of the hysteresis.
pub struct TrackerState {
    pub stable_up: Option<bool>,
    pub consecutive_good: u32,
    pub consecutive_bad: u32,
    pub down_threshold: u32,
    pub up_threshold: u32,
}

/// `n + 1`, saturating at `u32::MAX`.
pub open spec fn bump(n: u32) -> u32 {
    if n == u32::MAX {
        n
    } else {
        (n + 1) as u32
    }
}

/// The hysteresis after one more observation, good or not. The first
/// observation sets the stable state. Against a stable up link, a run of
/// `down_threshold` bad observations makes it stable down; against a stable
/// down link, a run of `up_threshold` good observations makes it stable up.
pub open spec fn step(s: TrackerState, good: bool) -> TrackerState {
    match s.stable_up {
        None => TrackerState {
            stable_up: Some(good),
            consecutive_good: if good {
                1
            } else {
                0
            },
            consecutive_bad: if good {
                0
            } else {
                1
            },
            down_threshold: s.down_threshold,
            up_threshold: s.up_threshold,
        },
        Some(up) => if good == up {
            if good {
                TrackerState {
                    stable_up: s.stable_up,
                    consecutive_good: bump(s.consecutive_good),
                    consecutive_bad: 0,
                    down_threshold: s.down_threshold,
                    up_threshold: s.up_threshold,
                }
            } else {
                TrackerState {
                    stable_up: s.stable_up,
                    consecutive_good: 0,
                    consecutive_bad: bump(s.consecutive_bad),
                    down_threshold: s.down_threshold,
                    up_threshold: s.up_threshold,
                }
            }
        } else if up {
            TrackerState {
                stable_up: Some(!(bump(s.consecutive_bad) >= s.down_threshold)),
                consecutive_good: 0,
                consecutive_bad: bump(s.consecutive_bad),
                down_threshold: s.down_threshold,
                up_threshold: s.up_threshold,
            }
        } else {
            TrackerState {
                stable_up: Some(bump(s.consecutive_good) >= s.up_threshold),
                consecutive_good: bump(s.consecutive_good),
                consecutive_bad: 0,
                down_threshold: s.down_threshold,
                up_threshold: s.up_threshold,
            }
        },
    }
}

/// Whether the link is stable up in a state (not yet known counts as down).
pub open spec fn stable(s: TrackerState) -> bool {
    match s.stable_up {
        Some(b) => b,
        None => false,
    }
}

/// The status reported for an observation, given the hysteresis after it:
/// `degraded` when the observation disagrees with the stable state, else
/// the stable state.
pub open spec fn status_of(after: TrackerState, good: bool) -> LinkStatus {
    if good != stable(after) {
        LinkStatus::Degraded
    } else if stable(after) {
        LinkStatus::Up
    } else {
        LinkStatus::Down
    }
}

/// The link state that an observation yields from a hysteresis state.
pub open spec fn semantic_of(s: TrackerState, o: ObservationView) -> LinkStateView {
    let after = step(s, o.good());
    LinkStateView {
        status: status_of(after, o.good()),
        modem_up: o.modem_up,
        cm_status: o.cm_status,
        dhcp_state: o.dhcp_state,
        degraded: o.good() != stable(after),
        reason: o.reason,
    }
}

/// A hysteresis over the scrapes' health.
pub struct LinkStateTracker {
    stable_up: Option<bool>,
    consecutive_good: u32,
    consecutive_bad: u32,
    down_threshold: u32,
    up_threshold: u32,
}

impl View for LinkStateTracker {
    type V = TrackerState;

    closed spec fn view(&self) -> TrackerState {
        TrackerState {
            stable_up: self.stable_up,
            consecutive_good: self.consecutive_good,
            consecutive_bad: self.consecutive_bad,
            down_threshold: self.down_threshold,
            up_threshold: self.up_threshold,
        }
    }
}

/// The initial hysteresis for two thresholds (each at least 1).
pub open spec fn initial_tracker(down_threshold: u32, up_threshold: u32) -> TrackerState {
    TrackerState {
        stable_up: None,
        consecutive_good: 0,
        consecutive_bad: 0,
        down_threshold: if down_threshold >= 1 {
            down_threshold
        } else {
            1
        },
        up_threshold: if up_threshold >= 1 {
            up_threshold
        } else {
            1
        },
    }
}

impl LinkStateTracker {
    #[verifier::type_invariant]
    spec fn thresholds_positive(&self) -> bool {
        self.down_threshold >= 1 && self.up_threshold >= 1
    }

    /// A tracker with no observation yet; thresholds below 1 count as 1.
    pub fn new(down_threshold: u32, up_threshold: u32) -> (r: Self)
        ensures
            r@ == initial_tracker(down_threshold, up_threshold),
    {
        LinkStateTracker {
            stable_up: None,
            consecutive_good: 0,
            consecutive_bad: 0,
            down_threshold: if down_threshold >= 1 {
                down_threshold
            } else {
                1
            },
            up_threshold: if up_threshold >= 1 {
                up_threshold
            } else {
                1
            },
        }
    }

    /// Takes one observation into the hysteresis and reports the link state.
    #[verifier::rlimit(30)]
    pub fn observe(&mut self, observation: &ScrapeObservation) -> (r: LinkStateSemantic)
        ensures
            final(self)@ == step(old(self)@, observation@.good()),
            r@ == semantic_of(old(self)@, observation@),
            old(self)@.down_threshold >= 1,
            old(self)@.up_threshold >= 1,
    {
        proof {
            use_type_invariant(&*self);
        }
        let good = observation.is_good();
        match self.stable_up {
            None => {
                self.stable_up = Some(good);
                self.consecutive_good = if good {
                    1
                } else {
                    0
                };
                self.consecutive_bad = if good {
                    0
                } else {
                    1
                };
            },
            Some(stable_up) => {
                if good == stable_up {
                    if good {
                        self.consecutive_good = saturating_inc(self.consecutive_good);
                        self.consecutive_bad = 0;
                    } else {
                        self.consecutive_bad = saturating_inc(self.consecutive_bad);
                        self.consecutive_good = 0;
                    }
                } else if stable_up {
                    self.consecutive_bad = saturating_inc(self.consecutive_bad);
                    self.consecutive_good = 0;
                    if self.consecutive_bad >= self.down_threshold {
                        self.stable_up = Some(false);
                    }
                } else {
                    self.consecutive_good = saturating_inc(self.consecutive_good);
                    self.consecutive_bad = 0;
                    if self.consecutive_good >= self.up_threshold {
                        self.stable_up = Some(true);
                    }
                }
            },
        }
        let stable_up = match self.stable_up {
            Some(b) => b,
            None => false,
        };
        let degraded = good != stable_up;
        let status = if degraded {
            LinkStatus::Degraded
        } else if stable_up {
            LinkStatus::Up
        } else {
            LinkStatus::Down
        };
        LinkStateSemantic {
            status,
            modem_up: observation.modem_up,
            cm_status: observation.cm_status.clone(),
            dhcp_state: observation.dhcp_state.clone(),
            degraded,
            reason: clone_opt(&observation.reason),
        }
    }
}

fn saturating_inc(n: u32) -> (r: u32)
    ensures
        r == bump(n),
{
    if n == u32::MAX {
        n
    } else {
        n + 1
    }
}

// ---------------------------------------------------------------------------
// Laws of the hysteresis
// ---------------------------------------------------------------------------

/// The hysteresis after `k` observations that are all good or all bad.
pub open spec fn repeat(s: TrackerState, good: bool, k: nat) -> TrackerState
    decreases k,
{
    if k == 0 {
        s
    } else {
        step(repeat(s, good, (k - 1) as nat), good)
    }
}

/// The first observation sets the stable state: it is reported `up` when
/// good and `down` when bad, never `degraded`.
pub proof fn lemma_first_observation(s: TrackerState, good: bool)
    requires
        s.stable_up is None,
    ensures
        status_of(step(s, good), good) == (if good {
            LinkStatus::Up
        } else {
            LinkStatus::Down
        }),
{
}

/// The status is `degraded` exactly when the observation disagrees with the
/// stable state, and the stable state after a step is never unknown.
pub proof fn lemma_degraded_iff_disagrees(s: TrackerState, good: bool)
    ensures
        (status_of(step(s, good), good) == LinkStatus::Degraded) == (good != stable(step(s, good))),
        step(s, good).stable_up is Some,
        !(step(s, good).consecutive_good > 0 && step(s, good).consecutive_bad > 0),
        step(s, good).down_threshold == s.down_threshold,
        step(s, good).up_threshold == s.up_threshold,
{
}

/// From a stable up link with no bad run, `k` bad observations in a row
/// leave it stable up while `k < down_threshold` and make it stable down
/// from `k == down_threshold` on; the `k`-th is reported `degraded` before
/// that and `down` from then.
pub proof fn lemma_bad_streak(s: TrackerState, k: nat)
    requires
        s.stable_up == Some(true),
        s.consecutive_bad == 0,
        s.down_threshold >= 1,
        1 <= k < u32::MAX,
    ensures
        repeat(s, false, k).consecutive_bad == k,
        repeat(s, false, k).consecutive_good == 0,
        repeat(s, false, k).down_threshold == s.down_threshold,
        repeat(s, false, k).stable_up == Some(k < s.down_threshold),
        status_of(repeat(s, false, k), false) == (if k < s.down_threshold {
            LinkStatus::Degraded
        } else {
            LinkStatus::Down
        }),
    decreases k,
{
    assert(repeat(s, false, 0) == s);
    assert(repeat(s, false, k) == step(repeat(s, false, (k - 1) as nat), false));
    let prev = repeat(s, false, (k - 1) as nat);
    if k > 1 {
        lemma_bad_streak(s, (k - 1) as nat);
    }
    assert(prev.consecutive_bad == k - 1);
    assert(bump(prev.consecutive_bad) == k);
    if k - 1 < s.down_threshold {
        assert(prev.stable_up == Some(true));
    } else {
        assert(prev.stable_up == Some(false));
    }
}

/// From a stable down link with no good run, `k` good observations in a
/// row leave it stable down while `k < up_threshold` and make it stable up
/// from `k == up_threshold` on; the `k`-th is reported `degraded` before
/// that and `up` from then.
pub proof fn lemma_good_streak(s: TrackerState, k: nat)
    requires
        s.stable_up == Some(false),
        s.consecutive_good == 0,
        s.up_threshold >= 1,
        1 <= k < u32::MAX,
    ensures
        repeat(s, true, k).consecutive_good == k,
        repeat(s, true, k).consecutive_bad == 0,
        repeat(s, true, k).up_threshold == s.up_threshold,
        repeat(s, true, k).stable_up == Some(k >= s.up_threshold),
        status_of(repeat(s, true, k), true) == (if k < s.up_threshold {
            LinkStatus::Degraded
        } else {
            LinkStatus::Up
        }),
    decreases k,
{
    assert(repeat(s, true, 0) == s);
    assert(repeat(s, true, k) == step(repeat(s, true, (k - 1) as nat), true));
    let prev = repeat(s, true, (k - 1) as nat);
    if k > 1 {
        lemma_good_streak(s, (k - 1) as nat);
    }
    assert(prev.consecutive_good == k - 1);
    assert(bump(prev.consecutive_good) == k);
    if k - 1 >= s.up_threshold {
        assert(prev.stable_up == Some(true));
    } else {
        assert(prev.stable_up == Some(false));
    }
}

/// From a new tracker whose first observation was good, the `k`-th bad
/// observation in a row is reported `degraded` (with the degraded flag set)
/// while `k` is below the down threshold (at least 1), and `down` (with the
/// flag clear) from then on.
pub proof fn lemma_new_bad_streak(down_threshold: u32, up_threshold: u32, k: nat)
    requires
        1 <= k < u32::MAX,
    ensures
        ({
            let s = step(initial_tracker(down_threshold, up_threshold), true);
            let d = if down_threshold >= 1 {
                down_threshold
            } else {
                1
            };
            &&& status_of(repeat(s, false, k), false) == (if k < d {
                LinkStatus::Degraded
            } else {
                LinkStatus::Down
            })
            &&& (false != stable(repeat(s, false, k))) == (k < d)
        }),
{
    lemma_bad_streak(step(initial_tracker(down_threshold, up_threshold), true), k);
}

/// From a new tracker whose first observation was bad, the `k`-th good
/// observation in a row is reported `degraded` (with the degraded flag set)
/// while `k` is below the up threshold (at least 1), and `up` (with the flag
/// clear) from then on.
pub proof fn lemma_new_good_streak(down_threshold: u32, up_threshold: u32, k: nat)
    requires
        1 <= k < u32::MAX,
    ensures
        ({
            let s = step(initial_tracker(down_threshold, up_threshold), false);
            let u = if up_threshold >= 1 {
                up_threshold
            } else {
                1
            };
            &&& status_of(repeat(s, true, k), true) == (if k < u {
                LinkStatus::Degraded
            } else {
                LinkStatus::Up
            })
            &&& (true != stable(repeat(s, true, k))) == (k < u)
        }),
{
    lemma_good_streak(step(initial_tracker(down_threshold, up_threshold), false), k);
}

// ---------------------------------------------------------------------------
// Automation outputs
// ---------------------------------------------------------------------------

/// What an update asks to be written: the link state and the capacity, each
/// only when its meaning differs from what was last written.
#[derive(Debug)]
pub struct AutomationPlan {
    pub state: Option<LinkStateSemantic>,
    pub capacity: Option<CapacitySemantic>,
}

/// The link-state file and the capacity file, with what was last written
/// to each.
pub struct AutomationOutputs {
    state_file: Option<PathBuf>,
    capacity_file: Option<PathBuf>,
    tracker: LinkStateTracker,
    last_state: Option<LinkStateSemantic>,
    last_capacity: Option<CapacitySemantic>,
}

/// The abstract state of the automation outputs.
pub struct OutputsView {
    pub has_state_file: bool,
    pub has_capacity_file: bool,
    pub tracker: TrackerState,
    pub last_state: Option<LinkStateView>,
    pub last_capacity: Option<CapacitySemantic>,
}

impl View for AutomationOutputs {
    type V = OutputsView;

    closed spec fn view(&self) -> OutputsView {
        OutputsView {
            has_state_file: self.state_file is Some,
            has_capacity_file: self.capacity_file is Some,
            tracker: self.tracker@,
            last_state: match self.last_state {
                Some(s) => Some(s@),
                None => None,
            },
            last_capacity: self.last_capacity,
        }
    }
}

/// The link state to write for an observation: the tracker's state when
/// there is a state file and it differs from the last one written.
pub open spec fn planned_state(v: OutputsView, o: ObservationView) -> Option<LinkStateView> {
    if v.has_state_file && v.last_state != Some(semantic_of(v.tracker, o)) {
        Some(semantic_of(v.tracker, o))
    } else {
        None
    }
}

/// The capacity to write for an observation: its capacity when there is a
/// capacity file and it differs from the last one written.
pub open spec fn planned_capacity(v: OutputsView, o: ObservationView) -> Option<CapacitySemantic> {
    if v.has_capacity_file && v.last_capacity != Some(o.capacity) {
        Some(o.capacity)
    } else {
        None
    }
}

/// The outputs after an update: the tracker has seen the observation when
/// there is a state file.
pub open spec fn updated(v: OutputsView, o: ObservationView) -> OutputsView {
    OutputsView {
        tracker: if v.has_state_file {
            step(v.tracker, o.good())
        } else {
            v.tracker
        },
        ..v
    }
}

impl AutomationOutputs {
    /// The path of the link-state file, if configured.
    pub closed spec fn state_path(&self) -> Option<PathBuf> {
        self.state_file
    }

    /// The path of the capacity file, if configured.
    pub closed spec fn capacity_path(&self) -> Option<PathBuf> {
        self.capacity_file
    }

    /// Outputs for the given files; `None` when neither file is configured.
    pub fn new(
        state_file: Option<PathBuf>,
        capacity_file: Option<PathBuf>,
        state_down_threshold: u32,
        state_up_threshold: u32,
    ) -> (r: Option<Self>)
        ensures
            r is None <==> (state_file is None && capacity_file is None),
            r matches Some(o) ==> {
                &&& o.state_path() == state_file
                &&& o.capacity_path() == capacity_file
                &&& o@.has_state_file == state_file is Some
                &&& o@.has_capacity_file == capacity_file is Some
                &&& o@.tracker == initial_tracker(state_down_threshold, state_up_threshold)
                &&& o@.last_state is None
                &&& o@.last_capacity is None
            },
    {
        if state_file.is_none() && capacity_file.is_none() {
            return None;
        }
        Some(
            AutomationOutputs {
                state_file,
                capacity_file,
                tracker: LinkStateTracker::new(state_down_threshold, state_up_threshold),
                last_state: None,
                last_capacity: None,
            },
        )
    }

    /// The link-state file, if configured.
    pub fn state_file(&self) -> (r: Option<&PathBuf>)
        ensures
            r is Some == self@.has_state_file,
            match r {
                Some(p) => self.state_path() == Some(*p),
                None => self.state_path() is None,
            },
    {
        self.state_file.as_ref()
    }

    /// The capacity file, if configured.
    pub fn capacity_file(&self) -> (r: Option<&PathBuf>)
        ensures
            r is Some == self@.has_capacity_file,
            match r {
                Some(p) => self.capacity_path() == Some(*p),
                None => self.capacity_path() is None,
            },
    {
        self.capacity_file.as_ref()
    }

    /// Takes one observation: the tracker sees it when there is a state
    /// file, and the plan names what must be written. Nothing counts as
    /// written until it is recorded.
    #[verifier::rlimit(30)]
    pub fn update(&mut self, observation: &ScrapeObservation) -> (plan: AutomationPlan)
        ensures
            final(self)@ == updated(old(self)@, observation@),
            final(self).state_path() == old(self).state_path(),
            final(self).capacity_path() == old(self).capacity_path(),
            (match plan.state {
                Some(s) => Some(s@),
                None => None,
            }) == planned_state(old(self)@, observation@),
            plan.capacity == planned_capacity(old(self)@, observation@),
    {
        let mut state: Option<LinkStateSemantic> = None;
        if self.state_file.is_some() {
            let semantic = self.tracker.observe(observation);
            let unchanged = match &self.last_state {
                Some(last) => last.same_as(&semantic),
                None => false,
            };
            if !unchanged {
                state = Some(semantic);
            }
        }
        let mut capacity: Option<CapacitySemantic> = None;
        if self.capacity_file.is_some() {
            let c = observation.capacity();
            let unchanged = match self.last_capacity {
                Some(last) => last == c,
                None => false,
            };
            if !unchanged {
                capacity = Some(c);
            }
        }
        AutomationPlan { state, capacity }
    }

    /// Records that the link-state file now holds `semantic`.
    pub fn record_state_written(&mut self, semantic: LinkStateSemantic)
        ensures
            final(self)@ == (OutputsView { last_state: Some(semantic@), ..old(self)@ }),
            final(self).state_path() == old(self).state_path(),
            final(self).capacity_path() == old(self).capacity_path(),
    {
        self.last_state = Some(semantic);
    }

    /// Records that the capacity file now holds `capacity`.
    pub fn record_capacity_written(&mut self, capacity: CapacitySemantic)
        ensures
            final(self)@ == (OutputsView { last_capacity: Some(capacity), ..old(self)@ }),
            final(self).state_path() == old(self).state_path(),
            final(self).capacity_path() == old(self).capacity_path(),
    {
        self.last_capacity = Some(capacity);
    }
}

/// Once a capacity has been written, the same capacity is not planned again.
pub proof fn lemma_capacity_not_rewritten(v: OutputsView, o: ObservationView)
    ensures
        planned_capacity(
            OutputsView { last_capacity: Some(o.capacity), ..updated(v, o) },
            o,
        ) is None,
{
}

/// Once a link state has been written, an observation that yields the same
/// link state is not planned again.
pub proof fn lemma_state_not_rewritten(v: OutputsView, o: ObservationView, s: LinkStateView)
    requires
        semantic_of(updated(v, o).tracker, o) == s,
    ensures
        planned_state(OutputsView { last_state: Some(s), ..updated(v, o) }, o) is None,
{
}

/// A capacity that differs from the one last written to the capacity file
/// is planned, and it is the observation's capacity that is planned.
pub proof fn lemma_changed_capacity_planned(v: OutputsView, o: ObservationView, last: CapacitySemantic)
    requires
        v.has_capacity_file,
        v.last_capacity == Some(last),
        last != o.capacity,
    ensures
        planned_capacity(v, o) == Some(o.capacity),
{
}

/// With a capacity file, a capacity is planned exactly when nothing was
/// written yet or what was written differs from it; without one, never.
pub proof fn lemma_capacity_planned_iff(v: OutputsView, o: ObservationView)
    ensures
        planned_capacity(v, o) is Some <==> (v.has_capacity_file && (v.last_capacity is None
            || v.last_capacity != Some(o.capacity))),
        planned_capacity(v, o) matches Some(c) ==> c == o.capacity,
{
}

/// After one capacity has been planned and recorded as written, the next
/// observation with a different capacity is planned again.
pub proof fn lemma_next_capacity_rewritten(v: OutputsView, o1: ObservationView, o2: ObservationView)
    requires
        v.has_capacity_file,
        o1.capacity != o2.capacity,
    ensures
        planned_capacity(v, o1) == Some(o1.capacity) || v.last_capacity == Some(o1.capacity),
        planned_capacity(
            OutputsView { last_capacity: Some(o1.capacity), ..updated(v, o1) },
            o2,
        ) == Some(o2.capacity),
{
}

/// A link state that differs from the one last written to the state file
/// is planned, and it is the tracker's link state for the observation.
pub proof fn lemma_changed_state_planned(v: OutputsView, o: ObservationView, last: LinkStateView)
    requires
        v.has_state_file,
        v.last_state == Some(last),
        last != semantic_of(v.tracker, o),
    ensures
        planned_state(v, o) == Some(semantic_of(v.tracker, o)),
{
}

// ---------------------------------------------------------------------------
// Link-state file
// ---------------------------------------------------------------------------

/// The link-state file's content: the link state and when it was taken.
#[derive(Debug, Clone)]
pub struct LinkStateFile {
    pub status: String,
    pub timestamp: String,
    pub modem_up: bool,
    pub cm_status: String,
    pub dhcp_state: String,
    pub degraded: bool,
    pub reason: Option<String>,
}

impl LinkStateFile {
    /// The file content for a link state, stamped with the current Unix
    /// time in seconds.
    pub fn from_semantic(semantic: &LinkStateSemantic) -> (r: Self)
        ensures
            r.status@ == (match semantic.status {
                LinkStatus::Up => "up"@,
                LinkStatus::Degraded => "degraded"@,
                LinkStatus::Down => "down"@,
            }),
            r.modem_up == semantic.modem_up,
            r.cm_status@ == semantic.cm_status@,
            r.dhcp_state@ == semantic.dhcp_state@,
            r.degraded == semantic.degraded,
            opt_view(r.reason) == opt_view(semantic.reason),
            exists|n: u64| r.timestamp@ == decimal(n as nat),
    {
        LinkStateFile {
            status: owned(semantic.status.as_str()),
            timestamp: iso_timestamp_now(),
            modem_up: semantic.modem_up,
            cm_status: semantic.cm_status.clone(),
            dhcp_state: semantic.dhcp_state.clone(),
            degraded: semantic.degraded,
            reason: clone_opt(&semantic.reason),
        }
    }
}

} // verus!
