//! The channel tables of the status page: downstream SC-QAM and OFDM,
//! upstream SC-QAM and OFDMA.
//!
//! A table row is kept when every field it reads is well formed. Whole
//! numbers are read as such; measurements (frequencies, powers, widths and
//! signal ratios) are kept as the decimal text the page shows, which has at
//! least one digit, at most one point and possibly a leading minus sign.
use vstd::prelude::*;

use crate::num::is_digit;
use crate::parser::{all_in, all_of, cgroup, grp, number_in, number_of};
use crate::pattern::captured_view;
use crate::text::{chars_of, keep_some, lemma_keep_some_step, opt_view, trim, trim_str};

verus! {

pub const DS_QAM_PATTERN: &'static str = r"Downstream\s+(\d+)</td><td>(\d+)</td><td>([\d.]+)\s*MHz</td><td>(-?[\d.]+)\s*dBmV</td><td>([\d.]+)\s*dB</td><td>(\d+QAM)</td><td>(\d+)</td><td>(\d+)</td><td>(\d+)";

pub const DS_OFDM_PATTERN: &'static str = r"Downstream\s+(\d+)</td><td>(\d+K)</td><td>([\d.]+)</td><td>(\d+)</td><td>([\d.]+)</td><td>([\d.]+)</td><td>([\d.]+)</td><td>([\d.]+)</td><td>([\d.]+)";

pub const US_QAM_PATTERN: &'static str = r"Upstream\s+(\d+)</td><td>(\d+)</td><td>([\d.]+)\s*MHz</td><td>([\d.]+)\s*dBmV</td><td>([^<]+)</td><td>([\d.]+)\s*kSym/s</td><td>(\d+QAM)";

pub const US_OFDM_PATTERN: &'static str = r"Upstream\s+(\d+)</td><td>(\d+K)</td><td>([\d.]+)</td><td>(\d+)</td><td>([\d.]+)</td><td>([\d.]+)</td><td>(-?[\d.]+)";

/// One downstream SC-QAM row.
#[derive(Debug, Clone)]
pub struct DownstreamQamRow {
    pub channel: u32,
    pub dcid: u32,
    pub freq_mhz: String,
    pub power_dbmv: String,
    pub snr_db: String,
    pub modulation: String,
    pub octets: u64,
    pub correcteds: u64,
    pub uncorrectables: u64,
}

/// One downstream OFDM row.
#[derive(Debug, Clone)]
pub struct DownstreamOfdmRow {
    pub channel: u32,
    pub fft_type: String,
    pub channel_width_mhz: String,
    pub active_subcarriers: u32,
    pub rxmer_pilot_db: String,
    pub rxmer_plc_db: String,
    pub rxmer_data_db: String,
}

/// One upstream SC-QAM row.
#[derive(Debug, Clone)]
pub struct UpstreamQamRow {
    pub channel: u32,
    pub ucid: u32,
    pub freq_mhz: String,
    pub power_dbmv: String,
    pub channel_type: String,
    pub symbol_rate_ksym: String,
    pub modulation: String,
}

/// One upstream OFDMA row.
#[derive(Debug, Clone)]
pub struct UpstreamOfdmRow {
    pub channel: u32,
    pub fft_type: String,
    pub channel_width_mhz: String,
    pub active_subcarriers: u32,
    pub first_active_subcarrier_mhz: String,
    pub last_active_subcarrier_mhz: String,
    pub tx_power_dbmv: String,
}

// ---------------------------------------------------------------------------
// Field forms
// ---------------------------------------------------------------------------

/// A digit or a decimal point.
pub open spec fn digit_or_point(c: char) -> bool {
    is_digit(c) || c == '.'
}

/// Digits and points only, with at least one digit and at most one point.
pub open spec fn unsigned_decimal(d: Seq<char>) -> bool {
    &&& forall|i: int| 0 <= i < d.len() ==> #[trigger] digit_or_point(d[i])
    &&& exists|i: int| 0 <= i < d.len() && #[trigger] is_digit(d[i])
    &&& forall|i: int, j: int| #![trigger d[i], d[j]] 0 <= i < j < d.len() ==> !(d[i] == '.' && d[j] == '.')
}

/// A decimal text: an optional leading `-`, then digits and points only,
/// with at least one digit and at most one point.
pub open spec fn float_text(t: Seq<char>) -> bool {
    unsigned_decimal(
        if t.len() > 0 && t[0] == '-' {
            t.drop_first()
        } else {
            t
        },
    )
}

/// A group as a decimal text, when it took part and is one.
pub open spec fn float_in(g: Option<Seq<char>>) -> Option<Seq<char>> {
    match g {
        Some(t) => if float_text(t) {
            Some(t)
        } else {
            None
        },
        None => None,
    }
}

/// Whether a text is a decimal text.
pub fn is_float_text(t: &str) -> (r: bool)
    ensures
        r == float_text(t@),
{
    let v = chars_of(t);
    let n = v.len();
    let start: usize = if n > 0 && v[0] == '-' {
        1
    } else {
        0
    };
    let ghost d = if v@.len() > 0 && v@[0] == '-' {
        v@.drop_first()
    } else {
        v@
    };
    assert(d =~= v@.subrange(start as int, n as int));
    let mut seen_digit = false;
    let mut seen_point = false;
    let mut point_at: usize = 0;
    let mut digit_at: usize = 0;
    let mut i = start;
    while i < n
        invariant
            start <= i <= n,
            n == v@.len(),
            v@ == t@,
            d == (if t@.len() > 0 && t@[0] == '-' {
                t@.drop_first()
            } else {
                t@
            }),
            d == v@.subrange(start as int, n as int),
            forall|k: int| 0 <= k < i - start ==> #[trigger] digit_or_point(d[k]),
            seen_digit ==> start <= digit_at < i && is_digit(d[digit_at - start]),
            !seen_digit ==> forall|k: int| 0 <= k < i - start ==> !#[trigger] is_digit(d[k]),
            seen_point ==> start <= point_at < i && d[point_at - start] == '.',
            !seen_point ==> forall|k: int| 0 <= k < i - start ==> #[trigger] d[k] != '.',
            forall|a: int, b: int|
                #![trigger d[a], d[b]]
                0 <= a < b < i - start ==> !(d[a] == '.' && d[b] == '.'),
        decreases n - i,
    {
        let c = v[i];
        assert(d[i - start] == c);
        if '0' <= c && c <= '9' {
            if !seen_digit {
                digit_at = i;
            }
            seen_digit = true;
        } else if c == '.' {
            if seen_point {
                assert(d[point_at - start] == '.' && d[i - start] == '.');
                assert(v@ == t@);
                assert(!unsigned_decimal(d));
                return false;
            }
            seen_point = true;
            point_at = i;
        } else {
            assert(!digit_or_point(d[i - start]));
            assert(v@ == t@);
            assert(!unsigned_decimal(d));
            return false;
        }
        i += 1;
    }
    assert(v@ == t@);
    assert(d.len() == n - start);
    assert(forall|k: int| 0 <= k < d.len() ==> #[trigger] digit_or_point(d[k]));
    if !seen_digit {
        assert(!exists|k: int| 0 <= k < d.len() && #[trigger] is_digit(d[k]));
        assert(!unsigned_decimal(d));
    } else {
        assert(is_digit(d[digit_at - start]));
        assert(unsigned_decimal(d));
    }
    seen_digit
}

/// A group as a decimal text.
pub fn float_of(g: &Option<String>) -> (r: Option<String>)
    ensures
        opt_view(r) == float_in(opt_view(*g)),
{
    match g {
        Some(t) => if is_float_text(t.as_str()) {
            Some(t.clone())
        } else {
            None
        },
        None => None,
    }
}

// ---------------------------------------------------------------------------
// Rows
// ---------------------------------------------------------------------------

/// A match's field as a `u32`.
pub open spec fn u32_field(m: (nat, nat, Seq<Option<Seq<char>>>), i: int) -> Option<nat> {
    number_in(grp(m, i), u32::MAX as nat)
}

/// A match's field as a `u64`.
pub open spec fn u64_field(m: (nat, nat, Seq<Option<Seq<char>>>), i: int) -> Option<nat> {
    number_in(grp(m, i), u64::MAX as nat)
}

/// The abstract content of a downstream SC-QAM row.
pub open spec fn ds_qam_view(r: DownstreamQamRow) -> (u32, u32, Seq<char>, Seq<char>, Seq<char>, Seq<char>, u64, u64, u64) {
    (r.channel, r.dcid, r.freq_mhz@, r.power_dbmv@, r.snr_db@, r.modulation@, r.octets, r.correcteds, r.uncorrectables)
}

/// The downstream SC-QAM row of a match: channel, DCID, frequency, power,
/// SNR, modulation and the three counters (groups 1 to 9).
pub open spec fn ds_qam_row(m: (nat, nat, Seq<Option<Seq<char>>>)) -> Option<(u32, u32, Seq<char>, Seq<char>, Seq<char>, Seq<char>, u64, u64, u64)> {
    match (u32_field(m, 1), u32_field(m, 2), float_in(grp(m, 3)), float_in(grp(m, 4)), float_in(grp(m, 5))) {
        (Some(ch), Some(dc), Some(f), Some(p), Some(s)) => match (grp(m, 6), u64_field(m, 7), u64_field(m, 8), u64_field(m, 9)) {
            (Some(md), Some(o), Some(c), Some(u)) => Some((ch as u32, dc as u32, f, p, s, md, o as u64, c as u64, u as u64)),
            _ => None,
        },
        _ => None,
    }
}

/// The abstract content of a downstream OFDM row.
pub open spec fn ds_ofdm_view(r: DownstreamOfdmRow) -> (u32, Seq<char>, Seq<char>, u32, Seq<char>, Seq<char>, Seq<char>) {
    (r.channel, r.fft_type@, r.channel_width_mhz@, r.active_subcarriers, r.rxmer_pilot_db@, r.rxmer_plc_db@, r.rxmer_data_db@)
}

/// The downstream OFDM row of a match: channel, FFT type, width, active
/// subcarriers (groups 1 to 4) and the pilot, PLC and data MER (groups 7
/// to 9).
pub open spec fn ds_ofdm_row(m: (nat, nat, Seq<Option<Seq<char>>>)) -> Option<(u32, Seq<char>, Seq<char>, u32, Seq<char>, Seq<char>, Seq<char>)> {
    match (u32_field(m, 1), grp(m, 2), float_in(grp(m, 3)), u32_field(m, 4)) {
        (Some(ch), Some(fft), Some(w), Some(a)) => match (float_in(grp(m, 7)), float_in(grp(m, 8)), float_in(grp(m, 9))) {
            (Some(p), Some(l), Some(d)) => Some((ch as u32, fft, w, a as u32, p, l, d)),
            _ => None,
        },
        _ => None,
    }
}

/// The abstract content of an upstream SC-QAM row.
pub open spec fn us_qam_view(r: UpstreamQamRow) -> (u32, u32, Seq<char>, Seq<char>, Seq<char>, Seq<char>, Seq<char>) {
    (r.channel, r.ucid, r.freq_mhz@, r.power_dbmv@, r.channel_type@, r.symbol_rate_ksym@, r.modulation@)
}

/// The upstream SC-QAM row of a match: channel, UCID, frequency, power,
/// channel type (trimmed), symbol rate and modulation (groups 1 to 7).
pub open spec fn us_qam_row(m: (nat, nat, Seq<Option<Seq<char>>>)) -> Option<(u32, u32, Seq<char>, Seq<char>, Seq<char>, Seq<char>, Seq<char>)> {
    match (u32_field(m, 1), u32_field(m, 2), float_in(grp(m, 3)), float_in(grp(m, 4))) {
        (Some(ch), Some(u), Some(f), Some(p)) => match (grp(m, 5), float_in(grp(m, 6)), grp(m, 7)) {
            (Some(t), Some(s), Some(md)) => Some((ch as u32, u as u32, f, p, trim(t), s, md)),
            _ => None,
        },
        _ => None,
    }
}

/// The abstract content of an upstream OFDMA row.
pub open spec fn us_ofdm_view(r: UpstreamOfdmRow) -> (u32, Seq<char>, Seq<char>, u32, Seq<char>, Seq<char>, Seq<char>) {
    (r.channel, r.fft_type@, r.channel_width_mhz@, r.active_subcarriers, r.first_active_subcarrier_mhz@, r.last_active_subcarrier_mhz@, r.tx_power_dbmv@)
}

/// The upstream OFDMA row of a match: channel, FFT type, width, active
/// subcarriers, first and last active subcarrier and transmit power
/// (groups 1 to 7).
pub open spec fn us_ofdm_row(m: (nat, nat, Seq<Option<Seq<char>>>)) -> Option<(u32, Seq<char>, Seq<char>, u32, Seq<char>, Seq<char>, Seq<char>)> {
    match (u32_field(m, 1), grp(m, 2), float_in(grp(m, 3)), u32_field(m, 4)) {
        (Some(ch), Some(fft), Some(w), Some(a)) => match (float_in(grp(m, 5)), float_in(grp(m, 6)), float_in(grp(m, 7))) {
            (Some(f), Some(l), Some(p)) => Some((ch as u32, fft, w, a as u32, f, l, p)),
            _ => None,
        },
        _ => None,
    }
}

fn u32_of(c: &crate::pattern::Captured, i: usize) -> (r: Option<u32>)
    ensures
        match u32_field(captured_view(*c), i as int) {
            Some(v) => r == Some(v as u32),
            None => r is None,
        },
{
    match number_of(&cgroup(c, i), 0xffff_ffff) {
        Some(v) => Some(v as u32),
        None => None,
    }
}

fn u64_of(c: &crate::pattern::Captured, i: usize) -> (r: Option<u64>)
    ensures
        match u64_field(captured_view(*c), i as int) {
            Some(v) => r == Some(v as u64),
            None => r is None,
        },
{
    match number_of(&cgroup(c, i), 0xffff_ffff_ffff_ffff) {
        Some(v) => Some(v as u64),
        None => None,
    }
}

fn float_field(c: &crate::pattern::Captured, i: usize) -> (r: Option<String>)
    ensures
        opt_view(r) == float_in(grp(captured_view(*c), i as int)),
{
    float_of(&cgroup(c, i))
}

fn ds_qam_of(c: &crate::pattern::Captured) -> (r: Option<DownstreamQamRow>)
    ensures
        match ds_qam_row(captured_view(*c)) {
            Some(v) => r matches Some(row) && ds_qam_view(row) == v,
            None => r is None,
        },
{
    match (u32_of(c, 1), u32_of(c, 2), float_field(c, 3), float_field(c, 4), float_field(c, 5)) {
        (Some(channel), Some(dcid), Some(freq_mhz), Some(power_dbmv), Some(snr_db)) => {
            match (cgroup(c, 6), u64_of(c, 7), u64_of(c, 8), u64_of(c, 9)) {
                (Some(modulation), Some(octets), Some(correcteds), Some(uncorrectables)) => Some(
                    DownstreamQamRow {
                        channel,
                        dcid,
                        freq_mhz,
                        power_dbmv,
                        snr_db,
                        modulation,
                        octets,
                        correcteds,
                        uncorrectables,
                    },
                ),
                _ => None,
            }
        },
        _ => None,
    }
}

fn ds_ofdm_of(c: &crate::pattern::Captured) -> (r: Option<DownstreamOfdmRow>)
    ensures
        match ds_ofdm_row(captured_view(*c)) {
            Some(v) => r matches Some(row) && ds_ofdm_view(row) == v,
            None => r is None,
        },
{
    match (u32_of(c, 1), cgroup(c, 2), float_field(c, 3), u32_of(c, 4)) {
        (Some(channel), Some(fft_type), Some(channel_width_mhz), Some(active_subcarriers)) => {
            match (float_field(c, 7), float_field(c, 8), float_field(c, 9)) {
                (Some(rxmer_pilot_db), Some(rxmer_plc_db), Some(rxmer_data_db)) => Some(
                    DownstreamOfdmRow {
                        channel,
                        fft_type,
                        channel_width_mhz,
                        active_subcarriers,
                        rxmer_pilot_db,
                        rxmer_plc_db,
                        rxmer_data_db,
                    },
                ),
                _ => None,
            }
        },
        _ => None,
    }
}

fn us_qam_of(c: &crate::pattern::Captured) -> (r: Option<UpstreamQamRow>)
    ensures
        match us_qam_row(captured_view(*c)) {
            Some(v) => r matches Some(row) && us_qam_view(row) == v,
            None => r is None,
        },
{
    match (u32_of(c, 1), u32_of(c, 2), float_field(c, 3), float_field(c, 4)) {
        (Some(channel), Some(ucid), Some(freq_mhz), Some(power_dbmv)) => {
            match (cgroup(c, 5), float_field(c, 6), cgroup(c, 7)) {
                (Some(t), Some(symbol_rate_ksym), Some(modulation)) => Some(
                    UpstreamQamRow {
                        channel,
                        ucid,
                        freq_mhz,
                        power_dbmv,
                        channel_type: trim_str(t.as_str()),
                        symbol_rate_ksym,
                        modulation,
                    },
                ),
                _ => None,
            }
        },
        _ => None,
    }
}

fn us_ofdm_of(c: &crate::pattern::Captured) -> (r: Option<UpstreamOfdmRow>)
    ensures
        match us_ofdm_row(captured_view(*c)) {
            Some(v) => r matches Some(row) && us_ofdm_view(row) == v,
            None => r is None,
        },
{
    match (u32_of(c, 1), cgroup(c, 2), float_field(c, 3), u32_of(c, 4)) {
        (Some(channel), Some(fft_type), Some(channel_width_mhz), Some(active_subcarriers)) => {
            match (float_field(c, 5), float_field(c, 6), float_field(c, 7)) {
                (Some(first), Some(last), Some(tx_power_dbmv)) => Some(
                    UpstreamOfdmRow {
                        channel,
                        fft_type,
                        channel_width_mhz,
                        active_subcarriers,
                        first_active_subcarrier_mhz: first,
                        last_active_subcarrier_mhz: last,
                        tx_power_dbmv,
                    },
                ),
                _ => None,
            }
        },
        _ => None,
    }
}

/// The downstream SC-QAM rows of the status page, in order; a row is kept when all
/// its fields are well formed.
#[verifier::rlimit(30)]
pub fn parse_downstream_qam(html: &str) -> (r: Vec<DownstreamQamRow>)
    ensures
        r@.map_values(|x: DownstreamQamRow| ds_qam_view(x)) == keep_some(
            all_in(DS_QAM_PATTERN@, html@),
            |m: (nat, nat, Seq<Option<Seq<char>>>)| ds_qam_row(m),
        ),
{
    let ms = all_of(DS_QAM_PATTERN, html);
    let ghost all = all_in(DS_QAM_PATTERN@, html@);
    let ghost f = |m: (nat, nat, Seq<Option<Seq<char>>>)| ds_qam_row(m);
    let mut r: Vec<DownstreamQamRow> = Vec::new();
    let mut i: usize = 0;
    while i < ms.len()
        invariant
            0 <= i <= ms@.len(),
            ms@.len() == all.len(),
            forall|k: int| 0 <= k < ms@.len() ==> all[k] == captured_view(#[trigger] ms@[k]),
            f == (|m: (nat, nat, Seq<Option<Seq<char>>>)| ds_qam_row(m)),
            r@.map_values(|x: DownstreamQamRow| ds_qam_view(x)) == keep_some(all.take(i as int), f),
        decreases ms.len() - i,
    {
        proof {
            lemma_keep_some_step(all, i as int, f);
        }
        assert(all[i as int] == captured_view(ms@[i as int]));
        let ghost before = r@;
        match ds_qam_of(&ms[i]) {
            Some(row) => {
                r.push(row);
                assert(r@.map_values(|x: DownstreamQamRow| ds_qam_view(x)) =~= before.map_values(
                    |x: DownstreamQamRow| ds_qam_view(x),
                ).push(ds_qam_view(r@[before.len() as int])));
            },
            None => {},
        }
        i += 1;
    }
    assert(all.take(all.len() as int) =~= all);
    r
}

/// The downstream OFDM rows of the status page, in order; a row is kept when all
/// its fields are well formed.
#[verifier::rlimit(30)]
pub fn parse_downstream_ofdm(html: &str) -> (r: Vec<DownstreamOfdmRow>)
    ensures
        r@.map_values(|x: DownstreamOfdmRow| ds_ofdm_view(x)) == keep_some(
            all_in(DS_OFDM_PATTERN@, html@),
            |m: (nat, nat, Seq<Option<Seq<char>>>)| ds_ofdm_row(m),
        ),
{
    let ms = all_of(DS_OFDM_PATTERN, html);
    let ghost all = all_in(DS_OFDM_PATTERN@, html@);
    let ghost f = |m: (nat, nat, Seq<Option<Seq<char>>>)| ds_ofdm_row(m);
    let mut r: Vec<DownstreamOfdmRow> = Vec::new();
    let mut i: usize = 0;
    while i < ms.len()
        invariant
            0 <= i <= ms@.len(),
            ms@.len() == all.len(),
            forall|k: int| 0 <= k < ms@.len() ==> all[k] == captured_view(#[trigger] ms@[k]),
            f == (|m: (nat, nat, Seq<Option<Seq<char>>>)| ds_ofdm_row(m)),
            r@.map_values(|x: DownstreamOfdmRow| ds_ofdm_view(x)) == keep_some(all.take(i as int), f),
        decreases ms.len() - i,
    {
        proof {
            lemma_keep_some_step(all, i as int, f);
        }
        assert(all[i as int] == captured_view(ms@[i as int]));
        let ghost before = r@;
        match ds_ofdm_of(&ms[i]) {
            Some(row) => {
                r.push(row);
                assert(r@.map_values(|x: DownstreamOfdmRow| ds_ofdm_view(x)) =~= before.map_values(
                    |x: DownstreamOfdmRow| ds_ofdm_view(x),
                ).push(ds_ofdm_view(r@[before.len() as int])));
            },
            None => {},
        }
        i += 1;
    }
    assert(all.take(all.len() as int) =~= all);
    r
}

/// The upstream SC-QAM rows of the status page, in order; a row is kept when all
/// its fields are well formed.
#[verifier::rlimit(30)]
pub fn parse_upstream_qam(html: &str) -> (r: Vec<UpstreamQamRow>)
    ensures
        r@.map_values(|x: UpstreamQamRow| us_qam_view(x)) == keep_some(
            all_in(US_QAM_PATTERN@, html@),
            |m: (nat, nat, Seq<Option<Seq<char>>>)| us_qam_row(m),
        ),
{
    let ms = all_of(US_QAM_PATTERN, html);
    let ghost all = all_in(US_QAM_PATTERN@, html@);
    let ghost f = |m: (nat, nat, Seq<Option<Seq<char>>>)| us_qam_row(m);
    let mut r: Vec<UpstreamQamRow> = Vec::new();
    let mut i: usize = 0;
    while i < ms.len()
        invariant
            0 <= i <= ms@.len(),
            ms@.len() == all.len(),
            forall|k: int| 0 <= k < ms@.len() ==> all[k] == captured_view(#[trigger] ms@[k]),
            f == (|m: (nat, nat, Seq<Option<Seq<char>>>)| us_qam_row(m)),
            r@.map_values(|x: UpstreamQamRow| us_qam_view(x)) == keep_some(all.take(i as int), f),
        decreases ms.len() - i,
    {
        proof {
            lemma_keep_some_step(all, i as int, f);
        }
        assert(all[i as int] == captured_view(ms@[i as int]));
        let ghost before = r@;
        match us_qam_of(&ms[i]) {
            Some(row) => {
                r.push(row);
                assert(r@.map_values(|x: UpstreamQamRow| us_qam_view(x)) =~= before.map_values(
                    |x: UpstreamQamRow| us_qam_view(x),
                ).push(us_qam_view(r@[before.len() as int])));
            },
            None => {},
        }
        i += 1;
    }
    assert(all.take(all.len() as int) =~= all);
    r
}

/// The upstream OFDMA rows of the status page, in order; a row is kept when all
/// its fields are well formed.
#[verifier::rlimit(30)]
pub fn parse_upstream_ofdm(html: &str) -> (r: Vec<UpstreamOfdmRow>)
    ensures
        r@.map_values(|x: UpstreamOfdmRow| us_ofdm_view(x)) == keep_some(
            all_in(US_OFDM_PATTERN@, html@),
            |m: (nat, nat, Seq<Option<Seq<char>>>)| us_ofdm_row(m),
        ),
{
    let ms = all_of(US_OFDM_PATTERN, html);
    let ghost all = all_in(US_OFDM_PATTERN@, html@);
    let ghost f = |m: (nat, nat, Seq<Option<Seq<char>>>)| us_ofdm_row(m);
    let mut r: Vec<UpstreamOfdmRow> = Vec::new();
    let mut i: usize = 0;
    while i < ms.len()
        invariant
            0 <= i <= ms@.len(),
            ms@.len() == all.len(),
            forall|k: int| 0 <= k < ms@.len() ==> all[k] == captured_view(#[trigger] ms@[k]),
            f == (|m: (nat, nat, Seq<Option<Seq<char>>>)| us_ofdm_row(m)),
            r@.map_values(|x: UpstreamOfdmRow| us_ofdm_view(x)) == keep_some(all.take(i as int), f),
        decreases ms.len() - i,
    {
        proof {
            lemma_keep_some_step(all, i as int, f);
        }
        assert(all[i as int] == captured_view(ms@[i as int]));
        let ghost before = r@;
        match us_ofdm_of(&ms[i]) {
            Some(row) => {
                r.push(row);
                assert(r@.map_values(|x: UpstreamOfdmRow| us_ofdm_view(x)) =~= before.map_values(
                    |x: UpstreamOfdmRow| us_ofdm_view(x),
                ).push(us_ofdm_view(r@[before.len() as int])));
            },
            None => {},
        }
        i += 1;
    }
    assert(all.take(all.len() as int) =~= all);
    r
}

/// The four channel tables of the status page.
#[derive(Debug, Clone)]
pub struct ChannelRows {
    pub downstream_qam: Vec<DownstreamQamRow>,
    pub downstream_ofdm: Vec<DownstreamOfdmRow>,
    pub upstream_qam: Vec<UpstreamQamRow>,
    pub upstream_ofdm: Vec<UpstreamOfdmRow>,
}

/// The channel tables of the status page.
pub fn parse_channels(status_html: &str) -> (r: ChannelRows)
    ensures
        r.downstream_qam@.map_values(|x: DownstreamQamRow| ds_qam_view(x)) == keep_some(
            all_in(DS_QAM_PATTERN@, status_html@),
            |m: (nat, nat, Seq<Option<Seq<char>>>)| ds_qam_row(m),
        ),
        r.downstream_ofdm@.map_values(|x: DownstreamOfdmRow| ds_ofdm_view(x)) == keep_some(
            all_in(DS_OFDM_PATTERN@, status_html@),
            |m: (nat, nat, Seq<Option<Seq<char>>>)| ds_ofdm_row(m),
        ),
        r.upstream_qam@.map_values(|x: UpstreamQamRow| us_qam_view(x)) == keep_some(
            all_in(US_QAM_PATTERN@, status_html@),
            |m: (nat, nat, Seq<Option<Seq<char>>>)| us_qam_row(m),
        ),
        r.upstream_ofdm@.map_values(|x: UpstreamOfdmRow| us_ofdm_view(x)) == keep_some(
            all_in(US_OFDM_PATTERN@, status_html@),
            |m: (nat, nat, Seq<Option<Seq<char>>>)| us_ofdm_row(m),
        ),
{
    ChannelRows {
        downstream_qam: parse_downstream_qam(status_html),
        downstream_ofdm: parse_downstream_ofdm(status_html),
        upstream_qam: parse_upstream_qam(status_html),
        upstream_ofdm: parse_upstream_ofdm(status_html),
    }
}

} // verus!
