//! The Prometheus sections of the analog channel tables.
//!
//! The measurements themselves (powers, frequencies, widths and signal
//! ratios) are floating-point values; a reading carries each of them as the
//! text it is exposed with, and the sections are laid out here.
use vstd::prelude::*;

use crate::metrics::{header, header_text, label_views, sample, sample_text};
use crate::num::{decimal, decimal_string};
use crate::text::{joined, lemma_joined_step};

verus! {

/// One downstream SC-QAM channel.
#[derive(Debug, Clone)]
pub struct DownstreamQamReading {
    pub channel: u32,
    pub dcid: u32,
    pub frequency_mhz: String,
    pub power_dbmv: String,
    pub snr_db: String,
    pub modulation: String,
    pub octets: u64,
    pub correcteds: u64,
    pub uncorrectables: u64,
}

/// One downstream OFDM channel.
#[derive(Debug, Clone)]
pub struct DownstreamOfdmReading {
    pub channel: u32,
    pub fft_type: String,
    pub channel_width_mhz: String,
    pub active_subcarriers: u32,
    pub rxmer_pilot_db: String,
    pub rxmer_plc_db: String,
    pub rxmer_data_db: String,
}

/// One upstream SC-QAM channel.
#[derive(Debug, Clone)]
pub struct UpstreamQamReading {
    pub channel: u32,
    pub ucid: u32,
    pub frequency_mhz: String,
    pub power_dbmv: String,
    pub channel_type: String,
    pub symbol_rate_ksym: String,
    pub modulation: String,
}

/// One upstream OFDMA channel.
#[derive(Debug, Clone)]
pub struct UpstreamOfdmReading {
    pub channel: u32,
    pub fft_type: String,
    pub channel_width_mhz: String,
    pub active_subcarriers: u32,
    pub first_active_subcarrier_mhz: String,
    pub last_active_subcarrier_mhz: String,
    pub tx_power_dbmv: String,
}

/// The channel tables of the status page.
#[derive(Debug, Clone)]
pub struct ChannelReadings {
    pub downstream_qam: Vec<DownstreamQamReading>,
    pub downstream_ofdm: Vec<DownstreamOfdmReading>,
    pub upstream_qam: Vec<UpstreamQamReading>,
    pub upstream_ofdm: Vec<UpstreamOfdmReading>,
}

// ---------------------------------------------------------------------------
// Downstream SC-QAM
// ---------------------------------------------------------------------------

/// Which number of a downstream SC-QAM channel a family reports.
#[derive(Debug, Clone, Copy, PartialEq, Eq, Structural)]
pub enum QamField {
    Power,
    Snr,
    Octets,
    Corrected,
    Uncorrectable,
}

/// The labels of a downstream SC-QAM level sample.
pub open spec fn ds_qam_level_labels(c: DownstreamQamReading) -> Seq<(Seq<char>, Seq<char>)> {
    seq![
        ("channel"@, decimal(c.channel as nat)),
        ("dcid"@, decimal(c.dcid as nat)),
        ("frequency_mhz"@, c.frequency_mhz@),
        ("modulation"@, c.modulation@),
    ]
}

/// The labels of a downstream SC-QAM counter sample.
pub open spec fn ds_qam_counter_labels(c: DownstreamQamReading) -> Seq<(Seq<char>, Seq<char>)> {
    seq![("channel"@, decimal(c.channel as nat)), ("dcid"@, decimal(c.dcid as nat))]
}

/// The family name of a downstream SC-QAM number.
pub open spec fn ds_qam_name(f: QamField) -> Seq<char> {
    match f {
        QamField::Power => "cm3500_downstream_qam_power_dbmv"@,
        QamField::Snr => "cm3500_downstream_qam_snr_db"@,
        QamField::Octets => "cm3500_downstream_qam_octets_total"@,
        QamField::Corrected => "cm3500_downstream_qam_corrected_total"@,
        QamField::Uncorrectable => "cm3500_downstream_qam_uncorrectable_total"@,
    }
}

/// The sample of one downstream SC-QAM channel in a family.
pub open spec fn ds_qam_sample(c: DownstreamQamReading, f: QamField) -> Seq<char> {
    match f {
        QamField::Power => sample_text(ds_qam_name(f), ds_qam_level_labels(c), c.power_dbmv@),
        QamField::Snr => sample_text(ds_qam_name(f), ds_qam_level_labels(c), c.snr_db@),
        QamField::Octets => sample_text(
            ds_qam_name(f),
            ds_qam_counter_labels(c),
            decimal(c.octets as nat),
        ),
        QamField::Corrected => sample_text(
            ds_qam_name(f),
            ds_qam_counter_labels(c),
            decimal(c.correcteds as nat),
        ),
        QamField::Uncorrectable => sample_text(
            ds_qam_name(f),
            ds_qam_counter_labels(c),
            decimal(c.uncorrectables as nat),
        ),
    }
}

/// One downstream SC-QAM family: its header, then one sample per channel.
pub open spec fn ds_qam_family(
    rows: Seq<DownstreamQamReading>,
    f: QamField,
    help: Seq<char>,
    typ: Seq<char>,
) -> Seq<char> {
    header_text(ds_qam_name(f), help, typ) + joined(
        rows,
        |c: DownstreamQamReading| ds_qam_sample(c, f),
    )
}

/// The downstream SC-QAM section: nothing without channels, else the power,
/// SNR, octet, corrected and uncorrectable families.
pub open spec fn ds_qam_text(rows: Seq<DownstreamQamReading>) -> Seq<char> {
    if rows.len() == 0 {
        Seq::empty()
    } else {
        ds_qam_family(rows, QamField::Power, "Downstream SC-QAM power level in dBmV"@, "gauge"@)
            + ds_qam_family(
            rows,
            QamField::Snr,
            "Downstream SC-QAM signal-to-noise ratio in dB"@,
            "gauge"@,
        ) + ds_qam_family(
            rows,
            QamField::Octets,
            "Total octets received on downstream SC-QAM channel"@,
            "counter"@,
        ) + ds_qam_family(
            rows,
            QamField::Corrected,
            "Total corrected errors on downstream SC-QAM channel"@,
            "counter"@,
        ) + ds_qam_family(
            rows,
            QamField::Uncorrectable,
            "Total uncorrectable errors on downstream SC-QAM channel"@,
            "counter"@,
        )
    }
}

#[verifier::rlimit(30)]
fn ds_qam_family_out(
    out: &mut String,
    rows: &[DownstreamQamReading],
    f: QamField,
    name: &str,
    help: &str,
    typ: &str,
)
    requires
        name@ == ds_qam_name(f),
    ensures
        final(out)@ == old(out)@ + ds_qam_family(rows@, f, help@, typ@),
{
    header(out, name, help, typ);
    let ghost start = out@;
    let ghost line = |c: DownstreamQamReading| ds_qam_sample(c, f);
    let mut k: usize = 0;
    while k < rows.len()
        invariant
            0 <= k <= rows@.len(),
            name@ == ds_qam_name(f),
            line == (|c: DownstreamQamReading| ds_qam_sample(c, f)),
            out@ == start + joined(rows@.take(k as int), line),
        decreases rows.len() - k,
    {
        let c = &rows[k];
        let channel = decimal_string(c.channel as u128);
        let dcid = decimal_string(c.dcid as u128);
        match f {
            QamField::Power | QamField::Snr => {
                let labels = [
                    ("channel", channel.as_str()),
                    ("dcid", dcid.as_str()),
                    ("frequency_mhz", c.frequency_mhz.as_str()),
                    ("modulation", c.modulation.as_str()),
                ];
                assert(label_views(labels@) =~= ds_qam_level_labels(*c));
                let value = match f {
                    QamField::Power => c.power_dbmv.as_str(),
                    _ => c.snr_db.as_str(),
                };
                sample(out, name, &labels, value);
            },
            _ => {
                let labels = [("channel", channel.as_str()), ("dcid", dcid.as_str())];
                assert(label_views(labels@) =~= ds_qam_counter_labels(*c));
                let n: u64 = match f {
                    QamField::Octets => c.octets,
                    QamField::Corrected => c.correcteds,
                    _ => c.uncorrectables,
                };
                let value = decimal_string(n as u128);
                sample(out, name, &labels, value.as_str());
            },
        }
        proof {
            lemma_joined_step(rows@, k as int, line);
        }
        assert(out@ =~= start + joined(rows@.take(k + 1), line));
        k += 1;
    }
    assert(rows@.take(rows@.len() as int) =~= rows@);
}

/// Writes the downstream SC-QAM section.
pub fn render_downstream_qam(out: &mut String, rows: &[DownstreamQamReading])
    ensures
        final(out)@ == old(out)@ + ds_qam_text(rows@),
{
    if rows.len() == 0 {
        assert(old(out)@ + Seq::<char>::empty() =~= old(out)@);
        return;
    }
    ds_qam_family_out(
        out,
        rows,
        QamField::Power,
        "cm3500_downstream_qam_power_dbmv",
        "Downstream SC-QAM power level in dBmV",
        "gauge",
    );
    ds_qam_family_out(
        out,
        rows,
        QamField::Snr,
        "cm3500_downstream_qam_snr_db",
        "Downstream SC-QAM signal-to-noise ratio in dB",
        "gauge",
    );
    ds_qam_family_out(
        out,
        rows,
        QamField::Octets,
        "cm3500_downstream_qam_octets_total",
        "Total octets received on downstream SC-QAM channel",
        "counter",
    );
    ds_qam_family_out(
        out,
        rows,
        QamField::Corrected,
        "cm3500_downstream_qam_corrected_total",
        "Total corrected errors on downstream SC-QAM channel",
        "counter",
    );
    ds_qam_family_out(
        out,
        rows,
        QamField::Uncorrectable,
        "cm3500_downstream_qam_uncorrectable_total",
        "Total uncorrectable errors on downstream SC-QAM channel",
        "counter",
    );
    assert(final(out)@ =~= old(out)@ + ds_qam_text(rows@));
}

// ---------------------------------------------------------------------------
// Downstream OFDM
// ---------------------------------------------------------------------------

/// Which family of the downstream OFDM section.
#[derive(Debug, Clone, Copy, PartialEq, Eq, Structural)]
pub enum DsOfdmField {
    Width,
    Active,
    Rxmer,
}

/// The family name of a downstream OFDM number.
pub open spec fn ds_ofdm_name(f: DsOfdmField) -> Seq<char> {
    match f {
        DsOfdmField::Width => "cm3500_downstream_ofdm_channel_width_mhz"@,
        DsOfdmField::Active => "cm3500_downstream_ofdm_active_subcarriers"@,
        DsOfdmField::Rxmer => "cm3500_downstream_ofdm_rxmer_db"@,
    }
}

/// The samples of one downstream OFDM channel in a family; the receive MER
/// family has a pilot, a PLC and a data sample per channel.
pub open spec fn ds_ofdm_sample(c: DownstreamOfdmReading, f: DsOfdmField) -> Seq<char> {
    let ch = ("channel"@, decimal(c.channel as nat));
    match f {
        DsOfdmField::Width => sample_text(
            ds_ofdm_name(f),
            seq![ch, ("fft_type"@, c.fft_type@)],
            c.channel_width_mhz@,
        ),
        DsOfdmField::Active => sample_text(
            ds_ofdm_name(f),
            seq![ch],
            decimal(c.active_subcarriers as nat),
        ),
        DsOfdmField::Rxmer => sample_text(
            ds_ofdm_name(f),
            seq![ch, ("measurement"@, "pilot"@)],
            c.rxmer_pilot_db@,
        ) + sample_text(ds_ofdm_name(f), seq![ch, ("measurement"@, "plc"@)], c.rxmer_plc_db@)
            + sample_text(ds_ofdm_name(f), seq![ch, ("measurement"@, "data"@)], c.rxmer_data_db@),
    }
}

/// One downstream OFDM family: its header, then the samples per channel.
pub open spec fn ds_ofdm_family(rows: Seq<DownstreamOfdmReading>, f: DsOfdmField, help: Seq<char>) -> Seq<
    char,
> {
    header_text(ds_ofdm_name(f), help, "gauge"@) + joined(
        rows,
        |c: DownstreamOfdmReading| ds_ofdm_sample(c, f),
    )
}

/// The downstream OFDM section: nothing without channels, else the width,
/// active subcarrier and receive MER families.
pub open spec fn ds_ofdm_text(rows: Seq<DownstreamOfdmReading>) -> Seq<char> {
    if rows.len() == 0 {
        Seq::empty()
    } else {
        ds_ofdm_family(rows, DsOfdmField::Width, "Downstream OFDM channel width in MHz"@)
            + ds_ofdm_family(
            rows,
            DsOfdmField::Active,
            "Number of active subcarriers on downstream OFDM channel"@,
        ) + ds_ofdm_family(
            rows,
            DsOfdmField::Rxmer,
            "Downstream OFDM receive modulation error ratio in dB"@,
        )
    }
}

#[verifier::rlimit(30)]
fn ds_ofdm_family_out(
    out: &mut String,
    rows: &[DownstreamOfdmReading],
    f: DsOfdmField,
    name: &str,
    help: &str,
)
    requires
        name@ == ds_ofdm_name(f),
    ensures
        final(out)@ == old(out)@ + ds_ofdm_family(rows@, f, help@),
{
    header(out, name, help, "gauge");
    let ghost start = out@;
    let ghost line = |c: DownstreamOfdmReading| ds_ofdm_sample(c, f);
    let mut k: usize = 0;
    while k < rows.len()
        invariant
            0 <= k <= rows@.len(),
            name@ == ds_ofdm_name(f),
            line == (|c: DownstreamOfdmReading| ds_ofdm_sample(c, f)),
            out@ == start + joined(rows@.take(k as int), line),
        decreases rows.len() - k,
    {
        let c = &rows[k];
        let ghost before = out@;
        let channel = decimal_string(c.channel as u128);
        match f {
            DsOfdmField::Width => {
                let labels = [("channel", channel.as_str()), ("fft_type", c.fft_type.as_str())];
                assert(label_views(labels@) =~= seq![
                    ("channel"@, decimal(c.channel as nat)),
                    ("fft_type"@, c.fft_type@),
                ]);
                sample(out, name, &labels, c.channel_width_mhz.as_str());
            },
            DsOfdmField::Active => {
                let labels = [("channel", channel.as_str())];
                assert(label_views(labels@) =~= seq![("channel"@, decimal(c.channel as nat))]);
                let value = decimal_string(c.active_subcarriers as u128);
                sample(out, name, &labels, value.as_str());
            },
            DsOfdmField::Rxmer => {
                let l1 = [("channel", channel.as_str()), ("measurement", "pilot")];
                assert(label_views(l1@) =~= seq![
                    ("channel"@, decimal(c.channel as nat)),
                    ("measurement"@, "pilot"@),
                ]);
                sample(out, name, &l1, c.rxmer_pilot_db.as_str());
                let l2 = [("channel", channel.as_str()), ("measurement", "plc")];
                assert(label_views(l2@) =~= seq![
                    ("channel"@, decimal(c.channel as nat)),
                    ("measurement"@, "plc"@),
                ]);
                sample(out, name, &l2, c.rxmer_plc_db.as_str());
                let l3 = [("channel", channel.as_str()), ("measurement", "data")];
                assert(label_views(l3@) =~= seq![
                    ("channel"@, decimal(c.channel as nat)),
                    ("measurement"@, "data"@),
                ]);
                sample(out, name, &l3, c.rxmer_data_db.as_str());
            },
        }
        assert(out@ =~= before + ds_ofdm_sample(*c, f));
        proof {
            lemma_joined_step(rows@, k as int, line);
        }
        assert(out@ =~= start + joined(rows@.take(k + 1), line));
        k += 1;
    }
    assert(rows@.take(rows@.len() as int) =~= rows@);
}

/// Writes the downstream OFDM section.
pub fn render_downstream_ofdm(out: &mut String, rows: &[DownstreamOfdmReading])
    ensures
        final(out)@ == old(out)@ + ds_ofdm_text(rows@),
{
    if rows.len() == 0 {
        assert(old(out)@ + Seq::<char>::empty() =~= old(out)@);
        return;
    }
    ds_ofdm_family_out(
        out,
        rows,
        DsOfdmField::Width,
        "cm3500_downstream_ofdm_channel_width_mhz",
        "Downstream OFDM channel width in MHz",
    );
    ds_ofdm_family_out(
        out,
        rows,
        DsOfdmField::Active,
        "cm3500_downstream_ofdm_active_subcarriers",
        "Number of active subcarriers on downstream OFDM channel",
    );
    ds_ofdm_family_out(
        out,
        rows,
        DsOfdmField::Rxmer,
        "cm3500_downstream_ofdm_rxmer_db",
        "Downstream OFDM receive modulation error ratio in dB",
    );
    assert(final(out)@ =~= old(out)@ + ds_ofdm_text(rows@));
}

// ---------------------------------------------------------------------------
// Upstream SC-QAM
// ---------------------------------------------------------------------------

/// The power sample of one upstream SC-QAM channel.
pub open spec fn us_qam_power_sample(c: UpstreamQamReading) -> Seq<char> {
    sample_text(
        "cm3500_upstream_qam_power_dbmv"@,
        seq![
            ("channel"@, decimal(c.channel as nat)),
            ("ucid"@, decimal(c.ucid as nat)),
            ("frequency_mhz"@, c.frequency_mhz@),
            ("modulation"@, c.modulation@),
            ("channel_type"@, c.channel_type@),
        ],
        c.power_dbmv@,
    )
}

/// The symbol-rate sample of one upstream SC-QAM channel.
pub open spec fn us_qam_rate_sample(c: UpstreamQamReading) -> Seq<char> {
    sample_text(
        "cm3500_upstream_qam_symbol_rate_ksym"@,
        seq![("channel"@, decimal(c.channel as nat)), ("ucid"@, decimal(c.ucid as nat))],
        c.symbol_rate_ksym@,
    )
}

/// The upstream SC-QAM section: nothing without channels, else the power
/// and symbol-rate families.
pub open spec fn us_qam_text(rows: Seq<UpstreamQamReading>) -> Seq<char> {
    if rows.len() == 0 {
        Seq::empty()
    } else {
        header_text(
            "cm3500_upstream_qam_power_dbmv"@,
            "Upstream SC-QAM transmit power in dBmV"@,
            "gauge"@,
        ) + joined(rows, |c: UpstreamQamReading| us_qam_power_sample(c)) + header_text(
            "cm3500_upstream_qam_symbol_rate_ksym"@,
            "Upstream SC-QAM symbol rate in kSym/s"@,
            "gauge"@,
        ) + joined(rows, |c: UpstreamQamReading| us_qam_rate_sample(c))
    }
}

/// Writes the upstream SC-QAM section.
#[verifier::rlimit(30)]
pub fn render_upstream_qam(out: &mut String, rows: &[UpstreamQamReading])
    ensures
        final(out)@ == old(out)@ + us_qam_text(rows@),
{
    if rows.len() == 0 {
        assert(old(out)@ + Seq::<char>::empty() =~= old(out)@);
        return;
    }
    header(out, "cm3500_upstream_qam_power_dbmv", "Upstream SC-QAM transmit power in dBmV", "gauge");
    let ghost start = out@;
    let mut k: usize = 0;
    while k < rows.len()
        invariant
            0 <= k <= rows@.len(),
            out@ == start + joined(rows@.take(k as int), |c: UpstreamQamReading| us_qam_power_sample(c)),
        decreases rows.len() - k,
    {
        let c = &rows[k];
        let channel = decimal_string(c.channel as u128);
        let ucid = decimal_string(c.ucid as u128);
        let labels = [
            ("channel", channel.as_str()),
            ("ucid", ucid.as_str()),
            ("frequency_mhz", c.frequency_mhz.as_str()),
            ("modulation", c.modulation.as_str()),
            ("channel_type", c.channel_type.as_str()),
        ];
        assert(label_views(labels@) =~= seq![
            ("channel"@, decimal(c.channel as nat)),
            ("ucid"@, decimal(c.ucid as nat)),
            ("frequency_mhz"@, c.frequency_mhz@),
            ("modulation"@, c.modulation@),
            ("channel_type"@, c.channel_type@),
        ]);
        sample(out, "cm3500_upstream_qam_power_dbmv", &labels, c.power_dbmv.as_str());
        proof {
            lemma_joined_step(rows@, k as int, |c: UpstreamQamReading| us_qam_power_sample(c));
        }
        assert(out@ =~= start + joined(rows@.take(k + 1), |c: UpstreamQamReading| us_qam_power_sample(c)));
        k += 1;
    }
    assert(rows@.take(rows@.len() as int) =~= rows@);
    header(out, "cm3500_upstream_qam_symbol_rate_ksym", "Upstream SC-QAM symbol rate in kSym/s", "gauge");
    let ghost start2 = out@;
    let mut k: usize = 0;
    while k < rows.len()
        invariant
            0 <= k <= rows@.len(),
            out@ == start2 + joined(rows@.take(k as int), |c: UpstreamQamReading| us_qam_rate_sample(c)),
        decreases rows.len() - k,
    {
        let c = &rows[k];
        let channel = decimal_string(c.channel as u128);
        let ucid = decimal_string(c.ucid as u128);
        let labels = [("channel", channel.as_str()), ("ucid", ucid.as_str())];
        assert(label_views(labels@) =~= seq![
            ("channel"@, decimal(c.channel as nat)),
            ("ucid"@, decimal(c.ucid as nat)),
        ]);
        sample(out, "cm3500_upstream_qam_symbol_rate_ksym", &labels, c.symbol_rate_ksym.as_str());
        proof {
            lemma_joined_step(rows@, k as int, |c: UpstreamQamReading| us_qam_rate_sample(c));
        }
        assert(out@ =~= start2 + joined(rows@.take(k + 1), |c: UpstreamQamReading| us_qam_rate_sample(c)));
        k += 1;
    }
    assert(rows@.take(rows@.len() as int) =~= rows@);
    assert(final(out)@ =~= old(out)@ + us_qam_text(rows@));
}

// ---------------------------------------------------------------------------
// Upstream OFDMA
// ---------------------------------------------------------------------------

/// Which family of the upstream OFDMA section.
#[derive(Debug, Clone, Copy, PartialEq, Eq, Structural)]
pub enum UsOfdmField {
    TxPower,
    Width,
    Active,
    Range,
}

/// The family name of an upstream OFDMA number.
pub open spec fn us_ofdm_name(f: UsOfdmField) -> Seq<char> {
    match f {
        UsOfdmField::TxPower => "cm3500_upstream_ofdma_tx_power_dbmv"@,
        UsOfdmField::Width => "cm3500_upstream_ofdma_channel_width_mhz"@,
        UsOfdmField::Active => "cm3500_upstream_ofdma_active_subcarriers"@,
        UsOfdmField::Range => "cm3500_upstream_ofdma_active_subcarrier_range_mhz"@,
    }
}

/// The samples of one upstream OFDMA channel in a family; the subcarrier
/// range family has a first and a last sample per channel.
pub open spec fn us_ofdm_sample(c: UpstreamOfdmReading, f: UsOfdmField) -> Seq<char> {
    let ch = ("channel"@, decimal(c.channel as nat));
    match f {
        UsOfdmField::TxPower => sample_text(
            us_ofdm_name(f),
            seq![ch, ("fft_type"@, c.fft_type@)],
            c.tx_power_dbmv@,
        ),
        UsOfdmField::Width => sample_text(us_ofdm_name(f), seq![ch], c.channel_width_mhz@),
        UsOfdmField::Active => sample_text(
            us_ofdm_name(f),
            seq![ch],
            decimal(c.active_subcarriers as nat),
        ),
        UsOfdmField::Range => sample_text(
            us_ofdm_name(f),
            seq![ch, ("edge"@, "first"@)],
            c.first_active_subcarrier_mhz@,
        ) + sample_text(
            us_ofdm_name(f),
            seq![ch, ("edge"@, "last"@)],
            c.last_active_subcarrier_mhz@,
        ),
    }
}

/// One upstream OFDMA family: its header, then the samples per channel.
pub open spec fn us_ofdm_family(rows: Seq<UpstreamOfdmReading>, f: UsOfdmField, help: Seq<char>) -> Seq<
    char,
> {
    header_text(us_ofdm_name(f), help, "gauge"@) + joined(
        rows,
        |c: UpstreamOfdmReading| us_ofdm_sample(c, f),
    )
}

/// The upstream OFDMA section: nothing without channels, else the transmit
/// power, width, active subcarrier and subcarrier range families.
pub open spec fn us_ofdm_text(rows: Seq<UpstreamOfdmReading>) -> Seq<char> {
    if rows.len() == 0 {
        Seq::empty()
    } else {
        us_ofdm_family(rows, UsOfdmField::TxPower, "Upstream OFDMA transmit power in dBmV"@)
            + us_ofdm_family(rows, UsOfdmField::Width, "Upstream OFDMA channel width in MHz"@)
            + us_ofdm_family(
            rows,
            UsOfdmField::Active,
            "Number of active subcarriers on upstream OFDMA channel"@,
        ) + us_ofdm_family(
            rows,
            UsOfdmField::Range,
            "First and last active upstream OFDMA subcarrier positions in MHz"@,
        )
    }
}

#[verifier::rlimit(30)]
fn us_ofdm_family_out(
    out: &mut String,
    rows: &[UpstreamOfdmReading],
    f: UsOfdmField,
    name: &str,
    help: &str,
)
    requires
        name@ == us_ofdm_name(f),
    ensures
        final(out)@ == old(out)@ + us_ofdm_family(rows@, f, help@),
{
    header(out, name, help, "gauge");
    let ghost start = out@;
    let ghost line = |c: UpstreamOfdmReading| us_ofdm_sample(c, f);
    let mut k: usize = 0;
    while k < rows.len()
        invariant
            0 <= k <= rows@.len(),
            name@ == us_ofdm_name(f),
            line == (|c: UpstreamOfdmReading| us_ofdm_sample(c, f)),
            out@ == start + joined(rows@.take(k as int), line),
        decreases rows.len() - k,
    {
        let c = &rows[k];
        let ghost before = out@;
        let channel = decimal_string(c.channel as u128);
        match f {
            UsOfdmField::TxPower => {
                let labels = [("channel", channel.as_str()), ("fft_type", c.fft_type.as_str())];
                assert(label_views(labels@) =~= seq![
                    ("channel"@, decimal(c.channel as nat)),
                    ("fft_type"@, c.fft_type@),
                ]);
                sample(out, name, &labels, c.tx_power_dbmv.as_str());
            },
            UsOfdmField::Width => {
                let labels = [("channel", channel.as_str())];
                assert(label_views(labels@) =~= seq![("channel"@, decimal(c.channel as nat))]);
                sample(out, name, &labels, c.channel_width_mhz.as_str());
            },
            UsOfdmField::Active => {
                let labels = [("channel", channel.as_str())];
                assert(label_views(labels@) =~= seq![("channel"@, decimal(c.channel as nat))]);
                let value = decimal_string(c.active_subcarriers as u128);
                sample(out, name, &labels, value.as_str());
            },
            UsOfdmField::Range => {
                let l1 = [("channel", channel.as_str()), ("edge", "first")];
                assert(label_views(l1@) =~= seq![
                    ("channel"@, decimal(c.channel as nat)),
                    ("edge"@, "first"@),
                ]);
                sample(out, name, &l1, c.first_active_subcarrier_mhz.as_str());
                let l2 = [("channel", channel.as_str()), ("edge", "last")];
                assert(label_views(l2@) =~= seq![
                    ("channel"@, decimal(c.channel as nat)),
                    ("edge"@, "last"@),
                ]);
                sample(out, name, &l2, c.last_active_subcarrier_mhz.as_str());
            },
        }
        assert(out@ =~= before + us_ofdm_sample(*c, f));
        proof {
            lemma_joined_step(rows@, k as int, line);
        }
        assert(out@ =~= start + joined(rows@.take(k + 1), line));
        k += 1;
    }
    assert(rows@.take(rows@.len() as int) =~= rows@);
}

/// Writes the upstream OFDMA section.
pub fn render_upstream_ofdm(out: &mut String, rows: &[UpstreamOfdmReading])
    ensures
        final(out)@ == old(out)@ + us_ofdm_text(rows@),
{
    if rows.len() == 0 {
        assert(old(out)@ + Seq::<char>::empty() =~= old(out)@);
        return;
    }
    us_ofdm_family_out(
        out,
        rows,
        UsOfdmField::TxPower,
        "cm3500_upstream_ofdma_tx_power_dbmv",
        "Upstream OFDMA transmit power in dBmV",
    );
    us_ofdm_family_out(
        out,
        rows,
        UsOfdmField::Width,
        "cm3500_upstream_ofdma_channel_width_mhz",
        "Upstream OFDMA channel width in MHz",
    );
    us_ofdm_family_out(
        out,
        rows,
        UsOfdmField::Active,
        "cm3500_upstream_ofdma_active_subcarriers",
        "Number of active subcarriers on upstream OFDMA channel",
    );
    us_ofdm_family_out(
        out,
        rows,
        UsOfdmField::Range,
        "cm3500_upstream_ofdma_active_subcarrier_range_mhz",
        "First and last active upstream OFDMA subcarrier positions in MHz",
    );
    assert(final(out)@ =~= old(out)@ + us_ofdm_text(rows@));
}

/// All channel sections: downstream SC-QAM, downstream OFDM, upstream
/// SC-QAM, then upstream OFDMA.
pub open spec fn channels_text(c: ChannelReadings) -> Seq<char> {
    ds_qam_text(c.downstream_qam@) + ds_ofdm_text(c.downstream_ofdm@) + us_qam_text(
        c.upstream_qam@,
    ) + us_ofdm_text(c.upstream_ofdm@)
}

/// Writes all channel sections.
#[verifier::rlimit(30)]
pub fn render_channels(out: &mut String, c: &ChannelReadings)
    ensures
        final(out)@ == old(out)@ + channels_text(*c),
{
    render_downstream_qam(out, c.downstream_qam.as_slice());
    render_downstream_ofdm(out, c.downstream_ofdm.as_slice());
    render_upstream_qam(out, c.upstream_qam.as_slice());
    render_upstream_ofdm(out, c.upstream_ofdm.as_slice());
    assert(final(out)@ =~= old(out)@ + channels_text(*c));
}

} // verus!
