//! The Prometheus section of the spectrum scan.
//!
//! Bin powers, power summaries and frequencies are floating-point values; a
//! reading carries each of them as the text it is exposed with, and the
//! section is laid out here.
use vstd::prelude::*;

use crate::metrics::{header, header_text, label_views, metric, metric_text, sample, sample_text};
use crate::num::{decimal, decimal_string};
use crate::text::{joined, lemma_joined_step};

verus! {

/// One bin of a spectrum scan chunk: its power and frequency as exposed.
#[derive(Debug, Clone)]
pub struct SpectrumBinReading {
    pub power_dbmv: String,
    pub frequency_mhz: String,
}

/// One chunk of a spectrum scan: its number, centre frequency, power
/// summary and metadata as exposed, and its bins in order.
#[derive(Debug, Clone)]
pub struct SpectrumReading {
    pub chunk: u32,
    pub center_mhz: String,
    pub min_dbmv: String,
    pub avg_dbmv: String,
    pub max_dbmv: String,
    pub span_hz: String,
    pub bin_spacing_hz: String,
    pub resolution_bandwidth: String,
    pub bins: Vec<SpectrumBinReading>,
}

/// A spectrum sample labelled with the chunk, its centre and one more label.
pub open spec fn chunk_sample(
    name: Seq<char>,
    r: SpectrumReading,
    key: Seq<char>,
    kind: Seq<char>,
    value: Seq<char>,
) -> Seq<char> {
    sample_text(
        name,
        seq![("chunk"@, decimal(r.chunk as nat)), ("center_mhz"@, r.center_mhz@), (key, kind)],
        value,
    )
}

/// The power sample of one bin.
pub open spec fn bin_sample(r: SpectrumReading, i: int) -> Seq<char> {
    sample_text(
        "cm3500_spectrum_bin_power_dbmv"@,
        seq![
            ("chunk"@, decimal(r.chunk as nat)),
            ("bin"@, decimal(i as nat)),
            ("frequency_mhz"@, r.bins@[i].frequency_mhz@),
        ],
        r.bins@[i].power_dbmv@,
    )
}

/// The samples of one chunk: nothing for a chunk without bins; else the
/// minimum, average and maximum power, the span, bin spacing and resolution
/// bandwidth, then the power of each bin.
pub open spec fn chunk_text(r: SpectrumReading) -> Seq<char> {
    if r.bins@.len() == 0 {
        Seq::empty()
    } else {
        let p = "cm3500_spectrum_chunk_power_dbmv"@;
        let m = "cm3500_spectrum_chunk_metadata"@;
        chunk_sample(p, r, "stat"@, "min"@, r.min_dbmv@) + chunk_sample(
            p,
            r,
            "stat"@,
            "avg"@,
            r.avg_dbmv@,
        ) + chunk_sample(p, r, "stat"@, "max"@, r.max_dbmv@) + chunk_sample(
            m,
            r,
            "kind"@,
            "span_hz"@,
            r.span_hz@,
        ) + chunk_sample(m, r, "kind"@, "bin_spacing_hz"@, r.bin_spacing_hz@) + chunk_sample(
            m,
            r,
            "kind"@,
            "resolution_bandwidth"@,
            r.resolution_bandwidth@,
        ) + joined(
            Seq::new(r.bins@.len(), |i: int| bin_sample(r, i)),
            |t: Seq<char>| t,
        )
    }
}

/// The spectrum section: nothing without chunks; else the chunk count, the
/// three family headers, then the samples of each chunk.
pub open spec fn spectrum_text(rs: Seq<SpectrumReading>) -> Seq<char> {
    if rs.len() == 0 {
        Seq::empty()
    } else {
        metric_text(
            "cm3500_spectrum_chunks"@,
            "Number of spectrum scan chunks returned by the modem"@,
            "gauge"@,
            decimal(rs.len()),
        ) + header_text(
            "cm3500_spectrum_chunk_power_dbmv"@,
            "Spectrum scan chunk power summary in dBmV"@,
            "gauge"@,
        ) + header_text(
            "cm3500_spectrum_chunk_metadata"@,
            "Spectrum scan chunk metadata"@,
            "gauge"@,
        ) + header_text(
            "cm3500_spectrum_bin_power_dbmv"@,
            "Spectrum scan bin power in dBmV"@,
            "gauge"@,
        ) + joined(rs, |r: SpectrumReading| chunk_text(r))
    }
}

fn chunk_sample_out(
    out: &mut String,
    name: &str,
    r: &SpectrumReading,
    chunk: &str,
    key: &str,
    kind: &str,
    value: &str,
)
    requires
        chunk@ == decimal(r.chunk as nat),
    ensures
        final(out)@ == old(out)@ + chunk_sample(name@, *r, key@, kind@, value@),
{
    let labels = [("chunk", chunk), ("center_mhz", r.center_mhz.as_str()), (key, kind)];
    assert(label_views(labels@) =~= seq![
        ("chunk"@, decimal(r.chunk as nat)),
        ("center_mhz"@, r.center_mhz@),
        (key@, kind@),
    ]);
    sample(out, name, &labels, value);
}

#[verifier::rlimit(40)]
fn chunk_out(out: &mut String, r: &SpectrumReading)
    ensures
        final(out)@ == old(out)@ + chunk_text(*r),
{
    if r.bins.len() == 0 {
        assert(old(out)@ + Seq::<char>::empty() =~= old(out)@);
        return;
    }
    let chunk = decimal_string(r.chunk as u128);
    let p = "cm3500_spectrum_chunk_power_dbmv";
    let m = "cm3500_spectrum_chunk_metadata";
    chunk_sample_out(out, p, r, chunk.as_str(), "stat", "min", r.min_dbmv.as_str());
    chunk_sample_out(out, p, r, chunk.as_str(), "stat", "avg", r.avg_dbmv.as_str());
    chunk_sample_out(out, p, r, chunk.as_str(), "stat", "max", r.max_dbmv.as_str());
    chunk_sample_out(out, m, r, chunk.as_str(), "kind", "span_hz", r.span_hz.as_str());
    chunk_sample_out(out, m, r, chunk.as_str(), "kind", "bin_spacing_hz", r.bin_spacing_hz.as_str());
    chunk_sample_out(
        out,
        m,
        r,
        chunk.as_str(),
        "kind",
        "resolution_bandwidth",
        r.resolution_bandwidth.as_str(),
    );
    let ghost start = out@;
    let ghost texts = Seq::new(r.bins@.len(), |i: int| bin_sample(*r, i));
    let ghost id = |t: Seq<char>| t;
    let mut i: usize = 0;
    while i < r.bins.len()
        invariant
            0 <= i <= r.bins@.len(),
            chunk@ == decimal(r.chunk as nat),
            texts == Seq::new(r.bins@.len(), |j: int| bin_sample(*r, j)),
            id == (|t: Seq<char>| t),
            out@ == start + joined(texts.take(i as int), id),
        decreases r.bins.len() - i,
    {
        let idx = decimal_string(i as u128);
        let b = &r.bins[i];
        let labels = [
            ("chunk", chunk.as_str()),
            ("bin", idx.as_str()),
            ("frequency_mhz", b.frequency_mhz.as_str()),
        ];
        assert(label_views(labels@) =~= seq![
            ("chunk"@, decimal(r.chunk as nat)),
            ("bin"@, decimal(i as nat)),
            ("frequency_mhz"@, r.bins@[i as int].frequency_mhz@),
        ]);
        sample(out, "cm3500_spectrum_bin_power_dbmv", &labels, b.power_dbmv.as_str());
        proof {
            lemma_joined_step(texts, i as int, id);
        }
        assert(out@ =~= start + joined(texts.take(i + 1), id));
        i += 1;
    }
    assert(texts.take(texts.len() as int) =~= texts);
    assert(final(out)@ =~= old(out)@ + chunk_text(*r));
}

/// Writes the spectrum section.
pub fn render_spectrum(out: &mut String, rs: &[SpectrumReading])
    ensures
        final(out)@ == old(out)@ + spectrum_text(rs@),
{
    if rs.len() == 0 {
        assert(old(out)@ + Seq::<char>::empty() =~= old(out)@);
        return;
    }
    let n = decimal_string(rs.len() as u128);
    metric(
        out,
        "cm3500_spectrum_chunks",
        "Number of spectrum scan chunks returned by the modem",
        "gauge",
        n.as_str(),
    );
    header(
        out,
        "cm3500_spectrum_chunk_power_dbmv",
        "Spectrum scan chunk power summary in dBmV",
        "gauge",
    );
    header(out, "cm3500_spectrum_chunk_metadata", "Spectrum scan chunk metadata", "gauge");
    header(out, "cm3500_spectrum_bin_power_dbmv", "Spectrum scan bin power in dBmV", "gauge");
    let ghost start = out@;
    let mut k: usize = 0;
    while k < rs.len()
        invariant
            0 <= k <= rs@.len(),
            out@ == start + joined(rs@.take(k as int), |r: SpectrumReading| chunk_text(r)),
        decreases rs.len() - k,
    {
        chunk_out(out, &rs[k]);
        proof {
            lemma_joined_step(rs@, k as int, |r: SpectrumReading| chunk_text(r));
        }
        assert(out@ =~= start + joined(rs@.take(k + 1), |r: SpectrumReading| chunk_text(r)));
        k += 1;
    }
    assert(rs@.take(rs@.len() as int) =~= rs@);
    assert(final(out)@ =~= old(out)@ + spectrum_text(rs@));
}

} // verus!
