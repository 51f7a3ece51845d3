//! The spectrum scan response: a `spectrum_data = [...]` list of quoted
//! hexadecimal strings, one per chunk.
//!
//! A chunk string holds five 32-bit big-endian words (centre frequency in
//! Hz, span in Hz, number of bins, bin spacing in Hz, resolution
//! bandwidth), then one signed 16-bit big-endian power per bin, in tenths of
//! a dBmV.
use vstd::prelude::*;

use crate::parser::{all_in, all_of, cgroup, grp, group_in, group_of, SpectrumChunk};
use crate::pattern::captured_view;
use crate::text::{chars_of, keep_some, lemma_keep_some_step};

verus! {

pub const SPECTRUM_LIST_PATTERN: &'static str = r"spectrum_data\s*=\s*\[([^\]]*)\]";

pub const SPECTRUM_ITEM_PATTERN: &'static str = r#""([0-9A-Fa-f]*)""#;

/// Whether `c` is a hexadecimal digit.
pub open spec fn is_hex(c: char) -> bool {
    ('0' <= c && c <= '9') || ('a' <= c && c <= 'f') || ('A' <= c && c <= 'F')
}

/// The value of a hexadecimal digit.
pub open spec fn hex_val(c: char) -> nat {
    if '0' <= c && c <= '9' {
        ((c as int) - 48) as nat
    } else if 'a' <= c && c <= 'f' {
        ((c as int) - 87) as nat
    } else {
        ((c as int) - 55) as nat
    }
}

/// The big-endian value of a run of hexadecimal digits.
pub open spec fn hex_num(s: Seq<char>) -> nat
    decreases s.len(),
{
    if s.len() == 0 {
        0
    } else {
        hex_num(s.drop_last()) * 16 + hex_val(s.last())
    }
}

/// `16` to the power `n`.
pub open spec fn pow16(n: nat) -> nat
    decreases n,
{
    if n == 0 {
        1
    } else {
        16 * pow16((n - 1) as nat)
    }
}

/// Every character is a hexadecimal digit.
pub open spec fn all_hex(s: Seq<char>) -> bool {
    forall|i: int| 0 <= i < s.len() ==> is_hex(#[trigger] s[i])
}

/// The `k`-th 32-bit word of a chunk string.
pub open spec fn word(s: Seq<char>, k: int) -> nat {
    hex_num(s.subrange(8 * k, 8 * k + 8))
}

/// A 16-bit two's-complement value.
pub open spec fn signed16(v: nat) -> i32 {
    if v >= 32768 {
        (v - 65536) as i32
    } else {
        v as i32
    }
}

/// The power of bin `j` of a chunk string.
pub open spec fn bin_value(s: Seq<char>, j: int) -> i32 {
    signed16(hex_num(s.subrange(40 + 4 * j, 44 + 4 * j)))
}

/// The abstract content of a chunk: its number, centre, span, bin spacing,
/// resolution bandwidth and bin powers.
pub open spec fn chunk_view(c: SpectrumChunk) -> (u32, i64, i64, i64, u32, Seq<i32>) {
    (
        c.chunk,
        c.center_freq_hz,
        c.span_hz,
        c.bin_spacing_hz,
        c.resolution_bandwidth,
        c.bins_raw_tenth_dbmv@,
    )
}

/// The chunk that a string in position `index` of the list decodes to: none
/// unless it is all hexadecimal digits, holds the five words, and holds as
/// many bins as its third word says (further digits are ignored).
pub open spec fn decode_chunk(s: Seq<char>, index: int) -> Option<(u32, i64, i64, i64, u32, Seq<i32>)> {
    if all_hex(s) && s.len() >= 40 && s.len() >= 40 + 4 * word(s, 2) {
        Some(
            (
                index as u32,
                word(s, 0) as i64,
                word(s, 1) as i64,
                word(s, 3) as i64,
                word(s, 4) as u32,
                Seq::new(word(s, 2), |j: int| bin_value(s, j)),
            ),
        )
    } else {
        None
    }
}

/// The chunk of an item match of the list, numbered by its position.
pub open spec fn item_chunk(p: (int, (nat, nat, Seq<Option<Seq<char>>>))) -> Option<
    (u32, i64, i64, i64, u32, Seq<i32>),
> {
    match grp(p.1, 1) {
        Some(t) => decode_chunk(t, p.0),
        None => None,
    }
}

/// The chunks of a spectrum response: the strings of its `spectrum_data`
/// list that decode, in order; none without a list.
pub open spec fn spectrum_chunks(html: Seq<char>) -> Seq<(u32, i64, i64, i64, u32, Seq<i32>)> {
    match group_in(SPECTRUM_LIST_PATTERN@, html, 1) {
        Some(list) => {
            let items = all_in(SPECTRUM_ITEM_PATTERN@, list);
            keep_some(
                Seq::new(items.len(), |i: int| (i, items[i])),
                |p: (int, (nat, nat, Seq<Option<Seq<char>>>))| item_chunk(p),
            )
        },
        None => Seq::empty(),
    }
}

proof fn lemma_hex_bound(s: Seq<char>)
    requires
        all_hex(s),
    ensures
        hex_num(s) < pow16(s.len()),
    decreases s.len(),
{
    if s.len() > 0 {
        assert(all_hex(s.drop_last())) by {
            assert forall|i: int| 0 <= i < s.drop_last().len() implies is_hex(
                #[trigger] s.drop_last()[i],
            ) by {
                assert(s.drop_last()[i] == s[i]);
            }
        }
        lemma_hex_bound(s.drop_last());
        assert(is_hex(s[s.len() - 1]));
        assert(hex_val(s.last()) < 16);
    }
}

proof fn lemma_pow16_mono(a: nat, b: nat)
    requires
        a <= b,
    ensures
        pow16(a) <= pow16(b),
    decreases b,
{
    if a < b {
        lemma_pow16_mono(a, (b - 1) as nat);
    }
}

proof fn lemma_pow16_values()
    ensures
        pow16(4) == 65536,
        pow16(8) == 4294967296,
{
    reveal_with_fuel(pow16, 9);
}

fn hex_number(chars: &Vec<char>, from: usize, to: usize) -> (r: u64)
    requires
        from <= to <= chars@.len(),
        to - from <= 8,
        all_hex(chars@.subrange(from as int, to as int)),
    ensures
        r == hex_num(chars@.subrange(from as int, to as int)),
        r < pow16((to - from) as nat),
{
    let mut acc: u64 = 0;
    let mut i = from;
    proof {
        lemma_pow16_values();
        lemma_pow16_mono((to - from) as nat, 8);
    }
    while i < to
        invariant
            from <= i <= to <= chars@.len(),
            to - from <= 8,
            all_hex(chars@.subrange(from as int, to as int)),
            acc == hex_num(chars@.subrange(from as int, i as int)),
            pow16(8) == 4294967296,
        decreases to - i,
    {
        let ghost pre = chars@.subrange(from as int, i as int);
        let ghost next = chars@.subrange(from as int, i + 1);
        assert(next.drop_last() =~= pre);
        assert(all_hex(pre)) by {
            assert forall|k: int| 0 <= k < pre.len() implies is_hex(#[trigger] pre[k]) by {
                assert(pre[k] == chars@.subrange(from as int, to as int)[k]);
            }
        }
        proof {
            lemma_hex_bound(pre);
            lemma_pow16_mono(pre.len(), 8);
        }
        let c = chars[i];
        assert(c == chars@.subrange(from as int, to as int)[i - from]);
        let d: u64 = if '0' <= c && c <= '9' {
            (c as u64) - 48
        } else if 'a' <= c && c <= 'f' {
            (c as u64) - 87
        } else {
            (c as u64) - 55
        };
        assert(next.last() == c);
        acc = acc * 16 + d;
        i += 1;
    }
    proof {
        lemma_hex_bound(chars@.subrange(from as int, to as int));
    }
    acc
}

fn decode(chars: &Vec<char>, index: usize) -> (r: Option<SpectrumChunk>)
    ensures
        match decode_chunk(chars@, index as int) {
            Some(v) => r matches Some(c) && chunk_view(c) == v,
            None => r is None,
        },
{
    let n = chars.len();
    let mut k: usize = 0;
    while k < n
        invariant
            0 <= k <= n,
            n == chars@.len(),
            forall|j: int| 0 <= j < k ==> is_hex(#[trigger] chars@[j]),
        decreases n - k,
    {
        let c = chars[k];
        if !(('0' <= c && c <= '9') || ('a' <= c && c <= 'f') || ('A' <= c && c <= 'F')) {
            assert(!all_hex(chars@));
            return None;
        }
        k += 1;
    }
    assert(all_hex(chars@));
    if n < 40 {
        return None;
    }
    proof {
        lemma_pow16_values();
        assert forall|a: int, b: int| 0 <= a <= b <= n implies all_hex(
            #[trigger] chars@.subrange(a, b),
        ) by {
            assert forall|i: int| 0 <= i < b - a implies is_hex(#[trigger] chars@.subrange(a, b)[i]) by {
                assert(chars@.subrange(a, b)[i] == chars@[a + i]);
            }
        }
    }
    let center = hex_number(chars, 0, 8);
    let span = hex_number(chars, 8, 16);
    let count = hex_number(chars, 16, 24);
    let spacing = hex_number(chars, 24, 32);
    let rbw = hex_number(chars, 32, 40);
    assert(word(chars@, 2) == count);
    if (n as u128) < 40 + 4 * (count as u128) {
        return None;
    }
    let ghost s = chars@;
    let mut bins: Vec<i32> = Vec::new();
    let mut j: usize = 0;
    while (j as u64) < count
        invariant
            s == chars@,
            n == chars@.len(),
            40 + 4 * count <= n,
            count == word(s, 2),
            j <= count,
            bins@ == Seq::new(j as nat, |t: int| bin_value(s, t)),
            forall|a: int, b: int| 0 <= a <= b <= n ==> all_hex(#[trigger] s.subrange(a, b)),
            pow16(4) == 65536,
        decreases count - j,
    {
        let from = 40 + 4 * j;
        let v = hex_number(chars, from, from + 4);
        let b: i32 = if v >= 32768 {
            (v as i32) - 65536
        } else {
            v as i32
        };
        bins.push(b);
        assert(bins@ =~= Seq::new((j + 1) as nat, |t: int| bin_value(s, t)));
        j += 1;
    }
    let r = SpectrumChunk {
        chunk: #[verifier::truncate] (index as u32),
        center_freq_hz: center as i64,
        span_hz: span as i64,
        bin_spacing_hz: spacing as i64,
        resolution_bandwidth: rbw as u32,
        bins_raw_tenth_dbmv: bins,
    };
    assert(chunk_view(r) == decode_chunk(chars@, index as int)->0);
    Some(r)
}

/// The chunks of a spectrum scan response.
#[verifier::rlimit(30)]
pub fn parse_spectrum(html: &str) -> (r: Vec<SpectrumChunk>)
    ensures
        r@.map_values(|c: SpectrumChunk| chunk_view(c)) == spectrum_chunks(html@),
{
    let list = match group_of(SPECTRUM_LIST_PATTERN, html, 1) {
        Some(l) => l,
        None => {
            let r: Vec<SpectrumChunk> = Vec::new();
            assert(r@.map_values(|c: SpectrumChunk| chunk_view(c)) =~= spectrum_chunks(html@));
            return r;
        },
    };
    let ms = all_of(SPECTRUM_ITEM_PATTERN, list.as_str());
    let ghost items = all_in(SPECTRUM_ITEM_PATTERN@, list@);
    let ghost ps = Seq::new(items.len(), |i: int| (i, items[i]));
    let ghost f = |p: (int, (nat, nat, Seq<Option<Seq<char>>>))| item_chunk(p);
    let mut r: Vec<SpectrumChunk> = Vec::new();
    let mut i: usize = 0;
    while i < ms.len()
        invariant
            0 <= i <= ms@.len(),
            ms@.len() == items.len(),
            forall|k: int| 0 <= k < ms@.len() ==> items[k] == captured_view(#[trigger] ms@[k]),
            ps == Seq::new(items.len(), |k: int| (k, items[k])),
            f == (|p: (int, (nat, nat, Seq<Option<Seq<char>>>))| item_chunk(p)),
            r@.map_values(|c: SpectrumChunk| chunk_view(c)) == keep_some(ps.take(i as int), f),
        decreases ms.len() - i,
    {
        proof {
            lemma_keep_some_step(ps, i as int, f);
        }
        assert(items[i as int] == captured_view(ms@[i as int]));
        assert(ps[i as int] == (i as int, items[i as int]));
        let ghost before = r@;
        match cgroup(&ms[i], 1) {
            Some(t) => {
                let chars = chars_of(t.as_str());
                match decode(&chars, i) {
                    Some(c) => {
                        r.push(c);
                        assert(r@.map_values(|c: SpectrumChunk| chunk_view(c)) =~= before.map_values(
                            |c: SpectrumChunk| chunk_view(c),
                        ).push(chunk_view(r@[before.len() as int])));
                    },
                    None => {},
                }
            },
            None => {},
        }
        i += 1;
    }
    assert(ps.take(ps.len() as int) =~= ps);
    r
}

// ---------------------------------------------------------------------------
// Chunk arithmetic
// ---------------------------------------------------------------------------

/// The least and the greatest bin power of a chunk; none without bins.
pub fn bin_extremes(bins: &[i32]) -> (r: Option<(i32, i32)>)
    ensures
        r is None <==> bins@.len() == 0,
        r matches Some((lo, hi)) ==> {
            &&& exists|i: int| 0 <= i < bins@.len() && bins@[i] == lo
            &&& exists|j: int| 0 <= j < bins@.len() && bins@[j] == hi
            &&& forall|k: int| 0 <= k < bins@.len() ==> lo <= #[trigger] bins@[k] <= hi
        },
{
    if bins.len() == 0 {
        return None;
    }
    let mut lo = bins[0];
    let mut hi = bins[0];
    let mut li: usize = 0;
    let mut hj: usize = 0;
    let mut k: usize = 1;
    while k < bins.len()
        invariant
            1 <= k <= bins@.len(),
            li < k,
            hj < k,
            bins@[li as int] == lo,
            bins@[hj as int] == hi,
            forall|m: int| 0 <= m < k ==> lo <= #[trigger] bins@[m] <= hi,
        decreases bins.len() - k,
    {
        if bins[k] < lo {
            lo = bins[k];
            li = k;
        }
        if bins[k] > hi {
            hi = bins[k];
            hj = k;
        }
        k += 1;
    }
    Some((lo, hi))
}

/// `x / 2` rounded toward zero, as Rust's integer division does.
pub open spec fn half_toward_zero(x: int) -> int {
    if x >= 0 {
        x / 2
    } else {
        -((-x) / 2)
    }
}

/// Whether a number fits an `i64`.
pub open spec fn fits_i64(x: int) -> bool {
    i64::MIN <= x <= i64::MAX
}

/// The frequency of bin `idx` of a chunk: the chunk's start (its centre
/// less half its span) plus `idx` bin spacings, computed in `i64`; none when
/// a step of that computation leaves the `i64` range.
pub open spec fn bin_frequency(center: i64, span: i64, spacing: i64, idx: int) -> Option<int> {
    let start = center - half_toward_zero(span as int);
    let offset = idx * spacing;
    if idx <= i64::MAX && fits_i64(start) && fits_i64(offset) && fits_i64(start + offset) {
        Some(start + offset)
    } else {
        None
    }
}

/// The frequency in Hz of bin `idx` of a chunk.
pub fn bin_frequency_hz(chunk: &SpectrumChunk, idx: usize) -> (r: Option<i64>)
    ensures
        match bin_frequency(chunk.center_freq_hz, chunk.span_hz, chunk.bin_spacing_hz, idx as int) {
            Some(f) => r == Some(f as i64),
            None => r is None,
        },
{
    if idx as u128 > 0x7fff_ffff_ffff_ffff {
        return None;
    }
    let span = chunk.span_hz as i128;
    let half: i128 = if span >= 0 {
        span / 2
    } else {
        -((-span) / 2)
    };
    let start: i128 = chunk.center_freq_hz as i128 - half;
    let i = idx as i128;
    let spacing = chunk.bin_spacing_hz as i128;
    assert(-0x4000_0000_0000_0000_0000_0000_0000_0000 <= i * spacing <= 0x4000_0000_0000_0000_0000_0000_0000_0000)
        by (nonlinear_arith)
        requires
            0 <= i <= 0x7fff_ffff_ffff_ffff,
            -0x8000_0000_0000_0000 <= spacing <= 0x7fff_ffff_ffff_ffff,
    ;
    let offset: i128 = i * spacing;
    let min: i128 = -0x8000_0000_0000_0000;
    let max: i128 = 0x7fff_ffff_ffff_ffff;
    if start < min || start > max || offset < min || offset > max {
        return None;
    }
    let f: i128 = start + offset;
    if f < min || f > max {
        return None;
    }
    Some(f as i64)
}

} // verus!
