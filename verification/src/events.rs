//! Reading the modem's event log: fields inside event descriptions, event
//! classes and severities, and per-log tallies.
use vstd::prelude::*;

use crate::num::{parse_bounded, parse_digits_bounded};
use crate::parser::EventLogEntry;
use crate::text::{
    chars_of, find, find_from, first_at_or_after, lemma_first_at_or_after, str_eq, string_from,
    trim, trim_bounds, trimmed,
};

verus! {

// ---------------------------------------------------------------------------
// Fields inside a description
// ---------------------------------------------------------------------------

/// The text up to the first `c`, or all of `s` (`s.split(c).next()`).
pub open spec fn before_char(s: Seq<char>, c: char) -> Seq<char> {
    match find(s, seq![c]) {
        Some(j) => s.take(j),
        None => s,
    }
}

/// The text between the first and the second occurrence of `pat`, or from
/// the first to the end (`s.split(pat).nth(1)`); `None` when `pat` does not
/// occur.
pub open spec fn second_piece(s: Seq<char>, pat: Seq<char>) -> Option<Seq<char>> {
    match find(s, pat) {
        None => None,
        Some(i) => {
            let rest = s.skip(i + pat.len());
            Some(
                match find(rest, pat) {
                    Some(j) => rest.take(j),
                    None => rest,
                },
            )
        },
    }
}

/// A channel and profile named in a description: the channel is the
/// trimmed text after `chan_pat` up to `;`, the profile the trimmed text
/// after `profile_pat` up to `.`, which must parse as a `u32`.
pub open spec fn profile_in(s: Seq<char>, chan_pat: Seq<char>, profile_pat: Seq<char>) -> Option<
    (Seq<char>, u32),
> {
    match second_piece(s, chan_pat) {
        None => None,
        Some(c) => match second_piece(s, profile_pat) {
            None => None,
            Some(p) => match parse_bounded(trim(before_char(p, '.')), u32::MAX as nat) {
                Some(v) => Some((trim(before_char(c, ';')), v as u32)),
                None => None,
            },
        },
    }
}

/// The upstream channel and its new profile in a profile-change event.
pub open spec fn us_profile(s: Seq<char>) -> Option<(Seq<char>, u32)> {
    profile_in(s, "US Chan ID:"@, "New Profile:"@)
}

/// The channel and its OFDM/OFDMA profile in a CM-STATUS event.
pub open spec fn ofdma_profile(s: Seq<char>) -> Option<(Seq<char>, u32)> {
    profile_in(s, "Chan ID:"@, "OFDMA Profile ID:"@)
}

/// The trimmed value after `prefix` up to `;`; `None` when `prefix` does not
/// occur or the value is empty.
pub open spec fn suffix_value(s: Seq<char>, prefix: Seq<char>) -> Option<Seq<char>> {
    match find(s, prefix) {
        None => None,
        Some(i) => {
            let v = trim(before_char(s.skip(i + prefix.len()), ';'));
            if v.len() == 0 {
                None
            } else {
                Some(v)
            }
        },
    }
}

proof fn lemma_find_shift(s: Seq<char>, pat: Seq<char>, start: int)
    requires
        0 <= start <= s.len(),
    ensures
        (match first_at_or_after(s, pat, start) {
            Some(j) => Some(j - start),
            None => None,
        }) == find(s.skip(start), pat),
{
    let t = s.skip(start);
    lemma_first_at_or_after(s, pat, start);
    lemma_first_at_or_after(t, pat, 0);
    assert forall|k: int| 0 <= k implies #[trigger] crate::text::occurs_at(t, pat, k)
        == crate::text::occurs_at(s, pat, k + start) by {
        if k + pat.len() <= t.len() {
            assert(t.subrange(k, k + pat.len()) =~= s.subrange(k + start, k + start + pat.len()));
        }
    }
    match first_at_or_after(s, pat, start) {
        Some(j) => {
            assert(crate::text::occurs_at(t, pat, j - start));
            match find(t, pat) {
                Some(m) => {
                    assert(crate::text::occurs_at(s, pat, m + start));
                },
                None => {},
            }
        },
        None => {
            match find(t, pat) {
                Some(m) => {
                    assert(crate::text::occurs_at(s, pat, m + start));
                },
                None => {},
            }
        },
    }
}

/// The end (exclusive) of `before_char(chars[from..to], c)`, as an index into `chars`.
fn char_end(chars: &[char], from: usize, to: usize, c: char) -> (e: usize)
    requires
        from <= to <= chars@.len(),
    ensures
        from <= e <= to,
        chars@.subrange(from as int, e as int) == before_char(
            chars@.subrange(from as int, to as int),
            c,
        ),
{
    let ghost s = chars@.subrange(from as int, to as int);
    let mut j = from;
    while j < to && chars[j] != c
        invariant
            from <= j <= to <= chars@.len(),
            forall|k: int| from <= k < j ==> chars@[k] != c,
        decreases to - j,
    {
        j += 1;
    }
    proof {
        let p = seq![c];
        lemma_first_at_or_after(s, p, 0);
        assert forall|k: int| 0 <= k < j - from implies !crate::text::occurs_at(s, p, k) by {
            assert(s.subrange(k, k + 1)[0] == chars@[k + from]);
        }
        if j < to {
            assert(s.subrange(j - from, j - from + 1) =~= p);
            assert(crate::text::occurs_at(s, p, j - from));
        } else {
            assert forall|k: int| 0 <= k implies !crate::text::occurs_at(s, p, k) by {
                if k < j - from {
                    assert(s.subrange(k, k + 1)[0] == chars@[k + from]);
                }
            }
        }
        match find(s, p) {
            Some(m) => {
                assert(m == j - from);
                assert(s.take(m) =~= chars@.subrange(from as int, j as int));
            },
            None => {
                assert(s =~= chars@.subrange(from as int, j as int));
            },
        }
    }
    j
}

/// Bounds of `second_piece(chars, pat)` as indices into `chars`.
fn piece_bounds(chars: &[char], pat: &[char]) -> (r: Option<(usize, usize)>)
    requires
        pat@.len() > 0,
    ensures
        match second_piece(chars@, pat@) {
            None => r is None,
            Some(p) => r matches Some((a, b)) && a <= b <= chars@.len() && chars@.subrange(
                a as int,
                b as int,
            ) == p,
        },
{
    let found = find_from(chars, pat, 0);
    proof {
        lemma_first_at_or_after(chars@, pat@, 0);
    }
    let i = match found {
        Some(i) => i,
        None => return None,
    };
    assert(i + pat@.len() <= chars@.len());
    assert(chars@.len() == chars.len() && pat@.len() == pat.len());
    let start = i + pat.len();
    let ghost rest = chars@.skip(start as int);
    proof {
        lemma_find_shift(chars@, pat@, start as int);
    }
    let next = find_from(chars, pat, start);
    let end = match next {
        Some(j) => j,
        None => chars.len(),
    };
    proof {
        lemma_first_at_or_after(chars@, pat@, start as int);
        match next {
            Some(j) => {
                assert(find(rest, pat@) == Some(j - start));
                assert(start <= j);
                assert(rest.take(j - start) =~= chars@.subrange(start as int, end as int));
            },
            None => {
                assert(find(rest, pat@) is None);
                assert(rest =~= chars@.subrange(start as int, end as int));
            },
        }
    }
    Some((start, end))
}

fn profile_from(chars: &[char], chan_pat: &str, profile_pat: &str) -> (r: Option<(String, u32)>)
    requires
        chan_pat@.len() > 0,
        profile_pat@.len() > 0,
    ensures
        match profile_in(chars@, chan_pat@, profile_pat@) {
            None => r is None,
            Some((c, p)) => r matches Some((rc, rp)) && rc@ == c && rp == p,
        },
{
    let cp = chars_of(chan_pat);
    let (ca, cb) = match piece_bounds(chars, &cp) {
        Some(b) => b,
        None => return None,
    };
    let pp = chars_of(profile_pat);
    let (pa, pb) = match piece_bounds(chars, &pp) {
        Some(b) => b,
        None => return None,
    };
    let pe = char_end(chars, pa, pb, '.');
    let (ta, tb) = trim_bounds(chars, pa, pe);
    let profile = match parse_digits_bounded(chars, ta, tb, 0xffff_ffff) {
        Some(v) => v as u32,
        None => return None,
    };
    let ce = char_end(chars, ca, cb, ';');
    let channel = trimmed(chars, ca, ce);
    Some((channel, profile))
}

/// The upstream channel and new profile named in a profile-change event
/// (`US Chan ID: <chan>; ... New Profile: <n>.`).
pub fn extract_us_profile(description: &str) -> (r: Option<(String, u32)>)
    ensures
        match us_profile(description@) {
            None => r is None,
            Some((c, p)) => r matches Some((rc, rp)) && rc@ == c && rp == p,
        },
{
    let v = chars_of(description);
    proof {
        reveal_strlit("US Chan ID:");
        reveal_strlit("New Profile:");
    }
    profile_from(&v, "US Chan ID:", "New Profile:")
}

/// The channel and OFDM/OFDMA profile named in a CM-STATUS event
/// (`Chan ID: <chan>; ... OFDMA Profile ID: <n>.`).
pub fn extract_ofdma_profile(description: &str) -> (r: Option<(String, u32)>)
    ensures
        match ofdma_profile(description@) {
            None => r is None,
            Some((c, p)) => r matches Some((rc, rp)) && rc@ == c && rp == p,
        },
{
    let v = chars_of(description);
    proof {
        reveal_strlit("Chan ID:");
        reveal_strlit("OFDMA Profile ID:");
    }
    profile_from(&v, "Chan ID:", "OFDMA Profile ID:")
}

/// The value after `prefix` in a description, up to `;` and trimmed;
/// `None` when `prefix` is absent or the value is empty.
pub fn extract_suffix_value(description: &str, prefix: &str) -> (r: Option<String>)
    ensures
        match suffix_value(description@, prefix@) {
            None => r is None,
            Some(v) => r matches Some(s) && s@ == v,
        },
{
    let v = chars_of(description);
    let p = chars_of(prefix);
    let found = find_from(&v, &p, 0);
    proof {
        lemma_first_at_or_after(v@, p@, 0);
    }
    let i = match found {
        Some(i) => i,
        None => return None,
    };
    assert(i + p@.len() <= v@.len());
    assert(v@.len() == v.len() && p@.len() == p.len());
    let start = i + p.len();
    let e = char_end(&v, start, v.len(), ';');
    assert(v@.subrange(start as int, v@.len() as int) =~= v@.skip(start as int));
    let (a, b) = trim_bounds(&v, start, e);
    assert(find(description@, prefix@) == Some(i as int));
    if a == b {
        assert(v@.subrange(a as int, b as int).len() == 0);
        return None;
    }
    Some(string_from(&v, a, b))
}

// ---------------------------------------------------------------------------
// Event classes and severities
// ---------------------------------------------------------------------------

/// The event type and event name of a modem event ID.
pub open spec fn kind_of(event_id: Seq<char>) -> (Seq<char>, Seq<char>) {
    if event_id == "82000200"@ {
        ("T3_TIMEOUT"@, "cable_modem.docsis_event"@)
    } else if event_id == "82000300"@ {
        ("T4_TIMEOUT"@, "cable_modem.docsis_event"@)
    } else if event_id == "68001202"@ {
        ("DHCP_FAILURE"@, "cable_modem.provisioning_event"@)
    } else if event_id == "68010300"@ {
        ("DHCP_RENEW_WARNING"@, "cable_modem.provisioning_event"@)
    } else if event_id == "67061601"@ {
        ("US_PROFILE_CHANGE"@, "cable_modem.docsis_event"@)
    } else {
        ("MODEM_EVENT"@, "cable_modem.event"@)
    }
}

/// The event type and event name of a modem event ID.
pub fn event_kind(event_id: &str) -> (r: (&'static str, &'static str))
    ensures
        (r.0@, r.1@) == kind_of(event_id@),
{
    if str_eq(event_id, "82000200") {
        ("T3_TIMEOUT", "cable_modem.docsis_event")
    } else if str_eq(event_id, "82000300") {
        ("T4_TIMEOUT", "cable_modem.docsis_event")
    } else if str_eq(event_id, "68001202") {
        ("DHCP_FAILURE", "cable_modem.provisioning_event")
    } else if str_eq(event_id, "68010300") {
        ("DHCP_RENEW_WARNING", "cable_modem.provisioning_event")
    } else if str_eq(event_id, "67061601") {
        ("US_PROFILE_CHANGE", "cable_modem.docsis_event")
    } else {
        ("MODEM_EVENT", "cable_modem.event")
    }
}

/// The known event IDs and their classes: T3 and T4 timeouts and upstream
/// profile changes are DOCSIS events, DHCP failures and renew warnings are
/// provisioning events, and every other ID is a generic modem event.
pub proof fn lemma_event_kinds(event_id: Seq<char>)
    ensures
        kind_of("82000200"@) == ("T3_TIMEOUT"@, "cable_modem.docsis_event"@),
        kind_of("82000300"@) == ("T4_TIMEOUT"@, "cable_modem.docsis_event"@),
        kind_of("68001202"@) == ("DHCP_FAILURE"@, "cable_modem.provisioning_event"@),
        kind_of("68010300"@) == ("DHCP_RENEW_WARNING"@, "cable_modem.provisioning_event"@),
        kind_of("67061601"@) == ("US_PROFILE_CHANGE"@, "cable_modem.docsis_event"@),
        event_id != "82000200"@ && event_id != "82000300"@ && event_id != "68001202"@
            && event_id != "68010300"@ && event_id != "67061601"@ ==> kind_of(event_id) == (
        "MODEM_EVENT"@,
        "cable_modem.event"@,
        ),
{
    reveal_strlit("82000200");
    reveal_strlit("82000300");
    reveal_strlit("68001202");
    reveal_strlit("68010300");
    reveal_strlit("67061601");
    assert("82000300"@ != "82000200"@) by {
        assert("82000300"@[5] != "82000200"@[5]);
    }
    assert("68001202"@ != "82000200"@) by {
        assert("68001202"@[0] != "82000200"@[0]);
    }
    assert("68001202"@ != "82000300"@) by {
        assert("68001202"@[0] != "82000300"@[0]);
    }
    assert("68010300"@ != "82000200"@) by {
        assert("68010300"@[0] != "82000200"@[0]);
    }
    assert("68010300"@ != "82000300"@) by {
        assert("68010300"@[0] != "82000300"@[0]);
    }
    assert("68010300"@ != "68001202"@) by {
        assert("68010300"@[3] != "68001202"@[3]);
    }
    assert("67061601"@ != "82000200"@) by {
        assert("67061601"@[0] != "82000200"@[0]);
    }
    assert("67061601"@ != "82000300"@) by {
        assert("67061601"@[0] != "82000300"@[0]);
    }
    assert("67061601"@ != "68001202"@) by {
        assert("67061601"@[1] != "68001202"@[1]);
    }
    assert("67061601"@ != "68010300"@) by {
        assert("67061601"@[1] != "68010300"@[1]);
    }
}

/// The OpenTelemetry severity of a modem event level: levels 0 and 1 are
/// `INFO` (9), 2 and 3 `WARN` (13), higher ones `ERROR` (17).
pub open spec fn severity_of(level: u32) -> (u32, Seq<char>) {
    if level <= 1 {
        (9, "INFO"@)
    } else if level <= 3 {
        (13, "WARN"@)
    } else {
        (17, "ERROR"@)
    }
}

/// The OpenTelemetry severity number and text of a modem event level.
pub fn severity_for_level(level: u32) -> (r: (u32, &'static str))
    ensures
        (r.0, r.1@) == severity_of(level),
{
    match level {
        0 | 1 => (9, "INFO"),
        2 | 3 => (13, "WARN"),
        _ => (17, "ERROR"),
    }
}

/// Severity numbers never decrease as the level rises.
pub proof fn lemma_severity_monotonic(a: u32, b: u32)
    requires
        a <= b,
    ensures
        severity_of(a).0 <= severity_of(b).0,
{
}

// ---------------------------------------------------------------------------
// Tallies over an event log
// ---------------------------------------------------------------------------

/// The event IDs of a log, in order.
pub open spec fn event_ids(events: Seq<EventLogEntry>) -> Seq<Seq<char>> {
    Seq::new(events.len(), |i: int| events[i].event_id@)
}

/// The distinct IDs, each at its first occurrence.
pub open spec fn distinct_ids(ids: Seq<Seq<char>>) -> Seq<Seq<char>>
    decreases ids.len(),
{
    if ids.len() == 0 {
        Seq::empty()
    } else {
        let d = distinct_ids(ids.drop_last());
        if d.contains(ids.last()) {
            d
        } else {
            d.push(ids.last())
        }
    }
}

/// How often `id` occurs among `ids`.
pub open spec fn occurrences(ids: Seq<Seq<char>>, id: Seq<char>) -> nat
    decreases ids.len(),
{
    if ids.len() == 0 {
        0
    } else {
        occurrences(ids.drop_last(), id) + if ids.last() == id {
            1nat
        } else {
            0nat
        }
    }
}

/// The distinct IDs hold no duplicate, and hold exactly the IDs that occur.
pub proof fn lemma_distinct_ids(ids: Seq<Seq<char>>)
    ensures
        forall|j: int, k: int|
            0 <= j < k < distinct_ids(ids).len() ==> distinct_ids(ids)[j] != distinct_ids(ids)[k],
        forall|x: Seq<char>| distinct_ids(ids).contains(x) <==> occurrences(ids, x) > 0,
        occurrences(ids, Seq::empty()) <= ids.len(),
    decreases ids.len(),
{
    if ids.len() > 0 {
        lemma_distinct_ids(ids.drop_last());
        let d = distinct_ids(ids.drop_last());
        if !d.contains(ids.last()) {
            let e = d.push(ids.last());
            assert forall|x: Seq<char>| e.contains(x) <==> (d.contains(x) || x == ids.last()) by {
                if e.contains(x) {
                    let j = choose|j: int| 0 <= j < e.len() && e[j] == x;
                    if j < d.len() {
                        assert(d[j] == x);
                    }
                }
                if x == ids.last() {
                    assert(e[d.len() as int] == x);
                }
                if d.contains(x) {
                    let j = choose|j: int| 0 <= j < d.len() && d[j] == x;
                    assert(e[j] == x);
                }
            }
        }
    }
}

/// The number of occurrences of an ID never exceeds the log's length.
pub proof fn lemma_occurrences_bound(ids: Seq<Seq<char>>, id: Seq<char>)
    ensures
        occurrences(ids, id) <= ids.len(),
    decreases ids.len(),
{
    if ids.len() > 0 {
        lemma_occurrences_bound(ids.drop_last(), id);
    }
}

proof fn lemma_step_ids(events: Seq<EventLogEntry>, i: int)
    requires
        0 <= i < events.len(),
    ensures
        event_ids(events.take(i + 1)).drop_last() == event_ids(events.take(i)),
        event_ids(events.take(i + 1)).last() == events[i].event_id@,
        event_ids(events.take(i + 1)).len() == i + 1,
{
    assert(event_ids(events.take(i + 1)).drop_last() =~= event_ids(events.take(i)));
}

/// `keys` are the distinct IDs of `ids` and `counts` their occurrences.
pub open spec fn tallies(keys: Seq<Seq<char>>, counts: Seq<usize>, ids: Seq<Seq<char>>) -> bool {
    &&& keys == distinct_ids(ids)
    &&& counts.len() == keys.len()
    &&& forall|j: int| 0 <= j < keys.len() ==> #[trigger] counts[j] == occurrences(ids, keys[j])
}

/// The views of a sequence of strings.
pub open spec fn views(s: Seq<String>) -> Seq<Seq<char>> {
    Seq::new(s.len(), |i: int| s[i]@)
}

/// How often each event ID occurs in a log, listed by first occurrence.
#[verifier::rlimit(30)]
pub fn count_event_ids(events: &[EventLogEntry]) -> (r: Vec<(String, usize)>)
    ensures
        r@.len() == distinct_ids(event_ids(events@)).len(),
        forall|j: int|
            0 <= j < r@.len() ==> #[trigger] r@[j].0@ == distinct_ids(event_ids(events@))[j]
                && r@[j].1 == occurrences(event_ids(events@), distinct_ids(event_ids(events@))[j]),
{
    let mut keys: Vec<String> = Vec::new();
    let mut counts: Vec<usize> = Vec::new();
    let mut i: usize = 0;
    assert(views(keys@) =~= distinct_ids(event_ids(events@.take(0))));
    while i < events.len()
        invariant
            0 <= i <= events@.len(),
            tallies(views(keys@), counts@, event_ids(events@.take(i as int))),
        decreases events.len() - i,
    {
        let ghost p = event_ids(events@.take(i as int));
        let ghost q = event_ids(events@.take(i + 1));
        let ghost d = distinct_ids(p);
        let x = &events[i].event_id;
        proof {
            lemma_step_ids(events@, i as int);
            lemma_distinct_ids(p);
            lemma_occurrences_bound(p, x@);
        }
        let mut j: usize = 0;
        while j < keys.len() && !(keys[j] == *x)
            invariant
                0 <= j <= keys@.len(),
                views(keys@) == d,
                forall|k: int| 0 <= k < j ==> d[k] != x@,
            decreases keys.len() - j,
        {
            j += 1;
        }
        if j < keys.len() {
            assert(d[j as int] == x@);
            assert(d.contains(x@));
            assert(distinct_ids(q) == d);
            let c = counts[j];
            assert(c == occurrences(p, d[j as int]));
            assert(c <= i);
            counts.set(j, c + 1);
            proof {
                assert forall|k: int| 0 <= k < d.len() implies #[trigger] counts@[k]
                    == occurrences(q, d[k]) by {
                    if k != j {
                        assert(d[k] != d[j as int]);
                    }
                }
            }
        } else {
            assert(!d.contains(x@)) by {
                if d.contains(x@) {
                    let k = choose|k: int| 0 <= k < d.len() && d[k] == x@;
                    assert(false);
                }
            }
            assert(distinct_ids(q) == d.push(x@));
            assert(occurrences(p, x@) == 0);
            keys.push(x.clone());
            counts.push(1);
            proof {
                assert(views(keys@) =~= d.push(x@));
                assert forall|k: int| 0 <= k < views(keys@).len() implies #[trigger] counts@[k]
                    == occurrences(q, views(keys@)[k]) by {
                    if k < d.len() {
                        assert(d[k] != x@);
                    }
                }
            }
        }
        i += 1;
    }
    assert(events@.take(events@.len() as int) =~= events@);
    let ghost ids = event_ids(events@);
    let mut r: Vec<(String, usize)> = Vec::new();
    let mut k: usize = 0;
    while k < keys.len()
        invariant
            0 <= k <= keys@.len(),
            tallies(views(keys@), counts@, ids),
            ids == event_ids(events@),
            r@.len() == k,
            forall|j: int| 0 <= j < k ==> #[trigger] r@[j].0@ == views(keys@)[j] && r@[j].1 == counts@[j],
        decreases keys.len() - k,
    {
        let key = keys[k].clone();
        assert(key@ == views(keys@)[k as int]);
        r.push((key, counts[k]));
        k += 1;
    }
    r
}

/// How often the event ID `id` occurs in a log.
pub fn count_id(events: &[EventLogEntry], id: &str) -> (r: u64)
    ensures
        r == occurrences(event_ids(events@), id@),
{
    let mut n: u64 = 0;
    let mut i: usize = 0;
    while i < events.len()
        invariant
            0 <= i <= events@.len(),
            n == occurrences(event_ids(events@.take(i as int)), id@),
            n <= i,
        decreases events.len() - i,
    {
        proof {
            lemma_step_ids(events@, i as int);
        }
        if str_eq(events[i].event_id.as_str(), id) {
            n = n + 1;
        }
        i += 1;
    }
    assert(events@.take(events@.len() as int) =~= events@);
    n
}

// ---------------------------------------------------------------------------
// Latest profile per channel, ordered by channel
// ---------------------------------------------------------------------------

/// Lexicographic order of strings by code point, as `String`'s `Ord`
/// (UTF-8 byte order is code-point order).
pub open spec fn lex_lt(a: Seq<char>, b: Seq<char>) -> bool
    decreases a.len(),
{
    if a.len() == 0 {
        b.len() > 0
    } else if b.len() == 0 {
        false
    } else if a[0] != b[0] {
        a[0] < b[0]
    } else {
        lex_lt(a.drop_first(), b.drop_first())
    }
}

proof fn lemma_lex_two(a: Seq<char>, b: Seq<char>)
    ensures
        !lex_lt(a, a),
        lex_lt(a, b) ==> !lex_lt(b, a),
        a != b ==> lex_lt(a, b) || lex_lt(b, a),
    decreases a.len(),
{
    if a.len() > 0 {
        lemma_lex_two(a.drop_first(), a.drop_first());
    }
    if a.len() > 0 && b.len() > 0 {
        lemma_lex_two(a.drop_first(), b.drop_first());
        if a[0] == b[0] && a != b {
            assert(a.drop_first() != b.drop_first()) by {
                if a.drop_first() == b.drop_first() {
                    assert(a =~= seq![a[0]] + a.drop_first());
                    assert(b =~= seq![b[0]] + b.drop_first());
                }
            }
        }
    }
    if a.len() == 0 && b.len() == 0 {
        assert(a =~= b);
    }
}

proof fn lemma_lex_trans(a: Seq<char>, b: Seq<char>, c: Seq<char>)
    ensures
        lex_lt(a, b) && lex_lt(b, c) ==> lex_lt(a, c),
    decreases a.len(),
{
    if a.len() > 0 && b.len() > 0 && c.len() > 0 {
        lemma_lex_trans(a.drop_first(), b.drop_first(), c.drop_first());
    }
}

/// The lexicographic order is a strict total order.
pub proof fn lemma_lex_order(a: Seq<char>, b: Seq<char>, c: Seq<char>)
    ensures
        !lex_lt(a, a),
        lex_lt(a, b) ==> !lex_lt(b, a),
        a != b ==> lex_lt(a, b) || lex_lt(b, a),
        lex_lt(a, b) && lex_lt(b, c) ==> lex_lt(a, c),
{
    lemma_lex_two(a, b);
    lemma_lex_trans(a, b, c);
}

/// Whether `a < b` lexicographically.
pub fn lex_less(a: &str, b: &str) -> (r: bool)
    ensures
        r == lex_lt(a@, b@),
{
    let x = chars_of(a);
    let y = chars_of(b);
    let mut i: usize = 0;
    assert(x@.skip(0) =~= x@);
    assert(y@.skip(0) =~= y@);
    while i < x.len() && i < y.len() && x[i] == y[i]
        invariant
            0 <= i <= x@.len(),
            i <= y@.len(),
            x@ == a@,
            y@ == b@,
            lex_lt(a@, b@) == lex_lt(x@.skip(i as int), y@.skip(i as int)),
        decreases x.len() - i,
    {
        assert(x@.skip(i as int).drop_first() =~= x@.skip(i + 1));
        assert(y@.skip(i as int).drop_first() =~= y@.skip(i + 1));
        i += 1;
    }
    if i == x.len() {
        i < y.len()
    } else if i == y.len() {
        false
    } else {
        assert(x@.skip(i as int)[0] == x@[i as int]);
        assert(y@.skip(i as int)[0] == y@[i as int]);
        x[i] < y[i]
    }
}

/// Which profile a table tracks.
#[derive(Debug, Clone, Copy, PartialEq, Eq, Structural)]
pub enum ProfileKind {
    Upstream,
    Ofdma,
}

/// The channel and profile an event description names for a kind.
pub open spec fn profile_of_kind(kind: ProfileKind, s: Seq<char>) -> Option<(Seq<char>, u32)> {
    match kind {
        ProfileKind::Upstream => us_profile(s),
        ProfileKind::Ofdma => ofdma_profile(s),
    }
}

/// The last profile seen per channel over a log.
pub open spec fn profile_map(events: Seq<EventLogEntry>, kind: ProfileKind) -> Map<Seq<char>, u32>
    decreases events.len(),
{
    if events.len() == 0 {
        Map::empty()
    } else {
        let m = profile_map(events.drop_last(), kind);
        match profile_of_kind(kind, events.last().description@) {
            Some((c, p)) => m.insert(c, p),
            None => m,
        }
    }
}

/// Channels strictly increase along a table.
pub open spec fn sorted_table(t: Seq<(Seq<char>, u32)>) -> bool {
    forall|i: int, j: int| 0 <= i < j < t.len() ==> lex_lt(#[trigger] t[i].0, #[trigger] t[j].0)
}

/// A table lists exactly the entries of a map.
pub open spec fn table_of(t: Seq<(Seq<char>, u32)>, m: Map<Seq<char>, u32>) -> bool {
    &&& forall|i: int| 0 <= i < t.len() ==> m.contains_key(#[trigger] t[i].0) && m[t[i].0] == t[i].1
    &&& forall|c: Seq<char>| #[trigger] m.contains_key(c) ==> exists|i: int| 0 <= i < t.len() && t[i].0 == c
}

/// The views of a table of channels and profiles.
pub open spec fn table_view(t: Seq<(String, u32)>) -> Seq<(Seq<char>, u32)> {
    Seq::new(t.len(), |i: int| (t[i].0@, t[i].1))
}

/// There is one sorted table per map: the profile tables are determined by
/// the log.
pub proof fn lemma_table_unique(
    t: Seq<(Seq<char>, u32)>,
    u: Seq<(Seq<char>, u32)>,
    m: Map<Seq<char>, u32>,
)
    requires
        sorted_table(t),
        sorted_table(u),
        table_of(t, m),
        table_of(u, m),
    ensures
        t == u,
    decreases t.len() + u.len(),
{
    if t.len() == 0 || u.len() == 0 {
        if t.len() > 0 {
            assert(m.contains_key(t[0].0));
            let i = choose|i: int| 0 <= i < u.len() && u[i].0 == t[0].0;
        }
        if u.len() > 0 {
            assert(m.contains_key(u[0].0));
            let i = choose|i: int| 0 <= i < t.len() && t[i].0 == u[0].0;
        }
        assert(t =~= u);
    } else {
        let a = t[0].0;
        let b = u[0].0;
        assert(m.contains_key(a) && m.contains_key(b));
        let ia = choose|i: int| 0 <= i < u.len() && u[i].0 == a;
        let ib = choose|i: int| 0 <= i < t.len() && t[i].0 == b;
        lemma_lex_order(a, b, a);
        if a != b {
            if ib > 0 {
                assert(lex_lt(t[0].0, t[ib].0));
            }
            if ia > 0 {
                assert(lex_lt(u[0].0, u[ia].0));
            }
            assert(false);
        }
        let m2 = m.remove(a);
        let t2 = t.drop_first();
        let u2 = u.drop_first();
        assert forall|i: int| 0 <= i < t2.len() implies m2.contains_key(#[trigger] t2[i].0)
            && m2[t2[i].0] == t2[i].1 by {
            assert(t2[i] == t[i + 1]);
            assert(lex_lt(t[0].0, t[i + 1].0));
            lemma_lex_order(t[0].0, t[i + 1].0, a);
        }
        assert forall|i: int| 0 <= i < u2.len() implies m2.contains_key(#[trigger] u2[i].0)
            && m2[u2[i].0] == u2[i].1 by {
            assert(u2[i] == u[i + 1]);
            assert(lex_lt(u[0].0, u[i + 1].0));
            lemma_lex_order(u[0].0, u[i + 1].0, a);
        }
        assert forall|c: Seq<char>| #[trigger] m2.contains_key(c) implies exists|i: int|
            0 <= i < t2.len() && t2[i].0 == c by {
            let i = choose|i: int| 0 <= i < t.len() && t[i].0 == c;
            assert(i != 0);
            assert(t2[i - 1].0 == c);
        }
        assert forall|c: Seq<char>| #[trigger] m2.contains_key(c) implies exists|i: int|
            0 <= i < u2.len() && u2[i].0 == c by {
            let i = choose|i: int| 0 <= i < u.len() && u[i].0 == c;
            assert(i != 0);
            assert(u2[i - 1].0 == c);
        }
        assert(sorted_table(t2)) by {
            assert forall|i: int, j: int| 0 <= i < j < t2.len() implies lex_lt(
                #[trigger] t2[i].0,
                #[trigger] t2[j].0,
            ) by {
                assert(t2[i] == t[i + 1] && t2[j] == t[j + 1]);
            }
        }
        assert(sorted_table(u2)) by {
            assert forall|i: int, j: int| 0 <= i < j < u2.len() implies lex_lt(
                #[trigger] u2[i].0,
                #[trigger] u2[j].0,
            ) by {
                assert(u2[i] == u[i + 1] && u2[j] == u[j + 1]);
            }
        }
        lemma_table_unique(t2, u2, m2);
        assert(t[0] == u[0]);
        assert(t =~= seq![t[0]] + t2);
        assert(u =~= seq![u[0]] + u2);
    }
}

/// Records profile `p` for channel `c` in a sorted table.
#[verifier::rlimit(30)]
fn set_profile(t: &mut Vec<(String, u32)>, c: String, p: u32)
    requires
        sorted_table(table_view(old(t)@)),
    ensures
        sorted_table(table_view(final(t)@)),
        forall|m: Map<Seq<char>, u32>|
            table_of(table_view(old(t)@), m) ==> table_of(table_view(final(t)@), m.insert(c@, p)),
{
    let ghost before = table_view(t@);
    let mut k: usize = 0;
    while k < t.len() && lex_less(t[k].0.as_str(), c.as_str())
        invariant
            0 <= k <= t@.len(),
            before == table_view(t@),
            sorted_table(before),
            forall|i: int| 0 <= i < k ==> lex_lt(#[trigger] before[i].0, c@),
        decreases t.len() - k,
    {
        k += 1;
    }
    if k < t.len() && t[k].0 == c {
        t.set(k, (c, p));
        proof {
            let after = table_view(t@);
            assert(after =~= before.update(k as int, (c@, p)));
            assert forall|i: int, j: int| 0 <= i < j < after.len() implies lex_lt(
                #[trigger] after[i].0,
                #[trigger] after[j].0,
            ) by {
                assert(after[i].0 == before[i].0);
                assert(after[j].0 == before[j].0);
            }
            assert forall|m: Map<Seq<char>, u32>| table_of(before, m) implies table_of(
                after,
                m.insert(c@, p),
            ) by {
                let m2 = m.insert(c@, p);
                assert forall|i: int| 0 <= i < after.len() implies m2.contains_key(
                    #[trigger] after[i].0,
                ) && m2[after[i].0] == after[i].1 by {
                    if i != k {
                        assert(after[i] == before[i]);
                        lemma_lex_order(before[i].0, before[k as int].0, c@);
                    }
                }
                assert forall|x: Seq<char>| #[trigger] m2.contains_key(x) implies exists|i: int|
                    0 <= i < after.len() && after[i].0 == x by {
                    if x == c@ {
                        assert(after[k as int].0 == x);
                    } else {
                        let i = choose|i: int| 0 <= i < before.len() && before[i].0 == x;
                        assert(after[i].0 == x);
                    }
                }
            }
        }
    } else {
        let ghost cv = c@;
        t.insert(k, (c, p));
        proof {
            let after = table_view(t@);
            assert(after =~= before.insert(k as int, (cv, p)));
            if k < before.len() {
                lemma_lex_order(before[k as int].0, cv, cv);
                assert(lex_lt(cv, before[k as int].0));
            }
            assert forall|i: int, j: int| 0 <= i < j < after.len() implies lex_lt(
                #[trigger] after[i].0,
                #[trigger] after[j].0,
            ) by {
                if j < k {
                    assert(after[i] == before[i] && after[j] == before[j]);
                } else if j == k {
                    assert(after[j].0 == cv);
                    assert(after[i] == before[i]);
                } else if i == k {
                    assert(after[j] == before[j - 1]);
                    if j - 1 > k {
                        assert(lex_lt(before[k as int].0, before[j - 1].0));
                        lemma_lex_order(cv, before[k as int].0, before[j - 1].0);
                    }
                } else if i < k {
                    assert(after[i] == before[i] && after[j] == before[j - 1]);
                } else {
                    assert(after[i] == before[i - 1] && after[j] == before[j - 1]);
                }
            }
            assert forall|m: Map<Seq<char>, u32>| table_of(before, m) implies table_of(
                after,
                m.insert(cv, p),
            ) by {
                let m2 = m.insert(cv, p);
                assert forall|i: int| 0 <= i < after.len() implies m2.contains_key(
                    #[trigger] after[i].0,
                ) && m2[after[i].0] == after[i].1 by {
                    if i < k {
                        assert(after[i] == before[i]);
                        lemma_lex_order(before[i].0, cv, cv);
                    } else if i > k {
                        assert(after[i] == before[i - 1]);
                        if i - 1 > k {
                            assert(lex_lt(before[k as int].0, before[i - 1].0));
                            lemma_lex_order(cv, before[k as int].0, before[i - 1].0);
                        }
                        lemma_lex_order(cv, before[i - 1].0, cv);
                    }
                }
                assert forall|x: Seq<char>| #[trigger] m2.contains_key(x) implies exists|i: int|
                    0 <= i < after.len() && after[i].0 == x by {
                    if x == cv {
                        assert(after[k as int].0 == x);
                    } else {
                        let i = choose|i: int| 0 <= i < before.len() && before[i].0 == x;
                        if i < k {
                            assert(after[i].0 == x);
                        } else {
                            assert(after[i + 1].0 == x);
                        }
                    }
                }
            }
        }
    }
}

/// The last profile seen per channel over a log, ordered by channel.
#[verifier::rlimit(30)]
pub fn latest_profiles(events: &[EventLogEntry], kind: ProfileKind) -> (r: Vec<(String, u32)>)
    ensures
        sorted_table(table_view(r@)),
        table_of(table_view(r@), profile_map(events@, kind)),
{
    let mut t: Vec<(String, u32)> = Vec::new();
    let mut i: usize = 0;
    assert(table_of(table_view(t@), profile_map(events@.take(0), kind))) by {
        assert(events@.take(0).len() == 0);
    }
    while i < events.len()
        invariant
            0 <= i <= events@.len(),
            sorted_table(table_view(t@)),
            table_of(table_view(t@), profile_map(events@.take(i as int), kind)),
        decreases events.len() - i,
    {
        assert(events@.take(i + 1).drop_last() =~= events@.take(i as int));
        assert(events@.take(i + 1).last() == events@[i as int]);
        let found = match kind {
            ProfileKind::Upstream => extract_us_profile(events[i].description.as_str()),
            ProfileKind::Ofdma => extract_ofdma_profile(events[i].description.as_str()),
        };
        match found {
            Some((c, p)) => {
                set_profile(&mut t, c, p);
            },
            None => {},
        }
        i += 1;
    }
    assert(events@.take(events@.len() as int) =~= events@);
    t
}

} // verus!
