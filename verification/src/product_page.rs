//! The product page: the Ethernet PHY type and, per product debug group, the
//! number of internal logging components that are enabled.
//!
//! A group is a bold `[n] NAME` heading; its components are the
//! `[n] NAME: Enabled` entries that follow it, up to the next group.
use vstd::prelude::*;

use crate::parser::{all_in, all_of, cgroup, field_in, field_of, grp, ProductInfo};
use crate::pattern::captured_view;
use crate::text::{trim, trim_str};

verus! {

pub const PHY_PATTERN: &'static str = r"Ethernet Phy Type\s*</td>\s*<td[^>]*>([^<]+)";

pub const LOGGING_GROUP_PATTERN: &'static str = r"<b>\[\s*\d+\]\s*([^<]+)</b>";

pub const LOGGING_COMPONENT_PATTERN: &'static str = r"\[\s*\d+\]\s*[^:<\[\]]+:\s*Enabled";

/// How many of the matches start at or after `lo` and, when `hi` is given,
/// before `hi`.
pub open spec fn starts_between(cs: Seq<(nat, nat, Seq<Option<Seq<char>>>)>, lo: nat, hi: Option<nat>) -> nat
    decreases cs.len(),
{
    if cs.len() == 0 {
        0
    } else {
        starts_between(cs.drop_last(), lo, hi) + if lo <= cs.last().0 && (match hi {
            Some(h) => cs.last().0 < h,
            None => true,
        }) {
            1nat
        } else {
            0nat
        }
    }
}

/// A count as a `u32`, saturating.
pub open spec fn capped(n: nat) -> u32 {
    if n <= u32::MAX {
        n as u32
    } else {
        u32::MAX
    }
}

/// The trimmed name of a group heading.
pub open spec fn group_name(m: (nat, nat, Seq<Option<Seq<char>>>)) -> Seq<char> {
    match grp(m, 1) {
        Some(n) => trim(n),
        None => Seq::empty(),
    }
}

/// The logging groups of the page, in order: each group's name with the
/// number of enabled components between its heading and the next heading
/// (or the end of the page).
pub open spec fn logging_groups(html: Seq<char>) -> Seq<(Seq<char>, u32)> {
    let gs = all_in(LOGGING_GROUP_PATTERN@, html);
    let cs = all_in(LOGGING_COMPONENT_PATTERN@, html);
    Seq::new(
        gs.len(),
        |i: int|
            (
                group_name(gs[i]),
                capped(
                    starts_between(
                        cs,
                        gs[i].1,
                        if i + 1 < gs.len() {
                            Some(gs[i + 1].0)
                        } else {
                            None
                        },
                    ),
                ),
            ),
    )
}

/// The views of a list of logging groups.
pub open spec fn group_views(g: Seq<(String, u32)>) -> Seq<(Seq<char>, u32)> {
    Seq::new(g.len(), |i: int| (g[i].0@, g[i].1))
}

fn count_between(
    cs: &Vec<crate::pattern::Captured>,
    lo: usize,
    hi: Option<usize>,
    Ghost(all): Ghost<Seq<(nat, nat, Seq<Option<Seq<char>>>)>>,
) -> (r: u32)
    requires
        cs@.len() == all.len(),
        forall|k: int| 0 <= k < cs@.len() ==> all[k] == captured_view(#[trigger] cs@[k]),
    ensures
        r == capped(
            starts_between(
                all,
                lo as nat,
                match hi {
                    Some(h) => Some(h as nat),
                    None => None,
                },
            ),
        ),
{
    let ghost h = match hi {
        Some(h) => Some(h as nat),
        None => None::<nat>,
    };
    let mut n: u32 = 0;
    let mut k: usize = 0;
    while k < cs.len()
        invariant
            0 <= k <= cs@.len(),
            cs@.len() == all.len(),
            forall|j: int| 0 <= j < cs@.len() ==> all[j] == captured_view(#[trigger] cs@[j]),
            h == (match hi {
                Some(x) => Some(x as nat),
                None => None::<nat>,
            }),
            n == capped(starts_between(all.take(k as int), lo as nat, h)),
        decreases cs.len() - k,
    {
        assert(all.take(k + 1).drop_last() =~= all.take(k as int));
        assert(all.take(k + 1).last() == all[k as int]);
        assert(all[k as int] == captured_view(cs@[k as int]));
        let s = cs[k].start;
        let inside = lo <= s && match hi {
            Some(x) => s < x,
            None => true,
        };
        if inside && n < 0xffff_ffff {
            n = n + 1;
        }
        k += 1;
    }
    assert(all.take(all.len() as int) =~= all);
    n
}

/// The product details of the product page.
#[verifier::rlimit(30)]
pub fn parse_product_info(html: &str) -> (r: ProductInfo)
    ensures
        r.ethernet_phy_type@ == field_in(PHY_PATTERN@, html@),
        group_views(r.logging_components_enabled@) == logging_groups(html@),
{
    let gs = all_of(LOGGING_GROUP_PATTERN, html);
    let cs = all_of(LOGGING_COMPONENT_PATTERN, html);
    let ghost ga = all_in(LOGGING_GROUP_PATTERN@, html@);
    let ghost ca = all_in(LOGGING_COMPONENT_PATTERN@, html@);
    let mut groups: Vec<(String, u32)> = Vec::new();
    let mut i: usize = 0;
    while i < gs.len()
        invariant
            0 <= i <= gs@.len(),
            gs@.len() == ga.len(),
            forall|k: int| 0 <= k < gs@.len() ==> ga[k] == captured_view(#[trigger] gs@[k]),
            cs@.len() == ca.len(),
            forall|k: int| 0 <= k < cs@.len() ==> ca[k] == captured_view(#[trigger] cs@[k]),
            group_views(groups@) == logging_groups(html@).take(i as int),
            ga == all_in(LOGGING_GROUP_PATTERN@, html@),
            ca == all_in(LOGGING_COMPONENT_PATTERN@, html@),
        decreases gs.len() - i,
    {
        assert(ga[i as int] == captured_view(gs@[i as int]));
        let name = match cgroup(&gs[i], 1) {
            Some(n) => trim_str(n.as_str()),
            None => String::new(),
        };
        let hi = if i + 1 < gs.len() {
            assert(ga[i + 1] == captured_view(gs@[i + 1]));
            Some(gs[i + 1].start)
        } else {
            None
        };
        let n = count_between(&cs, gs[i].end, hi, Ghost(ca));
        let ghost before = groups@;
        groups.push((name, n));
        assert(group_views(groups@) =~= group_views(before).push((name@, n)));
        assert(logging_groups(html@).take(i + 1) =~= logging_groups(html@).take(i as int).push(
            logging_groups(html@)[i as int],
        ));
        i += 1;
    }
    assert(logging_groups(html@).take(ga.len() as int) =~= logging_groups(html@));
    ProductInfo { ethernet_phy_type: field_of(PHY_PATTERN, html), logging_components_enabled: groups }
}

} // verus!
