//! The aggregated-statistics service, read champion by champion: the
//! addresses of its requests, and how the rates of the champions moved
//! between two patches.
//!
//! Rates are in hundredths of a percentage point.

use vstd::prelude::*;
use crate::models::{clone_opt_string, opt_view};

verus! {

/// The statistics of one champion, aggregated over the matches of a patch, a
/// region and a tier.
#[derive(Debug, PartialEq, Eq)]
pub struct ChampionStatsAggregated {
    pub champion_id: String,
    pub patch_version: String,
    pub region: String,
    pub tier: String,
    pub role: Option<String>,
    pub total_matches: i32,
    pub wins: i32,
    pub losses: i32,
    pub bans: i32,
    pub picks: i32,
    pub win_rate: Option<i32>,
    pub pick_rate: Option<i32>,
    pub ban_rate: Option<i32>,
}

/// The view of a [`ChampionStatsAggregated`].
pub struct ChampionStatsAggregatedView {
    pub champion_id: Seq<char>,
    pub patch_version: Seq<char>,
    pub region: Seq<char>,
    pub tier: Seq<char>,
    pub role: Option<Seq<char>>,
    pub total_matches: int,
    pub wins: int,
    pub losses: int,
    pub bans: int,
    pub picks: int,
    pub win_rate: Option<int>,
    pub pick_rate: Option<int>,
    pub ban_rate: Option<int>,
}

/// The view of a rate that may be missing.
pub open spec fn rate_view(rate: Option<i32>) -> Option<int> {
    match rate {
        Some(r) => Some(r as int),
        None => None,
    }
}

impl View for ChampionStatsAggregated {
    type V = ChampionStatsAggregatedView;

    open spec fn view(&self) -> ChampionStatsAggregatedView {
        ChampionStatsAggregatedView {
            champion_id: self.champion_id@,
            patch_version: self.patch_version@,
            region: self.region@,
            tier: self.tier@,
            role: opt_view(self.role),
            total_matches: self.total_matches as int,
            wins: self.wins as int,
            losses: self.losses as int,
            bans: self.bans as int,
            picks: self.picks as int,
            win_rate: rate_view(self.win_rate),
            pick_rate: rate_view(self.pick_rate),
            ban_rate: rate_view(self.ban_rate),
        }
    }
}

impl DeepView for ChampionStatsAggregated {
    type V = ChampionStatsAggregatedView;

    open spec fn deep_view(&self) -> ChampionStatsAggregatedView {
        self@
    }
}

/// How the rates of one champion moved between two patches.
#[derive(Debug, PartialEq, Eq)]
pub struct MetaChange {
    pub champion_id: String,
    pub win_rate_diff: i64,
    pub pick_rate_diff: i64,
    pub ban_rate_diff: i64,
}

/// The view of a [`MetaChange`].
pub struct MetaChangeView {
    pub champion_id: Seq<char>,
    pub win_rate_diff: int,
    pub pick_rate_diff: int,
    pub ban_rate_diff: int,
}

impl View for MetaChange {
    type V = MetaChangeView;

    open spec fn view(&self) -> MetaChangeView {
        MetaChangeView {
            champion_id: self.champion_id@,
            win_rate_diff: self.win_rate_diff as int,
            pick_rate_diff: self.pick_rate_diff as int,
            ban_rate_diff: self.ban_rate_diff as int,
        }
    }
}

impl DeepView for MetaChange {
    type V = MetaChangeView;

    open spec fn deep_view(&self) -> MetaChangeView {
        self@
    }
}

/// A rate, or zero where it is missing.
pub open spec fn rate_or_zero(rate: Option<int>) -> int {
    match rate {
        Some(r) => r,
        None => 0,
    }
}

/// The statistics of the earlier patch for a champion and a role: the first
/// that has both.
pub open spec fn earlier_stats(
    from: Seq<ChampionStatsAggregatedView>,
    champion_id: Seq<char>,
    role: Option<Seq<char>>,
) -> Option<ChampionStatsAggregatedView>
    decreases from.len(),
{
    if from.len() == 0 {
        None
    } else if from[0].champion_id == champion_id && from[0].role == role {
        Some(from[0])
    } else {
        earlier_stats(from.drop_first(), champion_id, role)
    }
}

/// How the rates of a champion moved: each rate less the earlier one, a
/// missing rate counting as zero; and no move at all where the earlier patch
/// has no statistics for the champion and the role.
pub open spec fn change_of(
    to: ChampionStatsAggregatedView,
    from: Seq<ChampionStatsAggregatedView>,
) -> MetaChangeView {
    match earlier_stats(from, to.champion_id, to.role) {
        Some(earlier) => MetaChangeView {
            champion_id: to.champion_id,
            win_rate_diff: rate_or_zero(to.win_rate) - rate_or_zero(earlier.win_rate),
            pick_rate_diff: rate_or_zero(to.pick_rate) - rate_or_zero(earlier.pick_rate),
            ban_rate_diff: rate_or_zero(to.ban_rate) - rate_or_zero(earlier.ban_rate),
        },
        None => MetaChangeView {
            champion_id: to.champion_id,
            win_rate_diff: 0,
            pick_rate_diff: 0,
            ban_rate_diff: 0,
        },
    }
}

/// The moves of all the champions of the later patch, in their order.
pub open spec fn changes_of(
    from: Seq<ChampionStatsAggregatedView>,
    to: Seq<ChampionStatsAggregatedView>,
) -> Seq<MetaChangeView> {
    Seq::new(to.len(), |i: int| change_of(to[i], from))
}

/// The tier that is asked for where none is named.
pub const DEFAULT_TIER: &'static str = "DIAMOND_PLUS";

/// The address of the statistics of one champion.
pub open spec fn champion_stats_address(
    base_url: Seq<char>,
    champion_id: Seq<char>,
    patch: Seq<char>,
    region: Seq<char>,
    tier: Option<Seq<char>>,
    role: Option<Seq<char>>,
) -> Seq<char> {
    base_url + "/rest/v1/champion_stats_aggregated?champion_id=eq."@ + champion_id
        + "&patch_version=eq."@ + patch + "&region=eq."@ + region + (match tier {
        Some(t) => "&tier=eq."@ + t,
        None => Seq::empty(),
    }) + (match role {
        Some(r) => "&role=eq."@ + r,
        None => "&role=is.null"@,
    })
}

/// The address of the statistics of all champions of a patch.
pub open spec fn patch_stats_address(
    base_url: Seq<char>,
    patch: Seq<char>,
    region: Seq<char>,
    tier: Option<Seq<char>>,
) -> Seq<char> {
    base_url + "/rest/v1/champion_stats_aggregated?patch_version=eq."@ + patch + "&region=eq."@
        + region + "&role=is.null"@ + "&tier=eq."@ + (match tier {
        Some(t) => t,
        None => DEFAULT_TIER@,
    })
}

/// Whether two texts that may be missing are the same.
fn same_opt(a: &Option<String>, b: &Option<String>) -> (r: bool)
    ensures
        r == (opt_view(*a) == opt_view(*b)),
{
    match (a, b) {
        (Some(x), Some(y)) => *x == *y,
        (None, None) => true,
        _ => false,
    }
}

/// A rate, or zero where it is missing.
fn or_zero(rate: Option<i32>) -> (r: i64)
    ensures
        r == rate_or_zero(rate_view(rate)),
{
    match rate {
        Some(r) => r as i64,
        None => 0,
    }
}

/// The client of the statistics service, for what it computes.
pub struct SupabaseClient;

impl SupabaseClient {
    /// The address of the statistics of one champion for a patch and a
    /// region, in one tier or in all, and in one role or in all roles
    /// together.
    pub fn champion_stats_url(
        base_url: &str,
        champion_id: &str,
        patch: &str,
        region: &str,
        tier: Option<&str>,
        role: Option<&str>,
    ) -> (r: String)
        ensures
            r@ == champion_stats_address(
                base_url@,
                champion_id@,
                patch@,
                region@,
                match tier {
                    Some(t) => Some(t@),
                    None => None,
                },
                match role {
                    Some(x) => Some(x@),
                    None => None,
                },
            ),
    {
        let mut url = String::new();
        url.append(base_url);
        url.append("/rest/v1/champion_stats_aggregated?champion_id=eq.");
        url.append(champion_id);
        url.append("&patch_version=eq.");
        url.append(patch);
        url.append("&region=eq.");
        url.append(region);
        let ghost head = url@;
        assert(head =~= base_url@ + "/rest/v1/champion_stats_aggregated?champion_id=eq."@
            + champion_id@ + "&patch_version=eq."@ + patch@ + "&region=eq."@ + region@);
        match tier {
            Some(t) => {
                url.append("&tier=eq.");
                url.append(t);
                assert(url@ =~= head + ("&tier=eq."@ + t@));
            },
            None => {
                assert(url@ =~= head + Seq::<char>::empty());
            },
        }
        let ghost middle = url@;
        match role {
            Some(r) => {
                url.append("&role=eq.");
                url.append(r);
                assert(url@ =~= middle + ("&role=eq."@ + r@));
            },
            None => {
                url.append("&role=is.null");
            },
        }
        url
    }

    /// The address of the statistics of all champions of a patch and a
    /// region, all roles together, in the named tier or in the default one.
    pub fn patch_stats_url(base_url: &str, patch: &str, region: &str, tier: Option<&str>) -> (r:
        String)
        ensures
            r@ == patch_stats_address(
                base_url@,
                patch@,
                region@,
                match tier {
                    Some(t) => Some(t@),
                    None => None,
                },
            ),
    {
        let mut url = String::new();
        url.append(base_url);
        url.append("/rest/v1/champion_stats_aggregated?patch_version=eq.");
        url.append(patch);
        url.append("&region=eq.");
        url.append(region);
        url.append("&role=is.null");
        url.append("&tier=eq.");
        match tier {
            Some(t) => url.append(t),
            None => url.append(DEFAULT_TIER),
        }
        assert(url@ =~= patch_stats_address(
            base_url@,
            patch@,
            region@,
            match tier {
                Some(t) => Some(t@),
                None => None,
            },
        ));
        url
    }

    /// The address that tells whether the service can be reached.
    pub fn status_url(base_url: &str) -> (r: String)
        ensures
            r@ == base_url@ + "/rest/v1/champion_stats_aggregated?limit=1"@,
    {
        let mut url = String::new();
        url.append(base_url);
        url.append("/rest/v1/champion_stats_aggregated?limit=1");
        assert(url@ =~= base_url@ + "/rest/v1/champion_stats_aggregated?limit=1"@);
        url
    }

    /// How the rates of the champions moved between two patches: one entry
    /// for each champion of the later patch, in their order.
    pub fn get_meta_changes(
        from_stats: &Vec<ChampionStatsAggregated>,
        to_stats: &Vec<ChampionStatsAggregated>,
    ) -> (r: Vec<MetaChange>)
        ensures
            r.deep_view() == changes_of(from_stats.deep_view(), to_stats.deep_view()),
    {
        let ghost from = from_stats.deep_view();
        let mut changes: Vec<MetaChange> = Vec::new();
        let mut i: usize = 0;
        while i < to_stats.len()
            invariant
                i <= to_stats.len(),
                from == from_stats.deep_view(),
                changes.len() == i,
                forall|k: int|
                    0 <= k < i ==> (#[trigger] changes[k])@ == change_of(to_stats[k]@, from),
            decreases to_stats.len() - i,
        {
            let to = &to_stats[i];
            let mut j: usize = 0;
            let mut found = false;
            assert(from.skip(0) =~= from);
            while j < from_stats.len() && !found
                invariant
                    j <= from_stats.len(),
                    from == from_stats.deep_view(),
                    earlier_stats(from, to@.champion_id, to@.role) == earlier_stats(
                        from.skip(j as int),
                        to@.champion_id,
                        to@.role,
                    ),
                    found ==> j < from_stats.len() && earlier_stats(
                        from,
                        to@.champion_id,
                        to@.role,
                    ) == Some(from_stats[j as int]@),
                decreases from_stats.len() - j + if found {
                    0int
                } else {
                    1int
                },
            {
                proof {
                    assert(from.skip(j as int)[0] == from_stats[j as int]@);
                    assert(from.skip(j as int).drop_first() =~= from.skip(j + 1));
                }
                if from_stats[j].champion_id == to.champion_id && same_opt(
                    &from_stats[j].role,
                    &to.role,
                ) {
                    found = true;
                } else {
                    j = j + 1;
                }
            }
            let change = if found {
                let earlier = &from_stats[j];
                MetaChange {
                    champion_id: to.champion_id.clone(),
                    win_rate_diff: or_zero(to.win_rate) - or_zero(earlier.win_rate),
                    pick_rate_diff: or_zero(to.pick_rate) - or_zero(earlier.pick_rate),
                    ban_rate_diff: or_zero(to.ban_rate) - or_zero(earlier.ban_rate),
                }
            } else {
                MetaChange {
                    champion_id: to.champion_id.clone(),
                    win_rate_diff: 0,
                    pick_rate_diff: 0,
                    ban_rate_diff: 0,
                }
            };
            changes.push(change);
            i = i + 1;
        }
        assert(changes.deep_view() =~= changes_of(from, to_stats.deep_view()));
        changes
    }
}

} // verus!
