//! The meta diff engine: how each champion of a snapshot moved against an
//! earlier snapshot, and what the patch notes lead one to expect of it.

use vstd::prelude::*;
use crate::models::{
    clone_opt_string, opt_view, ChampionStats, ChampionStatsView, ChangeType, LaneRole,
    MetaAnalysisDiff, MetaAnalysisDiffView, PatchCategory, PatchData, PatchDataView,
    PatchNoteEntry, PatchNoteEntryView,
};
use crate::order::{arranges, is_reordering, rank_le, rank_lt, sorted_order, sorts, Rank};

verus! {

/// A rate has to move by more than this, in hundredths of a percentage point,
/// to count on its own: half a percentage point.
pub const MATERIAL_MOVE: i64 = 50;

/// The absolute value of a number.
pub open spec fn magnitude(d: int) -> int {
    if d < 0 {
        -d
    } else {
        d
    }
}

/// A difference in hundredths, rounded to tenths: to the nearest multiple of
/// ten, a half away from zero.
pub open spec fn round_tenth(d: int) -> int {
    if d >= 0 {
        ((d + 5) / 10) * 10
    } else {
        -(((-d + 5) / 10) * 10)
    }
}

/// The statistics of the champion with the given name and role in an earlier
/// snapshot. Where the snapshot lists the pair more than once, the last
/// listing counts.
pub open spec fn previous_of(
    champions: Seq<ChampionStatsView>,
    name: Seq<char>,
    role: LaneRole,
) -> Option<ChampionStatsView>
    decreases champions.len(),
{
    if champions.len() == 0 {
        None
    } else if champions.last().name == name && champions.last().role == role {
        Some(champions.last())
    } else {
        previous_of(champions.drop_last(), name, role)
    }
}

/// The champions' note with exactly the given title. Where the notes hold
/// more than one, the last one counts.
pub open spec fn note_of(notes: Seq<PatchNoteEntryView>, name: Seq<char>) -> Option<
    PatchNoteEntryView,
>
    decreases notes.len(),
{
    if notes.len() == 0 {
        None
    } else if notes.last().category == PatchCategory::Champions && notes.last().title == name {
        Some(notes.last())
    } else {
        note_of(notes.drop_last(), name)
    }
}

/// How far the win rate of a champion moved: its rate less the earlier one,
/// and nothing where the earlier snapshot does not have the champion.
pub open spec fn win_rate_move(champion: ChampionStatsView, earlier: Option<ChampionStatsView>) -> int {
    match earlier {
        Some(e) => champion.win_rate - e.win_rate,
        None => 0,
    }
}

/// How far the pick rate of a champion moved.
pub open spec fn pick_rate_move(champion: ChampionStatsView, earlier: Option<ChampionStatsView>) -> int {
    match earlier {
        Some(e) => champion.pick_rate - e.pick_rate,
        None => 0,
    }
}

/// The difference of one champion: both moves rounded to tenths, the change
/// that its note predicts, and its image, or else the image of its note.
pub open spec fn champion_diff(
    champion: ChampionStatsView,
    notes: Seq<PatchNoteEntryView>,
    earlier: Seq<ChampionStatsView>,
) -> MetaAnalysisDiffView {
    let before = previous_of(earlier, champion.name, champion.role);
    let note = note_of(notes, champion.name);
    MetaAnalysisDiffView {
        champion_name: champion.name,
        role: champion.role,
        win_rate_diff: round_tenth(win_rate_move(champion, before)),
        pick_rate_diff: round_tenth(pick_rate_move(champion, before)),
        predicted_change: match note {
            Some(n) => Some(n.change_type),
            None => None,
        },
        champion_image_url: match champion.image_url {
            Some(url) => Some(url),
            None => match note {
                Some(n) => n.image_url,
                None => None,
            },
        },
    }
}

/// A champion is worth an entry where one of its rates moved by more than
/// half a point, or where a note predicts a change.
pub open spec fn is_material(
    champion: ChampionStatsView,
    notes: Seq<PatchNoteEntryView>,
    earlier: Seq<ChampionStatsView>,
) -> bool {
    let before = previous_of(earlier, champion.name, champion.role);
    ||| magnitude(win_rate_move(champion, before)) > MATERIAL_MOVE
    ||| magnitude(pick_rate_move(champion, before)) > MATERIAL_MOVE
    ||| note_of(notes, champion.name) is Some
}

/// The differences of the champions that are worth an entry, in the order of
/// the champions.
pub open spec fn material_diffs(
    champions: Seq<ChampionStatsView>,
    notes: Seq<PatchNoteEntryView>,
    earlier: Seq<ChampionStatsView>,
) -> Seq<MetaAnalysisDiffView>
    decreases champions.len(),
{
    if champions.len() == 0 {
        Seq::empty()
    } else {
        let before = material_diffs(champions.drop_last(), notes, earlier);
        if is_material(champions.last(), notes, earlier) {
            before.push(champion_diff(champions.last(), notes, earlier))
        } else {
            before
        }
    }
}

/// The rank of an entry in the result: entries with a predicted change come
/// first, and among equals the larger move of the win rate.
pub open spec fn diff_rank(diff: MetaAnalysisDiffView) -> Rank {
    Rank {
        first: if diff.predicted_change is Some {
            0
        } else {
            1
        },
        second: (-magnitude(diff.win_rate_diff)) as i64,
        third: 0,
    }
}

/// The entries come in the order of their ranks.
pub open spec fn in_rank_order(diffs: Seq<MetaAnalysisDiffView>) -> bool {
    forall|i: int, j: int|
        0 <= i < j < diffs.len() ==> rank_le(
            #[trigger] diff_rank(diffs[i]),
            #[trigger] diff_rank(diffs[j]),
        )
}

/// Every entry with a predicted change stands before every entry without one.
pub open spec fn predicted_first(diffs: Seq<MetaAnalysisDiffView>) -> bool {
    forall|i: int, j: int|
        0 <= i < diffs.len() && 0 <= j < diffs.len() && (#[trigger] diffs[i]).predicted_change
            is Some && (#[trigger] diffs[j]).predicted_change is None ==> i < j
}

/// Rounds a difference in hundredths to tenths.
pub fn round_to_tenth(d: i64) -> (r: i64)
    requires
        -0x1_0000_0000 <= d <= 0x1_0000_0000,
    ensures
        r == round_tenth(d as int),
        r % 10 == 0,
        -5 <= r - d <= 5,
{
    if d >= 0 {
        ((d + 5) / 10) * 10
    } else {
        -(((-d + 5) / 10) * 10)
    }
}

/// The position of the statistics that count for the given name and role.
fn find_previous(champions: &Vec<ChampionStats>, name: &String, role: LaneRole) -> (r: Option<
    usize,
>)
    ensures
        r is Some <==> previous_of(champions.deep_view(), name@, role) is Some,
        r matches Some(at) ==> at < champions.len() && previous_of(
            champions.deep_view(),
            name@,
            role,
        ) == Some(champions[at as int]@),
{
    let ghost all = champions.deep_view();
    let mut i: usize = champions.len();
    assert(all.take(i as int) =~= all);
    while i > 0
        invariant
            i <= champions.len(),
            all == champions.deep_view(),
            previous_of(all, name@, role) == previous_of(all.take(i as int), name@, role),
        decreases i,
    {
        i = i - 1;
        proof {
            assert(all.take(i + 1).drop_last() =~= all.take(i as int));
            assert(all.take(i + 1).last() == champions[i as int]@);
        }
        if champions[i].name == *name && champions[i].role == role {
            return Some(i);
        }
    }
    None
}

/// The position of the champions' note that counts for the given name.
fn find_note(notes: &Vec<PatchNoteEntry>, name: &String) -> (r: Option<usize>)
    ensures
        r is Some <==> note_of(notes.deep_view(), name@) is Some,
        r matches Some(at) ==> at < notes.len() && note_of(notes.deep_view(), name@) == Some(
            notes[at as int]@,
        ),
{
    let ghost all = notes.deep_view();
    let mut i: usize = notes.len();
    assert(all.take(i as int) =~= all);
    while i > 0
        invariant
            i <= notes.len(),
            all == notes.deep_view(),
            note_of(all, name@) == note_of(all.take(i as int), name@),
        decreases i,
    {
        i = i - 1;
        proof {
            assert(all.take(i + 1).drop_last() =~= all.take(i as int));
            assert(all.take(i + 1).last() == notes[i as int]@);
        }
        if notes[i].category == PatchCategory::Champions && notes[i].title == *name {
            return Some(i);
        }
    }
    None
}

/// The difference of one champion, if the champion is worth an entry.
fn diff_champion(
    champion: &ChampionStats,
    notes: &Vec<PatchNoteEntry>,
    earlier: &Vec<ChampionStats>,
) -> (r: Option<MetaAnalysisDiff>)
    ensures
        r is Some <==> is_material(champion@, notes.deep_view(), earlier.deep_view()),
        r matches Some(d) ==> d@ == champion_diff(
            champion@,
            notes.deep_view(),
            earlier.deep_view(),
        ),
{
    let (win_move, pick_move): (i64, i64) = match find_previous(
        earlier,
        &champion.name,
        champion.role,
    ) {
        Some(at) => (
            champion.win_rate as i64 - earlier[at].win_rate as i64,
            champion.pick_rate as i64 - earlier[at].pick_rate as i64,
        ),
        None => (0, 0),
    };
    let (predicted, note_image): (Option<ChangeType>, Option<String>) = match find_note(
        notes,
        &champion.name,
    ) {
        Some(at) => (Some(notes[at].change_type), clone_opt_string(&notes[at].image_url)),
        None => (None, None),
    };
    let material = win_move > MATERIAL_MOVE || win_move < -MATERIAL_MOVE || pick_move
        > MATERIAL_MOVE || pick_move < -MATERIAL_MOVE || predicted.is_some();
    if !material {
        return None;
    }
    let image = match &champion.image_url {
        Some(url) => Some(url.clone()),
        None => note_image,
    };
    Some(
        MetaAnalysisDiff {
            champion_name: champion.name.clone(),
            role: champion.role,
            win_rate_diff: round_to_tenth(win_move),
            pick_rate_diff: round_to_tenth(pick_move),
            predicted_change: predicted,
            champion_image_url: image,
        },
    )
}

/// The rank of an entry in the result.
fn rank_of(diff: &MetaAnalysisDiff) -> (r: Rank)
    ensures
        r == diff_rank(diff@),
{
    Rank {
        first: if diff.predicted_change.is_some() {
            0
        } else {
            1
        },
        second: if diff.win_rate_diff < 0 {
            diff.win_rate_diff
        } else {
            -diff.win_rate_diff
        },
        third: 0,
    }
}

/// The comparison of two snapshots.
pub struct Analyzer;

impl Analyzer {
    /// Compares a snapshot with an earlier one. The result has one entry for
    /// each champion of `current` that is worth one, in the order of the ranks:
    /// entries with a predicted change first, and among equals the larger move
    /// of the win rate first.
    pub fn compare_patches(current: &PatchData, previous: &PatchData) -> (r: Vec<MetaAnalysisDiff>)
        ensures
            is_reordering(
                r.deep_view(),
                material_diffs(current@.champions, current@.patch_notes, previous@.champions),
            ),
            in_rank_order(r.deep_view()),
            predicted_first(r.deep_view()),
    {
        let ghost champions = current@.champions;
        let ghost notes = current@.patch_notes;
        let ghost earlier = previous@.champions;
        let mut diffs: Vec<MetaAnalysisDiff> = Vec::new();
        let mut ranks: Vec<Rank> = Vec::new();
        let mut i: usize = 0;
        assert(diffs.deep_view() =~= Seq::<MetaAnalysisDiffView>::empty());
        while i < current.champions.len()
            invariant
                i <= current.champions.len(),
                champions == current.champions.deep_view(),
                notes == current.patch_notes.deep_view(),
                earlier == previous.champions.deep_view(),
                diffs.deep_view() == material_diffs(champions.take(i as int), notes, earlier),
                ranks.len() == diffs.len(),
                forall|k: int| 0 <= k < ranks.len() ==> ranks[k] == diff_rank(#[trigger] diffs[k]@),
            decreases current.champions.len() - i,
        {
            proof {
                assert(champions.take(i + 1).drop_last() =~= champions.take(i as int));
                assert(champions.take(i + 1).last() == current.champions[i as int]@);
            }
            match diff_champion(&current.champions[i], &current.patch_notes, &previous.champions) {
                Some(diff) => {
                    let ghost before = diffs.deep_view();
                    ranks.push(rank_of(&diff));
                    diffs.push(diff);
                    assert(diffs.deep_view() =~= before.push(diff@));
                },
                None => {},
            }
            i = i + 1;
        }
        assert(champions.take(current.champions.len() as int) =~= champions);
        let order = sorted_order(&ranks);
        let ghost src = diffs.deep_view();
        let mut out: Vec<MetaAnalysisDiff> = Vec::new();
        let mut k: usize = 0;
        while k < order.len()
            invariant
                k <= order.len(),
                src == diffs.deep_view(),
                sorts(order@, ranks@),
                ranks.len() == diffs.len(),
                out.len() == k,
                forall|n: int| 0 <= n < k ==> (#[trigger] out[n])@ == src[order[n] as int],
            decreases order.len() - k,
        {
            out.push(diffs[order[k]].clone());
            k = k + 1;
        }
        proof {
            let result = out.deep_view();
            assert(arranges(order@, src, result));
            assert forall|a: int, b: int| 0 <= a < b < result.len() implies rank_le(
                #[trigger] diff_rank(result[a]),
                #[trigger] diff_rank(result[b]),
            ) by {
                assert(rank_le(ranks[order[a] as int], ranks[order[b] as int]));
                assert(ranks[order[a] as int] == diff_rank(diffs[order[a] as int]@));
                assert(ranks[order[b] as int] == diff_rank(diffs[order[b] as int]@));
            }
            lemma_predicted_first(result);
        }
        out
    }
}

/// In a list in rank order, every entry with a predicted change stands before
/// every entry without one.
pub proof fn lemma_predicted_first(diffs: Seq<MetaAnalysisDiffView>)
    requires
        in_rank_order(diffs),
    ensures
        predicted_first(diffs),
{
    assert forall|i: int, j: int|
        0 <= i < diffs.len() && 0 <= j < diffs.len() && (#[trigger] diffs[i]).predicted_change
            is Some && (#[trigger] diffs[j]).predicted_change is None implies i < j by {
        if j < i {
            assert(rank_le(diff_rank(diffs[j]), diff_rank(diffs[i])));
        }
    }
}

/// The earlier snapshot has statistics for a name and a role exactly when it
/// lists the pair, and the statistics that count carry that name and role.
pub proof fn lemma_previous_of_present(
    champions: Seq<ChampionStatsView>,
    name: Seq<char>,
    role: LaneRole,
)
    ensures
        previous_of(champions, name, role) is Some <==> exists|i: int|
            0 <= i < champions.len() && (#[trigger] champions[i]).name == name && champions[i].role
                == role,
        previous_of(champions, name, role) matches Some(e) ==> e.name == name && e.role == role
            && champions.contains(e),
    decreases champions.len(),
{
    if champions.len() > 0 {
        let rest = champions.drop_last();
        lemma_previous_of_present(rest, name, role);
        if champions.last().name == name && champions.last().role == role {
            assert(champions[champions.len() - 1] == champions.last());
        } else {
            if previous_of(rest, name, role) is Some {
                let i = choose|i: int|
                    0 <= i < rest.len() && (#[trigger] rest[i]).name == name && rest[i].role
                        == role;
                assert(champions[i] == rest[i]);
                let e = previous_of(rest, name, role)->0;
                let at = choose|at: int| 0 <= at < rest.len() && rest[at] == e;
                assert(champions[at] == e);
            }
            if exists|i: int|
                0 <= i < champions.len() && (#[trigger] champions[i]).name == name
                    && champions[i].role == role {
                let i = choose|i: int|
                    0 <= i < champions.len() && (#[trigger] champions[i]).name == name
                        && champions[i].role == role;
                assert(rest[i] == champions[i]);
            }
        }
    }
}

/// For a champion that both snapshots have, each difference is the rate less
/// the earlier rate, rounded to one decimal place; for a champion that the
/// earlier snapshot does not have, both differences are zero.
pub proof fn lemma_diff_is_rounded_move(
    champion: ChampionStatsView,
    notes: Seq<PatchNoteEntryView>,
    earlier: Seq<ChampionStatsView>,
)
    ensures
        previous_of(earlier, champion.name, champion.role) matches Some(e) ==> {
            &&& champion_diff(champion, notes, earlier).win_rate_diff == round_tenth(
                champion.win_rate - e.win_rate,
            )
            &&& champion_diff(champion, notes, earlier).pick_rate_diff == round_tenth(
                champion.pick_rate - e.pick_rate,
            )
        },
        previous_of(earlier, champion.name, champion.role) is None ==> {
            &&& champion_diff(champion, notes, earlier).win_rate_diff == 0
            &&& champion_diff(champion, notes, earlier).pick_rate_diff == 0
        },
{
}

/// A difference rounded to tenths is a multiple of ten and lies within five
/// hundredths of the difference.
pub proof fn lemma_round_tenth_is_nearest(d: int)
    ensures
        round_tenth(d) % 10 == 0,
        -5 <= round_tenth(d) - d <= 5,
        round_tenth(-d) == -round_tenth(d),
{
}

/// Every entry among the material differences is the difference of a champion
/// that is worth an entry, and every such champion has its entry there.
pub proof fn lemma_material_diffs_members(
    champions: Seq<ChampionStatsView>,
    notes: Seq<PatchNoteEntryView>,
    earlier: Seq<ChampionStatsView>,
)
    ensures
        forall|k: int|
            0 <= k < material_diffs(champions, notes, earlier).len() ==> exists|i: int|
                0 <= i < champions.len() && is_material(#[trigger] champions[i], notes, earlier)
                    && #[trigger] material_diffs(champions, notes, earlier)[k] == champion_diff(
                    champions[i],
                    notes,
                    earlier,
                ),
        forall|i: int|
            0 <= i < champions.len() && is_material(#[trigger] champions[i], notes, earlier)
                ==> material_diffs(champions, notes, earlier).contains(
                champion_diff(champions[i], notes, earlier),
            ),
        material_diffs(champions, notes, earlier).len() <= champions.len(),
    decreases champions.len(),
{
    let all = material_diffs(champions, notes, earlier);
    if champions.len() > 0 {
        let rest = champions.drop_last();
        let before = material_diffs(rest, notes, earlier);
        lemma_material_diffs_members(rest, notes, earlier);
        assert forall|k: int| 0 <= k < all.len() implies exists|i: int|
            0 <= i < champions.len() && is_material(#[trigger] champions[i], notes, earlier)
                && #[trigger] all[k] == champion_diff(champions[i], notes, earlier) by {
            if k < before.len() {
                let i = choose|i: int|
                    0 <= i < rest.len() && is_material(#[trigger] rest[i], notes, earlier)
                        && before[k] == champion_diff(rest[i], notes, earlier);
                assert(champions[i] == rest[i]);
            } else {
                assert(champions[champions.len() - 1] == champions.last());
            }
        }
        assert forall|i: int|
            0 <= i < champions.len() && is_material(
                #[trigger] champions[i],
                notes,
                earlier,
            ) implies all.contains(champion_diff(champions[i], notes, earlier)) by {
            if i < rest.len() {
                assert(rest[i] == champions[i]);
                let d = champion_diff(rest[i], notes, earlier);
                let k = choose|k: int| 0 <= k < before.len() && before[k] == d;
                assert(all[k] == d);
            } else {
                assert(all[all.len() - 1] == champion_diff(champions[i], notes, earlier));
            }
        }
    }
}

/// A result of the comparison has exactly the entries of the champions that
/// are worth one: each of its entries is the difference of such a champion of
/// the current snapshot, and each such champion has its entry.
pub proof fn lemma_result_members(
    result: Seq<MetaAnalysisDiffView>,
    champions: Seq<ChampionStatsView>,
    notes: Seq<PatchNoteEntryView>,
    earlier: Seq<ChampionStatsView>,
)
    requires
        is_reordering(result, material_diffs(champions, notes, earlier)),
    ensures
        forall|n: int|
            0 <= n < result.len() ==> exists|i: int|
                0 <= i < champions.len() && is_material(#[trigger] champions[i], notes, earlier)
                    && #[trigger] result[n] == champion_diff(champions[i], notes, earlier),
        forall|i: int|
            0 <= i < champions.len() && is_material(#[trigger] champions[i], notes, earlier)
                ==> result.contains(champion_diff(champions[i], notes, earlier)),
        result.len() <= champions.len(),
{
    let src = material_diffs(champions, notes, earlier);
    let order = choose|order: Seq<usize>| arranges(order, src, result);
    lemma_material_diffs_members(champions, notes, earlier);
    assert forall|n: int| 0 <= n < result.len() implies exists|i: int|
        0 <= i < champions.len() && is_material(#[trigger] champions[i], notes, earlier)
            && #[trigger] result[n] == champion_diff(champions[i], notes, earlier) by {
        let k = order[n] as int;
        assert(result[n] == src[k]);
        let i = choose|i: int|
            0 <= i < champions.len() && is_material(#[trigger] champions[i], notes, earlier)
                && src[k] == champion_diff(champions[i], notes, earlier);
        assert(result[n] == champion_diff(champions[i], notes, earlier));
    }
    assert forall|i: int|
        0 <= i < champions.len() && is_material(
            #[trigger] champions[i],
            notes,
            earlier,
        ) implies result.contains(champion_diff(champions[i], notes, earlier)) by {
        let d = champion_diff(champions[i], notes, earlier);
        let k = choose|k: int| 0 <= k < src.len() && src[k] == d;
        let n = crate::order::lemma_permutation_reaches(order, src.len(), k);
        assert(result[n] == d);
    }
}

} // verus!
