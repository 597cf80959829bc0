//! What is computed from the rows of the history store: the snapshot that a
//! row holds, and the history of one entity over the stored snapshots.

use vstd::prelude::*;
use crate::models::{
    ChampionHistoryEntry, ChampionHistoryEntryView, ChampionStats, ChampionStatsView,
    PatchCategory, PatchData, PatchDataView, PatchNoteEntry, PatchNoteEntryView,
};
use crate::order::{arranges, is_reordering, rank_le, sorted_order, sorts, Rank};
use crate::text::{chars_of, lowercase, same_chars, to_lowercase};

verus! {

/// What the content column of a row was read as.
#[derive(Debug, PartialEq, Eq)]
pub enum RowContent {
    /// The champions and the notes of a snapshot.
    Full { champions: Vec<ChampionStats>, patch_notes: Vec<PatchNoteEntry> },
    /// The older form: champions alone.
    Legacy { champions: Vec<ChampionStats> },
    /// Neither form.
    Unreadable,
}

/// The champions that a row's content holds.
pub open spec fn content_champions(content: RowContent) -> Seq<ChampionStatsView> {
    match content {
        RowContent::Full { champions, .. } => champions.deep_view(),
        RowContent::Legacy { champions } => champions.deep_view(),
        RowContent::Unreadable => Seq::empty(),
    }
}

/// The notes that a row's content holds.
pub open spec fn content_notes(content: RowContent) -> Seq<PatchNoteEntryView> {
    match content {
        RowContent::Full { patch_notes, .. } => patch_notes.deep_view(),
        _ => Seq::empty(),
    }
}

/// The note is asked for: it is in one of the two categories, and its
/// identifier or its title is the name that is searched for, letter case
/// aside.
pub open spec fn is_wanted(
    note: PatchNoteEntryView,
    search: Seq<char>,
    first: PatchCategory,
    second: PatchCategory,
) -> bool {
    (note.category == first || note.category == second) && (lowercase(note.id) == lowercase(
        search,
    ) || lowercase(note.title) == lowercase(search))
}

/// The history entry of a note of a snapshot.
pub open spec fn history_entry(patch: PatchDataView, note: PatchNoteEntryView) -> ChampionHistoryEntryView {
    ChampionHistoryEntryView { patch_version: patch.version, date: patch.fetched_at, change: note }
}

/// The history entries of the first `upto` notes of a snapshot that are asked
/// for, in the order of the notes.
pub open spec fn patch_history(
    patch: PatchDataView,
    upto: int,
    search: Seq<char>,
    first: PatchCategory,
    second: PatchCategory,
) -> Seq<ChampionHistoryEntryView>
    decreases upto,
{
    if upto <= 0 || upto > patch.patch_notes.len() {
        Seq::empty()
    } else {
        let before = patch_history(patch, upto - 1, search, first, second);
        if is_wanted(patch.patch_notes[upto - 1], search, first, second) {
            before.push(history_entry(patch, patch.patch_notes[upto - 1]))
        } else {
            before
        }
    }
}

/// The history entries of all the notes that are asked for, snapshot after
/// snapshot.
pub open spec fn history(
    patches: Seq<PatchDataView>,
    search: Seq<char>,
    first: PatchCategory,
    second: PatchCategory,
) -> Seq<ChampionHistoryEntryView>
    decreases patches.len(),
{
    if patches.len() == 0 {
        Seq::empty()
    } else {
        history(patches.drop_last(), search, first, second) + patch_history(
            patches.last(),
            patches.last().patch_notes.len() as int,
            search,
            first,
            second,
        )
    }
}

/// The entries come in the order of their dates, the earliest first.
pub open spec fn in_date_order(entries: Seq<ChampionHistoryEntryView>) -> bool {
    forall|i: int, j: int|
        0 <= i < j < entries.len() ==> (#[trigger] entries[i]).date <= (#[trigger] entries[j]).date
}

/// `entries` is the history of an entity over the snapshots: the entries of
/// all the notes that are asked for, the earliest first.
pub open spec fn is_history(
    entries: Seq<ChampionHistoryEntryView>,
    patches: Seq<PatchDataView>,
    search: Seq<char>,
    first: PatchCategory,
    second: PatchCategory,
) -> bool {
    is_reordering(entries, history(patches, search, first, second)) && in_date_order(entries)
}

/// The history store, for what is computed from its rows.
pub struct Database;

impl Database {
    /// The snapshot that a row holds. A row whose content cannot be read
    /// holds a snapshot without champions and notes.
    pub fn get_patch(version: String, fetched_at: i64, content: RowContent) -> (r: PatchData)
        ensures
            r@ == (PatchDataView {
                version: version@,
                fetched_at: fetched_at as int,
                champions: content_champions(content),
                patch_notes: content_notes(content),
            }),
    {
        match content {
            RowContent::Full { champions, patch_notes } => PatchData {
                version,
                fetched_at,
                champions,
                patch_notes,
            },
            RowContent::Legacy { champions } => {
                let patch_notes: Vec<PatchNoteEntry> = Vec::new();
                assert(patch_notes.deep_view() =~= Seq::<PatchNoteEntryView>::empty());
                PatchData { version, fetched_at, champions, patch_notes }
            },
            RowContent::Unreadable => {
                let champions: Vec<ChampionStats> = Vec::new();
                let patch_notes: Vec<PatchNoteEntry> = Vec::new();
                assert(champions.deep_view() =~= Seq::<ChampionStatsView>::empty());
                assert(patch_notes.deep_view() =~= Seq::<PatchNoteEntryView>::empty());
                PatchData { version, fetched_at, champions, patch_notes }
            },
        }
    }

    /// The history of an entity in one of two categories over the stored
    /// snapshots, the earliest entry first.
    pub fn get_history_for_category(
        patches: &Vec<PatchData>,
        name: &str,
        first: PatchCategory,
        second: PatchCategory,
    ) -> (r: Vec<ChampionHistoryEntry>)
        ensures
            is_history(r.deep_view(), patches.deep_view(), name@, first, second),
    {
        let ghost window = patches.deep_view();
        let search_text = to_lowercase(name);
        let search = chars_of(search_text.as_str());
        let mut found: Vec<ChampionHistoryEntry> = Vec::new();
        let mut ranks: Vec<Rank> = Vec::new();
        let mut p: usize = 0;
        proof {
            assert(window.take(0) =~= Seq::<PatchDataView>::empty());
            assert(found.deep_view() =~= Seq::<ChampionHistoryEntryView>::empty());
        }
        while p < patches.len()
            invariant
                p <= patches.len(),
                window == patches.deep_view(),
                search@ == lowercase(name@),
                found.deep_view() == history(window.take(p as int), name@, first, second),
                ranks.len() == found.len(),
                forall|k: int|
                    0 <= k < ranks.len() ==> (#[trigger] ranks[k]) == (Rank {
                        first: found[k].date,
                        second: 0,
                        third: 0,
                    }),
            decreases patches.len() - p,
        {
            let patch = &patches[p];
            let ghost before = history(window.take(p as int), name@, first, second);
            proof {
                assert(window.take(p + 1).drop_last() =~= window.take(p as int));
                assert(window.take(p + 1).last() == patch@);
                assert(before + patch_history(patch@, 0, name@, first, second) =~= before);
            }
            let mut n: usize = 0;
            while n < patch.patch_notes.len()
                invariant
                    n <= patch.patch_notes.len(),
                    search@ == lowercase(name@),
                    found.deep_view() == before + patch_history(
                        patch@,
                        n as int,
                        name@,
                        first,
                        second,
                    ),
                    ranks.len() == found.len(),
                    forall|k: int|
                        0 <= k < ranks.len() ==> (#[trigger] ranks[k]) == (Rank {
                            first: found[k].date,
                            second: 0,
                            third: 0,
                        }),
                decreases patch.patch_notes.len() - n,
            {
                let note = &patch.patch_notes[n];
                assert(patch@.patch_notes[n as int] == note@);
                let in_category = note.category == first || note.category == second;
                let mut wanted = false;
                if in_category {
                    let id = to_lowercase(note.id.as_str());
                    let id_chars = chars_of(id.as_str());
                    if same_chars(&id_chars, &search) {
                        wanted = true;
                    } else {
                        let title = to_lowercase(note.title.as_str());
                        let title_chars = chars_of(title.as_str());
                        wanted = same_chars(&title_chars, &search);
                    }
                }
                if wanted {
                    let entry = ChampionHistoryEntry {
                        patch_version: patch.version.clone(),
                        date: patch.fetched_at,
                        change: note.clone(),
                    };
                    let ghost held = found.deep_view();
                    ranks.push(Rank { first: entry.date, second: 0, third: 0 });
                    found.push(entry);
                    proof {
                        assert(found.deep_view() =~= held.push(entry@));
                        assert(before + patch_history(patch@, n + 1, name@, first, second)
                            =~= held.push(entry@));
                    }
                }
                n = n + 1;
            }
            p = p + 1;
        }
        assert(window.take(patches.len() as int) =~= window);
        let order = sorted_order(&ranks);
        let ghost src = found.deep_view();
        let mut out: Vec<ChampionHistoryEntry> = Vec::new();
        let mut k: usize = 0;
        while k < order.len()
            invariant
                k <= order.len(),
                src == found.deep_view(),
                sorts(order@, ranks@),
                ranks.len() == found.len(),
                out.len() == k,
                forall|n: int| 0 <= n < k ==> (#[trigger] out[n])@ == src[order[n] as int],
            decreases order.len() - k,
        {
            out.push(found[order[k]].clone());
            k = k + 1;
        }
        proof {
            let result = out.deep_view();
            assert(arranges(order@, src, result));
            assert forall|a: int, b: int| 0 <= a < b < result.len() implies (
            #[trigger] result[a]).date <= (#[trigger] result[b]).date by {
                assert(rank_le(ranks[order[a] as int], ranks[order[b] as int]));
                assert(ranks[order[a] as int].first == found[order[a] as int].date);
                assert(ranks[order[b] as int].first == found[order[b] as int].date);
            }
        }
        out
    }

    /// The history of a champion: its notes among the champions' notes.
    pub fn get_champion_history(patches: &Vec<PatchData>, champion_name: &str) -> (r: Vec<
        ChampionHistoryEntry,
    >)
        ensures
            is_history(
                r.deep_view(),
                patches.deep_view(),
                champion_name@,
                PatchCategory::Champions,
                PatchCategory::Champions,
            ),
    {
        Self::get_history_for_category(
            patches,
            champion_name,
            PatchCategory::Champions,
            PatchCategory::Champions,
        )
    }

    /// The history of an item: its notes among those on items and among
    /// those on items and runes together.
    pub fn get_item_history(patches: &Vec<PatchData>, item_name: &str) -> (r: Vec<
        ChampionHistoryEntry,
    >)
        ensures
            is_history(
                r.deep_view(),
                patches.deep_view(),
                item_name@,
                PatchCategory::Items,
                PatchCategory::ItemsRunes,
            ),
    {
        Self::get_history_for_category(
            patches,
            item_name,
            PatchCategory::Items,
            PatchCategory::ItemsRunes,
        )
    }

    /// The history of a rune: its notes among those on runes and among
    /// those on items and runes together.
    pub fn get_rune_history(patches: &Vec<PatchData>, rune_name: &str) -> (r: Vec<
        ChampionHistoryEntry,
    >)
        ensures
            is_history(
                r.deep_view(),
                patches.deep_view(),
                rune_name@,
                PatchCategory::Runes,
                PatchCategory::ItemsRunes,
            ),
    {
        Self::get_history_for_category(
            patches,
            rune_name,
            PatchCategory::Runes,
            PatchCategory::ItemsRunes,
        )
    }
}

} // verus!
