//! What the commands of the application compute, once their data is at hand.

use vstd::prelude::*;
use crate::analyzer::{in_rank_order, material_diffs, predicted_first, Analyzer};
use crate::models::{
    ChampionListItem, ChampionListItemView, LogEntry, LogEntryView, MetaAnalysisDiff,
    MetaAnalysisDiffView, PatchCategory, PatchData, PatchDataView, PatchNoteEntryView,
};
use crate::order::is_reordering;
use crate::text::{add_distinct, chars_of, distinct, same_chars};
use crate::tier::all_notes;

verus! {

/// The position of the first snapshot at or after `from` whose version is not
/// `version`, or the length of the list where there is none.
pub open spec fn other_version_at(recent: Seq<PatchDataView>, version: Seq<char>, from: int) -> int
    decreases recent.len() - from,
{
    if 0 <= from < recent.len() && recent[from].version == version {
        other_version_at(recent, version, from + 1)
    } else {
        from
    }
}

/// The titles of the notes of a category, in the order of the notes.
pub open spec fn category_titles(notes: Seq<PatchNoteEntryView>, category: PatchCategory) -> Seq<
    Seq<char>,
>
    decreases notes.len(),
{
    if notes.len() == 0 {
        Seq::empty()
    } else {
        let before = category_titles(notes.drop_last(), category);
        if notes.last().category == category {
            before.push(notes.last().title)
        } else {
            before
        }
    }
}

/// The line that the console shows for a log entry: the level in square
/// brackets, a space, and the message.
pub open spec fn console_text(level: Seq<char>, message: Seq<char>) -> Seq<char> {
    seq!['['] + level + seq![']', ' '] + message
}

impl LogEntry {
    /// A log entry.
    pub fn new(level: &str, message: &str, timestamp: &str) -> (r: LogEntry)
        ensures
            r@ == (LogEntryView { level: level@, message: message@, timestamp: timestamp@ }),
    {
        LogEntry {
            level: level.to_owned(),
            message: message.to_owned(),
            timestamp: timestamp.to_owned(),
        }
    }

    /// The line that the console shows for the entry.
    pub fn console_line(&self) -> (r: String)
        ensures
            r@ == console_text(self@.level, self@.message),
    {
        let mut line = String::new();
        proof {
            reveal_strlit("[");
            reveal_strlit("] ");
            assert("["@ =~= seq!['[']);
            assert("] "@ =~= seq![']', ' ']);
        }
        line.append("[");
        line.append(self.level.as_str());
        line.append("] ");
        line.append(self.message.as_str());
        assert(line@ =~= console_text(self@.level, self@.message));
        line
    }
}

/// The comparison of a snapshot with the latest stored snapshot of another
/// version: the first in `recent` whose version is not `version`. Where all
/// stored snapshots have that version, there is nothing to compare.
pub fn analyze_patch(version: &str, current: &PatchData, recent: &Vec<PatchData>) -> (r: Vec<
    MetaAnalysisDiff,
>)
    ensures
        other_version_at(recent.deep_view(), version@, 0) >= recent.len() ==> r.len() == 0,
        other_version_at(recent.deep_view(), version@, 0) < recent.len() ==> {
            &&& is_reordering(
                r.deep_view(),
                material_diffs(
                    current@.champions,
                    current@.patch_notes,
                    recent.deep_view()[other_version_at(recent.deep_view(), version@, 0)].champions,
                ),
            )
            &&& in_rank_order(r.deep_view())
            &&& predicted_first(r.deep_view())
        },
{
    let ghost window = recent.deep_view();
    let wanted = chars_of(version);
    let mut i: usize = 0;
    while i < recent.len()
        invariant
            i <= recent.len(),
            window == recent.deep_view(),
            wanted@ == version@,
            other_version_at(window, version@, 0) == other_version_at(window, version@, i as int),
        decreases recent.len() - i,
    {
        assert(window[i as int] == recent[i as int]@);
        let v = chars_of(recent[i].version.as_str());
        if !same_chars(&v, &wanted) {
            return Analyzer::compare_patches(current, &recent[i]);
        }
        i = i + 1;
    }
    Vec::new()
}

/// The latest stored snapshot: the first of the list, if there is one.
pub fn get_latest_patch_data(recent: &Vec<PatchData>) -> (r: Option<PatchData>)
    ensures
        r is Some <==> recent.len() > 0,
        r matches Some(patch) ==> patch@ == recent[0]@,
{
    if recent.len() > 0 {
        Some(recent[0].clone())
    } else {
        None
    }
}

/// The titles of all the notes on items and runes together, each once, in the
/// order in which the snapshots first name them.
pub fn get_changed_itemsrunes_titles(patches: &Vec<PatchData>) -> (r: Vec<String>)
    ensures
        r.deep_view() == distinct(
            category_titles(all_notes(patches.deep_view()), PatchCategory::ItemsRunes),
        ),
{
    let ghost window = patches.deep_view();
    let mut titles: Vec<String> = Vec::new();
    let mut p: usize = 0;
    proof {
        assert(window.take(0) =~= Seq::<PatchDataView>::empty());
        assert(titles.deep_view() =~= Seq::<Seq<char>>::empty());
    }
    while p < patches.len()
        invariant
            p <= patches.len(),
            window == patches.deep_view(),
            titles.deep_view() == category_titles(
                all_notes(window.take(p as int)),
                PatchCategory::ItemsRunes,
            ),
        decreases patches.len() - p,
    {
        let notes = &patches[p].patch_notes;
        let ghost before = all_notes(window.take(p as int));
        let ghost these = notes.deep_view();
        proof {
            assert(window.take(p + 1).drop_last() =~= window.take(p as int));
            assert(window.take(p + 1).last() == patches[p as int]@);
            assert(before + these.take(0) =~= before);
        }
        let mut n: usize = 0;
        while n < notes.len()
            invariant
                n <= notes.len(),
                these == notes.deep_view(),
                titles.deep_view() == category_titles(
                    before + these.take(n as int),
                    PatchCategory::ItemsRunes,
                ),
            decreases notes.len() - n,
        {
            proof {
                let now = before + these.take(n + 1);
                assert(now.drop_last() =~= before + these.take(n as int));
                assert(now.last() == notes[n as int]@);
            }
            if notes[n].category == PatchCategory::ItemsRunes {
                let ghost held = titles.deep_view();
                titles.push(notes[n].title.clone());
                assert(titles.deep_view() =~= held.push(notes[n as int]@.title));
            }
            n = n + 1;
        }
        assert(these.take(notes.len() as int) =~= these);
        p = p + 1;
    }
    assert(window.take(patches.len() as int) =~= window);
    let mut out: Vec<String> = Vec::new();
    proof {
        assert(out.deep_view() =~= distinct(Seq::<Seq<char>>::empty()));
        assert(Seq::<Seq<char>>::empty() + titles.deep_view() =~= titles.deep_view());
    }
    add_distinct(&mut out, &titles, Ghost(Seq::empty()));
    out
}

/// The champion list, from the names and icons of the champions: for each
/// champion its localized name, its English name and the address of its icon.
pub fn get_all_champions(list: &Vec<(String, String, String)>) -> (r: Vec<ChampionListItem>)
    ensures
        r.len() == list.len(),
        forall|i: int|
            0 <= i < list.len() ==> (#[trigger] r[i])@ == (ChampionListItemView {
                name: list[i].0@,
                name_en: list[i].1@,
                icon_url: list[i].2@,
            }),
{
    let mut out: Vec<ChampionListItem> = Vec::new();
    let mut i: usize = 0;
    while i < list.len()
        invariant
            i <= list.len(),
            out.len() == i,
            forall|k: int|
                0 <= k < i ==> (#[trigger] out[k])@ == (ChampionListItemView {
                    name: list[k].0@,
                    name_en: list[k].1@,
                    icon_url: list[k].2@,
                }),
        decreases list.len() - i,
    {
        out.push(
            ChampionListItem {
                name: list[i].0.clone(),
                name_en: list[i].1.clone(),
                icon_url: list[i].2.clone(),
            },
        );
        i = i + 1;
    }
    out
}

} // verus!
