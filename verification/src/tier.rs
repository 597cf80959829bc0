//! The tier aggregator: for every entity that the patch notes of a window of
//! snapshots speak of, how many of its change lines are buffs, nerfs and
//! neutral adjustments, ranked, and remembered until the window changes.

use vstd::prelude::*;
use crate::extractor::all_lines;
use crate::models::{
    clone_opt_string, opt_view, ChangeBlock, PatchCategory, PatchData, PatchDataView,
    PatchNoteEntry, PatchNoteEntryView, TierEntry, TierEntryView,
};
use crate::order::{arranges, is_reordering, rank_le, sorted_order, sorts, Rank};
use crate::trend::{analyze_change_trend_backend, line_trend};
use crate::workflow::{LogLine, LogLineView};

verus! {

/// The greatest count that an entry can hold. A count that would go beyond
/// stays at it.
pub const COUNT_LIMIT: u32 = 0xffff_ffff;

/// A count as an entry holds it: the count itself up to [`COUNT_LIMIT`].
pub open spec fn capped(n: nat) -> nat {
    if n > COUNT_LIMIT {
        COUNT_LIMIT as nat
    } else {
        n
    }
}

/// How many of the lines have the given trend.
pub open spec fn count_trend(lines: Seq<Seq<char>>, trend: int) -> nat
    decreases lines.len(),
{
    if lines.len() == 0 {
        0
    } else {
        count_trend(lines.drop_last(), trend) + if line_trend(lines.last()) == trend {
            1nat
        } else {
            0nat
        }
    }
}

/// The notes of all the snapshots, snapshot after snapshot.
pub open spec fn all_notes(patches: Seq<PatchDataView>) -> Seq<PatchNoteEntryView>
    decreases patches.len(),
{
    if patches.len() == 0 {
        Seq::empty()
    } else {
        all_notes(patches.drop_last()) + patches.last().patch_notes
    }
}

/// The note speaks of the entity with the given name in the given category.
pub open spec fn is_about(note: PatchNoteEntryView, name: Seq<char>, category: PatchCategory) -> bool {
    note.title == name && note.category == category
}

/// One of the notes speaks of the entity.
pub open spec fn has_key(notes: Seq<PatchNoteEntryView>, name: Seq<char>, category: PatchCategory) -> bool
    decreases notes.len(),
{
    if notes.len() == 0 {
        false
    } else {
        is_about(notes.last(), name, category) || has_key(notes.drop_last(), name, category)
    }
}

/// The change lines that the notes hold for the entity, in the order of the
/// notes.
pub open spec fn key_lines(
    notes: Seq<PatchNoteEntryView>,
    name: Seq<char>,
    category: PatchCategory,
) -> Seq<Seq<char>>
    decreases notes.len(),
{
    if notes.len() == 0 {
        Seq::empty()
    } else if is_about(notes.last(), name, category) {
        key_lines(notes.drop_last(), name, category) + all_lines(notes.last().details)
    } else {
        key_lines(notes.drop_last(), name, category)
    }
}

/// The icon of the entity: the image of the last of its notes that has one.
pub open spec fn key_icon(
    notes: Seq<PatchNoteEntryView>,
    name: Seq<char>,
    category: PatchCategory,
) -> Option<Seq<char>>
    decreases notes.len(),
{
    if notes.len() == 0 {
        None
    } else if is_about(notes.last(), name, category) && notes.last().image_url is Some {
        notes.last().image_url
    } else {
        key_icon(notes.drop_last(), name, category)
    }
}

/// The entities that the notes speak of, each once, in the order in which the
/// notes first speak of them.
pub open spec fn keys(notes: Seq<PatchNoteEntryView>) -> Seq<(Seq<char>, PatchCategory)>
    decreases notes.len(),
{
    if notes.len() == 0 {
        Seq::empty()
    } else {
        let before = keys(notes.drop_last());
        if has_key(notes.drop_last(), notes.last().title, notes.last().category) {
            before
        } else {
            before.push((notes.last().title, notes.last().category))
        }
    }
}

/// The entry of an entity: how many of its change lines are buffs, nerfs and
/// neither, and its icon.
pub open spec fn key_entry(
    notes: Seq<PatchNoteEntryView>,
    name: Seq<char>,
    category: PatchCategory,
) -> TierEntryView {
    let lines = key_lines(notes, name, category);
    TierEntryView {
        name,
        category,
        buffs: capped(count_trend(lines, 1)),
        nerfs: capped(count_trend(lines, -1)),
        adjusted: capped(count_trend(lines, 0)),
        icon_url: key_icon(notes, name, category),
    }
}

/// The entries of all the entities that the notes speak of, in the order in
/// which the notes first speak of them.
pub open spec fn tally(notes: Seq<PatchNoteEntryView>) -> Seq<TierEntryView> {
    Seq::new(
        keys(notes).len(),
        |i: int| key_entry(notes, keys(notes)[i].0, keys(notes)[i].1),
    )
}

/// The rank of an entry: the greater surplus of buffs over nerfs comes first,
/// then the greater number of buffs, then the smaller number of nerfs.
pub open spec fn tier_rank(entry: TierEntryView) -> Rank {
    Rank {
        first: (entry.nerfs - entry.buffs) as i64,
        second: (-entry.buffs) as i64,
        third: entry.nerfs as i64,
    }
}

/// The entries come in the order of their ranks.
pub open spec fn in_tier_order(entries: Seq<TierEntryView>) -> bool {
    forall|i: int, j: int|
        0 <= i < j < entries.len() ==> rank_le(
            #[trigger] tier_rank(entries[i]),
            #[trigger] tier_rank(entries[j]),
        )
}

/// `entries` is a ranking of the window: the entries of all the entities that
/// its notes speak of, in the order of their ranks.
pub open spec fn is_ranking(entries: Seq<TierEntryView>, patches: Seq<PatchDataView>) -> bool {
    is_reordering(entries, tally(all_notes(patches))) && in_tier_order(entries)
}

/// The signature of a window: the version and the fetch time of each of its
/// snapshots, in order.
pub open spec fn signature_of(patches: Seq<PatchDataView>) -> Seq<(Seq<char>, int)> {
    Seq::new(patches.len(), |i: int| (patches[i].version, patches[i].fetched_at))
}

/// Counts of lines add up over a concatenation.
pub proof fn lemma_count_trend_add(a: Seq<Seq<char>>, b: Seq<Seq<char>>, trend: int)
    ensures
        count_trend(a + b, trend) == count_trend(a, trend) + count_trend(b, trend),
    decreases b.len(),
{
    if b.len() == 0 {
        assert(a + b =~= a);
    } else {
        assert((a + b).drop_last() =~= a + b.drop_last());
        assert((a + b).last() == b.last());
        lemma_count_trend_add(a, b.drop_last(), trend);
    }
}

/// Every line is a buff, a nerf or neither: the three counts add up to the
/// number of lines.
pub proof fn lemma_counts_partition(lines: Seq<Seq<char>>)
    ensures
        count_trend(lines, 1) + count_trend(lines, -1) + count_trend(lines, 0) == lines.len(),
    decreases lines.len(),
{
    if lines.len() > 0 {
        lemma_counts_partition(lines.drop_last());
    }
}

/// The keys are the entities that the notes speak of, each once.
pub proof fn lemma_keys(notes: Seq<PatchNoteEntryView>)
    ensures
        forall|name: Seq<char>, category: PatchCategory|
            has_key(notes, name, category) <==> keys(notes).contains((name, category)),
        forall|i: int, j: int| 0 <= i < j < keys(notes).len() ==> keys(notes)[i] != keys(notes)[j],
    decreases notes.len(),
{
    if notes.len() > 0 {
        let rest = notes.drop_last();
        let last = (notes.last().title, notes.last().category);
        lemma_keys(rest);
        let before = keys(rest);
        let now = keys(notes);
        assert forall|name: Seq<char>, category: PatchCategory|
            has_key(notes, name, category) <==> now.contains((name, category)) by {
            let k = (name, category);
            assert(has_key(rest, name, category) <==> before.contains(k));
            assert(is_about(notes.last(), name, category) <==> k == last);
            if has_key(rest, last.0, last.1) {
                assert(before.contains(last));
            } else {
                assert(now =~= before.push(last));
                if before.contains(k) {
                    let i = choose|i: int| 0 <= i < before.len() && before[i] == k;
                    assert(now[i] == k);
                }
                if k == last {
                    assert(now[now.len() - 1] == k);
                }
                if now.contains(k) && k != last {
                    let i = choose|i: int| 0 <= i < now.len() && now[i] == k;
                    assert(before[i] == k);
                }
            }
        }
        assert forall|i: int, j: int| 0 <= i < j < now.len() implies now[i] != now[j] by {
            if !has_key(rest, last.0, last.1) {
                if j == now.len() - 1 {
                    assert(before[i] == now[i]);
                    assert(before.contains(now[i]));
                }
            }
        }
    }
}

/// The sum of the three counts of every entry of a tally is the number of
/// change lines that the notes hold for the entity, as long as that number
/// does not go beyond the limit of a count.
pub proof fn lemma_tally_counts_lines(notes: Seq<PatchNoteEntryView>, i: int)
    requires
        0 <= i < tally(notes).len(),
        key_lines(notes, tally(notes)[i].name, tally(notes)[i].category).len() <= COUNT_LIMIT,
    ensures
        tally(notes)[i].buffs + tally(notes)[i].nerfs + tally(notes)[i].adjusted == key_lines(
            notes,
            tally(notes)[i].name,
            tally(notes)[i].category,
        ).len(),
        has_key(notes, tally(notes)[i].name, tally(notes)[i].category),
{
    let entry = tally(notes)[i];
    lemma_counts_partition(key_lines(notes, entry.name, entry.category));
    lemma_keys(notes);
    assert(keys(notes).contains(keys(notes)[i]));
}

/// Every entity that the notes speak of has exactly one entry in a tally.
pub proof fn lemma_tally_covers(notes: Seq<PatchNoteEntryView>, name: Seq<char>, category: PatchCategory)
    requires
        has_key(notes, name, category),
    ensures
        tally(notes).contains(key_entry(notes, name, category)),
        forall|i: int, j: int|
            0 <= i < j < tally(notes).len() ==> !((#[trigger] tally(notes)[i]).name == (
            #[trigger] tally(notes)[j]).name && tally(notes)[i].category == tally(
                notes,
            )[j].category),
{
    lemma_keys(notes);
    let k = (name, category);
    let i = choose|i: int| 0 <= i < keys(notes).len() && keys(notes)[i] == k;
    assert(tally(notes)[i] == key_entry(notes, name, category));
    assert forall|i: int, j: int| 0 <= i < j < tally(notes).len() implies !((
    #[trigger] tally(notes)[i]).name == (#[trigger] tally(notes)[j]).name && tally(
        notes,
    )[i].category == tally(notes)[j].category) by {
        assert(keys(notes)[i] != keys(notes)[j]);
    }
}

/// Notes that do not speak of an entity hold no lines and no icon for it.
pub proof fn lemma_no_key(notes: Seq<PatchNoteEntryView>, name: Seq<char>, category: PatchCategory)
    requires
        !has_key(notes, name, category),
    ensures
        key_lines(notes, name, category) =~= Seq::<Seq<char>>::empty(),
        key_icon(notes, name, category) is None,
    decreases notes.len(),
{
    if notes.len() > 0 {
        lemma_no_key(notes.drop_last(), name, category);
    }
}

/// The sum of two counts, staying at the limit.
fn add_counts(a: u32, b: u32) -> (r: u32)
    ensures
        r == capped((a + b) as nat),
{
    if a > COUNT_LIMIT - b {
        COUNT_LIMIT
    } else {
        a + b
    }
}

/// How many of the change lines of a note are buffs, nerfs and neither.
pub fn count_note(note: &PatchNoteEntry) -> (r: (u32, u32, u32))
    ensures
        r.0 == capped(count_trend(all_lines(note@.details), 1)),
        r.1 == capped(count_trend(all_lines(note@.details), -1)),
        r.2 == capped(count_trend(all_lines(note@.details), 0)),
{
    let ghost blocks = note.details.deep_view();
    let mut buffs: u32 = 0;
    let mut nerfs: u32 = 0;
    let mut adjusted: u32 = 0;
    let mut b: usize = 0;
    assert(blocks.take(0) =~= Seq::<crate::models::ChangeBlockView>::empty());
    while b < note.details.len()
        invariant
            b <= note.details.len(),
            blocks == note.details.deep_view(),
            buffs == capped(count_trend(all_lines(blocks.take(b as int)), 1)),
            nerfs == capped(count_trend(all_lines(blocks.take(b as int)), -1)),
            adjusted == capped(count_trend(all_lines(blocks.take(b as int)), 0)),
        decreases note.details.len() - b,
    {
        let block = &note.details[b];
        let ghost before = all_lines(blocks.take(b as int));
        let ghost lines = block.changes.deep_view();
        proof {
            assert(blocks.take(b + 1).drop_last() =~= blocks.take(b as int));
            assert(blocks.take(b + 1).last() == block@);
            assert(before + lines.take(0) =~= before);
        }
        let mut k: usize = 0;
        while k < block.changes.len()
            invariant
                k <= block.changes.len(),
                lines == block.changes.deep_view(),
                buffs == capped(count_trend(before + lines.take(k as int), 1)),
                nerfs == capped(count_trend(before + lines.take(k as int), -1)),
                adjusted == capped(count_trend(before + lines.take(k as int), 0)),
            decreases block.changes.len() - k,
        {
            let trend = analyze_change_trend_backend(block.changes[k].as_str());
            proof {
                let now = before + lines.take(k + 1);
                assert(now.drop_last() =~= before + lines.take(k as int));
                assert(now.last() == block.changes[k as int]@);
            }
            if trend == 1 {
                buffs = add_counts(buffs, 1);
            } else if trend == -1 {
                nerfs = add_counts(nerfs, 1);
            } else {
                adjusted = add_counts(adjusted, 1);
            }
            k = k + 1;
        }
        assert(lines.take(block.changes.len() as int) =~= lines);
        b = b + 1;
    }
    assert(blocks.take(note.details.len() as int) =~= blocks);
    (buffs, nerfs, adjusted)
}

/// Takes one more note into a tally.
fn absorb(entries: &mut Vec<TierEntry>, note: &PatchNoteEntry, Ghost(seen): Ghost<
    Seq<PatchNoteEntryView>,
>)
    requires
        old(entries).deep_view() == tally(seen),
    ensures
        final(entries).deep_view() == tally(seen.push(note@)),
{
    let ghost now = seen.push(note@);
    let ghost name = note@.title;
    let ghost category = note@.category;
    let ghost lines = all_lines(note@.details);
    proof {
        assert(now.drop_last() =~= seen);
        assert(now.last() == note@);
        lemma_keys(seen);
        lemma_count_trend_add(key_lines(seen, name, category), lines, 1);
        lemma_count_trend_add(key_lines(seen, name, category), lines, -1);
        lemma_count_trend_add(key_lines(seen, name, category), lines, 0);
    }
    let (buffs, nerfs, adjusted) = count_note(note);
    let mut at: usize = 0;
    let mut found = false;
    assert(entries.deep_view().len() == keys(seen).len());
    while at < entries.len() && !found
        invariant
            at <= entries.len(),
            entries.len() == keys(seen).len(),
            entries.deep_view() == tally(seen),
            name == note@.title,
            category == note@.category,
            forall|j: int| 0 <= j < at ==> keys(seen)[j] != (name, category),
            found ==> at < entries.len() && keys(seen)[at as int] == (name, category),
        decreases entries.len() - at + if found { 0int } else { 1int },
    {
        assert(entries.deep_view()[at as int] == entries[at as int]@);
        assert(tally(seen)[at as int] == key_entry(
            seen,
            keys(seen)[at as int].0,
            keys(seen)[at as int].1,
        ));
        if entries[at].category == note.category && entries[at].name == note.title {
            found = true;
        } else {
            at = at + 1;
        }
    }
    if found {
        let found = &entries[at];
        assert(entries.deep_view()[at as int] == found@);
        assert(keys(seen)[at as int] == (name, category));
        assert(keys(seen).contains((name, category)));
        let updated = TierEntry {
            name: found.name.clone(),
            category: found.category,
            buffs: add_counts(found.buffs, buffs),
            nerfs: add_counts(found.nerfs, nerfs),
            adjusted: add_counts(found.adjusted, adjusted),
            icon_url: match &note.image_url {
                Some(url) => Some(url.clone()),
                None => clone_opt_string(&found.icon_url),
            },
        };
        let ghost before = entries.deep_view();
        entries.set(at, updated);
        proof {
            assert(keys(now) == keys(seen));
            assert(updated@ == key_entry(now, name, category));
            assert forall|j: int| 0 <= j < entries.len() implies entries.deep_view()[j] == tally(
                now,
            )[j] by {
                if j != at {
                    assert(entries[j] == old(entries)[j]);
                    assert(before[j] == tally(seen)[j]);
                    assert(keys(seen)[j] != keys(seen)[at as int]);
                }
            }
            assert(entries.deep_view() =~= tally(now));
        }
    } else {
        proof {
            assert(!keys(seen).contains((name, category)));
            lemma_no_key(seen, name, category);
            assert(keys(now) == keys(seen).push((name, category)));
            assert(key_lines(now, name, category) =~= lines);
        }
        let fresh = TierEntry {
            name: note.title.clone(),
            category: note.category,
            buffs,
            nerfs,
            adjusted,
            icon_url: clone_opt_string(&note.image_url),
        };
        let ghost before = entries.deep_view();
        entries.push(fresh);
        proof {
            assert(fresh@ == key_entry(now, name, category));
            assert forall|j: int| 0 <= j < entries.len() implies entries.deep_view()[j] == tally(
                now,
            )[j] by {
                if j < before.len() {
                    assert(entries[j] == old(entries)[j]);
                    assert(before[j] == tally(seen)[j]);
                    assert(keys(seen)[j] != (name, category));
                }
            }
            assert(entries.deep_view() =~= tally(now));
        }
    }
}

/// The entries of all the entities that the notes of a window speak of, in
/// the order in which the notes first speak of them.
pub fn tally_notes(patches: &Vec<PatchData>) -> (r: Vec<TierEntry>)
    ensures
        r.deep_view() == tally(all_notes(patches.deep_view())),
{
    let ghost window = patches.deep_view();
    let mut entries: Vec<TierEntry> = Vec::new();
    let mut p: usize = 0;
    proof {
        assert(window.take(0) =~= Seq::<PatchDataView>::empty());
        assert(entries.deep_view() =~= tally(Seq::<PatchNoteEntryView>::empty()));
    }
    while p < patches.len()
        invariant
            p <= patches.len(),
            window == patches.deep_view(),
            entries.deep_view() == tally(all_notes(window.take(p as int))),
        decreases patches.len() - p,
    {
        let notes = &patches[p].patch_notes;
        let ghost before = all_notes(window.take(p as int));
        let ghost these = notes.deep_view();
        proof {
            assert(window.take(p + 1).drop_last() =~= window.take(p as int));
            assert(window.take(p + 1).last() == patches[p as int]@);
            assert(before + these.take(0) =~= before);
        }
        let mut n: usize = 0;
        while n < notes.len()
            invariant
                n <= notes.len(),
                these == notes.deep_view(),
                entries.deep_view() == tally(before + these.take(n as int)),
            decreases notes.len() - n,
        {
            proof {
                assert((before + these.take(n as int)).push(notes[n as int]@) =~= before
                    + these.take(n + 1));
            }
            absorb(&mut entries, &notes[n], Ghost(before + these.take(n as int)));
            n = n + 1;
        }
        assert(these.take(notes.len() as int) =~= these);
        p = p + 1;
    }
    assert(window.take(patches.len() as int) =~= window);
    entries
}

/// The rank of an entry.
fn rank_of(entry: &TierEntry) -> (r: Rank)
    ensures
        r == tier_rank(entry@),
{
    Rank {
        first: entry.nerfs as i64 - entry.buffs as i64,
        second: -(entry.buffs as i64),
        third: entry.nerfs as i64,
    }
}

/// Puts entries in the order of their ranks.
pub fn rank_entries(entries: &Vec<TierEntry>) -> (r: Vec<TierEntry>)
    ensures
        is_reordering(r.deep_view(), entries.deep_view()),
        in_tier_order(r.deep_view()),
{
    let mut ranks: Vec<Rank> = Vec::new();
    let mut i: usize = 0;
    while i < entries.len()
        invariant
            i <= entries.len(),
            ranks.len() == i,
            forall|k: int| 0 <= k < i ==> ranks[k] == tier_rank(#[trigger] entries[k]@),
        decreases entries.len() - i,
    {
        ranks.push(rank_of(&entries[i]));
        i = i + 1;
    }
    let order = sorted_order(&ranks);
    let ghost src = entries.deep_view();
    let mut out: Vec<TierEntry> = Vec::new();
    let mut k: usize = 0;
    while k < order.len()
        invariant
            k <= order.len(),
            src == entries.deep_view(),
            sorts(order@, ranks@),
            ranks.len() == entries.len(),
            out.len() == k,
            forall|n: int| 0 <= n < k ==> (#[trigger] out[n])@ == src[order[n] as int],
        decreases order.len() - k,
    {
        out.push(entries[order[k]].clone());
        k = k + 1;
    }
    proof {
        let result = out.deep_view();
        assert(arranges(order@, src, result));
        assert forall|a: int, b: int| 0 <= a < b < result.len() implies rank_le(
            #[trigger] tier_rank(result[a]),
            #[trigger] tier_rank(result[b]),
        ) by {
            assert(rank_le(ranks[order[a] as int], ranks[order[b] as int]));
            assert(ranks[order[a] as int] == tier_rank(entries[order[a] as int]@));
            assert(ranks[order[b] as int] == tier_rank(entries[order[b] as int]@));
        }
    }
    out
}

/// Copies a list of entries.
pub fn clone_entries(entries: &Vec<TierEntry>) -> (r: Vec<TierEntry>)
    ensures
        r.deep_view() == entries.deep_view(),
{
    let mut out: Vec<TierEntry> = Vec::new();
    let mut i: usize = 0;
    while i < entries.len()
        invariant
            i <= entries.len(),
            out.len() == i,
            forall|k: int| 0 <= k < i ==> out[k]@ == entries[k]@,
        decreases entries.len() - i,
    {
        out.push(entries[i].clone());
        i = i + 1;
    }
    assert(out.deep_view() =~= entries.deep_view());
    out
}

/// What a cache remembers, if it remembers anything: the signature of a
/// window and the ranking that was made for it.
pub type CacheView = Option<(Seq<(Seq<char>, int)>, Seq<TierEntryView>)>;

/// The cache holds a ranking for a window with the signature of `patches`.
pub open spec fn is_hit(cache: CacheView, patches: Seq<PatchDataView>) -> bool {
    cache matches Some((signature, _)) && signature == signature_of(patches)
}

/// The ranking that a cache remembers, or none.
pub open spec fn remembered(cache: CacheView) -> Seq<TierEntryView> {
    match cache {
        Some((_, entries)) => entries,
        None => Seq::empty(),
    }
}

/// What a request for the ranking of a window does to a cache, and what it
/// hands out. Where the cache holds a ranking under the window's signature,
/// that ranking is handed out as it is and the cache stays as it was. Else a
/// ranking of the window is made, and the cache holds it and nothing else.
pub open spec fn serves(
    before: CacheView,
    patches: Seq<PatchDataView>,
    after: CacheView,
    result: Seq<TierEntryView>,
) -> bool {
    if is_hit(before, patches) {
        after == before && result == remembered(before)
    } else {
        is_ranking(result, patches) && after == Some((signature_of(patches), result))
    }
}

/// What is logged when a request is answered from the cache.
pub const CACHE_HIT: &'static str = "Tier list served from cache.";

/// What is logged when a ranking is made anew.
pub const CACHE_MISS: &'static str = "Tier list recomputed.";

/// The line that a request leaves in the log: whether it was answered from
/// the cache or with a ranking made anew.
pub open spec fn cache_event(hit: bool) -> LogLineView {
    LogLineView {
        level: "INFO"@,
        message: if hit {
            CACHE_HIT@
        } else {
            CACHE_MISS@
        },
    }
}

/// The signature that a list of versions and fetch times stands for.
pub open spec fn stamps_view(stamps: Seq<(String, i64)>) -> Seq<(Seq<char>, int)> {
    Seq::new(stamps.len(), |i: int| (stamps[i].0@, stamps[i].1 as int))
}

/// The one place in which a ranking is remembered, together with the
/// signature of the window it was made for. It is replaced as a whole, never
/// in part.
pub struct TierCache {
    filled: bool,
    signature: Vec<(String, i64)>,
    entries: Vec<TierEntry>,
}

impl View for TierCache {
    type V = CacheView;

    closed spec fn view(&self) -> CacheView {
        if self.filled {
            Some((stamps_view(self.signature@), self.entries.deep_view()))
        } else {
            None
        }
    }
}

/// The signature of a window.
pub fn signature(patches: &Vec<PatchData>) -> (r: Vec<(String, i64)>)
    ensures
        stamps_view(r@) == signature_of(patches.deep_view()),
{
    let mut out: Vec<(String, i64)> = Vec::new();
    let mut i: usize = 0;
    while i < patches.len()
        invariant
            i <= patches.len(),
            out.len() == i,
            forall|k: int|
                0 <= k < i ==> (#[trigger] out[k]).0@ == patches[k]@.version && out[k].1
                    == patches[k]@.fetched_at,
        decreases patches.len() - i,
    {
        out.push((patches[i].version.clone(), patches[i].fetched_at));
        i = i + 1;
    }
    assert(stamps_view(out@) =~= signature_of(patches.deep_view()));
    out
}

/// Whether two signatures are the same.
pub fn same_signature(a: &Vec<(String, i64)>, b: &Vec<(String, i64)>) -> (r: bool)
    ensures
        r == (stamps_view(a@) == stamps_view(b@)),
{
    if a.len() != b.len() {
        assert(stamps_view(a@).len() != stamps_view(b@).len());
        return false;
    }
    let mut i: usize = 0;
    while i < a.len()
        invariant
            i <= a.len(),
            a.len() == b.len(),
            forall|k: int| 0 <= k < i ==> stamps_view(a@)[k] == stamps_view(b@)[k],
        decreases a.len() - i,
    {
        if a[i].1 != b[i].1 || a[i].0 != b[i].0 {
            assert(stamps_view(a@)[i as int] != stamps_view(b@)[i as int]);
            return false;
        }
        i = i + 1;
    }
    assert(stamps_view(a@) =~= stamps_view(b@));
    true
}

impl TierCache {
    /// A cache that remembers nothing.
    pub fn new() -> (r: TierCache)
        ensures
            r@ is None,
    {
        TierCache { filled: false, signature: Vec::new(), entries: Vec::new() }
    }

    /// Forgets what the cache remembers.
    pub fn clear(&mut self)
        ensures
            final(self)@ is None,
    {
        self.filled = false;
        self.signature = Vec::new();
        self.entries = Vec::new();
    }

    /// Whether the cache holds a ranking for a window with the signature of
    /// `patches`.
    pub fn holds(&self, patches: &Vec<PatchData>) -> (r: bool)
        ensures
            r == is_hit(self@, patches.deep_view()),
    {
        if !self.filled {
            return false;
        }
        let fresh = signature(patches);
        same_signature(&self.signature, &fresh)
    }

    /// The ranking of a window of snapshots: from the cache where it holds one
    /// under the window's signature, else made anew and remembered.
    pub fn get_tier_list(&mut self, patches: &Vec<PatchData>) -> (r: Vec<TierEntry>)
        ensures
            serves(old(self)@, patches.deep_view(), final(self)@, r.deep_view()),
    {
        let fresh = signature(patches);
        if self.filled && same_signature(&self.signature, &fresh) {
            return clone_entries(&self.entries);
        }
        let entries = tally_notes(patches);
        let ranked = rank_entries(&entries);
        self.signature = fresh;
        self.entries = clone_entries(&ranked);
        self.filled = true;
        ranked
    }

    /// The ranking of a window of snapshots, as [`TierCache::get_tier_list`]
    /// gives it, with the line for the log that says whether it came from the
    /// cache.
    pub fn get_tier_list_logged(&mut self, patches: &Vec<PatchData>) -> (r: (
        Vec<TierEntry>,
        LogLine,
    ))
        ensures
            serves(old(self)@, patches.deep_view(), final(self)@, r.0.deep_view()),
            r.1@ == cache_event(is_hit(old(self)@, patches.deep_view())),
    {
        let hit = self.holds(patches);
        let entries = self.get_tier_list(patches);
        let line = LogLine {
            level: "INFO".to_owned(),
            message: if hit {
                CACHE_HIT.to_owned()
            } else {
                CACHE_MISS.to_owned()
            },
        };
        (entries, line)
    }
}

/// Two windows have the same signature exactly when they are equally long
/// and agree, snapshot by snapshot, in version and fetch time.
pub proof fn lemma_signature_tells_apart(a: Seq<PatchDataView>, b: Seq<PatchDataView>)
    ensures
        signature_of(a) == signature_of(b) <==> (a.len() == b.len() && forall|i: int|
            0 <= i < a.len() ==> (#[trigger] a[i]).version == b[i].version && a[i].fetched_at
                == b[i].fetched_at),
{
    if signature_of(a) == signature_of(b) {
        assert(signature_of(a).len() == signature_of(b).len());
        assert forall|i: int| 0 <= i < a.len() implies (#[trigger] a[i]).version == b[i].version
            && a[i].fetched_at == b[i].fetched_at by {
            assert(signature_of(a)[i] == signature_of(b)[i]);
        }
    }
    if a.len() == b.len() && forall|i: int|
        0 <= i < a.len() ==> (#[trigger] a[i]).version == b[i].version && a[i].fetched_at
            == b[i].fetched_at {
        assert(signature_of(a) =~= signature_of(b));
    }
}

/// Two requests in a row for windows with one signature hand out the same
/// ranking, and the second leaves the cache as it found it.
pub proof fn lemma_repeated_request_is_a_hit(
    start: CacheView,
    first_window: Seq<PatchDataView>,
    between: CacheView,
    first: Seq<TierEntryView>,
    second_window: Seq<PatchDataView>,
    end: CacheView,
    second: Seq<TierEntryView>,
)
    requires
        serves(start, first_window, between, first),
        serves(between, second_window, end, second),
        signature_of(second_window) == signature_of(first_window),
    ensures
        second == first,
        end == between,
{
}

/// A request for a window whose signature differs from the remembered one is
/// answered with a ranking made anew for that window, and the cache then
/// remembers that ranking under the new signature.
pub proof fn lemma_changed_window_is_ranked_anew(
    start: CacheView,
    first_window: Seq<PatchDataView>,
    between: CacheView,
    first: Seq<TierEntryView>,
    second_window: Seq<PatchDataView>,
    end: CacheView,
    second: Seq<TierEntryView>,
)
    requires
        serves(start, first_window, between, first),
        serves(between, second_window, end, second),
        signature_of(second_window) != signature_of(first_window),
    ensures
        is_ranking(second, second_window),
        end == Some((signature_of(second_window), second)),
{
}

/// In a ranking, the three counts of every entry add up to the number of
/// change lines that the notes of the window hold for the entry's name and
/// category, as long as that number does not go beyond the limit of a count;
/// and every entity that the notes speak of has its entry.
pub proof fn lemma_ranking_counts_lines(entries: Seq<TierEntryView>, patches: Seq<PatchDataView>)
    requires
        is_ranking(entries, patches),
    ensures
        forall|i: int|
            0 <= i < entries.len() && key_lines(
                all_notes(patches),
                (#[trigger] entries[i]).name,
                entries[i].category,
            ).len() <= COUNT_LIMIT ==> entries[i].buffs + entries[i].nerfs + entries[i].adjusted
                == key_lines(all_notes(patches), entries[i].name, entries[i].category).len(),
        forall|i: int|
            0 <= i < entries.len() ==> has_key(
                all_notes(patches),
                (#[trigger] entries[i]).name,
                entries[i].category,
            ),
        forall|name: Seq<char>, category: PatchCategory|
            has_key(all_notes(patches), name, category) ==> entries.contains(
                key_entry(all_notes(patches), name, category),
            ),
{
    let notes = all_notes(patches);
    let src = tally(notes);
    let order = choose|order: Seq<usize>| arranges(order, src, entries);
    lemma_keys(notes);
    assert forall|i: int| 0 <= i < entries.len() implies has_key(
        notes,
        (#[trigger] entries[i]).name,
        entries[i].category,
    ) && (key_lines(notes, entries[i].name, entries[i].category).len() <= COUNT_LIMIT
        ==> entries[i].buffs + entries[i].nerfs + entries[i].adjusted == key_lines(
        notes,
        entries[i].name,
        entries[i].category,
    ).len()) by {
        let k = order[i] as int;
        assert(entries[i] == src[k]);
        assert(keys(notes).contains(keys(notes)[k]));
        if key_lines(notes, entries[i].name, entries[i].category).len() <= COUNT_LIMIT {
            lemma_tally_counts_lines(notes, k);
        }
    }
    assert forall|name: Seq<char>, category: PatchCategory|
        has_key(notes, name, category) implies entries.contains(
        key_entry(notes, name, category),
    ) by {
        lemma_tally_covers(notes, name, category);
        let entry = key_entry(notes, name, category);
        let k = choose|k: int| 0 <= k < src.len() && src[k] == entry;
        let n = crate::order::lemma_permutation_reaches(order, src.len(), k);
        assert(entries[n] == entry);
    }
}

} // verus!
