//! What the scraper computes from the pages it is given: the versions that
//! the patch-notes listing names, the address of a patch's notes, and the
//! snapshot of a patch.

use vstd::prelude::*;
use crate::decimal::{parse_integer, written_integer};
use crate::extractor::{extract_patch_notes, extracted, DocNode};
use crate::models::{
    clone_opt_string, opt_view, ChampionStats, ChampionStatsView, ItemStatView, LaneRole,
    PatchCategory, PatchData, PatchDataView, PatchNoteEntry, PatchNoteEntryView,
};
use crate::lexical::{text_lt, TextKey};
use crate::order::{
    arranges, is_reordering, rank_le, sorted_order, sorted_order_by, sorts, sorts_by, Rank,
    SortKey,
};
use crate::text::{add_distinct, chars_of, distinct, regex_captures, regex_groups, string_of};

verus! {

/// A link to the notes of a patch: the two numbers of the version are its two
/// groups.
pub const PATCH_LINK: &'static str = r"patch-(\d+)-(\d+)-notes";

/// What the address of a patch's notes starts with.
pub const NOTES_ADDRESS: &'static str =
    "https://www.leagueoflegends.com/ru-ru/news/game-updates/patch-";

/// What the address of a patch's notes ends with.
pub const NOTES_ADDRESS_END: &'static str = "-notes/";

/// The win rate of a champion of which no statistics are known: fifty
/// percent, in hundredths of a percentage point.
pub const EVEN_WIN_RATE: i32 = 5000;

/// The version that a link names: the two numbers of the link with a point
/// between them. A link that is no link to patch notes names none.
pub open spec fn href_version(href: Seq<char>) -> Option<Seq<char>> {
    match regex_groups(PATCH_LINK@, href) {
        Some(Some(groups)) => version_of_groups(groups),
        _ => None,
    }
}

/// The version that the groups of a link give.
pub open spec fn version_of_groups(groups: Seq<Option<Seq<char>>>) -> Option<Seq<char>> {
    if groups.len() == 3 && groups[1] is Some && groups[2] is Some {
        Some(groups[1]->0.push('.') + groups[2]->0)
    } else {
        None
    }
}

/// The version that the groups of a link give: the second and the third group
/// with a point between them, where there are exactly three groups and both
/// took part in the match.
pub fn version_from_groups(groups: &Vec<Option<String>>) -> (r: Option<String>)
    ensures
        opt_view(r) == version_of_groups(groups.deep_view()),
{
    if groups.len() != 3 {
        return None;
    }
    assert(groups.deep_view()[1] == groups[1].deep_view());
    assert(groups.deep_view()[2] == groups[2].deep_view());
    match (&groups[1], &groups[2]) {
        (Some(major), Some(minor)) => {
            let mut text = chars_of(major.as_str());
            text.push('.');
            let rest = chars_of(minor.as_str());
            let ghost head = text@;
            let mut i: usize = 0;
            while i < rest.len()
                invariant
                    i <= rest.len(),
                    text@ == head + rest@.take(i as int),
                decreases rest.len() - i,
            {
                text.push(rest[i]);
                assert(head + rest@.take(i + 1) =~= (head + rest@.take(i as int)).push(
                    rest[i as int],
                ));
                i = i + 1;
            }
            assert(rest@.take(rest.len() as int) =~= rest@);
            Some(string_of(&text))
        },
        _ => None,
    }
}

/// The version that a link names.
pub fn version_from_href(href: &str) -> (r: Option<String>)
    ensures
        opt_view(r) == href_version(href@),
{
    match regex_captures(PATCH_LINK, href) {
        Some(Some(groups)) => version_from_groups(&groups),
        _ => None,
    }
}

/// The number that a text writes, as the standard parser of 32-bit integers
/// reads it: an optional sign and at least one decimal digit, nothing else,
/// and a value that fits in 32 bits. Any other text writes no number.
pub open spec fn written_number(s: Seq<char>) -> Option<int> {
    written_integer(s, -0x8000_0000, 0x7fff_ffff)
}

/// Reads a text as a 32-bit integer.
pub fn parse_number(text: &str) -> (r: Option<i32>)
    ensures
        r is Some <==> written_number(text@) is Some,
        r matches Some(v) ==> written_number(text@) == Some(v as int),
{
    match parse_integer(text, -0x8000_0000, 0x7fff_ffff) {
        Some(v) => Some(v as i32),
        None => None,
    }
}

/// Where the piece of a version that starts at `from` ends: at the first point
/// at or after `from`, or at the end of the text.
pub open spec fn piece_end(s: Seq<char>, from: int) -> int
    decreases s.len() - from,
{
    if 0 <= from < s.len() && s[from] != '.' {
        piece_end(s, from + 1)
    } else {
        from
    }
}

/// The number of a piece: the number it writes, or zero where it writes none.
pub open spec fn piece_number(piece: Seq<char>) -> int {
    match written_number(piece) {
        Some(v) => v,
        None => 0,
    }
}

/// The major number of a version: the number of the piece before the first
/// point.
pub open spec fn major_of(version: Seq<char>) -> int {
    piece_number(version.subrange(0, piece_end(version, 0)))
}

/// The minor number of a version: the number of the piece between the first
/// and the second point, zero where there is no first point.
pub open spec fn minor_of(version: Seq<char>) -> int {
    let first = piece_end(version, 0);
    if first < version.len() {
        piece_number(version.subrange(first + 1, piece_end(version, first + 1)))
    } else {
        0
    }
}

/// The rank of a version in a list of patches: the later patch comes first.
pub open spec fn version_rank(version: Seq<char>) -> Rank {
    Rank { first: (-major_of(version)) as i64, second: (-minor_of(version)) as i64, third: 0 }
}

/// The piece of `s` from `from` to the next point or the end, and where it
/// ends.
fn read_piece(s: &Vec<char>, from: usize) -> (r: (String, usize))
    requires
        from <= s.len(),
    ensures
        r.1 == piece_end(s@, from as int),
        from <= r.1 <= s.len(),
        r.0@ == s@.subrange(from as int, r.1 as int),
{
    let mut piece: Vec<char> = Vec::new();
    let mut end: usize = from;
    while end < s.len() && s[end] != '.'
        invariant
            from <= end <= s.len(),
            piece_end(s@, end as int) == piece_end(s@, from as int),
            piece@ == s@.subrange(from as int, end as int),
        decreases s.len() - end,
    {
        piece.push(s[end]);
        assert(s@.subrange(from as int, end + 1) =~= s@.subrange(from as int, end as int).push(
            s[end as int],
        ));
        end = end + 1;
    }
    (string_of(&piece), end)
}

/// The rank of a version in a list of patches.
pub fn rank_of_version(version: &str) -> (r: Rank)
    ensures
        r == version_rank(version@),
{
    let s = chars_of(version);
    let (first_piece, first_end) = read_piece(&s, 0);
    let major: i32 = match parse_number(first_piece.as_str()) {
        Some(v) => v,
        None => 0,
    };
    let minor: i32 = if first_end < s.len() {
        let (second_piece, _) = read_piece(&s, first_end + 1);
        match parse_number(second_piece.as_str()) {
            Some(v) => v,
            None => 0,
        }
    } else {
        0
    };
    Rank { first: -(major as i64), second: -(minor as i64), third: 0 }
}

/// The versions that a list of links names, in the order of the links.
pub open spec fn link_versions(hrefs: Seq<Seq<char>>) -> Seq<Seq<char>>
    decreases hrefs.len(),
{
    if hrefs.len() == 0 {
        Seq::empty()
    } else {
        let before = link_versions(hrefs.drop_last());
        match href_version(hrefs.last()) {
            Some(version) => before.push(version),
            None => before,
        }
    }
}

/// The patches that are listed whatever the pages say.
pub open spec fn known_patches() -> Seq<Seq<char>> {
    seq![
        "25.23"@,
        "25.22"@,
        "25.21"@,
        "25.20"@,
        "25.19"@,
        "25.18"@,
        "25.17"@,
        "25.16"@,
        "25.15"@,
        "25.14"@,
        "25.13"@,
        "25.12"@,
        "25.11"@,
        "25.10"@,
        "25.09"@,
        "25.08"@,
        "25.07"@,
        "25.06"@,
        "25.05"@,
        "25.04"@,
    ]
}

/// The patches that can be had, before they are put in order: the versions
/// that the links of the first page name, then those of the second page, then
/// the patches that are always listed, each version once.
pub open spec fn listed_patches(first: Seq<Seq<char>>, second: Seq<Seq<char>>) -> Seq<Seq<char>> {
    distinct(link_versions(first) + link_versions(second) + known_patches())
}

/// The versions come in the order of their ranks: the later patch first.
pub open spec fn in_version_order(versions: Seq<Seq<char>>) -> bool {
    forall|i: int, j: int|
        0 <= i < j < versions.len() ==> rank_le(
            #[trigger] version_rank(versions[i]),
            #[trigger] version_rank(versions[j]),
        )
}

/// One of the links names the version.
pub open spec fn names_version(hrefs: Seq<Seq<char>>, version: Seq<char>) -> bool {
    exists|i: int| 0 <= i < hrefs.len() && href_version(#[trigger] hrefs[i]) == Some(version)
}

/// The patches that are always listed.
pub fn fallback_patches() -> (r: Vec<String>)
    ensures
        r.deep_view() == known_patches(),
{
    let mut out: Vec<String> = Vec::new();
    out.push("25.23".to_owned());
    out.push("25.22".to_owned());
    out.push("25.21".to_owned());
    out.push("25.20".to_owned());
    out.push("25.19".to_owned());
    out.push("25.18".to_owned());
    out.push("25.17".to_owned());
    out.push("25.16".to_owned());
    out.push("25.15".to_owned());
    out.push("25.14".to_owned());
    out.push("25.13".to_owned());
    out.push("25.12".to_owned());
    out.push("25.11".to_owned());
    out.push("25.10".to_owned());
    out.push("25.09".to_owned());
    out.push("25.08".to_owned());
    out.push("25.07".to_owned());
    out.push("25.06".to_owned());
    out.push("25.05".to_owned());
    out.push("25.04".to_owned());
    assert(out.deep_view() =~= known_patches());
    out
}

/// The versions that a list of links names.
pub fn versions_of_links(hrefs: &Vec<String>) -> (r: Vec<String>)
    ensures
        r.deep_view() == link_versions(hrefs.deep_view()),
{
    let ghost all = hrefs.deep_view();
    let mut out: Vec<String> = Vec::new();
    let mut i: usize = 0;
    assert(out.deep_view() =~= link_versions(all.take(0)));
    while i < hrefs.len()
        invariant
            i <= hrefs.len(),
            all == hrefs.deep_view(),
            out.deep_view() == link_versions(all.take(i as int)),
        decreases hrefs.len() - i,
    {
        proof {
            assert(all.take(i + 1).drop_last() =~= all.take(i as int));
            assert(all.take(i + 1).last() == hrefs[i as int]@);
        }
        match version_from_href(hrefs[i].as_str()) {
            Some(version) => {
                let ghost held = out.deep_view();
                out.push(version);
                assert(out.deep_view() =~= held.push(version@));
            },
            None => {},
        }
        i = i + 1;
    }
    assert(all.take(hrefs.len() as int) =~= all);
    out
}

/// The statistics that stand for a champion of which only a note is known:
/// named by the note, in the middle lane, with an even win rate and the note's
/// image.
pub open spec fn placeholder_stats(note: PatchNoteEntryView) -> ChampionStatsView {
    ChampionStatsView {
        id: note.title,
        name: note.title,
        tier: "?"@,
        role: LaneRole::Mid,
        win_rate: EVEN_WIN_RATE as int,
        pick_rate: 0,
        ban_rate: 0,
        image_url: note.image_url,
        core_items: Seq::empty(),
        popular_runes: Seq::empty(),
    }
}

/// The placeholder statistics of all the champions that the notes speak of,
/// in the order of the notes.
pub open spec fn placeholders(notes: Seq<PatchNoteEntryView>) -> Seq<ChampionStatsView>
    decreases notes.len(),
{
    if notes.len() == 0 {
        Seq::empty()
    } else {
        let before = placeholders(notes.drop_last());
        if notes.last().category == PatchCategory::Champions {
            before.push(placeholder_stats(notes.last()))
        } else {
            before
        }
    }
}

/// The champions of a snapshot: the statistics that were found, or, where
/// none were found, a placeholder for each champion that the notes speak of.
pub open spec fn snapshot_champions(
    found: Seq<ChampionStatsView>,
    notes: Seq<PatchNoteEntryView>,
) -> Seq<ChampionStatsView> {
    if found.len() == 0 {
        placeholders(notes)
    } else {
        found
    }
}

/// The address of the notes of a patch: the version with a hyphen for each
/// point, between the fixed start and end of the address.
pub open spec fn notes_address(version: Seq<char>) -> Seq<char> {
    NOTES_ADDRESS@ + version.map_values(
        |c: char|
            if c == '.' {
                '-'
            } else {
                c
            },
    ) + NOTES_ADDRESS_END@
}

/// The scraper, for what it computes.
pub struct Scraper;

impl Scraper {
    /// The patches that can be had, the latest first: the versions that the
    /// links of the two listing pages name and the patches that are always
    /// listed, each once.
    pub fn fetch_available_patches(first_page: &Vec<String>, second_page: &Vec<String>) -> (r:
        Vec<String>)
        ensures
            is_reordering(
                r.deep_view(),
                listed_patches(first_page.deep_view(), second_page.deep_view()),
            ),
            in_version_order(r.deep_view()),
    {
        let first = versions_of_links(first_page);
        let second = versions_of_links(second_page);
        let known = fallback_patches();
        let mut patches: Vec<String> = Vec::new();
        proof {
            assert(patches.deep_view() =~= distinct(Seq::<Seq<char>>::empty()));
            assert(Seq::<Seq<char>>::empty() + first.deep_view() =~= first.deep_view());
        }
        add_distinct(&mut patches, &first, Ghost(Seq::empty()));
        add_distinct(&mut patches, &second, Ghost(first.deep_view()));
        add_distinct(&mut patches, &known, Ghost(first.deep_view() + second.deep_view()));
        let mut ranks: Vec<Rank> = Vec::new();
        let mut i: usize = 0;
        while i < patches.len()
            invariant
                i <= patches.len(),
                ranks.len() == i,
                forall|k: int| 0 <= k < i ==> ranks[k] == version_rank(#[trigger] patches[k]@),
            decreases patches.len() - i,
        {
            ranks.push(rank_of_version(patches[i].as_str()));
            i = i + 1;
        }
        let order = sorted_order(&ranks);
        let ghost src = patches.deep_view();
        let mut out: Vec<String> = Vec::new();
        let mut k: usize = 0;
        while k < order.len()
            invariant
                k <= order.len(),
                src == patches.deep_view(),
                sorts(order@, ranks@),
                ranks.len() == patches.len(),
                out.len() == k,
                forall|n: int| 0 <= n < k ==> (#[trigger] out[n])@ == src[order[n] as int],
            decreases order.len() - k,
        {
            out.push(patches[order[k]].clone());
            k = k + 1;
        }
        proof {
            let result = out.deep_view();
            assert(arranges(order@, src, result));
            assert forall|a: int, b: int| 0 <= a < b < result.len() implies rank_le(
                #[trigger] version_rank(result[a]),
                #[trigger] version_rank(result[b]),
            ) by {
                assert(rank_le(ranks[order[a] as int], ranks[order[b] as int]));
                assert(ranks[order[a] as int] == version_rank(patches[order[a] as int]@));
                assert(ranks[order[b] as int] == version_rank(patches[order[b] as int]@));
            }
        }
        out
    }

    /// Whether one of the links of the two listing pages names the version.
    pub fn check_patch_notes_exists(
        version: &str,
        first_page: &Vec<String>,
        second_page: &Vec<String>,
    ) -> (r: bool)
        ensures
            r == (names_version(first_page.deep_view(), version@) || names_version(
                second_page.deep_view(),
                version@,
            )),
    {
        Self::page_names(version, first_page) || Self::page_names(version, second_page)
    }

    /// Whether one of the links names the version.
    pub fn page_names(version: &str, hrefs: &Vec<String>) -> (r: bool)
        ensures
            r == names_version(hrefs.deep_view(), version@),
    {
        let wanted = chars_of(version);
        let mut i: usize = 0;
        while i < hrefs.len()
            invariant
                i <= hrefs.len(),
                wanted@ == version@,
                forall|k: int|
                    0 <= k < i ==> href_version(#[trigger] hrefs.deep_view()[k]) != Some(version@),
            decreases hrefs.len() - i,
        {
            assert(hrefs.deep_view()[i as int] == hrefs[i as int]@);
            match version_from_href(hrefs[i].as_str()) {
                Some(found) => {
                    let f = chars_of(found.as_str());
                    if crate::text::same_chars(&f, &wanted) {
                        return true;
                    }
                },
                None => {},
            }
            i = i + 1;
        }
        false
    }

    /// The snapshot of a patch, from what was fetched for it: the statistics
    /// that were found, or placeholders where none were found, and the notes.
    pub fn fetch_current_meta(
        patch_version: &str,
        fetched_at: i64,
        champions: Vec<ChampionStats>,
        patch_notes: Vec<PatchNoteEntry>,
    ) -> (r: PatchData)
        ensures
            r@ == (PatchDataView {
                version: patch_version@,
                fetched_at: fetched_at as int,
                champions: snapshot_champions(champions.deep_view(), patch_notes.deep_view()),
                patch_notes: patch_notes.deep_view(),
            }),
    {
        let champions = if champions.len() == 0 {
            Self::champions_from_notes(&patch_notes)
        } else {
            champions
        };
        PatchData { version: patch_version.to_owned(), fetched_at, champions, patch_notes }
    }

    /// A placeholder for each champion that the notes speak of.
    pub fn champions_from_notes(notes: &Vec<PatchNoteEntry>) -> (r: Vec<ChampionStats>)
        ensures
            r.deep_view() == placeholders(notes.deep_view()),
    {
        let ghost all = notes.deep_view();
        let mut out: Vec<ChampionStats> = Vec::new();
        let mut i: usize = 0;
        assert(out.deep_view() =~= placeholders(all.take(0)));
        while i < notes.len()
            invariant
                i <= notes.len(),
                all == notes.deep_view(),
                out.deep_view() == placeholders(all.take(i as int)),
            decreases notes.len() - i,
        {
            proof {
                assert(all.take(i + 1).drop_last() =~= all.take(i as int));
                assert(all.take(i + 1).last() == notes[i as int]@);
            }
            let note = &notes[i];
            if note.category == PatchCategory::Champions {
                let stats = ChampionStats {
                    id: note.title.clone(),
                    name: note.title.clone(),
                    tier: "?".to_owned(),
                    role: LaneRole::Mid,
                    win_rate: EVEN_WIN_RATE,
                    pick_rate: 0,
                    ban_rate: 0,
                    image_url: clone_opt_string(&note.image_url),
                    core_items: Vec::new(),
                    popular_runes: Vec::new(),
                };
                proof {
                    assert(stats.core_items.deep_view() =~= Seq::<ItemStatView>::empty());
                    assert(stats.popular_runes.deep_view() =~= Seq::<Seq<char>>::empty());
                }
                let ghost held = out.deep_view();
                out.push(stats);
                assert(out.deep_view() =~= held.push(stats@));
            }
            i = i + 1;
        }
        assert(all.take(notes.len() as int) =~= all);
        out
    }

    /// The entries of the notes of a patch, from the nodes of the page.
    pub fn scrape_riot_patch_notes(nodes: &Vec<DocNode>) -> (r: Vec<PatchNoteEntry>)
        ensures
            r.deep_view() == extracted(nodes.deep_view()),
    {
        extract_patch_notes(nodes)
    }

    /// The address of the notes of a patch.
    pub fn patch_notes_url(version: &str) -> (r: String)
        ensures
            r@ == notes_address(version@),
    {
        let v = chars_of(version);
        let mut out = chars_of(NOTES_ADDRESS);
        let ghost head = out@;
        let ghost mapped = v@.map_values(
            |c: char|
                if c == '.' {
                    '-'
                } else {
                    c
                },
        );
        let mut i: usize = 0;
        assert(head + mapped.take(0) =~= head);
        while i < v.len()
            invariant
                i <= v.len(),
                mapped.len() == v.len(),
                forall|k: int|
                    0 <= k < v.len() ==> mapped[k] == (if v[k] == '.' {
                        '-'
                    } else {
                        v[k]
                    }),
                out@ == head + mapped.take(i as int),
            decreases v.len() - i,
        {
            let c = v[i];
            out.push(if c == '.' {
                '-'
            } else {
                c
            });
            assert(head + mapped.take(i + 1) =~= (head + mapped.take(i as int)).push(
                mapped[i as int],
            ));
            i = i + 1;
        }
        assert(mapped.take(v.len() as int) =~= mapped);
        let tail = chars_of(NOTES_ADDRESS_END);
        let ghost front = out@;
        let mut j: usize = 0;
        assert(front + tail@.take(0) =~= front);
        while j < tail.len()
            invariant
                j <= tail.len(),
                out@ == front + tail@.take(j as int),
            decreases tail.len() - j,
        {
            out.push(tail[j]);
            assert(front + tail@.take(j + 1) =~= (front + tail@.take(j as int)).push(
                tail[j as int],
            ));
            j = j + 1;
        }
        assert(tail@.take(tail.len() as int) =~= tail@);
        string_of(&out)
    }
}

/// One champion of the localized champion data.
#[derive(Debug, PartialEq, Eq)]
pub struct ChampionRecord {
    /// The key under which the data lists the champion.
    pub key: String,
    /// The localized name.
    pub name: String,
    /// The identifier that the icon is filed under.
    pub id: String,
}

/// The view of a [`ChampionRecord`].
pub struct ChampionRecordView {
    pub key: Seq<char>,
    pub name: Seq<char>,
    pub id: Seq<char>,
}

impl View for ChampionRecord {
    type V = ChampionRecordView;

    open spec fn view(&self) -> ChampionRecordView {
        ChampionRecordView { key: self.key@, name: self.name@, id: self.id@ }
    }
}

impl DeepView for ChampionRecord {
    type V = ChampionRecordView;

    open spec fn deep_view(&self) -> ChampionRecordView {
        self@
    }
}

/// The version of the game data that is used where none is listed.
pub const DEFAULT_DATA_VERSION: &'static str = "14.23.1";

/// The English name under a key: the name of the first pair with that key,
/// and the empty text where there is none.
pub open spec fn english_name(english: Seq<(Seq<char>, Seq<char>)>, key: Seq<char>) -> Seq<char>
    decreases english.len(),
{
    if english.len() == 0 {
        Seq::empty()
    } else if english[0].0 == key {
        english[0].1
    } else {
        english_name(english.drop_first(), key)
    }
}

/// The address of the icon of a champion.
pub open spec fn icon_address(version: Seq<char>, id: Seq<char>) -> Seq<char> {
    "https://ddragon.leagueoflegends.com/cdn/"@ + version + "/img/champion/"@ + id + ".png"@
}

/// The entry of a champion in the champion list: its localized name, its
/// English name, and the address of its icon.
pub open spec fn list_entry(
    version: Seq<char>,
    record: ChampionRecordView,
    english: Seq<(Seq<char>, Seq<char>)>,
) -> (Seq<char>, Seq<char>, Seq<char>) {
    (record.name, english_name(english, record.key), icon_address(version, record.id))
}

/// The entries of all the champions, in the order of the records.
pub open spec fn list_entries(
    version: Seq<char>,
    records: Seq<ChampionRecordView>,
    english: Seq<(Seq<char>, Seq<char>)>,
) -> Seq<(Seq<char>, Seq<char>, Seq<char>)> {
    Seq::new(records.len(), |i: int| list_entry(version, records[i], english))
}

/// The entries come in the order of their localized names.
pub open spec fn in_name_order(entries: Seq<(Seq<char>, Seq<char>, Seq<char>)>) -> bool {
    forall|i: int, j: int|
        0 <= i < j < entries.len() ==> !text_lt((#[trigger] entries[j]).0, (#[trigger] entries[i]).0)
}

/// The views of a list of pairs of texts.
pub open spec fn pairs_view(pairs: Seq<(String, String)>) -> Seq<(Seq<char>, Seq<char>)> {
    Seq::new(pairs.len(), |i: int| (pairs[i].0@, pairs[i].1@))
}

/// The views of a list of triples of texts.
pub open spec fn triples_view(triples: Seq<(String, String, String)>) -> Seq<
    (Seq<char>, Seq<char>, Seq<char>),
> {
    Seq::new(triples.len(), |i: int| (triples[i].0@, triples[i].1@, triples[i].2@))
}

/// The English name under a key.
fn find_english(english: &Vec<(String, String)>, key: &String) -> (r: String)
    ensures
        r@ == english_name(pairs_view(english@), key@),
{
    let ghost all = pairs_view(english@);
    let mut i: usize = 0;
    assert(all.skip(0) =~= all);
    while i < english.len()
        invariant
            i <= english.len(),
            all == pairs_view(english@),
            english_name(all, key@) == english_name(all.skip(i as int), key@),
        decreases english.len() - i,
    {
        proof {
            assert(all.skip(i as int)[0] == all[i as int]);
            assert(all.skip(i as int).drop_first() =~= all.skip(i + 1));
        }
        if english[i].0 == *key {
            return english[i].1.clone();
        }
        i = i + 1;
    }
    String::new()
}

impl Scraper {
    /// The latest version of the game data: the first of the listed versions,
    /// if there is one.
    pub fn fetch_latest_ddragon_version(versions: &Vec<String>) -> (r: Option<String>)
        ensures
            r is Some <==> versions.len() > 0,
            r matches Some(v) ==> v@ == versions[0]@,
    {
        if versions.len() > 0 {
            Some(versions[0].clone())
        } else {
            None
        }
    }

    /// The version of the game data to use: the first of the listed versions,
    /// or the default version where none is listed.
    pub fn data_version(versions: &Vec<String>) -> (r: String)
        ensures
            r@ == (if versions.len() > 0 {
                versions[0]@
            } else {
                DEFAULT_DATA_VERSION@
            }),
    {
        if versions.len() > 0 {
            versions[0].clone()
        } else {
            DEFAULT_DATA_VERSION.to_owned()
        }
    }

    /// The champion list for a version of the game data: one entry for each
    /// record, with the English name that stands under the record's key, in
    /// the order of the localized names.
    pub fn fetch_all_champions_ddragon(
        version: &str,
        localized: &Vec<ChampionRecord>,
        english: &Vec<(String, String)>,
    ) -> (r: Vec<(String, String, String)>)
        ensures
            is_reordering(
                triples_view(r@),
                list_entries(version@, localized.deep_view(), pairs_view(english@)),
            ),
            in_name_order(triples_view(r@)),
    {
        let ghost src = list_entries(version@, localized.deep_view(), pairs_view(english@));
        let mut entries: Vec<(String, String, String)> = Vec::new();
        let mut keys: Vec<TextKey> = Vec::new();
        let mut i: usize = 0;
        while i < localized.len()
            invariant
                i <= localized.len(),
                entries.len() == i,
                keys.len() == i,
                src == list_entries(version@, localized.deep_view(), pairs_view(english@)),
                forall|k: int| 0 <= k < i ==> triples_view(entries@)[k] == #[trigger] src[k],
                forall|k: int| 0 <= k < i ==> (#[trigger] keys[k]).text@ == src[k].0,
            decreases localized.len() - i,
        {
            let record = &localized[i];
            assert(localized.deep_view()[i as int] == record@);
            let mut icon = String::new();
            icon.append("https://ddragon.leagueoflegends.com/cdn/");
            icon.append(version);
            icon.append("/img/champion/");
            icon.append(record.id.as_str());
            icon.append(".png");
            assert(icon@ =~= icon_address(version@, record@.id));
            let name_en = find_english(english, &record.key);
            keys.push(TextKey::new(record.name.as_str()));
            entries.push((record.name.clone(), name_en, icon));
            i = i + 1;
        }
        assert(triples_view(entries@) =~= src);
        let order = sorted_order_by(&keys);
        let mut out: Vec<(String, String, String)> = Vec::new();
        let mut k: usize = 0;
        while k < order.len()
            invariant
                k <= order.len(),
                sorts_by(order@, keys@),
                keys.len() == entries.len(),
                triples_view(entries@) == src,
                out.len() == k,
                forall|n: int|
                    0 <= n < k ==> triples_view(out@)[n] == #[trigger] src[order[n] as int],
            decreases order.len() - k,
        {
            let entry = &entries[order[k]];
            assert(triples_view(entries@)[order[k as int] as int] == (
                entry.0@,
                entry.1@,
                entry.2@,
            ));
            out.push((entry.0.clone(), entry.1.clone(), entry.2.clone()));
            k = k + 1;
        }
        proof {
            let result = triples_view(out@);
            assert(arranges(order@, src, result));
            assert forall|a: int, b: int| 0 <= a < b < result.len() implies !text_lt(
                (#[trigger] result[b]).0,
                (#[trigger] result[a]).0,
            ) by {
                assert(!keys[order[b] as int].precedes(keys[order[a] as int]));
            }
        }
        out
    }
}

} // verus!
