//! The patch-note extractor: from the nodes of a patch-notes document, in
//! document order, to structured entries.
//!
//! The extractor is a fold over the nodes that carries one state: the
//! category of the section it is in, the icon that waits for the next title,
//! the entry that is being filled, and the entries that are done. It never
//! fails: a node that does not fit is passed over.

use vstd::prelude::*;
use crate::models::{
    opt_view, ChangeBlock, ChangeBlockView, ChangeType, PatchCategory, PatchNoteEntry,
    PatchNoteEntryView,
};
use crate::text::{
    chars_of, decimal_text, find_chars, has_substring, has_word, is_first_occurrence, is_word,
    lowercase, occurs_at, push_decimal, string_of, to_lowercase, trim, trimmed,
};
use crate::trend::{determine_change_type, entry_change_type};

verus! {

/// One node of a patch-notes document, as the extractor sees it.
#[derive(Debug, PartialEq, Eq)]
pub enum DocNode {
    /// A sectioning heading, with its machine-readable identifier.
    Heading { id: String },
    /// The start of a change-block container.
    BlockStart,
    /// A reference or avatar element, with the address of its image if it has
    /// one.
    Reference { image: Option<String> },
    /// A primary title element, with its text.
    Title { text: String },
    /// A summary or quote element, with its text.
    Summary { text: String },
    /// The title of an ability or of a group of details, with its text and the
    /// address of its icon if it has one.
    DetailTitle { text: String, icon: Option<String> },
    /// A list element, with the text of each of its items.
    List { items: Vec<String> },
    /// The end of a change-block container.
    BlockEnd,
    /// A list inside a bordered region, with the text of each of its items.
    BorderedList { items: Vec<String> },
}

/// The view of a [`DocNode`].
pub enum DocNodeView {
    Heading { id: Seq<char> },
    BlockStart,
    Reference { image: Option<Seq<char>> },
    Title { text: Seq<char> },
    Summary { text: Seq<char> },
    DetailTitle { text: Seq<char>, icon: Option<Seq<char>> },
    List { items: Seq<Seq<char>> },
    BlockEnd,
    BorderedList { items: Seq<Seq<char>> },
}

impl View for DocNode {
    type V = DocNodeView;

    open spec fn view(&self) -> DocNodeView {
        match *self {
            DocNode::Heading { id } => DocNodeView::Heading { id: id@ },
            DocNode::BlockStart => DocNodeView::BlockStart,
            DocNode::Reference { image } => DocNodeView::Reference { image: opt_view(image) },
            DocNode::Title { text } => DocNodeView::Title { text: text@ },
            DocNode::Summary { text } => DocNodeView::Summary { text: text@ },
            DocNode::DetailTitle { text, icon } => DocNodeView::DetailTitle {
                text: text@,
                icon: opt_view(icon),
            },
            DocNode::List { items } => DocNodeView::List { items: items.deep_view() },
            DocNode::BlockEnd => DocNodeView::BlockEnd,
            DocNode::BorderedList { items } => DocNodeView::BorderedList {
                items: items.deep_view(),
            },
        }
    }
}

impl DeepView for DocNode {
    type V = DocNodeView;

    open spec fn deep_view(&self) -> DocNodeView {
        self@
    }
}

/// The title that every bug-fix entry gets.
pub const FIX_TITLE: &'static str = "Исправление ошибки";

/// What the identifier of every bug-fix entry starts with.
pub const FIX_ID_PREFIX: &'static str = "fix_";

/// The category of the section under a heading, from the lower-case form of
/// the heading's identifier. The keywords are tried in a fixed order; a
/// heading that has none of them opens a section of unknown category.
pub open spec fn heading_category(id: Seq<char>) -> PatchCategory {
    let item = has_substring(id, "item"@);
    let rune = has_substring(id, "rune"@);
    if has_substring(id, "champion"@) {
        PatchCategory::Champions
    } else if item && !rune {
        PatchCategory::Items
    } else if rune && !item {
        PatchCategory::Runes
    } else if item || rune {
        PatchCategory::ItemsRunes
    } else if has_substring(id, "skin"@) || has_substring(id, "chroma"@) {
        PatchCategory::Skins
    } else if has_substring(id, "bug"@) {
        PatchCategory::BugFixes
    } else if has_substring(id, "aram"@) || has_substring(id, "arena"@) || has_substring(
        id,
        "mode"@,
    ) {
        PatchCategory::Modes
    } else if has_substring(id, "system"@) || has_substring(id, "qol"@) {
        PatchCategory::Systems
    } else if has_substring(id, "highlight"@) {
        PatchCategory::NewContent
    } else {
        PatchCategory::Unknown
    }
}

/// The category of the section under a heading with the given identifier.
pub fn category_from_heading(id: &str) -> (r: PatchCategory)
    ensures
        r == heading_category(lowercase(id@)),
{
    let lower = to_lowercase(id);
    category_from_lower_id(lower.as_str())
}

/// The category of the section under a heading, from the lower-case form of
/// the heading's identifier.
pub fn category_from_lower_id(lower: &str) -> (r: PatchCategory)
    ensures
        r == heading_category(lower@),
{
    let low = chars_of(lower);
    let item = has_word(&low, "item");
    let rune = has_word(&low, "rune");
    if has_word(&low, "champion") {
        PatchCategory::Champions
    } else if item && !rune {
        PatchCategory::Items
    } else if rune && !item {
        PatchCategory::Runes
    } else if item || rune {
        PatchCategory::ItemsRunes
    } else if has_word(&low, "skin") || has_word(&low, "chroma") {
        PatchCategory::Skins
    } else if has_word(&low, "bug") {
        PatchCategory::BugFixes
    } else if has_word(&low, "aram") || has_word(&low, "arena") || has_word(&low, "mode") {
        PatchCategory::Modes
    } else if has_word(&low, "system") || has_word(&low, "qol") {
        PatchCategory::Systems
    } else if has_word(&low, "highlight") {
        PatchCategory::NewContent
    } else {
        PatchCategory::Unknown
    }
}

/// The address goes through the image proxy: it names the proxy's host and
/// carries the real address in its `f` parameter.
pub open spec fn is_proxied(url: Seq<char>) -> bool {
    has_substring(url, "akamaihd.net"@) && has_substring(url, "?f="@)
}

/// The real address of an image: for a proxied address what follows the first
/// `?f=`, else the address itself.
pub open spec fn cleaned_url(url: Seq<char>) -> Seq<char> {
    if is_proxied(url) {
        let at = choose|at: int| is_first_occurrence(url, "?f="@, at);
        url.subrange(at + 3, url.len() as int)
    } else {
        url
    }
}

/// The real address of an image that may be missing.
pub open spec fn cleaned_image(image: Option<Seq<char>>) -> Option<Seq<char>> {
    match image {
        Some(url) => Some(cleaned_url(url)),
        None => None,
    }
}

/// A text has one first occurrence of a word at most.
pub proof fn lemma_first_occurrence_unique(hay: Seq<char>, needle: Seq<char>, a: int, b: int)
    requires
        is_first_occurrence(hay, needle, a),
        is_first_occurrence(hay, needle, b),
    ensures
        a == b,
{
}

/// The real address of an image.
pub fn clean_url(url: &str) -> (r: String)
    ensures
        r@ == cleaned_url(url@),
{
    let u = chars_of(url);
    let marker = chars_of("?f=");
    proof {
        reveal_strlit("?f=");
    }
    if !has_word(&u, "akamaihd.net") {
        return string_of(&u);
    }
    match find_chars(&u, &marker) {
        Some(at) => {
            proof {
                let chosen = choose|c: int| is_first_occurrence(url@, "?f="@, c);
                lemma_first_occurrence_unique(url@, "?f="@, at as int, chosen);
                assert(occurs_at(u@, marker@, at as int));
                assert(marker@.len() == 3);
                assert(at + 3 <= u.len());
            }
            let mut rest: Vec<char> = Vec::new();
            let mut i: usize = at + 3;
            while i < u.len()
                invariant
                    at + 3 <= i <= u.len(),
                    rest@ == u@.subrange(at + 3, i as int),
                decreases u.len() - i,
            {
                rest.push(u[i]);
                i = i + 1;
            }
            string_of(&rest)
        },
        None => string_of(&u),
    }
}

/// The real address of an image that may be missing.
pub fn clean_image(image: &Option<String>) -> (r: Option<String>)
    ensures
        opt_view(r) == cleaned_image(opt_view(*image)),
{
    match image {
        Some(url) => Some(clean_url(url.as_str())),
        None => None,
    }
}

/// The lower-case title is page furniture: the banner of the patch, or the
/// generic name of a section.
pub open spec fn is_furniture(lower: Seq<char>) -> bool {
    ||| (has_substring(lower, "patch"@) && has_substring(lower, "notes"@))
    ||| has_substring(lower, "описание обновления"@)
    ||| lower == "patch highlights"@
    ||| lower == "champions"@
    ||| lower == "items"@
    ||| lower == "runes"@
    ||| lower == "bug fixes"@
    ||| lower == "обзор обновления"@
    ||| lower == "чемпионы"@
    ||| lower == "предметы"@
    ||| lower == "руны"@
    ||| lower == "исправление ошибок"@
}

/// A title that opens no entry: an empty one, or page furniture.
pub open spec fn is_rejected_title(title: Seq<char>) -> bool {
    title.len() == 0 || is_furniture(lowercase(title))
}

/// Whether a title opens no entry.
pub fn title_is_rejected(title: &str) -> (r: bool)
    ensures
        r == is_rejected_title(title@),
{
    if title.is_empty() {
        return true;
    }
    let lower = to_lowercase(title);
    title_is_furniture(lower.as_str())
}

/// Whether a title, in its lower-case form, is page furniture.
pub fn title_is_furniture(lower: &str) -> (r: bool)
    ensures
        r == is_furniture(lower@),
{
    let low = chars_of(lower);
    (has_word(&low, "patch") && has_word(&low, "notes")) || has_word(
        &low,
        "описание обновления",
    ) || is_word(
        &low,
        "patch highlights",
    ) || is_word(&low, "champions") || is_word(&low, "items") || is_word(&low, "runes") || is_word(
        &low,
        "bug fixes",
    ) || is_word(&low, "обзор обновления") || is_word(&low, "чемпионы") || is_word(
        &low,
        "предметы",
    ) || is_word(&low, "руны") || is_word(&low, "исправление ошибок")
}

/// The items of a list that count: each item without the white space around
/// it, those left out of which nothing remains.
pub open spec fn kept_items(items: Seq<Seq<char>>) -> Seq<Seq<char>>
    decreases items.len(),
{
    if items.len() == 0 {
        Seq::empty()
    } else {
        let before = kept_items(items.drop_last());
        let item = trimmed(items.last());
        if item.len() == 0 {
            before
        } else {
            before.push(item)
        }
    }
}

/// The items of a list that count.
pub fn keep_items(items: &Vec<String>) -> (r: Vec<String>)
    ensures
        r.deep_view() == kept_items(items.deep_view()),
{
    let ghost all = items.deep_view();
    let mut out: Vec<String> = Vec::new();
    let mut i: usize = 0;
    assert(out.deep_view() =~= Seq::<Seq<char>>::empty());
    while i < items.len()
        invariant
            i <= items.len(),
            all == items.deep_view(),
            out.deep_view() == kept_items(all.take(i as int)),
        decreases items.len() - i,
    {
        let item = trim(items[i].as_str());
        proof {
            assert(all.take(i + 1).drop_last() =~= all.take(i as int));
            assert(all.take(i + 1).last() == items[i as int]@);
        }
        if !item.is_empty() {
            let ghost before = out.deep_view();
            let owned = item.to_owned();
            out.push(owned);
            assert(out.deep_view() =~= before.push(owned@));
        }
        i = i + 1;
    }
    assert(all.take(items.len() as int) =~= all);
    out
}

/// All the change lines of an entry, block after block.
pub open spec fn all_lines(details: Seq<ChangeBlockView>) -> Seq<Seq<char>>
    decreases details.len(),
{
    if details.len() == 0 {
        Seq::empty()
    } else {
        all_lines(details.drop_last()) + details.last().changes
    }
}

/// The lines in one text, a space between each two.
pub open spec fn joined(lines: Seq<Seq<char>>) -> Seq<char>
    decreases lines.len(),
{
    if lines.len() == 0 {
        Seq::empty()
    } else if lines.len() == 1 {
        lines[0]
    } else {
        joined(lines.drop_last()).push(' ') + lines.last()
    }
}

/// The whole text of an entry: all its change lines, a space between each
/// two.
pub open spec fn entry_text(details: Seq<ChangeBlockView>) -> Seq<char> {
    joined(all_lines(details))
}

/// The whole text of an entry.
pub fn text_of_entry(details: &Vec<ChangeBlock>) -> (r: String)
    ensures
        r@ == entry_text(details.deep_view()),
{
    let ghost all = details.deep_view();
    let mut out: String = String::new();
    let mut first = true;
    let mut b: usize = 0;
    assert(all.take(0) =~= Seq::<ChangeBlockView>::empty());
    while b < details.len()
        invariant
            b <= details.len(),
            all == details.deep_view(),
            out@ == joined(all_lines(all.take(b as int))),
            first == (all_lines(all.take(b as int)).len() == 0),
        decreases details.len() - b,
    {
        let block = &details[b];
        let ghost lines = block.changes.deep_view();
        let ghost before = all_lines(all.take(b as int));
        proof {
            assert(all.take(b + 1).drop_last() =~= all.take(b as int));
            assert(all.take(b + 1).last() == block@);
            assert(all_lines(all.take(b + 1)) == before + lines);
        }
        let mut k: usize = 0;
        assert(before + lines.take(0) =~= before);
        while k < block.changes.len()
            invariant
                k <= block.changes.len(),
                lines == block.changes.deep_view(),
                out@ == joined(before + lines.take(k as int)),
                first == ((before + lines.take(k as int)).len() == 0),
            decreases block.changes.len() - k,
        {
            proof {
                let now = before + lines.take(k + 1);
                assert(now.drop_last() =~= before + lines.take(k as int));
                assert(now.last() == block.changes[k as int]@);
                if now.len() == 1 {
                    assert(joined(now.drop_last()) =~= Seq::<char>::empty());
                }
            }
            if !first {
                out.append(" ");
                proof {
                    reveal_strlit(" ");
                    assert(" "@ =~= seq![' ']);
                    let so_far = joined(before + lines.take(k as int));
                    assert(so_far + seq![' '] =~= so_far.push(' '));
                }
            }
            out.append(block.changes[k].as_str());
            first = false;
            k = k + 1;
        }
        assert(lines.take(block.changes.len() as int) =~= lines);
        b = b + 1;
    }
    assert(all.take(details.len() as int) =~= all);
    out
}

/// The identifier of the bug-fix entry that comes at position `position`.
pub open spec fn fix_id(position: nat) -> Seq<char> {
    FIX_ID_PREFIX@ + decimal_text(position)
}

/// The entry that one line of a bug-fix list becomes.
pub open spec fn fix_entry(position: nat, line: Seq<char>) -> PatchNoteEntryView {
    PatchNoteEntryView {
        id: fix_id(position),
        title: FIX_TITLE@,
        image_url: None,
        category: PatchCategory::BugFixes,
        change_type: ChangeType::Fix,
        summary: line,
        details: seq![ChangeBlockView { title: None, icon_url: None, changes: seq![line] }],
    }
}

/// The entries with one bug-fix entry more for each item of the list that
/// counts, each numbered by the position it comes at.
pub open spec fn with_fixes(notes: Seq<PatchNoteEntryView>, items: Seq<Seq<char>>) -> Seq<
    PatchNoteEntryView,
>
    decreases items.len(),
{
    if items.len() == 0 {
        notes
    } else {
        let before = with_fixes(notes, items.drop_last());
        let line = trimmed(items.last());
        if line.len() == 0 {
            before
        } else {
            before.push(fix_entry(before.len(), line))
        }
    }
}

/// Makes the bug-fix entry for one line.
fn make_fix_entry(position: usize, line: &str) -> (r: PatchNoteEntry)
    ensures
        r@ == fix_entry(position as nat, line@),
{
    let mut id_chars = chars_of(FIX_ID_PREFIX);
    push_decimal(position, &mut id_chars);
    let mut changes: Vec<String> = Vec::new();
    changes.push(line.to_owned());
    let mut details: Vec<ChangeBlock> = Vec::new();
    details.push(ChangeBlock { title: None, icon_url: None, changes });
    let entry = PatchNoteEntry {
        id: string_of(&id_chars),
        title: FIX_TITLE.to_owned(),
        image_url: None,
        category: PatchCategory::BugFixes,
        change_type: ChangeType::Fix,
        summary: line.to_owned(),
        details,
    };
    proof {
        assert(entry.details[0].changes.deep_view() =~= seq![line@]);
        assert(entry.details.deep_view() =~= seq![
            ChangeBlockView { title: None, icon_url: None, changes: seq![line@] },
        ]);
    }
    entry
}

/// Adds one bug-fix entry for each item of the list that counts.
pub fn add_fixes(notes: Vec<PatchNoteEntry>, items: &Vec<String>) -> (r: Vec<PatchNoteEntry>)
    ensures
        r.deep_view() == with_fixes(notes.deep_view(), items.deep_view()),
{
    let ghost all = items.deep_view();
    let ghost start = notes.deep_view();
    let mut out = notes;
    let mut i: usize = 0;
    while i < items.len()
        invariant
            i <= items.len(),
            all == items.deep_view(),
            out.deep_view() == with_fixes(start, all.take(i as int)),
        decreases items.len() - i,
    {
        let line = trim(items[i].as_str());
        proof {
            assert(all.take(i + 1).drop_last() =~= all.take(i as int));
            assert(all.take(i + 1).last() == items[i as int]@);
        }
        if !line.is_empty() {
            let ghost before = out.deep_view();
            let entry = make_fix_entry(out.len(), line);
            out.push(entry);
            assert(out.deep_view() =~= before.push(entry@));
        }
        i = i + 1;
    }
    assert(all.take(items.len() as int) =~= all);
    out
}

/// What the extractor carries from node to node.
#[derive(Debug, PartialEq, Eq)]
pub struct Extraction {
    /// The category of the section the extractor is in.
    pub category: PatchCategory,
    /// The icon that waits for the next title.
    pub pending_icon: Option<String>,
    /// The entry that is being filled.
    pub current: Option<PatchNoteEntry>,
    /// The entries that are done.
    pub notes: Vec<PatchNoteEntry>,
}

/// The view of an [`Extraction`].
pub struct ExtractionView {
    pub category: PatchCategory,
    pub pending_icon: Option<Seq<char>>,
    pub current: Option<PatchNoteEntryView>,
    pub notes: Seq<PatchNoteEntryView>,
}

/// The view of an entry that may be missing.
pub open spec fn entry_view(entry: Option<PatchNoteEntry>) -> Option<PatchNoteEntryView> {
    match entry {
        Some(e) => Some(e@),
        None => None,
    }
}

impl View for Extraction {
    type V = ExtractionView;

    open spec fn view(&self) -> ExtractionView {
        ExtractionView {
            category: self.category,
            pending_icon: opt_view(self.pending_icon),
            current: entry_view(self.current),
            notes: self.notes.deep_view(),
        }
    }
}

/// The state before the first node: no section yet, nothing waiting, nothing
/// done.
pub open spec fn initial_state() -> ExtractionView {
    ExtractionView {
        category: PatchCategory::Unknown,
        pending_icon: None,
        current: None,
        notes: Seq::empty(),
    }
}

/// The entry that a title opens: named by the title, with the waiting icon,
/// in the section's category, and an adjustment until it is closed.
pub open spec fn opened_entry(
    title: Seq<char>,
    image: Option<Seq<char>>,
    category: PatchCategory,
) -> PatchNoteEntryView {
    PatchNoteEntryView {
        id: title,
        title,
        image_url: image,
        category,
        change_type: ChangeType::Adjusted,
        summary: Seq::empty(),
        details: Seq::empty(),
    }
}

/// The entry with its change type: what the classifier makes of its whole text.
pub open spec fn closed_entry(entry: PatchNoteEntryView) -> PatchNoteEntryView {
    PatchNoteEntryView { change_type: entry_change_type(entry_text(entry.details)), ..entry }
}

/// The entry with the lines of one more list: they go to the last of its
/// blocks, or make a block without a title where it has none. A list without
/// a line that counts changes nothing.
pub open spec fn with_list(entry: PatchNoteEntryView, items: Seq<Seq<char>>) -> PatchNoteEntryView {
    let lines = kept_items(items);
    if lines.len() == 0 {
        entry
    } else if entry.details.len() > 0 {
        let last = entry.details.last();
        PatchNoteEntryView {
            details: entry.details.drop_last().push(
                ChangeBlockView { changes: last.changes + lines, ..last },
            ),
            ..entry
        }
    } else {
        PatchNoteEntryView {
            details: seq![ChangeBlockView { title: None, icon_url: None, changes: lines }],
            ..entry
        }
    }
}

/// The state at the edge of a change-block container: the open entry, if
/// there is one, is closed and done, and no icon waits.
pub open spec fn at_block_edge(state: ExtractionView) -> ExtractionView {
    ExtractionView {
        pending_icon: None,
        current: None,
        notes: match state.current {
            Some(entry) => state.notes.push(closed_entry(entry)),
            None => state.notes,
        },
        ..state
    }
}

/// The state after a primary title with the given text.
pub open spec fn after_title(state: ExtractionView, text: Seq<char>) -> ExtractionView {
    opened_by(state, trimmed(text))
}

/// The state after a primary title, from the title without the white space
/// around it: the open entry, if there is one, is done as it stands; the
/// title opens a new entry with the waiting icon, unless it is rejected.
pub open spec fn opened_by(state: ExtractionView, title: Seq<char>) -> ExtractionView {
    let notes = match state.current {
        Some(entry) => state.notes.push(entry),
        None => state.notes,
    };
    if is_rejected_title(title) {
        ExtractionView { current: None, notes, ..state }
    } else {
        ExtractionView {
            pending_icon: None,
            current: Some(opened_entry(title, state.pending_icon, state.category)),
            notes,
            ..state
        }
    }
}

/// The state after one node.
pub open spec fn step(state: ExtractionView, node: DocNodeView) -> ExtractionView {
    match node {
        DocNodeView::Heading { id } => ExtractionView {
            category: heading_category(lowercase(id)),
            ..state
        },
        DocNodeView::BlockStart => at_block_edge(state),
        DocNodeView::BlockEnd => at_block_edge(state),
        DocNodeView::Reference { image } => ExtractionView {
            pending_icon: cleaned_image(image),
            ..state
        },
        DocNodeView::Title { text } => after_title(state, text),
        DocNodeView::Summary { text } => match state.current {
            Some(entry) => ExtractionView {
                current: Some(PatchNoteEntryView { summary: trimmed(text), ..entry }),
                ..state
            },
            None => state,
        },
        DocNodeView::DetailTitle { text, icon } => match state.current {
            Some(entry) => ExtractionView {
                current: Some(
                    PatchNoteEntryView {
                        details: entry.details.push(
                            ChangeBlockView {
                                title: Some(trimmed(text)),
                                icon_url: cleaned_image(icon),
                                changes: Seq::empty(),
                            },
                        ),
                        ..entry
                    },
                ),
                ..state
            },
            None => state,
        },
        DocNodeView::List { items } => match state.current {
            Some(entry) => ExtractionView { current: Some(with_list(entry, items)), ..state },
            None => state,
        },
        DocNodeView::BorderedList { items } => {
            if state.category == PatchCategory::BugFixes {
                ExtractionView { notes: with_fixes(state.notes, items), ..state }
            } else {
                state
            }
        },
    }
}

/// The state after all the given nodes, in order.
pub open spec fn run(state: ExtractionView, nodes: Seq<DocNodeView>) -> ExtractionView
    decreases nodes.len(),
{
    if nodes.len() == 0 {
        state
    } else {
        step(run(state, nodes.drop_last()), nodes.last())
    }
}

/// The entries of a document: what is done after its last node, an entry that
/// is still open closed like at the end of a container.
pub open spec fn extracted(nodes: Seq<DocNodeView>) -> Seq<PatchNoteEntryView> {
    at_block_edge(run(initial_state(), nodes)).notes
}

/// The lines of `more` after those of `lines`.
fn extend_lines(lines: Vec<String>, more: &Vec<String>) -> (r: Vec<String>)
    ensures
        r.deep_view() == lines.deep_view() + more.deep_view(),
{
    let ghost start = lines.deep_view();
    let mut out = lines;
    let mut i: usize = 0;
    assert(start + more.deep_view().take(0) =~= start);
    while i < more.len()
        invariant
            i <= more.len(),
            out.deep_view() == start + more.deep_view().take(i as int),
        decreases more.len() - i,
    {
        let ghost before = out.deep_view();
        out.push(more[i].clone());
        assert(out.deep_view() =~= before.push(more[i as int]@));
        assert(start + more.deep_view().take(i + 1) =~= before.push(more[i as int]@));
        i = i + 1;
    }
    assert(more.deep_view().take(more.len() as int) =~= more.deep_view());
    out
}

/// Adds the lines of one more list to an entry.
pub fn add_list(entry: PatchNoteEntry, items: &Vec<String>) -> (r: PatchNoteEntry)
    ensures
        r@ == with_list(entry@, items.deep_view()),
{
    let lines = keep_items(items);
    if lines.len() == 0 {
        return entry;
    }
    let mut entry = entry;
    let ghost before = entry.details.deep_view();
    if entry.details.len() > 0 {
        let last = entry.details.pop().unwrap();
        assert(entry.details.deep_view() =~= before.drop_last());
        assert(last@ == before.last());
        let block = ChangeBlock {
            title: last.title,
            icon_url: last.icon_url,
            changes: extend_lines(last.changes, &lines),
        };
        let ghost shorter = entry.details.deep_view();
        entry.details.push(block);
        assert(entry.details.deep_view() =~= shorter.push(block@));
    } else {
        let block = ChangeBlock { title: None, icon_url: None, changes: lines };
        entry.details.push(block);
        assert(entry.details.deep_view() =~= seq![block@]);
    }
    entry
}

/// Closes an entry: gives it the change type that the classifier makes of its whole text.
pub fn close_entry(entry: PatchNoteEntry) -> (r: PatchNoteEntry)
    ensures
        r@ == closed_entry(entry@),
{
    let text = text_of_entry(&entry.details);
    let mut entry = entry;
    entry.change_type = determine_change_type(text.as_str());
    entry
}

/// Pushes an entry on the list of those that are done.
fn push_note(notes: Vec<PatchNoteEntry>, entry: PatchNoteEntry) -> (r: Vec<PatchNoteEntry>)
    ensures
        r.deep_view() == notes.deep_view().push(entry@),
{
    let mut out = notes;
    out.push(entry);
    assert(out.deep_view() =~= notes.deep_view().push(entry@));
    out
}

impl Extraction {
    /// The state before the first node.
    pub fn new() -> (r: Extraction)
        ensures
            r@ == initial_state(),
    {
        let state = Extraction {
            category: PatchCategory::Unknown,
            pending_icon: None,
            current: None,
            notes: Vec::new(),
        };
        assert(state.notes.deep_view() =~= Seq::<PatchNoteEntryView>::empty());
        state
    }

    /// Closes the open entry, if there is one, and forgets the waiting icon.
    pub fn block_edge(self) -> (r: Extraction)
        ensures
            r@ == at_block_edge(self@),
    {
        let notes = match self.current {
            Some(entry) => push_note(self.notes, close_entry(entry)),
            None => self.notes,
        };
        Extraction { category: self.category, pending_icon: None, current: None, notes }
    }

    /// Takes a primary title.
    pub fn title(self, text: &str) -> (r: Extraction)
        ensures
            r@ == after_title(self@, text@),
    {
        self.open(trim(text))
    }

    /// Takes a primary title that has no white space around it.
    pub fn open(self, title: &str) -> (r: Extraction)
        ensures
            r@ == opened_by(self@, title@),
    {
        let notes = match self.current {
            Some(entry) => push_note(self.notes, entry),
            None => self.notes,
        };
        if title_is_rejected(title) {
            Extraction {
                category: self.category,
                pending_icon: self.pending_icon,
                current: None,
                notes,
            }
        } else {
            let entry = PatchNoteEntry {
                id: title.to_owned(),
                title: title.to_owned(),
                image_url: self.pending_icon,
                category: self.category,
                change_type: ChangeType::Adjusted,
                summary: String::new(),
                details: Vec::new(),
            };
            assert(entry.details.deep_view() =~= Seq::<ChangeBlockView>::empty());
            Extraction { category: self.category, pending_icon: None, current: Some(entry), notes }
        }
    }

    /// Takes one node.
    pub fn feed(self, node: &DocNode) -> (r: Extraction)
        ensures
            r@ == step(self@, node@),
    {
        match node {
            DocNode::Heading { id } => Extraction {
                category: category_from_heading(id.as_str()),
                pending_icon: self.pending_icon,
                current: self.current,
                notes: self.notes,
            },
            DocNode::BlockStart => self.block_edge(),
            DocNode::BlockEnd => self.block_edge(),
            DocNode::Reference { image } => Extraction {
                category: self.category,
                pending_icon: clean_image(image),
                current: self.current,
                notes: self.notes,
            },
            DocNode::Title { text } => self.title(text.as_str()),
            DocNode::Summary { text } => match self.current {
                Some(entry) => {
                    let mut entry = entry;
                    entry.summary = trim(text.as_str()).to_owned();
                    Extraction {
                        category: self.category,
                        pending_icon: self.pending_icon,
                        current: Some(entry),
                        notes: self.notes,
                    }
                },
                None => self,
            },
            DocNode::DetailTitle { text, icon } => match self.current {
                Some(entry) => {
                    let mut entry = entry;
                    let ghost before = entry.details.deep_view();
                    let block = ChangeBlock {
                        title: Some(trim(text.as_str()).to_owned()),
                        icon_url: clean_image(icon),
                        changes: Vec::new(),
                    };
                    assert(block.changes.deep_view() =~= Seq::<Seq<char>>::empty());
                    entry.details.push(block);
                    assert(entry.details.deep_view() =~= before.push(block@));
                    Extraction {
                        category: self.category,
                        pending_icon: self.pending_icon,
                        current: Some(entry),
                        notes: self.notes,
                    }
                },
                None => self,
            },
            DocNode::List { items } => match self.current {
                Some(entry) => Extraction {
                    category: self.category,
                    pending_icon: self.pending_icon,
                    current: Some(add_list(entry, items)),
                    notes: self.notes,
                },
                None => self,
            },
            DocNode::BorderedList { items } => {
                if self.category == PatchCategory::BugFixes {
                    Extraction {
                        category: self.category,
                        pending_icon: self.pending_icon,
                        current: self.current,
                        notes: add_fixes(self.notes, items),
                    }
                } else {
                    self
                }
            },
        }
    }
}

/// Extracts the entries of a patch-notes document from its nodes, given in
/// document order. A document without nodes has no entries.
pub fn extract_patch_notes(nodes: &Vec<DocNode>) -> (r: Vec<PatchNoteEntry>)
    ensures
        r.deep_view() == extracted(nodes.deep_view()),
{
    let ghost all = nodes.deep_view();
    let mut state = Extraction::new();
    let mut i: usize = 0;
    while i < nodes.len()
        invariant
            i <= nodes.len(),
            all == nodes.deep_view(),
            state@ == run(initial_state(), all.take(i as int)),
        decreases nodes.len() - i,
    {
        proof {
            assert(all.take(i + 1).drop_last() =~= all.take(i as int));
            assert(all.take(i + 1).last() == nodes[i as int]@);
        }
        state = state.feed(&nodes[i]);
        i = i + 1;
    }
    assert(all.take(nodes.len() as int) =~= all);
    state.block_edge().notes
}

/// Extraction depends on the document alone: whatever is extracted from one
/// document, at any time, is the same list of entries.
pub proof fn lemma_extraction_is_repeatable(
    nodes: Seq<DocNodeView>,
    first: Seq<PatchNoteEntryView>,
    second: Seq<PatchNoteEntryView>,
)
    requires
        first == extracted(nodes),
        second == extracted(nodes),
    ensures
        first == second,
{
}

/// A document without nodes has no entries.
pub proof fn lemma_empty_document()
    ensures
        extracted(Seq::<DocNodeView>::empty()) == Seq::<PatchNoteEntryView>::empty(),
{
    assert(extracted(Seq::<DocNodeView>::empty()) =~= Seq::<PatchNoteEntryView>::empty());
}

/// Bug-fix entries are added behind the entries that are there.
pub proof fn lemma_fixes_extend(notes: Seq<PatchNoteEntryView>, items: Seq<Seq<char>>)
    ensures
        notes.len() <= with_fixes(notes, items).len(),
        with_fixes(notes, items).take(notes.len() as int) == notes,
    decreases items.len(),
{
    if items.len() == 0 {
        assert(notes.take(notes.len() as int) =~= notes);
    } else {
        let before = with_fixes(notes, items.drop_last());
        lemma_fixes_extend(notes, items.drop_last());
        assert(with_fixes(notes, items).take(notes.len() as int) =~= before.take(
            notes.len() as int,
        ));
    }
}

/// An entry that is done stays as it is: a node only adds entries behind
/// those that are done.
pub proof fn lemma_step_keeps_entries(state: ExtractionView, node: DocNodeView)
    ensures
        state.notes.len() <= step(state, node).notes.len(),
        step(state, node).notes.take(state.notes.len() as int) == state.notes,
{
    let after = step(state, node).notes;
    match node {
        DocNodeView::BorderedList { items } => {
            lemma_fixes_extend(state.notes, items);
            assert(state.notes.take(state.notes.len() as int) =~= state.notes);
        },
        _ => {
            assert(after.take(state.notes.len() as int) =~= state.notes);
        },
    }
}

/// The entries that are done after a part of a document are still there, in
/// front and unchanged, after the whole of it.
pub proof fn lemma_run_keeps_entries(state: ExtractionView, nodes: Seq<DocNodeView>, upto: int)
    requires
        0 <= upto <= nodes.len(),
    ensures
        run(state, nodes.take(upto)).notes.len() <= run(state, nodes).notes.len(),
        run(state, nodes).notes.take(run(state, nodes.take(upto)).notes.len() as int) == run(
            state,
            nodes.take(upto),
        ).notes,
    decreases nodes.len(),
{
    let part = run(state, nodes.take(upto)).notes;
    if upto == nodes.len() {
        assert(nodes.take(upto) =~= nodes);
        assert(part.take(part.len() as int) =~= part);
    } else {
        let rest = nodes.drop_last();
        assert(rest.take(upto) =~= nodes.take(upto));
        lemma_run_keeps_entries(state, rest, upto);
        lemma_step_keeps_entries(run(state, rest), nodes.last());
        let mid = run(state, rest).notes;
        let all = run(state, nodes).notes;
        assert(all.take(part.len() as int) =~= all.take(mid.len() as int).take(part.len() as int));
    }
}

} // verus!
