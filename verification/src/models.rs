//! The data model: snapshots, champion statistics, patch-note entries and the
//! values derived from them, each with its mathematical view.
//!
//! Rates are fixed-point numbers: one unit is a hundredth of a percentage
//! point, so a win rate of 51.2 % is held as 5120. Timestamps are microseconds
//! since the Unix epoch, in UTC.

use vstd::prelude::*;

verus! {

/// The lane a champion is played in.
#[derive(Clone, Copy, Debug, PartialEq, Eq, Hash, Structural)]
pub enum LaneRole {
    Top,
    Jungle,
    Mid,
    Adc,
    Support,
    Unknown,
}

/// The direction of a change, for a whole patch-note entry.
#[derive(Clone, Copy, Debug, PartialEq, Eq, Hash, Structural)]
pub enum ChangeType {
    Buff,
    Nerf,
    Adjusted,
    New,
    Fix,
    NoChange,
}

/// The section of the patch notes an entry belongs to.
#[derive(Clone, Copy, Debug, PartialEq, Eq, Hash, Structural)]
pub enum PatchCategory {
    Champions,
    Items,
    Runes,
    ItemsRunes,
    Modes,
    Skins,
    Systems,
    BugFixes,
    NewContent,
    Cosmetics,
    Unknown,
}

/// The view of an optional string.
pub open spec fn opt_view(o: Option<String>) -> Option<Seq<char>> {
    match o {
        Some(s) => Some(s@),
        None => None,
    }
}

/// Copies an optional string.
pub fn clone_opt_string(o: &Option<String>) -> (r: Option<String>)
    ensures
        r == *o,
{
    match o {
        Some(s) => Some(s.clone()),
        None => None,
    }
}

/// Copies a list of strings.
pub fn clone_strings(v: &Vec<String>) -> (r: Vec<String>)
    ensures
        r@ == v@,
        r.deep_view() == v.deep_view(),
{
    let mut out: Vec<String> = Vec::new();
    let mut i: usize = 0;
    while i < v.len()
        invariant
            i <= v.len(),
            out@ == v@.subrange(0, i as int),
        decreases v.len() - i,
    {
        out.push(v[i].clone());
        i = i + 1;
    }
    assert(v@.subrange(0, v.len() as int) =~= v@);
    assert(out.deep_view() =~= v.deep_view());
    out
}

/// An item a champion commonly builds.
#[derive(Debug, PartialEq, Eq)]
pub struct ItemStat {
    pub name: String,
    pub image_url: Option<String>,
}

/// The view of an [`ItemStat`].
pub struct ItemStatView {
    pub name: Seq<char>,
    pub image_url: Option<Seq<char>>,
}

impl View for ItemStat {
    type V = ItemStatView;

    open spec fn view(&self) -> ItemStatView {
        ItemStatView { name: self.name@, image_url: opt_view(self.image_url) }
    }
}

impl DeepView for ItemStat {
    type V = ItemStatView;

    open spec fn deep_view(&self) -> ItemStatView {
        self@
    }
}

impl Clone for ItemStat {
    fn clone(&self) -> (r: Self)
        ensures
            r == *self,
    {
        ItemStat { name: self.name.clone(), image_url: clone_opt_string(&self.image_url) }
    }
}

/// One group of change lines inside a patch-note entry, such as the changes to
/// one ability.
#[derive(Debug, PartialEq, Eq)]
pub struct ChangeBlock {
    pub title: Option<String>,
    pub icon_url: Option<String>,
    pub changes: Vec<String>,
}

/// The view of a [`ChangeBlock`].
pub struct ChangeBlockView {
    pub title: Option<Seq<char>>,
    pub icon_url: Option<Seq<char>>,
    pub changes: Seq<Seq<char>>,
}

impl View for ChangeBlock {
    type V = ChangeBlockView;

    open spec fn view(&self) -> ChangeBlockView {
        ChangeBlockView {
            title: opt_view(self.title),
            icon_url: opt_view(self.icon_url),
            changes: self.changes.deep_view(),
        }
    }
}

impl DeepView for ChangeBlock {
    type V = ChangeBlockView;

    open spec fn deep_view(&self) -> ChangeBlockView {
        self@
    }
}

impl Clone for ChangeBlock {
    fn clone(&self) -> (r: Self)
        ensures
            r@ == self@,
    {
        ChangeBlock {
            title: clone_opt_string(&self.title),
            icon_url: clone_opt_string(&self.icon_url),
            changes: clone_strings(&self.changes),
        }
    }
}

/// Copies a list of change blocks.
pub fn clone_blocks(v: &Vec<ChangeBlock>) -> (r: Vec<ChangeBlock>)
    ensures
        r.deep_view() == v.deep_view(),
{
    let mut out: Vec<ChangeBlock> = Vec::new();
    let mut i: usize = 0;
    while i < v.len()
        invariant
            i <= v.len(),
            out.len() == i,
            forall|k: int| 0 <= k < i ==> out[k]@ == v[k]@,
        decreases v.len() - i,
    {
        out.push(v[i].clone());
        i = i + 1;
    }
    assert(out.deep_view() =~= v.deep_view());
    out
}

/// One entry of the patch notes: what changed for one champion, item, rune or
/// system.
#[derive(Debug, PartialEq, Eq)]
pub struct PatchNoteEntry {
    pub id: String,
    pub title: String,
    pub image_url: Option<String>,
    pub category: PatchCategory,
    pub change_type: ChangeType,
    pub summary: String,
    pub details: Vec<ChangeBlock>,
}

/// The view of a [`PatchNoteEntry`].
pub struct PatchNoteEntryView {
    pub id: Seq<char>,
    pub title: Seq<char>,
    pub image_url: Option<Seq<char>>,
    pub category: PatchCategory,
    pub change_type: ChangeType,
    pub summary: Seq<char>,
    pub details: Seq<ChangeBlockView>,
}

impl View for PatchNoteEntry {
    type V = PatchNoteEntryView;

    open spec fn view(&self) -> PatchNoteEntryView {
        PatchNoteEntryView {
            id: self.id@,
            title: self.title@,
            image_url: opt_view(self.image_url),
            category: self.category,
            change_type: self.change_type,
            summary: self.summary@,
            details: self.details.deep_view(),
        }
    }
}

impl DeepView for PatchNoteEntry {
    type V = PatchNoteEntryView;

    open spec fn deep_view(&self) -> PatchNoteEntryView {
        self@
    }
}

impl Clone for PatchNoteEntry {
    fn clone(&self) -> (r: Self)
        ensures
            r@ == self@,
    {
        PatchNoteEntry {
            id: self.id.clone(),
            title: self.title.clone(),
            image_url: clone_opt_string(&self.image_url),
            category: self.category,
            change_type: self.change_type,
            summary: self.summary.clone(),
            details: clone_blocks(&self.details),
        }
    }
}

/// Copies a list of patch-note entries.
pub fn clone_notes(v: &Vec<PatchNoteEntry>) -> (r: Vec<PatchNoteEntry>)
    ensures
        r.deep_view() == v.deep_view(),
{
    let mut out: Vec<PatchNoteEntry> = Vec::new();
    let mut i: usize = 0;
    while i < v.len()
        invariant
            i <= v.len(),
            out.len() == i,
            forall|k: int| 0 <= k < i ==> out[k]@ == v[k]@,
        decreases v.len() - i,
    {
        out.push(v[i].clone());
        i = i + 1;
    }
    assert(out.deep_view() =~= v.deep_view());
    out
}

/// The statistics of one champion in one lane. The three rates are in
/// hundredths of a percentage point, on a scale from 0 to 10000.
#[derive(Debug, PartialEq, Eq)]
pub struct ChampionStats {
    pub id: String,
    pub name: String,
    pub tier: String,
    pub role: LaneRole,
    pub win_rate: i32,
    pub pick_rate: i32,
    pub ban_rate: i32,
    pub image_url: Option<String>,
    pub core_items: Vec<ItemStat>,
    pub popular_runes: Vec<String>,
}

/// The view of a [`ChampionStats`].
pub struct ChampionStatsView {
    pub id: Seq<char>,
    pub name: Seq<char>,
    pub tier: Seq<char>,
    pub role: LaneRole,
    pub win_rate: int,
    pub pick_rate: int,
    pub ban_rate: int,
    pub image_url: Option<Seq<char>>,
    pub core_items: Seq<ItemStatView>,
    pub popular_runes: Seq<Seq<char>>,
}

impl View for ChampionStats {
    type V = ChampionStatsView;

    open spec fn view(&self) -> ChampionStatsView {
        ChampionStatsView {
            id: self.id@,
            name: self.name@,
            tier: self.tier@,
            role: self.role,
            win_rate: self.win_rate as int,
            pick_rate: self.pick_rate as int,
            ban_rate: self.ban_rate as int,
            image_url: opt_view(self.image_url),
            core_items: self.core_items.deep_view(),
            popular_runes: self.popular_runes.deep_view(),
        }
    }
}

impl DeepView for ChampionStats {
    type V = ChampionStatsView;

    open spec fn deep_view(&self) -> ChampionStatsView {
        self@
    }
}

/// Copies a list of items.
pub fn clone_items(v: &Vec<ItemStat>) -> (r: Vec<ItemStat>)
    ensures
        r.deep_view() == v.deep_view(),
{
    let mut out: Vec<ItemStat> = Vec::new();
    let mut i: usize = 0;
    while i < v.len()
        invariant
            i <= v.len(),
            out.len() == i,
            forall|k: int| 0 <= k < i ==> out[k]@ == v[k]@,
        decreases v.len() - i,
    {
        out.push(v[i].clone());
        i = i + 1;
    }
    assert(out.deep_view() =~= v.deep_view());
    out
}

impl Clone for ChampionStats {
    fn clone(&self) -> (r: Self)
        ensures
            r@ == self@,
    {
        ChampionStats {
            id: self.id.clone(),
            name: self.name.clone(),
            tier: self.tier.clone(),
            role: self.role,
            win_rate: self.win_rate,
            pick_rate: self.pick_rate,
            ban_rate: self.ban_rate,
            image_url: clone_opt_string(&self.image_url),
            core_items: clone_items(&self.core_items),
            popular_runes: clone_strings(&self.popular_runes),
        }
    }
}

/// Copies a list of champion statistics.
pub fn clone_champions(v: &Vec<ChampionStats>) -> (r: Vec<ChampionStats>)
    ensures
        r.deep_view() == v.deep_view(),
{
    let mut out: Vec<ChampionStats> = Vec::new();
    let mut i: usize = 0;
    while i < v.len()
        invariant
            i <= v.len(),
            out.len() == i,
            forall|k: int| 0 <= k < i ==> out[k]@ == v[k]@,
        decreases v.len() - i,
    {
        out.push(v[i].clone());
        i = i + 1;
    }
    assert(out.deep_view() =~= v.deep_view());
    out
}

/// A snapshot: everything fetched for one patch, keyed by its version.
#[derive(Debug, PartialEq, Eq)]
pub struct PatchData {
    pub version: String,
    /// Microseconds since the Unix epoch, UTC.
    pub fetched_at: i64,
    pub champions: Vec<ChampionStats>,
    pub patch_notes: Vec<PatchNoteEntry>,
}

/// The view of a [`PatchData`].
pub struct PatchDataView {
    pub version: Seq<char>,
    pub fetched_at: int,
    pub champions: Seq<ChampionStatsView>,
    pub patch_notes: Seq<PatchNoteEntryView>,
}

impl View for PatchData {
    type V = PatchDataView;

    open spec fn view(&self) -> PatchDataView {
        PatchDataView {
            version: self.version@,
            fetched_at: self.fetched_at as int,
            champions: self.champions.deep_view(),
            patch_notes: self.patch_notes.deep_view(),
        }
    }
}

impl DeepView for PatchData {
    type V = PatchDataView;

    open spec fn deep_view(&self) -> PatchDataView {
        self@
    }
}

impl Clone for PatchData {
    fn clone(&self) -> (r: Self)
        ensures
            r@ == self@,
    {
        PatchData {
            version: self.version.clone(),
            fetched_at: self.fetched_at,
            champions: clone_champions(&self.champions),
            patch_notes: clone_notes(&self.patch_notes),
        }
    }
}

/// How one champion moved between two snapshots. Both differences are in
/// hundredths of a percentage point and are multiples of ten: they are rounded
/// to one decimal place.
#[derive(Debug, PartialEq, Eq)]
pub struct MetaAnalysisDiff {
    pub champion_name: String,
    pub role: LaneRole,
    pub win_rate_diff: i64,
    pub pick_rate_diff: i64,
    pub predicted_change: Option<ChangeType>,
    pub champion_image_url: Option<String>,
}

/// The view of a [`MetaAnalysisDiff`].
pub struct MetaAnalysisDiffView {
    pub champion_name: Seq<char>,
    pub role: LaneRole,
    pub win_rate_diff: int,
    pub pick_rate_diff: int,
    pub predicted_change: Option<ChangeType>,
    pub champion_image_url: Option<Seq<char>>,
}

impl View for MetaAnalysisDiff {
    type V = MetaAnalysisDiffView;

    open spec fn view(&self) -> MetaAnalysisDiffView {
        MetaAnalysisDiffView {
            champion_name: self.champion_name@,
            role: self.role,
            win_rate_diff: self.win_rate_diff as int,
            pick_rate_diff: self.pick_rate_diff as int,
            predicted_change: self.predicted_change,
            champion_image_url: opt_view(self.champion_image_url),
        }
    }
}

impl DeepView for MetaAnalysisDiff {
    type V = MetaAnalysisDiffView;

    open spec fn deep_view(&self) -> MetaAnalysisDiffView {
        self@
    }
}

impl Clone for MetaAnalysisDiff {
    fn clone(&self) -> (r: Self)
        ensures
            r == *self,
    {
        MetaAnalysisDiff {
            champion_name: self.champion_name.clone(),
            role: self.role,
            win_rate_diff: self.win_rate_diff,
            pick_rate_diff: self.pick_rate_diff,
            predicted_change: self.predicted_change,
            champion_image_url: clone_opt_string(&self.champion_image_url),
        }
    }
}

/// The tally of buffs, nerfs and neutral adjustments of one entity over a
/// window of snapshots.
#[derive(Debug, PartialEq, Eq)]
pub struct TierEntry {
    pub name: String,
    pub category: PatchCategory,
    pub buffs: u32,
    pub nerfs: u32,
    pub adjusted: u32,
    pub icon_url: Option<String>,
}

/// The view of a [`TierEntry`].
pub struct TierEntryView {
    pub name: Seq<char>,
    pub category: PatchCategory,
    pub buffs: nat,
    pub nerfs: nat,
    pub adjusted: nat,
    pub icon_url: Option<Seq<char>>,
}

impl View for TierEntry {
    type V = TierEntryView;

    open spec fn view(&self) -> TierEntryView {
        TierEntryView {
            name: self.name@,
            category: self.category,
            buffs: self.buffs as nat,
            nerfs: self.nerfs as nat,
            adjusted: self.adjusted as nat,
            icon_url: opt_view(self.icon_url),
        }
    }
}

impl DeepView for TierEntry {
    type V = TierEntryView;

    open spec fn deep_view(&self) -> TierEntryView {
        self@
    }
}

impl Clone for TierEntry {
    fn clone(&self) -> (r: Self)
        ensures
            r == *self,
    {
        TierEntry {
            name: self.name.clone(),
            category: self.category,
            buffs: self.buffs,
            nerfs: self.nerfs,
            adjusted: self.adjusted,
            icon_url: clone_opt_string(&self.icon_url),
        }
    }
}

/// One change of an entity, with the patch it came with.
#[derive(Debug, PartialEq, Eq)]
pub struct ChampionHistoryEntry {
    pub patch_version: String,
    /// When the patch was fetched: microseconds since the Unix epoch, UTC.
    pub date: i64,
    pub change: PatchNoteEntry,
}

/// The view of a [`ChampionHistoryEntry`].
pub struct ChampionHistoryEntryView {
    pub patch_version: Seq<char>,
    pub date: int,
    pub change: PatchNoteEntryView,
}

impl View for ChampionHistoryEntry {
    type V = ChampionHistoryEntryView;

    open spec fn view(&self) -> ChampionHistoryEntryView {
        ChampionHistoryEntryView {
            patch_version: self.patch_version@,
            date: self.date as int,
            change: self.change@,
        }
    }
}

impl DeepView for ChampionHistoryEntry {
    type V = ChampionHistoryEntryView;

    open spec fn deep_view(&self) -> ChampionHistoryEntryView {
        self@
    }
}

impl Clone for ChampionHistoryEntry {
    fn clone(&self) -> (r: Self)
        ensures
            r@ == self@,
    {
        ChampionHistoryEntry {
            patch_version: self.patch_version.clone(),
            date: self.date,
            change: self.change.clone(),
        }
    }
}

/// A champion as the champion list shows it: the localized name, the English
/// name and the icon.
#[derive(Debug, PartialEq, Eq)]
pub struct ChampionListItem {
    pub name: String,
    pub name_en: String,
    pub icon_url: String,
}

/// The view of a [`ChampionListItem`].
pub struct ChampionListItemView {
    pub name: Seq<char>,
    pub name_en: Seq<char>,
    pub icon_url: Seq<char>,
}

impl View for ChampionListItem {
    type V = ChampionListItemView;

    open spec fn view(&self) -> ChampionListItemView {
        ChampionListItemView { name: self.name@, name_en: self.name_en@, icon_url: self.icon_url@ }
    }
}

impl DeepView for ChampionListItem {
    type V = ChampionListItemView;

    open spec fn deep_view(&self) -> ChampionListItemView {
        self@
    }
}

impl Clone for ChampionListItem {
    fn clone(&self) -> (r: Self)
        ensures
            r == *self,
    {
        ChampionListItem {
            name: self.name.clone(),
            name_en: self.name_en.clone(),
            icon_url: self.icon_url.clone(),
        }
    }
}

/// One event for the log: a level, a message and the time of day it was
/// raised at.
#[derive(Debug, PartialEq, Eq)]
pub struct LogEntry {
    pub level: String,
    pub message: String,
    pub timestamp: String,
}

/// The view of a [`LogEntry`].
pub struct LogEntryView {
    pub level: Seq<char>,
    pub message: Seq<char>,
    pub timestamp: Seq<char>,
}

impl View for LogEntry {
    type V = LogEntryView;

    open spec fn view(&self) -> LogEntryView {
        LogEntryView { level: self.level@, message: self.message@, timestamp: self.timestamp@ }
    }
}

impl Clone for LogEntry {
    fn clone(&self) -> (r: Self)
        ensures
            r == *self,
    {
        LogEntry {
            level: self.level.clone(),
            message: self.message.clone(),
            timestamp: self.timestamp.clone(),
        }
    }
}

} // verus!
