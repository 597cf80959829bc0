use meta_analyzer::models::{
    ChangeBlock, ChangeType, PatchCategory, PatchData, PatchNoteEntry, TierEntry,
};
use meta_analyzer::tier::{count_note, rank_entries, same_signature, signature, tally_notes, TierCache};

fn note(title: &str, category: PatchCategory, image: Option<&str>, lines: &[&str]) -> PatchNoteEntry {
    PatchNoteEntry {
        id: title.to_string(),
        title: title.to_string(),
        image_url: image.map(|s| s.to_string()),
        category,
        change_type: ChangeType::Adjusted,
        summary: String::new(),
        details: vec![ChangeBlock {
            title: None,
            icon_url: None,
            changes: lines.iter().map(|l| l.to_string()).collect(),
        }],
    }
}

fn snapshot(version: &str, fetched_at: i64, notes: Vec<PatchNoteEntry>) -> PatchData {
    PatchData { version: version.to_string(), fetched_at, champions: vec![], patch_notes: notes }
}

fn entry(name: &str, category: PatchCategory, buffs: u32, nerfs: u32, adjusted: u32) -> TierEntry {
    TierEntry { name: name.to_string(), category, buffs, nerfs, adjusted, icon_url: None }
}

fn window() -> Vec<PatchData> {
    vec![
        snapshot(
            "25.02",
            2_000,
            vec![
                note("Ahri", PatchCategory::Champions, Some("old.png"), &["Damage: 50 → 60", "Cooldown: 8 → 10"]),
                note("Boots", PatchCategory::Items, None, &["Cost: 300 → 350"]),
            ],
        ),
        snapshot(
            "25.01",
            1_000,
            vec![
                note("Ahri", PatchCategory::Champions, None, &["Damage increased", "Tooltip updated"]),
                note("Ahri", PatchCategory::Items, Some("item.png"), &["Damage decreased"]),
                note("Zed", PatchCategory::Champions, Some("zed.png"), &[]),
            ],
        ),
    ]
}

#[test]
fn lines_of_a_note_are_counted_by_trend() {
    let n = note("X", PatchCategory::Champions, None, &["Damage: 1 → 2", "Damage: 2 → 1", "x", "removed", "Armor increased"]);
    assert_eq!(count_note(&n), (2, 2, 1));
    let empty = note("X", PatchCategory::Champions, None, &[]);
    assert_eq!(count_note(&empty), (0, 0, 0));
}

#[test]
fn tally_groups_by_title_and_category() {
    let entries = tally_notes(&window());
    assert_eq!(
        entries,
        vec![
            TierEntry {
                name: "Ahri".to_string(),
                category: PatchCategory::Champions,
                buffs: 2,
                nerfs: 1,
                adjusted: 1,
                icon_url: Some("old.png".to_string()),
            },
            TierEntry {
                name: "Boots".to_string(),
                category: PatchCategory::Items,
                buffs: 0,
                nerfs: 1,
                adjusted: 0,
                icon_url: None,
            },
            TierEntry {
                name: "Ahri".to_string(),
                category: PatchCategory::Items,
                buffs: 0,
                nerfs: 1,
                adjusted: 0,
                icon_url: Some("item.png".to_string()),
            },
            TierEntry {
                name: "Zed".to_string(),
                category: PatchCategory::Champions,
                buffs: 0,
                nerfs: 0,
                adjusted: 0,
                icon_url: Some("zed.png".to_string()),
            },
        ]
    );
}

#[test]
fn counts_add_up_to_the_lines_of_each_key() {
    let patches = window();
    for e in tally_notes(&patches) {
        let lines: usize = patches
            .iter()
            .flat_map(|p| p.patch_notes.iter())
            .filter(|n| n.title == e.name && n.category == e.category)
            .flat_map(|n| n.details.iter())
            .map(|b| b.changes.len())
            .sum();
        assert_eq!((e.buffs + e.nerfs + e.adjusted) as usize, lines);
    }
}

#[test]
fn later_icon_replaces_the_earlier_one() {
    let patches = vec![
        snapshot("1", 1, vec![note("A", PatchCategory::Runes, Some("first.png"), &[])]),
        snapshot("2", 2, vec![note("A", PatchCategory::Runes, None, &[])]),
        snapshot("3", 3, vec![note("A", PatchCategory::Runes, Some("last.png"), &[])]),
    ];
    let entries = tally_notes(&patches);
    assert_eq!(entries.len(), 1);
    assert_eq!(entries[0].icon_url, Some("last.png".to_string()));
}

#[test]
fn entries_are_ranked_by_surplus_then_buffs_then_nerfs() {
    let entries = vec![
        entry("a", PatchCategory::Champions, 1, 3, 0),
        entry("b", PatchCategory::Champions, 2, 1, 0),
        entry("c", PatchCategory::Champions, 5, 4, 9),
        entry("d", PatchCategory::Champions, 0, 0, 0),
        entry("e", PatchCategory::Champions, 3, 0, 0),
        entry("f", PatchCategory::Champions, 1, 1, 0),
    ];
    let ranked = rank_entries(&entries);
    let names: Vec<&str> = ranked.iter().map(|e| e.name.as_str()).collect();
    assert_eq!(names, vec!["e", "c", "b", "f", "d", "a"]);
}

#[test]
fn ranking_of_a_window() {
    let mut cache = TierCache::new();
    let ranked = cache.get_tier_list(&window());
    let names: Vec<(&str, PatchCategory)> =
        ranked.iter().map(|e| (e.name.as_str(), e.category)).collect();
    assert_eq!(
        names,
        vec![
            ("Ahri", PatchCategory::Champions),
            ("Zed", PatchCategory::Champions),
            ("Boots", PatchCategory::Items),
            ("Ahri", PatchCategory::Items),
        ]
    );
}

#[test]
fn empty_window_has_an_empty_ranking() {
    let mut cache = TierCache::new();
    assert_eq!(cache.get_tier_list(&vec![]), vec![]);
    assert!(cache.holds(&vec![]));
}

#[test]
fn second_request_is_served_from_the_cache() {
    let mut cache = TierCache::new();
    let patches = window();
    assert!(!cache.holds(&patches));
    let first = cache.get_tier_list(&patches);
    assert!(cache.holds(&patches));
    let second = cache.get_tier_list(&patches);
    assert_eq!(first, second);
}

#[test]
fn cache_is_keyed_by_version_and_fetch_time_alone() {
    let mut cache = TierCache::new();
    let first = cache.get_tier_list(&window());
    let same_stamps = vec![snapshot("25.02", 2_000, vec![]), snapshot("25.01", 1_000, vec![])];
    assert!(cache.holds(&same_stamps));
    assert_eq!(cache.get_tier_list(&same_stamps), first);
}

#[test]
fn new_snapshot_forces_a_new_ranking() {
    let mut cache = TierCache::new();
    let mut patches = window();
    let first = cache.get_tier_list(&patches);
    patches.insert(
        0,
        snapshot("25.03", 3_000, vec![note("Zed", PatchCategory::Champions, None, &["Damage increased"])]),
    );
    assert!(!cache.holds(&patches));
    let second = cache.get_tier_list(&patches);
    assert_ne!(first, second);
    assert_eq!(second[1].name, "Zed");
    assert_eq!(second[1].buffs, 1);
    assert!(cache.holds(&patches));
    assert!(!cache.holds(&window()));
}

#[test]
fn refetched_snapshot_forces_a_new_ranking() {
    let mut cache = TierCache::new();
    let mut patches = window();
    cache.get_tier_list(&patches);
    patches[1].fetched_at = 1_001;
    assert!(!cache.holds(&patches));
}

#[test]
fn cleared_cache_remembers_nothing() {
    let mut cache = TierCache::new();
    let patches = window();
    cache.get_tier_list(&patches);
    cache.clear();
    assert!(!cache.holds(&patches));
}

#[test]
fn signatures_compare_by_version_and_fetch_time() {
    let a = signature(&window());
    assert_eq!(a, vec![("25.02".to_string(), 2_000), ("25.01".to_string(), 1_000)]);
    assert!(same_signature(&a, &signature(&window())));
    let mut other = window();
    other.reverse();
    assert!(!same_signature(&a, &signature(&other)));
    assert!(!same_signature(&a, &vec![]));
    assert!(same_signature(&vec![], &vec![]));
}

#[test]
fn requests_leave_a_line_in_the_log() {
    let mut cache = TierCache::new();
    let patches = window();
    let (first, line) = cache.get_tier_list_logged(&patches);
    assert_eq!(line.level, "INFO");
    assert_eq!(line.message, "Tier list recomputed.");
    let (second, line) = cache.get_tier_list_logged(&patches);
    assert_eq!(line.level, "INFO");
    assert_eq!(line.message, "Tier list served from cache.");
    assert_eq!(first, second);
}
