use meta_analyzer::commands::{
    analyze_patch, get_all_champions, get_changed_itemsrunes_titles, get_latest_patch_data,
};
use meta_analyzer::models::{
    ChampionListItem, ChampionStats, ChangeType, LaneRole, LogEntry, PatchCategory, PatchData,
    PatchNoteEntry,
};

fn s(text: &str) -> String {
    text.to_string()
}

fn note(title: &str, category: PatchCategory) -> PatchNoteEntry {
    PatchNoteEntry {
        id: s(title),
        title: s(title),
        image_url: None,
        category,
        change_type: ChangeType::Adjusted,
        summary: String::new(),
        details: vec![],
    }
}

fn champion(name: &str, win_rate: i32) -> ChampionStats {
    ChampionStats {
        id: s(name),
        name: s(name),
        tier: s("A"),
        role: LaneRole::Mid,
        win_rate,
        pick_rate: 500,
        ban_rate: 0,
        image_url: None,
        core_items: vec![],
        popular_runes: vec![],
    }
}

fn snapshot(version: &str, win_rate: i32, notes: Vec<PatchNoteEntry>) -> PatchData {
    PatchData {
        version: s(version),
        fetched_at: 0,
        champions: vec![champion("X", win_rate)],
        patch_notes: notes,
    }
}

#[test]
fn analysis_compares_with_the_first_other_version() {
    let current = snapshot("25.03", 5300, vec![]);
    let recent = vec![
        snapshot("25.03", 5300, vec![]),
        snapshot("25.02", 5100, vec![]),
        snapshot("25.01", 4000, vec![]),
    ];
    let diffs = analyze_patch("25.03", &current, &recent);
    assert_eq!(diffs.len(), 1);
    assert_eq!(diffs[0].win_rate_diff, 200);
}

#[test]
fn analysis_without_another_version_is_empty() {
    let current = snapshot("25.03", 5300, vec![]);
    assert!(analyze_patch("25.03", &current, &vec![]).is_empty());
    let only_same = vec![snapshot("25.03", 1000, vec![]), snapshot("25.03", 2000, vec![])];
    assert!(analyze_patch("25.03", &current, &only_same).is_empty());
}

#[test]
fn latest_snapshot_is_the_first() {
    let recent = vec![snapshot("25.03", 1, vec![]), snapshot("25.02", 2, vec![])];
    assert_eq!(get_latest_patch_data(&recent), Some(snapshot("25.03", 1, vec![])));
    assert_eq!(get_latest_patch_data(&vec![]), None);
}

#[test]
fn mixed_titles_are_listed_once() {
    let patches = vec![
        snapshot(
            "2",
            0,
            vec![
                note("Conqueror", PatchCategory::ItemsRunes),
                note("Ahri", PatchCategory::Champions),
                note("Boots", PatchCategory::ItemsRunes),
            ],
        ),
        snapshot(
            "1",
            0,
            vec![
                note("Boots", PatchCategory::ItemsRunes),
                note("Boots", PatchCategory::Items),
                note("Sword", PatchCategory::ItemsRunes),
                note("Conqueror", PatchCategory::ItemsRunes),
            ],
        ),
    ];
    assert_eq!(get_changed_itemsrunes_titles(&patches), vec![s("Conqueror"), s("Boots"), s("Sword")]);
    assert!(get_changed_itemsrunes_titles(&vec![]).is_empty());
}

#[test]
fn champion_list_items_keep_their_parts() {
    let list = vec![(s("Ари"), s("Ahri"), s("a.png")), (s("Зед"), s("Zed"), s("z.png"))];
    assert_eq!(
        get_all_champions(&list),
        vec![
            ChampionListItem { name: s("Ари"), name_en: s("Ahri"), icon_url: s("a.png") },
            ChampionListItem { name: s("Зед"), name_en: s("Zed"), icon_url: s("z.png") },
        ]
    );
}

#[test]
fn log_entries_print_level_and_message() {
    let entry = LogEntry::new("INFO", "Saved patch 25.01", "12:00:00");
    assert_eq!(entry.level, "INFO");
    assert_eq!(entry.timestamp, "12:00:00");
    assert_eq!(entry.console_line(), "[INFO] Saved patch 25.01");
}
