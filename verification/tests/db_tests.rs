use meta_analyzer::db::{Database, RowContent};
use meta_analyzer::models::{
    ChampionHistoryEntry, ChampionStats, ChangeType, LaneRole, PatchCategory, PatchData,
    PatchNoteEntry,
};

fn s(text: &str) -> String {
    text.to_string()
}

fn note(id: &str, title: &str, category: PatchCategory) -> PatchNoteEntry {
    PatchNoteEntry {
        id: s(id),
        title: s(title),
        image_url: None,
        category,
        change_type: ChangeType::Adjusted,
        summary: String::new(),
        details: vec![],
    }
}

fn champion(name: &str) -> ChampionStats {
    ChampionStats {
        id: s(name),
        name: s(name),
        tier: s("A"),
        role: LaneRole::Support,
        win_rate: 5000,
        pick_rate: 100,
        ban_rate: 0,
        image_url: None,
        core_items: vec![],
        popular_runes: vec![],
    }
}

fn stored() -> Vec<PatchData> {
    vec![
        PatchData {
            version: s("25.03"),
            fetched_at: 300,
            champions: vec![],
            patch_notes: vec![
                note("Ahri", "Ahri", PatchCategory::Champions),
                note("boots", "Boots of Speed", PatchCategory::Items),
                note("Ahri", "Ahri", PatchCategory::Items),
            ],
        },
        PatchData {
            version: s("25.01"),
            fetched_at: 100,
            champions: vec![],
            patch_notes: vec![
                note("x", "AHRI", PatchCategory::Champions),
                note("Conqueror", "Conqueror", PatchCategory::ItemsRunes),
                note("AhRi", "y", PatchCategory::Champions),
            ],
        },
        PatchData {
            version: s("25.02"),
            fetched_at: 200,
            champions: vec![],
            patch_notes: vec![
                note("Zed", "Zed", PatchCategory::Champions),
                note("Conqueror", "Conqueror", PatchCategory::Runes),
                note("Boots", "Boots", PatchCategory::ItemsRunes),
            ],
        },
    ]
}

fn summary(history: &Vec<ChampionHistoryEntry>) -> Vec<(&str, i64, &str)> {
    history.iter().map(|h| (h.patch_version.as_str(), h.date, h.change.id.as_str())).collect()
}

#[test]
fn champion_history_is_oldest_first_and_ignores_letter_case() {
    let history = Database::get_champion_history(&stored(), "ahri");
    assert_eq!(summary(&history), vec![("25.01", 100, "x"), ("25.01", 100, "AhRi"), ("25.03", 300, "Ahri")]);
    assert_eq!(history[2].change, note("Ahri", "Ahri", PatchCategory::Champions));
}

#[test]
fn item_history_takes_items_and_mixed_notes() {
    let history = Database::get_item_history(&stored(), "BOOTS");
    assert_eq!(summary(&history), vec![("25.02", 200, "Boots"), ("25.03", 300, "boots")]);
    let ahri = Database::get_item_history(&stored(), "Ahri");
    assert_eq!(summary(&ahri), vec![("25.03", 300, "Ahri")]);
}

#[test]
fn rune_history_takes_runes_and_mixed_notes() {
    let history = Database::get_rune_history(&stored(), "conqueror");
    assert_eq!(summary(&history), vec![("25.01", 100, "Conqueror"), ("25.02", 200, "Conqueror")]);
}

#[test]
fn unknown_name_has_no_history() {
    assert!(Database::get_champion_history(&stored(), "Nobody").is_empty());
    assert!(Database::get_champion_history(&vec![], "Ahri").is_empty());
    assert!(Database::get_rune_history(&stored(), "Ahri").is_empty());
}

#[test]
fn history_for_a_pair_of_categories() {
    let history = Database::get_history_for_category(
        &stored(),
        "zed",
        PatchCategory::Champions,
        PatchCategory::Skins,
    );
    assert_eq!(summary(&history), vec![("25.02", 200, "Zed")]);
}

#[test]
fn full_row_gives_champions_and_notes() {
    let content = RowContent::Full {
        champions: vec![champion("Ahri")],
        patch_notes: vec![note("Ahri", "Ahri", PatchCategory::Champions)],
    };
    let patch = Database::get_patch(s("25.01"), 5, content);
    assert_eq!(
        patch,
        PatchData {
            version: s("25.01"),
            fetched_at: 5,
            champions: vec![champion("Ahri")],
            patch_notes: vec![note("Ahri", "Ahri", PatchCategory::Champions)],
        }
    );
}

#[test]
fn legacy_row_gives_champions_alone() {
    let patch = Database::get_patch(s("14.1"), 5, RowContent::Legacy { champions: vec![champion("Zed")] });
    assert_eq!(patch.champions, vec![champion("Zed")]);
    assert!(patch.patch_notes.is_empty());
}

#[test]
fn unreadable_row_gives_an_empty_snapshot() {
    let patch = Database::get_patch(s("14.1"), 5, RowContent::Unreadable);
    assert_eq!(patch, PatchData { version: s("14.1"), fetched_at: 5, champions: vec![], patch_notes: vec![] });
}
