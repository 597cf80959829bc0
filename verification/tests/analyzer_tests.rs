use meta_analyzer::analyzer::{round_to_tenth, Analyzer};
use meta_analyzer::models::{
    ChampionStats, ChangeBlock, ChangeType, LaneRole, MetaAnalysisDiff, PatchCategory, PatchData,
    PatchNoteEntry,
};
use meta_analyzer::trend::determine_change_type;

fn rate(percent: f64) -> i32 {
    (percent * 100.0).round() as i32
}

fn champion(name: &str, role: LaneRole, win: f64, pick: f64) -> ChampionStats {
    ChampionStats {
        id: name.to_string(),
        name: name.to_string(),
        tier: "S".to_string(),
        role,
        win_rate: rate(win),
        pick_rate: rate(pick),
        ban_rate: 0,
        image_url: None,
        core_items: vec![],
        popular_runes: vec![],
    }
}

fn note(title: &str, category: PatchCategory, line: &str, image: Option<&str>) -> PatchNoteEntry {
    PatchNoteEntry {
        id: title.to_string(),
        title: title.to_string(),
        image_url: image.map(|s| s.to_string()),
        category,
        change_type: determine_change_type(line),
        summary: String::new(),
        details: vec![ChangeBlock { title: None, icon_url: None, changes: vec![line.to_string()] }],
    }
}

fn snapshot(version: &str, champions: Vec<ChampionStats>, notes: Vec<PatchNoteEntry>) -> PatchData {
    PatchData { version: version.to_string(), fetched_at: 0, champions, patch_notes: notes }
}

#[test]
fn scenario_win_rate_rise_with_a_buff_note() {
    let a = snapshot("25.01", vec![champion("X", LaneRole::Mid, 51.2, 5.0)], vec![]);
    let b = snapshot(
        "25.02",
        vec![champion("X", LaneRole::Mid, 52.0, 5.0)],
        vec![note("X", PatchCategory::Champions, "Урон увеличен с 50 до 60", None)],
    );
    let diffs = Analyzer::compare_patches(&b, &a);
    assert_eq!(
        diffs,
        vec![MetaAnalysisDiff {
            champion_name: "X".to_string(),
            role: LaneRole::Mid,
            win_rate_diff: 80,
            pick_rate_diff: 0,
            predicted_change: Some(ChangeType::Buff),
            champion_image_url: None,
        }]
    );
    assert_eq!(diffs[0].win_rate_diff as f64 / 100.0, 0.8);
}

#[test]
fn differences_are_rounded_to_one_decimal_place() {
    let a = snapshot("1", vec![champion("X", LaneRole::Top, 50.00, 10.00)], vec![]);
    let b = snapshot("2", vec![champion("X", LaneRole::Top, 50.74, 8.35)], vec![]);
    let diffs = Analyzer::compare_patches(&b, &a);
    assert_eq!(diffs.len(), 1);
    assert_eq!(diffs[0].win_rate_diff, 70);
    assert_eq!(diffs[0].pick_rate_diff, -170);
}

#[test]
fn rounding_goes_away_from_zero_at_the_half() {
    assert_eq!(round_to_tenth(0), 0);
    assert_eq!(round_to_tenth(4), 0);
    assert_eq!(round_to_tenth(5), 10);
    assert_eq!(round_to_tenth(14), 10);
    assert_eq!(round_to_tenth(15), 20);
    assert_eq!(round_to_tenth(-4), 0);
    assert_eq!(round_to_tenth(-5), -10);
    assert_eq!(round_to_tenth(-15), -20);
    assert_eq!(round_to_tenth(80), 80);
    assert_eq!(round_to_tenth(-10000), -10000);
}

#[test]
fn champion_without_an_earlier_listing_has_zero_differences() {
    let a = snapshot("1", vec![], vec![]);
    let b = snapshot(
        "2",
        vec![champion("New", LaneRole::Jungle, 55.0, 12.0)],
        vec![note("New", PatchCategory::Champions, "tooltip", Some("n.png"))],
    );
    let diffs = Analyzer::compare_patches(&b, &a);
    assert_eq!(
        diffs,
        vec![MetaAnalysisDiff {
            champion_name: "New".to_string(),
            role: LaneRole::Jungle,
            win_rate_diff: 0,
            pick_rate_diff: 0,
            predicted_change: Some(ChangeType::Adjusted),
            champion_image_url: Some("n.png".to_string()),
        }]
    );
}

#[test]
fn first_seen_champion_without_a_note_is_left_out() {
    let a = snapshot("1", vec![], vec![]);
    let b = snapshot("2", vec![champion("New", LaneRole::Jungle, 55.0, 12.0)], vec![]);
    assert_eq!(Analyzer::compare_patches(&b, &a), vec![]);
}

#[test]
fn small_moves_without_a_note_are_left_out() {
    let a = snapshot("1", vec![champion("X", LaneRole::Adc, 50.0, 10.0)], vec![]);
    let b = snapshot("2", vec![champion("X", LaneRole::Adc, 50.5, 9.5)], vec![]);
    assert_eq!(Analyzer::compare_patches(&b, &a), vec![]);
    let c = snapshot("3", vec![champion("X", LaneRole::Adc, 50.51, 10.0)], vec![]);
    assert_eq!(Analyzer::compare_patches(&c, &a).len(), 1);
    let d = snapshot("4", vec![champion("X", LaneRole::Adc, 50.0, 9.49)], vec![]);
    let moved = Analyzer::compare_patches(&d, &a);
    assert_eq!(moved.len(), 1);
    assert_eq!(moved[0].win_rate_diff, 0);
    assert_eq!(moved[0].pick_rate_diff, -50);
}

#[test]
fn champions_are_matched_by_name_and_role() {
    let a = snapshot(
        "1",
        vec![champion("X", LaneRole::Top, 40.0, 5.0), champion("X", LaneRole::Mid, 50.0, 5.0)],
        vec![],
    );
    let b = snapshot("2", vec![champion("X", LaneRole::Mid, 52.0, 5.0)], vec![]);
    let diffs = Analyzer::compare_patches(&b, &a);
    assert_eq!(diffs.len(), 1);
    assert_eq!(diffs[0].role, LaneRole::Mid);
    assert_eq!(diffs[0].win_rate_diff, 200);
}

#[test]
fn last_earlier_listing_counts() {
    let a = snapshot(
        "1",
        vec![champion("X", LaneRole::Mid, 40.0, 5.0), champion("X", LaneRole::Mid, 50.0, 5.0)],
        vec![],
    );
    let b = snapshot("2", vec![champion("X", LaneRole::Mid, 52.0, 5.0)], vec![]);
    let diffs = Analyzer::compare_patches(&b, &a);
    assert_eq!(diffs[0].win_rate_diff, 200);
}

#[test]
fn only_champion_notes_predict_and_titles_match_exactly() {
    let a = snapshot("1", vec![], vec![]);
    let b = snapshot(
        "2",
        vec![champion("Ahri", LaneRole::Mid, 50.0, 5.0)],
        vec![
            note("Ahri", PatchCategory::Items, "Damage increased", None),
            note("ahri", PatchCategory::Champions, "Damage increased", None),
            note("Ahri ", PatchCategory::Champions, "Damage increased", None),
        ],
    );
    assert_eq!(Analyzer::compare_patches(&b, &a), vec![]);
}

#[test]
fn last_note_of_a_champion_counts_and_own_image_is_preferred() {
    let a = snapshot("1", vec![], vec![]);
    let mut x = champion("X", LaneRole::Mid, 50.0, 5.0);
    x.image_url = Some("own.png".to_string());
    let b = snapshot(
        "2",
        vec![x],
        vec![
            note("X", PatchCategory::Champions, "Damage increased", Some("first.png")),
            note("X", PatchCategory::Champions, "Damage decreased", Some("second.png")),
        ],
    );
    let diffs = Analyzer::compare_patches(&b, &a);
    assert_eq!(diffs[0].predicted_change, Some(ChangeType::Nerf));
    assert_eq!(diffs[0].champion_image_url, Some("own.png".to_string()));
}

#[test]
fn predicted_entries_come_first_then_larger_win_rate_moves() {
    let a = snapshot(
        "1",
        vec![
            champion("A", LaneRole::Top, 50.0, 5.0),
            champion("B", LaneRole::Top, 50.0, 5.0),
            champion("C", LaneRole::Top, 50.0, 5.0),
            champion("D", LaneRole::Top, 50.0, 5.0),
            champion("E", LaneRole::Top, 50.0, 5.0),
        ],
        vec![],
    );
    let b = snapshot(
        "2",
        vec![
            champion("A", LaneRole::Top, 53.0, 5.0),
            champion("B", LaneRole::Top, 50.1, 5.0),
            champion("C", LaneRole::Top, 45.0, 5.0),
            champion("D", LaneRole::Top, 48.0, 5.0),
            champion("E", LaneRole::Top, 51.0, 5.0),
        ],
        vec![
            note("B", PatchCategory::Champions, "tooltip", None),
            note("D", PatchCategory::Champions, "Damage decreased", None),
        ],
    );
    let diffs = Analyzer::compare_patches(&b, &a);
    let names: Vec<&str> = diffs.iter().map(|d| d.champion_name.as_str()).collect();
    assert_eq!(names, vec!["D", "B", "C", "A", "E"]);
    let first_without = diffs.iter().position(|d| d.predicted_change.is_none()).unwrap();
    assert!(diffs[first_without..].iter().all(|d| d.predicted_change.is_none()));
    assert!(diffs[..first_without].iter().all(|d| d.predicted_change.is_some()));
}

#[test]
fn empty_snapshots_compare_to_nothing() {
    let a = snapshot("1", vec![], vec![]);
    let b = snapshot("2", vec![], vec![]);
    assert_eq!(Analyzer::compare_patches(&b, &a), vec![]);
}
