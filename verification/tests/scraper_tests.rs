use meta_analyzer::extractor::DocNode;
use meta_analyzer::models::{
    ChampionStats, ChangeType, LaneRole, PatchCategory, PatchData, PatchNoteEntry,
};
use meta_analyzer::order::Rank;
use meta_analyzer::scraper::{
    fallback_patches, parse_number, rank_of_version, version_from_groups, version_from_href,
    versions_of_links, Scraper,
};

fn s(text: &str) -> String {
    text.to_string()
}

fn note(title: &str, category: PatchCategory, image: Option<&str>) -> PatchNoteEntry {
    PatchNoteEntry {
        id: s(title),
        title: s(title),
        image_url: image.map(s),
        category,
        change_type: ChangeType::Adjusted,
        summary: String::new(),
        details: vec![],
    }
}

#[test]
fn links_name_versions() {
    assert_eq!(version_from_href("/ru-ru/news/game-updates/patch-25-13-notes/"), Some(s("25.13")));
    assert_eq!(version_from_href("patch-14-1-notes"), Some(s("14.1")));
    assert_eq!(version_from_href("patch-2025-s1-3-notes"), None);
    assert_eq!(version_from_href("/news/tags/patch-notes/"), None);
    assert_eq!(version_from_href(""), None);
    assert_eq!(version_from_href("a/patch-1-2-notes/b/patch-3-4-notes"), Some(s("1.2")));
}

#[test]
fn groups_give_a_version() {
    let groups = vec![Some(s("patch-1-2-notes")), Some(s("1")), Some(s("2"))];
    assert_eq!(version_from_groups(&groups), Some(s("1.2")));
    assert_eq!(version_from_groups(&vec![Some(s("x")), Some(s("1"))]), None);
    assert_eq!(version_from_groups(&vec![Some(s("x")), None, Some(s("2"))]), None);
    assert_eq!(version_from_groups(&vec![]), None);
}

#[test]
fn numbers_are_read_like_32_bit_integers() {
    assert_eq!(parse_number("25"), Some(25));
    assert_eq!(parse_number("09"), Some(9));
    assert_eq!(parse_number("+7"), Some(7));
    assert_eq!(parse_number("-7"), Some(-7));
    assert_eq!(parse_number("2147483647"), Some(2147483647));
    assert_eq!(parse_number("-2147483648"), Some(-2147483648));
    assert_eq!(parse_number("2147483648"), None);
    assert_eq!(parse_number("-2147483649"), None);
    assert_eq!(parse_number("99999999999999999999"), None);
    assert_eq!(parse_number(""), None);
    assert_eq!(parse_number("-"), None);
    assert_eq!(parse_number("+"), None);
    assert_eq!(parse_number("1a"), None);
    assert_eq!(parse_number(" 1"), None);
    assert_eq!(parse_number("٣"), None);
    for text in ["25", "09", "+7", "-7", "2147483648", "", "-", "1a", "0000000000000000000012"] {
        assert_eq!(parse_number(text), text.parse::<i32>().ok());
    }
}

#[test]
fn versions_rank_by_major_then_minor() {
    assert_eq!(rank_of_version("25.13"), Rank { first: -25, second: -13, third: 0 });
    assert_eq!(rank_of_version("25.09"), Rank { first: -25, second: -9, third: 0 });
    assert_eq!(rank_of_version("25"), Rank { first: -25, second: 0, third: 0 });
    assert_eq!(rank_of_version("25.1.7"), Rank { first: -25, second: -1, third: 0 });
    assert_eq!(rank_of_version("x.y"), Rank { first: 0, second: 0, third: 0 });
    assert_eq!(rank_of_version(""), Rank { first: 0, second: 0, third: 0 });
    assert_eq!(rank_of_version(".5"), Rank { first: 0, second: -5, third: 0 });
}

#[test]
fn listed_patches_are_distinct_and_latest_first() {
    let first = vec![s("/x/patch-25-24-notes/"), s("/x/patch-25-23-notes/"), s("/about")];
    let second = vec![s("/y/patch-25-24-notes/"), s("/y/patch-26-1-notes/"), s("/y/patch-14-3-notes/")];
    let patches = Scraper::fetch_available_patches(&first, &second);
    let mut expected = vec![s("26.1"), s("25.24")];
    expected.extend(fallback_patches());
    expected.push(s("14.3"));
    assert_eq!(patches, expected);
}

#[test]
fn without_links_the_known_patches_are_listed() {
    let patches = Scraper::fetch_available_patches(&vec![], &vec![]);
    assert_eq!(patches.len(), 20);
    assert_eq!(patches[0], "25.23");
    assert_eq!(patches[19], "25.04");
    assert_eq!(patches, fallback_patches());
}

#[test]
fn links_are_read_in_order() {
    let links = vec![s("patch-1-2-notes"), s("nothing"), s("patch-3-4-notes"), s("patch-1-2-notes")];
    assert_eq!(versions_of_links(&links), vec![s("1.2"), s("3.4"), s("1.2")]);
}

#[test]
fn patch_notes_exist_when_a_link_names_the_version() {
    let first = vec![s("/x/patch-25-24-notes/")];
    let second = vec![s("/y/patch-26-1-notes/")];
    assert!(Scraper::check_patch_notes_exists("25.24", &first, &second));
    assert!(Scraper::check_patch_notes_exists("26.1", &first, &second));
    assert!(!Scraper::check_patch_notes_exists("26.01", &first, &second));
    assert!(!Scraper::check_patch_notes_exists("25.23", &first, &second));
    assert!(!Scraper::check_patch_notes_exists("25.24", &vec![], &vec![]));
}

#[test]
fn snapshot_without_statistics_gets_placeholders() {
    let notes = vec![
        note("Ahri", PatchCategory::Champions, Some("ahri.png")),
        note("Boots", PatchCategory::Items, None),
        note("Zed", PatchCategory::Champions, None),
    ];
    let patch = Scraper::fetch_current_meta("25.13", 77, vec![], notes.clone());
    assert_eq!(patch.version, "25.13");
    assert_eq!(patch.fetched_at, 77);
    assert_eq!(patch.patch_notes, notes);
    assert_eq!(
        patch.champions,
        vec![
            ChampionStats {
                id: s("Ahri"),
                name: s("Ahri"),
                tier: s("?"),
                role: LaneRole::Mid,
                win_rate: 5000,
                pick_rate: 0,
                ban_rate: 0,
                image_url: Some(s("ahri.png")),
                core_items: vec![],
                popular_runes: vec![],
            },
            ChampionStats {
                id: s("Zed"),
                name: s("Zed"),
                tier: s("?"),
                role: LaneRole::Mid,
                win_rate: 5000,
                pick_rate: 0,
                ban_rate: 0,
                image_url: None,
                core_items: vec![],
                popular_runes: vec![],
            },
        ]
    );
}

#[test]
fn snapshot_keeps_the_statistics_that_were_found() {
    let found = vec![ChampionStats {
        id: s("x"),
        name: s("X"),
        tier: s("S"),
        role: LaneRole::Top,
        win_rate: 5120,
        pick_rate: 300,
        ban_rate: 100,
        image_url: None,
        core_items: vec![],
        popular_runes: vec![],
    }];
    let notes = vec![note("Ahri", PatchCategory::Champions, None)];
    let patch = Scraper::fetch_current_meta("1.1", 0, found.clone(), notes);
    assert_eq!(patch.champions, found);
    let empty: PatchData = Scraper::fetch_current_meta("1.1", 0, vec![], vec![]);
    assert!(empty.champions.is_empty());
    assert!(empty.patch_notes.is_empty());
}

#[test]
fn address_of_the_notes() {
    assert_eq!(
        Scraper::patch_notes_url("25.13"),
        "https://www.leagueoflegends.com/ru-ru/news/game-updates/patch-25-13-notes/"
    );
    assert_eq!(
        Scraper::patch_notes_url("1.2.3"),
        "https://www.leagueoflegends.com/ru-ru/news/game-updates/patch-1-2-3-notes/"
    );
}

#[test]
fn scraper_extracts_the_notes_of_a_page() {
    let nodes = vec![
        DocNode::Heading { id: s("patch-champions") },
        DocNode::BlockStart,
        DocNode::Title { text: s("Ahri") },
        DocNode::List { items: vec![s("Damage increased")] },
        DocNode::BlockEnd,
    ];
    let notes = Scraper::scrape_riot_patch_notes(&nodes);
    assert_eq!(notes.len(), 1);
    assert_eq!(notes[0].change_type, ChangeType::Buff);
    assert_eq!(notes[0].category, PatchCategory::Champions);
}
