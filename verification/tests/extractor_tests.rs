use meta_analyzer::extractor::{
    category_from_heading, category_from_lower_id, clean_url, extract_patch_notes,
    title_is_furniture, title_is_rejected, DocNode, Extraction,
};
use meta_analyzer::models::{ChangeBlock, ChangeType, PatchCategory, PatchNoteEntry};

fn s(text: &str) -> String {
    text.to_string()
}

fn ahri_block() -> Vec<DocNode> {
    vec![
        DocNode::Heading { id: s("patch-champions") },
        DocNode::BlockStart,
        DocNode::Reference {
            image: Some(s("https://am-a.akamaihd.net/image?f=https://cdn.example/ahri.png")),
        },
        DocNode::Title { text: s("  Ahri \n") },
        DocNode::Summary { text: s(" Q deals more damage. ") },
        DocNode::DetailTitle { text: s(" Q - Orb of Deception "), icon: Some(s("https://cdn.example/q.png")) },
        DocNode::List { items: vec![s(" Damage increased: 40 → 50 "), s("   "), s("Cooldown: 7 → 6")] },
        DocNode::BlockEnd,
    ]
}

#[test]
fn empty_document_has_no_entries() {
    assert_eq!(extract_patch_notes(&vec![]), vec![]);
}

#[test]
fn one_block_gives_one_entry() {
    let notes = extract_patch_notes(&ahri_block());
    assert_eq!(
        notes,
        vec![PatchNoteEntry {
            id: s("Ahri"),
            title: s("Ahri"),
            image_url: Some(s("https://cdn.example/ahri.png")),
            category: PatchCategory::Champions,
            change_type: ChangeType::Buff,
            summary: s("Q deals more damage."),
            details: vec![ChangeBlock {
                title: Some(s("Q - Orb of Deception")),
                icon_url: Some(s("https://cdn.example/q.png")),
                changes: vec![s("Damage increased: 40 → 50"), s("Cooldown: 7 → 6")],
            }],
        }]
    );
}

#[test]
fn extraction_is_repeatable() {
    let nodes = ahri_block();
    assert_eq!(extract_patch_notes(&nodes), extract_patch_notes(&nodes));
}

#[test]
fn list_without_detail_title_makes_a_titleless_block() {
    let nodes = vec![
        DocNode::BlockStart,
        DocNode::Title { text: s("Boots") },
        DocNode::List { items: vec![s("Cost decreased")] },
        DocNode::List { items: vec![s("Speed: 25 → 30")] },
        DocNode::BlockEnd,
    ];
    let notes = extract_patch_notes(&nodes);
    assert_eq!(notes.len(), 1);
    assert_eq!(notes[0].category, PatchCategory::Unknown);
    assert_eq!(notes[0].change_type, ChangeType::Nerf);
    assert_eq!(notes[0].image_url, None);
    assert_eq!(
        notes[0].details,
        vec![ChangeBlock {
            title: None,
            icon_url: None,
            changes: vec![s("Cost decreased"), s("Speed: 25 → 30")],
        }]
    );
}

#[test]
fn second_title_in_a_block_flushes_the_first_entry() {
    let nodes = vec![
        DocNode::Heading { id: s("patch-items") },
        DocNode::BlockStart,
        DocNode::Reference { image: Some(s("a.png")) },
        DocNode::Title { text: s("First") },
        DocNode::List { items: vec![s("Damage increased")] },
        DocNode::Title { text: s("Second") },
        DocNode::List { items: vec![s("Damage decreased")] },
        DocNode::BlockEnd,
    ];
    let notes = extract_patch_notes(&nodes);
    assert_eq!(notes.len(), 2);
    assert_eq!(notes[0].title, "First");
    assert_eq!(notes[0].image_url, Some(s("a.png")));
    assert_eq!(notes[0].change_type, ChangeType::Adjusted);
    assert_eq!(notes[0].category, PatchCategory::Items);
    assert_eq!(notes[1].title, "Second");
    assert_eq!(notes[1].image_url, None);
    assert_eq!(notes[1].change_type, ChangeType::Nerf);
}

#[test]
fn nodes_before_a_title_are_passed_over() {
    let nodes = vec![
        DocNode::BlockStart,
        DocNode::Summary { text: s("stray") },
        DocNode::DetailTitle { text: s("stray"), icon: None },
        DocNode::List { items: vec![s("stray")] },
        DocNode::BlockEnd,
    ];
    assert_eq!(extract_patch_notes(&nodes), vec![]);
}

#[test]
fn rejected_titles_open_no_entry() {
    let nodes = vec![
        DocNode::BlockStart,
        DocNode::Title { text: s("   ") },
        DocNode::List { items: vec![s("lost")] },
        DocNode::Title { text: s("Patch 25.01 Notes") },
        DocNode::List { items: vec![s("lost")] },
        DocNode::Title { text: s("Champions") },
        DocNode::List { items: vec![s("lost")] },
        DocNode::BlockEnd,
    ];
    assert_eq!(extract_patch_notes(&nodes), vec![]);
    assert!(title_is_rejected(""));
    assert!(title_is_rejected("Описание обновления 25.01"));
    assert!(title_is_rejected("Чемпионы"));
    assert!(!title_is_rejected("Ahri"));
    assert!(!title_is_rejected("Champions Queue"));
}

#[test]
fn open_entry_at_the_end_is_closed() {
    let nodes = vec![
        DocNode::BlockStart,
        DocNode::Title { text: s("Open") },
        DocNode::List { items: vec![s("Armor increased")] },
    ];
    let notes = extract_patch_notes(&nodes);
    assert_eq!(notes.len(), 1);
    assert_eq!(notes[0].change_type, ChangeType::Buff);
}

#[test]
fn icon_does_not_outlive_its_block() {
    let nodes = vec![
        DocNode::BlockStart,
        DocNode::Reference { image: Some(s("a.png")) },
        DocNode::BlockEnd,
        DocNode::BlockStart,
        DocNode::Title { text: s("Later") },
        DocNode::BlockEnd,
    ];
    let notes = extract_patch_notes(&nodes);
    assert_eq!(notes.len(), 1);
    assert_eq!(notes[0].image_url, None);
    assert_eq!(notes[0].change_type, ChangeType::Adjusted);
    assert_eq!(notes[0].summary, "");
}

#[test]
fn bug_fix_lists_become_fix_entries() {
    let nodes = vec![
        DocNode::BlockStart,
        DocNode::Title { text: s("Ahri") },
        DocNode::BlockEnd,
        DocNode::Heading { id: s("patch-Bugfixes-and-QoL") },
        DocNode::BorderedList { items: vec![s(" Fixed a crash "), s(""), s("Fixed a typo")] },
    ];
    let notes = extract_patch_notes(&nodes);
    assert_eq!(notes.len(), 3);
    assert_eq!(
        notes[1],
        PatchNoteEntry {
            id: s("fix_1"),
            title: s("Исправление ошибки"),
            image_url: None,
            category: PatchCategory::BugFixes,
            change_type: ChangeType::Fix,
            summary: s("Fixed a crash"),
            details: vec![ChangeBlock {
                title: None,
                icon_url: None,
                changes: vec![s("Fixed a crash")],
            }],
        }
    );
    assert_eq!(notes[2].id, "fix_2");
    assert_eq!(notes[2].summary, "Fixed a typo");
}

#[test]
fn fix_identifiers_count_in_decimal() {
    let mut items = Vec::new();
    for i in 0..12 {
        items.push(format!("fix number {}", i));
    }
    let nodes = vec![DocNode::Heading { id: s("bug") }, DocNode::BorderedList { items }];
    let notes = extract_patch_notes(&nodes);
    assert_eq!(notes.len(), 12);
    assert_eq!(notes[0].id, "fix_0");
    assert_eq!(notes[9].id, "fix_9");
    assert_eq!(notes[10].id, "fix_10");
    assert_eq!(notes[11].id, "fix_11");
}

#[test]
fn bordered_lists_outside_bug_fixes_are_passed_over() {
    let nodes = vec![
        DocNode::Heading { id: s("patch-champions") },
        DocNode::BorderedList { items: vec![s("not a fix")] },
    ];
    assert_eq!(extract_patch_notes(&nodes), vec![]);
}

#[test]
fn headings_map_to_categories() {
    assert_eq!(category_from_heading("patch-Champions"), PatchCategory::Champions);
    assert_eq!(category_from_heading("patch-items"), PatchCategory::Items);
    assert_eq!(category_from_heading("patch-runes"), PatchCategory::Runes);
    assert_eq!(category_from_heading("patch-items-and-runes"), PatchCategory::ItemsRunes);
    assert_eq!(category_from_heading("patch-upcoming-skins-and-chromas"), PatchCategory::Skins);
    assert_eq!(category_from_heading("patch-chromas"), PatchCategory::Skins);
    assert_eq!(category_from_heading("patch-bugfixes"), PatchCategory::BugFixes);
    assert_eq!(category_from_heading("patch-ARAM"), PatchCategory::Modes);
    assert_eq!(category_from_heading("patch-arena"), PatchCategory::Modes);
    assert_eq!(category_from_heading("patch-game-modes"), PatchCategory::Modes);
    assert_eq!(category_from_heading("patch-systems"), PatchCategory::Systems);
    assert_eq!(category_from_heading("patch-qol"), PatchCategory::Systems);
    assert_eq!(category_from_heading("patch-patch-highlights"), PatchCategory::NewContent);
    assert_eq!(category_from_heading("patch-mythic-shop"), PatchCategory::Unknown);
    assert_eq!(category_from_heading(""), PatchCategory::Unknown);
    assert_eq!(category_from_heading("champion-items"), PatchCategory::Champions);
}

#[test]
fn unknown_heading_resets_the_category() {
    let nodes = vec![
        DocNode::Heading { id: s("patch-champions") },
        DocNode::Heading { id: s("patch-other") },
        DocNode::BlockStart,
        DocNode::Title { text: s("Thing") },
        DocNode::BlockEnd,
    ];
    let notes = extract_patch_notes(&nodes);
    assert_eq!(notes[0].category, PatchCategory::Unknown);
}

#[test]
fn proxied_addresses_are_unwrapped() {
    assert_eq!(
        clean_url("https://am-a.akamaihd.net/image?resize=40&f=x?f=https://real/a.png?f=b"),
        "https://real/a.png?f=b"
    );
    assert_eq!(clean_url("https://am-a.akamaihd.net/image?f="), "");
    assert_eq!(clean_url("https://other.net/image?f=https://real/a.png"), "https://other.net/image?f=https://real/a.png");
    assert_eq!(clean_url("https://am-a.akamaihd.net/a.png"), "https://am-a.akamaihd.net/a.png");
    assert_eq!(clean_url(""), "");
}

#[test]
fn lower_case_identifiers_decide_the_category() {
    assert_eq!(category_from_lower_id("patch-runes"), PatchCategory::Runes);
    assert_eq!(category_from_lower_id("patch-ARAM"), PatchCategory::Unknown);
}

#[test]
fn furniture_titles_are_known_in_lower_case() {
    assert!(title_is_furniture("patch 25.01 notes"));
    assert!(title_is_furniture("bug fixes"));
    assert!(title_is_furniture("руны"));
    assert!(!title_is_furniture("Bug Fixes"));
    assert!(!title_is_furniture("ahri"));
    assert!(!title_is_furniture(""));
}

#[test]
fn state_is_carried_from_node_to_node() {
    let state = Extraction::new();
    assert_eq!(state.category, PatchCategory::Unknown);
    let state = state.feed(&DocNode::Heading { id: s("patch-items") });
    assert_eq!(state.category, PatchCategory::Items);
    let state = state.feed(&DocNode::Reference { image: Some(s("i.png")) });
    assert_eq!(state.pending_icon, Some(s("i.png")));
    let state = state.open("Sword");
    assert_eq!(state.pending_icon, None);
    assert_eq!(state.current.as_ref().map(|e| e.title.as_str()), Some("Sword"));
    let state = state.title("  ");
    assert_eq!(state.current, None);
    assert_eq!(state.notes.len(), 1);
    assert_eq!(state.notes[0].image_url, Some(s("i.png")));
    let state = state.block_edge();
    assert_eq!(state.notes.len(), 1);
}
