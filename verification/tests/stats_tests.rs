use meta_analyzer::lexical::{text_before, TextKey};
use meta_analyzer::order::{sorted_order, sorted_order_by, Rank};
use meta_analyzer::scraper::{ChampionRecord, Scraper};
use meta_analyzer::supabase_client::{ChampionStatsAggregated, MetaChange, SupabaseClient};

fn s(text: &str) -> String {
    text.to_string()
}

fn chars(text: &str) -> Vec<char> {
    text.chars().collect()
}

fn stat(id: &str, role: Option<&str>, win: Option<f64>, pick: Option<f64>, ban: Option<f64>) -> ChampionStatsAggregated {
    let rate = |r: Option<f64>| r.map(|x| (x * 100.0).round() as i32);
    ChampionStatsAggregated {
        champion_id: s(id),
        patch_version: s("25.01"),
        region: s("euw1"),
        tier: s("DIAMOND_PLUS"),
        role: role.map(s),
        total_matches: 10,
        wins: 5,
        losses: 5,
        bans: 1,
        picks: 10,
        win_rate: rate(win),
        pick_rate: rate(pick),
        ban_rate: rate(ban),
    }
}

#[test]
fn texts_are_ordered_like_strings() {
    let samples = ["", "a", "ab", "b", "B", "Ари", "Зед", "a\u{10000}", "a\u{ffff}", "25.10", "25.9"];
    for x in samples {
        for y in samples {
            assert_eq!(text_before(&chars(x), &chars(y)), x < y, "{:?} {:?}", x, y);
        }
    }
}

#[test]
fn sorting_is_stable() {
    let ranks = vec![
        Rank { first: 2, second: 0, third: 0 },
        Rank { first: 1, second: 5, third: 0 },
        Rank { first: 2, second: 0, third: 0 },
        Rank { first: 1, second: 5, third: -1 },
        Rank { first: -7, second: 9, third: 9 },
    ];
    assert_eq!(sorted_order(&ranks), vec![4, 3, 1, 0, 2]);
    assert_eq!(sorted_order(&vec![]), Vec::<usize>::new());
    let keys = vec![TextKey::new("b"), TextKey::new("a"), TextKey::new("b"), TextKey::new("")];
    assert_eq!(sorted_order_by(&keys), vec![3, 1, 0, 2]);
}

#[test]
fn champion_list_is_ordered_by_localized_name() {
    let localized = vec![
        ChampionRecord { key: s("Zed"), name: s("Зед"), id: s("Zed") },
        ChampionRecord { key: s("Ahri"), name: s("Ари"), id: s("Ahri") },
        ChampionRecord { key: s("MonkeyKing"), name: s("Вуконг"), id: s("MonkeyKing") },
    ];
    let english = vec![(s("Ahri"), s("Ahri")), (s("MonkeyKing"), s("Wukong"))];
    let list = Scraper::fetch_all_champions_ddragon("14.23.1", &localized, &english);
    assert_eq!(
        list,
        vec![
            (s("Ари"), s("Ahri"), s("https://ddragon.leagueoflegends.com/cdn/14.23.1/img/champion/Ahri.png")),
            (s("Вуконг"), s("Wukong"), s("https://ddragon.leagueoflegends.com/cdn/14.23.1/img/champion/MonkeyKing.png")),
            (s("Зед"), s(""), s("https://ddragon.leagueoflegends.com/cdn/14.23.1/img/champion/Zed.png")),
        ]
    );
    assert!(Scraper::fetch_all_champions_ddragon("1", &vec![], &english).is_empty());
}

#[test]
fn data_version_is_the_first_listed() {
    assert_eq!(Scraper::fetch_latest_ddragon_version(&vec![s("15.1.1"), s("14.9.1")]), Some(s("15.1.1")));
    assert_eq!(Scraper::fetch_latest_ddragon_version(&vec![]), None);
    assert_eq!(Scraper::data_version(&vec![s("15.1.1"), s("14.9.1")]), "15.1.1");
    assert_eq!(Scraper::data_version(&vec![]), "14.23.1");
}

#[test]
fn meta_changes_subtract_the_earlier_rates() {
    let from = vec![
        stat("Ahri", None, Some(50.0), Some(10.0), None),
        stat("Zed", Some("MID"), Some(48.0), Some(5.0), Some(20.0)),
        stat("Zed", None, Some(49.0), Some(6.0), Some(21.0)),
        stat("Zed", None, Some(1.0), Some(1.0), Some(1.0)),
    ];
    let to = vec![
        stat("Zed", None, Some(51.5), None, Some(20.0)),
        stat("Ahri", None, Some(49.0), Some(12.5), Some(3.0)),
        stat("New", None, Some(60.0), Some(1.0), Some(1.0)),
        stat("Ahri", Some("MID"), Some(60.0), Some(1.0), Some(1.0)),
    ];
    let changes = SupabaseClient::get_meta_changes(&from, &to);
    assert_eq!(
        changes,
        vec![
            MetaChange { champion_id: s("Zed"), win_rate_diff: 250, pick_rate_diff: -600, ban_rate_diff: -100 },
            MetaChange { champion_id: s("Ahri"), win_rate_diff: -100, pick_rate_diff: 250, ban_rate_diff: 300 },
            MetaChange { champion_id: s("New"), win_rate_diff: 0, pick_rate_diff: 0, ban_rate_diff: 0 },
            MetaChange { champion_id: s("Ahri"), win_rate_diff: 0, pick_rate_diff: 0, ban_rate_diff: 0 },
        ]
    );
}

#[test]
fn meta_changes_without_earlier_statistics_are_zero() {
    let to = vec![stat("Zed", None, Some(51.5), Some(1.0), Some(20.0))];
    let changes = SupabaseClient::get_meta_changes(&vec![], &to);
    assert_eq!(
        changes,
        vec![MetaChange { champion_id: s("Zed"), win_rate_diff: 0, pick_rate_diff: 0, ban_rate_diff: 0 }]
    );
    assert!(SupabaseClient::get_meta_changes(&to, &vec![]).is_empty());
}

#[test]
fn addresses_of_the_champion_requests() {
    assert_eq!(
        SupabaseClient::champion_stats_url("https://x.co", "Ahri", "25.01", "euw1", Some("GOLD"), Some("MID")),
        "https://x.co/rest/v1/champion_stats_aggregated?champion_id=eq.Ahri&patch_version=eq.25.01&region=eq.euw1&tier=eq.GOLD&role=eq.MID"
    );
    assert_eq!(
        SupabaseClient::champion_stats_url("https://x.co", "Ahri", "25.01", "euw1", None, None),
        "https://x.co/rest/v1/champion_stats_aggregated?champion_id=eq.Ahri&patch_version=eq.25.01&region=eq.euw1&role=is.null"
    );
    assert_eq!(
        SupabaseClient::patch_stats_url("https://x.co", "25.01", "kr", None),
        "https://x.co/rest/v1/champion_stats_aggregated?patch_version=eq.25.01&region=eq.kr&role=is.null&tier=eq.DIAMOND_PLUS"
    );
    assert_eq!(
        SupabaseClient::patch_stats_url("https://x.co", "25.01", "kr", Some("IRON")),
        "https://x.co/rest/v1/champion_stats_aggregated?patch_version=eq.25.01&region=eq.kr&role=is.null&tier=eq.IRON"
    );
    assert_eq!(SupabaseClient::status_url("https://x.co"), "https://x.co/rest/v1/champion_stats_aggregated?limit=1");
}

