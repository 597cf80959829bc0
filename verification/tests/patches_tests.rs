use meta_analyzer::supabase::{JsonItem, RpcOutcome, RpcReply, SupabaseClient};

fn s(text: &str) -> String {
    text.to_string()
}

#[test]
fn addresses_of_the_patch_requests() {
    assert_eq!(
        SupabaseClient::matches_count_url("https://x.co", "25.01"),
        "https://x.co/rest/v1/match_participants_stats?patch_version=eq.25.01&select=id"
    );
    assert_eq!(
        SupabaseClient::champion_stats_url("https://x.co", "25.01"),
        "https://x.co/rest/v1/champion_stats_aggregated?patch_version=eq.25.01&select=*&order=win_rate.desc&limit=10000"
    );
    assert_eq!(SupabaseClient::patches_rpc_url("https://x.co"), "https://x.co/rest/v1/rpc/get_stats_patches");
    assert_eq!(
        SupabaseClient::patches_fallback_url("https://x.co"),
        "https://x.co/rest/v1/champion_stats_aggregated?select=patch_version&distinct=exact&order=patch_version.desc"
    );
    assert_eq!(
        SupabaseClient::failure_message(false, "500 Internal Server Error", "boom"),
        "Supabase request failed (500 Internal Server Error): boom"
    );
    assert_eq!(
        SupabaseClient::failure_message(true, "401 Unauthorized", ""),
        "RPC missing; fallback also failed. Supabase request failed (401 Unauthorized): "
    );
}

#[test]
fn count_is_read_from_the_range_header() {
    assert_eq!(SupabaseClient::get_raw_matches_count(true, Some("0-24/3573")), 3573);
    assert_eq!(SupabaseClient::get_raw_matches_count(true, Some("*/0")), 0);
    assert_eq!(SupabaseClient::get_raw_matches_count(true, Some("42")), 42);
    assert_eq!(SupabaseClient::get_raw_matches_count(true, Some("0-24/*")), 0);
    assert_eq!(SupabaseClient::get_raw_matches_count(true, Some("0-24/")), 0);
    assert_eq!(SupabaseClient::get_raw_matches_count(true, Some("a/b/-7")), -7);
    assert_eq!(SupabaseClient::get_raw_matches_count(true, Some("1/9223372036854775807")), 9223372036854775807);
    assert_eq!(SupabaseClient::get_raw_matches_count(true, Some("1/9223372036854775808")), 0);
    assert_eq!(SupabaseClient::get_raw_matches_count(true, Some("")), 0);
    assert_eq!(SupabaseClient::get_raw_matches_count(true, None), 0);
    assert_eq!(SupabaseClient::get_raw_matches_count(false, Some("0-24/3573")), 0);
}

#[test]
fn procedure_reply_names_patches() {
    let items = vec![
        JsonItem::Text { text: s("25.02") },
        JsonItem::Other,
        JsonItem::Object { patch_version: Some(s("25.01")) },
        JsonItem::Object { patch_version: None },
        JsonItem::Text { text: s("25.02") },
    ];
    assert_eq!(SupabaseClient::patches_from_rpc(&items), vec![s("25.02"), s("25.01"), s("25.02")]);
    assert_eq!(
        SupabaseClient::after_rpc(&RpcReply::List { items }),
        RpcOutcome::Patches { patches: vec![s("25.02"), s("25.01"), s("25.02")] }
    );
    assert_eq!(
        SupabaseClient::after_rpc(&RpcReply::List { items: vec![JsonItem::Other] }),
        RpcOutcome::Fallback { rpc_missing: false }
    );
    assert_eq!(SupabaseClient::after_rpc(&RpcReply::NoList), RpcOutcome::Fallback { rpc_missing: false });
    assert_eq!(SupabaseClient::after_rpc(&RpcReply::Unreachable), RpcOutcome::Fallback { rpc_missing: false });
    assert_eq!(
        SupabaseClient::after_rpc(&RpcReply::Failed { status: 404 }),
        RpcOutcome::Fallback { rpc_missing: true }
    );
    assert_eq!(
        SupabaseClient::after_rpc(&RpcReply::Failed { status: 500 }),
        RpcOutcome::Fallback { rpc_missing: false }
    );
}

#[test]
fn fallback_lists_each_patch_once_and_the_last_first() {
    let items = vec![
        JsonItem::Object { patch_version: Some(s("25.01")) },
        JsonItem::Text { text: s("99.99") },
        JsonItem::Object { patch_version: Some(s("25.10")) },
        JsonItem::Object { patch_version: Some(s("25.9")) },
        JsonItem::Object { patch_version: Some(s("25.01")) },
        JsonItem::Object { patch_version: None },
    ];
    assert_eq!(
        SupabaseClient::get_available_patches_stats(false, &items),
        Ok(vec![s("25.9"), s("25.10"), s("25.01")])
    );
    assert_eq!(SupabaseClient::patches_from_stats(&items).len(), 4);
    assert_eq!(SupabaseClient::get_available_patches_stats(false, &vec![]), Ok(vec![]));
    assert_eq!(
        SupabaseClient::get_available_patches_stats(true, &items),
        Ok(vec![s("25.9"), s("25.10"), s("25.01")])
    );
    let failed = SupabaseClient::get_available_patches_stats(true, &vec![JsonItem::Other]);
    assert!(matches!(failed, Err(ref e) if e.starts_with("RPC 'get_stats_patches'")));
}
