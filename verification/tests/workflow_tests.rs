use meta_analyzer::models::PatchData;
use meta_analyzer::workflow::{
    after_fetch, get_or_fetch_patch, message, FetchOutcome, HistorySync, LogLine, PatchSource,
    SyncAction, SyncEvent, SyncPhase,
};

fn s(text: &str) -> String {
    text.to_string()
}

fn patch(version: &str) -> PatchData {
    PatchData { version: s(version), fetched_at: 1, champions: vec![], patch_notes: vec![] }
}

fn log(level: &str, text: &str) -> SyncAction {
    SyncAction::Log { line: LogLine { level: s(level), message: s(text) } }
}

#[test]
fn messages_are_put_together() {
    assert_eq!(message("a", "b", "c"), "abc");
    assert_eq!(message("", "", ""), "");
}

#[test]
fn stored_snapshot_is_used_unless_a_refresh_is_forced() {
    assert_eq!(
        get_or_fetch_patch("25.01", false, Some(patch("25.01"))),
        PatchSource::Stored { patch: patch("25.01") }
    );
    let web = PatchSource::Web {
        announce: LogLine { level: s("INFO"), message: s("Fetching patch data for 25.01 from web...") },
    };
    assert_eq!(get_or_fetch_patch("25.01", true, Some(patch("25.01"))), web);
    assert_eq!(get_or_fetch_patch("25.01", false, None), web);
    assert_eq!(get_or_fetch_patch("25.01", true, None), web);
}

#[test]
fn fetched_snapshot_is_saved_and_failure_is_handed_on() {
    assert_eq!(
        after_fetch("25.01", Ok(patch("25.01"))),
        FetchOutcome {
            save: Some(patch("25.01")),
            log: LogLine { level: s("SUCCESS"), message: s("Data for 25.01 fetched and saved.") },
            error: None,
        }
    );
    assert_eq!(
        after_fetch("25.01", Err(s("timeout"))),
        FetchOutcome {
            save: None,
            log: LogLine { level: s("ERROR"), message: s("Failed to fetch patch 25.01: timeout") },
            error: Some(s("timeout")),
        }
    );
}

#[test]
fn backfill_runs_through_the_versions_one_by_one() {
    let sync = HistorySync::new();
    assert_eq!(sync.phase(), SyncPhase::Idle);
    let (sync, actions) = sync.step(SyncEvent::Begin);
    assert_eq!(actions, vec![log("INFO", "Starting full history sync..."), SyncAction::ListVersions]);
    assert_eq!(sync.phase(), SyncPhase::Listing);

    let (sync, actions) = sync.step(SyncEvent::Listed { versions: vec![s("3"), s("2"), s("1")] });
    assert_eq!(
        actions,
        vec![log("INFO", "Found 3 patches to check."), SyncAction::CheckStored { version: s("3") }]
    );

    // The first version is stored already: no fetch, no pause.
    let (sync, actions) = sync.step(SyncEvent::Stored { found: true });
    assert_eq!(actions, vec![SyncAction::CheckStored { version: s("2") }]);

    // The second is missing: it is fetched, saved, and a pause follows.
    let (sync, actions) = sync.step(SyncEvent::Stored { found: false });
    assert_eq!(
        actions,
        vec![log("INFO", "Downloading missing patch: 2 ..."), SyncAction::Fetch { version: s("2") }]
    );
    assert_eq!(sync.phase(), SyncPhase::Fetching);
    let (sync, actions) = sync.step(SyncEvent::Fetched { patch: patch("2") });
    assert_eq!(actions, vec![SyncAction::Save { patch: patch("2") }]);
    let (sync, actions) = sync.step(SyncEvent::Saved);
    assert_eq!(actions, vec![log("SUCCESS", "Saved patch 2"), SyncAction::Pause { millis: 500 }]);
    let (sync, actions) = sync.step(SyncEvent::Paused);
    assert_eq!(actions, vec![SyncAction::CheckStored { version: s("1") }]);

    // The third cannot be fetched: it is logged and passed over.
    let (sync, _) = sync.step(SyncEvent::Stored { found: false });
    let (sync, actions) = sync.step(SyncEvent::FetchFailed { error: s("404") });
    assert_eq!(
        actions,
        vec![log("ERROR", "Failed to download 1: 404"), SyncAction::Pause { millis: 500 }]
    );
    let (sync, actions) = sync.step(SyncEvent::Paused);
    assert_eq!(
        actions,
        vec![log("SUCCESS", "History sync completed."), SyncAction::Finish { error: None }]
    );
    assert!(sync.is_finished());
}

#[test]
fn failed_save_is_logged_and_passed_over() {
    let (sync, _) = HistorySync::new().step(SyncEvent::Begin);
    let (sync, _) = sync.step(SyncEvent::Listed { versions: vec![s("9.1")] });
    let (sync, _) = sync.step(SyncEvent::Stored { found: false });
    let (sync, _) = sync.step(SyncEvent::Fetched { patch: patch("9.1") });
    let (sync, actions) = sync.step(SyncEvent::SaveFailed { error: s("disk full") });
    assert_eq!(
        actions,
        vec![log("ERROR", "Failed to save 9.1: disk full"), SyncAction::Pause { millis: 500 }]
    );
    let (sync, actions) = sync.step(SyncEvent::Paused);
    assert_eq!(
        actions,
        vec![log("SUCCESS", "History sync completed."), SyncAction::Finish { error: None }]
    );
    assert!(sync.is_finished());
}

#[test]
fn failed_listing_ends_the_backfill_with_the_error() {
    let (sync, _) = HistorySync::new().step(SyncEvent::Begin);
    let (sync, actions) = sync.step(SyncEvent::ListFailed { error: s("offline") });
    assert_eq!(actions, vec![SyncAction::Finish { error: Some(s("offline")) }]);
    assert!(sync.is_finished());
}

#[test]
fn empty_listing_ends_the_backfill_at_once() {
    let (sync, _) = HistorySync::new().step(SyncEvent::Begin);
    let (sync, actions) = sync.step(SyncEvent::Listed { versions: vec![] });
    assert_eq!(
        actions,
        vec![
            log("INFO", "Found 0 patches to check."),
            log("SUCCESS", "History sync completed."),
            SyncAction::Finish { error: None },
        ]
    );
    assert!(sync.is_finished());
}

#[test]
fn unexpected_events_change_nothing() {
    let (sync, actions) = HistorySync::new().step(SyncEvent::Paused);
    assert!(actions.is_empty());
    assert_eq!(sync.phase(), SyncPhase::Idle);
    let (sync, _) = sync.step(SyncEvent::Begin);
    let (sync, actions) = sync.step(SyncEvent::Begin);
    assert!(actions.is_empty());
    assert_eq!(sync.phase(), SyncPhase::Listing);
    let (sync, _) = sync.step(SyncEvent::Listed { versions: vec![] });
    let (sync, actions) = sync.step(SyncEvent::Stored { found: false });
    assert!(actions.is_empty());
    assert!(sync.is_finished());
}
