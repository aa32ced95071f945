use pollux::coordinator::{begin_cycle, compute_window, finish_cycle, on_fetch_outcome, FetchOutcome, SyncState, Window, LOOKBACK_SECONDS};
use pollux::git_platform::{DetailResult, Platform, ProjectDetail, RawEvent};
use pollux::reconcile::plan_detail_fetches;
use pollux::store::{ActionRow, Store};
use pollux::git_platform::CanonicalAction;

fn ev(pid: u64, action: &str, ts: &str) -> RawEvent {
    RawEvent {
        external_project_id: pid,
        project_name: String::new(),
        project_url: String::new(),
        raw_action: action.to_string(),
        created_at: ts.to_string(),
    }
}

fn public_detail(pid: u64, name: &str) -> DetailResult {
    DetailResult {
        project_id: pid,
        detail: Some(ProjectDetail {
            name: name.to_string(),
            url: format!("https://gitlab.com/{}", name),
            public: true,
        }),
    }
}

#[test]
fn reconcile_inserts_valid_events() {
    let mut store = Store::new();
    let events = vec![
        ev(7, "pushed to", "2024-05-01T10:00:00Z"),
        ev(7, "pushed to", "2024-05-01T11:00:00Z"),
        ev(7, "created", "2024-05-02T09:30:00Z"),
    ];
    let details = vec![public_detail(7, "demo")];
    let summary = store.reconcile(Platform::Gitlab, &events, &details, 1_714_700_000);
    assert_eq!(summary.total_seen, 3);
    assert_eq!(summary.newly_inserted, 3);
    assert_eq!(store.git_events.len(), 3);
    assert_eq!(store.events.len(), 3);
    // one detail fetch produced exactly one project row
    assert_eq!(store.projects.len(), 1);
    assert_eq!(store.projects[0].project.platform_project_id, 7);
    assert_eq!(store.projects[0].project.name, "demo");
}

#[test]
fn reconcile_is_idempotent() {
    let mut store = Store::new();
    let events = vec![
        ev(7, "pushed to", "2024-05-01T10:00:00Z"),
        ev(7, "opened", "2024-05-01T11:00:00Z"),
        ev(9, "commented on", "2024-05-02T09:30:00Z"),
    ];
    let details = vec![public_detail(7, "demo"), public_detail(9, "other")];
    let first = store.reconcile(Platform::Gitlab, &events, &details, 100);
    assert_eq!(first.newly_inserted, 3);
    let second = store.reconcile(Platform::Gitlab, &events, &details, 200);
    assert_eq!(second.newly_inserted, 0);
    assert_eq!(second.total_seen, 3);
    assert_eq!(store.git_events.len(), 3);
    assert_eq!(store.projects.len(), 2);
}

#[test]
fn reconcile_isolates_unparsable_timestamp() {
    let mut store = Store::new();
    let events = vec![
        ev(7, "pushed to", "2024-05-01T10:00:00Z"),
        ev(7, "pushed to", "not a timestamp"),
        ev(7, "pushed to", "2024-05-01T12:00:00Z"),
        ev(7, "pushed to", "2024-05-01T13:00:00Z"),
    ];
    let details = vec![public_detail(7, "demo")];
    let summary = store.reconcile(Platform::Gitlab, &events, &details, 100);
    assert_eq!(summary.total_seen, 4);
    assert_eq!(summary.newly_inserted, 3);
    assert_eq!(store.git_events.len(), 3);
}

#[test]
fn reconcile_skips_unknown_action_but_keeps_project() {
    let mut store = Store::new();
    let events = vec![ev(7, "bizarre doing", "2024-05-01T10:00:00Z")];
    let details = vec![public_detail(7, "demo")];
    let summary = store.reconcile(Platform::Gitlab, &events, &details, 100);
    assert_eq!(summary.newly_inserted, 0);
    // the project row is created before the action is examined
    assert_eq!(store.projects.len(), 1);
    assert_eq!(store.git_events.len(), 0);
    assert_eq!(store.actions.len(), 0);
}

#[test]
fn reconcile_rejects_non_public_project() {
    let mut store = Store::new();
    let events = vec![ev(7, "pushed to", "2024-05-01T10:00:00Z")];
    let details = vec![DetailResult {
        project_id: 7,
        detail: Some(ProjectDetail {
            name: "hidden".to_string(),
            url: "https://gitlab.com/hidden".to_string(),
            public: false,
        }),
    }];
    let summary = store.reconcile(Platform::Gitlab, &events, &details, 100);
    assert_eq!(summary.newly_inserted, 0);
    assert_eq!(store.projects.len(), 0);
    assert_eq!(store.git_events.len(), 0);
}

#[test]
fn reconcile_skips_event_whose_detail_fetch_failed() {
    let mut store = Store::new();
    let events = vec![ev(7, "pushed to", "2024-05-01T10:00:00Z")];
    let details = vec![DetailResult { project_id: 7, detail: None }];
    let summary = store.reconcile(Platform::Gitlab, &events, &details, 100);
    assert_eq!(summary.newly_inserted, 0);
    assert_eq!(store.projects.len(), 0);
}

#[test]
fn reconcile_deduplicates_same_triple_in_one_batch() {
    let mut store = Store::new();
    let events = vec![
        ev(7, "pushed to", "2024-05-01T10:00:00Z"),
        ev(7, "pushed to", "2024-05-01T10:00:00Z"),
    ];
    let details = vec![public_detail(7, "demo")];
    let summary = store.reconcile(Platform::Gitlab, &events, &details, 100);
    assert_eq!(summary.newly_inserted, 1);
    assert_eq!(store.git_events.len(), 1);
}

#[test]
fn reconcile_skips_event_on_duplicate_action_rows() {
    let mut store = Store::new();
    store.actions.push(ActionRow { id: 1, action: CanonicalAction::Push });
    store.actions.push(ActionRow { id: 2, action: CanonicalAction::Push });
    store.next_action_id = 3;
    let events = vec![ev(7, "pushed to", "2024-05-01T10:00:00Z")];
    let details = vec![public_detail(7, "demo")];
    let summary = store.reconcile(Platform::Gitlab, &events, &details, 100);
    assert_eq!(summary.newly_inserted, 0);
    assert_eq!(store.git_events.len(), 0);
    assert_eq!(store.actions.len(), 2);
}

#[test]
fn reconcile_parses_timestamp_to_epoch_seconds() {
    let mut store = Store::new();
    let events = vec![ev(7, "pushed to", "2024-05-01T00:00:00Z")];
    let details = vec![public_detail(7, "demo")];
    store.reconcile(Platform::Gitlab, &events, &details, 100);
    assert_eq!(store.events.len(), 1);
    assert_eq!(store.events[0].timestamp, 1_714_521_600);
}

#[test]
fn watermark_advances_only_on_success() {
    let mut store = Store::new();
    assert_eq!(store.watermark(Platform::Gitlab), None);
    let events = vec![ev(7, "pushed to", "2024-05-01T10:00:00Z")];
    let details = vec![public_detail(7, "demo")];
    let done = store.run_cycle(
        Platform::Gitlab,
        FetchOutcome::Fetched(events),
        &details,
        1_714_700_000,
    );
    assert!(done.is_some());
    assert_eq!(store.watermark(Platform::Gitlab), Some(1_714_700_000));
    // a failed fetch leaves the watermark where it was
    let failed = store.run_cycle(Platform::Gitlab, FetchOutcome::FetchFailed, &vec![], 1_714_800_000);
    assert!(failed.is_none());
    assert_eq!(store.watermark(Platform::Gitlab), Some(1_714_700_000));
    // so a retried cycle computes the same window as the failed attempt
    let retry = compute_window(store.watermark(Platform::Gitlab), 1_714_900_000);
    assert_eq!(retry.start, 1_714_700_000);
}

#[test]
fn window_defaults_to_ninety_day_lookback() {
    let now = 1_714_700_000;
    assert_eq!(
        compute_window(None, now),
        Window { start: now - LOOKBACK_SECONDS, end: now }
    );
    assert_eq!(LOOKBACK_SECONDS, 90 * 86_400);
    assert_eq!(compute_window(Some(42), now), Window { start: 42, end: now });
}

#[test]
fn plan_names_each_unknown_project_once() {
    let mut store = Store::new();
    let known_events = vec![ev(5, "pushed to", "2024-05-01T10:00:00Z")];
    let details = vec![public_detail(5, "known")];
    store.reconcile(Platform::Gitlab, &known_events, &details, 100);
    let events = vec![
        ev(7, "pushed to", "2024-05-01T10:00:00Z"),
        ev(5, "created", "2024-05-01T11:00:00Z"),
        ev(7, "opened", "2024-05-01T12:00:00Z"),
    ];
    let plan = plan_detail_fetches(&store, Platform::Gitlab, &events);
    assert_eq!(plan, vec![7]);
}

#[test]
fn plan_ignores_events_with_unparsable_timestamps() {
    let store = Store::new();
    let events = vec![ev(7, "pushed to", "garbage")];
    let plan = plan_detail_fetches(&store, Platform::Gitlab, &events);
    assert!(plan.is_empty());
}

#[test]
fn query_joins_and_filters_by_instant() {
    let mut store = Store::new();
    let events = vec![
        ev(7, "pushed to", "2024-05-01T00:00:00Z"),
        ev(7, "created", "2024-05-03T00:00:00Z"),
    ];
    let details = vec![public_detail(7, "demo")];
    store.reconcile(Platform::Gitlab, &events, &details, 100);
    let all = store.get_all_git_events(i64::MIN);
    assert_eq!(all.len(), 2);
    let recent = store.get_all_git_events(1_714_600_000);
    assert_eq!(recent.len(), 1);
    assert_eq!(recent[0].timestamp, 1_714_694_400);
    assert_eq!(recent[0].platform, Platform::Gitlab);
    assert_eq!(recent[0].action, CanonicalAction::Create);
    assert_eq!(recent[0].project_name, "demo");
}

#[test]
fn platforms_keep_separate_project_keys() {
    let mut store = Store::new();
    let events = vec![ev(7, "pushed to", "2024-05-01T10:00:00Z")];
    let details = vec![public_detail(7, "demo")];
    store.reconcile(Platform::Gitlab, &events, &details, 100);
    // the same external id on the other platform is a new project
    let gh_events = vec![ev(7, "PushEvent", "2024-05-01T10:00:00Z")];
    store.reconcile(Platform::Github, &gh_events, &details, 100);
    assert_eq!(store.projects.len(), 2);
    assert_eq!(store.git_events.len(), 2);
}

#[test]
fn sync_cycle_walks_its_states() {
    let now = 1_714_700_000;
    let state = begin_cycle(Some(1_714_000_000), now);
    let window = Window { start: 1_714_000_000, end: now };
    assert_eq!(state, SyncState::Fetching(window));
    // a failed fetch goes straight back to idle, skipping reconciliation
    assert_eq!(on_fetch_outcome(state, false), SyncState::Idle);
    // a successful fetch moves on to reconciling the same window
    let reconciling = on_fetch_outcome(state, true);
    assert_eq!(reconciling, SyncState::Reconciling(window));
    assert_eq!(finish_cycle(reconciling), SyncState::Idle);
}
