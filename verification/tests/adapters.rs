use pollux::git_platform::{map_action_name, CanonicalAction, DetailResult, Platform, ProjectDetail};
use pollux::github::{
    github_fetch_start, github_page_step, parse_header_for_next_page, GithubEvent, GithubPage,
    GithubProjectAPI, GithubStep,
};
use pollux::gitlab::{
    gitlab_fetch_start, gitlab_page_step, FetchError, GitlabEvent, GitlabPage, GitlabProjectAPI,
    GitlabStep,
};
use pollux::bytes::parse_u32;
use pollux::store::Store;

fn gh_event(repo_id: u64, action: &str, ts: &str) -> GithubEvent {
    GithubEvent {
        created_at: ts.to_string(),
        public: true,
        type_of_action: action.to_string(),
        repo: GithubProjectAPI {
            id: repo_id,
            name: "demo".to_string(),
            url: format!("https://api.github.com/repos/demo/{}", repo_id),
        },
    }
}

fn gl_event(project_id: u64, action: &str, ts: &str) -> GitlabEvent {
    GitlabEvent {
        project_id,
        action_name: action.to_string(),
        created_at: ts.to_string(),
        push_data: None,
    }
}

#[test]
fn link_header_yields_next_url() {
    let header = br#"<https://api.github.com/user/26086452/events?per_page=2&page=2>; rel="next", <https://api.github.com/user/26086452/events?per_page=2&page=6>; rel="last""#;
    let next = parse_header_for_next_page(header);
    assert_eq!(
        next,
        Some(b"https://api.github.com/user/26086452/events?per_page=2&page=2".to_vec())
    );
}

#[test]
fn link_header_without_next_yields_nothing() {
    let header = br#"<https://api.github.com/user/1/events?page=6>; rel="last""#;
    assert_eq!(parse_header_for_next_page(header), None);
    assert_eq!(parse_header_for_next_page(b""), None);
    // a segment without exactly two parts is ignored
    assert_eq!(parse_header_for_next_page(b"<https://x>; a; rel=\"next\""), None);
    // the url must be wrapped in angle brackets
    assert_eq!(parse_header_for_next_page(b"https://x; rel=\"next\""), None);
}

#[test]
fn github_fetch_follows_pages_to_completion() {
    // two pages: the first links onward, the second does not
    let state = github_fetch_start(Vec::new());
    let page1 = GithubPage {
        status: 200,
        etag: Some("tag-one".to_string()),
        link: Some(b"<https://api.github.com/page2>; rel=\"next\"".to_vec()),
        events: vec![
            gh_event(1, "PushEvent", "2024-05-01T10:00:00Z"),
            gh_event(1, "WatchEvent", "2024-05-01T11:00:00Z"),
        ],
    };
    let step1 = github_page_step(state, page1);
    let state2 = match step1 {
        GithubStep::Next { state, url } => {
            assert_eq!(url, b"https://api.github.com/page2".to_vec());
            state
        }
        _ => panic!("expected the fetch to continue"),
    };
    assert_eq!(state2.page, 2);
    assert_eq!(state2.e_tag, vec!["tag-one".to_string()]);
    let page2 = GithubPage {
        status: 200,
        etag: Some("tag-two".to_string()),
        link: None,
        events: vec![gh_event(2, "ForkEvent", "2024-05-01T12:00:00Z")],
    };
    match github_page_step(state2, page2) {
        GithubStep::Done { events, e_tag } => {
            // every page's events, in order
            assert_eq!(events.len(), 3);
            assert_eq!(events[2].repo.id, 2);
            assert_eq!(e_tag, vec!["tag-one".to_string(), "tag-two".to_string()]);
        }
        _ => panic!("expected the fetch to finish"),
    }
}

#[test]
fn github_etag_short_circuit_returns_no_events() {
    // a re-fetch with the prior tags cached: upstream answers 304
    let state = github_fetch_start(vec!["tag-one".to_string()]);
    let not_modified = GithubPage { status: 304, etag: None, link: None, events: Vec::new() };
    match github_page_step(state, not_modified) {
        GithubStep::Done { events, e_tag } => {
            assert_eq!(events.len(), 0);
            assert_eq!(e_tag, vec!["tag-one".to_string()]);
        }
        _ => panic!("expected the short-circuit"),
    }
}

#[test]
fn github_304_without_cached_tag_is_a_failure() {
    // without a tag sent, 304 is just a non-success status
    let state = github_fetch_start(Vec::new());
    let page = GithubPage { status: 304, etag: None, link: None, events: Vec::new() };
    match github_page_step(state, page) {
        GithubStep::Failed { status, .. } => assert_eq!(status, 304),
        _ => panic!("expected a failure"),
    }
}

#[test]
fn github_non_success_status_aborts_fetch() {
    let state = github_fetch_start(Vec::new());
    let page = GithubPage { status: 502, etag: None, link: None, events: Vec::new() };
    match github_page_step(state, page) {
        GithubStep::Failed { status, .. } => assert_eq!(status, 502),
        _ => panic!("expected a failure"),
    }
}

#[test]
fn gitlab_fetch_runs_until_total_pages() {
    let state = gitlab_fetch_start();
    let page1 = GitlabPage {
        status: 200,
        x_total_pages: Some("2".to_string()),
        x_page: Some("1".to_string()),
        events: (0..20).map(|i| gl_event(7, "pushed to", &format!("2024-05-01T10:{:02}:00Z", i))).collect(),
    };
    let state2 = match gitlab_page_step(state, page1) {
        GitlabStep::Next(s) => s,
        _ => panic!("expected the fetch to continue"),
    };
    assert_eq!(state2.page, 2);
    let page2 = GitlabPage {
        status: 200,
        x_total_pages: Some("2".to_string()),
        x_page: Some("2".to_string()),
        events: (0..11).map(|i| gl_event(7, "pushed to", &format!("2024-05-02T10:{:02}:00Z", i))).collect(),
    };
    match gitlab_page_step(state2, page2) {
        GitlabStep::Done(events) => assert_eq!(events.len(), 31),
        _ => panic!("expected the fetch to finish"),
    }
}

#[test]
fn gitlab_window_scenario_inserts_31_then_none() {
    // 31 events over the 2024-05-01..2024-05-05 window, fetched across two
    // pages; reconciling once stores all 31, reconciling the identical
    // payload again stores nothing
    let mut events = Vec::new();
    for i in 0..31u64 {
        let day = 1 + i / 10;
        let minute = i % 60;
        events.push(gl_event(
            61345567,
            "pushed to",
            &format!("2024-05-0{}T08:{:02}:00Z", day, minute),
        ));
    }
    let state = gitlab_fetch_start();
    let page1 = GitlabPage {
        status: 200,
        x_total_pages: Some("2".to_string()),
        x_page: Some("1".to_string()),
        events: events[..20].to_vec(),
    };
    let state2 = match gitlab_page_step(state, page1) {
        GitlabStep::Next(s) => s,
        _ => panic!("expected the fetch to continue"),
    };
    let page2 = GitlabPage {
        status: 200,
        x_total_pages: Some("2".to_string()),
        x_page: Some("2".to_string()),
        events: events[20..].to_vec(),
    };
    let fetched = match gitlab_page_step(state2, page2) {
        GitlabStep::Done(all) => all,
        _ => panic!("expected the fetch to finish"),
    };
    assert_eq!(fetched.len(), 31);

    let normalized: Vec<_> = fetched.iter().map(|e| e.normalize()).collect();
    let mut store = Store::new();
    let details = vec![DetailResult {
        project_id: 61345567,
        detail: Some(ProjectDetail {
            name: "2tefan Projects / Stats / Pollux".to_string(),
            url: "https://gitlab.com/2tefan-projects/stats/pollux".to_string(),
            public: true,
        }),
    }];
    let first = store.reconcile(Platform::Gitlab, &normalized, &details, 1_714_900_000);
    assert_eq!(first.total_seen, 31);
    assert_eq!(first.newly_inserted, 31);
    let second = store.reconcile(Platform::Gitlab, &normalized, &details, 1_714_910_000);
    assert_eq!(second.newly_inserted, 0);
    assert_eq!(store.git_events.len(), 31);
}

#[test]
fn gitlab_missing_pagination_header_fails() {
    let state = gitlab_fetch_start();
    let page = GitlabPage { status: 200, x_total_pages: None, x_page: Some("1".to_string()), events: Vec::new() };
    match gitlab_page_step(state, page) {
        GitlabStep::Failed(e) => assert_eq!(e, FetchError::BadPagination),
        _ => panic!("expected a failure"),
    }
}

#[test]
fn gitlab_malformed_pagination_header_fails() {
    let state = gitlab_fetch_start();
    let page = GitlabPage {
        status: 200,
        x_total_pages: Some("two".to_string()),
        x_page: Some("1".to_string()),
        events: Vec::new(),
    };
    match gitlab_page_step(state, page) {
        GitlabStep::Failed(e) => assert_eq!(e, FetchError::BadPagination),
        _ => panic!("expected a failure"),
    }
}

#[test]
fn gitlab_wrong_page_number_fails() {
    let state = gitlab_fetch_start();
    let page = GitlabPage {
        status: 200,
        x_total_pages: Some("3".to_string()),
        x_page: Some("2".to_string()),
        events: Vec::new(),
    };
    match gitlab_page_step(state, page) {
        GitlabStep::Failed(e) => assert_eq!(e, FetchError::BadPagination),
        _ => panic!("expected a failure"),
    }
}

#[test]
fn gitlab_non_success_status_fails() {
    let state = gitlab_fetch_start();
    let page = GitlabPage { status: 404, x_total_pages: None, x_page: None, events: Vec::new() };
    match gitlab_page_step(state, page) {
        GitlabStep::Failed(e) => assert_eq!(e, FetchError::Status(404)),
        _ => panic!("expected a failure"),
    }
}

#[test]
fn decimal_parse_accepts_digits_only() {
    assert_eq!(parse_u32("0"), Some(0));
    assert_eq!(parse_u32("20"), Some(20));
    assert_eq!(parse_u32("4294967295"), Some(u32::MAX));
    assert_eq!(parse_u32("4294967296"), None);
    assert_eq!(parse_u32(""), None);
    assert_eq!(parse_u32("12a"), None);
    assert_eq!(parse_u32("-3"), None);
}

#[test]
fn github_actions_map_to_canonical_vocabulary() {
    assert_eq!(map_action_name(Platform::Github, "PushEvent"), Some(CanonicalAction::Push));
    assert_eq!(map_action_name(Platform::Github, "CreateEvent"), Some(CanonicalAction::Create));
    assert_eq!(map_action_name(Platform::Github, "WatchEvent"), Some(CanonicalAction::Star));
    assert_eq!(map_action_name(Platform::Github, "ForkEvent"), Some(CanonicalAction::Fork));
    assert_eq!(map_action_name(Platform::Github, "SomethingNew"), None);
    assert_eq!(map_action_name(Platform::Github, "pushed to"), None);
}

#[test]
fn gitlab_actions_map_to_canonical_vocabulary() {
    assert_eq!(map_action_name(Platform::Gitlab, "pushed to"), Some(CanonicalAction::Push));
    assert_eq!(map_action_name(Platform::Gitlab, "pushed new"), Some(CanonicalAction::Push));
    assert_eq!(map_action_name(Platform::Gitlab, "merged"), Some(CanonicalAction::Merge));
    assert_eq!(map_action_name(Platform::Gitlab, "accepted"), Some(CanonicalAction::Merge));
    assert_eq!(map_action_name(Platform::Gitlab, "commented on"), Some(CanonicalAction::Comment));
    assert_eq!(map_action_name(Platform::Gitlab, "PushEvent"), None);
}

#[test]
fn github_event_normalizes_its_repo_reference() {
    let e = gh_event(26086452, "PushEvent", "2024-05-01T10:00:00Z");
    let r = e.normalize();
    assert_eq!(r.external_project_id, 26086452);
    assert_eq!(r.project_name, "demo");
    assert_eq!(r.project_url, "https://api.github.com/repos/demo/26086452");
    assert_eq!(r.raw_action, "PushEvent");
    assert_eq!(r.created_at, "2024-05-01T10:00:00Z");
}

#[test]
fn gitlab_project_detail_checks_visibility() {
    let api = GitlabProjectAPI {
        id: 61345567,
        name_with_namespace: "2tefan Projects / Stats / Pollux".to_string(),
        web_url: "https://gitlab.com/2tefan-projects/stats/pollux".to_string(),
        visibility: Some("public".to_string()),
    };
    let d = api.to_project_detail();
    assert_eq!(d.name, "2tefan Projects / Stats / Pollux");
    assert_eq!(d.url, "https://gitlab.com/2tefan-projects/stats/pollux");
    assert!(d.public);

    let private = GitlabProjectAPI { visibility: Some("private".to_string()), ..api.clone() };
    assert!(!private.to_project_detail().public);
    let unknown = GitlabProjectAPI { visibility: None, ..api };
    assert!(!unknown.to_project_detail().public);
}
