use vitaline::model::{AppConfig, MergeRequestInfo, PipelineInfo, ProjectSnapshot, ProviderKind, WatchedProject};
use vitaline::refresh::{overall_status, project_entry, snapshot_of, Memory};
use vitaline::tray::{count, rgb, title, tooltip};
use vitaline::model::Tone;

fn project(id: &str, label: Option<&str>) -> WatchedProject {
    WatchedProject {
        id: id.to_string(),
        provider: ProviderKind::Gitlab,
        git_ref: Some("main".to_string()),
        label: label.map(str::to_string),
    }
}

fn pipeline(status: &str) -> PipelineInfo {
    PipelineInfo {
        project_id: "1".to_string(),
        project_name: "Group / App".to_string(),
        project_url: "https://g/app".to_string(),
        id: 1,
        git_ref: "main".to_string(),
        sha: String::new(),
        status: status.to_string(),
        source: None,
        web_url: "https://g/app/-/pipelines/1".to_string(),
        created_at: None,
        duration: None,
        triggered_by: None,
        commit_title: Some("Bump".to_string()),
        stages: Vec::new(),
    }
}

fn mr(iid: u64, target: &str) -> MergeRequestInfo {
    MergeRequestInfo {
        iid,
        title: format!("MR {iid}"),
        author: None,
        source_branch: "feature".to_string(),
        target_branch: target.to_string(),
        web_url: format!("https://g/app/-/merge_requests/{iid}"),
        created_at: None,
        draft: iid == 2,
    }
}

fn entry(status: &str, mrs: Vec<MergeRequestInfo>) -> ProjectSnapshot {
    project_entry(project("1", Some("App")), Ok((Some(pipeline(status)), mrs)))
}

#[test]
fn first_sight_is_silent_then_failures_and_recoveries_are_announced() {
    let config = AppConfig::default();
    let mut memory = Memory::new();
    assert!(memory.observe(&vec![entry("failed", vec![])], &config).is_empty());
    assert!(memory.observe(&vec![entry("failed", vec![])], &config).is_empty());
    let alerts = memory.observe(&vec![entry("success", vec![])], &config);
    assert_eq!(alerts.len(), 1);
    assert_eq!(alerts[0].title, "App — pipeline recovered");
    assert_eq!(alerts[0].body, "main · Bump");
    assert_eq!(alerts[0].ticker.text, "✓ App: pipeline recovered (main)");
    let alerts = memory.observe(&vec![entry("failed", vec![])], &config);
    assert_eq!(alerts.len(), 1);
    assert_eq!(alerts[0].title, "App — pipeline failed");
    assert_eq!(alerts[0].ticker.text, "✗ App: pipeline failed (main)");
    assert_eq!(alerts[0].ticker.url.as_deref(), Some("https://g/app/-/pipelines/1"));
    assert!(memory.observe(&vec![entry("running", vec![])], &config).is_empty());
}

#[test]
fn switched_off_notifications_stay_quiet() {
    let config = AppConfig { notify_on_failure: false, ..AppConfig::default() };
    let mut memory = Memory::new();
    memory.observe(&vec![entry("success", vec![])], &config);
    assert!(memory.observe(&vec![entry("failed", vec![])], &config).is_empty());
}

#[test]
fn new_merge_requests_are_announced_after_the_first_pass() {
    let config = AppConfig {
        watch_merge_requests: true,
        notify_on_new_merge_request: true,
        ..AppConfig::default()
    };
    let mut memory = Memory::new();
    assert!(memory.observe(&vec![entry("success", vec![mr(1, "main")])], &config).is_empty());
    let alerts = memory.observe(&vec![entry("success", vec![mr(1, "main"), mr(2, "main")])], &config);
    assert_eq!(alerts.len(), 1);
    assert_eq!(alerts[0].title, "App — new MR !2");
    assert_eq!(alerts[0].body, "[Draft] MR 2\nfeature → main");
    assert_eq!(alerts[0].ticker.text, "⇄ App !2: [Draft] MR 2 (feature → main)");
    let failed = project_entry(project("1", Some("App")), Err("GitLab 500: boom".to_string()));
    assert!(memory.observe(&vec![failed], &config).is_empty());
    let alerts = memory.observe(&vec![entry("success", vec![mr(1, "main"), mr(2, "main"), mr(3, "main")])], &config);
    assert_eq!(alerts.len(), 1);
    assert_eq!(alerts[0].title, "App — new MR !3");
}

#[test]
fn merge_requests_against_other_branches_can_be_left_out() {
    let config = AppConfig {
        watch_merge_requests: true,
        notify_on_new_merge_request: true,
        notify_only_watched_branch_mr: true,
        ..AppConfig::default()
    };
    let mut memory = Memory::new();
    memory.observe(&vec![entry("success", vec![])], &config);
    let alerts = memory.observe(&vec![entry("success", vec![mr(4, "develop"), mr(5, "main")])], &config);
    assert_eq!(alerts.len(), 1);
    assert_eq!(alerts[0].title, "App — new MR !5");
}

#[test]
fn snapshot_summary_and_tray() {
    let ok = entry("success", vec![]);
    let broken = project_entry(project("2", None), Err("nope".to_string()));
    let empty = project_entry(project("3", None), Ok((None, Vec::new())));
    let projects = vec![ok, broken, empty];
    assert_eq!(overall_status(&projects), "failed");
    let snapshot = snapshot_of(projects, "2026-08-28T10:00:00Z".to_string(), true, 3);
    assert!(snapshot.configured);
    assert_eq!(snapshot.overall, "failed");
    assert_eq!(count(&snapshot, Tone::Bad), 1);
    assert_eq!(count(&snapshot, Tone::Good), 1);
    assert_eq!(title(&snapshot), "1 ✗");
    assert_eq!(tooltip(&snapshot), "Vitaline — failed\nApp: success\n2: error\n3: no pipeline");
    assert_eq!(rgb(Tone::Bad), [248, 81, 73]);
    let none = snapshot_of(Vec::new(), String::new(), false, 0);
    assert!(!none.configured);
    assert_eq!(none.overall, "none");
    assert_eq!(tooltip(&none), "Vitaline — no watched projects");
    assert_eq!(title(&none), "");
}

#[test]
fn unwatched_merge_requests_are_never_announced() {
    let config = AppConfig { watch_merge_requests: false, notify_on_new_merge_request: true, ..AppConfig::default() };
    let mut memory = Memory::new();
    memory.observe(&vec![entry("success", vec![])], &config);
    assert!(memory.observe(&vec![entry("success", vec![mr(9, "main")])], &config).is_empty());
}

#[test]
fn a_second_identical_refresh_is_silent() {
    let config = AppConfig {
        watch_merge_requests: true,
        notify_on_new_merge_request: true,
        ..AppConfig::default()
    };
    let mut memory = Memory::new();
    memory.observe(&vec![entry("success", vec![mr(1, "main")])], &config);
    let snapshot = vec![entry("failed", vec![mr(1, "main"), mr(6, "main")])];
    assert_eq!(memory.observe(&snapshot, &config).len(), 2);
    assert!(memory.observe(&snapshot, &config).is_empty());
}
