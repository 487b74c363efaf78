use vitaline::github::{
    action_path, api_error, normalize, pipeline_of, pull_request_of, runs_path, validate_repo,
    workflow_stages, ApiActor, ApiJob, ApiPr, ApiRepo, ApiRun, Github, PrRef, PrUser, RunAction,
};
use vitaline::model::Duration;
use vitaline::timing::secs_between;

#[test]
fn github_status_normalization() {
    assert_eq!(normalize(Some("in_progress"), None), "running");
    assert_eq!(normalize(Some("queued"), None), "pending");
    assert_eq!(normalize(Some("completed"), Some("success")), "success");
    assert_eq!(normalize(Some("completed"), Some("failure")), "failed");
    assert_eq!(normalize(Some("completed"), Some("cancelled")), "canceled");
    assert_eq!(normalize(Some("completed"), Some("skipped")), "skipped");
    assert_eq!(normalize(Some("completed"), Some("action_required")), "manual");
    assert_eq!(normalize(Some("completed"), Some("timed_out")), "failed");
    assert_eq!(normalize(None, None), "unknown");
}

#[test]
fn repo_id_is_validated() {
    assert!(validate_repo("owner/repo").is_ok());
    assert!(validate_repo("owner-only").is_err());
    assert!(validate_repo("a/b/c").is_err());
    assert!(validate_repo("/repo").is_err());
}

fn seconds(d: Option<Duration>) -> Option<f64> {
    d.map(|d| match d {
        Duration::Seconds(s) => s as f64,
        Duration::Reported(bits) => f64::from_bits(bits),
    })
}

#[test]
fn duration_calculation() {
    assert_eq!(
        seconds(secs_between(Some("2026-08-28T10:00:00Z"), Some("2026-08-28T10:02:30Z"))),
        Some(150.0)
    );
    assert_eq!(secs_between(None, Some("2026-08-28T10:00:00Z")), None);
}

#[test]
fn backwards_or_unreadable_times_give_no_duration() {
    assert_eq!(secs_between(Some("2026-08-28T10:02:30Z"), Some("2026-08-28T10:00:00Z")), None);
    assert_eq!(secs_between(Some("yesterday"), Some("2026-08-28T10:00:00Z")), None);
    assert_eq!(
        secs_between(Some("2026-08-28T12:00:00+02:00"), Some("2026-08-28T10:00:01Z")),
        Some(Duration::Seconds(1))
    );
}

#[test]
fn repo_errors_and_paths() {
    assert_eq!(validate_repo("owner/repo").unwrap(), "owner/repo");
    assert_eq!(
        validate_repo("owner/").unwrap_err(),
        "GitHub project id must have the form \"owner/repo\", got: owner/"
    );
    assert_eq!(action_path("o/r", 5, RunAction::Cancel).unwrap(), "/repos/o/r/actions/runs/5/cancel");
    assert_eq!(action_path("o/r", 6, RunAction::JobLogs).unwrap(), "/repos/o/r/actions/jobs/6/logs");
    assert!(action_path("o", 6, RunAction::Rerun).is_err());
    assert_eq!(runs_path("o/r", Some("a b")), "/repos/o/r/actions/runs?per_page=1&branch=a%20b");
    let gh = Github::new("https://api.github.com/".to_string(), "t".to_string());
    assert_eq!(gh.url("/user"), "https://api.github.com/user");
    assert_eq!(gh.auth(), "Bearer t");
}

fn job(id: u64, conclusion: &str) -> ApiJob {
    ApiJob {
        id,
        name: format!("job{id}"),
        status: Some("completed".to_string()),
        conclusion: Some(conclusion.to_string()),
        started_at: None,
        completed_at: None,
        html_url: None,
    }
}

#[test]
fn jobs_fall_into_one_workflow_stage() {
    assert!(workflow_stages(&[]).is_empty());
    let stages = workflow_stages(&[job(1, "success"), job(2, "failure")]);
    assert_eq!(stages.len(), 1);
    assert_eq!(stages[0].name, "workflow");
    assert_eq!(stages[0].status, "failed");
    assert_eq!(stages[0].jobs[1].stage, "workflow");
    assert_eq!(stages[0].jobs[1].status, "failed");
}

fn run(status: &str) -> ApiRun {
    ApiRun {
        id: 3,
        display_title: Some("Add thing".to_string()),
        head_branch: None,
        head_sha: Some("abc".to_string()),
        status: Some(status.to_string()),
        conclusion: Some("success".to_string()),
        html_url: "https://github.com/o/r/actions/runs/3".to_string(),
        created_at: None,
        run_started_at: Some("2026-08-28T10:00:00Z".to_string()),
        updated_at: Some("2026-08-28T10:00:10Z".to_string()),
        event: Some("push".to_string()),
        actor: Some(ApiActor { login: Some("me".to_string()) }),
    }
}

#[test]
fn run_mapping() {
    let meta = || ApiRepo { full_name: "o/r".to_string(), html_url: "https://github.com/o/r".to_string() };
    let done = pipeline_of("o/r", meta(), run("completed"), Vec::new());
    assert_eq!(done.status, "success");
    assert_eq!(done.git_ref, "-");
    assert_eq!(done.duration, Some(Duration::Seconds(10)));
    assert_eq!(done.commit_title.as_deref(), Some("Add thing"));
    let busy = pipeline_of("o/r", meta(), run("in_progress"), Vec::new());
    assert_eq!(busy.status, "running");
    assert_eq!(busy.duration, None);
    let pr = pull_request_of(ApiPr {
        number: 4,
        title: "T".to_string(),
        user: Some(PrUser { login: None }),
        head: PrRef { git_ref: "f".to_string() },
        base: PrRef { git_ref: "main".to_string() },
        html_url: "u".to_string(),
        created_at: None,
        draft: false,
    });
    assert_eq!(pr.iid, 4);
    assert_eq!(pr.author, None);
    assert_eq!(pr.target_branch, "main");
}

#[test]
fn github_error_messages() {
    assert_eq!(
        api_error(404, r#"{"message":"Not Found"}"#),
        "GitHub 404 - repo doesn't exist or the token can't see it: Not Found"
    );
}
