use vitaline::azure::{
    api_error, normalize, parse_id, short_ref, stages_from_timeline, ApiBuild, ApiPr, Azure,
    DefinitionRef, IdentityRef, LogRef, PrRepo, Record,
};
use vitaline::model::Duration;

#[test]
fn azure_status_normalization() {
    assert_eq!(normalize(Some("inProgress"), None), "running");
    assert_eq!(normalize(Some("notStarted"), None), "pending");
    assert_eq!(normalize(Some("completed"), Some("succeeded")), "success");
    assert_eq!(normalize(Some("completed"), Some("partiallySucceeded")), "success");
    assert_eq!(normalize(Some("completed"), Some("failed")), "failed");
    assert_eq!(normalize(Some("completed"), Some("canceled")), "canceled");
    assert_eq!(normalize(Some("cancelling"), None), "canceling");
}

#[test]
fn id_parsing() {
    assert_eq!(parse_id("Project").unwrap(), ("Project".to_string(), None));
    assert_eq!(parse_id("Project/42").unwrap(), ("Project".to_string(), Some(42)));
    assert!(parse_id("").is_err());
    assert!(parse_id("Project/abc").is_err());
}

fn record(id: &str, parent: Option<&str>, kind: &str, name: &str, order: u64) -> Record {
    Record {
        id: id.to_string(),
        parent_id: parent.map(str::to_string),
        kind: kind.to_string(),
        name: name.to_string(),
        state: Some("completed".to_string()),
        result: Some("succeeded".to_string()),
        order: Some(order),
        log: Some(LogRef { id: order + 100 }),
        start_time: None,
        finish_time: None,
    }
}

#[test]
fn timeline_stage_tree() {
    let records = vec![
        record("s2", None, "Stage", "Deploy", 2),
        record("s1", None, "Stage", "Build", 1),
        record("p1", Some("s1"), "Phase", "Build phase", 1),
        record("j1", Some("p1"), "Job", "Compile", 1),
        record("p2", Some("s2"), "Phase", "Deploy phase", 1),
        record("j2", Some("p2"), "Job", "Publish", 1),
    ];
    let stages = stages_from_timeline(&records);
    let names: Vec<&str> = stages.iter().map(|s| s.name.as_str()).collect();
    assert_eq!(names, ["Build", "Deploy"], "should be ordered by the order field");
    assert_eq!(stages[0].jobs[0].name, "Compile");
    assert_eq!(stages[0].jobs[0].stage, "Build");
    assert_eq!(stages[1].jobs[0].name, "Publish");
    assert_eq!(stages[0].jobs[0].id, 101);
}

#[test]
fn stageless_timeline_falls_into_pipeline_group() {
    let records = vec![record("p1", None, "Phase", "phase", 1), record("j1", Some("p1"), "Job", "work", 1)];
    let stages = stages_from_timeline(&records);
    assert_eq!(stages.len(), 1);
    assert_eq!(stages[0].name, "(pipeline)");
    assert_eq!(stages[0].jobs.len(), 1);
}

#[test]
fn jobs_follow_their_order_field_and_orphans_come_last() {
    let mut late = record("j3", Some("s1"), "Job", "late", 9);
    late.order = None;
    let mut failing = record("j4", None, "Job", "loose", 1);
    failing.result = Some("failed".to_string());
    let records = vec![
        record("s1", None, "Stage", "Only", 1),
        late,
        record("j2", Some("s1"), "Job", "second", 2),
        record("j1", Some("s1"), "Job", "first", 1),
        failing,
    ];
    let stages = stages_from_timeline(&records);
    assert_eq!(stages.len(), 2);
    let names: Vec<&str> = stages[0].jobs.iter().map(|j| j.name.as_str()).collect();
    assert_eq!(names, ["first", "second", "late"]);
    assert_eq!(stages[0].status, "success");
    assert_eq!(stages[1].name, "(pipeline)");
    assert_eq!(stages[1].status, "failed");
    assert_eq!(stages[1].jobs[0].stage, "(pipeline)");
}

#[test]
fn job_without_log_has_id_zero_and_timed_jobs_have_a_duration() {
    let mut job = record("j1", Some("s1"), "Job", "timed", 1);
    job.log = None;
    job.start_time = Some("2026-08-28T10:00:00Z".to_string());
    job.finish_time = Some("2026-08-28T10:01:00Z".to_string());
    let stages = stages_from_timeline(&[record("s1", None, "Stage", "S", 1), job]);
    assert_eq!(stages[0].jobs[0].id, 0);
    assert_eq!(stages[0].jobs[0].duration, Some(Duration::Seconds(60)));
    assert_eq!(stages[0].jobs[0].finished_at.as_deref(), Some("2026-08-28T10:01:00Z"));
}

#[test]
fn short_refs_drop_the_heads_prefix() {
    assert_eq!(short_ref("refs/heads/main"), "main");
    assert_eq!(short_ref("refs/tags/v1"), "refs/tags/v1");
}

#[test]
fn requests_and_auth() {
    let az = Azure::new("https://dev.azure.com/org/".to_string(), "pat".to_string());
    assert_eq!(az.org(), "https://dev.azure.com/org");
    assert_eq!(az.auth(), "Basic OnBhdA==");
    assert_eq!(az.token(), "pat");
    assert_eq!(
        az.builds_url("My%20Proj", Some(7), Some("feature/x")),
        "https://dev.azure.com/org/My%20Proj/_apis/build/builds?$top=1&queryOrder=queueTimeDescending&api-version=7.1&definitions=7&branchName=refs/heads/feature%2Fx"
    );
    assert_eq!(
        az.timeline_url("P", 12),
        "https://dev.azure.com/org/P/_apis/build/builds/12/timeline?api-version=7.1"
    );
    assert_eq!(
        az.build_url("P/3", 9, true).unwrap(),
        "https://dev.azure.com/org/P/_apis/build/builds/9?retry=true&api-version=7.1"
    );
    assert!(az.log_url("P", 9, 0).is_err());
    assert_eq!(
        az.log_url("P", 9, 4).unwrap(),
        "https://dev.azure.com/org/P/_apis/build/builds/9/logs/4?api-version=7.1"
    );
    assert_eq!(
        az.connection_data_url(),
        "https://dev.azure.com/org/_apis/connectionData?api-version=7.1-preview.1"
    );
}

#[test]
fn bad_ids_are_reported() {
    assert_eq!(parse_id("  /1").unwrap_err(), "Azure project id cannot be empty");
    assert_eq!(
        parse_id("P/x").unwrap_err(),
        "Azure id must be \"Project\" or \"Project/DefinitionId\", got: P/x"
    );
    assert_eq!(parse_id(" P / 5 ").unwrap(), ("P".to_string(), Some(5)));
}

#[test]
fn build_and_pull_request_mapping() {
    let az = Azure::new("https://dev.azure.com/org".to_string(), "t".to_string());
    let build = ApiBuild {
        id: 5,
        status: Some("completed".to_string()),
        result: Some("failed".to_string()),
        source_branch: Some("refs/heads/dev".to_string()),
        source_version: None,
        queue_time: None,
        start_time: None,
        finish_time: None,
        requested_for: Some(IdentityRef { display_name: Some("Ann".to_string()) }),
        definition: Some(DefinitionRef { name: Some("CI".to_string()) }),
        reason: None,
        links: None,
    };
    let p = az.pipeline_of("P", "P", "P", build, Vec::new());
    assert_eq!(p.project_name, "P / CI");
    assert_eq!(p.git_ref, "dev");
    assert_eq!(p.status, "failed");
    assert_eq!(p.web_url, "https://dev.azure.com/org/P");
    assert_eq!(p.triggered_by.as_deref(), Some("Ann"));
    let pr = ApiPr {
        pull_request_id: 8,
        title: "Fix".to_string(),
        created_by: None,
        source_ref_name: Some("refs/heads/fix".to_string()),
        target_ref_name: None,
        creation_date: None,
        is_draft: true,
        repository: Some(PrRepo { name: Some("my repo".to_string()) }),
    };
    let mr = az.pull_request_of("P", "P", pr);
    assert_eq!(mr.web_url, "https://dev.azure.com/org/P/_git/my%20repo/pullrequest/8");
    assert_eq!(mr.source_branch, "fix");
    assert_eq!(mr.target_branch, "");
    assert!(mr.draft);
}

#[test]
fn azure_error_messages() {
    assert_eq!(
        api_error(401, r#"{"message":"no"}"#),
        "Azure DevOps 401 - PAT is invalid or expired: no"
    );
    assert_eq!(api_error(500, "oops"), "Azure DevOps 500: oops");
}

#[test]
fn jobs_of_a_repeated_stage_id_go_to_the_first_stage_shown() {
    let records = vec![
        record("s", None, "Stage", "Later", 5),
        record("s", None, "Stage", "Earlier", 1),
        record("j", Some("s"), "Job", "work", 1),
    ];
    let stages = stages_from_timeline(&records);
    let names: Vec<&str> = stages.iter().map(|s| s.name.as_str()).collect();
    assert_eq!(names, ["Earlier", "Later"]);
    assert_eq!(stages[0].jobs.len(), 1);
    assert_eq!(stages[0].jobs[0].stage, "Earlier");
    assert!(stages[1].jobs.is_empty());
}

#[test]
fn deep_nesting_beyond_eight_links_is_orphaned() {
    let mut records = vec![record("s", None, "Stage", "Top", 1)];
    let mut parent = "s".to_string();
    for i in 0..8 {
        let id = format!("p{i}");
        records.push(record(&id, Some(&parent), "Phase", "phase", 1));
        parent = id;
    }
    records.push(record("j", Some(&parent), "Job", "deep", 1));
    let stages = stages_from_timeline(&records);
    assert_eq!(stages.len(), 2);
    assert!(stages[0].jobs.is_empty());
    assert_eq!(stages[1].name, "(pipeline)");
}
