use vitaline::gitlab::{ApiCommit, ApiDownstream, ApiJob, ApiPipeline, ApiProject, ApiUser};
use vitaline::model::{AppConfig, Duration, ProviderKind};
use vitaline::providers::{
    attach_downstream_stages, client_for, downstream_targets, gitlab_pipeline, group_stages,
    record_child, unsupported, Client, JobOp,
};
use vitaline::state::ProviderMap;

fn job(id: u64, name: &str, stage: &str, status: &str) -> ApiJob {
    ApiJob {
        id,
        name: name.to_string(),
        stage: stage.to_string(),
        status: status.to_string(),
        allow_failure: false,
        duration_bits: None,
        web_url: None,
        finished_at: None,
        commit: None,
        downstream_pipeline: None,
    }
}

#[test]
fn retry_does_not_disturb_stage_order() {
    let jobs = vec![
        job(1, "compile", "build", "failed"),
        job(2, "unit", "test", "success"),
        job(3, "e2e", "test", "success"),
        job(9, "compile", "build", "running"),
    ];
    let stages = group_stages(&jobs);

    let names: Vec<&str> = stages.iter().map(|s| s.name.as_str()).collect();
    assert_eq!(names, ["build", "test"], "build should still come first");

    let build = &stages[0];
    assert_eq!(build.jobs.len(), 1);
    assert_eq!(build.jobs[0].id, 9);
    assert_eq!(build.jobs[0].status, "running");
    assert_eq!(build.status, "running");
}

#[test]
fn retried_job_keeps_its_position_in_stage() {
    let jobs = vec![job(2, "unit", "test", "success"), job(3, "e2e", "test", "failed"), job(8, "e2e", "test", "success")];
    let stages = group_stages(&jobs);
    let names: Vec<&str> = stages[0].jobs.iter().map(|j| j.name.as_str()).collect();
    assert_eq!(names, ["unit", "e2e"]);
    assert_eq!(stages[0].jobs[1].id, 8);
}

#[test]
fn stage_order_comes_from_first_attempt() {
    let jobs = vec![
        job(10, "a", "first", "success"),
        job(20, "b", "second", "success"),
        job(30, "c", "third", "success"),
        job(99, "a", "first", "success"),
    ];
    let stages = group_stages(&jobs);
    let names: Vec<&str> = stages.iter().map(|s| s.name.as_str()).collect();
    assert_eq!(names, ["first", "second", "third"]);
}

#[test]
fn stageless_jobs_are_grouped_and_allowed_failures_pass() {
    let mut flaky = job(2, "lint", "", "failed");
    flaky.allow_failure = true;
    let stages = group_stages(&[job(1, "x", "", "success"), flaky]);
    assert_eq!(stages.len(), 1);
    assert_eq!(stages[0].name, "(no stage)");
    assert_eq!(stages[0].jobs[0].stage, "");
    assert_eq!(stages[0].status, "success");
    assert!(group_stages(&[]).is_empty());
}

fn bridge(id: u64, down: u64, project: Option<u64>) -> ApiJob {
    let mut b = job(id, &format!("trigger{id}"), "deploy", "success");
    b.downstream_pipeline = Some(ApiDownstream {
        id: down,
        status: "success".to_string(),
        web_url: None,
        git_ref: Some("main".to_string()),
        project_id: project,
    });
    b
}

#[test]
fn downstream_stages_are_attached_to_their_bridge() {
    let bridges = vec![bridge(5, 50, Some(7)), bridge(6, 60, None)];
    assert_eq!(downstream_targets(&bridges), vec![(7, 50)]);

    let mut children = Vec::new();
    record_child(&mut children, 50, &[job(100, "child", "c", "failed")]);
    record_child(&mut children, 60, &[]);
    assert_eq!(children.len(), 1);

    let stages = group_stages(&bridges);
    let attached = attach_downstream_stages(&stages, &children);
    let first = attached[0].jobs[0].downstream.as_ref().unwrap();
    assert_eq!(first.id, 50);
    assert_eq!(first.stages.len(), 1);
    assert_eq!(first.stages[0].status, "failed");
    let second = attached[0].jobs[1].downstream.as_ref().unwrap();
    assert!(second.stages.is_empty());
}

#[test]
fn gitlab_pipeline_combines_its_parts() {
    let mut first = job(1, "build", "build", "success");
    first.commit = Some(ApiCommit { title: None });
    let mut second = job(2, "test", "test", "failed");
    second.commit = Some(ApiCommit { title: Some("Fix it".to_string()) });
    let pipeline = ApiPipeline {
        id: 77,
        git_ref: None,
        sha: Some("abc".to_string()),
        status: "failed".to_string(),
        source: Some("push".to_string()),
        web_url: "https://g/p/-/pipelines/77".to_string(),
        created_at: None,
        duration_bits: Some(12.5f64.to_bits()),
        user: Some(ApiUser { name: None, username: Some("dev".to_string()) }),
    };
    let meta = ApiProject { name_with_namespace: "Group / P".to_string(), web_url: "https://g/p".to_string() };
    let info = gitlab_pipeline("12", meta, pipeline, vec![first, second], vec![bridge(3, 30, Some(1))], &Vec::new());
    assert_eq!(info.git_ref, "-");
    assert_eq!(info.commit_title.as_deref(), Some("Fix it"));
    assert_eq!(info.triggered_by.as_deref(), Some("dev"));
    assert_eq!(info.duration, Some(Duration::Reported(12.5f64.to_bits())));
    let names: Vec<&str> = info.stages.iter().map(|s| s.name.as_str()).collect();
    assert_eq!(names, ["build", "test", "deploy"]);
}

#[test]
fn clients_need_a_token_and_an_organization() {
    let mut tokens = ProviderMap::new();
    let config = AppConfig::default();
    assert_eq!(
        client_for(&tokens, &config, ProviderKind::Github).err().unwrap(),
        "Enter a token for GitHub in Settings first."
    );
    tokens.insert(ProviderKind::Azure, "pat".to_string());
    assert_eq!(
        client_for(&tokens, &config, ProviderKind::Azure).err().unwrap(),
        "Enter the organization URL for Azure in Settings first (https://dev.azure.com/organization)."
    );
    tokens.insert(ProviderKind::Gitlab, "tok".to_string());
    match client_for(&tokens, &config, ProviderKind::Gitlab) {
        Ok(Client::Gitlab(g)) => assert_eq!(g.token(), "tok"),
        _ => panic!("expected a GitLab client"),
    }
}

#[test]
fn single_job_operations_per_provider() {
    let mut tokens = ProviderMap::new();
    tokens.insert(ProviderKind::Github, "t".to_string());
    let config = AppConfig::default();
    let github = client_for(&tokens, &config, ProviderKind::Github).ok().unwrap();
    assert!(github.check_job_op(JobOp::Retry).is_ok());
    assert_eq!(
        github.check_job_op(JobOp::Cancel).unwrap_err(),
        "The GitHub API doesn't support canceling a single job."
    );
    assert_eq!(unsupported("Azure DevOps", "retrying a single job"), "The Azure DevOps API doesn't support retrying a single job.");
}

fn breakdown_summary(jobs: &[ApiJob]) -> Vec<(String, String, Vec<(u64, String)>)> {
    group_stages(jobs)
        .iter()
        .map(|s| {
            (
                s.name.clone(),
                s.status.clone(),
                s.jobs.iter().map(|j| (j.id, j.status.clone())).collect(),
            )
        })
        .collect()
}

#[test]
fn breakdown_ignores_the_order_jobs_arrive_in() {
    let make = |order: [usize; 6]| -> Vec<ApiJob> {
        let all = [
            (1, "compile", "build", "failed"),
            (2, "unit", "test", "success"),
            (3, "e2e", "test", "failed"),
            (7, "ship", "deploy", "manual"),
            (8, "e2e", "test", "success"),
            (9, "compile", "build", "running"),
        ];
        order.iter().map(|&i| job(all[i].0, all[i].1, all[i].2, all[i].3)).collect()
    };
    let expected = breakdown_summary(&make([0, 1, 2, 3, 4, 5]));
    assert_eq!(breakdown_summary(&make([5, 4, 3, 2, 1, 0])), expected);
    assert_eq!(breakdown_summary(&make([4, 0, 3, 5, 1, 2])), expected);
    let names: Vec<&str> = expected.iter().map(|s| s.0.as_str()).collect();
    assert_eq!(names, ["build", "test", "deploy"]);
    assert_eq!(expected[1].2, vec![(2, "success".to_string()), (8, "success".to_string())]);
}
