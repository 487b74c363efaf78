use vitaline::gitlab::{
    api_error, branch_pipeline, error_detail, jobs_path, latest_pipeline_path, pipeline_action_path, tail,
    unreachable_message, ApiError, ApiPipeline, Gitlab, PipelineAction, TransportFailure,
};

#[test]
fn short_text_stays_as_is() {
    assert_eq!(tail("a\nb", 5), "a\nb");
}

#[test]
fn long_text_is_truncated_to_tail() {
    let text = (1..=10).map(|i| i.to_string()).collect::<Vec<_>>().join("\n");
    let out = tail(&text, 3);
    assert!(out.starts_with("… first 7 lines skipped …"));
    assert!(out.ends_with("8\n9\n10"));
}

#[test]
fn project_path_is_encoded() {
    assert_eq!(Gitlab::pid("group/sub/project"), "group%2Fsub%2Fproject");
    assert_eq!(Gitlab::pid("12345"), "12345");
}

#[test]
fn tail_keeps_exactly_the_last_lines() {
    assert_eq!(tail("1\n2\n3\n4", 2), "… first 2 lines skipped …\n3\n4");
    assert_eq!(tail("1\n2\n3", 0), "… first 3 lines skipped …\n");
    assert_eq!(tail("", 0), "");
}

#[test]
fn client_trims_the_trailing_slash() {
    let g = Gitlab::new("https://gitlab.example.com//".to_string(), "tok".to_string());
    assert_eq!(g.base(), "https://gitlab.example.com");
    assert_eq!(g.url("/user"), "https://gitlab.example.com/api/v4/user");
    assert_eq!(g.token(), "tok");
}

#[test]
fn request_paths() {
    assert_eq!(jobs_path("a/b", 7), "/projects/a%2Fb/pipelines/7/jobs?per_page=100&include_retried=true");
    assert_eq!(
        pipeline_action_path("12", 5, PipelineAction::Cancel),
        "/projects/12/pipelines/5/cancel"
    );
    assert!(latest_pipeline_path("12", "feature/x").contains("feature%2Fx"));
}

#[test]
fn error_messages_carry_the_hint() {
    let e = api_error(404, "Not Found");
    assert_eq!(e.status, 404);
    assert_eq!(
        e.message,
        "GitLab 404 - project/pipeline doesn't exist or the token can't see it: Not Found"
    );
    assert_eq!(api_error(500, "boom").message, "GitLab 500: boom");
}

#[test]
fn error_detail_reads_the_body() {
    assert_eq!(error_detail(r#"{"message":"403 Forbidden"}"#), "403 Forbidden");
    assert_eq!(error_detail(r#"{"error":"invalid_token"}"#), "invalid_token");
    assert_eq!(error_detail(r#"{"message":{"base":["x"]}}"#), r#"{"base":["x"]}"#);
    let long = "x".repeat(300);
    assert_eq!(error_detail(&long).chars().count(), 160);
    assert_eq!(error_detail("plain"), "plain");
}

fn pipeline(id: u64) -> ApiPipeline {
    ApiPipeline {
        id,
        git_ref: Some("main".to_string()),
        sha: None,
        status: "success".to_string(),
        source: None,
        web_url: "https://x".to_string(),
        created_at: None,
        duration_bits: None,
        user: None,
    }
}

#[test]
fn missing_branch_pipeline_is_none() {
    assert!(matches!(branch_pipeline(Ok(pipeline(3))), Ok(Some(p)) if p.id == 3));
    let gone = ApiError { status: 404, message: "x".to_string() };
    assert!(matches!(branch_pipeline(Err(gone)), Ok(None)));
    let hidden = ApiError { status: 403, message: "x".to_string() };
    assert!(matches!(branch_pipeline(Err(hidden)), Ok(None)));
    let broken = ApiError { status: 500, message: "x".to_string() };
    assert!(matches!(branch_pipeline(Err(broken)), Err(e) if e.status == 500));
}

#[test]
fn unreachable_messages() {
    assert_eq!(
        unreachable_message("https://g", TransportFailure::Timeout, "x"),
        "Could not reach https://g: timed out"
    );
    assert_eq!(
        unreachable_message("https://g", TransportFailure::Connect, "x"),
        "Could not reach https://g: could not connect (check the address or VPN?)"
    );
    assert_eq!(unreachable_message("h", TransportFailure::Other, "dns"), "Could not reach h: dns");
}
