use vitaline::commands::{
    account, check_external_url, checked_token, failure_message, fallback_file, file_token,
    keychain_token, notch_size, parse_provider, project_provider,
};
use vitaline::model::{ProviderKind, WatchedProject};
use vitaline::notch::{horizontal_x, hover_step, HoverSample, Placement};
use vitaline::model::AppConfig;
use vitaline::state::{poll_interval_secs, settings_at_startup, token_state_of, ProviderMap};

#[test]
fn providers_and_projects_are_looked_up() {
    assert_eq!(parse_provider("github"), Ok(ProviderKind::Github));
    assert_eq!(parse_provider("svn").unwrap_err(), "Unknown provider: svn");
    let watched = vec![WatchedProject {
        id: "o/r".to_string(),
        provider: ProviderKind::Github,
        git_ref: None,
        label: None,
    }];
    assert_eq!(project_provider(&watched, "o/r"), Ok(ProviderKind::Github));
    assert_eq!(project_provider(&watched, "x").unwrap_err(), "Project isn't in the watched list: x");
}

#[test]
fn tokens_links_and_messages() {
    assert_eq!(checked_token("  abc \n").unwrap(), "abc");
    assert_eq!(checked_token("   ").unwrap_err(), "Token cannot be empty.");
    assert!(check_external_url("https://example.com").is_ok());
    assert!(check_external_url("http://example.com").is_ok());
    assert_eq!(check_external_url("file:///etc/passwd").unwrap_err(), "Only http/https addresses can be opened.");
    assert_eq!(failure_message("Job could not be retried", "GitLab 500: x"), "Job could not be retried: GitLab 500: x");
    assert_eq!(notch_size(0, 40), (1, 40));
}

#[test]
fn secret_locations() {
    assert_eq!(account(ProviderKind::Gitlab), "gitlab-token");
    assert_eq!(fallback_file(ProviderKind::Gitlab), "token.txt");
    assert_eq!(fallback_file(ProviderKind::Azure), "token-azure.txt");
    assert_eq!(keychain_token(Some(String::new())), None);
    assert_eq!(keychain_token(Some("t".to_string())), Some("t".to_string()));
    assert_eq!(file_token(" t \n"), Some("t".to_string()));
    assert_eq!(file_token("\n"), None);
}

#[test]
fn failed_verification_rolls_the_token_back() {
    let mut tokens = ProviderMap::new();
    tokens.insert(ProviderKind::Gitlab, "old".to_string());
    let previous = tokens.insert(ProviderKind::Gitlab, "new".to_string());
    assert_eq!(tokens.get(ProviderKind::Gitlab).map(String::as_str), Some("new"));
    tokens.restore(ProviderKind::Gitlab, previous);
    assert_eq!(tokens.get(ProviderKind::Gitlab).map(String::as_str), Some("old"));
    let previous = tokens.insert(ProviderKind::Azure, "x".to_string());
    tokens.restore(ProviderKind::Azure, previous);
    assert!(!tokens.contains_key(ProviderKind::Azure));
    let usernames = ProviderMap::new();
    let state = token_state_of(&tokens, &usernames, ProviderKind::Gitlab);
    assert!(state.present);
    assert_eq!(state.username, None);
    assert!(!tokens.is_empty());
}

#[test]
fn poll_interval_and_startup() {
    assert_eq!(poll_interval_secs(0), 5);
    assert_eq!(poll_interval_secs(30), 30);
    assert_eq!(poll_interval_secs(1_000_000), 3600);
    assert!(settings_at_startup(true, 0));
    assert!(!settings_at_startup(true, 2));
    assert!(settings_at_startup(false, 2));
}

#[test]
fn notch_placement() {
    let config = AppConfig { horizontal_offset: -30, top_offset: 4, ..AppConfig::default() };
    let p = Placement::of(&config);
    assert_eq!((p.top_offset, p.horizontal_offset), (4, -30));
    assert_eq!(horizontal_x(0, 1000, 200, 0), 400);
    assert_eq!(horizontal_x(100, 1000, 200, -30), 470);
    assert_eq!(horizontal_x(0, 1000, 200, 100_000), 800);
    assert_eq!(horizontal_x(0, 1000, 200, -100_000), 0);
    assert_eq!(horizontal_x(0, 100, 201, 0), 0);
}

#[test]
fn hover_events_go_out_only_on_a_change() {
    assert_eq!(hover_step(false, HoverSample::At(true)), (true, Some(true)));
    assert_eq!(hover_step(true, HoverSample::At(true)), (true, None));
    assert_eq!(hover_step(true, HoverSample::At(false)), (false, Some(false)));
    assert_eq!(hover_step(false, HoverSample::At(false)), (false, None));
    assert_eq!(hover_step(true, HoverSample::Unknown), (true, None));
    assert_eq!(hover_step(false, HoverSample::Unknown), (false, None));
}

#[test]
fn widget_mode_owes_a_leave_once() {
    assert_eq!(hover_step(true, HoverSample::WidgetMode), (false, Some(false)));
    assert_eq!(hover_step(false, HoverSample::WidgetMode), (false, None));
}
