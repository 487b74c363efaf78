use vitaline::model::{
    aggregate, default_notch_width, tone_of, AppConfig, DisplayMode, ProviderKind, Tone,
    WidgetConfig, WidgetLayer, HORIZONTAL_OFFSET_LIMIT, NOTCH_MAX_WIDTH, NOTCH_MIN_WIDTH,
    WIDGET_MAX_HEIGHT, WIDGET_MIN_WIDTH,
};

#[test]
fn empty_list_gives_none() {
    assert_eq!(aggregate(&Vec::<(&str, bool)>::new()), "none");
}

#[test]
fn running_job_shadows_failed() {
    assert_eq!(aggregate(&[("failed", false), ("running", false)]), "running");
}

#[test]
fn allow_failure_absorbs_failure() {
    assert_eq!(aggregate(&[("failed", true), ("success", false)]), "success");
}

#[test]
fn real_failure_wins() {
    assert_eq!(aggregate(&[("failed", false), ("success", false)]), "failed");
}

#[test]
fn success_when_all_succeed() {
    assert_eq!(aggregate(&[("success", false), ("skipped", false)]), "success");
}

fn with_widget(widget: WidgetConfig) -> AppConfig {
    AppConfig { widget, ..AppConfig::default() }
}

#[test]
fn widget_geometry_is_clamped() {
    let config = with_widget(WidgetConfig { width: 10, height: 99_999, ..WidgetConfig::default() })
        .sanitized();
    assert_eq!(config.widget.width, WIDGET_MIN_WIDTH);
    assert_eq!(config.widget.height, WIDGET_MAX_HEIGHT);
}

#[test]
fn saving_settings_keeps_the_widgets_own_geometry() {
    let live = WidgetConfig {
        x: Some(200),
        y: Some(80),
        width: 420,
        height: 500,
        layer: WidgetLayer::Front,
        opacity_bits: 0.94f64.to_bits(),
    };
    let from_form = WidgetConfig {
        x: Some(1500),
        y: Some(20),
        width: 340,
        height: 300,
        layer: WidgetLayer::Desktop,
        opacity_bits: 0.5f64.to_bits(),
    };

    let merged = from_form.keeping_geometry_of(&live);

    assert_eq!((merged.x, merged.y), (live.x, live.y));
    assert_eq!((merged.width, merged.height), (live.width, live.height));
    assert_eq!(merged.layer, WidgetLayer::Desktop);
    assert_eq!(f64::from_bits(merged.opacity_bits), 0.5);
}

#[test]
fn tones() {
    assert_eq!(tone_of("success"), Tone::Good);
    assert_eq!(tone_of("failed"), Tone::Bad);
    assert_eq!(tone_of("running"), Tone::Busy);
    assert_eq!(tone_of("pending"), Tone::Warn);
    assert_eq!(tone_of("something-else"), Tone::Idle);
}

#[test]
fn horizontal_offset_is_bounded_when_sanitized() {
    let clamped = |offset: i32| {
        AppConfig { horizontal_offset: offset, ..AppConfig::default() }.sanitized().horizontal_offset
    };
    assert_eq!(AppConfig::default().horizontal_offset, 0);
    assert_eq!(clamped(-500), -500);
    assert_eq!(clamped(i32::MIN), -HORIZONTAL_OFFSET_LIMIT);
    assert_eq!(clamped(i32::MAX), HORIZONTAL_OFFSET_LIMIT);
}

#[test]
fn notch_width_is_clamped_when_sanitized() {
    assert_eq!(AppConfig::default().notch_width, default_notch_width());
    let clamped = |width: u32| {
        AppConfig { notch_width: width, ..AppConfig::default() }.sanitized().notch_width
    };
    assert_eq!(clamped(0), NOTCH_MIN_WIDTH);
    assert_eq!(clamped(u32::MAX), NOTCH_MAX_WIDTH);
    assert_eq!(clamped(520), 520);
}

#[test]
fn display_mode_parses_its_config_string() {
    assert_eq!(DisplayMode::parse("widget"), Some(DisplayMode::Widget));
    assert_eq!(DisplayMode::parse("notch"), Some(DisplayMode::Notch));
    assert_eq!(DisplayMode::parse("Widget"), None);
}

#[test]
fn default_config_shows_the_notch() {
    let config = AppConfig::default();
    assert_eq!(config.display_mode, DisplayMode::Notch);
    assert_eq!(config.widget.layer, WidgetLayer::Front);
    assert_eq!(config.widget.x, None);
    assert_eq!(config.widget.width, 340);
}

#[test]
fn provider_words_round_trip() {
    for kind in [ProviderKind::Gitlab, ProviderKind::Github, ProviderKind::Azure] {
        let word = match kind {
            ProviderKind::Gitlab => "gitlab",
            ProviderKind::Github => "github",
            ProviderKind::Azure => "azure",
        };
        assert_eq!(ProviderKind::parse(word), Some(kind));
    }
    assert_eq!(ProviderKind::parse("GitLab"), None);
    assert_eq!(ProviderKind::Azure.label(), "Azure DevOps");
}

#[test]
fn aggregate_ignores_order() {
    let a = aggregate(&[("pending", false), ("canceled", false), ("success", false)]);
    let b = aggregate(&[("success", false), ("pending", false), ("canceled", false)]);
    assert_eq!(a, "pending");
    assert_eq!(a, b);
    assert_eq!(aggregate(&[("manual", false), ("success", false)]), "manual");
    assert_eq!(aggregate(&[("canceled", false), ("manual", false)]), "canceled");
    assert_eq!(aggregate(&[("skipped", false)]), "skipped");
    assert_eq!(aggregate(&[("canceling", false), ("failed", false)]), "running");
}

#[test]
fn sanitizing_twice_changes_nothing_more() {
    let config = AppConfig {
        poll_seconds: 1,
        top_offset: 9999,
        gitlab_url: "  https://gitlab.example.com/  ".to_string(),
        ..AppConfig::default()
    };
    let once = config.sanitized();
    assert_eq!(once.poll_seconds, 5);
    assert_eq!(once.top_offset, 400);
    assert_eq!(once.gitlab_url, "https://gitlab.example.com");
    let twice = once.sanitized();
    assert_eq!(twice.poll_seconds, 5);
    assert_eq!(twice.top_offset, 400);
    assert_eq!(twice.gitlab_url, "https://gitlab.example.com");
}
