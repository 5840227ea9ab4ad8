use codex_logic::config_command::report_lines;
use codex_logic::config_command::ConfigContext;
use codex_logic::config_command::ConfigSubcommand;
use codex_logic::config_report::layer_reports;
use codex_logic::config_report::layers_report_lines;
use codex_logic::config_report::WarningsSummary;
use codex_logic::config_warnings::ConfigLayer;
use codex_logic::config_warnings::ConfigLayerStack;
use codex_logic::config_warnings::ConfigValue;
use codex_logic::config_warnings::DeprecatedKey;
use std::path::PathBuf;

const CODEX_HOME: &str = "/tmp/codex-home";

const DEPRECATED_CONFIG: &str = r#"
model = "gpt-5"
experimental_instructions_file = "instructions.md"

[tools]
web_search = true

[features]
web_search = true
mystery_flag = true
"#;

fn to_config_value(value: &toml::Value) -> ConfigValue {
    match value {
        toml::Value::Table(table) => ConfigValue::Table(
            table
                .iter()
                .map(|(key, value)| (key.clone(), to_config_value(value)))
                .collect(),
        ),
        _ => ConfigValue::Other,
    }
}

/// A layer whose source is described as `kind:path`, or as its kind alone.
fn layer(source: &str, config: &str, disabled_reason: Option<&str>) -> ConfigLayer {
    let value: toml::Value = toml::from_str(config).expect("valid toml");
    let (source_kind, source_path) = match source.split_once(':') {
        Some((kind, path)) => (kind.to_string(), Some(path.to_string())),
        None => (source.to_string(), None),
    };
    ConfigLayer {
        source: source.to_string(),
        source_kind,
        source_path,
        source_domain: None,
        source_key: None,
        version: "v1".to_string(),
        disabled_reason: disabled_reason.map(str::to_string),
        config: to_config_value(&value),
    }
}

fn user_config_path() -> String {
    format!("{CODEX_HOME}/config.toml")
}

fn user_source() -> String {
    format!("user:{}", user_config_path())
}

fn user_stack(config: &str) -> ConfigLayerStack {
    ConfigLayerStack {
        layers: vec![layer(&user_source(), config, None)],
    }
}

fn known_features() -> Vec<String> {
    vec![
        "web_search_request".to_string(),
        "unified_exec".to_string(),
        "view_image_tool".to_string(),
    ]
}

fn warnings_text(stack: &ConfigLayerStack, profile: Option<&str>, cwd: &str) -> String {
    report_lines(
        ConfigSubcommand::Warnings,
        stack,
        &known_features(),
        profile,
        cwd,
    )
    .join("\n")
}

#[test]
fn warnings_surface_deprecated_and_unknown_features() {
    let stack = user_stack(DEPRECATED_CONFIG);
    let stdout = warnings_text(&stack, None, CODEX_HOME);
    assert!(stdout.contains("Config warnings:"));
    assert!(stdout.contains("Profile: (default)"));
    assert!(stdout.contains("Deprecated: experimental_instructions_file"));
    assert!(stdout.contains("Deprecated: tools.web_search"));
    assert!(stdout.contains("Deprecated: features.web_search"));
    assert!(stdout.contains("Unknown [features] keys ignored: mystery_flag"));
}

#[test]
fn layers_include_deprecated_keys_per_layer() {
    let stack = user_stack(DEPRECATED_CONFIG);
    let stdout = layers_report_lines(&stack, None, CODEX_HOME).join("\n");
    let expected_source = user_source();
    assert!(stdout.contains("Config layers"));
    assert!(stdout.contains(&expected_source));
    assert!(stdout.contains(
        "deprecated=experimental_instructions_file, tools.web_search, features.web_search"
    ));
}

#[test]
fn warnings_json_reports_sources() {
    let stack = user_stack(DEPRECATED_CONFIG);
    let cwd = format!("{CODEX_HOME}/cwd");
    let lines = report_lines(ConfigSubcommand::Warnings, &stack, &known_features(), None, &cwd);
    assert!(lines.contains(&"Profile: (default)".to_string()));
    assert!(lines.contains(&format!("CWD: {cwd}")));
    let summary = WarningsSummary::new(&stack, &known_features());
    let expected_source = user_source();
    assert!(summary.has_warnings());
    assert_eq!(summary.deprecated_count(), 3);
    assert_eq!(summary.warnings_count(), 4);
    assert!(summary.instructions_file_sources.contains(&expected_source));
    assert!(summary.tools_web_search_sources.contains(&expected_source));
    assert!(summary.features_web_search_sources.contains(&expected_source));
    assert!(summary.unknown_features.iter().any(|key| key == "mystery_flag"));
    assert_eq!(summary.instructions_file_sources.len(), 1);
    assert_eq!(summary.tools_web_search_sources.len(), 1);
    assert_eq!(summary.features_web_search_sources.len(), 1);
    assert_eq!(summary.unknown_features.len(), 1);
}

#[test]
fn layers_json_reports_deprecated_keys() {
    let stack = user_stack(DEPRECATED_CONFIG);
    let reports = layer_reports(&stack);
    let expected_source = user_source();
    let layer = reports
        .iter()
        .find(|entry| entry.source == expected_source)
        .expect("user layer");
    assert_eq!(layer.precedence, 0);
    assert_eq!(layer.source_kind, "user");
    assert_eq!(layer.source_path.as_deref(), Some(user_config_path().as_str()));
    assert!(layer.enabled());
    assert!(layer.deprecated_keys.contains(&DeprecatedKey::InstructionsFile));
    assert!(layer.deprecated_keys.contains(&DeprecatedKey::ToolsWebSearch));
    assert!(layer.deprecated_keys.contains(&DeprecatedKey::FeaturesWebSearch));
    assert_eq!(layer.source_domain, None);
    assert_eq!(layer.source_key, None);
}

#[test]
fn layers_json_reports_context() {
    let stack = user_stack("");
    let cwd = format!("{CODEX_HOME}/cwd");
    let lines = layers_report_lines(&stack, None, &cwd);
    assert!(lines.contains(&"Profile: (default)".to_string()));
    assert!(lines.contains(&format!("CWD: {cwd}")));
    assert_eq!(layer_reports(&stack).len(), stack.layers.len());
}

#[test]
fn layers_json_reports_session_flags_precedence() {
    let stack = ConfigLayerStack {
        layers: vec![
            layer("session-flags", "model = \"gpt-5\"", None),
            layer(&user_source(), "", None),
        ],
    };
    let reports = layer_reports(&stack);
    let session_layer = reports
        .iter()
        .find(|entry| entry.source == "session-flags")
        .expect("session flags layer");
    assert_eq!(session_layer.precedence, 0);
    assert_eq!(session_layer.source_kind, "session-flags");
    assert_eq!(session_layer.source_domain, None);
    assert_eq!(session_layer.source_key, None);
}

#[test]
fn warnings_json_reports_profile_context() {
    let stack = user_stack("[profiles.demo]\nmodel = \"gpt-5\"\n");
    let lines = report_lines(
        ConfigSubcommand::Warnings,
        &stack,
        &known_features(),
        Some("demo"),
        CODEX_HOME,
    );
    assert!(lines.contains(&"Profile: demo".to_string()));
}

#[test]
fn warnings_json_compact_parses() {
    let stack = user_stack("");
    let summary = WarningsSummary::new(&stack, &known_features());
    assert!(!summary.has_warnings());
}

#[test]
fn warnings_json_reports_no_warnings() {
    let stack = user_stack("");
    let summary = WarningsSummary::new(&stack, &known_features());
    assert!(!summary.has_warnings());
    assert_eq!(summary.deprecated_count(), 0);
    assert_eq!(summary.warnings_count(), 0);
    assert_eq!(summary.instructions_file_sources.len(), 0);
    assert_eq!(summary.tools_web_search_sources.len(), 0);
    assert_eq!(summary.features_web_search_sources.len(), 0);
    assert_eq!(summary.unknown_features.len(), 0);
}

#[test]
fn warnings_text_reports_no_warnings() {
    let stack = ConfigLayerStack { layers: Vec::new() };
    let cwd = format!("{CODEX_HOME}/cwd");
    let stdout = warnings_text(&stack, None, &cwd);
    assert!(stdout.contains("Config warnings:"));
    assert!(stdout.contains("Profile: (default)"));
    assert!(stdout.contains(&format!("CWD: {}", cwd)));
    assert!(stdout.contains("No configuration warnings found."));
}

#[test]
fn warnings_report_has_exact_lines() {
    let stack = user_stack(DEPRECATED_CONFIG);
    let lines = report_lines(
        ConfigSubcommand::Warnings,
        &stack,
        &known_features(),
        Some("demo"),
        "/work",
    );
    let source = user_source();
    let expected = vec![
        "Config warnings:".to_string(),
        "Profile: demo".to_string(),
        "CWD: /work".to_string(),
        "Deprecated: experimental_instructions_file".to_string(),
        format!("  Detected in: {source}"),
        "  Move the setting to model_instructions_file in config.toml (or under a profile) to load instructions from a file.".to_string(),
        "Deprecated: tools.web_search".to_string(),
        format!("  Detected in: {source}"),
        "  Use web_search = \"live\" | \"cached\" | \"disabled\" instead.".to_string(),
        "  If you only need the raw tool toggle, set [features].web_search_request = true.".to_string(),
        "Deprecated: features.web_search".to_string(),
        format!("  Detected in: {source}"),
        "  Use [features].web_search_request instead.".to_string(),
        "  To enable the built-in web search tool, set web_search = \"live\" | \"cached\" | \"disabled\".".to_string(),
        "Unknown [features] keys ignored: mystery_flag".to_string(),
        "  See docs/config.md for supported feature flags.".to_string(),
    ];
    assert_eq!(lines, expected);
}

#[test]
fn layers_report_has_exact_lines() {
    let stack = ConfigLayerStack {
        layers: vec![
            layer("session-flags", "model = \"gpt-5\"", None),
            layer(&user_source(), DEPRECATED_CONFIG, None),
            layer("project:/work/.codex/config.toml", "[tools]\nweb_search = true", Some("untrusted project")),
        ],
    };
    let lines = layers_report_lines(&stack, None, "/work");
    let expected = vec![
        "Config layers (high → low precedence):".to_string(),
        "Profile: (default)".to_string(),
        "CWD: /work".to_string(),
        "- session-flags (version=v1)".to_string(),
        format!(
            "- {} (version=v1; deprecated=experimental_instructions_file, tools.web_search, features.web_search)",
            user_source()
        ),
        "- project:/work/.codex/config.toml (version=v1; disabled=untrusted project)".to_string(),
    ];
    assert_eq!(lines, expected);
    let reports = layer_reports(&stack);
    assert_eq!(reports.len(), 3);
    assert_eq!(reports[0].precedence, 0);
    assert_eq!(reports[2].precedence, 2);
    assert!(!reports[2].enabled());
}

#[test]
fn layers_report_without_layers() {
    let stack = ConfigLayerStack { layers: Vec::new() };
    let lines = layers_report_lines(&stack, Some("yolo"), "/");
    assert_eq!(
        lines,
        vec![
            "Config layers (high → low precedence):".to_string(),
            "Profile: yolo".to_string(),
            "CWD: /".to_string(),
            "No configuration layers found.".to_string(),
        ]
    );
}

#[test]
fn profiles_are_checked_and_disabled_layers_ignored() {
    let profile_config = r#"
[profiles.work]
experimental_instructions_file = "a.md"

[profiles.work.tools]
web_search = true

[profiles.work.features]
web_search = true
zeta = true
alpha = true
unified_exec = true

[features]
alpha = true
"#;
    let stack = ConfigLayerStack {
        layers: vec![
            layer("disabled", "[features]\nomega = true\n[tools]\nweb_search = true", Some("off")),
            layer("user", profile_config, None),
        ],
    };
    let summary = WarningsSummary::new(&stack, &known_features());
    assert_eq!(summary.instructions_file_sources, vec!["user".to_string()]);
    assert_eq!(summary.tools_web_search_sources, vec!["user".to_string()]);
    assert_eq!(summary.features_web_search_sources, vec!["user".to_string()]);
    assert_eq!(
        summary.unknown_features,
        vec!["alpha".to_string(), "zeta".to_string()]
    );
}

#[test]
fn unknown_feature_keys_are_sorted_and_unique() {
    let stack = ConfigLayerStack {
        layers: vec![
            layer("a", "[features]\nzz = 1\nb = 2\nweb_search = true", None),
            layer("b", "[features]\nb = 1\na = 2\n\"é\" = 3\nZ = 4", None),
        ],
    };
    let summary = WarningsSummary::new(&stack, &Vec::new());
    assert_eq!(
        summary.unknown_features,
        vec!["Z", "a", "b", "zz", "é"]
            .into_iter()
            .map(String::from)
            .collect::<Vec<_>>()
    );
}

#[test]
fn non_table_values_are_not_scanned() {
    let stack = user_stack("tools = 3\nfeatures = \"x\"\nprofiles = [1, 2]");
    let summary = WarningsSummary::new(&stack, &known_features());
    assert!(!summary.has_warnings());
}

#[test]
fn command_flags_win_over_context() {
    let context = ConfigContext {
        config_profile: Some("ctx".to_string()),
        cwd: Some(PathBuf::from("/ctx")),
        web_search: true,
    };
    let request = context.clone().resolve(Some("cli".to_string()), None);
    assert_eq!(request.config_profile.as_deref(), Some("cli"));
    assert_eq!(request.cwd, Some(PathBuf::from("/ctx")));
    assert!(request.force_live_web_search);
    let request = context.resolve(None, Some(PathBuf::from("/cli")));
    assert_eq!(request.config_profile.as_deref(), Some("ctx"));
    assert_eq!(request.cwd, Some(PathBuf::from("/cli")));
}
