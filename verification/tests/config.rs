use codex_potter_tui::codex_config::{
    base_config, discovery_markers, find_codex_home, persist_codex_tui_theme, project_config_path,
    project_dirs_between, resolve_codex_model_config,
    resolve_codex_model_config_with_runtime_overrides, resolve_codex_tui_theme,
    toml_string_literal, ConfigError, ConfigFile, ConfigFiles, ErrorKind, HomeLookup, NamedHome,
    ReasoningEffort, ResolvedCodexModelConfig,
};
use codex_potter_tui::files::FileText;

fn missing(path: &str) -> ConfigFile {
    ConfigFile { path: path.to_string(), file: FileText::Missing }
}

fn present(path: &str, contents: &str) -> ConfigFile {
    ConfigFile { path: path.to_string(), file: FileText::Contents(contents.to_string()) }
}

fn user_only(contents: &str) -> ConfigFiles {
    ConfigFiles {
        system: missing("/etc/codex/config.toml"),
        user: present("/home/user/.codex/config.toml", contents),
        project: Vec::new(),
    }
}

fn with_project(contents: &str, project: &str) -> ConfigFiles {
    ConfigFiles {
        system: missing("/etc/codex/config.toml"),
        user: present("/home/user/.codex/config.toml", contents),
        project: vec![present("/repo/.codex/config.toml", project)],
    }
}

fn overrides(kvs: &[&str]) -> Vec<String> {
    kvs.iter().map(|kv| kv.to_string()).collect()
}

fn assert_resolved(
    resolved: &ResolvedCodexModelConfig,
    model: &str,
    reasoning_effort: Option<ReasoningEffort>,
    is_fast: bool,
) {
    assert_eq!(resolved.model, model);
    assert_eq!(resolved.reasoning_effort, reasoning_effort);
    assert_eq!(resolved.is_fast, is_fast);
}

#[test]
fn resolves_model_from_profile_when_selected() {
    let files = user_only(
        r#"
model = "gpt-5.2"
model_reasoning_effort = "xhigh"
service_tier = "flex"
profile = "work"

[profiles.work]
model = "gpt-5.2-codex"
model_reasoning_effort = "high"
service_tier = "fast"
"#,
    );
    let resolved = resolve_codex_model_config(&files).expect("resolve");
    assert_eq!(resolved.model, "gpt-5.2-codex");
    assert_eq!(resolved.reasoning_effort, Some(ReasoningEffort::High));
    assert!(resolved.is_fast);
}

#[test]
fn project_layer_overrides_user_layer() {
    let files = with_project(
        r#"
model = "gpt-5.2"
service_tier = "fast"
"#,
        r#"
model = "gpt-5.2-codex"
service_tier = "flex"
"#,
    );
    let resolved = resolve_codex_model_config(&files).expect("resolve");
    assert_eq!(resolved.model, "gpt-5.2-codex");
    assert!(!resolved.is_fast);
}

#[test]
fn fast_banner_is_hidden_when_fast_feature_is_disabled() {
    let files = user_only(
        r#"
model = "gpt-5.2"
service_tier = "fast"

[features]
fast_mode = false
"#,
    );
    let resolved = resolve_codex_model_config(&files).expect("resolve");
    assert_resolved(&resolved, "gpt-5.2", None, false);
}

#[test]
fn profile_fast_feature_override_is_applied() {
    let files = user_only(
        r#"
model = "gpt-5.2"
service_tier = "fast"
profile = "work"

[features]
fast_mode = false

[profiles.work.features]
fast_mode = true
"#,
    );
    let resolved = resolve_codex_model_config(&files).expect("resolve");
    assert_resolved(&resolved, "gpt-5.2", None, true);
}

#[test]
fn runtime_overrides_replace_model_reasoning_and_fast_state() {
    let files = user_only(
        r#"
model = "gpt-5.2"
model_reasoning_effort = "low"
service_tier = "flex"

[features]
fast_mode = false
"#,
    );
    let resolved = resolve_codex_model_config_with_runtime_overrides(
        &files,
        Some("gpt-5.4"),
        &overrides(&[
            "model_reasoning_effort=high",
            "service_tier=fast",
            "features.fast_mode=true",
        ]),
        None,
    )
    .expect("resolve");
    assert_resolved(&resolved, "gpt-5.4", Some(ReasoningEffort::High), true);
}

#[test]
fn runtime_profile_override_combines_with_explicit_model_override() {
    let files = user_only(
        r#"
model = "gpt-5.2"
profile = "default"

[features]
fast_mode = false

[profiles.default]
model = "gpt-5.2"
model_reasoning_effort = "low"
service_tier = "flex"

[profiles.fast]
model = "gpt-5.3"
model_reasoning_effort = "high"
service_tier = "fast"

[profiles.fast.features]
fast_mode = true
"#,
    );
    let resolved = resolve_codex_model_config_with_runtime_overrides(
        &files,
        Some("gpt-5.4"),
        &overrides(&["profile=\"fast\""]),
        None,
    )
    .expect("resolve");
    assert_resolved(&resolved, "gpt-5.4", Some(ReasoningEffort::High), true);
}

#[test]
fn runtime_top_level_model_and_reasoning_overrides_still_yield_to_selected_profile() {
    let files = user_only(
        r#"
model = "gpt-5.2"
model_reasoning_effort = "low"
service_tier = "flex"

[features]
fast_mode = false

[profiles.fast]
model = "gpt-5.3"
model_reasoning_effort = "high"
service_tier = "fast"

[profiles.fast.features]
fast_mode = true
"#,
    );
    let resolved = resolve_codex_model_config_with_runtime_overrides(
        &files,
        None,
        &overrides(&[
            "profile=\"fast\"",
            "model=\"gpt-5.4\"",
            "model_reasoning_effort=\"minimal\"",
            "service_tier=\"flex\"",
            "features.fast_mode=false",
        ]),
        None,
    )
    .expect("resolve");
    assert_resolved(&resolved, "gpt-5.3", Some(ReasoningEffort::High), true);
}

fn dirs(names: &[&str]) -> Vec<String> {
    names.iter().map(|name| name.to_string()).collect()
}

#[test]
fn runtime_project_root_markers_override_affects_layer_discovery() {
    let files = with_project("model = \"gpt-5.2\"\n", "model = \"gpt-5.4\"\n");
    let kvs = overrides(&["project_root_markers=[\"MARKER\"]"]);
    let base = base_config(&files.system, &files.user).expect("base");
    let markers = discovery_markers(&base, &kvs).expect("markers");
    assert_eq!(markers, vec!["MARKER".to_string()]);

    let ancestors = dirs(&["/repo/subdir", "/repo", "/"]);
    let between = project_dirs_between(&ancestors, &vec![false, true, false], false);
    assert_eq!(between, dirs(&["/repo", "/repo/subdir"]));
    assert_eq!(project_config_path(&between[0]), "/repo/.codex/config.toml");

    let resolved =
        resolve_codex_model_config_with_runtime_overrides(&files, None, &kvs, None).expect("resolve");
    assert_eq!(resolved.model, "gpt-5.4");
}

fn assert_error(err: &ConfigError, kind: ErrorKind, message: &str) {
    assert_eq!(err.kind, kind);
    assert!(err.message.contains(message), "unexpected error: {}", err.message);
}

#[test]
fn invalid_service_tier_is_rejected() {
    let files = user_only(
        r#"
service_tier = "turbo"
"#,
    );
    let err = resolve_codex_model_config(&files).expect_err("expected error");
    assert_error(
        &err,
        ErrorKind::InvalidData,
        "config field `service_tier` has invalid value `turbo`",
    );
}

#[test]
fn runtime_fast_mode_override_beats_selected_profile_feature() {
    let files = user_only(
        r#"
service_tier = "fast"
profile = "fast"

[profiles.fast.features]
fast_mode = true
"#,
    );
    let resolved = resolve_codex_model_config_with_runtime_overrides(
        &files,
        None,
        &Vec::new(),
        Some(false),
    )
    .expect("resolve");
    assert_eq!(resolved.is_fast, false);
}

#[test]
fn resolving_selected_profile_errors_when_profile_is_missing() {
    let files = user_only(
        r#"
model = "gpt-5.2"
profile = "missing"
"#,
    );
    let err = resolve_codex_model_config(&files).expect_err("expected error");
    assert_error(&err, ErrorKind::NotFound, "config profile `missing` not found");
}

#[test]
fn project_root_markers_can_change_project_root_discovery() {
    let files = with_project(
        r#"
model = "gpt-5.2"
project_root_markers = ["MARKER"]
"#,
        r#"
model = "gpt-5.2-codex"
"#,
    );
    let base = base_config(&files.system, &files.user).expect("base");
    let markers = discovery_markers(&base, &Vec::new()).expect("markers");
    assert_eq!(markers, vec!["MARKER".to_string()]);
    let resolved = resolve_codex_model_config(&files).expect("resolve");
    assert_eq!(resolved.model, "gpt-5.2-codex");
}

#[test]
fn project_root_markers_default_to_git() {
    let files = user_only("");
    let base = base_config(&files.system, &files.user).expect("base");
    let markers = discovery_markers(&base, &Vec::new()).expect("markers");
    assert_eq!(markers, vec![".git".to_string()]);
}

#[test]
fn resolves_tui_theme_from_layered_config() {
    let files = user_only(
        r#"
[tui]
theme = "catppuccin-mocha"
"#,
    );
    let resolved = resolve_codex_tui_theme(&files).expect("resolve");
    assert_eq!(resolved, Some("catppuccin-mocha".to_string()));
}

#[test]
fn persist_tui_theme_writes_through_symlink() {
    let contents =
        persist_codex_tui_theme("/home/user/.codex/config.toml", "", "github").expect("persist theme");
    assert!(
        contents.contains("theme = \"github\""),
        "expected persisted config to contain theme selection, got: {contents}"
    );
    assert_eq!(
        resolve_codex_tui_theme(&user_only(&contents)).expect("resolve"),
        Some("github".to_string())
    );
}

#[test]
fn persisted_theme_keeps_other_settings() {
    let before = "# comment\nmodel = \"m\"\n\n[tui]\nother = 1\ntheme = \"old\"\n";
    let contents = persist_codex_tui_theme("c.toml", before, "new").expect("persist theme");
    assert!(contents.contains("# comment"));
    assert!(contents.contains("other = 1"));
    assert!(!contents.contains("old"));
    assert_eq!(
        resolve_codex_tui_theme(&user_only(&contents)).expect("resolve"),
        Some("new".to_string())
    );
    assert_eq!(resolve_codex_model_config(&user_only(&contents)).expect("resolve").model, "m");
}

#[test]
fn persisted_theme_turns_an_inline_table_into_one_with_a_header() {
    let before = "tui = { other = \"kept\", theme = \"old\" }\n";
    let contents = persist_codex_tui_theme("c.toml", before, "new").expect("persist theme");
    assert!(contents.starts_with("[tui"), "{contents}");
    assert!(contents.contains("other = \"kept\""), "{contents}");
    assert_eq!(
        resolve_codex_tui_theme(&user_only(&contents)).expect("resolve"),
        Some("new".to_string())
    );
}

#[test]
fn persisting_a_theme_reports_what_stands_in_the_way() {
    let err = persist_codex_tui_theme("c.toml", "tui = 1\n", "new").expect_err("no table");
    assert_eq!(err.kind, ErrorKind::InvalidData);
    assert_eq!(err.message, "config field `tui` must be a table");
    let err = persist_codex_tui_theme("c.toml", "tui = [\n", "new").expect_err("no toml");
    assert_eq!(err.kind, ErrorKind::InvalidData);
    assert!(err.message.starts_with("Error parsing config file c.toml: "), "{}", err.message);
}

#[test]
fn wrong_types_are_named() {
    for (contents, message) in [
        ("model = 1\n", "config field `model` must be a string"),
        ("model_reasoning_effort = \"huge\"\n", "config field `model_reasoning_effort` has invalid value `huge`"),
        ("features = 1\n", "config field `features` must be a table"),
        ("features = { fast_mode = true }\n", "config field `features` must be a table"),
        ("[features]\nfast_mode = \"on\"\n", "config field `features.fast_mode` must be a boolean"),
        ("profile = true\n", "config field `profile` must be a string"),
        ("project_root_markers = \"x\"\n", "config field `project_root_markers` must be an array of strings"),
        ("project_root_markers = [1]\n", "config field `project_root_markers` must be an array of strings"),
        ("tui = 1\n", "config field `tui` must be a table"),
        ("[tui]\ntheme = 1\n", "config field `tui.theme` must be a string"),
        ("profiles = 1\n", "config field `profiles` must be a table"),
        ("[profiles]\na = 1\n", "config field `profiles.a` must be a table"),
        ("[profiles.a]\nmodel = 1\n", "config field `profiles.a.model` must be a string"),
        ("[profiles.a]\nservice_tier = \"x\"\n", "config field `profiles.a.service_tier` has invalid value `x`"),
        ("[profiles.a]\nfeatures = 1\n", "config field `profiles.a.features` must be a table"),
        ("[profiles.a.features]\nfast_mode = 1\n", "config field `profiles.a.features.fast_mode` must be a boolean"),
    ] {
        let err = resolve_codex_model_config(&user_only(contents)).expect_err("expected error");
        assert_eq!(err.kind, ErrorKind::InvalidData, "{contents}");
        assert_eq!(err.message, message, "{contents}");
    }
}

#[test]
fn overrides_are_read_as_toml_or_as_text() {
    let files = user_only("");
    let resolve = |kvs: &[&str]| {
        resolve_codex_model_config_with_runtime_overrides(&files, None, &overrides(kvs), None)
    };
    assert_eq!(resolve(&["model = plain text"]).expect("resolve").model, "plain text");
    assert_eq!(resolve(&["model='quoted'"]).expect("resolve").model, "quoted");
    assert_eq!(resolve(&["model=a\"b\\c"]).expect("resolve").model, "a\"b\\c");
    assert_eq!(
        resolve(&["model"]).expect_err("no value").message,
        "config override `model` must be in key=value form"
    );
    assert_eq!(
        resolve(&[" =x"]).expect_err("no key").message,
        "config override ` =x` must have a non-empty key"
    );
    let err = resolve(&["a b=x"]).expect_err("no key");
    assert_eq!(err.kind, ErrorKind::InvalidData);
    assert!(err.message.starts_with("config override `a b=x` is invalid: "), "{}", err.message);
}

#[test]
fn default_model_is_used_without_configuration() {
    let resolved = resolve_codex_model_config(&user_only("")).expect("resolve");
    assert_resolved(&resolved, "gpt-5.2-codex", None, false);
}

#[test]
fn unreadable_files_are_named() {
    let files = ConfigFiles {
        system: ConfigFile {
            path: "/etc/codex/config.toml".to_string(),
            file: FileText::Failed("permission denied".to_string()),
        },
        user: missing("/home/user/.codex/config.toml"),
        project: Vec::new(),
    };
    let err = resolve_codex_model_config(&files).expect_err("unreadable");
    assert_eq!(err.kind, ErrorKind::System);
    assert_eq!(
        err.message,
        "Failed to read config file /etc/codex/config.toml: permission denied"
    );
    let nowhere = ConfigFiles {
        system: ConfigFile { path: String::new(), file: FileText::Failed("x".to_string()) },
        user: missing("u"),
        project: Vec::new(),
    };
    assert!(resolve_codex_model_config(&nowhere).is_ok());
}

#[test]
fn string_literals_are_escaped() {
    assert_eq!(toml_string_literal("plain"), "\"plain\"");
    assert_eq!(
        toml_string_literal("a\\b\"c\u{8}d\ne\u{c}f\rg\th\u{1}i\u{7f}j\u{9f}k\u{e4}"),
        "\"a\\\\b\\\"c\\bd\\ne\\ff\\rg\\th\\u0001i\\u007Fj\\u009Fk\u{e4}\""
    );
}

fn named(value: &str, lookup: HomeLookup) -> Option<NamedHome> {
    Some(NamedHome { value: value.to_string(), lookup })
}

#[test]
fn find_codex_home_env_missing_path_is_fatal() {
    let err = find_codex_home(
        named("/home/user/missing-codex-home", HomeLookup::Missing),
        Some("/home/user"),
    )
    .expect_err("missing CODEX_HOME");
    assert_error(&err, ErrorKind::NotFound, "CODEX_HOME");
    assert_eq!(
        err.message,
        "CODEX_HOME points to \"/home/user/missing-codex-home\", but that path does not exist"
    );
}

#[test]
fn find_codex_home_env_file_path_is_fatal() {
    let err = find_codex_home(
        named("/home/user/codex-home.txt", HomeLookup::NotADirectory),
        Some("/home/user"),
    )
    .expect_err("file CODEX_HOME");
    assert_error(&err, ErrorKind::InvalidInput, "not a directory");
}

#[test]
fn find_codex_home_env_valid_directory_canonicalizes() {
    let found = find_codex_home(
        named("/home/link", HomeLookup::Resolved("/home/user/real".to_string())),
        Some("/home/user"),
    )
    .expect("valid CODEX_HOME");
    assert_eq!(found, "/home/user/real");
}

#[test]
fn find_codex_home_falls_back_to_the_home_directory() {
    assert_eq!(find_codex_home(None, Some("/home/user")).expect("home"), "/home/user/.codex");
    assert_eq!(
        find_codex_home(named("", HomeLookup::Missing), Some("/home/user")).expect("home"),
        "/home/user/.codex"
    );
    let err = find_codex_home(None, None).expect_err("no home");
    assert_eq!(err.kind, ErrorKind::NotFound);
    assert_eq!(err.message, "Could not find home directory");
    let err = find_codex_home(named("a\"b", HomeLookup::Unreadable("e".to_string())), None)
        .expect_err("unreadable");
    assert_eq!(err.kind, ErrorKind::System);
    assert_eq!(err.message, "failed to read CODEX_HOME \"a\\\"b\": e");
    let err = find_codex_home(named("x", HomeLookup::Unresolved("e".to_string())), None)
        .expect_err("unresolved");
    assert_eq!(err.kind, ErrorKind::System);
    assert_eq!(err.message, "failed to canonicalize CODEX_HOME \"x\": e");
}

#[test]
fn inline_table_behind_a_line_feed_gets_a_header() {
    let before = "project_root_markers = [\".git\", \".hg\"]\n# mine\ntui = { other = 1, theme = \"old\" }\n";
    let contents = persist_codex_tui_theme("c.toml", before, "new").expect("persist theme");
    assert!(contents.contains("[tui]\n"), "{contents}");
    assert!(contents.contains("other = 1"), "{contents}");
    assert!(contents.contains("[\".git\", \".hg\"]"), "{contents}");
    assert_eq!(
        resolve_codex_tui_theme(&user_only(&contents)).expect("resolve"),
        Some("new".to_string())
    );
}

#[test]
fn inline_table_over_several_lines_gets_a_header() {
    for before in [
        "tui = { a =\n 1 }\n",
        "tui = { x.y =\n 1, x.z = true # c\n }\n",
        "tui = { x.y\n = 1 }\n",
        "tui = { # c\n a = 1 # d\n , b = [\n 2 ] }\n",
    ] {
        let contents = persist_codex_tui_theme("c.toml", before, "new").expect("persist theme");
        assert_eq!(
            resolve_codex_tui_theme(&user_only(&contents)).expect("resolve"),
            Some("new".to_string()),
            "{contents}"
        );
        assert!(contents.contains("= 1") || contents.contains("=\n 1"), "{contents}");
    }
}
