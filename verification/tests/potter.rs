use codex_potter_tui::codex_config::ErrorKind;
use codex_potter_tui::potter_config::{
    append_tui_fallback, append_yolo_fallback, load_potter_tui_verbosity, load_potter_yolo_enabled,
    load_potter_yolo_enabled_from_path, parse_tui_verbosity_fallback, parse_yolo_fallback,
    persist_potter_tui_verbosity, persist_potter_yolo_enabled, potter_config_path,
};
use codex_potter_tui::verbosity::Verbosity;

#[test]
fn fallback_parsers_read_last_value_for_supported_settings() {
    let verbosity_contents = r#"
garbage

[tui]
verbosity = "minimal"

something = else

[tui]
verbosity = "simple"
"#;
    assert_eq!(
        parse_tui_verbosity_fallback(verbosity_contents),
        Some(Verbosity::Simple)
    );

    let yolo_contents = r#"
garbage

yolo = true

something = else

yolo = false

[notice]
yolo = true

[potter]
yolo = true
"#;
    assert_eq!(parse_yolo_fallback(yolo_contents), Some(false));

    let legacy_yolo_contents = r#"
[potter]
yolo = true
"#;
    assert_eq!(parse_yolo_fallback(legacy_yolo_contents), None);

    let malformed_legacy_yolo_contents = r#"
[potter
yolo = true
"#;
    assert_eq!(parse_yolo_fallback(malformed_legacy_yolo_contents), None);
}

#[test]
fn persist_and_load_roundtrip_for_supported_settings() {
    let contents = persist_potter_tui_verbosity("", Verbosity::Minimal);
    assert_eq!(load_potter_tui_verbosity(Some(&contents)), Some(Verbosity::Minimal));
    let contents = persist_potter_tui_verbosity(&contents, Verbosity::Simple);
    assert_eq!(load_potter_tui_verbosity(Some(&contents)), Some(Verbosity::Simple));

    let contents = persist_potter_yolo_enabled("", true);
    assert_eq!(load_potter_yolo_enabled(Some(&contents)), true);
    let contents = persist_potter_yolo_enabled(&contents, false);
    assert_eq!(load_potter_yolo_enabled(Some(&contents)), false);

    let contents = persist_potter_tui_verbosity("", Verbosity::Minimal);
    let contents = persist_potter_yolo_enabled(&contents, true);
    assert_eq!(load_potter_tui_verbosity(Some(&contents)), Some(Verbosity::Minimal));
    assert_eq!(load_potter_yolo_enabled(Some(&contents)), true);
}

#[test]
fn valid_toml_yolo_only_reads_and_writes_the_top_level_key() {
    let before = "[potter]\nyolo = true\nmarker = \"keep\"\n\n[tui]\nverbosity = \"simple\"\n";
    assert!(!load_potter_yolo_enabled(Some(before)));
    assert_eq!(load_potter_tui_verbosity(Some(before)), Some(Verbosity::Simple));

    let contents = persist_potter_yolo_enabled(before, false);
    let doc = contents.parse::<toml_edit::DocumentMut>().expect("persisted valid toml");
    assert_eq!(load_potter_yolo_enabled(Some(&contents)), false);
    assert_eq!(load_potter_tui_verbosity(Some(&contents)), Some(Verbosity::Simple));
    assert_eq!(doc.get("yolo").and_then(|item| item.as_bool()), Some(false));
    let potter = doc.get("potter").and_then(|item| item.as_table()).expect("table");
    assert_eq!(potter.get("marker").and_then(|item| item.as_str()), Some("keep"));
    assert!(potter.get("yolo").is_none());
    assert!(contents.find("yolo = false").unwrap() < contents.find("[potter]").unwrap());
}

#[test]
fn persist_yolo_removes_empty_legacy_potter_table() {
    let contents = persist_potter_yolo_enabled("[potter]\nyolo = true\n", false);
    let doc = contents.parse::<toml_edit::DocumentMut>().expect("persisted valid toml");
    assert_eq!(doc.get("yolo").and_then(|item| item.as_bool()), Some(false));
    assert!(doc.get("potter").is_none());
}

#[test]
fn persist_appends_when_toml_is_invalid_for_supported_settings() {
    let verbosity_contents =
        persist_potter_tui_verbosity("[tui\nverbosity = \"minimal\"\n", Verbosity::Simple);
    assert!(verbosity_contents.contains("[tui]"));
    assert_eq!(
        parse_tui_verbosity_fallback(&verbosity_contents),
        Some(Verbosity::Simple)
    );

    let yolo_contents = persist_potter_yolo_enabled("[potter\nx = 1\n", true);
    assert!(yolo_contents.starts_with("yolo = true"));
    assert_eq!(parse_yolo_fallback(&yolo_contents), Some(true));

    let table_yolo_contents =
        persist_potter_yolo_enabled("[notice]\nflag = true\nbroken = [\nyolo = false\n", true);
    assert!(
        table_yolo_contents.find("yolo = true").unwrap()
            < table_yolo_contents.find("[notice]").unwrap()
    );
    assert_eq!(parse_yolo_fallback(&table_yolo_contents), Some(true));
}

#[test]
fn missing_files_give_defaults() {
    assert_eq!(load_potter_tui_verbosity(None), None);
    assert!(!load_potter_yolo_enabled(None));
    assert!(!load_potter_yolo_enabled_from_path(None));
    assert!(load_potter_yolo_enabled_from_path(Some("yolo = true\n")));
    assert!(!load_potter_yolo_enabled_from_path(Some("yolo = \"true\"\n")));
}

#[test]
fn fallback_text_is_laid_out_exactly() {
    assert_eq!(append_tui_fallback("", Verbosity::Minimal), "\n[tui]\nverbosity = \"minimal\"\n");
    assert_eq!(append_tui_fallback("x", Verbosity::Simple), "x\n\n[tui]\nverbosity = \"simple\"\n");
    assert_eq!(append_yolo_fallback("", true), "yolo = true\n");
    assert_eq!(append_yolo_fallback("x", false), "x\n\nyolo = false\n");
    assert_eq!(append_yolo_fallback("x\n\n", false), "x\n\nyolo = false\n");
    assert_eq!(append_yolo_fallback("x\n  [t]\ny", true), "x\n\nyolo = true\n  [t]\ny");
}

#[test]
fn fallback_reads_back_what_it_wrote() {
    for existing in ["", "x", "= [\n", "[a]\r\nb = [\n", "\r\n[tui]\n verbosity = 1", "a = \"\n\n\n[x"] {
        for verbosity in [Verbosity::Minimal, Verbosity::Simple] {
            let text = append_tui_fallback(existing, verbosity);
            assert_eq!(parse_tui_verbosity_fallback(&text), Some(verbosity), "{existing:?}");
        }
        for enabled in [true, false] {
            let text = append_yolo_fallback(existing, enabled);
            assert_eq!(parse_yolo_fallback(&text), Some(enabled), "{existing:?}");
        }
    }
}

#[test]
fn fallback_values_may_have_comments() {
    assert_eq!(parse_yolo_fallback("yolo = true # on\n= ["), Some(true));
    assert_eq!(parse_yolo_fallback("# yolo = true\n"), None);
    assert_eq!(
        parse_tui_verbosity_fallback("  [ tui ] x\n verbosity = \"\"normal\"\" extra # y\n"),
        Some(Verbosity::Simple)
    );
    assert_eq!(parse_tui_verbosity_fallback("[]\nverbosity = \"simple\"\n"), None);
}

#[test]
fn persisted_settings_replace_what_is_no_table() {
    let contents = persist_potter_tui_verbosity("tui = 1\nyolo = true\n", Verbosity::Simple);
    assert_eq!(load_potter_tui_verbosity(Some(&contents)), Some(Verbosity::Simple));
    assert!(load_potter_yolo_enabled(Some(&contents)));
}

#[test]
fn config_path_lies_below_home() {
    assert_eq!(
        potter_config_path(Some("/home/user")).expect("path"),
        "/home/user/.codexpotter/config.toml"
    );
    let err = potter_config_path(None).expect_err("no home");
    assert_eq!(err.kind, ErrorKind::NotFound);
    assert_eq!(err.message, "cannot determine home directory for config path");
}

#[test]
fn value_at_tui_gives_way_to_a_table() {
    let printed = persist_potter_tui_verbosity("tui = 3\nyolo = true\n", Verbosity::Simple);
    assert_eq!(load_potter_tui_verbosity(Some(&printed)), Some(Verbosity::Simple));
    assert!(load_potter_yolo_enabled(Some(&printed)));
    let printed = persist_potter_tui_verbosity("yolo = true\n\ntui = 3\n", Verbosity::Simple);
    assert_eq!(load_potter_tui_verbosity(Some(&printed)), Some(Verbosity::Simple));
    assert!(load_potter_yolo_enabled(Some(&printed)));
    let printed = persist_potter_tui_verbosity("a = [1, 2]\n[tui]\nb = 2.5\n", Verbosity::Minimal);
    assert!(printed.contains("a = [1, 2]") && printed.contains("b = 2.5"), "{printed}");
    assert!(!load_potter_yolo_enabled(Some(&printed)));
}

#[test]
fn older_place_of_yolo_is_cleared() {
    let printed = persist_potter_yolo_enabled("[potter]\nyolo = false\n\n[a]\nb = 1\n", true);
    assert!(!printed.contains("potter"), "{printed}");
    assert!(printed.contains("b = 1"), "{printed}");
    assert!(load_potter_yolo_enabled(Some(&printed)));
    let printed = persist_potter_yolo_enabled("[potter]\nyolo = true\nmarker = [1]\n", false);
    assert!(printed.contains("[potter]\nmarker = [1]\n"), "{printed}");
    assert_eq!(printed.matches("yolo").count(), 1, "{printed}");
    assert!(!load_potter_yolo_enabled(Some(&printed)));
}
