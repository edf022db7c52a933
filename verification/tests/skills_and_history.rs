use codex_potter_tui::files::FileText;
use codex_potter_tui::prompt_history_store::{
    history_line_text, load_history_entries, lock_step, needs_line_feed, plan_append, plan_repair,
    HistoryEntry, HistoryLine, HistoryOnDisk, HistoryWrite, LoadedHistory, LockOutcome, LockStep,
    PromptHistoryStore, MAX_ENTRIES,
};
use codex_potter_tui::skills_discovery::{
    default_project_root_markers, extract_frontmatter, find_project_root, interface_path,
    load_skills, on_entry, project_root_markers_from_configs,
    repo_dirs_between_project_root_and_cwd, skill_from_frontmatter, skill_interface, skill_roots,
    skill_roots_with_dirs, EntryKind, EntryStep, MarkersLayer, RepoDir, SkillField,
    SkillFrontmatter, SkillInterface, SkillMetadata, SkillParseError, SkillRoot, SkillScan,
    SkillScope, MAX_SCAN_DEPTH, MAX_SKILLS_DIRS_PER_ROOT,
};

fn texts(list: &[&str]) -> Vec<String> {
    list.iter().map(|text| text.to_string()).collect()
}

fn frontmatter(name: &str, description: &str, short: Option<&str>) -> SkillFrontmatter {
    SkillFrontmatter {
        name: name.to_string(),
        description: description.to_string(),
        short_description: short.map(|text| text.to_string()),
    }
}

#[test]
fn parses_frontmatter_name_description_and_short_description() {
    let contents = r#"---
name: my-skill
description: My test skill.
metadata:
  short-description: Short!
---

# Body
"#;
    let yaml = extract_frontmatter(contents).expect("frontmatter");
    assert_eq!(
        yaml,
        "name: my-skill\ndescription: My test skill.\nmetadata:\n  short-description: Short!\n"
    );
    let value: serde_yaml::Value = serde_yaml::from_str(&yaml).expect("yaml");
    let field = |key: &str| value.get(key).and_then(|v| v.as_str()).expect("field");
    let short = value
        .get("metadata")
        .and_then(|v| v.get("short-description"))
        .and_then(|v| v.as_str());
    let parsed = skill_from_frontmatter(
        Ok(frontmatter(field("name"), field("description"), short)),
        None,
        "/skills/my-skill/SKILL.md".to_string(),
        SkillScope::User,
    )
    .expect("parse");
    assert_eq!(parsed.name, "my-skill");
    assert_eq!(parsed.description, "My test skill.");
    assert_eq!(parsed.short_description.as_deref(), Some("Short!"));
    assert_eq!(parsed.scope, SkillScope::User);
}

#[test]
fn frontmatter_needs_two_rules() {
    assert_eq!(extract_frontmatter(""), None);
    assert_eq!(extract_frontmatter("name: x\n---\n"), None);
    assert_eq!(extract_frontmatter("---\nname: x\n"), None);
    assert_eq!(extract_frontmatter("---\r\nname: x\r\r\n---\r\n"), Some("name: x\n".to_string()));
    assert_eq!(extract_frontmatter("---\n---"), Some(String::new()));
}

#[test]
fn incomplete_skills_are_refused() {
    let parse = |parsed| {
        skill_from_frontmatter(parsed, None, "p".to_string(), SkillScope::Repo)
            .expect_err("no skill")
    };
    let err = parse(Ok(frontmatter("  ", "d", None)));
    assert!(matches!(err, SkillParseError::MissingField(SkillField::Name)));
    assert_eq!(err.message(), "missing field `name`");
    let err = parse(Ok(frontmatter("n", "\t", None)));
    assert_eq!(err.message(), "missing field `description`");
    let err = parse(Err("bad".to_string()));
    assert_eq!(err.message(), "invalid YAML: bad");
    assert_eq!(SkillParseError::Read("e".to_string()).message(), "failed to read file: e");
    assert_eq!(
        SkillParseError::MissingFrontmatter.message(),
        "missing YAML frontmatter delimited by ---"
    );
}

fn skill(name: &str, path: &str, scope: SkillScope) -> SkillMetadata {
    SkillMetadata {
        name: name.to_string(),
        description: "d".to_string(),
        short_description: None,
        interface: None,
        path: path.to_string(),
        scope,
    }
}

#[test]
fn skills_show_what_their_interface_says() {
    let mut shown = skill("n", "p", SkillScope::User);
    assert_eq!(shown.display_name(), "n");
    assert_eq!(shown.display_description(), "d");
    shown.short_description = Some("s".to_string());
    assert_eq!(shown.display_description(), "s");
    shown.interface = skill_interface(&Some(" I ".to_string()), &Some("  ".to_string()));
    assert_eq!(shown.display_name(), "I");
    assert_eq!(shown.display_description(), "s");
    shown.interface = Some(SkillInterface {
        display_name: None,
        short_description: Some("i".to_string()),
    });
    assert_eq!(shown.display_name(), "n");
    assert_eq!(shown.display_description(), "i");
    assert!(skill_interface(&None, &Some("  ".to_string())).is_none());
    assert_eq!(interface_path("/s"), "/s/agents/openai.yaml");
}

fn repo_dir(path: &str, has_codex_skills: bool, has_agents_skills: bool) -> RepoDir {
    RepoDir { path: path.to_string(), has_codex_skills, has_agents_skills }
}

fn paths(roots: &[SkillRoot]) -> Vec<(String, SkillScope, bool)> {
    roots.iter().map(|root| (root.path.clone(), root.scope, root.follow_symlinks)).collect()
}

#[test]
fn discovers_user_skills_from_home_agents_dir() {
    let dirs = vec![repo_dir("/repo/cwd", false, false), repo_dir("/repo", false, false)];
    let roots = skill_roots_with_dirs(&dirs, None, Some("/home"));
    assert_eq!(
        paths(&roots),
        vec![("/home/.agents/skills".to_string(), SkillScope::User, true)]
    );
}

#[test]
fn discovers_repo_skills_from_repo_agents_dir() {
    let ancestors = texts(&["/repo/dir_a/dir_b", "/repo/dir_a", "/repo", "/"]);
    let has_marker = vec![false, false, true, false];
    let dirs = repo_dirs_between_project_root_and_cwd(&ancestors, &has_marker, false);
    assert_eq!(dirs, texts(&["/repo/dir_a/dir_b", "/repo/dir_a", "/repo"]));
    let dirs = vec![
        repo_dir("/repo/dir_a/dir_b", false, false),
        repo_dir("/repo/dir_a", false, true),
        repo_dir("/repo", false, false),
    ];
    let roots = skill_roots_with_dirs(&dirs, None, None);
    assert_eq!(
        paths(&roots),
        vec![("/repo/dir_a/.agents/skills".to_string(), SkillScope::Repo, true)]
    );
}

#[test]
fn does_not_scan_ancestors_for_repo_skills_outside_git_repo() {
    let ancestors = texts(&["/parent/child", "/parent", "/"]);
    let dirs = repo_dirs_between_project_root_and_cwd(&ancestors, &vec![false; 3], false);
    assert_eq!(dirs, texts(&["/parent/child"]));
}

#[test]
fn configured_project_root_markers_allow_repo_agent_roots_without_git() {
    let ancestors = texts(&["/project/child", "/project", "/"]);
    let dirs =
        repo_dirs_between_project_root_and_cwd(&ancestors, &vec![false, true, false], false);
    assert_eq!(dirs, texts(&["/project/child", "/project"]));
}

#[test]
fn empty_project_root_markers_disable_repo_root_traversal() {
    let ancestors = texts(&["/repo/child", "/repo", "/"]);
    let dirs = repo_dirs_between_project_root_and_cwd(&ancestors, &vec![false, true, false], true);
    assert_eq!(dirs, texts(&["/repo/child"]));
    assert_eq!(find_project_root(&vec![false, true, true], false), 1);
}

fn layer(path: &str, contents: &str) -> Option<MarkersLayer> {
    Some(MarkersLayer {
        path: path.to_string(),
        file: FileText::Contents(contents.to_string()),
    })
}

#[test]
fn system_project_root_markers_are_used_when_present() {
    let found = project_root_markers_from_configs(
        layer("system-config.toml", "project_root_markers = [\"SYSTEM\"]\n"),
        None,
    );
    assert_eq!(found.markers, vec!["SYSTEM".to_string()]);
    assert_eq!(found.warning, None);
}

#[test]
fn user_project_root_markers_override_system_config() {
    let found = project_root_markers_from_configs(
        layer("system-config.toml", "project_root_markers = [\"SYSTEM\"]\n"),
        layer("codex-home/config.toml", "project_root_markers = [\"USER\"]\n"),
    );
    assert_eq!(found.markers, vec!["USER".to_string()]);
}

#[test]
fn wrong_markers_fall_back_to_the_default() {
    for (contents, reason) in [
        ("project_root_markers = 1\n", "must be an array of strings"),
        ("project_root_markers = [1]\n", "must be an array of strings"),
    ] {
        let found = project_root_markers_from_configs(
            layer("s", "project_root_markers = [\"SYSTEM\"]\n"),
            layer("u", contents),
        );
        assert_eq!(found.markers, default_project_root_markers());
        assert_eq!(
            found.warning,
            Some(format!("invalid project_root_markers: user config (u) {reason}"))
        );
    }
    let found = project_root_markers_from_configs(layer("s", "= ["), layer("u", " \n"));
    let warning = found.warning.expect("warning");
    assert!(
        warning.starts_with("invalid project_root_markers: system config (s) failed to parse TOML: "),
        "{warning}"
    );
    let unreadable =
        Some(MarkersLayer { path: "u".to_string(), file: FileText::Failed("e".to_string()) });
    assert_eq!(
        project_root_markers_from_configs(None, unreadable).warning.as_deref(),
        Some("invalid project_root_markers: user config (u) failed to read: e")
    );
    let missing = Some(MarkersLayer { path: "u".to_string(), file: FileText::Missing });
    let found = project_root_markers_from_configs(layer("s", "x = 1\n"), missing);
    assert_eq!(found.markers, vec![".git".to_string()]);
    assert_eq!(found.warning, None);
}

#[test]
fn discovers_admin_skills_from_injected_admin_root() {
    let roots = skill_roots(
        &vec![repo_dir("/repo", true, true)],
        Some("/codex"),
        Some("/home"),
        Some("/admin-skills".to_string()),
    );
    assert_eq!(
        paths(&roots),
        vec![
            ("/repo/.codex/skills".to_string(), SkillScope::Repo, true),
            ("/codex/skills/.system".to_string(), SkillScope::System, false),
            ("/codex/skills".to_string(), SkillScope::User, true),
            ("/home/.agents/skills".to_string(), SkillScope::User, true),
            ("/repo/.agents/skills".to_string(), SkillScope::Repo, true),
            ("/admin-skills".to_string(), SkillScope::Admin, true),
        ]
    );
}

#[test]
fn skills_are_listed_by_scope_name_and_path() {
    let found = vec![
        vec![skill("b", "/r/b", SkillScope::Repo), skill("z", "/x", SkillScope::Repo)],
        vec![
            skill("s", "/s", SkillScope::System),
            skill("u", "/u", SkillScope::User),
            skill("other", "/r/b", SkillScope::User),
        ],
        vec![
            skill("a", "/a", SkillScope::Admin),
            skill("b", "/r.b", SkillScope::Repo),
            skill("a", "/q", SkillScope::Repo),
        ],
    ];
    let listed: Vec<(String, String)> =
        load_skills(found).into_iter().map(|skill| (skill.name, skill.path)).collect();
    let expected: Vec<(String, String)> = [
        ("a", "/q"),
        ("b", "/r/b"),
        ("b", "/r.b"),
        ("z", "/x"),
        ("u", "/u"),
        ("s", "/s"),
        ("a", "/a"),
    ]
    .iter()
    .map(|(name, path)| (name.to_string(), path.to_string()))
    .collect();
    assert_eq!(listed, expected);
}

#[test]
fn entries_are_sorted_out() {
    for (name, kind, follow, step) in [
        (None, EntryKind::Dir, true, EntryStep::Skip),
        (Some(".git"), EntryKind::Dir, true, EntryStep::Skip),
        (Some("a"), EntryKind::Dir, false, EntryStep::EnterDir),
        (Some("a"), EntryKind::Symlink, false, EntryStep::Skip),
        (Some("a"), EntryKind::Symlink, true, EntryStep::FollowLink),
        (Some("SKILL.md"), EntryKind::Symlink, true, EntryStep::FollowLink),
        (Some("SKILL.md"), EntryKind::File, true, EntryStep::ReadSkill),
        (Some("skill.md"), EntryKind::File, true, EntryStep::Skip),
        (Some("SKILL.md"), EntryKind::Other, true, EntryStep::Skip),
    ] {
        assert_eq!(on_entry(name, kind, follow), step, "{name:?} {kind:?} {follow}");
    }
}

#[test]
fn scans_go_breadth_first_and_never_twice() {
    let mut scan = SkillScan::new("/root");
    let root = scan.next_dir().expect("root");
    assert_eq!((root.path.as_str(), root.depth), ("/root", 0));
    scan.enqueue_dir("/root/a", 1);
    scan.enqueue_dir("/root/b", 1);
    scan.enqueue_dir("/root/a", 1);
    scan.enqueue_dir("/root", 2);
    let first = scan.next_dir().expect("first");
    assert_eq!(first.path, "/root/a");
    scan.enqueue_dir("/root/a/x", 2);
    scan.enqueue_dir("/deep", MAX_SCAN_DEPTH + 1);
    assert_eq!(scan.next_dir().expect("second").path, "/root/b");
    assert_eq!(scan.next_dir().expect("third").path, "/root/a/x");
    assert!(scan.next_dir().is_none());
    assert!(!scan.is_truncated());
}

#[test]
fn scans_stop_at_the_limit() {
    let mut scan = SkillScan::new("/root");
    for i in 0..MAX_SKILLS_DIRS_PER_ROOT + 5 {
        scan.enqueue_dir(&format!("/root/{i}"), 1);
    }
    assert!(scan.is_truncated());
    let mut count = 0;
    while scan.next_dir().is_some() {
        count += 1;
    }
    assert_eq!(count, MAX_SKILLS_DIRS_PER_ROOT);
}

/// A history file, as the lines that it holds.
struct Disk {
    lines: Vec<String>,
}

impl Disk {
    fn load(&self) -> LoadedHistory {
        let lines = self
            .lines
            .iter()
            .map(|line| match history_line_text(line) {
                None => HistoryLine::Blank,
                Some(text) => match text.split_once(' ') {
                    Some((ts, text)) => HistoryLine::Entry(HistoryEntry {
                        ts: ts.parse().expect("seconds"),
                        text: text.to_string(),
                    }),
                    None => HistoryLine::Unreadable,
                },
            })
            .collect();
        load_history_entries(lines)
    }

    fn note(entry: &HistoryEntry) -> String {
        format!("{} {}", entry.ts, entry.text)
    }

    fn apply(&mut self, write: HistoryWrite) {
        match write {
            HistoryWrite::Nothing => {}
            HistoryWrite::Append(entry) => self.lines.push(Self::note(&entry)),
            HistoryWrite::Rewrite(entries) => {
                self.lines = entries.iter().map(Self::note).collect()
            }
        }
    }

    fn record(&mut self, store: &mut PromptHistoryStore, text: &str) {
        if let Some(text) = store.record_submission(text, 7) {
            let write = plan_append(self.load(), 7, &text);
            self.apply(write);
        }
    }

    fn recorded(&self) -> Vec<String> {
        self.load().entries.into_iter().map(|entry| entry.text).collect()
    }

    fn look(&self) -> HistoryOnDisk {
        HistoryOnDisk::Loaded(Some(42), self.load())
    }
}

fn file_store() -> PromptHistoryStore {
    PromptHistoryStore::new_with_path(Some("/h/history.jsonl".to_string()))
}

#[test]
fn record_submission_dedupes_consecutive() {
    let mut disk = Disk { lines: Vec::new() };
    let mut store = file_store();
    for text in ["", "hello", "hello", "world"] {
        disk.record(&mut store, text);
    }
    assert_eq!(disk.lines.len(), 2);
    assert_eq!(disk.recorded(), vec!["hello", "world"]);
}

#[test]
fn persists_and_truncates_to_max_entries() {
    let mut disk = Disk { lines: Vec::new() };
    let mut store = file_store();
    for idx in 0..(MAX_ENTRIES + 10) {
        disk.record(&mut store, &format!("cmd {idx}"));
    }
    assert_eq!(disk.lines.len(), MAX_ENTRIES);
    let recorded = disk.recorded();
    assert_eq!(recorded.first().expect("first"), "cmd 10");
    assert_eq!(recorded.last().expect("last"), &format!("cmd {}", MAX_ENTRIES + 9));
}

#[test]
fn multi_process_writers_do_not_clobber_each_other() {
    let mut disk = Disk { lines: Vec::new() };
    let (mut store_one, mut store_two) = (file_store(), file_store());
    disk.record(&mut store_one, "first");
    disk.record(&mut store_two, "second");
    assert_eq!(disk.recorded(), vec!["first", "second"]);
}

#[test]
fn dedupe_checks_latest_on_disk_entry() {
    let mut disk = Disk { lines: Vec::new() };
    let (mut store_one, mut store_two) = (file_store(), file_store());
    disk.record(&mut store_one, "alpha");
    disk.record(&mut store_two, "beta");
    disk.record(&mut store_one, "alpha");
    assert_eq!(disk.recorded(), vec!["alpha", "beta", "alpha"]);
}

#[test]
fn lookup_text_reads_persisted_entries() {
    let mut disk = Disk { lines: Vec::new() };
    let mut store = file_store();
    disk.record(&mut store, "one");
    disk.record(&mut store, "two");
    let (log_id, entry_count) = store.metadata(&disk.look());
    assert_eq!(entry_count, 2);
    assert_eq!(store.lookup_text(log_id, 0, &disk.look()), Some("one".to_string()));
    assert_eq!(store.lookup_text(log_id, 1, &disk.look()), Some("two".to_string()));
    assert_eq!(store.lookup_text(log_id, 2, &disk.look()), None);
    assert_eq!(store.lookup_text(log_id + 1, 0, &disk.look()), None);
    assert_eq!(store.lookup_text(0, 0, &disk.look()), None);
    assert_eq!(store.metadata(&HistoryOnDisk::Missing), (0, 0));
    assert_eq!(store.lookup_text(0, 0, &HistoryOnDisk::Failed), None);
}

#[test]
fn histories_in_memory_keep_the_newest_entries() {
    let mut store = PromptHistoryStore::new_with_path(None);
    let nothing = HistoryOnDisk::Missing;
    for idx in 0..(MAX_ENTRIES + 2) {
        assert_eq!(store.record_submission(&format!("  cmd {idx}\n"), 1), None);
        store.record_submission(&format!("cmd {idx}"), 2);
    }
    store.record_submission("   ", 3);
    assert_eq!(store.metadata(&nothing), (0, MAX_ENTRIES));
    assert_eq!(store.lookup_text(0, 0, &nothing), Some("cmd 2".to_string()));
    assert_eq!(store.lookup_text(0, MAX_ENTRIES, &nothing), None);
    assert_eq!(store.lookup_text(5, 0, &nothing), None);
}

#[test]
fn damaged_histories_are_rewritten() {
    let mut disk = Disk { lines: texts(&["1 a", "", "broken", "2 b", "3 "]) };
    let loaded = disk.load();
    assert!(loaded.should_rewrite);
    let write = plan_repair(loaded);
    disk.apply(write);
    assert_eq!(disk.lines, texts(&["1 a", "2 b"]));
    assert!(matches!(plan_repair(disk.load()), HistoryWrite::Nothing));
    let mut damaged = Disk { lines: texts(&["1 a", ""]) };
    damaged.record(&mut file_store(), "c");
    assert_eq!(damaged.lines, texts(&["1 a", "7 c"]));
}

#[test]
fn lines_are_ended_before_another_is_added() {
    assert!(!needs_line_feed(None));
    assert!(!needs_line_feed(Some(b'\n')));
    assert!(needs_line_feed(Some(b'x')));
    assert_eq!(lock_step(LockOutcome::Taken, 99), LockStep::Go);
    assert_eq!(lock_step(LockOutcome::Failed, 0), LockStep::Fail);
    assert_eq!(lock_step(LockOutcome::Busy, 8), LockStep::Retry);
    assert_eq!(lock_step(LockOutcome::Busy, 9), LockStep::GiveUp);
}
