//! Finding skills on disk.
//!
//! The module decides which directories are scanned, which entries of a
//! directory matter, what makes a skill, and in which order skills are listed.
//! Reading directories and files stays around it.

use vstd::prelude::*;

use crate::files::{FileText, FileTextV};
use crate::history_cell::opt_str;
use crate::paths::{
    is_path_before, is_text_before, join, joined, lemma_path_before_total,
    lemma_path_before_transitive, lemma_text_before_total, lemma_text_before_transitive,
    path_before, text_before,
};
use crate::reasoning_status::opt_text;
use crate::text;
use crate::toml_doc::{
    array_strings, doc_entries, entry_of, parse_toml, strings_of, toml_parse, TomlV,
};

verus! {

/// The file that makes a directory a skill.
pub const SKILL_FILENAME: &'static str = "SKILL.md";

/// The key under which a configuration names the markers of a project root.
pub const PROJECT_ROOT_MARKERS_KEY: &'static str = "project_root_markers";

/// How deep below a root directories are scanned.
pub const MAX_SCAN_DEPTH: usize = 6;

/// How many directories are scanned below one root.
pub const MAX_SKILLS_DIRS_PER_ROOT: usize = 2000;

/// Where a skill comes from.
#[derive(Clone, Copy, PartialEq, Eq, Structural, Hash, Debug)]
pub enum SkillScope {
    Repo,
    User,
    System,
    Admin,
}

/// How a skill presents itself.
#[derive(Debug)]
pub struct SkillInterface {
    pub display_name: Option<String>,
    pub short_description: Option<String>,
}

/// A skill.
#[derive(Debug)]
pub struct SkillMetadata {
    pub name: String,
    pub description: String,
    pub short_description: Option<String>,
    pub interface: Option<SkillInterface>,
    pub path: String,
    pub scope: SkillScope,
}

impl SkillMetadata {
    /// The name that is shown: that of the interface, where it has one.
    pub open spec fn display_name_v(&self) -> Seq<char> {
        match self.interface {
            Some(i) => match i.display_name {
                Some(n) => n@,
                None => self.name@,
            },
            None => self.name@,
        }
    }

    /// The name that is shown: that of the interface, where it has one.
    pub fn display_name(&self) -> (r: &str)
        ensures
            r@ == self.display_name_v(),
    {
        match &self.interface {
            Some(i) => match &i.display_name {
                Some(n) => n.as_str(),
                None => self.name.as_str(),
            },
            None => self.name.as_str(),
        }
    }

    /// The description that is shown: the short one of the interface, else the
    /// short one of the skill, else the full one.
    pub open spec fn display_description_v(&self) -> Seq<char> {
        let own = match self.short_description {
            Some(s) => s@,
            None => self.description@,
        };
        match self.interface {
            Some(i) => match i.short_description {
                Some(s) => s@,
                None => own,
            },
            None => own,
        }
    }

    /// The description that is shown.
    pub fn display_description(&self) -> (r: &str)
        ensures
            r@ == self.display_description_v(),
    {
        if let Some(i) = &self.interface {
            if let Some(s) = &i.short_description {
                return s.as_str();
            }
        }
        match &self.short_description {
            Some(s) => s.as_str(),
            None => self.description.as_str(),
        }
    }
}

/// A directory that holds skills.
#[derive(Debug)]
pub struct SkillRoot {
    pub path: String,
    pub scope: SkillScope,
    pub follow_symlinks: bool,
}

/// What a [`SkillRoot`] is.
#[verifier::ext_equal]
pub struct RootV {
    pub path: Seq<char>,
    pub scope: SkillScope,
    pub follow_symlinks: bool,
}

impl View for SkillRoot {
    type V = RootV;

    open spec fn view(&self) -> RootV {
        RootV { path: self.path@, scope: self.scope, follow_symlinks: self.follow_symlinks }
    }
}

/// What the roots of `roots` are.
pub open spec fn roots_view(roots: Seq<SkillRoot>) -> Seq<RootV> {
    roots.map_values(|r: SkillRoot| r@)
}

/// A directory between the working directory and the project root.
#[derive(Debug)]
pub struct RepoDir {
    pub path: String,
    /// Whether `.codex/skills` below it is a directory.
    pub has_codex_skills: bool,
    /// Whether `.agents/skills` below it is a directory.
    pub has_agents_skills: bool,
}

/// Whether the ancestor at `i` is the first that holds a marker.
pub open spec fn is_root_position(has_marker: Seq<bool>, i: int) -> bool {
    &&& 0 <= i < has_marker.len()
    &&& has_marker[i]
    &&& forall|k: int| 0 <= k < i ==> !has_marker[k]
}

/// The position of the project root among the ancestors of the working
/// directory, of which the first is that directory itself: the first ancestor
/// that holds a marker, or the working directory where none does or there are
/// no markers.
pub open spec fn root_position(has_marker: Seq<bool>, markers_empty: bool) -> int {
    if markers_empty || !(exists|i: int| is_root_position(has_marker, i)) {
        0
    } else {
        choose|i: int| is_root_position(has_marker, i)
    }
}

/// The position of the project root among the ancestors of the working directory.
pub fn find_project_root(has_marker: &Vec<bool>, markers_empty: bool) -> (r: usize)
    ensures
        r == root_position(has_marker@, markers_empty),
        r < has_marker@.len() || r == 0,
{
    if markers_empty {
        return 0;
    }
    let mut i: usize = 0;
    while i < has_marker.len()
        invariant
            i <= has_marker@.len(),
            !markers_empty,
            forall|k: int| 0 <= k < i ==> !has_marker@[k],
        decreases has_marker@.len() - i,
    {
        if has_marker[i] {
            proof {
                assert(is_root_position(has_marker@, i as int));
                let c = root_position(has_marker@, markers_empty);
                assert(is_root_position(has_marker@, c));
                if c < i {
                    assert(!has_marker@[c]);
                } else if i < c {
                    assert(!has_marker@[i as int]);
                }
            }
            return i;
        }
        i += 1;
    }
    0
}

/// The directories from the working directory up to the project root, closest to
/// the working directory first. `ancestors` are the working directory and what
/// it lies in; `has_marker` says which of them hold a marker.
pub fn repo_dirs_between_project_root_and_cwd(
    ancestors: &Vec<String>,
    has_marker: &Vec<bool>,
    markers_empty: bool,
) -> (r: Vec<String>)
    requires
        ancestors@.len() == has_marker@.len(),
        ancestors@.len() > 0,
    ensures
        text::texts(r@) == text::texts(ancestors@).take(
            root_position(has_marker@, markers_empty) + 1,
        ),
{
    let root: usize = find_project_root(has_marker, markers_empty);
    let count: usize = ancestors.len();
    let mut dirs: Vec<String> = Vec::new();
    let mut i: usize = 0;
    assert(text::texts(dirs@) =~= text::texts(ancestors@).take(0));
    while i <= root
        invariant
            i <= root + 1,
            root < count,
            count == ancestors@.len(),
            text::texts(dirs@) == text::texts(ancestors@).take(i as int),
        decreases root + 1 - i,
    {
        let ghost before = text::texts(dirs@);
        dirs.push(ancestors[i].clone());
        assert(text::texts(dirs@) =~= before.push(ancestors@[i as int]@));
        assert(text::texts(dirs@) =~= text::texts(ancestors@).take(i + 1));
        i += 1;
    }
    dirs
}

/// The roots of `.codex/skills` in the repository, closest to the working
/// directory first.
pub open spec fn codex_repo_roots(dirs: Seq<RepoDir>) -> Seq<RootV>
    decreases dirs.len(),
{
    if dirs.len() == 0 {
        seq![]
    } else {
        let before = codex_repo_roots(dirs.drop_last());
        if dirs.last().has_codex_skills {
            before.push(
                RootV {
                    path: joined(joined(dirs.last().path@, ".codex"@), "skills"@),
                    scope: SkillScope::Repo,
                    follow_symlinks: true,
                },
            )
        } else {
            before
        }
    }
}

/// The roots of `.agents/skills` in the repository, closest to the project root
/// first.
pub open spec fn agents_repo_roots(dirs: Seq<RepoDir>) -> Seq<RootV>
    decreases dirs.len(),
{
    if dirs.len() == 0 {
        seq![]
    } else {
        (if dirs.last().has_agents_skills {
            seq![
                RootV {
                    path: joined(joined(dirs.last().path@, ".agents"@), "skills"@),
                    scope: SkillScope::Repo,
                    follow_symlinks: true,
                },
            ]
        } else {
            seq![]
        }) + agents_repo_roots(dirs.drop_last())
    }
}

/// The roots below the Codex home: the skills that come with the system, which
/// are not followed through links, and those of the user.
pub open spec fn home_roots(codex_home: Option<Seq<char>>) -> Seq<RootV> {
    match codex_home {
        Some(home) => {
            let user = joined(home, "skills"@);
            seq![
                RootV {
                    path: joined(user, ".system"@),
                    scope: SkillScope::System,
                    follow_symlinks: false,
                },
                RootV { path: user, scope: SkillScope::User, follow_symlinks: true },
            ]
        },
        None => seq![],
    }
}

/// The root below the home directory of the user.
pub open spec fn agents_home_roots(home_dir: Option<Seq<char>>) -> Seq<RootV> {
    match home_dir {
        Some(home) => seq![
            RootV {
                path: joined(joined(home, ".agents"@), "skills"@),
                scope: SkillScope::User,
                follow_symlinks: true,
            },
        ],
        None => seq![],
    }
}

/// The roots that are scanned, in order.
pub open spec fn all_roots(
    dirs: Seq<RepoDir>,
    codex_home: Option<Seq<char>>,
    home_dir: Option<Seq<char>>,
) -> Seq<RootV> {
    codex_repo_roots(dirs) + home_roots(codex_home) + agents_home_roots(home_dir)
        + agents_repo_roots(dirs)
}

fn push_root(roots: &mut Vec<SkillRoot>, path: String, scope: SkillScope, follow_symlinks: bool)
    ensures
        roots_view(final(roots)@) == roots_view(old(roots)@).push(
            RootV { path: path@, scope, follow_symlinks },
        ),
{
    roots.push(SkillRoot { path, scope, follow_symlinks });
    assert(roots_view(roots@) =~= roots_view(old(roots)@).push(
        RootV { path: path@, scope, follow_symlinks },
    ));
}

/// The roots that are scanned, in order. `repo_dirs` are the directories from
/// the working directory up to the project root.
pub fn skill_roots_with_dirs(
    repo_dirs: &Vec<RepoDir>,
    codex_home: Option<&str>,
    home_dir: Option<&str>,
) -> (r: Vec<SkillRoot>)
    ensures
        roots_view(r@) == all_roots(repo_dirs@, opt_str(codex_home), opt_str(home_dir)),
{
    let mut roots: Vec<SkillRoot> = Vec::new();
    assert(roots_view(roots@) =~= seq![]);
    let mut i: usize = 0;
    assert(repo_dirs@.take(0) =~= seq![]);
    while i < repo_dirs.len()
        invariant
            i <= repo_dirs@.len(),
            roots_view(roots@) == codex_repo_roots(repo_dirs@.take(i as int)),
        decreases repo_dirs@.len() - i,
    {
        proof {
            let upto = repo_dirs@.take(i + 1);
            assert(upto.drop_last() =~= repo_dirs@.take(i as int));
        }
        if repo_dirs[i].has_codex_skills {
            let codex = join(repo_dirs[i].path.as_str(), ".codex");
            push_root(&mut roots, join(codex.as_str(), "skills"), SkillScope::Repo, true);
        }
        i += 1;
    }
    assert(repo_dirs@.take(i as int) =~= repo_dirs@);
    let ghost repo = roots_view(roots@);
    if let Some(home) = codex_home {
        let user_skills = join(home, "skills");
        push_root(&mut roots, join(user_skills.as_str(), ".system"), SkillScope::System, false);
        push_root(&mut roots, user_skills, SkillScope::User, true);
    }
    assert(roots_view(roots@) =~= repo + home_roots(opt_str(codex_home)));
    if let Some(home) = home_dir {
        let agents = join(home, ".agents");
        push_root(&mut roots, join(agents.as_str(), "skills"), SkillScope::User, true);
    }
    let ghost front = repo + home_roots(opt_str(codex_home)) + agents_home_roots(
        opt_str(home_dir),
    );
    assert(roots_view(roots@) =~= front);
    let mut left: usize = repo_dirs.len();
    let ghost tail = agents_repo_roots(repo_dirs@);
    assert(repo_dirs@.take(left as int) =~= repo_dirs@);
    while left > 0
        invariant
            left <= repo_dirs@.len(),
            roots_view(roots@) + agents_repo_roots(repo_dirs@.take(left as int)) == front + tail,
        decreases left,
    {
        left -= 1;
        let ghost upto = repo_dirs@.take(left + 1);
        assert(upto.drop_last() =~= repo_dirs@.take(left as int));
        let ghost before = roots_view(roots@);
        if repo_dirs[left].has_agents_skills {
            let agents = join(repo_dirs[left].path.as_str(), ".agents");
            push_root(&mut roots, join(agents.as_str(), "skills"), SkillScope::Repo, true);
        }
        assert(roots_view(roots@) + agents_repo_roots(repo_dirs@.take(left as int)) =~= before
            + agents_repo_roots(upto));
    }
    assert(repo_dirs@.take(0) =~= seq![]);
    assert(roots_view(roots@) =~= front + tail);
    roots
}

/// What an entry of a directory is.
#[derive(Clone, Copy, PartialEq, Eq, Structural, Debug)]
pub enum EntryKind {
    File,
    Dir,
    Symlink,
    Other,
}

/// What to do with an entry of a directory.
#[derive(Clone, Copy, PartialEq, Eq, Structural, Debug)]
pub enum EntryStep {
    Skip,
    /// Resolve the link, and scan what it leads to where that is a directory.
    FollowLink,
    /// Resolve the directory and scan it.
    EnterDir,
    /// Read the skill.
    ReadSkill,
}

/// What to do with the entry `name`. Entries without a readable name and hidden
/// entries do not matter, nor do links where they are not followed.
pub open spec fn entry_step(
    name: Option<Seq<char>>,
    kind: EntryKind,
    follow_symlinks: bool,
) -> EntryStep {
    match name {
        None => EntryStep::Skip,
        Some(n) => if n.len() > 0 && n[0] == '.' {
            EntryStep::Skip
        } else {
            match kind {
                EntryKind::Symlink => if follow_symlinks {
                    EntryStep::FollowLink
                } else {
                    EntryStep::Skip
                },
                EntryKind::Dir => EntryStep::EnterDir,
                EntryKind::File => if n == SKILL_FILENAME@ {
                    EntryStep::ReadSkill
                } else {
                    EntryStep::Skip
                },
                EntryKind::Other => EntryStep::Skip,
            }
        },
    }
}

/// Decides what to do with an entry of a directory.
pub fn on_entry(name: Option<&str>, kind: EntryKind, follow_symlinks: bool) -> (r: EntryStep)
    ensures
        r == entry_step(opt_str(name), kind, follow_symlinks),
{
    match name {
        None => EntryStep::Skip,
        Some(n) => {
            if !n.is_empty() && n.get_char(0) == '.' {
                return EntryStep::Skip;
            }
            match kind {
                EntryKind::Symlink => if follow_symlinks {
                    EntryStep::FollowLink
                } else {
                    EntryStep::Skip
                },
                EntryKind::Dir => EntryStep::EnterDir,
                EntryKind::File => if text::same(n, SKILL_FILENAME) {
                    EntryStep::ReadSkill
                } else {
                    EntryStep::Skip
                },
                EntryKind::Other => EntryStep::Skip,
            }
        },
    }
}

/// A directory that waits to be scanned, and how deep below the root it is.
#[derive(Debug)]
pub struct PendingDir {
    pub path: String,
    pub depth: usize,
}

/// A scan of the directories below a root, breadth first.
#[derive(Debug)]
pub struct SkillScan {
    queue: Vec<PendingDir>,
    visited: Vec<String>,
    truncated_by_dir_limit: bool,
}

/// The state of a [`SkillScan`].
#[verifier::ext_equal]
pub struct ScanState {
    /// The directories that wait, in the order in which they are scanned.
    pub queue: Seq<(Seq<char>, nat)>,
    /// The directories that were found so far, in order.
    pub visited: Seq<Seq<char>>,
    /// Whether directories were left out because there were too many.
    pub truncated: bool,
}

impl ScanState {
    /// The scan of the directories below `root`.
    pub open spec fn start(root: Seq<char>) -> ScanState {
        ScanState { queue: seq![(root, 0nat)], visited: seq![root], truncated: false }
    }

    /// No directory was found twice or is too deep, there are not too many, and
    /// what waits was found.
    pub open spec fn wf(self) -> bool {
        &&& self.visited.no_duplicates()
        &&& 0 < self.visited.len() <= MAX_SKILLS_DIRS_PER_ROOT
        &&& self.queue.len() <= self.visited.len()
        &&& forall|i: int|
            0 <= i < self.queue.len() ==> (#[trigger] self.queue[i]).1 <= MAX_SCAN_DEPTH
                && self.visited.contains(self.queue[i].0)
    }

    /// The scan after the directory `path` was found at `depth`: it waits where it
    /// is new, not too deep, and not one too many.
    pub open spec fn found(self, path: Seq<char>, depth: nat) -> ScanState {
        if depth > MAX_SCAN_DEPTH {
            self
        } else if self.visited.len() >= MAX_SKILLS_DIRS_PER_ROOT {
            ScanState { truncated: true, ..self }
        } else if self.visited.contains(path) {
            self
        } else {
            ScanState {
                queue: self.queue.push((path, depth)),
                visited: self.visited.push(path),
                ..self
            }
        }
    }

    /// How many more directories the scan can take at most.
    pub open spec fn budget(self) -> int {
        self.queue.len() + (MAX_SKILLS_DIRS_PER_ROOT - self.visited.len())
    }
}

impl View for SkillScan {
    type V = ScanState;

    closed spec fn view(&self) -> ScanState {
        ScanState {
            queue: self.queue@.map_values(|d: PendingDir| (d.path@, d.depth as nat)),
            visited: text::texts(self.visited@),
            truncated: self.truncated_by_dir_limit,
        }
    }
}

/// Whether `path` is one of `list`.
fn contains_path(list: &Vec<String>, path: &str) -> (b: bool)
    ensures
        b == text::texts(list@).contains(path@),
{
    let ghost texts = text::texts(list@);
    let mut i: usize = 0;
    while i < list.len()
        invariant
            i <= list@.len(),
            texts == text::texts(list@),
            forall|k: int| 0 <= k < i ==> texts[k] != path@,
        decreases list@.len() - i,
    {
        if text::same(list[i].as_str(), path) {
            assert(texts[i as int] == path@);
            return true;
        }
        i += 1;
    }
    false
}

impl SkillScan {
    /// Starts a scan at the resolved directory `root`.
    pub fn new(root: &str) -> (r: Self)
        ensures
            r@ == ScanState::start(root@),
            r@.wf(),
    {
        let mut queue: Vec<PendingDir> = Vec::new();
        queue.push(PendingDir { path: root.to_string(), depth: 0 });
        let mut visited: Vec<String> = Vec::new();
        visited.push(root.to_string());
        let r = SkillScan { queue, visited, truncated_by_dir_limit: false };
        assert(r@ =~= ScanState::start(root@));
        assert(r@.visited.contains(r@.visited[0]));
        r
    }

    /// The next directory to scan, and how deep below the root it is.
    pub fn next_dir(&mut self) -> (r: Option<PendingDir>)
        requires
            old(self)@.wf(),
        ensures
            final(self)@.wf(),
            match r {
                Some(dir) => {
                    &&& old(self)@.queue.len() > 0
                    &&& (dir.path@, dir.depth as nat) == old(self)@.queue[0]
                    &&& final(self)@ == (ScanState {
                        queue: old(self)@.queue.drop_first(),
                        ..old(self)@
                    })
                    &&& final(self)@.budget() == old(self)@.budget() - 1
                },
                None => old(self)@.queue.len() == 0 && final(self)@ == old(self)@,
            },
    {
        if self.queue.len() == 0 {
            return None;
        }
        let ghost before = self@;
        let dir = self.queue.remove(0);
        proof {
            assert(self@.queue =~= before.queue.drop_first());
            assert(before.queue[0] == (dir.path@, dir.depth as nat));
            assert forall|i: int| 0 <= i < self@.queue.len() implies (#[trigger] self@.queue[i]).1
                <= MAX_SCAN_DEPTH && self@.visited.contains(self@.queue[i].0) by {
                assert(self@.queue[i] == before.queue[i + 1]);
            }
        }
        Some(dir)
    }

    /// Takes in the resolved directory `path`, found at `depth` below the root.
    pub fn enqueue_dir(&mut self, path: &str, depth: usize)
        requires
            old(self)@.wf(),
        ensures
            final(self)@ == old(self)@.found(path@, depth as nat),
            final(self)@.wf(),
            final(self)@.budget() == old(self)@.budget(),
    {
        let ghost before = self@;
        if depth > MAX_SCAN_DEPTH {
            return;
        }
        if self.visited.len() >= MAX_SKILLS_DIRS_PER_ROOT {
            self.truncated_by_dir_limit = true;
            return;
        }
        if contains_path(&self.visited, path) {
            return;
        }
        self.visited.push(path.to_string());
        self.queue.push(PendingDir { path: path.to_string(), depth });
        proof {
            assert(self@.visited =~= before.visited.push(path@));
            assert(self@.queue =~= before.queue.push((path@, depth as nat)));
            assert forall|i: int| 0 <= i < self@.queue.len() implies (#[trigger] self@.queue[i]).1
                <= MAX_SCAN_DEPTH && self@.visited.contains(self@.queue[i].0) by {
                if i < before.queue.len() {
                    assert(self@.queue[i] == before.queue[i]);
                    let k = choose|k: int|
                        0 <= k < before.visited.len() && before.visited[k] == before.queue[i].0;
                    assert(self@.visited[k] == before.queue[i].0);
                } else {
                    assert(self@.visited.last() == path@);
                }
            }
            assert(self@ =~= before.found(path@, depth as nat));
        }
    }

    /// Whether directories were left out because there were too many.
    pub fn is_truncated(&self) -> (b: bool)
        ensures
            b == self@.truncated,
    {
        self.truncated_by_dir_limit
    }
}

/// A scan ends: it starts with room for so many directories, and each directory
/// that it takes uses up one, whatever is found in between.
pub proof fn law_scan_is_bounded(root: Seq<char>)
    ensures
        ScanState::start(root).budget() == MAX_SKILLS_DIRS_PER_ROOT,
        forall|s: ScanState, path: Seq<char>, depth: nat|
            s.wf() ==> (#[trigger] s.found(path, depth)).budget() == s.budget(),
{
}

/// No directory is scanned twice: a directory that was found before never waits
/// again.
pub proof fn law_no_directory_is_scanned_twice(s: ScanState, path: Seq<char>, depth: nat)
    requires
        s.wf(),
        s.visited.contains(path),
    ensures
        s.found(path, depth).queue == s.queue,
        s.found(path, depth).visited == s.visited,
{
}

/// Where a scope comes in a list of skills.
pub open spec fn scope_rank_v(scope: SkillScope) -> int {
    match scope {
        SkillScope::Repo => 0,
        SkillScope::User => 1,
        SkillScope::System => 2,
        SkillScope::Admin => 3,
    }
}

fn scope_rank(scope: SkillScope) -> (r: u8)
    ensures
        r == scope_rank_v(scope),
{
    match scope {
        SkillScope::Repo => 0,
        SkillScope::User => 1,
        SkillScope::System => 2,
        SkillScope::Admin => 3,
    }
}

/// Whether `a` is listed before `b`: by scope, then by name, then by path.
pub open spec fn listed_before(a: SkillMetadata, b: SkillMetadata) -> bool {
    ||| scope_rank_v(a.scope) < scope_rank_v(b.scope)
    ||| a.scope == b.scope && text_before(a.name@, b.name@)
    ||| a.scope == b.scope && a.name@ == b.name@ && path_before(a.path@, b.path@)
}

fn is_listed_before(a: &SkillMetadata, b: &SkillMetadata) -> (r: bool)
    ensures
        r == listed_before(*a, *b),
{
    proof {
        lemma_text_before_total(a.name@, b.name@);
    }
    let rank_a: u8 = scope_rank(a.scope);
    let rank_b: u8 = scope_rank(b.scope);
    if rank_a != rank_b {
        return rank_a < rank_b;
    }
    if is_text_before(a.name.as_str(), b.name.as_str()) {
        return true;
    }
    if is_text_before(b.name.as_str(), a.name.as_str()) {
        return false;
    }
    is_path_before(a.path.as_str(), b.path.as_str())
}

proof fn lemma_listed_before_total(a: SkillMetadata, b: SkillMetadata)
    requires
        a.path@ != b.path@,
    ensures
        listed_before(a, b) != listed_before(b, a),
{
    lemma_text_before_total(a.name@, b.name@);
    lemma_path_before_total(a.path@, b.path@);
}

proof fn lemma_listed_before_transitive(a: SkillMetadata, b: SkillMetadata, c: SkillMetadata)
    requires
        listed_before(a, b),
        listed_before(b, c),
    ensures
        listed_before(a, c),
{
    if text_before(a.name@, b.name@) && text_before(b.name@, c.name@) {
        lemma_text_before_transitive(a.name@, b.name@, c.name@);
    }
    if path_before(a.path@, b.path@) && path_before(b.path@, c.path@) {
        lemma_path_before_transitive(a.path@, b.path@, c.path@);
    }
}

/// Whether a skill of `skills` has the path `path`.
pub open spec fn has_path(skills: Seq<SkillMetadata>, path: Seq<char>) -> bool {
    exists|i: int| 0 <= i < skills.len() && (#[trigger] skills[i]).path@ == path
}

/// The skills of `skills` without those whose path came before.
pub open spec fn first_by_path(skills: Seq<SkillMetadata>) -> Seq<SkillMetadata>
    decreases skills.len(),
{
    if skills.len() == 0 {
        seq![]
    } else {
        let before = first_by_path(skills.drop_last());
        if has_path(before, skills.last().path@) {
            before
        } else {
            before.push(skills.last())
        }
    }
}

/// Whether `skills` are in the order in which skills are listed.
pub open spec fn is_listed(skills: Seq<SkillMetadata>) -> bool {
    forall|i: int, j: int|
        0 <= i < j < skills.len() ==> listed_before(#[trigger] skills[i], #[trigger] skills[j])
}

fn skill_with_path(skills: &Vec<SkillMetadata>, path: &str) -> (b: bool)
    ensures
        b == has_path(skills@, path@),
{
    let mut i: usize = 0;
    while i < skills.len()
        invariant
            i <= skills@.len(),
            forall|k: int| 0 <= k < i ==> (#[trigger] skills@[k]).path@ != path@,
        decreases skills@.len() - i,
    {
        if text::same(skills[i].path.as_str(), path) {
            assert(skills@[i as int].path@ == path@);
            return true;
        }
        i += 1;
    }
    false
}

/// Keeps the first skill of every path.
fn keep_first_by_path(found: Vec<SkillMetadata>) -> (r: Vec<SkillMetadata>)
    ensures
        r@ == first_by_path(found@),
{
    let mut rest = found;
    let mut out: Vec<SkillMetadata> = Vec::new();
    let ghost mut taken: int = 0;
    assert(found@.take(0) =~= seq![]);
    assert(found@.skip(0) =~= found@);
    while rest.len() > 0
        invariant
            0 <= taken <= found@.len(),
            rest@ == found@.skip(taken),
            out@ == first_by_path(found@.take(taken)),
        decreases rest@.len(),
    {
        let skill = rest.remove(0);
        proof {
            let upto = found@.take(taken + 1);
            assert(upto.drop_last() =~= found@.take(taken));
            assert(upto.last() == skill);
            assert(rest@ =~= found@.skip(taken + 1));
            taken = taken + 1;
        }
        if !skill_with_path(&out, skill.path.as_str()) {
            out.push(skill);
        }
    }
    assert(found@.take(taken) =~= found@);
    out
}

proof fn lemma_same_paths(skills: Seq<SkillMetadata>, path: Seq<char>)
    ensures
        has_path(first_by_path(skills), path) == has_path(skills, path),
    decreases skills.len(),
{
    let all = first_by_path(skills);
    if skills.len() > 0 {
        let init = skills.drop_last();
        let last = skills.last();
        let before = first_by_path(init);
        lemma_same_paths(init, path);
        if has_path(init, path) {
            let i = choose|i: int| 0 <= i < init.len() && (#[trigger] init[i]).path@ == path;
            assert(skills[i].path@ == path);
            let k = choose|k: int| 0 <= k < before.len() && (#[trigger] before[k]).path@ == path;
            assert(all[k].path@ == path);
        } else if path == last.path@ {
            assert(skills[skills.len() - 1].path@ == path);
            assert(all[all.len() - 1].path@ == path);
        } else {
            if has_path(skills, path) {
                let i = choose|i: int|
                    0 <= i < skills.len() && (#[trigger] skills[i]).path@ == path;
                assert(init[i].path@ == path);
            }
            if has_path(all, path) {
                let k = choose|k: int| 0 <= k < all.len() && (#[trigger] all[k]).path@ == path;
                assert(before[k].path@ == path);
            }
        }
    }
}

proof fn lemma_paths_differ(skills: Seq<SkillMetadata>)
    ensures
        forall|i: int, j: int|
            0 <= i < j < first_by_path(skills).len() ==> (#[trigger] first_by_path(skills)[i]).path@
                != (#[trigger] first_by_path(skills)[j]).path@,
    decreases skills.len(),
{
    if skills.len() > 0 {
        let before = first_by_path(skills.drop_last());
        let all = first_by_path(skills);
        lemma_paths_differ(skills.drop_last());
        assert forall|i: int, j: int| 0 <= i < j < all.len() implies (#[trigger] all[i]).path@ != (
        #[trigger] all[j]).path@ by {
            assert(all[i] == before[i]);
            if j < before.len() {
                assert(all[j] == before[j]);
            }
        }
    }
}

proof fn lemma_first_is_kept(skills: Seq<SkillMetadata>, i: int)
    requires
        0 <= i < skills.len(),
        !has_path(skills.take(i), skills[i].path@),
    ensures
        first_by_path(skills).contains(skills[i]),
    decreases skills.len(),
{
    let init = skills.drop_last();
    let before = first_by_path(init);
    let all = first_by_path(skills);
    if i < init.len() {
        assert(init.take(i) =~= skills.take(i));
        lemma_first_is_kept(init, i);
        let k = choose|k: int| 0 <= k < before.len() && before[k] == init[i];
        assert(all[k] == skills[i]);
    } else {
        assert(skills.take(i) =~= init);
        lemma_same_paths(init, skills[i].path@);
        assert(all[all.len() - 1] == skills[i]);
    }
}

/// Every path is kept once, by the first skill that has it.
pub proof fn law_first_of_every_path_is_kept(skills: Seq<SkillMetadata>)
    ensures
        forall|path: Seq<char>|
            #[trigger] has_path(first_by_path(skills), path) == has_path(skills, path),
        forall|i: int, j: int|
            0 <= i < j < first_by_path(skills).len() ==> (#[trigger] first_by_path(skills)[i]).path@
                != (#[trigger] first_by_path(skills)[j]).path@,
        forall|i: int|
            0 <= i < skills.len() && !has_path(skills.take(i), skills[i].path@)
                ==> first_by_path(skills).contains(#[trigger] skills[i]),
{
    assert forall|path: Seq<char>| #[trigger]
        has_path(first_by_path(skills), path) == has_path(skills, path) by {
        lemma_same_paths(skills, path);
    }
    lemma_paths_differ(skills);
    assert forall|i: int|
        0 <= i < skills.len() && !has_path(
            skills.take(i),
            skills[i].path@,
        ) implies first_by_path(skills).contains(#[trigger] skills[i]) by {
        lemma_first_is_kept(skills, i);
    }
}

/// Puts the skills that were found into the order in which they are listed. Of
/// several skills with the same path, the first stays.
pub fn arrange_skills(found: Vec<SkillMetadata>) -> (r: Vec<SkillMetadata>)
    ensures
        is_listed(r@),
        r@.to_multiset() == first_by_path(found@).to_multiset(),
{
    let ghost kept = first_by_path(found@);
    proof {
        lemma_paths_differ(found@);
    }
    let mut rest = keep_first_by_path(found);
    let mut out: Vec<SkillMetadata> = Vec::new();
    let ghost mut taken: int = 0;
    assert(kept.take(0) =~= seq![]);
    assert(kept.skip(0) =~= kept);
    assert(out@ =~= kept.take(0));
    while rest.len() > 0
        invariant
            kept == first_by_path(found@),
            forall|i: int, j: int|
                0 <= i < j < kept.len() ==> (#[trigger] kept[i]).path@ != (#[trigger] kept[j]).path@,
            0 <= taken <= kept.len(),
            rest@ == kept.skip(taken),
            is_listed(out@),
            out@.to_multiset() == kept.take(taken).to_multiset(),
        decreases rest@.len(),
    {
        let ghost all = rest@;
        let skill = rest.remove(0);
        assert(skill == kept[taken]);
        proof {
            assert forall|k: int| 0 <= k < out@.len() implies (#[trigger] out@[k]).path@
                != skill.path@ by {
                assert(out@.contains(out@[k]));
                vstd::seq_lib::to_multiset_contains(out@, out@[k]);
                vstd::seq_lib::to_multiset_contains(kept.take(taken), out@[k]);
                let m = choose|m: int| 0 <= m < taken && kept.take(taken)[m] == out@[k];
                assert(kept[m] == out@[k]);
                assert(kept[m].path@ != kept[taken].path@);
            }
        }
        let mut at: usize = 0;
        while at < out.len() && is_listed_before(&out[at], &skill)
            invariant
                at <= out@.len(),
                forall|k: int| 0 <= k < at ==> listed_before(#[trigger] out@[k], skill),
            decreases out@.len() - at,
        {
            at += 1;
        }
        let ghost before = out@;
        out.insert(at, skill);
        proof {
            vstd::seq_lib::to_multiset_insert(before, at as int, skill);
            assert(kept.take(taken + 1) =~= kept.take(taken).push(skill));
            vstd::seq_lib::to_multiset_build(kept.take(taken), skill);
            assert(rest@ =~= kept.skip(taken + 1));
            assert forall|i: int, j: int| 0 <= i < j < out@.len() implies listed_before(
                #[trigger] out@[i],
                #[trigger] out@[j],
            ) by {
                if at < before.len() {
                    lemma_listed_before_total(before[at as int], skill);
                }
                if j == at {
                    assert(out@[i] == before[i]);
                } else if i == at {
                    assert(out@[j] == before[j - 1]);
                    if j - 1 != at {
                        lemma_listed_before_transitive(skill, before[at as int], before[j - 1]);
                    }
                } else if j < at {
                    assert(out@[i] == before[i] && out@[j] == before[j]);
                } else if i < at {
                    assert(out@[i] == before[i] && out@[j] == before[j - 1]);
                } else {
                    assert(out@[i] == before[i - 1] && out@[j] == before[j - 1]);
                }
            }
            taken = taken + 1;
        }
    }
    assert(kept.take(taken) =~= kept);
    out
}

/// `s` without trailing carriage returns.
pub open spec fn without_returns(s: Seq<char>) -> Seq<char>
    decreases s.len(),
{
    if s.len() > 0 && s.last() == '\r' {
        without_returns(s.drop_last())
    } else {
        s
    }
}

fn trim_returns(s: &str) -> (r: String)
    ensures
        r@ == without_returns(s@),
{
    let chars = text::chars_of(s);
    let mut end: usize = chars.len();
    assert(chars@.take(end as int) =~= s@);
    while end > 0 && chars[end - 1] == '\r'
        invariant
            end <= chars@.len(),
            without_returns(chars@.take(end as int)) == without_returns(s@),
        decreases end,
    {
        assert(chars@.take(end as int).drop_last() =~= chars@.take(end - 1));
        end -= 1;
    }
    let r = text::string_of_range(&chars, 0, end);
    assert(r@ =~= chars@.take(end as int));
    r
}

/// The lines of `lines` in front of the first that is `---`, each with a line
/// feed behind it; nothing where there is no such line.
pub open spec fn upto_rule(lines: Seq<Seq<char>>) -> Option<Seq<char>>
    decreases lines.len(),
{
    if lines.len() == 0 {
        None
    } else if without_returns(lines[0]) == "---"@ {
        Some(seq![])
    } else {
        match upto_rule(lines.drop_first()) {
            Some(rest) => Some(without_returns(lines[0]) + "\n"@ + rest),
            None => None,
        }
    }
}

/// The frontmatter of a text: what stands between a first line that is `---` and
/// the next such line.
pub open spec fn frontmatter_of(contents: Seq<char>) -> Option<Seq<char>> {
    let lines = text::lines(contents);
    if lines.len() > 0 && without_returns(lines[0]) == "---"@ {
        upto_rule(lines.drop_first())
    } else {
        None
    }
}

/// The frontmatter of `contents`.
pub fn extract_frontmatter(contents: &str) -> (r: Option<String>)
    ensures
        opt_text(r) == frontmatter_of(contents@),
{
    let lines = text::split_lines(contents);
    let ghost all = text::lines(contents@);
    if lines.len() == 0 {
        return None;
    }
    assert(all[0] == lines@[0]@);
    let first = trim_returns(lines[0].as_str());
    if !text::same(first.as_str(), "---") {
        return None;
    }
    let mut yaml = String::new();
    let ghost body = all.drop_first();
    let mut i: usize = 1;
    assert(body.skip(0) =~= body);
    assert(yaml@ =~= seq![]);
    proof {
        if let Some(t) = upto_rule(body) {
            assert(yaml@ + t =~= t);
        }
    }
    while i < lines.len()
        invariant
            1 <= i <= lines@.len(),
            all == text::texts(lines@),
            body == all.drop_first(),
            frontmatter_of(contents@) == upto_rule(body),
            match upto_rule(body.skip(i - 1)) {
                Some(t) => upto_rule(body) == Some(yaml@ + t),
                None => upto_rule(body) is None,
            },
        decreases lines@.len() - i,
    {
        let ghost rest = body.skip(i - 1);
        let trimmed = trim_returns(lines[i].as_str());
        assert(rest[0] == lines@[i as int]@);
        assert(rest.drop_first() =~= body.skip(i as int));
        if text::same(trimmed.as_str(), "---") {
            assert(yaml@ + Seq::<char>::empty() =~= yaml@);
            return Some(yaml);
        }
        let ghost before = yaml@;
        yaml.append(trimmed.as_str());
        yaml.append("\n");
        proof {
            if let Some(t) = upto_rule(rest.drop_first()) {
                assert(before + (trimmed@ + "\n"@ + t) =~= yaml@ + t);
            }
        }
        i += 1;
    }
    assert(body.skip(i - 1).len() == 0);
    None
}

/// A field that the frontmatter of a skill must have.
#[derive(Clone, Copy, PartialEq, Eq, Structural, Debug)]
pub enum SkillField {
    Name,
    Description,
}

/// Why a file is no skill.
#[derive(Debug)]
pub enum SkillParseError {
    /// The file could not be read; what the system says about it.
    Read(String),
    MissingFrontmatter,
    /// The frontmatter is no YAML of the expected form; what the reader says.
    InvalidYaml(String),
    /// A field is blank.
    MissingField(SkillField),
}

impl SkillParseError {
    /// What the error says.
    pub open spec fn message_v(&self) -> Seq<char> {
        match self {
            SkillParseError::Read(e) => "failed to read file: "@ + e@,
            SkillParseError::MissingFrontmatter => "missing YAML frontmatter delimited by ---"@,
            SkillParseError::InvalidYaml(e) => "invalid YAML: "@ + e@,
            SkillParseError::MissingField(SkillField::Name) => "missing field `name`"@,
            SkillParseError::MissingField(SkillField::Description) => "missing field `description`"@,
        }
    }

    /// What the error says.
    pub fn message(&self) -> (r: String)
        ensures
            r@ == self.message_v(),
    {
        match self {
            SkillParseError::Read(e) => text::concat("failed to read file: ", e.as_str()),
            SkillParseError::MissingFrontmatter => {
                "missing YAML frontmatter delimited by ---".to_string()
            },
            SkillParseError::InvalidYaml(e) => text::concat("invalid YAML: ", e.as_str()),
            SkillParseError::MissingField(SkillField::Name) => "missing field `name`".to_string(),
            SkillParseError::MissingField(SkillField::Description) => {
                "missing field `description`".to_string()
            },
        }
    }
}

/// The fields of the frontmatter of a skill.
#[derive(Debug)]
pub struct SkillFrontmatter {
    pub name: String,
    pub description: String,
    pub short_description: Option<String>,
}

/// A text without the whitespace around it, where anything is left.
pub open spec fn trimmed_text(s: Option<Seq<char>>) -> Option<Seq<char>> {
    match s {
        Some(t) => if text::trim(t).len() == 0 {
            None
        } else {
            Some(text::trim(t))
        },
        None => None,
    }
}

fn trimmed(s: &Option<String>) -> (r: Option<String>)
    ensures
        opt_text(r) == trimmed_text(opt_text(*s)),
{
    match s {
        Some(t) => {
            let kept = t.as_str().trim();
            if kept.is_empty() {
                assert(kept@.len() == 0);
                None
            } else {
                Some(kept.to_string())
            }
        },
        None => None,
    }
}

/// How a skill presents itself, given what its interface file says: nothing
/// where the file says nothing.
pub fn skill_interface(display_name: &Option<String>, short_description: &Option<String>) -> (r:
    Option<SkillInterface>)
    ensures
        r is None <==> trimmed_text(opt_text(*display_name)) is None && trimmed_text(
            opt_text(*short_description),
        ) is None,
        r matches Some(i) ==> opt_text(i.display_name) == trimmed_text(opt_text(*display_name))
            && opt_text(i.short_description) == trimmed_text(opt_text(*short_description)),
{
    let display_name = trimmed(display_name);
    let short_description = trimmed(short_description);
    if display_name.is_none() && short_description.is_none() {
        None
    } else {
        Some(SkillInterface { display_name, short_description })
    }
}

/// The skill at `path`, given the fields of its frontmatter.
pub fn skill_from_frontmatter(
    parsed: Result<SkillFrontmatter, String>,
    interface: Option<SkillInterface>,
    path: String,
    scope: SkillScope,
) -> (r: Result<SkillMetadata, SkillParseError>)
    ensures
        match parsed {
            Err(e) => r == Err::<SkillMetadata, SkillParseError>(SkillParseError::InvalidYaml(e)),
            Ok(f) => if text::trim(f.name@).len() == 0 {
                r == Err::<SkillMetadata, SkillParseError>(
                    SkillParseError::MissingField(SkillField::Name),
                )
            } else if text::trim(f.description@).len() == 0 {
                r == Err::<SkillMetadata, SkillParseError>(
                    SkillParseError::MissingField(SkillField::Description),
                )
            } else {
                match r {
                    Ok(skill) => {
                        &&& skill.name@ == text::trim(f.name@)
                        &&& skill.description@ == text::trim(f.description@)
                        &&& opt_text(skill.short_description) == trimmed_text(
                            opt_text(f.short_description),
                        )
                        &&& skill.interface == interface
                        &&& skill.path == path
                        &&& skill.scope == scope
                    },
                    Err(_) => false,
                }
            },
        },
{
    let f = match parsed {
        Ok(f) => f,
        Err(e) => return Err(SkillParseError::InvalidYaml(e)),
    };
    let name = f.name.as_str().trim();
    if name.is_empty() {
        assert(name@.len() == 0);
        return Err(SkillParseError::MissingField(SkillField::Name));
    }
    let description = f.description.as_str().trim();
    if description.is_empty() {
        assert(description@.len() == 0);
        return Err(SkillParseError::MissingField(SkillField::Description));
    }
    let short_description = trimmed(&f.short_description);
    Ok(
        SkillMetadata {
            name: name.to_string(),
            description: description.to_string(),
            short_description,
            interface,
            path,
            scope,
        },
    )
}

/// What a layer of configuration says about the markers of a project root.
#[derive(Debug)]
pub enum ProjectRootMarkersValue {
    Absent,
    Valid(Vec<String>),
    /// What is wrong with it.
    Invalid(String),
}

/// What a [`ProjectRootMarkersValue`] is.
#[verifier::ext_equal]
pub enum MarkersV {
    Absent,
    Valid(Seq<Seq<char>>),
    Invalid(Seq<char>),
}

impl View for ProjectRootMarkersValue {
    type V = MarkersV;

    open spec fn view(&self) -> MarkersV {
        match self {
            ProjectRootMarkersValue::Absent => MarkersV::Absent,
            ProjectRootMarkersValue::Valid(markers) => MarkersV::Valid(text::texts(markers@)),
            ProjectRootMarkersValue::Invalid(reason) => MarkersV::Invalid(reason@),
        }
    }
}

/// What the entries of a configuration say about the markers.
pub open spec fn markers_in_entries(entries: Seq<(Seq<char>, TomlV)>) -> MarkersV {
    match entry_of(entries, PROJECT_ROOT_MARKERS_KEY@) {
        None => MarkersV::Absent,
        Some(TomlV::Array(values)) => match strings_of(values) {
            Some(markers) => MarkersV::Valid(markers),
            None => MarkersV::Invalid("must be an array of strings"@),
        },
        Some(_) => MarkersV::Invalid("must be an array of strings"@),
    }
}

/// What a configuration file says about the markers.
pub open spec fn markers_in_file(file: FileTextV) -> MarkersV {
    match file {
        FileTextV::Missing => MarkersV::Absent,
        FileTextV::Failed(e) => MarkersV::Invalid("failed to read: "@ + e),
        FileTextV::Contents(contents) => if text::trim(contents).len() == 0 {
            MarkersV::Absent
        } else {
            match toml_parse(contents) {
                Err(e) => MarkersV::Invalid("failed to parse TOML: "@ + e),
                Ok(entries) => markers_in_entries(entries),
            }
        },
    }
}

/// Reads the markers from the root table of a configuration.
fn read_markers(doc: &toml_edit::DocumentMut) -> (r: ProjectRootMarkersValue)
    ensures
        r@ == markers_in_entries(doc_entries(*doc)),
{
    match doc.as_table().get(PROJECT_ROOT_MARKERS_KEY) {
        None => ProjectRootMarkersValue::Absent,
        Some(item) => match item.as_array() {
            Some(array) => match array_strings(array) {
                Some(markers) => ProjectRootMarkersValue::Valid(markers),
                None => ProjectRootMarkersValue::Invalid("must be an array of strings".to_string()),
            },
            None => ProjectRootMarkersValue::Invalid("must be an array of strings".to_string()),
        },
    }
}

/// What the configuration file `file` says about the markers of a project root.
pub fn read_project_root_markers(file: &FileText) -> (r: ProjectRootMarkersValue)
    ensures
        r@ == markers_in_file(file@),
{
    match file {
        FileText::Missing => ProjectRootMarkersValue::Absent,
        FileText::Failed(e) => ProjectRootMarkersValue::Invalid(
            text::concat("failed to read: ", e.as_str()),
        ),
        FileText::Contents(contents) => {
            let kept = contents.as_str().trim();
            if kept.is_empty() {
                assert(kept@.len() == 0);
                return ProjectRootMarkersValue::Absent;
            }
            match parse_toml(contents.as_str()) {
                Err(e) => ProjectRootMarkersValue::Invalid(
                    text::concat("failed to parse TOML: ", e.as_str()),
                ),
                Ok(doc) => read_markers(&doc),
            }
        },
    }
}

/// A configuration file and its path.
#[derive(Debug)]
pub struct MarkersLayer {
    pub path: String,
    pub file: FileText,
}

/// The markers that hold, and what is wrong with the configuration.
#[derive(Debug)]
pub struct ProjectRootMarkers {
    pub markers: Vec<String>,
    /// What is wrong, where the markers that hold are not those that were
    /// configured.
    pub warning: Option<String>,
}

/// The markers that hold and the complaint, after a layer.
pub open spec fn after_layer(
    before: MarkersV,
    layer: Option<(Seq<char>, FileTextV)>,
    name: Seq<char>,
) -> MarkersV {
    match layer {
        None => before,
        Some((path, file)) => match markers_in_file(file) {
            MarkersV::Absent => before,
            MarkersV::Valid(markers) => MarkersV::Valid(markers),
            MarkersV::Invalid(reason) => MarkersV::Invalid(
                name + " config ("@ + path + ") "@ + reason,
            ),
        },
    }
}

/// What a layer is.
pub open spec fn layer_view(layer: Option<MarkersLayer>) -> Option<(Seq<char>, FileTextV)> {
    match layer {
        Some(l) => Some((l.path@, l.file@)),
        None => None,
    }
}

/// The markers that hold where nothing else is configured.
pub open spec fn default_markers() -> Seq<Seq<char>> {
    seq![".git"@]
}

/// The markers that hold where nothing else is configured.
pub fn default_project_root_markers() -> (r: Vec<String>)
    ensures
        text::texts(r@) == default_markers(),
{
    let mut markers: Vec<String> = Vec::new();
    markers.push(".git".to_string());
    assert(text::texts(markers@) =~= default_markers());
    markers
}

fn apply_layer(before: ProjectRootMarkersValue, layer: &Option<MarkersLayer>, name: &str) -> (r:
    ProjectRootMarkersValue)
    ensures
        r@ == after_layer(before@, layer_view(*layer), name@),
{
    match layer {
        None => before,
        Some(l) => match read_project_root_markers(&l.file) {
            ProjectRootMarkersValue::Absent => before,
            ProjectRootMarkersValue::Valid(markers) => ProjectRootMarkersValue::Valid(markers),
            ProjectRootMarkersValue::Invalid(reason) => {
                let mut message = text::concat3(name, " config (", l.path.as_str());
                message.append(") ");
                message.append(reason.as_str());
                ProjectRootMarkersValue::Invalid(message)
            },
        },
    }
}

/// The markers of a project root: those of the user's configuration, else those
/// of the system's, else the default. Where the last layer that speaks of them
/// is wrong, the default holds.
pub fn project_root_markers_from_configs(
    system: Option<MarkersLayer>,
    user: Option<MarkersLayer>,
) -> (r: ProjectRootMarkers)
    ensures
        match after_layer(
            after_layer(MarkersV::Absent, layer_view(system), "system"@),
            layer_view(user),
            "user"@,
        ) {
            MarkersV::Absent => text::texts(r.markers@) == default_markers() && r.warning is None,
            MarkersV::Valid(markers) => text::texts(r.markers@) == markers && r.warning is None,
            MarkersV::Invalid(reason) => text::texts(r.markers@) == default_markers() && opt_text(
                r.warning,
            ) == Some("invalid project_root_markers: "@ + reason),
        },
{
    let value = apply_layer(ProjectRootMarkersValue::Absent, &system, "system");
    let value = apply_layer(value, &user, "user");
    match value {
        ProjectRootMarkersValue::Absent => ProjectRootMarkers {
            markers: default_project_root_markers(),
            warning: None,
        },
        ProjectRootMarkersValue::Valid(markers) => ProjectRootMarkers { markers, warning: None },
        ProjectRootMarkersValue::Invalid(reason) => ProjectRootMarkers {
            markers: default_project_root_markers(),
            warning: Some(text::concat("invalid project_root_markers: ", reason.as_str())),
        },
    }
}

/// The skills of all roots, one root after the other.
pub open spec fn all_found(by_root: Seq<Vec<SkillMetadata>>) -> Seq<SkillMetadata>
    decreases by_root.len(),
{
    if by_root.len() == 0 {
        seq![]
    } else {
        all_found(by_root.drop_last()) + by_root.last()@
    }
}

/// The skills that are listed, given those that were found below each root. Of
/// several skills with the same path, that of the first root stays.
pub fn load_skills(by_root: Vec<Vec<SkillMetadata>>) -> (r: Vec<SkillMetadata>)
    ensures
        is_listed(r@),
        r@.to_multiset() == first_by_path(all_found(by_root@)).to_multiset(),
{
    let mut rest = by_root;
    let ghost all = by_root@;
    let mut found: Vec<SkillMetadata> = Vec::new();
    let ghost mut taken: int = 0;
    assert(all.take(0) =~= seq![]);
    assert(all.skip(0) =~= all);
    assert(found@ =~= all_found(all.take(0)));
    while rest.len() > 0
        invariant
            0 <= taken <= all.len(),
            all == by_root@,
            rest@ == all.skip(taken),
            found@ == all_found(all.take(taken)),
        decreases rest@.len(),
    {
        let mut part = rest.remove(0);
        assert(part == all[taken]);
        found.append(&mut part);
        proof {
            assert(all.take(taken + 1).drop_last() =~= all.take(taken));
            assert(all.take(taken + 1).last() == all[taken]);
            assert(rest@ =~= all.skip(taken + 1));
            taken = taken + 1;
        }
    }
    assert(all.take(taken) =~= all);
    arrange_skills(found)
}

/// The file that says how the skill in `skill_dir` presents itself.
pub fn interface_path(skill_dir: &str) -> (r: String)
    ensures
        r@ == joined(joined(skill_dir@, "agents"@), "openai.yaml"@),
{
    join(join(skill_dir, "agents").as_str(), "openai.yaml")
}

/// The roots that are scanned, with the skills of the machine at the end.
pub fn skill_roots(
    repo_dirs: &Vec<RepoDir>,
    codex_home: Option<&str>,
    home_dir: Option<&str>,
    admin_skills_dir: Option<String>,
) -> (r: Vec<SkillRoot>)
    ensures
        roots_view(r@) == match opt_text(admin_skills_dir) {
            Some(path) => all_roots(repo_dirs@, opt_str(codex_home), opt_str(home_dir)).push(
                RootV { path, scope: SkillScope::Admin, follow_symlinks: true },
            ),
            None => all_roots(repo_dirs@, opt_str(codex_home), opt_str(home_dir)),
        },
{
    let mut roots = skill_roots_with_dirs(repo_dirs, codex_home, home_dir);
    if let Some(path) = admin_skills_dir {
        push_root(&mut roots, path, SkillScope::Admin, true);
    }
    roots
}

/// The root of the repository that lies at `folder`, then `skills`, below `dir`.
pub open spec fn repo_root(dir: Seq<char>, folder: Seq<char>) -> RootV {
    RootV {
        path: joined(joined(dir, folder), "skills"@),
        scope: SkillScope::Repo,
        follow_symlinks: true,
    }
}

/// Whether `root` comes from one of `dirs` that has such skills.
pub open spec fn comes_from(root: RootV, dirs: Seq<RepoDir>) -> bool {
    exists|i: int|
        #![trigger dirs[i]]
        0 <= i < dirs.len() && {
            ||| dirs[i].has_codex_skills && root == repo_root(dirs[i].path@, ".codex"@)
            ||| dirs[i].has_agents_skills && root == repo_root(dirs[i].path@, ".agents"@)
        }
}

proof fn lemma_repo_roots(dirs: Seq<RepoDir>)
    ensures
        forall|i: int|
            #![trigger dirs[i]]
            0 <= i < dirs.len() ==> {
                &&& dirs[i].has_codex_skills ==> codex_repo_roots(dirs).contains(
                    repo_root(dirs[i].path@, ".codex"@),
                )
                &&& dirs[i].has_agents_skills ==> agents_repo_roots(dirs).contains(
                    repo_root(dirs[i].path@, ".agents"@),
                )
            },
        forall|k: int|
            0 <= k < codex_repo_roots(dirs).len() ==> comes_from(
                #[trigger] codex_repo_roots(dirs)[k],
                dirs,
            ),
        forall|k: int|
            0 <= k < agents_repo_roots(dirs).len() ==> comes_from(
                #[trigger] agents_repo_roots(dirs)[k],
                dirs,
            ),
    decreases dirs.len(),
{
    if dirs.len() > 0 {
        let rest = dirs.drop_last();
        let last = dirs.len() - 1;
        lemma_repo_roots(rest);
        let codex = codex_repo_roots(dirs);
        let agents = agents_repo_roots(dirs);
        let codex_before = codex_repo_roots(rest);
        let agents_before = agents_repo_roots(rest);
        let shift = agents.len() - agents_before.len();
        if dirs[last].has_codex_skills {
            assert(codex[codex.len() - 1] == repo_root(dirs[last].path@, ".codex"@));
        }
        if dirs[last].has_agents_skills {
            assert(agents[0] == repo_root(dirs[last].path@, ".agents"@));
        }
        assert forall|i: int| #![trigger dirs[i]] 0 <= i < dirs.len() implies {
            &&& dirs[i].has_codex_skills ==> codex.contains(repo_root(dirs[i].path@, ".codex"@))
            &&& dirs[i].has_agents_skills ==> agents.contains(repo_root(dirs[i].path@, ".agents"@))
        } by {
            if i < last {
                assert(rest[i] == dirs[i]);
                let c = repo_root(dirs[i].path@, ".codex"@);
                let a = repo_root(dirs[i].path@, ".agents"@);
                if dirs[i].has_codex_skills {
                    let k = choose|k: int| 0 <= k < codex_before.len() && codex_before[k] == c;
                    assert(codex[k] == c);
                }
                if dirs[i].has_agents_skills {
                    let k = choose|k: int| 0 <= k < agents_before.len() && agents_before[k] == a;
                    assert(agents[k + shift] == a);
                }
            }
        }
        assert forall|k: int| 0 <= k < codex.len() implies comes_from(
            #[trigger] codex[k],
            dirs,
        ) by {
            if k < codex_before.len() {
                assert(comes_from(codex_before[k], rest));
                lemma_comes_from_more(codex[k], dirs);
            } else {
                assert(dirs[last].has_codex_skills);
            }
        }
        assert forall|k: int| 0 <= k < agents.len() implies comes_from(
            #[trigger] agents[k],
            dirs,
        ) by {
            if k >= shift {
                assert(agents[k] == agents_before[k - shift]);
                assert(comes_from(agents_before[k - shift], rest));
                lemma_comes_from_more(agents[k], dirs);
            } else {
                assert(dirs[last].has_agents_skills);
            }
        }
    }
}

proof fn lemma_comes_from_more(root: RootV, dirs: Seq<RepoDir>)
    requires
        dirs.len() > 0,
        comes_from(root, dirs.drop_last()),
    ensures
        comes_from(root, dirs),
{
    let rest = dirs.drop_last();
    let i = choose|i: int|
        #![trigger rest[i]]
        0 <= i < rest.len() && {
            ||| rest[i].has_codex_skills && root == repo_root(rest[i].path@, ".codex"@)
            ||| rest[i].has_agents_skills && root == repo_root(rest[i].path@, ".agents"@)
        };
    assert(dirs[i] == rest[i]);
}

/// Every directory between the working directory and the project root that has
/// skills is looked at: its `.codex/skills` and its `.agents/skills` are roots of
/// the repository, and every root of the repository is one of these.
pub proof fn law_every_skill_directory_is_a_root(
    dirs: Seq<RepoDir>,
    codex_home: Option<Seq<char>>,
    home_dir: Option<Seq<char>>,
)
    ensures
        ({
            let roots = all_roots(dirs, codex_home, home_dir);
            &&& forall|i: int|
                #![trigger dirs[i]]
                0 <= i < dirs.len() ==> {
                    &&& dirs[i].has_codex_skills ==> roots.contains(
                        repo_root(dirs[i].path@, ".codex"@),
                    )
                    &&& dirs[i].has_agents_skills ==> roots.contains(
                        repo_root(dirs[i].path@, ".agents"@),
                    )
                }
            &&& forall|k: int|
                #![trigger roots[k]]
                0 <= k < roots.len() && roots[k].scope == SkillScope::Repo ==> comes_from(
                    roots[k],
                    dirs,
                )
        }),
{
    lemma_repo_roots(dirs);
    let roots = all_roots(dirs, codex_home, home_dir);
    let codex = codex_repo_roots(dirs);
    let agents = agents_repo_roots(dirs);
    let front = codex + home_roots(codex_home) + agents_home_roots(home_dir);
    assert forall|i: int| #![trigger dirs[i]] 0 <= i < dirs.len() implies {
        &&& dirs[i].has_codex_skills ==> roots.contains(repo_root(dirs[i].path@, ".codex"@))
        &&& dirs[i].has_agents_skills ==> roots.contains(repo_root(dirs[i].path@, ".agents"@))
    } by {
        let c = repo_root(dirs[i].path@, ".codex"@);
        let a = repo_root(dirs[i].path@, ".agents"@);
        if dirs[i].has_codex_skills {
            let k = choose|k: int| 0 <= k < codex.len() && codex[k] == c;
            assert(roots[k] == c);
        }
        if dirs[i].has_agents_skills {
            let k = choose|k: int| 0 <= k < agents.len() && agents[k] == a;
            assert(roots[front.len() + k] == a);
        }
    }
    assert forall|k: int|
        #![trigger roots[k]]
        0 <= k < roots.len() && roots[k].scope == SkillScope::Repo implies comes_from(
        roots[k],
        dirs,
    ) by {
        if k < codex.len() {
            assert(roots[k] == codex[k]);
        } else if k >= front.len() {
            assert(roots[k] == agents[k - front.len()]);
        }
    }
}

proof fn lemma_repo_root_count(dirs: Seq<RepoDir>)
    ensures
        codex_repo_roots(dirs).len() == dirs.filter(|d: RepoDir| d.has_codex_skills).len(),
        agents_repo_roots(dirs).len() == dirs.filter(|d: RepoDir| d.has_agents_skills).len(),
    decreases dirs.len(),
{
    reveal(Seq::filter);
    if dirs.len() > 0 {
        lemma_repo_root_count(dirs.drop_last());
    }
}

/// No root is listed more often than it is there: there is one for each directory
/// with `.codex/skills`, one for each with `.agents/skills`, two below the Codex
/// home and one below the home directory.
pub proof fn law_roots_are_counted(
    dirs: Seq<RepoDir>,
    codex_home: Option<Seq<char>>,
    home_dir: Option<Seq<char>>,
)
    ensures
        all_roots(dirs, codex_home, home_dir).len() == dirs.filter(
            |d: RepoDir| d.has_codex_skills,
        ).len() + dirs.filter(|d: RepoDir| d.has_agents_skills).len() + (if codex_home is Some {
            2int
        } else {
            0
        }) + (if home_dir is Some {
            1int
        } else {
            0
        }),
{
    lemma_repo_root_count(dirs);
}

/// The skills of the user and of the system lie below the two homes: those of the
/// system are not followed through links, all others are. The closest directory of
/// the repository comes first.
pub proof fn law_roots_below_the_homes(
    dirs: Seq<RepoDir>,
    codex_home: Option<Seq<char>>,
    home_dir: Option<Seq<char>>,
)
    ensures
        ({
            let roots = all_roots(dirs, codex_home, home_dir);
            &&& codex_home matches Some(home) ==> {
                &&& roots.contains(
                    RootV {
                        path: joined(home, "skills"@),
                        scope: SkillScope::User,
                        follow_symlinks: true,
                    },
                )
                &&& roots.contains(
                    RootV {
                        path: joined(joined(home, "skills"@), ".system"@),
                        scope: SkillScope::System,
                        follow_symlinks: false,
                    },
                )
            }
            &&& home_dir matches Some(home) ==> roots.contains(
                RootV {
                    path: joined(joined(home, ".agents"@), "skills"@),
                    scope: SkillScope::User,
                    follow_symlinks: true,
                },
            )
            &&& forall|k: int|
                #![trigger roots[k]]
                0 <= k < roots.len() ==> {
                    &&& roots[k].follow_symlinks <==> roots[k].scope != SkillScope::System
                    &&& roots[k].scope != SkillScope::Admin
                    &&& codex_home is None ==> roots[k].scope != SkillScope::System
                    &&& codex_home is None && home_dir is None ==> roots[k].scope
                        == SkillScope::Repo
                }
            &&& dirs.len() > 0 && dirs[0].has_codex_skills ==> roots[0] == repo_root(
                dirs[0].path@,
                ".codex"@,
            )
            &&& dirs.len() > 0 && dirs[0].has_agents_skills ==> roots.last() == repo_root(
                dirs[0].path@,
                ".agents"@,
            )
        }),
{
    let roots = all_roots(dirs, codex_home, home_dir);
    let codex = codex_repo_roots(dirs);
    let agents = agents_repo_roots(dirs);
    let homes = home_roots(codex_home);
    let front = codex + homes + agents_home_roots(home_dir);
    lemma_repo_roots(dirs);
    lemma_first_dir(dirs);
    if codex_home is Some {
        assert(roots[codex.len() as int] == homes[0]);
        assert(roots[codex.len() as int + 1] == homes[1]);
    }
    if home_dir is Some {
        assert(roots[(codex + homes).len() as int] == agents_home_roots(home_dir)[0]);
    }
    assert forall|k: int| #![trigger roots[k]] 0 <= k < roots.len() implies {
        &&& roots[k].follow_symlinks <==> roots[k].scope != SkillScope::System
        &&& roots[k].scope != SkillScope::Admin
        &&& codex_home is None ==> roots[k].scope != SkillScope::System
        &&& codex_home is None && home_dir is None ==> roots[k].scope == SkillScope::Repo
    } by {
        if k < codex.len() {
            assert(roots[k] == codex[k]);
            assert(comes_from(codex[k], dirs));
        } else if k >= front.len() {
            assert(roots[k] == agents[k - front.len()]);
            assert(comes_from(agents[k - front.len()], dirs));
        }
    }
}

proof fn lemma_first_dir(dirs: Seq<RepoDir>)
    ensures
        dirs.len() > 0 && dirs[0].has_codex_skills ==> codex_repo_roots(dirs).len() > 0
            && codex_repo_roots(dirs)[0] == repo_root(dirs[0].path@, ".codex"@),
        dirs.len() > 0 && dirs[0].has_agents_skills ==> agents_repo_roots(dirs).len() > 0
            && agents_repo_roots(dirs).last() == repo_root(dirs[0].path@, ".agents"@),
    decreases dirs.len(),
{
    if dirs.len() > 1 {
        lemma_first_dir(dirs.drop_last());
    } else if dirs.len() == 1 {
        assert(codex_repo_roots(dirs.drop_last()) =~= seq![]);
        assert(agents_repo_roots(dirs.drop_last()) =~= seq![]);
    }
}

/// Hidden entries, entries without a readable name and whatever is neither file nor
/// directory nor link are left alone; a directory is entered, a link is followed
/// exactly where links are, and of the files only `SKILL.md` is read.
pub proof fn law_entries_are_looked_at(
    name: Option<Seq<char>>,
    kind: EntryKind,
    follow_symlinks: bool,
)
    ensures
        ({
            let step = entry_step(name, kind, follow_symlinks);
            let hidden = name is None || (name->0.len() > 0 && name->0[0] == '.');
            &&& hidden ==> step == EntryStep::Skip
            &&& step == EntryStep::ReadSkill <==> !hidden && kind == EntryKind::File && name->0
                == "SKILL.md"@
            &&& step == EntryStep::EnterDir <==> !hidden && kind == EntryKind::Dir
            &&& step == EntryStep::FollowLink <==> !hidden && kind == EntryKind::Symlink
                && follow_symlinks
        }),
{
}

/// A directory that is new and at most six levels below the root waits behind
/// those that wait already, as long as fewer than two thousand were found; from
/// then on the scan is marked as cut short. A directory that is too deep changes
/// nothing.
pub proof fn law_new_directories_wait(s: ScanState, path: Seq<char>, depth: nat)
    ensures
        ({
            let t = s.found(path, depth);
            &&& depth > 6 ==> t == s
            &&& depth <= 6 && s.visited.len() >= 2000 ==> t.truncated && t.queue == s.queue
                && t.visited == s.visited
            &&& depth <= 6 && s.visited.len() < 2000 && !s.visited.contains(path) ==> {
                &&& t.queue == s.queue.push((path, depth))
                &&& t.visited.contains(path)
                &&& t.truncated == s.truncated
            }
            &&& t.truncated ==> s.truncated || s.visited.len() >= 2000
            &&& forall|p: Seq<char>| #[trigger] s.visited.contains(p) ==> t.visited.contains(p)
        }),
        ScanState::start(path).queue == seq![(path, 0nat)],
        ScanState::start(path).visited.contains(path),
        !ScanState::start(path).truncated,
{
    let t = s.found(path, depth);
    if t.visited.len() > s.visited.len() {
        assert(t.visited.last() == path);
    }
    assert forall|p: Seq<char>| #[trigger] s.visited.contains(p) implies t.visited.contains(p) by {
        let k = choose|k: int| 0 <= k < s.visited.len() && s.visited[k] == p;
        assert(t.visited[k] == p);
    }
    assert(ScanState::start(path).visited[0] == path);
}

/// The project root is the nearest ancestor that holds a marker; without one, or
/// without markers to look for, it is the working directory itself.
pub proof fn law_project_root_is_the_nearest_marker(has_marker: Seq<bool>, i: int)
    ensures
        root_position(has_marker, true) == 0,
        0 <= i < has_marker.len() && has_marker[i] && (forall|k: int|
            0 <= k < i ==> !has_marker[k]) ==> root_position(has_marker, false) == i,
        (forall|k: int| 0 <= k < has_marker.len() ==> !has_marker[k]) ==> root_position(
            has_marker,
            false,
        ) == 0,
{
    if 0 <= i < has_marker.len() && has_marker[i] && (forall|k: int|
        0 <= k < i ==> !has_marker[k]) {
        assert(is_root_position(has_marker, i));
        let c = root_position(has_marker, false);
        assert(is_root_position(has_marker, c));
    }
}

/// Skills of the repository are listed before those of the user, these before those
/// of the system and these before those of the machine, whatever they are called;
/// within a scope the name decides.
pub proof fn law_skills_are_listed_by_scope_then_name(a: SkillMetadata, b: SkillMetadata)
    ensures
        a.scope == SkillScope::Repo && b.scope != SkillScope::Repo ==> listed_before(a, b)
            && !listed_before(b, a),
        a.scope == SkillScope::User && (b.scope == SkillScope::System || b.scope
            == SkillScope::Admin) ==> listed_before(a, b) && !listed_before(b, a),
        a.scope == SkillScope::System && b.scope == SkillScope::Admin ==> listed_before(a, b)
            && !listed_before(b, a),
        a.scope == b.scope && text_before(a.name@, b.name@) ==> listed_before(a, b),
        a.scope == b.scope && a.name@ == b.name@ && path_before(a.path@, b.path@)
            ==> listed_before(a, b),
{
}

/// Every skill that was found below a root is among all that were found, and
/// nothing else is; those of an earlier root come first.
pub proof fn law_all_roots_are_gathered(by_root: Seq<Vec<SkillMetadata>>, r: int, i: int)
    requires
        0 <= r < by_root.len(),
        0 <= i < by_root[r]@.len(),
    ensures
        ({
            let before = all_found(by_root.take(r));
            &&& before.len() + i < all_found(by_root).len()
            &&& all_found(by_root)[before.len() + i] == by_root[r]@[i]
            &&& all_found(by_root).len() >= before.len() + by_root[r]@.len()
            &&& r == by_root.len() - 1 ==> all_found(by_root).len() == before.len()
                + by_root[r]@.len()
        }),
    decreases by_root.len(),
{
    let rest = by_root.drop_last();
    if r == by_root.len() - 1 {
        assert(by_root.take(r) =~= rest);
    } else {
        assert(rest[r] == by_root[r]);
        law_all_roots_are_gathered(rest, r, i);
        assert(by_root.take(r) =~= rest.take(r));
    }
}

/// The lines of `lines`, each with a line feed behind it.
pub open spec fn with_feeds(lines: Seq<Seq<char>>) -> Seq<char>
    decreases lines.len(),
{
    if lines.len() == 0 {
        seq![]
    } else {
        with_feeds(lines.drop_last()) + lines.last() + seq!['\n']
    }
}

/// The frontmatter of a skill file is everything between a first line `---` and the
/// next such line; what follows does not matter. Without the first rule, or without
/// the second, there is none.
pub proof fn law_frontmatter_stands_between_the_rules(
    contents: Seq<char>,
    inner: Seq<Seq<char>>,
    rest: Seq<Seq<char>>,
)
    requires
        forall|i: int|
            0 <= i < inner.len() ==> #[trigger] inner[i] != "---"@ && (inner[i].len() > 0
                ==> inner[i].last() != '\r'),
    ensures
        text::lines(contents) == seq!["---"@] + inner + seq!["---"@] + rest ==> frontmatter_of(
            contents,
        ) == Some(with_feeds(inner)),
        text::lines(contents) == seq!["---"@] + inner ==> frontmatter_of(contents) is None,
        text::lines(contents) == inner ==> frontmatter_of(contents) is None,
{
    reveal_strlit("---");
    assert(without_returns("---"@) == "---"@);
    lemma_upto_rule(inner, rest);
    let all = seq!["---"@] + inner + seq!["---"@] + rest;
    assert(all.drop_first() =~= inner + (seq!["---"@] + rest));
    assert((seq!["---"@] + inner).drop_first() =~= inner);
    if inner.len() > 0 {
        assert(without_returns(inner[0]) == inner[0]);
    }
}

proof fn lemma_upto_rule(inner: Seq<Seq<char>>, rest: Seq<Seq<char>>)
    requires
        forall|i: int|
            0 <= i < inner.len() ==> #[trigger] inner[i] != "---"@ && (inner[i].len() > 0
                ==> inner[i].last() != '\r'),
    ensures
        upto_rule(inner + (seq!["---"@] + rest)) == Some(with_feeds(inner)),
        upto_rule(inner) is None,
    decreases inner.len(),
{
    reveal_strlit("---");
    reveal_strlit("\n");
    let tail = seq!["---"@] + rest;
    if inner.len() == 0 {
        assert(inner + tail =~= tail);
        assert(without_returns("---"@) == "---"@);
    } else {
        let more = inner.drop_first();
        assert forall|i: int| 0 <= i < more.len() implies #[trigger] more[i] != "---"@ && (
        more[i].len() > 0 ==> more[i].last() != '\r') by {
            assert(more[i] == inner[i + 1]);
        }
        lemma_upto_rule(more, rest);
        assert((inner + tail).drop_first() =~= more + tail);
        assert((inner + tail)[0] == inner[0]);
        assert(without_returns(inner[0]) == inner[0]);
        lemma_with_feeds_front(inner);
        assert("\n"@ =~= seq!['\n']);
    }
}

proof fn lemma_with_feeds_front(lines: Seq<Seq<char>>)
    requires
        lines.len() > 0,
    ensures
        with_feeds(lines) == lines[0] + seq!['\n'] + with_feeds(lines.drop_first()),
    decreases lines.len(),
{
    if lines.len() == 1 {
        assert(with_feeds(lines.drop_last()) =~= seq![]);
        assert(with_feeds(lines.drop_first()) =~= seq![]);
        assert(with_feeds(lines) =~= lines[0] + seq!['\n'] + with_feeds(lines.drop_first()));
    } else {
        let front = lines.drop_last();
        let back = lines.drop_first();
        lemma_with_feeds_front(front);
        assert(front.drop_first() =~= back.drop_last());
        assert(with_feeds(lines) =~= lines[0] + seq!['\n'] + with_feeds(back));
    }
}

/// The user's file has the last word on the markers, where it speaks of them, and
/// the system's is asked where it does not; a file that is not there, is blank or
/// has no such key does not speak of them. Anything but a list of texts is wrong.
pub proof fn law_markers_come_from_the_last_file_that_speaks(
    before: MarkersV,
    path: Seq<char>,
    contents: Seq<char>,
    entries: Seq<(Seq<char>, TomlV)>,
    name: Seq<char>,
)
    ensures
        after_layer(before, None, name) == before,
        after_layer(before, Some((path, FileTextV::Missing)), name) == before,
        text::trim(contents).len() == 0 ==> after_layer(
            before,
            Some((path, FileTextV::Contents(contents))),
            name,
        ) == before,
        text::trim(contents).len() > 0 && toml_parse(contents) is Err ==> after_layer(
            before,
            Some((path, FileTextV::Contents(contents))),
            name,
        ) is Invalid,
        text::trim(contents).len() > 0 && toml_parse(contents) == Ok::<
            Seq<(Seq<char>, TomlV)>,
            Seq<char>,
        >(entries) ==> {
            let after = after_layer(before, Some((path, FileTextV::Contents(contents))), name);
            match entry_of(entries, "project_root_markers"@) {
                None => after == before,
                Some(TomlV::Array(values)) => if forall|i: int|
                    0 <= i < values.len() ==> #[trigger] values[i] is Text {
                    &&& after is Valid
                    &&& after->Valid_0.len() == values.len()
                    &&& forall|i: int|
                        0 <= i < values.len() ==> TomlV::Text(#[trigger] after->Valid_0[i])
                            == values[i]
                } else {
                    after is Invalid
                },
                Some(_) => after is Invalid,
            }
        },
{
    if let Some(TomlV::Array(values)) = entry_of(entries, "project_root_markers"@) {
        let is_text = |v: TomlV| v is Text;
        if forall|i: int| 0 <= i < values.len() ==> #[trigger] values[i] is Text {
            assert(values.all(is_text));
        } else {
            let i = choose|i: int| 0 <= i < values.len() && !(#[trigger] values[i] is Text);
            assert(!is_text(values[i]));
            assert(!values.all(is_text));
        }
    }
}

/// What a skill shows of itself: what its interface says, where it says something,
/// and what its file says otherwise.
pub proof fn law_interface_is_shown_first(skill: SkillMetadata, text: String)
    ensures
        skill.interface is None ==> skill.display_name_v() == skill.name@,
        skill.interface matches Some(i) ==> (i.display_name == Some(text) ==> skill.display_name_v()
            == text@) && (i.display_name is None ==> skill.display_name_v() == skill.name@) && (
        i.short_description == Some(text) ==> skill.display_description_v() == text@),
        (skill.interface is None || skill.interface->0.short_description is None) ==> (
        skill.short_description == Some(text) ==> skill.display_description_v() == text@) && (
        skill.short_description is None ==> skill.display_description_v() == skill.description@),
{
}

} // verus!
