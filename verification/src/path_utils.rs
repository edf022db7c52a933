//! Following symbolic links to the file that is written.

use vstd::prelude::*;

use crate::reasoning_status::opt_text;
use crate::text;

verus! {

/// Where a file is read and written.
#[derive(Debug)]
pub struct SymlinkWritePaths {
    pub read_path: Option<String>,
    pub write_path: String,
}

/// What a [`SymlinkWritePaths`] is.
#[verifier::ext_equal]
pub struct WritePathsV {
    pub read_path: Option<Seq<char>>,
    pub write_path: Seq<char>,
}

impl View for SymlinkWritePaths {
    type V = WritePathsV;

    open spec fn view(&self) -> WritePathsV {
        WritePathsV { read_path: opt_text(self.read_path), write_path: self.write_path@ }
    }
}

/// What stands at a path.
#[derive(Clone, Copy, PartialEq, Eq, Structural, Debug)]
pub enum PathKind {
    Missing,
    Link,
    /// Something that is no link.
    Plain,
    /// It could not be looked at.
    Failed,
}

/// What to do next.
#[derive(Debug)]
pub enum LinkStep {
    /// Look at what stands at the current path.
    Look,
    /// Read the link at the current path.
    ReadLink,
    Done(SymlinkWritePaths),
}

/// What a [`LinkStep`] is.
#[verifier::ext_equal]
pub enum LinkStepV {
    Look,
    ReadLink,
    Done(WritePathsV),
}

impl View for LinkStep {
    type V = LinkStepV;

    open spec fn view(&self) -> LinkStepV {
        match self {
            LinkStep::Look => LinkStepV::Look,
            LinkStep::ReadLink => LinkStepV::ReadLink,
            LinkStep::Done(paths) => LinkStepV::Done(paths@),
        }
    }
}

/// Follows a chain of symbolic links to its end. A chain that leads back to
/// itself, or whose end cannot be found, is not followed: the file is then
/// written where the chain starts and not read.
#[derive(Debug)]
pub struct SymlinkResolver {
    root: String,
    current: String,
    visited: Vec<String>,
}

/// The state of a [`SymlinkResolver`].
#[verifier::ext_equal]
pub struct ResolverState {
    /// Where the chain starts.
    pub root: Seq<char>,
    /// Where the chain has led.
    pub current: Seq<char>,
    /// The links that were followed.
    pub visited: Seq<Seq<char>>,
}

impl ResolverState {
    /// No link was followed twice.
    pub open spec fn wf(self) -> bool {
        self.visited.no_duplicates()
    }

    /// The chain is not followed.
    pub open spec fn given_up(self) -> LinkStepV {
        LinkStepV::Done(WritePathsV { read_path: None, write_path: self.root })
    }

    /// The chain ends at the current path.
    pub open spec fn ends_here(self) -> LinkStepV {
        LinkStepV::Done(
            WritePathsV { read_path: Some(self.current), write_path: self.current },
        )
    }

    /// What comes after looking at the current path.
    pub open spec fn looked(self, kind: PathKind) -> (ResolverState, LinkStepV) {
        match kind {
            PathKind::Missing => (self, self.ends_here()),
            PathKind::Plain => (self, self.ends_here()),
            PathKind::Failed => (self, self.given_up()),
            PathKind::Link => if self.visited.contains(self.current) {
                (self, self.given_up())
            } else {
                (
                    ResolverState { visited: self.visited.push(self.current), ..self },
                    LinkStepV::ReadLink,
                )
            },
        }
    }

    /// What comes after the link at the current path was read. `target` is the
    /// absolute path that it leads to, where that could be found.
    pub open spec fn led_to(self, target: Option<Seq<char>>) -> (ResolverState, LinkStepV) {
        match target {
            Some(path) => (ResolverState { current: path, ..self }, LinkStepV::Look),
            None => (self, self.given_up()),
        }
    }
}

impl View for SymlinkResolver {
    type V = ResolverState;

    closed spec fn view(&self) -> ResolverState {
        ResolverState {
            root: self.root@,
            current: self.current@,
            visited: text::texts(self.visited@),
        }
    }
}

impl SymlinkResolver {
    /// Starts at the absolute path `root`.
    pub fn new(root: &str) -> (r: Self)
        ensures
            r@ == (ResolverState { root: root@, current: root@, visited: seq![] }),
            r@.wf(),
    {
        let r = SymlinkResolver {
            root: root.to_string(),
            current: root.to_string(),
            visited: Vec::new(),
        };
        assert(r@ =~= ResolverState { root: root@, current: root@, visited: seq![] });
        r
    }

    /// Where the chain has led.
    pub fn current(&self) -> (r: &str)
        ensures
            r@ == self@.current,
    {
        self.current.as_str()
    }

    fn give_up(&self) -> (r: LinkStep)
        ensures
            r@ == self@.given_up(),
    {
        LinkStep::Done(SymlinkWritePaths { read_path: None, write_path: self.root.clone() })
    }

    fn has_visited(&self) -> (b: bool)
        ensures
            b == self@.visited.contains(self@.current),
    {
        let ghost all = text::texts(self.visited@);
        let mut i: usize = 0;
        while i < self.visited.len()
            invariant
                i <= self.visited@.len(),
                all == text::texts(self.visited@),
                forall|k: int| 0 <= k < i ==> all[k] != self.current@,
            decreases self.visited@.len() - i,
        {
            if text::same(self.visited[i].as_str(), self.current.as_str()) {
                assert(all[i as int] == self.current@);
                return true;
            }
            i += 1;
        }
        false
    }

    /// Takes in what stands at the current path.
    pub fn on_kind(&mut self, kind: PathKind) -> (r: LinkStep)
        requires
            old(self)@.wf(),
        ensures
            (final(self)@, r@) == old(self)@.looked(kind),
            final(self)@.wf(),
    {
        let ghost before = self@;
        match kind {
            PathKind::Missing | PathKind::Plain => LinkStep::Done(
                SymlinkWritePaths {
                    read_path: Some(self.current.clone()),
                    write_path: self.current.clone(),
                },
            ),
            PathKind::Failed => self.give_up(),
            PathKind::Link => {
                if self.has_visited() {
                    return self.give_up();
                }
                let here = self.current.clone();
                self.visited.push(here);
                assert(self@.visited =~= before.visited.push(before.current));
                assert(self@ =~= before.looked(kind).0);
                LinkStep::ReadLink
            },
        }
    }

    /// Takes in where the link at the current path leads.
    pub fn on_target(&mut self, target: Option<String>) -> (r: LinkStep)
        requires
            old(self)@.wf(),
        ensures
            (final(self)@, r@) == old(self)@.led_to(opt_text(target)),
            final(self)@.wf(),
    {
        match target {
            Some(path) => {
                self.current = path;
                LinkStep::Look
            },
            None => self.give_up(),
        }
    }
}

/// A file is written where it is read, or where the chain starts.
pub proof fn law_written_where_read(s: ResolverState, kind: PathKind)
    ensures
        s.looked(kind).1 matches LinkStepV::Done(paths) ==> match paths.read_path {
            Some(path) => paths.write_path == path,
            None => paths.write_path == s.root,
        },
{
}

/// A chain that comes back to a link is not followed again: the file is written
/// where the chain starts.
pub proof fn law_cycle_falls_back_to_start(s: ResolverState)
    requires
        s.visited.contains(s.current),
    ensures
        s.looked(PathKind::Link).1 == LinkStepV::Done(
            WritePathsV { read_path: None, write_path: s.root },
        ),
{
}

/// A link is followed where it leads, once; a path that is no link, or where nothing
/// stands, is where the file is read and written; and where a path cannot be looked at, or
/// a link cannot be read, the file is written where the chain starts and not read.
pub proof fn law_links_are_followed(s: ResolverState, target: Seq<char>)
    ensures
        s.looked(PathKind::Plain).1 == LinkStepV::Done(
            WritePathsV { read_path: Some(s.current), write_path: s.current },
        ),
        s.looked(PathKind::Missing).1 == LinkStepV::Done(
            WritePathsV { read_path: Some(s.current), write_path: s.current },
        ),
        s.looked(PathKind::Failed).1 == LinkStepV::Done(
            WritePathsV { read_path: None, write_path: s.root },
        ),
        !s.visited.contains(s.current) ==> s.looked(PathKind::Link).1 == LinkStepV::ReadLink
            && s.looked(PathKind::Link).0.visited.contains(s.current) && s.looked(
            PathKind::Link,
        ).0.root == s.root,
        s.led_to(Some(target)).0.current == target,
        s.led_to(Some(target)).0.root == s.root,
        s.led_to(Some(target)).0.visited == s.visited,
        s.led_to(Some(target)).1 == LinkStepV::Look,
        s.led_to(None).1 == LinkStepV::Done(
            WritePathsV { read_path: None, write_path: s.root },
        ),
{
    if !s.visited.contains(s.current) {
        assert(s.looked(PathKind::Link).0.visited.last() == s.current);
    }
}

} // verus!
