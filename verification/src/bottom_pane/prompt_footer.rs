//! The one-line footer under the prompt.

use vstd::prelude::*;

use crate::geometry::Rect;
use crate::history_cell::{opt_str, LIVE_PREFIX_COLS};
use crate::reasoning_status::opt_text;
use crate::styled::{line_v, span_v, spans_view, Color, Line, LineV, Span, SpanV, Style};
use crate::text;

verus! {

/// Temporary footer modes that replace the standard prompt footer content.
#[derive(Clone, Copy, PartialEq, Eq, Structural, Debug)]
pub enum PromptFooterOverride {
    /// Replace the footer with the bold external-editor hint while the editor is opening.
    ExternalEditorHint,
}

/// The context shown in the 1-line prompt footer under the composer.
#[derive(Debug)]
pub struct PromptFooterContext {
    /// Working directory shown in the footer.
    pub working_dir: String,
    /// Current git branch for `working_dir`, when available.
    pub git_branch: Option<String>,
    /// Whether YOLO is active for the current session.
    pub yolo_active: bool,
    /// Whether the CLI `--yolo` flag forces YOLO on for this process.
    pub yolo_cli_override: bool,
}

/// `branch`, unless it is blank.
pub open spec fn shown_branch(branch: Option<Seq<char>>) -> Option<Seq<char>> {
    match branch {
        Some(b) => if text::trim(b).len() == 0 {
            None
        } else {
            Some(b)
        },
        None => None,
    }
}

impl PromptFooterContext {
    /// The command-line flag keeps YOLO active.
    pub open spec fn wf(&self) -> bool {
        self.yolo_cli_override ==> self.yolo_active
    }

    /// Create a new prompt footer context.
    ///
    /// Empty or whitespace-only branch names are treated as `None`.
    pub fn new(working_dir: String, git_branch: Option<String>) -> (r: Self)
        ensures
            r.working_dir == working_dir,
            opt_text(r.git_branch) == shown_branch(opt_text(git_branch)),
            r.git_branch is Some ==> r.git_branch == git_branch,
            !r.yolo_active,
            !r.yolo_cli_override,
            r.wf(),
    {
        let git_branch = match git_branch {
            Some(branch) => if branch.as_str().trim().is_empty() {
                None
            } else {
                Some(branch)
            },
            None => None,
        };
        PromptFooterContext {
            working_dir,
            git_branch,
            yolo_active: false,
            yolo_cli_override: false,
        }
    }

    /// Set whether the current session should render the YOLO indicator.
    pub fn with_yolo_active(self, yolo_active: bool) -> (r: Self)
        ensures
            r == (PromptFooterContext {
                yolo_active: self.yolo_cli_override || yolo_active,
                ..self
            }),
            r.wf(),
    {
        PromptFooterContext {
            working_dir: self.working_dir,
            git_branch: self.git_branch,
            yolo_active: self.yolo_cli_override || yolo_active,
            yolo_cli_override: self.yolo_cli_override,
        }
    }

    /// Record whether the CLI `--yolo` flag is forcing YOLO on for this process.
    ///
    /// When enabled, this also keeps `yolo_active` true so the context cannot enter an
    /// inconsistent state.
    pub fn with_yolo_cli_override(self, yolo_cli_override: bool) -> (r: Self)
        ensures
            r == (PromptFooterContext {
                yolo_cli_override,
                yolo_active: yolo_cli_override || self.yolo_active,
                ..self
            }),
            r.wf(),
    {
        PromptFooterContext {
            working_dir: self.working_dir,
            git_branch: self.git_branch,
            yolo_active: yolo_cli_override || self.yolo_active,
            yolo_cli_override,
        }
    }

    /// Recompute the footer indicator after the persisted default YOLO setting changes.
    pub fn with_persisted_yolo_enabled(self, enabled: bool) -> (r: Self)
        ensures
            r == (PromptFooterContext { yolo_active: self.yolo_cli_override || enabled, ..self }),
            r.wf(),
    {
        PromptFooterContext {
            working_dir: self.working_dir,
            git_branch: self.git_branch,
            yolo_active: self.yolo_cli_override || enabled,
            yolo_cli_override: self.yolo_cli_override,
        }
    }
}

/// The columns that the working directory takes in the footer at most.
pub const FOOTER_DIR_COLS: usize = 50;

/// The spans of the standard footer: the YOLO mark where it is active, the
/// editor key, the branch where there is one, and the directory.
pub open spec fn footer_spans(dir_display: Seq<char>, branch: Option<Seq<char>>, yolo_active: bool) -> Seq<
    SpanV,
> {
    let plain = Style::plain();
    let dim = Style::plain().spec_dim();
    let yolo = if yolo_active {
        seq![
            span_v("▲YOLO"@, plain.spec_fg(Color::Red).spec_bold()),
            span_v(" · "@, dim),
        ]
    } else {
        seq![]
    };
    let editor = seq![
        span_v("ctrl+g"@, plain),
        span_v(" editor"@, dim),
        span_v(" · "@, dim),
    ];
    let git = match shown_branch(branch) {
        Some(b) => seq![
            span_v(b, plain.spec_fg(Color::Cyan)),
            span_v(" ❯ "@, dim),
        ],
        None => seq![],
    };
    yolo + editor + git + seq![span_v(dir_display, dim)]
}

/// The line that the prompt footer shows.
pub open spec fn prompt_footer_line_v(
    override_hint: Option<Seq<char>>,
    dir_display: Seq<char>,
    branch: Option<Seq<char>>,
    yolo_active: bool,
) -> LineV {
    match override_hint {
        Some(hint) => line_v(
            seq![
                span_v(" "@, Style::plain()),
                span_v(hint, Style::plain().spec_bold()),
            ],
        ),
        None => line_v(footer_spans(dir_display, branch, yolo_active)),
    }
}

/// The line that the prompt footer shows. `override_hint` replaces everything
/// else; `dir_display` is the working directory as it is shown.
pub fn prompt_footer_line(
    override_hint: Option<&str>,
    dir_display: &str,
    git_branch: Option<&str>,
    yolo_active: bool,
) -> (r: Line)
    ensures
        r@ == prompt_footer_line_v(
            opt_str(override_hint),
            dir_display@,
            opt_str(git_branch),
            yolo_active,
        ),
{
    let ghost want = prompt_footer_line_v(
        opt_str(override_hint),
        dir_display@,
        opt_str(git_branch),
        yolo_active,
    );
    let dim = Style::new().dim();
    let mut spans: Vec<Span> = Vec::new();
    if let Some(hint) = override_hint {
        spans.push(Span::plain(" "));
        spans.push(Span::of(hint, Style::new().bold()));
        assert(spans_view(spans@) =~= want.spans);
        return Line::from_spans(spans);
    }
    if yolo_active {
        spans.push(Span::of("▲YOLO", Style::new().with_fg(Color::Red).bold()));
        spans.push(Span::of(" · ", dim));
    }
    spans.push(Span::plain("ctrl+g"));
    spans.push(Span::of(" editor", dim));
    spans.push(Span::of(" · ", dim));
    if let Some(branch) = git_branch {
        if !branch.trim().is_empty() {
            spans.push(Span::of(branch, Style::new().with_fg(Color::Cyan)));
            spans.push(Span::of(" ❯ ", dim));
        }
    }
    spans.push(Span::of(dir_display, dim));
    assert(spans_view(spans@) =~= want.spans);
    Line::from_spans(spans)
}

/// Where the footer stands inside `area`: behind the live prefix, where there is
/// room for more than that.
pub fn prompt_footer_area(area: Rect) -> (r: Rect)
    requires
        area.x + area.width <= u16::MAX,
    ensures
        r == if area.width > LIVE_PREFIX_COLS {
            Rect {
                x: (area.x + LIVE_PREFIX_COLS) as u16,
                width: (area.width - LIVE_PREFIX_COLS) as u16,
                ..area
            }
        } else {
            area
        },
        r.inside(area),
{
    if area.width > LIVE_PREFIX_COLS {
        Rect {
            x: area.x + LIVE_PREFIX_COLS,
            y: area.y,
            width: area.width - LIVE_PREFIX_COLS,
            height: area.height,
        }
    } else {
        area
    }
}

/// The prompt footer shows the directory last, in front of it the branch unless it is
/// blank, and the mark of YOLO first where that is active and nowhere else. A hint takes
/// the place of all of it.
pub proof fn law_footer_content(
    hint: Seq<char>,
    dir: Seq<char>,
    branch: Option<Seq<char>>,
    yolo_active: bool,
)
    ensures
        ({
            let spans = prompt_footer_line_v(None, dir, branch, yolo_active).spans;
            let named = branch is Some && text::trim(branch->0).len() > 0;
            &&& spans.last().content == dir
            &&& spans.len() == 4 + (if yolo_active {
                2int
            } else {
                0
            }) + (if named {
                2int
            } else {
                0
            })
            &&& yolo_active ==> spans[0].content == "▲YOLO"@ && spans[0].style.fg == Some(Color::Red)
            &&& !yolo_active ==> spans[0].content == "ctrl+g"@
            &&& named ==> spans[spans.len() - 3].content == branch->0
        }),
        prompt_footer_line_v(Some(hint), dir, branch, yolo_active).spans.len() == 2,
        prompt_footer_line_v(Some(hint), dir, branch, yolo_active).spans[1].content == hint,
{
}

} // verus!
