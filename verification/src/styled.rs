//! Styled text: spans, lines and the styles that they carry.

use vstd::prelude::*;

use crate::text;

verus! {

/// A terminal color.
#[derive(Clone, Copy, PartialEq, Eq, Structural, Debug)]
pub enum Color {
    Reset,
    Black,
    Red,
    Green,
    Yellow,
    Blue,
    Magenta,
    Cyan,
    Gray,
    DarkGray,
    LightRed,
    LightGreen,
    LightYellow,
    LightBlue,
    LightMagenta,
    LightCyan,
    White,
    Rgb(u8, u8, u8),
    Indexed(u8),
}

/// A set of text modifiers.
#[derive(Clone, Copy, PartialEq, Eq, Structural, Debug)]
pub struct Modifiers {
    pub bold: bool,
    pub dim: bool,
    pub italic: bool,
    pub underlined: bool,
    pub slow_blink: bool,
    pub rapid_blink: bool,
    pub reversed: bool,
    pub hidden: bool,
    pub crossed_out: bool,
}

impl Modifiers {
    /// The empty set.
    pub open spec fn none() -> Modifiers {
        Modifiers {
            bold: false,
            dim: false,
            italic: false,
            underlined: false,
            slow_blink: false,
            rapid_blink: false,
            reversed: false,
            hidden: false,
            crossed_out: false,
        }
    }

    /// The empty set.
    pub fn empty() -> (r: Modifiers)
        ensures
            r == Modifiers::none(),
    {
        Modifiers {
            bold: false,
            dim: false,
            italic: false,
            underlined: false,
            slow_blink: false,
            rapid_blink: false,
            reversed: false,
            hidden: false,
            crossed_out: false,
        }
    }

    /// The members of either set.
    pub open spec fn spec_union(self, other: Modifiers) -> Modifiers {
        Modifiers {
            bold: self.bold || other.bold,
            dim: self.dim || other.dim,
            italic: self.italic || other.italic,
            underlined: self.underlined || other.underlined,
            slow_blink: self.slow_blink || other.slow_blink,
            rapid_blink: self.rapid_blink || other.rapid_blink,
            reversed: self.reversed || other.reversed,
            hidden: self.hidden || other.hidden,
            crossed_out: self.crossed_out || other.crossed_out,
        }
    }

    /// The members of either set.
    pub fn union(self, other: Modifiers) -> (r: Modifiers)
        ensures
            r == self.spec_union(other),
    {
        Modifiers {
            bold: self.bold || other.bold,
            dim: self.dim || other.dim,
            italic: self.italic || other.italic,
            underlined: self.underlined || other.underlined,
            slow_blink: self.slow_blink || other.slow_blink,
            rapid_blink: self.rapid_blink || other.rapid_blink,
            reversed: self.reversed || other.reversed,
            hidden: self.hidden || other.hidden,
            crossed_out: self.crossed_out || other.crossed_out,
        }
    }

    /// The members of `self` that are not in `other`.
    pub open spec fn spec_difference(self, other: Modifiers) -> Modifiers {
        Modifiers {
            bold: self.bold && !other.bold,
            dim: self.dim && !other.dim,
            italic: self.italic && !other.italic,
            underlined: self.underlined && !other.underlined,
            slow_blink: self.slow_blink && !other.slow_blink,
            rapid_blink: self.rapid_blink && !other.rapid_blink,
            reversed: self.reversed && !other.reversed,
            hidden: self.hidden && !other.hidden,
            crossed_out: self.crossed_out && !other.crossed_out,
        }
    }

    /// The members of `self` that are not in `other`.
    pub fn difference(self, other: Modifiers) -> (r: Modifiers)
        ensures
            r == self.spec_difference(other),
    {
        Modifiers {
            bold: self.bold && !other.bold,
            dim: self.dim && !other.dim,
            italic: self.italic && !other.italic,
            underlined: self.underlined && !other.underlined,
            slow_blink: self.slow_blink && !other.slow_blink,
            rapid_blink: self.rapid_blink && !other.rapid_blink,
            reversed: self.reversed && !other.reversed,
            hidden: self.hidden && !other.hidden,
            crossed_out: self.crossed_out && !other.crossed_out,
        }
    }
}

/// The styling of a piece of text: optional colors, the modifiers that it sets
/// and the modifiers that it clears.
#[derive(Clone, Copy, PartialEq, Eq, Structural, Debug)]
pub struct Style {
    pub fg: Option<Color>,
    pub bg: Option<Color>,
    pub add: Modifiers,
    pub sub: Modifiers,
}

impl Style {
    /// The style that changes nothing.
    pub open spec fn plain() -> Style {
        Style { fg: None, bg: None, add: Modifiers::none(), sub: Modifiers::none() }
    }

    /// The style that changes nothing.
    pub fn new() -> (r: Style)
        ensures
            r == Style::plain(),
    {
        Style { fg: None, bg: None, add: Modifiers::empty(), sub: Modifiers::empty() }
    }

    /// This style with the foreground `color`.
    pub open spec fn spec_fg(self, color: Color) -> Style {
        Style { fg: Some(color), ..self }
    }

    /// This style with the foreground `color`.
    pub fn with_fg(self, color: Color) -> (r: Style)
        ensures
            r == self.spec_fg(color),
    {
        Style { fg: Some(color), bg: self.bg, add: self.add, sub: self.sub }
    }

    /// This style with the modifiers `m` set.
    pub open spec fn spec_add(self, m: Modifiers) -> Style {
        Style { add: self.add.spec_union(m), sub: self.sub.spec_difference(m), ..self }
    }

    /// This style with the modifiers `m` set.
    pub fn add_modifiers(self, m: Modifiers) -> (r: Style)
        ensures
            r == self.spec_add(m),
    {
        Style { fg: self.fg, bg: self.bg, add: self.add.union(m), sub: self.sub.difference(m) }
    }

    /// This style, bold.
    pub open spec fn spec_bold(self) -> Style {
        self.spec_add(Modifiers { bold: true, ..Modifiers::none() })
    }

    /// This style, bold.
    pub fn bold(self) -> (r: Style)
        ensures
            r == self.spec_bold(),
    {
        let mut m = Modifiers::empty();
        m.bold = true;
        self.add_modifiers(m)
    }

    /// This style, dim.
    pub open spec fn spec_dim(self) -> Style {
        self.spec_add(Modifiers { dim: true, ..Modifiers::none() })
    }

    /// This style, dim.
    pub fn dim(self) -> (r: Style)
        ensures
            r == self.spec_dim(),
    {
        let mut m = Modifiers::empty();
        m.dim = true;
        self.add_modifiers(m)
    }

    /// This style, italic.
    pub open spec fn spec_italic(self) -> Style {
        self.spec_add(Modifiers { italic: true, ..Modifiers::none() })
    }

    /// This style, italic.
    pub fn italic(self) -> (r: Style)
        ensures
            r == self.spec_italic(),
    {
        let mut m = Modifiers::empty();
        m.italic = true;
        self.add_modifiers(m)
    }

    /// This style, underlined.
    pub open spec fn spec_underlined(self) -> Style {
        self.spec_add(Modifiers { underlined: true, ..Modifiers::none() })
    }

    /// This style, underlined.
    pub fn underlined(self) -> (r: Style)
        ensures
            r == self.spec_underlined(),
    {
        let mut m = Modifiers::empty();
        m.underlined = true;
        self.add_modifiers(m)
    }

    /// This style, crossed out.
    pub open spec fn spec_crossed_out(self) -> Style {
        self.spec_add(Modifiers { crossed_out: true, ..Modifiers::none() })
    }

    /// This style, crossed out.
    pub fn crossed_out(self) -> (r: Style)
        ensures
            r == self.spec_crossed_out(),
    {
        let mut m = Modifiers::empty();
        m.crossed_out = true;
        self.add_modifiers(m)
    }

    /// `self` overlaid with `other`: the colors of `other` win where it has
    /// them, and so do the modifiers that it sets or clears.
    pub open spec fn spec_patch(self, other: Style) -> Style {
        Style {
            fg: if other.fg is Some { other.fg } else { self.fg },
            bg: if other.bg is Some { other.bg } else { self.bg },
            add: self.add.spec_difference(other.sub).spec_union(other.add),
            sub: self.sub.spec_difference(other.add).spec_union(other.sub),
        }
    }

    /// `self` overlaid with `other`.
    pub fn patch(self, other: Style) -> (r: Style)
        ensures
            r == self.spec_patch(other),
    {
        Style {
            fg: if other.fg.is_some() { other.fg } else { self.fg },
            bg: if other.bg.is_some() { other.bg } else { self.bg },
            add: self.add.difference(other.sub).union(other.add),
            sub: self.sub.difference(other.add).union(other.sub),
        }
    }
}

/// A run of text in one style.
#[derive(Debug)]
pub struct Span {
    pub content: String,
    pub style: Style,
}

/// What a [`Span`] shows.
#[verifier::ext_equal]
pub struct SpanV {
    pub content: Seq<char>,
    pub style: Style,
}

impl View for Span {
    type V = SpanV;

    open spec fn view(&self) -> SpanV {
        SpanV { content: self.content@, style: self.style }
    }
}

/// The span that shows `content` in `style`.
pub open spec fn span_v(content: Seq<char>, style: Style) -> SpanV {
    SpanV { content, style }
}

impl Span {
    /// The span that shows `content` in `style`.
    pub fn styled(content: String, style: Style) -> (r: Span)
        ensures
            r@ == span_v(content@, style),
    {
        Span { content, style }
    }

    /// The span that shows `content` in the style that changes nothing.
    pub fn plain(content: &str) -> (r: Span)
        ensures
            r@ == span_v(content@, Style::plain()),
    {
        Span { content: content.to_string(), style: Style::new() }
    }

    /// The span that shows `content` in `style`.
    pub fn of(content: &str, style: Style) -> (r: Span)
        ensures
            r@ == span_v(content@, style),
    {
        Span { content: content.to_string(), style }
    }

    /// A span that shows the same.
    pub fn duplicate(&self) -> (r: Span)
        ensures
            r@ == self@,
    {
        Span { content: self.content.clone(), style: self.style }
    }
}

/// A line of styled text, with a style of its own.
#[derive(Debug)]
pub struct Line {
    pub style: Style,
    pub spans: Vec<Span>,
}

/// What a [`Line`] shows.
#[verifier::ext_equal]
pub struct LineV {
    pub style: Style,
    pub spans: Seq<SpanV>,
}

/// What the spans of `spans` show.
pub open spec fn spans_view(spans: Seq<Span>) -> Seq<SpanV> {
    spans.map_values(|s: Span| s@)
}

/// What the lines of `lines` show.
pub open spec fn lines_view(lines: Seq<Line>) -> Seq<LineV> {
    lines.map_values(|l: Line| l@)
}

impl View for Line {
    type V = LineV;

    open spec fn view(&self) -> LineV {
        LineV { style: self.style, spans: spans_view(self.spans@) }
    }
}

/// The line made of `spans`, with no style of its own.
pub open spec fn line_v(spans: Seq<SpanV>) -> LineV {
    LineV { style: Style::plain(), spans }
}

/// The line that shows `content`: one plain span for each line of it.
pub open spec fn text_line_v(content: Seq<char>) -> LineV {
    line_v(text::lines(content).map_values(|t: Seq<char>| span_v(t, Style::plain())))
}

/// The line without spans, which shows nothing.
pub open spec fn blank_line_v() -> LineV {
    line_v(seq![])
}

/// The characters that `line` shows, whatever their style.
pub open spec fn line_text(line: LineV) -> Seq<char> {
    spans_text(line.spans)
}

/// The characters that `spans` show, whatever their style.
pub open spec fn spans_text(spans: Seq<SpanV>) -> Seq<char>
    decreases spans.len(),
{
    if spans.len() == 0 {
        seq![]
    } else {
        spans_text(spans.drop_last()) + spans.last().content
    }
}

impl Line {
    /// The line made of `spans`, with no style of its own.
    pub fn from_spans(spans: Vec<Span>) -> (r: Line)
        ensures
            r@ == line_v(spans_view(spans@)),
    {
        Line { style: Style::new(), spans }
    }

    /// The line that shows `content`: one plain span for each line of it.
    pub fn from_text(content: &str) -> (r: Line)
        ensures
            r@ == text_line_v(content@),
    {
        let parts = text::split_lines(content);
        let mut spans: Vec<Span> = Vec::new();
        let mut i: usize = 0;
        while i < parts.len()
            invariant
                i <= parts@.len(),
                spans@.len() == i,
                forall|k: int|
                    0 <= k < i ==> (#[trigger] spans@[k])@ == span_v(parts@[k]@, Style::plain()),
            decreases parts@.len() - i,
        {
            spans.push(Span::plain(parts[i].as_str()));
            i += 1;
        }
        let r = Line { style: Style::new(), spans };
        proof {
            let parsed = text::lines(content@);
            assert(forall|k: int| 0 <= k < parts@.len() ==> parsed[k] == (#[trigger] parts@[k])@) by {
                assert(text::texts(parts@) == parsed);
            }
            assert(r@.spans =~= text_line_v(content@).spans);
        }
        r
    }

    /// The line that shows `content` as one span in `style`.
    pub fn from_styled(content: &str, style: Style) -> (r: Line)
        ensures
            r@ == line_v(seq![span_v(content@, style)]),
    {
        let mut spans: Vec<Span> = Vec::new();
        spans.push(Span::of(content, style));
        Line::from_span_vec(spans)
    }

    fn from_span_vec(spans: Vec<Span>) -> (r: Line)
        requires
            spans@.len() == 1,
        ensures
            r@ == line_v(seq![spans@[0]@]),
    {
        let r = Line { style: Style::new(), spans };
        assert(r@.spans =~= seq![spans@[0]@]);
        r
    }

    /// The line without spans.
    pub fn blank() -> (r: Line)
        ensures
            r@ == blank_line_v(),
    {
        let r = Line { style: Style::new(), spans: Vec::new() };
        assert(r@.spans =~= seq![]);
        r
    }

    /// A line that shows the same.
    pub fn duplicate(&self) -> (r: Line)
        ensures
            r@ == self@,
    {
        let mut spans: Vec<Span> = Vec::new();
        let mut i: usize = 0;
        while i < self.spans.len()
            invariant
                i <= self.spans@.len(),
                spans@.len() == i,
                forall|k: int| 0 <= k < i ==> (#[trigger] spans@[k])@ == self.spans@[k]@,
            decreases self.spans@.len() - i,
        {
            spans.push(self.spans[i].duplicate());
            i += 1;
        }
        let r = Line { style: self.style, spans };
        assert(r@.spans =~= self@.spans);
        r
    }

    /// The text of the line, whatever its style.
    pub fn text(&self) -> (r: String)
        ensures
            r@ == line_text(self@),
    {
        let mut out = String::new();
        let mut i: usize = 0;
        assert(self@.spans.take(0) =~= seq![]);
        while i < self.spans.len()
            invariant
                i <= self.spans@.len(),
                out@ == spans_text(self@.spans.take(i as int)),
            decreases self.spans@.len() - i,
        {
            out.append(self.spans[i].content.as_str());
            proof {
                let next = self@.spans.take(i + 1);
                assert(next.drop_last() =~= self@.spans.take(i as int));
                assert(next.last() == self.spans@[i as int]@);
            }
            i += 1;
        }
        assert(self@.spans.take(i as int) =~= self@.spans);
        out
    }
}

/// A copy of `lines`.
pub fn duplicate_lines(lines: &Vec<Line>) -> (r: Vec<Line>)
    ensures
        lines_view(r@) == lines_view(lines@),
{
    let mut out: Vec<Line> = Vec::new();
    let mut i: usize = 0;
    while i < lines.len()
        invariant
            i <= lines@.len(),
            out@.len() == i,
            forall|k: int| 0 <= k < i ==> (#[trigger] out@[k])@ == lines@[k]@,
        decreases lines@.len() - i,
    {
        out.push(lines[i].duplicate());
        i += 1;
    }
    assert(lines_view(out@) =~= lines_view(lines@));
    out
}

/// Appends `tail` to `lines`.
pub fn append_lines(lines: &mut Vec<Line>, tail: Vec<Line>)
    ensures
        final(lines)@ == old(lines)@ + tail@,
        lines_view(final(lines)@) == lines_view(old(lines)@) + lines_view(tail@),
{
    let ghost added = tail@;
    let mut tail = tail;
    lines.append(&mut tail);
    assert(lines_view(lines@) =~= lines_view(old(lines)@) + lines_view(added));
}

/// `line` with every span dim.
pub open spec fn dim_line(line: LineV) -> LineV {
    LineV {
        style: line.style,
        spans: line.spans.map_values(|s: SpanV| span_v(s.content, s.style.spec_dim())),
    }
}

/// `lines` with every span dim.
pub open spec fn dim_lines_v(lines: Seq<LineV>) -> Seq<LineV> {
    lines.map_values(|l: LineV| dim_line(l))
}

/// Makes every span of `lines` dim.
pub fn dim_lines(lines: Vec<Line>) -> (r: Vec<Line>)
    ensures
        lines_view(r@) == dim_lines_v(lines_view(lines@)),
{
    let mut out: Vec<Line> = Vec::new();
    let mut i: usize = 0;
    while i < lines.len()
        invariant
            i <= lines@.len(),
            out@.len() == i,
            forall|k: int| 0 <= k < i ==> (#[trigger] out@[k])@ == dim_line(lines@[k]@),
        decreases lines@.len() - i,
    {
        let line = &lines[i];
        let mut spans: Vec<Span> = Vec::new();
        let mut j: usize = 0;
        while j < line.spans.len()
            invariant
                j <= line.spans@.len(),
                spans@.len() == j,
                forall|k: int|
                    0 <= k < j ==> (#[trigger] spans@[k])@ == span_v(
                        line.spans@[k].content@,
                        line.spans@[k].style.spec_dim(),
                    ),
            decreases line.spans@.len() - j,
        {
            let span = &line.spans[j];
            spans.push(Span::styled(span.content.clone(), span.style.dim()));
            j += 1;
        }
        let dimmed = Line { style: line.style, spans };
        assert(dimmed@.spans =~= dim_line(line@).spans);
        out.push(dimmed);
        i += 1;
    }
    assert(lines_view(out@) =~= dim_lines_v(lines_view(lines@)));
    out
}

/// `line` with `prefix` in front of its spans.
pub open spec fn prefix_line(line: LineV, prefix: SpanV) -> LineV {
    LineV { style: line.style, spans: seq![prefix] + line.spans }
}

/// `lines` with `initial` in front of the first line and `subsequent` in front
/// of the others.
pub open spec fn prefix_lines_v(
    lines: Seq<LineV>,
    initial: SpanV,
    subsequent: SpanV,
) -> Seq<LineV> {
    lines.map(|i: int, l: LineV| prefix_line(l, if i == 0 { initial } else { subsequent }))
}

/// `lines` with `initial` in front of the first line and `subsequent` in front
/// of the others.
pub fn prefix_lines(lines: Vec<Line>, initial: &Span, subsequent: &Span) -> (r: Vec<Line>)
    ensures
        lines_view(r@) == prefix_lines_v(lines_view(lines@), initial@, subsequent@),
{
    let ghost source = lines_view(lines@);
    let mut out: Vec<Line> = Vec::new();
    let mut i: usize = 0;
    while i < lines.len()
        invariant
            i <= lines@.len(),
            out@.len() == i,
            source == lines_view(lines@),
            forall|k: int|
                0 <= k < i ==> (#[trigger] out@[k])@ == prefix_line(
                    source[k],
                    if k == 0 { initial@ } else { subsequent@ },
                ),
        decreases lines@.len() - i,
    {
        let mut spans: Vec<Span> = Vec::new();
        if i == 0 {
            spans.push(initial.duplicate());
        } else {
            spans.push(subsequent.duplicate());
        }
        let mut copy = lines[i].duplicate();
        let ghost copied = copy@;
        let ghost copied_spans = copy.spans@;
        let ghost head = spans@[0]@;
        spans.append(&mut copy.spans);
        let line = Line { style: copy.style, spans };
        assert(line@.spans =~= seq![head] + copied.spans) by {
            assert(line.spans@.len() == 1 + copied_spans.len());
            assert(forall|k: int| 1 <= k < line.spans@.len() ==> line.spans@[k] == copied_spans[k - 1]);
        }
        out.push(line);
        i += 1;
    }
    assert(lines_view(out@) =~= prefix_lines_v(source, initial@, subsequent@));
    out
}

/// What spans show together is what they show one behind the other.
pub proof fn lemma_spans_text(a: Seq<SpanV>, b: Seq<SpanV>)
    ensures
        spans_text(a + b) == spans_text(a) + spans_text(b),
    decreases b.len(),
{
    if b.len() == 0 {
        assert(a + b =~= a);
        assert(spans_text(a) + spans_text(b) =~= spans_text(a));
    } else {
        lemma_spans_text(a, b.drop_last());
        assert((a + b).drop_last() =~= a + b.drop_last());
        assert(spans_text(a + b) =~= spans_text(a) + spans_text(b));
    }
}

/// A line that is made dim shows the same text, every span of it dim.
pub proof fn law_dim_keeps_the_text(line: LineV)
    ensures
        line_text(dim_line(line)) == line_text(line),
        dim_line(line).spans.len() == line.spans.len(),
        forall|i: int|
            #![trigger dim_line(line).spans[i]]
            0 <= i < line.spans.len() ==> dim_line(line).spans[i].content == line.spans[i].content
                && dim_line(line).spans[i].style.add.dim,
{
    lemma_dim_spans(line.spans);
}

proof fn lemma_dim_spans(spans: Seq<SpanV>)
    ensures
        spans_text(spans.map_values(|s: SpanV| span_v(s.content, s.style.spec_dim())))
            == spans_text(spans),
    decreases spans.len(),
{
    if spans.len() > 0 {
        lemma_dim_spans(spans.drop_last());
        let dim = spans.map_values(|s: SpanV| span_v(s.content, s.style.spec_dim()));
        assert(dim.drop_last() =~= spans.drop_last().map_values(
            |s: SpanV| span_v(s.content, s.style.spec_dim()),
        ));
    }
}

/// Each step of a style changes what it is named for and nothing else.
pub proof fn law_style_steps(style: Style, color: Color)
    ensures
        style.spec_fg(color) == (Style { fg: Some(color), ..style }),
        style.spec_bold().add == (Modifiers { bold: true, ..style.add }),
        style.spec_dim().add == (Modifiers { dim: true, ..style.add }),
        style.spec_italic().add == (Modifiers { italic: true, ..style.add }),
        style.spec_underlined().add == (Modifiers { underlined: true, ..style.add }),
        style.spec_crossed_out().add == (Modifiers { crossed_out: true, ..style.add }),
        style.spec_bold().fg == style.fg && style.spec_bold().bg == style.bg,
        style.spec_dim().fg == style.fg && style.spec_dim().bg == style.bg,
        style.spec_bold().sub == (Modifiers { bold: false, ..style.sub }),
        style.spec_dim().sub == (Modifiers { dim: false, ..style.sub }),
{
}

/// Overlaid styles: what the upper one sets wins, what it clears goes, and what it
/// does not mention stays.
pub proof fn law_upper_style_wins(lower: Style, upper: Style)
    ensures
        ({
            let both = lower.spec_patch(upper);
            &&& upper.fg is Some ==> both.fg == upper.fg
            &&& upper.fg is None ==> both.fg == lower.fg
            &&& upper.bg is Some ==> both.bg == upper.bg
            &&& upper.bg is None ==> both.bg == lower.bg
            &&& upper.add.bold ==> both.add.bold
            &&& upper.sub.bold && !upper.add.bold ==> !both.add.bold && both.sub.bold
            &&& !upper.add.bold && !upper.sub.bold ==> both.add.bold == lower.add.bold
                && both.sub.bold == lower.sub.bold
        }),
{
}

/// What holds of bold text when styles are overlaid holds of dim text too.
pub proof fn law_upper_style_wins_on_dim(lower: Style, upper: Style)
    ensures
        ({
            let both = lower.spec_patch(upper);
            &&& upper.add.dim ==> both.add.dim
            &&& upper.sub.dim && !upper.add.dim ==> !both.add.dim && both.sub.dim
            &&& !upper.add.dim && !upper.sub.dim ==> both.add.dim == lower.add.dim && both.sub.dim
                == lower.sub.dim
        }),
{
}

/// Lines with a prefix show what they showed behind it: the first line behind the
/// first prefix, every other line behind the second.
pub proof fn law_prefixed_lines_show_the_same(
    lines: Seq<LineV>,
    initial: SpanV,
    subsequent: SpanV,
    i: int,
)
    requires
        0 <= i < lines.len(),
    ensures
        ({
            let r = prefix_lines_v(lines, initial, subsequent);
            let prefix = if i == 0 {
                initial
            } else {
                subsequent
            };
            &&& r.len() == lines.len()
            &&& r[i].spans.len() == lines[i].spans.len() + 1
            &&& r[i].spans[0] == prefix
            &&& r[i].spans.skip(1) == lines[i].spans
            &&& line_text(r[i]) == prefix.content + line_text(lines[i])
        }),
{
    let r = prefix_lines_v(lines, initial, subsequent);
    let prefix = if i == 0 {
        initial
    } else {
        subsequent
    };
    assert(r[i].spans =~= seq![prefix] + lines[i].spans);
    assert(r[i].spans.skip(1) =~= lines[i].spans);
    lemma_spans_text(seq![prefix], lines[i].spans);
    assert(seq![prefix].drop_last() =~= seq![]);
    assert(spans_text(Seq::<SpanV>::empty()) =~= seq![]);
    assert(spans_text(seq![prefix]) =~= prefix.content);
}

} // verus!
