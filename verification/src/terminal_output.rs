//! The terminal commands that write styled lines.

use vstd::prelude::*;

use crate::styled::{lines_view, spans_text, Color, Line, LineV, Modifiers, SpanV, Style};

verus! {

/// A text attribute of the terminal.
#[derive(Clone, Copy, PartialEq, Eq, Structural, Debug)]
pub enum Attribute {
    Reset,
    Bold,
    Dim,
    Italic,
    Underlined,
    SlowBlink,
    RapidBlink,
    Reverse,
    CrossedOut,
    NormalIntensity,
    NoItalic,
    NoUnderline,
    NoBlink,
    NoReverse,
    NotCrossedOut,
}

/// A command to the terminal.
#[derive(Debug)]
pub enum TermOp {
    SetAttribute(Attribute),
    SetColors { fg: Color, bg: Color },
    ResetForeground,
    ResetBackground,
    Print(String),
}

/// What a [`TermOp`] does.
#[verifier::ext_equal]
pub enum TermOpV {
    SetAttribute(Attribute),
    SetColors { fg: Color, bg: Color },
    ResetForeground,
    ResetBackground,
    Print(Seq<char>),
}

impl View for TermOp {
    type V = TermOpV;

    open spec fn view(&self) -> TermOpV {
        match *self {
            TermOp::SetAttribute(a) => TermOpV::SetAttribute(a),
            TermOp::SetColors { fg, bg } => TermOpV::SetColors { fg, bg },
            TermOp::ResetForeground => TermOpV::ResetForeground,
            TermOp::ResetBackground => TermOpV::ResetBackground,
            TermOp::Print(s) => TermOpV::Print(s@),
        }
    }
}

/// What the commands of `ops` do.
pub open spec fn ops_view(ops: Seq<TermOp>) -> Seq<TermOpV> {
    ops.map_values(|op: TermOp| op@)
}

/// The command for `a` where `wanted`.
pub open spec fn attribute_if(wanted: bool, a: Attribute) -> Seq<TermOpV> {
    if wanted {
        seq![TermOpV::SetAttribute(a)]
    } else {
        seq![]
    }
}

/// The commands that switch off what `from` has and `to` has not.
#[verifier::opaque]
pub open spec fn removal_ops(from: Modifiers, to: Modifiers) -> Seq<TermOpV> {
    let removed = from.spec_difference(to);
    attribute_if(removed.reversed, Attribute::NoReverse)
        + attribute_if(removed.bold, Attribute::NormalIntensity)
        + attribute_if(removed.bold && to.dim, Attribute::Dim)
        + attribute_if(removed.italic, Attribute::NoItalic)
        + attribute_if(removed.underlined, Attribute::NoUnderline)
        + attribute_if(removed.dim, Attribute::NormalIntensity)
        + attribute_if(removed.crossed_out, Attribute::NotCrossedOut)
        + attribute_if(removed.slow_blink || removed.rapid_blink, Attribute::NoBlink)
}

/// The commands that switch on what `to` has and `from` has not.
#[verifier::opaque]
pub open spec fn addition_ops(from: Modifiers, to: Modifiers) -> Seq<TermOpV> {
    let added = to.spec_difference(from);
    attribute_if(added.reversed, Attribute::Reverse)
        + attribute_if(added.bold, Attribute::Bold)
        + attribute_if(added.italic, Attribute::Italic)
        + attribute_if(added.underlined, Attribute::Underlined)
        + attribute_if(added.dim, Attribute::Dim)
        + attribute_if(added.crossed_out, Attribute::CrossedOut)
        + attribute_if(added.slow_blink, Attribute::SlowBlink)
        + attribute_if(added.rapid_blink, Attribute::RapidBlink)
}

/// A change of modifiers.
#[derive(Clone, Copy, Debug)]
pub struct ModifierDiff {
    pub from: Modifiers,
    pub to: Modifiers,
}

fn push_if(out: &mut Vec<TermOp>, wanted: bool, a: Attribute)
    ensures
        ops_view(final(out)@) == ops_view(old(out)@) + attribute_if(wanted, a),
{
    if wanted {
        out.push(TermOp::SetAttribute(a));
    }
    assert(ops_view(out@) =~= ops_view(old(out)@) + attribute_if(wanted, a));
}

impl ModifierDiff {
    fn removals(self) -> (out: Vec<TermOp>)
        ensures
            ops_view(out@) == removal_ops(self.from, self.to),
    {
        let mut out: Vec<TermOp> = Vec::new();
        let removed = self.from.difference(self.to);
        push_if(&mut out, removed.reversed, Attribute::NoReverse);
        assert(ops_view(out@) =~= attribute_if(removed.reversed, Attribute::NoReverse));
        push_if(&mut out, removed.bold, Attribute::NormalIntensity);
        push_if(&mut out, removed.bold && self.to.dim, Attribute::Dim);
        push_if(&mut out, removed.italic, Attribute::NoItalic);
        push_if(&mut out, removed.underlined, Attribute::NoUnderline);
        push_if(&mut out, removed.dim, Attribute::NormalIntensity);
        push_if(&mut out, removed.crossed_out, Attribute::NotCrossedOut);
        push_if(&mut out, removed.slow_blink || removed.rapid_blink, Attribute::NoBlink);
        proof {
            reveal(removal_ops);
        }
        out
    }

    fn additions(self) -> (out: Vec<TermOp>)
        ensures
            ops_view(out@) == addition_ops(self.from, self.to),
    {
        let mut out: Vec<TermOp> = Vec::new();
        let added = self.to.difference(self.from);
        push_if(&mut out, added.reversed, Attribute::Reverse);
        assert(ops_view(out@) =~= attribute_if(added.reversed, Attribute::Reverse));
        push_if(&mut out, added.bold, Attribute::Bold);
        push_if(&mut out, added.italic, Attribute::Italic);
        push_if(&mut out, added.underlined, Attribute::Underlined);
        push_if(&mut out, added.dim, Attribute::Dim);
        push_if(&mut out, added.crossed_out, Attribute::CrossedOut);
        push_if(&mut out, added.slow_blink, Attribute::SlowBlink);
        push_if(&mut out, added.rapid_blink, Attribute::RapidBlink);
        proof {
            reveal(addition_ops);
        }
        out
    }

    /// Appends the commands that make the change: first what goes, then what comes.
    pub fn queue(self, out: &mut Vec<TermOp>)
        ensures
            ops_view(final(out)@) == ops_view(old(out)@) + (removal_ops(self.from, self.to)
                + addition_ops(self.from, self.to)),
    {
        let mut removals = self.removals();
        let mut additions = self.additions();
        let ghost gone = removals@;
        let ghost come = additions@;
        out.append(&mut removals);
        out.append(&mut additions);
        assert(ops_view(out@) =~= ops_view(old(out)@) + (ops_view(gone) + ops_view(come)));
    }
}

/// The look of text at some point of the output.
#[verifier::ext_equal]
pub struct Pen {
    pub fg: Color,
    pub bg: Color,
    pub modifiers: Modifiers,
}

/// The look of text at the start of a line.
pub open spec fn fresh_pen() -> Pen {
    Pen { fg: Color::Reset, bg: Color::Reset, modifiers: Modifiers::none() }
}

/// The look of `span` inside a line in `line_style`.
pub open spec fn span_pen(span: SpanV, line_style: Style) -> Pen {
    let style = span.style.spec_patch(line_style);
    Pen {
        fg: match style.fg {
            Some(c) => c,
            None => Color::Reset,
        },
        bg: match style.bg {
            Some(c) => c,
            None => Color::Reset,
        },
        modifiers: style.add.spec_difference(style.sub),
    }
}

/// The commands that change the look from `pen` to `next`.
pub open spec fn pen_ops(pen: Pen, next: Pen) -> Seq<TermOpV> {
    (if next.modifiers != pen.modifiers {
        removal_ops(pen.modifiers, next.modifiers) + addition_ops(pen.modifiers, next.modifiers)
    } else {
        seq![]
    }) + (if next.fg != pen.fg || next.bg != pen.bg {
        seq![TermOpV::SetColors { fg: next.fg, bg: next.bg }]
    } else {
        seq![]
    })
}

/// The look behind the last of `spans`.
pub open spec fn last_pen(spans: Seq<SpanV>, line_style: Style) -> Pen {
    if spans.len() == 0 {
        fresh_pen()
    } else {
        span_pen(spans.last(), line_style)
    }
}

/// The commands that write `spans` from the start of a line in `line_style`.
pub open spec fn spans_ops(spans: Seq<SpanV>, line_style: Style) -> Seq<TermOpV>
    decreases spans.len(),
{
    if spans.len() == 0 {
        seq![]
    } else {
        let before = spans.drop_last();
        spans_ops(before, line_style) + pen_ops(
            last_pen(before, line_style),
            span_pen(spans.last(), line_style),
        ) + seq![TermOpV::Print(spans.last().content)]
    }
}

/// The commands behind a colored line.
pub open spec fn reset_ops() -> Seq<TermOpV> {
    seq![
        TermOpV::ResetForeground,
        TermOpV::ResetBackground,
        TermOpV::SetAttribute(Attribute::Reset),
    ]
}

/// The commands that write `line`: its bare text, or its text with all colors
/// and modifiers and a reset behind it.
pub open spec fn line_ops(line: LineV, color_enabled: bool) -> Seq<TermOpV> {
    if color_enabled {
        spans_ops(line.spans, line.style) + reset_ops()
    } else {
        line.spans.map_values(|s: SpanV| TermOpV::Print(s.content))
    }
}

/// The commands that write `lines`, with a line feed between two of them.
pub open spec fn lines_ops(lines: Seq<LineV>, color_enabled: bool) -> Seq<TermOpV>
    decreases lines.len(),
{
    if lines.len() == 0 {
        seq![]
    } else {
        let before = lines.drop_last();
        lines_ops(before, color_enabled) + (if before.len() > 0 {
            seq![TermOpV::Print(seq!['\n'])]
        } else {
            seq![]
        }) + line_ops(lines.last(), color_enabled)
    }
}

fn push_print(out: &mut Vec<TermOp>, content: String)
    ensures
        ops_view(final(out)@) == ops_view(old(out)@) + seq![TermOpV::Print(content@)],
{
    out.push(TermOp::Print(content));
    assert(ops_view(out@) =~= ops_view(old(out)@) + seq![TermOpV::Print(content@)]);
}

/// Appends the commands that write `line`.
pub fn write_line(out: &mut Vec<TermOp>, line: &Line, color_enabled: bool)
    ensures
        ops_view(final(out)@) == ops_view(old(out)@) + line_ops(line@, color_enabled),
{
    let ghost start = ops_view(out@);
    let ghost spans = line@.spans;
    let mut i: usize = 0;
    if !color_enabled {
        let ghost bare = line_ops(line@, false);
        assert(bare.take(0) =~= seq![]);
        assert(start + seq![] =~= start);
        while i < line.spans.len()
            invariant
                i <= line.spans@.len(),
                spans == line@.spans,
                bare == line_ops(line@, false),
                ops_view(out@) == start + bare.take(i as int),
            decreases line.spans@.len() - i,
        {
            push_print(out, line.spans[i].content.clone());
            proof {
                assert(bare[i as int] == TermOpV::Print(line.spans@[i as int].content@));
                assert(bare.take(i + 1) =~= bare.take(i as int) + seq![bare[i as int]]);
                assert(ops_view(out@) =~= start + bare.take(i + 1));
            }
            i += 1;
        }
        assert(bare.take(i as int) =~= bare);
        return;
    }
    let mut fg = Color::Reset;
    let mut bg = Color::Reset;
    let mut last_modifiers = Modifiers::empty();
    assert(spans.take(0) =~= seq![]);
    assert(start + seq![] =~= start);
    while i < line.spans.len()
        invariant
            i <= line.spans@.len(),
            spans == line@.spans,
            ops_view(out@) == start + spans_ops(spans.take(i as int), line.style),
            (Pen { fg, bg, modifiers: last_modifiers }) == last_pen(
                spans.take(i as int),
                line.style,
            ),
        decreases line.spans@.len() - i,
    {
        let ghost pen = Pen { fg, bg, modifiers: last_modifiers };
        let ghost ops0 = ops_view(out@);
        let style = line.spans[i].style.patch(line.style);
        let modifiers = style.add.difference(style.sub);
        let next_fg = match style.fg {
            Some(c) => c,
            None => Color::Reset,
        };
        let next_bg = match style.bg {
            Some(c) => c,
            None => Color::Reset,
        };
        let ghost next = span_pen(spans[i as int], line.style);
        assert(next == Pen { fg: next_fg, bg: next_bg, modifiers });
        if modifiers != last_modifiers {
            (ModifierDiff { from: last_modifiers, to: modifiers }).queue(out);
            last_modifiers = modifiers;
        }
        let ghost ops1 = ops_view(out@);
        if next_fg != fg || next_bg != bg {
            out.push(TermOp::SetColors { fg: next_fg, bg: next_bg });
            assert(ops_view(out@) =~= ops1 + seq![
                TermOpV::SetColors { fg: next_fg, bg: next_bg },
            ]);
            fg = next_fg;
            bg = next_bg;
        }
        assert(ops_view(out@) =~= ops0 + pen_ops(pen, next));
        push_print(out, line.spans[i].content.clone());
        proof {
            let upto = spans.take(i + 1);
            assert(upto.drop_last() =~= spans.take(i as int));
            assert(upto.last() == spans[i as int]);
            assert(ops_view(out@) =~= start + spans_ops(upto, line.style));
        }
        i += 1;
    }
    assert(spans.take(i as int) =~= spans);
    let ghost written = ops_view(out@);
    out.push(TermOp::ResetForeground);
    out.push(TermOp::ResetBackground);
    out.push(TermOp::SetAttribute(Attribute::Reset));
    assert(ops_view(out@) =~= written + reset_ops());
    assert(ops_view(out@) =~= start + line_ops(line@, true));
}

/// The commands that write `lines`.
pub fn render_lines(lines: &Vec<Line>, color_enabled: bool) -> (r: Vec<TermOp>)
    ensures
        ops_view(r@) == lines_ops(lines_view(lines@), color_enabled),
{
    let ghost source = lines_view(lines@);
    let mut out: Vec<TermOp> = Vec::new();
    let mut i: usize = 0;
    assert(source.take(0) =~= seq![]);
    assert(ops_view(out@) =~= seq![]);
    while i < lines.len()
        invariant
            i <= lines@.len(),
            source == lines_view(lines@),
            ops_view(out@) == lines_ops(source.take(i as int), color_enabled),
        decreases lines@.len() - i,
    {
        let ghost before = ops_view(out@);
        if i > 0 {
            let mut feed = String::new();
            feed.push('\n');
            assert(feed@ =~= seq!['\n']);
            push_print(&mut out, feed);
        }
        write_line(&mut out, &lines[i], color_enabled);
        proof {
            let upto = source.take(i + 1);
            assert(upto.drop_last() =~= source.take(i as int));
            assert(upto.last() == lines@[i as int]@);
            assert(ops_view(out@) =~= lines_ops(upto, color_enabled));
        }
        i += 1;
    }
    assert(source.take(i as int) =~= source);
    out
}

/// The text that `ops` print.
pub open spec fn printed(ops: Seq<TermOpV>) -> Seq<char>
    decreases ops.len(),
{
    if ops.len() == 0 {
        seq![]
    } else {
        printed(ops.drop_last()) + match ops.last() {
            TermOpV::Print(s) => s,
            _ => seq![],
        }
    }
}

/// The text of `ops` where they only print.
pub fn printed_text(ops: &Vec<TermOp>) -> (r: String)
    ensures
        r@ == printed(ops_view(ops@)),
{
    let ghost source = ops_view(ops@);
    let mut out = String::new();
    let mut i: usize = 0;
    assert(source.take(0) =~= seq![]);
    while i < ops.len()
        invariant
            i <= ops@.len(),
            source == ops_view(ops@),
            out@ == printed(source.take(i as int)),
        decreases ops@.len() - i,
    {
        proof {
            let upto = source.take(i + 1);
            assert(upto.drop_last() =~= source.take(i as int));
            assert(upto.last() == ops@[i as int]@);
        }
        let ghost before = out@;
        match &ops[i] {
            TermOp::Print(s) => {
                out.append(s.as_str());
            },
            _ => {
                assert(before + seq![] =~= before);
            },
        }
        i += 1;
    }
    assert(source.take(i as int) =~= source);
    out
}

proof fn lemma_printed_concat(a: Seq<TermOpV>, b: Seq<TermOpV>)
    ensures
        printed(a + b) == printed(a) + printed(b),
    decreases b.len(),
{
    if b.len() == 0 {
        assert(a + b =~= a);
        assert(printed(a) + printed(b) =~= printed(a));
    } else {
        assert((a + b).drop_last() =~= a + b.drop_last());
        lemma_printed_concat(a, b.drop_last());
        assert(printed(a + b) =~= printed(a) + printed(b));
    }
}

/// Whether `ops` print nothing.
spec fn is_silent(ops: Seq<TermOpV>) -> bool {
    forall|i: int| 0 <= i < ops.len() ==> !(#[trigger] ops[i] is Print)
}

proof fn lemma_printed_silent(ops: Seq<TermOpV>)
    requires
        is_silent(ops),
    ensures
        printed(ops) == Seq::<char>::empty(),
    decreases ops.len(),
{
    if ops.len() > 0 {
        let before = ops.drop_last();
        assert(is_silent(before)) by {
            assert forall|i: int| 0 <= i < before.len() implies !(#[trigger] before[i] is Print) by {
                assert(!(ops[i] is Print));
            }
        }
        lemma_printed_silent(before);
        assert(!(ops[ops.len() - 1] is Print));
        assert(printed(ops) =~= Seq::<char>::empty());
    }
}

proof fn lemma_silent_with(ops: Seq<TermOpV>, wanted: bool, a: Attribute)
    requires
        is_silent(ops),
    ensures
        is_silent(ops + attribute_if(wanted, a)),
{
}

proof fn lemma_silent_concat(a: Seq<TermOpV>, b: Seq<TermOpV>)
    requires
        is_silent(a),
        is_silent(b),
    ensures
        is_silent(a + b),
{
}

proof fn lemma_removal_silent(from: Modifiers, to: Modifiers)
    ensures
        is_silent(removal_ops(from, to)),
{
    reveal(removal_ops);
    let r = from.spec_difference(to);
    let s1 = attribute_if(r.reversed, Attribute::NoReverse);
    let s2 = s1 + attribute_if(r.bold, Attribute::NormalIntensity);
    let s3 = s2 + attribute_if(r.bold && to.dim, Attribute::Dim);
    let s4 = s3 + attribute_if(r.italic, Attribute::NoItalic);
    let s5 = s4 + attribute_if(r.underlined, Attribute::NoUnderline);
    let s6 = s5 + attribute_if(r.dim, Attribute::NormalIntensity);
    let s7 = s6 + attribute_if(r.crossed_out, Attribute::NotCrossedOut);
    lemma_silent_with(s1, r.bold, Attribute::NormalIntensity);
    lemma_silent_with(s2, r.bold && to.dim, Attribute::Dim);
    lemma_silent_with(s3, r.italic, Attribute::NoItalic);
    lemma_silent_with(s4, r.underlined, Attribute::NoUnderline);
    lemma_silent_with(s5, r.dim, Attribute::NormalIntensity);
    lemma_silent_with(s6, r.crossed_out, Attribute::NotCrossedOut);
    lemma_silent_with(s7, r.slow_blink || r.rapid_blink, Attribute::NoBlink);
}

proof fn lemma_addition_silent(from: Modifiers, to: Modifiers)
    ensures
        is_silent(addition_ops(from, to)),
{
    reveal(addition_ops);
    let a = to.spec_difference(from);
    let s1 = attribute_if(a.reversed, Attribute::Reverse);
    let s2 = s1 + attribute_if(a.bold, Attribute::Bold);
    let s3 = s2 + attribute_if(a.italic, Attribute::Italic);
    let s4 = s3 + attribute_if(a.underlined, Attribute::Underlined);
    let s5 = s4 + attribute_if(a.dim, Attribute::Dim);
    let s6 = s5 + attribute_if(a.crossed_out, Attribute::CrossedOut);
    let s7 = s6 + attribute_if(a.slow_blink, Attribute::SlowBlink);
    lemma_silent_with(s1, a.bold, Attribute::Bold);
    lemma_silent_with(s2, a.italic, Attribute::Italic);
    lemma_silent_with(s3, a.underlined, Attribute::Underlined);
    lemma_silent_with(s4, a.dim, Attribute::Dim);
    lemma_silent_with(s5, a.crossed_out, Attribute::CrossedOut);
    lemma_silent_with(s6, a.slow_blink, Attribute::SlowBlink);
    lemma_silent_with(s7, a.rapid_blink, Attribute::RapidBlink);
}

proof fn lemma_pen_silent(pen: Pen, next: Pen)
    ensures
        is_silent(pen_ops(pen, next)),
{
    let r = removal_ops(pen.modifiers, next.modifiers);
    let a = addition_ops(pen.modifiers, next.modifiers);
    lemma_removal_silent(pen.modifiers, next.modifiers);
    lemma_addition_silent(pen.modifiers, next.modifiers);
    lemma_silent_concat(r, a);
    let switch = if next.modifiers != pen.modifiers {
        r + a
    } else {
        seq![]
    };
    let colors = if next.fg != pen.fg || next.bg != pen.bg {
        seq![TermOpV::SetColors { fg: next.fg, bg: next.bg }]
    } else {
        seq![]
    };
    lemma_silent_concat(switch, colors);
}

proof fn lemma_spans_printed(spans: Seq<SpanV>, line_style: Style)
    ensures
        printed(spans_ops(spans, line_style)) == spans_text(spans),
        printed(spans.map_values(|s: SpanV| TermOpV::Print(s.content))) == spans_text(spans),
    decreases spans.len(),
{
    if spans.len() == 0 {
        assert(spans.map_values(|s: SpanV| TermOpV::Print(s.content)) =~= seq![]);
    } else {
        let before = spans.drop_last();
        lemma_spans_printed(before, line_style);
        let switch = pen_ops(last_pen(before, line_style), span_pen(spans.last(), line_style));
        let print = seq![TermOpV::Print(spans.last().content)];
        lemma_pen_silent(last_pen(before, line_style), span_pen(spans.last(), line_style));
        lemma_printed_silent(switch);
        lemma_printed_concat(spans_ops(before, line_style), switch);
        lemma_printed_concat(spans_ops(before, line_style) + switch, print);
        assert(print.drop_last() =~= seq![]);
        assert(printed(print.drop_last()) =~= seq![]);
        assert(printed(print) =~= spans.last().content);
        assert(printed(spans_ops(spans, line_style)) =~= spans_text(spans));
        let bare = spans.map_values(|s: SpanV| TermOpV::Print(s.content));
        assert(bare.drop_last() =~= before.map_values(|s: SpanV| TermOpV::Print(s.content)));
    }
}

proof fn lemma_line_printed(line: LineV, color_enabled: bool)
    ensures
        printed(line_ops(line, color_enabled)) == spans_text(line.spans),
{
    lemma_spans_printed(line.spans, line.style);
    if color_enabled {
        lemma_printed_silent(reset_ops());
        lemma_printed_concat(spans_ops(line.spans, line.style), reset_ops());
        assert(spans_text(line.spans) + Seq::<char>::empty() =~= spans_text(line.spans));
    }
}

/// Colors change how text looks, never which text is printed.
pub proof fn law_color_keeps_the_text(lines: Seq<LineV>)
    ensures
        printed(lines_ops(lines, true)) == printed(lines_ops(lines, false)),
    decreases lines.len(),
{
    if lines.len() > 0 {
        let before = lines.drop_last();
        law_color_keeps_the_text(before);
        let feed: Seq<TermOpV> = if before.len() > 0 {
            seq![TermOpV::Print(seq!['\n'])]
        } else {
            seq![]
        };
        lemma_line_printed(lines.last(), true);
        lemma_line_printed(lines.last(), false);
        lemma_printed_concat(lines_ops(before, true), feed);
        lemma_printed_concat(lines_ops(before, true) + feed, line_ops(lines.last(), true));
        lemma_printed_concat(lines_ops(before, false), feed);
        lemma_printed_concat(lines_ops(before, false) + feed, line_ops(lines.last(), false));
    }
}

/// The modifiers of the terminal after the attribute `a`.
pub open spec fn after_attribute(m: Modifiers, a: Attribute) -> Modifiers {
    match a {
        Attribute::Reset => Modifiers::none(),
        Attribute::Bold => Modifiers { bold: true, ..m },
        Attribute::Dim => Modifiers { dim: true, ..m },
        Attribute::Italic => Modifiers { italic: true, ..m },
        Attribute::Underlined => Modifiers { underlined: true, ..m },
        Attribute::SlowBlink => Modifiers { slow_blink: true, ..m },
        Attribute::RapidBlink => Modifiers { rapid_blink: true, ..m },
        Attribute::Reverse => Modifiers { reversed: true, ..m },
        Attribute::CrossedOut => Modifiers { crossed_out: true, ..m },
        Attribute::NormalIntensity => Modifiers { bold: false, dim: false, ..m },
        Attribute::NoItalic => Modifiers { italic: false, ..m },
        Attribute::NoUnderline => Modifiers { underlined: false, ..m },
        Attribute::NoBlink => Modifiers { slow_blink: false, rapid_blink: false, ..m },
        Attribute::NoReverse => Modifiers { reversed: false, ..m },
        Attribute::NotCrossedOut => Modifiers { crossed_out: false, ..m },
    }
}

/// The modifiers of the terminal after `ops`.
pub open spec fn after_ops(m: Modifiers, ops: Seq<TermOpV>) -> Modifiers
    decreases ops.len(),
{
    if ops.len() == 0 {
        m
    } else {
        let before = after_ops(m, ops.drop_last());
        match ops.last() {
            TermOpV::SetAttribute(a) => after_attribute(before, a),
            _ => before,
        }
    }
}

proof fn lemma_after_attribute_if(m: Modifiers, ops: Seq<TermOpV>, wanted: bool, a: Attribute)
    ensures
        after_ops(m, ops + attribute_if(wanted, a)) == if wanted {
            after_attribute(after_ops(m, ops), a)
        } else {
            after_ops(m, ops)
        },
{
    if wanted {
        assert((ops + attribute_if(wanted, a)).drop_last() =~= ops);
    } else {
        assert(ops + attribute_if(wanted, a) =~= ops);
    }
}

proof fn lemma_after_concat(m: Modifiers, a: Seq<TermOpV>, b: Seq<TermOpV>)
    ensures
        after_ops(m, a + b) == after_ops(after_ops(m, a), b),
    decreases b.len(),
{
    if b.len() == 0 {
        assert(a + b =~= a);
    } else {
        assert((a + b).drop_last() =~= a + b.drop_last());
        lemma_after_concat(m, a, b.drop_last());
    }
}

proof fn lemma_after_removal(from: Modifiers, to: Modifiers)
    ensures
        after_ops(from, removal_ops(from, to)) == ({
            let r = from.spec_difference(to);
            Modifiers {
                bold: from.bold && !r.bold && !r.dim,
                dim: (from.dim || (r.bold && to.dim)) && !r.dim && (!r.bold || to.dim),
                italic: from.italic && !r.italic,
                underlined: from.underlined && !r.underlined,
                slow_blink: from.slow_blink && !r.slow_blink && !r.rapid_blink,
                rapid_blink: from.rapid_blink && !r.slow_blink && !r.rapid_blink,
                reversed: from.reversed && !r.reversed,
                hidden: from.hidden,
                crossed_out: from.crossed_out && !r.crossed_out,
            }
        }),
{
    reveal(removal_ops);
    let r = from.spec_difference(to);
    let s0: Seq<TermOpV> = seq![];
    let s1 = attribute_if(r.reversed, Attribute::NoReverse);
    let s2 = s1 + attribute_if(r.bold, Attribute::NormalIntensity);
    let s3 = s2 + attribute_if(r.bold && to.dim, Attribute::Dim);
    let s4 = s3 + attribute_if(r.italic, Attribute::NoItalic);
    let s5 = s4 + attribute_if(r.underlined, Attribute::NoUnderline);
    let s6 = s5 + attribute_if(r.dim, Attribute::NormalIntensity);
    let s7 = s6 + attribute_if(r.crossed_out, Attribute::NotCrossedOut);
    assert(s0 + s1 =~= s1);
    lemma_after_attribute_if(from, s0, r.reversed, Attribute::NoReverse);
    lemma_after_attribute_if(from, s1, r.bold, Attribute::NormalIntensity);
    lemma_after_attribute_if(from, s2, r.bold && to.dim, Attribute::Dim);
    lemma_after_attribute_if(from, s3, r.italic, Attribute::NoItalic);
    lemma_after_attribute_if(from, s4, r.underlined, Attribute::NoUnderline);
    lemma_after_attribute_if(from, s5, r.dim, Attribute::NormalIntensity);
    lemma_after_attribute_if(from, s6, r.crossed_out, Attribute::NotCrossedOut);
    lemma_after_attribute_if(from, s7, r.slow_blink || r.rapid_blink, Attribute::NoBlink);
}

proof fn lemma_after_addition(m: Modifiers, from: Modifiers, to: Modifiers)
    ensures
        after_ops(m, addition_ops(from, to)) == ({
            let a = to.spec_difference(from);
            Modifiers { hidden: m.hidden, ..m.spec_union(a) }
        }),
{
    reveal(addition_ops);
    let a = to.spec_difference(from);
    let s0: Seq<TermOpV> = seq![];
    let s1 = attribute_if(a.reversed, Attribute::Reverse);
    let s2 = s1 + attribute_if(a.bold, Attribute::Bold);
    let s3 = s2 + attribute_if(a.italic, Attribute::Italic);
    let s4 = s3 + attribute_if(a.underlined, Attribute::Underlined);
    let s5 = s4 + attribute_if(a.dim, Attribute::Dim);
    let s6 = s5 + attribute_if(a.crossed_out, Attribute::CrossedOut);
    let s7 = s6 + attribute_if(a.slow_blink, Attribute::SlowBlink);
    assert(s0 + s1 =~= s1);
    lemma_after_attribute_if(m, s0, a.reversed, Attribute::Reverse);
    lemma_after_attribute_if(m, s1, a.bold, Attribute::Bold);
    lemma_after_attribute_if(m, s2, a.italic, Attribute::Italic);
    lemma_after_attribute_if(m, s3, a.underlined, Attribute::Underlined);
    lemma_after_attribute_if(m, s4, a.dim, Attribute::Dim);
    lemma_after_attribute_if(m, s5, a.crossed_out, Attribute::CrossedOut);
    lemma_after_attribute_if(m, s6, a.slow_blink, Attribute::SlowBlink);
    lemma_after_attribute_if(m, s7, a.rapid_blink, Attribute::RapidBlink);
}

/// The commands for a change of modifiers take a terminal that shows `from` to
/// one that shows `to`. Hidden text is never switched. Left out are the changes
/// that switch off one of two modifiers which the terminal can only switch off
/// together while the other one stays: dim under bold, and one kind of blinking.
pub proof fn law_modifier_diff_reaches_target(from: Modifiers, to: Modifiers)
    requires
        !(from.dim && !to.dim && from.bold && to.bold),
        !(from.slow_blink && !to.slow_blink && from.rapid_blink && to.rapid_blink),
        !(from.rapid_blink && !to.rapid_blink && from.slow_blink && to.slow_blink),
        from.hidden == to.hidden,
    ensures
        after_ops(from, removal_ops(from, to) + addition_ops(from, to)) == to,
{
    let m = after_ops(from, removal_ops(from, to));
    lemma_after_removal(from, to);
    lemma_after_addition(m, from, to);
    lemma_after_concat(from, removal_ops(from, to), addition_ops(from, to));
}

/// A colored line leaves no modifier behind.
pub proof fn law_colored_line_ends_reset(line: LineV, m: Modifiers)
    ensures
        after_ops(m, line_ops(line, true)) == Modifiers::none(),
{
    let body = spans_ops(line.spans, line.style);
    lemma_after_concat(m, body, reset_ops());
    let all = body + reset_ops();
    assert(all.last() == TermOpV::SetAttribute(Attribute::Reset));
}

/// Lines are written as their text, one behind the other in order, with a line feed between
/// two of them and none behind the last, in color or not.
pub proof fn law_text_is_printed(lines: Seq<LineV>, line: LineV, color_enabled: bool)
    ensures
        printed(lines_ops(seq![], color_enabled)).len() == 0,
        printed(lines_ops(lines.push(line), color_enabled)) == printed(
            lines_ops(lines, color_enabled),
        ) + (if lines.len() > 0 {
            seq!['\n']
        } else {
            seq![]
        }) + spans_text(line.spans),
{
    let all = lines.push(line);
    assert(all.drop_last() =~= lines);
    let front = lines_ops(lines, color_enabled);
    let feed = if lines.len() > 0 {
        seq![TermOpV::Print(seq!['\n'])]
    } else {
        seq![]
    };
    let own = line_ops(line, color_enabled);
    lemma_printed_concat(front + feed, own);
    lemma_printed_concat(front, feed);
    lemma_line_printed(line, color_enabled);
    assert(printed(feed) =~= if lines.len() > 0 {
        seq!['\n']
    } else {
        seq![]
    }) by {
        if lines.len() > 0 {
            assert(feed.drop_last() =~= Seq::<TermOpV>::empty());
            assert(printed(Seq::<TermOpV>::empty()) =~= seq![]);
        }
    }
}

/// The look of a span inside its line: what the line says of colors wins, then what the span
/// says, and where neither says anything the terminal decides. Modifiers of both count,
/// unless the line takes one away.
pub proof fn law_look_of_a_span(span: SpanV, line_style: Style)
    ensures
        ({
            let pen = span_pen(span, line_style);
            &&& line_style.fg matches Some(c) ==> pen.fg == c
            &&& line_style.fg is None ==> (span.style.fg matches Some(c) ==> pen.fg == c)
            &&& line_style.fg is None && span.style.fg is None ==> pen.fg == Color::Reset
            &&& line_style.bg matches Some(c) ==> pen.bg == c
            &&& line_style.bg is None && span.style.bg is None ==> pen.bg == Color::Reset
            &&& line_style.add.bold && !line_style.sub.bold ==> pen.modifiers.bold
            &&& span.style.add.bold && !span.style.sub.bold && !line_style.sub.bold
                ==> pen.modifiers.bold
            &&& !span.style.add.bold && !line_style.add.bold ==> !pen.modifiers.bold
            &&& line_style.add.dim && !line_style.sub.dim ==> pen.modifiers.dim
            &&& !span.style.add.dim && !line_style.add.dim ==> !pen.modifiers.dim
        }),
{
}

/// Colors are set in front of a span exactly where they change, to those of the span.
pub proof fn law_colors_are_set_where_they_change(pen: Pen, next: Pen)
    ensures
        next.fg != pen.fg || next.bg != pen.bg ==> pen_ops(pen, next).len() > 0 && pen_ops(
            pen,
            next,
        ).last() == (TermOpV::SetColors { fg: next.fg, bg: next.bg }),
        pen == next ==> pen_ops(pen, next).len() == 0,
        fresh_pen() == (Pen { fg: Color::Reset, bg: Color::Reset, modifiers: Modifiers::none() }),
{
}

/// A line in color ends with a reset of colors and modifiers; a line without color holds
/// nothing but text.
pub proof fn law_line_ends_clean(line: LineV, i: int)
    ensures
        ({
            let ops = line_ops(line, true);
            let n = ops.len() as int;
            &&& n >= 3
            &&& ops[n - 3] == TermOpV::ResetForeground
            &&& ops[n - 2] == TermOpV::ResetBackground
            &&& ops[n - 1] == TermOpV::SetAttribute(Attribute::Reset)
        }),
        line_ops(line, false).len() == line.spans.len(),
        0 <= i < line.spans.len() ==> line_ops(line, false)[i] == TermOpV::Print(
            line.spans[i].content,
        ),
{
}

} // verus!
