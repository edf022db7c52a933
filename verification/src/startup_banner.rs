//! The banner that the program starts with.

use vstd::prelude::*;

use crate::geometry::{min_int, sat_sub};
use crate::styled::{
    blank_line_v, line_v, lines_view, span_v, Color, Line, LineV, Span, SpanV, Style,
};
use crate::text;
use crate::width::{
    char_width, columns, is_plain_text, is_printable_ascii, width_of, width_of_char,
};

verus! {

/// How many lines the picture in the banner has.
pub const ART_LINES: usize = 9;

/// How many columns the picture takes with its indent.
pub const ART_WIDTH: usize = 81;

/// A line of the picture, without the spaces behind it.
pub open spec fn art_line_v(i: int) -> Seq<char> {
    if i == 0 {
        "                 __                                 __    __"@
    } else if i == 1 {
        "                /\\ \\                               /\\ \\__/\\ \\__"@
    } else if i == 2 {
        "  ___    ___    \\_\\ \\     __   __  _  _____     ___\\ \\ ,_\\ \\ ,_\\    __   _ __"@
    } else if i == 3 {
        " /'___\\ / __`\\  /'_` \\  /'__`\\/\\ \\/'\\/\\ '__`\\  / __`\\ \\ \\/\\ \\ \\/  /'__`\\/\\`'__\\"@
    } else if i == 4 {
        "/\\ \\__//\\ \\L\\ \\/\\ \\L\\ \\/\\  __/\\/>  </\\ \\ \\L\\ \\/\\ \\L\\ \\ \\ \\_\\ \\ \\_/\\  __/\\ \\ \\/"@
    } else if i == 5 {
        "\\ \\____\\ \\____/\\ \\___,_\\ \\____\\/\\_/\\_\\\\ \\ ,__/\\ \\____/\\ \\__\\\\ \\__\\ \\____\\\\ \\_\\"@
    } else if i == 6 {
        " \\/____/\\/___/  \\/__,_ /\\/____/\\//\\/_/ \\ \\ \\/  \\/___/  \\/__/ \\/__/\\/____/ \\/_/"@
    } else if i == 7 {
        "                                        \\ \\_\\"@
    } else {
        "                                         \\/_/"@
    }
}

fn art_line(i: usize) -> (r: &'static str)
    ensures
        r@ == art_line_v(i as int),
{
    if i == 0 {
        "                 __                                 __    __"
    } else if i == 1 {
        "                /\\ \\                               /\\ \\__/\\ \\__"
    } else if i == 2 {
        "  ___    ___    \\_\\ \\     __   __  _  _____     ___\\ \\ ,_\\ \\ ,_\\    __   _ __"
    } else if i == 3 {
        " /'___\\ / __`\\  /'_` \\  /'__`\\/\\ \\/'\\/\\ '__`\\  / __`\\ \\ \\/\\ \\ \\/  /'__`\\/\\`'__\\"
    } else if i == 4 {
        "/\\ \\__//\\ \\L\\ \\/\\ \\L\\ \\/\\  __/\\/>  </\\ \\ \\L\\ \\/\\ \\L\\ \\ \\ \\_\\ \\ \\_/\\  __/\\ \\ \\/"
    } else if i == 5 {
        "\\ \\____\\ \\____/\\ \\___,_\\ \\____\\/\\_/\\_\\\\ \\ ,__/\\ \\____/\\ \\__\\\\ \\__\\ \\____\\\\ \\_\\"
    } else if i == 6 {
        " \\/____/\\/___/  \\/__,_ /\\/____/\\//\\/_/ \\ \\ \\/  \\/___/  \\/__/ \\/__/\\/____/ \\/_/"
    } else if i == 7 {
        "                                        \\ \\_\\"
    } else {
        "                                         \\/_/"
    }
}

/// The column at which the second word of the picture starts in a line.
pub open spec fn art_split_v(i: int) -> int {
    if i == 0 {
        52
    } else if i == 1 {
        51
    } else if i == 2 {
        38
    } else if i == 3 {
        37
    } else if i == 4 {
        37
    } else if i == 5 {
        38
    } else if i == 6 {
        38
    } else if i == 7 {
        40
    } else {
        41
    }
}

fn art_split(i: usize) -> (r: usize)
    ensures
        r == art_split_v(i as int),
{
    if i == 0 {
        52
    } else if i == 1 {
        51
    } else if i == 2 {
        38
    } else if i == 3 {
        37
    } else if i == 4 {
        37
    } else if i == 5 {
        38
    } else if i == 6 {
        38
    } else if i == 7 {
        40
    } else {
        41
    }
}

/// Every line of the picture fits, and one of them needs the whole width.
pub proof fn law_picture_takes_its_width()
    ensures
        forall|i: int| 0 <= i < ART_LINES ==> 2 + (#[trigger] art_line_v(i)).len() <= ART_WIDTH,
        exists|i: int| 0 <= i < ART_LINES && 2 + (#[trigger] art_line_v(i)).len() == ART_WIDTH,
{
    reveal_strlit("                 __                                 __    __");
    reveal_strlit("                /\\ \\                               /\\ \\__/\\ \\__");
    reveal_strlit("  ___    ___    \\_\\ \\     __   __  _  _____     ___\\ \\ ,_\\ \\ ,_\\    __   _ __");
    reveal_strlit(" /'___\\ / __`\\  /'_` \\  /'__`\\/\\ \\/'\\/\\ '__`\\  / __`\\ \\ \\/\\ \\ \\/  /'__`\\/\\`'__\\");
    reveal_strlit("/\\ \\__//\\ \\L\\ \\/\\ \\L\\ \\/\\  __/\\/>  </\\ \\ \\L\\ \\/\\ \\L\\ \\ \\ \\_\\ \\ \\_/\\  __/\\ \\ \\/");
    reveal_strlit("\\ \\____\\ \\____/\\ \\___,_\\ \\____\\/\\_/\\_\\\\ \\ ,__/\\ \\____/\\ \\__\\\\ \\__\\ \\____\\\\ \\_\\");
    reveal_strlit(" \\/____/\\/___/  \\/__,_ /\\/____/\\//\\/_/ \\ \\ \\/  \\/___/  \\/__/ \\/__/\\/____/ \\/_/");
    reveal_strlit("                                        \\ \\_\\");
    reveal_strlit("                                         \\/_/");
    assert(art_line_v(3).len() == 79);
}

proof fn lemma_art_is_plain(i: int)
    requires
        0 <= i < ART_LINES,
    ensures
        is_plain_text(art_line_v(i)),
{
    if i == 0 {
        reveal_strlit("                 __                                 __    __");
    }
    if i == 1 {
        reveal_strlit("                /\\ \\                               /\\ \\__/\\ \\__");
    }
    if i == 2 {
        reveal_strlit("  ___    ___    \\_\\ \\     __   __  _  _____     ___\\ \\ ,_\\ \\ ,_\\    __   _ __");
    }
    if i == 3 {
        reveal_strlit(" /'___\\ / __`\\  /'_` \\  /'__`\\/\\ \\/'\\/\\ '__`\\  / __`\\ \\ \\/\\ \\ \\/  /'__`\\/\\`'__\\");
    }
    if i == 4 {
        reveal_strlit("/\\ \\__//\\ \\L\\ \\/\\ \\L\\ \\/\\  __/\\/>  </\\ \\ \\L\\ \\/\\ \\L\\ \\ \\ \\_\\ \\ \\_/\\  __/\\ \\ \\/");
    }
    if i == 5 {
        reveal_strlit("\\ \\____\\ \\____/\\ \\___,_\\ \\____\\/\\_/\\_\\\\ \\ ,__/\\ \\____/\\ \\__\\\\ \\__\\ \\____\\\\ \\_\\");
    }
    if i == 6 {
        reveal_strlit(" \\/____/\\/___/  \\/__,_ /\\/____/\\//\\/_/ \\ \\ \\/  \\/___/  \\/__/ \\/__/\\/____/ \\/_/");
    }
    if i == 7 {
        reveal_strlit("                                        \\ \\_\\");
    }
    if i == 8 {
        reveal_strlit("                                         \\/_/");
    }
    let line = art_line_v(i);
    assert forall|k: int| 0 <= k < line.len() implies is_printable_ascii(#[trigger] line[k]) by {
    }
}

/// The columns that a character counts for.
pub open spec fn char_columns(c: char) -> int {
    match char_width(c) {
        Some(w) => w as int,
        None => 0,
    }
}

/// How many characters of `s` fit into `max` columns of which `used` are taken.
pub open spec fn fitting_chars(s: Seq<char>, max: int, used: int) -> nat
    decreases s.len(),
{
    if s.len() == 0 || used + char_columns(s[0]) > max {
        0
    } else {
        1 + fitting_chars(s.drop_first(), max, used + char_columns(s[0]))
    }
}

/// The first `n` characters of `s`, or as many of them as take no more than `max`
/// columns together.
pub open spec fn narrowed(s: Seq<char>, n: nat, max: int) -> Seq<char>
    decreases n,
{
    if n == 0 || columns(s.take(n as int)) <= max {
        s.take(n as int)
    } else {
        narrowed(s, (n - 1) as nat, max)
    }
}

/// The front of `s` that fits into `max` columns.
pub open spec fn prefix_by_width(s: Seq<char>, max: int) -> Seq<char> {
    if max == 0 {
        seq![]
    } else if columns(s) <= max {
        s
    } else {
        narrowed(s, fitting_chars(s, max, 0), max)
    }
}

fn narrow(chars: &Vec<char>, fitting: usize, max_width: usize) -> (r: String)
    requires
        fitting <= chars@.len(),
    ensures
        r@ == narrowed(chars@, fitting as nat, max_width as int),
        columns(r@) <= max_width,
{
    let mut end: usize = fitting;
    while end > 0
        invariant
            end <= chars@.len(),
            narrowed(chars@, fitting as nat, max_width as int) == narrowed(
                chars@,
                end as nat,
                max_width as int,
            ),
        decreases end,
    {
        let r = text::string_of_range(chars, 0, end);
        assert(r@ =~= chars@.take(end as int));
        if width_of(r.as_str()) <= max_width {
            return r;
        }
        end -= 1;
    }
    let r = String::new();
    assert(r@ =~= chars@.take(0));
    r
}

/// The front of `text` that fits into `max_width` columns.
pub fn take_prefix_by_width(text: &str, max_width: usize) -> (r: String)
    ensures
        r@ == prefix_by_width(text@, max_width as int),
        columns(r@) <= max_width,
        is_plain_text(text@) ==> r@ == text@.take(min_int(text@.len() as int, max_width as int)),
{
    if max_width == 0 {
        let r = String::new();
        assert(r@ =~= seq![]);
        assert(text@.take(0) =~= seq![]);
        return r;
    }
    if width_of(text) <= max_width {
        assert(text@.take(text@.len() as int) =~= text@);
        return text.to_string();
    }
    let chars = text::chars_of(text);
    let mut used: usize = 0;
    let mut end: usize = 0;
    assert(chars@.skip(0) =~= text@);
    while end < chars.len()
        invariant
            end <= chars@.len(),
            chars@ == text@,
            max_width > 0,
            columns(text@) > max_width,
            used <= max_width,
            is_plain_text(text@) ==> used == end && text@.len() > max_width,
            fitting_chars(text@, max_width as int, 0) == end + fitting_chars(
                chars@.skip(end as int),
                max_width as int,
                used as int,
            ),
        decreases chars@.len() - end,
    {
        let ghost rest = chars@.skip(end as int);
        let wide: usize = match width_of_char(chars[end]) {
            Some(w) => w,
            None => 0,
        };
        assert(wide == char_columns(rest[0]));
        assert(rest.drop_first() =~= chars@.skip(end + 1));
        if wide > max_width - used {
            assert(is_plain_text(text@) ==> is_plain_text(text@.take(end as int)));
            return narrow(&chars, end, max_width);
        }
        used += wide;
        end += 1;
    }
    assert(chars@.skip(end as int).len() == 0);
    narrow(&chars, end, max_width)
}

/// `s` without `suffix`, where it ends with it.
pub open spec fn strip_suffix(s: Seq<char>, suffix: Seq<char>) -> Option<Seq<char>> {
    if s.len() >= suffix.len() && s.skip(s.len() - suffix.len()) == suffix {
        Some(s.take(s.len() - suffix.len()))
    } else {
        None
    }
}

/// The label of the model cut down to `max` columns. The mark of fast service is
/// kept where it fits.
pub open spec fn truncated_label(s: Seq<char>, max: int) -> Seq<char> {
    if max == 0 {
        seq![]
    } else if columns(s) <= max {
        s
    } else {
        match strip_suffix(s, " [fast]"@) {
            Some(base) if max >= 6 => {
                let cut = prefix_by_width(base, sat_sub(max, 7));
                if cut.len() == 0 || columns(cut + " [fast]"@) > max {
                    "[fast]"@
                } else {
                    cut + " [fast]"@
                }
            },
            _ => prefix_by_width(s, max),
        }
    }
}

fn without_suffix(s: &str, suffix: &str) -> (r: Option<String>)
    ensures
        match r {
            Some(base) => strip_suffix(s@, suffix@) == Some(base@),
            None => strip_suffix(s@, suffix@) is None,
        },
{
    let chars = text::chars_of(s);
    let tail = text::chars_of(suffix);
    if chars.len() < tail.len() {
        return None;
    }
    let at: usize = chars.len() - tail.len();
    if !text::matches_at(&chars, &tail, at) {
        assert(chars@.subrange(at as int, at + tail@.len()) =~= s@.skip(at as int));
        return None;
    }
    assert(chars@.subrange(at as int, at + tail@.len()) =~= s@.skip(at as int));
    let r = text::string_of_range(&chars, 0, at);
    assert(r@ =~= s@.take(at as int));
    Some(r)
}

/// The label of the model cut down to `max_width` columns.
pub fn truncate_model_label_for_banner(text: &str, max_width: usize) -> (r: String)
    ensures
        r@ == truncated_label(text@, max_width as int),
        columns(r@) <= max_width,
        is_plain_text(text@) ==> is_plain_text(r@),
{
    if max_width == 0 {
        let r = String::new();
        assert(r@ =~= seq![]);
        return r;
    }
    if width_of(text) <= max_width {
        return text.to_string();
    }
    proof {
        reveal_strlit(" [fast]");
        reveal_strlit("[fast]");
    }
    if let Some(base) = without_suffix(text, " [fast]") {
        if max_width >= 6 {
            let cut = take_prefix_by_width(base.as_str(), max_width.saturating_sub(7));
            if cut.as_str().is_empty() {
                assert(cut@.len() == 0);
                return "[fast]".to_string();
            }
            let label = text::concat(cut.as_str(), " [fast]");
            return if width_of(label.as_str()) <= max_width {
                label
            } else {
                "[fast]".to_string()
            };
        }
    }
    take_prefix_by_width(text, max_width)
}

/// The columns that spans take beside each other.
pub open spec fn spans_columns(spans: Seq<SpanV>) -> int
    decreases spans.len(),
{
    if spans.len() == 0 {
        0
    } else {
        spans_columns(spans.drop_last()) + columns(spans.last().content)
    }
}

/// Whether a line takes no more than `width` columns.
pub open spec fn fits(line: LineV, width: int) -> bool {
    spans_columns(line.spans) <= width
}

proof fn lemma_three_spans(spans: Seq<SpanV>)
    requires
        spans.len() == 3,
    ensures
        spans_columns(spans) == columns(spans[0].content) + columns(spans[1].content) + columns(
            spans[2].content,
        ),
{
    reveal_with_fuel(spans_columns, 4);
}

proof fn lemma_two_more_spans(spans: Seq<SpanV>)
    requires
        spans.len() >= 2,
    ensures
        spans_columns(spans) == spans_columns(spans.take(spans.len() - 2)) + columns(
            spans[spans.len() - 2].content,
        ) + columns(spans[spans.len() - 1].content),
{
    reveal_with_fuel(spans_columns, 3);
    assert(spans.drop_last().drop_last() =~= spans.take(spans.len() - 2));
}

/// The columns of the banner.
pub open spec fn banner_width(width: u16) -> int {
    min_int(ART_WIDTH as int, width as int)
}

/// The columns of the picture in a line, given those of the version behind it:
/// one column stays free between the two.
pub open spec fn picture_room(banner: int, version_width: int) -> int {
    sat_sub(
        banner,
        version_width + if version_width > 0 && banner > version_width {
            1int
        } else {
            0
        },
    )
}

/// The spans of a line of the picture, cut down to `room` columns.
pub open spec fn picture_spans(i: int, room: int, secondary: Color) -> Seq<SpanV> {
    let indent = min_int(2, room);
    let visible = prefix_by_width(art_line_v(i), room - indent);
    let split = min_int(art_split_v(i), visible.len() as int);
    seq![
        span_v("  "@.take(indent), Style::plain().spec_dim()),
        span_v(visible.take(split), Style::plain().spec_dim()),
        span_v(visible.skip(split), Style::plain().spec_fg(secondary).spec_bold()),
    ]
}

/// The spans of the last line of the picture, with the version at its end.
pub open spec fn last_picture_spans(banner: int, version: Seq<char>, secondary: Color) -> Seq<
    SpanV,
> {
    let label = prefix_by_width("v"@ + version, banner);
    let room = picture_room(banner, columns(label));
    let indent = min_int(2, room);
    let visible = prefix_by_width(art_line_v(ART_LINES - 1), room - indent);
    let gap = sat_sub(banner, indent + columns(visible) + columns(label));
    picture_spans(ART_LINES - 1, room, secondary) + seq![
        span_v(text::repeated(' ', gap as nat), Style::plain()),
        span_v(label, Style::plain().spec_dim()),
    ]
}

/// The lines of the picture.
pub open spec fn picture_lines(banner: int, version: Seq<char>, secondary: Color) -> Seq<LineV> {
    Seq::new(
        ART_LINES as nat,
        |i: int|
            line_v(
                if i == ART_LINES - 1 {
                    last_picture_spans(banner, version, secondary)
                } else {
                    picture_spans(i, picture_room(banner, 0), secondary)
                },
            ),
    )
}

/// The columns behind the words `directory: `.
pub open spec fn tail_room(width: u16) -> int {
    sat_sub(width as int, 13)
}

/// The label of the model as far as it fits: one column stays for the directory.
pub open spec fn shown_model(width: u16, model_label: Seq<char>) -> Seq<char> {
    let room = tail_room(width);
    let gap = if model_label.len() == 0 {
        0int
    } else {
        2
    };
    let least = if room > 0 {
        1int
    } else {
        0
    };
    if gap + columns(model_label) + least > room {
        truncated_label(model_label, sat_sub(room, gap + least))
    } else {
        model_label
    }
}

/// The columns that are left for the directory.
pub open spec fn directory_room(width: u16, model_label: Seq<char>) -> int {
    let shown = shown_model(width, model_label);
    let gap = if shown.len() == 0 {
        0int
    } else {
        2
    };
    sat_sub(tail_room(width), gap + columns(shown))
}

/// What the line below the picture has room for.
#[derive(Debug)]
pub struct DirectoryRow {
    /// The columns that are left for the directory.
    pub dir_max_width: usize,
    /// The label of the model as far as it fits.
    pub model_display: String,
}

/// What the line below the picture has room for.
pub fn startup_directory_row(width: u16, model_label: &str) -> (r: DirectoryRow)
    ensures
        r.model_display@ == shown_model(width, model_label@),
        r.dir_max_width == directory_room(width, model_label@),
        r.dir_max_width + columns(r.model_display@) + (if r.model_display@.len() == 0 {
            0int
        } else {
            2
        }) <= tail_room(width),
{
    let room: usize = (width as usize).saturating_sub(13);
    let least: usize = if room > 0 { 1 } else { 0 };
    let is_empty = model_label.is_empty();
    assert(is_empty == (model_label@.len() == 0));
    let gap: usize = if is_empty { 0 } else { 2 };
    let label_width: usize = width_of(model_label);
    let model_display = if label_width > room || gap + label_width + least > room {
        truncate_model_label_for_banner(model_label, room.saturating_sub(gap + least))
    } else {
        model_label.to_string()
    };
    let shown_empty = model_display.as_str().is_empty();
    assert(shown_empty == (model_display@.len() == 0));
    let shown_gap: usize = if shown_empty { 0 } else { 2 };
    let shown_width: usize = width_of(model_display.as_str());
    let dir_max_width: usize = room.saturating_sub(shown_width.saturating_add(shown_gap));
    DirectoryRow { dir_max_width, model_display }
}

/// The words in front of the directory: an indent and a label, as far as there
/// are columns for them.
pub open spec fn directory_words(width: u16) -> (Seq<char>, Seq<char>) {
    (
        "  "@.take(min_int(2, width as int)),
        "directory: "@.take(min_int(11, sat_sub(width as int, 2))),
    )
}

/// The lines of the banner. `dir_display` is the directory, of which as much is
/// shown as there is room for.
pub open spec fn banner_lines(
    width: u16,
    version: Seq<char>,
    model_label: Seq<char>,
    dir_display: Seq<char>,
    secondary: Color,
    orange: Color,
) -> Seq<LineV> {
    let shown = shown_model(width, model_label);
    let directory = seq![
        span_v(directory_words(width).0, Style::plain()),
        span_v(directory_words(width).1, Style::plain().spec_dim()),
        span_v(
            prefix_by_width(dir_display, directory_room(width, model_label)),
            Style::plain(),
        ),
    ];
    let model = if shown.len() == 0 {
        seq![]
    } else {
        seq![
            span_v("  "@, Style::plain()),
            span_v(shown, Style::plain().spec_fg(orange).spec_bold()),
        ]
    };
    picture_lines(banner_width(width), version, secondary) + seq![
        blank_line_v(),
        line_v(directory + model),
        blank_line_v(),
    ]
}

fn build_picture_spans(i: usize, room: usize, secondary: Color) -> (r: (Vec<Span>, usize))
    requires
        i < ART_LINES,
    ensures
        crate::styled::spans_view(r.0@) == picture_spans(i as int, room as int, secondary),
        r.1 == columns(
            prefix_by_width(art_line_v(i as int), room - min_int(2, room as int)),
        ),
        fits(line_v(picture_spans(i as int, room as int, secondary)), room as int),
        min_int(2, room as int) + r.1 == spans_columns(
            picture_spans(i as int, room as int, secondary),
        ),
{
    let indent: usize = if room < 2 { room } else { 2 };
    let visible = take_prefix_by_width(art_line(i), room - indent);
    let chars = text::chars_of(visible.as_str());
    let at: usize = art_split(i);
    let split: usize = if at <= chars.len() { at } else { chars.len() };
    let spaces = text::chars_of("  ");
    proof {
        reveal_strlit("  ");
    }
    let mut spans: Vec<Span> = Vec::new();
    let head = text::string_of_range(&spaces, 0, indent);
    assert(head@ =~= "  "@.take(indent as int));
    spans.push(Span::styled(head, Style::new().dim()));
    let left = text::string_of_range(&chars, 0, split);
    assert(left@ =~= visible@.take(split as int));
    spans.push(Span::styled(left, Style::new().dim()));
    let right = text::string_of_range(&chars, split, chars.len());
    assert(right@ =~= visible@.skip(split as int));
    spans.push(Span::styled(right, Style::new().with_fg(secondary).bold()));
    assert(crate::styled::spans_view(spans@) =~= picture_spans(i as int, room as int, secondary));
    let visible_width: usize = width_of(visible.as_str());
    proof {
        lemma_art_is_plain(i as int);
        let shown = picture_spans(i as int, room as int, secondary);
        assert(shown[0].content == head@ && shown[1].content == left@ && shown[2].content
            == right@);
        lemma_three_spans(shown);
        assert(is_plain_text(head@) && is_plain_text(left@) && is_plain_text(right@));
    }
    (spans, visible_width)
}

fn build_last_picture_line(banner: usize, version: &str, secondary: Color) -> (r: Line)
    requires
        banner <= u16::MAX,
    ensures
        r@ == line_v(last_picture_spans(banner as int, version@, secondary)),
        fits(r@, banner as int),
{
    let whole = text::concat("v", version);
    let label = take_prefix_by_width(whole.as_str(), banner);
    let version_width: usize = width_of(label.as_str());
    let reserve: usize = if version_width > 0 && banner > version_width { 1 } else { 0 };
    let room: usize = banner.saturating_sub(version_width.saturating_add(reserve));
    let (spans, visible_width) = build_picture_spans(ART_LINES - 1, room, secondary);
    let mut spans = spans;
    let indent: usize = if room < 2 { room } else { 2 };
    let gap: usize = banner.saturating_sub(
        visible_width.saturating_add(version_width).saturating_add(indent),
    );
    let ghost front = crate::styled::spans_view(spans@);
    spans.push(Span::styled(text::repeat_char(' ', gap), Style::new()));
    spans.push(Span::styled(label, Style::new().dim()));
    assert(crate::styled::spans_view(spans@) =~= last_picture_spans(
        banner as int,
        version@,
        secondary,
    ));
    proof {
        let shown = last_picture_spans(banner as int, version@, secondary);
        assert(shown.take(3) =~= front);
        lemma_two_more_spans(shown);
        assert(is_plain_text(text::repeated(' ', gap as nat)));
    }
    Line::from_spans(spans)
}

fn front_of(text: &str, count: usize) -> (r: String)
    ensures
        r@ == text@.take(min_int(text@.len() as int, count as int)),
{
    let chars = text::chars_of(text);
    let end: usize = if count < chars.len() { count } else { chars.len() };
    let r = text::string_of_range(&chars, 0, end);
    assert(r@ =~= text@.take(end as int));
    r
}

/// Builds the banner, sized to fit within `width`. `dir_display` is the directory,
/// for which [`startup_directory_row`] gives the room.
pub fn build_startup_banner_lines(
    width: u16,
    version: &str,
    model_label: &str,
    dir_display: &str,
    secondary: Color,
    orange: Color,
) -> (r: Vec<Line>)
    ensures
        lines_view(r@) == banner_lines(
            width,
            version@,
            model_label@,
            dir_display@,
            secondary,
            orange,
        ),
        forall|i: int| 0 <= i < r@.len() ==> fits((#[trigger] r@[i])@, width as int),
{
    let banner: usize = if (width as usize) < ART_WIDTH { width as usize } else { ART_WIDTH };
    let ghost picture = picture_lines(banner as int, version@, secondary);
    let mut lines: Vec<Line> = Vec::new();
    let mut i: usize = 0;
    while i < ART_LINES
        invariant
            i <= ART_LINES,
            banner <= ART_WIDTH,
            picture == picture_lines(banner as int, version@, secondary),
            lines@.len() == i,
            forall|k: int| 0 <= k < i ==> (#[trigger] lines@[k])@ == picture[k],
            forall|k: int| 0 <= k < i ==> fits((#[trigger] lines@[k])@, banner as int),
        decreases ART_LINES - i,
    {
        if i == ART_LINES - 1 {
            let line = build_last_picture_line(banner, version, secondary);
            lines.push(line);
        } else {
            let (spans, _) = build_picture_spans(i, banner, secondary);
            lines.push(Line::from_spans(spans));
        }
        i += 1;
    }
    let row = startup_directory_row(width, model_label);
    let indent = front_of("  ", width as usize);
    let label = front_of("directory: ", (width as usize).saturating_sub(2));
    proof {
        reveal_strlit("  ");
        reveal_strlit("directory: ");
    }
    let shown_dir = take_prefix_by_width(dir_display, row.dir_max_width);
    let mut spans: Vec<Span> = Vec::new();
    spans.push(Span::styled(indent, Style::new()));
    spans.push(Span::styled(label, Style::new().dim()));
    spans.push(Span::styled(shown_dir, Style::new()));
    let shown_empty = row.model_display.as_str().is_empty();
    assert(shown_empty == (row.model_display@.len() == 0));
    if !shown_empty {
        spans.push(Span::plain("  "));
        spans.push(Span::styled(row.model_display, Style::new().with_fg(orange).bold()));
    }
    let ghost row_spans = crate::styled::spans_view(spans@);
    proof {
        assert(is_plain_text(directory_words(width).0));
        assert(is_plain_text(directory_words(width).1));
        lemma_three_spans(row_spans.take(3));
        if row_spans.len() == 5 {
            lemma_two_more_spans(row_spans);
        } else {
            assert(row_spans.take(3) =~= row_spans);
        }
        assert(spans_columns(blank_line_v().spans) == 0);
    }
    lines.push(Line::blank());
    lines.push(Line::from_spans(spans));
    lines.push(Line::blank());
    proof {
        let all = banner_lines(width, version@, model_label@, dir_display@, secondary, orange);
        assert(line_v(row_spans) == all[ART_LINES + 1]) by {
            assert(row_spans =~= all[ART_LINES + 1].spans);
        }
        assert(lines_view(lines@) =~= all);
    }
    lines
}

proof fn lemma_narrowed_is_a_front(s: Seq<char>, n: nat, max: int)
    requires
        n <= s.len(),
    ensures
        narrowed(s, n, max).len() <= n,
        narrowed(s, n, max) == s.take(narrowed(s, n, max).len() as int),
    decreases n,
{
    if !(n == 0 || columns(s.take(n as int)) <= max) {
        lemma_narrowed_is_a_front(s, (n - 1) as nat, max);
    }
}

proof fn lemma_fitting_is_bounded(s: Seq<char>, max: int, used: int)
    ensures
        fitting_chars(s, max, used) <= s.len(),
    decreases s.len(),
{
    if !(s.len() == 0 || used + char_columns(s[0]) > max) {
        lemma_fitting_is_bounded(s.drop_first(), max, used + char_columns(s[0]));
    }
}

/// What is shown of a text that does not fit is its front, and a text that fits is shown
/// whole.
pub proof fn law_cut_text_is_a_front(s: Seq<char>, max: int)
    requires
        max >= 0,
    ensures
        prefix_by_width(s, max).len() <= s.len(),
        prefix_by_width(s, max) == s.take(prefix_by_width(s, max).len() as int),
        max > 0 && columns(s) <= max ==> prefix_by_width(s, max) == s,
        max == 0 ==> prefix_by_width(s, max).len() == 0,
{
    lemma_fitting_is_bounded(s, max, 0);
    lemma_narrowed_is_a_front(s, fitting_chars(s, max, 0), max);
    assert(s.take(s.len() as int) =~= s);
    assert(s.take(0) =~= seq![]);
}

/// A label of the model that fits is shown whole. One that does not keeps its mark of fast
/// service, behind as much of the name as fits, or alone where nothing of the name does.
pub proof fn law_label_keeps_its_mark(base: Seq<char>, max: int)
    requires
        max >= 0,
    ensures
        ({
            let label = base + " [fast]"@;
            let shown = truncated_label(label, max);
            &&& max > 0 && columns(label) <= max ==> shown == label
            &&& max >= 6 && columns(label) > max ==> shown == "[fast]"@ || (text::ends_in(
                shown,
                " [fast]"@,
            ) && shown.len() > 7 && shown.len() <= label.len() && shown.take(shown.len() - 7)
                == base.take(shown.len() - 7))
        }),
        max == 0 ==> truncated_label(base, max).len() == 0,
        max > 0 && columns(base) <= max ==> truncated_label(base, max) == base,
{
    reveal_strlit(" [fast]");
    let mark = " [fast]"@;
    let label = base + mark;
    assert(label.skip(label.len() - 7) =~= mark);
    assert(label.take(label.len() - 7) =~= base);
    if max >= 6 && columns(label) > max {
        let room = sat_sub(max, 7);
        law_cut_text_is_a_front(base, room);
        let cut = prefix_by_width(base, room);
        let shown = truncated_label(label, max);
        if shown != "[fast]"@ {
            assert(shown == cut + mark);
            text::lemma_ends_in(cut, mark);
            assert(shown.take(shown.len() - 7) =~= cut);
        }
    }
}

/// On a wide screen the banner is the picture, a blank line, a line with the directory and
/// the model, and a blank line; the version stands at the end of the picture.
pub proof fn law_banner_on_a_wide_screen(
    width: u16,
    version: Seq<char>,
    model: Seq<char>,
    dir: Seq<char>,
    secondary: Color,
    orange: Color,
)
    requires
        is_plain_text(model) && is_plain_text(dir) && is_plain_text(version),
        model.len() > 0 && dir.len() > 0,
        width >= 81,
        version.len() < 30,
        15 + model.len() + dir.len() <= width,
    ensures
        ({
            let lines = banner_lines(width, version, model, dir, secondary, orange);
            let spans = lines[10].spans;
            &&& lines.len() == 12
            &&& lines[9].spans.len() == 0 && lines[11].spans.len() == 0
            &&& spans.len() == 5
            &&& spans[1].content == "directory: "@
            &&& spans[2].content == dir
            &&& spans[4].content == model
            &&& spans[4].style.fg == Some(orange)
            &&& lines[8].spans.last().content == "v"@ + version
        }),
{
    reveal_strlit("  ");
    reveal_strlit("directory: ");
    reveal_strlit("v");
    assert("directory: "@.take(11) =~= "directory: "@);
    let label = "v"@ + version;
    assert forall|i: int| 0 <= i < label.len() implies is_printable_ascii(#[trigger] label[i]) by {
        if i > 0 {
            assert(label[i] == version[i - 1]);
        }
    }
    law_cut_text_is_a_front(label, 81);
    law_cut_text_is_a_front(dir, directory_room(width, model));
    let lines = banner_lines(width, version, model, dir, secondary, orange);
    assert(shown_model(width, model) == model);
    assert(lines[8] == picture_lines(81, version, secondary)[8]);
}

} // verus!
