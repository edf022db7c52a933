//! The dialog behind `/yolo`.

use vstd::prelude::*;

use crate::bottom_pane::list_selection_view::{
    SelectionAction, SelectionItem, SelectionViewParams, SideContentWidth,
};
use crate::reasoning_status::opt_text;
use crate::styled::{span_v, Color, Line, LineV, Span, Style};

verus! {

/// Whether `item` is called `name`, says `description`, does `actions` and closes
/// the dialog, and can be picked.
pub open spec fn is_choice(
    item: SelectionItem,
    name: Seq<char>,
    description: Seq<char>,
    actions: Seq<SelectionAction>,
) -> bool {
    &&& item.name@ == name
    &&& opt_text(item.description) == Some(description)
    &&& item.actions@ == actions
    &&& item.dismiss_on_select
    &&& !item.disabled()
    &&& item.display_shortcut is None
    &&& item.selected_description is None
    &&& item.search_value is None
}

/// The note below the choices.
pub open spec fn yolo_note() -> LineV {
    LineV {
        style: Style::plain().spec_dim(),
        spans: seq![
            span_v("Applies to all sessions. CLI flag "@, Style::plain()),
            span_v("--yolo"@, Style::plain().spec_fg(Color::Cyan)),
            span_v(" always enables YOLO for the current run."@, Style::plain()),
        ],
    }
}

fn build_note() -> (r: Line)
    ensures
        r@ == yolo_note(),
{
    let mut spans: Vec<Span> = Vec::new();
    spans.push(Span::plain("Applies to all sessions. CLI flag "));
    spans.push(Span::of("--yolo", Style::new().with_fg(Color::Cyan)));
    spans.push(Span::plain(" always enables YOLO for the current run."));
    let mut line = Line::from_spans(spans);
    line.style = line.style.dim();
    assert(line@.spans =~= yolo_note().spans);
    line
}

/// The dialog that asks whether YOLO is on by default. `footer_hint` names the
/// keys that confirm and leave it.
pub fn build_yolo_picker_params(current_enabled: bool, footer_hint: Line) -> (r: SelectionViewParams)
    ensures
        opt_text(r.title) == Some("YOLO"@),
        opt_text(r.subtitle) == Some("Choose whether to enable YOLO by default"@),
        r.footer_note matches Some(note) && note@ == yolo_note(),
        r.footer_hint == Some(footer_hint),
        r.items@.len() == 2,
        is_choice(
            r.items@[0],
            "Off"@,
            "Keep approvals and sandboxing enabled (default)."@,
            seq![SelectionAction::YoloSelected(false)],
        ),
        is_choice(
            r.items@[1],
            "On"@,
            "Disable approvals and sandboxing for all sessions (unsafe)."@,
            seq![SelectionAction::YoloSelected(true)],
        ),
        r.items@[0].is_current == !current_enabled,
        r.items@[1].is_current == current_enabled,
        r.items@[0].is_default,
        !r.items@[1].is_default,
        r.initial_selected_idx == Some(if current_enabled {
            1usize
        } else {
            0usize
        }),
        !r.is_searchable,
        r.search_placeholder is None,
        r.side_content_width == SideContentWidth::Fixed(0),
        r.side_content_min_width == 0,
        !r.fit_popup_height_to_side_content,
        !r.preserve_side_content_bg,
        !r.notify_selection_changed,
        !r.notify_cancel,
{
    let mut off = SelectionItem::default();
    off.name = "Off".to_string();
    off.description = Some("Keep approvals and sandboxing enabled (default).".to_string());
    off.is_current = !current_enabled;
    off.is_default = true;
    off.dismiss_on_select = true;
    off.actions.push(SelectionAction::YoloSelected(false));
    let mut on = SelectionItem::default();
    on.name = "On".to_string();
    on.description =
    Some("Disable approvals and sandboxing for all sessions (unsafe).".to_string());
    on.is_current = current_enabled;
    on.dismiss_on_select = true;
    on.actions.push(SelectionAction::YoloSelected(true));
    let mut params = SelectionViewParams::default();
    params.title = Some("YOLO".to_string());
    params.subtitle = Some("Choose whether to enable YOLO by default".to_string());
    params.footer_note = Some(build_note());
    params.footer_hint = Some(footer_hint);
    params.items.push(off);
    params.items.push(on);
    params.initial_selected_idx = Some(if current_enabled { 1 } else { 0 });
    params
}

} // verus!
