//! The question what to do with a project that was interrupted.

use vstd::prelude::*;

use crate::bottom_pane::list_selection_view::{
    ListSelectionView, ListState, SelectionItem, SelectionViewParams, SideContentWidth, ViewEffect,
};
use crate::geometry::{sat_add, sat_sub, Rect};
use crate::key::{KeyEvent, KeyEventKind};
use crate::reasoning_status::opt_text;
use crate::styled::{text_line_v, Line};
use crate::text;

verus! {

/// What to do with the project.
#[derive(Clone, Copy, PartialEq, Eq, Structural, Debug)]
pub enum InterruptedProjectAction {
    StopIterate,
    ContinueIterate,
}

/// Whether `item` is called `name`, closes the question and does nothing else.
pub open spec fn is_plain_choice(item: SelectionItem, name: Seq<char>) -> bool {
    &&& item.name@ == name
    &&& item.dismiss_on_select
    &&& item.actions@.len() == 0
    &&& !item.disabled()
    &&& !item.is_current
    &&& !item.is_default
    &&& item.description is None
    &&& item.display_shortcut is None
    &&& item.selected_description is None
    &&& item.search_value is None
}

fn build_choice(name: &str) -> (r: SelectionItem)
    ensures
        is_plain_choice(r, name@),
{
    let mut item = SelectionItem::default();
    item.name = name.to_string();
    item.dismiss_on_select = true;
    item
}

/// The question about the project whose progress file is `progress_file_rel`.
pub fn build_interrupted_project_params(progress_file_rel: &str) -> (r: SelectionViewParams)
    ensures
        opt_text(r.title) == Some("Current project is interrupted"@),
        opt_text(r.subtitle) == Some(progress_file_rel@),
        r.footer_note matches Some(note) && note@ == text_line_v(
            "Want to change the goal? Just edit this project file."@,
        ),
        r.footer_hint matches Some(hint) && hint@ == text_line_v(
            "Press enter to confirm or esc to stop iterating"@,
        ),
        r.items@.len() == 2,
        is_plain_choice(r.items@[0], "Stop iterate this project"@),
        is_plain_choice(r.items@[1], "I made some changes, continue iterate"@),
        r.initial_selected_idx is None,
        !r.is_searchable,
        r.search_placeholder is None,
        r.side_content_width == SideContentWidth::Fixed(0),
        r.side_content_min_width == 0,
        !r.fit_popup_height_to_side_content,
        !r.preserve_side_content_bg,
        !r.notify_selection_changed,
        !r.notify_cancel,
{
    let mut params = SelectionViewParams::default();
    params.title = Some("Current project is interrupted".to_string());
    params.subtitle = Some(progress_file_rel.to_string());
    params.footer_note =
    Some(Line::from_text("Want to change the goal? Just edit this project file."));
    params.footer_hint = Some(Line::from_text("Press enter to confirm or esc to stop iterating"));
    params.items.push(build_choice("Stop iterate this project"));
    params.items.push(build_choice("I made some changes, continue iterate"));
    params
}

/// The rows that the question takes: one stays free above it.
pub fn prompt_height(view_height: u16) -> (r: u16)
    ensures
        r == sat_add(view_height as int, 1),
{
    view_height.saturating_add(1)
}

/// Where the question is drawn: below the first row.
pub fn prompt_area(area: Rect) -> (r: Rect)
    ensures
        r == Rect::spec_new(
            area.x as int,
            sat_add(area.y as int, 1),
            area.width as int,
            sat_sub(area.height as int, 1),
        ),
{
    Rect::new(area.x, area.y.saturating_add(1), area.width, area.height.saturating_sub(1))
}

/// What a key does to the question: the choices after it, what they ask for, and
/// whether the screen is drawn anew.
pub open spec fn prompt_key(s: ListState, key: KeyEvent) -> (ListState, Seq<ViewEffect>, bool) {
    if key.kind == KeyEventKind::Release {
        (s, seq![], false)
    } else if key.is_ctrl('c') {
        if key.kind == KeyEventKind::Press {
            (s.cancelled().0, s.cancelled().1, true)
        } else {
            (s, seq![], true)
        }
    } else {
        (s.key(key).0, s.key(key).1, true)
    }
}

/// Hands a key to the question. The result is what the choices ask for, and
/// whether the screen is drawn anew.
pub fn on_prompt_key(view: &mut ListSelectionView, key: KeyEvent) -> (r: (Vec<ViewEffect>, bool))
    requires
        old(view)@.wf(),
    ensures
        final(view)@ == prompt_key(old(view)@, key).0,
        r.0@ == prompt_key(old(view)@, key).1,
        r.1 == prompt_key(old(view)@, key).2,
        final(view)@.wf(),
{
    let none: Vec<ViewEffect> = Vec::new();
    assert(none@ =~= seq![]);
    if key.kind == KeyEventKind::Release {
        return (none, false);
    }
    if key.is_ctrl_c() {
        if key.kind == KeyEventKind::Press {
            (view.cancel(), true)
        } else {
            (none, true)
        }
    } else {
        (view.handle_key_event(key), true)
    }
}

/// What the user chose: nothing where they left the question, an error where the
/// choice is none of the two.
pub fn chosen_action(selected: Option<usize>) -> (r: Result<Option<InterruptedProjectAction>, String>)
    ensures
        match selected {
            None => r matches Ok(None),
            Some(0) => r matches Ok(Some(InterruptedProjectAction::StopIterate)),
            Some(1) => r matches Ok(Some(InterruptedProjectAction::ContinueIterate)),
            Some(idx) => r matches Err(e) && e@
                == "internal error: unexpected interrupted project selection "@ + text::decimal(
                idx as nat,
            ),
        },
{
    match selected {
        None => Ok(None),
        Some(0) => Ok(Some(InterruptedProjectAction::StopIterate)),
        Some(1) => Ok(Some(InterruptedProjectAction::ContinueIterate)),
        Some(idx) => Err(
            text::concat(
                "internal error: unexpected interrupted project selection ",
                text::decimal_string(idx as u64).as_str(),
            ),
        ),
    }
}

/// A key that is let go does nothing to the question. Ctrl+C leaves it when it is
/// pressed, and every other key goes to the choices; the screen is drawn anew then.
pub proof fn law_keys_of_the_question(s: ListState, key: KeyEvent)
    ensures
        ({
            let (t, effects, redraw) = prompt_key(s, key);
            let c = key.modifiers.control && key.code == crate::key::KeyCode::Char('c');
            &&& redraw <==> key.kind != KeyEventKind::Release
            &&& key.kind == KeyEventKind::Release ==> t == s && effects.len() == 0
            &&& c && key.kind == KeyEventKind::Press ==> (t, effects) == s.cancelled()
            &&& c && key.kind != KeyEventKind::Press ==> t == s && effects.len() == 0
            &&& !c && key.kind != KeyEventKind::Release ==> (t, effects) == s.key(key)
        }),
{
}

} // verus!
