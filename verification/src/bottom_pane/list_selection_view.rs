//! A popup that lets the user pick one item of a list.

use vstd::prelude::*;

use super::scroll_state::{ScrollState, MAX_POPUP_ROWS};
use crate::geometry::{max_int, min_int, sat_add, sat_sub, Rect};
use crate::key::{KeyCode, KeyEvent, KeyModifiers};
use crate::layout::{are_rows_of, is_split, split_vertical, Constraint};
use crate::reasoning_status::opt_text;
use crate::styled::{line_v, lines_view, span_v, Line, LineV, Style};
use crate::text;
use crate::verbosity::Verbosity;
use crate::width;

verus! {

/// Minimum list width (in content columns) required before the side-by-side
/// layout is activated. Keeps the list usable even when sharing horizontal
/// space with the side content panel.
pub const MIN_LIST_WIDTH_FOR_SIDE: u16 = 40;

/// Horizontal gap (in columns) between the list area and the side content
/// panel when side-by-side layout is active.
pub const SIDE_CONTENT_GAP: u16 = 2;

/// Shared menu-surface horizontal inset (2 cells per side) used by selection popups.
pub const MENU_SURFACE_HORIZONTAL_INSET: u16 = 4;

/// Controls how the side content panel is sized relative to the popup width.
///
/// When the computed side width falls below the minimum or the remaining list
/// area would be too narrow, the side-by-side layout is abandoned and the
/// stacked fallback is used instead.
#[derive(Clone, Copy, PartialEq, Eq, Structural, Debug)]
pub enum SideContentWidth {
    /// Fixed number of columns. `Fixed(0)` disables side content entirely.
    Fixed(u16),
    /// Exact 50/50 split of the content area (minus the inter-column gap).
    Half,
}

impl Default for SideContentWidth {
    /// No side content.
    fn default() -> (r: Self)
        ensures
            r == SideContentWidth::Fixed(0),
    {
        SideContentWidth::Fixed(0)
    }
}

/// Returns the popup content width after subtracting the shared menu-surface
/// horizontal inset (2 columns on each side).
pub fn popup_content_width(total_width: u16) -> (r: u16)
    ensures
        r == sat_sub(total_width as int, MENU_SURFACE_HORIZONTAL_INSET as int),
{
    total_width.saturating_sub(MENU_SURFACE_HORIZONTAL_INSET)
}

/// The columns that the side panel asks for.
pub open spec fn wanted_side_width(content_width: u16, width: SideContentWidth) -> int {
    match width {
        SideContentWidth::Fixed(w) => w as int,
        SideContentWidth::Half => sat_sub(content_width as int, SIDE_CONTENT_GAP as int) / 2,
    }
}

/// The widths of list and side panel where both fit beside each other: the
/// panel is not disabled and not narrower than its minimum, and the list keeps
/// its own.
pub open spec fn side_by_side(
    content_width: u16,
    width: SideContentWidth,
    min_width: u16,
) -> Option<(u16, u16)> {
    let side = wanted_side_width(content_width, width);
    let list = sat_sub(content_width as int, SIDE_CONTENT_GAP + side);
    if width == SideContentWidth::Fixed(0) || side < min_width || list < MIN_LIST_WIDTH_FOR_SIDE {
        None
    } else {
        Some((list as u16, side as u16))
    }
}

/// Returns side-by-side layout widths as `(list_width, side_width)` when the
/// layout can fit. Returns `None` when the side panel is disabled/too narrow or
/// when the remaining list width would become unusably small.
pub fn side_by_side_layout_widths(
    content_width: u16,
    side_content_width: SideContentWidth,
    side_content_min_width: u16,
) -> (r: Option<(u16, u16)>)
    ensures
        r == side_by_side(content_width, side_content_width, side_content_min_width),
{
    let side_width: u16 = match side_content_width {
        SideContentWidth::Fixed(width) => {
            if width == 0 {
                return None;
            }
            width
        },
        SideContentWidth::Half => content_width.saturating_sub(SIDE_CONTENT_GAP) / 2,
    };
    if side_width < side_content_min_width {
        return None;
    }
    let list_width: u16 = content_width.saturating_sub(
        SIDE_CONTENT_GAP.saturating_add(side_width),
    );
    if list_width >= MIN_LIST_WIDTH_FOR_SIDE {
        Some((list_width, side_width))
    } else {
        None
    }
}

/// List, gap and side panel share out the content width exactly.
pub proof fn law_side_by_side_fills_the_width(
    content_width: u16,
    width: SideContentWidth,
    min_width: u16,
)
    requires
        side_by_side(content_width, width, min_width) is Some,
    ensures
        ({
            let (list, side) = side_by_side(content_width, width, min_width)->0;
            &&& list + SIDE_CONTENT_GAP + side == content_width
            &&& list >= MIN_LIST_WIDTH_FOR_SIDE
            &&& side >= min_width
        }),
{
}

/// What an item does when it is picked.
#[derive(Clone, Copy, PartialEq, Eq, Structural, Debug)]
pub enum SelectionAction {
    VerbositySelected(Verbosity),
    YoloSelected(bool),
    /// An action of the caller, by its number.
    Custom(usize),
}

/// What the view asks its owner to do.
#[derive(Clone, Copy, PartialEq, Eq, Structural, Debug)]
pub enum ViewEffect {
    /// The highlighted item changed to the item of this index.
    SelectionChanged(usize),
    /// The view was left without a choice.
    Cancelled,
    /// Run an action of the picked item.
    Run(SelectionAction),
}

/// An item of a selection list.
#[derive(Debug)]
pub struct SelectionItem {
    pub name: String,
    pub display_shortcut: Option<String>,
    pub description: Option<String>,
    pub selected_description: Option<String>,
    pub is_current: bool,
    pub is_default: bool,
    pub is_disabled: bool,
    pub actions: Vec<SelectionAction>,
    pub dismiss_on_select: bool,
    pub search_value: Option<String>,
    pub disabled_reason: Option<String>,
}

impl Default for SelectionItem {
    /// An item without a name that does nothing.
    fn default() -> (r: Self)
        ensures
            r.name@ == Seq::<char>::empty(),
            r.display_shortcut is None,
            r.description is None,
            r.selected_description is None,
            !r.is_current,
            !r.is_default,
            !r.is_disabled,
            r.actions@ == Seq::<SelectionAction>::empty(),
            !r.dismiss_on_select,
            r.search_value is None,
            r.disabled_reason is None,
    {
        SelectionItem {
            name: String::new(),
            display_shortcut: None,
            description: None,
            selected_description: None,
            is_current: false,
            is_default: false,
            is_disabled: false,
            actions: Vec::new(),
            dismiss_on_select: false,
            search_value: None,
            disabled_reason: None,
        }
    }
}

impl SelectionItem {
    /// Whether the item cannot be picked.
    pub open spec fn disabled(&self) -> bool {
        self.is_disabled || self.disabled_reason is Some
    }

    /// Whether the item cannot be picked.
    pub fn is_unavailable(&self) -> (b: bool)
        ensures
            b == self.disabled(),
    {
        self.is_disabled || self.disabled_reason.is_some()
    }

    /// Whether the item is found by `query`: its search text holds the query, in
    /// whatever case.
    pub open spec fn found_by(&self, query: Seq<char>) -> bool {
        match self.search_value {
            Some(v) => text::find(text::lowercase(v@), text::lowercase(query)) is Some,
            None => false,
        }
    }
}

/// What a selection view shows and how.
#[derive(Debug)]
pub struct SelectionViewParams {
    pub title: Option<String>,
    pub subtitle: Option<String>,
    pub footer_note: Option<Line>,
    pub footer_hint: Option<Line>,
    pub items: Vec<SelectionItem>,
    pub is_searchable: bool,
    pub search_placeholder: Option<String>,
    pub initial_selected_idx: Option<usize>,
    /// Width mode for side content when side-by-side layout is active.
    pub side_content_width: SideContentWidth,
    /// Minimum side panel width required before side-by-side layout activates.
    pub side_content_min_width: u16,
    /// When true and side-by-side layout is active, expand the popup height so the
    /// side content can render at its full desired height without being truncated.
    pub fit_popup_height_to_side_content: bool,
    /// Keep side-content background colors after rendering in side-by-side mode.
    pub preserve_side_content_bg: bool,
    /// Report when the highlighted item changes (navigation, filter, number-key).
    pub notify_selection_changed: bool,
    /// Report when the picker is dismissed without selecting.
    pub notify_cancel: bool,
}

impl Default for SelectionViewParams {
    /// An empty list.
    fn default() -> (r: Self)
        ensures
            r.title is None,
            r.subtitle is None,
            r.footer_note is None,
            r.footer_hint is None,
            r.items@ == Seq::<SelectionItem>::empty(),
            !r.is_searchable,
            r.search_placeholder is None,
            r.initial_selected_idx is None,
            r.side_content_width == SideContentWidth::Fixed(0),
            r.side_content_min_width == 0,
            !r.fit_popup_height_to_side_content,
            !r.preserve_side_content_bg,
            !r.notify_selection_changed,
            !r.notify_cancel,
    {
        SelectionViewParams {
            title: None,
            subtitle: None,
            footer_note: None,
            footer_hint: None,
            items: Vec::new(),
            is_searchable: false,
            search_placeholder: None,
            initial_selected_idx: None,
            side_content_width: SideContentWidth::Fixed(0),
            side_content_min_width: 0,
            fit_popup_height_to_side_content: false,
            preserve_side_content_bg: false,
            notify_selection_changed: false,
            notify_cancel: false,
        }
    }
}

/// The position of the first item that is marked as current.
pub open spec fn first_current(items: Seq<SelectionItem>) -> Option<usize> {
    if exists|i: int| 0 <= i < items.len() && (#[trigger] items[i]).is_current {
        Some(
            choose|i: usize|
                i < items.len() && (#[trigger] items[i as int]).is_current && forall|k: int|
                    0 <= k < i ==> !(#[trigger] items[k]).is_current,
        )
    } else {
        None
    }
}

/// The positions of the first `n` items that `query` finds, in order.
pub open spec fn found_positions(items: Seq<SelectionItem>, query: Seq<char>, n: nat) -> Seq<usize>
    decreases n,
{
    if n == 0 {
        seq![]
    } else {
        let before = found_positions(items, query, (n - 1) as nat);
        if items[n - 1].found_by(query) {
            before.push((n - 1) as usize)
        } else {
            before
        }
    }
}

/// All positions below `n`, in order.
pub open spec fn all_positions(n: nat) -> Seq<usize> {
    Seq::new(n, |i: int| i as usize)
}

/// The place of `x` in `s`, where it stands there.
pub open spec fn place_of(s: Seq<usize>, x: usize) -> Option<usize> {
    if exists|i: int| 0 <= i < s.len() && s[i] == x {
        Some(
            choose|i: usize|
                i < s.len() && s[i as int] == x && forall|k: int| 0 <= k < i ==> s[k] != x,
        )
    } else {
        None
    }
}

/// The state of a [`ListSelectionView`].
#[verifier::ext_equal]
pub struct ListState {
    pub items: Seq<SelectionItem>,
    pub scroll: ScrollState,
    pub complete: bool,
    pub searchable: bool,
    pub query: Seq<char>,
    /// The positions of the items that show, in order.
    pub filtered: Seq<usize>,
    pub last_selected: Option<usize>,
    pub initial: Option<usize>,
    pub notify_selection: bool,
    pub notify_cancel: bool,
    /// What the view shows around its rows, and how it is laid out.
    pub layout: LayoutParams,
}

/// The rows that show at once of a list of `len` rows.
pub open spec fn max_rows(len: usize) -> usize {
    if len == 0 {
        1
    } else if len < MAX_POPUP_ROWS {
        len
    } else {
        MAX_POPUP_ROWS
    }
}

impl ListState {
    /// The rows that show are the items that the query finds, or all of them; the
    /// selection stands on one of them, where there are any.
    pub open spec fn wf(self) -> bool {
        &&& self.items.len() <= usize::MAX
        &&& self.filtered == self.matching()
        &&& self.scroll.fits(self.filtered.len())
    }

    /// The positions of the items that are to show.
    pub open spec fn matching(self) -> Seq<usize> {
        if self.searchable && self.query.len() > 0 {
            found_positions(self.items, self.query, self.items.len())
        } else {
            all_positions(self.items.len())
        }
    }

    /// The number of rows.
    pub open spec fn len(self) -> usize {
        self.filtered.len() as usize
    }

    /// The position of the selected item.
    pub open spec fn selected(self) -> Option<usize> {
        match self.scroll.selected_idx {
            Some(i) => if i < self.filtered.len() {
                Some(self.filtered[i as int])
            } else {
                None
            },
            None => None,
        }
    }

    /// Reports the selected item, where reports are wanted.
    pub open spec fn changed(self) -> Seq<ViewEffect> {
        match self.selected() {
            Some(i) => if self.notify_selection {
                seq![ViewEffect::SelectionChanged(i)]
            } else {
                seq![]
            },
            None => seq![],
        }
    }

    /// The item to keep selected while the rows change: the selected one, else the
    /// current one of a list that is not searched, else the initial one.
    pub open spec fn preferred(self) -> Option<usize> {
        if self.selected() is Some {
            self.selected()
        } else if !self.searchable && first_current(self.items) is Some {
            first_current(self.items)
        } else {
            self.initial
        }
    }

    /// The rows after the query changed. The selected row stays where the list is
    /// still long enough; else the preferred item is selected where it shows, and
    /// the first row otherwise.
    pub open spec fn filtered_anew(self) -> (ListState, Seq<ViewEffect>) {
        let preferred = self.preferred();
        let filtered = self.matching();
        let len = filtered.len() as usize;
        let kept = match self.scroll.selected_idx {
            Some(i) => if i < len {
                Some(i)
            } else {
                None
            },
            None => None,
        };
        let found = match preferred {
            Some(p) => place_of(filtered, p),
            None => None,
        };
        let selected = if kept is Some {
            kept
        } else if found is Some {
            found
        } else if len > 0 {
            Some(0usize)
        } else {
            None
        };
        let scroll = (ScrollState { selected_idx: selected, ..self.scroll }).clamped(
            len,
        ).made_visible(len, max_rows(len));
        let next = ListState {
            filtered,
            scroll,
            initial: if self.selected() is None && (self.searchable || first_current(
                self.items,
            ) is None) {
                None
            } else {
                self.initial
            },
            ..self
        };
        (
            next,
            if next.selected() != preferred {
                next.changed()
            } else {
                seq![]
            },
        )
    }

    /// Whether the selected item cannot be picked.
    pub open spec fn on_disabled(self, scroll: ScrollState) -> bool {
        let s = (ListState { scroll, ..self }).selected();
        s matches Some(i) && i < self.items.len() && self.items[i as int].disabled()
    }

    /// The selection moved on, up to `n` rows, while it stands on an item that
    /// cannot be picked.
    pub open spec fn skipped(self, scroll: ScrollState, up: bool, n: nat) -> ScrollState
        decreases n,
    {
        if n > 0 && self.on_disabled(scroll) {
            let next = if up {
                scroll.moved_up(self.len())
            } else {
                scroll.moved_down(self.len())
            };
            self.skipped(next, up, (n - 1) as nat)
        } else {
            scroll
        }
    }

    /// One row up or down, past the items that cannot be picked.
    pub open spec fn moved(self, up: bool) -> (ListState, Seq<ViewEffect>) {
        let len = self.len();
        let stepped = (if up {
            self.scroll.moved_up(len)
        } else {
            self.scroll.moved_down(len)
        }).made_visible(len, max_rows(len));
        let next = ListState { scroll: self.skipped(stepped, up, len as nat), ..self };
        (
            next,
            if next.selected() != self.selected() {
                next.changed()
            } else {
                seq![]
            },
        )
    }

    /// Leaves the view without a choice.
    pub open spec fn cancelled(self) -> (ListState, Seq<ViewEffect>) {
        (
            ListState { complete: true, ..self },
            if self.notify_cancel {
                seq![ViewEffect::Cancelled]
            } else {
                seq![]
            },
        )
    }

    /// Picks the selected item. One that cannot be picked is left alone; without
    /// any item the view is left.
    pub open spec fn accepted(self) -> (ListState, Seq<ViewEffect>) {
        match self.selected() {
            Some(i) => if i < self.items.len() {
                let item = self.items[i as int];
                if item.disabled() {
                    (self, seq![])
                } else {
                    (
                        ListState {
                            last_selected: Some(i),
                            complete: self.complete || item.dismiss_on_select,
                            ..self
                        },
                        item.actions@.map_values(|a: SelectionAction| ViewEffect::Run(a)),
                    )
                }
            } else {
                self.cancelled()
            },
            None => self.cancelled(),
        }
    }

    /// Picks the item that the digit `c` names, where there is one that can be
    /// picked. That the selection moved there is reported before.
    pub open spec fn numbered(self, c: char) -> (ListState, Seq<ViewEffect>) {
        let n = c as u32 - '0' as u32 - 1;
        if '1' <= c <= '9' && n < self.items.len() && !self.items[n].disabled() {
            let next = ListState {
                scroll: ScrollState { selected_idx: Some(n as usize), ..self.scroll },
                ..self
            };
            let reported = if next.selected() != self.selected() {
                next.changed()
            } else {
                seq![]
            };
            (next.accepted().0, reported + next.accepted().1)
        } else {
            (self, seq![])
        }
    }

    /// Whether `key` moves up.
    pub open spec fn moves_up(self, key: KeyEvent) -> bool {
        ||| key.code == KeyCode::Up
        ||| key.code == KeyCode::Char('p') && key.modifiers == KeyModifiers::control_only()
        ||| key.code == KeyCode::Char('\u{0010}') && key.modifiers == KeyModifiers::none()
        ||| key.code == KeyCode::Char('k') && key.modifiers == KeyModifiers::none()
            && !self.searchable
    }

    /// Whether `key` moves down.
    pub open spec fn moves_down(self, key: KeyEvent) -> bool {
        ||| key.code == KeyCode::Down
        ||| key.code == KeyCode::Char('n') && key.modifiers == KeyModifiers::control_only()
        ||| key.code == KeyCode::Char('\u{000e}') && key.modifiers == KeyModifiers::none()
        ||| key.code == KeyCode::Char('j') && key.modifiers == KeyModifiers::none()
            && !self.searchable
    }

    /// The state after `key`, and what it asks for.
    pub open spec fn key(self, key: KeyEvent) -> (ListState, Seq<ViewEffect>) {
        if self.moves_up(key) {
            self.moved(true)
        } else if self.moves_down(key) {
            self.moved(false)
        } else {
            match key.code {
                KeyCode::Backspace => if self.searchable {
                    (ListState {
                        query: if self.query.len() > 0 {
                            self.query.drop_last()
                        } else {
                            self.query
                        },
                        ..self
                    }).filtered_anew()
                } else {
                    (self, seq![])
                },
                KeyCode::Esc => self.cancelled(),
                KeyCode::Char(c) => if c == 'c' && key.modifiers.control {
                    self.cancelled()
                } else if key.modifiers.control || key.modifiers.alt {
                    (self, seq![])
                } else if self.searchable {
                    (ListState { query: self.query.push(c), ..self }).filtered_anew()
                } else {
                    self.numbered(c)
                },
                KeyCode::Enter => if key.modifiers == KeyModifiers::none() {
                    self.accepted()
                } else {
                    (self, seq![])
                },
                _ => (self, seq![]),
            }
        }
    }
}

/// A popup that lets the user pick one item of a list.
#[derive(Debug)]
pub struct ListSelectionView {
    title: Option<String>,
    subtitle: Option<String>,
    footer_note: Option<Line>,
    footer_hint: Option<Line>,
    items: Vec<SelectionItem>,
    state: ScrollState,
    complete: bool,
    is_searchable: bool,
    search_query: String,
    search_placeholder: Option<String>,
    filtered_indices: Vec<usize>,
    last_selected_actual_idx: Option<usize>,
    initial_selected_idx: Option<usize>,
    side_content_width: SideContentWidth,
    side_content_min_width: u16,
    fit_popup_height_to_side_content: bool,
    preserve_side_content_bg: bool,
    notify_selection_changed: bool,
    notify_cancel: bool,
}

impl View for ListSelectionView {
    type V = ListState;

    closed spec fn view(&self) -> ListState {
        ListState {
            items: self.items@,
            scroll: self.state,
            complete: self.complete,
            searchable: self.is_searchable,
            query: self.search_query@,
            filtered: self.filtered_indices@,
            last_selected: self.last_selected_actual_idx,
            initial: self.initial_selected_idx,
            notify_selection: self.notify_selection_changed,
            notify_cancel: self.notify_cancel,
            layout: LayoutParams {
                title: opt_text(self.title),
                subtitle: opt_text(self.subtitle),
                searchable: self.is_searchable,
                placeholder: opt_text(self.search_placeholder),
                side_content_width: self.side_content_width,
                side_content_min_width: self.side_content_min_width,
                fit_popup_height_to_side_content: self.fit_popup_height_to_side_content,
                preserve_side_content_bg: self.preserve_side_content_bg,
                note: opt_line(self.footer_note),
                hint: opt_line(self.footer_hint),
            },
        }
    }
}

proof fn lemma_found_positions(items: Seq<SelectionItem>, query: Seq<char>, n: nat)
    requires
        n <= items.len(),
        items.len() <= usize::MAX,
    ensures
        found_positions(items, query, n).len() <= n,
        forall|k: int|
            0 <= k < found_positions(items, query, n).len() ==> (#[trigger] found_positions(
                items,
                query,
                n,
            )[k]) < n,
        forall|j: int, k: int|
            0 <= j < k < found_positions(items, query, n).len() ==> (#[trigger] found_positions(
                items,
                query,
                n,
            )[j]) < (#[trigger] found_positions(items, query, n)[k]),
    decreases n,
{
    if n > 0 {
        lemma_found_positions(items, query, (n - 1) as nat);
    }
}

proof fn lemma_matching(s: ListState)
    requires
        s.items.len() <= usize::MAX,
    ensures
        s.matching().len() <= s.items.len(),
        forall|k: int| 0 <= k < s.matching().len() ==> (#[trigger] s.matching()[k]) < s.items.len(),
        forall|j: int, k: int|
            0 <= j < k < s.matching().len() ==> (#[trigger] s.matching()[j])
                < (#[trigger] s.matching()[k]),
{
    if s.searchable && s.query.len() > 0 {
        lemma_found_positions(s.items, s.query, s.items.len());
    }
}

proof fn lemma_first_current_unique(items: Seq<SelectionItem>, i: usize)
    requires
        i < items.len(),
        items[i as int].is_current,
        forall|k: int| 0 <= k < i ==> !(#[trigger] items[k]).is_current,
    ensures
        first_current(items) == Some(i),
{
    let c = choose|i: usize|
        i < items.len() && (#[trigger] items[i as int]).is_current && forall|k: int|
            0 <= k < i ==> !(#[trigger] items[k]).is_current;
    assert(items[c as int].is_current);
    if c < i {
        assert(!items[c as int].is_current);
    } else if i < c {
        assert(!items[i as int].is_current);
    }
}

proof fn lemma_place_unique(s: Seq<usize>, x: usize, i: usize)
    requires
        i < s.len(),
        s[i as int] == x,
        forall|k: int| 0 <= k < i ==> s[k] != x,
    ensures
        place_of(s, x) == Some(i),
{
    let c = choose|i: usize|
        i < s.len() && s[i as int] == x && forall|k: int| 0 <= k < i ==> s[k] != x;
    assert(s[c as int] == x);
    if c < i {
        assert(s[c as int] != x);
    } else if i < c {
        assert(s[i as int] != x);
    }
}

fn position_of(list: &Vec<usize>, x: usize) -> (r: Option<usize>)
    ensures
        r == place_of(list@, x),
        r matches Some(i) ==> i < list@.len() && list@[i as int] == x,
{
    let mut i: usize = 0;
    while i < list.len()
        invariant
            i <= list@.len(),
            forall|k: int| 0 <= k < i ==> list@[k] != x,
        decreases list@.len() - i,
    {
        if list[i] == x {
            proof {
                lemma_place_unique(list@, x, i);
            }
            return Some(i);
        }
        i += 1;
    }
    None
}

fn position_of_current(items: &Vec<SelectionItem>) -> (r: Option<usize>)
    ensures
        r == first_current(items@),
{
    let mut i: usize = 0;
    while i < items.len()
        invariant
            i <= items@.len(),
            forall|k: int| 0 <= k < i ==> !(#[trigger] items@[k]).is_current,
        decreases items@.len() - i,
    {
        if items[i].is_current {
            proof {
                lemma_first_current_unique(items@, i);
            }
            return Some(i);
        }
        i += 1;
    }
    None
}

fn effects_of(changed: Option<usize>, notify: bool) -> (r: Vec<ViewEffect>)
    ensures
        r@ == match changed {
            Some(i) => if notify {
                seq![ViewEffect::SelectionChanged(i)]
            } else {
                seq![]
            },
            None => seq![],
        },
{
    let mut r: Vec<ViewEffect> = Vec::new();
    if let Some(i) = changed {
        if notify {
            r.push(ViewEffect::SelectionChanged(i));
        }
    }
    assert(r@ =~= match changed {
        Some(i) => if notify {
            seq![ViewEffect::SelectionChanged(i)]
        } else {
            seq![]
        },
        None => seq![],
    });
    r
}

fn same_index(a: Option<usize>, b: Option<usize>) -> (r: bool)
    ensures
        r == (a == b),
{
    match (a, b) {
        (Some(x), Some(y)) => x == y,
        (None, None) => true,
        _ => false,
    }
}

impl ListSelectionView {
    /// The state that `params` describe, before any row shows.
    pub open spec fn blank(params: SelectionViewParams) -> ListState {
        ListState {
            items: params.items@,
            scroll: ScrollState::start(),
            complete: false,
            searchable: params.is_searchable,
            query: seq![],
            filtered: seq![],
            last_selected: None,
            initial: params.initial_selected_idx,
            notify_selection: params.notify_selection_changed,
            notify_cancel: params.notify_cancel,
            layout: layout_params_of(params),
        }
    }

    /// The view that `params` describe, and what it asks for at once.
    pub fn new(params: SelectionViewParams) -> (r: (Self, Vec<ViewEffect>))
        ensures
            r.0@ == ListSelectionView::blank(params).filtered_anew().0,
            r.1@ == ListSelectionView::blank(params).filtered_anew().1,
            r.0@.wf(),
            r.0@.layout == layout_params_of(params),
    {
        let ghost blank = ListSelectionView::blank(params);
        let count: usize = params.items.len();
        let mut view = ListSelectionView {
            title: params.title,
            subtitle: params.subtitle,
            footer_note: params.footer_note,
            footer_hint: params.footer_hint,
            items: params.items,
            state: ScrollState::new(),
            complete: false,
            is_searchable: params.is_searchable,
            search_query: String::new(),
            search_placeholder: if params.is_searchable {
                params.search_placeholder
            } else {
                None
            },
            filtered_indices: Vec::new(),
            last_selected_actual_idx: None,
            initial_selected_idx: params.initial_selected_idx,
            side_content_width: params.side_content_width,
            side_content_min_width: params.side_content_min_width,
            fit_popup_height_to_side_content: params.fit_popup_height_to_side_content,
            preserve_side_content_bg: params.preserve_side_content_bg,
            notify_selection_changed: params.notify_selection_changed,
            notify_cancel: params.notify_cancel,
        };
        assert(view@ =~= blank);
        let effects = view.apply_filter();
        (view, effects)
    }

    fn selected_actual_idx(&self) -> (r: Option<usize>)
        ensures
            r == self@.selected(),
    {
        match self.state.selected_idx {
            Some(i) => if i < self.filtered_indices.len() {
                Some(self.filtered_indices[i])
            } else {
                None
            },
            None => None,
        }
    }

    fn max_visible_rows(len: usize) -> (r: usize)
        ensures
            r == max_rows(len),
    {
        if len == 0 {
            1
        } else if len < MAX_POPUP_ROWS {
            len
        } else {
            MAX_POPUP_ROWS
        }
    }

    fn matching_indices(&self) -> (r: Vec<usize>)
        ensures
            r@ == self@.matching(),
    {
        let mut r: Vec<usize> = Vec::new();
        let len: usize = self.items.len();
        let mut i: usize = 0;
        if self.is_searchable && !self.search_query.as_str().is_empty() {
            let query_lower = self.search_query.as_str().to_lowercase();
            while i < len
                invariant
                    i <= len,
                    len == self.items@.len(),
                    query_lower@ == text::lowercase(self.search_query@),
                    r@ == found_positions(self.items@, self.search_query@, i as nat),
                decreases len - i,
            {
                let found = match &self.items[i].search_value {
                    Some(v) => text::contains_text(
                        v.as_str().to_lowercase().as_str(),
                        query_lower.as_str(),
                    ),
                    None => false,
                };
                assert(found == self.items@[i as int].found_by(self.search_query@));
                if found {
                    r.push(i);
                }
                i += 1;
            }
        } else {
            while i < len
                invariant
                    i <= len,
                    len == self.items@.len(),
                    r@ == all_positions(i as nat),
                decreases len - i,
            {
                r.push(i);
                assert(r@ =~= all_positions((i + 1) as nat));
                i += 1;
            }
        }
        r
    }

    /// Rebuilds the rows after the query or the items changed.
    fn apply_filter(&mut self) -> (r: Vec<ViewEffect>)
        requires
            old(self)@.items.len() <= usize::MAX,
        ensures
            final(self)@ == old(self)@.filtered_anew().0,
            r@ == old(self)@.filtered_anew().1,
            final(self)@.wf(),
    {
        let ghost want = self@.filtered_anew();
        let ghost start = self@;
        let mut preferred: Option<usize> = self.selected_actual_idx();
        if preferred.is_none() && !self.is_searchable {
            preferred = position_of_current(&self.items);
        }
        if preferred.is_none() {
            preferred = self.initial_selected_idx.take();
        }
        assert(preferred == start.preferred());
        self.filtered_indices = self.matching_indices();
        let len: usize = self.filtered_indices.len();
        proof {
            lemma_matching(start);
            assert(self@.matching() == start.matching());
        }
        let kept: Option<usize> = match self.state.selected_idx {
            Some(i) => if i < len {
                Some(i)
            } else {
                None
            },
            None => None,
        };
        let found: Option<usize> = match preferred {
            Some(p) => position_of(&self.filtered_indices, p),
            None => None,
        };
        self.state.selected_idx = if kept.is_some() {
            kept
        } else if found.is_some() {
            found
        } else if len > 0 {
            Some(0)
        } else {
            None
        };
        self.state.clamp_selection(len);
        self.state.ensure_visible(len, Self::max_visible_rows(len));
        assert(self@ =~= want.0);
        let now = self.selected_actual_idx();
        if same_index(now, preferred) {
            let none: Vec<ViewEffect> = Vec::new();
            assert(none@ =~= want.1);
            none
        } else {
            effects_of(now, self.notify_selection_changed)
        }
    }

    fn is_on_disabled(&self) -> (b: bool)
        ensures
            b == self@.on_disabled(self@.scroll),
    {
        match self.selected_actual_idx() {
            Some(i) => i < self.items.len() && self.items[i].is_unavailable(),
            None => false,
        }
    }

    fn skip_disabled(&mut self, up: bool)
        requires
            old(self)@.wf(),
        ensures
            final(self)@ == (ListState {
                scroll: old(self)@.skipped(old(self)@.scroll, up, old(self)@.len() as nat),
                ..old(self)@
            }),
            final(self)@.wf(),
    {
        let len: usize = self.filtered_indices.len();
        let ghost start = self@;
        let ghost target = start.skipped(start.scroll, up, len as nat);
        let mut left: usize = len;
        while left > 0 && self.is_on_disabled()
            invariant
                left <= len,
                start.wf(),
                len == start.filtered.len(),
                self@ == (ListState { scroll: self@.scroll, ..start }),
                self@.scroll.fits(len as nat),
                start.skipped(self@.scroll, up, left as nat) == target,
            decreases left,
        {
            assert(start.on_disabled(self@.scroll));
            if up {
                self.state.move_up_wrap(len);
            } else {
                self.state.move_down_wrap(len);
            }
            left -= 1;
        }
    }

    fn step(&mut self, up: bool) -> (r: Vec<ViewEffect>)
        requires
            old(self)@.wf(),
        ensures
            final(self)@ == old(self)@.moved(up).0,
            r@ == old(self)@.moved(up).1,
            final(self)@.wf(),
    {
        let ghost want = self@.moved(up);
        let before = self.selected_actual_idx();
        let len: usize = self.filtered_indices.len();
        if up {
            self.state.move_up_wrap(len);
        } else {
            self.state.move_down_wrap(len);
        }
        self.state.ensure_visible(len, Self::max_visible_rows(len));
        let ghost stepped = self@;
        proof {
            let ghost base = old(self)@;
            lemma_skipped_frame(base, stepped, stepped.scroll, up, len as nat);
        }
        self.skip_disabled(up);
        assert(self@ =~= want.0);
        let now = self.selected_actual_idx();
        if same_index(now, before) {
            let none: Vec<ViewEffect> = Vec::new();
            assert(none@ =~= want.1);
            none
        } else {
            effects_of(now, self.notify_selection_changed)
        }
    }

    /// Leaves the view without a choice.
    pub fn cancel(&mut self) -> (r: Vec<ViewEffect>)
        ensures
            final(self)@ == old(self)@.cancelled().0,
            r@ == old(self)@.cancelled().1,
            old(self)@.wf() ==> final(self)@.wf(),
    {
        let mut r: Vec<ViewEffect> = Vec::new();
        if self.notify_cancel {
            r.push(ViewEffect::Cancelled);
        }
        assert(r@ =~= old(self)@.cancelled().1);
        self.complete = true;
        r
    }

    fn accept(&mut self) -> (r: Vec<ViewEffect>)
        requires
            old(self)@.wf(),
        ensures
            final(self)@ == old(self)@.accepted().0,
            r@ == old(self)@.accepted().1,
            final(self)@.wf(),
    {
        match self.selected_actual_idx() {
            Some(i) => {
                if i < self.items.len() {
                    let mut r: Vec<ViewEffect> = Vec::new();
                    if self.items[i].is_unavailable() {
                        assert(r@ =~= old(self)@.accepted().1);
                        return r;
                    }
                    self.last_selected_actual_idx = Some(i);
                    let item = &self.items[i];
                    let ghost run = item.actions@.map_values(
                        |a: SelectionAction| ViewEffect::Run(a),
                    );
                    let mut k: usize = 0;
                    while k < item.actions.len()
                        invariant
                            k <= item.actions@.len(),
                            run == item.actions@.map_values(
                                |a: SelectionAction| ViewEffect::Run(a),
                            ),
                            r@ == run.take(k as int),
                        decreases item.actions@.len() - k,
                    {
                        r.push(ViewEffect::Run(item.actions[k]));
                        assert(r@ =~= run.take(k + 1));
                        k += 1;
                    }
                    assert(run.take(k as int) =~= run);
                    if item.dismiss_on_select {
                        self.complete = true;
                    }
                    r
                } else {
                    self.cancel()
                }
            },
            None => self.cancel(),
        }
    }

    fn accept_number(&mut self, c: char) -> (r: Vec<ViewEffect>)
        requires
            old(self)@.wf(),
            !old(self)@.searchable,
        ensures
            final(self)@ == old(self)@.numbered(c).0,
            r@ == old(self)@.numbered(c).1,
            final(self)@.wf(),
    {
        if '1' <= c && c <= '9' {
            let idx: usize = (c as u32 - '1' as u32) as usize;
            if idx < self.items.len() && !self.items[idx].is_unavailable() {
                let before = self.selected_actual_idx();
                self.state.selected_idx = Some(idx);
                assert(self@.filtered.len() == self@.items.len());
                let now = self.selected_actual_idx();
                let mut reported: Vec<ViewEffect> = Vec::new();
                if !same_index(now, before) {
                    reported = effects_of(now, self.notify_selection_changed);
                }
                let ghost next = self@;
                assert(reported@ =~= if next.selected() != old(self)@.selected() {
                    next.changed()
                } else {
                    seq![]
                });
                let mut run = self.accept();
                let ghost ran = run@;
                reported.append(&mut run);
                assert(reported@ =~= old(self)@.numbered(c).1);
                return reported;
            }
        }
        let none: Vec<ViewEffect> = Vec::new();
        assert(none@ =~= seq![]);
        none
    }

    /// Handles a key.
    pub fn handle_key_event(&mut self, key_event: KeyEvent) -> (r: Vec<ViewEffect>)
        requires
            old(self)@.wf(),
        ensures
            final(self)@ == old(self)@.key(key_event).0,
            r@ == old(self)@.key(key_event).1,
            final(self)@.wf(),
    {
        let code = key_event.code;
        let modifiers = key_event.modifiers;
        // Some terminals send Control key chords as C0 control characters
        // without reporting the CONTROL modifier.
        if code == KeyCode::Up || (code == KeyCode::Char('p') && modifiers.is_control()) || (code
            == KeyCode::Char('\u{0010}') && modifiers.is_empty()) || (code == KeyCode::Char('k')
            && modifiers.is_empty() && !self.is_searchable) {
            return self.step(true);
        }
        if code == KeyCode::Down || (code == KeyCode::Char('n') && modifiers.is_control()) || (code
            == KeyCode::Char('\u{000e}') && modifiers.is_empty()) || (code == KeyCode::Char('j')
            && modifiers.is_empty() && !self.is_searchable) {
            return self.step(false);
        }
        let none: Vec<ViewEffect> = Vec::new();
        assert(none@ =~= seq![]);
        match code {
            KeyCode::Backspace => {
                if self.is_searchable {
                    let chars = text::chars_of(self.search_query.as_str());
                    if chars.len() > 0 {
                        self.search_query = text::string_of_range(&chars, 0, chars.len() - 1);
                        assert(self.search_query@ =~= old(self)@.query.drop_last());
                    }
                    self.apply_filter()
                } else {
                    none
                }
            },
            KeyCode::Esc => self.cancel(),
            KeyCode::Char(c) => {
                if c == 'c' && modifiers.control {
                    self.cancel()
                } else if modifiers.control || modifiers.alt {
                    none
                } else if self.is_searchable {
                    self.search_query.push(c);
                    self.apply_filter()
                } else {
                    self.accept_number(c)
                }
            },
            KeyCode::Enter => {
                if modifiers.is_empty() {
                    self.accept()
                } else {
                    none
                }
            },
            _ => none,
        }
    }

    /// Whether the user is done with the view.
    pub fn is_complete(&self) -> (b: bool)
        ensures
            b == self@.complete,
    {
        self.complete
    }

    /// The item that was picked last, once.
    pub fn take_last_selected_index(&mut self) -> (r: Option<usize>)
        ensures
            r == old(self)@.last_selected,
            final(self)@ == (ListState { last_selected: None, ..old(self)@ }),
    {
        self.last_selected_actual_idx.take()
    }
}

proof fn lemma_skipped_frame(a: ListState, b: ListState, scroll: ScrollState, up: bool, n: nat)
    requires
        a.items == b.items,
        a.filtered == b.filtered,
    ensures
        a.skipped(scroll, up, n) == b.skipped(scroll, up, n),
    decreases n,
{
    assert(a.on_disabled(scroll) == b.on_disabled(scroll));
    if n > 0 && a.on_disabled(scroll) {
        let next = if up {
            scroll.moved_up(a.len())
        } else {
            scroll.moved_down(a.len())
        };
        lemma_skipped_frame(a, b, next, up, (n - 1) as nat);
    }
}

/// What a view shows around its rows, and how it is laid out.
#[verifier::ext_equal]
pub struct LayoutParams {
    pub title: Option<Seq<char>>,
    pub subtitle: Option<Seq<char>>,
    pub searchable: bool,
    pub placeholder: Option<Seq<char>>,
    pub side_content_width: SideContentWidth,
    pub side_content_min_width: u16,
    pub fit_popup_height_to_side_content: bool,
    pub preserve_side_content_bg: bool,
    pub note: Option<LineV>,
    pub hint: Option<LineV>,
}

/// What `line` shows, if there is one.
pub open spec fn opt_line(line: Option<Line>) -> Option<LineV> {
    match line {
        Some(l) => Some(l@),
        None => None,
    }
}

/// How the view that `params` describe is laid out.
pub open spec fn layout_params_of(params: SelectionViewParams) -> LayoutParams {
    LayoutParams {
        title: opt_text(params.title),
        subtitle: opt_text(params.subtitle),
        searchable: params.is_searchable,
        placeholder: if params.is_searchable {
            opt_text(params.search_placeholder)
        } else {
            None
        },
        side_content_width: params.side_content_width,
        side_content_min_width: params.side_content_min_width,
        fit_popup_height_to_side_content: params.fit_popup_height_to_side_content,
        preserve_side_content_bg: params.preserve_side_content_bg,
        note: opt_line(params.footer_note),
        hint: opt_line(params.footer_hint),
    }
}

impl LayoutParams {
    /// The title, bold, and the subtitle, dim, as far as there are any.
    pub open spec fn header(self) -> Seq<LineV> {
        (match self.title {
            Some(t) => seq![line_v(seq![span_v(t, Style::plain().spec_bold())])],
            None => seq![],
        }) + (match self.subtitle {
            Some(t) => seq![line_v(seq![span_v(t, Style::plain().spec_dim())])],
            None => seq![],
        })
    }

    /// The columns of the side panel beside a list in `content_width` columns.
    pub open spec fn side(self, content_width: u16) -> Option<u16> {
        match side_by_side(content_width, self.side_content_width, self.side_content_min_width) {
            Some(widths) => Some(widths.1),
            None => None,
        }
    }

    /// The columns of the rows in a popup of `width` columns.
    pub open spec fn rows_width(self, width: u16) -> int {
        let full = sat_sub(width as int, 2);
        match self.side(sat_sub(width as int, MENU_SURFACE_HORIZONTAL_INSET as int) as u16) {
            Some(sw) => sat_sub(full, SIDE_CONTENT_GAP + sw),
            None => full,
        }
    }

    /// The columns that the rows are measured for in a popup of `width` columns: one
    /// more than they have.
    pub open spec fn measured_rows_width(self, width: u16) -> int {
        sat_add(self.rows_width(width), 1)
    }

    /// The footer hint as it is drawn: dim.
    pub open spec fn shown_hint(self) -> Option<LineV> {
        match self.hint {
            Some(hint) => Some(LineV { style: hint.style.spec_dim(), ..hint }),
            None => None,
        }
    }

    /// Whether the heights of a popup of `width` columns can be added up.
    pub open spec fn adds_up(self, width: u16, m: PopupMeasures) -> bool {
        let inner = sat_sub(width as int, MENU_SURFACE_HORIZONTAL_INSET as int) as u16;
        &&& m.rows_height + 3 <= u16::MAX
        &&& self.side(inner) is None ==> m.stacked_height < u16::MAX
    }

    /// The rows that a popup of `width` columns asks for: those of the header, the
    /// list, the search line and the frame; those that the side panel has beyond
    /// them, where it is to be shown in full; a stacked panel and the gap above
    /// it; and the footer.
    pub open spec fn desired_height(self, width: u16, m: PopupMeasures) -> int {
        let inner = sat_sub(width as int, MENU_SURFACE_HORIZONTAL_INSET as int) as u16;
        let side = self.side(inner);
        let search = if self.searchable {
            1int
        } else {
            0
        };
        let list = sat_add(sat_add(m.header_height as int, m.rows_height + 3), search);
        let beside = sat_add(
            sat_add(sat_add(m.header_height as int, 1), search),
            m.rows_height as int,
        );
        let grown = if side is Some && self.fit_popup_height_to_side_content && m.side_height
            != u16::MAX && m.side_height > beside {
            sat_add(list, m.side_height - beside)
        } else {
            list
        };
        let stacked = if side is None && m.stacked_height > 0 {
            sat_add(grown, 1 + m.stacked_height)
        } else {
            grown
        };
        let noted = if self.note is Some {
            sat_add(stacked, m.note_height as int)
        } else {
            stacked
        };
        if self.hint is Some {
            sat_add(noted, 1)
        } else {
            noted
        }
    }
}

/// Rows whose height is measured, and how: with what is selected, up to how many
/// of them, and for how many columns.
#[derive(Debug)]
pub struct RowsToMeasure {
    pub rows: Vec<GenericDisplayRow>,
    pub state: ScrollState,
    pub max_rows: usize,
    pub width: u16,
}

/// How high the parts of a popup are, laid out on their own.
#[derive(Clone, Copy, PartialEq, Eq, Structural, Debug)]
pub struct PopupMeasures {
    pub header_height: u16,
    pub rows_height: u16,
    /// The side panel, in the columns that it has beside the list.
    pub side_height: u16,
    /// The side panel, in the columns that it has below the list.
    pub stacked_height: u16,
    /// The lines of the footer note.
    pub note_height: u16,
}

/// Where a side panel stands.
#[derive(Clone, Copy, PartialEq, Eq, Structural, Debug)]
pub struct SidePlan {
    pub area: Rect,
    /// The cells to clear in front of it.
    pub clear: Rect,
    /// Whether the cleared cells get the terminal background back afterwards.
    pub reset_background: bool,
}

/// Where a panel below the list stands.
#[derive(Clone, Copy, PartialEq, Eq, Structural, Debug)]
pub struct StackedPlan {
    pub area: Rect,
    /// The cells to clear in front of it.
    pub clear: Rect,
}

/// Where the parts of a popup stand.
#[derive(Debug)]
pub struct RenderPlan {
    pub header: Rect,
    /// Where the note stands that the header is cut off, where it is.
    pub elision: Option<Rect>,
    pub search: Option<Rect>,
    pub list: Option<Rect>,
    pub side: Option<SidePlan>,
    pub stacked: Option<StackedPlan>,
    /// One area for each line of the footer note that shows.
    pub notes: Vec<Rect>,
    pub hint: Option<Rect>,
}

/// Where the parts of a popup stand.
#[verifier::ext_equal]
pub struct PlanV {
    pub header: Rect,
    pub elision: Option<Rect>,
    pub search: Option<Rect>,
    pub list: Option<Rect>,
    pub side: Option<SidePlan>,
    pub stacked: Option<StackedPlan>,
    pub notes: Seq<Rect>,
    pub hint: Option<Rect>,
}

impl View for RenderPlan {
    type V = PlanV;

    open spec fn view(&self) -> PlanV {
        PlanV {
            header: self.header,
            elision: self.elision,
            search: self.search,
            list: self.list,
            side: self.side,
            stacked: self.stacked,
            notes: self.notes@,
            hint: self.hint,
        }
    }
}

/// The areas that a popup is split into. `outer` is the popup without its
/// footer, `surface` what its frame leaves of that.
#[derive(Debug)]
pub struct PopupParts {
    pub outer: Rect,
    pub surface: Rect,
    /// Header, gap, search line, list, gap and stacked panel.
    pub content: Vec<Rect>,
    /// The header and the note below it, where the header is cut off.
    pub header: Vec<Rect>,
    pub footer: Rect,
    /// Footer note and footer hint.
    pub footer_parts: Vec<Rect>,
}

/// `area` without its first two columns.
pub open spec fn indented(area: Rect) -> Rect {
    Rect { x: (area.x + 2) as u16, width: sat_sub(area.width as int, 2) as u16, ..area }
}

/// The cells between the list and the end of the popup, beside which a side
/// panel of `sw` columns stands.
pub open spec fn side_clear(outer: Rect, surface: Rect, sw: u16) -> Rect {
    let x = sat_sub(surface.x + surface.width - sw, SIDE_CONTENT_GAP as int);
    Rect {
        x: x as u16,
        y: outer.y,
        width: sat_sub(outer.spec_right(), x) as u16,
        height: outer.height,
    }
}

impl LayoutParams {
    /// Where the parts of a popup stand.
    pub open spec fn plan(self, parts: PopupParts, m: PopupMeasures) -> PlanV {
        let outer = parts.outer;
        let surface = parts.surface;
        let content = parts.content@;
        let inner = sat_sub(outer.width as int, MENU_SURFACE_HORIZONTAL_INSET as int) as u16;
        let side = self.side(inner);
        let cut = content[0].height < m.header_height;
        let note = parts.footer_parts@[0];
        let hint = parts.footer_parts@[1];
        PlanV {
            header: if cut {
                parts.header@[0]
            } else {
                content[0]
            },
            elision: if cut {
                Some(parts.header@[1])
            } else {
                None
            },
            search: if self.searchable {
                Some(content[2])
            } else {
                None
            },
            list: if content[3].height > 0 {
                Some(
                    Rect {
                        x: sat_sub(content[3].x as int, 2) as u16,
                        y: content[3].y,
                        width: max_int(self.rows_width(outer.width), 1) as u16,
                        height: content[3].height,
                    },
                )
            } else {
                None
            },
            side: match side {
                Some(sw) => Some(
                    SidePlan {
                        area: Rect {
                            x: (surface.x + surface.width - sw) as u16,
                            y: surface.y,
                            width: sw,
                            height: surface.height,
                        },
                        clear: side_clear(outer, surface, sw),
                        reset_background: !self.preserve_side_content_bg,
                    },
                ),
                None => None,
            },
            stacked: if side is None && content[5].height > 0 {
                Some(
                    StackedPlan {
                        area: content[5],
                        clear: Rect {
                            x: outer.x,
                            y: content[5].y,
                            width: outer.width,
                            height: sat_sub(
                                outer.y + outer.height,
                                content[5].y as int,
                            ) as u16,
                        },
                    },
                )
            } else {
                None
            },
            notes: if parts.footer.height > 0 && self.note is Some {
                Seq::new(
                    min_int(m.note_height as int, note.height as int) as nat,
                    |i: int| Rect { y: (note.y + i) as u16, height: 1, ..indented(note) },
                )
            } else {
                seq![]
            },
            hint: if parts.footer.height > 0 && self.hint is Some {
                Some(indented(hint))
            } else {
                None
            },
        }
    }

    /// The constraints for the parts inside the frame.
    pub open spec fn content_constraints(self, outer: Rect, m: PopupMeasures) -> Seq<Constraint> {
        let inner = sat_sub(outer.width as int, MENU_SURFACE_HORIZONTAL_INSET as int) as u16;
        let stacked = if self.side(inner) is None {
            m.stacked_height
        } else {
            0
        };
        seq![
            Constraint::Max(m.header_height),
            Constraint::Max(1),
            Constraint::Length(
                if self.searchable {
                    1
                } else {
                    0
                },
            ),
            Constraint::Length(m.rows_height),
            Constraint::Length(
                if stacked > 0 {
                    1
                } else {
                    0
                },
            ),
            Constraint::Length(stacked),
        ]
    }
}

/// Whether `parts` are parts of a popup on a screen: the frame leaves the content
/// columns, the areas stand inside each other, and there is room for the indent
/// of the footer.
pub open spec fn parts_ok(parts: PopupParts) -> bool {
    &&& parts.outer.x + parts.outer.width <= u16::MAX
    &&& parts.outer.y + parts.outer.height <= u16::MAX
    &&& parts.surface.inside(parts.outer)
    &&& parts.surface.width == sat_sub(
        parts.outer.width as int,
        MENU_SURFACE_HORIZONTAL_INSET as int,
    )
    &&& are_rows_of(parts.content@, parts.surface, 6)
    &&& are_rows_of(parts.header@, parts.content@[0], 2)
    &&& parts.footer.x + 2 <= u16::MAX
    &&& are_rows_of(parts.footer_parts@, parts.footer, 2)
}

impl ListSelectionView {
    /// The columns of the side panel beside a list in `content_width` columns.
    pub fn side_layout_width(&self, content_width: u16) -> (r: Option<u16>)
        ensures
            r == self@.layout.side(content_width),
    {
        match side_by_side_layout_widths(
            content_width,
            self.side_content_width,
            self.side_content_min_width,
        ) {
            Some(widths) => Some(widths.1),
            None => None,
        }
    }

    /// The columns of the rows in a popup of `width` columns.
    pub fn effective_rows_width(&self, width: u16) -> (r: u16)
        ensures
            r == self@.layout.rows_width(width),
    {
        let full: u16 = width.saturating_sub(2);
        match self.side_layout_width(popup_content_width(width)) {
            Some(sw) => full.saturating_sub(SIDE_CONTENT_GAP + sw),
            None => full,
        }
    }

    /// The rows that a popup of `width` columns asks for.
    pub fn desired_height(&self, width: u16, m: PopupMeasures) -> (h: u16)
        requires
            self@.layout.adds_up(width, m),
        ensures
            h == self@.layout.desired_height(width, m),
    {
        let side = self.side_layout_width(popup_content_width(width));
        let search: u16 = if self.is_searchable { 1 } else { 0 };
        let mut height: u16 = m.header_height.saturating_add(m.rows_height + 3).saturating_add(
            search,
        );
        if side.is_some() && self.fit_popup_height_to_side_content {
            let beside: u16 = m.header_height.saturating_add(1).saturating_add(
                search,
            ).saturating_add(m.rows_height);
            if m.side_height != 65535 && m.side_height > beside {
                height = height.saturating_add(m.side_height - beside);
            }
        }
        if side.is_none() && m.stacked_height > 0 {
            height = height.saturating_add(1 + m.stacked_height);
        }
        if self.footer_note.is_some() {
            height = height.saturating_add(m.note_height);
        }
        if self.footer_hint.is_some() {
            height = height.saturating_add(1);
        }
        height
    }

    /// The rows of the popup, to be measured for a popup of `width` columns.
    pub fn rows_to_measure(&self, width: u16) -> (r: RowsToMeasure)
        requires
            self@.wf(),
        ensures
            r.rows@.map_values(|row: GenericDisplayRow| row@) == self@.rows(),
            r.state == self@.scroll,
            r.max_rows == MAX_POPUP_ROWS,
            r.width == self@.layout.measured_rows_width(width),
    {
        RowsToMeasure {
            rows: self.build_rows(),
            state: self.state,
            max_rows: MAX_POPUP_ROWS,
            width: self.effective_rows_width(width).saturating_add(1),
        }
    }

    /// The popup without its footer, and the footer; nothing is drawn into an area
    /// without cells.
    pub fn split_footer(&self, area: Rect, note_height: u16) -> (r: Option<(Rect, Rect)>)
        requires
            self@.layout.hint is Some ==> note_height < u16::MAX,
        ensures
            r is None <==> area.width == 0 || area.height == 0,
            r matches Some(parts) ==> are_rows_of(seq![parts.0, parts.1], area, 2) && is_split(
                area,
                seq![
                    Constraint::Fill(1),
                    Constraint::Length(
                        (note_height + if self@.layout.hint is Some {
                            1int
                        } else {
                            0
                        }) as u16,
                    ),
                ],
                seq![parts.0, parts.1],
            ),
    {
        if area.height == 0 || area.width == 0 {
            return None;
        }
        let footer_rows: u16 = note_height + if self.footer_hint.is_some() { 1 } else { 0 };
        let constraints = [Constraint::Fill(1), Constraint::Length(footer_rows)];
        let parts = split_vertical(area, constraints.as_slice());
        assert(parts@ =~= seq![parts@[0], parts@[1]]);
        assert(constraints@ =~= seq![Constraint::Fill(1), Constraint::Length(footer_rows)]);
        Some((parts[0], parts[1]))
    }

    /// The footer note.
    pub fn footer_note(&self) -> (r: Option<&Line>)
        ensures
            match r {
                Some(line) => self@.layout.note == Some(line@),
                None => self@.layout.note is None,
            },
    {
        self.footer_note.as_ref()
    }

    /// The footer hint as it is drawn.
    pub fn footer_hint_line(&self) -> (r: Option<Line>)
        ensures
            opt_line(r) == self@.layout.shown_hint(),
    {
        match &self.footer_hint {
            Some(hint) => {
                let copy = hint.duplicate();
                Some(Line { style: copy.style.dim(), spans: copy.spans })
            },
            None => None,
        }
    }

    /// The areas that a popup is split into, inside the frame and in the footer.
    pub fn split_parts(&self, outer: Rect, surface: Rect, footer: Rect, m: PopupMeasures) -> (r:
        PopupParts)
        ensures
            r.outer == outer,
            r.surface == surface,
            r.footer == footer,
            are_rows_of(r.content@, surface, 6),
            are_rows_of(r.header@, r.content@[0], 2),
            are_rows_of(r.footer_parts@, footer, 2),
            is_split(surface, self@.layout.content_constraints(outer, m), r.content@),
            is_split(
                r.content@[0],
                seq![Constraint::Fill(1), Constraint::Length(1)],
                r.header@,
            ),
            is_split(
                footer,
                seq![
                    Constraint::Length(m.note_height),
                    Constraint::Length(
                        if self@.layout.hint is Some {
                            1
                        } else {
                            0
                        },
                    ),
                ],
                r.footer_parts@,
            ),
    {
        let side = self.side_layout_width(popup_content_width(outer.width));
        let stacked: u16 = if side.is_none() { m.stacked_height } else { 0 };
        let gap: u16 = if stacked > 0 { 1 } else { 0 };
        let search: u16 = if self.is_searchable { 1 } else { 0 };
        let constraints = [
            Constraint::Max(m.header_height),
            Constraint::Max(1),
            Constraint::Length(search),
            Constraint::Length(m.rows_height),
            Constraint::Length(gap),
            Constraint::Length(stacked),
        ];
        assert(constraints@ =~= self@.layout.content_constraints(outer, m));
        let content = split_vertical(surface, constraints.as_slice());
        let cut = [Constraint::Fill(1), Constraint::Length(1)];
        let header = split_vertical(content[0], cut.as_slice());
        assert(cut@ =~= seq![Constraint::Fill(1), Constraint::Length(1)]);
        let hint: u16 = if self.footer_hint.is_some() { 1 } else { 0 };
        let below = [Constraint::Length(m.note_height), Constraint::Length(hint)];
        let footer_parts = split_vertical(footer, below.as_slice());
        assert(below@ =~= seq![Constraint::Length(m.note_height), Constraint::Length(hint)]);
        PopupParts { outer, surface, content, header, footer, footer_parts }
    }

    /// Where the parts of a popup stand.
    pub fn render_plan(&self, parts: &PopupParts, m: PopupMeasures) -> (r: RenderPlan)
        requires
            parts_ok(*parts),
        ensures
            r@ == self@.layout.plan(*parts, m),
    {
        let ghost want = self@.layout.plan(*parts, m);
        let outer = parts.outer;
        let surface = parts.surface;
        let side_width = self.side_layout_width(popup_content_width(outer.width));
        let cut = parts.content[0].height < m.header_height;
        let list_area = parts.content[3];
        let list = if list_area.height > 0 {
            let rows: u16 = self.effective_rows_width(outer.width);
            Some(
                Rect {
                    x: list_area.x.saturating_sub(2),
                    y: list_area.y,
                    width: if rows > 1 { rows } else { 1 },
                    height: list_area.height,
                },
            )
        } else {
            None
        };
        let side = match side_width {
            Some(sw) => {
                let side_x: u16 = surface.x + (surface.width - sw);
                let clear_x: u16 = side_x.saturating_sub(SIDE_CONTENT_GAP);
                let clear_w: u16 = outer.right().saturating_sub(clear_x);
                Some(
                    SidePlan {
                        area: Rect {
                            x: side_x,
                            y: surface.y,
                            width: sw,
                            height: surface.height,
                        },
                        clear: Rect {
                            x: clear_x,
                            y: outer.y,
                            width: clear_w,
                            height: outer.height,
                        },
                        reset_background: !self.preserve_side_content_bg,
                    },
                )
            },
            None => None,
        };
        let stacked_area = parts.content[5];
        let stacked = if side_width.is_none() && stacked_area.height > 0 {
            let clear_height: u16 = (outer.y + outer.height).saturating_sub(stacked_area.y);
            Some(
                StackedPlan {
                    area: stacked_area,
                    clear: Rect {
                        x: outer.x,
                        y: stacked_area.y,
                        width: outer.width,
                        height: clear_height,
                    },
                },
            )
        } else {
            None
        };
        let note_area = parts.footer_parts[0];
        let hint_area = parts.footer_parts[1];
        let mut notes: Vec<Rect> = Vec::new();
        if parts.footer.height > 0 && self.footer_note.is_some() {
            let shown: u16 = if m.note_height < note_area.height {
                m.note_height
            } else {
                note_area.height
            };
            let mut i: u16 = 0;
            while i < shown
                invariant
                    i <= shown <= note_area.height,
                    note_area.x + 2 <= u16::MAX,
                    note_area.y + note_area.height <= u16::MAX,
                    notes@.len() == i,
                    forall|k: int|
                        0 <= k < i ==> #[trigger] notes@[k] == (Rect {
                            y: (note_area.y + k) as u16,
                            height: 1,
                            ..indented(note_area)
                        }),
                decreases shown - i,
            {
                notes.push(
                    Rect {
                        x: note_area.x + 2,
                        y: note_area.y + i,
                        width: note_area.width.saturating_sub(2),
                        height: 1,
                    },
                );
                i += 1;
            }
        }
        assert(notes@ =~= want.notes);
        let hint = if parts.footer.height > 0 && self.footer_hint.is_some() {
            Some(
                Rect {
                    x: hint_area.x + 2,
                    y: hint_area.y,
                    width: hint_area.width.saturating_sub(2),
                    height: hint_area.height,
                },
            )
        } else {
            None
        };
        let r = RenderPlan {
            header: if cut {
                parts.header[0]
            } else {
                parts.content[0]
            },
            elision: if cut {
                Some(parts.header[1])
            } else {
                None
            },
            search: if self.is_searchable {
                Some(parts.content[2])
            } else {
                None
            },
            list,
            side,
            stacked,
            notes,
            hint,
        };
        assert(r@ =~= want);
        r
    }

    /// The note that the header of `header_height` lines is cut off.
    pub fn elision_line(header_height: u16) -> (r: Line)
        ensures
            r@ == (LineV {
                style: Style::plain().spec_dim(),
                ..crate::styled::text_line_v(
                    "[… "@ + text::decimal(header_height as nat) + " lines] ctrl + a view all"@,
                )
            }),
    {
        let content = text::concat3(
            "[… ",
            text::decimal_string(header_height as u64).as_str(),
            " lines] ctrl + a view all",
        );
        let line = Line::from_text(content.as_str());
        Line { style: Style::new().dim(), spans: line.spans }
    }

    /// What the search line shows: the query, or else the dim placeholder.
    pub fn search_line(&self) -> (r: Line)
        ensures
            r@ == line_v(
                seq![
                    if self@.query.len() > 0 {
                        span_v(self@.query, Style::plain())
                    } else {
                        match self@.layout.placeholder {
                            Some(p) => span_v(p, Style::plain().spec_dim()),
                            None => span_v(""@, Style::plain()),
                        }
                    },
                ],
            ),
    {
        if !self.search_query.as_str().is_empty() {
            return Line::from_styled(self.search_query.as_str(), Style::new());
        }
        match &self.search_placeholder {
            Some(p) => Line::from_styled(p.as_str(), Style::new().dim()),
            None => Line::from_styled("", Style::new()),
        }
    }
}

/// The cells of `area` that stand inside `bounds`: from the first corner up to
/// but not including the second.
pub fn clip_to(area: Rect, bounds: Rect) -> (r: (u16, u16, u16, u16))
    ensures
        r.0 == max_int(area.x as int, bounds.x as int),
        r.1 == max_int(area.y as int, bounds.y as int),
        r.2 == min_int(area.spec_right(), bounds.spec_right()),
        r.3 == min_int(area.spec_bottom(), bounds.spec_bottom()),
{
    let x0: u16 = if area.x >= bounds.x { area.x } else { bounds.x };
    let y0: u16 = if area.y >= bounds.y { area.y } else { bounds.y };
    let x1: u16 = if area.right() <= bounds.right() { area.right() } else { bounds.right() };
    let y1: u16 = if area.bottom() <= bounds.bottom() { area.bottom() } else { bounds.bottom() };
    (x0, y0, x1, y1)
}

/// The parts of a popup stand inside it: search line, stacked panel and side
/// panel never reach out of the frame, and the side panel and its clearing end
/// with it.
pub proof fn law_parts_stand_inside(p: LayoutParams, parts: PopupParts, m: PopupMeasures)
    requires
        parts_ok(parts),
    ensures
        ({
            let plan = p.plan(parts, m);
            &&& plan.search matches Some(a) ==> a.inside(parts.surface)
            &&& plan.stacked matches Some(s) ==> s.area.inside(parts.surface)
                && s.clear.inside(parts.outer)
            &&& plan.side matches Some(s) ==> s.area.inside(parts.surface) && s.clear.inside(
                parts.outer,
            ) && s.clear.x + s.clear.width == parts.outer.x + parts.outer.width
        }),
{
    let content = parts.content@;
    assert(content[2].x == parts.surface.x && content[5].x == parts.surface.x);
}

/// A row of the list.
#[derive(Debug)]
pub struct GenericDisplayRow {
    pub name: String,
    pub display_shortcut: Option<String>,
    pub match_indices: Option<Vec<usize>>,
    pub description: Option<String>,
    pub wrap_indent: Option<usize>,
    pub is_disabled: bool,
    pub disabled_reason: Option<String>,
}

/// What a [`GenericDisplayRow`] shows.
#[verifier::ext_equal]
pub struct RowV {
    pub name: Seq<char>,
    pub display_shortcut: Option<Seq<char>>,
    pub match_indices: Option<Seq<usize>>,
    pub description: Option<Seq<char>>,
    pub wrap_indent: Option<usize>,
    pub is_disabled: bool,
    pub disabled_reason: Option<Seq<char>>,
}

impl View for GenericDisplayRow {
    type V = RowV;

    open spec fn view(&self) -> RowV {
        RowV {
            name: self.name@,
            display_shortcut: opt_text(self.display_shortcut),
            match_indices: match self.match_indices {
                Some(m) => Some(m@),
                None => None,
            },
            description: opt_text(self.description),
            wrap_indent: self.wrap_indent,
            is_disabled: self.is_disabled,
            disabled_reason: opt_text(self.disabled_reason),
        }
    }
}

/// What stands in front of the name of row `n`, counted from zero: a mark on the
/// selected row and, where number keys work, the number of the row.
pub open spec fn row_prefix(searchable: bool, selected: bool, n: nat) -> Seq<char> {
    let mark = if selected {
        seq!['›', ' ']
    } else {
        seq![' ', ' ']
    };
    if searchable {
        mark
    } else {
        mark + text::decimal(n + 1) + ". "@
    }
}

/// What stands behind the name of an item.
pub open spec fn row_marker(item: SelectionItem) -> Seq<char> {
    if item.is_current {
        " (current)"@
    } else if item.is_default {
        " (default)"@
    } else {
        ""@
    }
}

/// The description of an item; a selected item may have one of its own.
pub open spec fn row_description(item: SelectionItem, selected: bool) -> Option<Seq<char>> {
    if selected && item.selected_description is Some {
        opt_text(item.selected_description)
    } else {
        opt_text(item.description)
    }
}

impl ListState {
    /// Row `n`, counted from zero.
    pub open spec fn row(self, n: nat) -> RowV {
        let item = self.items[self.filtered[n as int] as int];
        let selected = self.scroll.selected_idx == Some(n as usize);
        let prefix = row_prefix(self.searchable, selected, n);
        let description = row_description(item, selected);
        RowV {
            name: prefix + item.name@ + row_marker(item),
            display_shortcut: opt_text(item.display_shortcut),
            match_indices: None,
            description,
            wrap_indent: if description is None {
                Some(width::str_width(prefix))
            } else {
                None
            },
            is_disabled: item.disabled(),
            disabled_reason: opt_text(item.disabled_reason),
        }
    }

    /// The rows of the list.
    pub open spec fn rows(self) -> Seq<RowV> {
        Seq::new(self.filtered.len(), |n: int| self.row(n as nat))
    }
}

fn clone_opt(s: &Option<String>) -> (r: Option<String>)
    ensures
        opt_text(r) == opt_text(*s),
{
    match s {
        Some(t) => Some(t.clone()),
        None => None,
    }
}

impl ListSelectionView {
    fn build_row(&self, visible_idx: usize) -> (r: GenericDisplayRow)
        requires
            self@.wf(),
            visible_idx < self@.filtered.len(),
        ensures
            r@ == self@.row(visible_idx as nat),
    {
        proof {
            lemma_matching(self@);
        }
        let actual_idx: usize = self.filtered_indices[visible_idx];
        let count: usize = self.items.len();
        let item = &self.items[actual_idx];
        let is_selected = match self.state.selected_idx {
            Some(i) => i == visible_idx,
            None => false,
        };
        let mut prefix = String::new();
        if is_selected {
            prefix.push('›');
        } else {
            prefix.push(' ');
        }
        prefix.push(' ');
        if !self.is_searchable {
            let rows: usize = self.filtered_indices.len();
            prefix.append(text::decimal_string(visible_idx as u64 + 1).as_str());
            prefix.append(". ");
        }
        assert(prefix@ =~= row_prefix(self@.searchable, is_selected, visible_idx as nat));
        let marker = if item.is_current {
            " (current)"
        } else if item.is_default {
            " (default)"
        } else {
            ""
        };
        let prefix_width: usize = width::width_of(prefix.as_str());
        let name = text::concat3(prefix.as_str(), item.name.as_str(), marker);
        let description = if is_selected && item.selected_description.is_some() {
            clone_opt(&item.selected_description)
        } else {
            clone_opt(&item.description)
        };
        let wrap_indent: Option<usize> = if description.is_none() {
            Some(prefix_width)
        } else {
            None
        };
        GenericDisplayRow {
            name,
            display_shortcut: clone_opt(&item.display_shortcut),
            match_indices: None,
            description,
            wrap_indent,
            is_disabled: item.is_unavailable(),
            disabled_reason: clone_opt(&item.disabled_reason),
        }
    }

    /// The rows of the list.
    pub fn build_rows(&self) -> (r: Vec<GenericDisplayRow>)
        requires
            self@.wf(),
        ensures
            r@.map_values(|row: GenericDisplayRow| row@) == self@.rows(),
    {
        let mut r: Vec<GenericDisplayRow> = Vec::new();
        let mut i: usize = 0;
        while i < self.filtered_indices.len()
            invariant
                self@.wf(),
                i <= self.filtered_indices@.len(),
                r@.len() == i,
                forall|k: int| 0 <= k < i ==> (#[trigger] r@[k])@ == self@.row(k as nat),
            decreases self.filtered_indices@.len() - i,
        {
            r.push(self.build_row(i));
            i += 1;
        }
        assert(r@.map_values(|row: GenericDisplayRow| row@) =~= self@.rows());
        r
    }

    /// The selection and scrolling of the list.
    pub fn scroll_state(&self) -> (r: ScrollState)
        ensures
            r == self@.scroll,
    {
        self.state
    }

    /// The title, bold, and the subtitle, dim, as far as there are any.
    pub fn header_lines(&self) -> (r: Vec<Line>)
        ensures
            lines_view(r@) == self@.layout.header(),
    {
        let mut lines: Vec<Line> = Vec::new();
        if let Some(title) = &self.title {
            lines.push(Line::from_styled(title.as_str(), Style::new().bold()));
        }
        if let Some(subtitle) = &self.subtitle {
            lines.push(Line::from_styled(subtitle.as_str(), Style::new().dim()));
        }
        assert(lines_view(lines@) =~= self@.layout.header());
        lines
    }
}

/// The rows from row `from` to row `to`, going up or down and around.
spec fn rows_between(from: usize, to: usize, up: bool, len: usize) -> int {
    if up {
        if from >= to {
            from - to
        } else {
            from + len - to
        }
    } else if to >= from {
        to - from
    } else {
        to + len - from
    }
}

proof fn lemma_skip_reaches(s: ListState, scroll: ScrollState, target: usize, up: bool, n: nat)
    requires
        s.wf(),
        scroll.fits(s.filtered.len()),
        target < s.filtered.len(),
        !s.items[s.filtered[target as int] as int].disabled(),
        n >= rows_between(scroll.selected_idx->0, target, up, s.len()),
    ensures
        s.skipped(scroll, up, n).fits(s.filtered.len()),
        !s.on_disabled(s.skipped(scroll, up, n)),
    decreases n,
{
    lemma_matching(s);
    if s.on_disabled(scroll) {
        let next = if up {
            scroll.moved_up(s.len())
        } else {
            scroll.moved_down(s.len())
        };
        assert(scroll.selected_idx->0 != target);
        lemma_skip_reaches(s, next, target, up, (n - 1) as nat);
    }
}

/// Moving never stops on an item that cannot be picked, as long as any item that
/// shows can be.
pub proof fn law_moves_land_on_enabled_items(s: ListState, up: bool, enabled: usize)
    requires
        s.wf(),
        enabled < s.filtered.len(),
        !s.items[s.filtered[enabled as int] as int].disabled(),
    ensures
        ({
            let next = s.moved(up).0;
            &&& next.selected() matches Some(i)
            &&& !s.items[i as int].disabled()
        }),
{
    let len = s.len();
    let stepped = (if up {
        s.scroll.moved_up(len)
    } else {
        s.scroll.moved_down(len)
    }).made_visible(len, max_rows(len));
    lemma_matching(s);
    lemma_skip_reaches(s, stepped, enabled, up, len as nat);
}

/// No key breaks the list: whatever is pressed, the rows stay the items that the
/// query finds and the selection stays on one of them.
pub proof fn law_keys_keep_the_list_sound(s: ListState, key: KeyEvent)
    requires
        s.wf(),
    ensures
        s.key(key).0.wf(),
        s.key(key).0.items == s.items,
{
    if s.moves_up(key) || s.moves_down(key) {
        lemma_moves_are_sound(s, s.moves_up(key));
    } else {
        match key.code {
            KeyCode::Backspace => {
                if s.searchable {
                    let query = if s.query.len() > 0 {
                        s.query.drop_last()
                    } else {
                        s.query
                    };
                    lemma_filtering_is_sound(ListState { query, ..s });
                }
            },
            KeyCode::Char(c) => {
                if s.searchable {
                    lemma_filtering_is_sound(ListState { query: s.query.push(c), ..s });
                } else {
                    lemma_number_is_sound(s, c);
                }
            },
            _ => {},
        }
    }
}

proof fn lemma_number_is_sound(s: ListState, c: char)
    requires
        s.wf(),
        !s.searchable,
    ensures
        s.numbered(c).0.wf(),
        s.numbered(c).0.items == s.items,
{
    lemma_matching(s);
}

proof fn lemma_filtering_is_sound(t: ListState)
    requires
        t.items.len() <= usize::MAX,
    ensures
        t.filtered_anew().0.wf(),
        t.filtered_anew().0.items == t.items,
{
    lemma_matching(t);
    assert(t.filtered_anew().0.matching() == t.matching());
}

proof fn lemma_moves_are_sound(s: ListState, up: bool)
    requires
        s.wf(),
    ensures
        s.moved(up).0.wf(),
        s.moved(up).0.items == s.items,
{
    lemma_matching(s);
    let len = s.len();
    let stepped = (if up {
        s.scroll.moved_up(len)
    } else {
        s.scroll.moved_down(len)
    }).made_visible(len, max_rows(len));
    lemma_skip_fits(s, stepped, up, len as nat);
}

proof fn lemma_skip_fits(s: ListState, scroll: ScrollState, up: bool, n: nat)
    requires
        s.wf(),
        s.items.len() <= usize::MAX,
        scroll.fits(s.filtered.len()),
    ensures
        s.skipped(scroll, up, n).fits(s.filtered.len()),
    decreases n,
{
    lemma_matching(s);
    if n > 0 && s.on_disabled(scroll) {
        let next = if up {
            scroll.moved_up(s.len())
        } else {
            scroll.moved_down(s.len())
        };
        lemma_skip_fits(s, next, up, (n - 1) as nat);
    }
}

/// A picked item can be picked: the index that the view reports is one of an
/// item that is not disabled.
pub proof fn law_only_enabled_items_are_picked(s: ListState)
    requires
        s.wf(),
        s.accepted().0.last_selected != s.last_selected,
    ensures
        ({
            let picked = s.accepted().0.last_selected;
            &&& picked == s.selected()
            &&& picked matches Some(i)
            &&& i < s.items.len()
            &&& !s.items[i as int].disabled()
        }),
{
}

/// Enter alone picks the selected item: its position is reported, its actions are run in
/// order, and the view is left where the item says so. An item that cannot be picked is left
/// alone, and where nothing can be selected the view is left.
pub proof fn law_enter_picks_the_selected_item(s: ListState, key: KeyEvent, k: int)
    requires
        key.code == KeyCode::Enter,
        key.modifiers == KeyModifiers::none(),
    ensures
        ({
            let (t, effects) = s.key(key);
            &&& s.selected() matches Some(i) ==> i < s.items.len() ==> {
                let item = s.items[i as int];
                &&& item.is_disabled || item.disabled_reason is Some ==> t == s && effects.len()
                    == 0
                &&& !item.is_disabled && item.disabled_reason is None ==> {
                    &&& t.last_selected == Some(i)
                    &&& t.complete <==> s.complete || item.dismiss_on_select
                    &&& effects.len() == item.actions@.len()
                    &&& 0 <= k < effects.len() ==> effects[k] == ViewEffect::Run(item.actions@[k])
                }
            }
            &&& s.selected() is None ==> t.complete && t.last_selected == s.last_selected
        }),
{
}

/// Esc and Ctrl+C leave the view without a choice, and say so where that is wanted.
pub proof fn law_view_is_left_without_a_choice(s: ListState, key: KeyEvent)
    requires
        key.code == KeyCode::Esc || (key.code == KeyCode::Char('c') && key.modifiers.control),
    ensures
        ({
            let (t, effects) = s.key(key);
            &&& t.complete
            &&& t.last_selected == s.last_selected
            &&& effects == if s.notify_cancel {
                seq![ViewEffect::Cancelled]
            } else {
                seq![]
            }
        }),
{
}

/// The arrow keys go one row up and down: to the next row where its item can be picked. A
/// selection that moved is reported where reports are wanted, with the item that is
/// selected then.
pub proof fn law_arrows_move_by_a_row(s: ListState, key: KeyEvent, i: usize)
    requires
        s.wf(),
        s.scroll.selected_idx == Some(i),
        i < s.filtered.len(),
        forall|k: int|
            0 <= k < s.filtered.len() ==> !s.items[#[trigger] s.filtered[k] as int].disabled(),
    ensures
        key.code == KeyCode::Up ==> s.key(key).0.scroll.selected_idx == Some(
            if i > 0 {
                (i - 1) as usize
            } else {
                (s.filtered.len() - 1) as usize
            },
        ),
        key.code == KeyCode::Down ==> s.key(key).0.scroll.selected_idx == Some(
            if i + 1 < s.filtered.len() {
                (i + 1) as usize
            } else {
                0
            },
        ),
        (key.code == KeyCode::Up || key.code == KeyCode::Down) && s.notify_selection && s.key(
            key,
        ).0.selected() != s.selected() ==> s.key(key).1 == seq![
            ViewEffect::SelectionChanged(s.key(key).0.selected()->0),
        ],
        (key.code == KeyCode::Up || key.code == KeyCode::Down) && (!s.notify_selection || s.key(
            key,
        ).0.selected() == s.selected()) ==> s.key(key).1.len() == 0,
{
    lemma_matching(s);
    let len = s.len();
    let up = key.code == KeyCode::Up;
    let stepped = (if up {
        s.scroll.moved_up(len)
    } else {
        s.scroll.moved_down(len)
    }).made_visible(len, max_rows(len));
    let j = stepped.selected_idx->0;
    assert(j < s.filtered.len());
    assert(!s.items[s.filtered[j as int] as int].disabled());
    assert(s.skipped(stepped, up, len as nat) == stepped);
}

/// A digit picks the item of that number, counted from one, in a list that is not searched;
/// a number without an item, or of an item that cannot be picked, does nothing.
pub proof fn law_digits_pick_by_number(s: ListState, key: KeyEvent, c: char, n: usize)
    requires
        s.wf(),
        !s.searchable,
        key.code == KeyCode::Char(c),
        key.modifiers == KeyModifiers::none(),
        '1' <= c <= '9',
        n as int == c as u32 - '1' as u32,
    ensures
        n < s.items.len() && !s.items[n as int].disabled() ==> s.key(key).0.last_selected == Some(
            n,
        ) && s.key(key).0.selected() == Some(n),
        n >= s.items.len() || s.items[n as int].disabled() ==> s.key(key) == (
            s,
            Seq::<ViewEffect>::empty(),
        ),
{
    assert(s.filtered == all_positions(s.items.len()));
}

/// In a list that is searched, a character is put behind the query and Backspace takes the
/// last one away; the rows are then the items that the query finds.
pub proof fn law_typing_changes_the_query(s: ListState, key: KeyEvent, c: char)
    requires
        s.searchable,
        key.modifiers == KeyModifiers::none(),
        c != '\u{0010}' && c != '\u{000e}',
    ensures
        key.code == KeyCode::Char(c) ==> s.key(key).0.query == s.query.push(c),
        key.code == KeyCode::Backspace && s.query.len() > 0 ==> s.key(key).0.query
            == s.query.drop_last(),
        key.code == KeyCode::Char(c) ==> s.key(key).0.filtered == found_positions(
            s.items,
            s.query.push(c),
            s.items.len(),
        ),
{
}

/// The rows of a search are exactly the items that the query finds, each once and in their
/// order. An item is found where its search text holds the query in whatever case.
pub proof fn law_search_finds_its_items(items: Seq<SelectionItem>, query: Seq<char>, i: usize)
    requires
        items.len() <= usize::MAX,
    ensures
        found_positions(items, query, items.len()).contains(i) <==> i < items.len()
            && items[i as int].found_by(query),
        forall|a: int, b: int|
            0 <= a < b < found_positions(items, query, items.len()).len() ==> (
            #[trigger] found_positions(items, query, items.len())[a]) < (
            #[trigger] found_positions(items, query, items.len())[b]),
        i < items.len() && items[i as int].search_value is None ==> !items[i as int].found_by(query),
{
    lemma_found(items, query, items.len(), i);
}

proof fn lemma_found(items: Seq<SelectionItem>, query: Seq<char>, n: nat, i: usize)
    requires
        n <= items.len() <= usize::MAX,
    ensures
        found_positions(items, query, n).contains(i) <==> i < n && items[i as int].found_by(query),
        forall|a: int|
            0 <= a < found_positions(items, query, n).len() ==> (#[trigger] found_positions(
                items,
                query,
                n,
            )[a]) < n,
        forall|a: int, b: int|
            0 <= a < b < found_positions(items, query, n).len() ==> (#[trigger] found_positions(
                items,
                query,
                n,
            )[a]) < (#[trigger] found_positions(items, query, n)[b]),
    decreases n,
{
    if n > 0 {
        let m = (n - 1) as nat;
        lemma_found(items, query, m, i);
        let before = found_positions(items, query, m);
        let all = found_positions(items, query, n);
        if items[n - 1].found_by(query) {
            assert(all == before.push(m as usize));
            assert(all.last() == m as usize);
            if before.contains(i) {
                let k = choose|k: int| 0 <= k < before.len() && before[k] == i;
                assert(all[k] == i);
            }
            if all.contains(i) {
                let k = choose|k: int| 0 <= k < all.len() && all[k] == i;
                if k < before.len() {
                    assert(before[k] == i);
                }
            }
        }
    }
}

/// A row shows the name of its item, and behind it whether the item is the current one or
/// the default; in front stand a mark on the selected row and, where the list is not
/// searched, the number of the row.
pub proof fn law_row_shows_its_item(s: ListState, n: nat)
    requires
        n < s.filtered.len(),
    ensures
        ({
            let item = s.items[s.filtered[n as int] as int];
            let selected = s.scroll.selected_idx == Some(n as usize);
            let mark = if selected {
                "› "@
            } else {
                "  "@
            };
            let number = if s.searchable {
                seq![]
            } else {
                text::decimal(n + 1) + ". "@
            };
            let tail = if item.is_current {
                " (current)"@
            } else if item.is_default {
                " (default)"@
            } else {
                seq![]
            };
            &&& s.rows().len() == s.filtered.len()
            &&& s.rows()[n as int].name == mark + number + item.name@ + tail
            &&& s.rows()[n as int].is_disabled <==> item.is_disabled || item.disabled_reason is Some
            &&& selected && item.selected_description is Some ==> s.rows()[n as int].description
                == Some(item.selected_description->0@)
            &&& (!selected || item.selected_description is None) && item.description is Some
                ==> s.rows()[n as int].description == Some(item.description->0@)
        }),
{
    reveal_strlit("› ");
    reveal_strlit("  ");
    reveal_strlit("");
    let item = s.items[s.filtered[n as int] as int];
    let selected = s.scroll.selected_idx == Some(n as usize);
    let mark = if selected {
        "› "@
    } else {
        "  "@
    };
    let number = if s.searchable {
        seq![]
    } else {
        text::decimal(n + 1) + ". "@
    };
    let tail = if item.is_current {
        " (current)"@
    } else if item.is_default {
        " (default)"@
    } else {
        seq![]
    };
    assert(row_prefix(s.searchable, selected, n) =~= mark + number);
    assert(row_marker(item) =~= tail);
}

/// What stands above the list is the title, bold, and then the subtitle, dim, as far as
/// there are any.
pub proof fn law_header_shows_the_titles(p: LayoutParams)
    ensures
        p.header().len() == (if p.title is Some {
            1int
        } else {
            0
        }) + (if p.subtitle is Some {
            1int
        } else {
            0
        }),
        p.title matches Some(t) ==> p.header()[0].spans.len() == 1 && p.header()[0].spans[0].content
            == t && p.header()[0].spans[0].style.add.bold,
        p.subtitle matches Some(t) ==> p.header().last().spans[0].content == t
            && p.header().last().spans[0].style.add.dim,
{
}

/// A popup without a side panel asks for the rows of its header, its list with a frame of
/// three rows, a search line where it is searched, what is stacked below with a gap above
/// it, the note and the hint.
pub proof fn law_height_adds_up(p: LayoutParams, width: u16, m: PopupMeasures)
    requires
        p.side_content_width == SideContentWidth::Fixed(0),
        m.header_height + m.rows_height + m.stacked_height + m.note_height + 6 <= u16::MAX,
    ensures
        p.desired_height(width, m) == m.header_height + m.rows_height + 3 + (if p.searchable {
            1int
        } else {
            0
        }) + (if m.stacked_height > 0 {
            m.stacked_height + 1
        } else {
            0
        }) + (if p.note is Some {
            m.note_height as int
        } else {
            0
        }) + (if p.hint is Some {
            1int
        } else {
            0
        }),
{
}

/// List and side panel stand side by side where the panel is wanted, is as wide as it needs
/// to be, and leaves the list its forty columns; a fixed panel has the columns that it asks
/// for, and another takes half of what the gap leaves.
pub proof fn law_side_panel_stands_beside_the_list(
    content_width: u16,
    width: SideContentWidth,
    min_width: u16,
)
    ensures
        side_by_side(content_width, SideContentWidth::Fixed(0), min_width) is None,
        width matches SideContentWidth::Fixed(w) ==> 0 < w && w >= min_width && content_width >= w
            + 42 ==> side_by_side(content_width, width, min_width) == Some(
            ((content_width - w - 2) as u16, w),
        ),
        width matches SideContentWidth::Fixed(w) ==> w < min_width || content_width < w + 42
            ==> side_by_side(content_width, width, min_width) is None,
        content_width >= 82 && (content_width - 2) / 2 >= min_width ==> {
            &&& side_by_side(content_width, SideContentWidth::Half, min_width) matches Some(
                (list, side),
            )
            &&& side == (content_width - 2) / 2
            &&& list + 2 + side == content_width
        },
{
}

/// A list that is not searched opens on the item that is marked as current, the first of them;
/// without one it opens on the item that it was told to, where there is one, and else on the
/// first.
pub proof fn law_view_opens_on_the_current_item(params: SelectionViewParams, i: usize)
    requires
        !params.is_searchable,
        params.items@.len() <= usize::MAX,
        i < params.items@.len(),
    ensures
        ({
            let t = ListSelectionView::blank(params).filtered_anew().0;
            let items = params.items@;
            let marked = exists|k: int| 0 <= k < items.len() && (#[trigger] items[k]).is_current;
            &&& items[i as int].is_current && (forall|k: int|
                0 <= k < i ==> !(#[trigger] items[k]).is_current) ==> t.selected() == Some(i)
            &&& !marked && params.initial_selected_idx == Some(i) ==> t.selected() == Some(i)
            &&& !marked && params.initial_selected_idx is None ==> t.selected() == Some(0usize)
        }),
{
    let s = ListSelectionView::blank(params);
    let items = params.items@;
    let all = all_positions(items.len());
    assert(s.matching() == all);
    if items[i as int].is_current && (forall|k: int|
        0 <= k < i ==> !(#[trigger] items[k]).is_current) {
        lemma_first_current_unique(items, i);
    }
    assert(all[i as int] == i);
    lemma_place_unique(all, i, i);
}

/// The selected row stays where it is while the rows change, as long as there are enough of
/// them.
pub proof fn law_selected_row_stays(s: ListState, i: usize)
    requires
        s.scroll.selected_idx == Some(i),
        s.items.len() <= usize::MAX,
        i < s.matching().len(),
    ensures
        s.filtered_anew().0.scroll.selected_idx == Some(i),
        s.filtered_anew().0.filtered == s.matching(),
{
    lemma_matching(s);
}

} // verus!
