//! How the bottom pane and the lines above it share the viewport.

use vstd::prelude::*;

use crate::geometry::{clamp_u16, max_int, max_u16, min_int, min_u16, sat_add, sat_sub, Rect};

verus! {

/// Where lines above the bottom pane stand, and how many of them are scrolled away.
#[derive(Clone, Copy, PartialEq, Eq, Structural, Debug)]
pub struct TransientArea {
    pub area: Rect,
    pub scroll: u16,
}

/// The parts of a viewport.
#[derive(Clone, Copy, PartialEq, Eq, Structural, Debug)]
pub struct ViewportLayout {
    /// The bottom pane.
    pub pane: Rect,
    /// The lines above it, where there is room for any.
    pub transient: Option<TransientArea>,
    /// Where the cursor stands unless the composer places it.
    pub cursor_x: u16,
    pub cursor_y: u16,
}

/// The rows of the bottom pane: those that it asks for, at least one, but no
/// more than there are.
pub open spec fn pane_rows(height: u16, desired: u16) -> int {
    min_int(max_int(desired as int, 1), height as int)
}

/// The parts of the viewport `area` for a pane that asks for `desired` rows,
/// with `line_count` lines above it. Of those lines the last ones win.
pub open spec fn viewport_layout_v(area: Rect, desired: u16, line_count: nat) -> ViewportLayout {
    let rows = pane_rows(area.height, desired);
    let above = area.height - rows;
    ViewportLayout {
        pane: Rect {
            x: area.x,
            y: sat_sub(area.spec_bottom(), rows) as u16,
            width: area.width,
            height: rows as u16,
        },
        transient: if above > 0 && line_count > 0 {
            Some(
                TransientArea {
                    area: Rect { x: area.x, y: area.y, width: area.width, height: above as u16 },
                    scroll: min_int(sat_sub(line_count as int, above), u16::MAX as int) as u16,
                },
            )
        } else {
            None
        },
        cursor_x: area.x,
        cursor_y: sat_sub(area.spec_bottom(), 1) as u16,
    }
}

/// The parts of the viewport `area`.
pub fn viewport_layout(area: Rect, desired: u16, line_count: usize) -> (r: ViewportLayout)
    ensures
        r == viewport_layout_v(area, desired, line_count as nat),
{
    let rows: u16 = min_u16(max_u16(desired, 1), area.height);
    let above: u16 = area.height.saturating_sub(rows);
    let transient = if above > 0 && line_count > 0 {
        let overflow: usize = line_count.saturating_sub(above as usize);
        Some(
            TransientArea {
                area: Rect { x: area.x, y: area.y, width: area.width, height: above },
                scroll: clamp_u16(overflow),
            },
        )
    } else {
        None
    };
    ViewportLayout {
        pane: Rect {
            x: area.x,
            y: area.bottom().saturating_sub(rows),
            width: area.width,
            height: rows,
        },
        transient,
        cursor_x: area.x,
        cursor_y: area.bottom().saturating_sub(1),
    }
}

/// The rows that a viewport asks for.
pub fn viewport_height(desired: u16, line_count: usize) -> (h: u16)
    ensures
        h == sat_add(max_int(desired as int, 1), min_int(line_count as int, u16::MAX as int)),
{
    max_u16(desired, 1).saturating_add(clamp_u16(line_count))
}

/// The pane fills the rows from the lines above it down to the end of the
/// viewport; the two never overlap and never leave it.
pub proof fn law_viewport_parts_do_not_overlap(area: Rect, desired: u16, line_count: nat)
    requires
        area.y + area.height <= u16::MAX,
    ensures
        ({
            let v = viewport_layout_v(area, desired, line_count);
            &&& v.pane.inside(area)
            &&& v.pane.y + v.pane.height == area.y + area.height
            &&& v.transient matches Some(t) ==> t.area.inside(area) && t.area.y + t.area.height
                == v.pane.y
        }),
{
}

/// In a viewport of the height that was asked for, all lines above the pane show.
pub proof fn law_requested_viewport_shows_all_lines(area: Rect, desired: u16, line_count: nat)
    requires
        area.height == max_int(desired as int, 1) + line_count,
    ensures
        viewport_layout_v(area, desired, line_count).transient matches Some(t) ==> t.scroll == 0,
        line_count > 0 ==> viewport_layout_v(area, desired, line_count).transient is Some,
{
}

/// The pane has the rows that it asks for, at least one, as far as there are so many, and
/// the lines above it have the rest; of those lines the last ones show. The cursor rests in
/// the last row.
pub proof fn law_pane_has_its_rows(area: Rect, desired: u16, line_count: nat)
    requires
        area.y + area.height <= u16::MAX,
        line_count <= u16::MAX,
    ensures
        ({
            let v = viewport_layout_v(area, desired, line_count);
            &&& 1 <= desired <= area.height ==> v.pane.height == desired
            &&& desired == 0 && area.height > 0 ==> v.pane.height == 1
            &&& desired > area.height ==> v.pane.height == area.height
            &&& v.transient matches Some(t) ==> t.area.height == area.height - v.pane.height && (
            line_count > t.area.height ==> t.scroll + t.area.height == line_count)
            &&& area.height > 0 ==> v.cursor_y == area.y + area.height - 1
            &&& v.cursor_x == area.x
        }),
{
}

} // verus!
