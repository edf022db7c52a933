//! Splitting an area into rows of areas.

use vstd::prelude::*;

use crate::geometry::Rect;

verus! {

/// How much of an area a part of it takes.
#[derive(Clone, Copy, PartialEq, Eq, Structural, Debug)]
pub enum Constraint {
    /// A share of what the others leave.
    Fill(u16),
    /// This many rows.
    Length(u16),
    /// At most this many rows.
    Max(u16),
}

/// Whether `parts` are `count` parts of `area`: each stands inside of its rows and
/// is as wide as the area.
pub open spec fn are_rows_of(parts: Seq<Rect>, area: Rect, count: nat) -> bool {
    &&& parts.len() == count
    &&& forall|i: int|
        0 <= i < parts.len() ==> {
            &&& (#[trigger] parts[i]).x == area.x
            &&& parts[i].width == area.width
            &&& parts[i].y >= area.y
            &&& parts[i].y + parts[i].height <= area.spec_bottom()
        }
}

/// Whether two parts of an area ask for all of its rows between them.
pub open spec fn two_share_all(area: Rect, constraints: Seq<Constraint>) -> bool {
    &&& constraints.len() == 2
    &&& constraints[0] matches Constraint::Length(top)
    &&& constraints[1] matches Constraint::Length(bottom)
    &&& top + bottom == area.height
    &&& area.y + area.height <= u16::MAX
}

/// Whether `parts` is an outcome that the constraint solver of `ratatui` may come
/// to when it splits `area` by `constraints`, from top to bottom.
pub uninterp spec fn is_split(
    area: Rect,
    constraints: Seq<Constraint>,
    parts: Seq<Rect>,
) -> bool;

/// Calls `ratatui::layout::Layout::split` on a vertical layout without margin
/// and spacing. There is one part for each constraint; each is as wide as the
/// area and stands inside it. Two parts that ask for all the rows between them
/// get what they ask for, one below the other. How rows are shared out otherwise
/// is left open: the constraint solver behind it walks hash maps that each
/// process seeds anew.
#[verifier::external_body]
pub(crate) fn split_vertical(area: Rect, constraints: &[Constraint]) -> (r: Vec<Rect>)
    ensures
        is_split(area, constraints@, r@),
        are_rows_of(r@, area, constraints@.len()),
        two_share_all(area, constraints@) ==> {
            &&& r@[0].y == area.y
            &&& r@[0].height == constraints@[0]->Length_0
            &&& r@[1].y == area.y + constraints@[0]->Length_0
            &&& r@[1].height == constraints@[1]->Length_0
        },
{
    let convert = |c: &Constraint| match *c {
        Constraint::Fill(n) => ratatui::layout::Constraint::Fill(n),
        Constraint::Length(n) => ratatui::layout::Constraint::Length(n),
        Constraint::Max(n) => ratatui::layout::Constraint::Max(n),
    };
    let whole = ratatui::layout::Rect { x: area.x, y: area.y, width: area.width, height: area.height };
    let parts = ratatui::layout::Layout::vertical(constraints.iter().map(convert)).split(whole);
    parts.iter().map(|p| Rect { x: p.x, y: p.y, width: p.width, height: p.height }).collect()
}

} // verus!
