//! Selection and scrolling of a list.

use vstd::prelude::*;

verus! {

/// The most rows that a popup shows at once.
pub const MAX_POPUP_ROWS: usize = 8;

/// The selected row of a list and the first row that shows.
#[derive(Clone, Copy, PartialEq, Eq, Structural, Debug)]
pub struct ScrollState {
    pub selected_idx: Option<usize>,
    pub scroll_top: usize,
}

impl ScrollState {
    /// Nothing selected, at the top.
    pub open spec fn start() -> ScrollState {
        ScrollState { selected_idx: None, scroll_top: 0 }
    }

    /// Nothing selected, at the top.
    pub fn new() -> (r: Self)
        ensures
            r == ScrollState::start(),
    {
        ScrollState { selected_idx: None, scroll_top: 0 }
    }

    /// The selection moved into a list of `len` rows; an empty list has none.
    pub open spec fn clamped(self, len: usize) -> ScrollState {
        if len == 0 {
            ScrollState::start()
        } else {
            ScrollState {
                selected_idx: Some(
                    match self.selected_idx {
                        Some(i) => if i < len {
                            i
                        } else {
                            (len - 1) as usize
                        },
                        None => 0,
                    },
                ),
                ..self
            }
        }
    }

    /// Moves the selection into a list of `len` rows.
    pub fn clamp_selection(&mut self, len: usize)
        ensures
            *final(self) == old(self).clamped(len),
    {
        if len == 0 {
            self.selected_idx = None;
            self.scroll_top = 0;
            return;
        }
        let selected: usize = match self.selected_idx {
            Some(i) => if i < len {
                i
            } else {
                len - 1
            },
            None => 0,
        };
        self.selected_idx = Some(selected);
    }

    /// One row up, from the first row to the last.
    pub open spec fn moved_up(self, len: usize) -> ScrollState {
        if len == 0 {
            ScrollState::start()
        } else {
            ScrollState {
                selected_idx: Some(
                    match self.selected_idx {
                        Some(i) => if i > 0 {
                            (i - 1) as usize
                        } else {
                            (len - 1) as usize
                        },
                        None => 0,
                    },
                ),
                ..self
            }
        }
    }

    /// One row up, from the first row to the last.
    pub fn move_up_wrap(&mut self, len: usize)
        ensures
            *final(self) == old(self).moved_up(len),
    {
        if len == 0 {
            self.selected_idx = None;
            self.scroll_top = 0;
            return;
        }
        let selected: usize = match self.selected_idx {
            Some(i) => if i > 0 {
                i - 1
            } else {
                len - 1
            },
            None => 0,
        };
        self.selected_idx = Some(selected);
    }

    /// One row down, from the last row to the first.
    pub open spec fn moved_down(self, len: usize) -> ScrollState {
        if len == 0 {
            ScrollState::start()
        } else {
            ScrollState {
                selected_idx: Some(
                    match self.selected_idx {
                        Some(i) => if i + 1 < len {
                            (i + 1) as usize
                        } else {
                            0
                        },
                        None => 0,
                    },
                ),
                ..self
            }
        }
    }

    /// One row down, from the last row to the first.
    pub fn move_down_wrap(&mut self, len: usize)
        ensures
            *final(self) == old(self).moved_down(len),
    {
        if len == 0 {
            self.selected_idx = None;
            self.scroll_top = 0;
            return;
        }
        let selected: usize = match self.selected_idx {
            Some(i) => if i < len - 1 {
                i + 1
            } else {
                0
            },
            None => 0,
        };
        self.selected_idx = Some(selected);
    }

    /// Scrolled just as far as the selected row needs to show among `visible`
    /// rows; to the top where nothing is selected.
    pub open spec fn made_visible(self, len: usize, visible: usize) -> ScrollState {
        ScrollState {
            scroll_top: if len == 0 || visible == 0 {
                0
            } else {
                match self.selected_idx {
                    Some(i) => if i < self.scroll_top {
                        i
                    } else if i > self.scroll_top + visible - 1 {
                        (i + 1 - visible) as usize
                    } else {
                        self.scroll_top
                    },
                    None => 0,
                }
            },
            ..self
        }
    }

    /// Scrolls just as far as the selected row needs to show.
    pub fn ensure_visible(&mut self, len: usize, visible: usize)
        ensures
            *final(self) == old(self).made_visible(len, visible),
    {
        if len == 0 || visible == 0 {
            self.scroll_top = 0;
            return;
        }
        match self.selected_idx {
            Some(i) => {
                if i < self.scroll_top {
                    self.scroll_top = i;
                } else if i - self.scroll_top >= visible {
                    self.scroll_top = i - (visible - 1);
                }
            },
            None => {
                self.scroll_top = 0;
            },
        }
    }

    /// Whether the selection stands in a list of `len` rows.
    pub open spec fn fits(self, len: nat) -> bool {
        match self.selected_idx {
            Some(i) => i < len,
            None => len == 0,
        }
    }
}

/// Moving keeps the selection inside the list.
pub proof fn law_moves_stay_inside(s: ScrollState, len: usize)
    requires
        s.fits(len as nat),
    ensures
        s.moved_up(len).fits(len as nat),
        s.moved_down(len).fits(len as nat),
        s.clamped(len).fits(len as nat),
{
}

/// Up undoes down, and down undoes up.
pub proof fn law_up_and_down_are_inverse(s: ScrollState, len: usize)
    requires
        len > 0,
        s.fits(len as nat),
    ensures
        s.moved_down(len).moved_up(len) == s,
        s.moved_up(len).moved_down(len) == s,
{
}

/// Once made visible, the selected row is one of the rows that show.
pub proof fn law_selected_row_shows(s: ScrollState, len: usize, visible: usize)
    requires
        len > 0,
        visible > 0,
        s.fits(len as nat),
    ensures
        ({
            let t = s.made_visible(len, visible);
            t.scroll_top <= t.selected_idx->0 < t.scroll_top + visible
        }),
{
}

/// Up goes to the row above and down to the row below, round the ends of the list; in a
/// list where nothing is selected yet both go to the first row.
pub proof fn law_directions(s: ScrollState, len: usize, i: usize)
    requires
        len > 0,
    ensures
        s.selected_idx == Some(i) && 0 < i < len ==> s.moved_up(len).selected_idx == Some(
            (i - 1) as usize,
        ),
        s.selected_idx == Some(0usize) ==> s.moved_up(len).selected_idx == Some(
            (len - 1) as usize,
        ),
        s.selected_idx == Some(i) && i + 1 < len ==> s.moved_down(len).selected_idx == Some(
            (i + 1) as usize,
        ),
        s.selected_idx == Some((len - 1) as usize) ==> s.moved_down(len).selected_idx == Some(
            0usize,
        ),
        s.selected_idx is None ==> s.moved_up(len).selected_idx == Some(0usize) && s.moved_down(
            len,
        ).selected_idx == Some(0usize),
{
}

/// A selection that lies in the list stays, and one behind its end moves to the last row.
/// Making it visible moves the view and not the selection, and no further than needed: a
/// row that shows already moves nothing.
pub proof fn law_view_follows_the_selection(s: ScrollState, len: usize, visible: usize, i: usize)
    requires
        len > 0,
        visible > 0,
    ensures
        s.selected_idx == Some(i) && i < len ==> s.clamped(len) == s,
        s.selected_idx == Some(i) && i >= len ==> s.clamped(len).selected_idx == Some(
            (len - 1) as usize,
        ),
        s.made_visible(len, visible).selected_idx == s.selected_idx,
        s.selected_idx == Some(i) && s.scroll_top <= i < s.scroll_top + visible ==> s.made_visible(
            len,
            visible,
        ) == s,
        s.selected_idx == Some(i) && i < s.scroll_top ==> s.made_visible(len, visible).scroll_top
            == i,
        s.selected_idx == Some(i) && i >= s.scroll_top + visible ==> s.made_visible(
            len,
            visible,
        ).scroll_top == i + 1 - visible,
{
}

} // verus!
