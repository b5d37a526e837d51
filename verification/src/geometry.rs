//! Screen rectangles and the selection state of a table, as the layout and
//! table widgets define them.
use vstd::prelude::*;

verus! {

pub open spec fn sat_add_u16(a: u16, b: u16) -> u16 {
    if a + b > u16::MAX {
        u16::MAX
    } else {
        (a + b) as u16
    }
}

pub open spec fn sat_sub_u16(a: u16, b: u16) -> u16 {
    if a < b {
        0
    } else {
        (a - b) as u16
    }
}

pub open spec fn sat_sub_usize(a: usize, b: usize) -> usize {
    if a < b {
        0
    } else {
        (a - b) as usize
    }
}

pub open spec fn sat_add_usize(a: usize, b: usize) -> usize {
    if a + b > usize::MAX {
        usize::MAX
    } else {
        (a + b) as usize
    }
}

/// A rectangle of terminal cells.
#[derive(Clone, Copy, PartialEq, Eq, Structural, Debug)]
pub struct Rect {
    pub x: u16,
    pub y: u16,
    pub width: u16,
    pub height: u16,
}

impl Rect {
    /// The empty rectangle at the origin.
    pub open spec fn spec_zero() -> Rect {
        Rect { x: 0, y: 0, width: 0, height: 0 }
    }

    pub fn zero() -> (r: Rect)
        ensures
            r == Rect::spec_zero(),
    {
        Rect { x: 0, y: 0, width: 0, height: 0 }
    }

    /// `Rect::new`: the size is cut so that the far edges stay within `u16`.
    pub open spec fn spec_new(x: u16, y: u16, width: u16, height: u16) -> Rect {
        Rect {
            x,
            y,
            width: (sat_add_u16(x, width) - x) as u16,
            height: (sat_add_u16(y, height) - y) as u16,
        }
    }

    pub fn new(x: u16, y: u16, width: u16, height: u16) -> (r: Rect)
        ensures
            r == Rect::spec_new(x, y, width, height),
    {
        Rect { x, y, width: x.saturating_add(width) - x, height: y.saturating_add(height) - y }
    }

    /// The first column right of the rectangle, at most `u16::MAX`.
    pub open spec fn spec_right(self) -> u16 {
        sat_add_u16(self.x, self.width)
    }

    pub fn right(self) -> (r: u16)
        ensures
            r == self.spec_right(),
    {
        self.x.saturating_add(self.width)
    }

    /// The first row below the rectangle, at most `u16::MAX`.
    pub open spec fn spec_bottom(self) -> u16 {
        sat_add_u16(self.y, self.height)
    }

    pub fn bottom(self) -> (r: u16)
        ensures
            r == self.spec_bottom(),
    {
        self.y.saturating_add(self.height)
    }

    pub open spec fn spec_is_empty(self) -> bool {
        self.width == 0 || self.height == 0
    }

    pub fn is_empty(self) -> (r: bool)
        ensures
            r == self.spec_is_empty(),
    {
        self.width == 0 || self.height == 0
    }
}

/// Whether the cell at `(column, row)` lies in `rect`.
pub open spec fn in_rect(rect: Rect, column: u16, row: u16) -> bool {
    column >= rect.x && column < sat_add_u16(rect.x, rect.width) && row >= rect.y && row
        < sat_add_u16(rect.y, rect.height)
}

pub fn rect_contains(rect: Rect, column: u16, row: u16) -> (r: bool)
    ensures
        r == in_rect(rect, column, row),
{
    column >= rect.x && column < rect.x.saturating_add(rect.width) && row >= rect.y && row
        < rect.y.saturating_add(rect.height)
}

/// A rectangle of at most `width` by `lines` cells centred in `viewport`.
pub open spec fn centered_area(width: u16, lines: u16, viewport: Rect) -> Rect {
    let w = if width < viewport.width {
        width
    } else {
        viewport.width
    };
    let h = if lines < viewport.height {
        lines
    } else {
        viewport.height
    };
    Rect::spec_new(
        (viewport.x + (viewport.width - w) / 2) as u16,
        (viewport.y + (viewport.height - h) / 2) as u16,
        w,
        h,
    )
}

/// A rectangle of at most `width` by `lines` cells centred in `viewport`.
pub fn centered_dialog_area(width: u16, lines: u16, viewport: Rect) -> (r: Rect)
    requires
        viewport.x + viewport.width <= u16::MAX,
        viewport.y + viewport.height <= u16::MAX,
    ensures
        r == centered_area(width, lines, viewport),
{
    let w = if width < viewport.width {
        width
    } else {
        viewport.width
    };
    let h = if lines < viewport.height {
        lines
    } else {
        viewport.height
    };
    let x = viewport.x + (viewport.width - w) / 2;
    let y = viewport.y + (viewport.height - h) / 2;
    Rect::new(x, y, w, h)
}

// ---------------------------------------------------------------------------
// Table selection
// ---------------------------------------------------------------------------

/// The selected row and the first displayed row of a table. Until the table
/// is drawn, a selection may lie past the last row; drawing pulls it back.
#[derive(Clone, Copy, PartialEq, Eq, Structural, Debug)]
pub struct TableCursor {
    pub offset: usize,
    pub selected: Option<usize>,
}

impl TableCursor {
    pub open spec fn spec_new() -> TableCursor {
        TableCursor { offset: 0, selected: None }
    }

    pub fn new() -> (r: TableCursor)
        ensures
            r == TableCursor::spec_new(),
    {
        TableCursor { offset: 0, selected: None }
    }

    /// `TableState::select`: a cleared selection also resets the offset.
    pub open spec fn spec_select(self, index: Option<usize>) -> TableCursor {
        TableCursor {
            offset: if index is None {
                0
            } else {
                self.offset
            },
            selected: index,
        }
    }

    pub fn select(&mut self, index: Option<usize>)
        ensures
            *final(self) == old(self).spec_select(index),
    {
        self.selected = index;
        if index.is_none() {
            self.offset = 0;
        }
    }

    /// The row after the selected one, or the first row.
    pub open spec fn spec_select_next(self) -> TableCursor {
        self.spec_select(
            Some(
                match self.selected {
                    Some(i) => sat_add_usize(i, 1),
                    None => 0,
                },
            ),
        )
    }

    pub fn select_next(&mut self)
        ensures
            *final(self) == old(self).spec_select_next(),
    {
        let next = match self.selected {
            Some(i) => i.saturating_add(1),
            None => 0,
        };
        self.select(Some(next));
    }

    /// The row before the selected one, or the last row.
    pub open spec fn spec_select_previous(self) -> TableCursor {
        self.spec_select(
            Some(
                match self.selected {
                    Some(i) => sat_sub_usize(i, 1),
                    None => usize::MAX,
                },
            ),
        )
    }

    pub fn select_previous(&mut self)
        ensures
            *final(self) == old(self).spec_select_previous(),
    {
        let previous = match self.selected {
            Some(i) => i.saturating_sub(1),
            None => usize::MAX,
        };
        self.select(Some(previous));
    }

    pub fn select_first(&mut self)
        ensures
            *final(self) == old(self).spec_select(Some(0)),
    {
        self.select(Some(0));
    }

    /// The last row: `usize::MAX` until drawing pulls it back.
    pub fn select_last(&mut self)
        ensures
            *final(self) == old(self).spec_select(Some(usize::MAX)),
    {
        self.select(Some(usize::MAX));
    }

    pub open spec fn selected_or_zero(self) -> usize {
        match self.selected {
            Some(i) => i,
            None => 0,
        }
    }

    /// Moves the selection `amount` rows down.
    pub fn scroll_down_by(&mut self, amount: u16)
        ensures
            *final(self) == old(self).spec_select(
                Some(sat_add_usize(old(self).selected_or_zero(), amount as usize)),
            ),
    {
        let selected = match self.selected {
            Some(i) => i,
            None => 0,
        };
        self.select(Some(selected.saturating_add(amount as usize)));
    }

    /// Moves the selection `amount` rows up.
    pub fn scroll_up_by(&mut self, amount: u16)
        ensures
            *final(self) == old(self).spec_select(
                Some(sat_sub_usize(old(self).selected_or_zero(), amount as usize)),
            ),
    {
        let selected = match self.selected {
            Some(i) => i,
            None => 0,
        };
        self.select(Some(selected.saturating_sub(amount as usize)));
    }
}

} // verus!
