//! Text selected with the mouse: which panel it lies in, and which cells of
//! each screen row it covers.
use vstd::prelude::*;

use crate::geometry::{in_rect, rect_contains, sat_add_u16, sat_sub_u16, Rect};

verus! {

/// The panel a mouse selection lies in.
#[derive(Clone, Copy, PartialEq, Eq, Structural, Debug)]
pub enum SelectionArea {
    Resources,
    Jobs,
    Details,
    Output,
}

/// A cell of the screen.
#[derive(Clone, Copy, PartialEq, Eq, Structural, Debug)]
pub struct Position {
    pub x: u16,
    pub y: u16,
}

/// A selection: its panel, the cells it may cover, where the drag started
/// and where it is now, and whether the mouse moved since the press.
#[derive(Clone, Copy, PartialEq, Eq, Structural, Debug)]
pub struct MouseSelection {
    pub area: SelectionArea,
    pub bounds: Rect,
    pub start: Position,
    pub end: Position,
    pub dragged: bool,
}

/// A row of the details box: its screen row, the key-value pair it belongs
/// to, and where its key starts, its value starts and its text ends.
#[derive(Clone, Copy, PartialEq, Eq, Structural, Debug)]
pub struct DetailsSelectionRow {
    pub y: u16,
    pub group: usize,
    pub left: u16,
    pub value_x: u16,
    pub right: u16,
}

/// Whether `a` comes before or at `b` in reading order.
pub open spec fn reads_before(a: Position, b: Position) -> bool {
    a.y < b.y || (a.y == b.y && a.x <= b.x)
}

/// The text cells of a panel: inside the border and the padding cell at
/// each side.
pub open spec fn panel_text_area(panel: Rect) -> Rect {
    Rect::spec_new(sat_add_u16(panel.x, 2), sat_add_u16(panel.y, 1), sat_sub_u16(panel.width, 4), sat_sub_u16(panel.height, 2))
}

fn text_area(panel: Rect) -> (r: Rect)
    ensures
        r == panel_text_area(panel),
{
    Rect::new(
        panel.x.saturating_add(2),
        panel.y.saturating_add(1),
        panel.width.saturating_sub(4),
        panel.height.saturating_sub(2),
    )
}

/// The panel a press at a cell starts a selection in, and the cells the
/// selection may cover: the resources, the details box, the jobs, then the
/// output's viewport, the first that holds the cell.
pub open spec fn spec_selection_target(
    resources: Rect,
    details: Rect,
    jobs: Rect,
    output_viewport: Rect,
    column: u16,
    row: u16,
) -> Option<(SelectionArea, Rect)> {
    if in_rect(panel_text_area(resources), column, row) {
        Some((SelectionArea::Resources, panel_text_area(resources)))
    } else if in_rect(panel_text_area(details), column, row) {
        Some((SelectionArea::Details, panel_text_area(details)))
    } else if in_rect(panel_text_area(jobs), column, row) {
        Some((SelectionArea::Jobs, panel_text_area(jobs)))
    } else if in_rect(output_viewport, column, row) {
        Some((SelectionArea::Output, output_viewport))
    } else {
        None
    }
}

pub fn selection_target(
    resources: Rect,
    details: Rect,
    jobs: Rect,
    output_viewport: Rect,
    column: u16,
    row: u16,
) -> (r: Option<(SelectionArea, Rect)>)
    ensures
        r == spec_selection_target(resources, details, jobs, output_viewport, column, row),
{
    let r = text_area(resources);
    if rect_contains(r, column, row) {
        return Some((SelectionArea::Resources, r));
    }
    let d = text_area(details);
    if rect_contains(d, column, row) {
        return Some((SelectionArea::Details, d));
    }
    let j = text_area(jobs);
    if rect_contains(j, column, row) {
        return Some((SelectionArea::Jobs, j));
    }
    if rect_contains(output_viewport, column, row) {
        return Some((SelectionArea::Output, output_viewport));
    }
    None
}

/// A press starts an empty selection at its cell, in the panel it is in.
pub fn begin_mouse_selection(target: Option<(SelectionArea, Rect)>, column: u16, row: u16) -> (r: Option<
    MouseSelection,
>)
    ensures
        match target {
            Some(t) => r == Some(
                MouseSelection {
                    area: t.0,
                    bounds: t.1,
                    start: Position { x: column, y: row },
                    end: Position { x: column, y: row },
                    dragged: false,
                },
            ),
            None => r is None,
        },
{
    match target {
        Some((area, bounds)) => {
            let point = Position { x: column, y: row };
            Some(MouseSelection { area, bounds, start: point, end: point, dragged: false })
        },
        None => None,
    }
}

/// `v` pulled into `lo..=hi`.
pub open spec fn clamped(v: u16, lo: u16, hi: u16) -> u16 {
    if v < lo {
        lo
    } else if v > hi {
        hi
    } else {
        v
    }
}

/// Dragging moves the selection's end to the cell under the mouse, pulled
/// into the selection's cells; the selection counts as dragged once its end
/// has left its start.
pub open spec fn spec_updated(s: MouseSelection, column: u16, row: u16) -> MouseSelection {
    let end = Position {
        x: clamped(column, s.bounds.x, sat_add_u16(s.bounds.x, sat_sub_u16(s.bounds.width, 1))),
        y: clamped(row, s.bounds.y, sat_add_u16(s.bounds.y, sat_sub_u16(s.bounds.height, 1))),
    };
    MouseSelection { end, dragged: s.dragged || end != s.start, ..s }
}

fn clamp_u16(v: u16, lo: u16, hi: u16) -> (r: u16)
    requires
        lo <= hi,
    ensures
        r == clamped(v, lo, hi),
{
    if v < lo {
        lo
    } else if v > hi {
        hi
    } else {
        v
    }
}

pub fn update_mouse_selection(s: MouseSelection, column: u16, row: u16) -> (r: MouseSelection)
    ensures
        r == spec_updated(s, column, row),
{
    let end = Position {
        x: clamp_u16(column, s.bounds.x, s.bounds.x.saturating_add(s.bounds.width.saturating_sub(1))),
        y: clamp_u16(row, s.bounds.y, s.bounds.y.saturating_add(s.bounds.height.saturating_sub(1))),
    };
    MouseSelection { end, dragged: s.dragged || end != s.start, ..s }
}

impl MouseSelection {
    /// The cells a selection covers on a row, in a plain panel: one span on a
    /// single-row selection, full rows otherwise up to the end's column on
    /// the last row.
    pub open spec fn spec_row_bounds(self, row: u16) -> Option<(u16, u16)> {
        let (start, end) = if reads_before(self.start, self.end) {
            (self.start, self.end)
        } else {
            (self.end, self.start)
        };
        let left = self.bounds.x;
        let right = sat_sub_u16(self.bounds.spec_right(), 1);
        if row < start.y || row > end.y {
            None
        } else if start.y == end.y {
            Some((start.x, end.x))
        } else if row == start.y {
            Some((left, right))
        } else if row == end.y {
            Some((left, end.x))
        } else {
            Some((left, right))
        }
    }

    pub fn row_bounds(self, row: u16) -> (r: Option<(u16, u16)>)
        ensures
            r == self.spec_row_bounds(row),
    {
        let before = self.start.y < self.end.y || (self.start.y == self.end.y && self.start.x <= self.end.x);
        let (start, end) = if before {
            (self.start, self.end)
        } else {
            (self.end, self.start)
        };
        if row < start.y || row > end.y {
            return None;
        }
        let left = self.bounds.x;
        let right = self.bounds.right().saturating_sub(1);
        if start.y == end.y {
            Some((start.x, end.x))
        } else if row == start.y {
            Some((left, right))
        } else if row == end.y {
            Some((left, end.x))
        } else {
            Some((left, right))
        }
    }
}

/// The first details row on screen row `y`.
pub open spec fn row_at(rows: Seq<DetailsSelectionRow>, y: u16) -> Option<DetailsSelectionRow>
    decreases rows.len(),
{
    if rows.len() == 0 {
        None
    } else if rows[0].y == y {
        Some(rows[0])
    } else {
        row_at(rows.drop_first(), y)
    }
}

fn find_row(rows: &Vec<DetailsSelectionRow>, y: u16) -> (r: Option<DetailsSelectionRow>)
    ensures
        r == row_at(rows@, y),
{
    let mut i: usize = 0;
    assert(rows@.skip(0) =~= rows@);
    while i < rows.len()
        invariant
            i <= rows@.len(),
            row_at(rows@, y) == row_at(rows@.skip(i as int), y),
        decreases rows@.len() - i,
    {
        assert(rows@.skip(i as int)[0] == rows@[i as int]);
        assert(rows@.skip(i as int).drop_first() =~= rows@.skip(i + 1));
        if rows[i].y == y {
            return Some(rows[i]);
        }
        i = i + 1;
    }
    assert(rows@.skip(i as int) =~= Seq::<DetailsSelectionRow>::empty());
    None
}

/// Where a selection end lies in the details box's reading order: the key
/// and then the value of each pair, then the screen row and column.
pub open spec fn endpoint(item: DetailsSelectionRow, x: u16) -> (int, int, int) {
    (item.group * 2 + (if x >= item.value_x { 1int } else { 0int }), item.y as int, x as int)
}

pub open spec fn endpoint_le(a: (int, int, int), b: (int, int, int)) -> bool {
    a.0 < b.0 || (a.0 == b.0 && (a.1 < b.1 || (a.1 == b.1 && a.2 <= b.2)))
}

/// The cells a selection covers on a row of the details box. A selection
/// runs over whole keys and values in reading order: a key is selected
/// whole, a value is cut at the selection's ends where they lie in it.
pub open spec fn spec_details_row_bounds(s: MouseSelection, rows: Seq<DetailsSelectionRow>, row: u16) -> Option<
    (u16, u16),
> {
    match (row_at(rows, s.start.y), row_at(rows, s.end.y), row_at(rows, row)) {
        (Some(start_row), Some(end_row), Some(current)) => {
            let a = endpoint(start_row, s.start.x);
            let b = endpoint(end_row, s.end.x);
            let (start, end) = if endpoint_le(a, b) {
                (a, b)
            } else {
                (b, a)
            };
            let key_order = current.group * 2;
            let value_order = key_order + 1;
            let key_selected = start.0 <= key_order <= end.0;
            let value_selected = start.0 <= value_order <= end.0;
            let key_end = sat_sub_u16(current.value_x, 1);
            if !key_selected && !value_selected {
                None
            } else {
                let left0 = if key_selected {
                    current.left
                } else {
                    current.value_x
                };
                let right0 = if value_selected {
                    current.right
                } else {
                    key_end
                };
                if start.0 == value_order && row < start.1 {
                    if key_selected {
                        Some((left0, key_end))
                    } else {
                        None
                    }
                } else {
                    let left = if start.0 == value_order && row == start.1 {
                        start.2 as u16
                    } else {
                        left0
                    };
                    if end.0 == value_order && row > end.1 {
                        if key_selected {
                            Some((left, key_end))
                        } else {
                            None
                        }
                    } else {
                        let right = if end.0 == value_order && row == end.1 {
                            end.2 as u16
                        } else {
                            right0
                        };
                        if left <= right {
                            Some((left, right))
                        } else {
                            None
                        }
                    }
                }
            }
        },
        _ => None,
    }
}

pub fn details_selection_row_bounds(s: MouseSelection, rows: &Vec<DetailsSelectionRow>, row: u16) -> (r: Option<
    (u16, u16),
>)
    ensures
        r == spec_details_row_bounds(s, rows@, row),
{
    let start_row = match find_row(rows, s.start.y) {
        Some(r) => r,
        None => {
            return None;
        },
    };
    let end_row = match find_row(rows, s.end.y) {
        Some(r) => r,
        None => {
            return None;
        },
    };
    let current = match find_row(rows, row) {
        Some(r) => r,
        None => {
            return None;
        },
    };
    let a0: u128 = (start_row.group as u128) * 2 + (if s.start.x >= start_row.value_x { 1 } else { 0 });
    let b0: u128 = (end_row.group as u128) * 2 + (if s.end.x >= end_row.value_x { 1 } else { 0 });
    let a = (a0, start_row.y, s.start.x);
    let b = (b0, end_row.y, s.end.x);
    let a_first = a.0 < b.0 || (a.0 == b.0 && (a.1 < b.1 || (a.1 == b.1 && a.2 <= b.2)));
    let (start, end) = if a_first {
        (a, b)
    } else {
        (b, a)
    };
    let key_order: u128 = (current.group as u128) * 2;
    let value_order: u128 = key_order + 1;
    let key_selected = start.0 <= key_order && key_order <= end.0;
    let value_selected = start.0 <= value_order && value_order <= end.0;
    let key_end = current.value_x.saturating_sub(1);
    if !key_selected && !value_selected {
        return None;
    }
    let mut left = if key_selected {
        current.left
    } else {
        current.value_x
    };
    let mut right = if value_selected {
        current.right
    } else {
        key_end
    };
    if start.0 == value_order {
        if row < start.1 {
            return if key_selected {
                Some((left, key_end))
            } else {
                None
            };
        }
        if row == start.1 {
            left = start.2;
        }
    }
    if end.0 == value_order {
        if row > end.1 {
            return if key_selected {
                Some((left, key_end))
            } else {
                None
            };
        }
        if row == end.1 {
            right = end.2;
        }
    }
    if left <= right {
        Some((left, right))
    } else {
        None
    }
}

/// The cells a selection covers on a row: in the details box, by keys and
/// values; in the jobs table, left of the details box where the row passes
/// behind it; elsewhere, as the plain rule says.
pub open spec fn spec_mouse_row_bounds(
    s: MouseSelection,
    details: Rect,
    rows: Seq<DetailsSelectionRow>,
    row: u16,
) -> Option<(u16, u16)> {
    if s.area == SelectionArea::Details {
        spec_details_row_bounds(s, rows, row)
    } else {
        match s.spec_row_bounds(row) {
            Some((left, right)) => if s.area == SelectionArea::Jobs && details.y <= row && row
                < details.spec_bottom() && right >= details.x && left < details.spec_right() {
                if left < details.x {
                    Some((left, sat_sub_u16(details.x, 1)))
                } else {
                    None
                }
            } else {
                Some((left, right))
            },
            None => None,
        }
    }
}

pub fn mouse_selection_row_bounds(s: MouseSelection, details: Rect, rows: &Vec<DetailsSelectionRow>, row: u16) -> (r:
    Option<(u16, u16)>)
    ensures
        r == spec_mouse_row_bounds(s, details, rows@, row),
{
    if s.area == SelectionArea::Details {
        return details_selection_row_bounds(s, rows, row);
    }
    match s.row_bounds(row) {
        Some((left, right)) => {
            if s.area == SelectionArea::Jobs && details.y <= row && row < details.bottom() && right >= details.x
                && left < details.right() {
                if left < details.x {
                    Some((left, details.x.saturating_sub(1)))
                } else {
                    None
                }
            } else {
                Some((left, right))
            }
        },
        None => None,
    }
}

/// The smallest and largest pair of the rows on screen rows `y1` or `y2`.
pub open spec fn group_span(rows: Seq<DetailsSelectionRow>, y1: u16, y2: u16) -> Option<(usize, usize)>
    decreases rows.len(),
{
    if rows.len() == 0 {
        None
    } else {
        let prev = group_span(rows.drop_last(), y1, y2);
        let r = rows.last();
        if r.y == y1 || r.y == y2 {
            match prev {
                Some((lo, hi)) => Some(
                    (
                        if r.group < lo {
                            r.group
                        } else {
                            lo
                        },
                        if r.group > hi {
                            r.group
                        } else {
                            hi
                        },
                    ),
                ),
                None => Some((r.group, r.group)),
            }
        } else {
            prev
        }
    }
}

/// The top and bottom screen rows of the rows of pairs `lo..=hi`.
pub open spec fn row_span(rows: Seq<DetailsSelectionRow>, lo: usize, hi: usize) -> Option<(u16, u16)>
    decreases rows.len(),
{
    if rows.len() == 0 {
        None
    } else {
        let prev = row_span(rows.drop_last(), lo, hi);
        let r = rows.last();
        if lo <= r.group && r.group <= hi {
            match prev {
                Some((top, bottom)) => Some(
                    (
                        if r.y < top {
                            r.y
                        } else {
                            top
                        },
                        if r.y > bottom {
                            r.y
                        } else {
                            bottom
                        },
                    ),
                ),
                None => Some((r.y, r.y)),
            }
        } else {
            prev
        }
    }
}

/// The screen rows a selection spans: between its ends; in the details box,
/// every row of the pairs its ends lie in and of the pairs between.
pub open spec fn spec_y_bounds(s: MouseSelection, rows: Seq<DetailsSelectionRow>) -> (u16, u16) {
    if s.area != SelectionArea::Details {
        (
            if s.start.y < s.end.y {
                s.start.y
            } else {
                s.end.y
            },
            if s.start.y > s.end.y {
                s.start.y
            } else {
                s.end.y
            },
        )
    } else {
        match group_span(rows, s.start.y, s.end.y) {
            Some((first, last)) => match row_span(rows, first, last) {
                Some(span) => span,
                None => (s.start.y, s.end.y),
            },
            None => (s.start.y, s.end.y),
        }
    }
}

fn group_span_of(rows: &Vec<DetailsSelectionRow>, y1: u16, y2: u16) -> (r: Option<(usize, usize)>)
    ensures
        r == group_span(rows@, y1, y2),
{
    let mut acc: Option<(usize, usize)> = None;
    let mut i: usize = 0;
    assert(rows@.take(0) =~= Seq::<DetailsSelectionRow>::empty());
    while i < rows.len()
        invariant
            i <= rows@.len(),
            acc == group_span(rows@.take(i as int), y1, y2),
        decreases rows@.len() - i,
    {
        assert(rows@.take(i + 1).drop_last() =~= rows@.take(i as int));
        assert(rows@.take(i + 1).last() == rows@[i as int]);
        let r = rows[i];
        if r.y == y1 || r.y == y2 {
            acc = match acc {
                Some((lo, hi)) => Some(
                    (
                        if r.group < lo {
                            r.group
                        } else {
                            lo
                        },
                        if r.group > hi {
                            r.group
                        } else {
                            hi
                        },
                    ),
                ),
                None => Some((r.group, r.group)),
            };
        }
        i = i + 1;
    }
    assert(rows@.take(rows@.len() as int) =~= rows@);
    acc
}

fn row_span_of(rows: &Vec<DetailsSelectionRow>, lo: usize, hi: usize) -> (r: Option<(u16, u16)>)
    ensures
        r == row_span(rows@, lo, hi),
{
    let mut acc: Option<(u16, u16)> = None;
    let mut i: usize = 0;
    assert(rows@.take(0) =~= Seq::<DetailsSelectionRow>::empty());
    while i < rows.len()
        invariant
            i <= rows@.len(),
            acc == row_span(rows@.take(i as int), lo, hi),
        decreases rows@.len() - i,
    {
        assert(rows@.take(i + 1).drop_last() =~= rows@.take(i as int));
        assert(rows@.take(i + 1).last() == rows@[i as int]);
        let r = rows[i];
        if lo <= r.group && r.group <= hi {
            acc = match acc {
                Some((top, bottom)) => Some(
                    (
                        if r.y < top {
                            r.y
                        } else {
                            top
                        },
                        if r.y > bottom {
                            r.y
                        } else {
                            bottom
                        },
                    ),
                ),
                None => Some((r.y, r.y)),
            };
        }
        i = i + 1;
    }
    assert(rows@.take(rows@.len() as int) =~= rows@);
    acc
}

pub fn mouse_selection_y_bounds(s: MouseSelection, rows: &Vec<DetailsSelectionRow>) -> (r: (u16, u16))
    ensures
        r == spec_y_bounds(s, rows@),
{
    if s.area != SelectionArea::Details {
        let top = if s.start.y < s.end.y {
            s.start.y
        } else {
            s.end.y
        };
        let bottom = if s.start.y > s.end.y {
            s.start.y
        } else {
            s.end.y
        };
        return (top, bottom);
    }
    match group_span_of(rows, s.start.y, s.end.y) {
        Some((first, last)) => match row_span_of(rows, first, last) {
            Some(span) => span,
            None => (s.start.y, s.end.y),
        },
        None => (s.start.y, s.end.y),
    }
}

/// A row's cells without the whitespace at their end.
fn trimmed_row(row: &Vec<char>) -> (r: Vec<char>)
    ensures
        r@ == crate::text::trim_end(row@),
{
    let mut j: usize = row.len();
    assert(row@.take(j as int) =~= row@);
    while j > 0 && crate::text::is_whitespace(row[j - 1])
        invariant
            j <= row@.len(),
            crate::text::trim_end(row@.take(j as int)) == crate::text::trim_end(row@),
        decreases j,
    {
        proof {
            let t = row@.take(j as int);
            assert(t.drop_last() =~= row@.take(j - 1));
        }
        j = j - 1;
    }
    proof {
        let t = row@.take(j as int);
        if j > 0 {
            assert(t.last() == row@[j - 1]);
        }
    }
    crate::text::slice_of(row.as_slice(), 0, j)
}

/// The text a selection copies from the cells it covers: each row's cells
/// without the whitespace at their end, the rows joined by line breaks.
pub fn copied_text(rows: &Vec<Vec<char>>) -> (r: String)
    ensures
        r@ == crate::laws::joined_with(rows@.map_values(|row: Vec<char>| crate::text::trim_end(row@)), '\n'),
{
    let ghost lines = rows@.map_values(|row: Vec<char>| crate::text::trim_end(row@));
    let mut out: Vec<char> = Vec::new();
    let mut i: usize = 0;
    while i < rows.len()
        invariant
            i <= rows@.len(),
            lines == rows@.map_values(|row: Vec<char>| crate::text::trim_end(row@)),
            out@ == crate::laws::joined_with(lines.take(i as int), '\n'),
        decreases rows.len() - i,
    {
        let t = trimmed_row(&rows[i]);
        proof {
            let a = lines.take(i + 1);
            assert(a.drop_last() =~= lines.take(i as int));
            assert(a.last() == t@);
        }
        if i > 0 {
            out.push('\n');
        } else {
            assert(lines.take(0) =~= Seq::<Seq<char>>::empty());
        }
        crate::text::extend_chars(&mut out, t.as_slice());
        proof {
            let a = lines.take(i + 1);
            if i == 0 {
                assert(out@ =~= a[0]);
            } else {
                assert(out@ =~= crate::laws::joined_with(a.drop_last(), '\n').push('\n') + a.last());
            }
        }
        i = i + 1;
    }
    assert(lines.take(rows.len() as int) =~= lines);
    crate::text::string_of(out.as_slice())
}

} // verus!
