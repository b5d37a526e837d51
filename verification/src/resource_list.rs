//! The partition table: its rows and the selected one.
use vstd::prelude::*;

use crate::geometry::{in_rect, rect_contains, sat_add_u16, sat_add_usize, sat_sub_u16, sat_sub_usize, Rect, TableCursor};
use crate::resources::PartitionResources;

verus! {

/// The partitions as the resource table shows them.
pub struct ResourceList {
    pub resources: Vec<PartitionResources>,
    pub state: TableCursor,
    /// Where the table was last drawn, border included.
    pub area: Rect,
    /// The number of body rows the table had room for.
    pub height: u16,
}

impl ResourceList {
    pub open spec fn with_state(self, state: TableCursor) -> ResourceList {
        ResourceList { state, ..self }
    }

    /// Takes new rows. A table scrolled down to (or past) the last of them
    /// starts again from the top.
    pub open spec fn spec_state_after_update(self, count: nat) -> TableCursor {
        if self.state.offset > 0 && self.state.offset >= sat_sub_usize(count as usize, 1) {
            TableCursor::spec_new()
        } else {
            self.state
        }
    }

    pub fn replace_resources(&mut self, resources: Vec<PartitionResources>)
        ensures
            final(self).resources@ == resources@,
            final(self).state == old(self).spec_state_after_update(resources@.len()),
            final(self).area == old(self).area,
            final(self).height == old(self).height,
    {
        let old_offset = self.state.offset;
        self.resources = resources;
        if old_offset > 0 && old_offset >= self.resources.len().saturating_sub(1) {
            self.state = TableCursor::new();
        }
    }

    /// Moves the selection one row down, where there are rows.
    pub fn select_next_resource(&mut self)
        ensures
            *final(self) == (if old(self).resources@.len() > 0 {
                old(self).with_state(old(self).state.spec_select_next())
            } else {
                *old(self)
            }),
    {
        if self.resources.len() > 0 {
            self.state.select_next();
        }
    }

    /// Moves the selection one row up, where there are rows.
    pub fn select_previous_resource(&mut self)
        ensures
            *final(self) == (if old(self).resources@.len() > 0 {
                old(self).with_state(old(self).state.spec_select_previous())
            } else {
                *old(self)
            }),
    {
        if self.resources.len() > 0 {
            self.state.select_previous();
        }
    }

    /// Selects the first row, where there are rows.
    pub fn select_first_resource(&mut self)
        ensures
            *final(self) == (if old(self).resources@.len() > 0 {
                old(self).with_state(old(self).state.spec_select(Some(0)))
            } else {
                *old(self)
            }),
    {
        if self.resources.len() > 0 {
            self.state.select_first();
        }
    }

    /// Selects the last row, where there are rows.
    pub fn select_last_resource(&mut self)
        ensures
            *final(self) == (if old(self).resources@.len() > 0 {
                old(self).with_state(old(self).state.spec_select(Some(usize::MAX)))
            } else {
                *old(self)
            }),
    {
        if self.resources.len() > 0 {
            self.state.select_last();
        }
    }

    /// The cells that a click selects a row in.
    pub open spec fn click_area(self) -> Rect {
        Rect::spec_new(
            sat_add_u16(self.area.x, 2),
            sat_add_u16(self.area.y, 2),
            sat_sub_u16(self.area.width, 4),
            self.height,
        )
    }

    /// The row a click on the table selects.
    pub open spec fn clicked_row(self, column: u16, row: u16) -> Option<usize> {
        let rows = self.click_area();
        if in_rect(rows, column, row) && self.resources@.len() > 0 {
            let index = sat_add_usize(self.state.offset, sat_sub_u16(row, rows.y) as usize);
            if index < self.resources@.len() {
                Some(index)
            } else {
                None
            }
        } else {
            None
        }
    }

    /// Selects the row under a click, if there is a partition on it.
    pub fn select_resource_at(&mut self, column: u16, row: u16)
        ensures
            *final(self) == (match old(self).clicked_row(column, row) {
                Some(i) => old(self).with_state(old(self).state.spec_select(Some(i))),
                None => *old(self),
            }),
    {
        let rows = Rect::new(
            self.area.x.saturating_add(2),
            self.area.y.saturating_add(2),
            self.area.width.saturating_sub(4),
            self.height,
        );
        if !rect_contains(rows, column, row) || self.resources.len() == 0 {
            return;
        }
        let index = self.state.offset.saturating_add(row.saturating_sub(rows.y) as usize);
        if index < self.resources.len() {
            self.state.select(Some(index));
        }
    }
}

} // verus!
