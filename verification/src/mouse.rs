//! What a mouse event does, before the interface takes it: presses start a
//! text selection and click, drags extend it, a release after a drag copies
//! it, and the wheel scrolls the panel under it; with a dialog open the
//! panels take no mouse input.
use vstd::prelude::*;

use crate::app::{App, MouseScrollTarget, MouseWheelDirection};
use crate::geometry::Rect;
use crate::selection::{
    begin_mouse_selection, selection_target, spec_selection_target, spec_updated, update_mouse_selection,
    MouseSelection, Position, SelectionArea,
};

verus! {

/// The kind of a mouse event, for the left button and the wheel.
#[derive(Clone, Copy, PartialEq, Eq, Structural, Debug)]
pub enum MouseKind {
    Press,
    Drag,
    Release,
    ScrollUp,
    ScrollDown,
    Other,
}

/// What follows a mouse event: the selection after it, the selection whose
/// text goes to the clipboard, whether the interface is to take a click at
/// the event's cell, the panel and direction the wheel scrolls, and whether
/// to draw again.
#[derive(Clone, Copy, Debug)]
pub struct MouseStep {
    pub selection: Option<MouseSelection>,
    pub copy_from: Option<MouseSelection>,
    pub click: bool,
    pub wheel: Option<(MouseScrollTarget, MouseWheelDirection)>,
    pub draw: bool,
}

/// A selection starting at a cell of the panel it falls in.
pub open spec fn started(target: Option<(SelectionArea, Rect)>, column: u16, row: u16) -> Option<MouseSelection> {
    match target {
        Some(t) => Some(
            MouseSelection {
                area: t.0,
                bounds: t.1,
                start: Position { x: column, y: row },
                end: Position { x: column, y: row },
                dragged: false,
            },
        ),
        None => None,
    }
}

pub open spec fn moved(s: Option<MouseSelection>, column: u16, row: u16) -> Option<MouseSelection> {
    match s {
        Some(x) => Some(spec_updated(x, column, row)),
        None => None,
    }
}

pub open spec fn unchanged(s: Option<MouseSelection>, draw: bool) -> MouseStep {
    MouseStep { selection: s, copy_from: None, click: false, wheel: None, draw }
}

impl App {
    /// What a mouse event at a cell does with the current selection.
    pub open spec fn spec_mouse_step(self, s: Option<MouseSelection>, kind: MouseKind, column: u16, row: u16) -> MouseStep {
        let open = self.dialog is Some;
        match kind {
            MouseKind::Press => if open {
                unchanged(s, false)
            } else {
                MouseStep {
                    selection: started(
                        spec_selection_target(
                            self.resources.area,
                            self.details_area,
                            self.jobs.area,
                            self.output.spec_output_layout().viewport,
                            column,
                            row,
                        ),
                        column,
                        row,
                    ),
                    copy_from: None,
                    click: true,
                    wheel: None,
                    draw: true,
                }
            },
            MouseKind::Drag => if open {
                unchanged(s, false)
            } else {
                unchanged(moved(s, column, row), true)
            },
            MouseKind::Release => if open {
                unchanged(s, true)
            } else {
                let m = moved(s, column, row);
                MouseStep {
                    selection: None,
                    copy_from: match m {
                        Some(x) => if x.dragged {
                            Some(x)
                        } else {
                            None
                        },
                        None => None,
                    },
                    click: false,
                    wheel: None,
                    draw: true,
                }
            },
            MouseKind::ScrollUp | MouseKind::ScrollDown => if open {
                unchanged(s, false)
            } else {
                match self.spec_scroll_target(column, row) {
                    None => unchanged(s, false),
                    Some(t) => MouseStep {
                        selection: s,
                        copy_from: None,
                        click: false,
                        wheel: Some(
                            (
                                t,
                                if kind == MouseKind::ScrollUp {
                                    MouseWheelDirection::Up
                                } else {
                                    MouseWheelDirection::Down
                                },
                            ),
                        ),
                        draw: true,
                    },
                }
            },
            MouseKind::Other => unchanged(s, false),
        }
    }

    /// What a mouse event at a cell does with the current selection.
    pub fn mouse_step(&self, s: Option<MouseSelection>, kind: MouseKind, column: u16, row: u16) -> (r: MouseStep)
        requires
            self.wf(),
        ensures
            r == self.spec_mouse_step(s, kind, column, row),
    {
        let open = self.dialog.is_some();
        match kind {
            MouseKind::Press => {
                if open {
                    return MouseStep { selection: s, copy_from: None, click: false, wheel: None, draw: false };
                }
                let viewport = self.output.output_layout().viewport;
                let target = selection_target(
                    self.resources.area,
                    self.details_area,
                    self.jobs.area,
                    viewport,
                    column,
                    row,
                );
                MouseStep {
                    selection: begin_mouse_selection(target, column, row),
                    copy_from: None,
                    click: true,
                    wheel: None,
                    draw: true,
                }
            },
            MouseKind::Drag => {
                if open {
                    return MouseStep { selection: s, copy_from: None, click: false, wheel: None, draw: false };
                }
                let m = match s {
                    Some(x) => Some(update_mouse_selection(x, column, row)),
                    None => None,
                };
                MouseStep { selection: m, copy_from: None, click: false, wheel: None, draw: true }
            },
            MouseKind::Release => {
                if open {
                    return MouseStep { selection: s, copy_from: None, click: false, wheel: None, draw: true };
                }
                let m = match s {
                    Some(x) => Some(update_mouse_selection(x, column, row)),
                    None => None,
                };
                let copy_from = match m {
                    Some(x) => if x.dragged {
                        Some(x)
                    } else {
                        None
                    },
                    None => None,
                };
                MouseStep { selection: None, copy_from, click: false, wheel: None, draw: true }
            },
            MouseKind::ScrollUp | MouseKind::ScrollDown => {
                if open {
                    return MouseStep { selection: s, copy_from: None, click: false, wheel: None, draw: false };
                }
                match self.mouse_scroll_target(column, row) {
                    None => MouseStep { selection: s, copy_from: None, click: false, wheel: None, draw: false },
                    Some(t) => {
                        let direction = if kind == MouseKind::ScrollUp {
                            MouseWheelDirection::Up
                        } else {
                            MouseWheelDirection::Down
                        };
                        MouseStep { selection: s, copy_from: None, click: false, wheel: Some((t, direction)), draw: true }
                    },
                }
            },
            MouseKind::Other => MouseStep { selection: s, copy_from: None, click: false, wheel: None, draw: false },
        }
    }
}

} // verus!
