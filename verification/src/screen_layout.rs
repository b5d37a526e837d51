//! How the screen is shared between the panels.
use vstd::prelude::*;

use ratatui::layout as rl;

use crate::app::App;
use crate::geometry::{sat_add_u16, sat_sub_u16, Rect};
use crate::ui::Focus;

verus! {

/// A size constraint of a layout, as `ratatui` takes it.
#[derive(Clone, Copy, PartialEq, Eq, Structural, Debug)]
pub enum SizeConstraint {
    Min(u16),
    Length(u16),
    Percentage(u16),
}

/// A part of an area split along one direction (vertically where
/// `vertical`): across the split it spans the area, as `Rect::new` of
/// `ratatui` clamps it to the coordinate range; along the split it lies
/// within the area.
pub open spec fn split_part_within(area: Rect, vertical: bool, part: Rect) -> bool {
    let whole = Rect::spec_new(area.x, area.y, area.width, area.height);
    if vertical {
        &&& part.x == whole.x
        &&& part.width == whole.width
        &&& whole.y <= part.y
        &&& part.y + part.height <= whole.y + whole.height
    } else {
        &&& part.y == whole.y
        &&& part.height == whole.height
        &&& whole.x <= part.x
        &&& part.x + part.width <= whole.x + whole.width
    }
}

/// Whether `parts` is a split that `Layout::split` of `ratatui` can give
/// for `area` split in two along one direction (vertically where
/// `vertical`) by the two constraints. The solver's result can differ
/// from one process to the next, so this is a relation, not a result.
pub uninterp spec fn split_outcome(
    area: Rect,
    vertical: bool,
    first: SizeConstraint,
    second: SizeConstraint,
    parts: (Rect, Rect),
) -> bool;

/// `Layout::split` of `ratatui` with two constraints. Its sizes come from
/// a constraint solver whose result can differ from one process to the
/// next (it walks hash maps seeded per process), so only what its source
/// fixes is stated: each part spans the area across the split (the rects
/// are built from the area's other coordinates) and lies within it along
/// the split (every solver variable is held between the area's start and
/// end, then rounded). The sizes the constraints ask for are not stated.
#[verifier::external_body]
fn layout_split(area: Rect, vertical: bool, first: SizeConstraint, second: SizeConstraint) -> (r: (Rect, Rect))
    ensures
        split_outcome(area, vertical, first, second, r),
        split_part_within(area, vertical, r.0),
        split_part_within(area, vertical, r.1),
{
    let convert = |c: SizeConstraint| match c {
        SizeConstraint::Min(v) => rl::Constraint::Min(v),
        SizeConstraint::Length(v) => rl::Constraint::Length(v),
        SizeConstraint::Percentage(v) => rl::Constraint::Percentage(v),
    };
    let direction = if vertical { rl::Direction::Vertical } else { rl::Direction::Horizontal };
    let layout = rl::Layout::default().direction(direction).constraints([convert(first), convert(second)]);
    let parts = layout.split(rl::Rect::new(area.x, area.y, area.width, area.height));
    let back = |p: rl::Rect| Rect { x: p.x, y: p.y, width: p.width, height: p.height };
    (back(parts[0]), back(parts[1]))
}

/// Where each panel goes on the screen.
#[derive(Clone, Copy, PartialEq, Eq, Structural, Debug)]
pub struct UiAreas {
    /// The help line(s) at the bottom.
    pub help: Rect,
    pub resources: Rect,
    /// The details box, over the jobs' lower right corner; empty when hidden.
    pub details: Rect,
    /// The jobs, sharing their left border with the resources.
    pub jobs: Rect,
    /// The output panel, where it is shown.
    pub output: Option<Rect>,
}

/// Two help lines on a screen taller than 20 rows, else one.
pub open spec fn help_height(area: Rect) -> u16 {
    if area.height > 20 {
        2
    } else {
        1
    }
}

/// The height asked for the top panels above the output: ten rows less
/// than the content, between 23 and 31.
pub open spec fn top_height(content: Rect) -> u16 {
    let h = sat_sub_u16(content.height, 10);
    if h < 23 {
        23
    } else if h > 31 {
        31
    } else {
        h
    }
}

/// The output panel fits below a content area of 27 rows or more.
pub open spec fn can_expand(content: Rect) -> bool {
    content.height >= 27
}

/// The jobs panel, widened one cell to the left to share the border.
pub open spec fn job_container(right: Rect) -> Rect {
    Rect::spec_new(sat_sub_u16(right.x, 1), right.y, sat_add_u16(right.width, 1), right.height)
}

/// Whether the details box is drawn over a jobs panel.
pub open spec fn details_shown(jobs: Rect, details_visible: bool) -> bool {
    details_visible && jobs.width >= 28 && jobs.height >= 6
}

/// The details box can be sized: it is hidden, or the jobs panel is wide
/// enough for its least width. (Between 28 and 31 columns the width has no
/// value between 30 and two less than the panel's width.)
pub open spec fn details_fit(jobs: Rect, details_visible: bool) -> bool {
    details_shown(jobs, details_visible) ==> jobs.width >= 32
}

/// The details box: 52 percent of the panel's width (at least 30, and two
/// columns short of the panel at most), as tall as the panel less three
/// rows (at most 10), in the panel's lower right corner inside its border.
pub open spec fn spec_details_area(jobs: Rect, details_visible: bool) -> Rect {
    if details_shown(jobs, details_visible) {
        let w0 = (if jobs.width * 52 > u16::MAX {
            u16::MAX as int
        } else {
            jobs.width * 52
        }) / 100;
        let max_w = jobs.width - 2;
        let width = (if w0 < 30 {
            30
        } else if w0 > max_w {
            max_w
        } else {
            w0
        }) as u16;
        let height = if sat_sub_u16(jobs.height, 3) < 10 {
            sat_sub_u16(jobs.height, 3)
        } else {
            10
        };
        Rect::spec_new(
            sat_sub_u16(sat_sub_u16(jobs.spec_right(), width), 1),
            sat_sub_u16(sat_sub_u16(jobs.spec_bottom(), height), 1),
            width,
            height,
        )
    } else {
        Rect::spec_zero()
    }
}

pub fn details_area(jobs: Rect, details_visible: bool) -> (r: Rect)
    requires
        details_fit(jobs, details_visible),
    ensures
        r == spec_details_area(jobs, details_visible),
{
    if details_visible && jobs.width >= 28 && jobs.height >= 6 {
        let product: u32 = (jobs.width as u32) * 52;
        let capped: u32 = if product > 65535 {
            65535
        } else {
            product
        };
        let scaled: u16 = (capped / 100) as u16;
        let max_w = jobs.width - 2;
        let width = if scaled < 30 {
            30
        } else if scaled > max_w {
            max_w
        } else {
            scaled
        };
        let h = jobs.height.saturating_sub(3);
        let height = if h < 10 {
            h
        } else {
            10
        };
        Rect::new(
            jobs.right().saturating_sub(width).saturating_sub(1),
            jobs.bottom().saturating_sub(height).saturating_sub(1),
            width,
            height,
        )
    } else {
        Rect::zero()
    }
}

/// The panels, from the parts the screen was split into: the help line,
/// the output panel where one is shown, and the left and right parts of
/// the top; none where the details box cannot be sized (see
/// `details_fit`).
pub open spec fn spec_panels(
    help: Rect,
    output: Option<Rect>,
    left: Rect,
    right: Rect,
    details_visible: bool,
) -> Option<UiAreas> {
    let jobs = job_container(right);
    if details_fit(jobs, details_visible) {
        Some(UiAreas { help, resources: left, details: spec_details_area(jobs, details_visible), jobs, output })
    } else {
        None
    }
}

/// Places the panels in the parts the screen was split into.
pub fn panels(help: Rect, output: Option<Rect>, left: Rect, right: Rect, details_visible: bool) -> (r: Option<
    UiAreas,
>)
    ensures
        r == spec_panels(help, output, left, right, details_visible),
{
    let jobs = Rect::new(right.x.saturating_sub(1), right.y, right.width.saturating_add(1), right.height);
    if details_visible && jobs.width >= 28 && jobs.height >= 6 && jobs.width < 32 {
        return None;
    }
    let details = details_area(jobs, details_visible);
    Some(UiAreas { help, resources: left, details, jobs, output })
}

/// One way the screen can be split: the content above the help line
/// (both from the first split); where the output panel is not collapsed
/// and the content is tall enough, the content split again into the top
/// and the output panel, else the top is the content; the top split into
/// the resources on the left and the jobs on the right; and the panels
/// placed in those parts.
pub open spec fn split_as(
    area: Rect,
    output_collapsed: bool,
    details_visible: bool,
    content: Rect,
    help: Rect,
    top: Rect,
    output: Option<Rect>,
    left: Rect,
    right: Rect,
    r: Option<UiAreas>,
) -> bool {
    &&& split_outcome(area, true, SizeConstraint::Min(3), SizeConstraint::Length(help_height(area)), (content, help))
    &&& split_part_within(area, true, content)
    &&& split_part_within(area, true, help)
    &&& (output is Some) == (!output_collapsed && can_expand(content))
    &&& match output {
        Some(o) => {
            &&& split_outcome(
                content,
                true,
                SizeConstraint::Length(top_height(content)),
                SizeConstraint::Min(4),
                (top, o),
            )
            &&& split_part_within(content, true, top)
            &&& split_part_within(content, true, o)
        },
        None => top == content,
    }
    &&& split_outcome(top, false, SizeConstraint::Percentage(35), SizeConstraint::Percentage(65), (left, right))
    &&& split_part_within(top, false, left)
    &&& split_part_within(top, false, right)
    &&& r == spec_panels(help, output, left, right, details_visible)
}

/// The panels are laid out from some split of the screen.
pub open spec fn laid_out(area: Rect, output_collapsed: bool, details_visible: bool, r: Option<UiAreas>) -> bool {
    exists|content: Rect, help: Rect, top: Rect, output: Option<Rect>, left: Rect, right: Rect|
        #[trigger] split_as(area, output_collapsed, details_visible, content, help, top, output, left, right, r)
}

/// Shares a screen between the panels: the help line(s) below (two on a
/// screen taller than 20 rows), the output panel below the top panels
/// where it is not collapsed and the content has 27 rows or more, the
/// resources left of the jobs at the top, the details box in the jobs.
pub fn ui_areas(area: Rect, output_collapsed: bool, details_visible: bool) -> (r: Option<UiAreas>)
    ensures
        laid_out(area, output_collapsed, details_visible, r),
{
    let hh: u16 = if area.height > 20 {
        2
    } else {
        1
    };
    let (content, help) = layout_split(area, true, SizeConstraint::Min(3), SizeConstraint::Length(hh));
    let expand = !output_collapsed && content.height >= 27;
    let (top, output) = if expand {
        let h = content.height.saturating_sub(10);
        let th = if h < 23 {
            23
        } else if h > 31 {
            31
        } else {
            h
        };
        let (t, o) = layout_split(content, true, SizeConstraint::Length(th), SizeConstraint::Min(4));
        (t, Some(o))
    } else {
        (content, None)
    };
    let (left, right) = layout_split(top, false, SizeConstraint::Percentage(35), SizeConstraint::Percentage(65));
    let r = panels(help, output, left, right, details_visible);
    assert(split_as(area, output_collapsed, details_visible, content, help, top, output, left, right, r));
    r
}

impl App {
    /// Notes where the panels were laid out on a `screen`: the output panel
    /// can open when at least 27 rows stand above the help line (the focus
    /// leaves it when it cannot); each table keeps three rows for its
    /// border and header; the details box is recorded only while shown.
    pub fn record_layout(&mut self, screen: Rect, areas: &UiAreas)
        requires
            old(self).wf(),
        ensures
            final(self).wf(),
            final(self).output.can_expand == (sat_sub_u16(screen.height, areas.help.height) >= 27),
            final(self).focus == (if !final(self).output.can_expand && old(self).focus == Focus::Log {
                Focus::Jobs
            } else {
                old(self).focus
            }),
            final(self).resources.area == areas.resources,
            final(self).resources.height == sat_sub_u16(areas.resources.height, 3),
            final(self).resources.resources == old(self).resources.resources,
            final(self).resources.state == old(self).resources.state,
            final(self).jobs.area == areas.jobs,
            final(self).jobs.height == sat_sub_u16(areas.jobs.height, 3),
            final(self).jobs.jobs == old(self).jobs.jobs,
            final(self).jobs.state == old(self).jobs.state,
            final(self).jobs.active_filter == old(self).jobs.active_filter,
            final(self).details_area == (if old(self).details_visible { areas.details } else { Rect::spec_zero() }),
            final(self).output.area == (match areas.output {
                Some(r) => r,
                None => Rect::spec_zero(),
            }),
            final(self).output.mode == old(self).output.mode,
            final(self).output.job_output == old(self).output.job_output,
            final(self).output.workdir_entries == old(self).output.workdir_entries,
            final(self).dialog == old(self).dialog,
            final(self).details_visible == old(self).details_visible,
    {
        self.output.can_expand = screen.height.saturating_sub(areas.help.height) >= 27;
        if !self.output.can_expand && self.focus == Focus::Log {
            self.focus = Focus::Jobs;
        }
        self.resources.area = areas.resources;
        self.resources.height = areas.resources.height.saturating_sub(3);
        self.jobs.area = areas.jobs;
        self.jobs.height = areas.jobs.height.saturating_sub(3);
        self.details_area = if self.details_visible {
            areas.details
        } else {
            Rect::zero()
        };
        self.output.area = match areas.output {
            Some(r) => r,
            None => Rect::zero(),
        };
    }
}

} // verus!
