//! The output panel: a job's stdout or stderr, or the listing of its working
//! directory, with the scroll positions and the layout of its viewport.
use vstd::prelude::*;

use crate::geometry::{in_rect, rect_contains, sat_add_u16, sat_add_usize, sat_sub_u16, sat_sub_usize, Rect};
use crate::layout_text::{display_lines, job_output_line_count, max_len, max_line_chars, output_line_count};
use crate::text::chars_of;
use crate::ui::{OutputPanelMode, ScrollAnchor};

verus! {

broadcast use vstd::seq_lib::group_to_multiset_ensures;

/// The kind of a directory entry.
#[derive(Clone, Copy, PartialEq, Eq, Structural, Debug)]
pub enum WorkdirEntryKind {
    Directory,
    File,
    Symlink,
}

/// One entry of a listed directory: its name, its full path, its kind.
pub struct WorkdirEntry {
    pub name: String,
    pub path: String,
    pub kind: WorkdirEntryKind,
}

/// The icon shown before an entry's name.
pub open spec fn entry_icon(kind: WorkdirEntryKind) -> char {
    match kind {
        WorkdirEntryKind::Directory => '\u{f413}',
        WorkdirEntryKind::File => '\u{f4a5}',
        WorkdirEntryKind::Symlink => '\u{f481}',
    }
}

/// An entry as listed: icon, space, name, and `/` after a directory.
pub open spec fn entry_label(name: Seq<char>, kind: WorkdirEntryKind) -> Seq<char> {
    seq![entry_icon(kind), ' '] + name + (if kind == WorkdirEntryKind::Directory {
        seq!['/']
    } else {
        Seq::<char>::empty()
    })
}

/// The label of an entry.
pub fn workdir_entry_label(entry: &WorkdirEntry) -> (r: String)
    ensures
        r@ == entry_label(entry.name@, entry.kind),
{
    let mut v: Vec<char> = Vec::new();
    let icon = match entry.kind {
        WorkdirEntryKind::Directory => '\u{f413}',
        WorkdirEntryKind::File => '\u{f4a5}',
        WorkdirEntryKind::Symlink => '\u{f481}',
    };
    v.push(icon);
    v.push(' ');
    let name = chars_of(entry.name.as_str());
    crate::text::extend_chars(&mut v, name.as_slice());
    if entry.kind == WorkdirEntryKind::Directory {
        v.push('/');
    }
    proof {
        assert(v@ =~= entry_label(entry.name@, entry.kind));
    }
    crate::text::string_of(v.as_slice())
}

/// The widest label of a listing, 0 for an empty one.
pub open spec fn widest_label(es: Seq<WorkdirEntry>) -> int
    decreases es.len(),
{
    if es.len() == 0 {
        0
    } else {
        let m = widest_label(es.drop_last());
        let l = entry_label(es.last().name@, es.last().kind).len() as int;
        if l > m {
            l
        } else {
            m
        }
    }
}

proof fn lemma_widest_label_bound(es: Seq<WorkdirEntry>, bound: int)
    requires
        forall|i: int| 0 <= i < es.len() ==> (#[trigger] es[i]).name@.len() + 3 <= bound,
        0 <= bound,
    ensures
        0 <= widest_label(es) <= bound,
    decreases es.len(),
{
    if es.len() > 0 {
        assert forall|i: int| 0 <= i < es.drop_last().len() implies (#[trigger] es.drop_last()[i]).name@.len()
            + 3 <= bound by {
            assert(es.drop_last()[i] == es[i]);
        }
        lemma_widest_label_bound(es.drop_last(), bound);
        assert(es[es.len() - 1] == es.last());
    }
}

/// Where the content of the output panel is drawn, and whether scrollbars
/// take a column and a row of it.
#[derive(Clone, Copy, PartialEq, Eq, Structural, Debug)]
pub struct OutputLayout {
    pub viewport: Rect,
    pub show_vertical: bool,
    pub show_horizontal: bool,
}

/// The output panel.
pub struct OutputPanel {
    pub mode: OutputPanelMode,
    /// Whether the screen is tall enough to show the panel.
    pub can_expand: bool,
    /// The followed file's text, or the error that reading it gave.
    pub job_output: Result<String, String>,
    /// The end of the output that `offset` counts lines from.
    pub anchor: ScrollAnchor,
    pub offset: u16,
    /// The first column shown.
    pub scroll_x: u16,
    /// Whether long lines wrap.
    pub wrap: bool,
    /// Where the panel was last drawn, border included.
    pub area: Rect,
    /// The directory listed in workdir mode.
    pub workdir_path: Option<String>,
    pub workdir_entries: Vec<WorkdirEntry>,
    /// The message shown in place of the listing.
    pub workdir_error: Option<String>,
    pub workdir_selected: Option<usize>,
    /// The first line of the listing shown (the header is line 0).
    pub workdir_offset: usize,
}

/// `a` if it is below `b`, else `b`.
pub open spec fn min_usize(a: usize, b: usize) -> usize {
    if a < b {
        a
    } else {
        b
    }
}

pub open spec fn min_u16(a: u16, b: u16) -> u16 {
    if a < b {
        a
    } else {
        b
    }
}


pub open spec fn is_file_mode(mode: OutputPanelMode) -> bool {
    mode == OutputPanelMode::Stdout || mode == OutputPanelMode::Stderr
}

impl OutputPanel {
    /// The text shown for a followed file: its content or the error.
    pub open spec fn text(self) -> Seq<char> {
        match self.job_output {
            Ok(s) => s@,
            Err(e) => e@,
        }
    }

    /// Errors always wrap; content wraps when wrapping is on.
    pub open spec fn text_wraps(self) -> bool {
        match self.job_output {
            Ok(_) => self.wrap,
            Err(_) => true,
        }
    }

    /// The panel's text and listing are small enough to be counted in
    /// `usize`.
    pub open spec fn wf(self) -> bool {
        &&& 2 * self.text().len() + 2 <= usize::MAX
        &&& forall|i: int|
            0 <= i < self.workdir_entries@.len() ==> (#[trigger] self.workdir_entries@[i]).name@.len() + 3
                <= usize::MAX
    }

    /// The area inside the border and the left padding.
    pub open spec fn spec_inner_area(self) -> Rect {
        Rect::spec_new(
            sat_add_u16(self.area.x, 2),
            sat_add_u16(self.area.y, 1),
            sat_sub_u16(self.area.width, 3),
            sat_sub_u16(self.area.height, 2),
        )
    }

    pub fn output_inner_area(&self) -> (r: Rect)
        ensures
            r == self.spec_inner_area(),
    {
        Rect::new(
            self.area.x.saturating_add(2),
            self.area.y.saturating_add(1),
            self.area.width.saturating_sub(3),
            self.area.height.saturating_sub(2),
        )
    }

    /// The width of the widest line of content.
    pub open spec fn spec_content_width(self) -> int {
        match self.mode {
            OutputPanelMode::Stdout | OutputPanelMode::Stderr => max_len(display_lines(self.text())),
            OutputPanelMode::Workdir => match self.workdir_error {
                Some(m) => m@.len() as int,
                None => widest_label(self.workdir_entries@),
            },
            OutputPanelMode::Collapsed => 0,
        }
    }

    pub fn output_content_width(&self) -> (r: usize)
        requires
            self.wf(),
        ensures
            r == self.spec_content_width(),
    {
        match self.mode {
            OutputPanelMode::Stdout | OutputPanelMode::Stderr => {
                let t = match &self.job_output {
                    Ok(s) => chars_of(s.as_str()),
                    Err(e) => chars_of(e.as_str()),
                };
                max_line_chars(t.as_slice())
            },
            OutputPanelMode::Workdir => match &self.workdir_error {
                Some(m) => chars_of(m.as_str()).len(),
                None => {
                    let ghost es = self.workdir_entries@;
                    let mut m: usize = 0;
                    let mut i: usize = 0;
                    assert(es.take(0) =~= Seq::<WorkdirEntry>::empty());
                    while i < self.workdir_entries.len()
                        invariant
                            es == self.workdir_entries@,
                            self.wf(),
                            i <= es.len(),
                            m == widest_label(es.take(i as int)),
                        decreases es.len() - i,
                    {
                        assert(es.take(i + 1).drop_last() =~= es.take(i as int));
                        assert(es.take(i + 1).last() == es[i as int]);
                        let e = &self.workdir_entries[i];
                        let n = chars_of(e.name.as_str()).len();
                        let l = if e.kind == WorkdirEntryKind::Directory {
                            n + 3
                        } else {
                            n + 2
                        };
                        if l > m {
                            m = l;
                        }
                        i = i + 1;
                    }
                    assert(es.take(es.len() as int) =~= es);
                    m
                },
            },
            OutputPanelMode::Collapsed => 0,
        }
    }

    /// The rows of content at a viewport width: wrapped lines for a file,
    /// the header and the entries (or one row for a message) for a listing.
    pub open spec fn spec_content_height_for(self, width: u16) -> int {
        if width == 0 {
            0
        } else {
            match self.mode {
                OutputPanelMode::Stdout | OutputPanelMode::Stderr => output_line_count(
                    self.text(),
                    width as int,
                    self.text_wraps(),
                ),
                OutputPanelMode::Workdir => match self.workdir_error {
                    Some(m) => if m@.len() > 0 {
                        1
                    } else {
                        0
                    },
                    None => sat_add_usize(self.workdir_entries@.len() as usize, 1) as int,
                },
                OutputPanelMode::Collapsed => 0,
            }
        }
    }

    pub fn output_content_height_for(&self, width: u16) -> (r: usize)
        requires
            self.wf(),
        ensures
            r == self.spec_content_height_for(width),
    {
        if width == 0 {
            return 0;
        }
        match self.mode {
            OutputPanelMode::Stdout | OutputPanelMode::Stderr => match &self.job_output {
                Ok(s) => {
                    let t = chars_of(s.as_str());
                    job_output_line_count(t.as_slice(), width as usize, self.wrap)
                },
                Err(e) => {
                    let t = chars_of(e.as_str());
                    job_output_line_count(t.as_slice(), width as usize, true)
                },
            },
            OutputPanelMode::Workdir => match &self.workdir_error {
                Some(m) => if chars_of(m.as_str()).len() > 0 {
                    1
                } else {
                    0
                },
                None => self.workdir_entries.len().saturating_add(1),
            },
            OutputPanelMode::Collapsed => 0,
        }
    }

    /// The viewport with room taken for the scrollbars that are shown.
    pub open spec fn viewport_for(self, vertical: bool, horizontal: bool) -> Rect {
        let inner = self.spec_inner_area();
        Rect::spec_new(
            inner.x,
            inner.y,
            sat_sub_u16(inner.width, if vertical { 1 } else { 0 }),
            sat_sub_u16(inner.height, if horizontal { 1 } else { 0 }),
        )
    }

    /// Which scrollbars the content needs in the viewport that the given
    /// scrollbars leave.
    pub open spec fn layout_step(self, vertical: bool, horizontal: bool) -> (bool, bool) {
        let v = self.viewport_for(vertical, horizontal);
        (
            v.height > 0 && self.spec_content_height_for(v.width) > v.height,
            !self.wrap && v.width > 0 && self.spec_content_width() > v.width,
        )
    }

    /// The scrollbars settle where they need no change. Starting with none,
    /// each step takes those that the last viewport needs; four steps visit
    /// every choice. In the rare case where the steps cycle without
    /// settling, the choice after four steps is taken.
    pub open spec fn settle(self, steps: nat, vertical: bool, horizontal: bool) -> (bool, bool)
        decreases steps,
    {
        if steps == 0 {
            (vertical, horizontal)
        } else {
            let next = self.layout_step(vertical, horizontal);
            if next == (vertical, horizontal) {
                (vertical, horizontal)
            } else {
                self.settle((steps - 1) as nat, next.0, next.1)
            }
        }
    }

    pub open spec fn spec_output_layout(self) -> OutputLayout {
        let flags = self.settle(4, false, false);
        OutputLayout {
            viewport: self.viewport_for(flags.0, flags.1),
            show_vertical: flags.0,
            show_horizontal: flags.1,
        }
    }

    /// The viewport and scrollbars of the panel.
    #[verifier::rlimit(50)]
    pub fn output_layout(&self) -> (r: OutputLayout)
        requires
            self.wf(),
        ensures
            r == self.spec_output_layout(),
    {
        let inner = self.output_inner_area();
        let content_width = self.output_content_width();
        let mut show_vertical = false;
        let mut show_horizontal = false;
        let mut steps: usize = 4;
        loop
            invariant
                self.wf(),
                inner == self.spec_inner_area(),
                content_width == self.spec_content_width(),
                steps <= 4,
                self.settle(steps as nat, show_vertical, show_horizontal) == self.settle(4, false, false),
            decreases steps,
        {
            let viewport = Rect::new(
                inner.x,
                inner.y,
                inner.width.saturating_sub(if show_vertical { 1 } else { 0 }),
                inner.height.saturating_sub(if show_horizontal { 1 } else { 0 }),
            );
            if steps == 0 {
                return OutputLayout { viewport, show_vertical, show_horizontal };
            }
            let content_height = self.output_content_height_for(viewport.width);
            let next_vertical = viewport.height > 0 && content_height > viewport.height as usize;
            let next_horizontal = !self.wrap && viewport.width > 0 && content_width > viewport.width as usize;
            if next_vertical == show_vertical && next_horizontal == show_horizontal {
                return OutputLayout { viewport, show_vertical, show_horizontal };
            }
            show_vertical = next_vertical;
            show_horizontal = next_horizontal;
            steps = steps - 1;
        }
    }
}

/// Two panels that show the same content in the same place.
pub open spec fn same_content(a: OutputPanel, b: OutputPanel) -> bool {
    &&& a.mode == b.mode
    &&& a.wrap == b.wrap
    &&& a.area == b.area
    &&& a.job_output == b.job_output
    &&& a.workdir_error == b.workdir_error
    &&& a.workdir_entries@ == b.workdir_entries@
}

proof fn lemma_settle_same(a: OutputPanel, b: OutputPanel, steps: nat, v: bool, h: bool)
    requires
        same_content(a, b),
    ensures
        a.settle(steps, v, h) == b.settle(steps, v, h),
    decreases steps,
{
    if steps > 0 {
        let next = a.layout_step(v, h);
        assert(next == b.layout_step(v, h));
        lemma_settle_same(a, b, (steps - 1) as nat, next.0, next.1);
    }
}

/// The layout and the content's size depend on the content alone, not on
/// scroll positions or selection.
pub proof fn lemma_layout_same(a: OutputPanel, b: OutputPanel)
    requires
        same_content(a, b),
    ensures
        a.spec_output_layout() == b.spec_output_layout(),
        a.spec_content_width() == b.spec_content_width(),
        forall|w: u16| a.spec_content_height_for(w) == b.spec_content_height_for(w),
        a.wf() == b.wf(),
{
    lemma_settle_same(a, b, 4, false, false);
}

impl OutputPanel {
    /// Whether the panel scrolls sideways: lines do not wrap and the panel
    /// is shown.
    pub open spec fn is_scrollable_x(self) -> bool {
        !self.wrap && self.mode != OutputPanelMode::Collapsed
    }

    pub fn is_output_horizontally_scrollable(&self) -> (r: bool)
        ensures
            r == self.is_scrollable_x(),
    {
        !self.wrap && !self.mode.is_collapsed()
    }

    /// How far the panel scrolls sideways: the width the content exceeds
    /// the viewport by.
    pub open spec fn spec_max_scroll_x(self) -> u16 {
        let w = self.spec_output_layout().viewport.width;
        if !self.is_scrollable_x() || w == 0 {
            0
        } else {
            let d = self.spec_content_width() - w;
            if d <= 0 {
                0
            } else if d < u16::MAX {
                d as u16
            } else {
                u16::MAX
            }
        }
    }

    pub fn max_output_scroll_x(&self) -> (r: u16)
        requires
            self.wf(),
        ensures
            r == self.spec_max_scroll_x(),
    {
        if !self.is_output_horizontally_scrollable() {
            return 0;
        }
        let w = self.output_layout().viewport.width as usize;
        if w == 0 {
            return 0;
        }
        let d = self.output_content_width().saturating_sub(w);
        if d < u16::MAX as usize {
            d as u16
        } else {
            u16::MAX
        }
    }

    /// How far the output scrolls: the lines the content exceeds the
    /// viewport by, for a file; nothing in the other modes.
    pub open spec fn spec_max_offset(self) -> u16 {
        let v = self.spec_output_layout().viewport;
        if !is_file_mode(self.mode) || v.height == 0 || v.width == 0 {
            0
        } else {
            let d = output_line_count(self.text(), v.width as int, self.text_wraps()) - v.height;
            if d <= 0 {
                0
            } else if d < u16::MAX {
                d as u16
            } else {
                u16::MAX
            }
        }
    }

    pub fn max_job_output_offset(&self) -> (r: u16)
        requires
            self.wf(),
        ensures
            r == self.spec_max_offset(),
    {
        if !(self.mode == OutputPanelMode::Stdout || self.mode == OutputPanelMode::Stderr) {
            return 0;
        }
        let layout = self.output_layout();
        let lines = layout.viewport.height as usize;
        let width = layout.viewport.width;
        if lines == 0 || width == 0 {
            return 0;
        }
        let content_lines = self.output_content_height_for(width);
        let d = content_lines.saturating_sub(lines);
        if d < u16::MAX as usize {
            d as u16
        } else {
            u16::MAX
        }
    }

    /// Pulls the offset back to the last line that can be at the top.
    pub fn clamp_job_output_offset(&mut self)
        requires
            old(self).wf(),
        ensures
            *final(self) == (OutputPanel { offset: min_u16(old(self).offset, old(self).spec_max_offset()), ..*old(self) }),
    {
        let m = self.max_job_output_offset();
        if m < self.offset {
            self.offset = m;
        }
    }

    /// Shows the start of the output.
    pub fn scroll_job_output_to_top(&mut self)
        ensures
            *final(self) == (OutputPanel { offset: 0, anchor: ScrollAnchor::Top, ..*old(self) }),
    {
        self.offset = 0;
        self.anchor = ScrollAnchor::Top;
    }

    /// Follows the end of the output.
    pub fn scroll_job_output_to_bottom(&mut self)
        ensures
            *final(self) == (OutputPanel { offset: 0, anchor: ScrollAnchor::Bottom, ..*old(self) }),
    {
        self.offset = 0;
        self.anchor = ScrollAnchor::Bottom;
    }

    /// The offset after moving `delta` lines towards the end of the output.
    pub open spec fn offset_down(self, delta: u16) -> u16 {
        min_u16(
            match self.anchor {
                ScrollAnchor::Top => sat_add_u16(self.offset, delta),
                ScrollAnchor::Bottom => sat_sub_u16(self.offset, delta),
            },
            self.spec_max_offset(),
        )
    }

    /// The offset after moving `delta` lines towards the start.
    pub open spec fn offset_up(self, delta: u16) -> u16 {
        min_u16(
            match self.anchor {
                ScrollAnchor::Top => sat_sub_u16(self.offset, delta),
                ScrollAnchor::Bottom => sat_add_u16(self.offset, delta),
            },
            self.spec_max_offset(),
        )
    }

    pub fn scroll_job_output_down_by(&mut self, delta: u16)
        requires
            old(self).wf(),
        ensures
            *final(self) == (OutputPanel { offset: old(self).offset_down(delta), ..*old(self) }),
    {
        match self.anchor {
            ScrollAnchor::Top => {
                self.offset = self.offset.saturating_add(delta);
            },
            ScrollAnchor::Bottom => {
                self.offset = self.offset.saturating_sub(delta);
            },
        }
        proof {
            lemma_layout_same(*self, *old(self));
        }
        self.clamp_job_output_offset();
    }

    pub fn scroll_job_output_up_by(&mut self, delta: u16)
        requires
            old(self).wf(),
        ensures
            *final(self) == (OutputPanel { offset: old(self).offset_up(delta), ..*old(self) }),
    {
        match self.anchor {
            ScrollAnchor::Top => {
                self.offset = self.offset.saturating_sub(delta);
            },
            ScrollAnchor::Bottom => {
                self.offset = self.offset.saturating_add(delta);
            },
        }
        proof {
            lemma_layout_same(*self, *old(self));
        }
        self.clamp_job_output_offset();
    }
}

impl OutputPanel {
    /// The rows of the listing: one for a message, none for an empty one,
    /// else the header and the entries.
    pub open spec fn workdir_rows(self) -> usize {
        match self.workdir_error {
            Some(m) => if m@.len() > 0 {
                1
            } else {
                0
            },
            None => sat_add_usize(self.workdir_entries@.len() as usize, 1),
        }
    }

    /// The selection kept on an entry of the listing.
    pub open spec fn clamped_selection(self) -> Option<usize> {
        if self.workdir_entries@.len() == 0 {
            None
        } else {
            let last = (self.workdir_entries@.len() - 1) as usize;
            Some(
                min_usize(
                    match self.workdir_selected {
                        Some(i) => i,
                        None => 0,
                    },
                    last,
                ),
            )
        }
    }

    pub fn clamp_workdir_selection(&mut self)
        ensures
            *final(self) == (OutputPanel { workdir_selected: old(self).clamped_selection(), ..*old(self) }),
    {
        if self.workdir_entries.len() == 0 {
            self.workdir_selected = None;
            return;
        }
        let last = self.workdir_entries.len() - 1;
        let i = match self.workdir_selected {
            Some(i) => i,
            None => 0,
        };
        self.workdir_selected = Some(if i < last { i } else { last });
    }

    /// The first listing row shown: within the listing, and moved as little
    /// as possible to keep the selected entry in view.
    pub open spec fn clamped_offset(self) -> usize {
        let height = self.spec_output_layout().viewport.height as usize;
        let max_offset = sat_sub_usize(self.workdir_rows(), height);
        let offset = min_usize(self.workdir_offset, max_offset);
        match self.workdir_selected {
            Some(selected) => if height == 0 {
                0
            } else if selected < offset {
                selected
            } else if selected > offset + (height - 1) {
                sat_sub_usize(sat_add_usize(selected, 1), height)
            } else {
                offset
            },
            None => offset,
        }
    }

    pub fn clamp_workdir_offset(&mut self)
        requires
            old(self).wf(),
        ensures
            *final(self) == (OutputPanel { workdir_offset: old(self).clamped_offset(), ..*old(self) }),
    {
        let height = self.output_layout().viewport.height as usize;
        let rows = match &self.workdir_error {
            Some(m) => if chars_of(m.as_str()).len() > 0 {
                1
            } else {
                0
            },
            None => self.workdir_entries.len().saturating_add(1),
        };
        let max_offset = rows.saturating_sub(height);
        if max_offset < self.workdir_offset {
            self.workdir_offset = max_offset;
        }
        match self.workdir_selected {
            Some(selected) => {
                if height == 0 {
                    self.workdir_offset = 0;
                } else if selected < self.workdir_offset {
                    self.workdir_offset = selected;
                } else {
                    let last_visible = self.workdir_offset + (height - 1);
                    if selected > last_visible {
                        self.workdir_offset = selected.saturating_add(1).saturating_sub(height);
                    }
                }
            },
            None => {},
        }
    }

    pub open spec fn after_workdir_up(self, delta: usize) -> OutputPanel {
        if self.workdir_entries@.len() == 0 {
                OutputPanel { workdir_selected: None, workdir_offset: 0, ..self }
            } else {
                let moved = OutputPanel {
                    workdir_selected: Some(
                        sat_sub_usize(
                            match self.workdir_selected {
                                Some(i) => i,
                                None => 0,
                            },
                            delta,
                        ),
                    ),
                    ..self
                };
                OutputPanel { workdir_offset: moved.clamped_offset(), ..moved }
            }
    }

    pub open spec fn after_workdir_down(self, delta: usize) -> OutputPanel {
        if self.workdir_entries@.len() == 0 {
                OutputPanel { workdir_selected: None, workdir_offset: 0, ..self }
            } else {
                let moved = OutputPanel {
                    workdir_selected: Some(
                        min_usize(
                            sat_add_usize(
                                match self.workdir_selected {
                                    Some(i) => i,
                                    None => 0,
                                },
                                delta,
                            ),
                            (self.workdir_entries@.len() - 1) as usize,
                        ),
                    ),
                    ..self
                };
                OutputPanel { workdir_offset: moved.clamped_offset(), ..moved }
            }
    }

    pub open spec fn after_workdir_first(self) -> OutputPanel {
        if self.workdir_entries@.len() == 0 {
                OutputPanel { workdir_selected: None, workdir_offset: 0, ..self }
            } else {
                OutputPanel { workdir_selected: Some(0), workdir_offset: 0, ..self }
            }
    }

    pub open spec fn after_workdir_last(self) -> OutputPanel {
        if self.workdir_entries@.len() == 0 {
                OutputPanel { workdir_selected: None, workdir_offset: 0, ..self }
            } else {
                let moved = OutputPanel {
                    workdir_selected: Some((self.workdir_entries@.len() - 1) as usize),
                    ..self
                };
                OutputPanel { workdir_offset: moved.clamped_offset(), ..moved }
            }
    }

    /// Moves the listing's selection `delta` entries up.
    pub fn move_workdir_selection_up(&mut self, delta: usize)
        requires
            old(self).wf(),
        ensures
            *final(self) == old(self).after_workdir_up(delta),
    {
        if self.workdir_entries.len() == 0 {
            self.workdir_selected = None;
            self.workdir_offset = 0;
            return;
        }
        let i = match self.workdir_selected {
            Some(i) => i,
            None => 0,
        };
        self.workdir_selected = Some(i.saturating_sub(delta));
        proof {
            lemma_layout_same(*self, *old(self));
        }
        self.clamp_workdir_offset();
    }

    /// Moves the listing's selection `delta` entries down, at most to the
    /// last.
    pub fn move_workdir_selection_down(&mut self, delta: usize)
        requires
            old(self).wf(),
        ensures
            *final(self) == old(self).after_workdir_down(delta),
    {
        if self.workdir_entries.len() == 0 {
            self.workdir_selected = None;
            self.workdir_offset = 0;
            return;
        }
        let last = self.workdir_entries.len() - 1;
        let i = match self.workdir_selected {
            Some(i) => i,
            None => 0,
        };
        let next = i.saturating_add(delta);
        self.workdir_selected = Some(if next < last { next } else { last });
        proof {
            lemma_layout_same(*self, *old(self));
        }
        self.clamp_workdir_offset();
    }

    /// Selects the first entry and shows the top of the listing.
    pub fn select_first_workdir_entry(&mut self)
        ensures
            *final(self) == old(self).after_workdir_first(),
    {
        if self.workdir_entries.len() == 0 {
            self.workdir_selected = None;
            self.workdir_offset = 0;
            return;
        }
        self.workdir_selected = Some(0);
        self.workdir_offset = 0;
    }

    /// Selects the last entry and scrolls it into view.
    pub fn select_last_workdir_entry(&mut self)
        requires
            old(self).wf(),
        ensures
            *final(self) == old(self).after_workdir_last(),
    {
        if self.workdir_entries.len() == 0 {
            self.workdir_selected = None;
            self.workdir_offset = 0;
            return;
        }
        self.workdir_selected = Some(self.workdir_entries.len() - 1);
        proof {
            lemma_layout_same(*self, *old(self));
        }
        self.clamp_workdir_offset();
    }
}

impl OutputPanel {
    /// Moving up: the output scrolls towards its start, the listing's
    /// selection moves up.
    pub open spec fn after_output_up(self, delta: u16) -> OutputPanel {
        match self.mode {
            OutputPanelMode::Stdout | OutputPanelMode::Stderr => OutputPanel { offset: self.offset_up(delta), ..self },
            OutputPanelMode::Workdir => self.after_workdir_up(delta as usize),
            OutputPanelMode::Collapsed => self,
        }
    }

    pub open spec fn after_output_down(self, delta: u16) -> OutputPanel {
        match self.mode {
            OutputPanelMode::Stdout | OutputPanelMode::Stderr => OutputPanel { offset: self.offset_down(delta), ..self },
            OutputPanelMode::Workdir => self.after_workdir_down(delta as usize),
            OutputPanelMode::Collapsed => self,
        }
    }

    pub open spec fn after_output_top(self) -> OutputPanel {
        match self.mode {
            OutputPanelMode::Stdout | OutputPanelMode::Stderr => OutputPanel {
                offset: 0,
                anchor: ScrollAnchor::Top,
                ..self
            },
            OutputPanelMode::Workdir => self.after_workdir_first(),
            OutputPanelMode::Collapsed => self,
        }
    }

    pub open spec fn after_output_bottom(self) -> OutputPanel {
        match self.mode {
            OutputPanelMode::Stdout | OutputPanelMode::Stderr => OutputPanel {
                offset: 0,
                anchor: ScrollAnchor::Bottom,
                ..self
            },
            OutputPanelMode::Workdir => self.after_workdir_last(),
            OutputPanelMode::Collapsed => self,
        }
    }

    pub fn move_output_up(&mut self, delta: u16)
        requires
            old(self).wf(),
        ensures
            *final(self) == old(self).after_output_up(delta),
    {
        match self.mode {
            OutputPanelMode::Stdout | OutputPanelMode::Stderr => self.scroll_job_output_up_by(delta),
            OutputPanelMode::Workdir => self.move_workdir_selection_up(delta as usize),
            OutputPanelMode::Collapsed => {},
        }
    }

    pub fn move_output_down(&mut self, delta: u16)
        requires
            old(self).wf(),
        ensures
            *final(self) == old(self).after_output_down(delta),
    {
        match self.mode {
            OutputPanelMode::Stdout | OutputPanelMode::Stderr => self.scroll_job_output_down_by(delta),
            OutputPanelMode::Workdir => self.move_workdir_selection_down(delta as usize),
            OutputPanelMode::Collapsed => {},
        }
    }

    pub fn move_output_to_top(&mut self)
        ensures
            *final(self) == old(self).after_output_top(),
    {
        match self.mode {
            OutputPanelMode::Stdout | OutputPanelMode::Stderr => self.scroll_job_output_to_top(),
            OutputPanelMode::Workdir => self.select_first_workdir_entry(),
            OutputPanelMode::Collapsed => {},
        }
    }

    pub fn move_output_to_bottom(&mut self)
        requires
            old(self).wf(),
        ensures
            *final(self) == old(self).after_output_bottom(),
    {
        match self.mode {
            OutputPanelMode::Stdout | OutputPanelMode::Stderr => self.scroll_job_output_to_bottom(),
            OutputPanelMode::Workdir => self.select_last_workdir_entry(),
            OutputPanelMode::Collapsed => {},
        }
    }

    /// Half the viewport's height, at least one line.
    pub open spec fn page_step(self) -> u16 {
        let h = self.spec_output_layout().viewport.height / 2;
        if h > 1 {
            h as u16
        } else {
            1
        }
    }

    pub fn output_page_step(&self) -> (r: u16)
        requires
            self.wf(),
        ensures
            r == self.page_step(),
    {
        let h = self.output_layout().viewport.height / 2;
        if h > 1 {
            h
        } else {
            1
        }
    }

    pub fn move_output_half_page_up(&mut self)
        requires
            old(self).wf(),
        ensures
            *final(self) == old(self).after_output_up(old(self).page_step()),
    {
        let step = self.output_page_step();
        self.move_output_up(step);
    }

    /// Half the viewport's width, at least one column.
    pub open spec fn horizontal_page_step(self) -> u16 {
        let w = self.spec_output_layout().viewport.width / 2;
        if w > 1 {
            w as u16
        } else {
            1
        }
    }

    pub fn output_horizontal_page_step(&self) -> (r: u16)
        requires
            self.wf(),
        ensures
            r == self.horizontal_page_step(),
    {
        let w = self.output_layout().viewport.width / 2;
        if w > 1 {
            w
        } else {
            1
        }
    }

    pub open spec fn after_scroll_left(self, delta: u16) -> OutputPanel {
        OutputPanel {
            scroll_x: if self.is_scrollable_x() {
                sat_sub_u16(self.scroll_x, delta)
            } else {
                0
            },
            ..self
        }
    }

    pub open spec fn after_scroll_right(self, delta: u16) -> OutputPanel {
        OutputPanel {
            scroll_x: if self.is_scrollable_x() {
                min_u16(sat_add_u16(self.scroll_x, delta), self.spec_max_scroll_x())
            } else {
                0
            },
            ..self
        }
    }

    pub fn scroll_output_left(&mut self, delta: u16)
        ensures
            *final(self) == old(self).after_scroll_left(delta),
    {
        if !self.is_output_horizontally_scrollable() {
            self.scroll_x = 0;
            return;
        }
        self.scroll_x = self.scroll_x.saturating_sub(delta);
    }

    pub fn scroll_output_right(&mut self, delta: u16)
        requires
            old(self).wf(),
        ensures
            *final(self) == old(self).after_scroll_right(delta),
    {
        if !self.is_output_horizontally_scrollable() {
            self.scroll_x = 0;
            return;
        }
        let m = self.max_output_scroll_x();
        let x = self.scroll_x.saturating_add(delta);
        self.scroll_x = if x < m { x } else { m };
    }

    pub fn scroll_output_page_left(&mut self)
        requires
            old(self).wf(),
        ensures
            *final(self) == old(self).after_scroll_left(old(self).horizontal_page_step()),
    {
        let step = self.output_horizontal_page_step();
        self.scroll_output_left(step);
    }

    pub fn scroll_output_page_right(&mut self)
        requires
            old(self).wf(),
        ensures
            *final(self) == old(self).after_scroll_right(old(self).horizontal_page_step()),
    {
        let step = self.output_horizontal_page_step();
        self.scroll_output_right(step);
    }

    /// Brings every position back within the content: the sideways scroll,
    /// the output's offset, the listing's selection and first row.
    pub open spec fn after_sync(self) -> OutputPanel {
        let p = OutputPanel {
            scroll_x: if self.is_scrollable_x() {
                min_u16(self.scroll_x, self.spec_max_scroll_x())
            } else {
                0
            },
            ..self
        };
        match self.mode {
            OutputPanelMode::Stdout | OutputPanelMode::Stderr => OutputPanel {
                offset: min_u16(p.offset, self.spec_max_offset()),
                ..p
            },
            OutputPanelMode::Workdir => {
                let q = OutputPanel { workdir_selected: p.clamped_selection(), ..p };
                OutputPanel { workdir_offset: q.clamped_offset(), ..q }
            },
            OutputPanelMode::Collapsed => p,
        }
    }

    pub fn sync_output_state(&mut self)
        requires
            old(self).wf(),
        ensures
            *final(self) == old(self).after_sync(),
    {
        if !self.is_output_horizontally_scrollable() {
            self.scroll_x = 0;
        } else {
            let m = self.max_output_scroll_x();
            if m < self.scroll_x {
                self.scroll_x = m;
            }
        }
        proof {
            lemma_layout_same(*self, *old(self));
        }
        match self.mode {
            OutputPanelMode::Stdout | OutputPanelMode::Stderr => self.clamp_job_output_offset(),
            OutputPanelMode::Workdir => {
                self.clamp_workdir_selection();
                proof {
                    lemma_layout_same(*self, *old(self));
                }
                self.clamp_workdir_offset();
            },
            OutputPanelMode::Collapsed => {},
        }
    }

    /// The entry under a click on the listing (the header is its first row).
    pub open spec fn clicked_entry(self, column: u16, row: u16) -> Option<usize> {
        let v = self.spec_output_layout().viewport;
        if self.mode == OutputPanelMode::Workdir && in_rect(v, column, row) {
            let index = sat_sub_usize(sat_add_usize(self.workdir_offset, sat_sub_u16(row, v.y) as usize), 1);
            if index < self.workdir_entries@.len() {
                Some(index)
            } else {
                None
            }
        } else {
            None
        }
    }

    pub fn select_workdir_at(&mut self, column: u16, row: u16)
        requires
            old(self).wf(),
        ensures
            *final(self) == (match old(self).clicked_entry(column, row) {
                Some(i) => OutputPanel { workdir_selected: Some(i), ..*old(self) },
                None => *old(self),
            }),
    {
        if self.mode != OutputPanelMode::Workdir {
            return;
        }
        let viewport = self.output_layout().viewport;
        if !rect_contains(viewport, column, row) {
            return;
        }
        let index = self.workdir_offset.saturating_add(row.saturating_sub(viewport.y) as usize).saturating_sub(1);
        if index < self.workdir_entries.len() {
            self.workdir_selected = Some(index);
        }
    }
}

/// Two panels alike in everything but the listing.
pub open spec fn same_but_listing(a: OutputPanel, b: OutputPanel) -> bool {
    &&& a.mode == b.mode
    &&& a.can_expand == b.can_expand
    &&& a.job_output == b.job_output
    &&& a.anchor == b.anchor
    &&& a.offset == b.offset
    &&& a.scroll_x == b.scroll_x
    &&& a.wrap == b.wrap
    &&& a.area == b.area
}

/// Whether the listing must be read again: in workdir mode, when the mode
/// or the selected job changed, or the directory to list did.
pub open spec fn reload_needed(
    panel: OutputPanel,
    derived: Option<Seq<char>>,
    selected_job_changed: bool,
    output_mode_changed: bool,
) -> bool {
    panel.mode == OutputPanelMode::Workdir && (output_mode_changed || selected_job_changed || derived
        != crate::job::opt_view(panel.workdir_path))
}

fn same_path(a: &Option<String>, b: &Option<String>) -> (r: bool)
    ensures
        r == (crate::job::opt_view(*a) == crate::job::opt_view(*b)),
{
    match (a, b) {
        (Some(x), Some(y)) => {
            let xv = chars_of(x.as_str());
            crate::text::chars_eq_str(xv.as_slice(), y.as_str())
        },
        (None, None) => true,
        _ => false,
    }
}

impl OutputPanel {
    /// Starts listing the directory `derived` where needed: outside workdir
    /// mode the listing is dropped; when the listing must be read again it
    /// is emptied, and the directory to read is returned (with no directory
    /// the listing says so).
    pub fn begin_workdir_reload(
        &mut self,
        derived: Option<String>,
        selected_job_changed: bool,
        output_mode_changed: bool,
    ) -> (r: Option<String>)
        ensures
            same_but_listing(*final(self), *old(self)),
            old(self).mode != OutputPanelMode::Workdir ==> {
                &&& final(self).workdir_path is None
                &&& final(self).workdir_entries@.len() == 0
                &&& final(self).workdir_error is None
                &&& final(self).workdir_selected is None
                &&& final(self).workdir_offset == 0
                &&& r is None
            },
            old(self).mode == OutputPanelMode::Workdir && !reload_needed(
                *old(self),
                crate::job::opt_view(derived),
                selected_job_changed,
                output_mode_changed,
            ) ==> *final(self) == *old(self) && r is None,
            reload_needed(*old(self), crate::job::opt_view(derived), selected_job_changed, output_mode_changed)
                ==> {
                &&& crate::job::opt_view(final(self).workdir_path) == crate::job::opt_view(derived)
                &&& final(self).workdir_entries@.len() == 0
                &&& final(self).workdir_selected is None
                &&& final(self).workdir_offset == 0
                &&& (match derived {
                    Some(d) => final(self).workdir_error is None && (r matches Some(p) && p@ == d@),
                    None => (final(self).workdir_error matches Some(m) && m@ == "No workdir available"@)
                        && r is None,
                })
            },
    {
        if self.mode != OutputPanelMode::Workdir {
            self.workdir_path = None;
            self.workdir_entries = Vec::new();
            self.workdir_error = None;
            self.workdir_selected = None;
            self.workdir_offset = 0;
            return None;
        }
        let path_changed = !same_path(&derived, &self.workdir_path);
        if !(output_mode_changed || selected_job_changed || path_changed) {
            return None;
        }
        self.workdir_entries = Vec::new();
        self.workdir_error = None;
        self.workdir_selected = None;
        self.workdir_offset = 0;
        match derived {
            Some(d) => {
                let r = d.clone();
                self.workdir_path = Some(d);
                Some(r)
            },
            None => {
                self.workdir_path = None;
                self.workdir_error = Some(crate::text::owned("No workdir available"));
                None
            },
        }
    }

    /// Takes the entries read from the listed directory, selecting the
    /// first; `None` stands for a directory that could not be read.
    pub fn finish_workdir_load(&mut self, entries: Option<Vec<WorkdirEntry>>)
        ensures
            same_but_listing(*final(self), *old(self)),
            final(self).workdir_path == old(self).workdir_path,
            final(self).workdir_offset == old(self).workdir_offset,
            match entries {
                Some(es) => {
                    &&& final(self).workdir_entries@ == es@
                    &&& final(self).workdir_error == old(self).workdir_error
                    &&& final(self).workdir_selected == (if es@.len() > 0 {
                        Some(0usize)
                    } else {
                        old(self).workdir_selected
                    })
                },
                None => {
                    &&& final(self).workdir_entries == old(self).workdir_entries
                    &&& final(self).workdir_selected == old(self).workdir_selected
                    &&& final(self).workdir_error matches Some(m) && m@ == "Unable to read workdir: "@
                        + (match old(self).workdir_path {
                        Some(p) => p@,
                        None => Seq::<char>::empty(),
                    })
                },
            },
    {
        match entries {
            Some(es) => {
                self.workdir_entries = es;
                if self.workdir_entries.len() > 0 {
                    self.workdir_selected = Some(0);
                }
            },
            None => {
                let mut m = chars_of("Unable to read workdir: ");
                match &self.workdir_path {
                    Some(p) => {
                        let pv = chars_of(p.as_str());
                        crate::text::extend_chars(&mut m, pv.as_slice());
                    },
                    None => {},
                }
                self.workdir_error = Some(crate::text::string_of(m.as_slice()));
            },
        }
    }
}

/// The listing's order: directories first, then by name.
pub open spec fn entry_order(a: WorkdirEntry, b: WorkdirEntry) -> crate::order::Order {
    crate::sorting::bool_order(a.kind != WorkdirEntryKind::Directory, b.kind != WorkdirEntryKind::Directory).tie_break(
        crate::order::lex_order(a.name@, b.name@),
    )
}

/// Every entry comes no later than the next one.
pub open spec fn listing_sorted(es: Seq<WorkdirEntry>) -> bool {
    forall|i: int| 0 <= i < es.len() - 1 ==> #[trigger] entry_order(es[i], es[i + 1]) != crate::order::Order::Greater
}

proof fn lemma_entry_order_flip(a: WorkdirEntry, b: WorkdirEntry)
    ensures
        entry_order(a, b) == entry_order(b, a).flip(),
{
    crate::resources::lemma_lex_order_flip(a.name@, b.name@);
}

fn compare_entries(a: &WorkdirEntry, b: &WorkdirEntry) -> (r: crate::order::Order)
    ensures
        r == entry_order(*a, *b),
{
    let a_dir = a.kind == WorkdirEntryKind::Directory;
    let b_dir = b.kind == WorkdirEntryKind::Directory;
    if a_dir && !b_dir {
        crate::order::Order::Less
    } else if !a_dir && b_dir {
        crate::order::Order::Greater
    } else {
        let an = chars_of(a.name.as_str());
        let bn = chars_of(b.name.as_str());
        crate::order::lex_compare(an.as_slice(), bn.as_slice())
    }
}

fn insert_entry(out: &mut Vec<WorkdirEntry>, x: WorkdirEntry)
    requires
        listing_sorted(old(out)@),
    ensures
        final(out)@.len() == old(out)@.len() + 1,
        listing_sorted(final(out)@),
        final(out)@.to_multiset() == old(out)@.to_multiset().insert(x),
{
    let mut k: usize = 0;
    while k < out.len() && compare_entries(&x, &out[k]) != crate::order::Order::Less
        invariant
            k <= out@.len(),
            listing_sorted(out@),
            k > 0 ==> entry_order(x, out@[k - 1]) != crate::order::Order::Less,
        decreases out@.len() - k,
    {
        k = k + 1;
    }
    let ghost before = out@;
    out.insert(k, x);
    proof {
        assert(out@ == before.insert(k as int, x));
        if k > 0 {
            lemma_entry_order_flip(x, before[k - 1]);
        }
        assert forall|i: int| 0 <= i < out@.len() - 1 implies #[trigger] entry_order(out@[i], out@[i + 1])
            != crate::order::Order::Greater by {
            if i + 1 < k {
                assert(out@[i] == before[i] && out@[i + 1] == before[i + 1]);
                assert(entry_order(before[i], before[i + 1]) != crate::order::Order::Greater);
            } else if i + 1 == k {
                assert(out@[i] == before[i] && out@[i + 1] == x);
            } else if i == k {
                assert(out@[i] == x && out@[i + 1] == before[i]);
            } else {
                let j = i - 1;
                assert(out@[i] == before[j] && out@[i + 1] == before[j + 1]);
                assert(entry_order(before[j], before[j + 1]) != crate::order::Order::Greater);
            }
        }
    }
}

/// Orders a listing: directories first, then by name; entries that compare
/// equal keep their order.
pub fn sort_workdir_entries(entries: Vec<WorkdirEntry>) -> (r: Vec<WorkdirEntry>)
    ensures
        r@.to_multiset() == entries@.to_multiset(),
        listing_sorted(r@),
{
    let ghost all = entries@;
    let mut rest = entries;
    let mut rev: Vec<WorkdirEntry> = Vec::new();
    while rest.len() > 0
        invariant
            rest@ + rev@.reverse() == all,
        decreases rest.len(),
    {
        let x = rest.pop().unwrap();
        rev.push(x);
        assert(rest@ + rev@.reverse() =~= all);
    }
    assert(rev@.reverse() =~= all);
    let n = rev.len();
    let mut out: Vec<WorkdirEntry> = Vec::new();
    assert(all.take(0) =~= Seq::<WorkdirEntry>::empty());
    while rev.len() > 0
        invariant
            n == all.len(),
            out@.len() + rev@.len() == n,
            forall|k: int| 0 <= k < rev@.len() ==> #[trigger] rev@[k] == all[n - 1 - k],
            out@.to_multiset() == all.take(out@.len() as int).to_multiset(),
            listing_sorted(out@),
        decreases rev.len(),
    {
        let ghost idx = out@.len() as int;
        let x = rev.pop().unwrap();
        assert(x == all[idx]);
        insert_entry(&mut out, x);
        assert(all.take(idx + 1) =~= all.take(idx).push(x));
    }
    assert(all.take(n as int) =~= all);
    out
}

} // verus!
