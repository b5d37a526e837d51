//! A driver over the interface state for tests, and the fixtures they use.
use vstd::prelude::*;

use crate::app::{is_initial, App, AppMessage, message_fits, watched_for};
use crate::geometry::{Rect, TableCursor};
use crate::job::{opt_view, test_job_model, Job};
use crate::job_list::JobList;
use crate::mouse::{MouseKind, MouseStep};
use crate::selection::MouseSelection;
use crate::output_panel::{OutputLayout, OutputPanel, WorkdirEntry, WorkdirEntryKind};
use crate::resource_list::ResourceList;
use crate::resources::PartitionResources;
use crate::sorting::{durations_fit, JobSortField, SortDirection};
use crate::text::owned;
use crate::screen_layout::UiAreas;
use crate::ui::{
    AppExit, CancelConfirmationAction, ConfirmCancelChoice, Dialog, Focus, Key, OutputPanelMode,
    ScrollAnchor, TextInput,
};

verus! {

broadcast use vstd::seq_lib::group_to_multiset_ensures;

/// The job table's sort column, as tests name it.
#[derive(Clone, Copy, PartialEq, Eq, Structural, Debug)]
pub enum TestJobSortField {
    State,
    Partition,
    Id,
    Name,
    User,
    Time,
}

/// The job table's sort direction, as tests name it.
#[derive(Clone, Copy, PartialEq, Eq, Structural, Debug)]
pub enum TestSortDirection {
    Asc,
    Desc,
}

/// The kind of a listed entry, as tests name it.
#[derive(Clone, Copy, PartialEq, Eq, Structural, Debug)]
pub enum TestWorkdirEntryKind {
    Directory,
    File,
    Symlink,
}

/// A listed entry, as tests build it.
#[derive(Clone, Debug)]
pub struct TestWorkdirEntry {
    pub name: String,
    pub path: String,
    pub kind: TestWorkdirEntryKind,
}

/// The output panel's viewport and scrollbars.
#[derive(Clone, Copy, PartialEq, Eq, Structural, Debug)]
pub struct LayoutSnapshot {
    pub viewport: Rect,
    pub show_vertical: bool,
    pub show_horizontal: bool,
}

/// What tests read of the interface state at once.
#[derive(Clone, Debug)]
pub struct AppSnapshot {
    pub focus: Focus,
    pub has_dialog: bool,
    pub selected_job_index: Option<usize>,
    pub active_filter: String,
    pub sort_field: TestJobSortField,
    pub sort_direction: TestSortDirection,
    pub output_mode: OutputPanelMode,
    pub details_visible: bool,
    pub output_anchor: ScrollAnchor,
    pub output_offset: u16,
    pub output_scroll_x: u16,
    pub output_wrap: bool,
    pub workdir_selected: Option<usize>,
    pub workdir_offset: usize,
    pub pending_clipboard_copy: Option<String>,
    pub job_list_area: Rect,
    pub job_details_area: Rect,
    pub job_output_area: Rect,
    pub resource_area: Rect,
}

/// One partition's row, as tests build and read it.
#[derive(Clone, Debug)]
pub struct ResourceSnapshot {
    pub partition: String,
    pub total_nodes: u32,
    pub running_nodes: u32,
    pub group_used_nodes: u32,
    pub available_nodes: u32,
}

impl ResourceSnapshot {
    pub fn from_resources(r: PartitionResources) -> (s: ResourceSnapshot)
        ensures
            s.partition == r.partition,
            s.partition@ == r.partition@,
            s.total_nodes == r.total_nodes,
            s.running_nodes == r.running_nodes,
            s.group_used_nodes == r.group_used_nodes,
            s.available_nodes == r.available_nodes,
    {
        ResourceSnapshot {
            partition: r.partition,
            total_nodes: r.total_nodes,
            running_nodes: r.running_nodes,
            group_used_nodes: r.group_used_nodes,
            available_nodes: r.available_nodes,
        }
    }

    pub fn into_resources(self) -> (r: PartitionResources)
        ensures
            r == snapshot_row(self),
            r.partition@ == self.partition@,
            r.total_nodes == self.total_nodes,
            r.running_nodes == self.running_nodes,
            r.group_used_nodes == self.group_used_nodes,
            r.available_nodes == self.available_nodes,
    {
        PartitionResources {
            partition: self.partition,
            total_nodes: self.total_nodes,
            running_nodes: self.running_nodes,
            group_used_nodes: self.group_used_nodes,
            available_nodes: self.available_nodes,
        }
    }
}

/// The row a snapshot stands for.
pub open spec fn snapshot_row(s: ResourceSnapshot) -> PartitionResources {
    PartitionResources {
        partition: s.partition,
        total_nodes: s.total_nodes,
        running_nodes: s.running_nodes,
        group_used_nodes: s.group_used_nodes,
        available_nodes: s.available_nodes,
    }
}

/// The interface state, driven as the program drives it, without drawing.
pub struct AppDriver {
    pub app: App,
}

/// The sample jobs `0..count`.
fn test_jobs(count: usize) -> (r: Vec<Job>)
    requires
        count + 1000 <= u64::MAX,
    ensures
        r@.len() == count,
        forall|i: int| 0 <= i < count ==> (#[trigger] r@[i])@ == test_job_model(i as nat),
{
    let mut jobs: Vec<Job> = Vec::new();
    let mut i: usize = 0;
    while i < count
        invariant
            i <= count,
            count + 1000 <= u64::MAX,
            jobs@.len() == i,
            forall|k: int| 0 <= k < i ==> (#[trigger] jobs@[k])@ == test_job_model(k as nat),
        decreases count - i,
    {
        jobs.push(crate::job::test_job(i));
        i = i + 1;
    }
    jobs
}


impl AppDriver {
    /// A state holding the sample jobs `0..job_count`, with `selected`.
    pub fn new(job_count: usize, selected: Option<usize>) -> (r: AppDriver)
        requires
            job_count + 1000 <= u64::MAX,
        ensures
            is_initial(r.app, selected),
            r.app.jobs.jobs@.len() == job_count,
            forall|i: int| 0 <= i < job_count ==> (#[trigger] r.app.jobs.jobs@[i])@ == test_job_model(i as nat),
    {
        AppDriver::with_jobs(test_jobs(job_count), selected)
    }

    /// A state holding `jobs`, in that order, with `selected`.
    pub fn with_jobs(jobs: Vec<Job>, selected: Option<usize>) -> (r: AppDriver)
        ensures
            is_initial(r.app, selected),
            r.app.jobs.jobs@ == jobs@,
    {
        AppDriver { app: App::starting(jobs, selected) }
    }

    /// Takes a message. The driver reads no directory: a listing it is
    /// asked for counts as one that could not be read.
    pub fn handle(&mut self, message: AppMessage)
        requires
            old(self).app.wf(),
            message_fits(message),
        ensures
            final(self).app.wf(),
            opt_view(final(self).app.watched_path) == watched_for(
                final(self).app.selected_job_view(),
                final(self).app.output.mode,
            ),
    {
        match self.app.handle(message) {
            Some(_) => self.app.finish_workdir_load(None),
            None => {},
        }
    }

    /// A key event: whether the interface closes, and whether it is drawn
    /// again. A listing asked for counts as unreadable, as in `handle`.
    pub fn handle_input_event(&mut self, key: Key) -> (r: (bool, bool))
        requires
            old(self).app.wf(),
        ensures
            final(self).app.wf(),
            old(self).app.dialog is None && key.code == crate::ui::KeyCode::Char('q') ==> r == (true, false),
            old(self).app.dialog is Some ==> final(self).app.pending_exit == old(self).app.pending_exit
                && r.0 == (old(self).app.pending_exit is Some),
            !(old(self).app.dialog is None && key.code == crate::ui::KeyCode::Char('q')) ==> r.0
                == final(self).app.pending_exit is Some && r.1 == final(self).app.pending_exit is None,
            old(self).app.dialog is Some ==> crate::ui::opt_dialog_view(final(self).app.dialog)
                == crate::app::dialog_after_key(old(self).app.dialog->0@, key),
    {
        let outcome = self.app.handle_key_event(key);
        match outcome.load {
            Some(_) => self.app.finish_workdir_load(None),
            None => {},
        }
        (outcome.quit, outcome.draw)
    }

    /// A mouse event, as the program takes it: the step decided from the
    /// selection so far, then the click or the wheel notch it asks for.
    /// Copying the selected text is left to the caller, which holds the
    /// drawn screen.
    pub fn handle_mouse(&mut self, selection: Option<MouseSelection>, kind: MouseKind, column: u16, row: u16) -> (r:
        MouseStep)
        requires
            old(self).app.wf(),
        ensures
            final(self).app.wf(),
            r == old(self).app.spec_mouse_step(selection, kind, column, row),
    {
        let step = self.app.mouse_step(selection, kind, column, row);
        if step.click {
            self.handle(AppMessage::MouseClick { column, row });
        }
        match step.wheel {
            Some((target, direction)) => self.handle(AppMessage::MouseWheel { target, direction, amount: 1 }),
            None => {},
        }
        step
    }

    /// What tests read of the state.
    pub fn snapshot(&self) -> (r: AppSnapshot)
        ensures
            r.focus == self.app.focus,
            r.has_dialog == self.app.dialog is Some,
            r.selected_job_index == self.app.jobs.state.selected,
            r.active_filter@ == self.app.jobs.active_filter@,
            r.output_mode == self.app.output.mode,
            r.details_visible == self.app.details_visible,
            r.output_anchor == self.app.output.anchor,
            r.output_offset == self.app.output.offset,
            r.output_scroll_x == self.app.output.scroll_x,
            r.output_wrap == self.app.output.wrap,
            r.workdir_selected == self.app.output.workdir_selected,
            r.workdir_offset == self.app.output.workdir_offset,
            opt_view(r.pending_clipboard_copy) == opt_view(self.app.pending_clipboard_copy),
            r.job_list_area == self.app.jobs.area,
            r.job_details_area == self.app.details_area,
            r.job_output_area == self.app.output.area,
            r.resource_area == self.app.resources.area,
    {
        AppSnapshot {
            focus: self.app.focus,
            has_dialog: self.app.dialog.is_some(),
            selected_job_index: self.app.jobs.state.selected,
            active_filter: self.app.jobs.active_filter.clone(),
            sort_field: self.sort_field(),
            sort_direction: self.sort_direction(),
            output_mode: self.app.output.mode,
            details_visible: self.app.details_visible,
            output_anchor: self.app.output.anchor,
            output_offset: self.app.output.offset,
            output_scroll_x: self.app.output.scroll_x,
            output_wrap: self.app.output.wrap,
            workdir_selected: self.app.output.workdir_selected,
            workdir_offset: self.app.output.workdir_offset,
            pending_clipboard_copy: match &self.app.pending_clipboard_copy {
                Some(c) => Some(c.clone()),
                None => None,
            },
            job_list_area: self.app.jobs.area,
            job_details_area: self.app.details_area,
            job_output_area: self.app.output.area,
            resource_area: self.app.resources.area,
        }
    }

    pub fn apply_job_filter(&mut self, filter: &str)
        ensures
            crate::job_list::filter_applied(old(self).app.jobs, filter@, final(self).app.jobs),
    {
        self.app.jobs.apply_job_filter(filter);
    }

    pub fn sort_jobs(&mut self)
        requires
            old(self).app.jobs.wf(),
        ensures
            final(self).app.jobs.jobs@.to_multiset() == old(self).app.jobs.jobs@.to_multiset(),
            crate::sorting::sorted_jobs(
                final(self).app.jobs.jobs@,
                old(self).app.jobs.sort_field,
                old(self).app.jobs.sort_direction,
            ),
    {
        self.app.jobs.sort_jobs();
    }

    pub fn scroll_jobs_half_page_up(&mut self)
        ensures
            final(self).app.jobs == (if old(self).app.jobs.visible().len() > 0 {
                old(self).app.jobs.with_state(
                    old(self).app.jobs.state.spec_select(
                        Some(
                            crate::geometry::sat_sub_usize(
                                old(self).app.jobs.state.selected_or_zero(),
                                (old(self).app.jobs.height / 2) as usize,
                            ),
                        ),
                    ),
                )
            } else {
                old(self).app.jobs
            }),
            final(self).app.focus == old(self).app.focus,
    {
        self.app.jobs.scroll_jobs_half_page_up();
    }

    pub fn focus(&self) -> (r: Focus)
        ensures
            r == self.app.focus,
    {
        self.app.focus
    }

    pub fn set_focus(&mut self, focus: Focus)
        ensures
            final(self).app.focus == focus,
    {
        self.app.focus = focus;
    }

    pub fn dialog(&self) -> (r: Option<&Dialog>)
        ensures
            r is Some == self.app.dialog is Some,
    {
        match &self.app.dialog {
            Some(d) => Some(d),
            None => None,
        }
    }

    pub fn set_dialog(&mut self, dialog: Option<Dialog>)
        ensures
            final(self).app.dialog == dialog,
    {
        self.app.dialog = dialog;
    }

    pub fn jobs(&self) -> (r: &Vec<Job>)
        ensures
            *r == self.app.jobs.jobs,
    {
        &self.app.jobs.jobs
    }

    /// Replaces the job at `index`.
    pub fn set_job(&mut self, index: usize, job: Job)
        requires
            index < old(self).app.jobs.jobs@.len(),
        ensures
            final(self).app.jobs.jobs@ == old(self).app.jobs.jobs@.update(index as int, job),
    {
        self.app.jobs.jobs.set(index, job);
    }

    pub fn active_filter(&self) -> (r: &str)
        ensures
            r@ == self.app.jobs.active_filter@,
    {
        self.app.jobs.active_filter.as_str()
    }

    pub fn set_active_filter(&mut self, filter: String)
        ensures
            final(self).app.jobs.active_filter == filter,
    {
        self.app.jobs.active_filter = filter;
    }

    pub fn selected_job_index(&self) -> (r: Option<usize>)
        ensures
            r == self.app.jobs.state.selected,
    {
        self.app.jobs.state.selected
    }

    pub fn job_list_offset(&self) -> (r: usize)
        ensures
            r == self.app.jobs.state.offset,
    {
        self.app.jobs.state.offset
    }

    pub fn selected_job_id(&self) -> (r: Option<String>)
        ensures
            opt_view(r) == self.app.jobs.selected_id(),
    {
        self.app.jobs.selected_job_id()
    }

    pub fn visible_job_ids(&self) -> (r: Vec<String>)
        ensures
            crate::text::string_views(r@) == self.app.jobs.visible_ids(),
    {
        let r = self.app.jobs.visible_job_ids();
        assert(crate::text::string_views(r@) =~= self.app.jobs.visible_ids());
        r
    }

    pub fn job_ids(&self) -> (r: Vec<String>)
        ensures
            r@.len() == self.app.jobs.jobs@.len(),
            forall|i: int|
                0 <= i < r@.len() ==> (#[trigger] r@[i])@ == crate::job::job_id_text(self.app.jobs.jobs@[i]@),
    {
        let mut out: Vec<String> = Vec::new();
        let mut i: usize = 0;
        while i < self.app.jobs.jobs.len()
            invariant
                i <= self.app.jobs.jobs@.len(),
                out@.len() == i,
                forall|k: int|
                    0 <= k < i ==> (#[trigger] out@[k])@ == crate::job::job_id_text(self.app.jobs.jobs@[k]@),
            decreases self.app.jobs.jobs@.len() - i,
        {
            out.push(self.app.jobs.jobs[i].id());
            i = i + 1;
        }
        out
    }

    pub fn sort_field(&self) -> (r: TestJobSortField)
        ensures
            r == test_sort_field(self.app.jobs.sort_field),
    {
        match self.app.jobs.sort_field {
            JobSortField::State => TestJobSortField::State,
            JobSortField::Partition => TestJobSortField::Partition,
            JobSortField::Id => TestJobSortField::Id,
            JobSortField::Name => TestJobSortField::Name,
            JobSortField::User => TestJobSortField::User,
            JobSortField::Time => TestJobSortField::Time,
        }
    }

    pub fn sort_direction(&self) -> (r: TestSortDirection)
        ensures
            r == (if self.app.jobs.sort_direction == SortDirection::Asc {
                TestSortDirection::Asc
            } else {
                TestSortDirection::Desc
            }),
    {
        match self.app.jobs.sort_direction {
            SortDirection::Asc => TestSortDirection::Asc,
            SortDirection::Desc => TestSortDirection::Desc,
        }
    }

    pub fn set_sort(&mut self, field: TestJobSortField, direction: TestSortDirection)
        ensures
            test_sort_field(final(self).app.jobs.sort_field) == field,
            final(self).app.jobs.sort_direction == (if direction == TestSortDirection::Asc {
                SortDirection::Asc
            } else {
                SortDirection::Desc
            }),
    {
        self.app.jobs.sort_field = match field {
            TestJobSortField::State => JobSortField::State,
            TestJobSortField::Partition => JobSortField::Partition,
            TestJobSortField::Id => JobSortField::Id,
            TestJobSortField::Name => JobSortField::Name,
            TestJobSortField::User => JobSortField::User,
            TestJobSortField::Time => JobSortField::Time,
        };
        self.app.jobs.sort_direction = match direction {
            TestSortDirection::Asc => SortDirection::Asc,
            TestSortDirection::Desc => SortDirection::Desc,
        };
    }

    pub fn set_job_output(&mut self, output: String)
        ensures
            final(self).app.output.job_output == Ok::<String, String>(output),
    {
        self.app.output.job_output = Ok(output);
    }

    pub fn output_anchor(&self) -> (r: ScrollAnchor)
        ensures
            r == self.app.output.anchor,
    {
        self.app.output.anchor
    }

    pub fn set_output_anchor(&mut self, anchor: ScrollAnchor)
        ensures
            final(self).app.output.anchor == anchor,
    {
        self.app.output.anchor = anchor;
    }

    pub fn output_offset(&self) -> (r: u16)
        ensures
            r == self.app.output.offset,
    {
        self.app.output.offset
    }

    pub fn set_output_offset(&mut self, offset: u16)
        ensures
            final(self).app.output.offset == offset,
    {
        self.app.output.offset = offset;
    }

    pub fn output_scroll_x(&self) -> (r: u16)
        ensures
            r == self.app.output.scroll_x,
    {
        self.app.output.scroll_x
    }

    pub fn output_wrap(&self) -> (r: bool)
        ensures
            r == self.app.output.wrap,
    {
        self.app.output.wrap
    }

    pub fn set_output_wrap(&mut self, wrap: bool)
        ensures
            final(self).app.output.wrap == wrap,
    {
        self.app.output.wrap = wrap;
    }

    pub fn output_mode(&self) -> (r: OutputPanelMode)
        ensures
            r == self.app.output.mode,
    {
        self.app.output.mode
    }

    pub fn set_output_mode(&mut self, mode: OutputPanelMode)
        ensures
            final(self).app.output.mode == mode,
    {
        self.app.output.mode = mode;
    }

    pub fn details_visible(&self) -> (r: bool)
        ensures
            r == self.app.details_visible,
    {
        self.app.details_visible
    }

    /// Lays the panels out on a screen `width` by `height` cells, as a
    /// draw does before it paints them; none where the screen's shape has
    /// no layout.
    pub fn render(&mut self, width: u16, height: u16) -> (r: Option<UiAreas>)
        requires
            old(self).app.wf(),
        ensures
            final(self).app.wf(),
            crate::screen_layout::laid_out(
                Rect::spec_new(0, 0, width, height),
                old(self).app.output.mode == OutputPanelMode::Collapsed,
                old(self).app.details_visible,
                r,
            ),
            r matches Some(a) ==> final(self).app.jobs.area == a.jobs && final(self).app.resources.area == a.resources,
    {
        let screen = Rect::new(0, 0, width, height);
        let areas = crate::screen_layout::ui_areas(screen, self.app.output.mode.is_collapsed(), self.app.details_visible);
        match areas {
            Some(a) => {
                self.app.record_layout(screen, &a);
            },
            None => {},
        }
        areas
    }

    pub fn layout(&self) -> (r: LayoutSnapshot)
        requires
            self.app.output.wf(),
        ensures
            r.viewport == self.app.output.spec_output_layout().viewport,
            r.show_vertical == self.app.output.spec_output_layout().show_vertical,
            r.show_horizontal == self.app.output.spec_output_layout().show_horizontal,
    {
        let l = self.app.output.output_layout();
        LayoutSnapshot { viewport: l.viewport, show_vertical: l.show_vertical, show_horizontal: l.show_horizontal }
    }

    pub fn max_output_scroll_x(&self) -> (r: u16)
        requires
            self.app.output.wf(),
        ensures
            r == self.app.output.spec_max_scroll_x(),
    {
        self.app.output.max_output_scroll_x()
    }

    pub fn max_output_offset(&self) -> (r: u16)
        requires
            self.app.output.wf(),
        ensures
            r == self.app.output.spec_max_offset(),
    {
        self.app.output.max_job_output_offset()
    }

    pub fn job_list_rows_area(&self) -> (r: Rect)
        ensures
            r == self.app.jobs.spec_rows_area(),
    {
        self.app.jobs.job_list_rows_area()
    }

    pub fn job_list_height(&self) -> (r: u16)
        ensures
            r == self.app.jobs.height,
    {
        self.app.jobs.height
    }

    pub fn job_list_area(&self) -> (r: Rect)
        ensures
            r == self.app.jobs.area,
    {
        self.app.jobs.area
    }

    pub fn job_details_area(&self) -> (r: Rect)
        ensures
            r == self.app.details_area,
    {
        self.app.details_area
    }

    pub fn job_output_area(&self) -> (r: Rect)
        ensures
            r == self.app.output.area,
    {
        self.app.output.area
    }

    pub fn resource_area(&self) -> (r: Rect)
        ensures
            r == self.app.resources.area,
    {
        self.app.resources.area
    }

    pub fn set_resources(&mut self, resources: Vec<ResourceSnapshot>)
        ensures
            final(self).app.resources.resources@.len() == resources@.len(),
    {
        let mut out: Vec<PartitionResources> = Vec::new();
        let mut rest = resources;
        let n = rest.len();
        let mut rev: Vec<ResourceSnapshot> = Vec::new();
        while rest.len() > 0
            invariant
                rest@.len() + rev@.len() == n,
            decreases rest.len(),
        {
            let r = rest.pop().unwrap();
            rev.push(r);
        }
        while rev.len() > 0
            invariant
                out@.len() + rev@.len() == n,
            decreases rev.len(),
        {
            let r = rev.pop().unwrap();
            out.push(r.into_resources());
        }
        self.app.resources.resources = out;
    }

    pub fn set_workdir_entries(&mut self, entries: Vec<TestWorkdirEntry>)
        ensures
            final(self).app.output.workdir_entries@.len() == entries@.len(),
    {
        let mut out: Vec<WorkdirEntry> = Vec::new();
        let mut i: usize = 0;
        while i < entries.len()
            invariant
                i <= entries@.len(),
                out@.len() == i,
            decreases entries@.len() - i,
        {
            let e = &entries[i];
            let kind = match e.kind {
                TestWorkdirEntryKind::Directory => WorkdirEntryKind::Directory,
                TestWorkdirEntryKind::File => WorkdirEntryKind::File,
                TestWorkdirEntryKind::Symlink => WorkdirEntryKind::Symlink,
            };
            out.push(WorkdirEntry { name: e.name.clone(), path: e.path.clone(), kind });
            i = i + 1;
        }
        self.app.output.workdir_entries = out;
    }

    pub fn workdir_entry_count(&self) -> (r: usize)
        ensures
            r == self.app.output.workdir_entries@.len(),
    {
        self.app.output.workdir_entries.len()
    }

    pub fn workdir_selected(&self) -> (r: Option<usize>)
        ensures
            r == self.app.output.workdir_selected,
    {
        self.app.output.workdir_selected
    }

    pub fn set_workdir_selected(&mut self, selected: Option<usize>)
        ensures
            final(self).app.output.workdir_selected == selected,
    {
        self.app.output.workdir_selected = selected;
    }

    pub fn workdir_offset(&self) -> (r: usize)
        ensures
            r == self.app.output.workdir_offset,
    {
        self.app.output.workdir_offset
    }

    pub fn set_workdir_offset(&mut self, offset: usize)
        ensures
            final(self).app.output.workdir_offset == offset,
    {
        self.app.output.workdir_offset = offset;
    }

    pub fn pending_clipboard_copy(&self) -> (r: Option<&str>)
        ensures
            match r {
                Some(s) => self.app.pending_clipboard_copy matches Some(c) && s@ == c@,
                None => self.app.pending_clipboard_copy is None,
            },
    {
        match &self.app.pending_clipboard_copy {
            Some(c) => Some(c.as_str()),
            None => None,
        }
    }

    pub fn pending_exit(&self) -> (r: Option<&AppExit>)
        ensures
            match r {
                Some(e) => self.app.pending_exit == Some(*e),
                None => self.app.pending_exit is None,
            },
    {
        match &self.app.pending_exit {
            Some(e) => Some(e),
            None => None,
        }
    }

    pub fn derive_workdir_path(job: &Job) -> (r: Option<String>)
        ensures
            opt_view(r) == crate::ui::workdir_of(job@),
    {
        crate::ui::derive_workdir_path(job)
    }
}

pub open spec fn test_sort_field(f: JobSortField) -> TestJobSortField {
    match f {
        JobSortField::State => TestJobSortField::State,
        JobSortField::Partition => TestJobSortField::Partition,
        JobSortField::Id => TestJobSortField::Id,
        JobSortField::Name => TestJobSortField::Name,
        JobSortField::User => TestJobSortField::User,
        JobSortField::Time => TestJobSortField::Time,
    }
}

/// A sample job: identifiers `1000 + index`, running, named `job-{index}`.
pub fn test_job(index: usize) -> (r: Job)
    requires
        index + 1000 <= u64::MAX,
    ensures
        r@ == test_job_model(index as nat),
{
    crate::job::test_job(index)
}

/// The time limit an edit field holds, if any.
pub fn validate_time_limit(input: &TextInput) -> (r: Option<String>)
    ensures
        opt_view(r) == crate::ui::time_limit_of(input.value@),
{
    let r = crate::ui::validated_time_limit(input);
    r
}

/// A text cut into display chunks.
pub fn chunk_string(value: &str, first: usize, chunk: usize) -> (r: Vec<String>)
    ensures
        crate::text::string_views(r@) == crate::layout_text::chunked(value@, first as int, chunk as int),
{
    crate::layout_text::chunked_string(value, first, chunk)
}

/// The file the output panel follows for a job in a mode.
pub fn watched_path(job: &Job, mode: OutputPanelMode) -> (r: Option<String>)
    ensures
        opt_view(r) == crate::ui::watched_output(job@, mode),
{
    crate::ui::watched_output_path(job, mode)
}

/// What a key does in the cancel confirmation.
pub fn cancellation_action(key: Key, selected: ConfirmCancelChoice) -> (r: CancelConfirmationAction)
    ensures
        r == crate::ui::cancel_action_of(key.code, selected),
{
    crate::ui::cancel_confirmation_action(key, selected)
}

/// The thumb of a vertical scrollbar.
pub fn vertical_scrollbar_thumb() -> (r: &'static str)
    ensures
        r@ == "\u{2503}"@,
{
    "\u{2503}"
}

/// The thumb of the output's horizontal scrollbar.
pub fn horizontal_scrollbar_thumb() -> (r: &'static str)
    ensures
        r@ == "\u{2501}"@,
{
    "\u{2501}"
}

/// Parses `sacct --parsable2` output.
pub fn parse_sacct_jobs(value: &str) -> (r: Vec<Job>)
    ensures
        crate::job::job_views(r@) == crate::sacct::parse_sacct_lines(crate::split::lines(value@)),
{
    crate::sacct::parse_sacct_jobs(value)
}

/// Keeps every active job and the finished jobs of `user`.
pub fn filter_group_jobs(jobs: Vec<Job>, user: &str) -> (r: Vec<Job>)
    ensures
        crate::job::job_views(r@) == crate::sacct::group_jobs(crate::job::job_views(jobs@), user@),
{
    crate::sacct::filter_group_jobs(jobs, user)
}

fn snapshots(rows: Vec<PartitionResources>) -> (r: Vec<ResourceSnapshot>)
    ensures
        r@.len() == rows@.len(),
        r@.map_values(|s: ResourceSnapshot| snapshot_row(s)) == rows@,
        forall|i: int|
            0 <= i < r@.len() ==> {
                &&& (#[trigger] r@[i]).partition@ == rows@[i].partition@
                &&& r@[i].total_nodes == rows@[i].total_nodes
                &&& r@[i].running_nodes == rows@[i].running_nodes
                &&& r@[i].group_used_nodes == rows@[i].group_used_nodes
                &&& r@[i].available_nodes == rows@[i].available_nodes
            },
{
    let ghost all = rows@;
    let mut rest = rows;
    let mut rev: Vec<PartitionResources> = Vec::new();
    while rest.len() > 0
        invariant
            rest@ + rev@.reverse() == all,
        decreases rest.len(),
    {
        let x = rest.pop().unwrap();
        rev.push(x);
        assert(rest@ + rev@.reverse() =~= all);
    }
    assert(rev@.reverse() =~= all);
    let n = rev.len();
    let mut out: Vec<ResourceSnapshot> = Vec::new();
    while rev.len() > 0
        invariant
            n == all.len(),
            out@.len() + rev@.len() == n,
            forall|k: int| 0 <= k < rev@.len() ==> #[trigger] rev@[k] == all[n - 1 - k],
            forall|i: int| 0 <= i < out@.len() ==> snapshot_row(#[trigger] out@[i]) == all[i],
            forall|i: int|
                0 <= i < out@.len() ==> {
                    &&& (#[trigger] out@[i]).partition@ == all[i].partition@
                    &&& out@[i].total_nodes == all[i].total_nodes
                    &&& out@[i].running_nodes == all[i].running_nodes
                    &&& out@[i].group_used_nodes == all[i].group_used_nodes
                    &&& out@[i].available_nodes == all[i].available_nodes
                },
        decreases rev.len(),
    {
        let x = rev.pop().unwrap();
        assert(x == all[out@.len() as int]);
        out.push(ResourceSnapshot::from_resources(x));
    }
    assert(out@.map_values(|s: ResourceSnapshot| snapshot_row(s)) =~= all);
    out
}

/// Parses `sinfo -o '%P %t %D' --noheader` output into rows.
pub fn parse_sinfo_text(value: &str) -> (r: Vec<ResourceSnapshot>)
    requires
        crate::resources::tally_fits(crate::resources::sinfo_tally(crate::split::lines(value@))),
    ensures
        exists|rows: Seq<PartitionResources>|
            {
                &&& crate::resources::rows_match_tally(
                    rows,
                    crate::resources::sinfo_tally(crate::split::lines(value@)),
                )
                &&& rows.len() == r@.len()
                &&& forall|i: int|
                    0 <= i < r@.len() ==> (#[trigger] r@[i]).partition@ == rows[i].partition@
                        && r@[i].total_nodes == rows[i].total_nodes && r@[i].running_nodes
                        == rows[i].running_nodes && r@[i].group_used_nodes == rows[i].group_used_nodes
                        && r@[i].available_nodes == rows[i].available_nodes
            },
{
    let rows = crate::resources::parse_sinfo_plain(value);
    let ghost rv = rows@;
    let r = snapshots(rows);
    assert(crate::resources::rows_match_tally(rv, crate::resources::sinfo_tally(crate::split::lines(value@))));
    r
}

/// Orders rows for display: more nodes first, then more available nodes,
/// then by name.
pub fn sort_resource_snapshots(resources: Vec<ResourceSnapshot>) -> (r: Vec<ResourceSnapshot>)
    ensures
        r@.map_values(|s: ResourceSnapshot| snapshot_row(s)).to_multiset()
            == resources@.map_values(|s: ResourceSnapshot| snapshot_row(s)).to_multiset(),
        crate::resources::sorted_for_display(r@.map_values(|s: ResourceSnapshot| snapshot_row(s))),
{
    let ghost all = resources@;
    let mut rows: Vec<PartitionResources> = Vec::new();
    let mut rest = resources;
    let n = rest.len();
    let mut rev: Vec<ResourceSnapshot> = Vec::new();
    while rest.len() > 0
        invariant
            rest@ + rev@.reverse() == all,
        decreases rest.len(),
    {
        let x = rest.pop().unwrap();
        rev.push(x);
        assert(rest@ + rev@.reverse() =~= all);
    }
    assert(rev@.reverse() =~= all);
    while rev.len() > 0
        invariant
            n == all.len(),
            rows@.len() + rev@.len() == n,
            forall|k: int| 0 <= k < rev@.len() ==> #[trigger] rev@[k] == all[n - 1 - k],
            forall|i: int| 0 <= i < rows@.len() ==> #[trigger] rows@[i] == snapshot_row(all[i]),
        decreases rev.len(),
    {
        let x = rev.pop().unwrap();
        assert(x == all[rows@.len() as int]);
        rows.push(x.into_resources());
    }
    let ghost rows_view = rows@;
    assert(rows_view =~= all.map_values(|s: ResourceSnapshot| snapshot_row(s)));
    let sorted = crate::resources::sort_resources(rows);
    snapshots(sorted)
}

/// Sums `partition|count` lines per partition.
pub fn parse_group_usage_text(value: &str) -> (r: Vec<(String, u32)>)
    requires
        crate::resources::usage_fits(crate::resources::usage_tally(crate::split::lines(value@))),
    ensures
        crate::resources::usage_matches(r@, crate::resources::usage_tally(crate::split::lines(value@))),
{
    crate::resources::parse_group_usage(value)
}

} // verus!
