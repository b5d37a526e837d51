//! The state of the interface and how it answers keys, clicks and updates.
//!
//! The state holds no outside resource: drawing, reading directories,
//! running Slurm commands and writing to the clipboard happen around it.
//! Where a message calls for such work, the state says so through its
//! pending fields (or the directory that [`App::handle`] returns) and takes
//! the outcome through [`App::finish_workdir_load`] and
//! [`App::command_failed`].
use vstd::prelude::*;

use crate::geometry::{in_rect, Rect, TableCursor};
use crate::sorting::{JobSortField, SortDirection};
use crate::job::{opt_view, Job, JobModel};
use crate::job_list::{filter_applied, sort_updated, JobList};
use crate::keymap::{main_key_action, spec_main_key_action, MainKeyAction};
use crate::ui::{
    cancel_action_of, cancel_confirmation_action, copy_action_of, copy_job_output_directory_action,
    field_after_key, time_limit_of, validated_time_limit, CancelConfirmationAction,
    CopyJobOutputDirectoryAction, DialogModel, Key, KeyCode, TextInput,
};
use crate::output_panel::{OutputPanel, WorkdirEntry, WorkdirEntryKind};
use crate::ui::ScrollAnchor;
use crate::paths::{parent_chars, parent_of};
use crate::resource_list::ResourceList;
use crate::resources::PartitionResources;
use crate::text::{chars_of, concat_string, extend_chars, owned, string_of, trim, trim_str};
use crate::ui::{
    copy_job_output_directory_value, copy_values, derive_workdir_path, output_directory,
    output_directory_for_mode, preferred_output, preferred_output_path, workdir_of, AppExit,
    ConfirmCancelChoice, Dialog, ExitModel, Focus, OutputPanelMode, watched_output, watched_output_path,
};
use crate::output_panel::{is_file_mode, reload_needed, same_but_listing};

verus! {

/// A Slurm command that a dialog asks for.
pub enum SlurmCommand {
    /// `scancel`, with a signal where one is given.
    Cancel { id: String, signal: Option<String> },
    /// `scontrol update` of the time limit.
    UpdateTimeLimit { id: String, time_limit: String },
    /// `scontrol update` of the job name.
    UpdateJobName { id: String, name: String },
}

impl SlurmCommand {
    /// The command line that carries out the request: `scancel` with the
    /// signal option where a signal is given, or `scontrol update` with the
    /// job and the new value.
    pub open spec fn spec_argv(self) -> Seq<Seq<char>> {
        match self {
            SlurmCommand::Cancel { id, signal } => seq!["scancel"@] + (match signal {
                Some(s) => seq!["--signal="@ + s@],
                None => Seq::<Seq<char>>::empty(),
            }) + seq![id@],
            SlurmCommand::UpdateTimeLimit { id, time_limit } => seq![
                "scontrol"@,
                "update"@,
                "JobId="@ + id@,
                "TimeLimit="@ + time_limit@,
            ],
            SlurmCommand::UpdateJobName { id, name } => seq![
                "scontrol"@,
                "update"@,
                "JobId="@ + id@,
                "JobName="@ + name@,
            ],
        }
    }

    /// The program and its arguments.
    pub fn argv(&self) -> (r: Vec<String>)
        ensures
            crate::text::string_views(r@) == self.spec_argv(),
    {
        let mut v: Vec<String> = Vec::new();
        match self {
            SlurmCommand::Cancel { id, signal } => {
                v.push(owned("scancel"));
                match signal {
                    Some(sig) => {
                        let p = chars_of("--signal=");
                        let sc = chars_of(sig.as_str());
                        v.push(concat_string(p.as_slice(), sc.as_slice()));
                    },
                    None => {},
                }
                v.push(id.clone());
            },
            SlurmCommand::UpdateTimeLimit { id, time_limit } => {
                v.push(owned("scontrol"));
                v.push(owned("update"));
                let p = chars_of("JobId=");
                let ic = chars_of(id.as_str());
                v.push(concat_string(p.as_slice(), ic.as_slice()));
                let q = chars_of("TimeLimit=");
                let tc = chars_of(time_limit.as_str());
                v.push(concat_string(q.as_slice(), tc.as_slice()));
            },
            SlurmCommand::UpdateJobName { id, name } => {
                v.push(owned("scontrol"));
                v.push(owned("update"));
                let p = chars_of("JobId=");
                let ic = chars_of(id.as_str());
                v.push(concat_string(p.as_slice(), ic.as_slice()));
                let q = chars_of("JobName=");
                let nc = chars_of(name.as_str());
                v.push(concat_string(q.as_slice(), nc.as_slice()));
            },
        }
        assert(crate::text::string_views(v@) =~= self.spec_argv());
        v
    }
}

/// The state of the interface.
pub struct App {
    pub focus: Focus,
    pub dialog: Option<Dialog>,
    pub jobs: JobList,
    pub output: OutputPanel,
    pub resources: ResourceList,
    pub details_visible: bool,
    /// Where the details box was last drawn; empty when hidden.
    pub details_area: Rect,
    /// Text to put on the clipboard.
    pub pending_clipboard_copy: Option<String>,
    /// What to do once the interface closes.
    pub pending_exit: Option<AppExit>,
    /// A command to run; a failure comes back through `command_failed`.
    pub pending_command: Option<SlurmCommand>,
    /// The mouse selection's text is to go to the clipboard.
    pub pending_selection_copy: bool,
    /// The file whose changes the output panel follows.
    pub watched_path: Option<String>,
}

pub open spec fn opt_exit_view(e: Option<AppExit>) -> Option<ExitModel> {
    match e {
        Some(x) => Some(x@),
        None => None,
    }
}

/// The state the program starts in, with the given jobs: the jobs focused
/// and sorted by time, ascending, the working directory shown, the details
/// box visible, nothing drawn yet.
pub open spec fn is_initial(app: App, selected: Option<usize>) -> bool {
    &&& app.focus == Focus::Jobs
    &&& app.dialog is None
    &&& app.jobs.active_filter@.len() == 0
    &&& app.jobs.state == (TableCursor { offset: 0, selected })
    &&& app.jobs.sort_field == JobSortField::Time
    &&& app.jobs.sort_direction == SortDirection::Asc
    &&& app.jobs.area == Rect::spec_zero()
    &&& app.jobs.height == 0
    &&& app.output.mode == OutputPanelMode::Workdir
    &&& !app.output.can_expand
    &&& app.output.job_output matches Ok(s) && s@.len() == 0
    &&& app.output.anchor == ScrollAnchor::Bottom
    &&& app.output.offset == 0
    &&& app.output.scroll_x == 0
    &&& !app.output.wrap
    &&& app.output.area == Rect::spec_zero()
    &&& app.output.workdir_path is None
    &&& app.output.workdir_entries@.len() == 0
    &&& app.output.workdir_error is None
    &&& app.output.workdir_selected is None
    &&& app.output.workdir_offset == 0
    &&& app.resources.resources@.len() == 0
    &&& app.resources.state == TableCursor::spec_new()
    &&& app.resources.area == Rect::spec_zero()
    &&& app.resources.height == 0
    &&& app.details_visible
    &&& app.details_area == Rect::spec_zero()
    &&& app.pending_clipboard_copy is None
    &&& app.pending_exit is None
    &&& app.pending_command is None
    &&& !app.pending_selection_copy
    &&& app.watched_path is None
}

impl App {
    /// The interface as it starts, holding `jobs` in that order with
    /// `selected` selected.
    pub fn starting(jobs: Vec<Job>, selected: Option<usize>) -> (r: App)
        ensures
            is_initial(r, selected),
            r.jobs.jobs@ == jobs@,
    {
        App {
            focus: Focus::Jobs,
            dialog: None,
            jobs: JobList {
                jobs,
                active_filter: String::new(),
                state: TableCursor { offset: 0, selected },
                sort_field: JobSortField::Time,
                sort_direction: SortDirection::Asc,
                area: Rect::zero(),
                height: 0,
            },
            output: OutputPanel {
                mode: OutputPanelMode::default_mode(),
                can_expand: false,
                job_output: Ok(String::new()),
                anchor: ScrollAnchor::Bottom,
                offset: 0,
                scroll_x: 0,
                wrap: false,
                area: Rect::zero(),
                workdir_path: None,
                workdir_entries: Vec::new(),
                workdir_error: None,
                workdir_selected: None,
                workdir_offset: 0,
            },
            resources: ResourceList {
                resources: Vec::new(),
                state: TableCursor::new(),
                area: Rect::zero(),
                height: 0,
            },
            details_visible: true,
            details_area: Rect::zero(),
            pending_clipboard_copy: None,
            pending_exit: None,
            pending_command: None,
            pending_selection_copy: false,
            watched_path: None,
        }
    }

    /// The interface as the program starts it: no jobs yet, nothing
    /// selected.
    pub fn new() -> (r: App)
        ensures
            is_initial(r, None),
            r.jobs.jobs@.len() == 0,
            r.wf(),
    {
        let r = App::starting(Vec::new(), None);
        proof {
            assert(r.jobs.jobs@ =~= Seq::<Job>::empty());
        }
        r
    }
}

impl App {
    pub open spec fn wf(self) -> bool {
        self.jobs.wf() && self.output.wf()
    }

    /// The selected job's view.
    pub open spec fn selected_job_view(self) -> Option<JobModel> {
        match self.jobs.selected_position() {
            Some(p) => Some(self.jobs.jobs@[p]@),
            None => None,
        }
    }

    /// The panel that gets the focus after the jobs, going forwards: the
    /// output where it is shown, else the resources.
    pub open spec fn spec_next_focus(self) -> Focus {
        let output_shown = self.output.can_expand && self.output.mode != OutputPanelMode::Collapsed;
        match self.focus {
            Focus::Resources => Focus::Jobs,
            Focus::Jobs | Focus::Details => if output_shown {
                Focus::Log
            } else {
                Focus::Resources
            },
            Focus::Log => Focus::Resources,
        }
    }

    pub open spec fn spec_previous_focus(self) -> Focus {
        let output_shown = self.output.can_expand && self.output.mode != OutputPanelMode::Collapsed;
        match self.focus {
            Focus::Resources => if output_shown {
                Focus::Log
            } else {
                Focus::Jobs
            },
            Focus::Jobs | Focus::Details => Focus::Resources,
            Focus::Log => Focus::Jobs,
        }
    }

    /// A panel that gets the focus with nothing selected selects its first
    /// row, where it has one.
    pub open spec fn focused_resources(self, focus: Focus) -> ResourceList {
        if focus == Focus::Resources && self.resources.state.selected is None
            && self.resources.resources@.len() > 0 {
            self.resources.with_state(self.resources.state.spec_select(Some(0)))
        } else {
            self.resources
        }
    }

    pub open spec fn focused_jobs(self, focus: Focus) -> JobList {
        if focus == Focus::Jobs && self.jobs.state.selected is None && self.jobs.visible().len() > 0 {
            self.jobs.with_state(self.jobs.state.spec_select(Some(0)))
        } else {
            self.jobs
        }
    }

    fn ensure_focused_selection(&mut self)
        ensures
            final(self).resources == old(self).focused_resources(old(self).focus),
            final(self).jobs == old(self).focused_jobs(old(self).focus),
            final(self).focus == old(self).focus,
            final(self).output == old(self).output,
            final(self).dialog == old(self).dialog,
            final(self).details_visible == old(self).details_visible,
            final(self).details_area == old(self).details_area,
            final(self).pending_clipboard_copy == old(self).pending_clipboard_copy,
            final(self).pending_exit == old(self).pending_exit,
            final(self).pending_command == old(self).pending_command,
            final(self).pending_selection_copy == old(self).pending_selection_copy,
            final(self).watched_path == old(self).watched_path,
    {
        match self.focus {
            Focus::Resources => {
                if self.resources.state.selected.is_none() && self.resources.resources.len() > 0 {
                    self.resources.state.select(Some(0));
                }
            },
            Focus::Jobs => {
                if self.jobs.state.selected.is_none() && self.jobs.has_visible_jobs() {
                    self.jobs.state.select(Some(0));
                }
            },
            _ => {},
        }
    }

    /// Moves the focus to the next panel.
    pub fn focus_next_panel(&mut self)
        ensures
            final(self).focus == old(self).spec_next_focus(),
            final(self).resources == old(self).focused_resources(old(self).spec_next_focus()),
            final(self).jobs == old(self).focused_jobs(old(self).spec_next_focus()),
            final(self).output == old(self).output,
            final(self).dialog == old(self).dialog,
            final(self).details_visible == old(self).details_visible,
            final(self).pending_exit == old(self).pending_exit,
            final(self).pending_clipboard_copy == old(self).pending_clipboard_copy,
            final(self).pending_command == old(self).pending_command,
            final(self).pending_selection_copy == old(self).pending_selection_copy,
            final(self).watched_path == old(self).watched_path,
            final(self).details_area == old(self).details_area,
    {
        let output_shown = self.output.can_expand && !self.output.mode.is_collapsed();
        self.focus = match self.focus {
            Focus::Resources => Focus::Jobs,
            Focus::Jobs | Focus::Details => if output_shown {
                Focus::Log
            } else {
                Focus::Resources
            },
            Focus::Log => Focus::Resources,
        };
        self.ensure_focused_selection();
    }

    /// Moves the focus to the previous panel.
    pub fn focus_previous_panel(&mut self)
        ensures
            final(self).focus == old(self).spec_previous_focus(),
            final(self).resources == old(self).focused_resources(old(self).spec_previous_focus()),
            final(self).jobs == old(self).focused_jobs(old(self).spec_previous_focus()),
            final(self).output == old(self).output,
            final(self).dialog == old(self).dialog,
            final(self).details_visible == old(self).details_visible,
            final(self).pending_exit == old(self).pending_exit,
            final(self).pending_clipboard_copy == old(self).pending_clipboard_copy,
            final(self).pending_command == old(self).pending_command,
            final(self).pending_selection_copy == old(self).pending_selection_copy,
            final(self).watched_path == old(self).watched_path,
            final(self).details_area == old(self).details_area,
    {
        let output_shown = self.output.can_expand && !self.output.mode.is_collapsed();
        self.focus = match self.focus {
            Focus::Resources => if output_shown {
                Focus::Log
            } else {
                Focus::Jobs
            },
            Focus::Jobs | Focus::Details => Focus::Resources,
            Focus::Log => Focus::Jobs,
        };
        self.ensure_focused_selection();
    }

    /// Shows the next output mode, where the screen has room for the
    /// panel; a focused panel that gets hidden hands the focus to the jobs.
    pub fn cycle_output_panel_mode(&mut self)
        ensures
            final(self).output.mode == (if old(self).output.can_expand {
                old(self).output.mode.spec_next()
            } else {
                old(self).output.mode
            }),
            final(self).focus == (if old(self).output.can_expand && final(self).output.mode
                == OutputPanelMode::Collapsed && old(self).focus == Focus::Log {
                Focus::Jobs
            } else {
                old(self).focus
            }),
            final(self).output == (OutputPanel { mode: final(self).output.mode, ..old(self).output }),
            final(self).jobs == old(self).jobs,
            final(self).resources == old(self).resources,
            final(self).dialog == old(self).dialog,
            final(self).details_visible == old(self).details_visible,
            final(self).pending_exit == old(self).pending_exit,
            final(self).pending_clipboard_copy == old(self).pending_clipboard_copy,
            final(self).pending_command == old(self).pending_command,
            final(self).pending_selection_copy == old(self).pending_selection_copy,
            final(self).watched_path == old(self).watched_path,
            final(self).details_area == old(self).details_area,
    {
        if !self.output.can_expand {
            return;
        }
        self.output.mode = self.output.mode.next();
        if self.output.mode.is_collapsed() && self.focus == Focus::Log {
            self.focus = Focus::Jobs;
        }
    }

    /// The selected job.
    pub fn selected_job(&self) -> (r: Option<&Job>)
        ensures
            match r {
                Some(j) => self.selected_job_view() == Some(j@),
                None => self.selected_job_view() is None,
            },
    {
        self.jobs.selected_job()
    }

    /// What Enter leaves the interface to do: open the shown output file in
    /// an editor; in workdir mode, change to the selected directory (or the
    /// directory of the selected file), else to the listed directory; with
    /// the panel collapsed, change to the selected job's directory.
    pub open spec fn spec_enter_action(self) -> Option<ExitModel> {
        match self.output.mode {
            OutputPanelMode::Stdout => match self.selected_job_view() {
                Some(j) => match j.stdout {
                    Some(s) => Some(ExitModel::OpenEditor(s)),
                    None => None,
                },
                None => None,
            },
            OutputPanelMode::Stderr => match self.selected_job_view() {
                Some(j) => match j.stderr {
                    Some(s) => Some(ExitModel::OpenEditor(s)),
                    None => None,
                },
                None => None,
            },
            OutputPanelMode::Workdir => {
                let es = self.output.workdir_entries@;
                let from_entry = match self.output.workdir_selected {
                    Some(i) => if i < es.len() {
                        let e = es[i as int];
                        Some(
                            ExitModel::ChangeDirectory(
                                if e.kind == WorkdirEntryKind::Directory {
                                    e.path@
                                } else {
                                    match parent_of(e.path@) {
                                        Some(q) => q,
                                        None => e.path@,
                                    }
                                },
                            ),
                        )
                    } else {
                        None
                    },
                    None => None,
                };
                match from_entry {
                    Some(x) => Some(x),
                    None => match opt_view(self.output.workdir_path) {
                        Some(w) => Some(ExitModel::ChangeDirectory(w)),
                        None => None,
                    },
                }
            },
            OutputPanelMode::Collapsed => match self.selected_job_view() {
                Some(j) => match workdir_of(j) {
                    Some(w) => Some(ExitModel::ChangeDirectory(w)),
                    None => None,
                },
                None => None,
            },
        }
    }

    pub fn enter_action(&self) -> (r: Option<AppExit>)
        ensures
            opt_exit_view(r) == self.spec_enter_action(),
    {
        match self.output.mode {
            OutputPanelMode::Stdout => match self.selected_job() {
                Some(j) => match &j.stdout {
                    Some(s) => Some(AppExit::OpenEditor(s.clone())),
                    None => None,
                },
                None => None,
            },
            OutputPanelMode::Stderr => match self.selected_job() {
                Some(j) => match &j.stderr {
                    Some(s) => Some(AppExit::OpenEditor(s.clone())),
                    None => None,
                },
                None => None,
            },
            OutputPanelMode::Workdir => {
                let from_entry = match self.output.workdir_selected {
                    Some(i) => if i < self.output.workdir_entries.len() {
                        let e = &self.output.workdir_entries[i];
                        if e.kind == WorkdirEntryKind::Directory {
                            Some(AppExit::ChangeDirectory(e.path.clone()))
                        } else {
                            let pv = chars_of(e.path.as_str());
                            match parent_chars(pv.as_slice()) {
                                Some(q) => Some(AppExit::ChangeDirectory(string_of(q.as_slice()))),
                                None => Some(AppExit::ChangeDirectory(e.path.clone())),
                            }
                        }
                    } else {
                        None
                    },
                    None => None,
                };
                match from_entry {
                    Some(x) => Some(x),
                    None => match &self.output.workdir_path {
                        Some(w) => Some(AppExit::ChangeDirectory(w.clone())),
                        None => None,
                    },
                }
            },
            OutputPanelMode::Collapsed => match self.selected_job() {
                Some(j) => match derive_workdir_path(j) {
                    Some(w) => Some(AppExit::ChangeDirectory(w)),
                    None => None,
                },
                None => None,
            },
        }
    }
}

/// Where a job writes: the directory of its stdout (else stderr), where
/// that has a non-empty name.
pub open spec fn cancel_location(j: JobModel) -> Option<Seq<char>> {
    match preferred_output(j, OutputPanelMode::Stdout) {
        Some(p) => match parent_of(p) {
            Some(q) => if q.len() > 0 {
                Some(q)
            } else {
                None
            },
            None => None,
        },
        None => None,
    }
}

/// The lines the cancel confirmation shows about a job: where it writes (or
/// its command), then its user and partition joined by a bullet.
pub open spec fn cancel_details(j: JobModel) -> Seq<Seq<char>> {
    let first = match cancel_location(j) {
        Some(l) => seq![l],
        None => if trim(j.command).len() > 0 {
            seq![j.command]
        } else {
            Seq::<Seq<char>>::empty()
        },
    };
    let has_user = trim(j.user).len() > 0;
    let has_partition = trim(j.partition).len() > 0;
    if has_user || has_partition {
        first.push(
            (if has_user {
                j.user
            } else {
                Seq::<char>::empty()
            }) + (if has_user && has_partition {
                " \u{2022} "@
            } else {
                Seq::<char>::empty()
            }) + (if has_partition {
                j.partition
            } else {
                Seq::<char>::empty()
            }),
        )
    } else {
        first
    }
}

pub fn selected_job_cancel_details(job: &Job) -> (r: Vec<String>)
    ensures
        crate::text::string_views(r@) == cancel_details(job@),
{
    let mut details: Vec<String> = Vec::new();
    let location = match preferred_output_path(job, OutputPanelMode::Stdout) {
        Some(p) => match parent_chars(chars_of(p.as_str()).as_slice()) {
            Some(q) => if q.len() > 0 {
                Some(q)
            } else {
                None
            },
            None => None,
        },
        None => None,
    };
    match location {
        Some(l) => {
            details.push(string_of(l.as_slice()));
        },
        None => {
            if trim_str(job.command.as_str()).len() > 0 {
                details.push(job.command.clone());
            }
        },
    }
    let has_user = trim_str(job.user.as_str()).len() > 0;
    let has_partition = trim_str(job.partition.as_str()).len() > 0;
    if has_user || has_partition {
        let mut v: Vec<char> = Vec::new();
        if has_user {
            let u = chars_of(job.user.as_str());
            extend_chars(&mut v, u.as_slice());
        }
        if has_user && has_partition {
            let b = chars_of(" \u{2022} ");
            extend_chars(&mut v, b.as_slice());
        }
        if has_partition {
            let q = chars_of(job.partition.as_str());
            extend_chars(&mut v, q.as_slice());
        }
        details.push(string_of(v.as_slice()));
    }
    proof {
        assert(crate::text::string_views(details@) =~= cancel_details(job@));
    }
    details
}

impl App {
    /// The cancel confirmation for the selected job, with "No" selected.
    pub fn cancel_confirmation_dialog(&self) -> (r: Option<Dialog>)
        ensures
            crate::ui::opt_dialog_view(r) == (match self.selected_job_view() {
                Some(j) => Some(
                    crate::ui::DialogModel::ConfirmCancelJob {
                        id: crate::job::job_id_text(j),
                        name: j.name,
                        details: cancel_details(j),
                        signal: None,
                        selected: ConfirmCancelChoice::No,
                    },
                ),
                None => None,
            }),
    {
        match self.selected_job() {
            Some(job) => Some(
                Dialog::ConfirmCancelJob {
                    id: job.id(),
                    name: job.name.clone(),
                    details: selected_job_cancel_details(job),
                    signal: None,
                    selected: ConfirmCancelChoice::No,
                },
            ),
            None => None,
        }
    }

    /// The copy dialog for the directory the selected job's output is in.
    pub fn copy_job_output_directory_dialog(&self) -> (r: Option<Dialog>)
        ensures
            crate::ui::opt_dialog_view(r) == (match self.selected_job_view() {
                Some(j) => match output_directory(j, self.output.mode) {
                    Some(d) => match copy_values(d) {
                        Some(v) => Some(crate::ui::DialogModel::CopyJobOutputDirectory { dir_url: v.0, dir_name: v.1 }),
                        None => None,
                    },
                    None => None,
                },
                None => None,
            }),
    {
        match self.selected_job() {
            Some(job) => match output_directory_for_mode(job, self.output.mode) {
                Some(d) => match copy_job_output_directory_value(d.as_str()) {
                    Some((dir_url, dir_name)) => Some(Dialog::CopyJobOutputDirectory { dir_url, dir_name }),
                    None => None,
                },
                None => None,
            },
            None => None,
        }
    }
}


impl App {
    /// The focus after an action.
    pub open spec fn focus_after(self, a: MainKeyAction) -> Focus {
        match a {
            MainKeyAction::FocusPrevious => self.spec_previous_focus(),
            MainKeyAction::FocusNext => self.spec_next_focus(),
            MainKeyAction::CycleOutput => if self.output.can_expand && self.output.mode.spec_next()
                == OutputPanelMode::Collapsed && self.focus == Focus::Log {
                Focus::Jobs
            } else {
                self.focus
            },
            _ => self.focus,
        }
    }

    /// The job list after an action, where it does not sort.
    pub open spec fn jobs_after(self, a: MainKeyAction) -> JobList {
        let vis = self.jobs.visible().len() > 0;
        let js = self.jobs;
        match a {
            MainKeyAction::FocusPrevious => self.focused_jobs(self.spec_previous_focus()),
            MainKeyAction::FocusNext => self.focused_jobs(self.spec_next_focus()),
            MainKeyAction::JobsPrevious => if vis {
                js.with_state(js.state.spec_select_previous())
            } else {
                js
            },
            MainKeyAction::JobsNext => if vis {
                js.with_state(js.state.spec_select_next())
            } else {
                js
            },
            MainKeyAction::JobsFirst => if vis {
                js.with_state(js.state.spec_select(Some(0)))
            } else {
                js
            },
            MainKeyAction::JobsLast => if vis {
                js.with_state(js.state.spec_select(Some(usize::MAX)))
            } else {
                js
            },
            MainKeyAction::JobsHalfPageUp => if vis {
                js.with_state(
                    js.state.spec_select(
                        Some(crate::geometry::sat_sub_usize(js.state.selected_or_zero(), (js.height / 2) as usize)),
                    ),
                )
            } else {
                js
            },
            _ => js,
        }
    }

    /// The resource table after an action.
    pub open spec fn resources_after(self, a: MainKeyAction) -> ResourceList {
        let has = self.resources.resources@.len() > 0;
        let rs = self.resources;
        match a {
            MainKeyAction::FocusPrevious => self.focused_resources(self.spec_previous_focus()),
            MainKeyAction::FocusNext => self.focused_resources(self.spec_next_focus()),
            MainKeyAction::ResourcesPrevious => if has {
                rs.with_state(rs.state.spec_select_previous())
            } else {
                rs
            },
            MainKeyAction::ResourcesNext => if has {
                rs.with_state(rs.state.spec_select_next())
            } else {
                rs
            },
            MainKeyAction::ResourcesFirst => if has {
                rs.with_state(rs.state.spec_select(Some(0)))
            } else {
                rs
            },
            MainKeyAction::ResourcesLast => if has {
                rs.with_state(rs.state.spec_select(Some(usize::MAX)))
            } else {
                rs
            },
            _ => rs,
        }
    }

    /// The output panel after an action.
    pub open spec fn output_after(self, a: MainKeyAction) -> OutputPanel {
        let o = self.output;
        match a {
            MainKeyAction::CycleOutput => if o.can_expand {
                OutputPanel { mode: o.mode.spec_next(), ..o }
            } else {
                o
            },
            MainKeyAction::OutputUp(d) => o.after_output_up(d),
            MainKeyAction::OutputDown(d) => o.after_output_down(d),
            MainKeyAction::OutputTop => o.after_output_top(),
            MainKeyAction::OutputBottom => o.after_output_bottom(),
            MainKeyAction::OutputHalfPageUp => o.after_output_up(o.page_step()),
            MainKeyAction::OutputPageLeft => o.after_scroll_left(o.horizontal_page_step()),
            MainKeyAction::OutputPageRight => o.after_scroll_right(o.horizontal_page_step()),
            MainKeyAction::ToggleWrap => OutputPanel {
                wrap: !o.wrap,
                scroll_x: if !o.wrap {
                    0
                } else {
                    o.scroll_x
                },
                ..o
            },
            _ => o,
        }
    }

    /// The dialog after an action (none is open before it).
    pub open spec fn dialog_after(self, a: MainKeyAction) -> Option<DialogModel> {
        match a {
            MainKeyAction::OpenFilter => Some(
                DialogModel::FilterJobs {
                    value: self.jobs.active_filter@,
                    cursor: self.jobs.active_filter@.len() as int,
                },
            ),
            MainKeyAction::ConfirmCancel => match self.selected_job_view() {
                Some(j) => Some(
                    DialogModel::ConfirmCancelJob {
                        id: crate::job::job_id_text(j),
                        name: j.name,
                        details: cancel_details(j),
                        signal: None,
                        selected: ConfirmCancelChoice::No,
                    },
                ),
                None => None,
            },
            MainKeyAction::CopyDirectory => match self.selected_job_view() {
                Some(j) => match output_directory(j, self.output.mode) {
                    Some(d) => match copy_values(d) {
                        Some(v) => Some(DialogModel::CopyJobOutputDirectory { dir_url: v.0, dir_name: v.1 }),
                        None => None,
                    },
                    None => None,
                },
                None => None,
            },
            MainKeyAction::RenameJob => match self.selected_job_view() {
                Some(j) => Some(
                    DialogModel::EditJobName {
                        id: crate::job::job_id_text(j),
                        value: j.name,
                        cursor: j.name.len() as int,
                    },
                ),
                None => crate::ui::opt_dialog_view(self.dialog),
            },
            MainKeyAction::EditTimeLimit => match self.selected_job_view() {
                Some(j) => Some(
                    DialogModel::EditTimeLimit {
                        id: crate::job::job_id_text(j),
                        value: j.time_limit,
                        cursor: j.time_limit.len() as int,
                    },
                ),
                None => crate::ui::opt_dialog_view(self.dialog),
            },
            _ => crate::ui::opt_dialog_view(self.dialog),
        }
    }

    /// The fields that no panel owns: focus, dialog, details and the
    /// pending requests.
    pub open spec fn same_misc(self, other: App) -> bool {
        &&& self.focus == other.focus
        &&& self.dialog == other.dialog
        &&& self.details_visible == other.details_visible
        &&& self.details_area == other.details_area
        &&& self.pending_clipboard_copy == other.pending_clipboard_copy
        &&& self.pending_exit == other.pending_exit
        &&& self.pending_command == other.pending_command
        &&& self.pending_selection_copy == other.pending_selection_copy
        &&& self.watched_path == other.watched_path
    }

    pub open spec fn is_list_action(a: MainKeyAction) -> bool {
        ||| a is ResourcesPrevious
        ||| a is ResourcesNext
        ||| a is ResourcesFirst
        ||| a is ResourcesLast
        ||| a is JobsPrevious
        ||| a is JobsNext
        ||| a is JobsFirst
        ||| a is JobsLast
        ||| a is JobsHalfPageUp
        ||| a is Sort
    }

    pub open spec fn is_output_action(a: MainKeyAction) -> bool {
        ||| a is OutputUp
        ||| a is OutputDown
        ||| a is OutputTop
        ||| a is OutputBottom
        ||| a is OutputHalfPageUp
        ||| a is OutputPageLeft
        ||| a is OutputPageRight
        ||| a is ToggleWrap
    }

    pub open spec fn is_dialog_action(a: MainKeyAction) -> bool {
        ||| a is OpenFilter
        ||| a is ConfirmCancel
        ||| a is CopyDirectory
        ||| a is RenameJob
        ||| a is EditTimeLimit
    }

    fn apply_list_action(&mut self, a: MainKeyAction)
        requires
            old(self).wf(),
            App::is_list_action(a),
        ensures
            final(self).wf(),
            a matches MainKeyAction::Sort(f) ==> sort_updated(old(self).jobs, f, final(self).jobs),
            !(a is Sort) ==> final(self).jobs == old(self).jobs_after(a),
            final(self).resources == old(self).resources_after(a),
            final(self).output == old(self).output,
            final(self).same_misc(*old(self)),
    {
        match a {
            MainKeyAction::ResourcesPrevious => self.resources.select_previous_resource(),
            MainKeyAction::ResourcesNext => self.resources.select_next_resource(),
            MainKeyAction::ResourcesFirst => self.resources.select_first_resource(),
            MainKeyAction::ResourcesLast => self.resources.select_last_resource(),
            MainKeyAction::JobsPrevious => self.jobs.select_previous_job(),
            MainKeyAction::JobsNext => self.jobs.select_next_job(),
            MainKeyAction::JobsFirst => self.jobs.select_first_job(),
            MainKeyAction::JobsLast => self.jobs.select_last_job(),
            MainKeyAction::JobsHalfPageUp => self.jobs.scroll_jobs_half_page_up(),
            MainKeyAction::Sort(f) => self.jobs.update_job_sort(f),
            _ => {},
        }
    }

    fn apply_output_action(&mut self, a: MainKeyAction)
        requires
            old(self).wf(),
            App::is_output_action(a),
        ensures
            final(self).wf(),
            final(self).output == old(self).output_after(a),
            final(self).jobs == old(self).jobs,
            final(self).resources == old(self).resources,
            final(self).same_misc(*old(self)),
    {
        match a {
            MainKeyAction::OutputUp(d) => self.output.move_output_up(d),
            MainKeyAction::OutputDown(d) => self.output.move_output_down(d),
            MainKeyAction::OutputTop => self.output.move_output_to_top(),
            MainKeyAction::OutputBottom => self.output.move_output_to_bottom(),
            MainKeyAction::OutputHalfPageUp => self.output.move_output_half_page_up(),
            MainKeyAction::OutputPageLeft => self.output.scroll_output_page_left(),
            MainKeyAction::OutputPageRight => self.output.scroll_output_page_right(),
            MainKeyAction::ToggleWrap => {
                self.output.wrap = !self.output.wrap;
                if self.output.wrap {
                    self.output.scroll_x = 0;
                }
            },
            _ => {},
        }
    }

    fn apply_dialog_action(&mut self, a: MainKeyAction)
        requires
            App::is_dialog_action(a),
        ensures
            crate::ui::opt_dialog_view(final(self).dialog) == old(self).dialog_after(a),
            final(self).jobs == old(self).jobs,
            final(self).resources == old(self).resources,
            final(self).output == old(self).output,
            final(self).focus == old(self).focus,
            final(self).details_visible == old(self).details_visible,
            final(self).details_area == old(self).details_area,
            final(self).pending_clipboard_copy == old(self).pending_clipboard_copy,
            final(self).pending_exit == old(self).pending_exit,
            final(self).pending_command == old(self).pending_command,
            final(self).pending_selection_copy == old(self).pending_selection_copy,
            final(self).watched_path == old(self).watched_path,
    {
        match a {
            MainKeyAction::OpenFilter => {
                let value = self.jobs.active_filter.clone();
                self.dialog = Some(Dialog::FilterJobs { input: TextInput::new(value) });
            },
            MainKeyAction::ConfirmCancel => {
                self.dialog = self.cancel_confirmation_dialog();
            },
            MainKeyAction::CopyDirectory => {
                self.dialog = self.copy_job_output_directory_dialog();
            },
            MainKeyAction::RenameJob => {
                let d = match self.selected_job() {
                    Some(job) => Some(
                        Dialog::EditJobName { id: job.id(), input: TextInput::new(job.name.clone()) },
                    ),
                    None => None,
                };
                if d.is_some() {
                    self.dialog = d;
                }
            },
            MainKeyAction::EditTimeLimit => {
                let d = match self.selected_job() {
                    Some(job) => Some(
                        Dialog::EditTimeLimit { id: job.id(), input: TextInput::new(job.time_limit.clone()) },
                    ),
                    None => None,
                };
                if d.is_some() {
                    self.dialog = d;
                }
            },
            _ => {},
        }
    }

    /// Carries out what a key asked for, with no dialog open.
    #[verifier::rlimit(60)]
    pub fn apply_main_key_action(&mut self, a: MainKeyAction)
        requires
            old(self).wf(),
        ensures
            final(self).wf(),
            final(self).focus == old(self).focus_after(a),
            a matches MainKeyAction::Sort(f) ==> sort_updated(old(self).jobs, f, final(self).jobs),
            !(a is Sort) ==> final(self).jobs == old(self).jobs_after(a),
            final(self).resources == old(self).resources_after(a),
            final(self).output == old(self).output_after(a),
            final(self).details_visible == (if a == MainKeyAction::ToggleDetails {
                !old(self).details_visible
            } else {
                old(self).details_visible
            }),
            crate::ui::opt_dialog_view(final(self).dialog) == old(self).dialog_after(a),
            opt_exit_view(final(self).pending_exit) == (if a == MainKeyAction::Exit {
                old(self).spec_enter_action()
            } else {
                opt_exit_view(old(self).pending_exit)
            }),
            final(self).pending_selection_copy == (a == MainKeyAction::CopySelection
                || old(self).pending_selection_copy),
            final(self).pending_clipboard_copy == old(self).pending_clipboard_copy,
            final(self).pending_command == old(self).pending_command,
            final(self).watched_path == old(self).watched_path,
            final(self).details_area == old(self).details_area,
    {
        if App::is_list_action_exec(a) {
            self.apply_list_action(a);
            return;
        }
        if App::is_output_action_exec(a) {
            self.apply_output_action(a);
            return;
        }
        if App::is_dialog_action_exec(a) {
            self.apply_dialog_action(a);
            return;
        }
        match a {
            MainKeyAction::Exit => {
                self.pending_exit = self.enter_action();
            },
            MainKeyAction::CycleOutput => self.cycle_output_panel_mode(),
            MainKeyAction::FocusPrevious => self.focus_previous_panel(),
            MainKeyAction::FocusNext => self.focus_next_panel(),
            MainKeyAction::ToggleDetails => {
                self.details_visible = !self.details_visible;
            },
            MainKeyAction::CopySelection => {
                self.pending_selection_copy = true;
            },
            _ => {},
        }
    }

    fn is_list_action_exec(a: MainKeyAction) -> (r: bool)
        ensures
            r == App::is_list_action(a),
    {
        match a {
            MainKeyAction::ResourcesPrevious | MainKeyAction::ResourcesNext | MainKeyAction::ResourcesFirst
            | MainKeyAction::ResourcesLast | MainKeyAction::JobsPrevious | MainKeyAction::JobsNext
            | MainKeyAction::JobsFirst | MainKeyAction::JobsLast | MainKeyAction::JobsHalfPageUp
            | MainKeyAction::Sort(_) => true,
            _ => false,
        }
    }

    fn is_output_action_exec(a: MainKeyAction) -> (r: bool)
        ensures
            r == App::is_output_action(a),
    {
        match a {
            MainKeyAction::OutputUp(_) | MainKeyAction::OutputDown(_) | MainKeyAction::OutputTop
            | MainKeyAction::OutputBottom | MainKeyAction::OutputHalfPageUp | MainKeyAction::OutputPageLeft
            | MainKeyAction::OutputPageRight | MainKeyAction::ToggleWrap => true,
            _ => false,
        }
    }

    fn is_dialog_action_exec(a: MainKeyAction) -> (r: bool)
        ensures
            r == App::is_dialog_action(a),
    {
        match a {
            MainKeyAction::OpenFilter | MainKeyAction::ConfirmCancel | MainKeyAction::CopyDirectory
            | MainKeyAction::RenameJob | MainKeyAction::EditTimeLimit => true,
            _ => false,
        }
    }
}

/// The content of a Slurm command.
pub ghost enum CommandModel {
    Cancel { id: Seq<char>, signal: Option<Seq<char>> },
    UpdateTimeLimit { id: Seq<char>, time_limit: Seq<char> },
    UpdateJobName { id: Seq<char>, name: Seq<char> },
}

impl View for SlurmCommand {
    type V = CommandModel;

    open spec fn view(&self) -> CommandModel {
        match self {
            SlurmCommand::Cancel { id, signal } => CommandModel::Cancel { id: id@, signal: opt_view(*signal) },
            SlurmCommand::UpdateTimeLimit { id, time_limit } => CommandModel::UpdateTimeLimit {
                id: id@,
                time_limit: time_limit@,
            },
            SlurmCommand::UpdateJobName { id, name } => CommandModel::UpdateJobName { id: id@, name: name@ },
        }
    }
}

pub open spec fn opt_command_view(c: Option<SlurmCommand>) -> Option<CommandModel> {
    match c {
        Some(x) => Some(x@),
        None => None,
    }
}

/// The command a key in a dialog asks for: confirming the cancel, Enter on
/// a valid time limit, Enter on a non-blank job name.
pub open spec fn dialog_key_command(d: DialogModel, key: Key) -> Option<CommandModel> {
    match d {
        DialogModel::ConfirmCancelJob { id, signal, selected, .. } => if cancel_action_of(key.code, selected)
            == CancelConfirmationAction::Confirm {
            Some(CommandModel::Cancel { id, signal })
        } else {
            None
        },
        DialogModel::EditTimeLimit { id, value, .. } => if key.code == KeyCode::Enter && time_limit_of(
            value,
        ) is Some {
            Some(CommandModel::UpdateTimeLimit { id, time_limit: time_limit_of(value)->0 })
        } else {
            None
        },
        DialogModel::EditJobName { id, value, .. } => if key.code == KeyCode::Enter && trim(value).len() > 0 {
            Some(CommandModel::UpdateJobName { id, name: trim(value) })
        } else {
            None
        },
        _ => None,
    }
}

/// What a key in the copy dialog puts on the clipboard.
pub open spec fn dialog_key_clipboard(d: DialogModel, key: Key) -> Option<Seq<char>> {
    match d {
        DialogModel::CopyJobOutputDirectory { dir_url, dir_name } => match copy_action_of(key.code) {
            CopyJobOutputDirectoryAction::CopyDirUrl => Some(dir_url),
            CopyJobOutputDirectoryAction::CopyDirName => Some(dir_name),
            _ => None,
        },
        _ => None,
    }
}

/// The filter that Enter in the filter dialog applies.
pub open spec fn dialog_key_filter(d: DialogModel, key: Key) -> Option<Seq<char>> {
    match d {
        DialogModel::FilterJobs { value, .. } => if key.code == KeyCode::Enter {
            Some(value)
        } else {
            None
        },
        _ => None,
    }
}

/// The dialog after a key: closed by what it was for or by Esc; the cancel
/// confirmation moves between its buttons; edit fields take the other keys,
/// and control-`u` empties the filter.
pub open spec fn dialog_after_key(d: DialogModel, key: Key) -> Option<DialogModel> {
    match d {
        DialogModel::ConfirmCancelJob { id, name, details, signal, selected } => match cancel_action_of(
            key.code,
            selected,
        ) {
            CancelConfirmationAction::Select(c) => Some(
                DialogModel::ConfirmCancelJob { id, name, details, signal, selected: c },
            ),
            CancelConfirmationAction::Ignore => Some(d),
            _ => None,
        },
        DialogModel::EditTimeLimit { id, value, cursor } => if key.code == KeyCode::Enter {
            if time_limit_of(value) is Some {
                None
            } else {
                Some(d)
            }
        } else if key.code == KeyCode::Esc {
            None
        } else {
            let f = field_after_key(value, cursor, key);
            Some(DialogModel::EditTimeLimit { id, value: f.0, cursor: f.1 })
        },
        DialogModel::EditJobName { id, value, cursor } => if key.code == KeyCode::Enter {
            if trim(value).len() > 0 {
                None
            } else {
                Some(d)
            }
        } else if key.code == KeyCode::Esc {
            None
        } else {
            let f = field_after_key(value, cursor, key);
            Some(DialogModel::EditJobName { id, value: f.0, cursor: f.1 })
        },
        DialogModel::FilterJobs { value, cursor } => if key.code == KeyCode::Enter || key.code == KeyCode::Esc {
            None
        } else if key.code == KeyCode::Char('u') && key.modifiers.control {
            Some(DialogModel::FilterJobs { value: Seq::<char>::empty(), cursor: 0 })
        } else {
            let f = field_after_key(value, cursor, key);
            Some(DialogModel::FilterJobs { value: f.0, cursor: f.1 })
        },
        DialogModel::CopyJobOutputDirectory { .. } => if copy_action_of(key.code)
            == CopyJobOutputDirectoryAction::Ignore {
            Some(d)
        } else {
            None
        },
        DialogModel::CommandError { .. } => if key.code == KeyCode::Enter || key.code == KeyCode::Esc {
            None
        } else {
            Some(d)
        },
    }
}

/// A dialog's text and where its output goes, after a key.
struct DialogStep {
    dialog: Option<Dialog>,
    command: Option<SlurmCommand>,
    clipboard: Option<String>,
    filter: Option<String>,
}

fn dialog_step(d: Dialog, key: Key) -> (r: DialogStep)
    ensures
        crate::ui::opt_dialog_view(r.dialog) == dialog_after_key(d@, key),
        opt_command_view(r.command) == dialog_key_command(d@, key),
        opt_view(r.clipboard) == dialog_key_clipboard(d@, key),
        opt_view(r.filter) == dialog_key_filter(d@, key),
{
    match d {
        Dialog::ConfirmCancelJob { id, name, details, signal, selected } => {
            match cancel_confirmation_action(key, selected) {
                CancelConfirmationAction::Confirm => DialogStep {
                    dialog: None,
                    command: Some(SlurmCommand::Cancel { id, signal }),
                    clipboard: None,
                    filter: None,
                },
                CancelConfirmationAction::Cancel => DialogStep {
                    dialog: None,
                    command: None,
                    clipboard: None,
                    filter: None,
                },
                CancelConfirmationAction::Select(c) => DialogStep {
                    dialog: Some(Dialog::ConfirmCancelJob { id, name, details, signal, selected: c }),
                    command: None,
                    clipboard: None,
                    filter: None,
                },
                CancelConfirmationAction::Ignore => DialogStep {
                    dialog: Some(Dialog::ConfirmCancelJob { id, name, details, signal, selected }),
                    command: None,
                    clipboard: None,
                    filter: None,
                },
            }
        },
        Dialog::EditTimeLimit { id, mut input } => {
            if key.code == KeyCode::Enter {
                match validated_time_limit(&input) {
                    Some(time_limit) => DialogStep {
                        dialog: None,
                        command: Some(SlurmCommand::UpdateTimeLimit { id, time_limit }),
                        clipboard: None,
                        filter: None,
                    },
                    None => DialogStep {
                        dialog: Some(Dialog::EditTimeLimit { id, input }),
                        command: None,
                        clipboard: None,
                        filter: None,
                    },
                }
            } else if key.code == KeyCode::Esc {
                DialogStep { dialog: None, command: None, clipboard: None, filter: None }
            } else {
                input.handle_key(key);
                DialogStep {
                    dialog: Some(Dialog::EditTimeLimit { id, input }),
                    command: None,
                    clipboard: None,
                    filter: None,
                }
            }
        },
        Dialog::EditJobName { id, mut input } => {
            if key.code == KeyCode::Enter {
                let t = trim_str(input.value.as_str());
                if t.len() > 0 {
                    DialogStep {
                        dialog: None,
                        command: Some(SlurmCommand::UpdateJobName { id, name: string_of(t.as_slice()) }),
                        clipboard: None,
                        filter: None,
                    }
                } else {
                    DialogStep {
                        dialog: Some(Dialog::EditJobName { id, input }),
                        command: None,
                        clipboard: None,
                        filter: None,
                    }
                }
            } else if key.code == KeyCode::Esc {
                DialogStep { dialog: None, command: None, clipboard: None, filter: None }
            } else {
                input.handle_key(key);
                DialogStep {
                    dialog: Some(Dialog::EditJobName { id, input }),
                    command: None,
                    clipboard: None,
                    filter: None,
                }
            }
        },
        Dialog::FilterJobs { mut input } => {
            if key.code == KeyCode::Enter {
                DialogStep { dialog: None, command: None, clipboard: None, filter: Some(input.value) }
            } else if key.code == KeyCode::Esc {
                DialogStep { dialog: None, command: None, clipboard: None, filter: None }
            } else if key.code == KeyCode::Char('u') && key.modifiers.control {
                DialogStep {
                    dialog: Some(Dialog::FilterJobs { input: TextInput::new(String::new()) }),
                    command: None,
                    clipboard: None,
                    filter: None,
                }
            } else {
                input.handle_key(key);
                DialogStep {
                    dialog: Some(Dialog::FilterJobs { input }),
                    command: None,
                    clipboard: None,
                    filter: None,
                }
            }
        },
        Dialog::CopyJobOutputDirectory { dir_url, dir_name } => {
            match copy_job_output_directory_action(key) {
                CopyJobOutputDirectoryAction::CopyDirUrl => DialogStep {
                    dialog: None,
                    command: None,
                    clipboard: Some(dir_url),
                    filter: None,
                },
                CopyJobOutputDirectoryAction::CopyDirName => DialogStep {
                    dialog: None,
                    command: None,
                    clipboard: Some(dir_name),
                    filter: None,
                },
                CopyJobOutputDirectoryAction::Cancel => DialogStep {
                    dialog: None,
                    command: None,
                    clipboard: None,
                    filter: None,
                },
                CopyJobOutputDirectoryAction::Ignore => DialogStep {
                    dialog: Some(Dialog::CopyJobOutputDirectory { dir_url, dir_name }),
                    command: None,
                    clipboard: None,
                    filter: None,
                },
            }
        },
        Dialog::CommandError { command, output } => {
            if key.code == KeyCode::Enter || key.code == KeyCode::Esc {
                DialogStep { dialog: None, command: None, clipboard: None, filter: None }
            } else {
                DialogStep {
                    dialog: Some(Dialog::CommandError { command, output }),
                    command: None,
                    clipboard: None,
                    filter: None,
                }
            }
        },
    }
}

/// The way the mouse wheel turned.
#[derive(Clone, Copy, PartialEq, Eq, Structural, Debug)]
pub enum MouseWheelDirection {
    Up,
    Down,
}

/// The panel under the mouse wheel.
#[derive(Clone, Copy, PartialEq, Eq, Structural, Debug)]
pub enum MouseScrollTarget {
    Resources,
    Jobs,
    Output,
}

/// What the interface is told.
pub enum AppMessage {
    /// A new set of jobs.
    Jobs(Vec<Job>),
    /// The followed file's text, or the message of the error reading it.
    JobOutput(Result<String, String>),
    ResourcesUpdated(Vec<PartitionResources>),
    ResourceWatcherError(String),
    Key(Key),
    MouseClick { column: u16, row: u16 },
    MouseWheel { target: MouseScrollTarget, direction: MouseWheelDirection, amount: u16 },
}

/// A table's cursor after the wheel turned `amount` notches: the selection
/// moves by as many rows, from the first row where none is selected.
pub open spec fn wheeled(state: TableCursor, direction: MouseWheelDirection, amount: u16) -> TableCursor {
    state.spec_select(
        Some(
            if direction == MouseWheelDirection::Up {
                crate::geometry::sat_sub_usize(state.selected_or_zero(), amount as usize)
            } else {
                crate::geometry::sat_add_usize(state.selected_or_zero(), amount as usize)
            },
        ),
    )
}

/// What a message needs to be taken: jobs whose durations fit in `u64`,
/// output text whose lines can be counted in `usize`.
pub open spec fn message_fits(msg: AppMessage) -> bool {
    match msg {
        AppMessage::Jobs(js) => crate::sorting::durations_fit(js@),
        AppMessage::JobOutput(c) => {
            let t = match c {
                Ok(s) => s@,
                Err(e) => e@,
            };
            2 * t.len() + 2 <= usize::MAX
        },
        _ => true,
    }
}

impl App {
    /// A key in an open dialog: the dialog changes or closes, and asks for
    /// a command, a clipboard copy or a filter, as its specs say.
    pub fn handle_dialog_key(&mut self, key: Key)
        requires
            old(self).dialog is Some,
        ensures
            crate::ui::opt_dialog_view(final(self).dialog) == dialog_after_key(old(self).dialog->0@, key),
            opt_command_view(final(self).pending_command) == (match dialog_key_command(
                old(self).dialog->0@,
                key,
            ) {
                Some(c) => Some(c),
                None => opt_command_view(old(self).pending_command),
            }),
            opt_view(final(self).pending_clipboard_copy) == (match dialog_key_clipboard(
                old(self).dialog->0@,
                key,
            ) {
                Some(c) => Some(c),
                None => opt_view(old(self).pending_clipboard_copy),
            }),
            match dialog_key_filter(old(self).dialog->0@, key) {
                Some(f) => filter_applied(old(self).jobs, f, final(self).jobs),
                None => final(self).jobs == old(self).jobs,
            },
            final(self).output == old(self).output,
            final(self).resources == old(self).resources,
            final(self).focus == old(self).focus,
            final(self).details_visible == old(self).details_visible,
            final(self).details_area == old(self).details_area,
            final(self).pending_exit == old(self).pending_exit,
            final(self).pending_selection_copy == old(self).pending_selection_copy,
            final(self).watched_path == old(self).watched_path,
    {
        let mut taken: Option<Dialog> = None;
        std::mem::swap(&mut taken, &mut self.dialog);
        match taken {
            Some(d) => {
                let st = dialog_step(d, key);
                match st.filter {
                    Some(f) => self.jobs.apply_job_filter(f.as_str()),
                    None => {},
                }
                match st.clipboard {
                    Some(c) => {
                        self.pending_clipboard_copy = Some(c);
                    },
                    None => {},
                }
                match st.command {
                    Some(c) => {
                        self.pending_command = Some(c);
                    },
                    None => {},
                }
                self.dialog = st.dialog;
            },
            None => {},
        }
    }

    /// A command that a dialog asked for failed: its error is shown.
    pub fn command_failed(&mut self, command: String, output: String)
        ensures
            crate::ui::opt_dialog_view(final(self).dialog) == Some(
                DialogModel::CommandError { command: command@, output: output@ },
            ),
            final(self).jobs == old(self).jobs,
            final(self).output == old(self).output,
            final(self).resources == old(self).resources,
            final(self).focus == old(self).focus,
    {
        self.dialog = Some(Dialog::CommandError { command, output });
    }

    /// A click focuses the panel under it (the details box belongs to the
    /// jobs) and selects the row clicked in a table or listing.
    pub fn handle_click(&mut self, column: u16, row: u16)
        requires
            old(self).wf(),
        ensures
            final(self).wf(),
            in_rect(old(self).details_area, column, row) ==> final(self).focus == Focus::Jobs
                && final(self).jobs == old(self).jobs && final(self).resources == old(self).resources
                && final(self).output == old(self).output,
            !in_rect(old(self).details_area, column, row) && in_rect(old(self).resources.area, column, row)
                ==> final(self).focus == Focus::Resources && final(self).resources == (match old(
                self,
            ).resources.clicked_row(column, row) {
                Some(i) => old(self).resources.with_state(old(self).resources.state.spec_select(Some(i))),
                None => old(self).resources,
            }) && final(self).jobs == old(self).jobs && final(self).output == old(self).output,
            !in_rect(old(self).details_area, column, row) && !in_rect(old(self).resources.area, column, row)
                && in_rect(old(self).jobs.area, column, row) ==> final(self).focus == Focus::Jobs
                && final(self).jobs == (match old(self).jobs.clicked_row(column, row) {
                Some(i) => old(self).jobs.with_state(old(self).jobs.state.spec_select(Some(i))),
                None => old(self).jobs,
            }) && final(self).resources == old(self).resources && final(self).output == old(self).output,
            !in_rect(old(self).details_area, column, row) && !in_rect(old(self).resources.area, column, row)
                && !in_rect(old(self).jobs.area, column, row) && in_rect(old(self).output.area, column, row)
                ==> final(self).focus == Focus::Log && final(self).output == (match old(
                self,
            ).output.clicked_entry(column, row) {
                Some(i) => OutputPanel { workdir_selected: Some(i), ..old(self).output },
                None => old(self).output,
            }) && final(self).jobs == old(self).jobs && final(self).resources == old(self).resources,
            !in_rect(old(self).details_area, column, row) && !in_rect(old(self).resources.area, column, row)
                && !in_rect(old(self).jobs.area, column, row) && !in_rect(old(self).output.area, column, row)
                ==> final(self).focus == old(self).focus && final(self).jobs == old(self).jobs
                && final(self).resources == old(self).resources && final(self).output == old(self).output,
            final(self).dialog == old(self).dialog,
            final(self).details_visible == old(self).details_visible,
            final(self).details_area == old(self).details_area,
            final(self).pending_clipboard_copy == old(self).pending_clipboard_copy,
            final(self).pending_exit == old(self).pending_exit,
            final(self).pending_command == old(self).pending_command,
            final(self).pending_selection_copy == old(self).pending_selection_copy,
            final(self).watched_path == old(self).watched_path,
    {
        if crate::geometry::rect_contains(self.details_area, column, row) {
            self.focus = Focus::Jobs;
        } else if crate::geometry::rect_contains(self.resources.area, column, row) {
            self.focus = Focus::Resources;
            self.resources.select_resource_at(column, row);
        } else if crate::geometry::rect_contains(self.jobs.area, column, row) {
            self.focus = Focus::Jobs;
            self.jobs.select_job_at(column, row);
        } else if crate::geometry::rect_contains(self.output.area, column, row) {
            self.focus = Focus::Log;
            self.output.select_workdir_at(column, row);
        }
    }

    /// The wheel scrolls the table under it by `amount` rows, or moves in
    /// the output by `amount` lines.
    pub fn handle_wheel(&mut self, target: MouseScrollTarget, direction: MouseWheelDirection, amount: u16)
        requires
            old(self).wf(),
        ensures
            final(self).wf(),
            final(self).resources == (if target == MouseScrollTarget::Resources {
                old(self).resources.with_state(
                    old(self).resources.state.spec_select(
                        Some(
                            if direction == MouseWheelDirection::Up {
                                crate::geometry::sat_sub_usize(old(self).resources.state.selected_or_zero(), amount as usize)
                            } else {
                                crate::geometry::sat_add_usize(old(self).resources.state.selected_or_zero(), amount as usize)
                            },
                        ),
                    ),
                )
            } else {
                old(self).resources
            }),
            final(self).jobs == (if target == MouseScrollTarget::Jobs {
                old(self).jobs.with_state(
                    old(self).jobs.state.spec_select(
                        Some(
                            if direction == MouseWheelDirection::Up {
                                crate::geometry::sat_sub_usize(old(self).jobs.state.selected_or_zero(), amount as usize)
                            } else {
                                crate::geometry::sat_add_usize(old(self).jobs.state.selected_or_zero(), amount as usize)
                            },
                        ),
                    ),
                )
            } else {
                old(self).jobs
            }),
            final(self).output == (if target == MouseScrollTarget::Output {
                if direction == MouseWheelDirection::Up {
                    old(self).output.after_output_up(amount)
                } else {
                    old(self).output.after_output_down(amount)
                }
            } else {
                old(self).output
            }),
            final(self).same_misc(*old(self)),
    {
        match target {
            MouseScrollTarget::Resources => match direction {
                MouseWheelDirection::Up => self.resources.state.scroll_up_by(amount),
                MouseWheelDirection::Down => self.resources.state.scroll_down_by(amount),
            },
            MouseScrollTarget::Jobs => match direction {
                MouseWheelDirection::Up => self.jobs.state.scroll_up_by(amount),
                MouseWheelDirection::Down => self.jobs.state.scroll_down_by(amount),
            },
            MouseScrollTarget::Output => match direction {
                MouseWheelDirection::Up => self.output.move_output_up(amount),
                MouseWheelDirection::Down => self.output.move_output_down(amount),
            },
        }
    }

    /// The panel the wheel scrolls at a position: the resources, the jobs or
    /// the output, where one is.
    /// The panel a click focuses: the details box belongs to the jobs; a
    /// click beside every panel leaves the focus where it is.
    pub open spec fn clicked_focus(self, column: u16, row: u16) -> Focus {
        if in_rect(self.details_area, column, row) {
            Focus::Jobs
        } else if in_rect(self.resources.area, column, row) {
            Focus::Resources
        } else if in_rect(self.jobs.area, column, row) {
            Focus::Jobs
        } else if in_rect(self.output.area, column, row) {
            Focus::Log
        } else {
            self.focus
        }
    }

    /// The output panel after a click: a click on a listed entry selects
    /// it.
    pub open spec fn clicked_output(self, column: u16, row: u16) -> OutputPanel {
        if !in_rect(self.details_area, column, row) && !in_rect(self.resources.area, column, row) && !in_rect(
            self.jobs.area,
            column,
            row,
        ) && in_rect(self.output.area, column, row) {
            match self.output.clicked_entry(column, row) {
                Some(i) => OutputPanel { workdir_selected: Some(i), ..self.output },
                None => self.output,
            }
        } else {
            self.output
        }
    }

    /// The output panel once a message's action is done, before its
    /// positions settle.
    pub open spec fn output_taken(self, msg: AppMessage) -> OutputPanel {
        match msg {
            AppMessage::Key(key) => if self.dialog is None {
                self.output_after(spec_main_key_action(key, self.focus))
            } else {
                self.output
            },
            AppMessage::JobOutput(c) => OutputPanel { job_output: c, ..self.output },
            AppMessage::MouseWheel { target, direction, amount } => if self.dialog is None && target
                == MouseScrollTarget::Output {
                if direction == MouseWheelDirection::Up {
                    self.output.after_output_up(amount)
                } else {
                    self.output.after_output_down(amount)
                }
            } else {
                self.output
            },
            AppMessage::MouseClick { column, row } => if self.dialog is None {
                self.clicked_output(column, row)
            } else {
                self.output
            },
            _ => self.output,
        }
    }

    pub open spec fn spec_scroll_target(self, column: u16, row: u16) -> Option<MouseScrollTarget> {
        if in_rect(self.resources.area, column, row) {
            Some(MouseScrollTarget::Resources)
        } else if in_rect(self.jobs.area, column, row) {
            Some(MouseScrollTarget::Jobs)
        } else if in_rect(self.output.area, column, row) {
            Some(MouseScrollTarget::Output)
        } else {
            None
        }
    }

    pub fn mouse_scroll_target(&self, column: u16, row: u16) -> (r: Option<MouseScrollTarget>)
        ensures
            r == self.spec_scroll_target(column, row),
    {
        if crate::geometry::rect_contains(self.resources.area, column, row) {
            Some(MouseScrollTarget::Resources)
        } else if crate::geometry::rect_contains(self.jobs.area, column, row) {
            Some(MouseScrollTarget::Jobs)
        } else if crate::geometry::rect_contains(self.output.area, column, row) {
            Some(MouseScrollTarget::Output)
        } else {
            None
        }
    }
}

/// The focus once a message ends: a hidden output panel hands it to the
/// jobs.
pub open spec fn settled_focus(focus: Focus, mode: OutputPanelMode) -> Focus {
    if mode == OutputPanelMode::Collapsed && focus == Focus::Log {
        Focus::Jobs
    } else {
        focus
    }
}

/// The output panel once a message's action is done: a new mode scrolls
/// back to the left, and a file shown anew, or another job's file, is
/// followed from its end.
pub open spec fn reset_positions(o: OutputPanel, previous_mode: OutputPanelMode, job_changed: bool) -> OutputPanel {
    let mode_changed = o.mode != previous_mode;
    let q = if mode_changed {
        OutputPanel { scroll_x: 0, ..o }
    } else {
        o
    };
    if is_file_mode(o.mode) && (mode_changed || job_changed) {
        OutputPanel { anchor: ScrollAnchor::Bottom, offset: 0, ..q }
    } else {
        q
    }
}

/// `o` with the working-directory listing of `l`.
pub open spec fn with_listing(o: OutputPanel, l: OutputPanel) -> OutputPanel {
    OutputPanel {
        workdir_path: l.workdir_path,
        workdir_entries: l.workdir_entries,
        workdir_error: l.workdir_error,
        workdir_selected: l.workdir_selected,
        workdir_offset: l.workdir_offset,
        ..o
    }
}

/// The file followed for a job in a mode.
pub open spec fn watched_for(j: Option<JobModel>, mode: OutputPanelMode) -> Option<Seq<char>> {
    match j {
        Some(job) => watched_output(job, mode),
        None => None,
    }
}

/// The directory a job works in, for the selected job.
pub open spec fn workdir_for(j: Option<JobModel>) -> Option<Seq<char>> {
    match j {
        Some(job) => workdir_of(job),
        None => None,
    }
}

impl App {
    /// Ends taking a message: the output panel settles its positions and
    /// the followed file is the selected job's file in the mode.
    fn settle_output(&mut self)
        requires
            old(self).wf(),
        ensures
            final(self).wf(),
            final(self).output == old(self).output.after_sync(),
            opt_view(final(self).watched_path) == watched_for(old(self).selected_job_view(), old(self).output.mode),
            final(self).jobs == old(self).jobs,
            final(self).resources == old(self).resources,
            final(self).focus == old(self).focus,
            final(self).dialog == old(self).dialog,
            final(self).details_visible == old(self).details_visible,
            final(self).pending_exit == old(self).pending_exit,
            final(self).pending_command == old(self).pending_command,
            final(self).pending_clipboard_copy == old(self).pending_clipboard_copy,
            final(self).pending_selection_copy == old(self).pending_selection_copy,
    {
        self.output.sync_output_state();
        let watched = match self.selected_job() {
            Some(j) => watched_output_path(j, self.output.mode),
            None => None,
        };
        self.watched_path = watched;
    }

    /// What every message ends with: a hidden output panel gives the focus
    /// back to the jobs; a new mode scrolls back to the left; showing a file
    /// anew, or another job's file, follows its end; the listing is read
    /// again where needed (the directory to read is returned); and, unless
    /// a directory is to be read, the positions settle.
    fn after_message(&mut self, previous_id: Option<String>, previous_mode: OutputPanelMode) -> (r: Option<String>)
        requires
            old(self).wf(),
        ensures
            final(self).wf(),
            final(self).focus == (if old(self).output.mode == OutputPanelMode::Collapsed && old(self).focus
                == Focus::Log {
                Focus::Jobs
            } else {
                old(self).focus
            }),
            final(self).output.mode == old(self).output.mode,
            final(self).output.wrap == old(self).output.wrap,
            final(self).output.job_output == old(self).output.job_output,
            final(self).jobs == old(self).jobs,
            final(self).resources == old(self).resources,
            final(self).dialog == old(self).dialog,
            final(self).details_visible == old(self).details_visible,
            final(self).pending_exit == old(self).pending_exit,
            final(self).pending_command == old(self).pending_command,
            final(self).pending_clipboard_copy == old(self).pending_clipboard_copy,
            final(self).pending_selection_copy == old(self).pending_selection_copy,
            is_file_mode(old(self).output.mode) && (previous_mode != old(self).output.mode || old(
                self,
            ).jobs.selected_id() != opt_view(previous_id)) ==> final(self).output.anchor == ScrollAnchor::Bottom
                && final(self).output.offset == 0,
            previous_mode != old(self).output.mode && r is None ==> final(self).output.scroll_x == 0,
            r matches Some(p) ==> old(self).output.mode == OutputPanelMode::Workdir && workdir_for(
                old(self).selected_job_view(),
            ) == Some(p@) && opt_view(final(self).output.workdir_path) == Some(p@),
            r is None ==> opt_view(final(self).watched_path) == watched_for(
                old(self).selected_job_view(),
                old(self).output.mode,
            ),
            ({
                let p = reset_positions(
                    old(self).output,
                    previous_mode,
                    old(self).jobs.selected_id() != opt_view(previous_id),
                );
                &&& r is None ==> same_but_listing(final(self).output, with_listing(p, final(self).output).after_sync())
                &&& r is Some ==> same_but_listing(final(self).output, p)
            }),
    {
        if self.output.mode.is_collapsed() && self.focus == Focus::Log {
            self.focus = Focus::Jobs;
        }
        let current_id = self.jobs.selected_job_id();
        let selected_job_changed = !same_opt_text(&current_id, &previous_id);
        let output_mode_changed = previous_mode != self.output.mode;
        let file_mode = self.output.mode == OutputPanelMode::Stdout || self.output.mode == OutputPanelMode::Stderr;
        if output_mode_changed {
            self.output.scroll_x = 0;
        }
        if (output_mode_changed && file_mode) || (selected_job_changed && file_mode) {
            self.output.scroll_job_output_to_bottom();
        }
        let derived = match self.selected_job() {
            Some(j) => derive_workdir_path(j),
            None => None,
        };
        let load = self.output.begin_workdir_reload(derived, selected_job_changed, output_mode_changed);
        proof {
            crate::output_panel::lemma_layout_same(self.output, self.output);
        }
        let ghost mid = self.output;
        if load.is_none() {
            self.settle_output();
            proof {
                let w = with_listing(mid, self.output);
                crate::output_panel::lemma_layout_same(mid, w);
                assert(same_but_listing(self.output, w.after_sync()));
            }
        }
        load
    }

    /// Takes a message. Where the working directory is to be listed, the
    /// directory is returned, and the message ends with
    /// [`App::finish_workdir_load`].
    #[verifier::rlimit(100)]
    #[verifier::spinoff_prover]
    pub fn handle(&mut self, msg: AppMessage) -> (r: Option<String>)
        requires
            old(self).wf(),
            message_fits(msg),
        ensures
            final(self).wf(),
            !(final(self).output.mode == OutputPanelMode::Collapsed && final(self).focus == Focus::Log),
            msg matches AppMessage::Jobs(js) ==> final(self).jobs.jobs@.to_multiset() == js@.to_multiset()
                && crate::sorting::sorted_jobs(final(self).jobs.jobs@, old(self).jobs.sort_field, old(self).jobs.sort_direction),
            msg matches AppMessage::JobOutput(c) ==> final(self).output.job_output == c,
            msg matches AppMessage::ResourcesUpdated(rs) ==> final(self).resources.resources@ == rs@,
            msg matches AppMessage::Key(key) ==> (old(self).dialog is Some ==> crate::ui::opt_dialog_view(
                final(self).dialog,
            ) == dialog_after_key(old(self).dialog->0@, key)),
            msg matches AppMessage::Key(key) ==> (old(self).dialog is None ==> crate::ui::opt_dialog_view(
                final(self).dialog,
            ) == old(self).dialog_after(spec_main_key_action(key, old(self).focus))),
            msg matches AppMessage::Key(key) ==> (old(self).dialog is None ==> opt_exit_view(
                final(self).pending_exit,
            ) == (if spec_main_key_action(key, old(self).focus) == MainKeyAction::Exit {
                old(self).spec_enter_action()
            } else {
                opt_exit_view(old(self).pending_exit)
            })),
            msg matches AppMessage::Key(key) ==> (old(self).dialog is Some ==> opt_command_view(
                final(self).pending_command,
            ) == (match dialog_key_command(old(self).dialog->0@, key) {
                Some(c) => Some(c),
                None => opt_command_view(old(self).pending_command),
            })),
            (msg is MouseClick || msg is MouseWheel) && old(self).dialog is Some ==> final(self).jobs == old(
                self,
            ).jobs && final(self).resources == old(self).resources,
            msg matches AppMessage::Key(key) ==> (old(self).dialog is None ==> {
                let a = spec_main_key_action(key, old(self).focus);
                &&& !(a is Sort) ==> final(self).jobs == old(self).jobs_after(a)
                &&& a matches MainKeyAction::Sort(f) ==> sort_updated(old(self).jobs, f, final(self).jobs)
                &&& final(self).resources == old(self).resources_after(a)
                &&& final(self).details_visible == (if a == MainKeyAction::ToggleDetails {
                    !old(self).details_visible
                } else {
                    old(self).details_visible
                })
            }),
            msg matches AppMessage::Key(key) ==> (old(self).dialog is Some ==> {
                &&& match dialog_key_filter(old(self).dialog->0@, key) {
                    Some(f) => filter_applied(old(self).jobs, f, final(self).jobs),
                    None => final(self).jobs == old(self).jobs,
                }
                &&& opt_view(final(self).pending_clipboard_copy) == (match dialog_key_clipboard(
                    old(self).dialog->0@,
                    key,
                ) {
                    Some(c) => Some(c),
                    None => opt_view(old(self).pending_clipboard_copy),
                })
                &&& final(self).resources == old(self).resources
                &&& final(self).details_visible == old(self).details_visible
            }),
            msg is Jobs || msg is JobOutput || msg is ResourcesUpdated || msg is ResourceWatcherError ==> {
                &&& final(self).dialog == old(self).dialog
                &&& final(self).details_visible == old(self).details_visible
                &&& final(self).pending_exit == old(self).pending_exit
                &&& final(self).pending_command == old(self).pending_command
            },
            msg matches AppMessage::MouseWheel { target, direction, amount } ==> (old(self).dialog is None ==> {
                &&& final(self).resources == (if target == MouseScrollTarget::Resources {
                    old(self).resources.with_state(wheeled(old(self).resources.state, direction, amount))
                } else {
                    old(self).resources
                })
                &&& final(self).jobs == (if target == MouseScrollTarget::Jobs {
                    old(self).jobs.with_state(wheeled(old(self).jobs.state, direction, amount))
                } else {
                    old(self).jobs
                })
            }),
            msg matches AppMessage::MouseClick { column, row } ==> (old(self).dialog is None ==> {
                let beside = !in_rect(old(self).details_area, column, row);
                &&& final(self).resources == (if beside && in_rect(old(self).resources.area, column, row) {
                    match old(self).resources.clicked_row(column, row) {
                        Some(i) => old(self).resources.with_state(old(self).resources.state.spec_select(Some(i))),
                        None => old(self).resources,
                    }
                } else {
                    old(self).resources
                })
                &&& final(self).jobs == (if beside && !in_rect(old(self).resources.area, column, row) && in_rect(
                    old(self).jobs.area,
                    column,
                    row,
                ) {
                    match old(self).jobs.clicked_row(column, row) {
                        Some(i) => old(self).jobs.with_state(old(self).jobs.state.spec_select(Some(i))),
                        None => old(self).jobs,
                    }
                } else {
                    old(self).jobs
                })
            }),
            !(msg is Jobs) && !(msg is Key) && !(msg is MouseClick) && !(msg is MouseWheel) ==> final(self).jobs
                == old(self).jobs,
            !(msg is ResourcesUpdated) && !(msg is Key) && !(msg is MouseClick) && !(msg is MouseWheel)
                ==> final(self).resources == old(self).resources,
            r is None ==> opt_view(final(self).watched_path) == watched_for(final(self).selected_job_view(), final(self).output.mode),
            r matches Some(p) ==> final(self).output.mode == OutputPanelMode::Workdir
                && workdir_for(final(self).selected_job_view()) == Some(p@),
            msg matches AppMessage::Key(key) ==> (old(self).dialog is None ==> {
                let a = spec_main_key_action(key, old(self).focus);
                &&& final(self).focus == settled_focus(old(self).focus_after(a), old(self).output_after(a).mode)
                &&& final(self).output.mode == old(self).output_after(a).mode
                &&& final(self).output.wrap == old(self).output_after(a).wrap
                &&& final(self).pending_command == old(self).pending_command
                &&& final(self).pending_clipboard_copy == old(self).pending_clipboard_copy
                &&& final(self).pending_selection_copy == (a == MainKeyAction::CopySelection
                    || old(self).pending_selection_copy)
            }),
            msg matches AppMessage::MouseClick { column, row } ==> (old(self).dialog is None ==> final(self).focus
                == settled_focus(old(self).clicked_focus(column, row), old(self).output.mode)),
            !(msg is Key && old(self).dialog is None) && !(msg is MouseClick && old(self).dialog is None)
                ==> final(self).focus == settled_focus(old(self).focus, old(self).output.mode),
            !(msg is Key && old(self).dialog is None) ==> {
                &&& final(self).output.mode == old(self).output.mode
                &&& final(self).output.wrap == old(self).output.wrap
                &&& final(self).pending_exit == old(self).pending_exit
            },
            !(msg is Key) ==> final(self).pending_command == old(self).pending_command,
            ({
                let p = reset_positions(
                    old(self).output_taken(msg),
                    old(self).output.mode,
                    final(self).jobs.selected_id() != old(self).jobs.selected_id(),
                );
                &&& r is None ==> same_but_listing(final(self).output, with_listing(p, final(self).output).after_sync())
                &&& r is Some ==> same_but_listing(final(self).output, p)
            }),
            msg matches AppMessage::Jobs(js) ==> {
                &&& final(self).jobs.state == crate::job_list::restored(
                    old(self).jobs.state,
                    final(self).jobs.visible_ids(),
                    old(self).jobs.selected_id(),
                    old(self).jobs.state.selected,
                )
                &&& final(self).jobs.active_filter == old(self).jobs.active_filter
                &&& final(self).jobs.sort_field == old(self).jobs.sort_field
                &&& final(self).jobs.sort_direction == old(self).jobs.sort_direction
                &&& exists|p: Seq<int>|
                    crate::sorting::stable_arrangement(
                        final(self).jobs.jobs@,
                        js@,
                        p,
                        old(self).jobs.sort_field,
                        old(self).jobs.sort_direction,
                    )
            },
            msg matches AppMessage::ResourcesUpdated(rs) ==> final(self).resources.state == old(
                self,
            ).resources.spec_state_after_update(rs@.len()),
            is_file_mode(final(self).output.mode) && (final(self).output.mode != old(self).output.mode
                || final(self).jobs.selected_id() != old(self).jobs.selected_id())
                ==> final(self).output.anchor == ScrollAnchor::Bottom && final(self).output.offset == 0,
    {
        let previous_id = self.jobs.selected_job_id();
        let previous_mode = self.output.mode;
        match msg {
            AppMessage::Jobs(jobs) => self.jobs.replace_jobs(jobs),
            AppMessage::JobOutput(content) => {
                self.output.job_output = content;
            },
            AppMessage::ResourcesUpdated(resources) => self.resources.replace_resources(resources),
            AppMessage::ResourceWatcherError(_) => {},
            AppMessage::Key(key) => {
                if self.dialog.is_some() {
                    self.handle_dialog_key(key);
                } else {
                    let a = main_key_action(key, self.focus);
                    self.apply_main_key_action(a);
                }
            },
            AppMessage::MouseClick { column, row } => {
                if self.dialog.is_none() {
                    self.handle_click(column, row);
                }
            },
            AppMessage::MouseWheel { target, direction, amount } => {
                if self.dialog.is_none() {
                    self.handle_wheel(target, direction, amount);
                }
            },
        }
        self.after_message(previous_id, previous_mode)
    }

    /// Ends the message that asked for the listing: takes the entries read
    /// (`None` where the directory could not be read), then the positions
    /// settle.
    pub fn finish_workdir_load(&mut self, entries: Option<Vec<WorkdirEntry>>)
        requires
            old(self).wf(),
            match entries {
                Some(es) => forall|i: int| 0 <= i < es@.len() ==> (#[trigger] es@[i]).name@.len() + 3 <= usize::MAX,
                None => true,
            },
        ensures
            final(self).wf(),
            opt_view(final(self).watched_path) == watched_for(final(self).selected_job_view(), final(self).output.mode),
            entries matches Some(es) ==> final(self).output.workdir_entries@ == es@,
            final(self).jobs == old(self).jobs,
            final(self).focus == old(self).focus,
            final(self).dialog == old(self).dialog,
            final(self).pending_exit == old(self).pending_exit,
            final(self).pending_command == old(self).pending_command,
    {
        self.output.finish_workdir_load(entries);
        proof {
            let o = self.output;
            assert(o.wf());
        }
        self.settle_output();
    }
}

fn same_opt_text(a: &Option<String>, b: &Option<String>) -> (r: bool)
    ensures
        r == (opt_view(*a) == opt_view(*b)),
{
    match (a, b) {
        (Some(x), Some(y)) => {
            let xv = chars_of(x.as_str());
            crate::text::chars_eq_str(xv.as_slice(), y.as_str())
        },
        (None, None) => true,
        _ => false,
    }
}

/// What a key event leads to: whether the interface closes, whether it is
/// drawn again, and the directory to list before the message ends.
pub struct KeyOutcome {
    pub quit: bool,
    pub draw: bool,
    pub load: Option<String>,
}

impl App {
    /// A key pressed: `q` with no dialog open closes the interface at once;
    /// any other key is taken as a message, after which the interface
    /// closes if the key left something to do, and is drawn again if not.
    pub fn handle_key_event(&mut self, key: Key) -> (r: KeyOutcome)
        requires
            old(self).wf(),
        ensures
            final(self).wf(),
            old(self).dialog is None && key.code == KeyCode::Char('q') ==> r.quit && !r.draw && r.load is None
                && *final(self) == *old(self),
            !(old(self).dialog is None && key.code == KeyCode::Char('q')) ==> r.quit == final(self).pending_exit is Some
                && r.draw == final(self).pending_exit is None,
            old(self).dialog is Some ==> final(self).pending_exit == old(self).pending_exit
                && final(self).jobs.sort_field == old(self).jobs.sort_field
                && final(self).jobs.sort_direction == old(self).jobs.sort_direction
                && crate::ui::opt_dialog_view(final(self).dialog) == dialog_after_key(old(self).dialog->0@, key),
    {
        if self.dialog.is_none() && key.code == KeyCode::Char('q') {
            return KeyOutcome { quit: true, draw: false, load: None };
        }
        let load = self.handle(AppMessage::Key(key));
        KeyOutcome { quit: self.pending_exit.is_some(), draw: self.pending_exit.is_none(), load }
    }
}

} // verus!
