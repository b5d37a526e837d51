//! What the tables, the help line and the dialogs show: column widths, row
//! texts, scrollbars, dialog sizes and the truncated lines inside them.
use vstd::prelude::*;
use vstd::utf8::encode_utf8;

use crate::geometry::{centered_area, centered_dialog_area, sat_sub_u16, Rect};
use crate::job::{job_id_text, JobModel};
use crate::job_list::JobList;
use crate::layout_text::{truncate_with_ellipsis, truncated};
use crate::output_text::ScrollbarModel;
use crate::resources::PartitionResources;
use crate::job::job_views;
use crate::sorting::JobSortField;
use crate::text::{chars_of, decimal, decimal_chars, extend_chars, filled, push_filled};
use crate::ui::{opt_dialog_view, Dialog, DialogModel, OutputPanelMode};

verus! {

// ---------------------------------------------------------------------------
// The job table
// ---------------------------------------------------------------------------

/// The number of bytes of a text in UTF-8, as `str::len` counts them.
pub open spec fn byte_len(s: Seq<char>) -> int {
    encode_utf8(s).len() as usize as int
}

/// The widest value of each column over some jobs, 0 for none: state,
/// partition and id, user and time by bytes, the name by characters.
pub ghost struct ColumnMaxes {
    pub state: int,
    pub partition: int,
    pub id: int,
    pub name: int,
    pub user: int,
    pub time: int,
}

pub open spec fn max_int(a: int, b: int) -> int {
    if a > b {
        a
    } else {
        b
    }
}

pub open spec fn column_maxes(js: Seq<JobModel>) -> ColumnMaxes
    decreases js.len(),
{
    if js.len() == 0 {
        ColumnMaxes { state: 0, partition: 0, id: 0, name: 0, user: 0, time: 0 }
    } else {
        let m = column_maxes(js.drop_last());
        let j = js.last();
        ColumnMaxes {
            state: max_int(m.state, byte_len(j.state_compact)),
            partition: max_int(m.partition, byte_len(j.partition)),
            id: max_int(m.id, byte_len(job_id_text(j))),
            name: max_int(m.name, j.name.len() as int),
            user: max_int(m.user, byte_len(j.user)),
            time: max_int(m.time, byte_len(j.time)),
        }
    }
}

/// A column's width: the widest value, at least `lo`, cut to `u16` and
/// then to at most `hi`.
pub open spec fn column_width(m: int, lo: int, hi: u16) -> u16 {
    let w = (max_int(m, lo) as usize) as u16;
    if w < hi {
        w
    } else {
        hi
    }
}

/// The widths of the job table's columns.
#[derive(Clone, Copy, PartialEq, Eq, Structural, Debug)]
pub struct JobColumns {
    pub state: u16,
    pub partition: u16,
    pub id: u16,
    pub name: u16,
    pub user: u16,
    pub time: u16,
}

pub open spec fn job_columns(js: Seq<JobModel>) -> JobColumns {
    let m = column_maxes(js);
    JobColumns {
        state: column_width(m.state, 3, 8),
        partition: column_width(m.partition, 10, 12),
        id: column_width(m.id, 6, 12),
        name: column_width(m.name, 5, 25),
        user: column_width(m.user, 5, 12),
        time: column_width(m.time, 5, 12),
    }
}

fn width_of(m: usize, lo: usize, hi: u16) -> (r: u16)
    ensures
        r == column_width(m as int, lo as int, hi),
{
    let w = if m > lo {
        m
    } else {
        lo
    };
    let c = w as u16;
    if c < hi {
        c
    } else {
        hi
    }
}

fn bigger(a: usize, b: usize) -> (r: usize)
    ensures
        r as int == max_int(a as int, b as int),
{
    if a > b {
        a
    } else {
        b
    }
}

/// Whether a job's row is dimmed: a completed job (`CD`, in any case).
pub open spec fn dimmed_state(state_compact: Seq<char>) -> bool {
    state_compact.len() == 2 && (state_compact[0] == 'C' || state_compact[0] == 'c') && (state_compact[1] == 'D'
        || state_compact[1] == 'd')
}

pub fn is_dimmed_state(state_compact: &str) -> (r: bool)
    ensures
        r == dimmed_state(state_compact@),
{
    let c = chars_of(state_compact);
    c.len() == 2 && (c[0] == 'C' || c[0] == 'c') && (c[1] == 'D' || c[1] == 'd')
}

/// A table's scrollbar: shown when the rows do not all fit in a viewport
/// of `height` rows, scrolling by the rows that do not fit.
pub open spec fn spec_table_scrollbar(height: u16, rows: usize, offset: usize) -> Option<ScrollbarModel> {
    if height > 0 && rows > height {
        Some(ScrollbarModel { max_offset: (rows - height) as usize, position: offset })
    } else {
        None
    }
}

pub fn table_scrollbar(height: u16, rows: usize, offset: usize) -> (r: Option<ScrollbarModel>)
    ensures
        r == spec_table_scrollbar(height, rows, offset),
{
    if height > 0 && rows > height as usize {
        Some(ScrollbarModel { max_offset: rows - height as usize, position: offset })
    } else {
        None
    }
}

impl JobList {
    /// The arrow of a column's header: the direction where the table is
    /// sorted by that column, nothing otherwise.
    pub fn sort_indicator(&self, field: JobSortField) -> (r: &'static str)
        ensures
            r@ == (if self.sort_field == field {
                self.sort_direction.spec_indicator()
            } else {
                Seq::<char>::empty()
            }),
    {
        if self.sort_field == field {
            self.sort_direction.indicator()
        } else {
            let e = "";
            proof {
                reveal_strlit("");
            }
            e
        }
    }

    /// The jobs the table shows, in order.
    pub open spec fn shown(self) -> Seq<JobModel> {
        self.visible().map_values(|i: int| job_views(self.jobs@)[i])
    }

    /// The widths of the table's columns for the jobs it shows.
    pub fn job_table_widths(&self) -> (r: JobColumns)
        ensures
            r == job_columns(self.shown()),
    {
        let idx = self.visible_job_indices();
        let ghost shown = self.shown();
        let mut st: usize = 0;
        let mut pa: usize = 0;
        let mut id: usize = 0;
        let mut na: usize = 0;
        let mut us: usize = 0;
        let mut ti: usize = 0;
        let mut k: usize = 0;
        assert(shown.take(0) =~= Seq::<JobModel>::empty());
        while k < idx.len()
            invariant
                k <= idx.len(),
                idx@.len() == shown.len(),
                shown == self.shown(),
                forall|q: int| 0 <= q < idx@.len() ==> (#[trigger] idx@[q]) < self.jobs@.len() && shown[q] == self.jobs@[idx@[q] as int]@,
                ({
                    let m = column_maxes(shown.take(k as int));
                    m.state == st && m.partition == pa && m.id == id && m.name == na && m.user == us && m.time == ti
                }),
            decreases idx.len() - k,
        {
            let j = &self.jobs[idx[k]];
            assert(j@ == shown[k as int]);
            st = bigger(st, j.state_compact.as_str().len());
            pa = bigger(pa, j.partition.as_str().len());
            let jid = j.id();
            id = bigger(id, jid.as_str().len());
            na = bigger(na, chars_of(j.name.as_str()).len());
            us = bigger(us, j.user.as_str().len());
            ti = bigger(ti, j.time.as_str().len());
            assert(shown.take(k + 1).drop_last() =~= shown.take(k as int));
            assert(shown.take(k + 1).last() == shown[k as int]);
            k = k + 1;
        }
        assert(shown.take(idx.len() as int) =~= shown);
        JobColumns {
            state: width_of(st, 3, 8),
            partition: width_of(pa, 10, 12),
            id: width_of(id, 6, 12),
            name: width_of(na, 5, 25),
            user: width_of(us, 5, 12),
            time: width_of(ti, 5, 12),
        }
    }
}

// ---------------------------------------------------------------------------
// The resource table
// ---------------------------------------------------------------------------

/// A row of the resource table: the partition, its nodes in use with the
/// group's share in brackets, and its free nodes; dimmed when none is free.
pub struct ResourceRow {
    pub partition: Vec<char>,
    pub used: Vec<char>,
    pub available: Vec<char>,
    pub dim: bool,
}

pub open spec fn used_text(running: u32, group_used: u32) -> Seq<char> {
    decimal(running as nat) + seq!['('] + decimal(group_used as nat) + seq![')']
}

pub fn resource_row(r: &PartitionResources) -> (row: ResourceRow)
    ensures
        row.partition@ == r.partition@,
        row.used@ == used_text(r.running_nodes, r.group_used_nodes),
        row.available@ == decimal(r.available_nodes as nat),
        row.dim == (r.available_nodes == 0),
{
    let mut used = decimal_chars(r.running_nodes as u64);
    used.push('(');
    let g = decimal_chars(r.group_used_nodes as u64);
    extend_chars(&mut used, g.as_slice());
    used.push(')');
    ResourceRow {
        partition: chars_of(r.partition.as_str()),
        used,
        available: decimal_chars(r.available_nodes as u64),
        dim: r.available_nodes == 0,
    }
}

// ---------------------------------------------------------------------------
// The help line
// ---------------------------------------------------------------------------

/// The keys the help line lists while a dialog is open, as (key, what it
/// does); none for the other dialogs.
pub open spec fn spec_dialog_help(d: Option<DialogModel>) -> Seq<(Seq<char>, Seq<char>)> {
    match d {
        Some(DialogModel::FilterJobs { .. }) => seq![("enter"@, "apply"@), ("esc"@, "cancel"@), ("ctrl+u"@, "clear"@)],
        Some(DialogModel::CopyJobOutputDirectory { .. }) => seq![("c"@, "dir-name"@), ("d"@, "dir-url"@), ("⎋"@, "cancel"@)],
        Some(DialogModel::ConfirmCancelJob { .. }) => seq![("←/→"@, "choose"@), ("enter"@, "confirm"@), ("esc"@, "close"@)],
        Some(DialogModel::EditJobName { .. }) => seq![("enter"@, "apply"@), ("esc"@, "cancel"@)],
        _ => Seq::<(Seq<char>, Seq<char>)>::empty(),
    }
}

pub open spec fn str_pairs(v: Seq<(&str, &str)>) -> Seq<(Seq<char>, Seq<char>)> {
    v.map_values(|p: (&str, &str)| (p.0@, p.1@))
}

pub fn dialog_help(dialog: &Option<Dialog>) -> (r: Vec<(&'static str, &'static str)>)
    ensures
        str_pairs(r@) == spec_dialog_help(opt_dialog_view(*dialog)),
{
    let mut v: Vec<(&'static str, &'static str)> = Vec::new();
    match dialog {
        Some(Dialog::FilterJobs { .. }) => {
            v.push(("enter", "apply"));
            v.push(("esc", "cancel"));
            v.push(("ctrl+u", "clear"));
        },
        Some(Dialog::CopyJobOutputDirectory { .. }) => {
            v.push(("c", "dir-name"));
            v.push(("d", "dir-url"));
            v.push(("⎋", "cancel"));
        },
        Some(Dialog::ConfirmCancelJob { .. }) => {
            v.push(("←/→", "choose"));
            v.push(("enter", "confirm"));
            v.push(("esc", "close"));
        },
        Some(Dialog::EditJobName { .. }) => {
            v.push(("enter", "apply"));
            v.push(("esc", "cancel"));
        },
        _ => {},
    }
    assert(str_pairs(v@) =~= spec_dialog_help(opt_dialog_view(*dialog)));
    v
}

/// What Enter does, as the help line names it: edit the followed file, or
/// change to the directory.
pub open spec fn spec_enter_hint(mode: OutputPanelMode) -> Seq<char> {
    match mode {
        OutputPanelMode::Stdout | OutputPanelMode::Stderr => "edit"@,
        _ => "cd"@,
    }
}

pub fn enter_hint(mode: OutputPanelMode) -> (r: &'static str)
    ensures
        r@ == spec_enter_hint(mode),
{
    match mode {
        OutputPanelMode::Stdout | OutputPanelMode::Stderr => "edit",
        _ => "cd",
    }
}

// ---------------------------------------------------------------------------
// Dialogs
// ---------------------------------------------------------------------------

/// A dialog's width on a screen `width` columns wide: four columns less,
/// but at least 36 and at most `cap`.
pub open spec fn popup_width(width: u16, cap: u16) -> u16 {
    let a = sat_sub_u16(width, 4);
    let b: u16 = if a > 36 { a } else { 36 };
    if b < cap {
        b
    } else {
        cap
    }
}

fn popup_width_of(width: u16, cap: u16) -> (r: u16)
    ensures
        r == popup_width(width, cap),
{
    let a = width.saturating_sub(4);
    let b: u16 = if a > 36 {
        a
    } else {
        36
    };
    if b < cap {
        b
    } else {
        cap
    }
}

/// Whether a rectangle lies within the coordinates, as a frame's area does.
pub open spec fn fits_screen(r: Rect) -> bool {
    r.x + r.width <= u16::MAX && r.y + r.height <= u16::MAX
}

/// The dialog that offers to copy the output directory: where it stands
/// and the two values it shows, cut to fit.
pub struct CopyDialogView {
    pub area: Rect,
    pub dir_url: Vec<char>,
    pub dir_name: Vec<char>,
}

pub fn copy_dialog_view(viewport: Rect, dir_url: &str, dir_name: &str) -> (r: CopyDialogView)
    requires
        fits_screen(viewport),
    ensures
        r.area == centered_area(popup_width(viewport.width, 72), 7, viewport),
        r.dir_url@ == truncated(dir_url@, sat_sub_u16(popup_width(viewport.width, 72), 6) as int),
        r.dir_name@ == truncated(dir_name@, sat_sub_u16(popup_width(viewport.width, 72), 6) as int),
{
    let pw = popup_width_of(viewport.width, 72);
    let cw = pw.saturating_sub(6) as usize;
    let url = chars_of(dir_url);
    let name = chars_of(dir_name);
    CopyDialogView {
        area: centered_dialog_area(pw, 7, viewport),
        dir_url: truncate_with_ellipsis(url.as_slice(), cw),
        dir_name: truncate_with_ellipsis(name.as_slice(), cw),
    }
}

/// The dialog that asks to confirm cancelling a job: where it stands, its
/// title, the job's id and name, its details, and the rule above the
/// buttons, each cut to fit.
pub struct CancelDialogView {
    pub area: Rect,
    pub title: Vec<char>,
    pub job_line: Vec<char>,
    pub name_line: Vec<char>,
    pub details: Vec<Vec<char>>,
    pub rule: Vec<char>,
}

/// The rows of the cancel dialog, border included: id, name, the details,
/// a blank line, the rule and the buttons, and two for the border, at most
/// `u16::MAX`.
pub open spec fn cancel_dialog_height(details: nat) -> u16 {
    if details + 7 < u16::MAX {
        (details + 7) as u16
    } else {
        u16::MAX
    }
}

pub fn cancel_dialog_view(viewport: Rect, id: &str, name: &str, details: &Vec<String>) -> (r: CancelDialogView)
    requires
        fits_screen(viewport),
    ensures
        r.area == centered_area(popup_width(viewport.width, 60), cancel_dialog_height(details@.len()), viewport),
        r.title@ == truncated("Cancel selected job?"@, sat_sub_u16(popup_width(viewport.width, 60), 4) as int),
        r.job_line@ == truncated("Job "@ + id@, sat_sub_u16(popup_width(viewport.width, 60), 4) as int),
        r.name_line@ == truncated(name@, sat_sub_u16(popup_width(viewport.width, 60), 4) as int),
        r.details@.len() == details@.len(),
        forall|i: int|
            0 <= i < details@.len() ==> (#[trigger] r.details@[i])@ == truncated(
                details@[i]@,
                sat_sub_u16(popup_width(viewport.width, 60), 4) as int,
            ),
        r.rule@ == filled(sat_sub_u16(popup_width(viewport.width, 60), 4) as int, '─'),
{
    let pw = popup_width_of(viewport.width, 60);
    let cw = pw.saturating_sub(4) as usize;
    let title_text = chars_of("Cancel selected job?");
    let title = truncate_with_ellipsis(title_text.as_slice(), cw);
    let mut job_text = chars_of("Job ");
    let ghost prefix = job_text@;
    let idc = chars_of(id);
    extend_chars(&mut job_text, idc.as_slice());
    let job_line = truncate_with_ellipsis(job_text.as_slice(), cw);
    let name_chars = chars_of(name);
    let name_line = truncate_with_ellipsis(name_chars.as_slice(), cw);
    let mut lines: Vec<Vec<char>> = Vec::new();
    let mut i: usize = 0;
    while i < details.len()
        invariant
            i <= details.len(),
            lines@.len() == i,
            forall|k: int| 0 <= k < i ==> (#[trigger] lines@[k])@ == truncated(details@[k]@, cw as int),
        decreases details.len() - i,
    {
        let d = chars_of(details[i].as_str());
        lines.push(truncate_with_ellipsis(d.as_slice(), cw));
        i = i + 1;
    }
    let mut rule: Vec<char> = Vec::new();
    push_filled(&mut rule, cw, '─');
    assert(rule@ =~= filled(cw as int, '─'));
    let rows: usize = if details.len() < 65_528 {
        details.len() + 7
    } else {
        65_535
    };
    let height: u16 = if rows < 65_535 {
        rows as u16
    } else {
        65_535
    };
    CancelDialogView {
        area: centered_dialog_area(pw, height, viewport),
        title,
        job_line,
        name_line,
        details: lines,
        rule,
    }
}

/// The text of the dialog that reports a failed command.
pub open spec fn command_error_text(command: Seq<char>, output: Seq<char>) -> Seq<char> {
    "Command: "@ + command + seq!['\n', '\n'] + output
}

/// The rows of that dialog: its text's lines, at most ten, and the border.
pub open spec fn command_error_height(text: Seq<char>) -> u16 {
    let n = crate::split::lines(text).len();
    ((if n < 10 { n } else { 10 }) + 2) as u16
}

/// The dialog that reports a failed command: where it stands and its text.
pub fn command_error_view(viewport: Rect, command: &str, output: &str) -> (r: (Rect, Vec<char>))
    requires
        fits_screen(viewport),
    ensures
        r.1@ == command_error_text(command@, output@),
        r.0 == centered_area(80, command_error_height(r.1@), viewport),
{
    let mut text = chars_of("Command: ");
    let c = chars_of(command);
    extend_chars(&mut text, c.as_slice());
    text.push('\n');
    text.push('\n');
    let o = chars_of(output);
    extend_chars(&mut text, o.as_slice());
    let n = crate::split::lines_chars(text.as_slice()).len();
    let shown: u16 = if n < 10 {
        n as u16
    } else {
        10
    };
    assert(text@ =~= command_error_text(command@, output@));
    (centered_dialog_area(80, shown + 2, viewport), text)
}

/// Where the dialogs with an input field stand.
pub fn input_dialog_area(viewport: Rect) -> (r: Rect)
    requires
        fits_screen(viewport),
    ensures
        r == centered_area(80, 3, viewport),
{
    centered_dialog_area(80, 3, viewport)
}

// ---------------------------------------------------------------------------
// Input fields
// ---------------------------------------------------------------------------

/// The display columns before the cursor of a `tui_input` field holding
/// `value` with the cursor after `cursor` characters.
pub uninterp spec fn cursor_columns_of(value: Seq<char>, cursor: int) -> int;

/// The display columns that such a field scrolls past to keep the cursor
/// within `width` columns.
pub uninterp spec fn scroll_columns_of(value: Seq<char>, cursor: int, width: int) -> int;

/// `Input::visual_cursor` of `tui_input`: the summed display widths of the
/// graphemes before the cursor (the cursor is first cut to the value's
/// length). The result is named: it rests on Unicode width tables.
#[verifier::external_body]
fn input_visual_cursor(value: &str, cursor: usize) -> (r: usize)
    ensures
        r as int == cursor_columns_of(value@, cursor as int),
{
    tui_input::Input::new(value.to_string()).with_cursor(cursor).visual_cursor()
}

/// `Input::visual_scroll` of `tui_input`: the display columns skipped so
/// that the cursor shows within `width`. The result is named: it rests on
/// grapheme widths.
#[verifier::external_body]
fn input_visual_scroll(value: &str, cursor: usize, width: usize) -> (r: usize)
    ensures
        r as int == scroll_columns_of(value@, cursor as int, width as int),
{
    tui_input::Input::new(value.to_string()).with_cursor(cursor).visual_scroll(width)
}

/// The width of an input dialog's prompt: prefix, job id and `": "`, cut
/// to `u16`.
pub open spec fn prompt_width(prefix: Seq<char>, id: Seq<char>) -> u16 {
    (prefix.len() + id.len() + 2) as u16
}

pub fn prompt_width_of(prefix: &str, id: &str) -> (r: u16)
    ensures
        r == prompt_width(prefix@, id@),
{
    let a = chars_of(prefix).len();
    let b = chars_of(id).len();
    let total: u128 = a as u128 + b as u128 + 2;
    total as u16
}

/// The columns left for the value beside the prompt, at least one.
pub open spec fn input_room(inner: Rect, prompt: u16) -> int {
    let w = sat_sub_u16(inner.width, prompt);
    if w > 1 {
        w as int
    } else {
        1
    }
}

/// The column of the cursor: after the prompt, and the cursor's columns
/// past the scroll.
pub open spec fn cursor_column(inner: Rect, prompt: u16, columns: int, scroll: int) -> int {
    crate::geometry::sat_add_u16(inner.x, prompt) + ((if columns > scroll { columns - scroll } else { 0 }) as usize) as u16
}

/// What an input field shows: the value past the scroll, cut to the room
/// beside the prompt, and where the cursor stands.
pub struct InputLine {
    pub visible: Vec<char>,
    pub cursor_x: u16,
    pub cursor_y: u16,
}

/// The input line given the field's measured cursor columns and scroll.
pub fn input_line_at(value: &str, inner: Rect, prompt: u16, columns: usize, scroll: usize) -> (r: InputLine)
    requires
        cursor_column(inner, prompt, columns as int, scroll as int) <= u16::MAX,
    ensures
        r.visible@ == crate::layout_text::clipped(value@, scroll as int, input_room(inner, prompt)),
        r.cursor_x as int == cursor_column(inner, prompt, columns as int, scroll as int),
        r.cursor_y == inner.y,
{
    let w = inner.width.saturating_sub(prompt);
    let room: usize = if w > 1 {
        w as usize
    } else {
        1
    };
    let v = chars_of(value);
    let visible = crate::layout_text::clip_line(v.as_slice(), scroll, room);
    let past: usize = if columns > scroll {
        columns - scroll
    } else {
        0
    };
    let x = inner.x.saturating_add(prompt) + past as u16;
    InputLine { visible, cursor_x: x, cursor_y: inner.y }
}

/// The input line of a field in a dialog whose text area is `inner`, with
/// a prompt `prompt` columns wide; none where the cursor's column would
/// pass the screen's last.
pub fn input_line(input: &crate::ui::TextInput, inner: Rect, prompt: u16) -> (r: Option<InputLine>)
    ensures
        ({
            let room = input_room(inner, prompt);
            let scroll = scroll_columns_of(input.value@, input.cursor as int, room);
            let columns = cursor_columns_of(input.value@, input.cursor as int);
            &&& (r is Some <==> cursor_column(inner, prompt, columns, scroll) <= u16::MAX)
            &&& r is Some ==> r->0.visible@ == crate::layout_text::clipped(input.value@, scroll, room)
                && r->0.cursor_x as int == cursor_column(inner, prompt, columns, scroll) && r->0.cursor_y == inner.y
        }),
{
    let w = inner.width.saturating_sub(prompt);
    let room: usize = if w > 1 {
        w as usize
    } else {
        1
    };
    let scroll = input_visual_scroll(input.value.as_str(), input.cursor, room);
    let columns = input_visual_cursor(input.value.as_str(), input.cursor);
    let past: usize = if columns > scroll {
        columns - scroll
    } else {
        0
    };
    let start = inner.x.saturating_add(prompt);
    if (start as u128) + ((past as u16) as u128) <= 65_535 {
        Some(input_line_at(input.value.as_str(), inner, prompt, columns, scroll))
    } else {
        None
    }
}

} // verus!
