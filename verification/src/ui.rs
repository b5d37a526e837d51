//! The values the interface is made of: focus, dialogs, keys, output modes,
//! and the small decisions taken on them.
use vstd::prelude::*;

use crossterm::event as ct;

use crate::job::{Job, JobModel};
use crate::text::string_views;
use crate::paths::{file_name_chars, file_name_of, parent_chars, parent_of};
use crate::split::{views, words, words_chars};
use crate::text::{chars_of, concat_string, extend_chars, is_ws, slice_of, string_of, trim, trim_chars, trim_str};

verus! {

/// The panel that receives keys.
#[derive(Clone, Copy, PartialEq, Eq, Structural, Debug)]
pub enum Focus {
    Resources,
    Jobs,
    Details,
    Log,
}

/// The button selected in the cancel confirmation.
#[derive(Clone, Copy, PartialEq, Eq, Structural, Debug)]
pub enum ConfirmCancelChoice {
    No,
    Yes,
}

/// The end of the output that the scroll offset counts from.
#[derive(Clone, Copy, PartialEq, Eq, Structural, Debug)]
pub enum ScrollAnchor {
    Top,
    Bottom,
}

/// What the output panel shows.
#[derive(Clone, Copy, PartialEq, Eq, Structural, Debug)]
pub enum OutputPanelMode {
    Stdout,
    Stderr,
    Workdir,
    Collapsed,
}

impl OutputPanelMode {
    /// The mode shown first: the working directory.
    pub fn default_mode() -> (r: OutputPanelMode)
        ensures
            r == OutputPanelMode::Workdir,
    {
        OutputPanelMode::Workdir
    }

    /// Workdir, then stdout, then stderr, then collapsed, then workdir again.
    pub open spec fn spec_next(self) -> OutputPanelMode {
        match self {
            OutputPanelMode::Stdout => OutputPanelMode::Stderr,
            OutputPanelMode::Stderr => OutputPanelMode::Collapsed,
            OutputPanelMode::Workdir => OutputPanelMode::Stdout,
            OutputPanelMode::Collapsed => OutputPanelMode::Workdir,
        }
    }

    /// The mode that follows this one.
    pub fn next(self) -> (r: OutputPanelMode)
        ensures
            r == self.spec_next(),
    {
        match self {
            OutputPanelMode::Stdout => OutputPanelMode::Stderr,
            OutputPanelMode::Stderr => OutputPanelMode::Collapsed,
            OutputPanelMode::Workdir => OutputPanelMode::Stdout,
            OutputPanelMode::Collapsed => OutputPanelMode::Workdir,
        }
    }

    /// Whether the output panel is hidden.
    pub fn is_collapsed(self) -> (r: bool)
        ensures
            r == (self == OutputPanelMode::Collapsed),
    {
        self == OutputPanelMode::Collapsed
    }

    pub open spec fn spec_title(self) -> Seq<char> {
        match self {
            OutputPanelMode::Stdout => "Stdout"@,
            OutputPanelMode::Stderr => "Stderr"@,
            OutputPanelMode::Workdir => "Workdir"@,
            OutputPanelMode::Collapsed => "none"@,
        }
    }

    /// The output panel's title in this mode.
    pub fn title(self) -> (r: &'static str)
        ensures
            r@ == self.spec_title(),
    {
        match self {
            OutputPanelMode::Stdout => "Stdout",
            OutputPanelMode::Stderr => "Stderr",
            OutputPanelMode::Workdir => "Workdir",
            OutputPanelMode::Collapsed => "none",
        }
    }
}

/// What the program does after the interface closes.
#[derive(Clone, PartialEq, Eq, Debug)]
pub enum AppExit {
    OpenEditor(String),
    ChangeDirectory(String),
}

pub ghost enum ExitModel {
    OpenEditor(Seq<char>),
    ChangeDirectory(Seq<char>),
}

impl View for AppExit {
    type V = ExitModel;

    open spec fn view(&self) -> ExitModel {
        match self {
            AppExit::OpenEditor(p) => ExitModel::OpenEditor(p@),
            AppExit::ChangeDirectory(p) => ExitModel::ChangeDirectory(p@),
        }
    }
}

// ---------------------------------------------------------------------------
// Keys
// ---------------------------------------------------------------------------

/// A key of a key press.
#[derive(Clone, Copy, PartialEq, Eq, Structural, Debug)]
pub enum KeyCode {
    Char(char),
    Enter,
    Esc,
    Tab,
    BackTab,
    Backspace,
    Delete,
    Left,
    Right,
    Up,
    Down,
    Home,
    End,
    PageUp,
    PageDown,
    Insert,
    Other,
}

/// The modifier keys held with a key.
#[derive(Clone, Copy, PartialEq, Eq, Structural, Debug)]
pub struct KeyModifiers {
    pub shift: bool,
    pub control: bool,
    pub alt: bool,
    pub super_key: bool,
    pub hyper: bool,
    pub meta: bool,
}

impl KeyModifiers {
    pub open spec fn spec_none() -> KeyModifiers {
        KeyModifiers { shift: false, control: false, alt: false, super_key: false, hyper: false, meta: false }
    }

    pub fn none() -> (r: KeyModifiers)
        ensures
            r == KeyModifiers::spec_none(),
    {
        KeyModifiers { shift: false, control: false, alt: false, super_key: false, hyper: false, meta: false }
    }

    pub fn control_only() -> (r: KeyModifiers)
        ensures
            r == (KeyModifiers { control: true, ..KeyModifiers::spec_none() }),
    {
        KeyModifiers { shift: false, control: true, alt: false, super_key: false, hyper: false, meta: false }
    }
}

/// Whether a key is pressed, repeated or released.
#[derive(Clone, Copy, PartialEq, Eq, Structural, Debug)]
pub enum KeyKind {
    Press,
    Repeat,
    Release,
}

/// One key event.
#[derive(Clone, Copy, PartialEq, Eq, Structural, Debug)]
pub struct Key {
    pub code: KeyCode,
    pub modifiers: KeyModifiers,
    pub kind: KeyKind,
}

impl Key {
    /// A plain press of `code`.
    pub fn new(code: KeyCode, modifiers: KeyModifiers) -> (r: Key)
        ensures
            r == (Key { code, modifiers, kind: KeyKind::Press }),
    {
        Key { code, modifiers, kind: KeyKind::Press }
    }
}

// ---------------------------------------------------------------------------
// Text input
// ---------------------------------------------------------------------------

/// A one-line text field: its text and the number of characters before
/// the cursor.
pub struct TextInput {
    pub value: String,
    pub cursor: usize,
}

/// What the input field of `tui_input` holds after one key press, given its
/// text and cursor before, the key and the bits of its modifiers.
pub uninterp spec fn input_after_key(value: Seq<char>, cursor: int, code: KeyCode, modifiers: u8) -> (Seq<char>, int);

impl KeyModifiers {
    /// The modifiers as terminal bits: shift 1, control 2, alt 4, super 8,
    /// hyper 16, meta 32.
    pub open spec fn spec_bits(self) -> u8 {
        ((if self.shift { 1u8 } else { 0u8 }) + (if self.control { 2u8 } else { 0u8 }) + (if self.alt {
            4u8
        } else {
            0u8
        }) + (if self.super_key { 8u8 } else { 0u8 }) + (if self.hyper { 16u8 } else { 0u8 }) + (
        if self.meta {
            32u8
        } else {
            0u8
        })) as u8
    }

    pub fn bits(self) -> (r: u8)
        ensures
            r == self.spec_bits(),
    {
        let mut r: u8 = 0;
        if self.shift {
            r = r + 1;
        }
        if self.control {
            r = r + 2;
        }
        if self.alt {
            r = r + 4;
        }
        if self.super_key {
            r = r + 8;
        }
        if self.hyper {
            r = r + 16;
        }
        if self.meta {
            r = r + 32;
        }
        r
    }
}

/// Whether a key press types its character into an input field: a
/// character with no modifier, with shift, or with control and alt.
pub open spec fn types_char(code: KeyCode, modifiers: u8) -> bool {
    code is Char && (modifiers == 0 || modifiers == 1 || modifiers == 6)
}

/// `Input::handle_event` of `tui_input` with one key press, on an input that
/// holds `value` with the cursor after `cursor` characters. The result is
/// named; for a key that types a character (`InputRequest::InsertChar`) the
/// character goes in at the cursor and the cursor moves past it. Keys other
/// than characters, Backspace, Delete, the arrows left and right, Home and
/// End give `tui_input` no request, so they go in as `KeyCode::Null`, which
/// gives none either. Deletions and moves go by grapheme and are not stated;
/// nor is the kill ring, which is not carried from one key to the next.
#[verifier::external_body]
fn input_handle_key(value: &str, cursor: usize, code: KeyCode, modifiers: u8) -> (r: (String, usize))
    ensures
        (r.0@, r.1 as int) == input_after_key(value@, cursor as int, code, modifiers),
        types_char(code, modifiers) && cursor <= value@.len() ==> r.0@ == value@.take(cursor as int).push(
            code->0,
        ) + value@.skip(cursor as int) && r.1 == cursor + 1,
{
    let code = match code {
        KeyCode::Char(c) => ct::KeyCode::Char(c),
        KeyCode::Backspace => ct::KeyCode::Backspace,
        KeyCode::Delete => ct::KeyCode::Delete,
        KeyCode::Left => ct::KeyCode::Left,
        KeyCode::Right => ct::KeyCode::Right,
        KeyCode::Home => ct::KeyCode::Home,
        KeyCode::End => ct::KeyCode::End,
        _ => ct::KeyCode::Null,
    };
    let event = ct::KeyEvent::new(code, ct::KeyModifiers::from_bits_truncate(modifiers));
    let mut input = tui_input::Input::new(value.to_string()).with_cursor(cursor);
    tui_input::backend::crossterm::EventHandler::handle_event(&mut input, &ct::Event::Key(event));
    (input.value().to_string(), input.cursor())
}

/// What a field holds after a key: a released key changes nothing (the
/// input reacts to presses and repeats only); a typed character goes in at
/// the cursor, which moves past it; other keys do what `tui_input` does.
pub open spec fn field_after_key(value: Seq<char>, cursor: int, key: Key) -> (Seq<char>, int) {
    if key.kind == KeyKind::Release {
        (value, cursor)
    } else if types_char(key.code, key.modifiers.spec_bits()) && 0 <= cursor <= value.len() {
        (value.take(cursor).push(key.code->0) + value.skip(cursor), cursor + 1)
    } else {
        input_after_key(value, cursor, key.code, key.modifiers.spec_bits())
    }
}

impl TextInput {
    /// A field holding `value` with the cursor at its end.
    pub fn new(value: String) -> (r: TextInput)
        ensures
            r.value@ == value@,
            r.cursor == value@.len(),
    {
        let n = chars_of(value.as_str()).len();
        TextInput { value, cursor: n }
    }

    /// The text of the field.
    pub fn value(&self) -> (r: &str)
        ensures
            r@ == self.value@,
    {
        self.value.as_str()
    }

    /// Applies one key to the field.
    pub fn handle_key(&mut self, key: Key)
        ensures
            (final(self).value@, final(self).cursor as int) == field_after_key(
                old(self).value@,
                old(self).cursor as int,
                key,
            ),
            key.kind != KeyKind::Release && types_char(key.code, key.modifiers.spec_bits()) && old(
                self,
            ).cursor <= old(self).value@.len() ==> final(self).value@ == old(self).value@.take(
                old(self).cursor as int,
            ).push(key.code->0) + old(self).value@.skip(old(self).cursor as int) && final(self).cursor
                == old(self).cursor + 1,
    {
        if key.kind == KeyKind::Release {
            return;
        }
        let bits = key.modifiers.bits();
        let (v, c) = input_handle_key(self.value.as_str(), self.cursor, key.code, bits);
        self.value = v;
        self.cursor = c;
    }
}

/// The time limit a field holds: its trimmed text, if not empty.
pub open spec fn time_limit_of(value: Seq<char>) -> Option<Seq<char>> {
    if trim(value).len() == 0 {
        None
    } else {
        Some(trim(value))
    }
}

/// The time limit that an edit field holds, if any.
pub fn validated_time_limit(input: &TextInput) -> (r: Option<String>)
    ensures
        match r {
            Some(s) => time_limit_of(input.value@) == Some(s@),
            None => time_limit_of(input.value@) is None,
        },
{
    let t = trim_str(input.value.as_str());
    if t.len() == 0 {
        None
    } else {
        Some(string_of(t.as_slice()))
    }
}

// ---------------------------------------------------------------------------
// Dialogs
// ---------------------------------------------------------------------------

/// A dialog over the panels.
pub enum Dialog {
    ConfirmCancelJob {
        id: String,
        name: String,
        details: Vec<String>,
        signal: Option<String>,
        selected: ConfirmCancelChoice,
    },
    EditTimeLimit { id: String, input: TextInput },
    EditJobName { id: String, input: TextInput },
    FilterJobs { input: TextInput },
    CopyJobOutputDirectory { dir_url: String, dir_name: String },
    CommandError { command: String, output: String },
}

/// The content of a dialog.
pub ghost enum DialogModel {
    ConfirmCancelJob {
        id: Seq<char>,
        name: Seq<char>,
        details: Seq<Seq<char>>,
        signal: Option<Seq<char>>,
        selected: ConfirmCancelChoice,
    },
    EditTimeLimit { id: Seq<char>, value: Seq<char>, cursor: int },
    EditJobName { id: Seq<char>, value: Seq<char>, cursor: int },
    FilterJobs { value: Seq<char>, cursor: int },
    CopyJobOutputDirectory { dir_url: Seq<char>, dir_name: Seq<char> },
    CommandError { command: Seq<char>, output: Seq<char> },
}

impl View for Dialog {
    type V = DialogModel;

    open spec fn view(&self) -> DialogModel {
        match self {
            Dialog::ConfirmCancelJob { id, name, details, signal, selected } => DialogModel::ConfirmCancelJob {
                id: id@,
                name: name@,
                details: string_views(details@),
                signal: crate::job::opt_view(*signal),
                selected: *selected,
            },
            Dialog::EditTimeLimit { id, input } => DialogModel::EditTimeLimit {
                id: id@,
                value: input.value@,
                cursor: input.cursor as int,
            },
            Dialog::EditJobName { id, input } => DialogModel::EditJobName {
                id: id@,
                value: input.value@,
                cursor: input.cursor as int,
            },
            Dialog::FilterJobs { input } => DialogModel::FilterJobs { value: input.value@, cursor: input.cursor as int },
            Dialog::CopyJobOutputDirectory { dir_url, dir_name } => DialogModel::CopyJobOutputDirectory {
                dir_url: dir_url@,
                dir_name: dir_name@,
            },
            Dialog::CommandError { command, output } => DialogModel::CommandError { command: command@, output: output@ },
        }
    }
}

pub open spec fn opt_dialog_view(d: Option<Dialog>) -> Option<DialogModel> {
    match d {
        Some(x) => Some(x@),
        None => None,
    }
}

/// What a key does in the cancel confirmation.
#[derive(Clone, Copy, PartialEq, Eq, Structural, Debug)]
pub enum CancelConfirmationAction {
    Confirm,
    Cancel,
    Select(ConfirmCancelChoice),
    Ignore,
}

/// Enter takes the selected button; left/h and right/l select; y/Y confirm;
/// n/N/Esc cancel; other keys do nothing.
pub open spec fn cancel_action_of(code: KeyCode, selected: ConfirmCancelChoice) -> CancelConfirmationAction {
    match code {
        KeyCode::Enter => match selected {
            ConfirmCancelChoice::Yes => CancelConfirmationAction::Confirm,
            ConfirmCancelChoice::No => CancelConfirmationAction::Cancel,
        },
        KeyCode::Left => CancelConfirmationAction::Select(ConfirmCancelChoice::No),
        KeyCode::Right => CancelConfirmationAction::Select(ConfirmCancelChoice::Yes),
        KeyCode::Esc => CancelConfirmationAction::Cancel,
        KeyCode::Char(c) => if c == 'h' {
            CancelConfirmationAction::Select(ConfirmCancelChoice::No)
        } else if c == 'l' {
            CancelConfirmationAction::Select(ConfirmCancelChoice::Yes)
        } else if c == 'y' || c == 'Y' {
            CancelConfirmationAction::Confirm
        } else if c == 'n' || c == 'N' {
            CancelConfirmationAction::Cancel
        } else {
            CancelConfirmationAction::Ignore
        },
        _ => CancelConfirmationAction::Ignore,
    }
}

pub fn cancel_confirmation_action(key: Key, selected: ConfirmCancelChoice) -> (r: CancelConfirmationAction)
    ensures
        r == cancel_action_of(key.code, selected),
{
    match key.code {
        KeyCode::Enter => match selected {
            ConfirmCancelChoice::Yes => CancelConfirmationAction::Confirm,
            ConfirmCancelChoice::No => CancelConfirmationAction::Cancel,
        },
        KeyCode::Left => CancelConfirmationAction::Select(ConfirmCancelChoice::No),
        KeyCode::Right => CancelConfirmationAction::Select(ConfirmCancelChoice::Yes),
        KeyCode::Esc => CancelConfirmationAction::Cancel,
        KeyCode::Char(c) => if c == 'h' {
            CancelConfirmationAction::Select(ConfirmCancelChoice::No)
        } else if c == 'l' {
            CancelConfirmationAction::Select(ConfirmCancelChoice::Yes)
        } else if c == 'y' || c == 'Y' {
            CancelConfirmationAction::Confirm
        } else if c == 'n' || c == 'N' {
            CancelConfirmationAction::Cancel
        } else {
            CancelConfirmationAction::Ignore
        },
        _ => CancelConfirmationAction::Ignore,
    }
}

/// What a key does in the copy dialog.
#[derive(Clone, Copy, PartialEq, Eq, Structural, Debug)]
pub enum CopyJobOutputDirectoryAction {
    CopyDirUrl,
    CopyDirName,
    Cancel,
    Ignore,
}

/// `d` copies the directory, `c` its name, Esc closes.
pub open spec fn copy_action_of(code: KeyCode) -> CopyJobOutputDirectoryAction {
    match code {
        KeyCode::Char(c) => if c == 'd' {
            CopyJobOutputDirectoryAction::CopyDirUrl
        } else if c == 'c' {
            CopyJobOutputDirectoryAction::CopyDirName
        } else {
            CopyJobOutputDirectoryAction::Ignore
        },
        KeyCode::Esc => CopyJobOutputDirectoryAction::Cancel,
        _ => CopyJobOutputDirectoryAction::Ignore,
    }
}

pub fn copy_job_output_directory_action(key: Key) -> (r: CopyJobOutputDirectoryAction)
    ensures
        r == copy_action_of(key.code),
{
    match key.code {
        KeyCode::Char(c) => if c == 'd' {
            CopyJobOutputDirectoryAction::CopyDirUrl
        } else if c == 'c' {
            CopyJobOutputDirectoryAction::CopyDirName
        } else {
            CopyJobOutputDirectoryAction::Ignore
        },
        KeyCode::Esc => CopyJobOutputDirectoryAction::Cancel,
        _ => CopyJobOutputDirectoryAction::Ignore,
    }
}

// ---------------------------------------------------------------------------
// Output paths of a job
// ---------------------------------------------------------------------------

pub open spec fn or_else(a: Option<Seq<char>>, b: Option<Seq<char>>) -> Option<Seq<char>> {
    match a {
        Some(x) => Some(x),
        None => b,
    }
}

/// The output file shown for a job in a mode: stderr first in stderr mode,
/// stdout first otherwise.
pub open spec fn preferred_output(j: JobModel, mode: OutputPanelMode) -> Option<Seq<char>> {
    match mode {
        OutputPanelMode::Stderr => or_else(j.stderr, j.stdout),
        _ => or_else(j.stdout, j.stderr),
    }
}

fn clone_opt(o: &Option<String>) -> (r: Option<String>)
    ensures
        match o {
            Some(s) => r matches Some(t) && t@ == s@,
            None => r is None,
        },
{
    match o {
        Some(s) => Some(s.clone()),
        None => None,
    }
}

pub fn preferred_output_path(job: &Job, mode: OutputPanelMode) -> (r: Option<String>)
    ensures
        crate::job::opt_view(r) == preferred_output(job@, mode),
{
    match mode {
        OutputPanelMode::Stderr => if job.stderr.is_some() {
            clone_opt(&job.stderr)
        } else {
            clone_opt(&job.stdout)
        },
        _ => if job.stdout.is_some() {
            clone_opt(&job.stdout)
        } else {
            clone_opt(&job.stderr)
        },
    }
}

/// The file the output panel follows: the job's own stdout or stderr, and
/// none in the other modes.
pub open spec fn watched_output(j: JobModel, mode: OutputPanelMode) -> Option<Seq<char>> {
    match mode {
        OutputPanelMode::Stdout => j.stdout,
        OutputPanelMode::Stderr => j.stderr,
        _ => None,
    }
}

pub fn watched_output_path(job: &Job, mode: OutputPanelMode) -> (r: Option<String>)
    ensures
        crate::job::opt_view(r) == watched_output(job@, mode),
{
    match mode {
        OutputPanelMode::Stdout => clone_opt(&job.stdout),
        OutputPanelMode::Stderr => clone_opt(&job.stderr),
        _ => None,
    }
}

/// A word of a command with its surrounding quotes removed.
pub open spec fn strip_quotes(t: Seq<char>) -> Seq<char>
    decreases t.len(),
{
    if t.len() > 0 && (t[0] == '"' || t[0] == '\'') {
        strip_quotes(t.drop_first())
    } else if t.len() > 0 && (t.last() == '"' || t.last() == '\'') {
        strip_quotes(t.drop_last())
    } else {
        t
    }
}

/// A word that names a path: it holds `/` or starts with `.`.
pub open spec fn looks_like_path(t: Seq<char>) -> bool {
    t.len() > 0 && (t.contains('/') || t[0] == '.')
}

/// The directory of the first path-like word of a command that has one.
pub open spec fn command_parent_from(ws: Seq<Seq<char>>) -> Option<Seq<char>>
    decreases ws.len(),
{
    if ws.len() == 0 {
        None
    } else {
        let t = strip_quotes(ws[0]);
        if looks_like_path(t) && parent_of(t) is Some {
            parent_of(t)
        } else {
            command_parent_from(ws.drop_first())
        }
    }
}

pub open spec fn command_parent(command: Seq<char>) -> Option<Seq<char>> {
    command_parent_from(words(command))
}

fn strip_quotes_chars(t: &[char]) -> (r: Vec<char>)
    ensures
        r@ == strip_quotes(t@),
{
    let mut i: usize = 0;
    let mut j: usize = t.len();
    assert(t@.subrange(0, t.len() as int) =~= t@);
    while i < j && (t[i] == '"' || t[i] == '\'')
        invariant
            0 <= i <= j <= t.len(),
            j == t.len(),
            strip_quotes(t@) == strip_quotes(t@.subrange(i as int, j as int)),
        decreases j - i,
    {
        assert(t@.subrange(i as int, j as int).drop_first() =~= t@.subrange(i + 1, j as int));
        i = i + 1;
    }
    while i < j && (t[j - 1] == '"' || t[j - 1] == '\'')
        invariant
            0 <= i <= j <= t.len(),
            strip_quotes(t@) == strip_quotes(t@.subrange(i as int, j as int)),
            i < j ==> !(t@[i as int] == '"' || t@[i as int] == '\''),
        decreases j - i,
    {
        assert(t@.subrange(i as int, j as int)[0] == t@[i as int]);
        assert(t@.subrange(i as int, j as int).drop_last() =~= t@.subrange(i as int, j - 1));
        j = j - 1;
    }
    proof {
        if i < j {
            assert(t@.subrange(i as int, j as int)[0] == t@[i as int]);
            assert(t@.subrange(i as int, j as int).last() == t@[j - 1]);
        }
    }
    slice_of(t, i, j)
}

/// The directory of the script a command runs, if a word of it names a path.
pub fn command_parent_path(command: &[char]) -> (r: Option<Vec<char>>)
    ensures
        match r {
            Some(p) => command_parent(command@) == Some(p@),
            None => command_parent(command@) is None,
        },
{
    let ws = words_chars(command);
    let ghost wv = words(command@);
    let mut i: usize = 0;
    assert(wv.skip(0) =~= wv);
    while i < ws.len()
        invariant
            views(ws@) == wv,
            wv == words(command@),
            i <= ws.len(),
            command_parent_from(wv) == command_parent_from(wv.skip(i as int)),
        decreases ws.len() - i,
    {
        assert(views(ws@)[i as int] == ws@[i as int]@);
        assert(wv.skip(i as int)[0] == wv[i as int]);
        assert(wv.skip(i as int).drop_first() =~= wv.skip(i + 1));
        let t = strip_quotes_chars(ws[i].as_slice());
        let mut has_slash = false;
        let mut k: usize = 0;
        while k < t.len()
            invariant
                k <= t.len(),
                has_slash == exists|q: int| 0 <= q < k && t@[q] == '/',
            decreases t.len() - k,
        {
            if t[k] == '/' {
                has_slash = true;
            }
            k = k + 1;
        }
        assert(has_slash == t@.contains('/'));
        assert(t@ == strip_quotes(wv.skip(i as int)[0]));
        if t.len() > 0 && (has_slash || t[0] == '.') {
            match parent_chars(t.as_slice()) {
                Some(p) => {
                    assert(command_parent_from(wv.skip(i as int)) == Some(p@));
                    return Some(p);
                },
                None => {},
            }
        }
        i = i + 1;
    }
    assert(wv.skip(ws.len() as int) =~= Seq::<Seq<char>>::empty());
    None
}

/// The directory a job works in: its working directory, else the directory
/// of its stdout, of its stderr, or of the script its command runs.
pub open spec fn workdir_of(j: JobModel) -> Option<Seq<char>> {
    match j.workdir {
        Some(w) => Some(w),
        None => match (match j.stdout {
            Some(p) => parent_of(p),
            None => None,
        }) {
            Some(d) => Some(d),
            None => match (match j.stderr {
                Some(p) => parent_of(p),
                None => None,
            }) {
                Some(d) => Some(d),
                None => command_parent(j.command),
            },
        },
    }
}

fn parent_of_opt(o: &Option<String>) -> (r: Option<Vec<char>>)
    ensures
        match r {
            Some(p) => (match o {
                Some(s) => parent_of(s@),
                None => None,
            }) == Some(p@),
            None => (match o {
                Some(s) => parent_of(s@),
                None => None,
            }) is None,
        },
{
    match o {
        Some(s) => parent_chars(chars_of(s.as_str()).as_slice()),
        None => None,
    }
}

/// The directory a job works in.
pub fn derive_workdir_path(job: &Job) -> (r: Option<String>)
    ensures
        crate::job::opt_view(r) == workdir_of(job@),
{
    match &job.workdir {
        Some(w) => Some(w.clone()),
        None => match parent_of_opt(&job.stdout) {
            Some(d) => Some(string_of(d.as_slice())),
            None => match parent_of_opt(&job.stderr) {
                Some(d) => Some(string_of(d.as_slice())),
                None => match command_parent_path(chars_of(job.command.as_str()).as_slice()) {
                    Some(d) => Some(string_of(d.as_slice())),
                    None => None,
                },
            },
        },
    }
}

/// The directory the copy dialog offers: the working directory in workdir
/// mode, else the directory of the shown output file.
pub open spec fn output_directory(j: JobModel, mode: OutputPanelMode) -> Option<Seq<char>> {
    match mode {
        OutputPanelMode::Workdir => workdir_of(j),
        _ => match preferred_output(j, mode) {
            Some(p) => parent_of(p),
            None => None,
        },
    }
}

pub fn output_directory_for_mode(job: &Job, mode: OutputPanelMode) -> (r: Option<String>)
    ensures
        crate::job::opt_view(r) == output_directory(job@, mode),
{
    match mode {
        OutputPanelMode::Workdir => derive_workdir_path(job),
        _ => match preferred_output_path(job, mode) {
            Some(p) => match parent_chars(chars_of(p.as_str()).as_slice()) {
                Some(d) => Some(string_of(d.as_slice())),
                None => None,
            },
            None => None,
        },
    }
}

/// The two values the copy dialog offers for a directory: its path and its
/// name (the path itself when it has no final name); none for an empty path.
pub open spec fn copy_values(path: Seq<char>) -> Option<(Seq<char>, Seq<char>)> {
    let name = match file_name_of(path) {
        Some(n) => if n.len() > 0 {
            n
        } else {
            path
        },
        None => path,
    };
    if path.len() == 0 || name.len() == 0 {
        None
    } else {
        Some((path, name))
    }
}

pub fn copy_job_output_directory_value(path: &str) -> (r: Option<(String, String)>)
    ensures
        match r {
            Some(v) => copy_values(path@) == Some((v.0@, v.1@)),
            None => copy_values(path@) is None,
        },
{
    let p = chars_of(path);
    let name = match file_name_chars(p.as_slice()) {
        Some(n) => if n.len() > 0 {
            n
        } else {
            slice_of(p.as_slice(), 0, p.len())
        },
        None => slice_of(p.as_slice(), 0, p.len()),
    };
    assert(p@.subrange(0, p@.len() as int) =~= p@);
    if p.len() == 0 || name.len() == 0 {
        None
    } else {
        Some((string_of(p.as_slice()), string_of(name.as_slice())))
    }
}

} // verus!
