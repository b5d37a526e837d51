//! What a key does when no dialog is open, by the focused panel.
use vstd::prelude::*;

use crate::sorting::JobSortField;
use crate::ui::{Focus, Key, KeyCode};

verus! {

/// What a key asks for when no dialog is open.
#[derive(Clone, Copy, PartialEq, Eq, Structural, Debug)]
pub enum MainKeyAction {
    /// Leave with what Enter does in the output mode.
    Exit,
    CycleOutput,
    FocusPrevious,
    FocusNext,
    ResourcesPrevious,
    ResourcesNext,
    ResourcesFirst,
    ResourcesLast,
    JobsPrevious,
    JobsNext,
    JobsFirst,
    JobsLast,
    JobsHalfPageUp,
    Sort(JobSortField),
    OutputUp(u16),
    OutputDown(u16),
    OutputTop,
    OutputBottom,
    OutputHalfPageUp,
    OutputPageLeft,
    OutputPageRight,
    ToggleWrap,
    OpenFilter,
    ConfirmCancel,
    ToggleDetails,
    CopySelection,
    CopyDirectory,
    RenameJob,
    EditTimeLimit,
    Nothing,
}

/// Up and `k`: the previous row, or one line up in the output.
pub open spec fn up_action(focus: Focus) -> MainKeyAction {
    match focus {
        Focus::Resources => MainKeyAction::ResourcesPrevious,
        Focus::Jobs => MainKeyAction::JobsPrevious,
        Focus::Details => MainKeyAction::Nothing,
        Focus::Log => MainKeyAction::OutputUp(1),
    }
}

/// Down: the next row, or one line down in the output.
pub open spec fn down_action(focus: Focus) -> MainKeyAction {
    match focus {
        Focus::Resources => MainKeyAction::ResourcesNext,
        Focus::Jobs => MainKeyAction::JobsNext,
        Focus::Details => MainKeyAction::Nothing,
        Focus::Log => MainKeyAction::OutputDown(1),
    }
}

pub open spec fn if_focus(focus: Focus, wanted: Focus, action: MainKeyAction) -> MainKeyAction {
    if focus == wanted {
        action
    } else {
        MainKeyAction::Nothing
    }
}

/// The letters: `j` sorts the jobs by id (and moves down elsewhere), `g`
/// and `G` go to the first and last row, `f` filters, `s` `p` `n` `u` `t`
/// sort the jobs, control-`u` goes half a page up, `d` toggles the details
/// and control-`d` cancels a job, `H` and `L` scroll the output sideways,
/// control-`c` copies the mouse selection and `c` the output directory,
/// `r` renames a job (not from the resources, unless with control),
/// control-`t` edits the time limit, `w` toggles wrapping, `o` switches
/// the output panel as Tab does.
pub open spec fn char_action(c: char, control: bool, focus: Focus) -> MainKeyAction {
    if c == 'k' {
        up_action(focus)
    } else if c == 'j' {
        match focus {
            Focus::Resources => MainKeyAction::ResourcesNext,
            Focus::Jobs => MainKeyAction::Sort(JobSortField::Id),
            Focus::Details => MainKeyAction::Nothing,
            Focus::Log => MainKeyAction::OutputDown(1),
        }
    } else if c == 'g' {
        match focus {
            Focus::Resources => MainKeyAction::ResourcesFirst,
            Focus::Jobs => MainKeyAction::JobsFirst,
            Focus::Details => MainKeyAction::Nothing,
            Focus::Log => MainKeyAction::OutputTop,
        }
    } else if c == 'G' {
        match focus {
            Focus::Resources => MainKeyAction::ResourcesLast,
            Focus::Jobs => MainKeyAction::JobsLast,
            Focus::Details => MainKeyAction::Nothing,
            Focus::Log => MainKeyAction::OutputBottom,
        }
    } else if c == 'f' {
        MainKeyAction::OpenFilter
    } else if c == 's' {
        if_focus(focus, Focus::Jobs, MainKeyAction::Sort(JobSortField::State))
    } else if c == 'p' {
        if_focus(focus, Focus::Jobs, MainKeyAction::Sort(JobSortField::Partition))
    } else if c == 'n' {
        if_focus(focus, Focus::Jobs, MainKeyAction::Sort(JobSortField::Name))
    } else if c == 'u' {
        if control {
            match focus {
                Focus::Jobs => MainKeyAction::JobsHalfPageUp,
                Focus::Log => MainKeyAction::OutputHalfPageUp,
                _ => MainKeyAction::Nothing,
            }
        } else {
            if_focus(focus, Focus::Jobs, MainKeyAction::Sort(JobSortField::User))
        }
    } else if c == 'd' {
        if control {
            MainKeyAction::ConfirmCancel
        } else {
            MainKeyAction::ToggleDetails
        }
    } else if c == 'H' {
        if_focus(focus, Focus::Log, MainKeyAction::OutputPageLeft)
    } else if c == 'L' {
        if_focus(focus, Focus::Log, MainKeyAction::OutputPageRight)
    } else if c == 'c' {
        if control {
            MainKeyAction::CopySelection
        } else {
            if_focus(focus, Focus::Jobs, MainKeyAction::CopyDirectory)
        }
    } else if c == 'r' {
        if control || focus != Focus::Resources {
            MainKeyAction::RenameJob
        } else {
            MainKeyAction::Nothing
        }
    } else if c == 't' {
        if control {
            MainKeyAction::EditTimeLimit
        } else {
            if_focus(focus, Focus::Jobs, MainKeyAction::Sort(JobSortField::Time))
        }
    } else if c == 'w' {
        if_focus(focus, Focus::Log, MainKeyAction::ToggleWrap)
    } else if c == 'o' {
        MainKeyAction::CycleOutput
    } else {
        MainKeyAction::Nothing
    }
}

/// The key map: Enter leaves, Tab switches the output, left and right move
/// the focus, up and down move in the focused panel; page keys (fifty lines
/// with shift, control or alt), Home and End scroll the focused output.
pub open spec fn spec_main_key_action(key: Key, focus: Focus) -> MainKeyAction {
    let big = key.modifiers.shift || key.modifiers.control || key.modifiers.alt;
    match key.code {
        KeyCode::Enter => MainKeyAction::Exit,
        KeyCode::Tab => MainKeyAction::CycleOutput,
        KeyCode::Left => MainKeyAction::FocusPrevious,
        KeyCode::Right => MainKeyAction::FocusNext,
        KeyCode::Up => up_action(focus),
        KeyCode::Down => down_action(focus),
        KeyCode::Char(c) => char_action(c, key.modifiers.control, focus),
        KeyCode::PageDown => if_focus(
            focus,
            Focus::Log,
            MainKeyAction::OutputDown(
                if big {
                    50
                } else {
                    1
                },
            ),
        ),
        KeyCode::PageUp => if_focus(
            focus,
            Focus::Log,
            MainKeyAction::OutputUp(
                if big {
                    50
                } else {
                    1
                },
            ),
        ),
        KeyCode::Home => if_focus(focus, Focus::Log, MainKeyAction::OutputTop),
        KeyCode::End => if_focus(focus, Focus::Log, MainKeyAction::OutputBottom),
        _ => MainKeyAction::Nothing,
    }
}

fn focus_is(focus: Focus, wanted: Focus, action: MainKeyAction) -> (r: MainKeyAction)
    ensures
        r == if_focus(focus, wanted, action),
{
    if focus == wanted {
        action
    } else {
        MainKeyAction::Nothing
    }
}

fn up_for(focus: Focus) -> (r: MainKeyAction)
    ensures
        r == up_action(focus),
{
    match focus {
        Focus::Resources => MainKeyAction::ResourcesPrevious,
        Focus::Jobs => MainKeyAction::JobsPrevious,
        Focus::Details => MainKeyAction::Nothing,
        Focus::Log => MainKeyAction::OutputUp(1),
    }
}

fn char_for(c: char, control: bool, focus: Focus) -> (r: MainKeyAction)
    ensures
        r == char_action(c, control, focus),
{
    if c == 'k' {
        up_for(focus)
    } else if c == 'j' {
        match focus {
            Focus::Resources => MainKeyAction::ResourcesNext,
            Focus::Jobs => MainKeyAction::Sort(JobSortField::Id),
            Focus::Details => MainKeyAction::Nothing,
            Focus::Log => MainKeyAction::OutputDown(1),
        }
    } else if c == 'g' {
        match focus {
            Focus::Resources => MainKeyAction::ResourcesFirst,
            Focus::Jobs => MainKeyAction::JobsFirst,
            Focus::Details => MainKeyAction::Nothing,
            Focus::Log => MainKeyAction::OutputTop,
        }
    } else if c == 'G' {
        match focus {
            Focus::Resources => MainKeyAction::ResourcesLast,
            Focus::Jobs => MainKeyAction::JobsLast,
            Focus::Details => MainKeyAction::Nothing,
            Focus::Log => MainKeyAction::OutputBottom,
        }
    } else if c == 'f' {
        MainKeyAction::OpenFilter
    } else if c == 's' {
        focus_is(focus, Focus::Jobs, MainKeyAction::Sort(JobSortField::State))
    } else if c == 'p' {
        focus_is(focus, Focus::Jobs, MainKeyAction::Sort(JobSortField::Partition))
    } else if c == 'n' {
        focus_is(focus, Focus::Jobs, MainKeyAction::Sort(JobSortField::Name))
    } else if c == 'u' {
        if control {
            match focus {
                Focus::Jobs => MainKeyAction::JobsHalfPageUp,
                Focus::Log => MainKeyAction::OutputHalfPageUp,
                _ => MainKeyAction::Nothing,
            }
        } else {
            focus_is(focus, Focus::Jobs, MainKeyAction::Sort(JobSortField::User))
        }
    } else if c == 'd' {
        if control {
            MainKeyAction::ConfirmCancel
        } else {
            MainKeyAction::ToggleDetails
        }
    } else if c == 'H' {
        focus_is(focus, Focus::Log, MainKeyAction::OutputPageLeft)
    } else if c == 'L' {
        focus_is(focus, Focus::Log, MainKeyAction::OutputPageRight)
    } else if c == 'c' {
        if control {
            MainKeyAction::CopySelection
        } else {
            focus_is(focus, Focus::Jobs, MainKeyAction::CopyDirectory)
        }
    } else if c == 'r' {
        if control || focus != Focus::Resources {
            MainKeyAction::RenameJob
        } else {
            MainKeyAction::Nothing
        }
    } else if c == 't' {
        if control {
            MainKeyAction::EditTimeLimit
        } else {
            focus_is(focus, Focus::Jobs, MainKeyAction::Sort(JobSortField::Time))
        }
    } else if c == 'w' {
        focus_is(focus, Focus::Log, MainKeyAction::ToggleWrap)
    } else if c == 'o' {
        MainKeyAction::CycleOutput
    } else {
        MainKeyAction::Nothing
    }
}

/// What a key asks for when no dialog is open.
pub fn main_key_action(key: Key, focus: Focus) -> (r: MainKeyAction)
    ensures
        r == spec_main_key_action(key, focus),
{
    let big = key.modifiers.shift || key.modifiers.control || key.modifiers.alt;
    let step: u16 = if big {
        50
    } else {
        1
    };
    match key.code {
        KeyCode::Enter => MainKeyAction::Exit,
        KeyCode::Tab => MainKeyAction::CycleOutput,
        KeyCode::Left => MainKeyAction::FocusPrevious,
        KeyCode::Right => MainKeyAction::FocusNext,
        KeyCode::Up => up_for(focus),
        KeyCode::Down => match focus {
            Focus::Resources => MainKeyAction::ResourcesNext,
            Focus::Jobs => MainKeyAction::JobsNext,
            Focus::Details => MainKeyAction::Nothing,
            Focus::Log => MainKeyAction::OutputDown(1),
        },
        KeyCode::Char(c) => char_for(c, key.modifiers.control, focus),
        KeyCode::PageDown => focus_is(focus, Focus::Log, MainKeyAction::OutputDown(step)),
        KeyCode::PageUp => focus_is(focus, Focus::Log, MainKeyAction::OutputUp(step)),
        KeyCode::Home => focus_is(focus, Focus::Log, MainKeyAction::OutputTop),
        KeyCode::End => focus_is(focus, Focus::Log, MainKeyAction::OutputBottom),
        _ => MainKeyAction::Nothing,
    }
}

} // verus!
