use turm::details_view::details_selection_rows;
use turm::geometry::Rect;
use turm::mouse::{MouseKind, MouseStep};
use turm::selection::{mouse_selection_row_bounds, mouse_selection_y_bounds, MouseSelection};
use turm::test_support::{
    cancellation_action as cancel_confirmation_action, AppDriver, TestWorkdirEntry as WorkdirEntry,
    TestWorkdirEntryKind as WorkdirEntryKind,
};
use turm::ui::{CancelConfirmationAction, Key, KeyCode, KeyModifiers, TextInput};
use turm::{AppMessage, ConfirmCancelChoice, Dialog, Focus, OutputPanelMode, ScrollAnchor};


fn test_app(job_count: usize, selected: Option<usize>) -> AppDriver {
    AppDriver::new(job_count, selected)
}

fn draw_app(app: &mut AppDriver, width: u16, height: u16) {
    let _ = app.render(width, height);
}

fn key(char_key: char) -> Key {
    Key::new(KeyCode::Char(char_key), KeyModifiers::none())
}

fn special_key(code: KeyCode) -> Key {
    Key::new(code, KeyModifiers::none())
}

fn app_with_output_lines(lines: &[&str]) -> AppDriver {
    let mut app = test_app(1, Some(0));
    app.set_output_mode(OutputPanelMode::Stdout);
    app.set_job_output(lines.join("\n"));
    app
}

/// A mouse event taken as the program takes it; the second value is
/// `(should_quit, should_draw)`.
fn mouse(
    app: &mut AppDriver,
    selection: &mut Option<MouseSelection>,
    kind: MouseKind,
    column: u16,
    row: u16,
) -> (MouseStep, (bool, bool)) {
    let step = app.handle_mouse(*selection, kind, column, row);
    *selection = step.selection;
    (step, (false, step.draw))
}

/// The cells a selection covers on the output lines shown from the
/// viewport's top left, one text line per screen row.
fn selected_output_text(selection: MouseSelection, details: Rect, viewport: Rect, lines: &[&str]) -> String {
    let (top, bottom) = mouse_selection_y_bounds(selection, &Vec::new());
    let mut out: Vec<String> = Vec::new();
    for y in top..=bottom {
        if let Some((left, right)) = mouse_selection_row_bounds(selection, details, &Vec::new(), y) {
            let line: Vec<char> = lines[(y - viewport.y) as usize].chars().collect();
            let from = (left - viewport.x) as usize;
            let to = ((right - viewport.x) as usize + 1).min(line.len());
            out.push(if from < to { line[from..to].iter().collect() } else { String::new() });
        }
    }
    out.join("\n")
}

fn details_area(app: &AppDriver) -> Rect {
    app.job_details_area()
}

#[test]
fn tests_mouse_click_on_jobs_restores_jobs_focus_and_selection() {
    let mut app = test_app(6, Some(0));
    draw_app(&mut app, 120, 20);
    app.set_focus(Focus::Log);

    let first_row_y = app.job_list_area().y.saturating_add(2);
    let job_name_x = app.job_list_area().x + 2;

    app.handle(AppMessage::MouseClick { column: job_name_x, row: first_row_y });

    assert_eq!(app.focus(), Focus::Jobs);
    assert_eq!(app.selected_job_index(), Some(0));
}

#[test]
fn app_navigation_mouse_click_on_jobs_restores_jobs_focus_and_selection() {
    let mut app = test_app(6, Some(1));
    draw_app(&mut app, 120, 20);
    app.set_focus(Focus::Log);

    let first_row_y = app.job_list_area().y.saturating_add(2);
    let job_name_x = app.job_list_area().x + 2;

    app.handle(AppMessage::MouseClick { column: job_name_x, row: first_row_y });

    assert_eq!(app.focus(), Focus::Jobs);
    assert_eq!(app.selected_job_index(), Some(0));
}

#[test]
fn tests_dialog_blocks_mouse_focus_changes() {
    let mut app = test_app(4, Some(0));
    draw_app(&mut app, 120, 20);
    app.set_dialog(Some(Dialog::FilterJobs { input: TextInput::new(String::new()) }));

    let details = details_area(&app);
    let mut selection = None;
    let (_, (should_quit, should_draw)) = mouse(
        &mut app,
        &mut selection,
        MouseKind::Press,
        details.x.saturating_add(1),
        details.y.saturating_add(1),
    );

    assert!(!should_quit);
    assert!(!should_draw);
    assert_eq!(app.focus(), Focus::Jobs);
}

#[test]
fn app_navigation_dialog_blocks_mouse_focus_changes() {
    let mut app = test_app(4, Some(0));
    draw_app(&mut app, 120, 40);
    app.set_dialog(Some(Dialog::FilterJobs { input: TextInput::new(String::new()) }));

    let details = details_area(&app);
    let mut selection = None;
    let (_, (should_quit, should_draw)) = mouse(
        &mut app,
        &mut selection,
        MouseKind::Press,
        details.x.saturating_add(1),
        details.y.saturating_add(1),
    );

    assert!(!should_quit);
    assert!(!should_draw);
    assert_eq!(app.focus(), Focus::Jobs);
}

#[test]
fn app_dialogs_ctrl_d_in_log_focus_opens_cancel_popup() {
    let mut app = app_with_output_lines(&[
        "line 1", "line 2", "line 3", "line 4", "line 5", "line 6", "line 7", "line 8", "line 9",
        "line 10", "line 11", "line 12",
    ]);
    draw_app(&mut app, 40, 10);
    app.set_focus(Focus::Log);
    app.handle(AppMessage::Key(Key::new(KeyCode::Char('d'), KeyModifiers::control_only())));

    assert!(matches!(app.dialog(), Some(Dialog::ConfirmCancelJob { .. })));
}

#[test]
fn tests_cancel_confirmation_maps_yes_keys_without_running_scancel() {
    for key_event in [key('y'), key('Y')] {
        assert_eq!(
            cancel_confirmation_action(key_event, ConfirmCancelChoice::No),
            CancelConfirmationAction::Confirm
        );
    }
    assert_eq!(
        cancel_confirmation_action(special_key(KeyCode::Enter), ConfirmCancelChoice::Yes),
        CancelConfirmationAction::Confirm
    );
}

#[test]
fn mouse_click_on_workdir_selects_the_clicked_entry() {
    let mut app = test_app(1, Some(0));
    app.set_output_mode(OutputPanelMode::Workdir);
    app.set_workdir_entries(vec![
        WorkdirEntry {
            name: "alpha".to_string(),
            path: "/tmp/alpha".to_string(),
            kind: WorkdirEntryKind::Directory,
        },
        WorkdirEntry {
            name: "beta".to_string(),
            path: "/tmp/beta".to_string(),
            kind: WorkdirEntryKind::File,
        },
    ]);
    app.set_workdir_selected(Some(0));
    draw_app(&mut app, 80, 40);
    let viewport = app.layout().viewport;
    let row = viewport.y + 2;

    let mut selection = None;
    mouse(&mut app, &mut selection, MouseKind::Press, viewport.x + 1, row);
    let (up, _) = mouse(&mut app, &mut selection, MouseKind::Release, viewport.x + 1, row);

    assert_eq!(app.focus(), Focus::Log);
    assert_eq!(app.workdir_selected(), Some(1));
    assert!(up.copy_from.is_none());
    assert_eq!(app.pending_clipboard_copy(), None);
}

#[test]
fn mouse_short_click_selects_a_job_without_highlighting() {
    let mut app = test_app(4, Some(1));
    draw_app(&mut app, 120, 20);
    let first_row_y = app.job_list_area().y.saturating_add(2);
    let job_name_x = app.job_list_area().x + 2;

    let mut selection = None;
    let (down, _) = mouse(&mut app, &mut selection, MouseKind::Press, job_name_x, first_row_y);
    draw_app(&mut app, 120, 20);

    assert_eq!(app.focus(), Focus::Jobs);
    assert_eq!(app.selected_job_index(), Some(0));
    // A press alone highlights nothing: the selection has not been dragged.
    assert!(!down.selection.map_or(false, |s| s.dragged));

    let (up, _) = mouse(&mut app, &mut selection, MouseKind::Release, job_name_x, first_row_y);
    assert!(up.copy_from.is_none());
    assert_eq!(app.pending_clipboard_copy(), None);
}

#[test]
fn mouse_selection_is_row_major_and_excludes_the_scrollbar() {
    let lines = [
        "abcdefghij",
        "klmnopqrst",
        "uvwxyz0123",
        "456789ABCD",
        "EFGHIJKLMN",
        "OPQRSTUVWX",
        "YZabcdefgh",
        "ijklmnopqr",
    ];
    let mut app = app_with_output_lines(&lines);
    app.set_output_anchor(ScrollAnchor::Top);
    draw_app(&mut app, 80, 29);
    let viewport = app.layout().viewport;
    assert!(app.layout().show_vertical);

    let mut selection = None;
    mouse(&mut app, &mut selection, MouseKind::Press, viewport.x + 3, viewport.y);
    mouse(&mut app, &mut selection, MouseKind::Drag, viewport.x + 1, viewport.y + 1);
    let (up, _) = mouse(&mut app, &mut selection, MouseKind::Release, viewport.x + 1, viewport.y + 1);
    draw_app(&mut app, 80, 29);

    let copied = up.copy_from.expect("a dragged selection is copied");
    let scrollbar_x = viewport.x + viewport.width;
    for y in viewport.y..viewport.y + 2 {
        let (_, right) = mouse_selection_row_bounds(copied, details_area(&app), &Vec::new(), y).unwrap();
        assert!(right < scrollbar_x);
    }

    assert_eq!(selected_output_text(copied, details_area(&app), viewport, &lines), "abcdefghij\nkl");
    // The selection ends with the release: nothing stays highlighted.
    assert!(up.selection.is_none());
}

#[test]
fn mouse_selection_excludes_output_left_padding() {
    let mut app = app_with_output_lines(&["abcdefghij", "klmnopqrst"]);
    draw_app(&mut app, 80, 29);
    let area = app.job_output_area();
    let viewport = app.layout().viewport;
    assert_eq!(viewport.x, area.x + 2);

    let mut selection = None;
    mouse(&mut app, &mut selection, MouseKind::Press, area.x + 1, viewport.y);
    mouse(&mut app, &mut selection, MouseKind::Drag, viewport.x + 3, viewport.y + 1);
    let (up, _) = mouse(&mut app, &mut selection, MouseKind::Release, viewport.x + 3, viewport.y + 1);

    assert!(up.copy_from.is_none());
    assert_eq!(app.pending_clipboard_copy(), None);
}

#[test]
fn details_selection_is_aware_of_wrapped_key_and_value_elements() {
    let mut app = test_app(1, Some(0));
    app.app.jobs.jobs[0].tres = "cpu=64,mem=512G,gres/gpu=8,node=4,billing=64,license=vasp".to_string();
    draw_app(&mut app, 120, 20);
    let details = app.job_details_area();
    let inner = Rect {
        x: details.x + 2,
        y: details.y + 1,
        width: details.width - 4,
        height: details.height - 2,
    };
    let lines = app.app.details_lines(inner.width);
    let rows = details_selection_rows(&lines, inner);
    let tres_line = lines
        .iter()
        .position(|l| l.prefix.iter().collect::<String>().contains("TRES"))
        .unwrap();
    let first_row = inner.y + tres_line as u16;
    let key_x = details.x + 2;
    let value_x = key_x + 9;

    let mut selection = None;
    mouse(&mut app, &mut selection, MouseKind::Press, key_x, first_row);
    mouse(&mut app, &mut selection, MouseKind::Drag, value_x + 2, first_row);
    let s = selection.expect("the drag keeps the selection");

    let (left, right) = mouse_selection_row_bounds(s, details, &rows, first_row + 1).unwrap();
    assert!(left <= key_x && key_x <= right);
    assert!(!(left <= value_x && value_x <= right));
}

#[test]
fn workdir_mode_reports_missing_path() {
    let mut app = test_app(1, Some(0));
    app.set_output_mode(OutputPanelMode::Collapsed);
    draw_app(&mut app, 120, 40);
    app.handle(AppMessage::Key(key('o')));
    draw_app(&mut app, 100, 29);

    assert_eq!(app.output_mode(), OutputPanelMode::Workdir);
    assert_eq!(app.app.output.workdir_error.as_deref(), Some("No workdir available"));
}
