#![allow(dead_code)]
use turm::test_support::{
    cancellation_action as cancel_confirmation_action, chunk_string as chunked_string,
    validate_time_limit as validated_time_limit, watched_path as watched_output_path, AppDriver,
    TestJobSortField as JobSortField, TestSortDirection as SortDirection,
    TestWorkdirEntry as WorkdirEntry, TestWorkdirEntryKind as WorkdirEntryKind,
};
use turm::ui::{Key, KeyCode, KeyModifiers, TextInput};
use turm::geometry::Rect;
use turm::{AppExit, AppMessage, ConfirmCancelChoice, Dialog, Focus, Job, OutputPanelMode, ScrollAnchor};

fn test_job(index: usize) -> Job {
    turm::test_support::test_job(index)
}

fn test_app(job_count: usize, selected: Option<usize>) -> AppDriver {
    AppDriver::new(job_count, selected)
}

fn app_with_jobs(jobs: Vec<Job>, selected: Option<usize>) -> AppDriver {
    AppDriver::with_jobs(jobs, selected)
}

fn visible_job_ids(app: &AppDriver) -> Vec<String> {
    app.visible_job_ids()
}

fn ids(values: &[&str]) -> Vec<String> {
    values.iter().map(|value| (*value).to_string()).collect()
}

fn filter_test_jobs() -> Vec<Job> {
    let mut alpha = test_job(0);
    alpha.job_id = "101512".to_string();
    alpha.array_id = "101512".to_string();
    alpha.name = "vasp-alpha".to_string();
    alpha.user = "chlo".to_string();
    alpha.partition = "gpu".to_string();
    alpha.state = "RUNNING".to_string();
    alpha.state_compact = "R".to_string();
    alpha.time = "7:00".to_string();

    let mut beta = test_job(1);
    beta.job_id = "202000".to_string();
    beta.array_id = "202000".to_string();
    beta.name = "relax-beta".to_string();
    beta.user = "alex".to_string();
    beta.partition = "debug".to_string();
    beta.state = "PENDING".to_string();
    beta.state_compact = "PD".to_string();
    beta.time = "00:10:00".to_string();

    let mut gamma = test_job(2);
    gamma.job_id = "303333".to_string();
    gamma.array_id = "303333".to_string();
    gamma.name = "analysis-gamma".to_string();
    gamma.user = "chlo".to_string();
    gamma.partition = "cpu".to_string();
    gamma.state = "COMPLETED".to_string();
    gamma.state_compact = "CG".to_string();
    gamma.time = "01:23:00".to_string();

    vec![alpha, beta, gamma]
}

fn key(char_key: char) -> Key {
    Key::new(KeyCode::Char(char_key), KeyModifiers::none())
}

fn special_key(code: KeyCode) -> Key {
    Key::new(code, KeyModifiers::none())
}

fn key_with_modifiers(char_key: char, modifiers: KeyModifiers) -> Key {
    Key::new(KeyCode::Char(char_key), modifiers)
}

fn open_filter(app: &mut AppDriver) {
    app.handle(AppMessage::Key(key('f')));
}

fn type_in_filter(app: &mut AppDriver, value: &str) {
    for ch in value.chars() {
        app.handle(AppMessage::Key(key(ch)));
    }
}

fn filtered_jobs_app() -> AppDriver {
    let mut app = app_with_jobs(filter_test_jobs(), Some(0));
    app.apply_job_filter("id:101512");
    app
}

fn app_with_output_lines(lines: &[&str]) -> AppDriver {
    let mut app = test_app(1, Some(0));
    app.set_output_mode(OutputPanelMode::Stdout);
    app.set_job_output(lines.join("\n"));
    app
}

fn copyable_jobs_app() -> AppDriver {
    let mut app = filtered_jobs_app();
    app.app.jobs.jobs[0].stdout = Some("/scratch/chlo/vasp-alpha/stdout.log".to_string());
    app.app.jobs.jobs[0].stderr = Some("/scratch/chlo/vasp-alpha/stderr.log".to_string());
    app
}

fn copyable_jobs_app_with_output_path(path: &str) -> AppDriver {
    let mut app = filtered_jobs_app();
    app.app.jobs.jobs[0].stdout = Some(path.to_string());
    app.app.jobs.jobs[0].stderr = Some(path.to_string());
    app
}

fn draw_app(app: &mut AppDriver, width: u16, height: u16) {
    let _ = app.render(width, height);
}

fn details_area(app: &AppDriver) -> Rect {
    app.job_details_area()
}


#[test]
fn arrows_cycle_panel_focus_and_tab_cycles_output() {
    let mut app = test_app(3, Some(0));
    let _ = draw_app(&mut app, 120, 40);

    assert_eq!(app.output_mode(), OutputPanelMode::Workdir);
    app.handle(AppMessage::Key(special_key(KeyCode::Tab)));
    assert_eq!(app.output_mode(), OutputPanelMode::Stdout);

    app.handle(AppMessage::Key(special_key(KeyCode::Right)));
    assert_eq!(app.focus(), Focus::Log);
    app.handle(AppMessage::Key(special_key(KeyCode::Right)));
    assert_eq!(app.focus(), Focus::Resources);

    app.handle(AppMessage::Key(special_key(KeyCode::Tab)));
    assert_eq!(app.output_mode(), OutputPanelMode::Stderr);
    app.handle(AppMessage::Key(special_key(KeyCode::Right)));
    assert_eq!(app.focus(), Focus::Jobs);
    app.handle(AppMessage::Key(special_key(KeyCode::Left)));
    assert_eq!(app.focus(), Focus::Resources);
}

#[test]
fn tab_closing_focused_output_returns_focus_to_jobs() {
    let mut app = test_app(3, Some(0));
    let _ = draw_app(&mut app, 120, 40);
    app.set_output_mode(OutputPanelMode::Stderr);
    app.set_focus(Focus::Log);

    app.handle(AppMessage::Key(special_key(KeyCode::Tab)));

    assert_eq!(app.output_mode(), OutputPanelMode::Collapsed);
    assert_eq!(app.focus(), Focus::Jobs);
}

#[test]
fn mouse_click_focuses_jobs_and_output_panels() {
    let mut app = test_app(4, Some(0));
    let _ = draw_app(&mut app, 120, 40);

    let details = details_area(&app);
    app.handle(AppMessage::MouseClick {
        column: details.x.saturating_add(1),
        row: details.y.saturating_add(1),
    });
    assert_eq!(app.focus(), Focus::Jobs);

    let log = app.job_output_area();
    app.handle(AppMessage::MouseClick {
        column: log.x.saturating_add(1),
        row: log.y.saturating_add(1),
    });
    assert_eq!(app.focus(), Focus::Log);
}

#[test]
fn mouse_click_on_workdir_selects_clicked_entry() {
    let mut app = test_app(1, Some(0));
    app.set_output_mode(OutputPanelMode::Workdir);
    app.set_workdir_entries(vec![
        WorkdirEntry {
            name: "alpha".to_string(),
            path: "/tmp/alpha".to_string(),
            kind: WorkdirEntryKind::Directory,
        },
        WorkdirEntry {
            name: "beta".to_string(),
            path: "/tmp/beta".to_string(),
            kind: WorkdirEntryKind::File,
        },
        WorkdirEntry {
            name: "gamma".to_string(),
            path: "/tmp/gamma".to_string(),
            kind: WorkdirEntryKind::File,
        },
        WorkdirEntry {
            name: "delta".to_string(),
            path: "/tmp/delta".to_string(),
            kind: WorkdirEntryKind::File,
        },
    ]);
    app.set_workdir_selected(Some(0));
    app.set_workdir_offset(1);

    let _ = draw_app(&mut app, 80, 40);
    let viewport = app.layout().viewport;

    app.handle(AppMessage::MouseClick {
        column: viewport.x.saturating_add(1),
        row: viewport.y.saturating_add(2),
    });

    assert_eq!(app.focus(), Focus::Log);
    assert_eq!(app.workdir_selected(), Some(2));
}

#[test]
fn mouse_click_on_empty_workdir_row_only_changes_focus() {
    let mut app = test_app(1, Some(0));
    app.set_output_mode(OutputPanelMode::Workdir);
    app.set_workdir_entries(vec![
        WorkdirEntry {
            name: "alpha".to_string(),
            path: "/tmp/alpha".to_string(),
            kind: WorkdirEntryKind::Directory,
        },
        WorkdirEntry {
            name: "beta".to_string(),
            path: "/tmp/beta".to_string(),
            kind: WorkdirEntryKind::File,
        },
    ]);
    app.set_workdir_selected(Some(1));

    let _ = draw_app(&mut app, 80, 40);
    let viewport = app.layout().viewport;
    let empty_row = viewport
        .y
        .saturating_add(app.workdir_entry_count() as u16 + 1);
    assert!(empty_row < viewport.y.saturating_add(viewport.height));

    app.handle(AppMessage::MouseClick {
        column: viewport.x.saturating_add(1),
        row: empty_row,
    });

    assert_eq!(app.focus(), Focus::Log);
    assert_eq!(app.workdir_selected(), Some(1));
    assert_eq!(app.workdir_offset(), 0);
}

#[test]
fn collapsing_output_moves_log_focus_to_jobs() {
    let mut app = test_app(1, Some(0));
    app.set_focus(Focus::Log);
    app.set_output_mode(OutputPanelMode::Stderr);
    let _ = draw_app(&mut app, 120, 40);

    app.handle(AppMessage::Key(key('o')));

    assert_eq!(app.output_mode(), OutputPanelMode::Collapsed);
    assert_eq!(app.focus(), Focus::Jobs);
}

#[test]
fn leaving_collapsed_keeps_jobs_focus() {
    let mut app = test_app(1, Some(0));
    app.set_focus(Focus::Jobs);
    app.set_output_mode(OutputPanelMode::Collapsed);
    let _ = draw_app(&mut app, 120, 40);

    app.handle(AppMessage::Key(key('o')));

    assert_eq!(app.output_mode(), OutputPanelMode::Workdir);
    assert_eq!(app.focus(), Focus::Jobs);
}

#[test]
fn output_mode_switch_resets_tail_position() {
    let mut app = test_app(1, Some(0));
    app.set_focus(Focus::Log);
    app.set_output_mode(OutputPanelMode::Stdout);
    app.set_output_anchor(ScrollAnchor::Top);
    app.set_output_offset(7);
    let _ = draw_app(&mut app, 120, 40);

    app.handle(AppMessage::Key(key('o')));

    assert_eq!(app.output_mode(), OutputPanelMode::Stderr);
    assert_eq!(app.output_anchor(), ScrollAnchor::Bottom);
    assert_eq!(app.output_offset(), 0);
}

#[test]
fn horizontal_output_scroll_clamps_and_wrap_resets_offset() {
    let mut app =
        app_with_output_lines(&["012345678901234567890123456789012345678901234567890123456789"]);
    let _ = draw_app(&mut app, 24, 29);
    app.set_focus(Focus::Log);
    app.set_output_wrap(false);

    app.handle(AppMessage::Key(key('L')));
    assert_eq!(app.output_scroll_x(), app.layout().viewport.width / 2);

    for _ in 0..u16::MAX {
        app.handle(AppMessage::Key(key('L')));
    }
    let max_x = app.max_output_scroll_x();
    assert!(max_x > 0);
    assert_eq!(app.output_scroll_x(), max_x);

    app.handle(AppMessage::Key(key('H')));
    assert!(app.output_scroll_x() < max_x);
    for _ in 0..u16::MAX {
        app.handle(AppMessage::Key(key('H')));
    }
    assert_eq!(app.output_scroll_x(), 0);

    app.handle(AppMessage::Key(key('w')));
    assert!(app.output_wrap());
    assert_eq!(app.output_scroll_x(), 0);
}

#[test]
fn app_output_log_focus_routes_navigation_to_log_scrolling() {
    let mut app = test_app(30, Some(2));
    let _ = draw_app(&mut app, 120, 29);
    app.set_output_mode(OutputPanelMode::Stdout);
    app.set_focus(Focus::Log);
    app.set_job_output(
        (0..32)
            .map(|i| format!("line {i}"))
            .collect::<Vec<_>>()
            .join("\n"),
    );
    app.set_output_anchor(ScrollAnchor::Top);
    app.set_output_offset(0);

    app.handle(AppMessage::Key(key('j')));
    assert_eq!(app.selected_job_index(), Some(2));
    assert_eq!(app.output_offset(), 1);

    app.handle(AppMessage::Key(special_key(KeyCode::PageDown)));
    assert!(app.output_offset() > 1);

    app.handle(AppMessage::Key(key('G')));
    assert_eq!(app.output_anchor(), ScrollAnchor::Bottom);
    assert_eq!(app.output_offset(), 0);

    app.handle(AppMessage::Key(key('g')));
    assert_eq!(app.output_anchor(), ScrollAnchor::Top);
    assert_eq!(app.output_offset(), 0);

    app.handle(AppMessage::Key(key('w')));
    assert!(app.output_wrap());
}

#[test]
fn output_scroll_clamps_at_file_start_and_end() {
    let mut app = test_app(1, Some(0));
    let _ = draw_app(&mut app, 120, 29);
    app.set_focus(Focus::Log);
    app.set_job_output(
        (0..32)
            .map(|i| format!("line {i}"))
            .collect::<Vec<_>>()
            .join("\n"),
    );

    app.set_output_anchor(ScrollAnchor::Top);
    app.set_output_offset(0);
    app.handle(AppMessage::Key(key('k')));
    assert_eq!(app.output_offset(), 0);

    for _ in 0..u16::MAX {
        app.handle(AppMessage::Key(special_key(KeyCode::PageDown)));
    }
    let max_offset = app.max_output_offset();
    assert_eq!(app.output_offset(), max_offset);

    app.set_output_anchor(ScrollAnchor::Bottom);
    app.set_output_offset(0);
    app.handle(AppMessage::Key(key('j')));
    assert_eq!(app.output_offset(), 0);
}

#[test]
fn resources_and_job_details_share_the_top_row() {
    let mut app = test_app(3, Some(0));
    let _ = draw_app(&mut app, 100, 40);

    assert_eq!(app.resource_area(), Rect::new(0, 0, 35, 28));
    assert_eq!(app.job_list_area().y, 0);
    assert!(app.job_details_area().y > app.job_list_area().y);
    assert_eq!(app.job_list_area().x, 34);
    assert_eq!(app.job_list_area().width, 66);
    assert!(app.job_details_area().x > app.job_list_area().x);
    assert_eq!(app.job_output_area().x, 0);
    assert_eq!(app.job_output_area().width, 100);
    assert_eq!(
        app.job_output_area().y,
        app.job_list_area().y + app.job_list_area().height
    );
    assert!(app.job_output_area().height >= 4);
}

#[test]
fn output_requires_minimum_height_and_top_panel_is_bounded() {
    let mut short = test_app(1, Some(0));
    let _ = draw_app(&mut short, 100, 28);
    assert_eq!(short.job_output_area(), Rect::zero());
    assert_eq!(short.job_list_area().height, 26);

    let mut minimum = test_app(1, Some(0));
    let _ = draw_app(&mut minimum, 100, 29);
    assert_eq!(minimum.job_list_area().height, 23);
    assert_eq!(minimum.job_output_area().height, 4);

    let mut large = test_app(1, Some(0));
    let _ = draw_app(&mut large, 100, 50);
    assert_eq!(large.job_list_area().height, 31);
    assert_eq!(large.job_output_area().height, 17);
}

#[test]
fn o_cycles_output_modes_in_order() {
    let mut app = test_app(1, Some(0));
    let _ = draw_app(&mut app, 120, 40);

    for expected_mode in [
        OutputPanelMode::Stdout,
        OutputPanelMode::Stderr,
        OutputPanelMode::Collapsed,
        OutputPanelMode::Workdir,
    ] {
        app.handle(AppMessage::Key(key('o')));
        assert_eq!(app.output_mode(), expected_mode);
    }
}

#[test]
fn tab_cycles_output_modes_in_order() {
    let mut app = test_app(1, Some(0));
    let _ = draw_app(&mut app, 120, 40);

    for expected_mode in [
        OutputPanelMode::Stdout,
        OutputPanelMode::Stderr,
        OutputPanelMode::Collapsed,
        OutputPanelMode::Workdir,
    ] {
        app.handle(AppMessage::Key(special_key(KeyCode::Tab)));
        assert_eq!(app.output_mode(), expected_mode);
    }
}

#[test]
fn o_switches_output_mode_from_every_focus() {
    for focus in [Focus::Resources, Focus::Jobs, Focus::Details, Focus::Log] {
        let mut app = test_app(1, Some(0));
        app.set_focus(focus);
        let _ = draw_app(&mut app, 120, 40);

        app.handle(AppMessage::Key(key('o')));

        assert_eq!(
            app.output_mode(),
            OutputPanelMode::Stdout,
            "focus {focus:?}"
        );
    }
}

#[test]
fn app_rendering_jobs_half_page_up_uses_body_row_height() {
    let mut app = test_app(30, Some(20));
    let _ = draw_app(&mut app, 120, 20);
    let body_rows = app.job_list_height();
    let start = 20usize;

    app.scroll_jobs_half_page_up();
    assert_eq!(
        app.selected_job_index(),
        Some(start.saturating_sub((body_rows / 2) as usize))
    );
}

#[test]
fn tests_jobs_half_page_up_uses_body_row_height() {
    let mut app = test_app(30, Some(20));
    let _ = draw_app(&mut app, 120, 20);
    let body_rows = app.job_list_height();
    let start = 20usize;

    app.scroll_jobs_half_page_up();
    assert_eq!(
        app.selected_job_index(),
        Some(start.saturating_sub((body_rows / 2) as usize))
    );
}

#[test]
fn app_resources_resources_panel_uses_top_left_area() {
    let mut app = test_app(3, Some(0));
    let _ = draw_app(&mut app, 100, 20);
    // Resources and JOB/Details share the top row.
    assert_eq!(app.resource_area().x, 0);
    assert_eq!(app.resource_area().y, 0);
    assert_eq!(app.resource_area().width, 35);
    assert_eq!(app.job_list_area().x, 34);
    assert_eq!(app.job_list_area().width, 66);
    assert_eq!(app.job_list_area().y, app.resource_area().y);
    assert!(app.job_details_area().y > app.resource_area().y);
    assert!(app.job_details_area().bottom() <= app.resource_area().bottom());
}

#[test]
fn tests_filter_dialog_accepts_q_without_quitting_or_sorting() {
    let mut app = test_app(3, Some(0));
    open_filter(&mut app);

    let (should_quit, should_draw) = app.handle_input_event(key('q'));
    assert!(!should_quit);
    assert!(should_draw);
    assert_eq!(app.sort_field(), JobSortField::Time);

    match app.dialog() {
        Some(Dialog::FilterJobs { input }) => assert_eq!(input.value(), "q"),
        _ => panic!("expected filter dialog"),
    }
}
