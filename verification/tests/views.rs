use turm::app::{MouseScrollTarget, MouseWheelDirection};
use turm::mouse::MouseKind;
use turm::selection::SelectionArea;
use turm::details_view::{append_detail, details_selection_rows, job_details, DetailLine};
use turm::geometry::Rect;
use turm::output_panel::WorkdirEntryKind;
use turm::output_text::{fit_text, workdir_text, FitRow, ListedEntry, RowTone};
use turm::resources::PartitionResources;
use turm::screen_text::{
    cancel_dialog_view, command_error_view, copy_dialog_view, dialog_help, enter_hint, input_line,
    is_dimmed_state, prompt_width_of, resource_row, table_scrollbar,
};
use turm::test_support::{test_job, AppDriver};
use turm::ui::TextInput;
use turm::{Dialog, OutputPanelMode, ScrollAnchor};

fn chars(s: &str) -> Vec<char> {
    s.chars().collect()
}

fn text(v: &[char]) -> String {
    v.iter().collect()
}

fn rows(r: &[FitRow]) -> Vec<(bool, String)> {
    r.iter().map(|row| (row.continued, text(&row.text))).collect()
}

#[test]
fn fit_text_reads_from_the_top_past_the_offset() {
    let r = fit_text(&chars("a\nbb\nccc\n"), 5, 10, ScrollAnchor::Top, 1, false, 0);
    assert_eq!(rows(&r), vec![(false, "bb".to_string()), (false, "ccc".to_string())]);
}

#[test]
fn fit_text_from_the_bottom_keeps_the_last_lines_in_order() {
    let r = fit_text(&chars("a\nbb\nccc\n"), 2, 10, ScrollAnchor::Bottom, 0, false, 0);
    assert_eq!(rows(&r), vec![(false, "bb".to_string()), (false, "ccc".to_string())]);
    let r = fit_text(&chars("a\nbb\nccc\n"), 2, 10, ScrollAnchor::Bottom, 1, false, 0);
    assert_eq!(rows(&r), vec![(false, "a".to_string()), (false, "bb".to_string())]);
}

#[test]
fn fit_text_wraps_with_continuation_rows() {
    let r = fit_text(&chars("abcdefgh\n"), 10, 4, ScrollAnchor::Top, 0, true, 0);
    assert_eq!(
        rows(&r),
        vec![(false, "abcd".to_string()), (true, "ef".to_string()), (true, "gh".to_string())]
    );
}

#[test]
fn fit_text_scrolls_sideways_and_drops_an_unfinished_line() {
    let r = fit_text(&chars("abcdef\nxyz"), 5, 3, ScrollAnchor::Top, 0, false, 2);
    assert_eq!(rows(&r), vec![(false, "cde".to_string())]);
}

fn listed(name: &str, kind: WorkdirEntryKind, size: u64, modified: Option<u64>) -> ListedEntry {
    ListedEntry {
        name: name.to_string(),
        kind,
        link_target: String::new(),
        executable: false,
        size,
        modified,
    }
}

#[test]
fn workdir_text_shows_header_and_rows_in_columns() {
    let entries = vec![
        listed("src", WorkdirEntryKind::Directory, 4096, Some(0)),
        listed("a.txt", WorkdirEntryKind::File, 1500, Some(0)),
    ];
    let r = workdir_text(&entries, None, 0, 10, 200, 0, Some(1));
    assert_eq!(r.len(), 3);
    assert_eq!(text(&r[0].text), format!("{:<7} {:>8}  {:<11}", "Name", "size", "mtime"));
    assert_eq!(r[0].tone, RowTone::Header);
    assert_eq!(
        text(&r[1].text),
        format!("{:<7} {:>8}  {:<11}", "\u{f413} src/", "4K", "01/01 00:00")
    );
    assert_eq!(r[1].tone, RowTone::Directory);
    assert!(!r[1].selected);
    assert_eq!(
        text(&r[2].text),
        format!("{:<7} {:>8}  {:<11}", "\u{f4a5} a.txt", "1K", "01/01 00:00")
    );
    assert!(r[2].selected);
    assert_eq!(r[2].tone, RowTone::Plain);
}

#[test]
fn workdir_text_adds_the_year_when_dates_span_years() {
    let entries = vec![
        listed("new", WorkdirEntryKind::File, 12, Some(1_700_000_000)),
        listed("old", WorkdirEntryKind::File, 2_000_000_000, Some(0)),
    ];
    let r = workdir_text(&entries, None, 0, 10, 200, 0, None);
    assert_eq!(
        text(&r[1].text),
        format!("{:<5} {:>8}  {:<16}", "\u{f4a5} new", "12B", "2023/11/14 22:13")
    );
    assert_eq!(
        text(&r[2].text),
        format!("{:<5} {:>8}  {:<16}", "\u{f4a5} old", "2G", "1970/01/01 00:00")
    );
}

#[test]
fn workdir_text_marks_links_executables_and_unknown_times() {
    let mut link = listed("l", WorkdirEntryKind::Symlink, 0, None);
    link.link_target = "/t".to_string();
    let mut exe = listed("run", WorkdirEntryKind::File, 3_500_000, None);
    exe.executable = true;
    let r = workdir_text(&[link, exe], None, 0, 10, 200, 0, None);
    assert_eq!(
        text(&r[1].text),
        format!("{:<9} {:>8}  {:<11}", "\u{f481} l -> /t", "0B", "--/-- --:--")
    );
    assert_eq!(r[1].tone, RowTone::Symlink);
    assert_eq!(r[2].tone, RowTone::Executable);
    assert!(text(&r[2].text).contains("3M"));
}

#[test]
fn workdir_text_shows_a_message_alone_and_honours_offset_and_height() {
    let r = workdir_text(&[], Some("Unable to read workdir: /x"), 0, 10, 8, 2, None);
    assert_eq!(r.len(), 1);
    assert_eq!(text(&r[0].text), "able to ");
    assert_eq!(r[0].tone, RowTone::Message);
    let entries: Vec<ListedEntry> = (0..5)
        .map(|i| listed(&format!("f{i}"), WorkdirEntryKind::File, 1, None))
        .collect();
    let r = workdir_text(&entries, None, 2, 3, 200, 0, None);
    assert_eq!(r.len(), 3);
    assert!(text(&r[1].text).contains("f2"));
    assert!(text(&r[2].text).contains("f3"));
}

fn detail_rows(lines: &[DetailLine]) -> Vec<(usize, String, String)> {
    lines.iter().map(|l| (l.group, text(&l.prefix), text(&l.value))).collect()
}

#[test]
fn job_details_lists_fields_in_groups() {
    let mut job = test_job(0);
    job.state = "PENDING".to_string();
    job.reason = Some("Priority".to_string());
    job.stdout = Some("/out/log".to_string());
    let lines = job_details(&job, OutputPanelMode::Stdout, &None, 40);
    let got = detail_rows(&lines);
    let expected = vec![
        (0, "State    ", "PENDING"),
        (1, "Start    ", "N/A"),
        (2, "Reason   ", "Priority"),
        (3, "Name     ", "job-0"),
        (4, "Command  ", "run-job-0"),
        (5, "Nodes    ", "node-01"),
        (6, "TRES     ", "cpu=1"),
        (7, "stdout   ", "/out/log"),
    ];
    let expected: Vec<(usize, String, String)> = expected
        .into_iter()
        .map(|(g, p, v)| (g, p.to_string(), v.to_string()))
        .collect();
    assert_eq!(got, expected);
}

#[test]
fn job_details_shows_the_workdir_in_workdir_mode() {
    let job = test_job(1);
    let lines = job_details(&job, OutputPanelMode::Workdir, &Some("/work".to_string()), 40);
    let last = detail_rows(&lines).pop().unwrap();
    assert_eq!(last, (5, "workdir  ".to_string(), "/work".to_string()));
}

#[test]
fn append_detail_wraps_long_values_under_blank_labels() {
    let mut lines = Vec::new();
    append_detail(&mut lines, 3, &chars("Command"), &chars("abcdefghijklmnopqrstuvwxy"), 20);
    assert_eq!(
        detail_rows(&lines),
        vec![
            (3, "Command  ".to_string(), "abcdefghijk".to_string()),
            (3, "         ".to_string(), "lmnopqrstuv".to_string()),
            (3, "         ".to_string(), "wxy".to_string()),
        ]
    );
    let mut lines = Vec::new();
    append_detail(&mut lines, 0, &chars("Nodes"), &[], 20);
    assert_eq!(detail_rows(&lines), vec![(0, "Nodes    ".to_string(), String::new())]);
}

#[test]
fn details_selection_rows_follow_the_lines() {
    let mut lines = Vec::new();
    append_detail(&mut lines, 0, &chars("State"), &chars("R"), 20);
    append_detail(&mut lines, 1, &chars("Name"), &chars("x"), 20);
    let rows = details_selection_rows(&lines, Rect { x: 10, y: 5, width: 20, height: 8 });
    assert_eq!(rows.len(), 2);
    assert_eq!((rows[0].y, rows[0].group, rows[0].left, rows[0].value_x, rows[0].right), (5, 0, 10, 19, 29));
    assert_eq!((rows[1].y, rows[1].group), (6, 1));
}

#[test]
fn app_details_lines_are_empty_without_a_selection() {
    let app = AppDriver::new(2, None);
    assert!(app.app.details_lines(40).is_empty());
    let app = AppDriver::new(2, Some(1));
    let lines = app.app.details_lines(40);
    assert_eq!(text(&lines[0].prefix), "State    ");
    assert!(text(&lines[1].value).starts_with("job-"));
}

#[test]
fn job_table_widths_clamp_each_column() {
    let app = AppDriver::new(3, Some(0));
    let w = app.app.jobs.job_table_widths();
    assert_eq!((w.state, w.partition, w.id, w.name, w.user, w.time), (3, 10, 6, 5, 5, 8));
}

#[test]
fn completed_rows_are_dimmed() {
    assert!(is_dimmed_state("CD"));
    assert!(is_dimmed_state("cd"));
    assert!(!is_dimmed_state("CG"));
}

#[test]
fn resource_rows_show_group_share_and_dim_full_partitions() {
    let r = PartitionResources {
        partition: "gpu".to_string(),
        total_nodes: 4,
        running_nodes: 3,
        group_used_nodes: 1,
        available_nodes: 0,
    };
    let row = resource_row(&r);
    assert_eq!(text(&row.used), "3(1)");
    assert_eq!(text(&row.available), "0");
    assert_eq!(text(&row.partition), "gpu");
    assert!(row.dim);
}

#[test]
fn table_scrollbars_show_only_when_rows_overflow() {
    let s = table_scrollbar(5, 10, 2).unwrap();
    assert_eq!((s.max_offset, s.position), (5, 2));
    assert!(table_scrollbar(0, 10, 0).is_none());
    assert!(table_scrollbar(5, 5, 0).is_none());
}

#[test]
fn help_lists_the_open_dialogs_keys() {
    let dialog = Some(Dialog::FilterJobs { input: TextInput::new(String::new()) });
    assert_eq!(dialog_help(&dialog), vec![("enter", "apply"), ("esc", "cancel"), ("ctrl+u", "clear")]);
    assert!(dialog_help(&None).is_empty());
    assert_eq!(enter_hint(OutputPanelMode::Workdir), "cd");
    assert_eq!(enter_hint(OutputPanelMode::Stderr), "edit");
}

#[test]
fn copy_dialog_is_centred_and_truncates_long_values() {
    let url = "u".repeat(70);
    let v = copy_dialog_view(Rect { x: 0, y: 0, width: 100, height: 40 }, &url, "dir");
    assert_eq!((v.area.x, v.area.y, v.area.width, v.area.height), (14, 16, 72, 7));
    assert_eq!(text(&v.dir_url), format!("{}…", "u".repeat(65)));
    assert_eq!(text(&v.dir_name), "dir");
}

#[test]
fn cancel_dialog_sizes_to_its_details() {
    let v = cancel_dialog_view(
        Rect { x: 0, y: 0, width: 50, height: 20 },
        "123",
        "job",
        &vec!["a".to_string()],
    );
    assert_eq!((v.area.x, v.area.y, v.area.width, v.area.height), (2, 6, 46, 8));
    assert_eq!(text(&v.title), "Cancel selected job?");
    assert_eq!(text(&v.job_line), "Job 123");
    assert_eq!(text(&v.rule), "─".repeat(42));
    assert_eq!(v.details.len(), 1);
}

#[test]
fn command_error_dialog_counts_its_lines() {
    let (area, t) = command_error_view(Rect { x: 0, y: 0, width: 100, height: 30 }, "scancel 1", "boom");
    assert_eq!(text(&t), "Command: scancel 1\n\nboom");
    assert_eq!((area.x, area.y, area.width, area.height), (10, 12, 80, 5));
}

#[test]
fn input_line_scrolls_to_keep_the_cursor_visible() {
    let input = TextInput::new("abcdefghij".to_string());
    let line = input_line(&input, Rect { x: 0, y: 3, width: 8, height: 1 }, 4).unwrap();
    assert_eq!(text(&line.visible), "ghij");
    assert_eq!((line.cursor_x, line.cursor_y), (8, 3));
}

#[test]
fn input_line_counts_wide_characters_by_columns() {
    let input = TextInput::new("日本".to_string());
    let line = input_line(&input, Rect { x: 1, y: 0, width: 20, height: 1 }, 0).unwrap();
    assert_eq!(text(&line.visible), "日本");
    assert_eq!(line.cursor_x, 5);
}

#[test]
fn prompt_width_counts_characters() {
    assert_eq!(prompt_width_of("Set name for job ", "42"), 21);
}

#[test]
fn sort_indicator_marks_only_the_sorted_column() {
    let app = AppDriver::new(2, Some(0));
    assert_eq!(app.app.jobs.sort_indicator(turm::sorting::JobSortField::Time), "▲");
    assert_eq!(app.app.jobs.sort_indicator(turm::sorting::JobSortField::Name), "");
}

#[test]
fn mouse_press_starts_a_selection_and_clicks() {
    let mut app = AppDriver::new(3, Some(0));
    let _ = app.render(120, 40);
    let jobs = app.job_list_area();
    let (x, y) = (jobs.x + 4, jobs.y + 3);
    let press = app.app.mouse_step(None, MouseKind::Press, x, y);
    assert!(press.click);
    assert!(press.draw);
    let s = press.selection.expect("a press inside the jobs starts a selection");
    assert_eq!(s.area, SelectionArea::Jobs);
    assert!(!s.dragged);

    let drag = app.app.mouse_step(press.selection, MouseKind::Drag, x + 5, y);
    assert!(drag.selection.unwrap().dragged);

    let release = app.app.mouse_step(drag.selection, MouseKind::Release, x + 5, y);
    assert!(release.selection.is_none());
    assert!(release.copy_from.is_some());

    let short = app.app.mouse_step(press.selection, MouseKind::Release, x, y);
    assert!(short.copy_from.is_none());

    let wheel = app.app.mouse_step(None, MouseKind::ScrollUp, x, y);
    assert_eq!(wheel.wheel, Some((MouseScrollTarget::Jobs, MouseWheelDirection::Up)));
}

#[test]
fn mouse_input_is_ignored_while_a_dialog_is_open() {
    let mut app = AppDriver::new(3, Some(0));
    let _ = app.render(120, 40);
    app.handle(turm::AppMessage::Key(turm::ui::Key::new(
        turm::ui::KeyCode::Char('f'),
        turm::ui::KeyModifiers::none(),
    )));
    let jobs = app.job_list_area();
    let press = app.app.mouse_step(None, MouseKind::Press, jobs.x + 4, jobs.y + 3);
    assert!(!press.click);
    assert!(!press.draw);
    assert!(press.selection.is_none());
}
