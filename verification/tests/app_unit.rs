#![allow(dead_code)]
use turm::test_support::{
    cancellation_action as cancel_confirmation_action, chunk_string as chunked_string,
    validate_time_limit as validated_time_limit, watched_path as watched_output_path, AppDriver,
    TestJobSortField as JobSortField, TestSortDirection as SortDirection,
    TestWorkdirEntry as WorkdirEntry, TestWorkdirEntryKind as WorkdirEntryKind,
};
use turm::ui::{Key, KeyCode, KeyModifiers, TextInput};
use turm::{AppExit, AppMessage, ConfirmCancelChoice, Dialog, Focus, Job, OutputPanelMode, ScrollAnchor};

fn test_job(index: usize) -> Job {
    turm::test_support::test_job(index)
}

fn test_app(job_count: usize, selected: Option<usize>) -> AppDriver {
    AppDriver::new(job_count, selected)
}

fn app_with_jobs(jobs: Vec<Job>, selected: Option<usize>) -> AppDriver {
    AppDriver::with_jobs(jobs, selected)
}

fn visible_job_ids(app: &AppDriver) -> Vec<String> {
    app.visible_job_ids()
}

fn ids(values: &[&str]) -> Vec<String> {
    values.iter().map(|value| (*value).to_string()).collect()
}

fn filter_test_jobs() -> Vec<Job> {
    let mut alpha = test_job(0);
    alpha.job_id = "101512".to_string();
    alpha.array_id = "101512".to_string();
    alpha.name = "vasp-alpha".to_string();
    alpha.user = "chlo".to_string();
    alpha.partition = "gpu".to_string();
    alpha.state = "RUNNING".to_string();
    alpha.state_compact = "R".to_string();
    alpha.time = "7:00".to_string();

    let mut beta = test_job(1);
    beta.job_id = "202000".to_string();
    beta.array_id = "202000".to_string();
    beta.name = "relax-beta".to_string();
    beta.user = "alex".to_string();
    beta.partition = "debug".to_string();
    beta.state = "PENDING".to_string();
    beta.state_compact = "PD".to_string();
    beta.time = "00:10:00".to_string();

    let mut gamma = test_job(2);
    gamma.job_id = "303333".to_string();
    gamma.array_id = "303333".to_string();
    gamma.name = "analysis-gamma".to_string();
    gamma.user = "chlo".to_string();
    gamma.partition = "cpu".to_string();
    gamma.state = "COMPLETED".to_string();
    gamma.state_compact = "CG".to_string();
    gamma.time = "01:23:00".to_string();

    vec![alpha, beta, gamma]
}

fn key(char_key: char) -> Key {
    Key::new(KeyCode::Char(char_key), KeyModifiers::none())
}

fn special_key(code: KeyCode) -> Key {
    Key::new(code, KeyModifiers::none())
}

fn key_with_modifiers(char_key: char, modifiers: KeyModifiers) -> Key {
    Key::new(KeyCode::Char(char_key), modifiers)
}

fn open_filter(app: &mut AppDriver) {
    app.handle(AppMessage::Key(key('f')));
}

fn type_in_filter(app: &mut AppDriver, value: &str) {
    for ch in value.chars() {
        app.handle(AppMessage::Key(key(ch)));
    }
}

fn filtered_jobs_app() -> AppDriver {
    let mut app = app_with_jobs(filter_test_jobs(), Some(0));
    app.apply_job_filter("id:101512");
    app
}

fn app_with_output_lines(lines: &[&str]) -> AppDriver {
    let mut app = test_app(1, Some(0));
    app.set_output_mode(OutputPanelMode::Stdout);
    app.set_job_output(lines.join("\n"));
    app
}

fn copyable_jobs_app() -> AppDriver {
    let mut app = filtered_jobs_app();
    app.app.jobs.jobs[0].stdout = Some("/scratch/chlo/vasp-alpha/stdout.log".to_string());
    app.app.jobs.jobs[0].stderr = Some("/scratch/chlo/vasp-alpha/stderr.log".to_string());
    app
}

fn copyable_jobs_app_with_output_path(path: &str) -> AppDriver {
    let mut app = filtered_jobs_app();
    app.app.jobs.jobs[0].stdout = Some(path.to_string());
    app.app.jobs.jobs[0].stderr = Some(path.to_string());
    app
}

#[test]
fn tests_sort_keys_toggle_direction_and_switch_fields() {
    let mut app = test_app(3, Some(0));

    app.handle(AppMessage::Key(key('n')));
    assert_eq!(app.sort_field(), JobSortField::Name);
    assert_eq!(app.sort_direction(), SortDirection::Desc);

    app.handle(AppMessage::Key(key('n')));
    assert_eq!(app.sort_field(), JobSortField::Name);
    assert_eq!(app.sort_direction(), SortDirection::Asc);

    app.handle(AppMessage::Key(key('p')));
    assert_eq!(app.sort_field(), JobSortField::Partition);
    assert_eq!(app.sort_direction(), SortDirection::Desc);
}

#[test]
fn tests_sorting_job_ids_is_numeric() {
    let mut jobs = vec![test_job(0), test_job(1), test_job(2)];
    jobs[0].job_id = "9".to_string();
    jobs[0].array_id = "9".to_string();
    jobs[1].job_id = "100".to_string();
    jobs[1].array_id = "100".to_string();
    jobs[2].job_id = "99".to_string();
    jobs[2].array_id = "99".to_string();

    let mut app = app_with_jobs(jobs, Some(0));
    app.set_sort(JobSortField::Id, SortDirection::Desc);
    app.sort_jobs();

    assert_eq!(
        app.jobs().iter().map(Job::id).collect::<Vec<_>>(),
        vec!["100", "99", "9"]
    );
}

#[test]
fn tests_sorting_preserves_selected_job_by_id() {
    let mut jobs = vec![test_job(0), test_job(1), test_job(2)];
    jobs[0].name = "alpha".to_string();
    jobs[1].name = "charlie".to_string();
    jobs[2].name = "bravo".to_string();

    let mut app = app_with_jobs(jobs, Some(2));
    let selected_before = app.selected_job_id();

    app.handle(AppMessage::Key(key('n')));

    assert_eq!(app.selected_job_id(), selected_before);
}

#[test]
fn tests_ctrl_t_still_opens_time_limit_dialog() {
    let mut app = test_app(2, Some(0));

    app.handle(AppMessage::Key(key_with_modifiers(
        't',
        KeyModifiers::control_only(),
    )));

    assert!(matches!(app.dialog(), Some(Dialog::EditTimeLimit { .. })));
}

#[test]
fn tests_test_chunked_string() {
    let input = "abcdefghij";
    let expected = vec!["abcd", "ef", "gh", "ij"];
    assert_eq!(chunked_string(input, 4, 2), expected);

    let input = "123456789";
    let expected = vec!["1234", "56", "78", "9"];
    assert_eq!(chunked_string(input, 4, 2), expected);

    let input = "abc";
    let expected = vec!["abc"];
    assert_eq!(chunked_string(input, 4, 2), expected);

    let input = "abcde";
    let expected = vec!["abcd", "e"];
    assert_eq!(chunked_string(input, 4, 2), expected);

    let input = "";
    let expected: Vec<&str> = vec![""];
    assert_eq!(chunked_string(input, 4, 2), expected);

    let input = "123456789";
    let expected = vec!["1234", "56789"];
    assert_eq!(chunked_string(input, 4, 0), expected);

    let input = "123456789";
    let expected = vec!["12", "34", "56", "78", "9"];
    assert_eq!(chunked_string(input, 0, 2), expected);

    let input = "123456789";
    let expected = vec!["123456789"];
    assert_eq!(chunked_string(input, 0, 0), expected);
}

#[test]
fn tests_test_validated_time_limit() {
    assert_eq!(validated_time_limit(&TextInput::new("".to_string())), None);
    assert_eq!(validated_time_limit(&TextInput::new("   ".to_string())), None);
    assert_eq!(
        validated_time_limit(&TextInput::new(" 01:00:00 ".to_string())),
        Some("01:00:00".to_string())
    );
}

#[test]
fn tests_f_opens_filter_dialog_with_active_filter_draft() {
    let mut app = test_app(2, Some(0));
    app.set_active_filter("name:vasp".to_string());

    open_filter(&mut app);

    match app.dialog() {
        Some(Dialog::FilterJobs { input }) => assert_eq!(input.value(), "name:vasp"),
        _ => panic!("expected filter dialog"),
    }
}

#[test]
fn tests_typing_enter_esc_and_clear_work_in_filter_dialog() {
    let mut app = app_with_jobs(filter_test_jobs(), Some(0));

    open_filter(&mut app);
    app.handle(AppMessage::Key(key('n')));
    assert_eq!(app.sort_field(), JobSortField::Time);

    type_in_filter(&mut app, "ame:vasp");
    app.handle(AppMessage::Key(key_with_modifiers(
        'u',
        KeyModifiers::control_only(),
    )));
    match app.dialog() {
        Some(Dialog::FilterJobs { input }) => assert_eq!(input.value(), ""),
        _ => panic!("expected filter dialog"),
    }

    type_in_filter(&mut app, "name:vasp");
    app.handle(AppMessage::Key(Key::new(
        KeyCode::Enter,
        KeyModifiers::none(),
    )));
    assert!(app.dialog().is_none());
    assert_eq!(app.active_filter(), "name:vasp");
    assert_eq!(visible_job_ids(&app), ids(&["101512"]));

    open_filter(&mut app);
    type_in_filter(&mut app, "-edited");
    app.handle(AppMessage::Key(Key::new(
        KeyCode::Esc,
        KeyModifiers::none(),
    )));
    assert!(app.dialog().is_none());
    assert_eq!(app.active_filter(), "name:vasp");
}

#[test]
fn tests_free_text_filter_matches_visible_job_fields() {
    let expectations: [(&str, &[&str]); 6] = [
        ("vasp", &["101512"]),
        ("gpu", &["101512"]),
        ("chlo", &["101512", "303333"]),
        ("PD", &["202000"]),
        ("7:00", &["101512"]),
        ("101512", &["101512"]),
    ];

    for (query, expected) in expectations {
        let mut app = app_with_jobs(filter_test_jobs(), Some(0));
        app.apply_job_filter(query);
        assert_eq!(visible_job_ids(&app), ids(expected), "query {query}");
    }
}

#[test]
fn tests_field_filters_match_expected_columns() {
    let expectations: [(&str, &[&str]); 10] = [
        ("job:101512", &["101512"]),
        ("job:vasp", &["101512"]),
        ("id:202000", &["202000"]),
        ("name:analysis", &["303333"]),
        ("user:alex", &["202000"]),
        ("partition:gpu", &["101512"]),
        ("part:cpu", &["303333"]),
        ("state:running", &["101512"]),
        ("st:PD", &["202000"]),
        ("time:01:23", &["303333"]),
    ];

    for (query, expected) in expectations {
        let mut app = app_with_jobs(filter_test_jobs(), Some(0));
        app.apply_job_filter(query);
        assert_eq!(visible_job_ids(&app), ids(expected), "query {query}");
    }
}

#[test]
fn tests_unknown_field_prefix_falls_back_to_free_text() {
    let mut jobs = filter_test_jobs();
    jobs[2].name = "unknown:needle".to_string();
    let mut app = app_with_jobs(jobs, Some(0));

    app.apply_job_filter("unknown:needle");

    assert_eq!(visible_job_ids(&app), ids(&["303333"]));
}

#[test]
fn tests_filtering_preserves_selection_and_uses_visible_fallbacks() {
    let mut app = app_with_jobs(filter_test_jobs(), Some(1));

    app.apply_job_filter("state:pd");
    assert_eq!(app.selected_job_id(), Some("202000".to_string()));
    assert_eq!(app.selected_job_index(), Some(0));

    app.apply_job_filter("user:chlo");
    assert_eq!(app.selected_job_id(), Some("101512".to_string()));
    assert_eq!(app.selected_job_index(), Some(0));

    app.apply_job_filter("name:missing");
    assert_eq!(app.selected_job_id(), None);
    assert_eq!(app.selected_job_index(), None);

    app.apply_job_filter("");
    assert_eq!(visible_job_ids(&app), ids(&["101512", "202000", "303333"]));
    assert_eq!(app.selected_job_id(), Some("101512".to_string()));
    assert_eq!(app.selected_job_index(), Some(0));
}

#[test]
fn tests_filtering_keeps_active_sort_order() {
    let mut app = app_with_jobs(filter_test_jobs(), Some(0));

    app.handle(AppMessage::Key(key('n')));
    app.handle(AppMessage::Key(key('n')));
    app.apply_job_filter("user:chlo");

    assert_eq!(app.sort_field(), JobSortField::Name);
    assert_eq!(app.sort_direction(), SortDirection::Asc);
    assert_eq!(visible_job_ids(&app), ids(&["303333", "101512"]));
}

#[test]
fn tests_filter_dialog_keeps_bracket_input_and_focus() {
    let mut app = test_app(3, Some(0));
    open_filter(&mut app);

    app.handle(AppMessage::Key(key(']')));
    app.handle(AppMessage::Key(key('[')));

    assert_eq!(app.focus(), Focus::Jobs);
    match app.dialog() {
        Some(Dialog::FilterJobs { input }) => assert_eq!(input.value(), "]["),
        _ => panic!("expected filter dialog"),
    }
}

#[test]
fn tests_ctrl_d_in_jobs_focus_opens_cancel_confirmation_popup() {
    let mut app = filtered_jobs_app();

    app.handle(AppMessage::Key(key_with_modifiers(
        'd',
        KeyModifiers::control_only(),
    )));

    match app.dialog() {
        Some(Dialog::ConfirmCancelJob {
            id, name, signal, ..
        }) => {
            assert_eq!(id, "101512");
            assert_eq!(name, "vasp-alpha");
            assert_eq!(*signal, None);
        }
        _ => panic!("expected confirm cancel dialog"),
    }
}

#[test]
fn ctrl_d_in_details_focus_opens_cancel_popup() {
    let mut app = filtered_jobs_app();
    app.set_focus(Focus::Details);

    app.handle(AppMessage::Key(key_with_modifiers(
        'd',
        KeyModifiers::control_only(),
    )));

    assert!(matches!(app.dialog(), Some(Dialog::ConfirmCancelJob { .. })));
}

#[test]
fn tests_ctrl_d_in_log_focus_opens_cancel_popup() {
    let mut app = filtered_jobs_app();
    app.set_focus(Focus::Log);
    app.set_output_anchor(ScrollAnchor::Top);
    app.set_output_offset(3);

    app.handle(AppMessage::Key(key_with_modifiers(
        'd',
        KeyModifiers::control_only(),
    )));

    assert_eq!(app.output_offset(), 3);
    assert!(matches!(app.dialog(), Some(Dialog::ConfirmCancelJob { .. })));
}

#[test]
fn tests_c_opens_copy_popup_and_uppercase_c_stays_unbound() {
    let mut app = copyable_jobs_app();

    app.handle(AppMessage::Key(key('c')));
    assert!(matches!(
        app.dialog(),
        Some(Dialog::CopyJobOutputDirectory { .. })
    ));

    app.set_dialog(None);
    app.handle(AppMessage::Key(key('C')));
    assert!(app.dialog().is_none());
}


#[test]
fn copy_popup_ignores_plain_d_until_opened() {
    let mut app = copyable_jobs_app();
    app.handle(AppMessage::Key(key('d')));

    assert!(app.dialog().is_none());
    assert!(app.pending_clipboard_copy().is_none());
}

#[test]
fn tests_cancel_confirmation_accepts_safe_close_keys() {
    for key_event in [key('n'), key('N'), special_key(KeyCode::Esc)] {
        let mut app = filtered_jobs_app();
        app.handle(AppMessage::Key(key_with_modifiers(
            'd',
            KeyModifiers::control_only(),
        )));

        app.handle(AppMessage::Key(key_event));
        assert!(app.dialog().is_none());
    }
}


#[test]
fn ctrl_d_with_no_selected_job_does_not_panic_or_open_dialog() {
    let mut app = test_app(0, None);

    app.handle(AppMessage::Key(key_with_modifiers(
        'd',
        KeyModifiers::control_only(),
    )));

    assert!(app.dialog().is_none());
}

#[test]
fn tests_ctrl_d_in_filter_dialog_does_not_open_cancel_popup() {
    let mut app = filtered_jobs_app();
    open_filter(&mut app);

    app.handle(AppMessage::Key(key_with_modifiers(
        'd',
        KeyModifiers::control_only(),
    )));

    assert!(matches!(app.dialog(), Some(Dialog::FilterJobs { .. })));
}

