#![allow(dead_code)]
use turm::test_support::{
    cancellation_action as cancel_confirmation_action, chunk_string as chunked_string,
    validate_time_limit as validated_time_limit, watched_path as watched_output_path, AppDriver,
    TestJobSortField as JobSortField, TestSortDirection as SortDirection,
    TestWorkdirEntry as WorkdirEntry, TestWorkdirEntryKind as WorkdirEntryKind,
};
use turm::ui::{Key, KeyCode, KeyModifiers, TextInput};
use turm::{AppExit, AppMessage, ConfirmCancelChoice, Dialog, Focus, Job, OutputPanelMode, ScrollAnchor};

fn test_job(index: usize) -> Job {
    turm::test_support::test_job(index)
}

fn test_app(job_count: usize, selected: Option<usize>) -> AppDriver {
    AppDriver::new(job_count, selected)
}

fn app_with_jobs(jobs: Vec<Job>, selected: Option<usize>) -> AppDriver {
    AppDriver::with_jobs(jobs, selected)
}

fn visible_job_ids(app: &AppDriver) -> Vec<String> {
    app.visible_job_ids()
}

fn ids(values: &[&str]) -> Vec<String> {
    values.iter().map(|value| (*value).to_string()).collect()
}

fn filter_test_jobs() -> Vec<Job> {
    let mut alpha = test_job(0);
    alpha.job_id = "101512".to_string();
    alpha.array_id = "101512".to_string();
    alpha.name = "vasp-alpha".to_string();
    alpha.user = "chlo".to_string();
    alpha.partition = "gpu".to_string();
    alpha.state = "RUNNING".to_string();
    alpha.state_compact = "R".to_string();
    alpha.time = "7:00".to_string();

    let mut beta = test_job(1);
    beta.job_id = "202000".to_string();
    beta.array_id = "202000".to_string();
    beta.name = "relax-beta".to_string();
    beta.user = "alex".to_string();
    beta.partition = "debug".to_string();
    beta.state = "PENDING".to_string();
    beta.state_compact = "PD".to_string();
    beta.time = "00:10:00".to_string();

    let mut gamma = test_job(2);
    gamma.job_id = "303333".to_string();
    gamma.array_id = "303333".to_string();
    gamma.name = "analysis-gamma".to_string();
    gamma.user = "chlo".to_string();
    gamma.partition = "cpu".to_string();
    gamma.state = "COMPLETED".to_string();
    gamma.state_compact = "CG".to_string();
    gamma.time = "01:23:00".to_string();

    vec![alpha, beta, gamma]
}

fn key(char_key: char) -> Key {
    Key::new(KeyCode::Char(char_key), KeyModifiers::none())
}

fn special_key(code: KeyCode) -> Key {
    Key::new(code, KeyModifiers::none())
}

fn key_with_modifiers(char_key: char, modifiers: KeyModifiers) -> Key {
    Key::new(KeyCode::Char(char_key), modifiers)
}

fn open_filter(app: &mut AppDriver) {
    app.handle(AppMessage::Key(key('f')));
}

fn type_in_filter(app: &mut AppDriver, value: &str) {
    for ch in value.chars() {
        app.handle(AppMessage::Key(key(ch)));
    }
}

fn filtered_jobs_app() -> AppDriver {
    let mut app = app_with_jobs(filter_test_jobs(), Some(0));
    app.apply_job_filter("id:101512");
    app
}

fn app_with_output_lines(lines: &[&str]) -> AppDriver {
    let mut app = test_app(1, Some(0));
    app.set_output_mode(OutputPanelMode::Stdout);
    app.set_job_output(lines.join("\n"));
    app
}

fn copyable_jobs_app() -> AppDriver {
    let mut app = filtered_jobs_app();
    app.app.jobs.jobs[0].stdout = Some("/scratch/chlo/vasp-alpha/stdout.log".to_string());
    app.app.jobs.jobs[0].stderr = Some("/scratch/chlo/vasp-alpha/stderr.log".to_string());
    app
}

fn copyable_jobs_app_with_output_path(path: &str) -> AppDriver {
    let mut app = filtered_jobs_app();
    app.app.jobs.jobs[0].stdout = Some(path.to_string());
    app.app.jobs.jobs[0].stderr = Some(path.to_string());
    app
}

#[test]
fn app_filtering_sorting_sort_keys_toggle_direction_and_switch_fields() {
    let mut app = test_app(3, Some(0));

    app.handle(AppMessage::Key(key('n')));
    assert_eq!(app.sort_field(), JobSortField::Name);
    assert_eq!(app.sort_direction(), SortDirection::Desc);

    app.handle(AppMessage::Key(key('n')));
    assert_eq!(app.sort_field(), JobSortField::Name);
    assert_eq!(app.sort_direction(), SortDirection::Asc);

    app.handle(AppMessage::Key(key('p')));
    assert_eq!(app.sort_field(), JobSortField::Partition);
    assert_eq!(app.sort_direction(), SortDirection::Desc);

    app.handle(AppMessage::Key(key('j')));
    assert_eq!(app.sort_field(), JobSortField::Id);
    assert_eq!(app.sort_direction(), SortDirection::Desc);
}

#[test]
fn app_filtering_sorting_sorting_job_ids_is_numeric() {
    let mut jobs = vec![test_job(0), test_job(1), test_job(2)];
    jobs[0].job_id = "9".to_string();
    jobs[0].array_id = "9".to_string();
    jobs[1].job_id = "100".to_string();
    jobs[1].array_id = "100".to_string();
    jobs[2].job_id = "99".to_string();
    jobs[2].array_id = "99".to_string();

    let mut app = app_with_jobs(jobs, Some(0));
    app.set_sort(JobSortField::Id, SortDirection::Desc);
    app.sort_jobs();

    assert_eq!(app.job_ids(), vec!["100", "99", "9"]);
}

#[test]
fn app_filtering_sorting_sorting_preserves_selected_job_by_id() {
    let mut jobs = vec![test_job(0), test_job(1), test_job(2)];
    jobs[0].name = "alpha".to_string();
    jobs[1].name = "charlie".to_string();
    jobs[2].name = "bravo".to_string();

    let mut app = app_with_jobs(jobs, Some(2));
    let selected_before = app.selected_job_id();

    app.handle(AppMessage::Key(key('n')));

    assert_eq!(app.selected_job_id(), selected_before);
}

#[test]
fn default_time_sort_places_completed_jobs_last() {
    let mut jobs = vec![test_job(0), test_job(1), test_job(2)];
    jobs[0].time = "00:01:00".to_string();
    jobs[1].time = "00:03:00".to_string();
    jobs[1].state_compact = "CD".to_string();
    jobs[2].time = "00:02:00".to_string();

    let mut app = app_with_jobs(jobs, Some(0));
    app.set_sort(JobSortField::Time, SortDirection::Asc);
    app.sort_jobs();

    assert_eq!(app.job_ids(), vec!["1000", "1002", "1001"]);
}

#[test]
fn completed_jobs_stay_last_for_explicit_sorting() {
    let mut jobs = vec![test_job(0), test_job(1), test_job(2)];
    jobs[0].name = "zeta".to_string();
    jobs[1].name = "alpha".to_string();
    jobs[1].state_compact = "CD".to_string();
    jobs[2].name = "beta".to_string();

    let mut app = app_with_jobs(jobs, Some(0));
    app.set_sort(JobSortField::Name, SortDirection::Asc);
    app.sort_jobs();

    assert_eq!(app.job_ids(), vec!["1002", "1000", "1001"]);
}

#[test]
fn app_filtering_sorting_f_opens_filter_dialog_with_active_filter_draft() {
    let mut app = test_app(2, Some(0));
    app.set_active_filter("name:vasp".to_string());

    open_filter(&mut app);

    match app.dialog() {
        Some(Dialog::FilterJobs { input }) => assert_eq!(input.value(), "name:vasp"),
        _ => panic!("expected filter dialog"),
    }
}

#[test]
fn app_filtering_sorting_filter_dialog_accepts_q_without_quitting_or_sorting() {
    let mut app = test_app(3, Some(0));
    open_filter(&mut app);

    let (should_quit, should_draw) = app.handle_input_event((key('q')));
    assert!(!should_quit);
    assert!(should_draw);
    assert_eq!(app.sort_field(), JobSortField::Time);

    match app.dialog() {
        Some(Dialog::FilterJobs { input }) => assert_eq!(input.value(), "q"),
        _ => panic!("expected filter dialog"),
    }
}

#[test]
fn app_filtering_sorting_typing_enter_esc_and_clear_work_in_filter_dialog() {
    let mut app = app_with_jobs(filter_test_jobs(), Some(0));

    open_filter(&mut app);
    app.handle(AppMessage::Key(key('n')));
    assert_eq!(app.sort_field(), JobSortField::Time);

    type_in_filter(&mut app, "ame:vasp");
    app.handle(AppMessage::Key(key_with_modifiers(
        'u',
        KeyModifiers::control_only(),
    )));
    match app.dialog() {
        Some(Dialog::FilterJobs { input }) => assert_eq!(input.value(), ""),
        _ => panic!("expected filter dialog"),
    }

    type_in_filter(&mut app, "name:vasp");
    app.handle(AppMessage::Key(Key::new(
        KeyCode::Enter,
        KeyModifiers::none(),
    )));
    assert!(app.dialog().is_none());
    assert_eq!(app.active_filter(), "name:vasp");
    assert_eq!(visible_job_ids(&app), ids(&["101512"]));

    open_filter(&mut app);
    type_in_filter(&mut app, "-edited");
    app.handle(AppMessage::Key(Key::new(
        KeyCode::Esc,
        KeyModifiers::none(),
    )));
    assert!(app.dialog().is_none());
    assert_eq!(app.active_filter(), "name:vasp");
}

#[test]
fn app_filtering_sorting_free_text_filter_matches_visible_job_fields() {
    let expectations: [(&str, &[&str]); 6] = [
        ("vasp", &["101512"]),
        ("gpu", &["101512"]),
        ("chlo", &["101512", "303333"]),
        ("PD", &["202000"]),
        ("7:00", &["101512"]),
        ("101512", &["101512"]),
    ];

    for (query, expected) in expectations {
        let mut app = app_with_jobs(filter_test_jobs(), Some(0));
        app.apply_job_filter(query);
        assert_eq!(visible_job_ids(&app), ids(expected), "query {query}");
    }
}

#[test]
fn app_filtering_sorting_field_filters_match_expected_columns() {
    let expectations: [(&str, &[&str]); 10] = [
        ("job:101512", &["101512"]),
        ("job:vasp", &["101512"]),
        ("id:202000", &["202000"]),
        ("name:analysis", &["303333"]),
        ("user:alex", &["202000"]),
        ("partition:gpu", &["101512"]),
        ("part:cpu", &["303333"]),
        ("state:running", &["101512"]),
        ("st:PD", &["202000"]),
        ("time:01:23", &["303333"]),
    ];

    for (query, expected) in expectations {
        let mut app = app_with_jobs(filter_test_jobs(), Some(0));
        app.apply_job_filter(query);
        assert_eq!(visible_job_ids(&app), ids(expected), "query {query}");
    }
}

#[test]
fn app_filtering_sorting_unknown_field_prefix_falls_back_to_free_text() {
    let mut jobs = filter_test_jobs();
    jobs[2].name = "unknown:needle".to_string();
    let mut app = app_with_jobs(jobs, Some(0));

    app.apply_job_filter("unknown:needle");

    assert_eq!(visible_job_ids(&app), ids(&["303333"]));
}

#[test]
fn app_filtering_sorting_filtering_preserves_selection_and_uses_visible_fallbacks() {
    let mut app = app_with_jobs(filter_test_jobs(), Some(1));

    app.apply_job_filter("state:pd");
    assert_eq!(app.selected_job_id(), Some("202000".to_string()));
    assert_eq!(app.selected_job_index(), Some(0));

    app.apply_job_filter("user:chlo");
    assert_eq!(app.selected_job_id(), Some("101512".to_string()));
    assert_eq!(app.selected_job_index(), Some(0));

    app.apply_job_filter("name:missing");
    assert_eq!(app.selected_job_id(), None);
    assert_eq!(app.selected_job_index(), None);

    app.apply_job_filter("");
    assert_eq!(visible_job_ids(&app), ids(&["101512", "202000", "303333"]));
    assert_eq!(app.selected_job_id(), Some("101512".to_string()));
    assert_eq!(app.selected_job_index(), Some(0));
}

#[test]
fn app_filtering_sorting_filtering_keeps_active_sort_order() {
    let mut app = app_with_jobs(filter_test_jobs(), Some(0));

    app.handle(AppMessage::Key(key('n')));
    app.handle(AppMessage::Key(key('n')));
    app.apply_job_filter("user:chlo");

    assert_eq!(app.sort_field(), JobSortField::Name);
    assert_eq!(app.sort_direction(), SortDirection::Asc);
    assert_eq!(visible_job_ids(&app), ids(&["303333", "101512"]));
}

